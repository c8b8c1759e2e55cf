//! Line classification: the precedence ladder of grammars that turns one
//! raw byte line into a tagged record.
//!
//! Precedence, tried in order on the end-trimmed line:
//! blank, full-line comment, argument-less mnemonic, bare label,
//! label-with-comment, full code grammar, and finally `Unknown`.
use vstd::prelude::*;

use crate::line::{Line, LineV, Size, line_wf, MAX_LINE_LEN};
use crate::text::{
    is_ws, upper, to_upper, ws_run, word_run, letter_run, arg_run, nonquote_run, trim_end_from,
    lemma_ws_run, lemma_word_run, lemma_trim_end, upper_byte, ws_run_from, word_run_from, letter_run_from,
    arg_run_from, nonquote_run_from, trim_end_index, copy_range, upper_vec, contains_ws,
    SEMICOLON, STAR, COLON, HASH, QUOTE, COMMA, DOT, DOLLAR, PERCENT,
};

verus! {

/// The input line with its trailing whitespace removed.
pub open spec fn post_trimmed(s: Seq<u8>) -> Seq<u8> {
    s.take(trim_end_from(s, s.len() as int))
}

/// Case-insensitive test for the fixed argument-less mnemonics: a halt
/// instruction, an end-of-file directive, and a return instruction.
pub open spec fn has_mnemonic_prefix(m: Seq<u8>) -> bool {
    ||| (m.len() >= 7 && upper(m[0]) == 83 && upper(m[1]) == 73 && upper(m[2]) == 77 && upper(
        m[3],
    ) == 72 && upper(m[4]) == 65 && upper(m[5]) == 76 && upper(m[6]) == 84)
    ||| (m.len() >= 3 && upper(m[0]) == 69 && upper(m[1]) == 78 && upper(m[2]) == 68)
    ||| (m.len() >= 3 && upper(m[0]) == 82 && upper(m[1]) == 84 && upper(m[2]) == 83)
}

pub open spec fn has_inner_ws(m: Seq<u8>) -> bool {
    exists|j: int| 0 <= j < m.len() && is_ws(#[trigger] m[j])
}

/// A full-line comment: prefix byte, leading-whitespace width, and the text
/// after the prefix with its own leading whitespace dropped.
pub open spec fn comment_v(t: Seq<u8>, b: int, m: Seq<u8>) -> LineV {
    LineV::Comment {
        orig_length: t.len() as int,
        ws: b,
        prefix: m[0],
        text: m.skip(ws_run(m, 1)),
    }
}

/// An argument-less mnemonic line: word token (upper-cased) as the
/// instruction, optionally a colon (dropped), then an optional comment.
pub open spec fn argless_v(t: Seq<u8>, b: int, m: Seq<u8>) -> LineV {
    let w = word_run(m, 0);
    let c = if w < m.len() && m[w] == COLON {
        w + 1
    } else {
        w
    };
    let g = ws_run(m, c);
    let instruction = to_upper(m.take(w));
    if c == m.len() {
        LineV::Code {
            orig_length: t.len() as int,
            label: Option::None,
            has_colon: false,
            initial_ws: b,
            instruction,
            size: Size::NoSuffix,
            medial_ws: 0,
            args: Option::None,
            final_ws: Option::None,
            prefix: Option::None,
            comment: Option::None,
            collapsible: false,
        }
    } else if g < m.len() && (m[g] == SEMICOLON || m[g] == STAR) && g + 1 < m.len() {
        LineV::Code {
            orig_length: t.len() as int,
            label: Option::None,
            has_colon: false,
            initial_ws: b,
            instruction,
            size: Size::NoSuffix,
            medial_ws: 0,
            args: Option::None,
            final_ws: Option::Some(g - c),
            prefix: Option::Some(m[g]),
            comment: Option::Some(m.skip(g + 1)),
            collapsible: false,
        }
    } else if g < m.len() {
        LineV::Code {
            orig_length: t.len() as int,
            label: Option::None,
            has_colon: false,
            initial_ws: b,
            instruction,
            size: Size::NoSuffix,
            medial_ws: 0,
            args: Option::None,
            final_ws: Option::Some(g - c),
            prefix: Option::None,
            comment: Option::Some(m.skip(g)),
            collapsible: false,
        }
    } else {
        LineV::Code {
            orig_length: t.len() as int,
            label: Option::None,
            has_colon: false,
            initial_ws: b,
            instruction,
            size: Size::NoSuffix,
            medial_ws: 0,
            args: Option::None,
            final_ws: Option::None,
            prefix: Option::None,
            comment: Option::None,
            collapsible: false,
        }
    }
}

/// A line that is a single token without any whitespace: a bare label.
/// One trailing colon is recorded in the flag and stripped from the name.
pub open spec fn bare_label_v(t: Seq<u8>, m: Seq<u8>) -> LineV {
    let has_colon = m[m.len() - 1] == COLON;
    LineV::Label {
        has_colon,
        orig_length: t.len() as int,
        name: if has_colon {
            m.take(m.len() - 1)
        } else {
            m
        },
        prefix: Option::None,
        comment: Option::None,
    }
}

/// The label-with-trailing-comment grammar, anchored to the whole line:
/// word token, optional colon, then optional whitespace, a comment prefix
/// and a non-empty comment.
pub open spec fn label_comment_v(t: Seq<u8>) -> Option<LineV> {
    let w = word_run(t, 0);
    if w == 0 {
        Option::None
    } else {
        let c = if w < t.len() && t[w] == COLON {
            w + 1
        } else {
            w
        };
        if c == t.len() {
            Option::Some(
                LineV::Label {
                    has_colon: c > w,
                    orig_length: t.len() as int,
                    name: t.take(w),
                    prefix: Option::None,
                    comment: Option::None,
                },
            )
        } else {
            let g = ws_run(t, c);
            if g < t.len() && (t[g] == SEMICOLON || t[g] == STAR) && g + 1 < t.len() {
                Option::Some(
                    LineV::Label {
                        has_colon: c > w,
                        orig_length: t.len() as int,
                        name: t.take(w),
                        prefix: Option::Some(t[g]),
                        comment: Option::Some(t.skip(g + 1)),
                    },
                )
            } else {
                Option::None
            }
        }
    }
}

pub open spec fn is_size_letter(b: u8) -> bool {
    upper(b) == 83 || upper(b) == 66 || upper(b) == 87 || upper(b) == 76
}

pub open spec fn size_of_letter(b: u8) -> Size {
    if upper(b) == 83 {
        Size::Short
    } else if upper(b) == 66 {
        Size::Byte
    } else if upper(b) == 87 {
        Size::Word
    } else {
        Size::Long
    }
}

/// End of one plain operand token starting at `i`: an optional `#`, an
/// optional `$` or `%`, then at least one operand byte.
pub open spec fn plain_token_end(t: Seq<u8>, i: int) -> Option<int> {
    let j = if i < t.len() && t[i] == HASH {
        i + 1
    } else {
        i
    };
    let k = if j < t.len() && (t[j] == DOLLAR || t[j] == PERCENT) {
        j + 1
    } else {
        j
    };
    let e = arg_run(t, k);
    if e > k {
        Option::Some(e)
    } else {
        Option::None
    }
}

/// End of one quoted operand token starting at `i`: an optional `#`, then a
/// single-quoted non-empty string.
pub open spec fn quoted_token_end(t: Seq<u8>, i: int) -> Option<int> {
    let j = if i < t.len() && t[i] == HASH {
        i + 1
    } else {
        i
    };
    if j < t.len() && t[j] == QUOTE {
        let q = nonquote_run(t, j + 1);
        if q > j + 1 && q < t.len() && t[q] == QUOTE {
            Option::Some(q + 1)
        } else {
            Option::None
        }
    } else {
        Option::None
    }
}

/// End of one operand token: the plain form is tried before the quoted one.
pub open spec fn token_end(t: Seq<u8>, i: int) -> Option<int> {
    if plain_token_end(t, i) is Some {
        plain_token_end(t, i)
    } else {
        quoted_token_end(t, i)
    }
}

/// Extends an operand list past `i`, one `,token` step at a time.
pub open spec fn args_ext(t: Seq<u8>, i: int) -> int
    decreases t.len() - i,
{
    if 0 <= i < t.len() && t[i] == COMMA {
        match token_end(t, i + 1) {
            Option::Some(e) => if i + 1 < e <= t.len() {
                args_ext(t, e)
            } else {
                i
            },
            Option::None => i,
        }
    } else {
        i
    }
}

/// End of the comma-separated operand list starting at `i`, if one token
/// parses there at all.
pub open spec fn args_end(t: Seq<u8>, i: int) -> Option<int> {
    match token_end(t, i) {
        Option::Some(e) => Option::Some(args_ext(t, e)),
        Option::None => Option::None,
    }
}

/// The full code grammar, anchored to the whole line: optional label,
/// optional colon, required whitespace, instruction letters, optional size
/// suffix, required whitespace, an operand list, then optional whitespace,
/// an optional comment prefix and an optional comment.
pub open spec fn code_v(t: Seq<u8>) -> Option<LineV> {
    let w = word_run(t, 0);
    let c = if w < t.len() && t[w] == COLON {
        w + 1
    } else {
        w
    };
    let i0 = ws_run(t, c);
    if i0 == c {
        Option::None
    } else {
        let i1 = letter_run(t, i0);
        if i1 == i0 {
            Option::None
        } else {
            let has_size = i1 + 1 < t.len() && t[i1] == DOT && is_size_letter(t[i1 + 1]);
            let sz = if has_size {
                size_of_letter(t[i1 + 1])
            } else {
                Size::NoSuffix
            };
            let p = if has_size {
                i1 + 2
            } else {
                i1
            };
            let p2 = ws_run(t, p);
            if p2 == p {
                Option::None
            } else {
                match args_end(t, p2) {
                    Option::Some(ae) => {
                        let w3 = ws_run(t, ae);
                        let has_prefix = w3 < t.len() && (t[w3] == SEMICOLON || t[w3] == STAR);
                        let cp = if has_prefix {
                            w3 + 1
                        } else {
                            w3
                        };
                        Option::Some(
                            LineV::Code {
                                orig_length: t.len() as int,
                                label: if w > 0 {
                                    Option::Some(t.take(w))
                                } else {
                                    Option::None
                                },
                                has_colon: c > w,
                                initial_ws: i0 - c,
                                instruction: to_upper(t.subrange(i0, i1)),
                                size: sz,
                                medial_ws: p2 - p,
                                args: Option::Some(t.subrange(p2, ae)),
                                final_ws: if w3 > ae {
                                    Option::Some(w3 - ae)
                                } else {
                                    Option::None
                                },
                                prefix: if has_prefix {
                                    Option::Some(t[w3])
                                } else {
                                    Option::None
                                },
                                comment: if cp < t.len() {
                                    Option::Some(t.skip(cp))
                                } else {
                                    Option::None
                                },
                                collapsible: false,
                            },
                        )
                    },
                    Option::None => Option::None,
                }
            }
        }
    }
}

/// Classification of an already end-trimmed line, in strict precedence
/// order.
pub open spec fn classify_trimmed(t: Seq<u8>) -> LineV {
    if t.len() == 0 {
        LineV::Blank
    } else {
        let b = ws_run(t, 0);
        let m = t.skip(b);
        if m.len() > 0 && (m[0] == SEMICOLON || m[0] == STAR) {
            comment_v(t, b, m)
        } else if has_mnemonic_prefix(m) {
            argless_v(t, b, m)
        } else if m.len() > 0 && !has_inner_ws(m) {
            bare_label_v(t, m)
        } else if label_comment_v(t) is Some {
            label_comment_v(t)->Some_0
        } else if code_v(t) is Some {
            code_v(t)->Some_0
        } else {
            LineV::Unknown { orig_length: t.len() as int, text: t }
        }
    }
}

/// Classification of one raw line: total over all byte strings.
pub open spec fn classify_spec(s: Seq<u8>) -> LineV {
    classify_trimmed(post_trimmed(s))
}

/// Classification totality: every byte string is classified, into exactly
/// one of the five record kinds, with `Unknown` as the fallback; no input
/// is rejected.
pub proof fn lemma_classify_total(s: Seq<u8>)
    ensures
        classify_spec(s) is Blank || classify_spec(s) is Comment || classify_spec(s) is Label
            || classify_spec(s) is Code || classify_spec(s) is Unknown,
{
}

/// End-trimming is idempotent: an already trimmed line trims to itself.
pub proof fn lemma_post_trimmed_idempotent(s: Seq<u8>)
    ensures
        post_trimmed(post_trimmed(s)) == post_trimmed(s),
{
    let e = trim_end_from(s, s.len() as int);
    lemma_trim_end(s, s.len() as int);
    let t = s.take(e);
    if t.len() > 0 {
        assert(t[t.len() - 1] == s[e - 1]);
    }
    assert(trim_end_from(t, t.len() as int) == t.len());
    assert(t.take(t.len() as int) =~= t);
}

/// Classification looks only at the end-trimmed line.
pub proof fn lemma_classify_trim_stable(s: Seq<u8>)
    ensures
        classify_spec(post_trimmed(s)) == classify_spec(s),
{
    lemma_post_trimmed_idempotent(s);
}

/// A line that classified as a full-line comment, re-composed in the
/// standard form `prefix, one space, text`, classifies as a comment with
/// the same prefix and the same text again.
pub proof fn lemma_comment_reclassify(s: Seq<u8>)
    requires
        classify_spec(s) is Comment,
    ensures
        ({
            let r = seq![classify_spec(s)->Comment_prefix] + seq![crate::text::SPACE]
                + classify_spec(s)->Comment_text;
            &&& classify_spec(r) is Comment
            &&& classify_spec(r)->Comment_prefix == classify_spec(s)->Comment_prefix
            &&& classify_spec(r)->Comment_text == classify_spec(s)->Comment_text
        }),
{
    let t = post_trimmed(s);
    lemma_trim_end(s, s.len() as int);
    let b = ws_run(t, 0);
    lemma_ws_run(t, 0);
    assert(t.len() > 0);
    assert(t[t.len() - 1] == s[t.len() - 1]);
    assert(b < t.len());
    let m = t.skip(b);
    let p = m[0];
    assert(p == SEMICOLON || p == STAR);
    lemma_ws_run(m, 1);
    let w = ws_run(m, 1);
    let tx = m.skip(w);
    assert(classify_spec(s)->Comment_prefix == p);
    assert(classify_spec(s)->Comment_text == tx);
    assert(m[m.len() - 1] == t[t.len() - 1]);
    let r = seq![p] + seq![crate::text::SPACE] + tx;
    if tx.len() == 0 {
        assert(r.len() == 2 && r[0] == p && is_ws(r[1]));
        assert(trim_end_from(r, 2) == trim_end_from(r, 1));
        assert(trim_end_from(r, 1) == 1);
        let t2 = post_trimmed(r);
        assert(t2 =~= seq![p]);
        assert(ws_run(t2, 0) == 0);
        assert(t2.skip(0) =~= t2);
        assert(ws_run(t2, 1) == 1);
        assert(classify_spec(r)->Comment_text =~= tx);
    } else {
        assert(tx[tx.len() - 1] == m[m.len() - 1]);
        assert(tx[0] == m[w]);
        assert(!is_ws(tx[0]));
        assert(r[r.len() - 1] == tx[tx.len() - 1]);
        assert(trim_end_from(r, r.len() as int) == r.len());
        let t2 = post_trimmed(r);
        assert(t2 =~= r);
        assert(ws_run(t2, 0) == 0);
        let m2 = t2.skip(0);
        assert(m2 =~= t2);
        assert(m2[1] == crate::text::SPACE);
        assert(m2[2] == tx[0]);
        assert(ws_run(m2, 1) == ws_run(m2, 2));
        assert(ws_run(m2, 2) == 2);
        assert(m2.skip(2) =~= tx);
    }
}

/// A line that classified as a label without a trailing comment,
/// re-composed in the standard form `name, colon`, classifies as a label
/// with the same name, a colon, and no comment again.
pub proof fn lemma_label_reclassify(s: Seq<u8>)
    requires
        classify_spec(s) is Label,
        classify_spec(s)->Label_comment is None,
    ensures
        ({
            let r = classify_spec(s)->name + seq![COLON];
            &&& classify_spec(r) is Label
            &&& classify_spec(r)->name == classify_spec(s)->name
            &&& classify_spec(r)->Label_has_colon
            &&& classify_spec(r)->Label_comment is None
        }),
{
    let t = post_trimmed(s);
    lemma_trim_end(s, s.len() as int);
    let b = ws_run(t, 0);
    lemma_ws_run(t, 0);
    assert(t.len() > 0);
    assert(t[t.len() - 1] == s[t.len() - 1]);
    assert(b < t.len());
    let m = t.skip(b);
    assert(m[0] != SEMICOLON && m[0] != STAR);
    assert(!has_mnemonic_prefix(m));
    if has_inner_ws(m) {
        // only the label-with-comment grammar is left, and a match of it
        // without a comment means the line is one token plus a colon,
        // which has no whitespace to offer: contradiction
        let w = word_run(t, 0);
        lemma_word_run(t, 0);
        assert(w >= 1);
        let c = if w < t.len() && t[w] == COLON {
            w + 1
        } else {
            w
        };
        assert(c == t.len());
        let j = choose|j: int| 0 <= j < m.len() && is_ws(m[j]);
        assert(m[j] == t[b + j]);
        assert(false);
    } else {
        // the bare-label grammar produced the record
        let name = classify_spec(s)->name;
        let r = name + seq![COLON];
        assert(forall|j: int| 0 <= j < m.len() ==> !is_ws(#[trigger] m[j]));
        if m[m.len() - 1] == COLON {
            assert(name == m.take(m.len() - 1));
            assert(r =~= m);
            lemma_reclassify_bare(m);
        } else {
            assert(name == m);
            assert(r[r.len() - 1] == COLON);
            assert(forall|j: int| 0 <= j < m.len() ==> r[j] == m[j]);
            assert(!has_mnemonic_prefix(r)) by {
                assert(upper(COLON) == COLON);
                if m.len() == 2 {
                    assert(r[2] == COLON);
                }
                if m.len() == 6 {
                    assert(r[6] == COLON);
                }
            }
            lemma_reclassify_bare(r);
            assert(classify_spec(r)->name =~= name);
        }
    }
}

/// A non-empty token without whitespace, not opened by a comment prefix nor
/// by an argument-less mnemonic, and ending in a colon, classifies as a
/// bare label named by everything before that colon.
proof fn lemma_reclassify_bare(r: Seq<u8>)
    requires
        r.len() > 0,
        r[r.len() - 1] == COLON,
        forall|j: int| 0 <= j < r.len() ==> !is_ws(#[trigger] r[j]),
        r[0] != SEMICOLON && r[0] != STAR,
        !has_mnemonic_prefix(r),
    ensures
        classify_spec(r) is Label,
        classify_spec(r)->name == r.take(r.len() - 1),
        classify_spec(r)->Label_has_colon,
        classify_spec(r)->Label_comment is None,
{
    assert(trim_end_from(r, r.len() as int) == r.len());
    let t = post_trimmed(r);
    assert(t =~= r);
    assert(ws_run(t, 0) == 0);
    assert(t.skip(0) =~= t);
    assert(!has_inner_ws(t));
}

/// A line that classified `Unknown` carries its trimmed text verbatim, and
/// that text classifies `Unknown` with the same record again.
pub proof fn lemma_unknown_reclassify(s: Seq<u8>)
    requires
        classify_spec(s) is Unknown,
    ensures
        classify_spec(s)->Unknown_text == post_trimmed(s),
        classify_spec(classify_spec(s)->Unknown_text) == classify_spec(s),
{
    lemma_classify_trim_stable(s);
}

fn is_argless_mnemonic(m: &Vec<u8>) -> (r: bool)
    ensures
        r == has_mnemonic_prefix(m@),
{
    (m.len() >= 7 && upper_byte(m[0]) == 83 && upper_byte(m[1]) == 73 && upper_byte(m[2]) == 77
        && upper_byte(m[3]) == 72 && upper_byte(m[4]) == 65 && upper_byte(m[5]) == 76
        && upper_byte(m[6]) == 84) || (m.len() >= 3 && upper_byte(m[0]) == 69 && upper_byte(
        m[1],
    ) == 78 && upper_byte(m[2]) == 68) || (m.len() >= 3 && upper_byte(m[0]) == 82 && upper_byte(
        m[1],
    ) == 84 && upper_byte(m[2]) == 83)
}

fn parse_comment(t: &Vec<u8>, b: usize, m: &Vec<u8>) -> (r: Line)
    requires
        m@.len() > 0,
    ensures
        r@ == comment_v(t@, b as int, m@),
        t@.len() <= MAX_LINE_LEN && b <= MAX_LINE_LEN && m@.len() <= MAX_LINE_LEN ==> line_wf(
            r@,
        ),
{
    let c = ws_run_from(m, 1);
    let text = copy_range(m, c, m.len());
    Line::Comment { orig_length: t.len(), ws: b, prefix: m[0], text }
}

fn parse_argless(t: &Vec<u8>, b: usize, m: &Vec<u8>) -> (r: Line)
    requires
        m@.len() > 0,
    ensures
        r@ == argless_v(t@, b as int, m@),
        t@.len() <= MAX_LINE_LEN && b <= MAX_LINE_LEN && m@.len() <= MAX_LINE_LEN ==> line_wf(
            r@,
        ),
{
    let w = word_run_from(m, 0);
    let c = if w < m.len() && m[w] == COLON {
        w + 1
    } else {
        w
    };
    let g = ws_run_from(m, c);
    let instruction = upper_vec(&copy_range(m, 0, w));
    if c == m.len() {
        Line::Code {
            orig_length: t.len(),
            label: Option::None,
            has_colon: false,
            initial_ws: b,
            instruction,
            size: Size::NoSuffix,
            medial_ws: 0,
            args: Option::None,
            final_ws: Option::None,
            prefix: Option::None,
            comment: Option::None,
            collapsible: false,
        }
    } else if g < m.len() && (m[g] == SEMICOLON || m[g] == STAR) && g + 1 < m.len() {
        let comment = copy_range(m, g + 1, m.len());
        Line::Code {
            orig_length: t.len(),
            label: Option::None,
            has_colon: false,
            initial_ws: b,
            instruction,
            size: Size::NoSuffix,
            medial_ws: 0,
            args: Option::None,
            final_ws: Option::Some(g - c),
            prefix: Option::Some(m[g]),
            comment: Option::Some(comment),
            collapsible: false,
        }
    } else if g < m.len() {
        let comment = copy_range(m, g, m.len());
        Line::Code {
            orig_length: t.len(),
            label: Option::None,
            has_colon: false,
            initial_ws: b,
            instruction,
            size: Size::NoSuffix,
            medial_ws: 0,
            args: Option::None,
            final_ws: Option::Some(g - c),
            prefix: Option::None,
            comment: Option::Some(comment),
            collapsible: false,
        }
    } else {
        Line::Code {
            orig_length: t.len(),
            label: Option::None,
            has_colon: false,
            initial_ws: b,
            instruction,
            size: Size::NoSuffix,
            medial_ws: 0,
            args: Option::None,
            final_ws: Option::None,
            prefix: Option::None,
            comment: Option::None,
            collapsible: false,
        }
    }
}

fn parse_bare_label(t: &Vec<u8>, m: &Vec<u8>) -> (r: Line)
    requires
        m@.len() > 0,
    ensures
        r@ == bare_label_v(t@, m@),
        t@.len() <= MAX_LINE_LEN && m@.len() <= MAX_LINE_LEN ==> line_wf(r@),
{
    let has_colon = m[m.len() - 1] == COLON;
    let name = if has_colon {
        copy_range(m, 0, m.len() - 1)
    } else {
        copy_range(m, 0, m.len())
    };
    proof {
        assert(m@.subrange(0, m@.len() as int) =~= m@);
    }
    Line::Label { has_colon, orig_length: t.len(), name, prefix: Option::None, comment: Option::None }
}

fn parse_label_comment(t: &Vec<u8>) -> (r: Option<Line>)
    ensures
        r is Some <==> label_comment_v(t@) is Some,
        r matches Option::Some(l) ==> l@ == label_comment_v(t@)->Some_0,
        r matches Option::Some(l) ==> (t@.len() <= MAX_LINE_LEN ==> line_wf(l@)),
{
    let w = word_run_from(t, 0);
    if w == 0 {
        return Option::None;
    }
    let c = if w < t.len() && t[w] == COLON {
        w + 1
    } else {
        w
    };
    let name = copy_range(t, 0, w);
    if c == t.len() {
        return Option::Some(
            Line::Label {
                has_colon: c > w,
                orig_length: t.len(),
                name,
                prefix: Option::None,
                comment: Option::None,
            },
        );
    }
    let g = ws_run_from(t, c);
    if g < t.len() && (t[g] == SEMICOLON || t[g] == STAR) && g + 1 < t.len() {
        let comment = copy_range(t, g + 1, t.len());
        Option::Some(
            Line::Label {
                has_colon: c > w,
                orig_length: t.len(),
                name,
                prefix: Option::Some(t[g]),
                comment: Option::Some(comment),
            },
        )
    } else {
        Option::None
    }
}

fn plain_token_exec(t: &Vec<u8>, i: usize) -> (r: Option<usize>)
    requires
        i <= t@.len(),
    ensures
        r is Some <==> plain_token_end(t@, i as int) is Some,
        r matches Option::Some(e) ==> e as int == plain_token_end(t@, i as int)->Some_0 && i < e
            <= t@.len(),
{
    let j = if i < t.len() && t[i] == HASH {
        i + 1
    } else {
        i
    };
    let k = if j < t.len() && (t[j] == DOLLAR || t[j] == PERCENT) {
        j + 1
    } else {
        j
    };
    let e = arg_run_from(t, k);
    if e > k {
        Option::Some(e)
    } else {
        Option::None
    }
}

fn quoted_token_exec(t: &Vec<u8>, i: usize) -> (r: Option<usize>)
    requires
        i <= t@.len(),
    ensures
        r is Some <==> quoted_token_end(t@, i as int) is Some,
        r matches Option::Some(e) ==> e as int == quoted_token_end(t@, i as int)->Some_0 && i < e
            <= t@.len(),
{
    let j = if i < t.len() && t[i] == HASH {
        i + 1
    } else {
        i
    };
    if j < t.len() && t[j] == QUOTE {
        let q = nonquote_run_from(t, j + 1);
        if q > j + 1 && q < t.len() && t[q] == QUOTE {
            return Option::Some(q + 1);
        }
    }
    Option::None
}

fn token_end_exec(t: &Vec<u8>, i: usize) -> (r: Option<usize>)
    requires
        i <= t@.len(),
    ensures
        r is Some <==> token_end(t@, i as int) is Some,
        r matches Option::Some(e) ==> e as int == token_end(t@, i as int)->Some_0 && i < e
            <= t@.len(),
{
    match plain_token_exec(t, i) {
        Option::Some(e) => Option::Some(e),
        Option::None => quoted_token_exec(t, i),
    }
}

fn args_ext_exec(t: &Vec<u8>, start: usize) -> (r: usize)
    requires
        start <= t@.len(),
    ensures
        r as int == args_ext(t@, start as int),
        start <= r <= t@.len(),
{
    let mut cur = start;
    let mut go = true;
    while go
        invariant
            start <= cur <= t@.len(),
            args_ext(t@, start as int) == args_ext(t@, cur as int),
            !go ==> args_ext(t@, cur as int) == cur as int,
        decreases t@.len() - cur + (if go {
            1int
        } else {
            0int
        }),
    {
        if cur < t.len() && t[cur] == COMMA {
            match token_end_exec(t, cur + 1) {
                Option::Some(e) => {
                    proof {
                        assert(args_ext(t@, cur as int) == args_ext(t@, e as int));
                    }
                    cur = e;
                },
                Option::None => {
                    go = false;
                },
            }
        } else {
            go = false;
        }
    }
    cur
}

fn args_end_exec(t: &Vec<u8>, i: usize) -> (r: Option<usize>)
    requires
        i <= t@.len(),
    ensures
        r is Some <==> args_end(t@, i as int) is Some,
        r matches Option::Some(e) ==> e as int == args_end(t@, i as int)->Some_0 && i <= e
            <= t@.len(),
{
    match token_end_exec(t, i) {
        Option::Some(e) => Option::Some(args_ext_exec(t, e)),
        Option::None => Option::None,
    }
}

fn size_letter_exec(b: u8) -> (r: bool)
    ensures
        r == is_size_letter(b),
{
    let u = upper_byte(b);
    u == 83 || u == 66 || u == 87 || u == 76
}

fn size_of_letter_exec(b: u8) -> (r: Size)
    ensures
        r == size_of_letter(b),
{
    let u = upper_byte(b);
    if u == 83 {
        Size::Short
    } else if u == 66 {
        Size::Byte
    } else if u == 87 {
        Size::Word
    } else {
        Size::Long
    }
}

fn parse_code(t: &Vec<u8>) -> (r: Option<Line>)
    ensures
        r is Some <==> code_v(t@) is Some,
        r matches Option::Some(l) ==> l@ == code_v(t@)->Some_0,
        r matches Option::Some(l) ==> (t@.len() <= MAX_LINE_LEN ==> line_wf(l@)),
{
    let w = word_run_from(t, 0);
    let c = if w < t.len() && t[w] == COLON {
        w + 1
    } else {
        w
    };
    let i0 = ws_run_from(t, c);
    if i0 == c {
        return Option::None;
    }
    let i1 = letter_run_from(t, i0);
    if i1 == i0 {
        return Option::None;
    }
    let has_size = i1 < t.len() && t[i1] == DOT && i1 + 1 < t.len() && size_letter_exec(
        t[i1 + 1],
    );
    let sz = if has_size {
        size_of_letter_exec(t[i1 + 1])
    } else {
        Size::NoSuffix
    };
    let p = if has_size {
        i1 + 2
    } else {
        i1
    };
    let p2 = ws_run_from(t, p);
    if p2 == p {
        return Option::None;
    }
    match args_end_exec(t, p2) {
        Option::Some(ae) => {
            let w3 = ws_run_from(t, ae);
            let has_prefix = w3 < t.len() && (t[w3] == SEMICOLON || t[w3] == STAR);
            let cp = if has_prefix {
                w3 + 1
            } else {
                w3
            };
            let label = if w > 0 {
                Option::Some(copy_range(t, 0, w))
            } else {
                Option::None
            };
            let instruction = upper_vec(&copy_range(t, i0, i1));
            let args = copy_range(t, p2, ae);
            let comment = if cp < t.len() {
                Option::Some(copy_range(t, cp, t.len()))
            } else {
                Option::None
            };
            Option::Some(
                Line::Code {
                    orig_length: t.len(),
                    label,
                    has_colon: c > w,
                    initial_ws: i0 - c,
                    instruction,
                    size: sz,
                    medial_ws: p2 - p,
                    args: Option::Some(args),
                    final_ws: if w3 > ae {
                        Option::Some(w3 - ae)
                    } else {
                        Option::None
                    },
                    prefix: if has_prefix {
                        Option::Some(t[w3])
                    } else {
                        Option::None
                    },
                    comment,
                    collapsible: false,
                },
            )
        },
        Option::None => Option::None,
    }
}

/// Classifies one raw input line into a tagged record.
///
/// Total: every byte string yields exactly one record, with `Unknown` as
/// the fallback when no grammar matches. For lines of bounded length the
/// record is well formed.
pub fn parse(line: &Vec<u8>) -> (r: Line)
    ensures
        r@ == classify_spec(line@),
        line@.len() <= MAX_LINE_LEN ==> line_wf(r@),
{
    let e = trim_end_index(line);
    let t = copy_range(line, 0, e);
    proof {
        lemma_trim_end(line@, line@.len() as int);
    }
    if t.len() == 0 {
        return Line::Blank;
    }
    let b = ws_run_from(&t, 0);
    proof {
        lemma_ws_run(t@, 0);
        assert(t@[t@.len() - 1] == line@[e - 1]);
        assert(b < t@.len());
    }
    let m = copy_range(&t, b, t.len());
    if m[0] == SEMICOLON || m[0] == STAR {
        parse_comment(&t, b, &m)
    } else if is_argless_mnemonic(&m) {
        parse_argless(&t, b, &m)
    } else if !contains_ws(&m) {
        parse_bare_label(&t, &m)
    } else {
        match parse_label_comment(&t) {
            Option::Some(l) => l,
            Option::None => {
                match parse_code(&t) {
                    Option::Some(l) => l,
                    Option::None => Line::Unknown { orig_length: t.len(), text: t },
                }
            },
        }
    }
}

} // verus!
