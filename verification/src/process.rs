//! Semantic transformation: per-line normalization (collapsible-flag
//! detection, label-colon policy, optional comment-prefix rewrite) followed
//! by the stateful collapse of runs of consecutive collapsible byte moves.
use vstd::prelude::*;

use crate::line::{
    Line, LineV, Size, line_wf, lines_wf, line_views, collapsible_args_shape, clone_line,
};
use crate::text::{HASH, QUOTE, COMMA, SEMICOLON};

verus! {

/// Comment-style-rewrite policy: disabled by default.
pub const CHANGE_COMMENTS: bool = false;

/// The prefix byte that the rewrite policy would install.
pub const COMMENT_PREFIX: u8 = SEMICOLON;

/// Policy for standalone labels: a colon is appended.
pub const STANDALONE_LABEL_COLON: bool = true;

/// The byte-move mnemonic, upper-cased: `MOVE`.
pub open spec fn is_move_instr(s: Seq<u8>) -> bool {
    s.len() == 4 && s[0] == 77 && s[1] == 79 && s[2] == 86 && s[3] == 69
}

fn is_move_exec(v: &Vec<u8>) -> (r: bool)
    ensures
        r == is_move_instr(v@),
{
    v.len() == 4 && v[0] == 77 && v[1] == 79 && v[2] == 86 && v[3] == 69
}

fn shape_exec(a: &Vec<u8>) -> (r: bool)
    ensures
        r == collapsible_args_shape(a@),
{
    a.len() == 10 && a[0] == 35 && a[1] == 39 && a[2] != 39 && a[3] == 39 && a[4] == 44 && a[5]
        == 40 && a[6] == 65 && a[7] == 53 && a[8] == 41 && a[9] == 43
}

/// Whether a code record is eligible for the move-group collapse: a `MOVE`
/// of size `Byte` whose operand is a single-character immediate written
/// through the auto-increment pointer.
pub open spec fn eligible(instruction: Seq<u8>, size: Size, args: Option<Seq<u8>>) -> bool {
    &&& is_move_instr(instruction)
    &&& size == Size::Byte
    &&& (args matches Option::Some(a) && collapsible_args_shape(a))
}

/// Per-line normalization: recompute the collapsible flag of code lines,
/// force the standalone-label colon policy, and apply the comment-prefix
/// rewrite where that policy is enabled.
pub open spec fn normalize_spec(l: LineV) -> LineV {
    match l {
        LineV::Code {
            orig_length,
            label,
            has_colon,
            initial_ws,
            instruction,
            size,
            medial_ws,
            args,
            final_ws,
            prefix,
            comment,
            ..
        } => LineV::Code {
            orig_length,
            label,
            has_colon,
            initial_ws,
            instruction,
            size,
            medial_ws,
            args,
            final_ws,
            prefix: if CHANGE_COMMENTS {
                Option::Some(COMMENT_PREFIX)
            } else {
                prefix
            },
            comment,
            collapsible: eligible(instruction, size, args),
        },
        LineV::Comment { orig_length, ws, prefix, text } => LineV::Comment {
            orig_length,
            ws,
            prefix: if CHANGE_COMMENTS {
                COMMENT_PREFIX
            } else {
                prefix
            },
            text,
        },
        LineV::Label { orig_length, name, prefix, comment, .. } => LineV::Label {
            has_colon: STANDALONE_LABEL_COLON,
            orig_length,
            name,
            prefix: if CHANGE_COMMENTS {
                Option::Some(COMMENT_PREFIX)
            } else {
                prefix
            },
            comment,
        },
        LineV::Unknown { .. } => l,
        LineV::Blank => l,
    }
}

pub open spec fn normalize_seq(s: Seq<LineV>) -> Seq<LineV> {
    s.map_values(|l: LineV| normalize_spec(l))
}

/// Normalizes one record in place of the classifier's output.
pub fn normalize_line(l: Line) -> (r: Line)
    ensures
        r@ == normalize_spec(l@),
        line_wf(l@) ==> line_wf(r@),
        collapse_ok(r@),
{
    match l {
        Line::Code {
            orig_length,
            label,
            has_colon,
            initial_ws,
            instruction,
            size,
            medial_ws,
            args,
            final_ws,
            prefix,
            comment,
            collapsible: _,
        } => {
            let coll = is_move_exec(&instruction) && size == Size::Byte && (match &args {
                Option::Some(a) => shape_exec(a),
                Option::None => false,
            });
            Line::Code {
                orig_length,
                label,
                has_colon,
                initial_ws,
                instruction,
                size,
                medial_ws,
                args,
                final_ws,
                prefix: if CHANGE_COMMENTS {
                    Option::Some(COMMENT_PREFIX)
                } else {
                    prefix
                },
                comment,
                collapsible: coll,
            }
        },
        Line::Comment { orig_length, ws, prefix, text } => Line::Comment {
            orig_length,
            ws,
            prefix: if CHANGE_COMMENTS {
                COMMENT_PREFIX
            } else {
                prefix
            },
            text,
        },
        Line::Label { has_colon: _, orig_length, name, prefix, comment } => Line::Label {
            has_colon: STANDALONE_LABEL_COLON,
            orig_length,
            name,
            prefix: if CHANGE_COMMENTS {
                Option::Some(COMMENT_PREFIX)
            } else {
                prefix
            },
            comment,
        },
        Line::Unknown { orig_length, text } => Line::Unknown { orig_length, text },
        Line::Blank => Line::Blank,
    }
}

/// A record that takes part in a move group.
pub open spec fn is_collapsible(l: LineV) -> bool {
    l is Code && l->collapsible
}

/// The collapsible flag implies the collapsible operand shape; this is the
/// part of well-formedness that the merge relies on.
pub open spec fn collapse_ok(l: LineV) -> bool {
    is_collapsible(l) ==> (l->args matches Option::Some(a) && collapsible_args_shape(a))
}

fn is_collapsible_exec(l: &Line) -> (r: bool)
    ensures
        r == is_collapsible(l@),
{
    match l {
        Line::Code { collapsible, .. } => *collapsible,
        _ => false,
    }
}

/// The literal byte carried by one collapsible member's operand.
pub open spec fn member_char(l: LineV) -> u8 {
    match l {
        LineV::Code { args: Option::Some(a), .. } => a[2],
        _ => 0,
    }
}

pub open spec fn group_chars(g: Seq<LineV>) -> Seq<u8> {
    g.map_values(|l: LineV| member_char(l))
}

/// The merged operand text: the member literals concatenated, in group
/// order, inside one immediate string written through the auto-increment
/// pointer.
pub open spec fn merged_args(g: Seq<LineV>) -> Seq<u8> {
    seq![HASH, QUOTE] + group_chars(g) + seq![QUOTE, COMMA, 40u8, 65u8, 53u8, 41u8, 43u8]
}

/// The merge of an accepted group: the first member, rewritten to the wider
/// size, its operand grown to the composed literal, and its flag cleared.
pub open spec fn merge_spec(g: Seq<LineV>, new_size: Size) -> LineV {
    match g[0] {
        LineV::Code {
            orig_length,
            label,
            has_colon,
            initial_ws,
            instruction,
            medial_ws,
            final_ws,
            prefix,
            comment,
            ..
        } => LineV::Code {
            orig_length,
            label,
            has_colon,
            initial_ws,
            instruction,
            size: new_size,
            medial_ws,
            args: Option::Some(merged_args(g)),
            final_ws,
            prefix,
            comment,
            collapsible: false,
        },
        _ => g[0],
    }
}

/// A buffered group the merge may act on: every member is a collapsible
/// code record carrying the collapsible operand shape.
pub open spec fn group_ok(g: Seq<LineV>) -> bool {
    forall|i: int|
        0 <= i < g.len() ==> is_collapsible(#[trigger] g[i]) && collapse_ok(g[i])
}

/// Flush policy: a group of exactly two members merges into one word-size
/// line, a group of exactly four members merges into one long-size line,
/// and a group of any other length is passed through untouched.
pub open spec fn flush_spec(p: Seq<LineV>) -> Seq<LineV> {
    if p.len() == 2 {
        seq![merge_spec(p, Size::Word)]
    } else if p.len() == 4 {
        seq![merge_spec(p, Size::Long)]
    } else {
        p
    }
}

/// One left-to-right scan: buffer consecutive collapsible lines, flush the
/// buffer at every non-collapsible line and at the end of the sequence.
pub open spec fn collapse_rec(ls: Seq<LineV>, i: int, pending: Seq<LineV>) -> Seq<LineV>
    decreases ls.len() - i,
{
    if i < 0 || i >= ls.len() {
        flush_spec(pending)
    } else if is_collapsible(ls[i]) {
        collapse_rec(ls, i + 1, pending.push(ls[i]))
    } else {
        flush_spec(pending) + seq![ls[i]] + collapse_rec(ls, i + 1, Seq::empty())
    }
}

pub open spec fn collapse_spec(ls: Seq<LineV>) -> Seq<LineV> {
    collapse_rec(ls, 0, Seq::empty())
}

/// The whole transformation stage: normalization, then the collapse scan.
pub open spec fn process_spec(s: Seq<LineV>) -> Seq<LineV> {
    collapse_spec(normalize_seq(s))
}

proof fn lemma_collapse_rec_all(s: Seq<LineV>, i: int, p: Seq<LineV>)
    requires
        0 <= i <= s.len(),
        forall|j: int| i <= j < s.len() ==> is_collapsible(#[trigger] s[j]),
    ensures
        collapse_rec(s, i, p) == flush_spec(p + s.skip(i)),
    decreases s.len() - i,
{
    if i == s.len() {
        assert(p + s.skip(i) =~= p);
    } else {
        lemma_collapse_rec_all(s, i + 1, p.push(s[i]));
        assert(p + s.skip(i) =~= p.push(s[i]) + s.skip(i + 1));
    }
}

proof fn lemma_collapse_rec_none(s: Seq<LineV>, i: int)
    requires
        0 <= i <= s.len(),
        forall|j: int| i <= j < s.len() ==> !is_collapsible(#[trigger] s[j]),
    ensures
        collapse_rec(s, i, Seq::empty()) == s.skip(i),
    decreases s.len() - i,
{
    if i == s.len() {
        assert(s.skip(i) =~= Seq::<LineV>::empty());
    } else {
        lemma_collapse_rec_none(s, i + 1);
        assert(flush_spec(Seq::<LineV>::empty()) + seq![s[i]] + s.skip(i + 1) =~= s.skip(i));
    }
}

/// A sequence without any collapsible line passes through the collapse
/// stage untouched.
pub proof fn lemma_collapse_none(s: Seq<LineV>)
    requires
        forall|j: int| 0 <= j < s.len() ==> !is_collapsible(#[trigger] s[j]),
    ensures
        collapse_spec(s) == s,
{
    lemma_collapse_rec_none(s, 0);
    assert(s.skip(0) =~= s);
}

/// Collapse count law: a run made solely of collapsible lines collapses to
/// one line when its length is exactly two or exactly four, and is passed
/// through untouched, line for line, at every other length.
pub proof fn lemma_collapse_count(s: Seq<LineV>)
    requires
        forall|j: int| 0 <= j < s.len() ==> is_collapsible(#[trigger] s[j]),
    ensures
        (s.len() == 2 || s.len() == 4) ==> collapse_spec(s).len() == 1,
        (s.len() != 2 && s.len() != 4) ==> collapse_spec(s) == s,
{
    lemma_collapse_rec_all(s, 0, Seq::empty());
    assert(Seq::<LineV>::empty() + s.skip(0) =~= s);
}

/// Merges an accepted move group into its single replacement line.
///
/// Rewrites the first member to `new_size`, splices all the member
/// literals, in order, into one immediate string, and clears the flag.
pub fn handle_movegroup(group: &Vec<Line>, new_size: Size) -> (r: Line)
    requires
        group@.len() == 2 || group@.len() == 4,
        group_ok(line_views(group@)),
    ensures
        r@ == merge_spec(line_views(group@), new_size),
        lines_wf(line_views(group@)) ==> line_wf(r@),
{
    let ghost gv = line_views(group@);
    let mut composed: Vec<u8> = Vec::new();
    composed.push(HASH);
    composed.push(QUOTE);
    let mut i: usize = 0;
    while i < group.len()
        invariant
            i <= group@.len(),
            group_ok(line_views(group@)),
            gv == line_views(group@),
            composed@.len() == 2 + i,
            composed@[0] == HASH,
            composed@[1] == QUOTE,
            forall|j: int| 0 <= j < i ==> composed@[2 + j] == member_char(#[trigger] gv[j]),
        decreases group@.len() - i,
    {
        proof {
            assert(is_collapsible(gv[i as int]) && collapse_ok(gv[i as int]));
        }
        match &group[i] {
            Line::Code { args: Option::Some(a), .. } => {
                composed.push(a[2]);
            },
            _ => {
                proof {
                    assert(false);
                }
            },
        }
        i = i + 1;
    }
    composed.push(QUOTE);
    composed.push(COMMA);
    composed.push(40);
    composed.push(65);
    composed.push(53);
    composed.push(41);
    composed.push(43);
    proof {
        assert(composed@ =~= merged_args(gv));
    }
    proof {
        assert(is_collapsible(gv[0]));
    }
    match &group[0] {
        Line::Code {
            orig_length,
            label,
            has_colon,
            initial_ws,
            instruction,
            size: _,
            medial_ws,
            args: _,
            final_ws,
            prefix,
            comment,
            collapsible: _,
        } => Line::Code {
            orig_length: *orig_length,
            label: crate::line::clone_opt_bytes(label),
            has_colon: *has_colon,
            initial_ws: *initial_ws,
            instruction: crate::text::clone_bytes(instruction),
            size: new_size,
            medial_ws: *medial_ws,
            args: Option::Some(composed),
            final_ws: *final_ws,
            prefix: *prefix,
            comment: crate::line::clone_opt_bytes(comment),
            collapsible: false,
        },
        _ => {
            proof {
                assert(false);
            }
            Line::Blank
        },
    }
}

/// Empties the buffered group into the output under the flush policy.
fn flush_into(pending: &mut Vec<Line>, out: &mut Vec<Line>)
    requires
        group_ok(line_views(old(pending)@)),
    ensures
        line_views(final(out)@) == line_views(old(out)@) + flush_spec(line_views(old(pending)@)),
        final(pending)@.len() == 0,
        lines_wf(line_views(old(pending)@)) && lines_wf(line_views(old(out)@)) ==> lines_wf(
            line_views(final(out)@),
        ),
{
    let ghost pv = line_views(pending@);
    let ghost ov = line_views(out@);
    if pending.len() == 2 {
        let merged = handle_movegroup(pending, Size::Word);
        out.push(merged);
        pending.clear();
        proof {
            assert(line_views(out@) =~= ov + flush_spec(pv));
        }
    } else if pending.len() == 4 {
        let merged = handle_movegroup(pending, Size::Long);
        out.push(merged);
        pending.clear();
        proof {
            assert(line_views(out@) =~= ov + flush_spec(pv));
        }
    } else {
        out.append(pending);
        proof {
            assert(line_views(out@) =~= ov + flush_spec(pv));
        }
    }
}

/// The transformation stage over the whole sequence: normalize every
/// record, then collapse runs of consecutive collapsible lines, flushing
/// at every non-collapsible line and at the end of input.
pub fn process(lines: &mut Vec<Line>)
    ensures
        line_views(final(lines)@) == process_spec(line_views(old(lines)@)),
        lines_wf(line_views(old(lines)@)) ==> lines_wf(line_views(final(lines)@)),
{
    let ghost orig = line_views(lines@);
    // stage 1: per-line normalization
    let mut normd: Vec<Line> = Vec::new();
    let mut i: usize = 0;
    while i < lines.len()
        invariant
            i <= lines@.len(),
            line_views(lines@) == orig,
            normd@.len() == i,
            forall|j: int|
                0 <= j < i ==> line_views(normd@)[j] == normalize_spec(#[trigger] orig[j]),
            forall|j: int| 0 <= j < i ==> collapse_ok(#[trigger] line_views(normd@)[j]),
            lines_wf(orig) ==> lines_wf(line_views(normd@)),
        decreases lines@.len() - i,
    {
        let ghost prev = line_views(normd@);
        let n = normalize_line(clone_line(&lines[i]));
        proof {
            if lines_wf(orig) {
                assert(line_wf(orig[i as int]));
            }
        }
        normd.push(n);
        i = i + 1;
        proof {
            assert(line_views(normd@) =~= prev.push(n@));
        }
    }
    proof {
        assert(line_views(normd@) =~= normalize_seq(orig));
    }
    let ghost nv = line_views(normd@);
    // stage 2: the collapse scan
    let mut out: Vec<Line> = Vec::new();
    let mut pending: Vec<Line> = Vec::new();
    proof {
        assert(line_views(out@) =~= Seq::<LineV>::empty());
        assert(line_views(pending@) =~= Seq::<LineV>::empty());
        assert(Seq::<LineV>::empty() + collapse_rec(nv, 0, Seq::<LineV>::empty())
            =~= collapse_rec(nv, 0, Seq::<LineV>::empty()));
    }
    let mut k: usize = 0;
    while k < normd.len()
        invariant
            k <= normd@.len(),
            nv == line_views(normd@),
            forall|j: int| 0 <= j < nv.len() ==> collapse_ok(#[trigger] nv[j]),
            lines_wf(orig) ==> lines_wf(nv),
            group_ok(line_views(pending@)),
            collapse_spec(nv) == line_views(out@) + collapse_rec(
                nv,
                k as int,
                line_views(pending@),
            ),
            lines_wf(orig) ==> lines_wf(line_views(out@)),
            lines_wf(orig) ==> lines_wf(line_views(pending@)),
        decreases normd@.len() - k,
    {
        let ghost pv = line_views(pending@);
        if is_collapsible_exec(&normd[k]) {
            let c = clone_line(&normd[k]);
            pending.push(c);
            proof {
                assert(line_views(pending@) =~= pv.push(nv[k as int]));
                assert(collapse_rec(nv, k as int, pv) == collapse_rec(
                    nv,
                    k as int + 1,
                    pv.push(nv[k as int]),
                ));
            }
        } else {
            let ghost ov = line_views(out@);
            flush_into(&mut pending, &mut out);
            let c = clone_line(&normd[k]);
            out.push(c);
            proof {
                assert(line_views(pending@) =~= Seq::<LineV>::empty());
                assert(line_views(out@) =~= ov + flush_spec(pv) + seq![nv[k as int]]);
                assert(collapse_rec(nv, k as int, pv) == flush_spec(pv) + seq![nv[k as int]]
                    + collapse_rec(nv, k as int + 1, Seq::<LineV>::empty()));
                assert(ov + collapse_rec(nv, k as int, pv) =~= (ov + flush_spec(pv) + seq![
                    nv[k as int],
                ]) + collapse_rec(nv, k as int + 1, Seq::<LineV>::empty()));
            }
        }
        k = k + 1;
    }
    proof {
        assert(collapse_spec(nv) == line_views(out@) + flush_spec(line_views(pending@)));
    }
    flush_into(&mut pending, &mut out);
    let mut result = out;
    core::mem::swap(lines, &mut result);
}

} // verus!
