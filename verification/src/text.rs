//! Byte-level text primitives: character classes, maximal runs, trimming,
//! copying and upper-casing, each with an exact specification.
use vstd::prelude::*;

verus! {

pub const SPACE: u8 = 32;
pub const HTAB: u8 = 9;
pub const LINE_FEED: u8 = 10;
pub const FORM_FEED: u8 = 12;
pub const CARRIAGE_RETURN: u8 = 13;
pub const SEMICOLON: u8 = 59;
pub const STAR: u8 = 42;
pub const COLON: u8 = 58;
pub const HASH: u8 = 35;
pub const QUOTE: u8 = 39;
pub const COMMA: u8 = 44;
pub const DOT: u8 = 46;
pub const DOLLAR: u8 = 36;
pub const PERCENT: u8 = 37;

/// ASCII whitespace, as the trimming and the grammars understand it.
pub open spec fn is_ws(b: u8) -> bool {
    b == SPACE || b == HTAB || b == LINE_FEED || b == FORM_FEED || b == CARRIAGE_RETURN
}

pub fn ws_byte(b: u8) -> (r: bool)
    ensures
        r == is_ws(b),
{
    b == SPACE || b == HTAB || b == LINE_FEED || b == FORM_FEED || b == CARRIAGE_RETURN
}

/// A word byte: ASCII letter, digit or underscore (a label token byte).
pub open spec fn is_word(b: u8) -> bool {
    (48 <= b <= 57) || (65 <= b <= 90) || (97 <= b <= 122) || b == 95
}

pub fn word_byte(b: u8) -> (r: bool)
    ensures
        r == is_word(b),
{
    (48 <= b && b <= 57) || (65 <= b && b <= 90) || (97 <= b && b <= 122) || b == 95
}

/// An ASCII letter (an instruction mnemonic byte).
pub open spec fn is_letter(b: u8) -> bool {
    (65 <= b <= 90) || (97 <= b <= 122)
}

pub fn letter_byte(b: u8) -> (r: bool)
    ensures
        r == is_letter(b),
{
    (65 <= b && b <= 90) || (97 <= b && b <= 122)
}

/// A byte allowed inside a plain operand token: slash, letters, digits,
/// underscore, parentheses, minus and plus.
pub open spec fn is_arg_byte(b: u8) -> bool {
    b == 47 || (48 <= b <= 57) || (65 <= b <= 90) || (97 <= b <= 122) || b == 95 || b == 40 || b
        == 41 || b == 45 || b == 43
}

pub fn arg_byte(b: u8) -> (r: bool)
    ensures
        r == is_arg_byte(b),
{
    b == 47 || (48 <= b && b <= 57) || (65 <= b && b <= 90) || (97 <= b && b <= 122) || b == 95
        || b == 40 || b == 41 || b == 45 || b == 43
}

/// Upper-case one ASCII byte; bytes outside `a..z` are unchanged.
pub open spec fn upper(b: u8) -> u8 {
    if 97 <= b <= 122 {
        (b - 32) as u8
    } else {
        b
    }
}

pub fn upper_byte(b: u8) -> (r: u8)
    ensures
        r == upper(b),
{
    if 97 <= b && b <= 122 {
        b - 32
    } else {
        b
    }
}

pub open spec fn to_upper(s: Seq<u8>) -> Seq<u8> {
    s.map_values(|b: u8| upper(b))
}

/// End of the maximal whitespace run of `s` that starts at `i`.
pub open spec fn ws_run(s: Seq<u8>, i: int) -> int
    decreases s.len() - i,
{
    if 0 <= i < s.len() && is_ws(s[i]) {
        ws_run(s, i + 1)
    } else {
        i
    }
}

/// End of the maximal word-byte run of `s` that starts at `i`.
pub open spec fn word_run(s: Seq<u8>, i: int) -> int
    decreases s.len() - i,
{
    if 0 <= i < s.len() && is_word(s[i]) {
        word_run(s, i + 1)
    } else {
        i
    }
}

/// End of the maximal letter run of `s` that starts at `i`.
pub open spec fn letter_run(s: Seq<u8>, i: int) -> int
    decreases s.len() - i,
{
    if 0 <= i < s.len() && is_letter(s[i]) {
        letter_run(s, i + 1)
    } else {
        i
    }
}

/// End of the maximal operand-token-byte run of `s` that starts at `i`.
pub open spec fn arg_run(s: Seq<u8>, i: int) -> int
    decreases s.len() - i,
{
    if 0 <= i < s.len() && is_arg_byte(s[i]) {
        arg_run(s, i + 1)
    } else {
        i
    }
}

/// End of the maximal run of non-quote bytes of `s` that starts at `i`.
pub open spec fn nonquote_run(s: Seq<u8>, i: int) -> int
    decreases s.len() - i,
{
    if 0 <= i < s.len() && s[i] != QUOTE {
        nonquote_run(s, i + 1)
    } else {
        i
    }
}

pub proof fn lemma_word_run(s: Seq<u8>, i: int)
    requires
        0 <= i <= s.len(),
    ensures
        i <= word_run(s, i) <= s.len(),
        forall|j: int| i <= j < word_run(s, i) ==> is_word(#[trigger] s[j]),
        word_run(s, i) == s.len() || !is_word(s[word_run(s, i)]),
    decreases s.len() - i,
{
    if i < s.len() && is_word(s[i]) {
        lemma_word_run(s, i + 1);
    }
}

pub proof fn lemma_ws_run(s: Seq<u8>, i: int)
    requires
        0 <= i <= s.len(),
    ensures
        i <= ws_run(s, i) <= s.len(),
        forall|j: int| i <= j < ws_run(s, i) ==> is_ws(#[trigger] s[j]),
        ws_run(s, i) == s.len() || !is_ws(s[ws_run(s, i)]),
    decreases s.len() - i,
{
    if i < s.len() && is_ws(s[i]) {
        lemma_ws_run(s, i + 1);
    }
}

/// Index at which the trailing whitespace of `s.take(e)` begins.
pub open spec fn trim_end_from(s: Seq<u8>, e: int) -> int
    decreases e,
{
    if 0 < e <= s.len() && is_ws(s[e - 1]) {
        trim_end_from(s, e - 1)
    } else {
        e
    }
}

pub proof fn lemma_trim_end(s: Seq<u8>, e: int)
    requires
        0 <= e <= s.len(),
    ensures
        0 <= trim_end_from(s, e) <= e,
        forall|j: int| trim_end_from(s, e) <= j < e ==> is_ws(#[trigger] s[j]),
        trim_end_from(s, e) == 0 || !is_ws(s[trim_end_from(s, e) - 1]),
    decreases e,
{
    if 0 < e && is_ws(s[e - 1]) {
        lemma_trim_end(s, e - 1);
    }
}

pub fn ws_run_from(v: &Vec<u8>, start: usize) -> (r: usize)
    requires
        start <= v@.len(),
    ensures
        r == ws_run(v@, start as int),
        start <= r <= v@.len(),
{
    let mut i = start;
    while i < v.len() && ws_byte(v[i])
        invariant
            start <= i <= v@.len(),
            ws_run(v@, start as int) == ws_run(v@, i as int),
        decreases v@.len() - i,
    {
        i = i + 1;
    }
    i
}

pub fn word_run_from(v: &Vec<u8>, start: usize) -> (r: usize)
    requires
        start <= v@.len(),
    ensures
        r == word_run(v@, start as int),
        start <= r <= v@.len(),
{
    let mut i = start;
    while i < v.len() && word_byte(v[i])
        invariant
            start <= i <= v@.len(),
            word_run(v@, start as int) == word_run(v@, i as int),
        decreases v@.len() - i,
    {
        i = i + 1;
    }
    i
}

pub fn letter_run_from(v: &Vec<u8>, start: usize) -> (r: usize)
    requires
        start <= v@.len(),
    ensures
        r == letter_run(v@, start as int),
        start <= r <= v@.len(),
{
    let mut i = start;
    while i < v.len() && letter_byte(v[i])
        invariant
            start <= i <= v@.len(),
            letter_run(v@, start as int) == letter_run(v@, i as int),
        decreases v@.len() - i,
    {
        i = i + 1;
    }
    i
}

pub fn arg_run_from(v: &Vec<u8>, start: usize) -> (r: usize)
    requires
        start <= v@.len(),
    ensures
        r == arg_run(v@, start as int),
        start <= r <= v@.len(),
{
    let mut i = start;
    while i < v.len() && arg_byte(v[i])
        invariant
            start <= i <= v@.len(),
            arg_run(v@, start as int) == arg_run(v@, i as int),
        decreases v@.len() - i,
    {
        i = i + 1;
    }
    i
}

pub fn nonquote_run_from(v: &Vec<u8>, start: usize) -> (r: usize)
    requires
        start <= v@.len(),
    ensures
        r == nonquote_run(v@, start as int),
        start <= r <= v@.len(),
{
    let mut i = start;
    while i < v.len() && v[i] != QUOTE
        invariant
            start <= i <= v@.len(),
            nonquote_run(v@, start as int) == nonquote_run(v@, i as int),
        decreases v@.len() - i,
    {
        i = i + 1;
    }
    i
}

pub fn trim_end_index(v: &Vec<u8>) -> (e: usize)
    ensures
        e == trim_end_from(v@, v@.len() as int),
        e <= v@.len(),
{
    let mut e = v.len();
    while e > 0 && ws_byte(v[e - 1])
        invariant
            e <= v@.len(),
            trim_end_from(v@, v@.len() as int) == trim_end_from(v@, e as int),
        decreases e,
    {
        e = e - 1;
    }
    e
}

pub fn copy_range(v: &Vec<u8>, lo: usize, hi: usize) -> (out: Vec<u8>)
    requires
        lo <= hi <= v@.len(),
    ensures
        out@ == v@.subrange(lo as int, hi as int),
{
    let mut out: Vec<u8> = Vec::new();
    let mut i = lo;
    while i < hi
        invariant
            lo <= i <= hi <= v@.len(),
            out@ == v@.subrange(lo as int, i as int),
        decreases hi - i,
    {
        out.push(v[i]);
        i = i + 1;
        proof {
            assert(out@ =~= v@.subrange(lo as int, i as int));
        }
    }
    out
}

pub fn clone_bytes(v: &Vec<u8>) -> (out: Vec<u8>)
    ensures
        out@ == v@,
{
    let out = copy_range(v, 0, v.len());
    proof {
        assert(v@.subrange(0, v@.len() as int) =~= v@);
    }
    out
}

pub fn upper_vec(v: &Vec<u8>) -> (out: Vec<u8>)
    ensures
        out@ == to_upper(v@),
{
    let mut out: Vec<u8> = Vec::new();
    let mut i: usize = 0;
    while i < v.len()
        invariant
            i <= v@.len(),
            out@.len() == i,
            forall|j: int| 0 <= j < i ==> out@[j] == upper(v@[j]),
        decreases v@.len() - i,
    {
        out.push(upper_byte(v[i]));
        i = i + 1;
    }
    proof {
        assert(out@ =~= to_upper(v@));
    }
    out
}

pub fn contains_ws(v: &Vec<u8>) -> (r: bool)
    ensures
        r == exists|j: int| 0 <= j < v@.len() && is_ws(#[trigger] v@[j]),
{
    let mut i: usize = 0;
    while i < v.len()
        invariant
            i <= v@.len(),
            forall|j: int| 0 <= j < i ==> !is_ws(#[trigger] v@[j]),
        decreases v@.len() - i,
    {
        if ws_byte(v[i]) {
            return true;
        }
        i = i + 1;
    }
    false
}

} // verus!
