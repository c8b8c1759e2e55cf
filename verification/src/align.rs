//! Column alignment: a measurement pass computing three cumulative
//! tabstops over all code lines, then a composition pass re-emitting every
//! line against them.
use vstd::prelude::*;

use crate::line::{Line, LineV, Size, line_wf, lines_wf, line_views, opt_seq_len, MAX_LINE_LEN};
use crate::text::{clone_bytes, SPACE, COLON, DOT};

verus! {

/// The tab alignment unit every measured width is rounded up to.
pub const ALIGNMENT: usize = 4;

pub open spec fn ceil_div_spec(n: int, d: int) -> int {
    if n % d == 0 {
        n / d
    } else {
        n / d + 1
    }
}

/// Ceiling division: the least number of whole `den`-wide columns covering
/// `nume` characters.
pub fn ceiling_div(nume: usize, den: usize) -> (r: usize)
    requires
        den > 0,
    ensures
        r as int == ceil_div_spec(nume as int, den as int),
{
    if nume % den == 0 {
        return nume / den;
    }
    proof {
        assert(den >= 2) by {
            if den == 1 {
                assert(nume as int % 1int == 0);
            }
        }
        vstd::arithmetic::div_mod::lemma_div_is_strictly_smaller(nume as int, den as int);
    }
    nume / den + 1
}

/// A measured width snapped up to the next multiple of the alignment unit.
pub open spec fn snap(n: int) -> int {
    ceil_div_spec(n, ALIGNMENT as int) * (ALIGNMENT as int)
}

/// Width contributed to the instruction tabstop by one record: the label
/// and its colon of a code line, nothing otherwise.
pub open spec fn code_label_len(l: LineV) -> int {
    match l {
        LineV::Code { label, has_colon, .. } => opt_seq_len(label) + if has_colon {
            1int
        } else {
            0int
        },
        _ => 0,
    }
}

/// Width contributed to the argument tabstop: the instruction and the two
/// columns of its size suffix when one is present.
pub open spec fn code_instr_len(l: LineV) -> int {
    match l {
        LineV::Code { instruction, size, .. } => instruction.len() + if size is NoSuffix {
            0int
        } else {
            2int
        },
        _ => 0,
    }
}

/// Width contributed to the comment tabstop: the operand text of a code
/// line.
pub open spec fn code_args_len(l: LineV) -> int {
    match l {
        LineV::Code { args, .. } => opt_seq_len(args),
        _ => 0,
    }
}

/// The column at which a code line's instruction originally stood.
pub open spec fn code_col(l: LineV) -> int {
    match l {
        LineV::Code { initial_ws, .. } => code_label_len(l) + initial_ws,
        _ => 0,
    }
}

pub open spec fn raw_label_max(s: Seq<LineV>) -> int
    decreases s.len(),
{
    if s.len() == 0 {
        0
    } else {
        let p = raw_label_max(s.drop_last());
        let c = code_label_len(s.last());
        if c > p {
            c
        } else {
            p
        }
    }
}

pub open spec fn raw_instr_max(s: Seq<LineV>) -> int
    decreases s.len(),
{
    if s.len() == 0 {
        0
    } else {
        let p = raw_instr_max(s.drop_last());
        let c = code_instr_len(s.last());
        if c > p {
            c
        } else {
            p
        }
    }
}

pub open spec fn raw_args_max(s: Seq<LineV>) -> int
    decreases s.len(),
{
    if s.len() == 0 {
        0
    } else {
        let p = raw_args_max(s.drop_last());
        let c = code_args_len(s.last());
        if c > p {
            c
        } else {
            p
        }
    }
}

/// The distinct original instruction columns of the code lines, in first
/// appearance order.
pub open spec fn cols_seq(s: Seq<LineV>) -> Seq<int>
    decreases s.len(),
{
    if s.len() == 0 {
        Seq::empty()
    } else {
        let p = cols_seq(s.drop_last());
        if s.last() is Code {
            if p.contains(code_col(s.last())) {
                p
            } else {
                p.push(code_col(s.last()))
            }
        } else {
            p
        }
    }
}

pub open spec fn sum_seq(s: Seq<int>) -> int
    decreases s.len(),
{
    if s.len() == 0 {
        0
    } else {
        sum_seq(s.drop_last()) + s.last()
    }
}

/// The first tabstop: the widest label-plus-colon field, snapped.
pub open spec fn instruction_tab(s: Seq<LineV>) -> int {
    snap(raw_label_max(s))
}

/// The second tabstop: the first plus the widest instruction field,
/// snapped; the tabstops are cumulative column boundaries.
pub open spec fn arg_tab(s: Seq<LineV>) -> int {
    instruction_tab(s) + snap(raw_instr_max(s))
}

/// The third tabstop: the second plus the widest operand field, snapped.
pub open spec fn comment_tab(s: Seq<LineV>) -> int {
    arg_tab(s) + snap(raw_args_max(s))
}

/// The arithmetic mean of the distinct original instruction columns; zero
/// when no code line exists.
pub open spec fn orig_instr_tab(s: Seq<LineV>) -> int {
    let cs = cols_seq(s);
    if cs.len() == 0 {
        0
    } else {
        sum_seq(cs) / (cs.len() as int)
    }
}

proof fn lemma_raw_max_nonneg(s: Seq<LineV>)
    ensures
        raw_label_max(s) >= 0,
        raw_instr_max(s) >= 0,
        raw_args_max(s) >= 0,
    decreases s.len(),
{
    if s.len() > 0 {
        lemma_raw_max_nonneg(s.drop_last());
    }
}

/// Tabstop monotonicity: after snapping, the three tabstops are ordered
/// `instruction_tab <= arg_tab <= comment_tab` for every line sequence.
pub proof fn lemma_tabstop_monotonic(s: Seq<LineV>)
    ensures
        instruction_tab(s) <= arg_tab(s),
        arg_tab(s) <= comment_tab(s),
{
    lemma_raw_max_nonneg(s);
}

proof fn lemma_raws_code_free(s: Seq<LineV>)
    requires
        forall|j: int| 0 <= j < s.len() ==> !(#[trigger] s[j] is Code),
    ensures
        raw_label_max(s) == 0,
        raw_instr_max(s) == 0,
        raw_args_max(s) == 0,
        cols_seq(s) == Seq::<int>::empty(),
    decreases s.len(),
{
    if s.len() > 0 {
        lemma_raws_code_free(s.drop_last());
    }
}

/// Over a sequence without code lines every tabstop is zero, and so is the
/// mean original instruction column.
pub proof fn lemma_tabstops_code_free(s: Seq<LineV>)
    requires
        forall|j: int| 0 <= j < s.len() ==> !(#[trigger] s[j] is Code),
    ensures
        instruction_tab(s) == 0,
        arg_tab(s) == 0,
        comment_tab(s) == 0,
        orig_instr_tab(s) == 0,
{
    lemma_raws_code_free(s);
}

/// The computed tabstops: three cumulative column boundaries and the mean
/// original instruction column used by comment re-indentation.
pub struct Tabstops {
    pub instruction_tabstop: usize,
    pub arg_tabstop: usize,
    pub comment_tabstop: usize,
    pub original_instruction_tabstop: usize,
}

fn vec_has(v: &Vec<usize>, x: usize) -> (r: bool)
    ensures
        r == v@.contains(x),
{
    let mut i: usize = 0;
    while i < v.len()
        invariant
            i <= v@.len(),
            forall|j: int| 0 <= j < i ==> v@[j] != x,
        decreases v@.len() - i,
    {
        if v[i] == x {
            return true;
        }
        i = i + 1;
    }
    false
}

pub open spec fn cols_view(v: Seq<usize>) -> Seq<int> {
    v.map_values(|x: usize| x as int)
}

/// The measurement pass: over all code lines, the widest label/colon,
/// instruction-plus-suffix and operand fields, snapped into cumulative
/// tabstops, together with the mean original instruction column.
pub fn measure(lines: &Vec<Line>) -> (t: Tabstops)
    requires
        lines_wf(line_views(lines@)),
    ensures
        t.instruction_tabstop as int == instruction_tab(line_views(lines@)),
        t.arg_tabstop as int == arg_tab(line_views(lines@)),
        t.comment_tabstop as int == comment_tab(line_views(lines@)),
        t.original_instruction_tabstop as int == orig_instr_tab(line_views(lines@)),
        t.instruction_tabstop <= t.arg_tabstop <= t.comment_tabstop,
{
    let ghost nv = line_views(lines@);
    let mut label_max: usize = 0;
    let mut instr_max: usize = 0;
    let mut args_max: usize = 0;
    let mut cols: Vec<usize> = Vec::new();
    let mut sum: u128 = 0;
    let mut i: usize = 0;
    proof {
        assert(cols_view(cols@) =~= cols_seq(nv.take(0)));
    }
    while i < lines.len()
        invariant
            lines_wf(nv),
            nv == line_views(lines@),
            i <= lines@.len(),
            label_max as int == raw_label_max(nv.take(i as int)),
            instr_max as int == raw_instr_max(nv.take(i as int)),
            args_max as int == raw_args_max(nv.take(i as int)),
            label_max <= MAX_LINE_LEN + 1,
            instr_max <= MAX_LINE_LEN + 2,
            args_max <= MAX_LINE_LEN,
            cols_view(cols@) == cols_seq(nv.take(i as int)),
            cols@.len() <= i,
            forall|j: int| 0 <= j < cols@.len() ==> #[trigger] cols@[j] <= 2 * MAX_LINE_LEN + 1,
            sum as int == sum_seq(cols_seq(nv.take(i as int))),
            sum as int <= (2 * MAX_LINE_LEN + 1) * cols@.len(),
        decreases lines@.len() - i,
    {
        proof {
            assert(line_wf(nv[i as int]));
            assert(nv.take(i as int + 1).drop_last() =~= nv.take(i as int));
            assert(nv.take(i as int + 1).last() == nv[i as int]);
        }
        match &lines[i] {
            Line::Code { label, has_colon, initial_ws, instruction, size, args, .. } => {
                let label_length: usize = (match label {
                    Option::Some(s) => s.len(),
                    Option::None => 0,
                }) + (if *has_colon {
                    1
                } else {
                    0
                });
                if label_length > label_max {
                    label_max = label_length;
                }
                let ilen: usize = instruction.len() + (match size {
                    Size::NoSuffix => 0,
                    _ => 2,
                });
                if ilen > instr_max {
                    instr_max = ilen;
                }
                let alen: usize = match args {
                    Option::Some(a) => a.len(),
                    Option::None => 0,
                };
                if alen > args_max {
                    args_max = alen;
                }
                let col: usize = label_length + *initial_ws;
                let ghost cs = cols_seq(nv.take(i as int));
                if !vec_has(&cols, col) {
                    proof {
                        assert(!cs.contains(col as int)) by {
                            if cs.contains(col as int) {
                                let j = choose|j: int|
                                    0 <= j < cs.len() && cs[j] == col as int;
                                assert(cols_view(cols@)[j] == col as int);
                                assert(cols@[j] == col);
                                assert(cols@.contains(col));
                            }
                        }
                    }
                    let ghost lold = cols@.len() as int;
                    cols.push(col);
                    proof {
                        assert(cols_view(cols@) =~= cs.push(col as int));
                        assert(cs.push(col as int).drop_last() =~= cs);
                        assert(sum as int + col as int <= (2 * MAX_LINE_LEN + 1) * (
                        cols@.len() as int)) by (nonlinear_arith)
                            requires
                                sum as int <= (2 * MAX_LINE_LEN + 1) * lold,
                                col as int <= 2 * MAX_LINE_LEN + 1,
                                cols@.len() as int == lold + 1,
                                lold >= 0,
                        ;
                        assert((2 * MAX_LINE_LEN + 1) * (cols@.len() as int) <= (2 * MAX_LINE_LEN
                            + 1) * 0x1_0000_0000_0000_0000) by (nonlinear_arith)
                            requires
                                0 <= cols@.len() as int <= 0x1_0000_0000_0000_0000,
                        ;
                    }
                    sum = sum + col as u128;
                } else {
                    proof {
                        assert(cs.contains(col as int)) by {
                            let j = choose|j: int| 0 <= j < cols@.len() && cols@[j] == col;
                            assert(cols_view(cols@)[j] == col as int);
                        }
                    }
                }
            },
            _ => {},
        }
        i = i + 1;
    }
    proof {
        assert(nv.take(nv.len() as int) =~= nv);
    }
    let instruction_tabstop = ceiling_div(label_max, ALIGNMENT) * ALIGNMENT;
    let arg_tabstop = instruction_tabstop + ceiling_div(instr_max, ALIGNMENT) * ALIGNMENT;
    let comment_tabstop = arg_tabstop + ceiling_div(args_max, ALIGNMENT) * ALIGNMENT;
    let original_instruction_tabstop: usize = if cols.len() == 0 {
        0
    } else {
        proof {
            let n = cols@.len() as int;
            assert((2 * MAX_LINE_LEN + 1) * n == n * (2 * MAX_LINE_LEN + 1)) by (nonlinear_arith);
            vstd::arithmetic::div_mod::lemma_div_is_ordered(
                sum as int,
                n * (2 * MAX_LINE_LEN + 1),
                n,
            );
            vstd::arithmetic::div_mod::lemma_div_multiples_vanish((2 * MAX_LINE_LEN + 1) as int, n);
        }
        (sum / (cols.len() as u128)) as usize
    };
    proof {
        lemma_tabstop_monotonic(nv);
    }
    Tabstops { instruction_tabstop, arg_tabstop, comment_tabstop, original_instruction_tabstop }
}

/// `n` space bytes; none when `n` is negative.
pub open spec fn spaces(n: int) -> Seq<u8> {
    Seq::new(
        if n < 0 {
            0nat
        } else {
            n as nat
        },
        |i: int| SPACE,
    )
}

/// `s` padded with spaces up to column `target`; a line already past the
/// target is left as it stands.
pub open spec fn pad_to(s: Seq<u8>, target: int) -> Seq<u8> {
    s + spaces(target - s.len())
}

pub open spec fn opt_bytes_or_empty(o: Option<Seq<u8>>) -> Seq<u8> {
    match o {
        Option::Some(s) => s,
        Option::None => Seq::empty(),
    }
}

pub open spec fn opt_prefix_seq(o: Option<u8>) -> Seq<u8> {
    match o {
        Option::Some(p) => seq![p],
        Option::None => Seq::empty(),
    }
}

/// The two-column rendering of a size suffix: `.S`, `.B`, `.W` or `.L`.
pub open spec fn size_suffix(sz: Size) -> Seq<u8> {
    match sz {
        Size::Short => seq![DOT, 83u8],
        Size::Byte => seq![DOT, 66u8],
        Size::Word => seq![DOT, 87u8],
        Size::Long => seq![DOT, 76u8],
        Size::NoSuffix => Seq::empty(),
    }
}

/// The column a full-line comment is re-indented to: unindented when the
/// original indent was clearly left of the mean original instruction
/// column, the instruction tabstop around it, the comment tabstop past it.
pub open spec fn comment_indent(ws: int, it: int, at: int, ct: int, mean: int) -> int {
    if ws < mean / 2 {
        0
    } else if ws <= mean {
        it
    } else if ws < (at - it) / 2 {
        it
    } else {
        ct
    }
}

/// Composition of a code line: label and colon, instruction and suffix at
/// the instruction tabstop, operands at the argument tabstop when present,
/// and prefix plus comment at the comment tabstop when present.
pub open spec fn render_code_spec(
    label: Option<Seq<u8>>,
    has_colon: bool,
    instruction: Seq<u8>,
    size: Size,
    args: Option<Seq<u8>>,
    prefix: Option<u8>,
    comment: Option<Seq<u8>>,
    it: int,
    at: int,
    ct: int,
) -> Seq<u8> {
    let head = opt_bytes_or_empty(label) + (if has_colon {
        seq![COLON]
    } else {
        Seq::<u8>::empty()
    });
    let head2 = pad_to(head, it) + instruction + size_suffix(size);
    let head3 = match args {
        Option::Some(a) => pad_to(head2, at) + a,
        Option::None => head2,
    };
    match comment {
        Option::Some(cm) => pad_to(head3, ct) + opt_prefix_seq(prefix) + cm,
        Option::None => head3,
    }
}

/// Composition of a full-line comment: re-indentation, the prefix byte,
/// one space, then the text.
pub open spec fn render_comment_spec(
    ws: int,
    prefix: u8,
    text: Seq<u8>,
    it: int,
    at: int,
    ct: int,
    mean: int,
) -> Seq<u8> {
    spaces(comment_indent(ws, it, at, ct, mean)) + seq![prefix] + seq![SPACE] + text
}

/// Composition of a standalone label: name and colon, then prefix plus
/// comment at the comment tabstop when a comment exists.
pub open spec fn render_label_spec(
    name: Seq<u8>,
    has_colon: bool,
    prefix: Option<u8>,
    comment: Option<Seq<u8>>,
    ct: int,
) -> Seq<u8> {
    let head = name + (if has_colon {
        seq![COLON]
    } else {
        Seq::<u8>::empty()
    });
    match comment {
        Option::Some(cm) => pad_to(head, ct) + opt_prefix_seq(prefix) + cm,
        Option::None => head,
    }
}

/// Composition of one record against the measured tabstops. `Unknown`
/// lines are emitted verbatim and blank lines empty.
pub open spec fn render_line_spec(l: LineV, it: int, at: int, ct: int, mean: int) -> Seq<u8> {
    match l {
        LineV::Code { label, has_colon, instruction, size, args, prefix, comment, .. } =>
            render_code_spec(label, has_colon, instruction, size, args, prefix, comment, it, at, ct),
        LineV::Comment { ws, prefix, text, .. } => render_comment_spec(
            ws,
            prefix,
            text,
            it,
            at,
            ct,
            mean,
        ),
        LineV::Label { has_colon, name, prefix, comment, .. } => render_label_spec(
            name,
            has_colon,
            prefix,
            comment,
            ct,
        ),
        LineV::Unknown { text, .. } => text,
        LineV::Blank => Seq::empty(),
    }
}

/// Pads the composed line with spaces up to the target column, clamped:
/// a line already past the target is left unchanged.
fn pad_vec(out: &mut Vec<u8>, target: usize)
    ensures
        final(out)@ == pad_to(old(out)@, target as int),
{
    proof {
        assert(out@ =~= old(out)@ + spaces(0));
    }
    while out.len() < target
        invariant
            out@.len() >= old(out)@.len(),
            out@ == old(out)@ + spaces(out@.len() - old(out)@.len()),
            old(out)@.len() < target ==> out@.len() <= target,
            old(out)@.len() >= target ==> out@.len() == old(out)@.len(),
        decreases target - out@.len(),
    {
        out.push(SPACE);
        proof {
            assert(out@ =~= old(out)@ + spaces(out@.len() - old(out)@.len()));
        }
    }
    proof {
        assert(out@ =~= pad_to(old(out)@, target as int));
    }
}

fn render_code(
    label: &Option<Vec<u8>>,
    has_colon: bool,
    instruction: &Vec<u8>,
    size: Size,
    args: &Option<Vec<u8>>,
    prefix: Option<u8>,
    comment: &Option<Vec<u8>>,
    tabs: &Tabstops,
) -> (out: Vec<u8>)
    ensures
        out@ == render_code_spec(
            crate::line::view_opt_bytes(*label),
            has_colon,
            instruction@,
            size,
            crate::line::view_opt_bytes(*args),
            prefix,
            crate::line::view_opt_bytes(*comment),
            tabs.instruction_tabstop as int,
            tabs.arg_tabstop as int,
            tabs.comment_tabstop as int,
        ),
{
    let ghost it = tabs.instruction_tabstop as int;
    let ghost at = tabs.arg_tabstop as int;
    let ghost ct = tabs.comment_tabstop as int;
    let ghost head = opt_bytes_or_empty(crate::line::view_opt_bytes(*label)) + (if has_colon {
        seq![COLON]
    } else {
        Seq::<u8>::empty()
    });
    let mut out: Vec<u8> = Vec::new();
    match label {
        Option::Some(lab) => {
            let mut lv = clone_bytes(lab);
            out.append(&mut lv);
        },
        Option::None => {},
    }
    if has_colon {
        out.push(COLON);
    }
    proof {
        assert(out@ =~= head);
    }
    let ghost head2 = pad_to(head, it) + instruction@ + size_suffix(size);
    pad_vec(&mut out, tabs.instruction_tabstop);
    let mut iv = clone_bytes(instruction);
    out.append(&mut iv);
    match size {
        Size::Short => {
            out.push(DOT);
            out.push(83);
        },
        Size::Byte => {
            out.push(DOT);
            out.push(66);
        },
        Size::Word => {
            out.push(DOT);
            out.push(87);
        },
        Size::Long => {
            out.push(DOT);
            out.push(76);
        },
        Size::NoSuffix => {},
    }
    proof {
        assert(out@ =~= head2);
    }
    let ghost head3 = match crate::line::view_opt_bytes(*args) {
        Option::Some(a) => pad_to(head2, at) + a,
        Option::None => head2,
    };
    match args {
        Option::Some(a) => {
            pad_vec(&mut out, tabs.arg_tabstop);
            let mut av = clone_bytes(a);
            out.append(&mut av);
        },
        Option::None => {},
    }
    proof {
        assert(out@ =~= head3);
    }
    match comment {
        Option::Some(cm) => {
            pad_vec(&mut out, tabs.comment_tabstop);
            match prefix {
                Option::Some(p) => {
                    out.push(p);
                },
                Option::None => {},
            }
            let mut cv = clone_bytes(cm);
            out.append(&mut cv);
            proof {
                assert(out@ =~= pad_to(head3, ct) + opt_prefix_seq(prefix)
                    + crate::line::view_opt_bytes(*comment)->Some_0);
            }
        },
        Option::None => {},
    }
    out
}

fn render_comment(ws: usize, prefix: u8, text: &Vec<u8>, tabs: &Tabstops) -> (out: Vec<u8>)
    requires
        tabs.instruction_tabstop <= tabs.arg_tabstop,
    ensures
        out@ == render_comment_spec(
            ws as int,
            prefix,
            text@,
            tabs.instruction_tabstop as int,
            tabs.arg_tabstop as int,
            tabs.comment_tabstop as int,
            tabs.original_instruction_tabstop as int,
        ),
{
    let mean = tabs.original_instruction_tabstop;
    let indent: usize = if ws < mean / 2 {
        0
    } else if ws <= mean {
        tabs.instruction_tabstop
    } else if ws < (tabs.arg_tabstop - tabs.instruction_tabstop) / 2 {
        tabs.instruction_tabstop
    } else {
        tabs.comment_tabstop
    };
    let mut out: Vec<u8> = Vec::new();
    pad_vec(&mut out, indent);
    out.push(prefix);
    out.push(SPACE);
    let mut tv = clone_bytes(text);
    out.append(&mut tv);
    proof {
        assert(out@ =~= render_comment_spec(
            ws as int,
            prefix,
            text@,
            tabs.instruction_tabstop as int,
            tabs.arg_tabstop as int,
            tabs.comment_tabstop as int,
            tabs.original_instruction_tabstop as int,
        ));
    }
    out
}

fn render_label(
    name: &Vec<u8>,
    has_colon: bool,
    prefix: Option<u8>,
    comment: &Option<Vec<u8>>,
    tabs: &Tabstops,
) -> (out: Vec<u8>)
    ensures
        out@ == render_label_spec(
            name@,
            has_colon,
            prefix,
            crate::line::view_opt_bytes(*comment),
            tabs.comment_tabstop as int,
        ),
{
    let ghost ct = tabs.comment_tabstop as int;
    let ghost head = name@ + (if has_colon {
        seq![COLON]
    } else {
        Seq::<u8>::empty()
    });
    let mut out = clone_bytes(name);
    if has_colon {
        out.push(COLON);
    }
    proof {
        assert(out@ =~= head);
    }
    match comment {
        Option::Some(cm) => {
            pad_vec(&mut out, tabs.comment_tabstop);
            match prefix {
                Option::Some(p) => {
                    out.push(p);
                },
                Option::None => {},
            }
            let mut cv = clone_bytes(cm);
            out.append(&mut cv);
            proof {
                assert(out@ =~= pad_to(head, ct) + opt_prefix_seq(prefix)
                    + crate::line::view_opt_bytes(*comment)->Some_0);
            }
        },
        Option::None => {},
    }
    out
}

/// Composes one record into its output line against the given tabstops.
pub fn render_line(l: &Line, tabs: &Tabstops) -> (out: Vec<u8>)
    requires
        tabs.instruction_tabstop <= tabs.arg_tabstop,
    ensures
        out@ == render_line_spec(
            l@,
            tabs.instruction_tabstop as int,
            tabs.arg_tabstop as int,
            tabs.comment_tabstop as int,
            tabs.original_instruction_tabstop as int,
        ),
{
    match l {
        Line::Code {
            label,
            has_colon,
            instruction,
            size,
            args,
            prefix,
            comment,
            ..
        } => render_code(label, *has_colon, instruction, *size, args, *prefix, comment, tabs),
        Line::Comment { ws, prefix, text, .. } => render_comment(*ws, *prefix, text, tabs),
        Line::Label { has_colon, name, prefix, comment, .. } => render_label(
            name,
            *has_colon,
            *prefix,
            comment,
            tabs,
        ),
        Line::Unknown { text, .. } => clone_bytes(text),
        Line::Blank => Vec::new(),
    }
}

pub open spec fn text_views(s: Seq<Vec<u8>>) -> Seq<Seq<u8>> {
    s.map_values(|v: Vec<u8>| v@)
}

/// The whole alignment stage: measure, then compose every line.
pub open spec fn transform_spec(s: Seq<LineV>) -> Seq<Seq<u8>> {
    s.map_values(
        |l: LineV|
            render_line_spec(l, instruction_tab(s), arg_tab(s), comment_tab(s), orig_instr_tab(s)),
    )
}

/// The alignment stage: a pure function from the transformed records to
/// the output lines, one per record, composed against tabstops measured
/// over the whole sequence.
pub fn transform(lines: &Vec<Line>) -> (out: Vec<Vec<u8>>)
    requires
        lines_wf(line_views(lines@)),
    ensures
        text_views(out@) == transform_spec(line_views(lines@)),
{
    let ghost nv = line_views(lines@);
    let tabs = measure(lines);
    let mut out: Vec<Vec<u8>> = Vec::new();
    let mut i: usize = 0;
    while i < lines.len()
        invariant
            nv == line_views(lines@),
            lines_wf(nv),
            i <= lines@.len(),
            tabs.instruction_tabstop as int == instruction_tab(nv),
            tabs.arg_tabstop as int == arg_tab(nv),
            tabs.comment_tabstop as int == comment_tab(nv),
            tabs.original_instruction_tabstop as int == orig_instr_tab(nv),
            tabs.instruction_tabstop <= tabs.arg_tabstop,
            out@.len() == i,
            forall|j: int| 0 <= j < i ==> text_views(out@)[j] == transform_spec(nv)[j],
        decreases lines@.len() - i,
    {
        let ghost prev = text_views(out@);
        let r = render_line(&lines[i], &tabs);
        out.push(r);
        proof {
            assert(text_views(out@) =~= prev.push(r@));
        }
        i = i + 1;
    }
    proof {
        assert(text_views(out@) =~= transform_spec(nv));
    }
    out
}

} // verus!
