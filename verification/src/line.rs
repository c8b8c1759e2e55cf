//! Data model: the tagged line record produced by classification, its
//! mathematical view, and the well-formedness predicate the later stages
//! rely on.
use vstd::prelude::*;

verus! {

/// Upper bound on every stored width and text length; the alignment stage
/// requires it so that its column arithmetic stays inside `usize`.
pub const MAX_LINE_LEN: usize = 65535;

/// The `.S/.B/.W/.L` operand-size suffix of an instruction; `NoSuffix`
/// means the instruction carries none.
#[derive(Clone, Copy, PartialEq, Eq, Structural, Debug)]
pub enum Size {
    Short,
    Byte,
    Word,
    Long,
    NoSuffix,
}

/// One classified input line. Text fields hold raw bytes of the source
/// line; width fields count bytes. `orig_length` is the byte length of the
/// end-trimmed source line, kept only as a capacity hint and never trusted
/// after transformation.
#[derive(Debug)]
pub enum Line {
    Code {
        orig_length: usize,
        label: Option<Vec<u8>>,
        has_colon: bool,
        initial_ws: usize,
        instruction: Vec<u8>,
        size: Size,
        medial_ws: usize,
        args: Option<Vec<u8>>,
        final_ws: Option<usize>,
        prefix: Option<u8>,
        comment: Option<Vec<u8>>,
        collapsible: bool,
    },
    Comment { orig_length: usize, ws: usize, prefix: u8, text: Vec<u8> },
    Label {
        has_colon: bool,
        orig_length: usize,
        name: Vec<u8>,
        prefix: Option<u8>,
        comment: Option<Vec<u8>>,
    },
    Unknown { orig_length: usize, text: Vec<u8> },
    Blank,
}

/// Mathematical view of a `Line`: the same shape over `Seq<u8>` and `int`.
#[verifier::ext_equal]
pub enum LineV {
    Code {
        orig_length: int,
        label: Option<Seq<u8>>,
        has_colon: bool,
        initial_ws: int,
        instruction: Seq<u8>,
        size: Size,
        medial_ws: int,
        args: Option<Seq<u8>>,
        final_ws: Option<int>,
        prefix: Option<u8>,
        comment: Option<Seq<u8>>,
        collapsible: bool,
    },
    Comment { orig_length: int, ws: int, prefix: u8, text: Seq<u8> },
    Label {
        has_colon: bool,
        orig_length: int,
        name: Seq<u8>,
        prefix: Option<u8>,
        comment: Option<Seq<u8>>,
    },
    Unknown { orig_length: int, text: Seq<u8> },
    Blank,
}

pub open spec fn view_opt_bytes(o: Option<Vec<u8>>) -> Option<Seq<u8>> {
    match o {
        Option::Some(v) => Option::Some(v@),
        Option::None => Option::None,
    }
}

pub open spec fn view_opt_len(o: Option<usize>) -> Option<int> {
    match o {
        Option::Some(n) => Option::Some(n as int),
        Option::None => Option::None,
    }
}

impl View for Line {
    type V = LineV;

    open spec fn view(&self) -> LineV {
        match *self {
            Line::Code {
                orig_length,
                ref label,
                has_colon,
                initial_ws,
                ref instruction,
                size,
                medial_ws,
                ref args,
                final_ws,
                prefix,
                ref comment,
                collapsible,
            } => LineV::Code {
                orig_length: orig_length as int,
                label: view_opt_bytes(*label),
                has_colon,
                initial_ws: initial_ws as int,
                instruction: instruction@,
                size,
                medial_ws: medial_ws as int,
                args: view_opt_bytes(*args),
                final_ws: view_opt_len(final_ws),
                prefix,
                comment: view_opt_bytes(*comment),
                collapsible,
            },
            Line::Comment { orig_length, ws, prefix, ref text } => LineV::Comment {
                orig_length: orig_length as int,
                ws: ws as int,
                prefix,
                text: text@,
            },
            Line::Label { has_colon, orig_length, ref name, prefix, ref comment } => LineV::Label {
                has_colon,
                orig_length: orig_length as int,
                name: name@,
                prefix,
                comment: view_opt_bytes(*comment),
            },
            Line::Unknown { orig_length, ref text } => LineV::Unknown {
                orig_length: orig_length as int,
                text: text@,
            },
            Line::Blank => LineV::Blank,
        }
    }
}

/// The views of a sequence of records.
pub open spec fn line_views(s: Seq<Line>) -> Seq<LineV> {
    s.map_values(|l: Line| l@)
}

pub open spec fn opt_seq_len(o: Option<Seq<u8>>) -> int {
    match o {
        Option::Some(s) => s.len() as int,
        Option::None => 0,
    }
}

pub open spec fn opt_int_bounded(o: Option<int>, m: int) -> bool {
    match o {
        Option::Some(n) => 0 <= n <= m,
        Option::None => true,
    }
}

/// The exact operand shape of a collapsible byte move: `#'c',(A5)+` with a
/// single non-quote literal byte `c`.
pub open spec fn collapsible_args_shape(a: Seq<u8>) -> bool {
    &&& a.len() == 10
    &&& a[0] == 35
    &&& a[1] == 39
    &&& a[2] != 39
    &&& a[3] == 39
    &&& a[4] == 44
    &&& a[5] == 40
    &&& a[6] == 65
    &&& a[7] == 53
    &&& a[8] == 41
    &&& a[9] == 43
}

/// Well-formedness of one record: every width and text length is bounded by
/// `MAX_LINE_LEN`, and a record flagged collapsible really carries the
/// collapsible operand shape.
pub open spec fn line_wf(l: LineV) -> bool {
    match l {
        LineV::Code {
            orig_length,
            label,
            initial_ws,
            instruction,
            medial_ws,
            args,
            final_ws,
            comment,
            collapsible,
            ..
        } => {
            &&& 0 <= orig_length <= MAX_LINE_LEN
            &&& opt_seq_len(label) <= MAX_LINE_LEN
            &&& 0 <= initial_ws <= MAX_LINE_LEN
            &&& instruction.len() <= MAX_LINE_LEN
            &&& 0 <= medial_ws <= MAX_LINE_LEN
            &&& opt_seq_len(args) <= MAX_LINE_LEN
            &&& opt_int_bounded(final_ws, MAX_LINE_LEN as int)
            &&& opt_seq_len(comment) <= MAX_LINE_LEN
            &&& (collapsible ==> (args matches Option::Some(a) && collapsible_args_shape(a)))
        },
        LineV::Comment { orig_length, ws, text, .. } => {
            &&& 0 <= orig_length <= MAX_LINE_LEN
            &&& 0 <= ws <= MAX_LINE_LEN
            &&& text.len() <= MAX_LINE_LEN
        },
        LineV::Label { orig_length, name, comment, .. } => {
            &&& 0 <= orig_length <= MAX_LINE_LEN
            &&& name.len() <= MAX_LINE_LEN
            &&& opt_seq_len(comment) <= MAX_LINE_LEN
        },
        LineV::Unknown { orig_length, text } => {
            &&& 0 <= orig_length <= MAX_LINE_LEN
            &&& text.len() <= MAX_LINE_LEN
        },
        LineV::Blank => true,
    }
}

pub open spec fn lines_wf(s: Seq<LineV>) -> bool {
    forall|i: int| 0 <= i < s.len() ==> line_wf(#[trigger] s[i])
}

pub fn clone_opt_bytes(o: &Option<Vec<u8>>) -> (r: Option<Vec<u8>>)
    ensures
        view_opt_bytes(r) == view_opt_bytes(*o),
{
    match o {
        Option::Some(v) => Option::Some(crate::text::clone_bytes(v)),
        Option::None => Option::None,
    }
}

/// A deep copy of one record, with a proved view equality.
pub fn clone_line(l: &Line) -> (r: Line)
    ensures
        r@ == l@,
{
    match l {
        Line::Code {
            orig_length,
            label,
            has_colon,
            initial_ws,
            instruction,
            size,
            medial_ws,
            args,
            final_ws,
            prefix,
            comment,
            collapsible,
        } => Line::Code {
            orig_length: *orig_length,
            label: clone_opt_bytes(label),
            has_colon: *has_colon,
            initial_ws: *initial_ws,
            instruction: crate::text::clone_bytes(instruction),
            size: *size,
            medial_ws: *medial_ws,
            args: clone_opt_bytes(args),
            final_ws: *final_ws,
            prefix: *prefix,
            comment: clone_opt_bytes(comment),
            collapsible: *collapsible,
        },
        Line::Comment { orig_length, ws, prefix, text } => Line::Comment {
            orig_length: *orig_length,
            ws: *ws,
            prefix: *prefix,
            text: crate::text::clone_bytes(text),
        },
        Line::Label { has_colon, orig_length, name, prefix, comment } => Line::Label {
            has_colon: *has_colon,
            orig_length: *orig_length,
            name: crate::text::clone_bytes(name),
            prefix: *prefix,
            comment: clone_opt_bytes(comment),
        },
        Line::Unknown { orig_length, text } => Line::Unknown {
            orig_length: *orig_length,
            text: crate::text::clone_bytes(text),
        },
        Line::Blank => Line::Blank,
    }
}

} // verus!
