//! Line reclassifier and column aligner for a line-oriented assembly dialect.
//!
//! The pipeline has three stages: classification of each raw line into a
//! tagged record (`classify`), per-line normalization plus the collapse of
//! runs of consecutive single-byte move instructions (`process`), and a
//! two-pass column alignment that re-emits every line against tabstops
//! measured over the whole file (`align`).
use vstd::prelude::*;

pub mod align;
pub mod classify;
pub mod line;
pub mod process;
pub mod text;

use crate::align::{render_line_spec, transform, transform_spec, text_views};
use crate::classify::{classify_spec, lemma_unknown_reclassify, parse, post_trimmed};
use crate::line::{Line, line_views, lines_wf, MAX_LINE_LEN};
use crate::process::{
    is_collapsible, lemma_collapse_none, normalize_seq, normalize_spec, process, process_spec,
};

verus! {

/// The whole pipeline over a sequence of raw lines: classify each line,
/// normalize and collapse the records, then re-emit them aligned.
pub open spec fn pipeline_spec(s: Seq<Seq<u8>>) -> Seq<Seq<u8>> {
    transform_spec(process_spec(s.map_values(|l: Seq<u8>| classify_spec(l))))
}

/// Runs the three stages over the raw input lines and returns the output
/// lines, one per record surviving the collapse.
pub fn run_pipeline(input: &Vec<Vec<u8>>) -> (out: Vec<Vec<u8>>)
    requires
        forall|i: int| 0 <= i < input@.len() ==> (#[trigger] input@[i])@.len() <= MAX_LINE_LEN,
    ensures
        text_views(out@) == pipeline_spec(text_views(input@)),
{
    let ghost iv = text_views(input@);
    let mut parsed: Vec<Line> = Vec::new();
    let mut i: usize = 0;
    while i < input.len()
        invariant
            i <= input@.len(),
            forall|j: int|
                0 <= j < input@.len() ==> (#[trigger] input@[j])@.len() <= MAX_LINE_LEN,
            iv == text_views(input@),
            parsed@.len() == i,
            forall|j: int|
                0 <= j < i ==> line_views(parsed@)[j] == classify_spec(#[trigger] iv[j]),
            lines_wf(line_views(parsed@)),
        decreases input@.len() - i,
    {
        let ghost prev = line_views(parsed@);
        let r = parse(&input[i]);
        parsed.push(r);
        i = i + 1;
        proof {
            assert(line_views(parsed@) =~= prev.push(r@));
        }
    }
    proof {
        assert(line_views(parsed@) =~= iv.map_values(|l: Seq<u8>| classify_spec(l)));
    }
    process(&mut parsed);
    transform(&parsed)
}

/// Round trip on `Unknown`: a line that no grammar matches is re-emitted
/// byte-identical, modulo the trim of its trailing whitespace, whatever
/// the tabstops measured over the file.
pub proof fn lemma_unknown_round_trip(s: Seq<u8>, it: int, at: int, ct: int, mean: int)
    requires
        classify_spec(s) is Unknown,
    ensures
        render_line_spec(normalize_spec(classify_spec(s)), it, at, ct, mean) == post_trimmed(s),
{
}

/// Idempotence of the pipeline on input without code lines: over a file
/// whose every line is blank, a full-line comment, a standalone label
/// without a trailing comment, or matched by no grammar, running the
/// pipeline on its own output reproduces that output. (A file with code
/// lines can move a long label's trailing comment against its colon, and
/// the mean original instruction column changes once code is aligned, so
/// the fixed point is stated for these line kinds.)
pub proof fn lemma_pipeline_idempotent_without_code(s: Seq<Seq<u8>>)
    requires
        forall|i: int|
            0 <= i < s.len() ==> (classify_spec(#[trigger] s[i]) is Unknown || classify_spec(
                s[i],
            ) is Blank || classify_spec(s[i]) is Comment || (classify_spec(s[i]) is Label
                && classify_spec(s[i])->Label_comment is None)),
    ensures
        pipeline_spec(pipeline_spec(s)) == pipeline_spec(s),
{
    let cs = s.map_values(|l: Seq<u8>| classify_spec(l));
    let ns = normalize_seq(cs);
    // after normalization nothing is collapsible and nothing is a code line
    assert forall|j: int|
        0 <= j < ns.len() implies !is_collapsible(#[trigger] ns[j]) && !(ns[j] is Code) by {
        assert(cs[j] == classify_spec(s[j]));
        assert(ns[j] == normalize_spec(cs[j]));
    }
    lemma_collapse_none(ns);
    assert(process_spec(cs) == ns);
    crate::align::lemma_tabstops_code_free(ns);
    let out = pipeline_spec(s);
    assert(out == transform_spec(ns));
    let cs2 = out.map_values(|l: Seq<u8>| classify_spec(l));
    let ns2 = normalize_seq(cs2);
    // each output line classifies back to a record that, normalized again,
    // renders the same output line
    assert forall|j: int|
        0 <= j < cs.len() implies !is_collapsible(#[trigger] ns2[j]) && !(ns2[j] is Code)
            && render_line_spec(ns2[j], 0, 0, 0, 0) == out[j] by {
        assert(cs[j] == classify_spec(s[j]));
        assert(ns[j] == normalize_spec(cs[j]));
        assert(cs2[j] == classify_spec(out[j]));
        assert(ns2[j] == normalize_spec(cs2[j]));
        assert(out[j] == render_line_spec(ns[j], 0, 0, 0, 0));
        if cs[j] is Unknown {
            lemma_unknown_reclassify(s[j]);
            assert(out[j] == classify_spec(s[j])->Unknown_text);
            assert(cs2[j] == cs[j]);
        } else if cs[j] is Blank {
            assert(out[j] =~= Seq::<u8>::empty());
            assert(cs2[j] is Blank);
        } else if cs[j] is Comment {
            crate::classify::lemma_comment_reclassify(s[j]);
            let p = cs[j]->Comment_prefix;
            let tx = cs[j]->Comment_text;
            let r = seq![p] + seq![crate::text::SPACE] + tx;
            assert(out[j] =~= r);
            assert(cs2[j] == classify_spec(r));
            assert(render_line_spec(ns2[j], 0, 0, 0, 0) =~= r);
        } else {
            crate::classify::lemma_label_reclassify(s[j]);
            let r = cs[j]->name + seq![crate::text::COLON];
            assert(out[j] =~= r);
            assert(cs2[j] == classify_spec(r));
            assert(render_line_spec(ns2[j], 0, 0, 0, 0) =~= r);
        }
    }
    lemma_collapse_none(ns2);
    assert(process_spec(cs2) == ns2);
    crate::align::lemma_tabstops_code_free(ns2);
    assert forall|j: int| 0 <= j < out.len() implies transform_spec(ns2)[j] == out[j] by {
    }
    assert(transform_spec(ns2) =~= out);
    assert(pipeline_spec(out) == transform_spec(process_spec(cs2)));
}

} // verus!
