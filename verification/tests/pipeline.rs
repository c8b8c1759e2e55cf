use asmalign::align::{ceiling_div, measure, transform};
use asmalign::classify::parse;
use asmalign::line::{Line, Size};
use asmalign::process::{handle_movegroup, normalize_line, process};
use asmalign::run_pipeline;

fn bytes_of(s: &str) -> Vec<u8> {
    s.as_bytes().to_vec()
}

#[test]
fn two_byte_moves_collapse_to_word() {
    let input = vec![bytes_of("foo:  move.b #'A',(A5)+"), bytes_of("  move.b #'B',(A5)+")];
    let mut parsed: Vec<Line> = input.iter().map(parse).collect();
    process(&mut parsed);
    assert_eq!(parsed.len(), 1);
    match &parsed[0] {
        Line::Code { size, args, instruction, .. } => {
            assert_eq!(*size, Size::Word);
            assert_eq!(instruction, &bytes_of("MOVE"));
            let a = args.as_ref().expect("operands kept");
            assert_eq!(a, &bytes_of("#'AB',(A5)+"));
        },
        other => panic!("expected a code record, got {:?}", other),
    }
}

#[test]
fn two_byte_moves_full_pipeline() {
    let input = vec![bytes_of("foo:  move.b #'A',(A5)+"), bytes_of("  move.b #'B',(A5)+")];
    let out = run_pipeline(&input);
    assert_eq!(out.len(), 1);
    assert_eq!(out[0], bytes_of("foo:MOVE.W  #'AB',(A5)+"));
}

#[test]
fn bare_return_is_code() {
    let parsed = parse(&bytes_of("  rts"));
    match parsed {
        Line::Code { instruction, size, args, .. } => {
            assert_eq!(instruction, bytes_of("RTS"));
            assert_eq!(size, Size::NoSuffix);
            assert!(args.is_none());
        },
        other => panic!("expected a code record, got {:?}", other),
    }
}

#[test]
fn full_line_comment_classified() {
    let parsed = parse(&bytes_of("; a comment"));
    match parsed {
        Line::Comment { prefix, text, ws, .. } => {
            assert_eq!(prefix, b';');
            assert_eq!(text, bytes_of("a comment"));
            assert_eq!(ws, 0);
        },
        other => panic!("expected a comment record, got {:?}", other),
    }
}

#[test]
fn bare_label_classified() {
    let parsed = parse(&bytes_of("LOOP"));
    match parsed {
        Line::Label { name, has_colon, comment, .. } => {
            assert_eq!(name, bytes_of("LOOP"));
            assert!(!has_colon);
            assert!(comment.is_none());
        },
        other => panic!("expected a label record, got {:?}", other),
    }
}

#[test]
fn label_colon_policy_applied() {
    let input = vec![bytes_of("LOOP")];
    let out = run_pipeline(&input);
    assert_eq!(out, vec![bytes_of("LOOP:")]);
}

#[test]
fn four_byte_moves_collapse_to_long() {
    let input = vec![
        bytes_of("  move.b #'W',(A5)+"),
        bytes_of("  move.b #'X',(A5)+"),
        bytes_of("  move.b #'Y',(A5)+"),
        bytes_of("  move.b #'Z',(A5)+"),
    ];
    let mut parsed: Vec<Line> = input.iter().map(parse).collect();
    process(&mut parsed);
    assert_eq!(parsed.len(), 1);
    match &parsed[0] {
        Line::Code { size, args, .. } => {
            assert_eq!(*size, Size::Long);
            assert_eq!(args.as_ref().unwrap(), &bytes_of("#'WXYZ',(A5)+"));
        },
        other => panic!("expected a code record, got {:?}", other),
    }
}

#[test]
fn run_of_three_collapsible_lines_is_untouched() {
    let input = vec![
        bytes_of("  move.b #'W',(A5)+"),
        bytes_of("  move.b #'X',(A5)+"),
        bytes_of("  move.b #'Y',(A5)+"),
    ];
    let mut parsed: Vec<Line> = input.iter().map(parse).collect();
    process(&mut parsed);
    assert_eq!(parsed.len(), 3);
    for l in &parsed {
        match l {
            Line::Code { size, .. } => assert_eq!(*size, Size::Byte),
            other => panic!("expected a code record, got {:?}", other),
        }
    }
}

#[test]
fn run_of_one_collapsible_line_is_untouched() {
    let input = vec![bytes_of("  move.b #'Q',(A5)+")];
    let mut parsed: Vec<Line> = input.iter().map(parse).collect();
    process(&mut parsed);
    assert_eq!(parsed.len(), 1);
    match &parsed[0] {
        Line::Code { size, args, .. } => {
            assert_eq!(*size, Size::Byte);
            assert_eq!(args.as_ref().unwrap(), &bytes_of("#'Q',(A5)+"));
        },
        other => panic!("expected a code record, got {:?}", other),
    }
}

#[test]
fn collapse_interrupted_by_other_line_flushes_group() {
    // two collapsible moves, a blank line, then two more: each pair merges
    let input = vec![
        bytes_of("  move.b #'A',(A5)+"),
        bytes_of("  move.b #'B',(A5)+"),
        bytes_of(""),
        bytes_of("  move.b #'C',(A5)+"),
        bytes_of("  move.b #'D',(A5)+"),
    ];
    let mut parsed: Vec<Line> = input.iter().map(parse).collect();
    process(&mut parsed);
    assert_eq!(parsed.len(), 3);
    match &parsed[0] {
        Line::Code { size, args, .. } => {
            assert_eq!(*size, Size::Word);
            assert_eq!(args.as_ref().unwrap(), &bytes_of("#'AB',(A5)+"));
        },
        other => panic!("expected a code record, got {:?}", other),
    }
    assert!(matches!(parsed[1], Line::Blank));
    match &parsed[2] {
        Line::Code { size, args, .. } => {
            assert_eq!(*size, Size::Word);
            assert_eq!(args.as_ref().unwrap(), &bytes_of("#'CD',(A5)+"));
        },
        other => panic!("expected a code record, got {:?}", other),
    }
}

#[test]
fn unknown_line_round_trips_trimmed() {
    // a label followed by an argument-less instruction and a comment fits no
    // grammar: the operand list is missing and the prefix byte cannot open
    // an operand token
    let input = vec![bytes_of("foo: RTS ; hi   ")];
    let parsed = parse(&input[0]);
    assert!(matches!(parsed, Line::Unknown { .. }));
    let out = run_pipeline(&input);
    assert_eq!(out, vec![bytes_of("foo: RTS ; hi")]);
}

#[test]
fn blank_line_emitted_empty() {
    let input = vec![bytes_of("   \t ")];
    assert!(matches!(parse(&input[0]), Line::Blank));
    let out = run_pipeline(&input);
    assert_eq!(out, vec![bytes_of("")]);
}

#[test]
fn classification_is_total_on_arbitrary_bytes() {
    // no input is rejected: every string yields exactly one record
    let samples: Vec<Vec<u8>> = vec![
        bytes_of(""),
        bytes_of(":"),
        bytes_of(": ; c"),
        bytes_of("#$%"),
        bytes_of("a b c d e"),
        bytes_of("move.b"),
        vec![0, 255, 128, 7],
        bytes_of("foo: ;"),
    ];
    for s in &samples {
        let l = parse(s);
        match l {
            Line::Code { .. } | Line::Comment { .. } | Line::Label { .. }
            | Line::Unknown { .. } | Line::Blank => {},
        }
    }
}

#[test]
fn instruction_at_column_zero_is_not_code() {
    // the code grammar requires whitespace before the instruction, so a
    // mnemonic starting at the first column cannot be told from a label
    let parsed = parse(&bytes_of("move.b #'A',(A5)+"));
    assert!(matches!(parsed, Line::Unknown { .. }));
}

#[test]
fn halt_mnemonic_is_code() {
    let parsed = parse(&bytes_of("SIMHALT"));
    match parsed {
        Line::Code { instruction, size, args, .. } => {
            assert_eq!(instruction, bytes_of("SIMHALT"));
            assert_eq!(size, Size::NoSuffix);
            assert!(args.is_none());
        },
        other => panic!("expected a code record, got {:?}", other),
    }
}

#[test]
fn lower_case_end_directive_is_code() {
    let parsed = parse(&bytes_of("end"));
    match parsed {
        Line::Code { instruction, .. } => assert_eq!(instruction, bytes_of("END")),
        other => panic!("expected a code record, got {:?}", other),
    }
}

#[test]
fn short_size_suffix_parsed() {
    let parsed = parse(&bytes_of("  bra.s label1"));
    match parsed {
        Line::Code { instruction, size, args, .. } => {
            assert_eq!(instruction, bytes_of("BRA"));
            assert_eq!(size, Size::Short);
            assert_eq!(args.unwrap(), bytes_of("label1"));
        },
        other => panic!("expected a code record, got {:?}", other),
    }
}

#[test]
fn tabstops_are_monotonic() {
    let input = vec![
        bytes_of("somelongerlabel:  move.b #'A',(A5)+ ; note"),
        bytes_of("  rts"),
        bytes_of("; comment"),
    ];
    let parsed: Vec<Line> = input.iter().map(parse).collect();
    let t = measure(&parsed);
    assert!(t.instruction_tabstop <= t.arg_tabstop);
    assert!(t.arg_tabstop <= t.comment_tabstop);
}

#[test]
fn tabstops_concrete_values() {
    let input = vec![bytes_of("foo:  move.b #'A',(A5)+")];
    let parsed: Vec<Line> = input.iter().map(parse).collect();
    let t = measure(&parsed);
    // label "foo:" is 4 wide; "MOVE" plus ".B" is 6; operands are 10 wide
    assert_eq!(t.instruction_tabstop, 4);
    assert_eq!(t.arg_tabstop, 12);
    assert_eq!(t.comment_tabstop, 24);
    assert_eq!(t.original_instruction_tabstop, 6);
}

#[test]
fn ceiling_div_exact_and_rounded() {
    assert_eq!(ceiling_div(0, 4), 0);
    assert_eq!(ceiling_div(4, 4), 1);
    assert_eq!(ceiling_div(5, 4), 2);
    assert_eq!(ceiling_div(7, 4), 2);
    assert_eq!(ceiling_div(8, 4), 2);
    assert_eq!(ceiling_div(9, 1), 9);
}

#[test]
fn code_line_with_comment_is_aligned() {
    let input = vec![bytes_of("lbl:  move.b d0,(a1) ;store")];
    let out = run_pipeline(&input);
    assert_eq!(out.len(), 1);
    // label 4 wide -> tabstop 4; "MOVE.B" 6 wide -> tabstop 12;
    // operands 7 wide -> tabstop 20
    assert_eq!(out[0], bytes_of("lbl:MOVE.B  d0,(a1) ;store"));
}

#[test]
fn transform_emits_one_line_per_record() {
    let input = vec![
        bytes_of("a:  move.w d0,d1"),
        bytes_of(""),
        bytes_of("; note"),
        bytes_of("???"),
    ];
    let parsed: Vec<Line> = input.iter().map(parse).collect();
    let out = transform(&parsed);
    assert_eq!(out.len(), 4);
}

#[test]
fn pipeline_idempotent_on_sample() {
    let input = vec![
        bytes_of("start:  move.b #'H',(A5)+"),
        bytes_of("  move.b #'I',(A5)+"),
        bytes_of("; greet the player"),
        bytes_of("loop"),
        bytes_of("  rts"),
        bytes_of("!!unparsed!!"),
        bytes_of(""),
    ];
    let once = run_pipeline(&input);
    let twice = run_pipeline(&once);
    assert_eq!(once, twice);
}

#[test]
fn pipeline_idempotent_on_code_free_file() {
    let input = vec![
        bytes_of("   ; indented comment"),
        bytes_of("* star comment   "),
        bytes_of(""),
        bytes_of("not ! a := grammar match"),
        bytes_of("  start  "),
    ];
    let once = run_pipeline(&input);
    let twice = run_pipeline(&once);
    assert_eq!(once, twice);
    assert_eq!(once[0], bytes_of("; indented comment"));
    assert_eq!(once[1], bytes_of("* star comment"));
    assert_eq!(once[2], bytes_of(""));
    assert_eq!(once[3], bytes_of("not ! a := grammar match"));
    assert_eq!(once[4], bytes_of("start:"));
}

#[test]
fn argless_mnemonic_prefix_with_comment() {
    let parsed = parse(&bytes_of("END ; done"));
    match parsed {
        Line::Code { instruction, prefix, comment, args, .. } => {
            assert_eq!(instruction, bytes_of("END"));
            assert_eq!(prefix, Some(b';'));
            assert_eq!(comment.unwrap(), bytes_of(" done"));
            assert!(args.is_none());
        },
        other => panic!("expected a code record, got {:?}", other),
    }
}

#[test]
fn label_with_trailing_comment() {
    let parsed = parse(&bytes_of("foo: ; setup"));
    match parsed {
        Line::Label { name, has_colon, prefix, comment, .. } => {
            assert_eq!(name, bytes_of("foo"));
            assert!(has_colon);
            assert_eq!(prefix, Some(b';'));
            assert_eq!(comment.unwrap(), bytes_of(" setup"));
        },
        other => panic!("expected a label record, got {:?}", other),
    }
}

#[test]
fn star_prefixed_comment() {
    let parsed = parse(&bytes_of("   * old style"));
    match parsed {
        Line::Comment { prefix, text, ws, .. } => {
            assert_eq!(prefix, b'*');
            assert_eq!(text, bytes_of("old style"));
            assert_eq!(ws, 3);
        },
        other => panic!("expected a comment record, got {:?}", other),
    }
}

#[test]
fn code_with_size_suffix_and_operands() {
    let parsed = parse(&bytes_of("  MOVE.L #$1F,D0"));
    match parsed {
        Line::Code { instruction, size, args, label, .. } => {
            assert_eq!(instruction, bytes_of("MOVE"));
            assert_eq!(size, Size::Long);
            assert_eq!(args.unwrap(), bytes_of("#$1F,D0"));
            assert!(label.is_none());
        },
        other => panic!("expected a code record, got {:?}", other),
    }
}

#[test]
fn operand_list_with_quoted_string() {
    let parsed = parse(&bytes_of("  dc.b 'hello',0"));
    match parsed {
        Line::Code { instruction, size, args, .. } => {
            assert_eq!(instruction, bytes_of("DC"));
            assert_eq!(size, Size::Byte);
            assert_eq!(args.unwrap(), bytes_of("'hello',0"));
        },
        other => panic!("expected a code record, got {:?}", other),
    }
}

#[test]
fn comment_reindented_to_instruction_tabstop() {
    // label 4 wide -> instruction tabstop 4; mean original column is 6, and
    // an indent of 4 is within it, so the comment lands on the tabstop
    let input = vec![bytes_of("foo:  move.w d0,d1"), bytes_of("    ; note")];
    let out = run_pipeline(&input);
    assert_eq!(out[1], bytes_of("    ; note"));
}

#[test]
fn comment_reindented_to_comment_tabstop() {
    // an indent far past the mean original column lands on the comment
    // tabstop (20 here)
    let input = vec![bytes_of("foo:  move.w d0,d1"), bytes_of("                ; note")];
    let out = run_pipeline(&input);
    let mut expected = vec![b' '; 20];
    expected.extend_from_slice(b"; note");
    assert_eq!(out[1], expected);
}

#[test]
fn longest_accepted_line_is_classified() {
    // the largest line the alignment stage is specified for
    let input = vec![vec![b'a'; 65535]];
    match parse(&input[0]) {
        Line::Label { name, has_colon, .. } => {
            assert_eq!(name.len(), 65535);
            assert!(!has_colon);
        },
        other => panic!("expected a label record, got {:?}", other),
    }
    let out = run_pipeline(&input);
    assert_eq!(out[0].len(), 65536);
    assert_eq!(out[0][65535], b':');
}

#[test]
fn handle_movegroup_merges_group_into_first_member() {
    let group: Vec<Line> = vec![
        normalize_line(parse(&bytes_of("lab:  move.b #'A',(A5)+"))),
        normalize_line(parse(&bytes_of("  move.b #'B',(A5)+"))),
    ];
    let merged = handle_movegroup(&group, Size::Word);
    match merged {
        Line::Code { label, size, args, collapsible, .. } => {
            assert_eq!(label.unwrap(), bytes_of("lab"));
            assert_eq!(size, Size::Word);
            assert_eq!(args.unwrap(), bytes_of("#'AB',(A5)+"));
            assert!(!collapsible);
        },
        other => panic!("expected a code record, got {:?}", other),
    }
}

#[test]
fn label_name_strips_one_colon() {
    let parsed = parse(&bytes_of("LOOP:"));
    match parsed {
        Line::Label { name, has_colon, .. } => {
            assert_eq!(name, bytes_of("LOOP"));
            assert!(has_colon);
        },
        other => panic!("expected a label record, got {:?}", other),
    }
}
