use hack::classify::{classify, normalize_line, Instruction, Reference};

fn compute(dest: &str, comp: &str, jump: &str) -> Instruction {
    Instruction::Compute { dest: dest.to_string(), comp: comp.to_string(), jump: jump.to_string() }
}

#[test]
fn normalization_strips_comments_and_whitespace() {
    assert_eq!(normalize_line("@2"), Some("@2".to_string()));
    assert_eq!(normalize_line("   D=A   "), Some("D=A".to_string()));
    assert_eq!(normalize_line("\t@sum\t// running total"), Some("@sum".to_string()));
    assert_eq!(normalize_line("M=D// store"), Some("M=D".to_string()));
    assert_eq!(normalize_line("// a full-line comment"), None);
    assert_eq!(normalize_line("   // indented comment"), None);
    assert_eq!(normalize_line(""), None);
    assert_eq!(normalize_line("   \t  "), None);
    assert_eq!(normalize_line("//"), None);
}

#[test]
fn normalization_truncates_at_the_first_comment() {
    assert_eq!(normalize_line("@a // x // y"), Some("@a".to_string()));
    // A single slash is not a comment.
    assert_eq!(normalize_line("D=D|A / not a comment"), Some("D=D|A / not a comment".to_string()));
}

#[test]
fn classify_address_literals_and_symbols() {
    assert_eq!(
        classify("@2"),
        Some(Instruction::Address { reference: Reference::Literal(2) })
    );
    assert_eq!(
        classify("@0"),
        Some(Instruction::Address { reference: Reference::Literal(0) })
    );
    assert_eq!(
        classify("@32767"),
        Some(Instruction::Address { reference: Reference::Literal(32767) })
    );
    assert_eq!(
        classify("@00016"),
        Some(Instruction::Address { reference: Reference::Literal(16) })
    );
    assert_eq!(
        classify("@sum"),
        Some(Instruction::Address { reference: Reference::Symbol("sum".to_string()) })
    );
    assert_eq!(
        classify("@loop.start$2:a_B"),
        Some(Instruction::Address {
            reference: Reference::Symbol("loop.start$2:a_B".to_string()),
        })
    );
}

#[test]
fn classify_rejects_malformed_references() {
    // A space can stand in neither a literal nor a symbol name.
    assert_eq!(classify("@foo bar"), None);
    // A symbol may not begin with a digit.
    assert_eq!(classify("@1st"), None);
    // The empty remainder is neither.
    assert_eq!(classify("@"), None);
    // A literal beyond the 15-bit operand field has no encoding.
    assert_eq!(classify("@32768"), None);
    assert_eq!(classify("@99999999999999999999"), None);
}

#[test]
fn classify_labels() {
    assert_eq!(
        classify("(LOOP)"),
        Some(Instruction::Label { symbol: "LOOP".to_string() })
    );
    assert_eq!(
        classify("(end.loop$x)"),
        Some(Instruction::Label { symbol: "end.loop$x".to_string() })
    );
}

#[test]
fn classify_compute_fields() {
    assert_eq!(classify("D=A"), Some(compute("D", "A", "null")));
    assert_eq!(classify("AMD=D+1"), Some(compute("AMD", "D+1", "null")));
    assert_eq!(classify("D;JGT"), Some(compute("null", "D", "JGT")));
    assert_eq!(classify("0;JMP"), Some(compute("null", "0", "JMP")));
    assert_eq!(classify("MD=D-M;JLE"), Some(compute("MD", "D-M", "JLE")));
    assert_eq!(classify("D=Q"), Some(compute("D", "Q", "null")));
}

#[test]
fn classification_is_pure() {
    for line in ["@2", "@sum", "(LOOP)", "D=M;JNE", "@foo bar", "0;JMP"] {
        assert_eq!(classify(line), classify(line));
    }
}
