use hack::classify::{classify, normalize_line, Instruction};
use hack::driver::{first_pass, second_pass, AsmError, Assembler, FieldKind};
use hack::symbols::SymbolTable;

fn translate(lines: &[&str]) -> Result<Vec<u16>, AsmError> {
    let source: Vec<String> = lines.iter().map(|l| l.to_string()).collect();
    let mut assembler = Assembler::new(source);
    assembler.translate()
}

fn binary(words: &[u16]) -> Vec<String> {
    words.iter().map(|w| format!("{:016b}", w)).collect()
}

fn classified(lines: &[&str]) -> Vec<(usize, Instruction)> {
    let mut instrs = Vec::new();
    for (i, line) in lines.iter().enumerate() {
        if let Some(clean) = normalize_line(line) {
            instrs.push((i + 1, classify(&clean).expect("well-formed line")));
        }
    }
    instrs
}

#[test]
fn translates_a_symbol_free_program() {
    let words = translate(&["@2", "D=A", "@3", "D=D+A", "@0", "M=D"]).unwrap();
    assert_eq!(
        binary(&words),
        vec![
            "0000000000000010",
            "1110110000010000",
            "0000000000000011",
            "1110000010010000",
            "0000000000000000",
            "1110001100001000",
        ]
    );
}

#[test]
fn resolves_labels_and_allocates_variables() {
    let lines = ["@i", "M=1", "(LOOP)", "@i", "D=M", "@END", "D;JGT", "@END", "0;JMP", "(END)"];

    // A label declared after N real instructions resolves to exactly N.
    let instrs = classified(&lines);
    let mut table = SymbolTable::new();
    table.initialise();
    first_pass(&instrs, &mut table).unwrap();
    assert_eq!(table.get_address("LOOP"), 2);
    assert_eq!(table.get_address("END"), 8);
    // The first pass allocates no variables.
    assert!(!table.contains("i"));

    let words = second_pass(&instrs, &mut table).unwrap();
    // The variable is allocated the first free address, 16.
    assert_eq!(table.get_address("i"), 16);
    assert_eq!(
        binary(&words),
        vec![
            "0000000000010000", // @i -> 16
            "1110111111001000", // M=1
            "0000000000010000", // @i -> 16
            "1111110000010000", // D=M
            "0000000000001000", // @END -> 8
            "1110001100000001", // D;JGT
            "0000000000001000", // @END -> 8
            "1110101010000111", // 0;JMP
        ]
    );

    // The whole run through the driver agrees.
    assert_eq!(translate(&lines).unwrap(), words);
}

#[test]
fn comments_and_blank_lines_leave_the_output_unchanged() {
    let plain = translate(&["@2", "D=A"]).unwrap();
    let noisy = translate(&[
        "// load two",
        "",
        "   @2   // the literal",
        "\tD=A",
        "   ",
        "// done",
    ])
    .unwrap();
    assert_eq!(plain, noisy);
}

#[test]
fn malformed_reference_aborts_the_run() {
    let result = translate(&["@foo bar"]);
    assert_eq!(
        result,
        Err(AsmError::MalformedReference { line: 1, text: "@foo bar".to_string() })
    );
}

#[test]
fn malformed_reference_reports_its_line() {
    let result = translate(&["@2", "D=A", "  @over flow  // bad"]);
    assert_eq!(
        result,
        Err(AsmError::MalformedReference { line: 3, text: "@over flow".to_string() })
    );
}

#[test]
fn unknown_comp_mnemonic_aborts_the_run() {
    let result = translate(&["D=Q"]);
    assert_eq!(
        result,
        Err(AsmError::UnknownMnemonic {
            line: 1,
            field: FieldKind::Comp,
            value: "Q".to_string(),
        })
    );
}

#[test]
fn unknown_dest_and_jump_mnemonics_name_their_field() {
    assert_eq!(
        translate(&["X=1"]),
        Err(AsmError::UnknownMnemonic {
            line: 1,
            field: FieldKind::Dest,
            value: "X".to_string(),
        })
    );
    assert_eq!(
        translate(&["0;JXX"]),
        Err(AsmError::UnknownMnemonic {
            line: 1,
            field: FieldKind::Jump,
            value: "JXX".to_string(),
        })
    );
}

#[test]
fn predefined_symbols_round_trip() {
    // @SCREEN always encodes to the literal value 16384, whatever stands
    // around it.
    let words = translate(&["@x", "@SCREEN", "(L)", "@KBD", "@SP", "@R13", "@SCREEN"]).unwrap();
    assert_eq!(words, vec![16, 16384, 24576, 0, 13, 16384]);
}

#[test]
fn variables_are_allocated_in_first_use_order() {
    let words = translate(&["@a", "@b", "@a", "@c"]).unwrap();
    assert_eq!(words, vec![16, 17, 16, 18]);
}

#[test]
fn a_predefined_name_is_never_reallocated() {
    // R5 is predefined: referencing it allocates nothing, and the next
    // fresh symbol still receives 16.
    let words = translate(&["@R5", "@fresh"]).unwrap();
    assert_eq!(words, vec![5, 16]);
}

#[test]
fn forward_references_resolve_like_backward_ones() {
    // A forward reference resolves against the completed first pass.
    let forward = translate(&["@END", "0;JMP", "(END)"]).unwrap();
    assert_eq!(forward, vec![2, 0b1110101010000111]);

    // Moving a label among declarations that keep the same number of real
    // instructions before it leaves the output identical.
    let before = translate(&["@L", "D=A", "(L)", "(K)", "M=D"]).unwrap();
    let after = translate(&["@L", "D=A", "(K)", "(L)", "M=D"]).unwrap();
    assert_eq!(before, after);
    assert_eq!(before, vec![2, 0b1110110000010000, 0b1110001100001000]);
}

#[test]
fn duplicate_labels_keep_the_first_binding() {
    // First writer wins: a second declaration of the same name is ignored.
    let words = translate(&["(L)", "@L", "D=A", "(L)", "@L"]).unwrap();
    assert_eq!(words, vec![0, 0b1110110000010000, 0]);
}

#[test]
fn a_label_colliding_with_a_predefined_name_is_ignored() {
    let words = translate(&["D=A", "(R3)", "@R3"]).unwrap();
    assert_eq!(words, vec![0b1110110000010000, 3]);
}

#[test]
fn fifteen_bit_literals_are_the_largest_accepted() {
    assert_eq!(translate(&["@32767"]).unwrap(), vec![32767]);
    assert_eq!(
        translate(&["@32768"]),
        Err(AsmError::MalformedReference { line: 1, text: "@32768".to_string() })
    );
}

#[test]
fn variable_space_exhausts_at_the_screen_region() {
    // Addresses 16 through 16383 hold variables: 16368 fresh symbols fit,
    // and the next one is refused.
    let mut lines: Vec<String> = Vec::new();
    for i in 0..16369usize {
        lines.push(format!("@v{}", i));
    }
    let source: Vec<&str> = lines.iter().map(|s| s.as_str()).collect();
    let result = translate(&source);
    assert_eq!(
        result,
        Err(AsmError::VariableSpaceExhausted { line: 16369, symbol: "v16368".to_string() })
    );

    // One symbol fewer still translates, ending at the last variable slot.
    let source_ok: Vec<&str> = lines[..16368].iter().map(|s| s.as_str()).collect();
    let words = translate(&source_ok).unwrap();
    assert_eq!(words[0], 16);
    assert_eq!(words[16367], 16383);
}

#[test]
fn instruction_space_exhausts_past_the_rom() {
    // A label may bind any address up to 32767; one past that is refused.
    let mut lines: Vec<String> = vec!["@0".to_string(); 32768];
    lines.push("(OVER)".to_string());
    let source: Vec<&str> = lines.iter().map(|s| s.as_str()).collect();
    let result = translate(&source);
    assert_eq!(
        result,
        Err(AsmError::InstructionSpaceExhausted { line: 32769, symbol: "OVER".to_string() })
    );

    // At exactly the last slot the binding succeeds.
    let mut lines_ok: Vec<String> = vec!["@0".to_string(); 32767];
    lines_ok.push("(LAST)".to_string());
    lines_ok.push("@LAST".to_string());
    let source_ok: Vec<&str> = lines_ok.iter().map(|s| s.as_str()).collect();
    let words = translate(&source_ok).unwrap();
    assert_eq!(words[32767], 32767);
}

#[test]
fn no_partial_output_on_failure() {
    // The run is atomic: an error late in the program yields no words.
    let result = translate(&["@2", "D=A", "D=Q"]);
    assert!(result.is_err());
}

#[test]
fn translate_is_repeatable() {
    let lines = ["@i", "M=1", "(LOOP)", "@i", "@LOOP", "0;JMP"];
    let source: Vec<String> = lines.iter().map(|l| l.to_string()).collect();
    let mut assembler = Assembler::new(source);
    let first = assembler.translate().unwrap();
    let second = assembler.translate().unwrap();
    assert_eq!(first, second);
}
