use hack::code::{set_bits, Code, Comp, Dest, Jump};

fn dest_bits(mnemonic: &str) -> String {
    let d = Code::dest(mnemonic).expect("destination mnemonic");
    format!("{}{}{}", d.d1, d.d2, d.d3)
}

fn comp_bits(mnemonic: &str) -> String {
    let c = Code::comp(mnemonic).expect("computation mnemonic");
    format!("{}{}{}{}{}{}{}", c.a, c.c1, c.c2, c.c3, c.c4, c.c5, c.c6)
}

fn jump_bits(mnemonic: &str) -> String {
    let j = Code::jump(mnemonic).expect("jump mnemonic");
    format!("{}{}{}", j.j1, j.j2, j.j3)
}

#[test]
fn dest_codes_cover_the_vocabulary() {
    assert_eq!(dest_bits("null"), "000");
    assert_eq!(dest_bits("M"), "001");
    assert_eq!(dest_bits("D"), "010");
    assert_eq!(dest_bits("MD"), "011");
    assert_eq!(dest_bits("A"), "100");
    assert_eq!(dest_bits("AM"), "101");
    assert_eq!(dest_bits("AD"), "110");
    assert_eq!(dest_bits("AMD"), "111");
}

#[test]
fn jump_codes_cover_the_vocabulary() {
    assert_eq!(jump_bits("null"), "000");
    assert_eq!(jump_bits("JGT"), "001");
    assert_eq!(jump_bits("JEQ"), "010");
    assert_eq!(jump_bits("JGE"), "011");
    assert_eq!(jump_bits("JLT"), "100");
    assert_eq!(jump_bits("JNE"), "101");
    assert_eq!(jump_bits("JLE"), "110");
    assert_eq!(jump_bits("JMP"), "111");
}

#[test]
fn comp_codes_match_the_truth_table() {
    assert_eq!(comp_bits("0"), "0101010");
    assert_eq!(comp_bits("1"), "0111111");
    assert_eq!(comp_bits("-1"), "0111010");
    assert_eq!(comp_bits("D"), "0001100");
    assert_eq!(comp_bits("A"), "0110000");
    assert_eq!(comp_bits("!D"), "0001101");
    assert_eq!(comp_bits("!A"), "0110001");
    assert_eq!(comp_bits("-D"), "0001111");
    assert_eq!(comp_bits("-A"), "0110011");
    assert_eq!(comp_bits("D+1"), "0011111");
    assert_eq!(comp_bits("A+1"), "0110111");
    assert_eq!(comp_bits("D-1"), "0001110");
    assert_eq!(comp_bits("A-1"), "0110010");
    assert_eq!(comp_bits("D+A"), "0000010");
    assert_eq!(comp_bits("D-A"), "0010011");
    assert_eq!(comp_bits("A-D"), "0000111");
    assert_eq!(comp_bits("D&A"), "0000000");
    assert_eq!(comp_bits("D|A"), "0010101");
}

#[test]
fn memory_forms_set_only_the_memory_flag() {
    for (a_form, m_form) in [
        ("A", "M"),
        ("!A", "!M"),
        ("-A", "-M"),
        ("A+1", "M+1"),
        ("A-1", "M-1"),
        ("D+A", "D+M"),
        ("D-A", "D-M"),
        ("A-D", "M-D"),
        ("D&A", "D&M"),
        ("D|A", "D|M"),
    ] {
        let a = comp_bits(a_form);
        let m = comp_bits(m_form);
        assert_eq!(&a[0..1], "0", "{a_form}");
        assert_eq!(&m[0..1], "1", "{m_form}");
        assert_eq!(a[1..], m[1..], "{a_form} vs {m_form}");
    }
}

#[test]
fn unknown_mnemonics_have_no_code() {
    assert!(Code::dest("Q").is_none());
    assert!(Code::dest("md").is_none());
    assert!(Code::dest("").is_none());
    assert!(Code::comp("Q").is_none());
    assert!(Code::comp("D+D").is_none());
    assert!(Code::comp("").is_none());
    assert!(Code::jump("JXX").is_none());
    assert!(Code::jump("jmp").is_none());
    assert!(Code::jump("").is_none());
}

#[test]
fn new_field_structs_are_all_zero() {
    let d = Dest::new();
    assert_eq!((d.d1, d.d2, d.d3), (0, 0, 0));
    let c = Comp::new();
    assert_eq!((c.a, c.c1, c.c2, c.c3, c.c4, c.c5, c.c6), (0, 0, 0, 0, 0, 0, 0));
    let j = Jump::new();
    assert_eq!((j.j1, j.j2, j.j3), (0, 0, 0));
}

#[test]
fn set_bits_forces_listed_bits_and_keeps_the_rest() {
    assert_eq!(set_bits(0b0000, &vec![(0, true), (2, true)]), 0b0101);
    assert_eq!(set_bits(0b1111, &vec![(1, false), (3, false)]), 0b0101);
    assert_eq!(set_bits(0b1010, &vec![]), 0b1010);
    // A later assignment to the same index wins.
    assert_eq!(set_bits(0, &vec![(4, true), (4, false)]), 0);
    assert_eq!(set_bits(0, &vec![(15, true)]), 0x8000);
}
