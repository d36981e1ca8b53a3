use hack::symbols::SymbolTable;

#[test]
fn new_table_is_empty() {
    let t = SymbolTable::new();
    assert!(!t.contains("SP"));
    assert!(!t.contains("R0"));
    assert!(!t.contains(""));
}

#[test]
fn initialise_seeds_the_predefined_symbols() {
    let mut t = SymbolTable::new();
    t.initialise();
    assert_eq!(t.get_address("SP"), 0);
    assert_eq!(t.get_address("LCL"), 1);
    assert_eq!(t.get_address("ARG"), 2);
    assert_eq!(t.get_address("THIS"), 3);
    assert_eq!(t.get_address("THAT"), 4);
    for i in 0..16u16 {
        let name = format!("R{}", i);
        assert!(t.contains(&name));
        assert_eq!(t.get_address(&name), i);
    }
    assert_eq!(t.get_address("SCREEN"), 16384);
    assert_eq!(t.get_address("KBD"), 24576);
    // The register aliases overlap the named pointers by design.
    assert_eq!(t.get_address("R0"), t.get_address("SP"));
    assert_eq!(t.get_address("R4"), t.get_address("THAT"));
    // Symbols are case-sensitive.
    assert!(!t.contains("sp"));
    assert!(!t.contains("Screen"));
}

#[test]
fn add_entry_binds_and_contains_reports_it() {
    let mut t = SymbolTable::new();
    t.initialise();
    assert!(!t.contains("counter"));
    t.add_entry("counter".to_string(), 16);
    assert!(t.contains("counter"));
    assert_eq!(t.get_address("counter"), 16);
    t.add_entry("LOOP".to_string(), 7);
    assert_eq!(t.get_address("LOOP"), 7);
    assert_eq!(t.get_address("counter"), 16);
}
