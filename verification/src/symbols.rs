//! The symbol table: a mapping from symbol names to 16-bit addresses.
//!
//! The table is pre-seeded with the architecture's predefined names, extended
//! with label bindings during the first pass and with variable allocations
//! during the second, and the driver never rebinds an existing key.

use vstd::hash_map::StringHashMap;
use vstd::prelude::*;

verus! {

/// A map extended with the architecture-predefined symbols: five named
/// registers and pointers at addresses 0 through 4, sixteen general-purpose
/// register aliases at 0 through 15, and the two memory-mapped device
/// regions. An existing binding for one of these names is overwritten.
pub open spec fn with_predefined(m: Map<Seq<char>, u16>) -> Map<Seq<char>, u16> {
    m.insert("SP"@, 0u16).insert("LCL"@, 1u16).insert("ARG"@, 2u16).insert("THIS"@, 3u16).insert(
        "THAT"@,
        4u16,
    ).insert("R0"@, 0u16).insert("R1"@, 1u16).insert("R2"@, 2u16).insert("R3"@, 3u16).insert(
        "R4"@,
        4u16,
    ).insert("R5"@, 5u16).insert("R6"@, 6u16).insert("R7"@, 7u16).insert("R8"@, 8u16).insert(
        "R9"@,
        9u16,
    ).insert("R10"@, 10u16).insert("R11"@, 11u16).insert("R12"@, 12u16).insert(
        "R13"@,
        13u16,
    ).insert("R14"@, 14u16).insert("R15"@, 15u16).insert("SCREEN"@, 16384u16).insert(
        "KBD"@,
        24576u16,
    )
}

/// The table the driver starts from: exactly the predefined symbols.
pub open spec fn predefined_table() -> Map<Seq<char>, u16> {
    with_predefined(Map::empty())
}

/// The screen device region stands at its fixed predefined address.
pub proof fn lemma_predefined_screen(m: Map<Seq<char>, u16>)
    ensures
        with_predefined(m).contains_key("SCREEN"@),
        with_predefined(m)["SCREEN"@] == 16384u16,
{
    reveal_strlit("SCREEN");
    reveal_strlit("KBD");
    assert("SCREEN"@.len() == 6);
    assert("KBD"@.len() == 3);
}

/// Keeps a correspondence between symbolic names and numeric addresses.
pub struct SymbolTable {
    table: StringHashMap<u16>,
}

impl View for SymbolTable {
    type V = Map<Seq<char>, u16>;

    closed spec fn view(&self) -> Map<Seq<char>, u16> {
        self.table@
    }
}

impl SymbolTable {
    /// Creates a new empty symbol table.
    pub fn new() -> (t: SymbolTable)
        ensures
            t@ == Map::<Seq<char>, u16>::empty(),
    {
        SymbolTable { table: StringHashMap::new() }
    }

    /// Seeds the table with the predefined symbols.
    pub fn initialise(&mut self)
        ensures
            final(self)@ == with_predefined(old(self)@),
    {
        self.table.insert("SP".to_owned(), 0);
        self.table.insert("LCL".to_owned(), 1);
        self.table.insert("ARG".to_owned(), 2);
        self.table.insert("THIS".to_owned(), 3);
        self.table.insert("THAT".to_owned(), 4);
        self.table.insert("R0".to_owned(), 0);
        self.table.insert("R1".to_owned(), 1);
        self.table.insert("R2".to_owned(), 2);
        self.table.insert("R3".to_owned(), 3);
        self.table.insert("R4".to_owned(), 4);
        self.table.insert("R5".to_owned(), 5);
        self.table.insert("R6".to_owned(), 6);
        self.table.insert("R7".to_owned(), 7);
        self.table.insert("R8".to_owned(), 8);
        self.table.insert("R9".to_owned(), 9);
        self.table.insert("R10".to_owned(), 10);
        self.table.insert("R11".to_owned(), 11);
        self.table.insert("R12".to_owned(), 12);
        self.table.insert("R13".to_owned(), 13);
        self.table.insert("R14".to_owned(), 14);
        self.table.insert("R15".to_owned(), 15);
        self.table.insert("SCREEN".to_owned(), 16384);
        self.table.insert("KBD".to_owned(), 24576);
    }

    /// Adds the pair `(symbol, address)` to the table, overwriting any
    /// binding the symbol already had. The driver keeps the first-writer-wins
    /// policy by calling this only for symbols the table does not contain.
    pub fn add_entry(&mut self, symbol: String, address: u16)
        ensures
            final(self)@ == old(self)@.insert(symbol@, address),
    {
        self.table.insert(symbol, address);
    }

    /// Whether the table contains the given symbol.
    pub fn contains(&self, symbol: &str) -> (r: bool)
        ensures
            r == self@.contains_key(symbol@),
    {
        self.table.contains_key(symbol)
    }

    /// The address bound to `symbol`, which must be present.
    pub fn get_address(&self, symbol: &str) -> (r: u16)
        requires
            self@.contains_key(symbol@),
        ensures
            r == self@[symbol@],
    {
        match self.table.get(symbol) {
            Some(address) => *address,
            None => 0,
        }
    }
}

} // verus!
