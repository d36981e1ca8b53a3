//! Mnemonic-to-bitfield encoding for compute instructions.
//!
//! A compute instruction's 16-bit word is the constant opcode prefix `111`
//! followed by the 7-bit computation field (a memory flag and six ALU control
//! bits), the 3-bit destination field and the 3-bit jump field. The three
//! mnemonic vocabularies are closed: a mnemonic outside its vocabulary has no
//! code, and encoding reports that instead of falling back to zero bits.

use vstd::prelude::*;

use crate::chars::str_eq;

verus! {

/// Destination bits: `d1` selects the address register, `d2` the data
/// register, `d3` the memory cell addressed by the address register.
pub struct Dest {
    pub d1: u8,
    pub d2: u8,
    pub d3: u8,
}

/// Computation bits: `a` chooses the memory cell over the address register
/// as the second ALU operand, `c1` through `c6` are the ALU control bits.
pub struct Comp {
    pub a: u8,
    pub c1: u8,
    pub c2: u8,
    pub c3: u8,
    pub c4: u8,
    pub c5: u8,
    pub c6: u8,
}

/// Jump bits: `j1` on negative, `j2` on zero, `j3` on positive.
pub struct Jump {
    pub j1: u8,
    pub j2: u8,
    pub j3: u8,
}

impl Dest {
    /// Every field is a single bit.
    pub open spec fn wf(&self) -> bool {
        self.d1 <= 1 && self.d2 <= 1 && self.d3 <= 1
    }

    /// The field packed as a 3-bit number, `d1` most significant.
    pub open spec fn spec_code(&self) -> int {
        self.d1 * 4 + self.d2 * 2 + self.d3
    }

    /// All-zero destination bits: store nowhere.
    pub fn new() -> (d: Dest)
        ensures
            d.d1 == 0 && d.d2 == 0 && d.d3 == 0,
    {
        Dest { d1: 0, d2: 0, d3: 0 }
    }

    /// The field packed as a 3-bit number, `d1` most significant.
    pub fn code(&self) -> (r: u16)
        requires
            self.wf(),
        ensures
            r == self.spec_code(),
            r <= 7,
    {
        (self.d1 as u16) * 4 + (self.d2 as u16) * 2 + (self.d3 as u16)
    }
}

impl Comp {
    /// Every field is a single bit.
    pub open spec fn wf(&self) -> bool {
        self.a <= 1 && self.c1 <= 1 && self.c2 <= 1 && self.c3 <= 1 && self.c4 <= 1 && self.c5
            <= 1 && self.c6 <= 1
    }

    /// The field packed as a 7-bit number, the memory flag most significant.
    pub open spec fn spec_code(&self) -> int {
        self.a * 64 + self.c1 * 32 + self.c2 * 16 + self.c3 * 8 + self.c4 * 4 + self.c5 * 2
            + self.c6
    }

    /// All-zero computation bits.
    pub fn new() -> (c: Comp)
        ensures
            c.a == 0 && c.c1 == 0 && c.c2 == 0 && c.c3 == 0 && c.c4 == 0 && c.c5 == 0 && c.c6
                == 0,
    {
        Comp { a: 0, c1: 0, c2: 0, c3: 0, c4: 0, c5: 0, c6: 0 }
    }

    /// The field packed as a 7-bit number, the memory flag most significant.
    pub fn code(&self) -> (r: u16)
        requires
            self.wf(),
        ensures
            r == self.spec_code(),
            r <= 127,
    {
        (self.a as u16) * 64 + (self.c1 as u16) * 32 + (self.c2 as u16) * 16 + (self.c3 as u16)
            * 8 + (self.c4 as u16) * 4 + (self.c5 as u16) * 2 + (self.c6 as u16)
    }
}

impl Jump {
    /// Every field is a single bit.
    pub open spec fn wf(&self) -> bool {
        self.j1 <= 1 && self.j2 <= 1 && self.j3 <= 1
    }

    /// The field packed as a 3-bit number, `j1` most significant.
    pub open spec fn spec_code(&self) -> int {
        self.j1 * 4 + self.j2 * 2 + self.j3
    }

    /// All-zero jump bits: never jump.
    pub fn new() -> (j: Jump)
        ensures
            j.j1 == 0 && j.j2 == 0 && j.j3 == 0,
    {
        Jump { j1: 0, j2: 0, j3: 0 }
    }

    /// The field packed as a 3-bit number, `j1` most significant.
    pub fn code(&self) -> (r: u16)
        requires
            self.wf(),
        ensures
            r == self.spec_code(),
            r <= 7,
    {
        (self.j1 as u16) * 4 + (self.j2 as u16) * 2 + (self.j3 as u16)
    }
}

/// The 3-bit code of a destination mnemonic, `None` outside the vocabulary.
pub open spec fn dest_code(s: Seq<char>) -> Option<u16> {
    if s == "null"@ {
        Some(0b000u16)
    } else if s == "M"@ {
        Some(0b001u16)
    } else if s == "D"@ {
        Some(0b010u16)
    } else if s == "MD"@ {
        Some(0b011u16)
    } else if s == "A"@ {
        Some(0b100u16)
    } else if s == "AM"@ {
        Some(0b101u16)
    } else if s == "AD"@ {
        Some(0b110u16)
    } else if s == "AMD"@ {
        Some(0b111u16)
    } else {
        None
    }
}

/// The 7-bit code of a computation mnemonic, `None` outside the vocabulary.
/// The most significant bit is the memory flag: the code of an `M`-form
/// mnemonic differs from its `A`-form only there.
pub open spec fn comp_code(s: Seq<char>) -> Option<u16> {
    if s == "0"@ {
        Some(0b0101010u16)
    } else if s == "1"@ {
        Some(0b0111111u16)
    } else if s == "-1"@ {
        Some(0b0111010u16)
    } else if s == "D"@ {
        Some(0b0001100u16)
    } else if s == "A"@ {
        Some(0b0110000u16)
    } else if s == "M"@ {
        Some(0b1110000u16)
    } else if s == "!D"@ {
        Some(0b0001101u16)
    } else if s == "!A"@ {
        Some(0b0110001u16)
    } else if s == "!M"@ {
        Some(0b1110001u16)
    } else if s == "-D"@ {
        Some(0b0001111u16)
    } else if s == "-A"@ {
        Some(0b0110011u16)
    } else if s == "-M"@ {
        Some(0b1110011u16)
    } else if s == "D+1"@ {
        Some(0b0011111u16)
    } else if s == "A+1"@ {
        Some(0b0110111u16)
    } else if s == "M+1"@ {
        Some(0b1110111u16)
    } else if s == "D-1"@ {
        Some(0b0001110u16)
    } else if s == "A-1"@ {
        Some(0b0110010u16)
    } else if s == "M-1"@ {
        Some(0b1110010u16)
    } else if s == "D+A"@ {
        Some(0b0000010u16)
    } else if s == "D+M"@ {
        Some(0b1000010u16)
    } else if s == "D-A"@ {
        Some(0b0010011u16)
    } else if s == "D-M"@ {
        Some(0b1010011u16)
    } else if s == "A-D"@ {
        Some(0b0000111u16)
    } else if s == "M-D"@ {
        Some(0b1000111u16)
    } else if s == "D&A"@ {
        Some(0b0000000u16)
    } else if s == "D&M"@ {
        Some(0b1000000u16)
    } else if s == "D|A"@ {
        Some(0b0010101u16)
    } else if s == "D|M"@ {
        Some(0b1010101u16)
    } else {
        None
    }
}

/// The 3-bit code of a jump mnemonic, `None` outside the vocabulary.
pub open spec fn jump_code(s: Seq<char>) -> Option<u16> {
    if s == "null"@ {
        Some(0b000u16)
    } else if s == "JGT"@ {
        Some(0b001u16)
    } else if s == "JEQ"@ {
        Some(0b010u16)
    } else if s == "JGE"@ {
        Some(0b011u16)
    } else if s == "JLT"@ {
        Some(0b100u16)
    } else if s == "JNE"@ {
        Some(0b101u16)
    } else if s == "JLE"@ {
        Some(0b110u16)
    } else if s == "JMP"@ {
        Some(0b111u16)
    } else {
        None
    }
}

/// The 16-bit word of a compute instruction: the opcode prefix `111`, then
/// the computation, destination and jump codes.
pub open spec fn compute_word(dc: u16, cc: u16, jc: u16) -> u16
    recommends
        dc <= 7,
        cc <= 127,
        jc <= 7,
{
    (0xE000 + cc * 64 + dc * 8 + jc) as u16
}

/// Packs well-formed field structs into the 16-bit compute word.
pub fn assemble_compute(d: &Dest, c: &Comp, j: &Jump) -> (w: u16)
    requires
        d.wf(),
        c.wf(),
        j.wf(),
    ensures
        w == compute_word(d.spec_code() as u16, c.spec_code() as u16, j.spec_code() as u16),
{
    0xE000u16 + c.code() * 64 + d.code() * 8 + j.code()
}

/// Translates mnemonics into bit patterns.
pub struct Code;

impl Code {
    /// The destination bits of a mnemonic, `None` outside the closed
    /// vocabulary of eight destination mnemonics.
    pub fn dest(mnemonic: &str) -> (r: Option<Dest>)
        ensures
            match r {
                Some(d) => d.wf() && dest_code(mnemonic@) == Some(d.spec_code() as u16),
                None => dest_code(mnemonic@) is None,
            },
    {
        if str_eq(mnemonic, "null") {
            Some(Dest { d1: 0, d2: 0, d3: 0 })
        } else if str_eq(mnemonic, "M") {
            Some(Dest { d1: 0, d2: 0, d3: 1 })
        } else if str_eq(mnemonic, "D") {
            Some(Dest { d1: 0, d2: 1, d3: 0 })
        } else if str_eq(mnemonic, "MD") {
            Some(Dest { d1: 0, d2: 1, d3: 1 })
        } else if str_eq(mnemonic, "A") {
            Some(Dest { d1: 1, d2: 0, d3: 0 })
        } else if str_eq(mnemonic, "AM") {
            Some(Dest { d1: 1, d2: 0, d3: 1 })
        } else if str_eq(mnemonic, "AD") {
            Some(Dest { d1: 1, d2: 1, d3: 0 })
        } else if str_eq(mnemonic, "AMD") {
            Some(Dest { d1: 1, d2: 1, d3: 1 })
        } else {
            None
        }
    }

    /// The computation bits of a mnemonic, `None` outside the closed
    /// vocabulary of twenty-eight computation mnemonics.
    pub fn comp(mnemonic: &str) -> (r: Option<Comp>)
        ensures
            match r {
                Some(c) => c.wf() && comp_code(mnemonic@) == Some(c.spec_code() as u16),
                None => comp_code(mnemonic@) is None,
            },
    {
        if str_eq(mnemonic, "0") {
            Some(Comp { a: 0, c1: 1, c2: 0, c3: 1, c4: 0, c5: 1, c6: 0 })
        } else if str_eq(mnemonic, "1") {
            Some(Comp { a: 0, c1: 1, c2: 1, c3: 1, c4: 1, c5: 1, c6: 1 })
        } else if str_eq(mnemonic, "-1") {
            Some(Comp { a: 0, c1: 1, c2: 1, c3: 1, c4: 0, c5: 1, c6: 0 })
        } else if str_eq(mnemonic, "D") {
            Some(Comp { a: 0, c1: 0, c2: 0, c3: 1, c4: 1, c5: 0, c6: 0 })
        } else if str_eq(mnemonic, "A") {
            Some(Comp { a: 0, c1: 1, c2: 1, c3: 0, c4: 0, c5: 0, c6: 0 })
        } else if str_eq(mnemonic, "M") {
            Some(Comp { a: 1, c1: 1, c2: 1, c3: 0, c4: 0, c5: 0, c6: 0 })
        } else if str_eq(mnemonic, "!D") {
            Some(Comp { a: 0, c1: 0, c2: 0, c3: 1, c4: 1, c5: 0, c6: 1 })
        } else if str_eq(mnemonic, "!A") {
            Some(Comp { a: 0, c1: 1, c2: 1, c3: 0, c4: 0, c5: 0, c6: 1 })
        } else if str_eq(mnemonic, "!M") {
            Some(Comp { a: 1, c1: 1, c2: 1, c3: 0, c4: 0, c5: 0, c6: 1 })
        } else if str_eq(mnemonic, "-D") {
            Some(Comp { a: 0, c1: 0, c2: 0, c3: 1, c4: 1, c5: 1, c6: 1 })
        } else if str_eq(mnemonic, "-A") {
            Some(Comp { a: 0, c1: 1, c2: 1, c3: 0, c4: 0, c5: 1, c6: 1 })
        } else if str_eq(mnemonic, "-M") {
            Some(Comp { a: 1, c1: 1, c2: 1, c3: 0, c4: 0, c5: 1, c6: 1 })
        } else if str_eq(mnemonic, "D+1") {
            Some(Comp { a: 0, c1: 0, c2: 1, c3: 1, c4: 1, c5: 1, c6: 1 })
        } else if str_eq(mnemonic, "A+1") {
            Some(Comp { a: 0, c1: 1, c2: 1, c3: 0, c4: 1, c5: 1, c6: 1 })
        } else if str_eq(mnemonic, "M+1") {
            Some(Comp { a: 1, c1: 1, c2: 1, c3: 0, c4: 1, c5: 1, c6: 1 })
        } else if str_eq(mnemonic, "D-1") {
            Some(Comp { a: 0, c1: 0, c2: 0, c3: 1, c4: 1, c5: 1, c6: 0 })
        } else if str_eq(mnemonic, "A-1") {
            Some(Comp { a: 0, c1: 1, c2: 1, c3: 0, c4: 0, c5: 1, c6: 0 })
        } else if str_eq(mnemonic, "M-1") {
            Some(Comp { a: 1, c1: 1, c2: 1, c3: 0, c4: 0, c5: 1, c6: 0 })
        } else if str_eq(mnemonic, "D+A") {
            Some(Comp { a: 0, c1: 0, c2: 0, c3: 0, c4: 0, c5: 1, c6: 0 })
        } else if str_eq(mnemonic, "D+M") {
            Some(Comp { a: 1, c1: 0, c2: 0, c3: 0, c4: 0, c5: 1, c6: 0 })
        } else if str_eq(mnemonic, "D-A") {
            Some(Comp { a: 0, c1: 0, c2: 1, c3: 0, c4: 0, c5: 1, c6: 1 })
        } else if str_eq(mnemonic, "D-M") {
            Some(Comp { a: 1, c1: 0, c2: 1, c3: 0, c4: 0, c5: 1, c6: 1 })
        } else if str_eq(mnemonic, "A-D") {
            Some(Comp { a: 0, c1: 0, c2: 0, c3: 0, c4: 1, c5: 1, c6: 1 })
        } else if str_eq(mnemonic, "M-D") {
            Some(Comp { a: 1, c1: 0, c2: 0, c3: 0, c4: 1, c5: 1, c6: 1 })
        } else if str_eq(mnemonic, "D&A") {
            Some(Comp { a: 0, c1: 0, c2: 0, c3: 0, c4: 0, c5: 0, c6: 0 })
        } else if str_eq(mnemonic, "D&M") {
            Some(Comp { a: 1, c1: 0, c2: 0, c3: 0, c4: 0, c5: 0, c6: 0 })
        } else if str_eq(mnemonic, "D|A") {
            Some(Comp { a: 0, c1: 0, c2: 1, c3: 0, c4: 1, c5: 0, c6: 1 })
        } else if str_eq(mnemonic, "D|M") {
            Some(Comp { a: 1, c1: 0, c2: 1, c3: 0, c4: 1, c5: 0, c6: 1 })
        } else {
            None
        }
    }

    /// The jump bits of a mnemonic, `None` outside the closed vocabulary of
    /// eight jump mnemonics.
    pub fn jump(mnemonic: &str) -> (r: Option<Jump>)
        ensures
            match r {
                Some(j) => j.wf() && jump_code(mnemonic@) == Some(j.spec_code() as u16),
                None => jump_code(mnemonic@) is None,
            },
    {
        if str_eq(mnemonic, "null") {
            Some(Jump { j1: 0, j2: 0, j3: 0 })
        } else if str_eq(mnemonic, "JGT") {
            Some(Jump { j1: 0, j2: 0, j3: 1 })
        } else if str_eq(mnemonic, "JEQ") {
            Some(Jump { j1: 0, j2: 1, j3: 0 })
        } else if str_eq(mnemonic, "JGE") {
            Some(Jump { j1: 0, j2: 1, j3: 1 })
        } else if str_eq(mnemonic, "JLT") {
            Some(Jump { j1: 1, j2: 0, j3: 0 })
        } else if str_eq(mnemonic, "JNE") {
            Some(Jump { j1: 1, j2: 0, j3: 1 })
        } else if str_eq(mnemonic, "JLE") {
            Some(Jump { j1: 1, j2: 1, j3: 0 })
        } else if str_eq(mnemonic, "JMP") {
            Some(Jump { j1: 1, j2: 1, j3: 1 })
        } else {
            None
        }
    }
}

/// The word with bit `index` forced to `value` and every other bit kept.
pub open spec fn set_bit(word: u16, index: u16, value: bool) -> u16
    recommends
        index < 16,
{
    if value {
        word | (1u16 << index)
    } else {
        word & !(1u16 << index)
    }
}

/// The word after applying each bit assignment in order, first to last.
pub open spec fn spec_set_bits(word: u16, assignments: Seq<(u16, bool)>) -> u16
    decreases assignments.len(),
{
    if assignments.len() == 0 {
        word
    } else {
        spec_set_bits(set_bit(word, assignments[0].0, assignments[0].1), assignments.drop_first())
    }
}

/// Forces the bit at each listed index to the paired value, leaving the
/// other bits of the word unchanged.
pub fn set_bits(word: u16, index_bitvalue: &Vec<(u16, bool)>) -> (r: u16)
    requires
        forall|i: int| 0 <= i < index_bitvalue@.len() ==> (#[trigger] index_bitvalue@[i]).0 < 16,
    ensures
        r == spec_set_bits(word, index_bitvalue@),
{
    let mut w = word;
    let mut i: usize = 0;
    proof {
        assert(index_bitvalue@.skip(0) =~= index_bitvalue@);
    }
    while i < index_bitvalue.len()
        invariant
            i <= index_bitvalue@.len(),
            forall|k: int| 0 <= k < index_bitvalue@.len() ==> (#[trigger] index_bitvalue@[k]).0
                < 16,
            spec_set_bits(word, index_bitvalue@) == spec_set_bits(
                w,
                index_bitvalue@.skip(i as int),
            ),
        decreases index_bitvalue@.len() - i,
    {
        let (index, value) = index_bitvalue[i];
        proof {
            assert(index_bitvalue@.skip(i as int)[0] == index_bitvalue@[i as int]);
            assert(index_bitvalue@.skip(i as int).drop_first() =~= index_bitvalue@.skip(
                i as int + 1,
            ));
        }
        if value {
            w = w | (1u16 << index);
        } else {
            w = w & !(1u16 << index);
        }
        i = i + 1;
    }
    proof {
        assert(index_bitvalue@.skip(i as int) =~= Seq::<(u16, bool)>::empty());
    }
    w
}

} // verus!
