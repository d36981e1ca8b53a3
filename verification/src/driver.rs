//! The two-pass translation driver.
//!
//! The driver classifies the normalized source once, then walks the
//! resulting instruction sequence twice. The first pass binds every label
//! to the address of the next real instruction and emits nothing; the
//! second resolves references, allocates variables in first-use order from
//! address 16, and encodes each real instruction as one 16-bit word. A run
//! either produces the full word sequence or stops at the first error; no
//! partial output is returned.

use vstd::prelude::*;

use crate::classify::{
    classify, classify_line, normalize_line, normalized, InstrView, Instruction, RefView,
};
use crate::code::{
    assemble_compute, comp_code, compute_word, dest_code, jump_code, Code,
};
use crate::symbols::{predefined_table, SymbolTable};

verus! {

/// The compute-instruction field a mnemonic was found in.
#[derive(Debug, Clone, Copy, PartialEq, Eq, Structural)]
pub enum FieldKind {
    Dest,
    Comp,
    Jump,
}

/// A fatal translation error. Every error is terminal for the run and
/// carries the 1-based number of the source line it arose on.
#[derive(Debug, Clone, PartialEq, Eq)]
pub enum AsmError {
    /// An `@`-line whose remainder is neither an in-range non-negative
    /// decimal literal nor a syntactically valid symbol name.
    MalformedReference { line: usize, text: String },
    /// A destination, computation or jump field outside its closed
    /// vocabulary.
    UnknownMnemonic { line: usize, field: FieldKind, value: String },
    /// A label would be bound beyond the 15-bit instruction address space.
    InstructionSpaceExhausted { line: usize, symbol: String },
    /// A variable would be allocated beyond the addressable variable
    /// region, which ends where the screen device region begins.
    VariableSpaceExhausted { line: usize, symbol: String },
}

/// Mathematical shape of an [`AsmError`].
pub enum ErrView {
    MalformedReference { line: int, text: Seq<char> },
    UnknownMnemonic { line: int, field: FieldKind, value: Seq<char> },
    InstructionSpaceExhausted { line: int, symbol: Seq<char> },
    VariableSpaceExhausted { line: int, symbol: Seq<char> },
}

impl View for AsmError {
    type V = ErrView;

    open spec fn view(&self) -> ErrView {
        match self {
            AsmError::MalformedReference { line, text } => ErrView::MalformedReference {
                line: *line as int,
                text: text@,
            },
            AsmError::UnknownMnemonic { line, field, value } => ErrView::UnknownMnemonic {
                line: *line as int,
                field: *field,
                value: value@,
            },
            AsmError::InstructionSpaceExhausted { line, symbol } => {
                ErrView::InstructionSpaceExhausted { line: *line as int, symbol: symbol@ }
            },
            AsmError::VariableSpaceExhausted { line, symbol } => {
                ErrView::VariableSpaceExhausted { line: *line as int, symbol: symbol@ }
            },
        }
    }
}

/// The address the first allocated variable receives.
pub open spec fn var_base() -> int {
    16
}

/// The first address past the variable region: the screen device region.
pub open spec fn var_limit() -> int {
    16384
}

/// The mathematical shape of a classified program: each instruction paired
/// with the 1-based number of the source line it came from.
pub open spec fn program_view(v: Seq<(usize, Instruction)>) -> Seq<(int, InstrView)> {
    Seq::new(v.len(), |k: int| (v[k].0 as int, v[k].1@))
}

/// Classifies the raw lines from index `i` on, appending to `acc`: lines
/// with no instruction are dropped, and the first malformed reference stops
/// the run.
pub open spec fn classified_program(
    raws: Seq<Seq<char>>,
    i: int,
    acc: Seq<(int, InstrView)>,
) -> Result<Seq<(int, InstrView)>, ErrView>
    decreases raws.len() - i,
        when 0 <= i <= raws.len()
{
    if i >= raws.len() {
        Ok(acc)
    } else {
        match normalized(raws[i]) {
            None => classified_program(raws, i + 1, acc),
            Some(t) => match classify_line(t) {
                None => Err(ErrView::MalformedReference { line: i + 1, text: t }),
                Some(ins) => classified_program(raws, i + 1, acc.push((i + 1, ins))),
            },
        }
    }
}

/// The first pass from instruction `i` with program counter `pc`: binds
/// each label not already present to the current counter value, counts real
/// instructions, and emits nothing. First writer wins: an existing binding
/// is never changed.
pub open spec fn first_pass_from(
    instrs: Seq<(int, InstrView)>,
    i: int,
    pc: int,
    table: Map<Seq<char>, u16>,
) -> Result<Map<Seq<char>, u16>, ErrView>
    decreases instrs.len() - i,
        when 0 <= i <= instrs.len()
{
    if i >= instrs.len() {
        Ok(table)
    } else {
        match instrs[i].1 {
            InstrView::Address { .. } => first_pass_from(instrs, i + 1, pc + 1, table),
            InstrView::Compute { .. } => first_pass_from(instrs, i + 1, pc + 1, table),
            InstrView::Label { symbol } => if table.contains_key(symbol) {
                first_pass_from(instrs, i + 1, pc, table)
            } else if pc > crate::classify::max_literal() {
                Err(ErrView::InstructionSpaceExhausted { line: instrs[i].0, symbol })
            } else {
                first_pass_from(instrs, i + 1, pc, table.insert(symbol, pc as u16))
            },
        }
    }
}

/// The second pass from instruction `i`: skips labels, emits a word per
/// real instruction, resolves symbols against the table and allocates each
/// previously unseen symbol the next free variable address.
pub open spec fn second_pass_from(
    instrs: Seq<(int, InstrView)>,
    i: int,
    table: Map<Seq<char>, u16>,
    var: int,
    out: Seq<u16>,
) -> Result<Seq<u16>, ErrView>
    decreases instrs.len() - i,
        when 0 <= i <= instrs.len()
{
    if i >= instrs.len() {
        Ok(out)
    } else {
        match instrs[i].1 {
            InstrView::Label { .. } => second_pass_from(instrs, i + 1, table, var, out),
            InstrView::Address { reference } => match reference {
                RefView::Literal(v) => second_pass_from(instrs, i + 1, table, var, out.push(v)),
                RefView::Symbol(s) => if table.contains_key(s) {
                    second_pass_from(instrs, i + 1, table, var, out.push(table[s]))
                } else if var >= var_limit() {
                    Err(ErrView::VariableSpaceExhausted { line: instrs[i].0, symbol: s })
                } else {
                    second_pass_from(
                        instrs,
                        i + 1,
                        table.insert(s, var as u16),
                        var + 1,
                        out.push(var as u16),
                    )
                },
            },
            InstrView::Compute { dest, comp, jump } => match dest_code(dest) {
                None => Err(
                    ErrView::UnknownMnemonic {
                        line: instrs[i].0,
                        field: FieldKind::Dest,
                        value: dest,
                    },
                ),
                Some(dc) => match comp_code(comp) {
                    None => Err(
                        ErrView::UnknownMnemonic {
                            line: instrs[i].0,
                            field: FieldKind::Comp,
                            value: comp,
                        },
                    ),
                    Some(cc) => match jump_code(jump) {
                        None => Err(
                            ErrView::UnknownMnemonic {
                                line: instrs[i].0,
                                field: FieldKind::Jump,
                                value: jump,
                            },
                        ),
                        Some(jc) => second_pass_from(
                            instrs,
                            i + 1,
                            table,
                            var,
                            out.push(compute_word(dc, cc, jc)),
                        ),
                    },
                },
            },
        }
    }
}

/// The full translation of a raw source text: classify every line once,
/// bind labels over the first pass starting from the predefined table, then
/// emit one word per real instruction over the second pass with variable
/// allocation starting at [`var_base`].
pub open spec fn translated(raws: Seq<Seq<char>>) -> Result<Seq<u16>, ErrView> {
    match classified_program(raws, 0, Seq::empty()) {
        Err(e) => Err(e),
        Ok(instrs) => match first_pass_from(instrs, 0, 0, predefined_table()) {
            Err(e) => Err(e),
            Ok(table) => second_pass_from(instrs, 0, table, var_base(), Seq::empty()),
        },
    }
}

/// First pass over the classified program: builds the symbol table's label
/// wave and generates no code.
pub fn first_pass(instrs: &Vec<(usize, Instruction)>, table: &mut SymbolTable) -> (r: Result<
    (),
    AsmError,
>)
    ensures
        match r {
            Ok(_) => first_pass_from(program_view(instrs@), 0, 0, old(table)@) == Ok::<
                _,
                ErrView,
            >(final(table)@),
            Err(e) => first_pass_from(program_view(instrs@), 0, 0, old(table)@) == Err::<
                Map<Seq<char>, u16>,
                _,
            >(e@),
        },
{
    let ghost pv = program_view(instrs@);
    let mut i: usize = 0;
    let mut pc: usize = 0;
    while i < instrs.len()
        invariant
            i <= instrs@.len(),
            pc <= i,
            pv == program_view(instrs@),
            first_pass_from(pv, 0, 0, old(table)@) == first_pass_from(
                pv,
                i as int,
                pc as int,
                table@,
            ),
        decreases instrs@.len() - i,
    {
        let pair = &instrs[i];
        match &pair.1 {
            Instruction::Address { .. } => {
                pc = pc + 1;
            },
            Instruction::Compute { .. } => {
                pc = pc + 1;
            },
            Instruction::Label { symbol } => {
                if !table.contains(symbol.as_str()) {
                    if pc > 0x7FFF {
                        return Err(
                            AsmError::InstructionSpaceExhausted {
                                line: pair.0,
                                symbol: symbol.clone(),
                            },
                        );
                    }
                    table.add_entry(symbol.clone(), pc as u16);
                }
            },
        }
        i = i + 1;
    }
    Ok(())
}

/// Second pass over the classified program: resolves references, allocates
/// variables in first-use order, and emits one 16-bit word per real
/// instruction, in source order.
pub fn second_pass(instrs: &Vec<(usize, Instruction)>, table: &mut SymbolTable) -> (r: Result<
    Vec<u16>,
    AsmError,
>)
    ensures
        match r {
            Ok(words) => second_pass_from(program_view(instrs@), 0, old(table)@, var_base(), Seq::empty())
                == Ok::<_, ErrView>(words@),
            Err(e) => second_pass_from(program_view(instrs@), 0, old(table)@, var_base(), Seq::empty())
                == Err::<Seq<u16>, _>(e@),
        },
{
    let ghost pv = program_view(instrs@);
    let mut words: Vec<u16> = Vec::new();
    let mut var: u16 = 16;
    let mut i: usize = 0;
    proof {
        assert(words@ =~= Seq::<u16>::empty());
    }
    while i < instrs.len()
        invariant
            i <= instrs@.len(),
            16 <= var <= 16384,
            pv == program_view(instrs@),
            second_pass_from(pv, 0, old(table)@, var_base(), Seq::empty()) == second_pass_from(
                pv,
                i as int,
                table@,
                var as int,
                words@,
            ),
        decreases instrs@.len() - i,
    {
        let pair = &instrs[i];
        match &pair.1 {
            Instruction::Label { .. } => {},
            Instruction::Address { reference } => match reference {
                crate::classify::Reference::Literal(v) => {
                    words.push(*v);
                },
                crate::classify::Reference::Symbol(s) => {
                    if table.contains(s.as_str()) {
                        let address = table.get_address(s.as_str());
                        words.push(address);
                    } else if var >= 16384 {
                        return Err(
                            AsmError::VariableSpaceExhausted { line: pair.0, symbol: s.clone() },
                        );
                    } else {
                        table.add_entry(s.clone(), var);
                        words.push(var);
                        var = var + 1;
                    }
                },
            },
            Instruction::Compute { dest, comp, jump } => {
                let d = match Code::dest(dest.as_str()) {
                    Some(d) => d,
                    None => {
                        return Err(
                            AsmError::UnknownMnemonic {
                                line: pair.0,
                                field: FieldKind::Dest,
                                value: dest.clone(),
                            },
                        );
                    },
                };
                let c = match Code::comp(comp.as_str()) {
                    Some(c) => c,
                    None => {
                        return Err(
                            AsmError::UnknownMnemonic {
                                line: pair.0,
                                field: FieldKind::Comp,
                                value: comp.clone(),
                            },
                        );
                    },
                };
                let j = match Code::jump(jump.as_str()) {
                    Some(j) => j,
                    None => {
                        return Err(
                            AsmError::UnknownMnemonic {
                                line: pair.0,
                                field: FieldKind::Jump,
                                value: jump.clone(),
                            },
                        );
                    },
                };
                let word = assemble_compute(&d, &c, &j);
                words.push(word);
            },
        }
        i = i + 1;
    }
    Ok(words)
}

/// Drives the entire translation process.
///
/// Owns the symbol table and the source for the duration of a run. Each
/// call to [`Assembler::translate`] is one atomic run: initialise the
/// symbol table, classify, first pass, second pass.
pub struct Assembler {
    source: Vec<String>,
    symbol_table: SymbolTable,
}

impl View for Assembler {
    type V = Seq<Seq<char>>;

    closed spec fn view(&self) -> Seq<Seq<char>> {
        self.source.deep_view()
    }
}

impl Assembler {
    /// An assembler over the given raw source lines.
    pub fn new(source: Vec<String>) -> (a: Assembler)
        ensures
            a@ == source.deep_view(),
    {
        Assembler { source, symbol_table: SymbolTable::new() }
    }

    /// Translates the source into its sequence of 16-bit machine words, one
    /// per real instruction, in source order, or stops at the first error.
    pub fn translate(&mut self) -> (r: Result<Vec<u16>, AsmError>)
        ensures
            final(self)@ == old(self)@,
            match r {
                Ok(words) => translated(old(self)@) == Ok::<_, ErrView>(words@),
                Err(e) => translated(old(self)@) == Err::<Seq<u16>, _>(e@),
            },
    {
        self.symbol_table = SymbolTable::new();
        self.symbol_table.initialise();
        let ghost raws = self@;
        let mut instrs: Vec<(usize, Instruction)> = Vec::new();
        let mut i: usize = 0;
        proof {
            assert(program_view(instrs@) =~= Seq::<(int, InstrView)>::empty());
        }
        while i < self.source.len()
            invariant
                i <= self.source@.len(),
                raws == self.source.deep_view(),
                raws == old(self)@,
                self.symbol_table@ == predefined_table(),
                classified_program(raws, 0, Seq::empty()) == classified_program(
                    raws,
                    i as int,
                    program_view(instrs@),
                ),
            decreases self.source@.len() - i,
        {
            let raw = &self.source[i];
            match normalize_line(raw.as_str()) {
                None => {},
                Some(t) => match classify(t.as_str()) {
                    None => {
                        return Err(AsmError::MalformedReference { line: i + 1, text: t });
                    },
                    Some(ins) => {
                        let ghost before = program_view(instrs@);
                        instrs.push((i + 1, ins));
                        proof {
                            assert(program_view(instrs@) =~= before.push((i + 1, ins@)));
                        }
                    },
                },
            }
            i = i + 1;
        }
        match first_pass(&instrs, &mut self.symbol_table) {
            Ok(_) => {},
            Err(e) => {
                return Err(e);
            },
        }
        second_pass(&instrs, &mut self.symbol_table)
    }
}

} // verus!
