//! General properties of the translation engine, stated and proved over the
//! driver's mathematical model.

use vstd::prelude::*;

use crate::classify::{classify_line, InstrView, RefView};
use crate::driver::{first_pass_from, second_pass_from, var_base, var_limit};
use crate::symbols::{lemma_predefined_screen, predefined_table};

verus! {

/// Classification is pure: the shape of a line is a function of its
/// characters alone, so classifying the same line twice yields identical
/// results.
pub proof fn lemma_classify_idempotent(
    s: Seq<char>,
    r1: Option<InstrView>,
    r2: Option<InstrView>,
)
    requires
        r1 == classify_line(s),
        r2 == classify_line(s),
    ensures
        r1 == r2,
{
}

/// A real instruction: one that occupies a program-counter slot and emits a
/// word, that is, anything but a label declaration.
pub open spec fn is_real(ins: InstrView) -> bool {
    !(ins is Label)
}

/// The number of real instructions among `instrs[i..k]`.
pub open spec fn real_count_in(instrs: Seq<(int, InstrView)>, i: int, k: int) -> int
    decreases k - i,
        when i <= k
{
    if i >= k {
        0
    } else {
        (if is_real(instrs[i].1) {
            1int
        } else {
            0int
        }) + real_count_in(instrs, i + 1, k)
    }
}

/// A count of real instructions is never negative.
pub proof fn lemma_real_count_nonneg(instrs: Seq<(int, InstrView)>, i: int, k: int)
    requires
        i <= k,
    ensures
        real_count_in(instrs, i, k) >= 0,
    decreases k - i,
{
    if i < k {
        lemma_real_count_nonneg(instrs, i + 1, k);
    }
}

/// The first pass never rebinds an existing symbol: whatever the table
/// already maps a name to, the completed pass maps it to the same address.
pub proof fn lemma_first_pass_preserves(
    instrs: Seq<(int, InstrView)>,
    i: int,
    pc: int,
    table: Map<Seq<char>, u16>,
    s: Seq<char>,
)
    requires
        0 <= i <= instrs.len(),
        table.contains_key(s),
        first_pass_from(instrs, i, pc, table) is Ok,
    ensures
        first_pass_from(instrs, i, pc, table) matches Ok(res) && res.contains_key(s) && res[s]
            == table[s],
    decreases instrs.len() - i,
{
    if i < instrs.len() {
        match instrs[i].1 {
            InstrView::Address { .. } => {
                lemma_first_pass_preserves(instrs, i + 1, pc + 1, table, s);
            },
            InstrView::Compute { .. } => {
                lemma_first_pass_preserves(instrs, i + 1, pc + 1, table, s);
            },
            InstrView::Label { symbol } => {
                if table.contains_key(symbol) {
                    lemma_first_pass_preserves(instrs, i + 1, pc, table, s);
                } else {
                    lemma_first_pass_preserves(
                        instrs,
                        i + 1,
                        pc,
                        table.insert(symbol, pc as u16),
                        s,
                    );
                }
            },
        }
    }
}

/// Where the first pass binds a label: a label not yet in the table and not
/// declared again before position `k` is bound to the program counter as it
/// stands at `k`, that is, to `pc` plus the number of real instructions
/// passed on the way.
pub proof fn lemma_first_pass_binds_label(
    instrs: Seq<(int, InstrView)>,
    i: int,
    pc: int,
    table: Map<Seq<char>, u16>,
    k: int,
    symbol: Seq<char>,
)
    requires
        0 <= i <= k < instrs.len(),
        0 <= pc,
        instrs[k].1 == (InstrView::Label { symbol }),
        !table.contains_key(symbol),
        forall|j: int| i <= j < k ==> #[trigger] instrs[j].1 != (InstrView::Label { symbol }),
        first_pass_from(instrs, i, pc, table) is Ok,
    ensures
        first_pass_from(instrs, i, pc, table) matches Ok(res) && res.contains_key(symbol)
            && res[symbol] == pc + real_count_in(instrs, i, k),
    decreases k - i,
{
    if i == k {
        let table2 = table.insert(symbol, pc as u16);
        lemma_first_pass_preserves(instrs, i + 1, pc, table2, symbol);
    } else {
        match instrs[i].1 {
            InstrView::Address { .. } => {
                lemma_first_pass_binds_label(instrs, i + 1, pc + 1, table, k, symbol);
            },
            InstrView::Compute { .. } => {
                lemma_first_pass_binds_label(instrs, i + 1, pc + 1, table, k, symbol);
            },
            InstrView::Label { symbol: t } => {
                if table.contains_key(t) {
                    lemma_first_pass_binds_label(instrs, i + 1, pc, table, k, symbol);
                } else {
                    lemma_first_pass_binds_label(
                        instrs,
                        i + 1,
                        pc,
                        table.insert(t, pc as u16),
                        k,
                        symbol,
                    );
                }
            },
        }
    }
}

/// Label resolution correctness: in a program whose first pass succeeds, a
/// label that is not predefined and not declared earlier, standing after
/// `N` real instructions, resolves to exactly `N`.
pub proof fn lemma_label_resolution(instrs: Seq<(int, InstrView)>, k: int, symbol: Seq<char>)
    requires
        0 <= k < instrs.len(),
        instrs[k].1 == (InstrView::Label { symbol }),
        !predefined_table().contains_key(symbol),
        forall|j: int| 0 <= j < k ==> #[trigger] instrs[j].1 != (InstrView::Label { symbol }),
        first_pass_from(instrs, 0, 0, predefined_table()) is Ok,
    ensures
        first_pass_from(instrs, 0, 0, predefined_table()) matches Ok(res) && res.contains_key(
            symbol,
        ) && res[symbol] == real_count_in(instrs, 0, k),
{
    lemma_first_pass_binds_label(instrs, 0, 0, predefined_table(), k, symbol);
}

/// The second pass only appends: the words it was handed stay in place, and
/// it adds exactly one word per remaining real instruction.
pub proof fn lemma_second_pass_prefix(
    instrs: Seq<(int, InstrView)>,
    i: int,
    table: Map<Seq<char>, u16>,
    var: int,
    out: Seq<u16>,
)
    requires
        0 <= i <= instrs.len(),
        second_pass_from(instrs, i, table, var, out) is Ok,
    ensures
        second_pass_from(instrs, i, table, var, out) matches Ok(words) && words.len() == out.len()
            + real_count_in(instrs, i, instrs.len() as int) && (forall|j: int|
            0 <= j < out.len() ==> words[j] == out[j]),
    decreases instrs.len() - i,
{
    if i < instrs.len() {
        match instrs[i].1 {
            InstrView::Label { .. } => {
                lemma_second_pass_prefix(instrs, i + 1, table, var, out);
            },
            InstrView::Address { reference } => match reference {
                RefView::Literal(v) => {
                    lemma_second_pass_prefix(instrs, i + 1, table, var, out.push(v));
                },
                RefView::Symbol(s) => {
                    if table.contains_key(s) {
                        lemma_second_pass_prefix(instrs, i + 1, table, var, out.push(table[s]));
                    } else {
                        lemma_second_pass_prefix(
                            instrs,
                            i + 1,
                            table.insert(s, var as u16),
                            var + 1,
                            out.push(var as u16),
                        );
                    }
                },
            },
            InstrView::Compute { dest, comp, jump } => {
                let dc = crate::code::dest_code(dest)->Some_0;
                let cc = crate::code::comp_code(comp)->Some_0;
                let jc = crate::code::jump_code(jump)->Some_0;
                lemma_second_pass_prefix(
                    instrs,
                    i + 1,
                    table,
                    var,
                    out.push(crate::code::compute_word(dc, cc, jc)),
                );
            },
        }
    }
}

/// A symbol the table already binds is emitted with that binding: the word
/// a reference to it produces is the bound address, whatever else the pass
/// allocates along the way.
pub proof fn lemma_second_pass_emits(
    instrs: Seq<(int, InstrView)>,
    i: int,
    table: Map<Seq<char>, u16>,
    var: int,
    out: Seq<u16>,
    k: int,
    s: Seq<char>,
)
    requires
        0 <= i <= k < instrs.len(),
        instrs[k].1 == (InstrView::Address { reference: RefView::Symbol(s) }),
        table.contains_key(s),
        second_pass_from(instrs, i, table, var, out) is Ok,
    ensures
        second_pass_from(instrs, i, table, var, out) matches Ok(words) && out.len()
            + real_count_in(instrs, i, k) < words.len() && words[out.len() + real_count_in(
            instrs,
            i,
            k,
        )] == table[s],
    decreases k - i,
{
    if i == k {
        lemma_second_pass_prefix(instrs, i + 1, table, var, out.push(table[s]));
        lemma_real_count_nonneg(instrs, i + 1, instrs.len() as int);
    } else {
        match instrs[i].1 {
            InstrView::Label { .. } => {
                lemma_second_pass_emits(instrs, i + 1, table, var, out, k, s);
            },
            InstrView::Address { reference } => match reference {
                RefView::Literal(v) => {
                    lemma_second_pass_emits(instrs, i + 1, table, var, out.push(v), k, s);
                },
                RefView::Symbol(t) => {
                    if table.contains_key(t) {
                        lemma_second_pass_emits(
                            instrs,
                            i + 1,
                            table,
                            var,
                            out.push(table[t]),
                            k,
                            s,
                        );
                    } else {
                        lemma_second_pass_emits(
                            instrs,
                            i + 1,
                            table.insert(t, var as u16),
                            var + 1,
                            out.push(var as u16),
                            k,
                            s,
                        );
                    }
                },
            },
            InstrView::Compute { dest, comp, jump } => {
                let dc = crate::code::dest_code(dest)->Some_0;
                let cc = crate::code::comp_code(comp)->Some_0;
                let jc = crate::code::jump_code(jump)->Some_0;
                lemma_second_pass_emits(
                    instrs,
                    i + 1,
                    table,
                    var,
                    out.push(crate::code::compute_word(dc, cc, jc)),
                    k,
                    s,
                );
            },
        }
    }
}

/// Round trip of predefined symbols: in any successful translation, a
/// reference to a predefined symbol emits its fixed predefined address,
/// whatever the rest of the program binds or allocates.
pub proof fn lemma_predefined_reference(instrs: Seq<(int, InstrView)>, k: int, s: Seq<char>)
    requires
        0 <= k < instrs.len(),
        instrs[k].1 == (InstrView::Address { reference: RefView::Symbol(s) }),
        predefined_table().contains_key(s),
        first_pass_from(instrs, 0, 0, predefined_table()) is Ok,
        second_pass_from(
            instrs,
            0,
            first_pass_from(instrs, 0, 0, predefined_table())->Ok_0,
            var_base(),
            Seq::empty(),
        ) is Ok,
    ensures
        second_pass_from(
            instrs,
            0,
            first_pass_from(instrs, 0, 0, predefined_table())->Ok_0,
            var_base(),
            Seq::empty(),
        ) matches Ok(words) && real_count_in(instrs, 0, k) < words.len() && words[real_count_in(
            instrs,
            0,
            k,
        )] == predefined_table()[s],
{
    let tbl1 = first_pass_from(instrs, 0, 0, predefined_table())->Ok_0;
    lemma_first_pass_preserves(instrs, 0, 0, predefined_table(), s);
    lemma_second_pass_emits(instrs, 0, tbl1, var_base(), Seq::empty(), k, s);
}

/// The screen round trip: a reference to `SCREEN` always encodes to the
/// literal value 16384, regardless of program content.
pub proof fn lemma_screen_round_trip(instrs: Seq<(int, InstrView)>, k: int)
    requires
        0 <= k < instrs.len(),
        instrs[k].1 == (InstrView::Address { reference: RefView::Symbol("SCREEN"@) }),
        first_pass_from(instrs, 0, 0, predefined_table()) is Ok,
        second_pass_from(
            instrs,
            0,
            first_pass_from(instrs, 0, 0, predefined_table())->Ok_0,
            var_base(),
            Seq::empty(),
        ) is Ok,
    ensures
        second_pass_from(
            instrs,
            0,
            first_pass_from(instrs, 0, 0, predefined_table())->Ok_0,
            var_base(),
            Seq::empty(),
        ) matches Ok(words) && real_count_in(instrs, 0, k) < words.len() && words[real_count_in(
            instrs,
            0,
            k,
        )] == 16384,
{
    lemma_predefined_screen(Map::empty());
    lemma_predefined_reference(instrs, k, "SCREEN"@);
}

/// Any key the completed first pass holds beyond the table it started from
/// is declared as a label somewhere in the remaining program: the first
/// pass never allocates variables.
pub proof fn lemma_first_pass_binds_only_labels(
    instrs: Seq<(int, InstrView)>,
    i: int,
    pc: int,
    table: Map<Seq<char>, u16>,
    s: Seq<char>,
)
    requires
        0 <= i <= instrs.len(),
        first_pass_from(instrs, i, pc, table) is Ok,
        first_pass_from(instrs, i, pc, table)->Ok_0.contains_key(s),
        !table.contains_key(s),
    ensures
        exists|j: int|
            i <= j < instrs.len() && #[trigger] instrs[j].1 == (InstrView::Label { symbol: s }),
    decreases instrs.len() - i,
{
    match instrs[i].1 {
        InstrView::Address { .. } => {
            lemma_first_pass_binds_only_labels(instrs, i + 1, pc + 1, table, s);
        },
        InstrView::Compute { .. } => {
            lemma_first_pass_binds_only_labels(instrs, i + 1, pc + 1, table, s);
        },
        InstrView::Label { symbol: t } => {
            if table.contains_key(t) {
                lemma_first_pass_binds_only_labels(instrs, i + 1, pc, table, s);
            } else if t == s {
                assert(instrs[i].1 == (InstrView::Label { symbol: s }));
            } else {
                lemma_first_pass_binds_only_labels(
                    instrs,
                    i + 1,
                    pc,
                    table.insert(t, pc as u16),
                    s,
                );
            }
        },
    }
}

/// The number of variable allocations the second pass performs over
/// `instrs[i..k]`, starting from the bound names `dom`: one per reference
/// to a symbol not yet bound, each binding its symbol for the rest.
pub open spec fn alloc_count(
    instrs: Seq<(int, InstrView)>,
    i: int,
    k: int,
    dom: Set<Seq<char>>,
) -> int
    decreases k - i,
        when i <= k
{
    if i >= k {
        0
    } else {
        match instrs[i].1 {
            InstrView::Address { reference: RefView::Symbol(t) } => if dom.contains(t) {
                alloc_count(instrs, i + 1, k, dom)
            } else {
                1 + alloc_count(instrs, i + 1, k, dom.insert(t))
            },
            _ => alloc_count(instrs, i + 1, k, dom),
        }
    }
}

/// Variable allocation order: a previously unseen symbol — not bound by the
/// table the pass starts from and not referenced earlier — is allocated the
/// base address plus the number of allocations made before it. So the first
/// unseen symbol in source order receives the base address, the second the
/// base plus one, and so on; the word emitted for it is that address.
pub proof fn lemma_second_pass_allocates(
    instrs: Seq<(int, InstrView)>,
    i: int,
    table: Map<Seq<char>, u16>,
    var: int,
    out: Seq<u16>,
    k: int,
    s: Seq<char>,
)
    requires
        0 <= i <= k < instrs.len(),
        0 <= var,
        instrs[k].1 == (InstrView::Address { reference: RefView::Symbol(s) }),
        !table.contains_key(s),
        forall|j: int|
            i <= j < k ==> #[trigger] instrs[j].1 != (InstrView::Address {
                reference: RefView::Symbol(s),
            }),
        second_pass_from(instrs, i, table, var, out) is Ok,
    ensures
        second_pass_from(instrs, i, table, var, out) matches Ok(words) && out.len()
            + real_count_in(instrs, i, k) < words.len() && words[out.len() + real_count_in(
            instrs,
            i,
            k,
        )] == var + alloc_count(instrs, i, k, table.dom()),
    decreases k - i,
{
    if i == k {
        lemma_second_pass_prefix(
            instrs,
            i + 1,
            table.insert(s, var as u16),
            var + 1,
            out.push(var as u16),
        );
        lemma_real_count_nonneg(instrs, i + 1, instrs.len() as int);
    } else {
        match instrs[i].1 {
            InstrView::Label { .. } => {
                lemma_second_pass_allocates(instrs, i + 1, table, var, out, k, s);
            },
            InstrView::Address { reference } => match reference {
                RefView::Literal(v) => {
                    lemma_second_pass_allocates(instrs, i + 1, table, var, out.push(v), k, s);
                },
                RefView::Symbol(t) => {
                    if table.contains_key(t) {
                        lemma_second_pass_allocates(
                            instrs,
                            i + 1,
                            table,
                            var,
                            out.push(table[t]),
                            k,
                            s,
                        );
                    } else {
                        let table2 = table.insert(t, var as u16);
                        assert(table2.dom() =~= table.dom().insert(t));
                        lemma_second_pass_allocates(
                            instrs,
                            i + 1,
                            table2,
                            var + 1,
                            out.push(var as u16),
                            k,
                            s,
                        );
                    }
                },
            },
            InstrView::Compute { dest, comp, jump } => {
                let dc = crate::code::dest_code(dest)->Some_0;
                let cc = crate::code::comp_code(comp)->Some_0;
                let jc = crate::code::jump_code(jump)->Some_0;
                lemma_second_pass_allocates(
                    instrs,
                    i + 1,
                    table,
                    var,
                    out.push(crate::code::compute_word(dc, cc, jc)),
                    k,
                    s,
                );
            },
        }
    }
}

/// Variable allocation in a full run: over the table the first pass
/// produced, the first previously-unseen non-label symbol of the second
/// pass is allocated the base address 16, the next 17, and so on, counted
/// by [`alloc_count`]; the emitted word is the allocated address.
pub proof fn lemma_variable_allocation(instrs: Seq<(int, InstrView)>, k: int, s: Seq<char>)
    requires
        0 <= k < instrs.len(),
        instrs[k].1 == (InstrView::Address { reference: RefView::Symbol(s) }),
        first_pass_from(instrs, 0, 0, predefined_table()) is Ok,
        !first_pass_from(instrs, 0, 0, predefined_table())->Ok_0.contains_key(s),
        forall|j: int|
            0 <= j < k ==> #[trigger] instrs[j].1 != (InstrView::Address {
                reference: RefView::Symbol(s),
            }),
        second_pass_from(
            instrs,
            0,
            first_pass_from(instrs, 0, 0, predefined_table())->Ok_0,
            var_base(),
            Seq::empty(),
        ) is Ok,
    ensures
        second_pass_from(
            instrs,
            0,
            first_pass_from(instrs, 0, 0, predefined_table())->Ok_0,
            var_base(),
            Seq::empty(),
        ) matches Ok(words) && real_count_in(instrs, 0, k) < words.len() && words[real_count_in(
            instrs,
            0,
            k,
        )] == var_base() + alloc_count(
            instrs,
            0,
            k,
            first_pass_from(instrs, 0, 0, predefined_table())->Ok_0.dom(),
        ),
{
    let tbl1 = first_pass_from(instrs, 0, 0, predefined_table())->Ok_0;
    lemma_second_pass_allocates(instrs, 0, tbl1, var_base(), Seq::empty(), k, s);
}

/// The real instructions of a program from index `i` on, in source order,
/// with label declarations and line numbers dropped.
pub open spec fn reals_from(instrs: Seq<(int, InstrView)>, i: int) -> Seq<InstrView>
    decreases instrs.len() - i,
        when 0 <= i <= instrs.len()
{
    if i >= instrs.len() {
        Seq::empty()
    } else if is_real(instrs[i].1) {
        seq![instrs[i].1] + reals_from(instrs, i + 1)
    } else {
        reals_from(instrs, i + 1)
    }
}

/// Code generation over a bare sequence of real instructions: the same
/// transitions as the second pass, with no labels to skip and no lines to
/// report, `None` on any error.
pub open spec fn emit_from(
    rs: Seq<InstrView>,
    table: Map<Seq<char>, u16>,
    var: int,
    out: Seq<u16>,
) -> Option<Seq<u16>>
    decreases rs.len(),
{
    if rs.len() == 0 {
        Some(out)
    } else {
        match rs[0] {
            InstrView::Label { .. } => emit_from(rs.drop_first(), table, var, out),
            InstrView::Address { reference } => match reference {
                RefView::Literal(v) => emit_from(rs.drop_first(), table, var, out.push(v)),
                RefView::Symbol(s) => if table.contains_key(s) {
                    emit_from(rs.drop_first(), table, var, out.push(table[s]))
                } else if var >= var_limit() {
                    None
                } else {
                    emit_from(
                        rs.drop_first(),
                        table.insert(s, var as u16),
                        var + 1,
                        out.push(var as u16),
                    )
                },
            },
            InstrView::Compute { dest, comp, jump } => match (
                crate::code::dest_code(dest),
                crate::code::comp_code(comp),
                crate::code::jump_code(jump),
            ) {
                (Some(dc), Some(cc), Some(jc)) => emit_from(
                    rs.drop_first(),
                    table,
                    var,
                    out.push(crate::code::compute_word(dc, cc, jc)),
                ),
                _ => None,
            },
        }
    }
}

/// The words of a successful second pass are a function of the real
/// instructions alone: label declarations steer only the table, never the
/// emitted sequence.
pub proof fn lemma_second_pass_words(
    instrs: Seq<(int, InstrView)>,
    i: int,
    table: Map<Seq<char>, u16>,
    var: int,
    out: Seq<u16>,
)
    requires
        0 <= i <= instrs.len(),
        second_pass_from(instrs, i, table, var, out) is Ok,
    ensures
        emit_from(reals_from(instrs, i), table, var, out) == Some(
            second_pass_from(instrs, i, table, var, out)->Ok_0,
        ),
    decreases instrs.len() - i,
{
    if i < instrs.len() {
        if is_real(instrs[i].1) {
            assert((seq![instrs[i].1] + reals_from(instrs, i + 1)).drop_first() =~= reals_from(
                instrs,
                i + 1,
            ));
        }
        match instrs[i].1 {
            InstrView::Label { .. } => {
                lemma_second_pass_words(instrs, i + 1, table, var, out);
            },
            InstrView::Address { reference } => match reference {
                RefView::Literal(v) => {
                    lemma_second_pass_words(instrs, i + 1, table, var, out.push(v));
                },
                RefView::Symbol(s) => {
                    if table.contains_key(s) {
                        lemma_second_pass_words(instrs, i + 1, table, var, out.push(table[s]));
                    } else {
                        lemma_second_pass_words(
                            instrs,
                            i + 1,
                            table.insert(s, var as u16),
                            var + 1,
                            out.push(var as u16),
                        );
                    }
                },
            },
            InstrView::Compute { dest, comp, jump } => {
                let dc = crate::code::dest_code(dest)->Some_0;
                let cc = crate::code::comp_code(comp)->Some_0;
                let jc = crate::code::jump_code(jump)->Some_0;
                lemma_second_pass_words(
                    instrs,
                    i + 1,
                    table,
                    var,
                    out.push(crate::code::compute_word(dc, cc, jc)),
                );
            },
        }
    }
}

/// Forward-reference equivalence: the emitted words depend only on the real
/// instruction sequence and on the symbol table the first pass produced.
/// Two programs with the same real instructions and the same table — for
/// instance, one referencing a label before its declaration and one after,
/// the declaration standing after the same number of real instructions in
/// both, with no other symbol colliding — produce identical output.
pub proof fn lemma_forward_reference_equivalence(
    p1: Seq<(int, InstrView)>,
    p2: Seq<(int, InstrView)>,
    table: Map<Seq<char>, u16>,
)
    requires
        reals_from(p1, 0) == reals_from(p2, 0),
        second_pass_from(p1, 0, table, var_base(), Seq::empty()) is Ok,
        second_pass_from(p2, 0, table, var_base(), Seq::empty()) is Ok,
    ensures
        second_pass_from(p1, 0, table, var_base(), Seq::empty())->Ok_0 == second_pass_from(
            p2,
            0,
            table,
            var_base(),
            Seq::empty(),
        )->Ok_0,
{
    lemma_second_pass_words(p1, 0, table, var_base(), Seq::empty());
    lemma_second_pass_words(p2, 0, table, var_base(), Seq::empty());
}

} // verus!
