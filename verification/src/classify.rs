//! Line normalization and classification.
//!
//! Normalization turns a raw source line into a clean instruction line:
//! it truncates at the first `//`, trims surrounding whitespace and drops
//! lines with nothing left. Classification maps a clean, non-empty line to
//! exactly one of the three instruction shapes, by its leading character
//! alone: `@` opens an address instruction, `(` a label declaration, and
//! anything else is a compute instruction. Classification extracts raw
//! fields and never inspects instruction semantics; the only input it
//! rejects is an `@`-line whose remainder is neither an in-range decimal
//! literal nor a syntactically valid symbol name.

use vstd::prelude::*;

use crate::chars::{
    all_digits, decimal_value, digit, digit_value, is_digit, is_space, is_symbol, is_symbol_char,
    is_symbol_start, space, symbol_char, symbol_start,
};

verus! {

/// The reference of an address instruction: a 15-bit literal value, or a
/// symbolic name to be resolved against the symbol table.
#[derive(Debug, Clone, PartialEq, Eq)]
pub enum Reference {
    Literal(u16),
    Symbol(String),
}

/// One classified source line.
#[derive(Debug, Clone, PartialEq, Eq)]
pub enum Instruction {
    /// `@value`: load a 15-bit value or address into the address register.
    Address { reference: Reference },
    /// `dest=comp;jump`: compute, optionally store, optionally jump. The
    /// fields are raw mnemonics; a missing destination or jump is `null`.
    Compute { dest: String, comp: String, jump: String },
    /// `(symbol)`: bind the name to the address of the next real
    /// instruction. Consumes no program-counter slot.
    Label { symbol: String },
}

/// Mathematical shape of a [`Reference`].
pub enum RefView {
    Literal(u16),
    Symbol(Seq<char>),
}

/// Mathematical shape of an [`Instruction`].
pub enum InstrView {
    Address { reference: RefView },
    Compute { dest: Seq<char>, comp: Seq<char>, jump: Seq<char> },
    Label { symbol: Seq<char> },
}

impl View for Reference {
    type V = RefView;

    open spec fn view(&self) -> RefView {
        match self {
            Reference::Literal(v) => RefView::Literal(*v),
            Reference::Symbol(s) => RefView::Symbol(s@),
        }
    }
}

impl View for Instruction {
    type V = InstrView;

    open spec fn view(&self) -> InstrView {
        match self {
            Instruction::Address { reference } => InstrView::Address { reference: reference@ },
            Instruction::Compute { dest, comp, jump } => InstrView::Compute {
                dest: dest@,
                comp: comp@,
                jump: jump@,
            },
            Instruction::Label { symbol } => InstrView::Label { symbol: symbol@ },
        }
    }
}

/// The largest value an address-instruction literal may carry: the operand
/// field of the 16-bit word is 15 bits wide.
pub open spec fn max_literal() -> int {
    0x7FFF
}

/// The first index at or after `i` where `c` stands, or the length if none.
pub open spec fn find_char(s: Seq<char>, c: char, i: int) -> int
    decreases s.len() - i,
        when 0 <= i <= s.len()
{
    if i >= s.len() {
        s.len() as int
    } else if s[i] == c {
        i
    } else {
        find_char(s, c, i + 1)
    }
}

/// The first index at or after `i` where `//` begins, or the length if no
/// comment follows.
pub open spec fn comment_start(s: Seq<char>, i: int) -> int
    decreases s.len() - i,
        when 0 <= i <= s.len()
{
    if i + 1 >= s.len() {
        s.len() as int
    } else if s[i] == '/' && s[i + 1] == '/' {
        i
    } else {
        comment_start(s, i + 1)
    }
}

/// The first index at or after `i` holding a non-whitespace character, or
/// the length if none.
pub open spec fn first_nonspace(s: Seq<char>, i: int) -> int
    decreases s.len() - i,
        when 0 <= i <= s.len()
{
    if i >= s.len() {
        s.len() as int
    } else if !is_space(s[i]) {
        i
    } else {
        first_nonspace(s, i + 1)
    }
}

/// The end of the sequence once trailing whitespace before index `i` is
/// dropped: the least `j <= i` with nothing but whitespace in `j..i`, where
/// `j` is 0 or preceded by a non-whitespace character.
pub open spec fn trim_end(s: Seq<char>, i: int) -> int
    decreases i,
        when 0 <= i <= s.len()
{
    if i <= 0 {
        0
    } else if !is_space(s[i - 1]) {
        i
    } else {
        trim_end(s, i - 1)
    }
}

/// The sequence with surrounding whitespace removed.
pub open spec fn trimmed(s: Seq<char>) -> Seq<char> {
    let a = first_nonspace(s, 0);
    let b = trim_end(s, s.len() as int);
    if a >= b {
        Seq::empty()
    } else {
        s.subrange(a, b)
    }
}

/// The clean instruction line a raw source line holds: everything before
/// the first `//`, trimmed; `None` when nothing is left.
pub open spec fn normalized(s: Seq<char>) -> Option<Seq<char>> {
    let t = trimmed(s.take(comment_start(s, 0)));
    if t.len() == 0 {
        None
    } else {
        Some(t)
    }
}

/// The reference an `@`-line's remainder denotes: a non-empty all-digit
/// remainder is a literal, valid while its value fits the 15-bit operand
/// field; anything else must be a syntactically valid symbol name. `None`
/// is a malformed reference.
pub open spec fn reference_of(t: Seq<char>) -> Option<RefView> {
    if t.len() > 0 && all_digits(t) {
        if decimal_value(t) <= max_literal() {
            Some(RefView::Literal(decimal_value(t) as u16))
        } else {
            None
        }
    } else if is_symbol(t) {
        Some(RefView::Symbol(t))
    } else {
        None
    }
}

/// The declared name of a label line: the text after the opening
/// parenthesis, without the closing parenthesis if one ends the line.
pub open spec fn label_name(s: Seq<char>) -> Seq<char>
    recommends
        s.len() > 0,
{
    let body = s.subrange(1, s.len() as int);
    if body.len() > 0 && body.last() == ')' {
        body.drop_last()
    } else {
        body
    }
}

/// The three raw mnemonic fields of a compute line `[dest=]comp[;jump]`:
/// the text before the first `=` (or `null` if there is none), then the
/// remainder split at its first `;`, with `null` for a missing jump.
pub open spec fn compute_fields(s: Seq<char>) -> (Seq<char>, Seq<char>, Seq<char>) {
    let eq = find_char(s, '=', 0);
    let dest = if eq < s.len() {
        s.subrange(0, eq)
    } else {
        "null"@
    };
    let rest = if eq < s.len() {
        s.subrange(eq + 1, s.len() as int)
    } else {
        s
    };
    let semi = find_char(rest, ';', 0);
    let comp = rest.subrange(0, semi);
    let jump = if semi < rest.len() {
        rest.subrange(semi + 1, rest.len() as int)
    } else {
        "null"@
    };
    (dest, comp, jump)
}

/// The instruction shape of a clean, non-empty line; `None` exactly on a
/// malformed `@`-reference.
pub open spec fn classify_line(s: Seq<char>) -> Option<InstrView>
    recommends
        s.len() > 0,
{
    if s[0] == '@' {
        match reference_of(s.subrange(1, s.len() as int)) {
            Some(r) => Some(InstrView::Address { reference: r }),
            None => None,
        }
    } else if s[0] == '(' {
        Some(InstrView::Label { symbol: label_name(s) })
    } else {
        Some(
            InstrView::Compute {
                dest: compute_fields(s).0,
                comp: compute_fields(s).1,
                jump: compute_fields(s).2,
            },
        )
    }
}

/// The first non-whitespace scan lands between its start and the length,
/// and on a non-whitespace character whenever it lands inside the sequence.
pub proof fn lemma_first_nonspace_props(s: Seq<char>, i: int)
    requires
        0 <= i <= s.len(),
    ensures
        i <= first_nonspace(s, i) <= s.len(),
        first_nonspace(s, i) < s.len() ==> !is_space(s[first_nonspace(s, i)]),
    decreases s.len() - i,
{
    if i < s.len() && is_space(s[i]) {
        lemma_first_nonspace_props(s, i + 1);
    }
}

/// Dropping trailing whitespace never moves the end past the start.
pub proof fn lemma_trim_end_le(s: Seq<char>, i: int)
    requires
        0 <= i <= s.len(),
    ensures
        trim_end(s, i) <= i,
    decreases i,
{
    if i > 0 && is_space(s[i - 1]) {
        lemma_trim_end_le(s, i - 1);
    }
}

/// A non-whitespace character before `i` keeps the trimmed end beyond it.
pub proof fn lemma_trim_end_gt(s: Seq<char>, i: int, a: int)
    requires
        0 <= a < i <= s.len(),
        !is_space(s[a]),
    ensures
        trim_end(s, i) > a,
    decreases i,
{
    if is_space(s[i - 1]) {
        lemma_trim_end_gt(s, i - 1, a);
    }
}

/// The first index where `//` begins, or the length of the slice if no
/// comment follows.
fn find_comment(s: &str) -> (r: usize)
    ensures
        r == comment_start(s@, 0),
        r <= s@.len(),
{
    let n = s.unicode_len();
    if n <= 1 {
        return n;
    }
    let mut j: usize = 0;
    while j < n - 1
        invariant
            j < n,
            n == s@.len(),
            comment_start(s@, 0) == comment_start(s@, j as int),
        decreases n - j,
    {
        if s.get_char(j) == '/' && s.get_char(j + 1) == '/' {
            return j;
        }
        j = j + 1;
    }
    n
}

/// The first index at or after `c` in the slice, scanning the prefix of
/// length `cut`, holding a non-whitespace character.
fn scan_first_nonspace(s: &str, cut: usize) -> (r: usize)
    requires
        cut <= s@.len(),
    ensures
        r == first_nonspace(s@.take(cut as int), 0),
        r <= cut,
{
    let ghost prefix = s@.take(cut as int);
    let mut j: usize = 0;
    while j < cut
        invariant
            j <= cut <= s@.len(),
            prefix == s@.take(cut as int),
            first_nonspace(prefix, 0) == first_nonspace(prefix, j as int),
        decreases cut - j,
    {
        if !space(s.get_char(j)) {
            return j;
        }
        j = j + 1;
    }
    cut
}

/// The end of the prefix of length `cut` once trailing whitespace is
/// dropped.
fn scan_last_nonspace(s: &str, cut: usize) -> (r: usize)
    requires
        cut <= s@.len(),
    ensures
        r == trim_end(s@.take(cut as int), cut as int),
        r <= cut,
{
    let ghost prefix = s@.take(cut as int);
    let mut j: usize = cut;
    while j > 0
        invariant
            j <= cut <= s@.len(),
            prefix == s@.take(cut as int),
            trim_end(prefix, cut as int) == trim_end(prefix, j as int),
        decreases j,
    {
        if !space(s.get_char(j - 1)) {
            return j;
        }
        j = j - 1;
    }
    0
}

/// The first index where `c` stands in the slice, or its length if none.
fn scan_char(s: &str, c: char) -> (r: usize)
    ensures
        r == find_char(s@, c, 0),
        r <= s@.len(),
{
    let n = s.unicode_len();
    let mut j: usize = 0;
    while j < n
        invariant
            j <= n,
            n == s@.len(),
            find_char(s@, c, 0) == find_char(s@, c, j as int),
        decreases n - j,
    {
        if s.get_char(j) == c {
            return j;
        }
        j = j + 1;
    }
    n
}

/// Cleans one raw source line: truncates at the first `//`, trims
/// whitespace, and returns `None` when nothing remains.
pub fn normalize_line(raw: &str) -> (r: Option<String>)
    ensures
        match r {
            Some(t) => normalized(raw@) == Some(t@) && t@.len() > 0,
            None => normalized(raw@) is None,
        },
{
    let cut = find_comment(raw);
    let ghost prefix = raw@.take(cut as int);
    let a = scan_first_nonspace(raw, cut);
    proof {
        lemma_trim_end_le(prefix, cut as int);
    }
    if a == cut {
        proof {
            assert(trimmed(prefix) =~= Seq::<char>::empty());
        }
        None
    } else {
        proof {
            lemma_first_nonspace_props(prefix, 0);
            lemma_trim_end_gt(prefix, cut as int, a as int);
        }
        let b = scan_last_nonspace(raw, cut);
        let t = raw.substring_char(a, b);
        proof {
            assert(t@ =~= prefix.subrange(a as int, b as int));
            assert(trimmed(prefix) == prefix.subrange(a as int, b as int));
        }
        Some(t.to_owned())
    }
}

/// Whether every character of the slice is a decimal digit.
fn check_all_digits(s: &str) -> (r: bool)
    ensures
        r == all_digits(s@),
{
    let n = s.unicode_len();
    let mut j: usize = 0;
    while j < n
        invariant
            j <= n,
            n == s@.len(),
            forall|k: int| 0 <= k < j ==> is_digit(#[trigger] s@[k]),
        decreases n - j,
    {
        if !digit(s.get_char(j)) {
            return false;
        }
        j = j + 1;
    }
    true
}

/// Whether the slice is a syntactically valid symbol name.
fn check_symbol(s: &str) -> (r: bool)
    ensures
        r == is_symbol(s@),
{
    let n = s.unicode_len();
    if n == 0 {
        return false;
    }
    if !symbol_start(s.get_char(0)) {
        return false;
    }
    let mut j: usize = 1;
    while j < n
        invariant
            1 <= j <= n,
            n == s@.len(),
            is_symbol_start(s@[0]),
            forall|k: int| 0 <= k < j ==> is_symbol_char(#[trigger] s@[k]),
        decreases n - j,
    {
        if !symbol_char(s.get_char(j)) {
            return false;
        }
        j = j + 1;
    }
    true
}

/// The value of an all-digit sequence is never negative.
pub proof fn lemma_decimal_nonneg(s: Seq<char>)
    requires
        all_digits(s),
    ensures
        decimal_value(s) >= 0,
    decreases s.len(),
{
    if s.len() > 0 {
        assert(all_digits(s.drop_last())) by {
            assert(forall|k: int| 0 <= k < s.len() - 1 ==> s.drop_last()[k] == s[k]);
        }
        lemma_decimal_nonneg(s.drop_last());
    }
}

/// Extending an all-digit sequence never shrinks its value.
pub proof fn lemma_decimal_prefix_le(s: Seq<char>, i: int)
    requires
        all_digits(s),
        0 <= i <= s.len(),
    ensures
        decimal_value(s.take(i)) <= decimal_value(s),
    decreases s.len() - i,
{
    if i == s.len() {
        assert(s.take(i) =~= s);
    } else {
        assert(all_digits(s.take(i + 1))) by {
            assert(forall|k: int| 0 <= k < i + 1 ==> s.take(i + 1)[k] == s[k]);
        }
        assert(s.take(i + 1).drop_last() =~= s.take(i));
        lemma_decimal_nonneg(s.take(i));
        assert(decimal_value(s.take(i + 1)) == decimal_value(s.take(i)) * 10 + digit_value(
            s[i],
        ));
        lemma_decimal_prefix_le(s, i + 1);
    }
}

/// Parses a non-empty all-digit slice as a decimal literal; `None` when the
/// value does not fit the 15-bit operand field.
fn parse_decimal(s: &str) -> (r: Option<u16>)
    requires
        all_digits(s@),
        s@.len() > 0,
    ensures
        match r {
            Some(v) => decimal_value(s@) <= max_literal() && v == decimal_value(s@),
            None => decimal_value(s@) > max_literal(),
        },
{
    let n = s.unicode_len();
    let mut value: u32 = 0;
    let mut j: usize = 0;
    proof {
        assert(s@.take(0) =~= Seq::<char>::empty());
    }
    while j < n
        invariant
            j <= n,
            n == s@.len(),
            all_digits(s@),
            value == decimal_value(s@.take(j as int)),
            value <= 0x7FFF,
        decreases n - j,
    {
        let c = s.get_char(j);
        let d: u32 = (c as u32) - 48;
        proof {
            assert(is_digit(s@[j as int]));
            assert(d == digit_value(c));
            assert(s@.take(j as int + 1).drop_last() =~= s@.take(j as int));
            assert(decimal_value(s@.take(j as int + 1)) == decimal_value(s@.take(j as int)) * 10
                + digit_value(c));
        }
        let next = value * 10 + d;
        if next > 0x7FFF {
            proof {
                lemma_decimal_prefix_le(s@, j as int + 1);
            }
            return None;
        }
        value = next;
        j = j + 1;
    }
    proof {
        assert(s@.take(n as int) =~= s@);
    }
    Some(value as u16)
}

/// Parses the remainder of an `@`-line into a reference.
pub fn parse_reference(t: &str) -> (r: Option<Reference>)
    ensures
        match r {
            Some(rf) => reference_of(t@) == Some(rf@),
            None => reference_of(t@) is None,
        },
{
    let n = t.unicode_len();
    let digits = check_all_digits(t);
    if n > 0 && digits {
        match parse_decimal(t) {
            Some(v) => Some(Reference::Literal(v)),
            None => None,
        }
    } else if check_symbol(t) {
        Some(Reference::Symbol(t.to_owned()))
    } else {
        None
    }
}

/// Classifies one clean, non-empty line into its instruction shape. A pure
/// function of the line's characters: the result is pinned by
/// [`classify_line`], so equal lines always classify alike. `None` exactly
/// when the line is an `@`-reference that is malformed.
pub fn classify(line: &str) -> (r: Option<Instruction>)
    requires
        line@.len() > 0,
    ensures
        match r {
            Some(ins) => classify_line(line@) == Some(ins@),
            None => classify_line(line@) is None,
        },
{
    let n = line.unicode_len();
    let first = line.get_char(0);
    if first == '@' {
        let rest = line.substring_char(1, n);
        match parse_reference(rest) {
            Some(reference) => Some(Instruction::Address { reference }),
            None => None,
        }
    } else if first == '(' {
        let end = if n > 1 {
            if line.get_char(n - 1) == ')' {
                n - 1
            } else {
                n
            }
        } else {
            n
        };
        let name = line.substring_char(1, end);
        proof {
            let body = line@.subrange(1, line@.len() as int);
            if body.len() > 0 && body.last() == ')' {
                assert(name@ =~= body.drop_last());
            } else {
                assert(name@ =~= body);
            }
        }
        Some(Instruction::Label { symbol: name.to_owned() })
    } else {
        let eq = scan_char(line, '=');
        let dest = if eq < n {
            line.substring_char(0, eq).to_owned()
        } else {
            "null".to_owned()
        };
        let rest = if eq < n {
            line.substring_char(eq + 1, n)
        } else {
            line.substring_char(0, n)
        };
        proof {
            if eq < n {
            } else {
                assert(rest@ =~= line@);
            }
        }
        let m = rest.unicode_len();
        let semi = scan_char(rest, ';');
        let comp = rest.substring_char(0, semi).to_owned();
        let jump = if semi < m {
            rest.substring_char(semi + 1, m).to_owned()
        } else {
            "null".to_owned()
        };
        Some(Instruction::Compute { dest, comp, jump })
    }
}

} // verus!
