//! The checks that a parsed file must pass before anything is generated.
//!
//! Every name must be an identifier that Rust does not reserve, because
//! names become names of items in the bindings and parts of symbols; no two
//! providers of a file and no two probes of a provider may share a name; no
//! two probes of a file may share a symbol, and no symbol may be a word that
//! C reserves or a type that the C text uses; and a probe may take at most
//! `MAX_ARITY` arguments, because
//! the generated functions have a fixed number of parameters. The types of
//! the arguments need no check: the table of types is closed, and a parsed
//! file holds only members of it.
//!
//! All violations are reported, in the order of the file: for each provider
//! first what is wrong with its name, then for each of its probes what is
//! wrong with the probe: its name, its symbol, the number of its arguments.
use crate::model::{File, Probe, ProbeSpec, Provider, ProviderSpec};
use crate::symbol::{lemma_symbol_injective_same_length, symbol_name, symbol_of};
use crate::text::{copy_bytes, identifier, is_identifier, lit, same_bytes, spells};
use vstd::prelude::*;

verus! {

/// The greatest number of arguments that a probe may take.
pub const MAX_ARITY: usize = 32;

/// What a name names.
#[derive(Clone, Copy, Debug, PartialEq, Eq, Structural, Hash)]
pub enum NameKind {
    Provider,
    Probe,
    /// The name of the generated function of a probe.
    Symbol,
}

/// One violation of the rules.
#[derive(Clone, Debug, PartialEq, Eq)]
pub enum ValidationError {
    /// `name` was used before: by an earlier provider of the file, by an
    /// earlier probe of the same provider, or, where it is a symbol, by a
    /// probe of an earlier provider of another name.
    DuplicateName { kind: NameKind, name: Vec<u8> },
    /// `name` is not an identifier, or it is a word that Rust reserves, or
    /// it is a symbol that the C text cannot define.
    InvalidIdentifier { name: Vec<u8> },
    /// The probe `probe` takes `count` arguments, more than `MAX_ARITY`.
    ArityTooLarge { probe: Vec<u8>, count: usize },
}

/// What a violation is, as mathematics.
pub enum Violation {
    DuplicateName { kind: NameKind, name: Seq<u8> },
    InvalidIdentifier { name: Seq<u8> },
    ArityTooLarge { probe: Seq<u8>, count: int },
}

impl View for ValidationError {
    type V = Violation;

    open spec fn view(&self) -> Violation {
        match self {
            ValidationError::DuplicateName { kind, name } => Violation::DuplicateName {
                kind: *kind,
                name: name@,
            },
            ValidationError::InvalidIdentifier { name } => Violation::InvalidIdentifier {
                name: name@,
            },
            ValidationError::ArityTooLarge { probe, count } => Violation::ArityTooLarge {
                probe: probe@,
                count: *count as int,
            },
        }
    }
}

/// The views of a list of violations.
pub open spec fn violations_view(errors: Seq<ValidationError>) -> Seq<Violation> {
    Seq::new(errors.len(), |i: int| errors[i]@)
}

/// The names of the providers of a file, in order.
pub open spec fn provider_names(file: Seq<ProviderSpec>) -> Seq<Seq<u8>> {
    Seq::new(file.len(), |i: int| file[i].name)
}

/// The names of the probes of a provider, in order.
pub open spec fn probe_names(provider: ProviderSpec) -> Seq<Seq<u8>> {
    Seq::new(provider.probes.len(), |j: int| provider.probes[j].name)
}

/// Whether the name at index `i` also stands at an earlier index.
pub open spec fn repeats(names: Seq<Seq<u8>>, i: int) -> bool {
    exists|k: int| 0 <= k < i && #[trigger] names[k] == names[i]
}

/// Whether `s` is a word that Rust reserves: a keyword of the language or
/// a word held back for one. Such a word cannot name an item.
pub open spec fn is_reserved(s: Seq<u8>) -> bool {
    ||| s == lit("as"@)
    ||| s == lit("break"@)
    ||| s == lit("const"@)
    ||| s == lit("continue"@)
    ||| s == lit("crate"@)
    ||| s == lit("else"@)
    ||| s == lit("enum"@)
    ||| s == lit("extern"@)
    ||| s == lit("false"@)
    ||| s == lit("fn"@)
    ||| s == lit("for"@)
    ||| s == lit("if"@)
    ||| s == lit("impl"@)
    ||| s == lit("in"@)
    ||| s == lit("let"@)
    ||| s == lit("loop"@)
    ||| s == lit("match"@)
    ||| s == lit("mod"@)
    ||| s == lit("move"@)
    ||| s == lit("mut"@)
    ||| s == lit("pub"@)
    ||| s == lit("ref"@)
    ||| s == lit("return"@)
    ||| s == lit("self"@)
    ||| s == lit("Self"@)
    ||| s == lit("static"@)
    ||| s == lit("struct"@)
    ||| s == lit("super"@)
    ||| s == lit("trait"@)
    ||| s == lit("true"@)
    ||| s == lit("type"@)
    ||| s == lit("unsafe"@)
    ||| s == lit("use"@)
    ||| s == lit("where"@)
    ||| s == lit("while"@)
    ||| s == lit("async"@)
    ||| s == lit("await"@)
    ||| s == lit("dyn"@)
    ||| s == lit("abstract"@)
    ||| s == lit("become"@)
    ||| s == lit("box"@)
    ||| s == lit("do"@)
    ||| s == lit("final"@)
    ||| s == lit("macro"@)
    ||| s == lit("override"@)
    ||| s == lit("priv"@)
    ||| s == lit("typeof"@)
    ||| s == lit("unsized"@)
    ||| s == lit("virtual"@)
    ||| s == lit("yield"@)
    ||| s == lit("try"@)
    ||| s == lit("gen"@)
}

/// Whether `s` is a symbol that the C text cannot define: a word that C
/// reserves, or a type that the text itself uses. The words that C reserves
/// and that could be symbols, for they hold an underscore and start with a
/// letter, are `static_assert`, `thread_local` and `typeof_unqual`.
pub open spec fn is_reserved_symbol(s: Seq<u8>) -> bool {
    ||| s == lit("static_assert"@)
    ||| s == lit("thread_local"@)
    ||| s == lit("typeof_unqual"@)
    ||| s == lit("uint8_t"@)
    ||| s == lit("uint16_t"@)
    ||| s == lit("uint32_t"@)
    ||| s == lit("uint64_t"@)
    ||| s == lit("int8_t"@)
    ||| s == lit("int16_t"@)
    ||| s == lit("int32_t"@)
    ||| s == lit("int64_t"@)
}

/// Whether `s` may name a provider or a probe: it is an identifier and not
/// reserved.
pub open spec fn is_legal_name(s: Seq<u8>) -> bool {
    is_identifier(s) && !is_reserved(s)
}

/// Whether `s` is a word that Rust reserves.
pub fn reserved(s: &[u8]) -> (r: bool)
    ensures
        r == is_reserved(s@),
{
    spells(s, "as")
        || spells(s, "break")
        || spells(s, "const")
        || spells(s, "continue")
        || spells(s, "crate")
        || spells(s, "else")
        || spells(s, "enum")
        || spells(s, "extern")
        || spells(s, "false")
        || spells(s, "fn")
        || spells(s, "for")
        || spells(s, "if")
        || spells(s, "impl")
        || spells(s, "in")
        || spells(s, "let")
        || spells(s, "loop")
        || spells(s, "match")
        || spells(s, "mod")
        || spells(s, "move")
        || spells(s, "mut")
        || spells(s, "pub")
        || spells(s, "ref")
        || spells(s, "return")
        || spells(s, "self")
        || spells(s, "Self")
        || spells(s, "static")
        || spells(s, "struct")
        || spells(s, "super")
        || spells(s, "trait")
        || spells(s, "true")
        || spells(s, "type")
        || spells(s, "unsafe")
        || spells(s, "use")
        || spells(s, "where")
        || spells(s, "while")
        || spells(s, "async")
        || spells(s, "await")
        || spells(s, "dyn")
        || spells(s, "abstract")
        || spells(s, "become")
        || spells(s, "box")
        || spells(s, "do")
        || spells(s, "final")
        || spells(s, "macro")
        || spells(s, "override")
        || spells(s, "priv")
        || spells(s, "typeof")
        || spells(s, "unsized")
        || spells(s, "virtual")
        || spells(s, "yield")
        || spells(s, "try")
        || spells(s, "gen")
}

/// Whether `s` is a symbol that the C text cannot define.
pub fn reserved_symbol(s: &[u8]) -> (r: bool)
    ensures
        r == is_reserved_symbol(s@),
{
    spells(s, "static_assert") || spells(s, "thread_local") || spells(s, "typeof_unqual")
        || spells(s, "uint8_t") || spells(s, "uint16_t") || spells(s, "uint32_t") || spells(
        s,
        "uint64_t",
    ) || spells(s, "int8_t") || spells(s, "int16_t") || spells(s, "int32_t") || spells(
        s,
        "int64_t",
    )
}

/// Whether `s` may name a provider or a probe.
pub fn legal_name(s: &[u8]) -> (r: bool)
    ensures
        r == is_legal_name(s@),
{
    identifier(s) && !reserved(s)
}

/// The symbol of the probe at index `j` of the provider at index `i`.
pub open spec fn symbol_at(file: Seq<ProviderSpec>, i: int, j: int) -> Seq<u8> {
    symbol_of(file[i].name, file[i].probes[j].name)
}

/// Whether the symbol of the probe at index `j` of the provider at index
/// `i` is also the symbol of a probe of an earlier provider of another name.
pub open spec fn clashes(file: Seq<ProviderSpec>, i: int, j: int) -> bool {
    exists|k: int, m: int|
        0 <= k < i && 0 <= m < file[k].probes.len() && file[k].name != file[i].name
            && #[trigger] symbol_at(file, k, m) == symbol_at(file, i, j)
}

/// Whether every provider and every probe of a file is named by an
/// identifier.
pub open spec fn well_named(file: Seq<ProviderSpec>) -> bool {
    forall|i: int|
        0 <= i < file.len() ==> is_identifier(#[trigger] file[i].name) && probes_well_named(
            file[i].probes,
        )
}

/// Whether every probe of a list is named by an identifier.
pub open spec fn probes_well_named(probes: Seq<ProbeSpec>) -> bool {
    forall|j: int| 0 <= j < probes.len() ==> is_identifier(#[trigger] probes[j].name)
}

/// Whether the probe at index `j` of the provider at index `i` breaks no
/// rule.
pub open spec fn probe_ok(file: Seq<ProviderSpec>, i: int, j: int) -> bool {
    &&& is_legal_name(file[i].probes[j].name)
    &&& !repeats(probe_names(file[i]), j)
    &&& !is_reserved_symbol(symbol_at(file, i, j))
    &&& !clashes(file, i, j)
    &&& file[i].probes[j].args.len() <= MAX_ARITY
}

/// Whether the provider at index `i` of `file` breaks no rule, and none of
/// its probes does.
pub open spec fn provider_ok(file: Seq<ProviderSpec>, i: int) -> bool {
    &&& is_legal_name(file[i].name)
    &&& !repeats(provider_names(file), i)
    &&& forall|j: int| 0 <= j < file[i].probes.len() ==> probe_ok(file, i, j)
}

/// Whether a file breaks no rule.
pub open spec fn valid(file: Seq<ProviderSpec>) -> bool {
    forall|i: int| 0 <= i < file.len() ==> provider_ok(file, i)
}

/// The violations of a name of kind `kind` that stands at index `i` of
/// `names`.
pub open spec fn name_violations(kind: NameKind, names: Seq<Seq<u8>>, i: int) -> Seq<Violation> {
    let invalid = if is_legal_name(names[i]) {
        Seq::<Violation>::empty()
    } else {
        seq![Violation::InvalidIdentifier { name: names[i] }]
    };
    let duplicate = if repeats(names, i) {
        seq![Violation::DuplicateName { kind, name: names[i] }]
    } else {
        Seq::<Violation>::empty()
    };
    invalid + duplicate
}

/// The violations of the symbol of the probe at index `j` of the provider
/// at index `i`.
pub open spec fn symbol_violations(file: Seq<ProviderSpec>, i: int, j: int) -> Seq<Violation> {
    let symbol = symbol_at(file, i, j);
    let invalid = if is_reserved_symbol(symbol) {
        seq![Violation::InvalidIdentifier { name: symbol }]
    } else {
        Seq::<Violation>::empty()
    };
    let duplicate = if clashes(file, i, j) {
        seq![Violation::DuplicateName { kind: NameKind::Symbol, name: symbol }]
    } else {
        Seq::<Violation>::empty()
    };
    invalid + duplicate
}

/// The violations of the probe at index `j` of the provider at index `i`.
pub open spec fn probe_violations(file: Seq<ProviderSpec>, i: int, j: int) -> Seq<Violation> {
    let probe = file[i].probes[j];
    let arity = if probe.args.len() > MAX_ARITY {
        seq![Violation::ArityTooLarge { probe: probe.name, count: probe.args.len() as int }]
    } else {
        Seq::<Violation>::empty()
    };
    name_violations(NameKind::Probe, probe_names(file[i]), j) + symbol_violations(file, i, j)
        + arity
}

/// The violations of the first `n` probes of the provider at index `i`.
pub open spec fn probes_violations(file: Seq<ProviderSpec>, i: int, n: int) -> Seq<Violation>
    decreases n,
{
    if n <= 0 {
        Seq::empty()
    } else {
        probes_violations(file, i, n - 1) + probe_violations(file, i, n - 1)
    }
}

/// The violations of the provider at index `i` of `file`.
pub open spec fn provider_violations(file: Seq<ProviderSpec>, i: int) -> Seq<Violation> {
    name_violations(NameKind::Provider, provider_names(file), i) + probes_violations(
        file,
        i,
        file[i].probes.len() as int,
    )
}

/// The violations of the first `n` providers of `file`.
pub open spec fn providers_violations(file: Seq<ProviderSpec>, n: int) -> Seq<Violation>
    decreases n,
{
    if n <= 0 {
        Seq::empty()
    } else {
        providers_violations(file, n - 1) + provider_violations(file, n - 1)
    }
}

/// All violations of a file, in the order of the file.
pub open spec fn violations(file: Seq<ProviderSpec>) -> Seq<Violation> {
    providers_violations(file, file.len() as int)
}

proof fn lemma_probes_clean(file: Seq<ProviderSpec>, i: int, n: int)
    requires
        0 <= n <= file[i].probes.len(),
    ensures
        probes_violations(file, i, n).len() == 0 <==> forall|j: int|
            0 <= j < n ==> probe_ok(file, i, j),
    decreases n,
{
    if n > 0 {
        lemma_probes_clean(file, i, n - 1);
        if probes_violations(file, i, n).len() == 0 {
            assert(probe_ok(file, i, n - 1));
        } else if probes_violations(file, i, n - 1).len() == 0 {
            assert(!probe_ok(file, i, n - 1));
        }
    }
}

proof fn lemma_providers_clean(file: Seq<ProviderSpec>, n: int)
    requires
        0 <= n <= file.len(),
    ensures
        providers_violations(file, n).len() == 0 <==> forall|i: int|
            0 <= i < n ==> provider_ok(file, i),
    decreases n,
{
    if n > 0 {
        lemma_providers_clean(file, n - 1);
        lemma_probes_clean(file, n - 1, file[n - 1].probes.len() as int);
        if providers_violations(file, n).len() == 0 {
            assert(provider_ok(file, n - 1));
        } else if providers_violations(file, n - 1).len() == 0 {
            assert(!provider_ok(file, n - 1));
        }
    }
}

/// A file is valid exactly when it has no violation.
pub proof fn lemma_valid_iff_no_violation(file: Seq<ProviderSpec>)
    ensures
        valid(file) <==> violations(file).len() == 0,
{
    lemma_providers_clean(file, file.len() as int);
}

/// In a valid file no two providers share a name, and no two probes of one
/// provider do.
pub proof fn lemma_valid_names_distinct(file: Seq<ProviderSpec>)
    requires
        valid(file),
    ensures
        forall|i: int, k: int| 0 <= k < i < file.len() ==> file[k].name != file[i].name,
        forall|i: int, j: int, k: int|
            0 <= i < file.len() && 0 <= k < j < file[i].probes.len()
                ==> file[i].probes[k].name != file[i].probes[j].name,
{
    assert forall|i: int, k: int| 0 <= k < i < file.len() implies file[k].name
        != file[i].name by {
        assert(provider_ok(file, i));
        assert(provider_names(file)[k] == file[k].name);
    }
    assert forall|i: int, j: int, k: int|
        0 <= i < file.len() && 0 <= k < j < file[i].probes.len() implies file[i].probes[k].name
        != file[i].probes[j].name by {
        assert(provider_ok(file, i));
        assert(probe_ok(file, i, j));
        assert(probe_names(file[i])[k] == file[i].probes[k].name);
    }
}

/// In a valid file no two probes share a symbol: each generated function
/// has a name of its own.
pub proof fn lemma_valid_symbols_distinct(file: Seq<ProviderSpec>)
    requires
        valid(file),
    ensures
        forall|i: int, j: int, k: int, m: int|
            0 <= i < file.len() && 0 <= j < file[i].probes.len() && 0 <= k < file.len() && 0 <= m
                < file[k].probes.len() && (i != k || j != m) ==> #[trigger] symbol_at(file, i, j)
                != #[trigger] symbol_at(file, k, m),
{
    lemma_valid_names_distinct(file);
    assert forall|i: int, j: int, k: int, m: int|
        0 <= i < file.len() && 0 <= j < file[i].probes.len() && 0 <= k < file.len() && 0 <= m
            < file[k].probes.len() && (i != k || j != m) implies #[trigger] symbol_at(file, i, j)
        != #[trigger] symbol_at(file, k, m) by {
        assert(provider_ok(file, i));
        assert(provider_ok(file, k));
        assert(probe_ok(file, i, j));
        assert(probe_ok(file, k, m));
        if symbol_at(file, i, j) == symbol_at(file, k, m) {
            if i == k {
                lemma_symbol_injective_same_length(
                    file[i].name,
                    file[i].probes[j].name,
                    file[k].name,
                    file[k].probes[m].name,
                );
            }
        }
    }
}

/// Whether the name of the provider at index `i` also stands at an earlier
/// index.
fn provider_repeats(file: &File, i: usize) -> (r: bool)
    requires
        i < file.providers.len(),
    ensures
        r == repeats(provider_names(file@), i as int),
{
    let mut k: usize = 0;
    while k < i
        invariant
            k <= i < file.providers.len(),
            forall|m: int| 0 <= m < k ==> provider_names(file@)[m] != provider_names(file@)[i as int],
        decreases i - k,
    {
        if same_bytes(file.providers[k].name.as_slice(), file.providers[i].name.as_slice()) {
            assert(provider_names(file@)[k as int] == provider_names(file@)[i as int]);
            return true;
        }
        k += 1;
    }
    false
}

/// Whether the name of the probe at index `j` also stands at an earlier
/// index.
fn probe_repeats(provider: &Provider, j: usize) -> (r: bool)
    requires
        j < provider.probes.len(),
    ensures
        r == repeats(probe_names(provider@), j as int),
{
    let mut k: usize = 0;
    while k < j
        invariant
            k <= j < provider.probes.len(),
            forall|m: int|
                0 <= m < k ==> probe_names(provider@)[m] != probe_names(provider@)[j as int],
        decreases j - k,
    {
        if same_bytes(provider.probes[k].name.as_slice(), provider.probes[j].name.as_slice()) {
            assert(probe_names(provider@)[k as int] == probe_names(provider@)[j as int]);
            return true;
        }
        k += 1;
    }
    false
}

/// Whether the symbol of the probe at index `j` of the provider at index
/// `i` is also the symbol of a probe of an earlier provider of another name.
fn symbol_clashes(file: &File, i: usize, j: usize, symbol: &Vec<u8>) -> (r: bool)
    requires
        i < file.providers.len(),
        j < file.providers[i as int].probes.len(),
        symbol@ == symbol_at(file@, i as int, j as int),
    ensures
        r == clashes(file@, i as int, j as int),
{
    let mut k: usize = 0;
    while k < i
        invariant
            k <= i < file.providers.len(),
            symbol@ == symbol_at(file@, i as int, j as int),
            forall|a: int, b: int|
                0 <= a < k && 0 <= b < file@[a].probes.len() && file@[a].name != file@[i as int].name
                    ==> #[trigger] symbol_at(file@, a, b) != symbol@,
        decreases i - k,
    {
        let other: &Provider = &file.providers[k];
        assert(file@[k as int] == other@);
        assert(file@[i as int] == file.providers[i as int]@);
        if !same_bytes(other.name.as_slice(), file.providers[i].name.as_slice()) {
            let mut m: usize = 0;
            while m < other.probes.len()
                invariant
                    m <= other.probes.len(),
                    k < i < file.providers.len(),
                    file@[k as int] == other@,
                    file@[k as int].name != file@[i as int].name,
                    symbol@ == symbol_at(file@, i as int, j as int),
                    forall|b: int| 0 <= b < m ==> #[trigger] symbol_at(file@, k as int, b) != symbol@,
                decreases other.probes.len() - m,
            {
                assert(other@.probes[m as int] == other.probes[m as int]@);
                let name = symbol_name(other.name.as_slice(), other.probes[m].name.as_slice());
                assert(name@ == symbol_at(file@, k as int, m as int));
                if same_bytes(name.as_slice(), symbol.as_slice()) {
                    return true;
                }
                m += 1;
            }
        }
        k += 1;
    }
    false
}

/// Appends the violations of the probe at index `j` of the provider at
/// index `i` to `errors`.
fn check_probe(file: &File, i: usize, j: usize, errors: &mut Vec<ValidationError>)
    requires
        i < file.providers.len(),
        j < file.providers[i as int].probes.len(),
    ensures
        violations_view(final(errors)@) == violations_view(old(errors)@) + probe_violations(
            file@,
            i as int,
            j as int,
        ),
{
    let ghost before = violations_view(errors@);
    let provider: &Provider = &file.providers[i];
    let probe: &Probe = &provider.probes[j];
    assert(file@[i as int] == provider@);
    assert(probe_names(provider@)[j as int] == probe@.name);
    assert(provider@.probes[j as int] == probe@);
    if !legal_name(probe.name.as_slice()) {
        errors.push(ValidationError::InvalidIdentifier { name: copy_bytes(probe.name.as_slice()) });
    }
    if probe_repeats(provider, j) {
        errors.push(
            ValidationError::DuplicateName {
                kind: NameKind::Probe,
                name: copy_bytes(probe.name.as_slice()),
            },
        );
    }
    assert(violations_view(errors@) =~= before + name_violations(
        NameKind::Probe,
        probe_names(file@[i as int]),
        j as int,
    ));
    let symbol = symbol_name(provider.name.as_slice(), probe.name.as_slice());
    if reserved_symbol(symbol.as_slice()) {
        errors.push(ValidationError::InvalidIdentifier { name: copy_bytes(symbol.as_slice()) });
    }
    if symbol_clashes(file, i, j, &symbol) {
        errors.push(
            ValidationError::DuplicateName {
                kind: NameKind::Symbol,
                name: copy_bytes(symbol.as_slice()),
            },
        );
    }
    assert(violations_view(errors@) =~= before + name_violations(
        NameKind::Probe,
        probe_names(file@[i as int]),
        j as int,
    ) + symbol_violations(file@, i as int, j as int));
    if probe.args.len() > MAX_ARITY {
        errors.push(
            ValidationError::ArityTooLarge {
                probe: copy_bytes(probe.name.as_slice()),
                count: probe.args.len(),
            },
        );
    }
    assert(violations_view(errors@) =~= before + probe_violations(file@, i as int, j as int));
}

/// Appends the violations of the provider at index `i` of `file` to
/// `errors`.
fn check_provider(file: &File, i: usize, errors: &mut Vec<ValidationError>)
    requires
        i < file.providers.len(),
    ensures
        violations_view(final(errors)@) == violations_view(old(errors)@) + provider_violations(
            file@,
            i as int,
        ),
{
    let ghost before = violations_view(errors@);
    let provider: &Provider = &file.providers[i];
    assert(provider_names(file@)[i as int] == provider@.name);
    assert(file@[i as int] == provider@);
    if !legal_name(provider.name.as_slice()) {
        errors.push(
            ValidationError::InvalidIdentifier { name: copy_bytes(provider.name.as_slice()) },
        );
    }
    if provider_repeats(file, i) {
        errors.push(
            ValidationError::DuplicateName {
                kind: NameKind::Provider,
                name: copy_bytes(provider.name.as_slice()),
            },
        );
    }
    assert(violations_view(errors@) =~= before + name_violations(
        NameKind::Provider,
        provider_names(file@),
        i as int,
    ));
    let mut j: usize = 0;
    while j < provider.probes.len()
        invariant
            j <= provider.probes.len(),
            i < file.providers.len(),
            provider == &file.providers[i as int],
            violations_view(errors@) == before + name_violations(
                NameKind::Provider,
                provider_names(file@),
                i as int,
            ) + probes_violations(file@, i as int, j as int),
        decreases provider.probes.len() - j,
    {
        check_probe(file, i, j, errors);
        assert(violations_view(errors@) =~= before + name_violations(
            NameKind::Provider,
            provider_names(file@),
            i as int,
        ) + probes_violations(file@, i as int, j + 1));
        j += 1;
    }
    assert(provider@.probes.len() == provider.probes.len());
    assert(violations_view(errors@) =~= before + provider_violations(file@, i as int));
}

/// Checks a file against the rules: `Ok` when it is valid, else all its
/// violations, in the order of the file.
pub fn validate(file: &File) -> (r: Result<(), Vec<ValidationError>>)
    ensures
        r is Ok <==> valid(file@),
        r matches Err(errors) ==> violations_view(errors@) == violations(file@) && errors.len()
            > 0,
{
    let mut errors: Vec<ValidationError> = Vec::new();
    let mut i: usize = 0;
    assert(violations_view(errors@) =~= Seq::empty());
    while i < file.providers.len()
        invariant
            i <= file.providers.len(),
            violations_view(errors@) == providers_violations(file@, i as int),
        decreases file.providers.len() - i,
    {
        check_provider(file, i, &mut errors);
        i += 1;
    }
    proof {
        lemma_valid_iff_no_violation(file@);
    }
    if errors.len() == 0 {
        Ok(())
    } else {
        Err(errors)
    }
}

} // verus!
