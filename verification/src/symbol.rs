//! The names of the generated functions.
//!
//! The function of a probe is named by the name of its provider, an
//! underscore, and the name of the probe. The three artifacts meet in this
//! name, and the tracing tools find the function by it, so nothing here may
//! change from one release to the next.
//!
//! Names may hold underscores themselves, so the symbol does not always tell
//! where the name of the provider ends: the probe `c` of a provider `a_b` and
//! the probe `b_c` of a provider `a` share the symbol `a_b_c`. Symbols are
//! distinct within one provider, among providers whose names have one
//! length, and among providers whose names hold no underscore. What is left
//! is for the validation to find: a file in which two probes share a symbol
//! is not valid, so in a valid file each probe has a symbol of its own.
use crate::text::{is_identifier, is_word_byte, push_bytes};
use vstd::prelude::*;

verus! {

/// The symbol of the probe `probe` of the provider `provider`.
pub open spec fn symbol_of(provider: Seq<u8>, probe: Seq<u8>) -> Seq<u8> {
    provider + seq![95u8] + probe
}

/// Whether the byte `b` occurs in `s`.
pub open spec fn has_byte(s: Seq<u8>, b: u8) -> bool {
    exists|i: int| 0 <= i < s.len() && #[trigger] s[i] == b
}

/// The symbol of the probe `probe` of the provider `provider`.
pub fn symbol_name(provider: &[u8], probe: &[u8]) -> (r: Vec<u8>)
    ensures
        r@ == symbol_of(provider@, probe@),
{
    let mut out: Vec<u8> = Vec::new();
    push_bytes(&mut out, provider);
    out.push(95);
    push_bytes(&mut out, probe);
    assert(out@ =~= symbol_of(provider@, probe@));
    out
}

/// The symbol of two identifiers is an identifier.
pub proof fn lemma_symbol_is_identifier(provider: Seq<u8>, probe: Seq<u8>)
    requires
        is_identifier(provider),
        is_identifier(probe),
    ensures
        is_identifier(symbol_of(provider, probe)),
{
    let s = symbol_of(provider, probe);
    assert(s[0] == provider[0]);
    assert forall|i: int| 0 <= i < s.len() implies is_word_byte(#[trigger] s[i]) by {
        if i < provider.len() {
            assert(s[i] == provider[i]);
        } else if i > provider.len() {
            assert(s[i] == probe[i - provider.len() - 1]);
        }
    }
}

/// Two probes whose providers have names of one length have the same symbol
/// only if they have the same names. So within one provider, and among
/// providers of equal length, different probes get different symbols.
pub proof fn lemma_symbol_injective_same_length(
    provider1: Seq<u8>,
    probe1: Seq<u8>,
    provider2: Seq<u8>,
    probe2: Seq<u8>,
)
    requires
        provider1.len() == provider2.len(),
        symbol_of(provider1, probe1) == symbol_of(provider2, probe2),
    ensures
        provider1 == provider2,
        probe1 == probe2,
{
    let s1 = symbol_of(provider1, probe1);
    let s2 = symbol_of(provider2, probe2);
    let n = provider1.len() as int;
    assert(s1.len() == s2.len());
    assert forall|i: int| 0 <= i < n implies provider1[i] == provider2[i] by {
        assert(s1[i] == provider1[i]);
        assert(s2[i] == provider2[i]);
    }
    assert(provider1 =~= provider2);
    assert forall|i: int| 0 <= i < probe1.len() implies probe1[i] == probe2[i] by {
        assert(s1[n + 1 + i] == probe1[i]);
        assert(s2[n + 1 + i] == probe2[i]);
    }
    assert(probe1 =~= probe2);
}

/// Two probes whose providers have names without an underscore have the
/// same symbol only if they have the same names.
pub proof fn lemma_symbol_injective_plain_providers(
    provider1: Seq<u8>,
    probe1: Seq<u8>,
    provider2: Seq<u8>,
    probe2: Seq<u8>,
)
    requires
        !has_byte(provider1, 95),
        !has_byte(provider2, 95),
        symbol_of(provider1, probe1) == symbol_of(provider2, probe2),
    ensures
        provider1 == provider2,
        probe1 == probe2,
{
    let s1 = symbol_of(provider1, probe1);
    let s2 = symbol_of(provider2, probe2);
    if provider1.len() < provider2.len() {
        assert(s1[provider1.len() as int] == 95);
        assert(s2[provider1.len() as int] == provider2[provider1.len() as int]);
        assert(false);
    }
    if provider2.len() < provider1.len() {
        assert(s2[provider2.len() as int] == 95);
        assert(s1[provider2.len() as int] == provider1[provider2.len() as int]);
        assert(false);
    }
    lemma_symbol_injective_same_length(provider1, probe1, provider2, probe2);
}

} // verus!
