//! The parsed form of a definition file.
use crate::types::{argument_of, Argument, DataType};
use vstd::prelude::*;

verus! {

/// A probe: its name and the types of its arguments, in the order in which
/// they were declared. A probe may have no argument.
#[derive(Clone, Debug, PartialEq, Eq)]
pub struct Probe {
    pub name: Vec<u8>,
    pub args: Vec<DataType>,
}

/// A provider: its name and its probes, in the order of the file.
#[derive(Clone, Debug, PartialEq, Eq)]
pub struct Provider {
    pub name: Vec<u8>,
    pub probes: Vec<Probe>,
}

/// A definition file: its providers, in the order of the file.
#[derive(Clone, Debug, PartialEq, Eq)]
pub struct File {
    pub providers: Vec<Provider>,
}

/// What a probe is, as mathematics.
pub struct ProbeSpec {
    pub name: Seq<u8>,
    pub args: Seq<DataType>,
}

/// What a provider is, as mathematics.
pub struct ProviderSpec {
    pub name: Seq<u8>,
    pub probes: Seq<ProbeSpec>,
}

impl View for Probe {
    type V = ProbeSpec;

    open spec fn view(&self) -> ProbeSpec {
        ProbeSpec { name: self.name@, args: self.args@ }
    }
}

/// The views of a list of probes.
pub open spec fn probes_view(probes: Seq<Probe>) -> Seq<ProbeSpec> {
    Seq::new(probes.len(), |i: int| probes[i]@)
}

impl View for Provider {
    type V = ProviderSpec;

    open spec fn view(&self) -> ProviderSpec {
        ProviderSpec { name: self.name@, probes: probes_view(self.probes@) }
    }
}

/// The views of a list of providers.
pub open spec fn providers_view(providers: Seq<Provider>) -> Seq<ProviderSpec> {
    Seq::new(providers.len(), |i: int| providers[i]@)
}

impl View for File {
    type V = Seq<ProviderSpec>;

    open spec fn view(&self) -> Seq<ProviderSpec> {
        providers_view(self.providers@)
    }
}

/// The annotated arguments of a list of declared types: the argument at
/// index `i` has position `i`.
pub open spec fn arguments_of(args: Seq<DataType>) -> Seq<Argument> {
    Seq::new(args.len(), |i: int| argument_of(i, args[i]))
}

impl Probe {
    /// The arguments of this probe, each with its position and with the
    /// boundary type and the Rust type that the table gives it.
    pub fn arguments(&self) -> (r: Vec<Argument>)
        ensures
            r@ == arguments_of(self@.args),
    {
        let mut out: Vec<Argument> = Vec::new();
        let mut i: usize = 0;
        while i < self.args.len()
            invariant
                i <= self.args.len(),
                out@ == arguments_of(self@.args).take(i as int),
            decreases self.args.len() - i,
        {
            out.push(self.args[i].argument(i));
            assert(out@ =~= arguments_of(self@.args).take(i + 1));
            i += 1;
        }
        assert(out@ =~= arguments_of(self@.args));
        out
    }
}

} // verus!
