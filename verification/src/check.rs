//! The check of a firing site against the signature of its probe.
//!
//! A firing site hands a closure to the fire function of a probe; the closure
//! returns the tuple of the arguments. The types of the tuple must fit the
//! declared types: there must be as many, and each must be assignable to the
//! declared type at its position. A type is assignable to another when every
//! value of the first is a value of the second; a string is assignable to a
//! string only.
use crate::model::{Probe, ProbeSpec};
use crate::text::copy_bytes;
use crate::types::{host_of, HostType};
use vstd::prelude::*;

verus! {

/// Why a firing site does not fit its probe.
#[derive(Clone, Debug, PartialEq, Eq)]
pub enum InvocationError {
    /// The probe `probe` takes `expected` arguments and the site supplies
    /// `actual`.
    ArityMismatch { probe: Vec<u8>, expected: usize, actual: usize },
    /// The argument at `position` of the probe `probe` is declared as
    /// `expected`, to which the supplied `actual` is not assignable.
    TypeMismatch { probe: Vec<u8>, position: usize, expected: HostType, actual: HostType },
}

/// What an invocation error is, as mathematics.
pub enum Mismatch {
    Arity { probe: Seq<u8>, expected: int, actual: int },
    Type { probe: Seq<u8>, position: int, expected: HostType, actual: HostType },
}

impl View for InvocationError {
    type V = Mismatch;

    open spec fn view(&self) -> Mismatch {
        match self {
            InvocationError::ArityMismatch { probe, expected, actual } => Mismatch::Arity {
                probe: probe@,
                expected: *expected as int,
                actual: *actual as int,
            },
            InvocationError::TypeMismatch {
                probe,
                position,
                expected,
                actual,
            } => Mismatch::Type {
                probe: probe@,
                position: *position as int,
                expected: *expected,
                actual: *actual,
            },
        }
    }
}

/// Whether a value of type `from` may stand where `to` is declared: the two
/// are strings, or they are integers and `to` holds every value of `from`.
pub open spec fn assignable(from: HostType, to: HostType) -> bool {
    if from.is_integer() && to.is_integer() {
        to.least() <= from.least() && from.greatest() <= to.greatest()
    } else {
        from == to
    }
}

/// The least position at or after `from` where the supplied type is not
/// assignable to the declared type, if there is one.
pub open spec fn first_misfit(declared: Seq<HostType>, supplied: Seq<HostType>, from: int) -> Option<
    int,
>
    decreases declared.len() - from,
{
    if from < 0 || from >= declared.len() {
        None
    } else if !assignable(supplied[from], declared[from]) {
        Some(from)
    } else {
        first_misfit(declared, supplied, from + 1)
    }
}

/// The types that the fire function of a probe expects, in order.
pub open spec fn declared_types(probe: ProbeSpec) -> Seq<HostType> {
    Seq::new(probe.args.len(), |i: int| host_of(probe.args[i]))
}

/// Whether a site that supplies `supplied` fits `probe`, and if not, why:
/// the number of arguments is held first, then the types from left to right.
pub open spec fn checked(probe: ProbeSpec, supplied: Seq<HostType>) -> Result<(), Mismatch> {
    let declared = declared_types(probe);
    if supplied.len() != declared.len() {
        Err(
            Mismatch::Arity {
                probe: probe.name,
                expected: declared.len() as int,
                actual: supplied.len() as int,
            },
        )
    } else {
        match first_misfit(declared, supplied, 0) {
            Some(position) => Err(
                Mismatch::Type {
                    probe: probe.name,
                    position,
                    expected: declared[position],
                    actual: supplied[position],
                },
            ),
            None => Ok(()),
        }
    }
}

/// `first_misfit` finds a position exactly when one misfits, and then the
/// least one.
pub proof fn lemma_first_misfit(declared: Seq<HostType>, supplied: Seq<HostType>, from: int)
    requires
        0 <= from <= declared.len(),
    ensures
        match first_misfit(declared, supplied, from) {
            Some(position) => from <= position < declared.len() && !assignable(
                supplied[position],
                declared[position],
            ) && forall|k: int| from <= k < position ==> assignable(supplied[k], declared[k]),
            None => forall|k: int| from <= k < declared.len() ==> assignable(supplied[k], declared[k]),
        },
    decreases declared.len() - from,
{
    if from < declared.len() && assignable(supplied[from], declared[from]) {
        lemma_first_misfit(declared, supplied, from + 1);
    }
}

/// A site fits a probe exactly when it supplies as many arguments as the
/// probe declares, each assignable to the declared type at its position.
pub proof fn lemma_checked_ok(probe: ProbeSpec, supplied: Seq<HostType>)
    ensures
        checked(probe, supplied) is Ok <==> supplied.len() == probe.args.len() && forall|k: int|
            0 <= k < probe.args.len() ==> assignable(supplied[k], host_of(probe.args[k])),
{
    let declared = declared_types(probe);
    lemma_first_misfit(declared, supplied, 0);
    if supplied.len() == probe.args.len() {
        if checked(probe, supplied) is Ok {
            assert forall|k: int| 0 <= k < probe.args.len() implies assignable(
                supplied[k],
                host_of(probe.args[k]),
            ) by {
                assert(declared[k] == host_of(probe.args[k]));
            }
        } else {
            let position = first_misfit(declared, supplied, 0)->Some_0;
            assert(declared[position] == host_of(probe.args[position]));
        }
    }
}

/// Assignability is reflexive and transitive.
pub proof fn lemma_assignable_preorder(a: HostType, b: HostType, c: HostType)
    ensures
        assignable(a, a),
        assignable(a, b) && assignable(b, c) ==> assignable(a, c),
{
}

/// Whether a value of type `from` may stand where `to` is declared.
pub fn is_assignable(from: HostType, to: HostType) -> (r: bool)
    ensures
        r == assignable(from, to),
{
    match (from, to) {
        (HostType::Str, HostType::Str) => true,
        (HostType::Str, _) => false,
        (_, HostType::Str) => false,
        _ => {
            let from_width = from.byte_width();
            let to_width = to.byte_width();
            if from.is_signed() == to.is_signed() {
                from_width <= to_width
            } else if to.is_signed() {
                from_width < to_width
            } else {
                false
            }
        },
    }
}

/// Checks the types that a firing site supplies against the signature of
/// `probe`.
pub fn check_invocation(probe: &Probe, supplied: &[HostType]) -> (r: Result<(), InvocationError>)
    ensures
        match checked(probe@, supplied@) {
            Ok(_) => r is Ok,
            Err(e) => r is Err && r->Err_0@ == e,
        },
{
    let expected = probe.args.len();
    if supplied.len() != expected {
        return Err(
            InvocationError::ArityMismatch {
                probe: copy_bytes(probe.name.as_slice()),
                expected,
                actual: supplied.len(),
            },
        );
    }
    let ghost declared = declared_types(probe@);
    let mut i: usize = 0;
    while i < expected
        invariant
            i <= expected,
            expected == probe.args.len(),
            supplied.len() == expected,
            declared == declared_types(probe@),
            first_misfit(declared, supplied@, 0) == first_misfit(declared, supplied@, i as int),
        decreases expected - i,
    {
        let want = probe.args[i].host();
        let got = supplied[i];
        assert(declared[i as int] == want);
        if !is_assignable(got, want) {
            return Err(
                InvocationError::TypeMismatch {
                    probe: copy_bytes(probe.name.as_slice()),
                    position: i,
                    expected: want,
                    actual: got,
                },
            );
        }
        i += 1;
    }
    Ok(())
}

} // verus!
