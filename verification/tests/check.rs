use usdt::check::{check_invocation, is_assignable, InvocationError};
use usdt::parser::parse;
use usdt::types::HostType;

const ALL: [HostType; 9] = [
    HostType::U8,
    HostType::U16,
    HostType::U32,
    HostType::U64,
    HostType::I8,
    HostType::I16,
    HostType::I32,
    HostType::I64,
    HostType::Str,
];

#[test]
fn zero_argument_probe_rejects_a_value() {
    let file = parse(b"provider my_provider { probe my_probe(); }").unwrap();
    let probe = &file.providers[0].probes[0];
    assert_eq!(
        check_invocation(probe, &[HostType::Str]),
        Err(InvocationError::ArityMismatch {
            probe: b"my_probe".to_vec(),
            expected: 0,
            actual: 1
        })
    );
    assert_eq!(check_invocation(probe, &[]), Ok(()));
}

#[test]
fn too_few_and_too_many_arguments() {
    let file = parse(b"provider p { probe a(uint8_t, char*); }").unwrap();
    let probe = &file.providers[0].probes[0];
    assert_eq!(
        check_invocation(probe, &[HostType::U8]),
        Err(InvocationError::ArityMismatch { probe: b"a".to_vec(), expected: 2, actual: 1 })
    );
    assert_eq!(
        check_invocation(probe, &[HostType::U8, HostType::Str, HostType::U8]),
        Err(InvocationError::ArityMismatch { probe: b"a".to_vec(), expected: 2, actual: 3 })
    );
    assert_eq!(
        check_invocation(probe, &[]),
        Err(InvocationError::ArityMismatch { probe: b"a".to_vec(), expected: 2, actual: 0 })
    );
}

#[test]
fn the_number_of_arguments_is_held_before_their_types() {
    let file = parse(b"provider p { probe a(uint8_t); }").unwrap();
    let probe = &file.providers[0].probes[0];
    assert_eq!(
        check_invocation(probe, &[HostType::Str, HostType::Str]),
        Err(InvocationError::ArityMismatch { probe: b"a".to_vec(), expected: 1, actual: 2 })
    );
}

#[test]
fn identical_types_fit() {
    let file = parse(b"provider p { probe a(uint8_t, int64_t, char*); }").unwrap();
    let probe = &file.providers[0].probes[0];
    assert_eq!(check_invocation(probe, &[HostType::U8, HostType::I64, HostType::Str]), Ok(()));
}

#[test]
fn narrower_types_fit() {
    let file = parse(b"provider p { probe a(uint32_t, int64_t, int16_t); }").unwrap();
    let probe = &file.providers[0].probes[0];
    assert_eq!(check_invocation(probe, &[HostType::U8, HostType::U32, HostType::I8]), Ok(()));
}

#[test]
fn the_first_misfit_is_reported() {
    let file = parse(b"provider p { probe a(uint8_t, int8_t, char*, uint16_t); }").unwrap();
    let probe = &file.providers[0].probes[0];
    assert_eq!(
        check_invocation(
            probe,
            &[HostType::U8, HostType::U8, HostType::I32, HostType::Str]
        ),
        Err(InvocationError::TypeMismatch {
            probe: b"a".to_vec(),
            position: 1,
            expected: HostType::I8,
            actual: HostType::U8
        })
    );
    assert_eq!(
        check_invocation(
            probe,
            &[HostType::U8, HostType::I8, HostType::I32, HostType::Str]
        ),
        Err(InvocationError::TypeMismatch {
            probe: b"a".to_vec(),
            position: 2,
            expected: HostType::Str,
            actual: HostType::I32
        })
    );
    assert_eq!(
        check_invocation(
            probe,
            &[HostType::U8, HostType::I8, HostType::Str, HostType::U32]
        ),
        Err(InvocationError::TypeMismatch {
            probe: b"a".to_vec(),
            position: 3,
            expected: HostType::U16,
            actual: HostType::U32
        })
    );
}

#[test]
fn assignable_means_every_value_fits() {
    let range = |h: HostType| -> Option<(i128, i128)> {
        match h {
            HostType::U8 => Some((0, u8::MAX as i128)),
            HostType::U16 => Some((0, u16::MAX as i128)),
            HostType::U32 => Some((0, u32::MAX as i128)),
            HostType::U64 => Some((0, u64::MAX as i128)),
            HostType::I8 => Some((i8::MIN as i128, i8::MAX as i128)),
            HostType::I16 => Some((i16::MIN as i128, i16::MAX as i128)),
            HostType::I32 => Some((i32::MIN as i128, i32::MAX as i128)),
            HostType::I64 => Some((i64::MIN as i128, i64::MAX as i128)),
            HostType::Str => None,
        }
    };
    for from in ALL {
        for to in ALL {
            let expected = match (range(from), range(to)) {
                (Some((a, b)), Some((c, d))) => c <= a && b <= d,
                (None, None) => true,
                _ => false,
            };
            assert_eq!(is_assignable(from, to), expected, "{:?} to {:?}", from, to);
        }
    }
}

#[test]
fn assignable_on_chosen_pairs() {
    assert!(is_assignable(HostType::U8, HostType::U8));
    assert!(is_assignable(HostType::U8, HostType::U64));
    assert!(is_assignable(HostType::U8, HostType::I16));
    assert!(is_assignable(HostType::U32, HostType::I64));
    assert!(is_assignable(HostType::I8, HostType::I64));
    assert!(!is_assignable(HostType::U8, HostType::I8));
    assert!(!is_assignable(HostType::I8, HostType::U8));
    assert!(!is_assignable(HostType::I8, HostType::U64));
    assert!(!is_assignable(HostType::U64, HostType::I64));
    assert!(!is_assignable(HostType::U16, HostType::U8));
    assert!(!is_assignable(HostType::Str, HostType::U64));
    assert!(!is_assignable(HostType::U64, HostType::Str));
    assert!(is_assignable(HostType::Str, HostType::Str));
}
