use usdt::types::{AbiType, Argument, DataType, HostType, Width};

const ALL: [DataType; 9] = [
    DataType::U8,
    DataType::U16,
    DataType::U32,
    DataType::U64,
    DataType::I8,
    DataType::I16,
    DataType::I32,
    DataType::I64,
    DataType::Str,
];

fn text(v: Vec<u8>) -> String {
    String::from_utf8(v).unwrap()
}

#[test]
fn the_table_maps_each_type() {
    assert_eq!(DataType::U8.abi(), AbiType::Unsigned(Width::W8));
    assert_eq!(DataType::U16.abi(), AbiType::Unsigned(Width::W16));
    assert_eq!(DataType::U32.abi(), AbiType::Unsigned(Width::W32));
    assert_eq!(DataType::U64.abi(), AbiType::Unsigned(Width::W64));
    assert_eq!(DataType::I8.abi(), AbiType::Signed(Width::W8));
    assert_eq!(DataType::I16.abi(), AbiType::Signed(Width::W16));
    assert_eq!(DataType::I32.abi(), AbiType::Signed(Width::W32));
    assert_eq!(DataType::I64.abi(), AbiType::Signed(Width::W64));
    assert_eq!(DataType::Str.abi(), AbiType::Pointer);
    assert_eq!(DataType::U8.host(), HostType::U8);
    assert_eq!(DataType::U16.host(), HostType::U16);
    assert_eq!(DataType::U32.host(), HostType::U32);
    assert_eq!(DataType::U64.host(), HostType::U64);
    assert_eq!(DataType::I8.host(), HostType::I8);
    assert_eq!(DataType::I16.host(), HostType::I16);
    assert_eq!(DataType::I32.host(), HostType::I32);
    assert_eq!(DataType::I64.host(), HostType::I64);
    assert_eq!(DataType::Str.host(), HostType::Str);
}

#[test]
fn byte_widths() {
    let widths: Vec<usize> = ALL.iter().map(|d| d.byte_width()).collect();
    assert_eq!(widths, vec![1, 2, 4, 8, 1, 2, 4, 8, 8]);
    for d in ALL {
        assert_eq!(d.abi().byte_width(), d.host().byte_width());
        assert_eq!(d.abi().is_signed(), d.host().is_signed());
    }
    assert!(DataType::I16.abi().is_signed());
    assert!(!DataType::U16.abi().is_signed());
    assert!(!DataType::Str.abi().is_signed());
}

#[test]
fn the_table_is_injective() {
    for a in ALL {
        for b in ALL {
            if a != b {
                assert_ne!(a.abi(), b.abi());
                assert_ne!(a.host(), b.host());
            }
        }
    }
}

#[test]
fn names_in_a_definition_file() {
    let names: Vec<String> = ALL
        .iter()
        .map(|d| {
            let mut out = Vec::new();
            d.push_name(&mut out);
            text(out)
        })
        .collect();
    assert_eq!(
        names,
        vec![
            "uint8_t", "uint16_t", "uint32_t", "uint64_t", "int8_t", "int16_t", "int32_t",
            "int64_t", "char*"
        ]
    );
    for (d, name) in ALL.iter().zip(names.iter()) {
        assert_eq!(DataType::from_name(name.as_bytes()), Some(*d));
    }
}

#[test]
fn from_name_knows_the_table_only() {
    assert_eq!(DataType::from_name(b"float"), None);
    assert_eq!(DataType::from_name(b""), None);
    assert_eq!(DataType::from_name(b"uint8_t "), None);
    assert_eq!(DataType::from_name(b"UINT8_T"), None);
    assert_eq!(DataType::from_name(b"char"), None);
    assert_eq!(DataType::from_name(b"int"), None);
}

#[test]
fn names_in_c_and_in_rust() {
    let mut out = Vec::new();
    for d in ALL {
        d.abi().push_c_name(&mut out);
        out.push(b' ');
    }
    assert_eq!(
        text(out),
        "uint8_t uint16_t uint32_t uint64_t int8_t int16_t int32_t int64_t const char* "
    );
    let mut out = Vec::new();
    for d in ALL {
        d.abi().push_ffi_name(&mut out);
        out.push(b' ');
    }
    assert_eq!(text(out), "u8 u16 u32 u64 i8 i16 i32 i64 *const ::std::os::raw::c_char ");
    let mut out = Vec::new();
    for d in ALL {
        d.host().push_name(&mut out);
        out.push(b' ');
    }
    assert_eq!(text(out), "u8 u16 u32 u64 i8 i16 i32 i64 &str ");
}

#[test]
fn an_argument_carries_its_derived_types() {
    assert_eq!(
        DataType::I32.argument(3),
        Argument {
            position: 3,
            dsl: DataType::I32,
            abi: AbiType::Signed(Width::W32),
            host: HostType::I32
        }
    );
}

#[test]
fn store_gives_the_bit_pattern() {
    assert_eq!(DataType::U8.abi().store(255), Some(0xff));
    assert_eq!(DataType::U8.abi().store(0), Some(0));
    assert_eq!(DataType::I8.abi().store(-1), Some(0xff));
    assert_eq!(DataType::I8.abi().store(-128), Some(0x80));
    assert_eq!(DataType::I8.abi().store(127), Some(0x7f));
    assert_eq!(DataType::I16.abi().store(-2), Some(0xfffe));
    assert_eq!(DataType::I32.abi().store(-1), Some(0xffff_ffff));
    assert_eq!(DataType::I64.abi().store(-1), Some(u64::MAX));
    assert_eq!(DataType::I64.abi().store(i64::MIN as i128), Some(0x8000_0000_0000_0000));
    assert_eq!(DataType::U64.abi().store(u64::MAX as i128), Some(u64::MAX));
    assert_eq!(DataType::Str.abi().store(0x7fff_0000_1000), Some(0x7fff_0000_1000));
}

#[test]
fn store_refuses_what_does_not_fit() {
    assert_eq!(DataType::U8.abi().store(256), None);
    assert_eq!(DataType::U8.abi().store(-1), None);
    assert_eq!(DataType::I8.abi().store(128), None);
    assert_eq!(DataType::I8.abi().store(-129), None);
    assert_eq!(DataType::U16.abi().store(65536), None);
    assert_eq!(DataType::I32.abi().store(0x8000_0000), None);
    assert_eq!(DataType::U64.abi().store(u64::MAX as i128 + 1), None);
    assert_eq!(DataType::I64.abi().store(i64::MIN as i128 - 1), None);
    assert_eq!(DataType::I64.abi().store(i64::MAX as i128 + 1), None);
    assert_eq!(DataType::Str.abi().store(-1), None);
}

#[test]
fn load_reads_the_value() {
    assert_eq!(DataType::U8.abi().load(0xff), Some(255));
    assert_eq!(DataType::I8.abi().load(0xff), Some(-1));
    assert_eq!(DataType::I8.abi().load(0x80), Some(-128));
    assert_eq!(DataType::I8.abi().load(0x7f), Some(127));
    assert_eq!(DataType::I64.abi().load(u64::MAX), Some(-1));
    assert_eq!(DataType::U64.abi().load(u64::MAX), Some(u64::MAX as i128));
    assert_eq!(DataType::U8.abi().load(0x100), None);
    assert_eq!(DataType::I16.abi().load(0x1_0000), None);
    assert_eq!(DataType::U32.abi().load(0x1_0000_0000), None);
}

#[test]
fn extreme_values_cross_the_boundary_unchanged() {
    let extremes: [(DataType, i128, i128); 9] = [
        (DataType::U8, 0, u8::MAX as i128),
        (DataType::U16, 0, u16::MAX as i128),
        (DataType::U32, 0, u32::MAX as i128),
        (DataType::U64, 0, u64::MAX as i128),
        (DataType::I8, i8::MIN as i128, i8::MAX as i128),
        (DataType::I16, i16::MIN as i128, i16::MAX as i128),
        (DataType::I32, i32::MIN as i128, i32::MAX as i128),
        (DataType::I64, i64::MIN as i128, i64::MAX as i128),
        (DataType::Str, 0, u64::MAX as i128),
    ];
    for (d, least, greatest) in extremes {
        for value in [least, greatest, least + 1, greatest - 1] {
            let bits = d.abi().store(value).unwrap();
            assert_eq!(d.abi().load(bits), Some(value));
        }
        assert_eq!(d.abi().store(least - 1), None);
        assert_eq!(d.abi().store(greatest + 1), None);
    }
    assert_eq!(DataType::I32.abi().store(i32::MIN as i128), Some(i32::MIN as u32 as u64));
    assert_eq!(DataType::I16.abi().store(i16::MIN as i128), Some(i16::MIN as u16 as u64));
    assert_eq!(DataType::I64.abi().store(i64::MAX as i128), Some(i64::MAX as u64));
}

#[test]
fn max_pattern_is_all_ones() {
    assert_eq!(AbiType::Unsigned(Width::W8).max_pattern(), 0xff);
    assert_eq!(AbiType::Signed(Width::W16).max_pattern(), 0xffff);
    assert_eq!(AbiType::Signed(Width::W32).max_pattern(), 0xffff_ffff);
    assert_eq!(AbiType::Unsigned(Width::W64).max_pattern(), u64::MAX);
    assert_eq!(AbiType::Pointer.max_pattern(), u64::MAX);
}
