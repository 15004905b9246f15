use usdt::model::{File, Probe, Provider};
use usdt::parser::parse;
use usdt::types::DataType;
use usdt::symbol::symbol_name;
use usdt::validate::{
    legal_name, reserved, reserved_symbol, validate, NameKind, ValidationError, MAX_ARITY,
};

fn probe(name: &str, arity: usize) -> Probe {
    Probe { name: name.as_bytes().to_vec(), args: vec![DataType::U8; arity] }
}

fn provider(name: &str, probes: Vec<Probe>) -> Provider {
    Provider { name: name.as_bytes().to_vec(), probes }
}

#[test]
fn a_plain_file_is_valid() {
    let file = parse(b"provider a { probe x(); probe y(char*); } provider b { probe x(); }").unwrap();
    assert_eq!(validate(&file), Ok(()));
    assert_eq!(validate(&File { providers: vec![] }), Ok(()));
}

#[test]
fn two_probes_of_one_name_in_a_provider() {
    let file = parse(b"provider p { probe a(); probe a(uint8_t); }").unwrap();
    assert_eq!(
        validate(&file),
        Err(vec![ValidationError::DuplicateName { kind: NameKind::Probe, name: b"a".to_vec() }])
    );
}

#[test]
fn two_providers_of_one_name() {
    let file = parse(b"provider p { } provider q { } provider p { }").unwrap();
    assert_eq!(
        validate(&file),
        Err(vec![ValidationError::DuplicateName {
            kind: NameKind::Provider,
            name: b"p".to_vec()
        }])
    );
}

#[test]
fn a_name_used_three_times_is_reported_twice() {
    let file = parse(b"provider p { probe a(); probe a(); probe a(); }").unwrap();
    let dup = ValidationError::DuplicateName { kind: NameKind::Probe, name: b"a".to_vec() };
    assert_eq!(validate(&file), Err(vec![dup.clone(), dup]));
}

#[test]
fn probes_of_different_providers_may_share_a_name() {
    let file = parse(b"provider p { probe a(); } provider q { probe a(); }").unwrap();
    assert_eq!(validate(&file), Ok(()));
}

#[test]
fn a_provider_and_its_probe_may_share_a_name() {
    let file = parse(b"provider a { probe a(); }").unwrap();
    assert_eq!(validate(&file), Ok(()));
}

#[test]
fn names_must_be_identifiers() {
    let file = File {
        providers: vec![
            provider("", vec![]),
            provider("has space", vec![probe("9lives", 0), probe("dash-ed", 0), probe("ok_1", 0)]),
            provider("_lead", vec![]),
        ],
    };
    assert_eq!(
        validate(&file),
        Err(vec![
            ValidationError::InvalidIdentifier { name: b"".to_vec() },
            ValidationError::InvalidIdentifier { name: b"has space".to_vec() },
            ValidationError::InvalidIdentifier { name: b"9lives".to_vec() },
            ValidationError::InvalidIdentifier { name: b"dash-ed".to_vec() },
            ValidationError::InvalidIdentifier { name: b"_lead".to_vec() },
        ])
    );
}

#[test]
fn at_most_thirty_two_arguments() {
    assert_eq!(MAX_ARITY, 32);
    let fits = File { providers: vec![provider("p", vec![probe("a", 32)])] };
    assert_eq!(validate(&fits), Ok(()));
    let too_many = File { providers: vec![provider("p", vec![probe("a", 33)])] };
    assert_eq!(
        validate(&too_many),
        Err(vec![ValidationError::ArityTooLarge { probe: b"a".to_vec(), count: 33 }])
    );
}

#[test]
fn all_violations_are_reported_in_the_order_of_the_file() {
    let file = File {
        providers: vec![
            provider("p", vec![probe("a", 0), probe("b!", 40), probe("a", 33)]),
            provider("p", vec![probe("b!", 0), probe("b!", 0)]),
        ],
    };
    assert_eq!(
        validate(&file),
        Err(vec![
            ValidationError::InvalidIdentifier { name: b"b!".to_vec() },
            ValidationError::ArityTooLarge { probe: b"b!".to_vec(), count: 40 },
            ValidationError::DuplicateName { kind: NameKind::Probe, name: b"a".to_vec() },
            ValidationError::ArityTooLarge { probe: b"a".to_vec(), count: 33 },
            ValidationError::DuplicateName { kind: NameKind::Provider, name: b"p".to_vec() },
            ValidationError::InvalidIdentifier { name: b"b!".to_vec() },
            ValidationError::InvalidIdentifier { name: b"b!".to_vec() },
            ValidationError::DuplicateName { kind: NameKind::Probe, name: b"b!".to_vec() },
        ])
    );
}

#[test]
fn words_that_rust_reserves_name_nothing() {
    let file = parse(b"provider struct { probe fn(); probe ok(); } provider good { probe Self(); probe type(uint8_t); }").unwrap();
    assert_eq!(
        validate(&file),
        Err(vec![
            ValidationError::InvalidIdentifier { name: b"struct".to_vec() },
            ValidationError::InvalidIdentifier { name: b"fn".to_vec() },
            ValidationError::InvalidIdentifier { name: b"Self".to_vec() },
            ValidationError::InvalidIdentifier { name: b"type".to_vec() },
        ])
    );
}

#[test]
fn every_reserved_word_is_refused() {
    let words = [
        "as", "break", "const", "continue", "crate", "else", "enum", "extern", "false", "fn",
        "for", "if", "impl", "in", "let", "loop", "match", "mod", "move", "mut", "pub", "ref",
        "return", "self", "Self", "static", "struct", "super", "trait", "true", "type", "unsafe",
        "use", "where", "while", "async", "await", "dyn", "abstract", "become", "box", "do",
        "final", "macro", "override", "priv", "typeof", "unsized", "virtual", "yield", "try",
        "gen",
    ];
    for word in words {
        assert!(reserved(word.as_bytes()), "{}", word);
        assert!(!legal_name(word.as_bytes()), "{}", word);
        let as_provider = File { providers: vec![provider(word, vec![probe("a", 0)])] };
        assert_eq!(
            validate(&as_provider),
            Err(vec![ValidationError::InvalidIdentifier { name: word.as_bytes().to_vec() }])
        );
        let as_probe = File { providers: vec![provider("p", vec![probe(word, 0)])] };
        assert_eq!(
            validate(&as_probe),
            Err(vec![ValidationError::InvalidIdentifier { name: word.as_bytes().to_vec() }])
        );
    }
}

#[test]
fn words_close_to_reserved_ones_are_names() {
    for word in ["structs", "Fn", "union", "selfish", "r", "a_s", "TYPE", "provider", "probe"] {
        assert!(!reserved(word.as_bytes()), "{}", word);
        assert!(legal_name(word.as_bytes()), "{}", word);
    }
    assert!(!legal_name(b""));
    assert!(!legal_name(b"9"));
    let file = parse(b"provider structs { probe Fn(); probe union(); }").unwrap();
    assert_eq!(validate(&file), Ok(()));
}

#[test]
fn two_probes_of_one_symbol() {
    let file = parse(b"provider a_b { probe c(); } provider a { probe b(); probe b_c(uint8_t); }").unwrap();
    assert_eq!(
        validate(&file),
        Err(vec![ValidationError::DuplicateName {
            kind: NameKind::Symbol,
            name: b"a_b_c".to_vec()
        }])
    );
    let other_way = parse(b"provider a { probe b_c(); } provider a_b { probe c(); }").unwrap();
    assert_eq!(
        validate(&other_way),
        Err(vec![ValidationError::DuplicateName {
            kind: NameKind::Symbol,
            name: b"a_b_c".to_vec()
        }])
    );
}

#[test]
fn a_symbol_shared_three_times_is_reported_twice() {
    let file = parse(b"provider a { probe b_c_d(); } provider a_b { probe c_d(); } provider a_b_c { probe d(); }").unwrap();
    let dup = ValidationError::DuplicateName { kind: NameKind::Symbol, name: b"a_b_c_d".to_vec() };
    assert_eq!(validate(&file), Err(vec![dup.clone(), dup]));
}

#[test]
fn providers_of_one_name_are_reported_once() {
    let file = parse(b"provider p { probe a(); } provider p { probe a(); }").unwrap();
    assert_eq!(
        validate(&file),
        Err(vec![ValidationError::DuplicateName {
            kind: NameKind::Provider,
            name: b"p".to_vec()
        }])
    );
}

#[test]
fn symbols_that_c_reserves() {
    assert!(reserved_symbol(b"thread_local"));
    assert!(reserved_symbol(b"static_assert"));
    assert!(reserved_symbol(b"typeof_unqual"));
    for name in ["uint8_t", "uint16_t", "uint32_t", "uint64_t", "int8_t", "int16_t", "int32_t", "int64_t"] {
        assert!(reserved_symbol(name.as_bytes()), "{}", name);
    }
    assert!(!reserved_symbol(b"uint128_t"));
    assert!(!reserved_symbol(b"char"));
    assert!(!reserved_symbol(b"thread_locals"));
    assert!(!reserved_symbol(b"thread"));
    let file = parse(b"provider thread { probe local(); probe global(); }").unwrap();
    assert_eq!(
        validate(&file),
        Err(vec![ValidationError::InvalidIdentifier { name: b"thread_local".to_vec() }])
    );
    let file = parse(b"provider uint8 { probe t(uint8_t); }").unwrap();
    assert_eq!(
        validate(&file),
        Err(vec![ValidationError::InvalidIdentifier { name: b"uint8_t".to_vec() }])
    );
    let file = parse(b"provider static { probe assert(); }").unwrap();
    assert_eq!(
        validate(&file),
        Err(vec![
            ValidationError::InvalidIdentifier { name: b"static".to_vec() },
            ValidationError::InvalidIdentifier { name: b"static_assert".to_vec() },
        ])
    );
}

#[test]
fn the_symbols_of_a_valid_file_are_distinct() {
    let file = parse(b"provider a { probe b(); probe b_c(); } provider a_b { probe d(); probe c_(); } provider ab { probe c(); }").unwrap();
    assert_eq!(validate(&file), Ok(()));
    let mut symbols = Vec::new();
    for provider in &file.providers {
        for probe in &provider.probes {
            let symbol = symbol_name(&provider.name, &probe.name);
            assert!(!symbols.contains(&symbol));
            symbols.push(symbol);
        }
    }
    assert_eq!(symbols.len(), 5);
}
