use usdt::model::{File, Probe, Provider};
use usdt::parser::{parse, ParseError};
use usdt::types::DataType;

fn probe(name: &str, args: &[DataType]) -> Probe {
    Probe { name: name.as_bytes().to_vec(), args: args.to_vec() }
}

fn provider(name: &str, probes: Vec<Probe>) -> Provider {
    Provider { name: name.as_bytes().to_vec(), probes }
}

#[test]
fn parses_a_provider_with_one_probe() {
    let file = parse(b"provider test { probe start(uint8_t, char*); };").unwrap();
    assert_eq!(
        file,
        File {
            providers: vec![provider(
                "test",
                vec![probe("start", &[DataType::U8, DataType::Str])]
            )]
        }
    );
}

#[test]
fn parses_a_probe_without_arguments() {
    let file = parse(b"provider my_provider {\n    probe my_probe();\n}\n").unwrap();
    assert_eq!(
        file,
        File { providers: vec![provider("my_provider", vec![probe("my_probe", &[])])] }
    );
}

#[test]
fn parses_every_type_of_the_table() {
    let src = b"provider t { probe all(uint8_t, uint16_t, uint32_t, uint64_t, int8_t, int16_t, int32_t, int64_t, char*); }";
    let file = parse(src).unwrap();
    assert_eq!(
        file.providers[0].probes[0].args,
        vec![
            DataType::U8,
            DataType::U16,
            DataType::U32,
            DataType::U64,
            DataType::I8,
            DataType::I16,
            DataType::I32,
            DataType::I64,
            DataType::Str,
        ]
    );
}

#[test]
fn accepts_a_trailing_comma() {
    let file = parse(b"provider p { probe a(uint8_t, int64_t,); }").unwrap();
    assert_eq!(file.providers[0].probes[0].args, vec![DataType::U8, DataType::I64]);
    let file = parse(b"provider p { probe a(char*,); }").unwrap();
    assert_eq!(file.providers[0].probes[0].args, vec![DataType::Str]);
}

#[test]
fn rejects_a_comma_without_a_type() {
    assert_eq!(
        parse(b"provider p { probe a(,); }").unwrap_err(),
        ParseError::UnexpectedToken { pos: 21 }
    );
    assert_eq!(
        parse(b"provider p { probe a(uint8_t,,); }").unwrap_err(),
        ParseError::UnexpectedToken { pos: 29 }
    );
}

#[test]
fn a_star_may_stand_apart_from_its_word() {
    let file = parse(b"provider p { probe a(char *, char\n/* the address */ *); }").unwrap();
    assert_eq!(file.providers[0].probes[0].args, vec![DataType::Str, DataType::Str]);
}

#[test]
fn keeps_the_order_of_the_file() {
    let src = b"provider b { probe z(); probe a(); } provider a { probe m(); }";
    let file = parse(src).unwrap();
    assert_eq!(
        file,
        File {
            providers: vec![
                provider("b", vec![probe("z", &[]), probe("a", &[])]),
                provider("a", vec![probe("m", &[])]),
            ]
        }
    );
}

#[test]
fn the_semicolon_after_a_provider_is_optional() {
    let with = parse(b"provider p { probe a(); };").unwrap();
    let without = parse(b"provider p { probe a(); }").unwrap();
    let apart = parse(b"provider p { probe a(); } /* end */ ;").unwrap();
    assert_eq!(with, without);
    assert_eq!(with, apart);
}

#[test]
fn an_empty_text_declares_nothing() {
    assert_eq!(parse(b"").unwrap(), File { providers: vec![] });
    assert_eq!(parse(b" \t\r\n// nothing here").unwrap(), File { providers: vec![] });
    assert_eq!(parse(b"/* nor here */\n").unwrap(), File { providers: vec![] });
}

#[test]
fn a_provider_may_be_empty() {
    assert_eq!(
        parse(b"provider p {}").unwrap(),
        File { providers: vec![provider("p", vec![])] }
    );
}

#[test]
fn comments_count_as_gaps() {
    let src = b"// a provider\nprovider/* named */p{probe/**/a(/* none */);// done\n}";
    assert_eq!(
        parse(src).unwrap(),
        File { providers: vec![provider("p", vec![probe("a", &[])])] }
    );
}

#[test]
fn a_comment_may_hold_any_byte() {
    let src = b"/* \xff\xfe { } probe */ provider p { } // \x80";
    assert_eq!(parse(src).unwrap(), File { providers: vec![provider("p", vec![])] });
}

#[test]
fn a_keyword_needs_a_gap_before_the_name() {
    assert_eq!(
        parse(b"providerp { }").unwrap_err(),
        ParseError::UnexpectedToken { pos: 0 }
    );
    assert_eq!(
        parse(b"provider p { probea(); }").unwrap_err(),
        ParseError::UnexpectedToken { pos: 13 }
    );
}

#[test]
fn a_keyword_may_serve_as_a_name() {
    assert_eq!(
        parse(b"provider provider { probe probe(); }").unwrap(),
        File { providers: vec![provider("provider", vec![probe("probe", &[])])] }
    );
}

#[test]
fn a_name_starts_with_a_letter() {
    assert_eq!(
        parse(b"provider 1p { }").unwrap_err(),
        ParseError::UnexpectedToken { pos: 9 }
    );
    assert_eq!(
        parse(b"provider _p { }").unwrap_err(),
        ParseError::UnexpectedToken { pos: 9 }
    );
    assert_eq!(
        parse(b"provider p { probe 9(); }").unwrap_err(),
        ParseError::UnexpectedToken { pos: 19 }
    );
}

#[test]
fn unknown_type_is_reported_with_its_position() {
    let err = parse(b"provider p { probe a(uint8_t, float); }").unwrap_err();
    assert_eq!(err, ParseError::UnknownType { name: b"float".to_vec(), pos: 30 });
}

#[test]
fn unknown_pointer_type_is_reported_with_its_star() {
    let err = parse(b"provider p { probe a(uint8_t *); }").unwrap_err();
    assert_eq!(err, ParseError::UnknownType { name: b"uint8_t*".to_vec(), pos: 21 });
    let err = parse(b"provider p { probe a(char); }").unwrap_err();
    assert_eq!(err, ParseError::UnknownType { name: b"char".to_vec(), pos: 21 });
}

#[test]
fn unexpected_token_is_reported_with_its_position() {
    assert_eq!(parse(b"probe a();").unwrap_err(), ParseError::UnexpectedToken { pos: 0 });
    assert_eq!(
        parse(b"provider p [ ]").unwrap_err(),
        ParseError::UnexpectedToken { pos: 11 }
    );
    assert_eq!(
        parse(b"provider p { probe a() }").unwrap_err(),
        ParseError::UnexpectedToken { pos: 23 }
    );
    assert_eq!(
        parse(b"provider p { probe a(uint8_t int8_t); }").unwrap_err(),
        ParseError::UnexpectedToken { pos: 29 }
    );
    assert_eq!(
        parse(b"provider p { } }").unwrap_err(),
        ParseError::UnexpectedToken { pos: 15 }
    );
    assert_eq!(
        parse(b"provider p { } \xc3\xa9").unwrap_err(),
        ParseError::UnexpectedToken { pos: 15 }
    );
}

#[test]
fn a_text_that_ends_early_is_reported_at_its_end() {
    assert_eq!(parse(b"provider").unwrap_err(), ParseError::UnexpectedToken { pos: 8 });
    assert_eq!(parse(b"provider p").unwrap_err(), ParseError::UnexpectedToken { pos: 10 });
    assert_eq!(
        parse(b"provider p { probe a(uint8_t").unwrap_err(),
        ParseError::UnexpectedToken { pos: 28 }
    );
}

#[test]
fn unterminated_provider_is_reported_at_its_brace() {
    assert_eq!(parse(b"provider p {").unwrap_err(), ParseError::UnterminatedBlock { pos: 11 });
    assert_eq!(
        parse(b"provider p { probe a(); ").unwrap_err(),
        ParseError::UnterminatedBlock { pos: 11 }
    );
    assert_eq!(
        parse(b"provider a { } provider b\n{\n  probe x();\n").unwrap_err(),
        ParseError::UnterminatedBlock { pos: 26 }
    );
}

#[test]
fn unterminated_comment_is_reported_at_its_start() {
    assert_eq!(parse(b"/* no end").unwrap_err(), ParseError::UnterminatedBlock { pos: 0 });
    assert_eq!(parse(b"/*/").unwrap_err(), ParseError::UnterminatedBlock { pos: 0 });
    assert_eq!(
        parse(b"provider p { /* probe a(); }").unwrap_err(),
        ParseError::UnterminatedBlock { pos: 13 }
    );
}

#[test]
fn parsing_stops_at_the_first_error() {
    let err = parse(b"provider p { probe a(float); probe b(double); } provider 2 { }").unwrap_err();
    assert_eq!(err, ParseError::UnknownType { name: b"float".to_vec(), pos: 21 });
}
