use usdt::check::InvocationError;
use usdt::parser::ParseError;
use usdt::pipeline::{generate, Error};
use usdt::report::locate;
use usdt::types::HostType;
use usdt::validate::{NameKind, ValidationError};

fn text(v: Vec<u8>) -> String {
    String::from_utf8(v).unwrap()
}

#[test]
fn lines_and_columns_count_from_zero() {
    let src = b"ab\ncd\n\nef";
    assert_eq!(locate(src, 0), (0, 0));
    assert_eq!(locate(src, 1), (0, 1));
    assert_eq!(locate(src, 2), (0, 2));
    assert_eq!(locate(src, 3), (1, 0));
    assert_eq!(locate(src, 5), (1, 2));
    assert_eq!(locate(src, 6), (2, 0));
    assert_eq!(locate(src, 7), (3, 0));
    assert_eq!(locate(src, 9), (3, 2));
    assert_eq!(locate(src, 100), (3, 2));
    assert_eq!(locate(b"", 0), (0, 0));
}

#[test]
fn parse_errors_in_words() {
    assert_eq!(
        text(ParseError::UnexpectedToken { pos: 120 }.describe()),
        "unexpected token at byte 120"
    );
    assert_eq!(
        text(ParseError::UnterminatedBlock { pos: 0 }.describe()),
        "unterminated block opened at byte 0"
    );
    assert_eq!(
        text(ParseError::UnknownType { name: b"float".to_vec(), pos: 7 }.describe()),
        "unknown type `float` at byte 7"
    );
}

#[test]
fn violations_in_words() {
    assert_eq!(
        text(
            ValidationError::DuplicateName { kind: NameKind::Probe, name: b"a".to_vec() }
                .describe()
        ),
        "duplicate probe name `a`"
    );
    assert_eq!(
        text(
            ValidationError::DuplicateName { kind: NameKind::Provider, name: b"p".to_vec() }
                .describe()
        ),
        "duplicate provider name `p`"
    );
    assert_eq!(
        text(ValidationError::InvalidIdentifier { name: b"a-b".to_vec() }.describe()),
        "invalid identifier `a-b`"
    );
    assert_eq!(
        text(ValidationError::ArityTooLarge { probe: b"big".to_vec(), count: 40 }.describe()),
        "probe `big` takes 40 arguments, more than 32"
    );
    assert_eq!(text(NameKind::Probe.label()), "probe");
    assert_eq!(text(NameKind::Provider.label()), "provider");
    assert_eq!(text(NameKind::Symbol.label()), "symbol");
    assert_eq!(
        text(
            ValidationError::DuplicateName { kind: NameKind::Symbol, name: b"a_b_c".to_vec() }
                .describe()
        ),
        "duplicate symbol name `a_b_c`"
    );
}

#[test]
fn mismatches_in_words() {
    assert_eq!(
        text(
            InvocationError::ArityMismatch { probe: b"my_probe".to_vec(), expected: 0, actual: 1 }
                .describe()
        ),
        "probe `my_probe` takes 0 arguments, found 1"
    );
    assert_eq!(
        text(
            InvocationError::TypeMismatch {
                probe: b"a".to_vec(),
                position: 10,
                expected: HostType::U8,
                actual: HostType::Str
            }
            .describe()
        ),
        "probe `a` takes `u8` at position 10, found `&str`"
    );
}

#[test]
fn errors_of_a_text_in_words() {
    let err = generate(b"provider p { probe a(); probe a(); } provider p { }").unwrap_err();
    assert_eq!(
        text(err.describe()),
        "duplicate probe name `a`\nduplicate provider name `p`\n"
    );
    let err = generate(b"provider p {").unwrap_err();
    assert_eq!(text(err.describe()), "unterminated block opened at byte 11\n");
    assert_eq!(text(Error::Invalid(vec![]).describe()), "");
}
