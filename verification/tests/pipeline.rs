use usdt::generate::{bindings, declarations, definitions, Artifact};
use usdt::parser::{parse, ParseError};
use usdt::pipeline::{emit, generate, load, Artifacts, Error};
use usdt::validate::{NameKind, ValidationError};

#[test]
fn a_valid_text_gives_all_three_artifacts() {
    let src = b"provider p { probe a(uint8_t); }";
    let file = parse(src).unwrap();
    assert_eq!(
        generate(src),
        Ok(Artifacts {
            declarations: declarations(&file),
            definitions: definitions(&file),
            bindings: bindings(&file),
        })
    );
    assert_eq!(load(src), Ok(file));
}

#[test]
fn emit_gives_one_artifact() {
    let src = b"provider p { probe a(uint8_t); }";
    assert_eq!(emit(src, Artifact::Declaration), Ok(b"void p_a(uint8_t);\n".to_vec()));
    assert_eq!(
        emit(src, Artifact::Definition),
        Ok(b"void p_a(uint8_t arg0) { P_A(arg0); }\n".to_vec())
    );
    assert_eq!(emit(src, Artifact::Binding), Ok(generate(src).unwrap().bindings));
}

#[test]
fn duplicate_probe_gives_no_artifact() {
    let src = b"provider p { probe a(); probe a(); }";
    let expected = Error::Invalid(vec![ValidationError::DuplicateName {
        kind: NameKind::Probe,
        name: b"a".to_vec(),
    }]);
    assert_eq!(generate(src), Err(expected.clone()));
    assert_eq!(load(src), Err(expected.clone()));
    for kind in [Artifact::Declaration, Artifact::Definition, Artifact::Binding] {
        assert_eq!(emit(src, kind), Err(expected.clone()));
    }
}

#[test]
fn unknown_type_gives_no_artifact() {
    let src = b"provider p {\n    probe a(uint8_t, double);\n}\n";
    let expected = Error::Syntax(ParseError::UnknownType { name: b"double".to_vec(), pos: 34 });
    assert_eq!(generate(src), Err(expected.clone()));
    for kind in [Artifact::Declaration, Artifact::Definition, Artifact::Binding] {
        assert_eq!(emit(src, kind), Err(expected.clone()));
    }
}

#[test]
fn too_many_arguments_give_no_artifact() {
    let mut src = b"provider p { probe big(".to_vec();
    for _ in 0..33 {
        src.extend_from_slice(b"uint8_t, ");
    }
    src.extend_from_slice(b"); }");
    assert_eq!(
        generate(&src),
        Err(Error::Invalid(vec![ValidationError::ArityTooLarge {
            probe: b"big".to_vec(),
            count: 33
        }]))
    );
}

#[test]
fn a_syntax_error_comes_before_any_violation() {
    let src = b"provider p { probe a(); probe a(); } provider";
    assert_eq!(
        generate(src),
        Err(Error::Syntax(ParseError::UnexpectedToken { pos: 45 }))
    );
}

#[test]
fn generation_is_deterministic() {
    let src: &[u8] = b"provider one { probe a(char*, int64_t); probe b(); }\nprovider two { probe c(uint16_t); }";
    let first = generate(src).unwrap();
    let second = generate(&src.to_vec()).unwrap();
    assert_eq!(first, second);
    assert_eq!(first.declarations, second.declarations);
    assert_eq!(first.definitions, second.definitions);
    assert_eq!(first.bindings, second.bindings);
    let bad: &[u8] = b"provider one { probe a(); probe a(); probe 1(); }";
    assert_eq!(generate(bad), generate(bad));
}

#[test]
fn a_shared_symbol_gives_no_artifact() {
    let src = b"provider a_b { probe c(); } provider a { probe b_c(); }";
    let expected = Error::Invalid(vec![ValidationError::DuplicateName {
        kind: NameKind::Symbol,
        name: b"a_b_c".to_vec(),
    }]);
    assert_eq!(generate(src), Err(expected.clone()));
    for kind in [Artifact::Declaration, Artifact::Definition, Artifact::Binding] {
        assert_eq!(emit(src, kind), Err(expected.clone()));
    }
}

#[test]
fn a_reserved_name_gives_no_artifact() {
    let src = b"provider struct { probe fn(); }";
    assert_eq!(
        generate(src),
        Err(Error::Invalid(vec![
            ValidationError::InvalidIdentifier { name: b"struct".to_vec() },
            ValidationError::InvalidIdentifier { name: b"fn".to_vec() },
        ]))
    );
}
