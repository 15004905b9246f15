use usdt::model::{File, Probe, Provider};
use usdt::parser::parse;
use usdt::printer::to_source;
use usdt::types::DataType;

#[test]
fn the_canonical_text_of_a_file() {
    let file = parse(b"provider test{probe start(uint8_t,char *);probe stop();}provider x{}").unwrap();
    assert_eq!(
        String::from_utf8(to_source(&file)).unwrap(),
        "provider test {\n    probe start(uint8_t, char*);\n    probe stop();\n};\nprovider x {\n};\n"
    );
    assert_eq!(to_source(&File { providers: vec![] }), b"");
}

#[test]
fn parsing_the_canonical_text_gives_the_file_back() {
    let texts: [&[u8]; 4] = [
        b"",
        b"provider a { }",
        b"provider my_provider { probe my_probe(); }",
        b"provider a { probe b(char*, uint8_t, uint16_t, uint32_t, uint64_t); probe c(int8_t,); }\n\
          provider d { probe e(int16_t, int32_t, int64_t, char*); }",
    ];
    for src in texts {
        let file = parse(src).unwrap();
        assert_eq!(parse(&to_source(&file)), Ok(file));
    }
}

#[test]
fn printing_does_not_check_names() {
    let file = File {
        providers: vec![Provider {
            name: b"two words".to_vec(),
            probes: vec![Probe { name: b"".to_vec(), args: vec![DataType::I8] }],
        }],
    };
    assert_eq!(
        String::from_utf8(to_source(&file)).unwrap(),
        "provider two words {\n    probe (int8_t);\n};\n"
    );
}
