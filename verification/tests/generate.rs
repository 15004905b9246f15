use usdt::generate::{
    bindings, declarations, definitions, push_item, push_listing, render, Artifact, Listing,
};
use usdt::model::File;
use usdt::parser::parse;
use usdt::types::DataType;

fn text(v: Vec<u8>) -> String {
    String::from_utf8(v).unwrap()
}

fn sample() -> File {
    parse(b"provider test {\n    probe start(uint8_t, char*);\n    probe stop();\n};\n").unwrap()
}

#[test]
fn declarations_of_a_file() {
    assert_eq!(
        text(declarations(&sample())),
        "void test_start(uint8_t, const char*);\nvoid test_stop(void);\n"
    );
}

#[test]
fn definitions_of_a_file() {
    assert_eq!(
        text(definitions(&sample())),
        "void test_start(uint8_t arg0, const char* arg1) { TEST_START(arg0, arg1); }\n\
         void test_stop(void) { TEST_STOP(); }\n"
    );
}

#[test]
fn bindings_of_a_file() {
    let expected = r#"#[allow(non_snake_case)]
pub mod test {
    pub mod start {
        extern "C" {
            fn test_start(arg0: u8, arg1: *const ::std::os::raw::c_char);
        }

        pub static ENABLED: ::std::sync::atomic::AtomicBool =
            ::std::sync::atomic::AtomicBool::new(false);

        pub fn enabled() -> bool {
            ENABLED.load(::std::sync::atomic::Ordering::Relaxed)
        }

        pub fn fire<'a, F: FnOnce() -> (u8, &'a str, )>(args: F) {
            if enabled() {
                let args = args();
                let arg0 = args.0;
                let arg1 = ::std::ffi::CString::new(args.1).unwrap_or_default();
                unsafe {
                    test_start(arg0, arg1.as_ptr());
                }
            }
        }
    }

    pub mod stop {
        extern "C" {
            fn test_stop();
        }

        pub static ENABLED: ::std::sync::atomic::AtomicBool =
            ::std::sync::atomic::AtomicBool::new(false);

        pub fn enabled() -> bool {
            ENABLED.load(::std::sync::atomic::Ordering::Relaxed)
        }

        pub fn fire<'a, F: FnOnce() -> ()>(args: F) {
            if enabled() {
                let args = args();
                unsafe {
                    test_stop();
                }
            }
        }
    }

}

"#;
    assert_eq!(text(bindings(&sample())), expected);
}

#[test]
fn an_empty_file_gives_empty_artifacts() {
    let file = File { providers: vec![] };
    assert_eq!(declarations(&file), b"");
    assert_eq!(definitions(&file), b"");
    assert_eq!(bindings(&file), b"");
}

#[test]
fn a_provider_without_probes_gives_its_module_only() {
    let file = parse(b"provider lonely { }").unwrap();
    assert_eq!(text(declarations(&file)), "");
    assert_eq!(text(definitions(&file)), "");
    assert_eq!(
        text(bindings(&file)),
        "#[allow(non_snake_case)]\npub mod lonely {\n}\n\n"
    );
}

#[test]
fn entries_follow_the_order_of_the_file() {
    let file = parse(b"provider b { probe z(); probe a(); } provider a { probe m(int8_t); }").unwrap();
    assert_eq!(
        text(declarations(&file)),
        "void b_z(void);\nvoid b_a(void);\nvoid a_m(int8_t);\n"
    );
    assert_eq!(
        text(definitions(&file)),
        "void b_z(void) { B_Z(); }\nvoid b_a(void) { B_A(); }\nvoid a_m(int8_t arg0) { A_M(arg0); }\n"
    );
}

#[test]
fn render_picks_the_artifact() {
    let file = sample();
    assert_eq!(render(&file, Artifact::Declaration), declarations(&file));
    assert_eq!(render(&file, Artifact::Definition), definitions(&file));
    assert_eq!(render(&file, Artifact::Binding), bindings(&file));
}

#[test]
fn arguments_are_numbered_in_decimal() {
    let mut src = b"provider p { probe wide(".to_vec();
    for _ in 0..12 {
        src.extend_from_slice(b"uint8_t,");
    }
    src.extend_from_slice(b"); }");
    let file = parse(&src).unwrap();
    let out = text(definitions(&file));
    assert!(out.contains("uint8_t arg9, uint8_t arg10, uint8_t arg11) { P_WIDE(arg0, "));
    assert!(out.ends_with("arg10, arg11); }\n"));
}

#[test]
fn the_items_of_each_list() {
    let arg = DataType::Str.argument(2);
    let item = |style: Listing| {
        let mut out = Vec::new();
        push_item(&mut out, style, 2, &arg);
        text(out)
    };
    assert_eq!(item(Listing::CTypes), "const char*");
    assert_eq!(item(Listing::CParams), "const char* arg2");
    assert_eq!(item(Listing::HookArgs), "arg2");
    assert_eq!(item(Listing::FfiParams), "arg2: *const ::std::os::raw::c_char");
    assert_eq!(item(Listing::ThunkTypes), "&'a str, ");
    assert_eq!(
        item(Listing::Lets),
        "                let arg2 = ::std::ffi::CString::new(args.2).unwrap_or_default();\n"
    );
    assert_eq!(item(Listing::CallArgs), "arg2.as_ptr()");
    let arg = DataType::I16.argument(0);
    let item = |style: Listing| {
        let mut out = Vec::new();
        push_item(&mut out, style, 0, &arg);
        text(out)
    };
    assert_eq!(item(Listing::CTypes), "int16_t");
    assert_eq!(item(Listing::CParams), "int16_t arg0");
    assert_eq!(item(Listing::FfiParams), "arg0: i16");
    assert_eq!(item(Listing::ThunkTypes), "i16, ");
    assert_eq!(item(Listing::Lets), "                let arg0 = args.0;\n");
    assert_eq!(item(Listing::CallArgs), "arg0");
}

#[test]
fn a_list_keeps_what_was_written_before() {
    let args = vec![DataType::U8.argument(0), DataType::U64.argument(1)];
    let mut out = b"f(".to_vec();
    push_listing(&mut out, Listing::CTypes, &args);
    assert_eq!(text(out), "f(uint8_t, uint64_t");
}

fn count(haystack: &str, needle: &str) -> usize {
    haystack.matches(needle).count()
}

#[test]
fn the_three_artifacts_agree_on_the_arity() {
    for arity in [0usize, 1, 2, 5, 32] {
        let mut src = b"provider p { probe q(".to_vec();
        for _ in 0..arity {
            src.extend_from_slice(b"int32_t,");
        }
        src.extend_from_slice(b"); }");
        let file = parse(&src).unwrap();
        assert_eq!(file.providers[0].probes[0].args.len(), arity);
        let decl = text(declarations(&file));
        let defn = text(definitions(&file));
        let bind = text(bindings(&file));
        assert_eq!(count(&decl, "int32_t"), arity);
        assert_eq!(count(&defn, "int32_t arg"), arity);
        let thunk = bind.split("FnOnce() -> (").nth(1).unwrap().split(")>").next().unwrap();
        assert_eq!(count(thunk, "i32, "), arity);
        assert_eq!(thunk.len(), 5 * arity);
        assert_eq!(count(&bind, ": i32"), arity);
    }
}

#[test]
fn the_three_artifacts_name_the_same_probes() {
    let file = parse(b"provider net { probe up(); probe down(uint8_t); } provider disk { probe io(char*); }").unwrap();
    let decl = text(declarations(&file));
    let defn = text(definitions(&file));
    let bind = text(bindings(&file));
    let names = |artifact: &str, before: &str| -> Vec<String> {
        artifact
            .split(before)
            .skip(1)
            .map(|rest| rest.split('(').next().unwrap().to_string())
            .collect()
    };
    let expected = vec!["net_up".to_string(), "net_down".to_string(), "disk_io".to_string()];
    assert_eq!(names(&decl, "void "), expected);
    assert_eq!(names(&defn, "void "), expected);
    assert_eq!(names(&bind, "extern \"C\" {\n            fn "), expected);
}

#[test]
fn each_probe_has_a_module_of_its_own() {
    let file = parse(b"provider p { probe a(); probe a_enabled(); probe enabled(); probe fire(); }").unwrap();
    assert_eq!(usdt::validate::validate(&file), Ok(()));
    let bind = text(bindings(&file));
    for probe in ["a", "a_enabled", "enabled", "fire"] {
        assert_eq!(count(&bind, &format!("    pub mod {} {{\n", probe)), 1);
        assert_eq!(count(&bind, &format!("            fn p_{}();\n", probe)), 1);
    }
    assert_eq!(count(&bind, "pub mod p {\n"), 1);
    assert_eq!(count(&bind, "        pub fn enabled() -> bool {\n"), 4);
    assert_eq!(count(&bind, "        pub fn fire<"), 4);
    assert_eq!(count(&bind, "        pub static ENABLED: "), 4);
}
