use crt::ast::opt_str;
use crt::codegen::project::{
    build_script, cargo_package_name, file_extension, is_native_source, is_translation_unit, needs_options_header, write_cargo_toml,
};
use crt::codegen::syntax::{lex_failure_message, parse_failure_message, parse_rust};
use crt::imports::{dotted_components, import_package};

#[test]
fn package_names_are_lower_case_and_safe() {
    assert_eq!(cargo_package_name("Pipe Line"), "pipe_line");
    assert_eq!(cargo_package_name("zig-Bee_2"), "zig-bee_2");
    assert_eq!(cargo_package_name("9net"), "_9net");
    assert_eq!(cargo_package_name(""), "_");
}

#[test]
fn manifest_by_natives_and_orcc() {
    assert_eq!(
        write_cargo_toml("Net", false, "", false),
        "[package]\nname = \"net\"\nversion = \"0.1.0\"\nedition = \"2024\"\n\n[dependencies]\n\n[profile.release]\nlto = true\ncodegen-units = 1\n"
    );
    let full = write_cargo_toml("Net", true, "rayon = \"1\"\n", true);
    assert_eq!(
        full,
        "[package]\nname = \"net\"\nversion = \"0.1.0\"\nedition = \"2024\"\n\n[dependencies]\nrayon = \"1\"\nclap = { version = \"4\", features = [\"derive\"] }\n\n[build-dependencies]\ncc = \"1\"\n\n[profile.release]\nlto = true\ncodegen-units = 1\n"
    );
}

#[test]
fn extensions_follow_path_rules() {
    assert_eq!(file_extension("main.C"), Some("c".to_string()));
    assert_eq!(file_extension("a.b.Cpp"), Some("cpp".to_string()));
    assert_eq!(file_extension(".c"), None);
    assert_eq!(file_extension(".."), None);
    assert_eq!(file_extension("noext"), None);
    assert_eq!(file_extension("trail."), Some("".to_string()));
}

#[test]
fn native_file_kinds() {
    assert!(is_translation_unit("x.cxx"));
    assert!(is_translation_unit("x.CC"));
    assert!(!is_translation_unit("x.h"));
    assert!(is_native_source("x.h"));
    assert!(is_native_source("x.HPP"));
    assert!(!is_native_source("x.txt"));
}

#[test]
fn options_header_only_for_orcc_when_absent() {
    let with = vec!["a.c".to_string(), "options.h".to_string()];
    let without = vec!["a.c".to_string()];
    assert!(!needs_options_header(&with, true));
    assert!(needs_options_header(&without, true));
    assert!(!needs_options_header(&without, false));
}

#[test]
fn build_script_compiles_translation_units() {
    let names = vec!["a.c".to_string(), "b.h".to_string(), "c.cpp".to_string()];
    assert_eq!(
        build_script(&names),
        "fn main() {\n    cc::Build::new()\n        .flag(\"-x\")\n        .flag(\"c\")\n        .include(\"native\")\n        .opt_level(3)\n        .file(\"native/a.c\")\n        .file(\"native/c.cpp\")\n        .compile(\"crt_native\");\n    println!(\"cargo:rerun-if-changed=native\");\n}\n"
    );
}

#[test]
fn parsing_accepts_valid_rust() {
    let file = parse_rust("main.rs", "fn main(){let x=1;}").unwrap();
    assert_eq!(file.items.len(), 1);
    assert_eq!(prettyplease::unparse(&file), "fn main() {\n    let x = 1;\n}\n");
}

#[test]
fn parsing_reports_lexing_errors() {
    let err = match parse_rust("m.rs", "fn main() { \"open") {
        Err(e) => e,
        Ok(_) => panic!("an unterminated string lexes"),
    };
    assert_eq!(
        err,
        "generated source for m.rs failed to tokenize: cannot parse string into token stream\n--- source ---\nfn main() { \"open"
    );
}

#[test]
fn parsing_reports_parse_errors() {
    let err = match parse_rust("m.rs", "fn fn") {
        Err(e) => e,
        Ok(_) => panic!("`fn fn` parses"),
    };
    assert!(err.starts_with("generated tokens are not a valid Rust file: "));
}

#[test]
fn failure_messages() {
    assert_eq!(lex_failure_message("a", "e", "s"), "generated source for a failed to tokenize: e\n--- source ---\ns");
    assert_eq!(parse_failure_message("e"), "generated tokens are not a valid Rust file: e");
}

#[test]
fn dotted_paths_split_and_rejoin() {
    let parts = dotted_components("a.b.Unit");
    assert_eq!(parts, vec!["a".to_string(), "b".to_string(), "Unit".to_string()]);
    assert_eq!(parts.join("."), "a.b.Unit");
    assert_eq!(dotted_components(""), vec!["".to_string()]);
    assert_eq!(dotted_components("x..y"), vec!["x".to_string(), "".to_string(), "y".to_string()]);
}

#[test]
fn import_packages() {
    assert_eq!(import_package("a.b.sym"), Some("a.b".to_string()));
    assert_eq!(import_package("plain"), None);
    assert_eq!(import_package(".x"), Some("".to_string()));
}

#[test]
fn empty_strings_are_absent() {
    assert_eq!(opt_str(String::new()), None);
    assert_eq!(opt_str("x".to_string()), Some("x".to_string()));
}
