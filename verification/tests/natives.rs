use crt::ast::{Actor, Expr, NativeFunction, NativeProcedure, Parameter, Type, Unit};
use crt::codegen::common::natives::{c_param_list, c_type, emit_natives, eval_lit, wrapper_call_args, wrapper_param_list};
use crt::codegen::{ActorMap, Program};
use crt::network::Network;

fn sized(name: &str, bits: &str) -> Type {
    Type {
        name: name.to_string(),
        non_standard: false,
        size: Some(Box::new(Expr::Literal { negation: false, value: bits.to_string() })),
        list: None,
    }
}

fn plain(name: &str) -> Type {
    Type { name: name.to_string(), non_standard: false, size: None, list: None }
}

fn unit_with(fns: Vec<NativeFunction>, procs: Vec<NativeProcedure>) -> Unit {
    Unit { name: "U".to_string(), functions: vec![], procedures: vec![], vars: vec![], native_functions: fns, native_procedures: procs }
}

fn empty_network() -> Network {
    Network { name: "net".to_string(), instances: vec![], edges: vec![], class_paths: vec![] }
}

#[test]
fn literal_values_decimal_and_hex() {
    let lit = |v: &str| Expr::Literal { negation: false, value: v.to_string() };
    assert_eq!(eval_lit(&lit("16")), Some(16));
    assert_eq!(eval_lit(&lit(" 0x1F ")), Some(31));
    assert_eq!(eval_lit(&lit("0X10")), Some(16));
    assert_eq!(eval_lit(&Expr::Paren(Box::new(lit("8")))), Some(8));
    assert_eq!(eval_lit(&lit("zz")), None);
    assert_eq!(eval_lit(&Expr::PortFree { port: "p".to_string() }), None);
}

#[test]
fn literal_edge_cases_follow_unsigned_parsing() {
    let lit = |v: &str| Expr::Literal { negation: false, value: v.to_string() };
    assert_eq!(eval_lit(&lit("+7")), Some(7));
    assert_eq!(eval_lit(&lit("+")), None);
    assert_eq!(eval_lit(&lit("")), None);
    assert_eq!(eval_lit(&lit("-1")), None);
    assert_eq!(eval_lit(&lit("12a")), None);
    assert_eq!(eval_lit(&lit("4294967295")), Some(4294967295));
    assert_eq!(eval_lit(&lit("4294967296")), None);
    assert_eq!(eval_lit(&lit("0xffffffff")), Some(4294967295));
    assert_eq!(eval_lit(&lit("0x100000000")), None);
    assert_eq!(eval_lit(&lit("\t\n 42\u{3000}")), Some(42));
    assert_eq!(eval_lit(&lit("0x")), None);
}

#[test]
fn c_types_by_size_and_sign() {
    assert_eq!(c_type(&plain("bool")), "core::ffi::c_int");
    assert_eq!(c_type(&plain("int")), "core::ffi::c_int");
    assert_eq!(c_type(&sized("int", "8")), "core::ffi::c_char");
    assert_eq!(c_type(&sized("uint", "8")), "core::ffi::c_uchar");
    assert_eq!(c_type(&sized("int", "16")), "core::ffi::c_short");
    assert_eq!(c_type(&sized("uint", "32")), "core::ffi::c_uint");
    assert_eq!(c_type(&sized("int", "64")), "core::ffi::c_longlong");
}

#[test]
fn native_parameter_lists() {
    let ps = vec![Parameter { name: "x".to_string(), typ: sized("int", "16") }, Parameter { name: "f".to_string(), typ: plain("bool") }];
    assert_eq!(c_param_list(&ps), "a0: core::ffi::c_short, a1: core::ffi::c_int");
    assert_eq!(wrapper_param_list(&ps), "a0: i64, a1: bool");
    assert_eq!(wrapper_call_args(&ps), "a0 as core::ffi::c_short, a1 as core::ffi::c_int");
}

#[test]
fn natives_bind_each_name_once() {
    let f = NativeFunction { name: "source_get".to_string(), parameters: vec![], ret_type: plain("int") };
    let g = NativeFunction { name: "source_get".to_string(), parameters: vec![], ret_type: plain("bool") };
    let p = NativeProcedure { name: "source_init".to_string(), parameters: vec![] };
    let units = vec![unit_with(vec![f, g], vec![p])];
    let actors = ActorMap::new();
    let network = empty_network();
    let sources: Vec<String> = vec![];
    let program = Program { network: &network, actors: &actors, units: &units, native_sources: &sources };
    assert!(program.has_natives());
    let text = emit_natives(&program, false);
    assert_eq!(
        text,
        "unsafe extern \"C\" {\n    #[link_name = \"source_get\"]\n    fn __crt_ffi_source_get() -> core::ffi::c_int;\n    #[link_name = \"source_init\"]\n    fn __crt_ffi_source_init();\n}\n\nfn source_get() -> i64 { unsafe { __crt_ffi_source_get() as i64 } }\nfn source_init() { unsafe { __crt_ffi_source_init(); } }\n\n"
    );
}

#[test]
fn native_functions_and_procedures_share_one_namespace() {
    let f = NativeFunction { name: "x".to_string(), parameters: vec![], ret_type: plain("int") };
    let p = NativeProcedure { name: "x".to_string(), parameters: vec![] };
    let units = vec![unit_with(vec![f], vec![p])];
    let actors = ActorMap::new();
    let network = empty_network();
    let sources: Vec<String> = vec![];
    let program = Program { network: &network, actors: &actors, units: &units, native_sources: &sources };
    let text = emit_natives(&program, false);
    assert_eq!(text.matches("#[link_name = \"x\"]").count(), 1);
    assert_eq!(text.matches("fn x(").count(), 1);
    assert!(text.contains("fn x() -> i64"));
}

#[test]
fn orcc_glue_follows_the_bindings() {
    let units = vec![unit_with(vec![], vec![NativeProcedure { name: "p".to_string(), parameters: vec![] }])];
    let actors = ActorMap::new();
    let network = empty_network();
    let sources: Vec<String> = vec![];
    let program = Program { network: &network, actors: &actors, units: &units, native_sources: &sources };
    let text = emit_natives(&program, true);
    assert!(text.ends_with(crt::codegen::orcc::OPTIONS_RS));
}

#[test]
fn programs_without_natives() {
    let units: Vec<Unit> = vec![];
    let mut actors = ActorMap::new();
    actors.insert("A".to_string(), Box::new(Actor {
        name: "A".to_string(),
        parameters: vec![],
        inports: vec![],
        outports: vec![],
        vars: vec![],
        functions: vec![],
        procedures: vec![],
        native_functions: vec![],
        native_procedures: vec![],
        actions: vec![],
        init: None,
        fsm: None,
        priorities: vec![],
        fsm_enums: vec![],
    }));
    let network = empty_network();
    let sources: Vec<String> = vec![];
    let program = Program { network: &network, actors: &actors, units: &units, native_sources: &sources };
    assert!(!program.has_natives());
}
