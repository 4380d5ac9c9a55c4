use crt::ast::{Expr, Function, Parameter, Procedure, Stmt, Type, VarDef};
use crt::codegen::common::expr::{emit_expr, emit_function, emit_procedure, emit_stmt, map_op, map_unary};
use crt::codegen::common::scope::NameSet;
use crt::codegen::common::types::{default_value, emit_const, param_value, rust_type, var_init, var_rust_type};

fn ty(name: &str) -> Type {
    Type { name: name.to_string(), non_standard: false, size: None, list: None }
}

fn lit(v: &str) -> Expr {
    Expr::Literal { negation: false, value: v.to_string() }
}

fn id(name: &str) -> Expr {
    Expr::Identifier { name: name.to_string(), unary_left: None, unary_right: None, indices: vec![], call: None }
}

fn names(list: &[&str]) -> NameSet {
    let mut s = NameSet::new();
    for n in list {
        s.insert(n);
    }
    s
}

#[test]
fn operators_map_to_rust() {
    assert_eq!(map_op("="), "==");
    assert_eq!(map_op("and"), "&&");
    assert_eq!(map_op("or"), "||");
    assert_eq!(map_op("mod"), "%");
    assert_eq!(map_op("div"), "/");
    assert_eq!(map_op("+"), "+");
    assert_eq!(map_unary("not"), "!");
    assert_eq!(map_unary("-"), "-");
}

#[test]
fn expressions_resolve_state_and_locals() {
    let e = Expr::BinOp { op: "and".to_string(), left: Box::new(id("count")), right: Box::new(id("x")) };
    let state = names(&["count", "x"]);
    let locals = names(&["x"]);
    assert_eq!(emit_expr(&e, &state, &locals), "self.count && x");
}

#[test]
fn literals_keep_strings_and_sign_numbers() {
    let empty = NameSet::new();
    assert_eq!(emit_expr(&Expr::Literal { negation: true, value: "5".to_string() }, &empty, &empty), "-5");
    assert_eq!(emit_expr(&Expr::Literal { negation: true, value: "\"s\"".to_string() }, &empty, &empty), "\"s\"");
    assert_eq!(emit_expr(&Expr::Paren(Box::new(lit("1"))), &empty, &empty), "(1)");
}

#[test]
fn calls_indices_and_ports() {
    let empty = NameSet::new();
    let call = Expr::Identifier {
        name: "f".to_string(),
        unary_left: Some("not".to_string()),
        unary_right: None,
        indices: vec![lit("2")],
        call: Some(vec![lit("1"), id("y")]),
    };
    assert_eq!(emit_expr(&call, &empty, &empty), "!f(1, y)[(2) as usize]");
    assert_eq!(emit_expr(&Expr::PortSize { port: "In".to_string() }, &empty, &empty), "(In.len() as i64)");
    assert_eq!(emit_expr(&Expr::PortFree { port: "Out".to_string() }, &empty, &empty), "0");
    let peek = Expr::PortPreview { port: "In".to_string(), prev_identifier: "t".to_string(), index: None };
    assert_eq!(emit_expr(&peek, &empty, &empty), "In[0]");
    let tern = Expr::Ternary { cond: Box::new(id("c")), then: Box::new(lit("1")), els: Box::new(lit("2")) };
    assert_eq!(emit_expr(&tern, &empty, &empty), "if c { 1 } else { 2 }");
    let fsm = Expr::FsmEnumElement { enum_name: "Mode".to_string(), element: "on".to_string() };
    assert_eq!(emit_expr(&fsm, &empty, &empty), "Mode::St_on");
}

#[test]
fn list_without_generators_is_a_vec() {
    let empty = NameSet::new();
    let l = Expr::ListComprehension { expressions: vec![lit("1"), lit("2")], generators: vec![] };
    assert_eq!(emit_expr(&l, &empty, &empty), "vec![1, 2]");
}

#[test]
fn rust_types_of_cal_types() {
    assert_eq!(rust_type(&ty("int")), "i64");
    assert_eq!(rust_type(&ty("bool")), "bool");
    assert_eq!(rust_type(&ty("String")), "String");
    assert_eq!(rust_type(&ty("float")), "f64");
    let list = Type { name: "List".to_string(), non_standard: false, size: None, list: Some(Box::new(ty("uint"))) };
    assert_eq!(rust_type(&list), "Vec<i64>");
}

#[test]
fn default_values_of_cal_types() {
    assert_eq!(default_value(&ty("int")), "0");
    assert_eq!(default_value(&ty("bool")), "false");
    assert_eq!(default_value(&ty("string")), "String::new()");
    assert_eq!(default_value(&ty("double")), "0.0");
    let sized = Type { name: "List".to_string(), non_standard: false, size: Some(Box::new(lit("4"))), list: Some(Box::new(ty("bool"))) };
    assert_eq!(default_value(&sized), "vec![false; (4) as usize]");
    let open = Type { name: "List".to_string(), non_standard: false, size: None, list: Some(Box::new(ty("int"))) };
    assert_eq!(default_value(&open), "Vec::new()");
}

#[test]
fn parameter_values_from_the_network() {
    assert_eq!(param_value(&ty("int"), "7"), "7");
    assert_eq!(param_value(&ty("int"), ""), "0");
    assert_eq!(param_value(&ty("String"), "a b"), "\"a b\".to_string()");
}

#[test]
fn variables_types_and_initialisers() {
    let v = VarDef { name: "buf".to_string(), typ: ty("int"), arrays: vec![lit("3")], const_assign: false, assign: None };
    assert_eq!(var_rust_type(&v), "Vec<i64>");
    let w = VarDef { name: "n".to_string(), typ: ty("int"), arrays: vec![], const_assign: false, assign: Some(lit("5")) };
    assert_eq!(var_init(&w), "5");
}

#[test]
fn constants_of_units() {
    let c = VarDef { name: "SIZE".to_string(), typ: ty("int"), arrays: vec![], const_assign: true, assign: Some(lit("8")) };
    assert_eq!(emit_const(&c), "const SIZE: i64 = 8;\n");
    let d = VarDef { name: "FLAG".to_string(), typ: ty("bool"), arrays: vec![], const_assign: true, assign: None };
    assert_eq!(emit_const(&d), "const FLAG: bool = false;\n");
}

#[test]
fn statements_as_rust() {
    let state = names(&["total"]);
    let locals = NameSet::new();
    let assign = Stmt::Assign { const_assign: false, identifier: "total".to_string(), indices: vec![], value: Some(lit("0")) };
    let ret = "            return false;\n";
    assert_eq!(emit_stmt(&assign, &state, &locals, ret), "            self.total = 0;\n");
    assert_eq!(emit_stmt(&Stmt::Return, &state, &locals, ret), "            return false;\n");
    assert_eq!(emit_stmt(&Stmt::Return, &state, &locals, "            return;\n"), "            return;\n");
    assert_eq!(emit_stmt(&Stmt::TerminateLoop, &state, &locals, ret), "            break;\n");
    let write = Stmt::OutputWrite { port: "Out".to_string(), expr: lit("1") };
    assert_eq!(emit_stmt(&write, &state, &locals, ret), "            self.port_Out.push_back(1);\n");
    let call = Stmt::Call { name: "reset".to_string(), args: vec![lit("1")] };
    assert_eq!(emit_stmt(&call, &state, &locals, ret), "            reset(1);\n");
    let cond = Stmt::If { cond: id("c"), then: vec![Stmt::Return], els: vec![] };
    assert_eq!(emit_stmt(&cond, &state, &locals, ret), "            if c {\n            return false;\n            }\n");
}

#[test]
fn functions_and_procedures() {
    let f = Function {
        name: "inc".to_string(),
        parameters: vec![Parameter { name: "x".to_string(), typ: ty("int") }],
        ret_type: ty("int"),
        expr: Expr::BinOp { op: "+".to_string(), left: Box::new(id("x")), right: Box::new(lit("1")) },
    };
    assert_eq!(emit_function(&f), "fn inc(x: i64) -> i64 {\n    x + 1\n}\n");
    let p = Procedure { name: "noop".to_string(), parameters: vec![], vars: vec![], stmts: vec![] };
    assert_eq!(emit_procedure(&p), "fn noop() {\n}\n");
}

#[test]
fn return_in_a_procedure_leaves_it_without_a_value() {
    let p = Procedure { name: "p".to_string(), parameters: vec![], vars: vec![], stmts: vec![Stmt::Return] };
    let text = emit_procedure(&p);
    assert_eq!(text, "fn p() {\n            return;\n}\n");
    assert!(!text.contains("return false"));
}
