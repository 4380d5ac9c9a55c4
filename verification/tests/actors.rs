use crt::ast::{Action, ActionPriority, Actor, ActorParameter, FsmState, InputPattern, OutputExpr, Expr, Port, ScheduleFsm, Stmt, Type, VarDef};
use crt::codegen::common::actor::{actor_port, actor_state, actor_type, actor_warnings, emit_actor, port_params, port_types, typestate_actor};
use crt::codegen::common::priority::{priority_entry_warnings, Priorities};
use crt::codegen::ActorMap;

fn int_ty() -> Type {
    Type { name: "int".to_string(), non_standard: false, size: None, list: None }
}

fn bare_actor(name: &str) -> Actor {
    Actor {
        name: name.to_string(),
        parameters: vec![],
        inports: vec![],
        outports: vec![],
        vars: vec![],
        functions: vec![],
        procedures: vec![],
        native_functions: vec![],
        native_procedures: vec![],
        actions: vec![],
        init: None,
        fsm: None,
        priorities: vec![],
        fsm_enums: vec![],
    }
}

fn action(name: &str) -> Action {
    Action { name: name.to_string(), guards: vec![], input_patterns: vec![], output_expressions: vec![], vars: vec![], stmts: vec![] }
}

fn copy_actor() -> Actor {
    let mut a = bare_actor("Copy");
    a.inports.push(Port { name: "In".to_string(), typ: int_ty() });
    a.outports.push(Port { name: "Out".to_string(), typ: int_ty() });
    let mut act = action("copy");
    act.input_patterns.push(InputPattern { port: "In".to_string(), ids: vec!["x".to_string()], repeat: None });
    act.output_expressions.push(OutputExpr {
        port: "Out".to_string(),
        expressions: vec![Expr::Identifier { name: "x".to_string(), unary_left: None, unary_right: None, indices: vec![], call: None }],
        repeat: None,
    });
    a.actions.push(act);
    a
}

fn fsm_actor() -> Actor {
    let mut a = bare_actor("Toggle");
    a.actions.push(action("on"));
    a.actions.push(action("off"));
    a.fsm = Some(ScheduleFsm {
        initial_state: "s0".to_string(),
        transitions: vec![
            FsmState { state: "s0".to_string(), actions: vec!["on".to_string()], next: "s1".to_string() },
            FsmState { state: "s1".to_string(), actions: vec!["off".to_string()], next: "s0".to_string() },
        ],
    });
    a
}

#[test]
fn empty_actor_is_a_struct_with_a_fire_that_never_fires() {
    let text = emit_actor(&bare_actor("E"), false);
    assert_eq!(
        text,
        "pub struct E {\n\n}\n\nimpl E {\n    pub fn new() -> Self {\n        Self {\n\n        }\n    }\n\n    pub fn fire(&mut self) -> bool {\n\n        false\n    }\n}\n"
    );
}

#[test]
fn copy_actor_receives_checks_room_and_sends() {
    let text = emit_actor(&copy_actor(), false);
    assert!(text.contains("pub struct Copy {\n    pub port_In: InPort<i64>,\n    pub port_Out: OutPort<i64>,\n}"));
    assert!(text.contains("pub fn new(port_In: InPort<i64>, port_Out: OutPort<i64>) -> Self {"));
    assert!(text.contains("let __room_port_Out = self.port_Out.has_room();"));
    assert!(text.contains("if self.port_In.avail(1) && __room_port_Out {"));
    assert!(text.contains("self.port_Out.push_back(x)"));
    assert!(text.contains("return true;"));
}

#[test]
fn guard_on_tokens_peeks_and_consumes_inside_the_guard() {
    let mut a = copy_actor();
    let x = Expr::Identifier { name: "x".to_string(), unary_left: None, unary_right: None, indices: vec![], call: None };
    let zero = Expr::Literal { negation: false, value: "0".to_string() };
    a.actions[0].guards.push(Expr::BinOp { op: ">".to_string(), left: Box::new(x), right: Box::new(zero) });
    let text = emit_actor(&a, false);
    let guard = text.find("            if x > 0 {\n").unwrap();
    let pop = text.find("self.port_In.pop_front(); }").unwrap();
    assert!(guard < pop);
    assert!(!text.contains(".recv();"));
}

#[test]
fn guard_without_tokens_joins_the_availability_test() {
    let mut a = copy_actor();
    a.actions[0].guards.push(Expr::Literal { negation: false, value: "true".to_string() });
    let text = emit_actor(&a, false);
    assert!(text.contains("if self.port_In.avail(1) && __room_port_Out && true {"));
    assert!(text.contains("            let mut x = self.port_In.recv();\n"));
}

#[test]
fn fsm_actor_matches_on_its_state() {
    let text = emit_actor(&fsm_actor(), false);
    assert!(text.starts_with("#[derive(Clone, Copy)]\nenum ToggleState {\n    St_s0,\n    St_s1,\n}\n\n"));
    assert!(text.contains("    state: ToggleState,"));
    assert!(text.contains("state: ToggleState::St_s0,"));
    assert!(text.contains("        match self.state {\n"));
    assert!(text.contains("self.state = ToggleState::St_s1;"));
    assert!(text.contains("self.state = ToggleState::St_s0;"));
}

#[test]
fn terminal_state_gets_an_arm_that_fires_nothing() {
    let mut a = bare_actor("Toggle");
    a.actions.push(action("a"));
    a.fsm = Some(ScheduleFsm {
        initial_state: "s0".to_string(),
        transitions: vec![FsmState { state: "s0".to_string(), actions: vec!["a".to_string()], next: "done".to_string() }],
    });
    let text = emit_actor(&a, false);
    assert!(text.starts_with("#[derive(Clone, Copy)]\nenum ToggleState {\n    St_done,\n    St_s0,\n}\n\n"));
    assert!(text.contains("            ToggleState::St_done => {\n\n            }\n"));
    assert!(text.contains("            ToggleState::St_s0 => {\n"));
    assert!(text.contains("self.state = ToggleState::St_done;"));
}

#[test]
fn return_inside_fire_and_init_matches_the_enclosing_function() {
    let mut a = bare_actor("R");
    let mut act = action("go");
    act.stmts.push(Stmt::Return);
    a.actions.push(act);
    let mut init = action("start");
    init.stmts.push(Stmt::Return);
    a.init = Some(init);
    let text = emit_actor(&a, false);
    assert!(text.contains("    pub fn init(&mut self) {\n            return;\n    }\n"));
    assert!(text.contains("            return false;\n            return true;\n"));
}

#[test]
fn typestate_actor_has_markers_steps_and_wrapper() {
    let a = fsm_actor();
    assert!(typestate_actor(&a, true));
    assert!(!typestate_actor(&a, false));
    let text = emit_actor(&a, true);
    assert!(text.starts_with("pub struct St_s0;\npub struct St_s1;\n\n"));
    assert!(text.contains("impl Toggle<St_s0> {\n    fn step(mut self) -> (ToggleFsm, bool) {\n"));
    assert!(text.contains("return (ToggleFsm::St_s1(self.into_state()), true);"));
    assert!(text.contains("pub enum ToggleFsm {\n    St_s0(Toggle<St_s0>),\n    St_s1(Toggle<St_s1>),\n    __Moving,\n}"));
    assert!(text.contains("Self::St_s0(Toggle::new())"));
}

#[test]
fn return_in_an_action_keeps_the_value_based_fsm() {
    let mut a = fsm_actor();
    a.actions[0].stmts.push(Stmt::Return);
    assert!(!typestate_actor(&a, true));
    assert_eq!(actor_type(&a, true), "Toggle");
    assert!(emit_actor(&a, true).contains("enum ToggleState"));
}

#[test]
fn actor_types_and_ports_by_mode() {
    let a = fsm_actor();
    assert_eq!(actor_type(&a, true), "ToggleFsm");
    assert_eq!(actor_type(&a, false), "Toggle");
    assert_eq!(actor_port(&a, true, "inst", "Out"), "inst.port_Out_mut()");
    assert_eq!(actor_port(&a, false, "inst", "Out"), "inst.port_Out");
}

#[test]
fn state_ports_and_port_params() {
    let mut a = copy_actor();
    a.parameters.push(ActorParameter { name: "gain".to_string(), typ: int_ty(), default: None });
    a.vars.push(VarDef { name: "n".to_string(), typ: int_ty(), arrays: vec![], const_assign: false, assign: None });
    let s = actor_state(&a);
    assert!(s.contains("gain") && s.contains("n") && !s.contains("x"));
    assert_eq!(
        port_types(&a),
        vec![("In".to_string(), "InPort<i64>".to_string()), ("Out".to_string(), "OutPort<i64>".to_string())]
    );
    assert_eq!(port_params(&a), ", self.port_In: &mut VecDeque<i64>, self.port_Out: &mut VecDeque<i64>");
}

#[test]
fn priorities_order_stably() {
    let mut a = bare_actor("P");
    a.actions.push(action("a"));
    a.actions.push(action("b"));
    a.actions.push(action("c"));
    a.priorities.push(ActionPriority { order: vec!["c".to_string(), "a".to_string()] });
    let p = Priorities::new(&a);
    let cands: Vec<&Action> = a.actions.iter().collect();
    assert_eq!(p.order(&a, &cands), vec![1, 2, 0]);
}

#[test]
fn no_priorities_keep_declaration_order() {
    let mut a = bare_actor("Q");
    a.actions.push(action("x"));
    a.actions.push(action("y"));
    let p = Priorities::new(&a);
    let cands: Vec<&Action> = a.actions.iter().collect();
    assert_eq!(p.order(&a, &cands), vec![0, 1]);
}

#[test]
fn priority_entries_denote_tagged_actions() {
    let mut a = bare_actor("T");
    a.actions.push(action("z"));
    a.actions.push(action("t.x"));
    a.actions.push(action("t.y"));
    a.priorities.push(ActionPriority { order: vec!["t".to_string(), "z".to_string()] });
    let p = Priorities::new(&a);
    let cands: Vec<&Action> = a.actions.iter().collect();
    assert_eq!(p.order(&a, &cands), vec![1, 2, 0]);
}

#[test]
fn cyclic_priorities_fall_back_to_declaration_order() {
    let mut a = bare_actor("C");
    a.actions.push(action("a"));
    a.actions.push(action("b"));
    a.priorities.push(ActionPriority { order: vec!["a".to_string(), "b".to_string()] });
    a.priorities.push(ActionPriority { order: vec!["b".to_string(), "a".to_string()] });
    let p = Priorities::new(&a);
    let cands: Vec<&Action> = a.actions.iter().collect();
    assert_eq!(p.order(&a, &cands), vec![0, 1]);
    assert_eq!(
        p.cycle_warning(&a, &cands),
        Some("warning: actor C: priorities are cyclic over [a, b]; using declaration order for those actions".to_string())
    );
}

#[test]
fn acyclic_part_comes_first_then_the_cycle_in_declaration_order() {
    let mut a = bare_actor("C");
    a.actions.push(action("a"));
    a.actions.push(action("b"));
    a.actions.push(action("c"));
    a.priorities.push(ActionPriority { order: vec!["a".to_string(), "b".to_string()] });
    a.priorities.push(ActionPriority { order: vec!["b".to_string(), "a".to_string()] });
    let p = Priorities::new(&a);
    let cands: Vec<&Action> = a.actions.iter().collect();
    assert_eq!(p.order(&a, &cands), vec![2, 0, 1]);
    assert_eq!(
        p.cycle_warning(&a, &cands),
        Some("warning: actor C: priorities are cyclic over [a, b]; using declaration order for those actions".to_string())
    );
    assert_eq!(
        actor_warnings(&a, false),
        vec!["warning: actor C: priorities are cyclic over [a, b]; using declaration order for those actions".to_string()]
    );
}

#[test]
fn acyclic_priorities_give_no_warning() {
    let mut a = bare_actor("C");
    a.actions.push(action("a"));
    a.actions.push(action("b"));
    a.priorities.push(ActionPriority { order: vec!["b".to_string(), "a".to_string()] });
    let p = Priorities::new(&a);
    let cands: Vec<&Action> = a.actions.iter().collect();
    assert_eq!(p.cycle_warning(&a, &cands), None);
    assert!(actor_warnings(&a, false).is_empty());
}

#[test]
fn unmatched_priority_entry_is_reported_and_ignored() {
    let mut a = bare_actor("U");
    a.actions.push(action("a"));
    a.actions.push(action("b"));
    a.priorities.push(ActionPriority { order: vec!["zz".to_string(), "a".to_string()] });
    let p = Priorities::new(&a);
    let cands: Vec<&Action> = a.actions.iter().collect();
    assert_eq!(p.order(&a, &cands), vec![0, 1]);
    let expected = vec!["warning: actor U: priority entry 'zz' matches no action; ignoring it".to_string()];
    assert_eq!(priority_entry_warnings(&a), expected);
    assert_eq!(actor_warnings(&a, false), expected);
}

#[test]
fn typestate_fallback_and_initializer_inputs_are_reported() {
    let mut a = fsm_actor();
    a.actions[0].stmts.push(Stmt::Return);
    let mut init = action("start");
    init.input_patterns.push(InputPattern { port: "In".to_string(), ids: vec!["x".to_string()], repeat: None });
    a.init = Some(init);
    assert_eq!(
        actor_warnings(&a, true),
        vec![
            "warning: actor Toggle: 'return' inside an action is unsupported by --typestate; emitting the value-based FSM for this actor".to_string(),
            "warning: actor Toggle: initialize action consumes from port In; it fires only if tokens are already available at startup".to_string(),
        ]
    );
    assert_eq!(
        actor_warnings(&a, false),
        vec!["warning: actor Toggle: initialize action consumes from port In; it fires only if tokens are already available at startup".to_string()]
    );
    assert!(actor_warnings(&fsm_actor(), true).is_empty());
}

#[test]
fn actor_map_insert_then_get() {
    let mut m = ActorMap::new();
    m.insert("B".to_string(), Box::new(bare_actor("first")));
    m.insert("A".to_string(), Box::new(bare_actor("a")));
    m.insert("B".to_string(), Box::new(bare_actor("second")));
    assert_eq!(m.len(), 2);
    assert!(m.contains_key("A"));
    assert!(!m.contains_key("C"));
    assert_eq!(m.get("B").map(|a| a.name.clone()), Some("second".to_string()));
    assert!(m.get("C").is_none());
    assert_eq!(m.entries[0].0, "A");
    assert_eq!(m.entries[1].0, "B");
}
