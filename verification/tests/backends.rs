use crt::ast::{Action, Actor, Expr, InputPattern, OutputExpr, Port, Type, Unit};
use crt::codegen::common::scaffold::{emit_main_prelude, emit_shared_decls, instance_args, Channels};
use crt::codegen::tokio::emit_task_run;
use crt::codegen::{ActorMap, Backend, CodeGenerator, Options, Program};
use crt::network::{Edge, Instance, Network, Param};

fn int_type() -> Type {
    Type { name: "int".to_string(), non_standard: false, size: None, list: None }
}

fn skeleton(name: &str) -> Actor {
    Actor {
        name: name.to_string(),
        parameters: vec![],
        inports: vec![],
        outports: vec![],
        vars: vec![],
        functions: vec![],
        procedures: vec![],
        native_functions: vec![],
        native_procedures: vec![],
        actions: vec![],
        init: None,
        fsm: None,
        priorities: vec![],
        fsm_enums: vec![],
    }
}

fn source_actor() -> Actor {
    let mut a = skeleton("Src");
    a.outports.push(Port { name: "Out".to_string(), typ: int_type() });
    a.actions.push(Action {
        name: "go".to_string(),
        guards: vec![],
        input_patterns: vec![],
        output_expressions: vec![OutputExpr {
            port: "Out".to_string(),
            expressions: vec![Expr::Literal { negation: false, value: "1".to_string() }],
            repeat: None,
        }],
        vars: vec![],
        stmts: vec![],
    });
    a
}

fn sink_actor() -> Actor {
    let mut a = skeleton("Sink");
    a.inports.push(Port { name: "In".to_string(), typ: int_type() });
    a.actions.push(Action {
        name: "eat".to_string(),
        guards: vec![],
        input_patterns: vec![InputPattern { port: "In".to_string(), ids: vec!["x".to_string()], repeat: None }],
        output_expressions: vec![],
        vars: vec![],
        stmts: vec![],
    });
    a
}

fn instance(id: &str, class: &str) -> Instance {
    Instance { id: id.to_string(), class_name: class.to_string(), parameters: vec![] }
}

fn edge(src: &str, sp: &str, dst: &str, dp: &str) -> Edge {
    Edge { src_id: src.to_string(), src_port: sp.to_string(), dst_id: dst.to_string(), dst_port: dp.to_string(), fifo_size: 0 }
}

fn sample_network() -> Network {
    Network {
        name: "Pipe Line".to_string(),
        instances: vec![instance("s", "Src"), instance("k", "Sink"), instance("ghost", "Missing")],
        edges: vec![edge("s", "Out", "k", "In"), edge("s", "Out", "ghost", "In")],
        class_paths: vec![],
    }
}

fn sample_actors() -> ActorMap {
    let mut m = ActorMap::new();
    m.insert("Src".to_string(), Box::new(source_actor()));
    m.insert("Sink".to_string(), Box::new(sink_actor()));
    m
}

#[test]
fn prelude_wires_known_instances_only() {
    let network = sample_network();
    let actors = sample_actors();
    let units: Vec<Unit> = vec![];
    let sources: Vec<String> = vec![];
    let program = Program { network: &network, actors: &actors, units: &units, native_sources: &sources };
    let (instances, text) = emit_main_prelude(&program, false, Channels::Local, false);
    assert_eq!(instances.iter().map(|i| i.id.clone()).collect::<Vec<_>>(), vec!["s".to_string(), "k".to_string()]);
    assert_eq!(
        text,
        "fn main() {\n    let ch_k_In = Rc::new(RefCell::new(VecDeque::<i64>::new()));\n    let mut inst_s = m_Src::Src::new(OutPort::one(ch_k_In.clone()));\n    let mut inst_k = m_Sink::Sink::new(InPort::new(ch_k_In.clone()));\n"
    );
}

#[test]
fn crossbeam_prelude_uses_channel_ends() {
    let network = sample_network();
    let actors = sample_actors();
    let units: Vec<Unit> = vec![];
    let sources: Vec<String> = vec![];
    let program = Program { network: &network, actors: &actors, units: &units, native_sources: &sources };
    let (_, text) = emit_main_prelude(&program, false, Channels::Crossbeam, false);
    assert!(text.contains(
        "    let (tx_k_In, rx_k_In) = if CAP == 0 { crossbeam_channel::unbounded::<i64>() } else { crossbeam_channel::bounded::<i64>(CAP) };\n"
    ));
    assert!(text.contains("m_Src::Src::new(OutPort::one(tx_k_In.clone()))"));
    assert!(text.contains("m_Sink::Sink::new(InPort::new(rx_k_In))"));
}

#[test]
fn instance_arguments_prefer_network_values_then_defaults() {
    let mut a = skeleton("G");
    a.parameters.push(crt::ast::ActorParameter { name: "gain".to_string(), typ: int_type(), default: None });
    a.parameters.push(crt::ast::ActorParameter {
        name: "bias".to_string(),
        typ: int_type(),
        default: Some(Expr::Literal { negation: true, value: "3".to_string() }),
    });
    a.parameters.push(crt::ast::ActorParameter { name: "off".to_string(), typ: int_type(), default: None });
    let mut inst = instance("g", "G");
    inst.parameters.push(Param { key: "gain".to_string(), value: "4".to_string() });
    inst.parameters.push(Param { key: "gain".to_string(), value: "9".to_string() });
    assert_eq!(instance_args(&inst, &a), "4, -3, 0");
}

#[test]
fn shared_declarations_of_an_empty_program_are_empty() {
    let network = sample_network();
    let actors = sample_actors();
    let units: Vec<Unit> = vec![];
    let sources: Vec<String> = vec![];
    let program = Program { network: &network, actors: &actors, units: &units, native_sources: &sources };
    assert_eq!(emit_shared_decls(&program, false), "");
}

#[test]
fn generators_by_backend() {
    let options = Options { cap: 0, fire_budget: 0, typestate: false };
    assert_eq!(Backend::Naive.generator(options).name(), "naive");
    assert_eq!(Backend::Threads.generator(options).name(), "threads");
    assert_eq!(Backend::Rayon.generator(options).name(), "rayon");
    assert_eq!(Backend::Tokio.generator(options).name(), "tokio");
    assert_eq!(Backend::Naive.generator(options).extra_deps(), "");
    assert_eq!(Backend::Threads.generator(options).extra_deps(), "crossbeam-channel = \"0.5\"\n");
    assert_eq!(Backend::Rayon.generator(options).extra_deps(), "rayon = \"1\"\ncrossbeam-channel = \"0.5\"\n");
    assert!(Backend::Tokio.generator(options).extra_deps().starts_with("tokio = { version = \"1\""));
}

#[test]
fn fire_budget_zero_means_unlimited() {
    assert_eq!(Options { cap: 1, fire_budget: 0, typestate: false }.fire_budget_literal(), "usize::MAX");
    assert_eq!(Options { cap: 1, fire_budget: 64, typestate: false }.fire_budget_literal(), "64");
}

#[test]
fn naive_files_are_modules_then_main() {
    let network = sample_network();
    let actors = sample_actors();
    let units: Vec<Unit> = vec![];
    let sources: Vec<String> = vec![];
    let program = Program { network: &network, actors: &actors, units: &units, native_sources: &sources };
    let generator = Backend::Naive.generator(Options { cap: 16, fire_budget: 0, typestate: false });
    let files = generator.files(&program, false);
    let names: Vec<String> = files.iter().map(|f| f.0.clone()).collect();
    assert_eq!(names, vec!["m_Sink.rs".to_string(), "m_Src.rs".to_string(), "main.rs".to_string()]);
    assert!(files[0].1.starts_with("#![allow(warnings)]\nuse std::collections::VecDeque;\nuse super::*;\n\npub struct Sink {"));
    let main = &files[2].1;
    assert!(main.starts_with("#![allow(warnings)]\nuse std::cell::RefCell;\nuse std::collections::VecDeque;\nuse std::rc::Rc;\n\nmod m_Sink;\nmod m_Src;\n\nconst CAP: usize = 16;\n\npub struct InPort<T> {"));
    assert!(main.ends_with("    loop {\n        inst_s.fire();\n        inst_k.fire();\n    }\n}\n"));
}

#[test]
fn threads_and_rayon_budget_the_firings() {
    let network = sample_network();
    let actors = sample_actors();
    let units: Vec<Unit> = vec![];
    let sources: Vec<String> = vec![];
    let program = Program { network: &network, actors: &actors, units: &units, native_sources: &sources };
    let options = Options { cap: 8, fire_budget: 0, typestate: false };
    let threads = Backend::Threads.generator(options).files(&program, false);
    let main = &threads[threads.len() - 1].1;
    assert!(main.contains("const CAP: usize = 8;\nconst FIRE_BUDGET: usize = usize::MAX;\n\n"));
    assert!(main.contains("    let inst_s = std::sync::Mutex::new(inst_s);\n"));
    assert!(main.contains("if let Ok(mut __actor) = inst_s.try_lock() { let mut __n = 0usize; while __n < FIRE_BUDGET && __actor.fire() { __n += 1; } __actor.port_Out.pump(); __idle &= __n == 0; }"));
    let rayon = Backend::Rayon.generator(Options { cap: 8, fire_budget: 32, typestate: false }).files(&program, false);
    let main = &rayon[rayon.len() - 1].1;
    assert!(main.contains("const FIRE_BUDGET: usize = 32;"));
    assert!(main.contains("s.spawn(|_| { let mut __n = 0usize; while __n < FIRE_BUDGET && inst_s.fire() { __n += 1; } inst_s.port_Out.pump(); });"));
}

#[test]
fn tokio_wires_every_edge_with_credits() {
    let network = sample_network();
    let actors = sample_actors();
    let units: Vec<Unit> = vec![];
    let sources: Vec<String> = vec![];
    let program = Program { network: &network, actors: &actors, units: &units, native_sources: &sources };
    let files = Backend::Tokio.generator(Options { cap: 0, fire_budget: 0, typestate: false }).files(&program, false);
    let main = &files[files.len() - 1].1;
    assert!(main.contains("pub type Tx<T> = tokio::sync::mpsc::UnboundedSender<Vec<T>>;"));
    assert!(main.contains("    let (tx_k_In, rx_k_In) = tokio::sync::mpsc::unbounded_channel::<Vec<i64>>();\n    let cr_k_In = credit();\n"));
    assert!(main.contains(
        "    let inst_s = m_Src::Src::new(OutPort::many(vec![(tx_k_In.clone(), cr_k_In.clone()), (tx_ghost_In.clone(), cr_ghost_In.clone())]));\n"
    ));
    assert!(main.contains("    __set.spawn(m_Sink::run_Sink(inst_k, rx_k_In));\n"));
    assert!(main.contains("    drop(tx_k_In);\n"));
    assert!(files[0].1.contains("pub async fn run_Sink(mut __actor: Sink, mut rx_In: Rx<i64>) {\nlet mut open_In = true;\n"));
    let bounded = Backend::Tokio.generator(Options { cap: 4, fire_budget: 0, typestate: false }).files(&program, false);
    let main = &bounded[bounded.len() - 1].1;
    assert!(main.contains("tokio::sync::mpsc::channel::<Vec<i64>>(CAP)"));
    assert!(main.contains("let _ = tx.send(chunk).await;"));
}

#[test]
fn shared_declarations_keep_first_definition_per_name() {
    let ty = int_type();
    let one = Expr::Literal { negation: false, value: "1".to_string() };
    let two = Expr::Literal { negation: false, value: "2".to_string() };
    let f1 = crt::ast::Function { name: "k".to_string(), parameters: vec![], ret_type: int_type(), expr: one };
    let f2 = crt::ast::Function { name: "k".to_string(), parameters: vec![], ret_type: int_type(), expr: two };
    let c = crt::ast::VarDef {
        name: "N".to_string(),
        typ: ty,
        arrays: vec![],
        const_assign: true,
        assign: Some(Expr::Literal { negation: false, value: "3".to_string() }),
    };
    let units = vec![
        Unit { name: "A".to_string(), functions: vec![f1], procedures: vec![], vars: vec![c], native_functions: vec![], native_procedures: vec![] },
        Unit { name: "B".to_string(), functions: vec![f2], procedures: vec![], vars: vec![], native_functions: vec![], native_procedures: vec![] },
    ];
    let network = sample_network();
    let actors = sample_actors();
    let sources: Vec<String> = vec![];
    let program = Program { network: &network, actors: &actors, units: &units, native_sources: &sources };
    assert_eq!(emit_shared_decls(&program, false), "const N: i64 = 3;\n\nfn k() -> i64 {\n    1\n}\n\n");
}

#[test]
fn tokio_tasks_by_port_shape() {
    let idle = skeleton("Idle");
    assert_eq!(emit_task_run(&idle, false), "pub async fn run_Idle(mut __actor: Idle) {\nwhile __actor.fire() {\n}\n}\n");
    let src = source_actor();
    assert_eq!(
        emit_task_run(&src, false),
        "pub async fn run_Src(mut __actor: Src) {\nloop {\nwhile __actor.fire() {\n__actor.port_Out.flush().await;\n}\nif !(__actor.port_Out.has_room()) { tokio::task::yield_now().await; continue; }\nif __actor.fire() {\n__actor.port_Out.flush().await;\ncontinue;\n}\nbreak;\n}\n}\n"
    );
    let sink = sink_actor();
    assert_eq!(
        emit_task_run(&sink, false),
        "pub async fn run_Sink(mut __actor: Sink, mut rx_In: Rx<i64>) {\nlet mut open_In = true;\nloop {\nwhile __actor.fire() {\n}\nif !open_In { break; }\ntokio::select! {\nbiased;\n__m = rx_In.recv(), if open_In => { match __m { Some(__c) => { __actor.port_In.extend(__c); } None => { open_In = false; } } }\nelse => { break; }\n}\n}\n}\n"
    );
}
