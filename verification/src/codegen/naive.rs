//! The naive backend: one thread visits every instance in turn, forever;
//! instances are connected by shared queues.
use vstd::prelude::*;

use crate::codegen::common::scaffold::{
    emit_main_prelude, emit_shared_decls, main_prelude_text, present_instances, shared_decls_text, Channels,
};
use crate::codegen::layout::{actor_files, emit_actor_files, emit_mods, emit_visits, file_views, mods_text, visits_text, with_main, Visit};
use crate::codegen::{CodeGenerator, Program};
use crate::text::{cat3, decimal, decimal_string};

verus! {

/// The naive backend.
pub struct Naive {
    pub cap: usize,
    pub typestate: bool,
}

impl CodeGenerator for Naive {
    fn name(&self) -> (res: &'static str)
        ensures
            res@ == "naive"@,
    {
        "naive"
    }

    fn extra_deps(&self) -> (res: &'static str)
        ensures
            res@ == ""@,
    {
        ""
    }

    fn files(&self, program: &Program, orcc: bool) -> (res: Vec<(String, String)>)
        ensures
            file_views(res@) == actor_files(*program.actors, self.typestate, false).push(("main.rs"@, naive_main_file_text(*program, self.cap, orcc, self.typestate))),
    {
        emit_files(program, self.cap, orcc, self.typestate)
    }
}

/// The ports of the naive backend, over shared queues.
pub const PORTS_RS: &'static str = r"pub struct InPort<T> {
    chan: Rc<RefCell<VecDeque<T>>>,
}

impl<T: Clone> InPort<T> {
    pub fn new(chan: Rc<RefCell<VecDeque<T>>>) -> Self {
        Self { chan }
    }
    pub fn avail(&mut self, n: usize) -> bool {
        self.chan.borrow().len() >= n
    }
    pub fn peek(&self, i: usize) -> T {
        self.chan.borrow()[i].clone()
    }
    pub fn recv(&mut self) -> T {
        self.chan.borrow_mut().pop_front().unwrap()
    }
    pub fn pop_front(&mut self) -> Option<T> {
        self.chan.borrow_mut().pop_front()
    }
}

pub enum OutPort<T> {
    None,
    One(Rc<RefCell<VecDeque<T>>>),
    Many(Vec<Rc<RefCell<VecDeque<T>>>>),
}

impl<T: Clone> OutPort<T> {
    pub fn none() -> Self {
        Self::None
    }
    pub fn one(target: Rc<RefCell<VecDeque<T>>>) -> Self {
        Self::One(target)
    }
    pub fn many(targets: Vec<Rc<RefCell<VecDeque<T>>>>) -> Self {
        Self::Many(targets)
    }
    pub fn has_room(&mut self) -> bool {
        if CAP == 0 {
            return true;
        }
        match self {
            Self::None => true,
            Self::One(target) => target.borrow().len() < CAP,
            Self::Many(targets) => targets.iter().all(|t| t.borrow().len() < CAP),
        }
    }
    pub fn push_back(&mut self, value: T) {
        match self {
            Self::None => {}
            Self::One(target) => target.borrow_mut().push_back(value),
            Self::Many(targets) => {
                for target in targets {
                    target.borrow_mut().push_back(value.clone());
                }
            }
        }
    }
}
";

/// The `main` of the naive backend: after the prelude, visit every instance
/// in turn, forever.
pub open spec fn naive_main_text(program: Program, orcc: bool, typestate: bool) -> Seq<char> {
    let classes = program.actors.to_map();
    main_prelude_text(program, orcc, Channels::Local, typestate) + "    loop {\n"@ + visits_text(
        classes,
        present_instances(program.network.instances@, classes),
        Visit::Fire,
        typestate,
    ) + "    }\n}\n"@
}

/// The `main` of the naive backend.
pub fn emit_main(program: &Program, orcc: bool, typestate: bool) -> (res: String)
    requires
        program.actors.wf(),
    ensures
        res@ == naive_main_text(*program, orcc, typestate),
{
    let (instances, prelude) = emit_main_prelude(program, orcc, Channels::Local, typestate);
    let fires = emit_visits(program.actors, &instances, Visit::Fire, typestate);
    let mut out = cat3(prelude.as_str(), "    loop {\n", fires.as_str());
    out.append("    }\n}\n");
    out
}

/// The `main.rs` of the naive backend.
pub open spec fn naive_main_file_text(program: Program, cap: usize, orcc: bool, typestate: bool) -> Seq<char> {
    "#![allow(warnings)]\nuse std::cell::RefCell;\nuse std::collections::VecDeque;\nuse std::rc::Rc;\n\n"@ + mods_text(*program.actors)
        + "\n"@ + "const CAP: usize = "@ + decimal(cap as nat) + ";\n\n"@ + PORTS_RS@ + "\n"@ + shared_decls_text(program, orcc)
        + naive_main_text(program, orcc, typestate)
}

/// The files of the naive backend: a module per actor class, then `main.rs`.
pub fn emit_files(program: &Program, cap: usize, orcc: bool, typestate: bool) -> (res: Vec<(String, String)>)
    requires
        program.actors.wf(),
    ensures
        file_views(res@) == actor_files(*program.actors, typestate, false).push(
            ("main.rs"@, naive_main_file_text(*program, cap, orcc, typestate)),
        ),
{
    let files = emit_actor_files(program.actors, typestate, false);
    let mods = emit_mods(program.actors);
    let cap_text = decimal_string(cap);
    let shared = emit_shared_decls(program, orcc);
    let main_fn = emit_main(program, orcc, typestate);
    let mut main = cat3(
        "#![allow(warnings)]\nuse std::cell::RefCell;\nuse std::collections::VecDeque;\nuse std::rc::Rc;\n\n",
        mods.as_str(),
        "\n",
    );
    main.append("const CAP: usize = ");
    main.append(cap_text.as_str());
    main.append(";\n\n");
    main.append(PORTS_RS);
    main.append("\n");
    main.append(shared.as_str());
    main.append(main_fn.as_str());
    with_main(files, main)
}

} // verus!
