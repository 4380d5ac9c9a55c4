//! The threads backend: a pool of OS threads contend for mutex-guarded
//! instances; each fires the instance it holds within the budget, then pumps
//! its output ports.
use vstd::prelude::*;

use crate::codegen::common::ports::CROSSBEAM_PORTS;
use crate::codegen::common::scaffold::{
    emit_main_prelude, emit_shared_decls, main_prelude_text, present_instances, shared_decls_text, Channels,
};
use crate::codegen::layout::{actor_files, emit_actor_files, emit_mods, emit_visits, file_views, mods_text, visits_text, with_main, Visit};
use crate::codegen::{fire_budget_text, CodeGenerator, Options, Program};
use crate::text::{cat3, decimal, decimal_string};

verus! {

/// The threads backend.
pub struct Threads {
    pub options: Options,
}

impl CodeGenerator for Threads {
    fn name(&self) -> (res: &'static str)
        ensures
            res@ == "threads"@,
    {
        "threads"
    }

    fn extra_deps(&self) -> (res: &'static str)
        ensures
            res@ == THREADS_DEPS@,
    {
        THREADS_DEPS
    }

    fn files(&self, program: &Program, orcc: bool) -> (res: Vec<(String, String)>)
        ensures
            file_views(res@) == actor_files(*program.actors, self.options.typestate, false).push(("main.rs"@, threads_main_file_text(*program, self.options, orcc))),
    {
        emit_files(program, self.options, orcc)
    }
}

/// The dependency on crossbeam's channels.
pub const THREADS_DEPS: &'static str = "crossbeam-channel = \"0.5\"\n";

/// How many worker threads run: `CRT_THREADS` when it is a positive number,
/// else the available parallelism; then the start of their loop.
pub const WORKERS_HEAD: &'static str = "    let __threads = std::env::var(\"CRT_THREADS\")\n        .ok()\n        .and_then(|value| value.parse::<usize>().ok())\n        .filter(|count| *count > 0)\n        .unwrap_or_else(|| std::thread::available_parallelism().map_or(1, |count| count.get()));\n    std::thread::scope(|s| {\n        for _ in 0..__threads {\n            s.spawn(|| {\n                loop {\n                    let mut __idle = true;\n";

/// The end of the workers' loop: a worker that found nothing to fire yields.
pub const WORKERS_TAIL: &'static str = "                    if __idle { std::thread::yield_now(); }\n                }\n            });\n        }\n    });\n}\n";

/// The `main` of the threads backend: after the prelude, every instance
/// behind a mutex, and workers that visit the instances they can lock.
pub open spec fn threads_main_text(program: Program, orcc: bool, typestate: bool) -> Seq<char> {
    let classes = program.actors.to_map();
    let insts = present_instances(program.network.instances@, classes);
    main_prelude_text(program, orcc, Channels::Crossbeam, typestate) + visits_text(classes, insts, Visit::Lock, typestate)
        + WORKERS_HEAD@ + visits_text(classes, insts, Visit::Worker, typestate) + WORKERS_TAIL@
}

/// The `main` of the threads backend.
pub fn emit_main(program: &Program, orcc: bool, typestate: bool) -> (res: String)
    requires
        program.actors.wf(),
    ensures
        res@ == threads_main_text(*program, orcc, typestate),
{
    let (instances, prelude) = emit_main_prelude(program, orcc, Channels::Crossbeam, typestate);
    let locks = emit_visits(program.actors, &instances, Visit::Lock, typestate);
    let workers = emit_visits(program.actors, &instances, Visit::Worker, typestate);
    let mut out = cat3(prelude.as_str(), locks.as_str(), WORKERS_HEAD);
    out.append(workers.as_str());
    out.append(WORKERS_TAIL);
    out
}

/// The `main.rs` of the threads backend.
pub open spec fn threads_main_file_text(program: Program, options: Options, orcc: bool) -> Seq<char> {
    "#![allow(warnings)]\nuse std::collections::VecDeque;\n\n"@ + mods_text(*program.actors) + "\n"@ + "const CAP: usize = "@ + decimal(
        options.cap as nat,
    ) + ";\n"@ + "const FIRE_BUDGET: usize = "@ + fire_budget_text(options.fire_budget as nat) + ";\n\n"@ + CROSSBEAM_PORTS@ + "\n"@
        + shared_decls_text(program, orcc) + threads_main_text(program, orcc, options.typestate)
}

/// The files of the threads backend: a module per actor class, then
/// `main.rs`.
pub fn emit_files(program: &Program, options: Options, orcc: bool) -> (res: Vec<(String, String)>)
    requires
        program.actors.wf(),
    ensures
        file_views(res@) == actor_files(*program.actors, options.typestate, false).push(
            ("main.rs"@, threads_main_file_text(*program, options, orcc)),
        ),
{
    let files = emit_actor_files(program.actors, options.typestate, false);
    let mods = emit_mods(program.actors);
    let cap_text = decimal_string(options.cap);
    let budget = options.fire_budget_literal();
    let shared = emit_shared_decls(program, orcc);
    let main_fn = emit_main(program, orcc, options.typestate);
    let mut main = cat3("#![allow(warnings)]\nuse std::collections::VecDeque;\n\n", mods.as_str(), "\n");
    main.append("const CAP: usize = ");
    main.append(cap_text.as_str());
    main.append(";\n");
    main.append("const FIRE_BUDGET: usize = ");
    main.append(budget.as_str());
    main.append(";\n\n");
    main.append(CROSSBEAM_PORTS);
    main.append("\n");
    main.append(shared.as_str());
    main.append(main_fn.as_str());
    with_main(files, main)
}

} // verus!
