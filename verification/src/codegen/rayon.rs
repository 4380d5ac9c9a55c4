//! The rayon backend: rounds of a `rayon::scope`, in which every instance
//! fires within the budget as a task, then pumps its output ports.
use vstd::prelude::*;

use crate::codegen::common::ports::CROSSBEAM_PORTS;
use crate::codegen::common::scaffold::{
    emit_main_prelude, emit_shared_decls, main_prelude_text, present_instances, shared_decls_text, Channels,
};
use crate::codegen::layout::{actor_files, emit_actor_files, emit_mods, emit_visits, file_views, mods_text, visits_text, with_main, Visit};
use crate::codegen::{fire_budget_text, CodeGenerator, Options, Program};
use crate::text::{cat3, decimal, decimal_string};

verus! {

/// The rayon backend.
pub struct Rayon {
    pub options: Options,
}

impl CodeGenerator for Rayon {
    fn name(&self) -> (res: &'static str)
        ensures
            res@ == "rayon"@,
    {
        "rayon"
    }

    fn extra_deps(&self) -> (res: &'static str)
        ensures
            res@ == RAYON_DEPS@,
    {
        RAYON_DEPS
    }

    fn files(&self, program: &Program, orcc: bool) -> (res: Vec<(String, String)>)
        ensures
            file_views(res@) == actor_files(*program.actors, self.options.typestate, false).push(("main.rs"@, rayon_main_file_text(*program, self.options, orcc))),
    {
        emit_files(program, self.options, orcc)
    }
}

/// The dependencies on rayon and crossbeam's channels.
pub const RAYON_DEPS: &'static str = "rayon = \"1\"\ncrossbeam-channel = \"0.5\"\n";

/// The `main` of the rayon backend: after the prelude, rounds in which every
/// instance fires as a task of the round's scope.
pub open spec fn rayon_main_text(program: Program, orcc: bool, typestate: bool) -> Seq<char> {
    let classes = program.actors.to_map();
    main_prelude_text(program, orcc, Channels::Crossbeam, typestate) + "    loop {\n        rayon::scope(|s| {\n"@ + visits_text(
        classes,
        present_instances(program.network.instances@, classes),
        Visit::Spawn,
        typestate,
    ) + "        });\n    }\n}\n"@
}

/// The `main` of the rayon backend.
pub fn emit_main(program: &Program, orcc: bool, typestate: bool) -> (res: String)
    requires
        program.actors.wf(),
    ensures
        res@ == rayon_main_text(*program, orcc, typestate),
{
    let (instances, prelude) = emit_main_prelude(program, orcc, Channels::Crossbeam, typestate);
    let spawns = emit_visits(program.actors, &instances, Visit::Spawn, typestate);
    let mut out = cat3(prelude.as_str(), "    loop {\n        rayon::scope(|s| {\n", spawns.as_str());
    out.append("        });\n    }\n}\n");
    out
}

/// The `main.rs` of the rayon backend.
pub open spec fn rayon_main_file_text(program: Program, options: Options, orcc: bool) -> Seq<char> {
    "#![allow(warnings)]\nuse std::collections::VecDeque;\n\n"@ + mods_text(*program.actors) + "\n"@ + "const CAP: usize = "@ + decimal(
        options.cap as nat,
    ) + ";\n"@ + "const FIRE_BUDGET: usize = "@ + fire_budget_text(options.fire_budget as nat) + ";\n\n"@ + CROSSBEAM_PORTS@ + "\n"@
        + shared_decls_text(program, orcc) + rayon_main_text(program, orcc, options.typestate)
}

/// The files of the rayon backend: a module per actor class, then `main.rs`.
pub fn emit_files(program: &Program, options: Options, orcc: bool) -> (res: Vec<(String, String)>)
    requires
        program.actors.wf(),
    ensures
        file_views(res@) == actor_files(*program.actors, options.typestate, false).push(
            ("main.rs"@, rayon_main_file_text(*program, options, orcc)),
        ),
{
    let files = emit_actor_files(program.actors, options.typestate, false);
    let mods = emit_mods(program.actors);
    let cap_text = decimal_string(options.cap);
    let budget = options.fire_budget_literal();
    let shared = emit_shared_decls(program, orcc);
    let main_fn = emit_main(program, orcc, options.typestate);
    let mut main = cat3("#![allow(warnings)]\nuse std::collections::VecDeque;\n\n", mods.as_str(), "\n");
    main.append("const CAP: usize = ");
    main.append(cap_text.as_str());
    main.append(";\n");
    main.append("const FIRE_BUDGET: usize = ");
    main.append(budget.as_str());
    main.append(";\n\n");
    main.append(CROSSBEAM_PORTS);
    main.append("\n");
    main.append(shared.as_str());
    main.append(main_fn.as_str());
    with_main(files, main)
}

} // verus!
