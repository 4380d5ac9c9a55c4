//! The files of a generated project that every backend lays out alike: one
//! module per actor class, declared from `main.rs`.
use vstd::prelude::*;

use crate::ast::{Actor, Port};
use crate::codegen::common::actor::{actor_port, actor_port_text, actor_text, emit_actor};
use crate::codegen::common::names::{actor_mod, actor_mod_text, inst_var, inst_var_text};
use crate::codegen::common::scaffold::instance_derefs;
use crate::network::Instance;
use crate::codegen::tokio::{emit_task_run, task_run_text};
use crate::codegen::ActorMap;
use crate::text::{cat2, cat3, concat, owned};

verus! {

/// A generated file's name and contents.
pub open spec fn file_views(files: Seq<(String, String)>) -> Seq<(Seq<char>, Seq<char>)> {
    files.map_values(|f: (String, String)| (f.0@, f.1@))
}

/// The module of an actor class; with `tasks`, followed by its task.
pub open spec fn actor_file_text(actor: Actor, typestate: bool, tasks: bool) -> Seq<char> {
    "#![allow(warnings)]\nuse std::collections::VecDeque;\nuse super::*;\n\n"@ + actor_text(actor, typestate) + if tasks {
        "\n"@ + task_run_text(actor, typestate)
    } else {
        Seq::empty()
    }
}

/// The module files of the actor classes, in class order.
pub open spec fn actor_files(actors: ActorMap, typestate: bool, tasks: bool) -> Seq<(Seq<char>, Seq<char>)> {
    actors.entries@.map_values(
        |e: (String, Box<Actor>)| (actor_mod_text(e.1.name@) + ".rs"@, actor_file_text(*e.1, typestate, tasks)),
    )
}

/// The declarations of the actor modules, in class order.
pub open spec fn mods_text(actors: ActorMap) -> Seq<char> {
    concat(actors.entries@.map_values(|e: (String, Box<Actor>)| "mod "@ + actor_mod_text(e.1.name@) + ";\n"@))
}

/// The module files of the actor classes.
pub fn emit_actor_files(actors: &ActorMap, typestate: bool, tasks: bool) -> (res: Vec<(String, String)>)
    ensures
        file_views(res@) == actor_files(*actors, typestate, tasks),
{
    let ghost f = |e: (String, Box<Actor>)| (actor_mod_text(e.1.name@) + ".rs"@, actor_file_text(*e.1, typestate, tasks));
    let mut files: Vec<(String, String)> = Vec::new();
    let mut i: usize = 0;
    while i < actors.entries.len()
        invariant
            0 <= i <= actors.entries@.len(),
            f == (|e: (String, Box<Actor>)| (actor_mod_text(e.1.name@) + ".rs"@, actor_file_text(*e.1, typestate, tasks))),
            file_views(files@) == actors.entries@.take(i as int).map_values(f),
        decreases actors.entries.len() - i,
    {
        let actor: &Actor = &actors.entries[i].1;
        let body = emit_actor(actor, typestate);
        let tail = if tasks {
            let run = emit_task_run(actor, typestate);
            cat2("\n", run.as_str())
        } else {
            String::new()
        };
        let src = cat3("#![allow(warnings)]\nuse std::collections::VecDeque;\nuse super::*;\n\n", body.as_str(), tail.as_str());
        let m = actor_mod(actor.name.as_str());
        let name = cat2(m.as_str(), ".rs");
        let ghost before = files@;
        files.push((name, src));
        assert(file_views(files@) =~= file_views(before).push((name@, src@)));
        assert(actors.entries@.take(i + 1).map_values(f) =~= actors.entries@.take(i as int).map_values(f).push(
            f(actors.entries@[i as int]),
        ));
        i = i + 1;
    }
    assert(actors.entries@.take(actors.entries@.len() as int) =~= actors.entries@);
    files
}

/// The declarations of the actor modules.
pub fn emit_mods(actors: &ActorMap) -> (res: String)
    ensures
        res@ == mods_text(*actors),
{
    let ghost f = |e: (String, Box<Actor>)| "mod "@ + actor_mod_text(e.1.name@) + ";\n"@;
    let mut out = String::new();
    let mut i: usize = 0;
    while i < actors.entries.len()
        invariant
            0 <= i <= actors.entries@.len(),
            f == (|e: (String, Box<Actor>)| "mod "@ + actor_mod_text(e.1.name@) + ";\n"@),
            out@ == concat(actors.entries@.take(i as int).map_values(f)),
        decreases actors.entries.len() - i,
    {
        let m = actor_mod(actors.entries[i].1.name.as_str());
        let line = cat3("mod ", m.as_str(), ";\n");
        out.append(line.as_str());
        assert(actors.entries@.take(i + 1).map_values(f).drop_last() =~= actors.entries@.take(i as int).map_values(f));
        i = i + 1;
    }
    assert(actors.entries@.take(actors.entries@.len() as int) =~= actors.entries@);
    out
}

/// The generated `main.rs` after the actor files.
pub fn with_main(files: Vec<(String, String)>, main: String) -> (res: Vec<(String, String)>)
    ensures
        file_views(res@) == file_views(files@).push(("main.rs"@, main@)),
{
    let mut files = files;
    let ghost before = files@;
    let name = owned("main.rs");
    files.push((name, main));
    assert(file_views(files@) =~= file_views(before).push(("main.rs"@, main@)));
    files
}

/// Pumps every output port of `actor`, reached through `owner`.
pub open spec fn pumps_text(actor: Actor, typestate: bool, owner: Seq<char>) -> Seq<char> {
    concat(actor.outports@.map_values(|p: Port| " "@ + actor_port_text(actor, typestate, owner, p.name@) + ".pump();"@))
}

fn emit_pumps(actor: &Actor, typestate: bool, owner: &str) -> (res: String)
    ensures
        res@ == pumps_text(*actor, typestate, owner@),
{
    let ghost f = |p: Port| " "@ + actor_port_text(*actor, typestate, owner@, p.name@) + ".pump();"@;
    let mut out = String::new();
    let mut i: usize = 0;
    while i < actor.outports.len()
        invariant
            0 <= i <= actor.outports@.len(),
            f == (|p: Port| " "@ + actor_port_text(*actor, typestate, owner@, p.name@) + ".pump();"@),
            out@ == concat(actor.outports@.take(i as int).map_values(f)),
        decreases actor.outports.len() - i,
    {
        let r = actor_port(actor, typestate, owner, actor.outports[i].name.as_str());
        let x = cat3(" ", r.as_str(), ".pump();");
        out.append(x.as_str());
        assert(actor.outports@.take(i + 1).map_values(f).drop_last() =~= actor.outports@.take(i as int).map_values(f));
        i = i + 1;
    }
    assert(actor.outports@.take(actor.outports@.len() as int) =~= actor.outports@);
    out
}

/// What a scheduler does with one instance.
#[derive(Copy, Clone)]
pub enum Visit {
    /// Fire it once per round (naive).
    Fire,
    /// Guard it with a mutex (threads).
    Lock,
    /// Let a worker fire it within the budget when it is free (threads).
    Worker,
    /// Fire it within the budget as a task of the round's scope (rayon).
    Spawn,
}

/// The line of `main` for one instance and one kind of visit.
pub open spec fn visit_text(classes: Map<Seq<char>, Actor>, inst: Instance, visit: Visit, typestate: bool) -> Seq<char> {
    let v = inst_var_text(inst.id@);
    let actor = classes[inst.class_name@];
    match visit {
        Visit::Fire => "        "@ + v + ".fire();\n"@,
        Visit::Lock => "    let "@ + v + " = std::sync::Mutex::new("@ + v + ");\n"@,
        Visit::Worker => "                    if let Ok(mut __actor) = "@ + v
            + ".try_lock() { let mut __n = 0usize; while __n < FIRE_BUDGET && __actor.fire() { __n += 1; }"@ + pumps_text(
            actor,
            typestate,
            "__actor"@,
        ) + " __idle &= __n == 0; }\n"@,
        Visit::Spawn => "            s.spawn(|_| { let mut __n = 0usize; while __n < FIRE_BUDGET && "@ + v + ".fire() { __n += 1; }"@
            + pumps_text(actor, typestate, v) + " });\n"@,
    }
}

/// The lines of `main` for every instance, in order.
pub open spec fn visits_text(classes: Map<Seq<char>, Actor>, insts: Seq<Instance>, visit: Visit, typestate: bool) -> Seq<char> {
    concat(insts.map_values(|i: Instance| visit_text(classes, i, visit, typestate)))
}

fn emit_visit(actors: &ActorMap, inst: &Instance, visit: Visit, typestate: bool) -> (res: String)
    requires
        actors.wf(),
        actors.to_map().contains_key(inst.class_name@),
    ensures
        res@ == visit_text(actors.to_map(), *inst, visit, typestate),
{
    let v = inst_var(inst.id.as_str());
    match visit {
        Visit::Fire => cat3("        ", v.as_str(), ".fire();\n"),
        Visit::Lock => {
            let mut out = cat3("    let ", v.as_str(), " = std::sync::Mutex::new(");
            out.append(v.as_str());
            out.append(");\n");
            out
        },
        Visit::Worker => {
            let actor = actors.get(inst.class_name.as_str()).unwrap();
            let pumps = emit_pumps(actor, typestate, "__actor");
            let mut out = cat3(
                "                    if let Ok(mut __actor) = ",
                v.as_str(),
                ".try_lock() { let mut __n = 0usize; while __n < FIRE_BUDGET && __actor.fire() { __n += 1; }",
            );
            out.append(pumps.as_str());
            out.append(" __idle &= __n == 0; }\n");
            out
        },
        Visit::Spawn => {
            let actor = actors.get(inst.class_name.as_str()).unwrap();
            let pumps = emit_pumps(actor, typestate, v.as_str());
            let mut out = cat3("            s.spawn(|_| { let mut __n = 0usize; while __n < FIRE_BUDGET && ", v.as_str(), ".fire() { __n += 1; }");
            out.append(pumps.as_str());
            out.append(" });\n");
            out
        },
    }
}

/// The lines of `main` for every instance.
pub fn emit_visits(actors: &ActorMap, instances: &Vec<&Instance>, visit: Visit, typestate: bool) -> (res: String)
    requires
        actors.wf(),
        forall|k: int| 0 <= k < instances@.len() ==> actors.to_map().contains_key((#[trigger] instances@[k]).class_name@),
    ensures
        res@ == visits_text(actors.to_map(), instance_derefs(instances@), visit, typestate),
{
    let ghost insts = instance_derefs(instances@);
    let ghost f = |i: Instance| visit_text(actors.to_map(), i, visit, typestate);
    let mut out = String::new();
    let mut k: usize = 0;
    while k < instances.len()
        invariant
            0 <= k <= instances@.len(),
            actors.wf(),
            insts == instance_derefs(instances@),
            forall|q: int| 0 <= q < instances@.len() ==> actors.to_map().contains_key((#[trigger] instances@[q]).class_name@),
            f == (|i: Instance| visit_text(actors.to_map(), i, visit, typestate)),
            out@ == concat(insts.take(k as int).map_values(f)),
        decreases instances.len() - k,
    {
        let piece = emit_visit(actors, instances[k], visit, typestate);
        assert(insts[k as int] == *instances@[k as int]);
        out.append(piece.as_str());
        assert(insts.take(k + 1).map_values(f).drop_last() =~= insts.take(k as int).map_values(f));
        k = k + 1;
    }
    assert(insts.take(insts.len() as int) =~= insts);
    out
}

} // verus!
