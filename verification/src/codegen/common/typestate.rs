//! Emission of an actor with an FSM as typestates: one marker type per state,
//! a `step` per state that moves the actor into the state its fired action
//! leads to, and a wrapper enum that holds the actor in whichever state it is.
use vstd::prelude::*;

use crate::ast::{Actor, ScheduleFsm};
use crate::codegen::common::actor::{
    actor_state, actor_state_names, ctor_args, ctor_args_text, ctor_params, ctor_params_text, ctor_var_lets,
    ctor_var_lets_text, emit_init_body, emit_tries, field_lines, field_lines_text, field_names, field_names_spec,
    fsm_state_set, fsm_states, fsm_states_listed_once, init_body_text, picked_actions, picked_nexts, port_types, port_types_spec,
    room_snapshots, room_snapshots_text, state_candidates, state_picks, tries_text, variant_codes, TryMode,
};
use crate::codegen::common::names::{fsm_variant, fsm_variant_text, fsm_wrapper, fsm_wrapper_text, ident_text, port_field, port_field_text, type_ident};
use crate::codegen::common::priority::{candidate_names, declared_pairs, derefs, order_is_permutation, try_order, Priorities};
use crate::codegen::common::scope::{sorted_names, strictly_sorted, NameSet};
use crate::text::{cat2, cat3, concat, concat_strings, join, join_strings, owned, take_push, views, views_push};

verus! {

/// Each name wrapped: `prefix`, the name, `suffix`.
fn wrap_each(prefix: &str, names: &Vec<String>, suffix: &str) -> (res: Vec<String>)
    ensures
        views(res@) == views(names@).map_values(|n: Seq<char>| prefix@ + n + suffix@),
{
    let ghost f = |n: Seq<char>| prefix@ + n + suffix@;
    let mut out: Vec<String> = Vec::new();
    let mut k: usize = 0;
    while k < names.len()
        invariant
            0 <= k <= names@.len(),
            f == (|n: Seq<char>| prefix@ + n + suffix@),
            views(out@) == views(names@).map_values(f).take(k as int),
        decreases names.len() - k,
    {
        let x = cat3(prefix, names[k].as_str(), suffix);
        let ghost before = out@;
        proof {
            views_push(before, x);
            take_push(views(names@).map_values(f), k as int);
        }
        out.push(x);
        k = k + 1;
    }
    assert(views(names@).map_values(f).take(names@.len() as int) =~= views(names@).map_values(f));
    out
}

/// The moves of every field into the actor in its next state.
pub open spec fn moves_text(names: Seq<Seq<char>>) -> Seq<char> {
    concat(names.map_values(|n: Seq<char>| "            "@ + n + ": self."@ + n + ",\n"@))
}

fn emit_moves(names: &Vec<String>) -> (res: String)
    ensures
        res@ == moves_text(views(names@)),
{
    let ghost f = |n: Seq<char>| "            "@ + n + ": self."@ + n + ",\n"@;
    let mut out = String::new();
    let mut k: usize = 0;
    while k < names.len()
        invariant
            0 <= k <= names@.len(),
            f == (|n: Seq<char>| "            "@ + n + ": self."@ + n + ",\n"@),
            out@ == concat(views(names@).take(k as int).map_values(f)),
        decreases names.len() - k,
    {
        let n = names[k].as_str();
        let x = cat3("            ", n, ": self.");
        out.append(x.as_str());
        out.append(n);
        out.append(",\n");
        assert(views(names@).take(k + 1).map_values(f).drop_last() =~= views(names@).take(k as int).map_values(f));
        k = k + 1;
    }
    assert(views(names@).take(names@.len() as int) =~= views(names@));
    out
}

/// The marker types and the generic actor struct.
pub open spec fn typestate_decls_text(actor: Actor, fsm: ScheduleFsm) -> Seq<char> {
    concat(sorted_names(fsm_state_set(fsm)).map_values(|s: Seq<char>| "pub struct "@ + fsm_variant_text(s) + ";\n"@)) + "\n"@
        + ("pub struct "@ + ident_text(actor.name@) + "<S> {\n"@) + (join(
        field_lines_text(actor, Seq::empty()).push("    __state: core::marker::PhantomData<S>,"@),
        "\n"@,
    ) + "\n}\n\n"@)
}

/// The constructor of the generic actor struct and the move into another
/// state.
pub open spec fn typestate_ctor_text(actor: Actor) -> Seq<char> {
    let ty = ident_text(actor.name@);
    let names = field_names_spec(actor);
    ("impl<S> "@ + ty + "<S> {\n    pub fn new("@ + ctor_params_text(actor) + ") -> Self {\n"@) + (ctor_var_lets_text(actor)
        + "        Self {\n"@ + concat(names.map_values(|n: Seq<char>| "            "@ + n + ",\n"@)))
        + "            __state: core::marker::PhantomData,\n        }\n    }\n\n"@ + ("    fn into_state<__T>(self) -> "@ + ty
        + "<__T> {\n        "@ + ty + " {\n"@ + moves_text(names) + "            __state: core::marker::PhantomData,\n        }\n    }\n"@)
}

/// The `init` of the generic actor struct, when the actor has an initializer.
pub open spec fn typestate_init_text(actor: Actor) -> Seq<char> {
    match actor.init {
        Some(init) => "\n    pub fn init(&mut self) {\n"@ + init_body_text(init, actor_state_names(actor)) + "    }\n"@,
        None => Seq::empty(),
    }
}

/// The marker types, the generic actor struct, its constructor, the move into
/// another state, and `init` when the actor has an initializer.
#[verifier::opaque]
pub open spec fn typestate_head_text(actor: Actor, fsm: ScheduleFsm) -> Seq<char> {
    typestate_decls_text(actor, fsm) + typestate_ctor_text(actor) + typestate_init_text(actor) + "}\n\n"@
}

fn emit_typestate_decls(actor: &Actor, fsm: &ScheduleFsm, ty: &str) -> (res: String)
    requires
        ty@ == ident_text(actor.name@),
    ensures
        res@ == typestate_decls_text(*actor, *fsm),
{
    let states = fsm_states(fsm);
    let markers = variant_codes("pub struct ", &states, ";\n");
    let marker_text = concat_strings(&markers);
    let mut fields = field_lines(actor, None);
    let ghost before = fields@;
    let last = owned("    __state: core::marker::PhantomData<S>,");
    proof {
        views_push(before, last);
    }
    fields.push(last);
    assert(Seq::<Seq<char>>::empty() =~= crate::codegen::common::actor::opt_line(None));
    let fields_text = join_strings(&fields, "\n");
    let decl = cat3("pub struct ", ty, "<S> {\n");
    let tail = cat2(fields_text.as_str(), "\n}\n\n");
    let mut out = cat3(marker_text.as_str(), "\n", decl.as_str());
    out.append(tail.as_str());
    out
}

fn emit_typestate_ctor(actor: &Actor, ty: &str) -> (res: String)
    requires
        ty@ == ident_text(actor.name@),
    ensures
        res@ == typestate_ctor_text(*actor),
{
    let names = field_names(actor);
    let inits = wrap_each("            ", &names, ",\n");
    let inits_text = concat_strings(&inits);
    let moves = emit_moves(&names);
    let params = ctor_params(actor);
    let lets = ctor_var_lets(actor);
    let mut head = cat3("impl<S> ", ty, "<S> {\n    pub fn new(");
    head.append(params.as_str());
    head.append(") -> Self {\n");
    let body = cat3(lets.as_str(), "        Self {\n", inits_text.as_str());
    let close = owned("            __state: core::marker::PhantomData,\n        }\n    }\n\n");
    let mut into = cat3("    fn into_state<__T>(self) -> ", ty, "<__T> {\n        ");
    into.append(ty);
    into.append(" {\n");
    into.append(moves.as_str());
    into.append("            __state: core::marker::PhantomData,\n        }\n    }\n");
    let first = cat3(head.as_str(), body.as_str(), close.as_str());
    cat2(first.as_str(), into.as_str())
}

fn emit_typestate_head(actor: &Actor, fsm: &ScheduleFsm, ty: &str, state: &NameSet) -> (res: String)
    requires
        ty@ == ident_text(actor.name@),
        state@ == actor_state_names(*actor),
    ensures
        res@ == typestate_head_text(*actor, *fsm),
{
    proof {
        reveal(typestate_head_text);
    }
    let decls = emit_typestate_decls(actor, fsm, ty);
    let ctor = emit_typestate_ctor(actor, ty);
    let init_part = match &actor.init {
        Some(init) => {
            let body = emit_init_body(init, state);
            cat3("\n    pub fn init(&mut self) {\n", body.as_str(), "    }\n")
        },
        None => String::new(),
    };
    let mut out = cat3(decls.as_str(), ctor.as_str(), init_part.as_str());
    out.append("}\n\n");
    out
}

/// The `step` of the actor in state `s`: the actions the state allows, in
/// priority order, each moving the actor into the state it leads to; when none
/// fires, the actor stays.
#[verifier::opaque]
pub open spec fn step_impl_text(actor: Actor, fsm: ScheduleFsm, s: Seq<char>) -> Seq<char> {
    let ty = ident_text(actor.name@);
    let wrapper = fsm_wrapper_text(actor.name@);
    let here = fsm_variant_text(s);
    let picks = state_picks(actor.actions@, fsm.transitions@, s);
    let cands = picked_actions(actor.actions@, picks);
    let nexts = picked_nexts(picks).map_values(|n: Seq<char>| wrapper + "::"@ + fsm_variant_text(n));
    "impl "@ + ty + "<"@ + here + "> {\n    fn step(mut self) -> ("@ + wrapper + ", bool) {\n"@ + room_snapshots_text(cands)
        + tries_text(cands, nexts, try_order(declared_pairs(actor), cands), actor_state_names(actor), TryMode::Typestate)
        + "        ("@ + wrapper + "::"@ + here + "(self), false)\n    }\n}\n\n"@
}

fn emit_step_impl(actor: &Actor, fsm: &ScheduleFsm, s: &str, state: &NameSet, ty: &str, wrapper: &str, priorities: &Priorities) -> (res: String)
    requires
        state@ == actor_state_names(*actor),
        ty@ == ident_text(actor.name@),
        wrapper@ == fsm_wrapper_text(actor.name@),
        priorities.rel() == declared_pairs(*actor),
    ensures
        res@ == step_impl_text(*actor, *fsm, s@),
{
    proof {
        reveal(step_impl_text);
    }
    let (reachable, targets) = state_candidates(actor, fsm, s);
    let ghost picks = state_picks(actor.actions@, fsm.transitions@, s@);
    let prefix = cat2(wrapper, "::");
    let codes = variant_codes(prefix.as_str(), &targets, "");
    let order = priorities.order(actor, reachable.as_slice());
    proof {
        assert(reachable@.len() == reachable.len());
        order_is_permutation(priorities.rel(), candidate_names(derefs(reachable@)), reachable@.len());
        assert forall|q: int| 0 <= q < order@.len() implies #[trigger] order@[q] < reachable@.len() by {
            assert(order@.contains(order@[q]));
        }
        assert(derefs(reachable@).len() == reachable@.len());
        assert(views(targets@).len() == targets@.len());
        assert(views(codes@).len() == codes@.len());
        assert(picked_actions(actor.actions@, picks).len() == picks.len());
        assert(picked_nexts(picks).len() == picks.len());
    }
    let snaps = room_snapshots(&reachable);
    let tries = emit_tries(&reachable, &codes, &order, state, TryMode::Typestate);
    let here = fsm_variant(s);
    let mut head = cat3("impl ", ty, "<");
    head.append(here.as_str());
    head.append("> {\n    fn step(mut self) -> (");
    head.append(wrapper);
    head.append(", bool) {\n");
    let mut tail = cat3("        (", wrapper, "::");
    tail.append(here.as_str());
    tail.append("(self), false)\n    }\n}\n\n");
    proof {
        reveal_strlit("");
        let with_empty = views(targets@).map_values(|n: Seq<char>| prefix@ + fsm_variant_text(n) + ""@);
        let plain = picked_nexts(picks).map_values(|n: Seq<char>| wrapper@ + "::"@ + fsm_variant_text(n));
        assert forall|q: int| 0 <= q < plain.len() implies #[trigger] with_empty[q] == plain[q] by {
            assert(with_empty[q] =~= plain[q]);
        }
        assert(views(codes@) =~= plain);
    }
    let body = cat2(snaps.as_str(), tries.as_str());
    cat3(head.as_str(), body.as_str(), tail.as_str())
}

/// One match arm per state, each running `body` on the actor in that state.
pub open spec fn dispatch_text(states: Seq<Seq<char>>, body: Seq<char>) -> Seq<char> {
    concat(states.map_values(|s: Seq<char>| "            Self::"@ + fsm_variant_text(s) + ("(__s) => "@ + body + ",\n"@)))
}

fn emit_dispatch(states: &Vec<String>, body: &str) -> (res: String)
    ensures
        res@ == dispatch_text(views(states@), body@),
{
    let suffix = cat3("(__s) => ", body, ",\n");
    let arms = variant_codes("            Self::", states, suffix.as_str());
    let out = concat_strings(&arms);
    assert(views(arms@) =~= views(states@).map_values(
        |s: Seq<char>| "            Self::"@ + fsm_variant_text(s) + ("(__s) => "@ + body@ + ",\n"@),
    ));
    out
}

/// The accessor of a port through the wrapper, whatever state the actor is in.
pub open spec fn accessor_text(states: Seq<Seq<char>>, pt: (Seq<char>, Seq<char>)) -> Seq<char> {
    "\n    pub fn "@ + port_field_text(pt.0) + "_mut(&mut self) -> &mut "@ + pt.1 + " {\n        match self {\n"@ + dispatch_text(
        states,
        "&mut __s."@ + port_field_text(pt.0),
    ) + "            Self::__Moving => unreachable!(),\n        }\n    }\n"@
}

/// The wrapper enum's declaration: a variant per state, and one for the
/// moment the actor moves between states.
pub open spec fn wrapper_decl_text(actor: Actor, states: Seq<Seq<char>>) -> Seq<char> {
    let ty = ident_text(actor.name@);
    "pub enum "@ + fsm_wrapper_text(actor.name@) + " {\n"@ + concat(
        states.map_values(|s: Seq<char>| "    "@ + fsm_variant_text(s) + "("@ + ty + "<"@ + fsm_variant_text(s) + ">),\n"@),
    ) + "    __Moving,\n}\n\n"@
}

/// The wrapper's constructor, which starts in the initial state.
pub open spec fn wrapper_ctor_text(actor: Actor, fsm: ScheduleFsm) -> Seq<char> {
    "impl "@ + fsm_wrapper_text(actor.name@) + " {\n    pub fn new("@ + ctor_params_text(actor) + ") -> Self {\n        Self::"@
        + fsm_variant_text(fsm.initial_state@) + "("@ + ident_text(actor.name@) + "::new("@ + ctor_args_text(actor) + "))\n    }\n\n"@
}

/// The wrapper's `init`, when the actor has an initializer.
pub open spec fn wrapper_init_text(actor: Actor, states: Seq<Seq<char>>) -> Seq<char> {
    if actor.init is Some {
        "    pub fn init(&mut self) {\n        match self {\n"@ + dispatch_text(states, "__s.init()"@)
            + "            Self::__Moving => {}\n        }\n    }\n\n"@
    } else {
        Seq::empty()
    }
}

/// The wrapper's `fire`: one `step` of whichever state the actor is in.
pub open spec fn wrapper_fire_text(states: Seq<Seq<char>>) -> Seq<char> {
    "    pub fn fire(&mut self) -> bool {\n        let (__next, __fired) = match core::mem::replace(self, Self::__Moving) {\n"@
        + dispatch_text(states, "__s.step()"@)
        + "            Self::__Moving => unreachable!(),\n        };\n        *self = __next;\n        __fired\n    }\n"@
}

/// The wrapper enum over the typestates: its variants, a constructor that
/// starts in the initial state, `init`, `fire` and an accessor per port.
#[verifier::opaque]
pub open spec fn wrapper_text(actor: Actor, fsm: ScheduleFsm) -> Seq<char> {
    let states = sorted_names(fsm_state_set(fsm));
    wrapper_decl_text(actor, states) + wrapper_ctor_text(actor, fsm) + wrapper_init_text(actor, states) + wrapper_fire_text(states)
        + concat(port_types_spec(actor).map_values(|pt: (Seq<char>, Seq<char>)| accessor_text(states, pt))) + "}\n"@
}

fn emit_wrapper_decl(actor: &Actor, states: &Vec<String>) -> (res: String)
    ensures
        res@ == wrapper_decl_text(*actor, views(states@)),
{
    let ty = type_ident(actor.name.as_str());
    let wrapper = fsm_wrapper(actor.name.as_str());
    let variants = emit_wrapper_variants(states, ty.as_str());
    let mut decl = cat3("pub enum ", wrapper.as_str(), " {\n");
    decl.append(variants.as_str());
    decl.append("    __Moving,\n}\n\n");
    decl
}

fn emit_wrapper_ctor(actor: &Actor, fsm: &ScheduleFsm) -> (res: String)
    ensures
        res@ == wrapper_ctor_text(*actor, *fsm),
{
    let ty = type_ident(actor.name.as_str());
    let wrapper = fsm_wrapper(actor.name.as_str());
    let params = ctor_params(actor);
    let args = ctor_args(actor);
    let initial = fsm_variant(fsm.initial_state.as_str());
    let mut ctor = cat3("impl ", wrapper.as_str(), " {\n    pub fn new(");
    ctor.append(params.as_str());
    ctor.append(") -> Self {\n        Self::");
    ctor.append(initial.as_str());
    ctor.append("(");
    ctor.append(ty.as_str());
    ctor.append("::new(");
    ctor.append(args.as_str());
    ctor.append("))\n    }\n\n");
    ctor
}

fn emit_wrapper_variants(states: &Vec<String>, ty: &str) -> (res: String)
    ensures
        res@ == concat(
            views(states@).map_values(|s: Seq<char>| "    "@ + fsm_variant_text(s) + "("@ + ty@ + "<"@ + fsm_variant_text(s) + ">),\n"@),
        ),
{
    let ghost f = |s: Seq<char>| "    "@ + fsm_variant_text(s) + "("@ + ty@ + "<"@ + fsm_variant_text(s) + ">),\n"@;
    let mut out = String::new();
    let mut k: usize = 0;
    while k < states.len()
        invariant
            0 <= k <= states@.len(),
            f == (|s: Seq<char>| "    "@ + fsm_variant_text(s) + "("@ + ty@ + "<"@ + fsm_variant_text(s) + ">),\n"@),
            out@ == concat(views(states@).take(k as int).map_values(f)),
        decreases states.len() - k,
    {
        let v = fsm_variant(states[k].as_str());
        let x = cat3("    ", v.as_str(), "(");
        out.append(x.as_str());
        out.append(ty);
        out.append("<");
        out.append(v.as_str());
        out.append(">),\n");
        assert(views(states@).take(k + 1).map_values(f).drop_last() =~= views(states@).take(k as int).map_values(f));
        k = k + 1;
    }
    assert(views(states@).take(states@.len() as int) =~= views(states@));
    out
}

fn emit_accessor(states: &Vec<String>, port: &str, port_ty: &str) -> (res: String)
    ensures
        res@ == accessor_text(views(states@), (port@, port_ty@)),
{
    let field = port_field(port);
    let target = cat2("&mut __s.", field.as_str());
    let arms = emit_dispatch(states, target.as_str());
    let mut x = cat3("\n    pub fn ", field.as_str(), "_mut(&mut self) -> &mut ");
    x.append(port_ty);
    x.append(" {\n        match self {\n");
    x.append(arms.as_str());
    x.append("            Self::__Moving => unreachable!(),\n        }\n    }\n");
    x
}

fn emit_accessors(actor: &Actor, states: &Vec<String>) -> (res: String)
    ensures
        res@ == concat(port_types_spec(*actor).map_values(|pt: (Seq<char>, Seq<char>)| accessor_text(views(states@), pt))),
{
    let ports = port_types(actor);
    let ghost pv = ports@.map_values(|e: (String, String)| (e.0@, e.1@));
    let ghost f = |pt: (Seq<char>, Seq<char>)| accessor_text(views(states@), pt);
    let mut out = String::new();
    let mut j: usize = 0;
    while j < ports.len()
        invariant
            0 <= j <= ports@.len(),
            pv == ports@.map_values(|e: (String, String)| (e.0@, e.1@)),
            pv == port_types_spec(*actor),
            f == (|pt: (Seq<char>, Seq<char>)| accessor_text(views(states@), pt)),
            out@ == concat(pv.take(j as int).map_values(f)),
        decreases ports.len() - j,
    {
        let x = emit_accessor(states, ports[j].0.as_str(), ports[j].1.as_str());
        assert(x@ == f(pv[j as int]));
        out.append(x.as_str());
        assert(pv.take(j + 1).map_values(f).drop_last() =~= pv.take(j as int).map_values(f));
        j = j + 1;
    }
    assert(pv.take(pv.len() as int) =~= pv);
    out
}

/// The wrapper enum over the typestates of an actor.
pub fn emit_fsm_wrapper(actor: &Actor, fsm: &ScheduleFsm, states: &Vec<String>) -> (res: String)
    requires
        views(states@) == sorted_names(fsm_state_set(*fsm)),
    ensures
        res@ == wrapper_text(*actor, *fsm),
{
    proof {
        reveal(wrapper_text);
    }
    let decl = emit_wrapper_decl(actor, states);
    let ctor = emit_wrapper_ctor(actor, fsm);
    let init_part = if actor.init.is_some() {
        let arms = emit_dispatch(states, "__s.init()");
        cat3("    pub fn init(&mut self) {\n        match self {\n", arms.as_str(), "            Self::__Moving => {}\n        }\n    }\n\n")
    } else {
        String::new()
    };
    let steps = emit_dispatch(states, "__s.step()");
    let fire = cat3(
        "    pub fn fire(&mut self) -> bool {\n        let (__next, __fired) = match core::mem::replace(self, Self::__Moving) {\n",
        steps.as_str(),
        "            Self::__Moving => unreachable!(),\n        };\n        *self = __next;\n        __fired\n    }\n",
    );
    let accessors = emit_accessors(actor, states);
    let first = cat3(decl.as_str(), ctor.as_str(), init_part.as_str());
    let mut out = cat3(first.as_str(), fire.as_str(), accessors.as_str());
    out.append("}\n");
    out
}

/// An actor emitted with typestates: its head, a `step` per state, and the
/// wrapper.
#[verifier::opaque]
pub open spec fn typestate_actor_text(actor: Actor, fsm: ScheduleFsm) -> Seq<char> {
    typestate_head_text(actor, fsm) + concat(
        sorted_names(fsm_state_set(fsm)).map_values(|s: Seq<char>| step_impl_text(actor, fsm, s)),
    ) + wrapper_text(actor, fsm)
}

/// An actor emitted with typestates.
pub fn emit_actor_typestate(actor: &Actor, fsm: &ScheduleFsm) -> (res: String)
    requires
        actor.fsm == Some(*fsm),
    ensures
        res@ == typestate_actor_text(*actor, *fsm),
{
    proof {
        reveal(typestate_actor_text);
    }
    let ty = type_ident(actor.name.as_str());
    let wrapper = fsm_wrapper(actor.name.as_str());
    let state = actor_state(actor);
    let states = fsm_states(fsm);
    let head = emit_typestate_head(actor, fsm, ty.as_str(), &state);
    let priorities = Priorities::new(actor);
    let ghost names = views(states@);
    let ghost f = |s: Seq<char>| step_impl_text(*actor, *fsm, s);
    let mut steps = String::new();
    let mut k: usize = 0;
    while k < states.len()
        invariant
            0 <= k <= states@.len(),
            names == views(states@),
            state@ == actor_state_names(*actor),
            ty@ == ident_text(actor.name@),
            wrapper@ == fsm_wrapper_text(actor.name@),
            priorities.rel() == declared_pairs(*actor),
            f == (|s: Seq<char>| step_impl_text(*actor, *fsm, s)),
            steps@ == concat(names.take(k as int).map_values(f)),
        decreases states.len() - k,
    {
        let step = emit_step_impl(actor, fsm, states[k].as_str(), &state, ty.as_str(), wrapper.as_str(), &priorities);
        steps.append(step.as_str());
        assert(names.take(k + 1).map_values(f).drop_last() =~= names.take(k as int).map_values(f));
        k = k + 1;
    }
    assert(names.take(names.len() as int) =~= names);
    let tail = emit_fsm_wrapper(actor, fsm, &states);
    cat3(head.as_str(), steps.as_str(), tail.as_str())
}

/// In typestate form each state of the FSM (once each, in increasing order:
/// `fsm_states_listed_once`) has one marker struct, one `impl T<St_s>` whose
/// `step` falls back to staying in that state, and one variant of the wrapper
/// enum, which has `__Moving` besides.
#[verifier::spinoff_prover]
pub proof fn typestate_states_once(actor: Actor, fsm: ScheduleFsm)
    ensures
        ({
            let ty = ident_text(actor.name@);
            let w = fsm_wrapper_text(actor.name@);
            let states = sorted_names(fsm_state_set(fsm));
            &&& strictly_sorted(states)
            &&& states.no_duplicates()
            &&& typestate_actor_text(actor, fsm) == concat(
                states.map_values(|s: Seq<char>| "pub struct "@ + fsm_variant_text(s) + ";\n"@),
            ) + "\n"@ + ("pub struct "@ + ty + "<S> {\n"@) + (join(
                field_lines_text(actor, Seq::empty()).push("    __state: core::marker::PhantomData<S>,"@),
                "\n"@,
            ) + "\n}\n\n"@) + typestate_ctor_text(actor) + typestate_init_text(actor) + "}\n\n"@ + concat(
                states.map_values(|s: Seq<char>| step_impl_text(actor, fsm, s)),
            ) + ("pub enum "@ + w + " {\n"@ + concat(
                states.map_values(|s: Seq<char>| "    "@ + fsm_variant_text(s) + "("@ + ty + "<"@ + fsm_variant_text(s) + ">),\n"@),
            ) + "    __Moving,\n}\n\n"@) + wrapper_ctor_text(actor, fsm) + wrapper_init_text(actor, states) + wrapper_fire_text(states)
                + concat(port_types_spec(actor).map_values(|pt: (Seq<char>, Seq<char>)| accessor_text(states, pt))) + "}\n"@
            &&& forall|s: Seq<char>|
                ("impl "@ + ty + "<"@ + fsm_variant_text(s) + "> {\n    fn step(mut self) -> ("@ + w + ", bool) {\n"@).is_prefix_of(
                    #[trigger] step_impl_text(actor, fsm, s),
                ) && ("        ("@ + w + "::"@ + fsm_variant_text(s) + "(self), false)\n    }\n}\n\n"@).is_suffix_of(
                    step_impl_text(actor, fsm, s),
                )
        }),
{
    fsm_states_listed_once(fsm);
    let ty = ident_text(actor.name@);
    let w = fsm_wrapper_text(actor.name@);
    let states = sorted_names(fsm_state_set(fsm));
    assert forall|s: Seq<char>|
        ("impl "@ + ty + "<"@ + fsm_variant_text(s) + "> {\n    fn step(mut self) -> ("@ + w + ", bool) {\n"@).is_prefix_of(
            #[trigger] step_impl_text(actor, fsm, s),
        ) && ("        ("@ + w + "::"@ + fsm_variant_text(s) + "(self), false)\n    }\n}\n\n"@).is_suffix_of(
            step_impl_text(actor, fsm, s),
        ) by {
        step_impl_bounds(actor, fsm, s);
    }
    typestate_text_parts(actor, fsm);
}

/// A step impl begins with its header and ends with staying in its state.
proof fn step_impl_bounds(actor: Actor, fsm: ScheduleFsm, s: Seq<char>)
    ensures
        ("impl "@ + ident_text(actor.name@) + "<"@ + fsm_variant_text(s) + "> {\n    fn step(mut self) -> ("@ + fsm_wrapper_text(actor.name@)
            + ", bool) {\n"@).is_prefix_of(step_impl_text(actor, fsm, s)),
        ("        ("@ + fsm_wrapper_text(actor.name@) + "::"@ + fsm_variant_text(s) + "(self), false)\n    }\n}\n\n"@).is_suffix_of(
            step_impl_text(actor, fsm, s),
        ),
{
    reveal(step_impl_text);
    let ty = ident_text(actor.name@);
    let w = fsm_wrapper_text(actor.name@);
    let t = step_impl_text(actor, fsm, s);
    let pre = "impl "@ + ty + "<"@ + fsm_variant_text(s) + "> {\n    fn step(mut self) -> ("@ + w + ", bool) {\n"@;
    let post = "        ("@ + w + "::"@ + fsm_variant_text(s) + "(self), false)\n    }\n}\n\n"@;
    assert(pre =~= t.subrange(0, pre.len() as int));
    assert(post =~= t.subrange(t.len() - post.len(), t.len() as int));
}

/// The typestate text as its parts: head, steps, wrapper.
#[verifier::rlimit(50)]
proof fn typestate_text_parts(actor: Actor, fsm: ScheduleFsm)
    ensures
        ({
            let ty = ident_text(actor.name@);
            let w = fsm_wrapper_text(actor.name@);
            let states = sorted_names(fsm_state_set(fsm));
            typestate_actor_text(actor, fsm) == concat(
                states.map_values(|s: Seq<char>| "pub struct "@ + fsm_variant_text(s) + ";\n"@),
            ) + "\n"@ + ("pub struct "@ + ty + "<S> {\n"@) + (join(
                field_lines_text(actor, Seq::empty()).push("    __state: core::marker::PhantomData<S>,"@),
                "\n"@,
            ) + "\n}\n\n"@) + typestate_ctor_text(actor) + typestate_init_text(actor) + "}\n\n"@ + concat(
                states.map_values(|s: Seq<char>| step_impl_text(actor, fsm, s)),
            ) + ("pub enum "@ + w + " {\n"@ + concat(
                states.map_values(|s: Seq<char>| "    "@ + fsm_variant_text(s) + "("@ + ty + "<"@ + fsm_variant_text(s) + ">),\n"@),
            ) + "    __Moving,\n}\n\n"@) + wrapper_ctor_text(actor, fsm) + wrapper_init_text(actor, states) + wrapper_fire_text(states)
                + concat(port_types_spec(actor).map_values(|pt: (Seq<char>, Seq<char>)| accessor_text(states, pt))) + "}\n"@
        }),
{
    reveal(typestate_actor_text);
    reveal(typestate_head_text);
    reveal(wrapper_text);
    let states = sorted_names(fsm_state_set(fsm));
    let decls = typestate_decls_text(actor, fsm);
    let head = decls + typestate_ctor_text(actor) + typestate_init_text(actor) + "}\n\n"@;
    let steps = concat(states.map_values(|s: Seq<char>| step_impl_text(actor, fsm, s)));
    let wdecl = wrapper_decl_text(actor, states);
    let rest = wrapper_ctor_text(actor, fsm) + wrapper_init_text(actor, states) + wrapper_fire_text(states) + concat(
        port_types_spec(actor).map_values(|pt: (Seq<char>, Seq<char>)| accessor_text(states, pt)),
    ) + "}\n"@;
    assert(typestate_head_text(actor, fsm) == head);
    assert(wrapper_text(actor, fsm) =~= wdecl + rest);
    assert(typestate_actor_text(actor, fsm) =~= head + steps + wdecl + wrapper_ctor_text(actor, fsm) + wrapper_init_text(actor, states)
        + wrapper_fire_text(states) + concat(port_types_spec(actor).map_values(|pt: (Seq<char>, Seq<char>)| accessor_text(states, pt)))
        + "}\n"@);
}

} // verus!
