//! Emission of an actor class: its struct, constructor, `init` and `fire`, with
//! actions tried in priority order and an optional FSM schedule.
use vstd::prelude::*;

use crate::ast::{Action, Actor, ActorParameter, Expr, FsmState, InputPattern, OutputExpr, Port, ScheduleFsm, Stmt, VarDef};
use crate::codegen::common::expr::{emit_expr, emit_stmts, emit_vardefs, expr_text, exprs_texts, stmts_text, var_names, vardefs_text, with_var_names};
use crate::codegen::common::names::{
    fsm_variant, fsm_variant_text, fsm_wrapper, fsm_wrapper_text, ident, ident_text, port_field, port_field_text, port_ref,
    port_ref_text, type_ident,
};
use crate::codegen::common::priority::{
    candidate_names, cycle_warnings, declared_pairs, derefs, order_is_permutation, priority_entry_warnings, priority_warnings, try_order,
    Priorities,
};
use crate::codegen::common::typestate::{emit_actor_typestate, typestate_actor_text};
use crate::codegen::common::scope::{
    first_by_name, first_by_name_push, names_of_push, insert_sorted, names_of, sorted_names, sorted_names_of_listing, sorted_names_unique,
    strictly_sorted, NameSet,
};
use crate::codegen::common::types::{rust_type, rust_type_text, var_init, var_init_text, var_rust_type, var_rust_type_text};
use crate::text::{
    take_push, views_push, cat2, cat3, concat, decimal, decimal_string, join, join_strings, occurs_in, occurs_in_concat, occurs_in_grow,
    occurs_in_join, owned, str_eq, views,
};

verus! {

/// Whether a `return` occurs among the statements, inside nested blocks too.
pub open spec fn stmts_return_spec(stmts: Seq<Stmt>) -> bool
    decreases stmts, 0int,
{
    if stmts.len() == 0 {
        false
    } else {
        stmts_return_spec(stmts.subrange(0, stmts.len() - 1)) || stmt_returns(stmts.last())
    }
}

/// Whether a `return` occurs in the statement.
pub open spec fn stmt_returns(s: Stmt) -> bool
    decreases s, 1int,
{
    match s {
        Stmt::Return => true,
        Stmt::If { then, els, .. } => stmts_return_spec(then@) || stmts_return_spec(els@),
        Stmt::Block { stmts, .. } => stmts_return_spec(stmts@),
        Stmt::While { stmts, .. } => stmts_return_spec(stmts@),
        Stmt::Foreach { stmts, .. } => stmts_return_spec(stmts@),
        _ => false,
    }
}

/// Whether a `return` occurs among the statements.
pub fn stmts_return(stmts: &Vec<Stmt>) -> (res: bool)
    ensures
        res == stmts_return_spec(stmts@),
    decreases stmts@, 0int,
{
    let mut i: usize = 0;
    while i < stmts.len()
        invariant
            0 <= i <= stmts.len(),
            !stmts_return_spec(stmts@.take(i as int)),
        decreases stmts.len() - i,
    {
        assert(stmts@.take(i + 1).subrange(0, i as int) =~= stmts@.take(i as int));
        if stmt_returns_exec(&stmts[i]) {
            proof {
                lemma_return_prefix(stmts@, i as int + 1);
            }
            return true;
        }
        i = i + 1;
    }
    assert(stmts@.take(stmts.len() as int) =~= stmts@);
    false
}

/// A `return` in a prefix is a `return` in the whole.
proof fn lemma_return_prefix(stmts: Seq<Stmt>, k: int)
    requires
        0 <= k <= stmts.len(),
        stmts_return_spec(stmts.take(k)),
    ensures
        stmts_return_spec(stmts),
    decreases stmts.len() - k,
{
    if k < stmts.len() {
        assert(stmts.take(k + 1).subrange(0, k) =~= stmts.take(k));
        lemma_return_prefix(stmts, k + 1);
    } else {
        assert(stmts.take(k) =~= stmts);
    }
}

fn stmt_returns_exec(s: &Stmt) -> (res: bool)
    ensures
        res == stmt_returns(*s),
    decreases *s, 1int,
{
    match s {
        Stmt::Return => true,
        Stmt::If { then, els, .. } => stmts_return(then) || stmts_return(els),
        Stmt::Block { stmts, .. } => stmts_return(stmts),
        Stmt::While { stmts, .. } => stmts_return(stmts),
        Stmt::Foreach { stmts, .. } => stmts_return(stmts),
        _ => false,
    }
}

/// Whether the actor is emitted with typestates: requested, with an FSM, and
/// with no `return` in any action (including the initializer).
pub open spec fn typestate_actor_spec(actor: Actor, typestate: bool) -> bool {
    &&& typestate
    &&& actor.fsm is Some
    &&& forall|i: int| 0 <= i < actor.actions@.len() ==> !stmts_return_spec((#[trigger] actor.actions@[i]).stmts@)
    &&& match actor.init {
        Some(init) => !stmts_return_spec(init.stmts@),
        None => true,
    }
}

/// Whether the actor is emitted with typestates.
pub fn typestate_actor(actor: &Actor, typestate: bool) -> (res: bool)
    ensures
        res == typestate_actor_spec(*actor, typestate),
{
    if !typestate || actor.fsm.is_none() {
        return false;
    }
    let mut i: usize = 0;
    while i < actor.actions.len()
        invariant
            0 <= i <= actor.actions@.len(),
            forall|k: int| 0 <= k < i ==> !stmts_return_spec((#[trigger] actor.actions@[k]).stmts@),
        decreases actor.actions.len() - i,
    {
        if stmts_return(&actor.actions[i].stmts) {
            return false;
        }
        i = i + 1;
    }
    match &actor.init {
        Some(init) => !stmts_return(&init.stmts),
        None => true,
    }
}

/// The Rust type instances of the actor have.
pub open spec fn actor_type_text(actor: Actor, typestate: bool) -> Seq<char> {
    if typestate_actor_spec(actor, typestate) {
        fsm_wrapper_text(actor.name@)
    } else {
        ident_text(actor.name@)
    }
}

/// The Rust type instances of the actor have.
pub fn actor_type(actor: &Actor, typestate: bool) -> (res: String)
    ensures
        res@ == actor_type_text(*actor, typestate),
{
    if typestate_actor(actor, typestate) {
        fsm_wrapper(actor.name.as_str())
    } else {
        type_ident(actor.name.as_str())
    }
}

/// A port of an actor instance `owner`: a field, or an accessor for typestates.
pub open spec fn actor_port_text(actor: Actor, typestate: bool, owner: Seq<char>, port: Seq<char>) -> Seq<char> {
    if typestate_actor_spec(actor, typestate) {
        owner + "."@ + port_field_text(port) + "_mut()"@
    } else {
        owner + "."@ + port_field_text(port)
    }
}

/// A port of an actor instance `owner`.
pub fn actor_port(actor: &Actor, typestate: bool, owner: &str, port: &str) -> (res: String)
    ensures
        res@ == actor_port_text(*actor, typestate, owner@, port@),
{
    let f = port_field(port);
    let mut out = cat3(owner, ".", f.as_str());
    if typestate_actor(actor, typestate) {
        out.append("_mut()");
    }
    out
}

/// The names of actor parameters.
pub open spec fn actor_param_names(ps: Seq<ActorParameter>) -> Set<Seq<char>> {
    Set::new(|n: Seq<char>| exists|i: int| 0 <= i < ps.len() && #[trigger] ps[i].name@ == n)
}

/// The actor's state: its parameters and variables.
pub open spec fn actor_state_names(actor: Actor) -> Set<Seq<char>> {
    actor_param_names(actor.parameters@).union(var_names(actor.vars@))
}

/// The actor's state: its parameters and variables.
pub fn actor_state(actor: &Actor) -> (res: NameSet)
    ensures
        res@ == actor_state_names(*actor),
{
    let mut set = NameSet::new();
    let mut i: usize = 0;
    while i < actor.parameters.len()
        invariant
            0 <= i <= actor.parameters@.len(),
            set@ == actor_param_names(actor.parameters@.take(i as int)),
        decreases actor.parameters.len() - i,
    {
        set.insert(actor.parameters[i].name.as_str());
        assert(set@ =~= actor_param_names(actor.parameters@.take(i + 1))) by {
            let ps = actor.parameters@;
            assert forall|n: Seq<char>| #[trigger] set@.contains(n) == actor_param_names(ps.take(i + 1)).contains(n) by {
                if actor_param_names(ps.take(i + 1)).contains(n) {
                    let j = choose|j: int| 0 <= j < ps.take(i + 1).len() && #[trigger] ps.take(i + 1)[j].name@ == n;
                    if j < i {
                        assert(ps.take(i as int)[j].name@ == n);
                    }
                }
                if set@.contains(n) && n != ps[i as int].name@ {
                    let j = choose|j: int| 0 <= j < ps.take(i as int).len() && #[trigger] ps.take(i as int)[j].name@ == n;
                    assert(ps.take(i + 1)[j].name@ == n);
                }
                if n == ps[i as int].name@ {
                    assert(ps.take(i + 1)[i as int].name@ == n);
                }
            }
        }
        i = i + 1;
    }
    assert(actor.parameters@.take(actor.parameters@.len() as int) =~= actor.parameters@);
    with_var_names(&set, &actor.vars)
}

/// The ports of an actor with their Rust types: inputs, then outputs.
pub open spec fn port_types_spec(actor: Actor) -> Seq<(Seq<char>, Seq<char>)> {
    actor.inports@.map_values(|p: Port| (p.name@, "InPort<"@ + rust_type_text(p.typ) + ">"@)) + actor.outports@.map_values(
        |p: Port| (p.name@, "OutPort<"@ + rust_type_text(p.typ) + ">"@),
    )
}

/// The ports of an actor with their Rust types.
pub fn port_types(actor: &Actor) -> (res: Vec<(String, String)>)
    ensures
        res@.map_values(|e: (String, String)| (e.0@, e.1@)) == port_types_spec(*actor),
{
    let ghost f = |e: (String, String)| (e.0@, e.1@);
    let ghost ins = actor.inports@.map_values(|p: Port| (p.name@, "InPort<"@ + rust_type_text(p.typ) + ">"@));
    let ghost outs = actor.outports@.map_values(|p: Port| (p.name@, "OutPort<"@ + rust_type_text(p.typ) + ">"@));
    let mut out: Vec<(String, String)> = Vec::new();
    let mut i: usize = 0;
    while i < actor.inports.len()
        invariant
            0 <= i <= actor.inports@.len(),
            f == (|e: (String, String)| (e.0@, e.1@)),
            ins == actor.inports@.map_values(|p: Port| (p.name@, "InPort<"@ + rust_type_text(p.typ) + ">"@)),
            out@.map_values(f) == ins.take(i as int),
        decreases actor.inports.len() - i,
    {
        let p = &actor.inports[i];
        let t = rust_type(&p.typ);
        let x = (owned(p.name.as_str()), cat3("InPort<", t.as_str(), ">"));
        let ghost before = out@;
        assert(f(x) == ins[i as int]);
        out.push(x);
        assert(out@.map_values(f) =~= before.map_values(f).push(f(x)));
        assert(ins.take(i + 1) =~= ins.take(i as int).push(ins[i as int]));
        i = i + 1;
    }
    let mut j: usize = 0;
    while j < actor.outports.len()
        invariant
            0 <= j <= actor.outports@.len(),
            f == (|e: (String, String)| (e.0@, e.1@)),
            ins == actor.inports@.map_values(|p: Port| (p.name@, "InPort<"@ + rust_type_text(p.typ) + ">"@)),
            outs == actor.outports@.map_values(|p: Port| (p.name@, "OutPort<"@ + rust_type_text(p.typ) + ">"@)),
            out@.map_values(f) == ins + outs.take(j as int),
        decreases actor.outports.len() - j,
    {
        let p = &actor.outports[j];
        let t = rust_type(&p.typ);
        let x = (owned(p.name.as_str()), cat3("OutPort<", t.as_str(), ">"));
        let ghost before = out@;
        assert(f(x) == outs[j as int]);
        out.push(x);
        assert(out@.map_values(f) =~= before.map_values(f).push(f(x)));
        assert(ins + outs.take(j + 1) =~= (ins + outs.take(j as int)).push(outs[j as int]));
        j = j + 1;
    }
    assert(out@.map_values(f) =~= port_types_spec(*actor));
    out
}


/// A constructor parameter for an actor parameter.
pub open spec fn param_decl_text(p: ActorParameter) -> Seq<char> {
    ident_text(p.name@) + ": "@ + rust_type_text(p.typ)
}

/// A constructor parameter for a port.
pub open spec fn port_decl_text(pt: (Seq<char>, Seq<char>)) -> Seq<char> {
    port_field_text(pt.0) + ": "@ + pt.1
}

/// The constructor parameters: the actor parameters, then the ports.
pub open spec fn ctor_params_text(actor: Actor) -> Seq<char> {
    join(
        actor.parameters@.map_values(|p: ActorParameter| param_decl_text(p)) + port_types_spec(actor).map_values(
            |pt: (Seq<char>, Seq<char>)| port_decl_text(pt),
        ),
        ", "@,
    )
}

/// The constructor parameters.
pub fn ctor_params(actor: &Actor) -> (res: String)
    ensures
        res@ == ctor_params_text(*actor),
{
    let ghost a = actor.parameters@.map_values(|p: ActorParameter| param_decl_text(p));
    let ghost b = port_types_spec(*actor).map_values(|pt: (Seq<char>, Seq<char>)| port_decl_text(pt));
    let mut parts: Vec<String> = Vec::new();
    let mut i: usize = 0;
    while i < actor.parameters.len()
        invariant
            0 <= i <= actor.parameters@.len(),
            a == actor.parameters@.map_values(|p: ActorParameter| param_decl_text(p)),
            views(parts@) == a.take(i as int),
        decreases actor.parameters.len() - i,
    {
        let p = &actor.parameters[i];
        let n = ident(p.name.as_str());
        let t = rust_type(&p.typ);
        let ghost before = parts@;
        let x = cat3(n.as_str(), ": ", t.as_str());
        proof {
            views_push(before, x);
            take_push(a, i as int);
        }
        parts.push(x);
        i = i + 1;
    }
    let ports = port_types(actor);
    let ghost pv = ports@.map_values(|e: (String, String)| (e.0@, e.1@));
    let mut j: usize = 0;
    while j < ports.len()
        invariant
            0 <= j <= ports@.len(),
            a == actor.parameters@.map_values(|p: ActorParameter| param_decl_text(p)),
            b == port_types_spec(*actor).map_values(|pt: (Seq<char>, Seq<char>)| port_decl_text(pt)),
            pv == ports@.map_values(|e: (String, String)| (e.0@, e.1@)),
            pv == port_types_spec(*actor),
            views(parts@) == a + b.take(j as int),
        decreases ports.len() - j,
    {
        let f = port_field(ports[j].0.as_str());
        let ghost before = parts@;
        let x = cat3(f.as_str(), ": ", ports[j].1.as_str());
        assert(b[j as int] == port_decl_text(pv[j as int]));
        proof {
            views_push(before, x);
            take_push(b, j as int);
        }
        parts.push(x);
        assert(a + b.take(j + 1) =~= (a + b.take(j as int)).push(b[j as int]));
        j = j + 1;
    }
    assert(a + b.take(ports@.len() as int) =~= a + b);
    join_strings(&parts, ", ")
}

/// The constructor arguments passed on by the wrapper: parameters, then ports.
pub open spec fn ctor_args_text(actor: Actor) -> Seq<char> {
    join(field_names_spec_params_ports(actor), ", "@)
}

/// The identifiers of the parameters and the port fields.
pub open spec fn field_names_spec_params_ports(actor: Actor) -> Seq<Seq<char>> {
    actor.parameters@.map_values(|p: ActorParameter| ident_text(p.name@)) + port_types_spec(actor).map_values(
        |pt: (Seq<char>, Seq<char>)| port_field_text(pt.0),
    )
}

/// The field names of the actor struct: parameters, variables, then ports.
pub open spec fn field_names_spec(actor: Actor) -> Seq<Seq<char>> {
    actor.parameters@.map_values(|p: ActorParameter| ident_text(p.name@)) + actor.vars@.map_values(|v: VarDef| ident_text(v.name@))
        + port_types_spec(actor).map_values(|pt: (Seq<char>, Seq<char>)| port_field_text(pt.0))
}

fn names_parts(actor: &Actor, with_vars: bool) -> (res: Vec<String>)
    ensures
        views(res@) == if with_vars {
            field_names_spec(*actor)
        } else {
            field_names_spec_params_ports(*actor)
        },
{
    let ghost a = actor.parameters@.map_values(|p: ActorParameter| ident_text(p.name@));
    let ghost v = if with_vars {
        actor.vars@.map_values(|v: VarDef| ident_text(v.name@))
    } else {
        Seq::<Seq<char>>::empty()
    };
    let ghost b = port_types_spec(*actor).map_values(|pt: (Seq<char>, Seq<char>)| port_field_text(pt.0));
    let mut parts: Vec<String> = Vec::new();
    let mut i: usize = 0;
    while i < actor.parameters.len()
        invariant
            0 <= i <= actor.parameters@.len(),
            a == actor.parameters@.map_values(|p: ActorParameter| ident_text(p.name@)),
            views(parts@) == a.take(i as int),
        decreases actor.parameters.len() - i,
    {
        let ghost before = parts@;
        let x = ident(actor.parameters[i].name.as_str());
        proof {
            views_push(before, x);
            take_push(a, i as int);
        }
        parts.push(x);
        i = i + 1;
    }
    assert(a.take(actor.parameters@.len() as int) =~= a);
    if with_vars {
        let mut k: usize = 0;
        while k < actor.vars.len()
            invariant
                0 <= k <= actor.vars@.len(),
                with_vars,
                v == actor.vars@.map_values(|v: VarDef| ident_text(v.name@)),
                views(parts@) == a + v.take(k as int),
            decreases actor.vars.len() - k,
        {
            let ghost before = parts@;
            let x = ident(actor.vars[k].name.as_str());
            proof {
                views_push(before, x);
                take_push(v, k as int);
            }
            parts.push(x);
            assert(a + v.take(k + 1) =~= (a + v.take(k as int)).push(v[k as int]));
            k = k + 1;
        }
        assert(v.take(actor.vars@.len() as int) =~= v);
    } else {
        assert(a + v =~= a);
    }
    let ports = port_types(actor);
    let ghost pv = ports@.map_values(|e: (String, String)| (e.0@, e.1@));
    let mut j: usize = 0;
    while j < ports.len()
        invariant
            0 <= j <= ports@.len(),
            b == port_types_spec(*actor).map_values(|pt: (Seq<char>, Seq<char>)| port_field_text(pt.0)),
            pv == ports@.map_values(|e: (String, String)| (e.0@, e.1@)),
            pv == port_types_spec(*actor),
            views(parts@) == a + v + b.take(j as int),
        decreases ports.len() - j,
    {
        let ghost before = parts@;
        let x = port_field(ports[j].0.as_str());
        assert(b[j as int] == port_field_text(pv[j as int].0));
        proof {
            views_push(before, x);
            take_push(b, j as int);
        }
        parts.push(x);
        assert(a + v + b.take(j + 1) =~= (a + v + b.take(j as int)).push(b[j as int]));
        j = j + 1;
    }
    assert(a + v + b.take(ports@.len() as int) =~= a + v + b);
    parts
}

/// The constructor arguments passed on by the wrapper.
pub fn ctor_args(actor: &Actor) -> (res: String)
    ensures
        res@ == ctor_args_text(*actor),
{
    let parts = names_parts(actor, false);
    join_strings(&parts, ", ")
}

/// The field names of the actor struct.
pub fn field_names(actor: &Actor) -> (res: Vec<String>)
    ensures
        views(res@) == field_names_spec(*actor),
{
    names_parts(actor, true)
}

/// The `let` bindings of the variables' initial values in the constructor.
pub open spec fn ctor_var_lets_text(actor: Actor) -> Seq<char> {
    concat(actor.vars@.map_values(|v: VarDef| "        let "@ + ident_text(v.name@) + " = "@ + var_init_text(v) + ";\n"@))
}

/// The `let` bindings of the variables' initial values in the constructor.
pub fn ctor_var_lets(actor: &Actor) -> (res: String)
    ensures
        res@ == ctor_var_lets_text(*actor),
{
    let ghost f = |v: VarDef| "        let "@ + ident_text(v.name@) + " = "@ + var_init_text(v) + ";\n"@;
    let mut out = String::new();
    let mut i: usize = 0;
    while i < actor.vars.len()
        invariant
            0 <= i <= actor.vars@.len(),
            f == (|v: VarDef| "        let "@ + ident_text(v.name@) + " = "@ + var_init_text(v) + ";\n"@),
            out@ == concat(actor.vars@.take(i as int).map_values(f)),
        decreases actor.vars.len() - i,
    {
        let v = &actor.vars[i];
        let n = ident(v.name.as_str());
        let init = var_init(v);
        out.append("        let ");
        out.append(n.as_str());
        out.append(" = ");
        out.append(init.as_str());
        out.append(";\n");
        assert(actor.vars@.take(i + 1).map_values(f).drop_last() =~= actor.vars@.take(i as int).map_values(f));
        i = i + 1;
    }
    assert(actor.vars@.take(actor.vars@.len() as int) =~= actor.vars@);
    out
}

/// The states of an FSM: the initial state and every state a transition
/// leaves or enters.
pub open spec fn fsm_state_set(fsm: ScheduleFsm) -> Set<Seq<char>> {
    Set::new(
        |n: Seq<char>|
            n == fsm.initial_state@ || exists|i: int|
                0 <= i < fsm.transitions@.len() && ((#[trigger] fsm.transitions@[i]).state@ == n || fsm.transitions@[i].next@ == n),
    )
}

/// The FSM's states as its declaration names them: the initial state, the
/// states transitions leave, the states they enter.
pub open spec fn fsm_state_listing(fsm: ScheduleFsm) -> Seq<Seq<char>> {
    seq![fsm.initial_state@] + fsm.transitions@.map_values(|t: FsmState| t.state@) + fsm.transitions@.map_values(
        |t: FsmState| t.next@,
    )
}

/// The states of an FSM, as the state enum and the arms of `fire` list them
/// (and, in typestate form, the marker structs and step impls): each state
/// once, in increasing order, and exactly the initial state and the states
/// some transition leaves or enters.
pub proof fn fsm_states_listed_once(fsm: ScheduleFsm)
    ensures
        strictly_sorted(sorted_names(fsm_state_set(fsm))),
        sorted_names(fsm_state_set(fsm)).no_duplicates(),
        forall|n: Seq<char>|
            #[trigger] sorted_names(fsm_state_set(fsm)).contains(n) <==> (n == fsm.initial_state@ || exists|i: int|
                0 <= i < fsm.transitions@.len() && ((#[trigger] fsm.transitions@[i]).state@ == n || fsm.transitions@[i].next@ == n)),
{
    let l = fsm_state_listing(fsm);
    let ts = fsm.transitions@;
    let m = ts.len();
    assert forall|n: Seq<char>| l.to_set().contains(n) == fsm_state_set(fsm).contains(n) by {
        if l.to_set().contains(n) {
            let k = choose|k: int| 0 <= k < l.len() && l[k] == n;
            if 1 <= k <= m {
                assert(ts[k - 1].state@ == n);
            } else if k > m {
                assert(ts[k - 1 - m].next@ == n);
            }
        }
        if fsm_state_set(fsm).contains(n) {
            if n == fsm.initial_state@ {
                assert(l[0] == n);
            } else {
                let i = choose|i: int| 0 <= i < m && ((#[trigger] ts[i]).state@ == n || ts[i].next@ == n);
                if ts[i].state@ == n {
                    assert(l[1 + i] == n);
                } else {
                    assert(l[1 + m + i] == n);
                }
            }
        }
    }
    assert(l.to_set() =~= fsm_state_set(fsm));
    sorted_names_of_listing(l);
    let q = sorted_names(fsm_state_set(fsm));
    assert forall|n: Seq<char>| #[trigger] q.contains(n) <==> fsm_state_set(fsm).contains(n) by {
        if q.contains(n) {
            assert(q.to_set().contains(n));
        }
        if fsm_state_set(fsm).contains(n) {
            assert(q.to_set().contains(n));
        }
    }
}

/// The states of an FSM in increasing order.
pub fn fsm_states(fsm: &ScheduleFsm) -> (res: Vec<String>)
    ensures
        views(res@) == sorted_names(fsm_state_set(*fsm)),
{
    let mut v: Vec<String> = Vec::new();
    insert_sorted(&mut v, fsm.initial_state.as_str());
    let mut i: usize = 0;
    while i < fsm.transitions.len()
        invariant
            0 <= i <= fsm.transitions@.len(),
            strictly_sorted(views(v@)),
            views(v@).to_set() == Set::new(
                |n: Seq<char>|
                    n == fsm.initial_state@ || exists|k: int|
                        0 <= k < i && ((#[trigger] fsm.transitions@[k]).state@ == n || fsm.transitions@[k].next@ == n),
            ),
        decreases fsm.transitions.len() - i,
    {
        let ghost prev = views(v@).to_set();
        insert_sorted(&mut v, fsm.transitions[i].state.as_str());
        insert_sorted(&mut v, fsm.transitions[i].next.as_str());
        assert(views(v@).to_set() =~= Set::new(
            |n: Seq<char>|
                n == fsm.initial_state@ || exists|k: int|
                    0 <= k < i + 1 && ((#[trigger] fsm.transitions@[k]).state@ == n || fsm.transitions@[k].next@ == n),
        )) by {
            assert forall|n: Seq<char>| (n == fsm.initial_state@ || exists|k: int|
                0 <= k < i + 1 && ((#[trigger] fsm.transitions@[k]).state@ == n || fsm.transitions@[k].next@ == n)) implies
                #[trigger] views(v@).to_set().contains(n) by {
                if n != fsm.initial_state@ {
                    let k = choose|k: int| 0 <= k < i + 1 && ((#[trigger] fsm.transitions@[k]).state@ == n || fsm.transitions@[k].next@ == n);
                    if k < i {
                        assert(prev.contains(n));
                    }
                }
            }
        }
        i = i + 1;
    }
    assert(views(v@).to_set() =~= fsm_state_set(*fsm));
    proof {
        sorted_names_unique(views(v@), fsm_state_set(*fsm));
    }
    v
}

/// The local that holds whether an output port had room when `fire` began.
pub open spec fn room_snapshot_text(port: Seq<char>) -> Seq<char> {
    "__room_"@ + port_field_text(port)
}

/// The local that holds whether an output port had room when `fire` began.
pub fn room_snapshot(port: &str) -> (res: String)
    ensures
        res@ == room_snapshot_text(port@),
{
    let f = port_field(port);
    cat2("__room_", f.as_str())
}

/// The output ports the actions write to.
pub open spec fn output_port_set(actions: Seq<Action>) -> Set<Seq<char>> {
    Set::new(
        |n: Seq<char>|
            exists|i: int, j: int|
                0 <= i < actions.len() && 0 <= j < actions[i].output_expressions@.len()
                    && (#[trigger] actions[i].output_expressions@[j]).port@ == n,
    )
}

/// One room snapshot per output port the actions write to, in port order.
pub open spec fn room_snapshots_text(actions: Seq<Action>) -> Seq<char> {
    concat(
        sorted_names(output_port_set(actions)).map_values(
            |p: Seq<char>| "        let "@ + room_snapshot_text(p) + " = "@ + port_ref_text(p) + ".has_room();\n"@,
        ),
    )
}

/// One room snapshot per output port the actions write to, in port order.
pub fn room_snapshots(actions: &Vec<&Action>) -> (res: String)
    ensures
        res@ == room_snapshots_text(derefs(actions@)),
{
    let mut ports: Vec<String> = Vec::new();
    assert(views(ports@).to_set() =~= Set::<Seq<char>>::empty());
    let mut i: usize = 0;
    while i < actions.len()
        invariant
            0 <= i <= actions@.len(),
            strictly_sorted(views(ports@)),
            views(ports@).to_set() == Set::new(
                |n: Seq<char>|
                    exists|a: int, b: int|
                        0 <= a < i && 0 <= b < actions@[a].output_expressions@.len()
                            && (#[trigger] actions@[a].output_expressions@[b]).port@ == n,
            ),
        decreases actions.len() - i,
    {
        let outs = &actions[i].output_expressions;
        let ghost start = views(ports@).to_set();
        let mut j: usize = 0;
        while j < outs.len()
            invariant
                0 <= j <= outs@.len(),
                0 <= i < actions@.len(),
                *outs == actions@[i as int].output_expressions,
                strictly_sorted(views(ports@)),
                views(ports@).to_set() == start.union(
                    Set::new(|n: Seq<char>| exists|b: int| 0 <= b < j && (#[trigger] outs@[b]).port@ == n),
                ),
            decreases outs.len() - j,
        {
            let ghost prev = views(ports@).to_set();
            insert_sorted(&mut ports, outs[j].port.as_str());
            assert(views(ports@).to_set() =~= start.union(
                Set::new(|n: Seq<char>| exists|b: int| 0 <= b < j + 1 && (#[trigger] outs@[b]).port@ == n),
            )) by {
                assert forall|n: Seq<char>| (exists|b: int| 0 <= b < j + 1 && (#[trigger] outs@[b]).port@ == n) implies
                    #[trigger] views(ports@).to_set().contains(n) by {
                    let b = choose|b: int| 0 <= b < j + 1 && (#[trigger] outs@[b]).port@ == n;
                    if b < j {
                        assert(prev.contains(n));
                    }
                }
            }
            j = j + 1;
        }
        assert(views(ports@).to_set() =~= Set::new(
            |n: Seq<char>|
                exists|a: int, b: int|
                    0 <= a < i + 1 && 0 <= b < actions@[a].output_expressions@.len()
                        && (#[trigger] actions@[a].output_expressions@[b]).port@ == n,
        )) by {
            assert forall|n: Seq<char>| #[trigger] views(ports@).to_set().contains(n) implies (exists|a: int, b: int|
                0 <= a < i + 1 && 0 <= b < actions@[a].output_expressions@.len()
                    && (#[trigger] actions@[a].output_expressions@[b]).port@ == n) by {
                if !start.contains(n) {
                    let b = choose|b: int| 0 <= b < outs@.len() && (#[trigger] outs@[b]).port@ == n;
                    assert(actions@[i as int].output_expressions@[b].port@ == n);
                }
            }
            assert forall|n: Seq<char>| (exists|a: int, b: int|
                0 <= a < i + 1 && 0 <= b < actions@[a].output_expressions@.len()
                    && (#[trigger] actions@[a].output_expressions@[b]).port@ == n) implies #[trigger] views(ports@).to_set().contains(n) by {
                let (a, b) = choose|a: int, b: int|
                    0 <= a < i + 1 && 0 <= b < actions@[a].output_expressions@.len()
                        && (#[trigger] actions@[a].output_expressions@[b]).port@ == n;
                if a < i {
                    assert(start.contains(n));
                } else {
                    assert(outs@[b].port@ == n);
                }
            }
        }
        i = i + 1;
    }
    assert(views(ports@).to_set() =~= output_port_set(derefs(actions@))) by {
        let ds = derefs(actions@);
        assert forall|n: Seq<char>| #[trigger] views(ports@).to_set().contains(n) implies output_port_set(ds).contains(n) by {
            let (a, b) = choose|a: int, b: int|
                0 <= a < actions@.len() && 0 <= b < actions@[a].output_expressions@.len()
                    && (#[trigger] actions@[a].output_expressions@[b]).port@ == n;
            assert(ds[a].output_expressions@[b].port@ == n);
        }
        assert forall|n: Seq<char>| #[trigger] output_port_set(ds).contains(n) implies views(ports@).to_set().contains(n) by {
            let (a, b) = choose|a: int, b: int|
                0 <= a < ds.len() && 0 <= b < ds[a].output_expressions@.len() && (#[trigger] ds[a].output_expressions@[b]).port@ == n;
            assert(actions@[a].output_expressions@[b].port@ == n);
        }
    }
    proof {
        sorted_names_unique(views(ports@), output_port_set(derefs(actions@)));
    }
    let ghost f = |p: Seq<char>| "        let "@ + room_snapshot_text(p) + " = "@ + port_ref_text(p) + ".has_room();\n"@;
    let ghost names = views(ports@);
    let mut out = String::new();
    let mut k: usize = 0;
    while k < ports.len()
        invariant
            0 <= k <= ports@.len(),
            names == views(ports@),
            f == (|p: Seq<char>| "        let "@ + room_snapshot_text(p) + " = "@ + port_ref_text(p) + ".has_room();\n"@),
            out@ == concat(names.take(k as int).map_values(f)),
        decreases ports.len() - k,
    {
        let snap = room_snapshot(ports[k].as_str());
        let r = port_ref(ports[k].as_str());
        out.append("        let ");
        out.append(snap.as_str());
        out.append(" = ");
        out.append(r.as_str());
        out.append(".has_room();\n");
        assert(names.take(k + 1).map_values(f).drop_last() =~= names.take(k as int).map_values(f));
        k = k + 1;
    }
    assert(names.take(names.len() as int) =~= names);
    out
}


/// The number of tokens an input pattern consumes, as a Rust expression.
pub open spec fn token_count_text(p: InputPattern, state: Set<Seq<char>>, locals: Set<Seq<char>>) -> Seq<char> {
    match p.repeat {
        Some(r) => "("@ + decimal(p.ids.len() as nat) + " * ("@ + expr_text(r, state, locals) + ")) as usize"@,
        None => decimal(p.ids.len() as nat),
    }
}

/// The number of tokens an input pattern consumes, as a Rust expression.
pub fn pattern_token_count(p: &InputPattern, state: &NameSet, locals: &NameSet) -> (res: String)
    ensures
        res@ == token_count_text(*p, state@, locals@),
{
    let n = decimal_string(p.ids.len());
    match &p.repeat {
        Some(r) => {
            let e = emit_expr(r, state, locals);
            let mut out = cat3("(", n.as_str(), " * (");
            out.append(e.as_str());
            out.append(")) as usize");
            out
        },
        None => n,
    }
}

/// Whether an expression depends on the consumed tokens: it names one, or
/// looks at a port.
pub open spec fn reads_tokens_spec(e: Expr, tokens: Set<Seq<char>>) -> bool
    decreases e, 1int,
{
    match e {
        Expr::Paren(inner) => reads_tokens_spec(*inner, tokens),
        Expr::BinOp { left, right, .. } => reads_tokens_spec(*left, tokens) || reads_tokens_spec(*right, tokens),
        Expr::Literal { .. } => false,
        Expr::FsmEnumElement { .. } => false,
        Expr::Identifier { name, indices, call, .. } => tokens.contains(name@) || any_reads_tokens(indices@, tokens) || match call {
            Some(args) => any_reads_tokens(args@, tokens),
            None => false,
        },
        Expr::PortPreview { .. } => true,
        Expr::PortSize { .. } => true,
        Expr::PortFree { .. } => true,
        Expr::Ternary { cond, then, els } => reads_tokens_spec(*cond, tokens) || reads_tokens_spec(*then, tokens) || reads_tokens_spec(
            *els,
            tokens,
        ),
        Expr::ListComprehension { expressions, generators } => any_reads_tokens(expressions@, tokens) || generators_read_tokens(
            generators@,
            tokens,
        ),
    }
}

/// Whether any of the expressions depends on the consumed tokens.
pub open spec fn any_reads_tokens(es: Seq<Expr>, tokens: Set<Seq<char>>) -> bool
    decreases es, 0int,
{
    if es.len() == 0 {
        false
    } else {
        any_reads_tokens(es.subrange(0, es.len() - 1), tokens) || reads_tokens_spec(es.last(), tokens)
    }
}

/// Whether the bounds of any generator depend on the consumed tokens.
pub open spec fn generators_read_tokens(gs: Seq<crate::ast::Generator>, tokens: Set<Seq<char>>) -> bool
    decreases gs, 0int,
{
    if gs.len() == 0 {
        false
    } else {
        generators_read_tokens(gs.subrange(0, gs.len() - 1), tokens) || reads_tokens_spec(gs.last().start, tokens) || reads_tokens_spec(
            gs.last().end,
            tokens,
        )
    }
}

/// Whether an expression depends on the consumed tokens.
pub fn reads_tokens(expr: &Expr, tokens: &NameSet) -> (res: bool)
    ensures
        res == reads_tokens_spec(*expr, tokens@),
    decreases *expr, 1int,
{
    match expr {
        Expr::Paren(inner) => reads_tokens(inner, tokens),
        Expr::BinOp { left, right, .. } => reads_tokens(left, tokens) || reads_tokens(right, tokens),
        Expr::Literal { .. } => false,
        Expr::FsmEnumElement { .. } => false,
        Expr::Identifier { name, indices, call, .. } => {
            tokens.contains(name.as_str()) || any_reads(indices, tokens) || match call {
                Some(args) => any_reads(args, tokens),
                None => false,
            }
        },
        Expr::PortPreview { .. } => true,
        Expr::PortSize { .. } => true,
        Expr::PortFree { .. } => true,
        Expr::Ternary { cond, then, els } => reads_tokens(cond, tokens) || reads_tokens(then, tokens) || reads_tokens(els, tokens),
        Expr::ListComprehension { expressions, generators } => any_reads(expressions, tokens) || generators_read(generators, tokens),
    }
}

fn any_reads(es: &Vec<Expr>, tokens: &NameSet) -> (res: bool)
    ensures
        res == any_reads_tokens(es@, tokens@),
    decreases es@, 0int,
{
    let mut i: usize = 0;
    while i < es.len()
        invariant
            0 <= i <= es.len(),
            !any_reads_tokens(es@.take(i as int), tokens@),
        decreases es.len() - i,
    {
        assert(es@.take(i + 1).subrange(0, i as int) =~= es@.take(i as int));
        if reads_tokens(&es[i], tokens) {
            proof {
                any_reads_prefix(es@, tokens@, i as int + 1);
            }
            return true;
        }
        i = i + 1;
    }
    assert(es@.take(es.len() as int) =~= es@);
    false
}

proof fn any_reads_prefix(es: Seq<Expr>, tokens: Set<Seq<char>>, k: int)
    requires
        0 <= k <= es.len(),
        any_reads_tokens(es.take(k), tokens),
    ensures
        any_reads_tokens(es, tokens),
    decreases es.len() - k,
{
    if k < es.len() {
        assert(es.take(k + 1).subrange(0, k) =~= es.take(k));
        any_reads_prefix(es, tokens, k + 1);
    } else {
        assert(es.take(k) =~= es);
    }
}

fn generators_read(gs: &Vec<crate::ast::Generator>, tokens: &NameSet) -> (res: bool)
    ensures
        res == generators_read_tokens(gs@, tokens@),
    decreases gs@, 0int,
{
    let mut i: usize = 0;
    while i < gs.len()
        invariant
            0 <= i <= gs.len(),
            !generators_read_tokens(gs@.take(i as int), tokens@),
        decreases gs.len() - i,
    {
        assert(gs@.take(i + 1).subrange(0, i as int) =~= gs@.take(i as int));
        if reads_tokens(&gs[i].start, tokens) || reads_tokens(&gs[i].end, tokens) {
            proof {
                generators_read_prefix(gs@, tokens@, i as int + 1);
            }
            return true;
        }
        i = i + 1;
    }
    assert(gs@.take(gs.len() as int) =~= gs@);
    false
}

proof fn generators_read_prefix(gs: Seq<crate::ast::Generator>, tokens: Set<Seq<char>>, k: int)
    requires
        0 <= k <= gs.len(),
        generators_read_tokens(gs.take(k), tokens),
    ensures
        generators_read_tokens(gs, tokens),
    decreases gs.len() - k,
{
    if k < gs.len() {
        assert(gs.take(k + 1).subrange(0, k) =~= gs.take(k));
        generators_read_prefix(gs, tokens, k + 1);
    } else {
        assert(gs.take(k) =~= gs);
    }
}

/// The names bound by the input patterns of an action.
pub open spec fn input_ids(action: Action) -> Set<Seq<char>> {
    Set::new(
        |n: Seq<char>|
            exists|i: int, j: int|
                0 <= i < action.input_patterns@.len() && 0 <= j < action.input_patterns@[i].ids@.len()
                    && (#[trigger] action.input_patterns@[i].ids@[j])@ == n,
    )
}

/// The names bound by the input patterns of an action.
pub fn input_id_set(action: &Action) -> (res: NameSet)
    ensures
        res@ == input_ids(*action),
{
    let mut set = NameSet::new();
    let mut i: usize = 0;
    while i < action.input_patterns.len()
        invariant
            0 <= i <= action.input_patterns@.len(),
            set@ == Set::new(
                |n: Seq<char>|
                    exists|a: int, b: int|
                        0 <= a < i && 0 <= b < action.input_patterns@[a].ids@.len() && (#[trigger] action.input_patterns@[a].ids@[b])@
                            == n,
            ),
        decreases action.input_patterns.len() - i,
    {
        let ids = &action.input_patterns[i].ids;
        let ghost start = set@;
        let mut j: usize = 0;
        while j < ids.len()
            invariant
                0 <= j <= ids@.len(),
                0 <= i < action.input_patterns@.len(),
                *ids == action.input_patterns@[i as int].ids,
                set@ == start.union(Set::new(|n: Seq<char>| exists|b: int| 0 <= b < j && (#[trigger] ids@[b])@ == n)),
            decreases ids.len() - j,
        {
            let ghost prev = set@;
            set.insert(ids[j].as_str());
            assert(set@ =~= start.union(Set::new(|n: Seq<char>| exists|b: int| 0 <= b < j + 1 && (#[trigger] ids@[b])@ == n))) by {
                assert forall|n: Seq<char>| (exists|b: int| 0 <= b < j + 1 && (#[trigger] ids@[b])@ == n) implies #[trigger] set@.contains(n) by {
                    let b = choose|b: int| 0 <= b < j + 1 && (#[trigger] ids@[b])@ == n;
                    if b < j {
                        assert(prev.contains(n));
                    }
                }
            }
            j = j + 1;
        }
        assert(set@ =~= Set::new(
            |n: Seq<char>|
                exists|a: int, b: int|
                    0 <= a < i + 1 && 0 <= b < action.input_patterns@[a].ids@.len() && (#[trigger] action.input_patterns@[a].ids@[b])@ == n,
        )) by {
            assert forall|n: Seq<char>| #[trigger] set@.contains(n) implies (exists|a: int, b: int|
                0 <= a < i + 1 && 0 <= b < action.input_patterns@[a].ids@.len() && (#[trigger] action.input_patterns@[a].ids@[b])@ == n) by {
                if !start.contains(n) {
                    let b = choose|b: int| 0 <= b < ids@.len() && (#[trigger] ids@[b])@ == n;
                    assert(action.input_patterns@[i as int].ids@[b]@ == n);
                }
            }
            assert forall|n: Seq<char>| (exists|a: int, b: int|
                0 <= a < i + 1 && 0 <= b < action.input_patterns@[a].ids@.len() && (#[trigger] action.input_patterns@[a].ids@[b])@ == n) implies
                #[trigger] set@.contains(n) by {
                let (a, b) = choose|a: int, b: int|
                    0 <= a < i + 1 && 0 <= b < action.input_patterns@[a].ids@.len() && (#[trigger] action.input_patterns@[a].ids@[b])@ == n;
                if a < i {
                    assert(start.contains(n));
                } else {
                    assert(ids@[b]@ == n);
                }
            }
        }
        i = i + 1;
    }
    assert(set@ =~= input_ids(*action));
    set
}


/// The declaration of the vector that collects one repeated token name.
pub open spec fn recv_vec_text(id: Seq<char>, n: Seq<char>) -> Seq<char> {
    "            let mut "@ + ident_text(id) + ": Vec<_> = Vec::with_capacity("@ + n + ");\n"@
}

/// The push of one received token into its vector.
pub open spec fn recv_push_text(id: Seq<char>, port: Seq<char>) -> Seq<char> {
    " "@ + ident_text(id) + ".push("@ + port + ".recv());"@
}

/// A binding of one received token.
pub open spec fn recv_one_text(id: Seq<char>, port: Seq<char>) -> Seq<char> {
    "            let mut "@ + ident_text(id) + " = "@ + port + ".recv();\n"@
}

/// The receipt of the tokens of one input pattern: a repeated pattern fills
/// one vector per name, round by round; a plain one binds one token per name.
pub open spec fn recv_text(p: InputPattern, state: Set<Seq<char>>, locals: Set<Seq<char>>) -> Seq<char> {
    let port = port_ref_text(p.port@);
    let ids = p.ids@.map_values(|s: String| s@);
    match p.repeat {
        Some(r) => {
            let n = "__n_"@ + port_field_text(p.port@);
            "            let "@ + n + " = ("@ + expr_text(r, state, locals) + ") as usize;\n"@ + ids_text(ids, 0, n)
                + "            for _ in 0.."@ + n + " {"@ + ids_text(ids, 1, port) + " }\n"@
        },
        None => ids_text(ids, 2, port),
    }
}

/// The text for one token name: a vector declaration (`kind` 0), a push of a
/// received token (1), or a binding of one received token (2).
pub open spec fn id_piece(kind: u8, id: Seq<char>, other: Seq<char>) -> Seq<char> {
    if kind == 0 {
        recv_vec_text(id, other)
    } else if kind == 1 {
        recv_push_text(id, other)
    } else {
        recv_one_text(id, other)
    }
}

/// The texts for the token names, laid end to end.
pub open spec fn ids_text(ids: Seq<Seq<char>>, kind: u8, other: Seq<char>) -> Seq<char>
    decreases ids.len(),
{
    if ids.len() == 0 {
        Seq::empty()
    } else {
        ids_text(ids.drop_last(), kind, other) + id_piece(kind, ids.last(), other)
    }
}

fn concat_over_ids(ids: &Vec<String>, kind: u8, other: &str) -> (res: String)
    ensures
        res@ == ids_text(views(ids@), kind, other@),
{
    let ghost vs = views(ids@);
    let mut out = String::new();
    let mut i: usize = 0;
    while i < ids.len()
        invariant
            0 <= i <= ids@.len(),
            vs == views(ids@),
            out@ == ids_text(vs.take(i as int), kind, other@),
        decreases ids.len() - i,
    {
        let id = ident(ids[i].as_str());
        if kind == 0 {
            out.append("            let mut ");
            out.append(id.as_str());
            out.append(": Vec<_> = Vec::with_capacity(");
            out.append(other);
            out.append(");\n");
        } else if kind == 1 {
            out.append(" ");
            out.append(id.as_str());
            out.append(".push(");
            out.append(other);
            out.append(".recv());");
        } else {
            out.append("            let mut ");
            out.append(id.as_str());
            out.append(" = ");
            out.append(other);
            out.append(".recv();\n");
        }
        assert(vs.take(i + 1).drop_last() =~= vs.take(i as int));
        i = i + 1;
    }
    assert(vs.take(vs.len() as int) =~= vs);
    out
}

/// The receipt of the tokens of one input pattern.
fn emit_recv(p: &InputPattern, state: &NameSet, locals: &NameSet) -> (res: String)
    ensures
        res@ == recv_text(*p, state@, locals@),
{
    let port = port_ref(p.port.as_str());
    match &p.repeat {
        Some(r) => {
            let f = port_field(p.port.as_str());
            let n = cat2("__n_", f.as_str());
            let e = emit_expr(r, state, locals);
            let vecs = concat_over_ids(&p.ids, 0, n.as_str());
            let pushes = concat_over_ids(&p.ids, 1, port.as_str());
            let mut out = cat3("            let ", n.as_str(), " = (");
            out.append(e.as_str());
            out.append(") as usize;\n");
            out.append(vecs.as_str());
            out.append("            for _ in 0..");
            out.append(n.as_str());
            out.append(" {");
            out.append(pushes.as_str());
            out.append(" }\n");
            out
        },
        None => concat_over_ids(&p.ids, 2, port.as_str()),
    }
}

/// The receipt of the tokens of all input patterns.
pub open spec fn recvs_text(action: Action, state: Set<Seq<char>>, locals: Set<Seq<char>>) -> Seq<char> {
    concat(action.input_patterns@.map_values(|p: InputPattern| recv_text(p, state, locals)))
}

/// The receipt of the tokens of all input patterns.
pub fn emit_recvs(action: &Action, state: &NameSet, locals: &NameSet) -> (res: String)
    ensures
        res@ == recvs_text(*action, state@, locals@),
{
    let ghost f = |p: InputPattern| recv_text(p, state@, locals@);
    let mut out = String::new();
    let mut i: usize = 0;
    while i < action.input_patterns.len()
        invariant
            0 <= i <= action.input_patterns@.len(),
            f == (|p: InputPattern| recv_text(p, state@, locals@)),
            out@ == concat(action.input_patterns@.take(i as int).map_values(f)),
        decreases action.input_patterns.len() - i,
    {
        let r = emit_recv(&action.input_patterns[i], state, locals);
        out.append(r.as_str());
        assert(action.input_patterns@.take(i + 1).map_values(f).drop_last() =~= action.input_patterns@.take(i as int).map_values(f));
        i = i + 1;
    }
    assert(action.input_patterns@.take(action.input_patterns@.len() as int) =~= action.input_patterns@);
    out
}

/// A look at the `i`-th token name of a pattern without consuming it.
pub open spec fn peek_one_text(p: InputPattern, i: int, state: Set<Seq<char>>, locals: Set<Seq<char>>) -> Seq<char> {
    let stride = decimal(p.ids.len() as nat);
    match p.repeat {
        Some(r) => "            let mut "@ + ident_text(p.ids@[i]@) + ": Vec<_> = ("@ + decimal(i as nat) + "..("@ + stride + " * ("@
            + expr_text(r, state, locals) + ")) as usize).step_by("@ + stride + ").map(|__j| "@ + port_ref_text(p.port@)
            + ".peek(__j)).collect();\n"@,
        None => "            let mut "@ + ident_text(p.ids@[i]@) + " = "@ + port_ref_text(p.port@) + ".peek("@ + decimal(i as nat)
            + ");\n"@,
    }
}

/// The looks at the first `k` token names of a pattern.
pub open spec fn peek_prefix(p: InputPattern, k: nat, state: Set<Seq<char>>, locals: Set<Seq<char>>) -> Seq<char>
    decreases k,
{
    if k == 0 {
        Seq::empty()
    } else {
        peek_prefix(p, (k - 1) as nat, state, locals) + peek_one_text(p, k - 1, state, locals)
    }
}

/// The looks at every token name of a pattern.
pub open spec fn peek_text(p: InputPattern, state: Set<Seq<char>>, locals: Set<Seq<char>>) -> Seq<char> {
    peek_prefix(p, p.ids@.len(), state, locals)
}

fn emit_peek_one(p: &InputPattern, i: usize, stride: &str, port: &str, state: &NameSet, locals: &NameSet) -> (res: String)
    requires
        i < p.ids@.len(),
        stride@ == decimal(p.ids@.len() as nat),
        port@ == port_ref_text(p.port@),
    ensures
        res@ == peek_one_text(*p, i as int, state@, locals@),
{
    let id = ident(p.ids[i].as_str());
    let num = decimal_string(i);
    let mut out = cat2("            let mut ", id.as_str());
    match &p.repeat {
        Some(r) => {
            let e = emit_expr(r, state, locals);
            out.append(": Vec<_> = (");
            out.append(num.as_str());
            out.append("..(");
            out.append(stride);
            out.append(" * (");
            out.append(e.as_str());
            out.append(")) as usize).step_by(");
            out.append(stride);
            out.append(").map(|__j| ");
            out.append(port);
            out.append(".peek(__j)).collect();\n");
        },
        None => {
            out.append(" = ");
            out.append(port);
            out.append(".peek(");
            out.append(num.as_str());
            out.append(");\n");
        },
    }
    out
}

fn emit_peek(p: &InputPattern, state: &NameSet, locals: &NameSet) -> (res: String)
    ensures
        res@ == peek_text(*p, state@, locals@),
{
    let stride = decimal_string(p.ids.len());
    let port = port_ref(p.port.as_str());
    let mut out = String::new();
    let mut i: usize = 0;
    while i < p.ids.len()
        invariant
            0 <= i <= p.ids@.len(),
            stride@ == decimal(p.ids@.len() as nat),
            port@ == port_ref_text(p.port@),
            out@ == peek_prefix(*p, i as nat, state@, locals@),
        decreases p.ids.len() - i,
    {
        let piece = emit_peek_one(p, i, stride.as_str(), port.as_str(), state, locals);
        out.append(piece.as_str());
        i = i + 1;
    }
    out
}

/// The looks at the tokens of all input patterns.
pub open spec fn peeks_text(action: Action, state: Set<Seq<char>>, locals: Set<Seq<char>>) -> Seq<char> {
    concat(action.input_patterns@.map_values(|p: InputPattern| peek_text(p, state, locals)))
}

/// The looks at the tokens of all input patterns.
pub fn emit_peeks(action: &Action, state: &NameSet, locals: &NameSet) -> (res: String)
    ensures
        res@ == peeks_text(*action, state@, locals@),
{
    let ghost f = |p: InputPattern| peek_text(p, state@, locals@);
    let mut out = String::new();
    let mut i: usize = 0;
    while i < action.input_patterns.len()
        invariant
            0 <= i <= action.input_patterns@.len(),
            f == (|p: InputPattern| peek_text(p, state@, locals@)),
            out@ == concat(action.input_patterns@.take(i as int).map_values(f)),
        decreases action.input_patterns.len() - i,
    {
        let r = emit_peek(&action.input_patterns[i], state, locals);
        out.append(r.as_str());
        assert(action.input_patterns@.take(i + 1).map_values(f).drop_last() =~= action.input_patterns@.take(i as int).map_values(f));
        i = i + 1;
    }
    assert(action.input_patterns@.take(action.input_patterns@.len() as int) =~= action.input_patterns@);
    out
}


/// The push of one output expression's value (or, for a repeated output, of
/// each of its elements) to the output port.
pub open spec fn output_push_text(o: OutputExpr, e: Expr, state: Set<Seq<char>>, locals: Set<Seq<char>>) -> Seq<char> {
    if o.repeat is Some {
        "            for __tok in ("@ + expr_text(e, state, locals) + ").clone() { "@ + port_ref_text(o.port@) + ".push_back(__tok); }\n"@
    } else {
        "            "@ + port_ref_text(o.port@) + ".push_back("@ + expr_text(e, state, locals) + ");\n"@
    }
}

/// The pushes of one output pattern.
pub open spec fn output_text(o: OutputExpr, state: Set<Seq<char>>, locals: Set<Seq<char>>) -> Seq<char> {
    concat(o.expressions@.map_values(|e: Expr| output_push_text(o, e, state, locals)))
}

fn emit_output(o: &OutputExpr, state: &NameSet, locals: &NameSet) -> (res: String)
    ensures
        res@ == output_text(*o, state@, locals@),
{
    let ghost f = |e: Expr| output_push_text(*o, e, state@, locals@);
    let port = port_ref(o.port.as_str());
    let mut out = String::new();
    let mut i: usize = 0;
    while i < o.expressions.len()
        invariant
            0 <= i <= o.expressions@.len(),
            port@ == port_ref_text(o.port@),
            f == (|e: Expr| output_push_text(*o, e, state@, locals@)),
            out@ == concat(o.expressions@.take(i as int).map_values(f)),
        decreases o.expressions.len() - i,
    {
        let e = emit_expr(&o.expressions[i], state, locals);
        if o.repeat.is_some() {
            out.append("            for __tok in (");
            out.append(e.as_str());
            out.append(").clone() { ");
            out.append(port.as_str());
            out.append(".push_back(__tok); }\n");
        } else {
            out.append("            ");
            out.append(port.as_str());
            out.append(".push_back(");
            out.append(e.as_str());
            out.append(");\n");
        }
        assert(o.expressions@.take(i + 1).map_values(f).drop_last() =~= o.expressions@.take(i as int).map_values(f));
        i = i + 1;
    }
    assert(o.expressions@.take(o.expressions@.len() as int) =~= o.expressions@);
    out
}

/// The discarding of the tokens of each input pattern.
pub open spec fn pops_text(action: Action, state: Set<Seq<char>>, ids: Set<Seq<char>>) -> Seq<char> {
    concat(
        action.input_patterns@.map_values(
            |p: InputPattern| "            for _ in 0.."@ + token_count_text(p, state, ids) + " { "@ + port_ref_text(p.port@) + ".pop_front(); }\n"@,
        ),
    )
}

/// The body of an action once it fires: discarding peeked tokens (when
/// `pop_inputs`), its variables, its statements (a CAL `return` becoming
/// `ret`), its outputs, and the FSM transition.
pub open spec fn action_body_text(action: Action, state: Set<Seq<char>>, fsm_next: Option<Seq<char>>, pop_inputs: bool, ret: Seq<char>) -> Seq<char> {
    let ids = input_ids(action);
    let locals = ids.union(var_names(action.vars@));
    let pops = if pop_inputs {
        pops_text(action, state, ids)
    } else {
        Seq::empty()
    };
    pops + vardefs_text(action.vars@, state, locals) + stmts_text(action.stmts@, state, locals, ret) + concat(
        action.output_expressions@.map_values(|o: OutputExpr| output_text(o, state, locals)),
    ) + match fsm_next {
        Some(t) => "            "@ + t + "\n"@,
        None => Seq::empty(),
    }
}

/// The body of an action once it fires.
pub fn emit_action_body(action: &Action, state: &NameSet, fsm_next: Option<&str>, pop_inputs: bool, ret: &str) -> (res: String)
    ensures
        res@ == action_body_text(
            *action,
            state@,
            match fsm_next {
                Some(t) => Some(t@),
                None => None,
            },
            pop_inputs,
            ret@,
        ),
{
    let ids = input_id_set(action);
    let mut out = String::new();
    if pop_inputs {
        let ghost f = |p: InputPattern| "            for _ in 0.."@ + token_count_text(p, state@, ids@) + " { "@ + port_ref_text(p.port@) + ".pop_front(); }\n"@;
        let mut i: usize = 0;
        while i < action.input_patterns.len()
            invariant
                0 <= i <= action.input_patterns@.len(),
                f == (|p: InputPattern| "            for _ in 0.."@ + token_count_text(p, state@, ids@) + " { "@ + port_ref_text(p.port@) + ".pop_front(); }\n"@),
                out@ == concat(action.input_patterns@.take(i as int).map_values(f)),
            decreases action.input_patterns.len() - i,
        {
            let pat = &action.input_patterns[i];
            let count = pattern_token_count(pat, state, &ids);
            let port = port_ref(pat.port.as_str());
            out.append("            for _ in 0..");
            out.append(count.as_str());
            out.append(" { ");
            out.append(port.as_str());
            out.append(".pop_front(); }\n");
            assert(action.input_patterns@.take(i + 1).map_values(f).drop_last() =~= action.input_patterns@.take(i as int).map_values(f));
            i = i + 1;
        }
        assert(action.input_patterns@.take(action.input_patterns@.len() as int) =~= action.input_patterns@);
    } else {
        assert(out@ =~= Seq::<char>::empty());
    }
    let locals = with_var_names(&ids, &action.vars);
    let decls = emit_vardefs(&action.vars, state, &locals);
    let body = emit_stmts(&action.stmts, state, &locals, ret);
    out.append(decls.as_str());
    out.append(body.as_str());
    let ghost g = |o: OutputExpr| output_text(o, state@, locals@);
    let ghost start = out@;
    let mut j: usize = 0;
    while j < action.output_expressions.len()
        invariant
            0 <= j <= action.output_expressions@.len(),
            g == (|o: OutputExpr| output_text(o, state@, locals@)),
            out@ == start + concat(action.output_expressions@.take(j as int).map_values(g)),
        decreases action.output_expressions.len() - j,
    {
        let t = emit_output(&action.output_expressions[j], state, &locals);
        out.append(t.as_str());
        assert(action.output_expressions@.take(j + 1).map_values(g).drop_last() =~= action.output_expressions@.take(j as int).map_values(g));
        j = j + 1;
    }
    assert(action.output_expressions@.take(action.output_expressions@.len() as int) =~= action.output_expressions@);
    match fsm_next {
        Some(t) => {
            out.append("            ");
            out.append(t);
            out.append("\n");
        },
        None => {
            assert(out@ + Seq::<char>::empty() =~= out@);
        },
    }
    out
}


/// How a fired action ends: report that it fired, fall through (in `init`),
/// or move the typestate actor to the state built by the given constructor.
#[derive(Copy, Clone)]
pub enum Commit<'a> {
    Fired,
    Fallthrough,
    Move(&'a str),
}

/// The statement that ends a fired action.
pub open spec fn commit_tail_text(c: Commit) -> Seq<char> {
    match c {
        Commit::Fired => "            return true;\n"@,
        Commit::Fallthrough => Seq::empty(),
        Commit::Move(next) => "            return ("@ + next@ + "(self.into_state()), true);\n"@,
    }
}

/// What a CAL `return` inside the action becomes: `init` returns nothing,
/// `fire` reports that nothing fired.
pub open spec fn commit_return_text(c: Commit) -> Seq<char> {
    match c {
        Commit::Fallthrough => "            return;\n"@,
        _ => "            return false;\n"@,
    }
}

/// Names output patterns by their port.
pub open spec fn output_port_namer() -> spec_fn(OutputExpr) -> Seq<char> {
    |o: OutputExpr| o.port@
}

/// The availability test of an input pattern.
pub open spec fn avail_text(p: InputPattern, state: Set<Seq<char>>, locals: Set<Seq<char>>) -> Seq<char> {
    port_ref_text(p.port@) + ".avail("@ + token_count_text(p, state, locals) + ")"@
}

/// The conditions under which an action fires: enough tokens on each input,
/// room on each output port it writes (each port once), and, when the guard
/// does not look at the tokens, the guard.
pub open spec fn action_conds(action: Action, state: Set<Seq<char>>, locals: Set<Seq<char>>, guard_cond: Seq<Seq<char>>) -> Seq<Seq<char>> {
    action.input_patterns@.map_values(|p: InputPattern| avail_text(p, state, locals)) + first_by_name(
        action.output_expressions@,
        output_port_namer(),
    ).map_values(|o: OutputExpr| room_snapshot_text(o.port@)) + guard_cond
}

/// An action as a guarded block of `fire`: when its guard does not look at
/// the tokens, the tokens are received only once the guard holds; otherwise
/// they are peeked, the guard tested, and discarded in the body.
#[verifier::opaque]
pub open spec fn action_text(action: Action, state: Set<Seq<char>>, fsm_next: Option<Seq<char>>, tail: Seq<char>, ret: Seq<char>) -> Seq<char> {
    let ids = input_ids(action);
    let locals = ids.union(var_names(action.vars@));
    let consume = !any_reads_tokens(action.guards@, ids);
    let body = action_body_text(action, state, fsm_next, !consume, ret);
    let has_guard = action.guards@.len() > 0;
    let guard = join(exprs_texts(action.guards@, state, locals), " && "@);
    let conds = action_conds(
        action,
        state,
        locals,
        if consume && has_guard {
            seq![guard]
        } else {
            Seq::empty()
        },
    );
    if conds.len() == 0 {
        if action.vars@.len() == 0 {
            body + tail
        } else {
            "        {\n"@ + body + tail + "        }\n"@
        }
    } else {
        let avail = join(conds, " && "@);
        if consume {
            "        if "@ + avail + " {\n"@ + recvs_text(action, state, locals) + body + tail + "        }\n"@
        } else {
            let guarded = if has_guard {
                "if "@ + guard + " {\n"@ + body + tail + "            }"@
            } else {
                "{\n"@ + body + tail + "            }"@
            };
            "        if "@ + avail + " {\n"@ + peeks_text(action, state, locals) + "            "@ + guarded + "\n        }\n"@
        }
    }
}

/// How an action with inputs and a guard is tried: when the guard looks at
/// the input tokens, they are peeked, the guard tested, and only inside the
/// guard are the tokens discarded and the body run; otherwise the guard joins
/// the availability test and the tokens are received only once it holds.
#[verifier::spinoff_prover]
pub proof fn guarded_action_consumes_inside_guard(
    action: Action,
    state: Set<Seq<char>>,
    fsm_next: Option<Seq<char>>,
    tail: Seq<char>,
    ret: Seq<char>,
)
    requires
        action.input_patterns@.len() > 0,
        action.guards@.len() > 0,
    ensures
        ({
            let ids = input_ids(action);
            let locals = ids.union(var_names(action.vars@));
            let guard = join(exprs_texts(action.guards@, state, locals), " && "@);
            let text = action_text(action, state, fsm_next, tail, ret);
            &&& any_reads_tokens(action.guards@, ids) ==> text == "        if "@ + join(
                action_conds(action, state, locals, Seq::empty()),
                " && "@,
            ) + " {\n"@ + peeks_text(action, state, locals) + "            "@ + ("if "@ + guard + " {\n"@ + action_body_text(
                action,
                state,
                fsm_next,
                true,
                ret,
            ) + tail + "            }"@) + "\n        }\n"@
            &&& !any_reads_tokens(action.guards@, ids) ==> text == "        if "@ + join(
                action_conds(action, state, locals, seq![guard]),
                " && "@,
            ) + " {\n"@ + recvs_text(action, state, locals) + action_body_text(action, state, fsm_next, false, ret) + tail
                + "        }\n"@
        }),
{
    reveal(action_text);
    let ids = input_ids(action);
    let locals = ids.union(var_names(action.vars@));
    assert(action_conds(action, state, locals, Seq::empty()).len() > 0) by {
        assert(action.input_patterns@.map_values(|p: InputPattern| avail_text(p, state, locals)).len() > 0);
    }
    let guard = join(exprs_texts(action.guards@, state, locals), " && "@);
    assert(action_conds(action, state, locals, seq![guard]).len() > 0) by {
        assert(action.input_patterns@.map_values(|p: InputPattern| avail_text(p, state, locals)).len() > 0);
    }
}

fn emit_conds(action: &Action, state: &NameSet, locals: &NameSet) -> (res: Vec<String>)
    ensures
        views(res@) == action_conds(*action, state@, locals@, Seq::empty()),
{
    let ghost f = |p: InputPattern| avail_text(p, state@, locals@);
    let ghost a = action.input_patterns@.map_values(f);
    let mut conds: Vec<String> = Vec::new();
    let mut i: usize = 0;
    while i < action.input_patterns.len()
        invariant
            0 <= i <= action.input_patterns@.len(),
            f == (|p: InputPattern| avail_text(p, state@, locals@)),
            a == action.input_patterns@.map_values(f),
            views(conds@) == a.take(i as int),
        decreases action.input_patterns.len() - i,
    {
        let pat = &action.input_patterns[i];
        let r = port_ref(pat.port.as_str());
        let c = pattern_token_count(pat, state, locals);
        let mut x = cat3(r.as_str(), ".avail(", c.as_str());
        x.append(")");
        let ghost before = conds@;
        proof {
            views_push(before, x);
            take_push(a, i as int);
        }
        conds.push(x);
        i = i + 1;
    }
    assert(a.take(a.len() as int) =~= a);
    let outs = &action.output_expressions;
    let ghost g = |o: OutputExpr| room_snapshot_text(o.port@);
    let mut seen = NameSet::new();
    assert(seen@ =~= names_of(outs@.take(0), output_port_namer()));
    let mut j: usize = 0;
    while j < outs.len()
        invariant
            0 <= j <= outs@.len(),
            g == (|o: OutputExpr| room_snapshot_text(o.port@)),
            a == action.input_patterns@.map_values(f),
            seen@ == names_of(outs@.take(j as int), output_port_namer()),
            views(conds@) == a + first_by_name(outs@.take(j as int), output_port_namer()).map_values(g),
        decreases outs.len() - j,
    {
        let o = &outs[j];
        let ghost prefix = outs@.take(j as int);
        let ghost kept = first_by_name(prefix, output_port_namer());
        proof {
            assert(outs@.take(j + 1) =~= prefix.push(*o));
            names_of_push(prefix, *o, output_port_namer());
            first_by_name_push(prefix, *o, output_port_namer());
        }
        if !seen.contains(o.port.as_str()) {
            let x = room_snapshot(o.port.as_str());
            let ghost before = conds@;
            proof {
                views_push(before, x);
                assert(kept.push(*o).map_values(g) =~= kept.map_values(g).push(g(*o)));
            }
            conds.push(x);
            seen.insert(o.port.as_str());
            assert(views(conds@) =~= a + kept.push(*o).map_values(g));
        } else {
            assert(seen@.insert(o.port@) =~= seen@);
        }
        j = j + 1;
    }
    assert(outs@.take(outs@.len() as int) =~= outs@);
    assert(views(conds@) =~= action_conds(*action, state@, locals@, Seq::empty()));
    conds
}

/// An action as a guarded block of `fire`.
pub fn emit_action(action: &Action, state: &NameSet, fsm_next: Option<&str>, commit: Commit) -> (res: String)
    ensures
        res@ == action_text(
            *action,
            state@,
            match fsm_next {
                Some(t) => Some(t@),
                None => None,
            },
            commit_tail_text(commit),
            commit_return_text(commit),
        ),
{
    proof {
        reveal(action_text);
    }
    let ids = input_id_set(action);
    let locals = with_var_names(&ids, &action.vars);
    let consume = !any_reads(&action.guards, &ids);
    let ret = match commit {
        Commit::Fallthrough => "            return;\n",
        _ => "            return false;\n",
    };
    let body = emit_action_body(action, state, fsm_next, !consume, ret);
    let tail = match commit {
        Commit::Fired => owned("            return true;\n"),
        Commit::Fallthrough => String::new(),
        Commit::Move(next) => {
            let t = cat3("            return (", next, "(self.into_state()), true);\n");
            t
        },
    };
    let has_guard = action.guards.len() > 0;
    let rendered = crate::codegen::common::expr::emit_exprs(&action.guards, state, &locals);
    let guard = join_strings(&rendered, " && ");
    let mut conds = emit_conds(action, state, &locals);
    let ghost base = views(conds@);
    if consume && has_guard {
        let ghost before = conds@;
        let g2 = owned(guard.as_str());
        proof {
            views_push(before, g2);
        }
        conds.push(g2);
        assert(base + seq![guard@] =~= base.push(guard@));
    } else {
        assert(base + Seq::<Seq<char>>::empty() =~= base);
    }
    if conds.len() == 0 {
        if action.vars.len() == 0 {
            let mut out = body;
            out.append(tail.as_str());
            return out;
        }
        let mut out = cat3("        {\n", body.as_str(), tail.as_str());
        out.append("        }\n");
        return out;
    }
    let avail = join_strings(&conds, " && ");
    if consume {
        let recvs = emit_recvs(action, state, &locals);
        let mut out = cat3("        if ", avail.as_str(), " {\n");
        out.append(recvs.as_str());
        out.append(body.as_str());
        out.append(tail.as_str());
        out.append("        }\n");
        return out;
    }
    let peeks = emit_peeks(action, state, &locals);
    let guarded = if has_guard {
        let mut g = cat3("if ", guard.as_str(), " {\n");
        g.append(body.as_str());
        g.append(tail.as_str());
        g.append("            }");
        g
    } else {
        let mut g = cat3("{\n", body.as_str(), tail.as_str());
        g.append("            }");
        g
    };
    let mut out = cat3("        if ", avail.as_str(), " {\n");
    out.append(peeks.as_str());
    out.append("            ");
    out.append(guarded.as_str());
    out.append("\n        }\n");
    out
}

/// Whether `i` is the position of the first action named `name`.
pub open spec fn first_named_at(actions: Seq<Action>, name: Seq<char>, i: int) -> bool {
    &&& 0 <= i < actions.len()
    &&& actions[i].name@ == name
    &&& forall|j: int| 0 <= j < i ==> #[trigger] actions[j].name@ != name
}

/// The position of the first action named `name`, if there is one.
pub open spec fn first_named(actions: Seq<Action>, name: Seq<char>) -> Option<int> {
    if exists|i: int| first_named_at(actions, name, i) {
        Some(choose|i: int| first_named_at(actions, name, i))
    } else {
        None
    }
}

/// The position of the first action named `name`.
fn find_action(actions: &Vec<Action>, name: &str) -> (res: Option<usize>)
    ensures
        match res {
            Some(i) => first_named(actions@, name@) == Some(i as int),
            None => first_named(actions@, name@) is None,
        },
{
    let mut i: usize = 0;
    while i < actions.len()
        invariant
            0 <= i <= actions@.len(),
            forall|j: int| 0 <= j < i ==> #[trigger] actions@[j].name@ != name@,
        decreases actions.len() - i,
    {
        if str_eq(actions[i].name.as_str(), name) {
            assert(first_named_at(actions@, name@, i as int));
            proof {
                let k = choose|k: int| first_named_at(actions@, name@, k);
                if k > i {
                    assert(actions@[i as int].name@ != name@);
                }
            }
            return Some(i);
        }
        i = i + 1;
    }
    assert(!exists|k: int| first_named_at(actions@, name@, k));
    None
}

/// The actions a transition names that the actor has (each by its first
/// declaration), in order, each paired with the transition's target.
pub open spec fn transition_picks(actions: Seq<Action>, names: Seq<String>, next: Seq<char>) -> Seq<(int, Seq<char>)>
    decreases names.len(),
{
    if names.len() == 0 {
        Seq::empty()
    } else {
        let rest = transition_picks(actions, names.drop_last(), next);
        match first_named(actions, names.last()@) {
            Some(i) => rest.push((i, next)),
            None => rest,
        }
    }
}

/// The actions the FSM allows in state `s`, in transition order, each paired
/// with the state its transition leads to.
pub open spec fn state_picks(actions: Seq<Action>, ts: Seq<FsmState>, s: Seq<char>) -> Seq<(int, Seq<char>)>
    decreases ts.len(),
{
    if ts.len() == 0 {
        Seq::empty()
    } else {
        state_picks(actions, ts.drop_last(), s) + if ts.last().state@ == s {
            transition_picks(actions, ts.last().actions@, ts.last().next@)
        } else {
            Seq::empty()
        }
    }
}

/// The picked actions.
pub open spec fn picked_actions(actions: Seq<Action>, picks: Seq<(int, Seq<char>)>) -> Seq<Action> {
    picks.map_values(|p: (int, Seq<char>)| actions[p.0])
}

/// The targets of the picked actions.
pub open spec fn picked_nexts(picks: Seq<(int, Seq<char>)>) -> Seq<Seq<char>> {
    picks.map_values(|p: (int, Seq<char>)| p.1)
}

/// The actions the FSM allows in `state`, in transition order, with the state
/// each one leads to.
pub fn state_candidates<'a>(actor: &'a Actor, fsm: &ScheduleFsm, state: &str) -> (res: (Vec<&'a Action>, Vec<String>))
    ensures
        derefs(res.0@) == picked_actions(actor.actions@, state_picks(actor.actions@, fsm.transitions@, state@)),
        views(res.1@) == picked_nexts(state_picks(actor.actions@, fsm.transitions@, state@)),
{
    let ghost all = actor.actions@;
    let ghost ts = fsm.transitions@;
    let mut acts: Vec<&'a Action> = Vec::new();
    let mut nexts: Vec<String> = Vec::new();
    let ghost mut picks: Seq<(int, Seq<char>)> = Seq::empty();
    assert(derefs(acts@) =~= picked_actions(all, picks));
    assert(views(nexts@) =~= picked_nexts(picks));
    let mut t: usize = 0;
    while t < fsm.transitions.len()
        invariant
            0 <= t <= ts.len(),
            all == actor.actions@,
            ts == fsm.transitions@,
            picks == state_picks(all, ts.take(t as int), state@),
            derefs(acts@) == picked_actions(all, picks),
            views(nexts@) == picked_nexts(picks),
        decreases ts.len() - t,
    {
        let tr = &fsm.transitions[t];
        assert(ts.take(t + 1).drop_last() =~= ts.take(t as int));
        let ghost base = picks;
        if str_eq(tr.state.as_str(), state) {
            let mut k: usize = 0;
            while k < tr.actions.len()
                invariant
                    0 <= k <= tr.actions@.len(),
                    all == actor.actions@,
                    picks == base + transition_picks(all, tr.actions@.take(k as int), tr.next@),
                    derefs(acts@) == picked_actions(all, picks),
                    views(nexts@) == picked_nexts(picks),
                decreases tr.actions.len() - k,
            {
                assert(tr.actions@.take(k + 1).drop_last() =~= tr.actions@.take(k as int));
                match find_action(&actor.actions, tr.actions[k].as_str()) {
                    Some(i) => {
                        let ghost before_a = acts@;
                        let ghost before_n = nexts@;
                        let x = owned(tr.next.as_str());
                        acts.push(&actor.actions[i]);
                        nexts.push(x);
                        proof {
                            views_push(before_n, x);
                            picks = picks.push((i as int, tr.next@));
                            assert(derefs(acts@) =~= derefs(before_a).push(actor.actions@[i as int]));
                            assert(picked_actions(all, picks) =~= picked_actions(all, picks.drop_last()).push(all[i as int]));
                            assert(picked_nexts(picks) =~= picked_nexts(picks.drop_last()).push(tr.next@));
                            assert(picks.drop_last() =~= base + transition_picks(all, tr.actions@.take(k as int), tr.next@));
                        }
                    },
                    None => {},
                }
                proof {
                    assert(picks =~= base + transition_picks(all, tr.actions@.take(k + 1), tr.next@));
                }
                k = k + 1;
            }
            assert(tr.actions@.take(tr.actions@.len() as int) =~= tr.actions@);
        } else {
            assert(picks =~= base + Seq::<(int, Seq<char>)>::empty());
        }
        t = t + 1;
    }
    assert(ts.take(ts.len() as int) =~= ts);
    (acts, nexts)
}

/// How the tried actions of `fire` end: the plain schedule reports a firing,
/// the value-based FSM also records the next state, the typestate FSM moves
/// the actor into its next state.
#[derive(Copy, Clone)]
pub enum TryMode {
    Plain,
    ValueFsm,
    Typestate,
}

/// One candidate action as tried by `fire`, with `next` the code that leads to
/// its next state.
pub open spec fn try_text(action: Action, state: Set<Seq<char>>, mode: TryMode, next: Seq<char>) -> Seq<char> {
    action_text(
        action,
        state,
        if mode is ValueFsm {
            Some(next)
        } else {
            None
        },
        if mode is Typestate {
            "            return ("@ + next + "(self.into_state()), true);\n"@
        } else {
            "            return true;\n"@
        },
        "            return false;\n"@,
    )
}

/// The candidates as tried by `fire`, in the given order; `nexts[i]` leads
/// the `i`-th candidate to its next state.
pub open spec fn tries_text(cands: Seq<Action>, nexts: Seq<Seq<char>>, order: Seq<usize>, state: Set<Seq<char>>, mode: TryMode) -> Seq<char> {
    concat(order.map_values(|i: usize| try_text(cands[i as int], state, mode, nexts[i as int])))
}

/// The candidates as tried by `fire`, in the given order.
pub(crate) fn emit_tries(cands: &Vec<&Action>, nexts: &Vec<String>, order: &Vec<usize>, state: &NameSet, mode: TryMode) -> (res: String)
    requires
        forall|k: int| 0 <= k < order@.len() ==> #[trigger] order@[k] < cands@.len(),
        !(mode is Plain) ==> nexts@.len() == cands@.len(),
    ensures
        res@ == tries_text(derefs(cands@), views(nexts@), order@, state@, mode),
{
    let ghost f = |i: usize| try_text(derefs(cands@)[i as int], state@, mode, views(nexts@)[i as int]);
    let mut out = String::new();
    let mut k: usize = 0;
    while k < order.len()
        invariant
            0 <= k <= order@.len(),
            forall|q: int| 0 <= q < order@.len() ==> #[trigger] order@[q] < cands@.len(),
            !(mode is Plain) ==> nexts@.len() == cands@.len(),
            f == (|i: usize| try_text(derefs(cands@)[i as int], state@, mode, views(nexts@)[i as int])),
            out@ == concat(order@.take(k as int).map_values(f)),
        decreases order.len() - k,
    {
        let i = order[k];
        let piece = match mode {
            TryMode::Plain => emit_action(cands[i], state, None, Commit::Fired),
            TryMode::ValueFsm => emit_action(cands[i], state, Some(nexts[i].as_str()), Commit::Fired),
            TryMode::Typestate => emit_action(cands[i], state, None, Commit::Move(nexts[i].as_str())),
        };
        assert(piece@ == f(i));
        out.append(piece.as_str());
        assert(order@.take(k + 1).map_values(f).drop_last() =~= order@.take(k as int).map_values(f));
        k = k + 1;
    }
    assert(order@.take(order@.len() as int) =~= order@);
    out
}

/// Each target state as the code naming it: `prefix`, the state's variant,
/// then `suffix`.
pub(crate) fn variant_codes(prefix: &str, nexts: &Vec<String>, suffix: &str) -> (res: Vec<String>)
    ensures
        views(res@) == views(nexts@).map_values(|n: Seq<char>| prefix@ + fsm_variant_text(n) + suffix@),
{
    let ghost f = |n: Seq<char>| prefix@ + fsm_variant_text(n) + suffix@;
    let mut out: Vec<String> = Vec::new();
    let mut k: usize = 0;
    while k < nexts.len()
        invariant
            0 <= k <= nexts@.len(),
            f == (|n: Seq<char>| prefix@ + fsm_variant_text(n) + suffix@),
            views(out@) == views(nexts@).map_values(f).take(k as int),
        decreases nexts.len() - k,
    {
        let v = fsm_variant(nexts[k].as_str());
        let x = cat3(prefix, v.as_str(), suffix);
        let ghost before = out@;
        proof {
            views_push(before, x);
            take_push(views(nexts@).map_values(f), k as int);
        }
        out.push(x);
        k = k + 1;
    }
    assert(views(nexts@).map_values(f).take(nexts@.len() as int) =~= views(nexts@).map_values(f));
    out
}

/// The body of `fire` for an actor without an FSM: every action, in priority
/// order, after the room snapshots of the ports they write.
#[verifier::opaque]
pub open spec fn plain_fire_text(actor: Actor) -> Seq<char> {
    room_snapshots_text(actor.actions@) + tries_text(
        actor.actions@,
        Seq::empty(),
        try_order(declared_pairs(actor), actor.actions@),
        actor_state_names(actor),
        TryMode::Plain,
    )
}

/// The arm of the state match in `fire` for FSM state `s`: the actions the
/// state allows, in priority order, each recording its next state.
#[verifier::opaque]
pub open spec fn state_arm_text(actor: Actor, fsm: ScheduleFsm, s: Seq<char>) -> Seq<char> {
    let ty = ident_text(actor.name@);
    let picks = state_picks(actor.actions@, fsm.transitions@, s);
    let cands = picked_actions(actor.actions@, picks);
    let nexts = picked_nexts(picks).map_values(|n: Seq<char>| "self.state = "@ + ty + "State::"@ + fsm_variant_text(n) + ";"@);
    "            "@ + ty + "State::"@ + fsm_variant_text(s) + " => {\n"@ + room_snapshots_text(cands) + tries_text(
        cands,
        nexts,
        try_order(declared_pairs(actor), cands),
        actor_state_names(actor),
        TryMode::ValueFsm,
    ) + "\n            }\n"@
}

/// The body of the value-based `fire`: with an FSM, one arm per state, in
/// the order of the state enum; a state that no transition leaves fires
/// nothing.
#[verifier::opaque]
pub open spec fn fire_text(actor: Actor) -> Seq<char> {
    match actor.fsm {
        None => plain_fire_text(actor),
        Some(fsm) => "        match self.state {\n"@ + concat(
            sorted_names(fsm_state_set(fsm)).map_values(|s: Seq<char>| state_arm_text(actor, fsm, s)),
        ) + "        }"@,
    }
}

/// The arm of the state match in `fire` for FSM state `s`.
fn emit_state_arm(actor: &Actor, fsm: &ScheduleFsm, s: &str, state: &NameSet, ty: &str, priorities: &Priorities) -> (res: String)
    requires
        actor.fsm == Some(*fsm),
        state@ == actor_state_names(*actor),
        ty@ == ident_text(actor.name@),
        priorities.rel() == declared_pairs(*actor),
    ensures
        res@ == state_arm_text(*actor, *fsm, s@),
{
    proof {
        reveal(state_arm_text);
    }
    let (reachable, targets) = state_candidates(actor, fsm, s);
    let ghost picks = state_picks(actor.actions@, fsm.transitions@, s@);
    let prefix = cat3("self.state = ", ty, "State::");
    let codes = variant_codes(prefix.as_str(), &targets, ";");
    let order = priorities.order(actor, reachable.as_slice());
    proof {
        assert(reachable@.len() == reachable.len());
        order_is_permutation(priorities.rel(), candidate_names(derefs(reachable@)), reachable@.len());
        assert forall|q: int| 0 <= q < order@.len() implies #[trigger] order@[q] < reachable@.len() by {
            assert(order@.contains(order@[q]));
        }
        assert(derefs(reachable@).len() == reachable@.len());
        assert(views(targets@).len() == targets@.len());
        assert(views(codes@).len() == codes@.len());
        assert(picked_actions(actor.actions@, picks).len() == picks.len());
        assert(picked_nexts(picks).len() == picks.len());
    }
    let snaps = room_snapshots(&reachable);
    let tries = emit_tries(&reachable, &codes, &order, state, TryMode::ValueFsm);
    let v = fsm_variant(s);
    let mut arm = cat3("            ", ty, "State::");
    arm.append(v.as_str());
    arm.append(" => {\n");
    arm.append(snaps.as_str());
    arm.append(tries.as_str());
    arm.append("\n            }\n");
    assert(views(codes@) =~= picked_nexts(picks).map_values(
        |n: Seq<char>| "self.state = "@ + ty@ + "State::"@ + fsm_variant_text(n) + ";"@,
    ));
    arm
}

/// The body of `fire` for an actor without an FSM.
fn emit_plain_fire(actor: &Actor, state: &NameSet, priorities: &Priorities) -> (res: String)
    requires
        state@ == actor_state_names(*actor),
        priorities.rel() == declared_pairs(*actor),
    ensures
        res@ == plain_fire_text(*actor),
{
    proof {
        reveal(plain_fire_text);
    }
    let mut cands: Vec<&Action> = Vec::new();
    let mut i: usize = 0;
    while i < actor.actions.len()
        invariant
            0 <= i <= actor.actions@.len(),
            derefs(cands@) == actor.actions@.take(i as int),
        decreases actor.actions.len() - i,
    {
        let ghost before = cands@;
        cands.push(&actor.actions[i]);
        assert(derefs(cands@) =~= derefs(before).push(actor.actions@[i as int]));
        assert(actor.actions@.take(i + 1) =~= actor.actions@.take(i as int).push(actor.actions@[i as int]));
        i = i + 1;
    }
    assert(actor.actions@.take(actor.actions@.len() as int) =~= actor.actions@);
    let order = priorities.order(actor, cands.as_slice());
    proof {
        assert(cands@.len() == cands.len());
        order_is_permutation(priorities.rel(), candidate_names(derefs(cands@)), cands@.len());
        assert forall|k: int| 0 <= k < order@.len() implies #[trigger] order@[k] < cands@.len() by {
            assert(order@.contains(order@[k]));
        }
    }
    let snaps = room_snapshots(&cands);
    let none: Vec<String> = Vec::new();
    let tries = emit_tries(&cands, &none, &order, state, TryMode::Plain);
    assert(views(none@) =~= Seq::<Seq<char>>::empty());
    cat2(snaps.as_str(), tries.as_str())
}

/// The body of the value-based `fire`.
fn emit_fire(actor: &Actor, state: &NameSet, ty: &str) -> (res: String)
    requires
        state@ == actor_state_names(*actor),
        ty@ == ident_text(actor.name@),
    ensures
        res@ == fire_text(*actor),
{
    proof {
        reveal(fire_text);
    }
    let priorities = Priorities::new(actor);
    match &actor.fsm {
        None => emit_plain_fire(actor, state, &priorities),
        Some(fsm) => {
            let states = fsm_states(fsm);
            let ghost names = views(states@);
            let ghost f = |s: Seq<char>| state_arm_text(*actor, *fsm, s);
            let mut arms = String::new();
            let mut k: usize = 0;
            while k < states.len()
                invariant
                    0 <= k <= states@.len(),
                    names == views(states@),
                    actor.fsm == Some(*fsm),
                    state@ == actor_state_names(*actor),
                    ty@ == ident_text(actor.name@),
                    priorities.rel() == declared_pairs(*actor),
                    f == (|s: Seq<char>| state_arm_text(*actor, *fsm, s)),
                    arms@ == concat(names.take(k as int).map_values(f)),
                decreases states.len() - k,
            {
                let arm = emit_state_arm(actor, fsm, states[k].as_str(), state, ty, &priorities);
                arms.append(arm.as_str());
                assert(names.take(k + 1).map_values(f).drop_last() =~= names.take(k as int).map_values(f));
                k = k + 1;
            }
            assert(names.take(names.len() as int) =~= names);
            let mut out = cat2("        match self.state {\n", arms.as_str());
            out.append("        }");
            out
        },
    }
}

/// The lines that hold an optional extra line.
pub open spec fn opt_line(line: Option<&str>) -> Seq<Seq<char>> {
    match line {
        Some(l) => seq![l@],
        None => Seq::empty(),
    }
}

/// The field declarations of the actor struct: parameters, variables, the
/// extra lines, then the ports.
pub open spec fn field_lines_text(actor: Actor, middle: Seq<Seq<char>>) -> Seq<Seq<char>> {
    actor.parameters@.map_values(|p: ActorParameter| "    "@ + ident_text(p.name@) + ": "@ + rust_type_text(p.typ) + ","@)
        + actor.vars@.map_values(|v: VarDef| "    "@ + ident_text(v.name@) + ": "@ + var_rust_type_text(v) + ","@) + middle
        + port_types_spec(actor).map_values(|pt: (Seq<char>, Seq<char>)| "    pub "@ + port_field_text(pt.0) + ": "@ + pt.1 + ","@)
}

/// The field initializers of the constructor: parameters, variables, the
/// extra lines, then the ports.
pub open spec fn init_lines_text(actor: Actor, middle: Seq<Seq<char>>) -> Seq<Seq<char>> {
    actor.parameters@.map_values(|p: ActorParameter| "            "@ + ident_text(p.name@) + ","@)
        + actor.vars@.map_values(|v: VarDef| "            "@ + ident_text(v.name@) + ","@) + middle
        + port_types_spec(actor).map_values(|pt: (Seq<char>, Seq<char>)| "            "@ + port_field_text(pt.0) + ","@)
}

/// The field declarations of the actor struct.
pub fn field_lines(actor: &Actor, middle: Option<&str>) -> (res: Vec<String>)
    ensures
        views(res@) == field_lines_text(*actor, opt_line(middle)),
{
    let ghost a = actor.parameters@.map_values(|p: ActorParameter| "    "@ + ident_text(p.name@) + ": "@ + rust_type_text(p.typ) + ","@);
    let ghost v = actor.vars@.map_values(|v: VarDef| "    "@ + ident_text(v.name@) + ": "@ + var_rust_type_text(v) + ","@);
    let ghost m = opt_line(middle);
    let ghost b = port_types_spec(*actor).map_values(
        |pt: (Seq<char>, Seq<char>)| "    pub "@ + port_field_text(pt.0) + ": "@ + pt.1 + ","@,
    );
    let mut out: Vec<String> = Vec::new();
    let mut i: usize = 0;
    while i < actor.parameters.len()
        invariant
            0 <= i <= actor.parameters@.len(),
            a == actor.parameters@.map_values(|p: ActorParameter| "    "@ + ident_text(p.name@) + ": "@ + rust_type_text(p.typ) + ","@),
            views(out@) == a.take(i as int),
        decreases actor.parameters.len() - i,
    {
        let p = &actor.parameters[i];
        let n = ident(p.name.as_str());
        let t = rust_type(&p.typ);
        let mut x = cat3("    ", n.as_str(), ": ");
        x.append(t.as_str());
        x.append(",");
        let ghost before = out@;
        proof {
            views_push(before, x);
            take_push(a, i as int);
        }
        out.push(x);
        i = i + 1;
    }
    assert(a.take(a.len() as int) =~= a);
    let mut k: usize = 0;
    while k < actor.vars.len()
        invariant
            0 <= k <= actor.vars@.len(),
            v == actor.vars@.map_values(|v: VarDef| "    "@ + ident_text(v.name@) + ": "@ + var_rust_type_text(v) + ","@),
            views(out@) == a + v.take(k as int),
        decreases actor.vars.len() - k,
    {
        let w = &actor.vars[k];
        let n = ident(w.name.as_str());
        let t = var_rust_type(w);
        let mut x = cat3("    ", n.as_str(), ": ");
        x.append(t.as_str());
        x.append(",");
        let ghost before = out@;
        proof {
            views_push(before, x);
        }
        out.push(x);
        assert(a + v.take(k + 1) =~= (a + v.take(k as int)).push(v[k as int]));
        k = k + 1;
    }
    assert(v.take(v.len() as int) =~= v);
    match middle {
        Some(l) => {
            let ghost before = out@;
            let x = owned(l);
            proof {
                views_push(before, x);
            }
            out.push(x);
            assert(views(out@) =~= a + v + m);
        },
        None => {
            assert(a + v + m =~= a + v);
        },
    }
    let ports = port_types(actor);
    let ghost pv = ports@.map_values(|e: (String, String)| (e.0@, e.1@));
    let mut j: usize = 0;
    while j < ports.len()
        invariant
            0 <= j <= ports@.len(),
            b == port_types_spec(*actor).map_values(
                |pt: (Seq<char>, Seq<char>)| "    pub "@ + port_field_text(pt.0) + ": "@ + pt.1 + ","@,
            ),
            pv == ports@.map_values(|e: (String, String)| (e.0@, e.1@)),
            pv == port_types_spec(*actor),
            views(out@) == a + v + m + b.take(j as int),
        decreases ports.len() - j,
    {
        let f = port_field(ports[j].0.as_str());
        let mut x = cat3("    pub ", f.as_str(), ": ");
        x.append(ports[j].1.as_str());
        x.append(",");
        assert(x@ == b[j as int]);
        let ghost before = out@;
        proof {
            views_push(before, x);
        }
        out.push(x);
        assert(a + v + m + b.take(j + 1) =~= (a + v + m + b.take(j as int)).push(b[j as int]));
        j = j + 1;
    }
    assert(b.take(b.len() as int) =~= b);
    out
}

/// The field initializers of the constructor.
pub fn init_lines(actor: &Actor, middle: Option<&str>) -> (res: Vec<String>)
    ensures
        views(res@) == init_lines_text(*actor, opt_line(middle)),
{
    let ghost a = actor.parameters@.map_values(|p: ActorParameter| "            "@ + ident_text(p.name@) + ","@);
    let ghost v = actor.vars@.map_values(|v: VarDef| "            "@ + ident_text(v.name@) + ","@);
    let ghost m = opt_line(middle);
    let ghost b = port_types_spec(*actor).map_values(|pt: (Seq<char>, Seq<char>)| "            "@ + port_field_text(pt.0) + ","@);
    let mut out: Vec<String> = Vec::new();
    let mut i: usize = 0;
    while i < actor.parameters.len()
        invariant
            0 <= i <= actor.parameters@.len(),
            a == actor.parameters@.map_values(|p: ActorParameter| "            "@ + ident_text(p.name@) + ","@),
            views(out@) == a.take(i as int),
        decreases actor.parameters.len() - i,
    {
        let n = ident(actor.parameters[i].name.as_str());
        let x = cat3("            ", n.as_str(), ",");
        let ghost before = out@;
        proof {
            views_push(before, x);
            take_push(a, i as int);
        }
        out.push(x);
        i = i + 1;
    }
    assert(a.take(a.len() as int) =~= a);
    let mut k: usize = 0;
    while k < actor.vars.len()
        invariant
            0 <= k <= actor.vars@.len(),
            v == actor.vars@.map_values(|v: VarDef| "            "@ + ident_text(v.name@) + ","@),
            views(out@) == a + v.take(k as int),
        decreases actor.vars.len() - k,
    {
        let n = ident(actor.vars[k].name.as_str());
        let x = cat3("            ", n.as_str(), ",");
        let ghost before = out@;
        proof {
            views_push(before, x);
        }
        out.push(x);
        assert(a + v.take(k + 1) =~= (a + v.take(k as int)).push(v[k as int]));
        k = k + 1;
    }
    assert(v.take(v.len() as int) =~= v);
    match middle {
        Some(l) => {
            let ghost before = out@;
            let x = owned(l);
            proof {
                views_push(before, x);
            }
            out.push(x);
            assert(views(out@) =~= a + v + m);
        },
        None => {
            assert(a + v + m =~= a + v);
        },
    }
    let ports = port_types(actor);
    let ghost pv = ports@.map_values(|e: (String, String)| (e.0@, e.1@));
    let mut j: usize = 0;
    while j < ports.len()
        invariant
            0 <= j <= ports@.len(),
            b == port_types_spec(*actor).map_values(|pt: (Seq<char>, Seq<char>)| "            "@ + port_field_text(pt.0) + ","@),
            pv == ports@.map_values(|e: (String, String)| (e.0@, e.1@)),
            pv == port_types_spec(*actor),
            views(out@) == a + v + m + b.take(j as int),
        decreases ports.len() - j,
    {
        let f = port_field(ports[j].0.as_str());
        let x = cat3("            ", f.as_str(), ",");
        assert(x@ == b[j as int]);
        let ghost before = out@;
        proof {
            views_push(before, x);
        }
        out.push(x);
        assert(a + v + m + b.take(j + 1) =~= (a + v + m + b.take(j as int)).push(b[j as int]));
        j = j + 1;
    }
    assert(b.take(b.len() as int) =~= b);
    out
}

/// The enum of FSM states of a value-based actor.
pub open spec fn state_enum_text(ty: Seq<char>, fsm: ScheduleFsm) -> Seq<char> {
    "#[derive(Clone, Copy)]\nenum "@ + ty + "State {\n"@ + join(
        sorted_names(fsm_state_set(fsm)).map_values(|s: Seq<char>| "    "@ + fsm_variant_text(s) + ","@),
        "\n"@,
    ) + "\n}\n\n"@
}

/// Each name of `names` as a line: `prefix`, the name's variant, `suffix`.
fn variant_lines(prefix: &str, names: &Vec<String>, suffix: &str) -> (res: Vec<String>)
    ensures
        views(res@) == views(names@).map_values(|n: Seq<char>| prefix@ + fsm_variant_text(n) + suffix@),
{
    variant_codes(prefix, names, suffix)
}

/// The enum of FSM states of a value-based actor.
fn emit_state_enum(ty: &str, fsm: &ScheduleFsm) -> (res: String)
    ensures
        res@ == state_enum_text(ty@, *fsm),
{
    let states = fsm_states(fsm);
    let lines = variant_lines("    ", &states, ",");
    let variants = join_strings(&lines, "\n");
    let mut out = cat3("#[derive(Clone, Copy)]\nenum ", ty, "State {\n");
    out.append(variants.as_str());
    out.append("\n}\n\n");
    out
}

/// The body of `init`: the room snapshots of the initializer's outputs, then
/// the initializer, which falls through.
pub open spec fn init_body_text(init: Action, state: Set<Seq<char>>) -> Seq<char> {
    room_snapshots_text(seq![init]) + action_text(init, state, None, Seq::empty(), "            return;\n"@)
}

/// The body of `init`.
pub fn emit_init_body(init: &Action, state: &NameSet) -> (res: String)
    ensures
        res@ == init_body_text(*init, state@),
{
    let one: Vec<&Action> = vec![init];
    assert(derefs(one@) =~= seq![*init]);
    let snaps = room_snapshots(&one);
    let body = emit_action(init, state, None, Commit::Fallthrough);
    cat2(snaps.as_str(), body.as_str())
}

/// The state enum of a value-based actor, when it has an FSM.
pub open spec fn value_enum_text(actor: Actor) -> Seq<char> {
    match actor.fsm {
        Some(fsm) => state_enum_text(ident_text(actor.name@), fsm),
        None => Seq::empty(),
    }
}

/// The struct of a value-based actor.
pub open spec fn value_decl_text(actor: Actor) -> Seq<char> {
    let ty = ident_text(actor.name@);
    let state_field = match actor.fsm {
        Some(_) => seq!["    state: "@ + ty + "State,"@],
        None => Seq::empty(),
    };
    "pub struct "@ + ty + " {\n"@ + join(field_lines_text(actor, state_field), "\n"@) + "\n}\n\n"@
}

/// The constructor of a value-based actor, which starts an FSM in its initial
/// state.
pub open spec fn value_ctor_text(actor: Actor) -> Seq<char> {
    let ty = ident_text(actor.name@);
    let state_init = match actor.fsm {
        Some(fsm) => seq!["            state: "@ + ty + "State::"@ + fsm_variant_text(fsm.initial_state@) + ","@],
        None => Seq::empty(),
    };
    "impl "@ + ty + " {\n    pub fn new("@ + ctor_params_text(actor) + ") -> Self {\n"@ + ctor_var_lets_text(actor) + "        Self {\n"@
        + join(init_lines_text(actor, state_init), "\n"@) + "\n        }\n    }\n\n"@
}

/// The head of a value-based actor: the state enum when it has an FSM, the
/// struct and its constructor.
pub open spec fn value_head_text(actor: Actor) -> Seq<char> {
    value_enum_text(actor) + value_decl_text(actor) + value_ctor_text(actor)
}

fn emit_value_decl(actor: &Actor, ty: &str) -> (res: String)
    requires
        ty@ == ident_text(actor.name@),
    ensures
        res@ == value_decl_text(*actor),
{
    let state_field = cat3("    state: ", ty, "State,");
    let fields = field_lines(actor, if actor.fsm.is_some() { Some(state_field.as_str()) } else { None });
    let fields_text = join_strings(&fields, "\n");
    let mut decl = cat3("pub struct ", ty, " {\n");
    decl.append(fields_text.as_str());
    decl.append("\n}\n\n");
    decl
}

fn emit_value_ctor(actor: &Actor, ty: &str) -> (res: String)
    requires
        ty@ == ident_text(actor.name@),
    ensures
        res@ == value_ctor_text(*actor),
{
    let mut state_init = String::new();
    match &actor.fsm {
        Some(fsm) => {
            let v = fsm_variant(fsm.initial_state.as_str());
            state_init = cat3("            state: ", ty, "State::");
            state_init.append(v.as_str());
            state_init.append(",");
        },
        None => {},
    }
    let inits = init_lines(actor, if actor.fsm.is_some() { Some(state_init.as_str()) } else { None });
    let inits_text = join_strings(&inits, "\n");
    let params = ctor_params(actor);
    let lets = ctor_var_lets(actor);
    let mut ctor = cat3("impl ", ty, " {\n    pub fn new(");
    ctor.append(params.as_str());
    ctor.append(") -> Self {\n");
    ctor.append(lets.as_str());
    ctor.append("        Self {\n");
    ctor.append(inits_text.as_str());
    ctor.append("\n        }\n    }\n\n");
    ctor
}

/// The head of a value-based actor.
fn emit_value_head(actor: &Actor, ty: &str) -> (res: String)
    requires
        ty@ == ident_text(actor.name@),
    ensures
        res@ == value_head_text(*actor),
{
    let enum_part = match &actor.fsm {
        Some(fsm) => emit_state_enum(ty, fsm),
        None => String::new(),
    };
    let decl = emit_value_decl(actor, ty);
    let ctor = emit_value_ctor(actor, ty);
    cat3(enum_part.as_str(), decl.as_str(), ctor.as_str())
}

/// A value-based actor: its head, `init` when it has an initializer, and
/// `fire`.
#[verifier::opaque]
pub open spec fn value_actor_text(actor: Actor) -> Seq<char> {
    let init_part = match actor.init {
        Some(init) => "    pub fn init(&mut self) {\n"@ + init_body_text(init, actor_state_names(actor)) + "    }\n\n"@,
        None => Seq::empty(),
    };
    value_head_text(actor) + init_part + "    pub fn fire(&mut self) -> bool {\n"@ + fire_text(actor) + "\n        false\n    }\n}\n"@
}

/// A value-based actor.
fn emit_value_actor(actor: &Actor) -> (res: String)
    ensures
        res@ == value_actor_text(*actor),
{
    proof {
        reveal(value_actor_text);
    }
    let ty = type_ident(actor.name.as_str());
    let state = actor_state(actor);
    let head = emit_value_head(actor, ty.as_str());
    let init_part = match &actor.init {
        Some(init) => {
            let body = emit_init_body(init, &state);
            cat3("    pub fn init(&mut self) {\n", body.as_str(), "    }\n\n")
        },
        None => String::new(),
    };
    let fire = emit_fire(actor, &state, ty.as_str());
    let tail = cat3("    pub fn fire(&mut self) -> bool {\n", fire.as_str(), "\n        false\n    }\n}\n");
    cat3(head.as_str(), init_part.as_str(), tail.as_str())
}

/// An actor class as Rust: with typestates when requested and possible,
/// value-based otherwise.
pub open spec fn actor_text(actor: Actor, typestate: bool) -> Seq<char> {
    if typestate_actor_spec(actor, typestate) {
        typestate_actor_text(actor, actor.fsm->0)
    } else {
        value_actor_text(actor)
    }
}

/// An actor class as Rust; the warnings this gives are `actor_warnings`.
pub fn emit_actor(actor: &Actor, typestate: bool) -> (res: String)
    ensures
        res@ == actor_text(*actor, typestate),
{
    if typestate_actor(actor, typestate) {
        match &actor.fsm {
            Some(fsm) => emit_actor_typestate(actor, fsm),
            None => emit_value_actor(actor),
        }
    } else {
        emit_value_actor(actor)
    }
}

/// The ports of an actor as parameters that borrow their queues: inputs,
/// then outputs, each after `, `.
pub open spec fn port_params_text(actor: Actor) -> Seq<char> {
    concat(
        (actor.inports@ + actor.outports@).map_values(
            |p: Port| ", "@ + port_ref_text(p.name@) + ": &mut VecDeque<"@ + rust_type_text(p.typ) + ">"@,
        ),
    )
}

/// The ports of an actor as parameters that borrow their queues.
pub fn port_params(actor: &Actor) -> (res: String)
    ensures
        res@ == port_params_text(*actor),
{
    let ghost f = |p: Port| ", "@ + port_ref_text(p.name@) + ": &mut VecDeque<"@ + rust_type_text(p.typ) + ">"@;
    let mut out = String::new();
    let mut i: usize = 0;
    while i < actor.inports.len()
        invariant
            0 <= i <= actor.inports@.len(),
            f == (|p: Port| ", "@ + port_ref_text(p.name@) + ": &mut VecDeque<"@ + rust_type_text(p.typ) + ">"@),
            out@ == concat(actor.inports@.take(i as int).map_values(f)),
        decreases actor.inports.len() - i,
    {
        let x = port_param(&actor.inports[i]);
        out.append(x.as_str());
        assert(actor.inports@.take(i + 1).map_values(f).drop_last() =~= actor.inports@.take(i as int).map_values(f));
        i = i + 1;
    }
    assert(actor.inports@.take(actor.inports@.len() as int) =~= actor.inports@);
    let mut j: usize = 0;
    while j < actor.outports.len()
        invariant
            0 <= j <= actor.outports@.len(),
            f == (|p: Port| ", "@ + port_ref_text(p.name@) + ": &mut VecDeque<"@ + rust_type_text(p.typ) + ">"@),
            out@ == concat((actor.inports@ + actor.outports@.take(j as int)).map_values(f)),
        decreases actor.outports.len() - j,
    {
        let x = port_param(&actor.outports[j]);
        out.append(x.as_str());
        assert((actor.inports@ + actor.outports@.take(j + 1)).map_values(f).drop_last() =~= (actor.inports@ + actor.outports@.take(
            j as int,
        )).map_values(f));
        j = j + 1;
    }
    assert(actor.outports@.take(actor.outports@.len() as int) =~= actor.outports@);
    out
}

fn port_param(p: &Port) -> (res: String)
    ensures
        res@ == ", "@ + port_ref_text(p.name@) + ": &mut VecDeque<"@ + rust_type_text(p.typ) + ">"@,
{
    let r = port_ref(p.name.as_str());
    let t = rust_type(&p.typ);
    let mut x = cat3(", ", r.as_str(), ": &mut VecDeque<");
    x.append(t.as_str());
    x.append(">");
    x
}

/// The warning that actor `actor_name` keeps the value-based FSM because an
/// action returns early, which the typestate form cannot express.
pub open spec fn return_fallback_warning_text(actor_name: Seq<char>) -> Seq<char> {
    "warning: actor "@ + actor_name
        + ": 'return' inside an action is unsupported by --typestate; emitting the value-based FSM for this actor"@
}

/// The warning that the initializer of actor `actor_name` reads port `port`.
pub open spec fn init_port_warning_text(actor_name: Seq<char>, port: Seq<char>) -> Seq<char> {
    "warning: actor "@ + actor_name + ": initialize action consumes from port "@ + port
        + "; it fires only if tokens are already available at startup"@
}

/// One warning per input pattern of the initializer, in order.
pub open spec fn init_warnings(actor: Actor) -> Seq<Seq<char>> {
    match actor.init {
        Some(init) => init.input_patterns@.map_values(|p: InputPattern| init_port_warning_text(actor.name@, p.port@)),
        None => Seq::empty(),
    }
}

/// The cycle warnings of the FSM states `states`, in order.
pub open spec fn states_cycle_warnings(actor: Actor, fsm: ScheduleFsm, states: Seq<Seq<char>>) -> Seq<Seq<char>>
    decreases states.len(),
{
    if states.len() == 0 {
        Seq::empty()
    } else {
        states_cycle_warnings(actor, fsm, states.drop_last()) + cycle_warnings(
            actor.name@,
            declared_pairs(actor),
            picked_actions(actor.actions@, state_picks(actor.actions@, fsm.transitions@, states.last())),
        )
    }
}

/// The cycle warnings of `fire`: of all actions without an FSM, of each
/// state's candidates, state by state, with one.
pub open spec fn fire_warnings(actor: Actor) -> Seq<Seq<char>> {
    match actor.fsm {
        None => cycle_warnings(actor.name@, declared_pairs(actor), actor.actions@),
        Some(fsm) => states_cycle_warnings(actor, fsm, sorted_names(fsm_state_set(fsm))),
    }
}

/// The warnings generating `actor` gives, in order: the typestate fallback,
/// the initializer's input ports, priority entries that denote no action, and
/// cyclic priorities.
pub open spec fn actor_warnings_text(actor: Actor, typestate: bool) -> Seq<Seq<char>> {
    (if typestate && actor.fsm is Some && !typestate_actor_spec(actor, typestate) {
        seq![return_fallback_warning_text(actor.name@)]
    } else {
        Seq::empty()
    }) + init_warnings(actor) + priority_warnings(actor) + fire_warnings(actor)
}

/// The warnings generating `actor` gives, for the caller to report.
pub fn actor_warnings(actor: &Actor, typestate: bool) -> (res: Vec<String>)
    ensures
        views(res@) == actor_warnings_text(*actor, typestate),
{
    let mut out: Vec<String> = Vec::new();
    if typestate && actor.fsm.is_some() && !typestate_actor(actor, typestate) {
        let w = cat3(
            "warning: actor ",
            actor.name.as_str(),
            ": 'return' inside an action is unsupported by --typestate; emitting the value-based FSM for this actor",
        );
        let ghost before = out@;
        proof {
            views_push(before, w);
        }
        out.push(w);
    }
    let ghost head = views(out@);
    assert(head =~= (if typestate && actor.fsm is Some && !typestate_actor_spec(*actor, typestate) {
        seq![return_fallback_warning_text(actor.name@)]
    } else {
        Seq::empty()
    }));
    if let Some(init) = &actor.init {
        let ghost f = |p: InputPattern| init_port_warning_text(actor.name@, p.port@);
        let mut i: usize = 0;
        while i < init.input_patterns.len()
            invariant
                0 <= i <= init.input_patterns@.len(),
                f == (|p: InputPattern| init_port_warning_text(actor.name@, p.port@)),
                views(out@) == head + init.input_patterns@.take(i as int).map_values(f),
            decreases init.input_patterns.len() - i,
        {
            let mut w = cat3("warning: actor ", actor.name.as_str(), ": initialize action consumes from port ");
            w.append(init.input_patterns[i].port.as_str());
            w.append("; it fires only if tokens are already available at startup");
            let ghost before = out@;
            proof {
                views_push(before, w);
            }
            out.push(w);
            assert(init.input_patterns@.take(i + 1).map_values(f) =~= init.input_patterns@.take(i as int).map_values(f).push(
                f(init.input_patterns@[i as int]),
            ));
            i = i + 1;
        }
        assert(init.input_patterns@.take(init.input_patterns@.len() as int) =~= init.input_patterns@);
    } else {
        assert(views(out@) =~= head + Seq::<Seq<char>>::empty());
    }
    let ghost with_init = views(out@);
    let unmatched = priority_entry_warnings(actor);
    let mut k: usize = 0;
    while k < unmatched.len()
        invariant
            0 <= k <= unmatched@.len(),
            views(out@) == with_init + views(unmatched@).take(k as int),
        decreases unmatched.len() - k,
    {
        let ghost before = out@;
        let w = owned(unmatched[k].as_str());
        proof {
            views_push(before, w);
        }
        out.push(w);
        assert(views(unmatched@).take(k + 1) =~= views(unmatched@).take(k as int).push(unmatched@[k as int]@));
        k = k + 1;
    }
    assert(views(unmatched@).take(views(unmatched@).len() as int) =~= views(unmatched@));
    let ghost with_entries = views(out@);
    let priorities = Priorities::new(actor);
    match &actor.fsm {
        None => {
            let mut cands: Vec<&Action> = Vec::new();
            let mut i: usize = 0;
            while i < actor.actions.len()
                invariant
                    0 <= i <= actor.actions@.len(),
                    derefs(cands@) == actor.actions@.take(i as int),
                decreases actor.actions.len() - i,
            {
                let ghost before = cands@;
                cands.push(&actor.actions[i]);
                assert(derefs(cands@) =~= derefs(before).push(actor.actions@[i as int]));
                assert(actor.actions@.take(i + 1) =~= actor.actions@.take(i as int).push(actor.actions@[i as int]));
                i = i + 1;
            }
            assert(actor.actions@.take(actor.actions@.len() as int) =~= actor.actions@);
            match priorities.cycle_warning(actor, cands.as_slice()) {
                Some(w) => {
                    let ghost before = out@;
                    proof {
                        views_push(before, w);
                    }
                    out.push(w);
                    assert(views(out@) =~= with_entries + fire_warnings(*actor));
                },
                None => {
                    assert(views(out@) =~= with_entries + fire_warnings(*actor));
                },
            }
        },
        Some(fsm) => {
            let states = fsm_states(fsm);
            let ghost names = views(states@);
            let mut j: usize = 0;
            assert(states_cycle_warnings(*actor, *fsm, names.take(0)) =~= Seq::<Seq<char>>::empty());
            assert(with_entries + Seq::<Seq<char>>::empty() =~= with_entries);
            while j < states.len()
                invariant
                    0 <= j <= states@.len(),
                    names == views(states@),
                    priorities.rel() == declared_pairs(*actor),
                    views(out@) == with_entries + states_cycle_warnings(*actor, *fsm, names.take(j as int)),
                decreases states.len() - j,
            {
                let (reachable, _) = state_candidates(actor, fsm, states[j].as_str());
                assert(names.take(j + 1).drop_last() =~= names.take(j as int));
                assert(names.take(j + 1).last() == states@[j as int]@);
                match priorities.cycle_warning(actor, reachable.as_slice()) {
                    Some(w) => {
                        let ghost before = out@;
                        proof {
                            views_push(before, w);
                        }
                        out.push(w);
                        assert(views(out@) =~= with_entries + states_cycle_warnings(*actor, *fsm, names.take(j + 1)));
                    },
                    None => {
                        assert(views(out@) =~= with_entries + states_cycle_warnings(*actor, *fsm, names.take(j + 1)));
                    },
                }
                j = j + 1;
            }
            assert(names.take(names.len() as int) =~= names);
        },
    }
    out
}

/// With an FSM, the value-based actor lists each state of the FSM (once each,
/// in increasing order: `fsm_states_listed_once`) as one variant of its state
/// enum and one arm of the `match` in `fire`, the arm beginning with that
/// state's variant; the struct holds the state, which `new` sets to the
/// initial one, and `fire` ends in `false`.
#[verifier::spinoff_prover]
#[verifier::rlimit(50)]
pub proof fn value_fsm_states_once(actor: Actor)
    requires
        actor.fsm is Some,
    ensures
        ({
            let fsm = actor.fsm->0;
            let ty = ident_text(actor.name@);
            let states = sorted_names(fsm_state_set(fsm));
            let init_part = match actor.init {
                Some(init) => "    pub fn init(&mut self) {\n"@ + init_body_text(init, actor_state_names(actor)) + "    }\n\n"@,
                None => Seq::empty(),
            };
            &&& strictly_sorted(states)
            &&& states.no_duplicates()
            &&& value_actor_text(actor) == "#[derive(Clone, Copy)]\nenum "@ + ty + "State {\n"@ + join(
                states.map_values(|s: Seq<char>| "    "@ + fsm_variant_text(s) + ","@),
                "\n"@,
            ) + "\n}\n\n"@ + value_decl_text(actor) + value_ctor_text(actor) + init_part + "    pub fn fire(&mut self) -> bool {\n"@
                + "        match self.state {\n"@ + concat(states.map_values(|s: Seq<char>| state_arm_text(actor, fsm, s)))
                + "        }"@ + "\n        false\n    }\n}\n"@
            &&& forall|s: Seq<char>|
                ("            "@ + ty + "State::"@ + fsm_variant_text(s) + " => {\n"@).is_prefix_of(#[trigger] state_arm_text(actor, fsm, s))
            &&& value_decl_text(actor) == "pub struct "@ + ty + " {\n"@ + join(field_lines_text(actor, seq!["    state: "@ + ty + "State,"@]), "\n"@)
                + "\n}\n\n"@
        }),
{
    let fsm = actor.fsm->0;
    fsm_states_listed_once(fsm);
    reveal(value_actor_text);
    reveal(fire_text);
    let ty = ident_text(actor.name@);
    assert forall|s: Seq<char>|
        ("            "@ + ty + "State::"@ + fsm_variant_text(s) + " => {\n"@).is_prefix_of(#[trigger] state_arm_text(actor, fsm, s)) by {
        reveal(state_arm_text);
        let pre = "            "@ + ty + "State::"@ + fsm_variant_text(s) + " => {\n"@;
        let arm = state_arm_text(actor, fsm, s);
        assert(pre =~= arm.subrange(0, pre.len() as int));
    }
    let init_part = match actor.init {
        Some(init) => "    pub fn init(&mut self) {\n"@ + init_body_text(init, actor_state_names(actor)) + "    }\n\n"@,
        None => Seq::empty(),
    };
    let states = sorted_names(fsm_state_set(fsm));
    let arms = concat(states.map_values(|s: Seq<char>| state_arm_text(actor, fsm, s)));
    let enum_text = "#[derive(Clone, Copy)]\nenum "@ + ty + "State {\n"@ + join(
        states.map_values(|s: Seq<char>| "    "@ + fsm_variant_text(s) + ","@),
        "\n"@,
    ) + "\n}\n\n"@;
    assert(value_enum_text(actor) == enum_text);
    assert(fire_text(actor) == "        match self.state {\n"@ + arms + "        }"@);
    assert(value_actor_text(actor) =~= enum_text + value_decl_text(actor) + value_ctor_text(actor) + init_part
        + "    pub fn fire(&mut self) -> bool {\n"@ + "        match self.state {\n"@ + arms + "        }"@ + "\n        false\n    }\n}\n"@);
}

/// The availability tests of an action occur in its text.
#[verifier::spinoff_prover]
proof fn avail_in_action_text(action: Action, state: Set<Seq<char>>, fsm_next: Option<Seq<char>>, tail: Seq<char>, ret: Seq<char>, k: int)
    requires
        0 <= k < action.input_patterns@.len(),
    ensures
        occurs_in(
            avail_text(action.input_patterns@[k], state, input_ids(action).union(var_names(action.vars@))),
            action_text(action, state, fsm_next, tail, ret),
        ),
{
    reveal(action_text);
    let ids = input_ids(action);
    let locals = ids.union(var_names(action.vars@));
    let consume = !any_reads_tokens(action.guards@, ids);
    let has_guard = action.guards@.len() > 0;
    let guard = join(exprs_texts(action.guards@, state, locals), " && "@);
    let g = if consume && has_guard {
        seq![guard]
    } else {
        Seq::empty()
    };
    let conds = action_conds(action, state, locals, g);
    let avails = action.input_patterns@.map_values(|q: InputPattern| avail_text(q, state, locals));
    assert(conds[k] == avails[k]);
    let j = join(conds, " && "@);
    occurs_in_join(conds, " && "@, k);
    let text = action_text(action, state, fsm_next, tail, ret);
    let rest = text.subrange(("        if "@ + j).len() as int, text.len() as int);
    assert(text =~= "        if "@ + j + rest);
    occurs_in_grow(conds[k], j, "        if "@, rest);
}

/// When the guard looks at the tokens, each pattern's discard loop occurs in
/// the action's text.
#[verifier::spinoff_prover]
proof fn pops_in_action_text(action: Action, state: Set<Seq<char>>, fsm_next: Option<Seq<char>>, tail: Seq<char>, ret: Seq<char>, k: int)
    requires
        0 <= k < action.input_patterns@.len(),
        any_reads_tokens(action.guards@, input_ids(action)),
    ensures
        occurs_in(
            "            for _ in 0.."@ + token_count_text(action.input_patterns@[k], state, input_ids(action)) + " { "@ + port_ref_text(
                action.input_patterns@[k].port@,
            ) + ".pop_front(); }\n"@,
            action_text(action, state, fsm_next, tail, ret),
        ),
{
    reveal(action_text);
    let p = action.input_patterns@[k];
    let ids = input_ids(action);
    let locals = ids.union(var_names(action.vars@));
    let has_guard = action.guards@.len() > 0;
    let guard = join(exprs_texts(action.guards@, state, locals), " && "@);
    let conds = action_conds(action, state, locals, Seq::empty());
    let avails = action.input_patterns@.map_values(|q: InputPattern| avail_text(q, state, locals));
    assert(conds[k] == avails[k]);
    assert(conds.len() > 0);
    let j = join(conds, " && "@);
    let body = action_body_text(action, state, fsm_next, true, ret);
    let text = action_text(action, state, fsm_next, tail, ret);
    let pops = pops_text(action, state, ids);
    let f = |q: InputPattern| "            for _ in 0.."@ + token_count_text(q, state, ids) + " { "@ + port_ref_text(q.port@) + ".pop_front(); }\n"@;
    let lines = action.input_patterns@.map_values(f);
    assert(lines[k] == f(p));
    occurs_in_concat(lines, k);
    let after = body.subrange(pops.len() as int, body.len() as int);
    assert(body =~= pops + after);
    let before = "        if "@ + j + " {\n"@ + peeks_text(action, state, locals) + "            "@ + if has_guard {
        "if "@ + guard + " {\n"@
    } else {
        "{\n"@
    };
    let behind = after + tail + "            }"@ + "\n        }\n"@;
    assert(text =~= before + pops + behind);
    occurs_in_grow(f(p), pops, before, behind);
}

/// An action checks, for each input pattern, that as many tokens are
/// available as the pattern takes: its token names, times its repeat when it
/// has one. When the guard looks at the tokens, the tokens discarded once the
/// action fires are the same number.
pub proof fn actions_test_and_take_their_token_counts(
    action: Action,
    state: Set<Seq<char>>,
    fsm_next: Option<Seq<char>>,
    tail: Seq<char>,
    ret: Seq<char>,
    k: int,
)
    requires
        0 <= k < action.input_patterns@.len(),
    ensures
        ({
            let p = action.input_patterns@[k];
            let ids = input_ids(action);
            let locals = ids.union(var_names(action.vars@));
            let n = decimal(p.ids@.len());
            let text = action_text(action, state, fsm_next, tail, ret);
            &&& occurs_in(
                port_ref_text(p.port@) + ".avail("@ + match p.repeat {
                    Some(r) => "("@ + n + " * ("@ + expr_text(r, state, locals) + ")) as usize"@,
                    None => n,
                } + ")"@,
                text,
            )
            &&& any_reads_tokens(action.guards@, ids) ==> occurs_in(
                "            for _ in 0.."@ + match p.repeat {
                    Some(r) => "("@ + n + " * ("@ + expr_text(r, state, ids) + ")) as usize"@,
                    None => n,
                } + " { "@ + port_ref_text(p.port@) + ".pop_front(); }\n"@,
                text,
            )
        }),
{
    avail_in_action_text(action, state, fsm_next, tail, ret, k);
    if any_reads_tokens(action.guards@, input_ids(action)) {
        pops_in_action_text(action, state, fsm_next, tail, ret, k);
    }
}

} // verus!
