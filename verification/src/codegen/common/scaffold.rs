//! The scaffolding every backend shares: the declarations that all actor
//! modules see, the arguments of each instance, and the prelude of `main`
//! that creates the channels and the instances.
use vstd::prelude::*;

use crate::ast::{Actor, ActorParameter, Function, Port, Procedure, Unit, VarDef};
use crate::codegen::common::actor::{actor_type, actor_type_text};
use crate::codegen::common::expr::{emit_expr, emit_function, emit_procedure, expr_text, function_text, procedure_text};
use crate::codegen::common::names::{
    actor_mod, actor_mod_text, chan_rx, chan_tx, chan_var, ident_text, inst_var, inst_var_text, out_port_ctor, out_port_ctor_text,
    pair_name_text,
};
use crate::codegen::common::natives::{bound_natives, emit_natives, natives_text};
use crate::codegen::common::scope::{
    first_by_name, first_by_name_keeps_firsts, first_by_name_push, first_by_name_unique, first_of_its_name, names_of, names_of_push, NameSet,
};
use crate::codegen::common::types::{const_text, default_value, default_value_text, emit_const, param_value, param_value_text, rust_type, rust_type_text};
use crate::codegen::orcc::MAIN_SETUP;
use crate::codegen::{ActorMap, Program};
use crate::network::{Edge, Instance, Network, Param};
use crate::text::{cat2, cat3, concat, join, join_strings, owned, str_eq, take_push, views, views_push};

verus! {

/// How the instances of a backend are connected: shared local queues, or
/// crossbeam channels.
#[derive(Copy, Clone)]
pub enum Channels {
    Local,
    Crossbeam,
}

/// The constants of the units' variables, in unit order.
pub open spec fn units_consts_text(units: Seq<Unit>) -> Seq<char>
    decreases units.len(),
{
    if units.len() == 0 {
        Seq::empty()
    } else {
        units_consts_text(units.drop_last()) + concat(units.last().vars@.map_values(|v: VarDef| const_text(v)))
    }
}

/// A function or procedure, by name, with its Rust text.
pub open spec fn callables_of(fns: Seq<Function>, procs: Seq<Procedure>) -> Seq<(Seq<char>, Seq<char>)> {
    fns.map_values(|f: Function| (f.name@, function_text(f))) + procs.map_values(|p: Procedure| (p.name@, procedure_text(p)))
}

/// The functions and procedures of the units, in unit order.
pub open spec fn units_callables(units: Seq<Unit>) -> Seq<(Seq<char>, Seq<char>)>
    decreases units.len(),
{
    if units.len() == 0 {
        Seq::empty()
    } else {
        units_callables(units.drop_last()) + callables_of(units.last().functions@, units.last().procedures@)
    }
}

/// The functions and procedures of the actor classes, in class order.
pub open spec fn actors_callables(es: Seq<(String, Box<Actor>)>) -> Seq<(Seq<char>, Seq<char>)>
    decreases es.len(),
{
    if es.len() == 0 {
        Seq::empty()
    } else {
        actors_callables(es.drop_last()) + callables_of(es.last().1.functions@, es.last().1.procedures@)
    }
}

/// Names a callable.
pub open spec fn callable_namer() -> spec_fn((Seq<char>, Seq<char>)) -> Seq<char> {
    |c: (Seq<char>, Seq<char>)| c.0
}

/// The shared functions and procedures: the first of each name, units
/// before actors.
pub open spec fn shared_fns_text(units: Seq<Unit>, actors: ActorMap) -> Seq<char> {
    concat(
        first_by_name(units_callables(units) + actors_callables(actors.entries@), callable_namer()).map_values(
            |c: (Seq<char>, Seq<char>)| c.1,
        ),
    )
}

/// A block of declarations followed by an empty line, or nothing when empty.
pub open spec fn block_text(s: Seq<char>) -> Seq<char> {
    if s.len() == 0 {
        Seq::empty()
    } else {
        s + "\n"@
    }
}

/// The declarations every actor module sees: the units' constants, the
/// native bindings when any native is used, and the functions and
/// procedures, each name once.
pub open spec fn shared_decls_text(program: Program, orcc: bool) -> Seq<char> {
    block_text(units_consts_text(program.units@)) + if program.spec_has_natives() {
        natives_text(bound_natives(program.units@, *program.actors), orcc) + "\n"@
    } else {
        Seq::empty()
    } + block_text(shared_fns_text(program.units@, *program.actors))
}

/// The functions and procedures emitted so far, each name once.
struct FnScan {
    out: String,
    seen: NameSet,
    done: Ghost<Seq<(Seq<char>, Seq<char>)>>,
}

impl FnScan {
    spec fn inv(&self) -> bool {
        &&& self.seen@ == names_of(self.done@, callable_namer())
        &&& self.out@ == concat(first_by_name(self.done@, callable_namer()).map_values(|c: (Seq<char>, Seq<char>)| c.1))
    }

    fn new() -> (res: FnScan)
        ensures
            res.inv(),
            res.done@ == Seq::<(Seq<char>, Seq<char>)>::empty(),
    {
        let res = FnScan { out: String::new(), seen: NameSet::new(), done: Ghost(Seq::empty()) };
        assert(res.seen@ =~= names_of(res.done@, callable_namer()));
        assert(first_by_name(res.done@, callable_namer()).map_values(|c: (Seq<char>, Seq<char>)| c.1) =~= Seq::<Seq<char>>::empty());
        res
    }

    /// Adds a callable named `name`; its text is kept only when the name is
    /// new.
    fn add(&mut self, name: &str, text: String, Ghost(c): Ghost<(Seq<char>, Seq<char>)>)
        requires
            old(self).inv(),
            c.0 == name@,
            c.1 == text@,
        ensures
            final(self).inv(),
            final(self).done@ == old(self).done@.push(c),
    {
        let ghost kept = first_by_name(self.done@, callable_namer());
        proof {
            names_of_push(self.done@, c, callable_namer());
            first_by_name_push(self.done@, c, callable_namer());
        }
        if !self.seen.contains(name) {
            self.out.append(text.as_str());
            self.seen.insert(name);
            assert(kept.push(c).map_values(|c: (Seq<char>, Seq<char>)| c.1).drop_last() =~= kept.map_values(
                |c: (Seq<char>, Seq<char>)| c.1,
            ));
        } else {
            assert(self.seen@.insert(name@) =~= self.seen@);
        }
        self.done = Ghost(self.done@.push(c));
    }

    fn add_all(&mut self, fns: &Vec<Function>, procs: &Vec<Procedure>)
        requires
            old(self).inv(),
        ensures
            final(self).inv(),
            final(self).done@ == old(self).done@ + callables_of(fns@, procs@),
    {
        let ghost start = self.done@;
        let ghost a = fns@.map_values(|f: Function| (f.name@, function_text(f)));
        let ghost b = procs@.map_values(|p: Procedure| (p.name@, procedure_text(p)));
        let mut i: usize = 0;
        while i < fns.len()
            invariant
                0 <= i <= fns.len(),
                a == fns@.map_values(|f: Function| (f.name@, function_text(f))),
                self.inv(),
                self.done@ == start + a.take(i as int),
            decreases fns.len() - i,
        {
            let f = &fns[i];
            let t = emit_function(f);
            self.add(f.name.as_str(), t, Ghost(a[i as int]));
            assert(a.take(i + 1) =~= a.take(i as int).push(a[i as int]));
            i = i + 1;
        }
        assert(a.take(fns.len() as int) =~= a);
        let mut j: usize = 0;
        while j < procs.len()
            invariant
                0 <= j <= procs.len(),
                b == procs@.map_values(|p: Procedure| (p.name@, procedure_text(p))),
                self.inv(),
                self.done@ == start + a + b.take(j as int),
            decreases procs.len() - j,
        {
            let p = &procs[j];
            let t = emit_procedure(p);
            self.add(p.name.as_str(), t, Ghost(b[j as int]));
            assert(start + a + b.take(j + 1) =~= (start + a + b.take(j as int)).push(b[j as int]));
            j = j + 1;
        }
        assert(b.take(procs.len() as int) =~= b);
        assert(self.done@ =~= start + callables_of(fns@, procs@));
    }
}

/// The functions and procedures every actor module sees.
fn emit_shared_fns(program: &Program) -> (res: String)
    ensures
        res@ == shared_fns_text(program.units@, *program.actors),
{
    let mut scan = FnScan::new();
    let mut i: usize = 0;
    while i < program.units.len()
        invariant
            0 <= i <= program.units@.len(),
            scan.inv(),
            scan.done@ == units_callables(program.units@.take(i as int)),
        decreases program.units.len() - i,
    {
        let u = &program.units[i];
        scan.add_all(&u.functions, &u.procedures);
        assert(program.units@.take(i + 1).drop_last() =~= program.units@.take(i as int));
        i = i + 1;
    }
    assert(program.units@.take(program.units@.len() as int) =~= program.units@);
    let ghost mid = scan.done@;
    let mut j: usize = 0;
    while j < program.actors.entries.len()
        invariant
            0 <= j <= program.actors.entries@.len(),
            scan.inv(),
            scan.done@ == mid + actors_callables(program.actors.entries@.take(j as int)),
        decreases program.actors.entries.len() - j,
    {
        let a = &program.actors.entries[j].1;
        scan.add_all(&a.functions, &a.procedures);
        assert(program.actors.entries@.take(j + 1).drop_last() =~= program.actors.entries@.take(j as int));
        assert(scan.done@ =~= mid + actors_callables(program.actors.entries@.take(j + 1)));
        j = j + 1;
    }
    assert(program.actors.entries@.take(program.actors.entries@.len() as int) =~= program.actors.entries@);
    scan.out
}

/// The constants of the units' variables.
fn emit_unit_consts(units: &[Unit]) -> (res: String)
    ensures
        res@ == units_consts_text(units@),
{
    let mut out = String::new();
    let mut i: usize = 0;
    while i < units.len()
        invariant
            0 <= i <= units@.len(),
            out@ == units_consts_text(units@.take(i as int)),
        decreases units.len() - i,
    {
        let vars = &units[i].vars;
        let ghost f = |v: VarDef| const_text(v);
        let ghost base = out@;
        let mut k: usize = 0;
        while k < vars.len()
            invariant
                0 <= k <= vars@.len(),
                *vars == units@[i as int].vars,
                f == (|v: VarDef| const_text(v)),
                out@ == base + concat(vars@.take(k as int).map_values(f)),
            decreases vars.len() - k,
        {
            let c = emit_const(&vars[k]);
            out.append(c.as_str());
            assert(vars@.take(k + 1).map_values(f).drop_last() =~= vars@.take(k as int).map_values(f));
            k = k + 1;
        }
        assert(vars@.take(vars@.len() as int) =~= vars@);
        assert(units@.take(i + 1).drop_last() =~= units@.take(i as int));
        i = i + 1;
    }
    assert(units@.take(units@.len() as int) =~= units@);
    out
}

/// A block of declarations followed by an empty line, or nothing when empty.
fn block(s: String) -> (res: String)
    ensures
        res@ == block_text(s@),
{
    if s.as_str().unicode_len() == 0 {
        s
    } else {
        cat2(s.as_str(), "\n")
    }
}

/// The declarations every actor module sees.
pub fn emit_shared_decls(program: &Program, orcc: bool) -> (res: String)
    ensures
        res@ == shared_decls_text(*program, orcc),
{
    let consts = block(emit_unit_consts(program.units));
    let natives = if program.has_natives() {
        let n = emit_natives(program, orcc);
        cat2(n.as_str(), "\n")
    } else {
        String::new()
    };
    let fns = block(emit_shared_fns(program));
    let mut out = cat2(consts.as_str(), natives.as_str());
    out.append(fns.as_str());
    out
}

/// Whether `i` is the position of the first value given for parameter `name`.
pub open spec fn first_param_at(ps: Seq<Param>, name: Seq<char>, i: int) -> bool {
    &&& 0 <= i < ps.len()
    &&& ps[i].key@ == name
    &&& forall|j: int| 0 <= j < i ==> #[trigger] ps[j].key@ != name
}

/// The position of the first value given for parameter `name`, if any.
pub open spec fn first_param(ps: Seq<Param>, name: Seq<char>) -> Option<int> {
    if exists|i: int| first_param_at(ps, name, i) {
        Some(choose|i: int| first_param_at(ps, name, i))
    } else {
        None
    }
}

fn find_param(ps: &Vec<Param>, name: &str) -> (res: Option<usize>)
    ensures
        match res {
            Some(i) => first_param(ps@, name@) == Some(i as int),
            None => first_param(ps@, name@) is None,
        },
{
    let mut i: usize = 0;
    while i < ps.len()
        invariant
            0 <= i <= ps@.len(),
            forall|j: int| 0 <= j < i ==> #[trigger] ps@[j].key@ != name@,
        decreases ps.len() - i,
    {
        if str_eq(ps[i].key.as_str(), name) {
            assert(first_param_at(ps@, name@, i as int));
            proof {
                let k = choose|k: int| first_param_at(ps@, name@, k);
                if k > i {
                    assert(ps@[i as int].key@ != name@);
                }
            }
            return Some(i);
        }
        i = i + 1;
    }
    assert(!exists|k: int| first_param_at(ps@, name@, k));
    None
}

/// The value an instance passes for an actor parameter: the value the network
/// gives (its first one), else the parameter's default, else the type's zero.
pub open spec fn arg_text(inst: Instance, p: ActorParameter) -> Seq<char> {
    match first_param(inst.parameters@, p.name@) {
        Some(i) => param_value_text(p.typ, inst.parameters@[i].value@),
        None => match p.default {
            Some(e) => expr_text(e, Set::empty(), Set::empty()),
            None => default_value_text(p.typ),
        },
    }
}

/// The parameter values an instance passes to its actor's constructor.
pub open spec fn instance_args_text(inst: Instance, actor: Actor) -> Seq<char> {
    join(actor.parameters@.map_values(|p: ActorParameter| arg_text(inst, p)), ", "@)
}

/// The parameter values an instance passes to its actor's constructor.
pub fn instance_args(inst: &Instance, actor: &Actor) -> (res: String)
    ensures
        res@ == instance_args_text(*inst, *actor),
{
    let ghost a = actor.parameters@.map_values(|p: ActorParameter| arg_text(*inst, p));
    let empty = NameSet::new();
    let mut parts: Vec<String> = Vec::new();
    let mut i: usize = 0;
    while i < actor.parameters.len()
        invariant
            0 <= i <= actor.parameters@.len(),
            a == actor.parameters@.map_values(|p: ActorParameter| arg_text(*inst, p)),
            empty@ == Set::<Seq<char>>::empty(),
            views(parts@) == a.take(i as int),
        decreases actor.parameters.len() - i,
    {
        let p = &actor.parameters[i];
        let x = match find_param(&inst.parameters, p.name.as_str()) {
            Some(k) => param_value(&p.typ, inst.parameters[k].value.as_str()),
            None => match &p.default {
                Some(e) => emit_expr(e, &empty, &empty),
                None => default_value(&p.typ),
            },
        };
        let ghost before = parts@;
        proof {
            views_push(before, x);
            take_push(a, i as int);
        }
        parts.push(x);
        i = i + 1;
    }
    assert(a.take(a.len() as int) =~= a);
    join_strings(&parts, ", ")
}

/// The instances whose class is known, in network order.
pub open spec fn present_instances(insts: Seq<Instance>, classes: Map<Seq<char>, Actor>) -> Seq<Instance>
    decreases insts.len(),
{
    if insts.len() == 0 {
        Seq::empty()
    } else {
        let rest = present_instances(insts.drop_last(), classes);
        if classes.contains_key(insts.last().class_name@) {
            rest.push(insts.last())
        } else {
            rest
        }
    }
}

/// Every present instance has a known class.
pub proof fn present_instances_known(insts: Seq<Instance>, classes: Map<Seq<char>, Actor>)
    ensures
        forall|k: int|
            0 <= k < present_instances(insts, classes).len() ==> classes.contains_key(
                (#[trigger] present_instances(insts, classes)[k]).class_name@,
            ),
    decreases insts.len(),
{
    if insts.len() > 0 {
        present_instances_known(insts.drop_last(), classes);
        let rest = present_instances(insts.drop_last(), classes);
        let all = present_instances(insts, classes);
        assert forall|k: int| 0 <= k < all.len() implies classes.contains_key((#[trigger] all[k]).class_name@) by {
            if k < rest.len() {
                assert(all[k] == rest[k]);
            }
        }
    }
}

/// The instances as references.
pub open spec fn instance_derefs(refs: Seq<&Instance>) -> Seq<Instance> {
    refs.map_values(|i: &Instance| *i)
}

/// The actor class of an instance whose class is known.
fn class_of<'a>(actors: &'a ActorMap, inst: &Instance) -> (res: &'a Actor)
    requires
        actors.wf(),
        actors.to_map().contains_key(inst.class_name@),
    ensures
        *res == actors.to_map()[inst.class_name@],
{
    actors.get(inst.class_name.as_str()).unwrap()
}

/// The channel feeding one input port of an instance.
pub open spec fn channel_text(id: Seq<char>, port: Port, channels: Channels) -> Seq<char> {
    let ty = rust_type_text(port.typ);
    match channels {
        Channels::Local => "    let "@ + pair_name_text("ch_"@, id, port.name@) + " = Rc::new(RefCell::new(VecDeque::<"@ + ty
            + ">::new()));\n"@,
        Channels::Crossbeam => "    let ("@ + pair_name_text("tx_"@, id, port.name@) + ", "@ + pair_name_text("rx_"@, id, port.name@)
            + ") = if CAP == 0 { crossbeam_channel::unbounded::<"@ + ty + ">() } else { crossbeam_channel::bounded::<"@ + ty
            + ">(CAP) };\n"@,
    }
}

/// The channels feeding the input ports of the instances, in order.
pub open spec fn channels_text(insts: Seq<Instance>, classes: Map<Seq<char>, Actor>, channels: Channels) -> Seq<char> {
    concat(
        insts.map_values(
            |i: Instance| concat(classes[i.class_name@].inports@.map_values(|p: Port| channel_text(i.id@, p, channels))),
        ),
    )
}

fn emit_channel(id: &str, port: &Port, channels: Channels) -> (res: String)
    ensures
        res@ == channel_text(id@, *port, channels),
{
    let ty = rust_type(&port.typ);
    match channels {
        Channels::Local => {
            let v = chan_var(id, port.name.as_str());
            let mut out = cat3("    let ", v.as_str(), " = Rc::new(RefCell::new(VecDeque::<");
            out.append(ty.as_str());
            out.append(">::new()));\n");
            out
        },
        Channels::Crossbeam => {
            let tx = chan_tx(id, port.name.as_str());
            let rx = chan_rx(id, port.name.as_str());
            let mut out = cat3("    let (", tx.as_str(), ", ");
            out.append(rx.as_str());
            out.append(") = if CAP == 0 { crossbeam_channel::unbounded::<");
            out.append(ty.as_str());
            out.append(">() } else { crossbeam_channel::bounded::<");
            out.append(ty.as_str());
            out.append(">(CAP) };\n");
            out
        },
    }
}

fn emit_channels(actors: &ActorMap, instances: &Vec<&Instance>, channels: Channels) -> (res: String)
    requires
        actors.wf(),
        forall|k: int| 0 <= k < instances@.len() ==> actors.to_map().contains_key((#[trigger] instances@[k]).class_name@),
    ensures
        res@ == channels_text(instance_derefs(instances@), actors.to_map(), channels),
{
    let ghost classes = actors.to_map();
    let ghost insts = instance_derefs(instances@);
    let ghost f = |i: Instance| concat(classes[i.class_name@].inports@.map_values(|p: Port| channel_text(i.id@, p, channels)));
    let mut out = String::new();
    let mut k: usize = 0;
    while k < instances.len()
        invariant
            0 <= k <= instances@.len(),
            actors.wf(),
            classes == actors.to_map(),
            insts == instance_derefs(instances@),
            forall|q: int| 0 <= q < instances@.len() ==> classes.contains_key((#[trigger] instances@[q]).class_name@),
            f == (|i: Instance| concat(classes[i.class_name@].inports@.map_values(|p: Port| channel_text(i.id@, p, channels)))),
            out@ == concat(insts.take(k as int).map_values(f)),
        decreases instances.len() - k,
    {
        let inst = instances[k];
        let actor = class_of(actors, inst);
        let ghost g = |p: Port| channel_text(inst.id@, p, channels);
        let ghost base = out@;
        let mut j: usize = 0;
        while j < actor.inports.len()
            invariant
                0 <= j <= actor.inports@.len(),
                g == (|p: Port| channel_text(inst.id@, p, channels)),
                out@ == base + concat(actor.inports@.take(j as int).map_values(g)),
            decreases actor.inports.len() - j,
        {
            let c = emit_channel(inst.id.as_str(), &actor.inports[j], channels);
            out.append(c.as_str());
            assert(actor.inports@.take(j + 1).map_values(g).drop_last() =~= actor.inports@.take(j as int).map_values(g));
            j = j + 1;
        }
        assert(actor.inports@.take(actor.inports@.len() as int) =~= actor.inports@);
        assert(insts[k as int] == *inst);
        assert(insts.take(k + 1).map_values(f).drop_last() =~= insts.take(k as int).map_values(f));
        k = k + 1;
    }
    assert(insts.take(insts.len() as int) =~= insts);
    out
}

/// Whether input port `port` of instance `id` is among the instances' input
/// ports.
pub open spec fn is_known_input(insts: Seq<Instance>, classes: Map<Seq<char>, Actor>, id: Seq<char>, port: Seq<char>) -> bool {
    exists|a: int, b: int|
        #![trigger insts[a], classes[insts[a].class_name@].inports@[b]]
        0 <= a < insts.len() && 0 <= b < classes[insts[a].class_name@].inports@.len() && insts[a].id@ == id
            && classes[insts[a].class_name@].inports@[b].name@ == port
}

fn is_known(actors: &ActorMap, instances: &Vec<&Instance>, id: &str, port: &str) -> (res: bool)
    requires
        actors.wf(),
        forall|k: int| 0 <= k < instances@.len() ==> actors.to_map().contains_key((#[trigger] instances@[k]).class_name@),
    ensures
        res == is_known_input(instance_derefs(instances@), actors.to_map(), id@, port@),
{
    let ghost classes = actors.to_map();
    let ghost insts = instance_derefs(instances@);
    let mut a: usize = 0;
    while a < instances.len()
        invariant
            0 <= a <= instances@.len(),
            actors.wf(),
            classes == actors.to_map(),
            insts == instance_derefs(instances@),
            forall|k: int| 0 <= k < instances@.len() ==> classes.contains_key((#[trigger] instances@[k]).class_name@),
            forall|x: int, y: int|
                #![trigger insts[x], classes[insts[x].class_name@].inports@[y]]
                0 <= x < a && 0 <= y < classes[insts[x].class_name@].inports@.len() ==> !(insts[x].id@ == id@
                    && classes[insts[x].class_name@].inports@[y].name@ == port@),
        decreases instances.len() - a,
    {
        let inst = instances[a];
        assert(insts[a as int] == *inst);
        if str_eq(inst.id.as_str(), id) {
            let actor = class_of(actors, inst);
            let mut b: usize = 0;
            while b < actor.inports.len()
                invariant
                    0 <= b <= actor.inports@.len(),
                    0 <= a < insts.len(),
                    insts == instance_derefs(instances@),
                    classes == actors.to_map(),
                    *actor == classes[insts[a as int].class_name@],
                    insts[a as int].id@ == id@,
                    forall|y: int| 0 <= y < b ==> (#[trigger] actor.inports@[y]).name@ != port@,
                decreases actor.inports.len() - b,
            {
                if str_eq(actor.inports[b].name.as_str(), port) {
                    assert(classes[insts[a as int].class_name@].inports@[b as int].name@ == port@);
                    assert(is_known_input(insts, classes, id@, port@));
                    return true;
                }
                b = b + 1;
            }
            assert forall|x: int, y: int|
                #![trigger insts[x], classes[insts[x].class_name@].inports@[y]]
                0 <= x < a + 1 && 0 <= y < classes[insts[x].class_name@].inports@.len() implies !(insts[x].id@ == id@
                    && classes[insts[x].class_name@].inports@[y].name@ == port@) by {
                if x == a {
                    assert(actor.inports@[y].name@ != port@);
                }
            }
        }
        a = a + 1;
    }
    false
}

/// The input port an edge feeds, as an argument of the output port that
/// feeds it.
pub open spec fn target_text(e: Edge, channels: Channels) -> Seq<char> {
    match channels {
        Channels::Local => pair_name_text("ch_"@, e.dst_id@, e.dst_port@) + ".clone()"@,
        Channels::Crossbeam => pair_name_text("tx_"@, e.dst_id@, e.dst_port@) + ".clone()"@,
    }
}

/// The targets fed by output port `port` of instance `id`: the edges that
/// leave it for a known input port, in network order.
pub open spec fn out_targets(
    edges: Seq<Edge>,
    insts: Seq<Instance>,
    classes: Map<Seq<char>, Actor>,
    id: Seq<char>,
    port: Seq<char>,
    channels: Channels,
) -> Seq<Seq<char>>
    decreases edges.len(),
{
    if edges.len() == 0 {
        Seq::empty()
    } else {
        let rest = out_targets(edges.drop_last(), insts, classes, id, port, channels);
        let e = edges.last();
        if e.src_id@ == id && e.src_port@ == port && is_known_input(insts, classes, e.dst_id@, e.dst_port@) {
            rest.push(target_text(e, channels))
        } else {
            rest
        }
    }
}

/// The argument of an input port: its queue or receiving end.
pub open spec fn in_arg_text(id: Seq<char>, port: Port, channels: Channels) -> Seq<char> {
    "InPort::new("@ + match channels {
        Channels::Local => pair_name_text("ch_"@, id, port.name@) + ".clone()"@,
        Channels::Crossbeam => pair_name_text("rx_"@, id, port.name@),
    } + ")"@
}

/// The port arguments of an instance: its input ports, then its output ports
/// with what they feed.
pub open spec fn port_args_text(
    network: Network,
    insts: Seq<Instance>,
    classes: Map<Seq<char>, Actor>,
    inst: Instance,
    actor: Actor,
    channels: Channels,
) -> Seq<char> {
    join(
        actor.inports@.map_values(|p: Port| in_arg_text(inst.id@, p, channels)) + actor.outports@.map_values(
            |p: Port| out_port_ctor_text(out_targets(network.edges@, insts, classes, inst.id@, p.name@, channels)),
        ),
        ", "@,
    )
}

fn emit_out_targets(network: &Network, actors: &ActorMap, instances: &Vec<&Instance>, id: &str, port: &str, channels: Channels) -> (res: Vec<String>)
    requires
        actors.wf(),
        forall|k: int| 0 <= k < instances@.len() ==> actors.to_map().contains_key((#[trigger] instances@[k]).class_name@),
    ensures
        views(res@) == out_targets(network.edges@, instance_derefs(instances@), actors.to_map(), id@, port@, channels),
{
    let ghost insts = instance_derefs(instances@);
    let ghost classes = actors.to_map();
    let mut out: Vec<String> = Vec::new();
    let mut k: usize = 0;
    while k < network.edges.len()
        invariant
            0 <= k <= network.edges@.len(),
            actors.wf(),
            insts == instance_derefs(instances@),
            classes == actors.to_map(),
            forall|q: int| 0 <= q < instances@.len() ==> classes.contains_key((#[trigger] instances@[q]).class_name@),
            views(out@) == out_targets(network.edges@.take(k as int), insts, classes, id@, port@, channels),
        decreases network.edges.len() - k,
    {
        let e = &network.edges[k];
        assert(network.edges@.take(k + 1).drop_last() =~= network.edges@.take(k as int));
        if str_eq(e.src_id.as_str(), id) && str_eq(e.src_port.as_str(), port) && is_known(
            actors,
            instances,
            e.dst_id.as_str(),
            e.dst_port.as_str(),
        ) {
            let x = match channels {
                Channels::Local => {
                    let v = chan_var(e.dst_id.as_str(), e.dst_port.as_str());
                    cat2(v.as_str(), ".clone()")
                },
                Channels::Crossbeam => {
                    let v = chan_tx(e.dst_id.as_str(), e.dst_port.as_str());
                    cat2(v.as_str(), ".clone()")
                },
            };
            let ghost before = out@;
            proof {
                views_push(before, x);
            }
            out.push(x);
        }
        k = k + 1;
    }
    assert(network.edges@.take(network.edges@.len() as int) =~= network.edges@);
    out
}

/// The port arguments of an instance.
fn port_args(network: &Network, actors: &ActorMap, instances: &Vec<&Instance>, inst: &Instance, actor: &Actor, channels: Channels) -> (res: String)
    requires
        actors.wf(),
        forall|k: int| 0 <= k < instances@.len() ==> actors.to_map().contains_key((#[trigger] instances@[k]).class_name@),
    ensures
        res@ == port_args_text(*network, instance_derefs(instances@), actors.to_map(), *inst, *actor, channels),
{
    let ghost insts = instance_derefs(instances@);
    let ghost classes = actors.to_map();
    let ghost a = actor.inports@.map_values(|p: Port| in_arg_text(inst.id@, p, channels));
    let ghost b = actor.outports@.map_values(
        |p: Port| out_port_ctor_text(out_targets(network.edges@, insts, classes, inst.id@, p.name@, channels)),
    );
    let mut args: Vec<String> = Vec::new();
    let mut i: usize = 0;
    while i < actor.inports.len()
        invariant
            0 <= i <= actor.inports@.len(),
            a == actor.inports@.map_values(|p: Port| in_arg_text(inst.id@, p, channels)),
            views(args@) == a.take(i as int),
        decreases actor.inports.len() - i,
    {
        let p = &actor.inports[i];
        let source = match channels {
            Channels::Local => {
                let v = chan_var(inst.id.as_str(), p.name.as_str());
                cat2(v.as_str(), ".clone()")
            },
            Channels::Crossbeam => chan_rx(inst.id.as_str(), p.name.as_str()),
        };
        let x = cat3("InPort::new(", source.as_str(), ")");
        let ghost before = args@;
        proof {
            views_push(before, x);
            take_push(a, i as int);
        }
        args.push(x);
        i = i + 1;
    }
    assert(a.take(a.len() as int) =~= a);
    let mut j: usize = 0;
    while j < actor.outports.len()
        invariant
            0 <= j <= actor.outports@.len(),
            actors.wf(),
            insts == instance_derefs(instances@),
            classes == actors.to_map(),
            forall|q: int| 0 <= q < instances@.len() ==> classes.contains_key((#[trigger] instances@[q]).class_name@),
            b == actor.outports@.map_values(
                |p: Port| out_port_ctor_text(out_targets(network.edges@, insts, classes, inst.id@, p.name@, channels)),
            ),
            views(args@) == a + b.take(j as int),
        decreases actor.outports.len() - j,
    {
        let targets = emit_out_targets(network, actors, instances, inst.id.as_str(), actor.outports[j].name.as_str(), channels);
        let x = out_port_ctor(&targets);
        let ghost before = args@;
        proof {
            views_push(before, x);
        }
        args.push(x);
        assert(a + b.take(j + 1) =~= (a + b.take(j as int)).push(b[j as int]));
        j = j + 1;
    }
    assert(b.take(b.len() as int) =~= b);
    join_strings(&args, ", ")
}

/// The line of `main` that creates an instance: its parameter values, then
/// its ports.
pub open spec fn instance_line_text(
    network: Network,
    insts: Seq<Instance>,
    classes: Map<Seq<char>, Actor>,
    inst: Instance,
    channels: Channels,
    typestate: bool,
) -> Seq<char> {
    let actor = classes[inst.class_name@];
    let values = instance_args_text(inst, actor);
    let ports = port_args_text(network, insts, classes, inst, actor, channels);
    let args = if values.len() == 0 {
        ports
    } else {
        values + ", "@ + ports
    };
    "    let mut "@ + inst_var_text(inst.id@) + " = "@ + actor_mod_text(actor.name@) + "::"@ + actor_type_text(actor, typestate) + "::new("@
        + args + ");\n"@
}

/// The call of `init` on an instance whose actor has an initializer.
pub open spec fn init_call_text(inst: Instance, actor: Actor) -> Seq<char> {
    if actor.init is Some {
        "    "@ + inst_var_text(inst.id@) + ".init();\n"@
    } else {
        Seq::empty()
    }
}

/// The start of `main`: the orcc options set up when natives are bound for
/// orcc, the channels, the instances, then their initializers.
pub open spec fn main_prelude_text(program: Program, orcc: bool, channels: Channels, typestate: bool) -> Seq<char> {
    let classes = program.actors.to_map();
    let insts = present_instances(program.network.instances@, classes);
    "fn main() {\n"@ + (if program.spec_has_natives() && orcc {
        MAIN_SETUP@
    } else {
        Seq::empty()
    }) + channels_text(insts, classes, channels) + concat(
        insts.map_values(|i: Instance| instance_line_text(*program.network, insts, classes, i, channels, typestate)),
    ) + concat(insts.map_values(|i: Instance| init_call_text(i, classes[i.class_name@])))
}

fn emit_instance_line(
    network: &Network,
    actors: &ActorMap,
    instances: &Vec<&Instance>,
    inst: &Instance,
    channels: Channels,
    typestate: bool,
) -> (res: String)
    requires
        actors.wf(),
        actors.to_map().contains_key(inst.class_name@),
        forall|k: int| 0 <= k < instances@.len() ==> actors.to_map().contains_key((#[trigger] instances@[k]).class_name@),
    ensures
        res@ == instance_line_text(*network, instance_derefs(instances@), actors.to_map(), *inst, channels, typestate),
{
    let actor = class_of(actors, inst);
    let values = instance_args(inst, actor);
    let ports = port_args(network, actors, instances, inst, actor, channels);
    let args = if values.as_str().unicode_len() == 0 {
        ports
    } else {
        cat3(values.as_str(), ", ", ports.as_str())
    };
    let v = inst_var(inst.id.as_str());
    let m = actor_mod(actor.name.as_str());
    let t = actor_type(actor, typestate);
    let mut out = cat3("    let mut ", v.as_str(), " = ");
    out.append(m.as_str());
    out.append("::");
    out.append(t.as_str());
    out.append("::new(");
    out.append(args.as_str());
    out.append(");\n");
    out
}

/// The instances whose class is known, in network order.
pub fn known_instances<'a>(network: &'a Network, actors: &ActorMap) -> (res: Vec<&'a Instance>)
    requires
        actors.wf(),
    ensures
        instance_derefs(res@) == present_instances(network.instances@, actors.to_map()),
        forall|k: int| 0 <= k < res@.len() ==> actors.to_map().contains_key((#[trigger] res@[k]).class_name@),
{
    let ghost classes = actors.to_map();
    let mut instances: Vec<&'a Instance> = Vec::new();
    let mut i: usize = 0;
    while i < network.instances.len()
        invariant
            0 <= i <= network.instances@.len(),
            actors.wf(),
            classes == actors.to_map(),
            instance_derefs(instances@) == present_instances(network.instances@.take(i as int), classes),
        decreases network.instances.len() - i,
    {
        assert(network.instances@.take(i + 1).drop_last() =~= network.instances@.take(i as int));
        if actors.contains_key(network.instances[i].class_name.as_str()) {
            let ghost before = instances@;
            instances.push(&network.instances[i]);
            assert(instance_derefs(instances@) =~= instance_derefs(before).push(network.instances@[i as int]));
        }
        i = i + 1;
    }
    assert(network.instances@.take(network.instances@.len() as int) =~= network.instances@);
    let ghost insts = instance_derefs(instances@);
    proof {
        present_instances_known(network.instances@, classes);
        assert forall|k: int| 0 <= k < instances@.len() implies classes.contains_key((#[trigger] instances@[k]).class_name@) by {
            assert(insts[k] == *instances@[k]);
        }
    }
    instances
}

/// The start of `main`, with the instances it creates, in network order.
pub fn emit_main_prelude<'a>(program: &Program<'a>, orcc: bool, channels: Channels, typestate: bool) -> (res: (
    Vec<&'a Instance>,
    String,
))
    requires
        program.actors.wf(),
    ensures
        instance_derefs(res.0@) == present_instances(program.network.instances@, program.actors.to_map()),
        forall|k: int| 0 <= k < res.0@.len() ==> program.actors.to_map().contains_key((#[trigger] res.0@[k]).class_name@),
        res.1@ == main_prelude_text(*program, orcc, channels, typestate),
{
    let network: &'a Network = program.network;
    let actors: &'a ActorMap = program.actors;
    let ghost classes = actors.to_map();
    let instances = known_instances(network, actors);
    let ghost insts = instance_derefs(instances@);
    let mut out = owned("fn main() {\n");
    if program.has_natives() && orcc {
        out.append(MAIN_SETUP);
    } else {
        assert(out@ + Seq::<char>::empty() =~= out@);
    }
    let chans = emit_channels(actors, &instances, channels);
    out.append(chans.as_str());
    let ghost f = |x: Instance| instance_line_text(*network, insts, classes, x, channels, typestate);
    let ghost base = out@;
    let mut k: usize = 0;
    while k < instances.len()
        invariant
            0 <= k <= instances@.len(),
            actors.wf(),
            classes == actors.to_map(),
            insts == instance_derefs(instances@),
            forall|q: int| 0 <= q < instances@.len() ==> classes.contains_key((#[trigger] instances@[q]).class_name@),
            f == (|x: Instance| instance_line_text(*network, insts, classes, x, channels, typestate)),
            out@ == base + concat(insts.take(k as int).map_values(f)),
        decreases instances.len() - k,
    {
        let line = emit_instance_line(network, actors, &instances, instances[k], channels, typestate);
        assert(insts[k as int] == *instances@[k as int]);
        out.append(line.as_str());
        assert(insts.take(k + 1).map_values(f).drop_last() =~= insts.take(k as int).map_values(f));
        k = k + 1;
    }
    assert(insts.take(insts.len() as int) =~= insts);
    let ghost g = |x: Instance| init_call_text(x, classes[x.class_name@]);
    let ghost mid = out@;
    let mut j: usize = 0;
    while j < instances.len()
        invariant
            0 <= j <= instances@.len(),
            actors.wf(),
            classes == actors.to_map(),
            insts == instance_derefs(instances@),
            forall|q: int| 0 <= q < instances@.len() ==> classes.contains_key((#[trigger] instances@[q]).class_name@),
            g == (|x: Instance| init_call_text(x, classes[x.class_name@])),
            out@ == mid + concat(insts.take(j as int).map_values(g)),
        decreases instances.len() - j,
    {
        let inst = instances[j];
        assert(insts[j as int] == *inst);
        let actor = class_of(actors, inst);
        if actor.init.is_some() {
            let v = inst_var(inst.id.as_str());
            let line = cat3("    ", v.as_str(), ".init();\n");
            out.append(line.as_str());
        } else {
            assert(out@ + Seq::<char>::empty() =~= out@);
        }
        assert(insts.take(j + 1).map_values(g).drop_last() =~= insts.take(j as int).map_values(g));
        j = j + 1;
    }
    assert(insts.take(insts.len() as int) =~= insts);
    (instances, out)
}

/// The Rust text of callable `c` begins its definition: `fn`, the name as an
/// identifier, `(`.
pub open spec fn defines_callable(c: (Seq<char>, Seq<char>)) -> bool {
    ("fn "@ + ident_text(c.0) + "("@).is_prefix_of(c.1)
}

proof fn callables_of_define(fns: Seq<Function>, procs: Seq<Procedure>)
    ensures
        forall|k: int| 0 <= k < callables_of(fns, procs).len() ==> defines_callable(#[trigger] callables_of(fns, procs)[k]),
{
    let cs = callables_of(fns, procs);
    assert forall|k: int| 0 <= k < cs.len() implies defines_callable(#[trigger] cs[k]) by {
        if k < fns.len() {
            let f = fns[k];
            assert(cs[k] == (f.name@, function_text(f)));
            let pre = "fn "@ + ident_text(f.name@) + "("@;
            assert(pre =~= function_text(f).subrange(0, pre.len() as int));
        } else {
            let p = procs[k - fns.len()];
            assert(cs[k] == (p.name@, procedure_text(p)));
            let pre = "fn "@ + ident_text(p.name@) + "("@;
            assert(pre =~= procedure_text(p).subrange(0, pre.len() as int));
        }
    }
}

proof fn units_callables_define(units: Seq<Unit>)
    ensures
        forall|k: int| 0 <= k < units_callables(units).len() ==> defines_callable(#[trigger] units_callables(units)[k]),
    decreases units.len(),
{
    if units.len() > 0 {
        units_callables_define(units.drop_last());
        callables_of_define(units.last().functions@, units.last().procedures@);
        let a = units_callables(units.drop_last());
        let b = callables_of(units.last().functions@, units.last().procedures@);
        assert forall|k: int| 0 <= k < (a + b).len() implies defines_callable(#[trigger] (a + b)[k]) by {
            if k < a.len() {
                assert((a + b)[k] == a[k]);
            } else {
                assert((a + b)[k] == b[k - a.len()]);
            }
        }
    }
}

proof fn actors_callables_define(es: Seq<(String, Box<Actor>)>)
    ensures
        forall|k: int| 0 <= k < actors_callables(es).len() ==> defines_callable(#[trigger] actors_callables(es)[k]),
    decreases es.len(),
{
    if es.len() > 0 {
        actors_callables_define(es.drop_last());
        callables_of_define(es.last().1.functions@, es.last().1.procedures@);
        let a = actors_callables(es.drop_last());
        let b = callables_of(es.last().1.functions@, es.last().1.procedures@);
        assert forall|k: int| 0 <= k < (a + b).len() implies defines_callable(#[trigger] (a + b)[k]) by {
            if k < a.len() {
                assert((a + b)[k] == a[k]);
            } else {
                assert((a + b)[k] == b[k - a.len()]);
            }
        }
    }
}

/// The shared functions and procedures `shared_decls_text` emits are one
/// definition per name, laid end to end: the kept callables have pairwise
/// different names, every declared name is kept, each kept one is the first
/// of its name (units in order, then actors; functions before procedures),
/// and its text begins `fn {ident(name)}(`.
#[verifier::spinoff_prover]
pub proof fn shared_fns_once(units: Seq<Unit>, actors: ActorMap)
    ensures
        ({
            let all = units_callables(units) + actors_callables(actors.entries@);
            let kept = first_by_name(all, callable_namer());
            &&& shared_fns_text(units, actors) == concat(kept.map_values(|c: (Seq<char>, Seq<char>)| c.1))
            &&& names_of(kept, callable_namer()) == names_of(all, callable_namer())
            &&& forall|i: int, j: int| 0 <= i < j < kept.len() ==> (#[trigger] kept[i]).0 != (#[trigger] kept[j]).0
            &&& forall|k: int|
                0 <= k < kept.len() ==> exists|p: int|
                    0 <= p < all.len() && all[p] == #[trigger] kept[k] && first_of_its_name(all, callable_namer(), p)
            &&& forall|k: int| 0 <= k < kept.len() ==> defines_callable(#[trigger] kept[k])
        }),
{
    let u = units_callables(units);
    let a = actors_callables(actors.entries@);
    let all = u + a;
    let kept = first_by_name(all, callable_namer());
    first_by_name_unique(all, callable_namer());
    first_by_name_keeps_firsts(all, callable_namer());
    units_callables_define(units);
    actors_callables_define(actors.entries@);
    assert forall|k: int| 0 <= k < kept.len() implies defines_callable(#[trigger] kept[k]) by {
        let p = choose|p: int| 0 <= p < all.len() && all[p] == #[trigger] kept[k] && first_of_its_name(all, callable_namer(), p);
        if p < u.len() {
            assert(all[p] == u[p]);
        } else {
            assert(all[p] == a[p - u.len()]);
        }
    }
}

/// The prelude of `main` declares each known instance once, in network order:
/// one line per known instance, which begins `let mut {inst_var(id)} = `,
/// after the channels, then one `init` call per known instance whose class
/// has an initializer.
#[verifier::spinoff_prover]
pub proof fn main_prelude_declares_known_instances(program: Program, orcc: bool, channels: Channels, typestate: bool)
    ensures
        ({
            let classes = program.actors.to_map();
            let insts = program.network.instances@.filter(|i: Instance| classes.contains_key(i.class_name@));
            &&& main_prelude_text(program, orcc, channels, typestate) == "fn main() {\n"@ + (if program.spec_has_natives() && orcc {
                MAIN_SETUP@
            } else {
                Seq::empty()
            }) + channels_text(insts, classes, channels) + concat(
                insts.map_values(|i: Instance| instance_line_text(*program.network, insts, classes, i, channels, typestate)),
            ) + concat(insts.map_values(|i: Instance| init_call_text(i, classes[i.class_name@])))
            &&& forall|i: Instance|
                ("    let mut "@ + inst_var_text(i.id@) + " = "@).is_prefix_of(
                    #[trigger] instance_line_text(*program.network, insts, classes, i, channels, typestate),
                )
        }),
{
    let classes = program.actors.to_map();
    present_instances_are_the_known_ones(program.network.instances@, classes);
    let insts = program.network.instances@.filter(|i: Instance| classes.contains_key(i.class_name@));
    assert forall|i: Instance|
        ("    let mut "@ + inst_var_text(i.id@) + " = "@).is_prefix_of(
            #[trigger] instance_line_text(*program.network, insts, classes, i, channels, typestate),
        ) by {
        let pre = "    let mut "@ + inst_var_text(i.id@) + " = "@;
        let t = instance_line_text(*program.network, insts, classes, i, channels, typestate);
        assert(pre =~= t.subrange(0, pre.len() as int));
    }
}

proof fn init_calls_are_the_initialized(insts: Seq<Instance>, classes: Map<Seq<char>, Actor>)
    ensures
        concat(insts.map_values(|i: Instance| init_call_text(i, classes[i.class_name@]))) == concat(
            insts.filter(|i: Instance| classes[i.class_name@].init is Some).map_values(
                |i: Instance| "    "@ + inst_var_text(i.id@) + ".init();\n"@,
            ),
        ),
    decreases insts.len(),
{
    reveal_with_fuel(Seq::filter, 1);
    let f = |i: Instance| init_call_text(i, classes[i.class_name@]);
    let g = |i: Instance| "    "@ + inst_var_text(i.id@) + ".init();\n"@;
    let keep = |i: Instance| classes[i.class_name@].init is Some;
    if insts.len() == 0 {
        assert(insts.map_values(f) =~= Seq::<Seq<char>>::empty());
        assert(insts.filter(keep) =~= Seq::<Instance>::empty());
        assert(insts.filter(keep).map_values(g) =~= Seq::<Seq<char>>::empty());
    } else {
        let pre = insts.drop_last();
        let x = insts.last();
        init_calls_are_the_initialized(pre, classes);
        assert(insts.map_values(f).drop_last() =~= pre.map_values(f));
        assert(concat(insts.map_values(f)) == concat(pre.map_values(f)) + f(x));
        if keep(x) {
            assert(insts.filter(keep) == pre.filter(keep).push(x));
            assert(insts.filter(keep).map_values(g).drop_last() =~= pre.filter(keep).map_values(g));
        } else {
            assert(insts.filter(keep) == pre.filter(keep));
            assert(concat(pre.map_values(f)) + f(x) =~= concat(pre.map_values(f)));
        }
    }
}

/// After the lines that create the instances, the prelude of `main` calls
/// `init` once on each known instance whose class has an initializer, in
/// network order, and on no other instance.
pub proof fn main_prelude_initializes_known_instances(program: Program, orcc: bool, channels: Channels, typestate: bool)
    ensures
        ({
            let classes = program.actors.to_map();
            let insts = program.network.instances@.filter(|i: Instance| classes.contains_key(i.class_name@));
            main_prelude_text(program, orcc, channels, typestate) == "fn main() {\n"@ + (if program.spec_has_natives() && orcc {
                MAIN_SETUP@
            } else {
                Seq::empty()
            }) + channels_text(insts, classes, channels) + concat(
                insts.map_values(|i: Instance| instance_line_text(*program.network, insts, classes, i, channels, typestate)),
            ) + concat(
                insts.filter(|i: Instance| classes[i.class_name@].init is Some).map_values(
                    |i: Instance| "    "@ + inst_var_text(i.id@) + ".init();\n"@,
                ),
            )
        }),
{
    let classes = program.actors.to_map();
    present_instances_are_the_known_ones(program.network.instances@, classes);
    let insts = program.network.instances@.filter(|i: Instance| classes.contains_key(i.class_name@));
    init_calls_are_the_initialized(insts, classes);
}

/// The instances `main` creates (and whose tasks the tokio backend spawns)
/// are exactly those of the network whose class is known, in network order.
pub proof fn present_instances_are_the_known_ones(insts: Seq<Instance>, classes: Map<Seq<char>, Actor>)
    ensures
        present_instances(insts, classes) == insts.filter(|i: Instance| classes.contains_key(i.class_name@)),
    decreases insts.len(),
{
    reveal_with_fuel(Seq::filter, 1);
    if insts.len() > 0 {
        present_instances_are_the_known_ones(insts.drop_last(), classes);
    } else {
        assert(insts.filter(|i: Instance| classes.contains_key(i.class_name@)) =~= Seq::<Instance>::empty());
    }
}

} // verus!
