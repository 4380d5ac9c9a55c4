//! The tokio backend: one task per actor instance, token chunks sent over
//! mpsc channels, and credits that count the tokens in flight so an output
//! port sees the room left downstream.
use vstd::prelude::*;

use crate::ast::{Actor, Port};
use crate::codegen::common::actor::{actor_port, actor_port_text, actor_type, actor_type_text};
use crate::codegen::common::names::{actor_mod, actor_mod_text, chan_credit, chan_rx, chan_tx, ident, ident_text, inst_var, inst_var_text, out_port_ctor, out_port_ctor_text, pair_name_text};
use crate::codegen::common::scaffold::{
    emit_shared_decls, instance_args, instance_args_text, instance_derefs, known_instances, present_instances, present_instances_are_the_known_ones,
    shared_decls_text,
};
use crate::codegen::common::types::{rust_type, rust_type_text};
use crate::codegen::layout::{actor_files, emit_actor_files, emit_mods, file_views, mods_text, with_main};
use crate::codegen::orcc::MAIN_SETUP;
use crate::codegen::{ActorMap, CodeGenerator, Options, Program};
use crate::network::{Edge, Instance, Network};
use crate::text::{cat2, cat3, concat, decimal, decimal_string, join, join_begins_with_first, join_strings, owned, str_eq, take_push, views, views_push};

verus! {

/// The tokio backend.
pub struct Tokio {
    pub options: Options,
}

impl CodeGenerator for Tokio {
    fn name(&self) -> (res: &'static str)
        ensures
            res@ == "tokio"@,
    {
        "tokio"
    }

    fn extra_deps(&self) -> (res: &'static str)
        ensures
            res@ == TOKIO_DEPS@,
    {
        TOKIO_DEPS
    }

    fn files(&self, program: &Program, orcc: bool) -> (res: Vec<(String, String)>)
        ensures
            file_views(res@) == actor_files(*program.actors, self.options.typestate, true).push(("main.rs"@, tokio_main_file_text(*program, self.options, orcc))),
    {
        emit_files(program, self.options, orcc)
    }
}

/// The dependency on tokio, with the runtime, macros and channels.
pub const TOKIO_DEPS: &'static str = "tokio = { version = \"1\", features = [\"rt-multi-thread\", \"macros\", \"sync\"] }\n";

/// The input port: a buffer of received chunks, and the credit of its channel.
pub const IN_PORT: &'static str = r"pub struct InPort<T> {
    buf: VecDeque<T>,
    credit: Credit,
}

impl<T: Clone> InPort<T> {
    pub fn new(credit: Credit) -> Self {
        Self { buf: VecDeque::new(), credit }
    }
    pub fn avail(&mut self, n: usize) -> bool {
        self.buf.len() >= n
    }
    pub fn peek(&self, i: usize) -> T {
        self.buf[i].clone()
    }
    pub fn recv(&mut self) -> T {
        let value = self.buf.pop_front().unwrap();
        self.credit.fetch_sub(1, CREDIT_ORDER);
        value
    }
    pub fn pop_front(&mut self) -> Option<T> {
        let value = self.buf.pop_front();
        if value.is_some() {
            self.credit.fetch_sub(1, CREDIT_ORDER);
        }
        value
    }
    pub fn extend(&mut self, chunk: Vec<T>) {
        self.buf.extend(chunk);
    }
}

pub enum Txs<T> {
    None,
    One(Tx<T>, Credit),
    Many(Vec<(Tx<T>, Credit)>),
}

pub struct OutPort<T> {
    txs: Txs<T>,
    buf: VecDeque<T>,
}
";

/// The output port's methods up to the first send.
pub const OUT_PORT_HEAD: &'static str = r"
impl<T: Clone> OutPort<T> {
    pub fn none() -> Self {
        Self { txs: Txs::None, buf: VecDeque::new() }
    }
    pub fn one(target: (Tx<T>, Credit)) -> Self {
        Self { txs: Txs::One(target.0, target.1), buf: VecDeque::new() }
    }
    pub fn many(targets: Vec<(Tx<T>, Credit)>) -> Self {
        Self { txs: Txs::Many(targets), buf: VecDeque::new() }
    }
    pub fn has_room(&mut self) -> bool {
        if CAP == 0 {
            return true;
        }
        let pending = self.buf.len();
        match &self.txs {
            Txs::None => true,
            Txs::One(_, credit) => credit.load(CREDIT_ORDER) + pending < CAP,
            Txs::Many(targets) => targets
                .iter()
                .all(|(_, credit)| credit.load(CREDIT_ORDER) + pending < CAP),
        }
    }
    pub fn push_back(&mut self, value: T) {
        self.buf.push_back(value);
    }
    pub async fn flush(&mut self) {
        if self.buf.is_empty() {
            return;
        }
        let mut chunk: Vec<T> = self.buf.drain(..).collect();
        let tokens = chunk.len();
        match &self.txs {
            Txs::None => {}
            Txs::One(tx, credit) => {
                credit.fetch_add(tokens, CREDIT_ORDER);
                let _ = tx.send(chunk)";

/// The output port's methods between the two sends.
pub const OUT_PORT_MID: &'static str = r";
            }
            Txs::Many(targets) => {
                for (i, (tx, credit)) in targets.iter().enumerate() {
                    let payload = if i + 1 == targets.len() {
                        core::mem::take(&mut chunk)
                    } else {
                        chunk.clone()
                    };
                    credit.fetch_add(tokens, CREDIT_ORDER);
                    let _ = tx.send(payload)";

/// The output port's methods after the last send.
pub const OUT_PORT_TAIL: &'static str = r";
                }
            }
        }
    }
}
";

/// The output port's methods; `send_await` follows each send.
pub open spec fn out_port_text(send_await: Seq<char>) -> Seq<char> {
    OUT_PORT_HEAD@ + send_await + OUT_PORT_MID@ + send_await + OUT_PORT_TAIL@
}

/// The output port's methods.
pub fn emit_out_port(send_await: &str) -> (res: String)
    ensures
        res@ == out_port_text(send_await@),
{
    let mut out = cat3(OUT_PORT_HEAD, send_await, OUT_PORT_MID);
    out.append(send_await);
    out.append(OUT_PORT_TAIL);
    out
}

/// The channel, credit and port definitions: bounded channels whose sends
/// are awaited, or unbounded ones.
pub open spec fn ports_text(unbounded: bool) -> Seq<char> {
    let tx_ty = if unbounded {
        "tokio::sync::mpsc::UnboundedSender"@
    } else {
        "tokio::sync::mpsc::Sender"@
    };
    let rx_ty = if unbounded {
        "tokio::sync::mpsc::UnboundedReceiver"@
    } else {
        "tokio::sync::mpsc::Receiver"@
    };
    let send_await = if unbounded {
        ""@
    } else {
        ".await"@
    };
    "pub type Tx<T> = "@ + tx_ty + "<Vec<T>>;\npub type Rx<T> = "@ + rx_ty
        + "<Vec<T>>;\npub type Credit = std::sync::Arc<std::sync::atomic::AtomicUsize>;\n\nconst CREDIT_ORDER: std::sync::atomic::Ordering = std::sync::atomic::Ordering::Relaxed;\n\npub fn credit() -> Credit {\n    std::sync::Arc::new(std::sync::atomic::AtomicUsize::new(0))\n}\n\n"@
        + IN_PORT@ + out_port_text(send_await)
}

/// The channel, credit and port definitions.
pub fn emit_ports(unbounded: bool) -> (res: String)
    ensures
        res@ == ports_text(unbounded),
{
    let tx_ty = if unbounded {
        "tokio::sync::mpsc::UnboundedSender"
    } else {
        "tokio::sync::mpsc::Sender"
    };
    let rx_ty = if unbounded {
        "tokio::sync::mpsc::UnboundedReceiver"
    } else {
        "tokio::sync::mpsc::Receiver"
    };
    let send_await = if unbounded {
        ""
    } else {
        ".await"
    };
    let mut out = cat3("pub type Tx<T> = ", tx_ty, "<Vec<T>>;\npub type Rx<T> = ");
    out.append(rx_ty);
    out.append(
        "<Vec<T>>;\npub type Credit = std::sync::Arc<std::sync::atomic::AtomicUsize>;\n\nconst CREDIT_ORDER: std::sync::atomic::Ordering = std::sync::atomic::Ordering::Relaxed;\n\npub fn credit() -> Credit {\n    std::sync::Arc::new(std::sync::atomic::AtomicUsize::new(0))\n}\n\n",
    );
    out.append(IN_PORT);
    let o = emit_out_port(send_await);
    out.append(o.as_str());
    out
}

/// Flushes every output port of the actor in task `__actor`.
pub open spec fn flush_text(actor: Actor, typestate: bool) -> Seq<char> {
    concat(actor.outports@.map_values(|p: Port| actor_port_text(actor, typestate, "__actor"@, p.name@) + ".flush().await;\n"@))
}

/// Flushes every output port of the actor in task `__actor`.
pub fn emit_flush(actor: &Actor, typestate: bool) -> (res: String)
    ensures
        res@ == flush_text(*actor, typestate),
{
    let ghost f = |p: Port| actor_port_text(*actor, typestate, "__actor"@, p.name@) + ".flush().await;\n"@;
    let mut out = String::new();
    let mut i: usize = 0;
    while i < actor.outports.len()
        invariant
            0 <= i <= actor.outports@.len(),
            f == (|p: Port| actor_port_text(*actor, typestate, "__actor"@, p.name@) + ".flush().await;\n"@),
            out@ == concat(actor.outports@.take(i as int).map_values(f)),
        decreases actor.outports.len() - i,
    {
        let r = actor_port(actor, typestate, "__actor", actor.outports[i].name.as_str());
        out.append(r.as_str());
        out.append(".flush().await;\n");
        assert(actor.outports@.take(i + 1).map_values(f).drop_last() =~= actor.outports@.take(i as int).map_values(f));
        i = i + 1;
    }
    assert(actor.outports@.take(actor.outports@.len() as int) =~= actor.outports@);
    out
}

/// Whether every output port has room, when the actor has output ports.
pub open spec fn room_probe_text(actor: Actor, typestate: bool) -> Option<Seq<char>> {
    if actor.outports@.len() == 0 {
        None
    } else {
        Some(
            join(
                actor.outports@.map_values(|p: Port| actor_port_text(actor, typestate, "__actor"@, p.name@) + ".has_room()"@),
                " && "@,
            ),
        )
    }
}

/// Whether every output port has room, when the actor has output ports.
pub fn emit_room_probe(actor: &Actor, typestate: bool) -> (res: Option<String>)
    ensures
        match res {
            Some(r) => room_probe_text(*actor, typestate) == Some(r@),
            None => room_probe_text(*actor, typestate) is None,
        },
{
    if actor.outports.len() == 0 {
        return None;
    }
    let ghost a = actor.outports@.map_values(|p: Port| actor_port_text(*actor, typestate, "__actor"@, p.name@) + ".has_room()"@);
    let mut parts: Vec<String> = Vec::new();
    let mut i: usize = 0;
    while i < actor.outports.len()
        invariant
            0 <= i <= actor.outports@.len(),
            a == actor.outports@.map_values(|p: Port| actor_port_text(*actor, typestate, "__actor"@, p.name@) + ".has_room()"@),
            views(parts@) == a.take(i as int),
        decreases actor.outports.len() - i,
    {
        let r = actor_port(actor, typestate, "__actor", actor.outports[i].name.as_str());
        let x = cat2(r.as_str(), ".has_room()");
        let ghost before = parts@;
        proof {
            views_push(before, x);
            take_push(a, i as int);
        }
        parts.push(x);
        i = i + 1;
    }
    assert(a.take(a.len() as int) =~= a);
    Some(join_strings(&parts, " && "))
}

/// Each input port of the actor as a piece: `prefix`, the port's identifier,
/// `middle`, the port's Rust type, `suffix`.
pub open spec fn inport_pieces(ports: Seq<Port>, prefix: Seq<char>, middle: Seq<char>, typed: bool, suffix: Seq<char>) -> Seq<Seq<char>> {
    ports.map_values(
        |p: Port|
            prefix + ident_text(p.name@) + middle + if typed {
                rust_type_text(p.typ)
            } else {
                Seq::empty()
            } + suffix,
    )
}

fn emit_inport_pieces(ports: &Vec<Port>, prefix: &str, middle: &str, typed: bool, suffix: &str) -> (res: Vec<String>)
    ensures
        views(res@) == inport_pieces(ports@, prefix@, middle@, typed, suffix@),
{
    let ghost a = inport_pieces(ports@, prefix@, middle@, typed, suffix@);
    let mut out: Vec<String> = Vec::new();
    let mut i: usize = 0;
    while i < ports.len()
        invariant
            0 <= i <= ports@.len(),
            a == inport_pieces(ports@, prefix@, middle@, typed, suffix@),
            views(out@) == a.take(i as int),
        decreases ports.len() - i,
    {
        let id = ident(ports[i].name.as_str());
        let mut x = cat3(prefix, id.as_str(), middle);
        if typed {
            let t = rust_type(&ports[i].typ);
            x.append(t.as_str());
        } else {
            assert(x@ + Seq::<char>::empty() =~= x@);
        }
        x.append(suffix);
        let ghost before = out@;
        proof {
            views_push(before, x);
            take_push(a, i as int);
        }
        out.push(x);
        i = i + 1;
    }
    assert(a.take(a.len() as int) =~= a);
    out
}

/// The arm of the `select!` that receives a chunk on an input port.
pub open spec fn select_arm_text(actor: Actor, typestate: bool, p: Port) -> Seq<char> {
    let id = ident_text(p.name@);
    "__m = rx_"@ + id + ".recv(), if open_"@ + id + " => { match __m { Some(__c) => { "@ + actor_port_text(actor, typestate, "__actor"@, p.name@)
        + ".extend(__c); } None => { open_"@ + id + " = false; } } }\n"@
}

fn emit_select_arms(actor: &Actor, typestate: bool) -> (res: String)
    ensures
        res@ == concat(actor.inports@.map_values(|p: Port| select_arm_text(*actor, typestate, p))),
{
    let ghost f = |p: Port| select_arm_text(*actor, typestate, p);
    let mut out = String::new();
    let mut i: usize = 0;
    while i < actor.inports.len()
        invariant
            0 <= i <= actor.inports@.len(),
            f == (|p: Port| select_arm_text(*actor, typestate, p)),
            out@ == concat(actor.inports@.take(i as int).map_values(f)),
        decreases actor.inports.len() - i,
    {
        let p = &actor.inports[i];
        let id = ident(p.name.as_str());
        let r = actor_port(actor, typestate, "__actor", p.name.as_str());
        let mut x = cat3("__m = rx_", id.as_str(), ".recv(), if open_");
        x.append(id.as_str());
        x.append(" => { match __m { Some(__c) => { ");
        x.append(r.as_str());
        x.append(".extend(__c); } None => { open_");
        x.append(id.as_str());
        x.append(" = false; } } }\n");
        assert(x@ == f(*p));
        out.append(x.as_str());
        assert(actor.inports@.take(i + 1).map_values(f).drop_last() =~= actor.inports@.take(i as int).map_values(f));
        i = i + 1;
    }
    assert(actor.inports@.take(actor.inports@.len() as int) =~= actor.inports@);
    out
}

/// What the task does once nothing fires: when an output port lacks room, it
/// yields and tries again; otherwise it fires once more.
pub open spec fn await_room_text(room: Option<Seq<char>>, flush: Seq<char>) -> Seq<char> {
    match room {
        None => Seq::empty(),
        Some(expr) => "if !("@ + expr + ") { tokio::task::yield_now().await; continue; }\nif __actor.fire() {\n"@ + flush + "continue;\n}\n"@,
    }
}

/// The loop of the task: fire while the actor can, then wait for room or
/// tokens; a source stops once it can fire no more, a task with inputs once
/// all its inputs are closed.
pub open spec fn task_loop_text(actor: Actor, typestate: bool) -> Seq<char> {
    let flush = flush_text(actor, typestate);
    let room = room_probe_text(actor, typestate);
    let drain = "while __actor.fire() {\n"@ + flush + "}\n"@;
    if actor.inports@.len() == 0 {
        if room is None {
            drain
        } else {
            "loop {\n"@ + drain + await_room_text(room, flush) + "break;\n}\n"@
        }
    } else {
        "loop {\n"@ + drain + "if "@ + join(inport_pieces(actor.inports@, "!open_"@, ""@, false, ""@), " && "@) + " { break; }\n"@
            + await_room_text(room, flush) + "tokio::select! {\nbiased;\n"@ + concat(
            actor.inports@.map_values(|p: Port| select_arm_text(actor, typestate, p)),
        ) + "else => { break; }\n}\n}\n"@
    }
}

/// The task that runs one actor instance.
pub open spec fn task_run_text(actor: Actor, typestate: bool) -> Seq<char> {
    let flush = flush_text(actor, typestate);
    let sig = join(
        seq!["mut __actor: "@ + actor_type_text(actor, typestate)] + inport_pieces(actor.inports@, "mut rx_"@, ": Rx<"@, true, ">"@),
        ", "@,
    );
    let opens = concat(inport_pieces(actor.inports@, "let mut open_"@, " = true;\n"@, false, ""@));
    let init = if actor.init is Some {
        "__actor.init();\n"@ + flush
    } else {
        Seq::empty()
    };
    "pub async fn run_"@ + ident_text(actor.name@) + "("@ + sig + ") {\n"@ + opens + init + task_loop_text(actor, typestate) + "}\n"@
}

fn emit_task_loop(actor: &Actor, typestate: bool, flush: &str) -> (res: String)
    requires
        flush@ == flush_text(*actor, typestate),
    ensures
        res@ == task_loop_text(*actor, typestate),
{
    let room = emit_room_probe(actor, typestate);
    let await_room = match &room {
        None => String::new(),
        Some(expr) => {
            let mut t = cat3("if !(", expr.as_str(), ") { tokio::task::yield_now().await; continue; }\nif __actor.fire() {\n");
            t.append(flush);
            t.append("continue;\n}\n");
            t
        },
    };
    let ghost room_v = room_probe_text(*actor, typestate);
    assert(await_room@ == await_room_text(room_v, flush@));
    let drain = cat3("while __actor.fire() {\n", flush, "}\n");
    if actor.inports.len() == 0 {
        if room.is_none() {
            drain
        } else {
            let mut out = cat3("loop {\n", drain.as_str(), await_room.as_str());
            out.append("break;\n}\n");
            out
        }
    } else {
        let closed = emit_inport_pieces(&actor.inports, "!open_", "", false, "");
        let all_closed = join_strings(&closed, " && ");
        let arms = emit_select_arms(actor, typestate);
        let mut out = cat3("loop {\n", drain.as_str(), "if ");
        out.append(all_closed.as_str());
        out.append(" { break; }\n");
        out.append(await_room.as_str());
        out.append("tokio::select! {\nbiased;\n");
        out.append(arms.as_str());
        out.append("else => { break; }\n}\n}\n");
        out
    }
}

/// The task that runs one actor instance.
pub fn emit_task_run(actor: &Actor, typestate: bool) -> (res: String)
    ensures
        res@ == task_run_text(*actor, typestate),
{
    let ty = actor_type(actor, typestate);
    let first = cat2("mut __actor: ", ty.as_str());
    let rest = emit_inport_pieces(&actor.inports, "mut rx_", ": Rx<", true, ">");
    let mut params: Vec<String> = Vec::new();
    params.push(first);
    let mut i: usize = 0;
    while i < rest.len()
        invariant
            0 <= i <= rest@.len(),
            views(params@) == seq![first@] + views(rest@).take(i as int),
        decreases rest.len() - i,
    {
        let x = owned(rest[i].as_str());
        let ghost before = params@;
        proof {
            views_push(before, x);
        }
        params.push(x);
        assert(seq![first@] + views(rest@).take(i + 1) =~= (seq![first@] + views(rest@).take(i as int)).push(views(rest@)[i as int]));
        i = i + 1;
    }
    assert(views(rest@).take(rest@.len() as int) =~= views(rest@));
    let sig = join_strings(&params, ", ");
    let flush = emit_flush(actor, typestate);
    let opens_v = emit_inport_pieces(&actor.inports, "let mut open_", " = true;\n", false, "");
    let opens = crate::text::concat_strings(&opens_v);
    let init = if actor.init.is_some() {
        cat2("__actor.init();\n", flush.as_str())
    } else {
        String::new()
    };
    let body = emit_task_loop(actor, typestate, flush.as_str());
    let id = ident(actor.name.as_str());
    let mut out = cat3("pub async fn run_", id.as_str(), "(");
    out.append(sig.as_str());
    out.append(") {\n");
    out.append(opens.as_str());
    out.append(init.as_str());
    out.append(body.as_str());
    out.append("}\n");
    out
}

/// The channel and credit feeding input port `p` of instance `id`.
pub open spec fn tokio_channel_text(id: Seq<char>, p: Port, unbounded: bool) -> Seq<char> {
    let ty = rust_type_text(p.typ);
    let ctor = if unbounded {
        "tokio::sync::mpsc::unbounded_channel::<Vec<"@ + ty + ">>()"@
    } else {
        "tokio::sync::mpsc::channel::<Vec<"@ + ty + ">>(CAP)"@
    };
    "    let ("@ + pair_name_text("tx_"@, id, p.name@) + ", "@ + pair_name_text("rx_"@, id, p.name@) + ") = "@ + ctor + ";\n"@ + "    let "@
        + pair_name_text("cr_"@, id, p.name@) + " = credit();\n"@
}

fn emit_tokio_channel(id: &str, p: &Port, unbounded: bool) -> (res: String)
    ensures
        res@ == tokio_channel_text(id@, *p, unbounded),
{
    let ty = rust_type(&p.typ);
    let ctor = if unbounded {
        cat3("tokio::sync::mpsc::unbounded_channel::<Vec<", ty.as_str(), ">>()")
    } else {
        cat3("tokio::sync::mpsc::channel::<Vec<", ty.as_str(), ">>(CAP)")
    };
    let tx = chan_tx(id, p.name.as_str());
    let rx = chan_rx(id, p.name.as_str());
    let cr = chan_credit(id, p.name.as_str());
    let mut out = cat3("    let (", tx.as_str(), ", ");
    out.append(rx.as_str());
    out.append(") = ");
    out.append(ctor.as_str());
    out.append(";\n");
    let second = cat3("    let ", cr.as_str(), " = credit();\n");
    out.append(second.as_str());
    out
}

/// What output port `port` of instance `id` feeds: every edge that leaves it,
/// in network order, as a sender with its credit.
pub open spec fn tokio_targets(edges: Seq<Edge>, id: Seq<char>, port: Seq<char>) -> Seq<Seq<char>>
    decreases edges.len(),
{
    if edges.len() == 0 {
        Seq::empty()
    } else {
        let rest = tokio_targets(edges.drop_last(), id, port);
        let e = edges.last();
        if e.src_id@ == id && e.src_port@ == port {
            rest.push(
                "("@ + pair_name_text("tx_"@, e.dst_id@, e.dst_port@) + ".clone(), "@ + pair_name_text("cr_"@, e.dst_id@, e.dst_port@)
                    + ".clone())"@,
            )
        } else {
            rest
        }
    }
}

fn emit_tokio_targets(network: &Network, id: &str, port: &str) -> (res: Vec<String>)
    ensures
        views(res@) == tokio_targets(network.edges@, id@, port@),
{
    let mut out: Vec<String> = Vec::new();
    let mut k: usize = 0;
    while k < network.edges.len()
        invariant
            0 <= k <= network.edges@.len(),
            views(out@) == tokio_targets(network.edges@.take(k as int), id@, port@),
        decreases network.edges.len() - k,
    {
        let e = &network.edges[k];
        assert(network.edges@.take(k + 1).drop_last() =~= network.edges@.take(k as int));
        if str_eq(e.src_id.as_str(), id) && str_eq(e.src_port.as_str(), port) {
            let tx = chan_tx(e.dst_id.as_str(), e.dst_port.as_str());
            let cr = chan_credit(e.dst_id.as_str(), e.dst_port.as_str());
            let mut x = cat3("(", tx.as_str(), ".clone(), ");
            x.append(cr.as_str());
            x.append(".clone())");
            let ghost before = out@;
            proof {
                views_push(before, x);
            }
            out.push(x);
        }
        k = k + 1;
    }
    assert(network.edges@.take(network.edges@.len() as int) =~= network.edges@);
    out
}

/// The constructor arguments of an instance: its parameter values when it
/// has any, its input ports with their credits, its output ports with what
/// they feed.
pub open spec fn tokio_ctor_args(network: Network, inst: Instance, actor: Actor) -> Seq<Seq<char>> {
    let values = instance_args_text(inst, actor);
    (if values.len() == 0 {
        Seq::empty()
    } else {
        seq![values]
    }) + actor.inports@.map_values(|p: Port| "InPort::new("@ + pair_name_text("cr_"@, inst.id@, p.name@) + ".clone())"@)
        + actor.outports@.map_values(|p: Port| out_port_ctor_text(tokio_targets(network.edges@, inst.id@, p.name@)))
}

fn emit_tokio_ctor_args(network: &Network, inst: &Instance, actor: &Actor) -> (res: Vec<String>)
    ensures
        views(res@) == tokio_ctor_args(*network, *inst, *actor),
{
    let ghost a = actor.inports@.map_values(|p: Port| "InPort::new("@ + pair_name_text("cr_"@, inst.id@, p.name@) + ".clone())"@);
    let ghost b = actor.outports@.map_values(|p: Port| out_port_ctor_text(tokio_targets(network.edges@, inst.id@, p.name@)));
    let values = instance_args(inst, actor);
    let mut args: Vec<String> = Vec::new();
    if values.as_str().unicode_len() != 0 {
        args.push(values);
    }
    let ghost first = views(args@);
    let mut i: usize = 0;
    while i < actor.inports.len()
        invariant
            0 <= i <= actor.inports@.len(),
            a == actor.inports@.map_values(|p: Port| "InPort::new("@ + pair_name_text("cr_"@, inst.id@, p.name@) + ".clone())"@),
            views(args@) == first + a.take(i as int),
        decreases actor.inports.len() - i,
    {
        let cr = chan_credit(inst.id.as_str(), actor.inports[i].name.as_str());
        let x = cat3("InPort::new(", cr.as_str(), ".clone())");
        let ghost before = args@;
        proof {
            views_push(before, x);
        }
        args.push(x);
        assert(first + a.take(i + 1) =~= (first + a.take(i as int)).push(a[i as int]));
        i = i + 1;
    }
    assert(a.take(a.len() as int) =~= a);
    let mut j: usize = 0;
    while j < actor.outports.len()
        invariant
            0 <= j <= actor.outports@.len(),
            b == actor.outports@.map_values(|p: Port| out_port_ctor_text(tokio_targets(network.edges@, inst.id@, p.name@))),
            views(args@) == first + a + b.take(j as int),
        decreases actor.outports.len() - j,
    {
        let targets = emit_tokio_targets(network, inst.id.as_str(), actor.outports[j].name.as_str());
        let x = out_port_ctor(&targets);
        let ghost before = args@;
        proof {
            views_push(before, x);
        }
        args.push(x);
        assert(first + a + b.take(j + 1) =~= (first + a + b.take(j as int)).push(b[j as int]));
        j = j + 1;
    }
    assert(b.take(b.len() as int) =~= b);
    assert(first =~= if instance_args_text(*inst, *actor).len() == 0 {
        Seq::<Seq<char>>::empty()
    } else {
        seq![instance_args_text(*inst, *actor)]
    });
    args
}

/// The line that creates an instance.
pub open spec fn tokio_instance_text(network: Network, classes: Map<Seq<char>, Actor>, inst: Instance, typestate: bool) -> Seq<char> {
    let actor = classes[inst.class_name@];
    "    let "@ + inst_var_text(inst.id@) + " = "@ + actor_mod_text(actor.name@) + "::"@ + actor_type_text(actor, typestate) + "::new("@
        + join(tokio_ctor_args(network, inst, actor), ", "@) + ");\n"@
}

/// The line that spawns the task of an instance.
pub open spec fn tokio_spawn_text(classes: Map<Seq<char>, Actor>, inst: Instance) -> Seq<char> {
    let actor = classes[inst.class_name@];
    "    __set.spawn("@ + actor_mod_text(actor.name@) + "::run_"@ + ident_text(actor.name@) + "("@ + join(
        seq![inst_var_text(inst.id@)] + actor.inports@.map_values(|p: Port| pair_name_text("rx_"@, inst.id@, p.name@)),
        ", "@,
    ) + "));\n"@
}

/// The lines that drop the senders `main` still holds, so a task sees its
/// inputs close once their writers are done.
pub open spec fn tokio_drops_text(classes: Map<Seq<char>, Actor>, inst: Instance) -> Seq<char> {
    concat(classes[inst.class_name@].inports@.map_values(|p: Port| "    drop("@ + pair_name_text("tx_"@, inst.id@, p.name@) + ");\n"@))
}

/// The channels of an instance.
pub open spec fn tokio_channels_text(classes: Map<Seq<char>, Actor>, inst: Instance, unbounded: bool) -> Seq<char> {
    concat(classes[inst.class_name@].inports@.map_values(|p: Port| tokio_channel_text(inst.id@, p, unbounded)))
}

/// What `main` does for one instance, in each of its four passes.
pub open spec fn tokio_pass_text(network: Network, classes: Map<Seq<char>, Actor>, inst: Instance, pass: int, unbounded: bool, typestate: bool) -> Seq<char> {
    if pass == 0 {
        tokio_channels_text(classes, inst, unbounded)
    } else if pass == 1 {
        tokio_instance_text(network, classes, inst, typestate)
    } else if pass == 2 {
        tokio_spawn_text(classes, inst)
    } else {
        tokio_drops_text(classes, inst)
    }
}

/// One pass of `main` over all instances.
pub open spec fn tokio_pass_over(network: Network, classes: Map<Seq<char>, Actor>, insts: Seq<Instance>, pass: int, unbounded: bool, typestate: bool) -> Seq<char> {
    concat(insts.map_values(|i: Instance| tokio_pass_text(network, classes, i, pass, unbounded, typestate)))
}

/// The `main` of the tokio backend: the orcc options when requested, a
/// channel and credit per input port, the instances, one task each, then the
/// wait for all tasks.
pub open spec fn tokio_main_text(program: Program, unbounded: bool, orcc: bool, typestate: bool) -> Seq<char> {
    let classes = program.actors.to_map();
    let insts = present_instances(program.network.instances@, classes);
    let network = *program.network;
    "#[tokio::main]\nasync fn main() {\n"@ + (if orcc {
        MAIN_SETUP@
    } else {
        Seq::empty()
    }) + tokio_pass_over(network, classes, insts, 0, unbounded, typestate) + tokio_pass_over(network, classes, insts, 1, unbounded, typestate)
        + "    let mut __set = tokio::task::JoinSet::new();\n"@ + tokio_pass_over(network, classes, insts, 2, unbounded, typestate)
        + tokio_pass_over(network, classes, insts, 3, unbounded, typestate) + "    while __set.join_next().await.is_some() {}\n}\n"@
}

fn emit_tokio_pass_one(network: &Network, actors: &ActorMap, inst: &Instance, pass: u8, unbounded: bool, typestate: bool) -> (res: String)
    requires
        actors.wf(),
        actors.to_map().contains_key(inst.class_name@),
    ensures
        res@ == tokio_pass_text(*network, actors.to_map(), *inst, pass as int, unbounded, typestate),
{
    let actor = actors.get(inst.class_name.as_str()).unwrap();
    if pass == 0 {
        let ghost f = |p: Port| tokio_channel_text(inst.id@, p, unbounded);
        let mut out = String::new();
        let mut k: usize = 0;
        while k < actor.inports.len()
            invariant
                0 <= k <= actor.inports@.len(),
                f == (|p: Port| tokio_channel_text(inst.id@, p, unbounded)),
                out@ == concat(actor.inports@.take(k as int).map_values(f)),
            decreases actor.inports.len() - k,
        {
            let c = emit_tokio_channel(inst.id.as_str(), &actor.inports[k], unbounded);
            out.append(c.as_str());
            assert(actor.inports@.take(k + 1).map_values(f).drop_last() =~= actor.inports@.take(k as int).map_values(f));
            k = k + 1;
        }
        assert(actor.inports@.take(actor.inports@.len() as int) =~= actor.inports@);
        out
    } else if pass == 1 {
        let args = emit_tokio_ctor_args(network, inst, actor);
        let joined = join_strings(&args, ", ");
        let v = inst_var(inst.id.as_str());
        let m = actor_mod(actor.name.as_str());
        let t = actor_type(actor, typestate);
        let mut out = cat3("    let ", v.as_str(), " = ");
        out.append(m.as_str());
        out.append("::");
        out.append(t.as_str());
        out.append("::new(");
        out.append(joined.as_str());
        out.append(");\n");
        out
    } else if pass == 2 {
        let v = inst_var(inst.id.as_str());
        let ghost g = |p: Port| pair_name_text("rx_"@, inst.id@, p.name@);
        let mut args: Vec<String> = Vec::new();
        args.push(v);
        let mut k: usize = 0;
        while k < actor.inports.len()
            invariant
                0 <= k <= actor.inports@.len(),
                g == (|p: Port| pair_name_text("rx_"@, inst.id@, p.name@)),
                views(args@) == seq![inst_var_text(inst.id@)] + actor.inports@.map_values(g).take(k as int),
            decreases actor.inports.len() - k,
        {
            let x = chan_rx(inst.id.as_str(), actor.inports[k].name.as_str());
            let ghost before = args@;
            proof {
                views_push(before, x);
            }
            args.push(x);
            assert(seq![inst_var_text(inst.id@)] + actor.inports@.map_values(g).take(k + 1) =~= (seq![inst_var_text(inst.id@)]
                + actor.inports@.map_values(g).take(k as int)).push(actor.inports@.map_values(g)[k as int]));
            k = k + 1;
        }
        assert(actor.inports@.map_values(g).take(actor.inports@.len() as int) =~= actor.inports@.map_values(g));
        let joined = join_strings(&args, ", ");
        let m = actor_mod(actor.name.as_str());
        let id = ident(actor.name.as_str());
        let mut out = cat3("    __set.spawn(", m.as_str(), "::run_");
        out.append(id.as_str());
        out.append("(");
        out.append(joined.as_str());
        out.append("));\n");
        out
    } else {
        let ghost f = |p: Port| "    drop("@ + pair_name_text("tx_"@, inst.id@, p.name@) + ");\n"@;
        let mut out = String::new();
        let mut k: usize = 0;
        while k < actor.inports.len()
            invariant
                0 <= k <= actor.inports@.len(),
                f == (|p: Port| "    drop("@ + pair_name_text("tx_"@, inst.id@, p.name@) + ");\n"@),
                out@ == concat(actor.inports@.take(k as int).map_values(f)),
            decreases actor.inports.len() - k,
        {
            let tx = chan_tx(inst.id.as_str(), actor.inports[k].name.as_str());
            let line = cat3("    drop(", tx.as_str(), ");\n");
            out.append(line.as_str());
            assert(actor.inports@.take(k + 1).map_values(f).drop_last() =~= actor.inports@.take(k as int).map_values(f));
            k = k + 1;
        }
        assert(actor.inports@.take(actor.inports@.len() as int) =~= actor.inports@);
        out
    }
}

fn emit_tokio_pass(network: &Network, actors: &ActorMap, instances: &Vec<&Instance>, pass: u8, unbounded: bool, typestate: bool) -> (res: String)
    requires
        actors.wf(),
        forall|k: int| 0 <= k < instances@.len() ==> actors.to_map().contains_key((#[trigger] instances@[k]).class_name@),
    ensures
        res@ == tokio_pass_over(*network, actors.to_map(), instance_derefs(instances@), pass as int, unbounded, typestate),
{
    let ghost insts = instance_derefs(instances@);
    let ghost f = |i: Instance| tokio_pass_text(*network, actors.to_map(), i, pass as int, unbounded, typestate);
    let mut out = String::new();
    let mut k: usize = 0;
    while k < instances.len()
        invariant
            0 <= k <= instances@.len(),
            actors.wf(),
            insts == instance_derefs(instances@),
            forall|q: int| 0 <= q < instances@.len() ==> actors.to_map().contains_key((#[trigger] instances@[q]).class_name@),
            f == (|i: Instance| tokio_pass_text(*network, actors.to_map(), i, pass as int, unbounded, typestate)),
            out@ == concat(insts.take(k as int).map_values(f)),
        decreases instances.len() - k,
    {
        let piece = emit_tokio_pass_one(network, actors, instances[k], pass, unbounded, typestate);
        assert(insts[k as int] == *instances@[k as int]);
        out.append(piece.as_str());
        assert(insts.take(k + 1).map_values(f).drop_last() =~= insts.take(k as int).map_values(f));
        k = k + 1;
    }
    assert(insts.take(insts.len() as int) =~= insts);
    out
}

/// The `main` of the tokio backend.
pub fn emit_main(program: &Program, unbounded: bool, orcc: bool, typestate: bool) -> (res: String)
    requires
        program.actors.wf(),
    ensures
        res@ == tokio_main_text(*program, unbounded, orcc, typestate),
{
    let network = program.network;
    let actors = program.actors;
    let instances = known_instances(network, actors);
    let head = if orcc {
        cat2("#[tokio::main]\nasync fn main() {\n", MAIN_SETUP)
    } else {
        owned("#[tokio::main]\nasync fn main() {\n")
    };
    assert(head@ == "#[tokio::main]\nasync fn main() {\n"@ + (if orcc {
        MAIN_SETUP@
    } else {
        Seq::<char>::empty()
    }));
    let chans = emit_tokio_pass(network, actors, &instances, 0, unbounded, typestate);
    let lets = emit_tokio_pass(network, actors, &instances, 1, unbounded, typestate);
    let spawns = emit_tokio_pass(network, actors, &instances, 2, unbounded, typestate);
    let drops = emit_tokio_pass(network, actors, &instances, 3, unbounded, typestate);
    let mut out = cat3(head.as_str(), chans.as_str(), lets.as_str());
    out.append("    let mut __set = tokio::task::JoinSet::new();\n");
    out.append(spawns.as_str());
    out.append(drops.as_str());
    out.append("    while __set.join_next().await.is_some() {}\n}\n");
    out
}

/// The `main.rs` of the tokio backend.
pub open spec fn tokio_main_file_text(program: Program, options: Options, orcc: bool) -> Seq<char> {
    "#![allow(warnings)]\nuse std::collections::VecDeque;\n\n"@ + mods_text(*program.actors) + "\n"@ + "const CAP: usize = "@ + decimal(
        options.cap as nat,
    ) + ";\n\n"@ + ports_text(options.cap == 0) + "\n"@ + shared_decls_text(program, orcc) + tokio_main_text(
        program,
        options.cap == 0,
        orcc,
        options.typestate,
    )
}

/// The files of the tokio backend: a module per actor class with its task,
/// then `main.rs`.
pub fn emit_files(program: &Program, options: Options, orcc: bool) -> (res: Vec<(String, String)>)
    requires
        program.actors.wf(),
    ensures
        file_views(res@) == actor_files(*program.actors, options.typestate, true).push(
            ("main.rs"@, tokio_main_file_text(*program, options, orcc)),
        ),
{
    let typestate = options.typestate;
    let unbounded = options.cap == 0;
    let files = emit_actor_files(program.actors, typestate, true);
    let mods = emit_mods(program.actors);
    let cap = decimal_string(options.cap);
    let ports = emit_ports(unbounded);
    let shared = emit_shared_decls(program, orcc);
    let main_fn = emit_main(program, unbounded, orcc, typestate);
    let mut main = cat3("#![allow(warnings)]\nuse std::collections::VecDeque;\n\n", mods.as_str(), "\n");
    main.append("const CAP: usize = ");
    main.append(cap.as_str());
    main.append(";\n\n");
    main.append(ports.as_str());
    main.append("\n");
    main.append(shared.as_str());
    main.append(main_fn.as_str());
    with_main(files, main)
}

/// The tokio `main` spawns one task per known instance, in network order,
/// after creating them all and before dropping the senders it holds; the
/// task of an instance runs its class's `run_` function on it.
#[verifier::spinoff_prover]
pub proof fn tokio_spawns_known_instances(program: Program, unbounded: bool, orcc: bool, typestate: bool)
    ensures
        ({
            let classes = program.actors.to_map();
            let insts = program.network.instances@.filter(|i: Instance| classes.contains_key(i.class_name@));
            let network = *program.network;
            &&& tokio_main_text(program, unbounded, orcc, typestate) == "#[tokio::main]\nasync fn main() {\n"@ + (if orcc {
                MAIN_SETUP@
            } else {
                Seq::empty()
            }) + tokio_pass_over(network, classes, insts, 0, unbounded, typestate) + tokio_pass_over(
                network,
                classes,
                insts,
                1,
                unbounded,
                typestate,
            ) + "    let mut __set = tokio::task::JoinSet::new();\n"@ + concat(
                insts.map_values(|i: Instance| tokio_spawn_text(classes, i)),
            ) + tokio_pass_over(network, classes, insts, 3, unbounded, typestate) + "    while __set.join_next().await.is_some() {}\n}\n"@
            &&& forall|i: Instance|
                ("    __set.spawn("@ + actor_mod_text(classes[i.class_name@].name@) + "::run_"@ + ident_text(classes[i.class_name@].name@)
                    + "("@ + inst_var_text(i.id@)).is_prefix_of(#[trigger] tokio_spawn_text(classes, i))
        }),
{
    let classes = program.actors.to_map();
    present_instances_are_the_known_ones(program.network.instances@, classes);
    let insts = program.network.instances@.filter(|i: Instance| classes.contains_key(i.class_name@));
    let network = *program.network;
    assert(insts.map_values(|i: Instance| tokio_pass_text(network, classes, i, 2, unbounded, typestate)) =~= insts.map_values(
        |i: Instance| tokio_spawn_text(classes, i),
    ));
    assert forall|i: Instance|
        ("    __set.spawn("@ + actor_mod_text(classes[i.class_name@].name@) + "::run_"@ + ident_text(classes[i.class_name@].name@) + "("@
            + inst_var_text(i.id@)).is_prefix_of(#[trigger] tokio_spawn_text(classes, i)) by {
        let actor = classes[i.class_name@];
        let parts = seq![inst_var_text(i.id@)] + actor.inports@.map_values(|p: Port| pair_name_text("rx_"@, i.id@, p.name@));
        assert(parts[0] == inst_var_text(i.id@));
        join_begins_with_first(parts, ", "@);
        let head = "    __set.spawn("@ + actor_mod_text(actor.name@) + "::run_"@ + ident_text(actor.name@) + "("@;
        let pre = head + inst_var_text(i.id@);
        let t = tokio_spawn_text(classes, i);
        assert(pre =~= t.subrange(0, pre.len() as int)) by {
            assert(inst_var_text(i.id@) =~= join(parts, ", "@).subrange(0, inst_var_text(i.id@).len() as int));
        }
    }
}

} // verus!
