//! How CAL names become Rust identifiers, and the names of generated items.
use vstd::prelude::*;

use crate::text::{cat2, cat3, join, join_strings, owned, push_char, views};

verus! {

/// A character that may stand in a Rust identifier as it is.
pub open spec fn is_ident_char(c: char) -> bool {
    ('a' <= c && c <= 'z') || ('A' <= c && c <= 'Z') || ('0' <= c && c <= '9') || c == '_'
}

/// An ASCII decimal digit.
pub open spec fn is_digit(c: char) -> bool {
    '0' <= c && c <= '9'
}

/// Each character that may not stand in an identifier replaced by `_`.
pub open spec fn sanitized(name: Seq<char>) -> Seq<char> {
    name.map_values(|c: char| if is_ident_char(c) { c } else { '_' })
}

/// The Rust identifier for a CAL name: every character outside `[A-Za-z0-9_]`
/// becomes `_`, and a `_` is put in front when the result is empty or starts
/// with a digit.
pub open spec fn ident_text(name: Seq<char>) -> Seq<char> {
    let s = sanitized(name);
    if s.len() == 0 || is_digit(s[0]) {
        seq!['_'] + s
    } else {
        s
    }
}

/// A nonempty sequence of identifier characters that does not start with a digit.
pub open spec fn is_identifier(s: Seq<char>) -> bool {
    &&& s.len() > 0
    &&& !is_digit(s[0])
    &&& forall|i: int| 0 <= i < s.len() ==> is_ident_char(#[trigger] s[i])
}

/// The identifier for a CAL name.
pub fn ident(name: &str) -> (res: String)
    ensures
        res@ == ident_text(name@),
{
    let n = name.unicode_len();
    let mut out = String::new();
    let mut i: usize = 0;
    while i < n
        invariant
            n == name@.len(),
            0 <= i <= n,
            out@ =~= sanitized(name@).take(i as int),
        decreases n - i,
    {
        let c = name.get_char(i);
        let ok = ('a' <= c && c <= 'z') || ('A' <= c && c <= 'Z') || ('0' <= c && c <= '9') || c
            == '_';
        if ok {
            push_char(&mut out, c);
        } else {
            push_char(&mut out, '_');
        }
        assert(sanitized(name@).take(i + 1) =~= sanitized(name@).take(i as int).push(
            sanitized(name@)[i as int],
        ));
        i = i + 1;
    }
    assert(sanitized(name@).take(n as int) =~= sanitized(name@));
    let needs_prefix = if n == 0 {
        true
    } else {
        let first = out.as_str().get_char(0);
        '0' <= first && first <= '9'
    };
    if needs_prefix {
        let mut res = String::new();
        push_char(&mut res, '_');
        res.append(out.as_str());
        assert(res@ =~= seq!['_'] + out@);
        res
    } else {
        out
    }
}

/// Every identifier made from a CAL name is a well-formed Rust identifier.
pub proof fn ident_is_identifier(name: Seq<char>)
    ensures
        is_identifier(ident_text(name)),
{
    let s = sanitized(name);
    assert forall|i: int| 0 <= i < s.len() implies is_ident_char(#[trigger] s[i]) by {}
    if s.len() == 0 || is_digit(s[0]) {
        let t = seq!['_'] + s;
        assert forall|i: int| 0 <= i < t.len() implies is_ident_char(#[trigger] t[i]) by {
            if i > 0 {
                assert(t[i] == s[i - 1]);
            }
        }
    }
}

/// Making an identifier of an identifier changes nothing.
pub proof fn ident_idempotent(name: Seq<char>)
    ensures
        ident_text(ident_text(name)) == ident_text(name),
{
    let t = ident_text(name);
    ident_is_identifier(name);
    assert(sanitized(t) =~= t);
}

/// The Rust type name for a CAL actor, unit or enumeration name.
pub fn type_ident(name: &str) -> (res: String)
    ensures
        res@ == ident_text(name@),
{
    ident(name)
}

/// The enum variant (or typestate marker) for an FSM state.
pub open spec fn fsm_variant_text(state: Seq<char>) -> Seq<char> {
    "St_"@ + ident_text(state)
}

/// The enum variant (or typestate marker) for an FSM state.
pub fn fsm_variant(state: &str) -> (res: String)
    ensures
        res@ == fsm_variant_text(state@),
{
    let id = ident(state);
    cat2("St_", id.as_str())
}

/// The name of the wrapper enum over the typestates of an actor.
pub open spec fn fsm_wrapper_text(name: Seq<char>) -> Seq<char> {
    ident_text(name) + "Fsm"@
}

/// The name of the wrapper enum over the typestates of an actor.
pub fn fsm_wrapper(name: &str) -> (res: String)
    ensures
        res@ == fsm_wrapper_text(name@),
{
    let id = ident(name);
    cat2(id.as_str(), "Fsm")
}

/// The local variable that holds an actor instance in `main`.
pub open spec fn inst_var_text(id: Seq<char>) -> Seq<char> {
    "inst_"@ + ident_text(id)
}

/// The local variable that holds an actor instance in `main`.
pub fn inst_var(id: &str) -> (res: String)
    ensures
        res@ == inst_var_text(id@),
{
    let i = ident(id);
    cat2("inst_", i.as_str())
}

/// The struct field that holds a port of an actor.
pub open spec fn port_field_text(name: Seq<char>) -> Seq<char> {
    "port_"@ + ident_text(name)
}

/// The struct field that holds a port of an actor.
pub fn port_field(name: &str) -> (res: String)
    ensures
        res@ == port_field_text(name@),
{
    let i = ident(name);
    cat2("port_", i.as_str())
}

/// A port of the actor, reached through `self`.
pub open spec fn port_ref_text(name: Seq<char>) -> Seq<char> {
    "self."@ + port_field_text(name)
}

/// A port of the actor, reached through `self`.
pub fn port_ref(name: &str) -> (res: String)
    ensures
        res@ == port_ref_text(name@),
{
    let f = port_field(name);
    cat2("self.", f.as_str())
}

/// `prefix`, the identifier of `id`, `_` and the identifier of `port`.
pub open spec fn pair_name_text(prefix: Seq<char>, id: Seq<char>, port: Seq<char>) -> Seq<char> {
    prefix + ident_text(id) + "_"@ + ident_text(port)
}

fn pair_name(prefix: &str, id: &str, port: &str) -> (res: String)
    ensures
        res@ == pair_name_text(prefix@, id@, port@),
{
    let a = ident(id);
    let b = ident(port);
    let mut out = cat3(prefix, a.as_str(), "_");
    out.append(b.as_str());
    out
}

/// The shared queue feeding input port `port` of instance `id`.
pub fn chan_var(id: &str, port: &str) -> (res: String)
    ensures
        res@ == pair_name_text("ch_"@, id@, port@),
{
    pair_name("ch_", id, port)
}

/// The sending end of the channel feeding input port `port` of instance `id`.
pub fn chan_tx(id: &str, port: &str) -> (res: String)
    ensures
        res@ == pair_name_text("tx_"@, id@, port@),
{
    pair_name("tx_", id, port)
}

/// The receiving end of the channel feeding input port `port` of instance `id`.
pub fn chan_rx(id: &str, port: &str) -> (res: String)
    ensures
        res@ == pair_name_text("rx_"@, id@, port@),
{
    pair_name("rx_", id, port)
}

/// The credit counter of the channel feeding input port `port` of instance `id`.
pub fn chan_credit(id: &str, port: &str) -> (res: String)
    ensures
        res@ == pair_name_text("cr_"@, id@, port@),
{
    pair_name("cr_", id, port)
}

/// The FIFO variable feeding input port `port` of instance `id`.
pub fn fifo_in(id: &str, port: &str) -> (res: String)
    ensures
        res@ == pair_name_text("fin_"@, id@, port@),
{
    pair_name("fin_", id, port)
}

/// The FIFO variable fed by output port `port` of instance `id`.
pub fn fifo_out(id: &str, port: &str) -> (res: String)
    ensures
        res@ == pair_name_text("fout_"@, id@, port@),
{
    pair_name("fout_", id, port)
}

/// The module that holds an actor class.
pub open spec fn actor_mod_text(name: Seq<char>) -> Seq<char> {
    "m_"@ + ident_text(name)
}

/// The module that holds an actor class.
pub fn actor_mod(name: &str) -> (res: String)
    ensures
        res@ == actor_mod_text(name@),
{
    let i = ident(name);
    cat2("m_", i.as_str())
}

/// The constructor of an output port that feeds `targets`.
pub open spec fn out_port_ctor_text(targets: Seq<Seq<char>>) -> Seq<char> {
    if targets.len() == 0 {
        "OutPort::none()"@
    } else if targets.len() == 1 {
        "OutPort::one("@ + targets[0] + ")"@
    } else {
        "OutPort::many(vec!["@ + join(targets, ", "@) + "])"@
    }
}

/// The constructor of an output port that feeds `targets`.
pub fn out_port_ctor(targets: &Vec<String>) -> (res: String)
    ensures
        res@ == out_port_ctor_text(views(targets@)),
{
    if targets.len() == 0 {
        owned("OutPort::none()")
    } else if targets.len() == 1 {
        cat3("OutPort::one(", targets[0].as_str(), ")")
    } else {
        let j = join_strings(targets, ", ");
        cat3("OutPort::many(vec![", j.as_str(), "])")
    }
}

} // verus!
