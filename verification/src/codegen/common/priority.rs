//! CAL `priority` blocks: which action outranks which, and the order in which
//! an actor tries its candidate actions.
use vstd::prelude::*;

use crate::ast::{Action, ActionPriority, Actor};
use crate::text::{cat3, join, join_strings, owned, str_eq, views, views_push};

verus! {

/// Whether action `name` is denoted by the priority entry `entry`: the same
/// name, or a name tagged below it (`entry.` followed by more).
pub open spec fn tag_matches_text(name: Seq<char>, entry: Seq<char>) -> bool {
    name == entry || (name.len() > entry.len() && name.take(entry.len() as int) == entry && name[entry.len() as int] == '.')
}

/// Whether action `name` is denoted by the priority entry `entry`.
pub fn tag_matches(name: &str, entry: &str) -> (res: bool)
    ensures
        res == tag_matches_text(name@, entry@),
{
    if str_eq(name, entry) {
        return true;
    }
    let n = name.unicode_len();
    let m = entry.unicode_len();
    if n > m {
        let prefix = name.substring_char(0, m);
        assert(prefix@ =~= name@.take(m as int));
        str_eq(prefix, entry) && name.get_char(m) == '.'
    } else {
        false
    }
}

/// `name` is the nonempty name of an action of `actor` that `entry` denotes.
pub open spec fn entry_matches(actor: Actor, name: Seq<char>, entry: Seq<char>) -> bool {
    &&& name.len() > 0
    &&& tag_matches_text(name, entry)
    &&& exists|k: int| 0 <= k < actor.actions@.len() && #[trigger] actor.actions@[k].name@ == name
}

/// The (higher, lower) pairs one priority chain declares: every action denoted
/// by an entry outranks every other action denoted by a later entry.
pub open spec fn chain_pairs(actor: Actor, order: Seq<String>) -> Set<(Seq<char>, Seq<char>)> {
    Set::new(
        |p: (Seq<char>, Seq<char>)|
            exists|i: int, j: int|
                0 <= i < j < order.len() && entry_matches(actor, p.0, (#[trigger] order[i])@) && entry_matches(
                    actor,
                    p.1,
                    (#[trigger] order[j])@,
                ) && p.0 != p.1,
    )
}

/// The (higher, lower) pairs all priority chains of an actor declare.
pub open spec fn declared_pairs(actor: Actor) -> Set<(Seq<char>, Seq<char>)> {
    Set::new(
        |p: (Seq<char>, Seq<char>)|
            exists|c: int| 0 <= c < actor.priorities@.len() && chain_pairs(actor, (#[trigger] actor.priorities@[c]).order@).contains(p),
    )
}

/// The pairs held in a list of edges.
pub open spec fn pair_set(edges: Seq<(String, String)>) -> Set<(Seq<char>, Seq<char>)> {
    Set::new(|p: (Seq<char>, Seq<char>)| exists|i: int| 0 <= i < edges.len() && (#[trigger] edges[i]).0@ == p.0 && edges[i].1@ == p.1)
}

/// Whether `i` is not outranked by any other index among `remaining`.
pub open spec fn is_ready(rel: Set<(Seq<char>, Seq<char>)>, names: Seq<Seq<char>>, remaining: Seq<usize>, i: usize) -> bool {
    forall|q: int|
        0 <= q < remaining.len() && #[trigger] remaining[q] != i ==> !rel.contains((names[remaining[q] as int], names[i as int]))
}

/// The first position, from `p` on, of a ready index among `remaining`.
pub open spec fn first_ready(rel: Set<(Seq<char>, Seq<char>)>, names: Seq<Seq<char>>, remaining: Seq<usize>, p: int) -> Option<int>
    decreases remaining.len() - p,
{
    if p < 0 || p >= remaining.len() {
        None
    } else if is_ready(rel, names, remaining, remaining[p]) {
        Some(p)
    } else {
        first_ready(rel, names, remaining, p + 1)
    }
}

/// The stable topological order: repeatedly take the first index not outranked
/// by another remaining one; when every remaining index is outranked (a
/// cycle), the rest follow in their current order.
pub open spec fn order_from(rel: Set<(Seq<char>, Seq<char>)>, names: Seq<Seq<char>>, remaining: Seq<usize>) -> Seq<usize>
    decreases remaining.len(),
{
    if remaining.len() == 0 {
        Seq::empty()
    } else {
        match first_ready(rel, names, remaining, 0) {
            Some(p) => if 0 <= p < remaining.len() {
                seq![remaining[p]] + order_from(rel, names, remaining.remove(p))
            } else {
                remaining
            },
            None => remaining,
        }
    }
}

/// The indices `0..n` in order.
pub open spec fn index_range(n: nat) -> Seq<usize> {
    Seq::new(n, |i: int| i as usize)
}

/// The order in which `n` candidates named by `names` are tried: declaration
/// order when there are no priorities, otherwise the stable topological order.
pub open spec fn order_of(rel: Set<(Seq<char>, Seq<char>)>, names: Seq<Seq<char>>, n: nat) -> Seq<usize> {
    if rel == Set::<(Seq<char>, Seq<char>)>::empty() {
        index_range(n)
    } else {
        order_from(rel, names, index_range(n))
    }
}

/// The order in which candidate actions are tried.
pub open spec fn try_order(rel: Set<(Seq<char>, Seq<char>)>, candidates: Seq<Action>) -> Seq<usize> {
    order_of(rel, candidate_names(candidates), candidates.len())
}

/// The indices the stable topological order leaves when every remaining
/// index is outranked by another (a cycle); empty when the order completes.
pub open spec fn stuck_from(rel: Set<(Seq<char>, Seq<char>)>, names: Seq<Seq<char>>, remaining: Seq<usize>) -> Seq<usize>
    decreases remaining.len(),
{
    if remaining.len() == 0 {
        Seq::empty()
    } else {
        match first_ready(rel, names, remaining, 0) {
            Some(p) => if 0 <= p < remaining.len() {
                stuck_from(rel, names, remaining.remove(p))
            } else {
                remaining
            },
            None => remaining,
        }
    }
}

/// The candidates `order_of` falls back to declaration order for.
pub open spec fn stuck_order(rel: Set<(Seq<char>, Seq<char>)>, names: Seq<Seq<char>>, n: nat) -> Seq<usize> {
    if rel == Set::<(Seq<char>, Seq<char>)>::empty() {
        Seq::empty()
    } else {
        stuck_from(rel, names, index_range(n))
    }
}

/// The warning that the priorities of actor `actor_name` are cyclic over the
/// actions named `stuck`.
pub open spec fn cycle_warning_text(actor_name: Seq<char>, stuck: Seq<Seq<char>>) -> Seq<char> {
    "warning: actor "@ + actor_name + ": priorities are cyclic over ["@ + join(stuck, ", "@)
        + "]; using declaration order for those actions"@
}

/// The warnings of trying `candidates` in priority order: one when a cycle
/// leaves some of them to declaration order, none otherwise.
pub open spec fn cycle_warnings(actor_name: Seq<char>, rel: Set<(Seq<char>, Seq<char>)>, candidates: Seq<Action>) -> Seq<Seq<char>> {
    let names = candidate_names(candidates);
    let stuck = stuck_order(rel, names, candidates.len());
    if stuck.len() == 0 {
        Seq::empty()
    } else {
        seq![cycle_warning_text(actor_name, stuck.map_values(|i: usize| names[i as int]))]
    }
}

/// Whether the priority entry `entry` denotes no action of `actor`.
pub open spec fn entry_unmatched(actor: Actor, entry: Seq<char>) -> bool {
    forall|n: Seq<char>| !entry_matches(actor, n, entry)
}

/// The warning that a priority entry of actor `actor_name` denotes no action.
pub open spec fn unmatched_entry_warning_text(actor_name: Seq<char>, entry: Seq<char>) -> Seq<char> {
    "warning: actor "@ + actor_name + ": priority entry '"@ + entry + "' matches no action; ignoring it"@
}

/// The warnings for the entries of one priority chain that denote no action.
pub open spec fn chain_warnings(actor: Actor, order: Seq<String>) -> Seq<Seq<char>>
    decreases order.len(),
{
    if order.len() == 0 {
        Seq::empty()
    } else {
        chain_warnings(actor, order.drop_last()) + if entry_unmatched(actor, order.last()@) {
            seq![unmatched_entry_warning_text(actor.name@, order.last()@)]
        } else {
            Seq::empty()
        }
    }
}

/// The warnings for the entries of the given chains that denote no action.
pub open spec fn chains_warnings(actor: Actor, chains: Seq<ActionPriority>) -> Seq<Seq<char>>
    decreases chains.len(),
{
    if chains.len() == 0 {
        Seq::empty()
    } else {
        chains_warnings(actor, chains.drop_last()) + chain_warnings(actor, chains.last().order@)
    }
}

/// The warnings for the priority entries of `actor` that denote no action,
/// chain by chain and entry by entry; such entries add no ordering.
pub open spec fn priority_warnings(actor: Actor) -> Seq<Seq<char>> {
    chains_warnings(actor, actor.priorities@)
}

/// The warning that a priority entry denotes no action.
pub fn unmatched_entry_warning(actor_name: &str, entry: &str) -> (res: String)
    ensures
        res@ == unmatched_entry_warning_text(actor_name@, entry@),
{
    let mut w = cat3("warning: actor ", actor_name, ": priority entry '");
    w.append(entry);
    w.append("' matches no action; ignoring it");
    w
}

/// The warnings for the priority entries of `actor` that denote no action.
pub fn priority_entry_warnings(actor: &Actor) -> (res: Vec<String>)
    ensures
        views(res@) == priority_warnings(*actor),
{
    let mut out: Vec<String> = Vec::new();
    let mut c: usize = 0;
    while c < actor.priorities.len()
        invariant
            0 <= c <= actor.priorities@.len(),
            views(out@) == chains_warnings(*actor, actor.priorities@.take(c as int)),
        decreases actor.priorities.len() - c,
    {
        let order = &actor.priorities[c].order;
        let ghost base = views(out@);
        let mut i: usize = 0;
        assert(chain_warnings(*actor, order@.take(0)) =~= Seq::<Seq<char>>::empty());
        assert(base + Seq::<Seq<char>>::empty() =~= base);
        while i < order.len()
            invariant
                0 <= i <= order@.len(),
                *order == actor.priorities@[c as int].order,
                views(out@) == base + chain_warnings(*actor, order@.take(i as int)),
            decreases order.len() - i,
        {
            let names = resolve(actor, order[i].as_str());
            let ghost before = out@;
            assert(order@.take(i + 1).drop_last() =~= order@.take(i as int));
            if names.len() == 0 {
                assert forall|n: Seq<char>| !entry_matches(*actor, n, order@[i as int]@) by {
                    assert(!views(names@).contains(n));
                }
                let w = unmatched_entry_warning(actor.name.as_str(), order[i].as_str());
                proof {
                    views_push(before, w);
                }
                out.push(w);
                assert(views(out@) =~= base + chain_warnings(*actor, order@.take(i + 1)));
            } else {
                assert(views(names@).contains(views(names@)[0]));
                assert(views(out@) =~= base + chain_warnings(*actor, order@.take(i + 1)));
            }
            i = i + 1;
        }
        assert(order@.take(order@.len() as int) =~= order@);
        assert(actor.priorities@.take(c + 1).drop_last() =~= actor.priorities@.take(c as int));
        c = c + 1;
    }
    assert(actor.priorities@.take(actor.priorities@.len() as int) =~= actor.priorities@);
    out
}

/// The names of candidate actions.
pub open spec fn candidate_names(candidates: Seq<Action>) -> Seq<Seq<char>> {
    candidates.map_values(|a: Action| a.name@)
}

/// The actions behind a sequence of references.
pub open spec fn derefs(refs: Seq<&Action>) -> Seq<Action> {
    refs.map_values(|a: &Action| *a)
}

/// The outranking relation of an actor's priority blocks.
pub struct Priorities {
    edges: Vec<(String, String)>,
}

impl Priorities {
    /// The (higher, lower) pairs of action names.
    pub closed spec fn rel(&self) -> Set<(Seq<char>, Seq<char>)> {
        pair_set(self.edges@)
    }

    /// The relation declared by the priority blocks of `actor`.
    pub fn new(actor: &Actor) -> (res: Priorities)
        ensures
            res.rel() == declared_pairs(*actor),
    {
        let mut edges: Vec<(String, String)> = Vec::new();
        assert(pair_set(edges@) =~= Set::empty());
        let mut c: usize = 0;
        while c < actor.priorities.len()
            invariant
                0 <= c <= actor.priorities@.len(),
                pair_set(edges@) == Set::new(
                    |p: (Seq<char>, Seq<char>)|
                        exists|k: int| 0 <= k < c && chain_pairs(*actor, (#[trigger] actor.priorities@[k]).order@).contains(p),
                ),
            decreases actor.priorities.len() - c,
        {
            let ghost before = pair_set(edges@);
            add_chain(&mut edges, actor, &actor.priorities[c].order);
            assert(pair_set(edges@) =~= Set::new(
                |p: (Seq<char>, Seq<char>)|
                    exists|k: int| 0 <= k < c + 1 && chain_pairs(*actor, (#[trigger] actor.priorities@[k]).order@).contains(p),
            )) by {
                assert forall|p: (Seq<char>, Seq<char>)| #[trigger] pair_set(edges@).contains(p) implies (exists|k: int|
                    0 <= k < c + 1 && chain_pairs(*actor, (#[trigger] actor.priorities@[k]).order@).contains(p)) by {
                    if !before.contains(p) {
                        assert(chain_pairs(*actor, actor.priorities@[c as int].order@).contains(p));
                    }
                }
            }
            c = c + 1;
        }
        let res = Priorities { edges };
        assert(res.rel() =~= declared_pairs(*actor));
        res
    }

    /// Whether action `high` outranks action `low`.
    pub fn outranks(&self, high: &str, low: &str) -> (res: bool)
        ensures
            res == self.rel().contains((high@, low@)),
    {
        let mut i: usize = 0;
        while i < self.edges.len()
            invariant
                0 <= i <= self.edges@.len(),
                forall|k: int| 0 <= k < i ==> !((#[trigger] self.edges@[k]).0@ == high@ && self.edges@[k].1@ == low@),
            decreases self.edges.len() - i,
        {
            if str_eq(self.edges[i].0.as_str(), high) && str_eq(self.edges[i].1.as_str(), low) {
                assert(pair_set(self.edges@).contains((high@, low@)));
                return true;
            }
            i = i + 1;
        }
        false
    }

    /// The order in which to try `candidates`, actions of the actor whose
    /// priorities these are, as indices into it: declaration order when there
    /// are no priorities, otherwise the stable topological order of
    /// `order_from`.
    pub fn order(&self, _actor: &Actor, candidates: &[&Action]) -> (res: Vec<usize>)
        ensures
            res@ == try_order(self.rel(), derefs(candidates@)),
    {
        self.order_parts(candidates).0
    }

    /// The warning that the priorities among `candidates` are cyclic, naming
    /// the candidates caught in the cycle, which `order` tries in declaration
    /// order; none when the order needs no such fallback.
    pub fn cycle_warning(&self, actor: &Actor, candidates: &[&Action]) -> (res: Option<String>)
        ensures
            (match res {
                Some(w) => seq![w@],
                None => Seq::empty(),
            }) == cycle_warnings(actor.name@, self.rel(), derefs(candidates@)),
    {
        let (_, stuck) = self.order_parts(candidates);
        if stuck.len() == 0 {
            return None;
        }
        let ghost names = candidate_names(derefs(candidates@));
        let ghost f = |i: usize| names[i as int];
        let mut parts: Vec<String> = Vec::new();
        let mut k: usize = 0;
        while k < stuck.len()
            invariant
                0 <= k <= stuck@.len(),
                names == candidate_names(derefs(candidates@)),
                f == (|i: usize| names[i as int]),
                forall|q: int| 0 <= q < stuck@.len() ==> #[trigger] stuck@[q] < candidates@.len(),
                views(parts@) == stuck@.take(k as int).map_values(f),
            decreases stuck.len() - k,
        {
            let ghost before = parts@;
            let x = owned(candidates[stuck[k]].name.as_str());
            proof {
                views_push(before, x);
            }
            parts.push(x);
            assert(stuck@.take(k + 1).map_values(f) =~= stuck@.take(k as int).map_values(f).push(f(stuck@[k as int])));
            k = k + 1;
        }
        assert(stuck@.take(stuck@.len() as int) =~= stuck@);
        let listed = join_strings(&parts, ", ");
        let mut w = cat3("warning: actor ", actor.name.as_str(), ": priorities are cyclic over [");
        w.append(listed.as_str());
        w.append("]; using declaration order for those actions");
        Some(w)
    }

    /// The order in which to try `candidates`, and the candidates left over
    /// when a cycle stops the topological order.
    fn order_parts(&self, candidates: &[&Action]) -> (res: (Vec<usize>, Vec<usize>))
        ensures
            res.0@ == try_order(self.rel(), derefs(candidates@)),
            res.1@ == stuck_order(self.rel(), candidate_names(derefs(candidates@)), candidates@.len()),
            forall|q: int| 0 <= q < res.1@.len() ==> #[trigger] res.1@[q] < candidates@.len(),
    {
        let n = candidates.len();
        let mut remaining: Vec<usize> = Vec::new();
        let mut i: usize = 0;
        while i < n
            invariant
                n == candidates@.len(),
                0 <= i <= n,
                remaining@ == index_range(i as nat),
            decreases n - i,
        {
            remaining.push(i);
            assert(remaining@ =~= index_range((i + 1) as nat));
            i = i + 1;
        }
        if self.edges.len() == 0 {
            assert(self.rel() =~= Set::<(Seq<char>, Seq<char>)>::empty());
            return (remaining, Vec::new());
        }
        assert(self.rel().contains((self.edges@[0].0@, self.edges@[0].1@)));
        let ghost rel = self.rel();
        let ghost names = candidate_names(derefs(candidates@));
        let ghost all = remaining@;
        let mut ordered: Vec<usize> = Vec::new();
        let mut stuck: Vec<usize> = Vec::new();
        while remaining.len() > 0
            invariant
                rel == self.rel(),
                names == candidate_names(derefs(candidates@)),
                n == candidates@.len(),
                forall|k: int| 0 <= k < remaining@.len() ==> #[trigger] remaining@[k] < n,
                forall|k: int| 0 <= k < stuck@.len() ==> #[trigger] stuck@[k] < n,
                stuck@.len() > 0 ==> remaining@.len() == 0,
                ordered@ + order_from(rel, names, remaining@) == order_from(rel, names, all),
                stuck@ + stuck_from(rel, names, remaining@) == stuck_from(rel, names, all),
            decreases remaining.len(),
        {
            let pos = self.first_ready_position(candidates, &remaining);
            match pos {
                Some(p) => {
                    let x = remaining.remove(p);
                    let ghost before = ordered@;
                    ordered.push(x);
                    assert(ordered@ =~= before + seq![x]);
                },
                None => {
                    let ghost before = ordered@;
                    let ghost rest = remaining@;
                    let mut k: usize = 0;
                    while k < remaining.len()
                        invariant
                            0 <= k <= remaining@.len(),
                            remaining@ == rest,
                            stuck@ == rest.take(k as int),
                        decreases remaining.len() - k,
                    {
                        stuck.push(remaining[k]);
                        assert(rest.take(k + 1) =~= rest.take(k as int).push(rest[k as int]));
                        k = k + 1;
                    }
                    assert(rest.take(rest.len() as int) =~= rest);
                    ordered.append(&mut remaining);
                    assert(ordered@ =~= before + rest);
                },
            }
        }
        assert(ordered@ =~= order_from(rel, names, all));
        assert(stuck@ =~= stuck_from(rel, names, all));
        (ordered, stuck)
    }

    /// The first position among `remaining` of an index that no other remaining
    /// index outranks.
    fn first_ready_position(&self, candidates: &[&Action], remaining: &Vec<usize>) -> (res: Option<usize>)
        requires
            forall|k: int| 0 <= k < remaining@.len() ==> #[trigger] remaining@[k] < candidates@.len(),
        ensures
            res matches Some(p) ==> p < remaining@.len(),
            res matches Some(p) ==> first_ready(self.rel(), candidate_names(derefs(candidates@)), remaining@, 0) == Some(p as int),
            res is None ==> first_ready(self.rel(), candidate_names(derefs(candidates@)), remaining@, 0) is None,
    {
        let ghost names = candidate_names(derefs(candidates@));
        let mut p: usize = remaining.len();
        let mut found: Option<usize> = None;
        while p > 0
            invariant
                0 <= p <= remaining@.len(),
                names == candidate_names(derefs(candidates@)),
                forall|k: int| 0 <= k < remaining@.len() ==> #[trigger] remaining@[k] < candidates@.len(),
                found matches Some(f) ==> p <= f < remaining@.len(),
                (match found {
                    Some(f) => Some(f as int),
                    None => None,
                }) == first_ready(self.rel(), names, remaining@, p as int),
            decreases p,
        {
            p = p - 1;
            let i = remaining[p];
            let mut blocked = false;
            let mut q: usize = 0;
            while q < remaining.len()
                invariant
                    0 <= q <= remaining@.len(),
                    p < remaining@.len(),
                    i == remaining@[p as int],
                    names == candidate_names(derefs(candidates@)),
                    forall|k: int| 0 <= k < remaining@.len() ==> #[trigger] remaining@[k] < candidates@.len(),
                    blocked == !(forall|r: int|
                        0 <= r < q && #[trigger] remaining@[r] != i ==> !self.rel().contains(
                            (names[remaining@[r] as int], names[i as int]),
                        )),
                decreases remaining.len() - q,
            {
                let j = remaining[q];
                if j != i && self.outranks(candidates[j].name.as_str(), candidates[i].name.as_str()) {
                    blocked = true;
                }
                q = q + 1;
            }
            if !blocked {
                found = Some(p);
            }
        }
        found
    }
}

/// A sequence grown by one item contains what it contained and the new item.
pub proof fn push_contains(s: Seq<Seq<char>>, x: Seq<char>, y: Seq<char>)
    ensures
        s.push(x).contains(y) == (s.contains(y) || x == y),
{
    if s.push(x).contains(y) {
        let k = choose|k: int| 0 <= k < s.push(x).len() && s.push(x)[k] == y;
        if k < s.len() {
            assert(s[k] == y);
        }
    }
    if s.contains(y) {
        let k = choose|k: int| 0 <= k < s.len() && s[k] == y;
        assert(s.push(x)[k] == y);
    }
    if x == y {
        assert(s.push(x)[s.len() as int] == y);
    }
}

/// Whether the pairs `highs` × `lows` (without self-pairs) are in `edges`.
pub open spec fn cross_pairs(highs: Seq<Seq<char>>, lows: Seq<Seq<char>>) -> Set<(Seq<char>, Seq<char>)> {
    Set::new(|p: (Seq<char>, Seq<char>)| highs.contains(p.0) && lows.contains(p.1) && p.0 != p.1)
}

/// Whether `(high, low)` is already an edge.
fn has_edge(edges: &Vec<(String, String)>, high: &str, low: &str) -> (res: bool)
    ensures
        res == pair_set(edges@).contains((high@, low@)),
{
    let mut i: usize = 0;
    while i < edges.len()
        invariant
            0 <= i <= edges@.len(),
            forall|k: int| 0 <= k < i ==> !((#[trigger] edges@[k]).0@ == high@ && edges@[k].1@ == low@),
        decreases edges.len() - i,
    {
        if str_eq(edges[i].0.as_str(), high) && str_eq(edges[i].1.as_str(), low) {
            return true;
        }
        i = i + 1;
    }
    false
}

/// Adds the pair `(high, low)` unless it is already there.
fn add_edge(edges: &mut Vec<(String, String)>, high: &str, low: &str)
    ensures
        pair_set(final(edges)@) == pair_set(old(edges)@).insert((high@, low@)),
{
    if has_edge(edges, high, low) {
        assert(pair_set(edges@).insert((high@, low@)) =~= pair_set(edges@));
    } else {
        let ghost before = edges@;
        edges.push((owned(high), owned(low)));
        assert forall|p: (Seq<char>, Seq<char>)| #[trigger] pair_set(edges@).contains(p) == pair_set(before).insert(
            (high@, low@),
        ).contains(p) by {
            if pair_set(edges@).contains(p) {
                let k = choose|k: int| 0 <= k < edges@.len() && (#[trigger] edges@[k]).0@ == p.0 && edges@[k].1@ == p.1;
                if k < before.len() {
                    assert(before[k] == edges@[k]);
                }
            }
            if pair_set(before).contains(p) {
                let k = choose|k: int| 0 <= k < before.len() && (#[trigger] before[k]).0@ == p.0 && before[k].1@ == p.1;
                assert(edges@[k] == before[k]);
            }
            if p == (high@, low@) {
                assert(edges@[before.len() as int].0@ == p.0);
            }
        }
        assert(pair_set(edges@) =~= pair_set(before).insert((high@, low@)));
    }
}

/// Adds every pair of `highs` × `lows` other than self-pairs.
fn add_pairs(edges: &mut Vec<(String, String)>, highs: &Vec<String>, lows: &Vec<String>)
    ensures
        pair_set(final(edges)@) == pair_set(old(edges)@).union(cross_pairs(views(highs@), views(lows@))),
{
    let ghost start = pair_set(edges@);
    let mut h: usize = 0;
    while h < highs.len()
        invariant
            0 <= h <= highs@.len(),
            pair_set(edges@) == start.union(cross_pairs(views(highs@).take(h as int), views(lows@))),
        decreases highs.len() - h,
    {
        let ghost mid = pair_set(edges@);
        let mut l: usize = 0;
        while l < lows.len()
            invariant
                0 <= h < highs@.len(),
                0 <= l <= lows@.len(),
                pair_set(edges@) == mid.union(
                    Set::new(
                        |p: (Seq<char>, Seq<char>)| p.0 == highs@[h as int]@ && views(lows@).take(l as int).contains(p.1) && p.0 != p.1,
                    ),
                ),
            decreases lows.len() - l,
        {
            let ghost prev = pair_set(edges@);
            if !str_eq(highs[h].as_str(), lows[l].as_str()) {
                add_edge(edges, highs[h].as_str(), lows[l].as_str());
            }
            assert(views(lows@).take(l + 1) =~= views(lows@).take(l as int).push(lows@[l as int]@));
            assert forall|y: Seq<char>| #[trigger] views(lows@).take(l + 1).contains(y) == (views(lows@).take(l as int).contains(y) || lows@[l as int]@ == y) by {
                push_contains(views(lows@).take(l as int), lows@[l as int]@, y);
            }
            assert(pair_set(edges@) =~= mid.union(
                Set::new(
                    |p: (Seq<char>, Seq<char>)| p.0 == highs@[h as int]@ && views(lows@).take(l + 1).contains(p.1) && p.0 != p.1,
                ),
            ));
            l = l + 1;
        }
        assert(views(lows@).take(lows@.len() as int) =~= views(lows@));
        assert(views(highs@).take(h + 1) =~= views(highs@).take(h as int).push(highs@[h as int]@));
        assert forall|y: Seq<char>| #[trigger] views(highs@).take(h + 1).contains(y) == (views(highs@).take(h as int).contains(y) || highs@[h as int]@ == y) by {
            push_contains(views(highs@).take(h as int), highs@[h as int]@, y);
        }
        assert(pair_set(edges@) =~= start.union(cross_pairs(views(highs@).take(h + 1), views(lows@))));
        h = h + 1;
    }
    assert(views(highs@).take(highs@.len() as int) =~= views(highs@));
}

/// The names of the actions of `actor` that `entry` denotes, in declaration order.
fn resolve(actor: &Actor, entry: &str) -> (res: Vec<String>)
    ensures
        forall|n: Seq<char>| views(res@).contains(n) <==> entry_matches(*actor, n, entry@),
{
    let mut out: Vec<String> = Vec::new();
    let mut k: usize = 0;
    while k < actor.actions.len()
        invariant
            0 <= k <= actor.actions@.len(),
            forall|n: Seq<char>|
                #[trigger] views(out@).contains(n) <==> (n.len() > 0 && tag_matches_text(n, entry@) && exists|m: int|
                    0 <= m < k && #[trigger] actor.actions@[m].name@ == n),
        decreases actor.actions.len() - k,
    {
        let name = actor.actions[k].name.as_str();
        let ghost before = views(out@);
        let keep = name.unicode_len() > 0 && tag_matches(name, entry);
        if keep {
            out.push(owned(name));
            assert(views(out@) =~= before.push(name@));
        }
        assert forall|n: Seq<char>|
            #[trigger] views(out@).contains(n) <==> (n.len() > 0 && tag_matches_text(n, entry@) && exists|m: int|
                0 <= m < k + 1 && #[trigger] actor.actions@[m].name@ == n) by {
            if keep {
                push_contains(before, name@, n);
            }
            if n.len() > 0 && tag_matches_text(n, entry@) && (exists|m: int| 0 <= m < k + 1 && #[trigger] actor.actions@[m].name@ == n) {
                let m = choose|m: int| 0 <= m < k + 1 && #[trigger] actor.actions@[m].name@ == n;
                if m < k {
                    assert(before.contains(n));
                }
            }
            if views(out@).contains(n) && !before.contains(n) {
                assert(actor.actions@[k as int].name@ == n);
            }
        }
        k = k + 1;
    }
    out
}

/// Adds the pairs one priority chain declares.
fn add_chain(edges: &mut Vec<(String, String)>, actor: &Actor, order: &Vec<String>)
    ensures
        pair_set(final(edges)@) == pair_set(old(edges)@).union(chain_pairs(*actor, order@)),
{
    let ghost start = pair_set(edges@);
    let mut resolved: Vec<Vec<String>> = Vec::new();
    let mut e: usize = 0;
    while e < order.len()
        invariant
            0 <= e <= order@.len(),
            resolved@.len() == e,
            forall|k: int, n: Seq<char>| #![trigger views(resolved@[k]@).contains(n)] 0 <= k < e ==> (views(resolved@[k]@).contains(n) <==> entry_matches(*actor, n, order@[k]@)),
        decreases order.len() - e,
    {
        resolved.push(resolve(actor, order[e].as_str()));
        e = e + 1;
    }
    let len = resolved.len();
    let mut r: usize = 0;
    while r < len
        invariant
            len == order@.len(),
            len == resolved@.len(),
            0 <= r <= len,
            forall|k: int, n: Seq<char>| #![trigger views(resolved@[k]@).contains(n)] 0 <= k < len ==> (views(resolved@[k]@).contains(n) <==> entry_matches(*actor, n, order@[k]@)),
            pair_set(edges@) == start.union(
                Set::new(
                    |p: (Seq<char>, Seq<char>)|
                        exists|i: int, j: int|
                            0 <= i < j < len && i < r && entry_matches(*actor, p.0, (#[trigger] order@[i])@) && entry_matches(
                                *actor,
                                p.1,
                                (#[trigger] order@[j])@,
                            ) && p.0 != p.1,
                ),
            ),
        decreases len - r,
    {
        let ghost before_r = pair_set(edges@);
        let mut q: usize = r + 1;
        while q < len
            invariant
                len == order@.len(),
                len == resolved@.len(),
                r < len,
                r + 1 <= q <= len,
                forall|k: int, n: Seq<char>| #![trigger views(resolved@[k]@).contains(n)] 0 <= k < len ==> (views(resolved@[k]@).contains(n) <==> entry_matches(*actor, n, order@[k]@)),
                pair_set(edges@) == before_r.union(
                    Set::new(
                        |p: (Seq<char>, Seq<char>)|
                            exists|j: int|
                                r < j < q && entry_matches(*actor, p.0, order@[r as int]@) && entry_matches(
                                    *actor,
                                    p.1,
                                    (#[trigger] order@[j])@,
                                ) && p.0 != p.1,
                    ),
                ),
            decreases len - q,
        {
            let ghost prev = pair_set(edges@);
            add_pairs(edges, &resolved[r], &resolved[q]);
            assert(pair_set(edges@) =~= before_r.union(
                Set::new(
                    |p: (Seq<char>, Seq<char>)|
                        exists|j: int|
                            r < j < q + 1 && entry_matches(*actor, p.0, order@[r as int]@) && entry_matches(
                                *actor,
                                p.1,
                                (#[trigger] order@[j])@,
                            ) && p.0 != p.1,
                ),
            )) by {
                assert forall|p: (Seq<char>, Seq<char>)| #[trigger] pair_set(edges@).contains(p) implies before_r.contains(p) || (exists|j: int|
                    r < j < q + 1 && entry_matches(*actor, p.0, order@[r as int]@) && entry_matches(*actor, p.1, (#[trigger] order@[j])@)
                        && p.0 != p.1) by {
                    if !prev.contains(p) {
                        assert(cross_pairs(views(resolved@[r as int]@), views(resolved@[q as int]@)).contains(p));
                        assert(entry_matches(*actor, p.1, order@[q as int]@));
                    }
                }
                assert forall|p: (Seq<char>, Seq<char>)| (exists|j: int|
                    r < j < q + 1 && entry_matches(*actor, p.0, order@[r as int]@) && entry_matches(*actor, p.1, (#[trigger] order@[j])@)
                        && p.0 != p.1) implies #[trigger] pair_set(edges@).contains(p) by {
                    let j = choose|j: int|
                        r < j < q + 1 && entry_matches(*actor, p.0, order@[r as int]@) && entry_matches(*actor, p.1, (#[trigger] order@[j])@)
                            && p.0 != p.1;
                    if j == q {
                        assert(views(resolved@[r as int]@).contains(p.0));
                        assert(views(resolved@[q as int]@).contains(p.1));
                        assert(cross_pairs(views(resolved@[r as int]@), views(resolved@[q as int]@)).contains(p));
                    }
                }
            }
            q = q + 1;
        }
        assert(pair_set(edges@) =~= start.union(
            Set::new(
                |p: (Seq<char>, Seq<char>)|
                    exists|i: int, j: int|
                        0 <= i < j < len && i < r + 1 && entry_matches(*actor, p.0, (#[trigger] order@[i])@) && entry_matches(
                            *actor,
                            p.1,
                            (#[trigger] order@[j])@,
                        ) && p.0 != p.1,
            ),
        )) by {
            assert forall|p: (Seq<char>, Seq<char>)| (exists|i: int, j: int|
                0 <= i < j < len && i < r + 1 && entry_matches(*actor, p.0, (#[trigger] order@[i])@) && entry_matches(
                    *actor,
                    p.1,
                    (#[trigger] order@[j])@,
                ) && p.0 != p.1) implies #[trigger] pair_set(edges@).contains(p) by {
                let (i, j) = choose|i: int, j: int|
                    0 <= i < j < len && i < r + 1 && entry_matches(*actor, p.0, (#[trigger] order@[i])@) && entry_matches(
                        *actor,
                        p.1,
                        (#[trigger] order@[j])@,
                    ) && p.0 != p.1;
                if i < r {
                    assert(before_r.contains(p));
                }
            }
        }
        r = r + 1;
    }
    assert(pair_set(edges@) =~= pair_set(old(edges)@).union(chain_pairs(*actor, order@)));
}


/// What the first ready position is when there is one.
pub proof fn first_ready_found(rel: Set<(Seq<char>, Seq<char>)>, names: Seq<Seq<char>>, remaining: Seq<usize>, p: int)
    requires
        0 <= p,
    ensures
        first_ready(rel, names, remaining, p) matches Some(r) ==> p <= r < remaining.len() && is_ready(
            rel,
            names,
            remaining,
            remaining[r],
        ),
        (exists|r: int| p <= r < remaining.len() && 0 <= r && is_ready(rel, names, remaining, #[trigger] remaining[r])) ==> first_ready(
            rel,
            names,
            remaining,
            p,
        ) is Some,
    decreases remaining.len() - p,
{
    if p < remaining.len() {
        first_ready_found(rel, names, remaining, p + 1);
    }
}

/// Removing one item keeps the other items, and no item twice.
pub proof fn remove_keeps(s: Seq<usize>, p: int)
    requires
        0 <= p < s.len(),
    ensures
        forall|x: usize| s.remove(p).contains(x) ==> s.contains(x),
        s.no_duplicates() ==> s.remove(p).no_duplicates(),
        s.no_duplicates() ==> !s.remove(p).contains(s[p]),
        forall|x: usize| s.contains(x) && x != s[p] ==> s.remove(p).contains(x),
{
    s.remove_ensures(p);
    assert forall|x: usize| s.remove(p).contains(x) implies s.contains(x) by {
        let k = choose|k: int| 0 <= k < s.remove(p).len() && s.remove(p)[k] == x;
        if k < p {
            assert(s[k] == x);
        } else {
            assert(s[k + 1] == x);
        }
    }
    if s.no_duplicates() {
        assert forall|a: int, b: int| 0 <= a < s.remove(p).len() && 0 <= b < s.remove(p).len() && a != b implies s.remove(p)[a]
            != s.remove(p)[b] by {
            let a2 = if a < p {
                a
            } else {
                a + 1
            };
            let b2 = if b < p {
                b
            } else {
                b + 1
            };
            assert(s.remove(p)[a] == s[a2] && s.remove(p)[b] == s[b2]);
        }
        if s.remove(p).contains(s[p]) {
            let k = choose|k: int| 0 <= k < s.remove(p).len() && s.remove(p)[k] == s[p];
            if k < p {
                assert(s[k] == s[p]);
            } else {
                assert(s[k + 1] == s[p]);
            }
        }
    }
    assert forall|x: usize| s.contains(x) && x != s[p] implies s.remove(p).contains(x) by {
        let k = choose|k: int| 0 <= k < s.len() && s[k] == x;
        if k < p {
            assert(s.remove(p)[k] == x);
        } else {
            assert(k != p);
            assert(s.remove(p)[k - 1] == x);
        }
    }
}

/// The stable topological order is a rearrangement of what it orders.
pub proof fn order_from_rearranges(rel: Set<(Seq<char>, Seq<char>)>, names: Seq<Seq<char>>, remaining: Seq<usize>)
    ensures
        order_from(rel, names, remaining).len() == remaining.len(),
        forall|x: usize| #[trigger] order_from(rel, names, remaining).contains(x) <==> remaining.contains(x),
        remaining.no_duplicates() ==> order_from(rel, names, remaining).no_duplicates(),
    decreases remaining.len(),
{
    if remaining.len() > 0 {
        match first_ready(rel, names, remaining, 0) {
            Some(p) => {
                if 0 <= p < remaining.len() {
                    let rest = remaining.remove(p);
                    remove_keeps(remaining, p);
                    order_from_rearranges(rel, names, rest);
                    let res = order_from(rel, names, remaining);
                    assert(res == seq![remaining[p]] + order_from(rel, names, rest));
                    assert forall|x: usize| #[trigger] res.contains(x) <==> remaining.contains(x) by {
                        if res.contains(x) {
                            let k = choose|k: int| 0 <= k < res.len() && res[k] == x;
                            if k > 0 {
                                assert(order_from(rel, names, rest)[k - 1] == x);
                                assert(order_from(rel, names, rest).contains(x));
                                assert(rest.contains(x));
                            } else {
                                assert(remaining[p] == x);
                            }
                        }
                        if remaining.contains(x) {
                            if x == remaining[p] {
                                assert(res[0] == x);
                            } else {
                                assert(rest.contains(x));
                                assert(order_from(rel, names, rest).contains(x));
                                let k = choose|k: int| 0 <= k < order_from(rel, names, rest).len() && order_from(rel, names, rest)[k] == x;
                                assert(res[k + 1] == x);
                            }
                        }
                    }
                    if remaining.no_duplicates() {
                        assert forall|a: int, b: int| 0 <= a < res.len() && 0 <= b < res.len() && a != b implies res[a] != res[b] by {
                            if a > 0 && b > 0 {
                                assert(res[a] == order_from(rel, names, rest)[a - 1]);
                                assert(res[b] == order_from(rel, names, rest)[b - 1]);
                            } else if a == 0 {
                                assert(order_from(rel, names, rest).contains(res[b]));
                            } else {
                                assert(order_from(rel, names, rest).contains(res[a]));
                            }
                        }
                    }
                }
            },
            None => {},
        }
    }
}

/// Every index in `s` is below `n`.
pub open spec fn indices_below(s: Set<usize>, n: nat) -> bool {
    forall|x: usize| #[trigger] s.contains(x) ==> x < n
}

/// The candidates have no priority cycle: every nonempty set of their indices
/// holds one that no other index in the set outranks.
pub open spec fn acyclic_among(rel: Set<(Seq<char>, Seq<char>)>, names: Seq<Seq<char>>, n: nat) -> bool {
    forall|s: Set<usize>|
        #[trigger] indices_below(s, n) && s != Set::<usize>::empty() ==> exists|i: usize|
            #[trigger] s.contains(i) && forall|j: usize| #[trigger] s.contains(j) && j != i ==> !rel.contains((names[j as int], names[i as int]))
}

/// Without cycles, the stable topological order never puts an index after one
/// that it outranks.
pub proof fn order_from_respects(rel: Set<(Seq<char>, Seq<char>)>, names: Seq<Seq<char>>, n: nat, remaining: Seq<usize>)
    requires
        acyclic_among(rel, names, n),
        remaining.no_duplicates(),
        forall|k: int| 0 <= k < remaining.len() ==> #[trigger] remaining[k] < n,
    ensures
        forall|a: int, b: int|
            0 <= a < b < order_from(rel, names, remaining).len() ==> !rel.contains(
                (
                    names[(#[trigger] order_from(rel, names, remaining)[b]) as int],
                    names[(#[trigger] order_from(rel, names, remaining)[a]) as int],
                ),
            ),
    decreases remaining.len(),
{
    if remaining.len() > 0 {
        let s = remaining.to_set();
        assert(s.contains(remaining[0]));
        assert forall|x: usize| #[trigger] s.contains(x) implies x < n by {
            let k = choose|k: int| 0 <= k < remaining.len() && remaining[k] == x;
            assert(remaining[k] < n);
        }
        assert(indices_below(s, n));
        let i = choose|i: usize| #[trigger] s.contains(i) && forall|j: usize| #[trigger] s.contains(j) && j != i ==> !rel.contains((names[j as int], names[i as int]));
        let k = choose|k: int| 0 <= k < remaining.len() && remaining[k] == i;
        assert forall|q: int| 0 <= q < remaining.len() && #[trigger] remaining[q] != i implies !rel.contains((names[remaining[q] as int], names[i as int])) by {
            assert(s.contains(remaining[q]));
        }
        assert(is_ready(rel, names, remaining, remaining[k]));
        first_ready_found(rel, names, remaining, 0);
        let p = first_ready(rel, names, remaining, 0)->0;
        let x = remaining[p];
        let rest = remaining.remove(p);
        remove_keeps(remaining, p);
        remaining.remove_ensures(p);
        assert forall|q: int| 0 <= q < rest.len() implies #[trigger] rest[q] < n by {
            if q < p {
                assert(rest[q] == remaining[q]);
            } else {
                assert(rest[q] == remaining[q + 1]);
            }
        }
        order_from_respects(rel, names, n, rest);
        order_from_rearranges(rel, names, rest);
        let res = order_from(rel, names, remaining);
        let tail = order_from(rel, names, rest);
        assert(res == seq![x] + tail);
        assert forall|a: int, b: int| 0 <= a < b < res.len() implies !rel.contains(
            (names[(#[trigger] res[b]) as int], names[(#[trigger] res[a]) as int]),
        ) by {
            if a == 0 {
                assert(res[b] == tail[b - 1]);
                assert(tail.contains(res[b]));
                assert(rest.contains(res[b]));
                let q = choose|q: int| 0 <= q < remaining.len() && remaining[q] == res[b];
                assert(remaining[q] != x);
            } else {
                assert(res[a] == tail[a - 1] && res[b] == tail[b - 1]);
            }
        }
    }
}

/// The order in which an actor tries its candidates is a rearrangement of all
/// of them, each once.
pub proof fn order_is_permutation(rel: Set<(Seq<char>, Seq<char>)>, names: Seq<Seq<char>>, n: nat)
    requires
        n <= usize::MAX,
    ensures
        ({
            let res = order_of(rel, names, n);
            &&& res.len() == n
            &&& res.no_duplicates()
            &&& forall|x: usize| #[trigger] res.contains(x) <==> x < n
        }),
{
    let r = index_range(n);
    index_range_facts(n);
    order_from_rearranges(rel, names, r);
}

/// The indices `0..n` are `n` different indices below `n`.
pub proof fn index_range_facts(n: nat)
    requires
        n <= usize::MAX,
    ensures
        index_range(n).len() == n,
        index_range(n).no_duplicates(),
        forall|x: usize| #[trigger] index_range(n).contains(x) <==> x < n,
        forall|k: int| 0 <= k < index_range(n).len() ==> #[trigger] index_range(n)[k] < n,
{
    let r = index_range(n);
    assert forall|x: usize| #[trigger] r.contains(x) <==> x < n by {
        if x < n {
            assert(r[x as int] == x);
        }
    }
    assert forall|a: int, b: int| 0 <= a < r.len() && 0 <= b < r.len() && a != b implies r[a] != r[b] by {}
}

/// When the priorities have no cycle among the candidates, the actor tries
/// every candidate before each candidate it outranks.
pub proof fn order_respects_priorities(rel: Set<(Seq<char>, Seq<char>)>, names: Seq<Seq<char>>, n: nat)
    requires
        n <= usize::MAX,
        acyclic_among(rel, names, n),
    ensures
        ({
            let res = order_of(rel, names, n);
            forall|a: int, b: int|
                0 <= a < b < res.len() ==> !rel.contains((names[(#[trigger] res[b]) as int], names[(#[trigger] res[a]) as int]))
        }),
{
    let r = index_range(n);
    index_range_facts(n);
    if rel != Set::<(Seq<char>, Seq<char>)>::empty() {
        order_from_respects(rel, names, n, r);
    }
}

/// Without cycles, the stable topological order never gets stuck.
proof fn stuck_from_acyclic(rel: Set<(Seq<char>, Seq<char>)>, names: Seq<Seq<char>>, n: nat, remaining: Seq<usize>)
    requires
        acyclic_among(rel, names, n),
        remaining.no_duplicates(),
        forall|k: int| 0 <= k < remaining.len() ==> #[trigger] remaining[k] < n,
    ensures
        stuck_from(rel, names, remaining).len() == 0,
    decreases remaining.len(),
{
    if remaining.len() > 0 {
        let s = remaining.to_set();
        assert(s.contains(remaining[0]));
        assert forall|x: usize| #[trigger] s.contains(x) implies x < n by {
            let k = choose|k: int| 0 <= k < remaining.len() && remaining[k] == x;
            assert(remaining[k] < n);
        }
        assert(indices_below(s, n));
        let i = choose|i: usize| #[trigger] s.contains(i) && forall|j: usize| #[trigger] s.contains(j) && j != i ==> !rel.contains((names[j as int], names[i as int]));
        let k = choose|k: int| 0 <= k < remaining.len() && remaining[k] == i;
        assert forall|q: int| 0 <= q < remaining.len() && #[trigger] remaining[q] != i implies !rel.contains((names[remaining[q] as int], names[i as int])) by {
            assert(s.contains(remaining[q]));
        }
        assert(is_ready(rel, names, remaining, remaining[k]));
        first_ready_found(rel, names, remaining, 0);
        let p = first_ready(rel, names, remaining, 0)->0;
        let rest = remaining.remove(p);
        remove_keeps(remaining, p);
        remaining.remove_ensures(p);
        assert forall|q: int| 0 <= q < rest.len() implies #[trigger] rest[q] < n by {
            if q < p {
                assert(rest[q] == remaining[q]);
            } else {
                assert(rest[q] == remaining[q + 1]);
            }
        }
        stuck_from_acyclic(rel, names, n, rest);
    }
}

/// Without cycles, some remaining index is ready.
proof fn acyclic_first_ready(rel: Set<(Seq<char>, Seq<char>)>, names: Seq<Seq<char>>, n: nat, remaining: Seq<usize>)
    requires
        acyclic_among(rel, names, n),
        remaining.len() > 0,
        forall|k: int| 0 <= k < remaining.len() ==> #[trigger] remaining[k] < n,
    ensures
        first_ready(rel, names, remaining, 0) matches Some(p) && 0 <= p < remaining.len() && is_ready(
            rel,
            names,
            remaining,
            remaining[p],
        ),
{
    let s = remaining.to_set();
    assert(s.contains(remaining[0]));
    assert forall|x: usize| #[trigger] s.contains(x) implies x < n by {
        let k = choose|k: int| 0 <= k < remaining.len() && remaining[k] == x;
        assert(remaining[k] < n);
    }
    assert(indices_below(s, n));
    let i = choose|i: usize| #[trigger] s.contains(i) && forall|j: usize| #[trigger] s.contains(j) && j != i ==> !rel.contains((names[j as int], names[i as int]));
    let k = choose|k: int| 0 <= k < remaining.len() && remaining[k] == i;
    assert forall|q: int| 0 <= q < remaining.len() && #[trigger] remaining[q] != i implies !rel.contains((names[remaining[q] as int], names[i as int])) by {
        assert(s.contains(remaining[q]));
    }
    assert(is_ready(rel, names, remaining, remaining[k]));
    first_ready_found(rel, names, remaining, 0);
}

/// Each index of `s` comes before every later one.
pub open spec fn increasing(s: Seq<usize>) -> bool {
    forall|a: int, b: int| 0 <= a < b < s.len() ==> #[trigger] s[a] < #[trigger] s[b]
}

/// No other index in `u` outranks index `i`.
pub open spec fn ready_among(rel: Set<(Seq<char>, Seq<char>)>, names: Seq<Seq<char>>, u: Set<usize>, i: usize) -> bool {
    forall|j: usize| #[trigger] u.contains(j) && j != i ==> !rel.contains((names[j as int], names[i as int]))
}

/// The candidates below `n` not among the first `k` of the order `r`.
pub open spec fn unplaced(r: Seq<usize>, n: nat, k: int) -> Set<usize> {
    Set::new(|x: usize| x < n && !r.take(k).contains(x))
}

/// Without cycles, from increasing `remaining` the stable topological order
/// takes at each step the least unplaced index that no other unplaced index
/// outranks.
#[verifier::spinoff_prover]
proof fn order_from_least_ready(rel: Set<(Seq<char>, Seq<char>)>, names: Seq<Seq<char>>, n: nat, remaining: Seq<usize>, k: int)
    requires
        acyclic_among(rel, names, n),
        increasing(remaining),
        forall|q: int| 0 <= q < remaining.len() ==> #[trigger] remaining[q] < n,
        0 <= k < remaining.len(),
    ensures
        ({
            let res = order_from(rel, names, remaining);
            let u = remaining.to_set().difference(res.take(k).to_set());
            &&& u.contains(res[k])
            &&& ready_among(rel, names, u, res[k])
            &&& forall|j: usize| #[trigger] u.contains(j) && j < res[k] ==> !ready_among(rel, names, u, j)
        }),
    decreases remaining.len(),
{
    acyclic_first_ready(rel, names, n, remaining);
    let p = first_ready(rel, names, remaining, 0)->0;
    let x = remaining[p];
    let rest = remaining.remove(p);
    remaining.remove_ensures(p);
    let res = order_from(rel, names, remaining);
    let tail = order_from(rel, names, rest);
    assert(res == seq![x] + tail);
    assert(remaining.no_duplicates()) by {
        assert forall|a: int, b: int| 0 <= a < remaining.len() && 0 <= b < remaining.len() && a != b implies remaining[a] != remaining[b] by {
            if a < b {
                assert(remaining[a] < remaining[b]);
            } else {
                assert(remaining[b] < remaining[a]);
            }
        }
    }
    remove_keeps(remaining, p);
    if k == 0 {
        let u = remaining.to_set().difference(res.take(0).to_set());
        assert(u =~= remaining.to_set());
        assert(remaining.to_set().contains(x));
        assert forall|j: usize| #[trigger] u.contains(j) && j != x implies !rel.contains((names[j as int], names[x as int])) by {
            let q = choose|q: int| 0 <= q < remaining.len() && remaining[q] == j;
            assert(remaining[q] != x);
        }
        assert forall|j: usize| #[trigger] u.contains(j) && j < x implies !ready_among(rel, names, u, j) by {
            let q = choose|q: int| 0 <= q < remaining.len() && remaining[q] == j;
            if q >= p {
                if q > p {
                    assert(remaining[p] < remaining[q]);
                }
            }
            assert(q < p);
            if is_ready(rel, names, remaining, remaining[q]) {
                first_ready_minimal(rel, names, remaining, 0, q);
            }
            assert(!is_ready(rel, names, remaining, j));
            let w = choose|w: int|
                !(0 <= w < remaining.len() && #[trigger] remaining[w] != j ==> !rel.contains((names[remaining[w] as int], names[j as int])));
            assert(u.contains(remaining[w]));
        }
    } else {
        assert(increasing(rest)) by {
            assert forall|a: int, b: int| 0 <= a < b < rest.len() implies #[trigger] rest[a] < #[trigger] rest[b] by {
                let a2 = if a < p { a } else { a + 1 };
                let b2 = if b < p { b } else { b + 1 };
                assert(rest[a] == remaining[a2] && rest[b] == remaining[b2]);
            }
        }
        assert forall|q: int| 0 <= q < rest.len() implies #[trigger] rest[q] < n by {
            if q < p {
                assert(rest[q] == remaining[q]);
            } else {
                assert(rest[q] == remaining[q + 1]);
            }
        }
        order_from_rearranges(rel, names, rest);
        order_from_least_ready(rel, names, n, rest, k - 1);
        let u = remaining.to_set().difference(res.take(k).to_set());
        let v = rest.to_set().difference(tail.take(k - 1).to_set());
        assert(res.take(k) =~= seq![x] + tail.take(k - 1));
        let hk = res.take(k);
        let tk = tail.take(k - 1);
        assert forall|y: usize| u.contains(y) == v.contains(y) by {
            if hk.contains(y) {
                let q = choose|q: int| 0 <= q < hk.len() && hk[q] == y;
                if q > 0 {
                    assert(tk[q - 1] == y);
                }
            }
            if tk.contains(y) {
                let q = choose|q: int| 0 <= q < tk.len() && tk[q] == y;
                assert(hk[q + 1] == y);
            }
            assert(hk[0] == x);
            if remaining.to_set().contains(y) {
                let q = choose|q: int| 0 <= q < remaining.len() && remaining[q] == y;
                assert(remaining.contains(y));
                if y != x {
                    assert(rest.contains(y));
                }
            }
            if rest.to_set().contains(y) {
                assert(rest.contains(y));
                assert(remaining.contains(y));
            }
        }
        assert(u =~= v);
        assert(res[k] == tail[k - 1]);
    }
}

/// The stable order leaves an index unplaced until it is placed.
proof fn index_range_unplaced(r: Seq<usize>, n: nat, k: int)
    requires
        n <= usize::MAX,
        0 <= k <= r.len(),
    ensures
        index_range(n).to_set().difference(r.take(k).to_set()) == unplaced(r, n, k),
{
    index_range_facts(n);
    assert forall|x: usize| index_range(n).to_set().difference(r.take(k).to_set()).contains(x) == unplaced(r, n, k).contains(x) by {
        if x < n {
            assert(index_range(n).contains(x));
        }
    }
    assert(index_range(n).to_set().difference(r.take(k).to_set()) =~= unplaced(r, n, k));
}

/// Index `i` comes before index `j` in `r`.
pub open spec fn comes_before(r: Seq<usize>, i: usize, j: usize) -> bool {
    exists|x: int, y: int| 0 <= x < y < r.len() && r[x] == i && r[y] == j
}

/// No other of the `n` candidates named by `names` outranks candidate `i`.
pub open spec fn unoutranked(rel: Set<(Seq<char>, Seq<char>)>, names: Seq<Seq<char>>, n: nat, i: usize) -> bool {
    forall|k: usize| k < n && k != i ==> !rel.contains((#[trigger] names[k as int], names[i as int]))
}

/// Position `k` of the order `r` holds the least index not placed before it
/// that no other unplaced index outranks.
pub open spec fn placed_least_ready(rel: Set<(Seq<char>, Seq<char>)>, names: Seq<Seq<char>>, r: Seq<usize>, n: nat, k: int) -> bool {
    let u = unplaced(r, n, k);
    &&& u.contains(r[k])
    &&& ready_among(rel, names, u, r[k])
    &&& forall|j: usize| #[trigger] u.contains(j) && j < r[k] ==> !ready_among(rel, names, u, j)
}

/// The order in which an actor tries candidate actions (`Priorities::order`
/// over `Priorities::new`): declaration order when the actor declares no
/// priorities; always each candidate once; when the priorities among the
/// candidates have no cycle, never an action after one it outranks, no
/// warning of a cycle, and at each position the least-declared action not yet
/// placed that no other unplaced one outranks; and an action that no other
/// candidate outranks before every later-declared one.
#[verifier::spinoff_prover]
pub proof fn priority_order_law(actor: Actor, candidates: Seq<Action>)
    requires
        candidates.len() <= usize::MAX,
    ensures
        ({
            let rel = declared_pairs(actor);
            let names = candidate_names(candidates);
            let n = candidates.len();
            let r = try_order(rel, candidates);
            &&& rel == Set::<(Seq<char>, Seq<char>)>::empty() ==> r == index_range(n)
            &&& r.len() == n
            &&& r.no_duplicates()
            &&& forall|x: usize| #[trigger] r.contains(x) <==> x < n
            &&& acyclic_among(rel, names, n) ==> forall|a: int, b: int|
                0 <= a < b < r.len() ==> !rel.contains((names[(#[trigger] r[b]) as int], names[(#[trigger] r[a]) as int]))
            &&& forall|i: usize, j: usize| i < j < n && unoutranked(rel, names, n, i) ==> #[trigger] comes_before(r, i, j)
            &&& acyclic_among(rel, names, n) ==> cycle_warnings(actor.name@, rel, candidates).len() == 0
            &&& acyclic_among(rel, names, n) ==> forall|k: int| 0 <= k < n ==> #[trigger] placed_least_ready(rel, names, r, n, k)
        }),
{
    let rel = declared_pairs(actor);
    let names = candidate_names(candidates);
    let n = candidates.len();
    order_is_permutation(rel, names, n);
    if acyclic_among(rel, names, n) {
        order_respects_priorities(rel, names, n);
        index_range_facts(n);
        stuck_from_acyclic(rel, names, n, index_range(n));
    }
    if acyclic_among(rel, names, n) {
        let r = try_order(rel, candidates);
        index_range_facts(n);
        assert forall|k: int| 0 <= k < n implies #[trigger] placed_least_ready(rel, names, r, n, k) by {
            let u = unplaced(r, n, k);
            if rel == Set::<(Seq<char>, Seq<char>)>::empty() {
                assert(r[k] == k as usize);
                assert(!r.take(k).contains(k as usize)) by {
                    if r.take(k).contains(k as usize) {
                        let q = choose|q: int| 0 <= q < r.take(k).len() && r.take(k)[q] == k as usize;
                        assert(r[q] == q as usize);
                    }
                }
                assert forall|j: usize| #[trigger] u.contains(j) && j < r[k] implies !ready_among(rel, names, u, j) by {
                    assert(r.take(k)[j as int] == j);
                }
            } else {
                let idx = index_range(n);
                assert(increasing(idx));
                order_from_least_ready(rel, names, n, idx, k);
                order_from_rearranges(rel, names, idx);
                index_range_unplaced(r, n, k);
            }
        }
    }
    assert forall|i: usize, j: usize| i < j < n && unoutranked(rel, names, n, i) implies #[trigger] comes_before(
        try_order(rel, candidates),
        i,
        j,
    ) by {
        order_is_stable(rel, names, n, i, j);
    }
}

/// The first ready position from `s` on comes no later than any ready one.
proof fn first_ready_minimal(rel: Set<(Seq<char>, Seq<char>)>, names: Seq<Seq<char>>, remaining: Seq<usize>, s: int, a: int)
    requires
        0 <= s <= a < remaining.len(),
        is_ready(rel, names, remaining, remaining[a]),
    ensures
        first_ready(rel, names, remaining, s) matches Some(r) && s <= r <= a,
    decreases a - s,
{
    if !is_ready(rel, names, remaining, remaining[s]) {
        first_ready_minimal(rel, names, remaining, s + 1, a);
    }
}

/// In the stable topological order, the item at position `a` of `remaining`,
/// outranked by none of the `n` candidates, comes before the item at any later
/// position `b`.
proof fn order_from_stable(rel: Set<(Seq<char>, Seq<char>)>, names: Seq<Seq<char>>, n: nat, remaining: Seq<usize>, a: int, b: int)
    requires
        remaining.no_duplicates(),
        forall|k: int| 0 <= k < remaining.len() ==> #[trigger] remaining[k] < n,
        0 <= a < b < remaining.len(),
        forall|k: usize| k < n && k != remaining[a] ==> !rel.contains((#[trigger] names[k as int], names[remaining[a] as int])),
    ensures
        ({
            let res = order_from(rel, names, remaining);
            exists|x: int, y: int| 0 <= x < y < res.len() && res[x] == remaining[a] && res[y] == remaining[b]
        }),
    decreases remaining.len(),
{
    let i = remaining[a];
    assert forall|q: int| 0 <= q < remaining.len() && #[trigger] remaining[q] != i implies !rel.contains(
        (names[remaining[q] as int], names[i as int]),
    ) by {
        assert(remaining[q] < n);
    }
    first_ready_minimal(rel, names, remaining, 0, a);
    let p = first_ready(rel, names, remaining, 0)->0;
    let rest = remaining.remove(p);
    remove_keeps(remaining, p);
    remaining.remove_ensures(p);
    order_from_rearranges(rel, names, rest);
    let res = order_from(rel, names, remaining);
    let tail = order_from(rel, names, rest);
    assert(res == seq![remaining[p]] + tail);
    if p == a {
        assert(remaining[b] != remaining[a]);
        assert(rest[b - 1] == remaining[b]);
        assert(rest.contains(remaining[b]));
        assert(tail.contains(remaining[b]));
        let y = choose|y: int| 0 <= y < tail.len() && tail[y] == remaining[b];
        assert(res[0] == remaining[a] && res[y + 1] == remaining[b]);
    } else {
        assert(rest[a - 1] == remaining[a]);
        assert(rest[b - 1] == remaining[b]);
        assert forall|k: int| 0 <= k < rest.len() implies #[trigger] rest[k] < n by {
            if k < p {
                assert(rest[k] == remaining[k]);
            } else {
                assert(rest[k] == remaining[k + 1]);
            }
        }
        order_from_stable(rel, names, n, rest, a - 1, b - 1);
        let (x, y) = choose|x: int, y: int| 0 <= x < y < tail.len() && tail[x] == rest[a - 1] && tail[y] == rest[b - 1];
        assert(res[x + 1] == remaining[a] && res[y + 1] == remaining[b]);
    }
}

/// The order is stable: a candidate that no other candidate outranks is tried
/// before every candidate declared after it.
pub proof fn order_is_stable(rel: Set<(Seq<char>, Seq<char>)>, names: Seq<Seq<char>>, n: nat, i: usize, j: usize)
    requires
        n <= usize::MAX,
        i < j < n,
        forall|k: usize| k < n && k != i ==> !rel.contains((#[trigger] names[k as int], names[i as int])),
    ensures
        ({
            let res = order_of(rel, names, n);
            exists|x: int, y: int| 0 <= x < y < res.len() && res[x] == i && res[y] == j
        }),
{
    let r = index_range(n);
    index_range_facts(n);
    assert(r[i as int] == i && r[j as int] == j);
    if rel != Set::<(Seq<char>, Seq<char>)>::empty() {
        order_from_stable(rel, names, n, r, i as int, j as int);
        let res = order_of(rel, names, n);
        assert(res == order_from(rel, names, r));
        let (x, y) = choose|x: int, y: int| 0 <= x < y < res.len() && res[x] == r[i as int] && res[y] == r[j as int];
        assert(res[x] == i && res[y] == j);
    } else {
        let res = order_of(rel, names, n);
        assert(res == r);
        assert(0 <= i < j < res.len() && res[i as int] == i && res[j as int] == j);
    }
}

} // verus!
