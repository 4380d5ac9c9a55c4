//! Sets of CAL names: the actor state and the locals in scope while emitting code.
use vstd::prelude::*;

use crate::text::{lex_lt, lex_lt_irreflexive, lex_lt_total, lex_lt_transitive, owned, str_eq, str_lt, views};

verus! {

/// A set of names, kept as a list; a name may occur in it more than once.
pub struct NameSet {
    pub names: Vec<String>,
}

impl View for NameSet {
    type V = Set<Seq<char>>;

    open spec fn view(&self) -> Set<Seq<char>> {
        Set::new(|s: Seq<char>| exists|i: int| 0 <= i < self.names@.len() && #[trigger] self.names@[i]@ == s)
    }
}

impl NameSet {
    /// The empty set.
    pub fn new() -> (res: NameSet)
        ensures
            res@ == Set::<Seq<char>>::empty(),
    {
        let res = NameSet { names: Vec::new() };
        assert(res@ =~= Set::<Seq<char>>::empty());
        res
    }

    /// Whether `name` is in the set.
    pub fn contains(&self, name: &str) -> (res: bool)
        ensures
            res == self@.contains(name@),
    {
        let mut i: usize = 0;
        while i < self.names.len()
            invariant
                0 <= i <= self.names@.len(),
                forall|j: int| 0 <= j < i ==> #[trigger] self.names@[j]@ != name@,
            decreases self.names.len() - i,
        {
            if str_eq(self.names[i].as_str(), name) {
                assert(self.names@[i as int]@ == name@);
                return true;
            }
            i = i + 1;
        }
        false
    }

    /// Adds `name` to the set.
    pub fn insert(&mut self, name: &str)
        ensures
            final(self)@ == old(self)@.insert(name@),
    {
        let ghost before = self.names@;
        self.names.push(owned(name));
        assert forall|s: Seq<char>| #[trigger] self@.contains(s) == old(self)@.insert(name@).contains(s) by {
            if old(self)@.contains(s) {
                let j = choose|j: int| 0 <= j < before.len() && #[trigger] before[j]@ == s;
                assert(self.names@[j]@ == s);
            }
            if self@.contains(s) && s != name@ {
                let j = choose|j: int| 0 <= j < self.names@.len() && #[trigger] self.names@[j]@ == s;
                assert(before[j]@ == s);
            }
            if s == name@ {
                assert(self.names@[before.len() as int]@ == s);
            }
        }
        assert(self@ =~= old(self)@.insert(name@));
    }

    /// A separate set with the same names.
    pub fn duplicate(&self) -> (res: NameSet)
        ensures
            res@ == self@,
    {
        let mut names: Vec<String> = Vec::new();
        let mut i: usize = 0;
        while i < self.names.len()
            invariant
                0 <= i <= self.names@.len(),
                names@.len() == i,
                forall|j: int| 0 <= j < i ==> #[trigger] names@[j]@ == self.names@[j]@,
            decreases self.names.len() - i,
        {
            names.push(owned(self.names[i].as_str()));
            i = i + 1;
        }
        let res = NameSet { names };
        assert forall|s: Seq<char>| #[trigger] res@.contains(s) == self@.contains(s) by {
            if res@.contains(s) {
                let j = choose|j: int| 0 <= j < res.names@.len() && #[trigger] res.names@[j]@ == s;
                assert(self.names@[j]@ == s);
            }
            if self@.contains(s) {
                let j = choose|j: int| 0 <= j < self.names@.len() && #[trigger] self.names@[j]@ == s;
                assert(res.names@[j]@ == s);
            }
        }
        assert(res@ =~= self@);
        res
    }
}


/// The names of the items of `s`.
pub open spec fn names_of<T>(s: Seq<T>, name: spec_fn(T) -> Seq<char>) -> Set<Seq<char>> {
    Set::new(|n: Seq<char>| exists|i: int| 0 <= i < s.len() && #[trigger] name(s[i]) == n)
}

/// The items of `s` whose name did not occur earlier in `s`, in order.
pub open spec fn first_by_name<T>(s: Seq<T>, name: spec_fn(T) -> Seq<char>) -> Seq<T>
    decreases s.len(),
{
    if s.len() == 0 {
        Seq::empty()
    } else {
        let rest = first_by_name(s.drop_last(), name);
        if names_of(s.drop_last(), name).contains(name(s.last())) {
            rest
        } else {
            rest.push(s.last())
        }
    }
}

/// The names of a sequence grown by one item.
pub proof fn names_of_push<T>(s: Seq<T>, x: T, name: spec_fn(T) -> Seq<char>)
    ensures
        names_of(s.push(x), name) == names_of(s, name).insert(name(x)),
{
    let a = names_of(s.push(x), name);
    let b = names_of(s, name).insert(name(x));
    assert forall|n: Seq<char>| #[trigger] a.contains(n) == b.contains(n) by {
        if a.contains(n) {
            let j = choose|j: int| 0 <= j < s.push(x).len() && #[trigger] name(s.push(x)[j]) == n;
            if j < s.len() {
                assert(name(s[j]) == n);
            }
        }
        if b.contains(n) {
            if n == name(x) {
                assert(name(s.push(x)[s.len() as int]) == n);
            } else {
                let j = choose|j: int| 0 <= j < s.len() && #[trigger] name(s[j]) == n;
                assert(name(s.push(x)[j]) == n);
            }
        }
    }
    assert(a =~= b);
}

/// The first-occurrence items of a sequence grown by one item.
pub proof fn first_by_name_push<T>(s: Seq<T>, x: T, name: spec_fn(T) -> Seq<char>)
    ensures
        first_by_name(s.push(x), name) == if names_of(s, name).contains(name(x)) {
            first_by_name(s, name)
        } else {
            first_by_name(s, name).push(x)
        },
{
    assert(s.push(x).drop_last() =~= s);
}

/// Keeping the first item of each name keeps every name once: the kept items
/// have pairwise different names, and exactly the names of the whole sequence.
pub proof fn first_by_name_unique<T>(s: Seq<T>, name: spec_fn(T) -> Seq<char>)
    ensures
        names_of(first_by_name(s, name), name) == names_of(s, name),
        forall|i: int, j: int|
            0 <= i < j < first_by_name(s, name).len() ==> name(#[trigger] first_by_name(s, name)[i]) != name(
                #[trigger] first_by_name(s, name)[j],
            ),
    decreases s.len(),
{
    if s.len() > 0 {
        let prefix = s.drop_last();
        let x = s.last();
        first_by_name_unique(prefix, name);
        assert(prefix.push(x) =~= s);
        names_of_push(prefix, x, name);
        let rest = first_by_name(prefix, name);
        if !names_of(prefix, name).contains(name(x)) {
            names_of_push(rest, x, name);
            let k = rest.push(x);
            assert forall|i: int, j: int| 0 <= i < j < k.len() implies name(#[trigger] k[i]) != name(#[trigger] k[j]) by {
                if j == rest.len() {
                    assert(k[i] == rest[i]);
                    assert(names_of(rest, name).contains(name(rest[i])));
                } else {
                    assert(k[i] == rest[i] && k[j] == rest[j]);
                }
            }
        }
    } else {
        assert(names_of(first_by_name(s, name), name) =~= names_of(s, name));
    }
}


/// No item before position `p` of `s` has the name of the item at `p`.
pub open spec fn first_of_its_name<T>(s: Seq<T>, name: spec_fn(T) -> Seq<char>, p: int) -> bool {
    forall|q: int| 0 <= q < p ==> name(#[trigger] s[q]) != name(s[p])
}

/// Each kept item is the first item of its name in the whole sequence: later
/// items of a name already seen are dropped.
pub proof fn first_by_name_keeps_firsts<T>(s: Seq<T>, name: spec_fn(T) -> Seq<char>)
    ensures
        forall|k: int|
            0 <= k < first_by_name(s, name).len() ==> exists|p: int|
                0 <= p < s.len() && s[p] == #[trigger] first_by_name(s, name)[k] && first_of_its_name(s, name, p),
    decreases s.len(),
{
    if s.len() > 0 {
        let prefix = s.drop_last();
        let x = s.last();
        first_by_name_keeps_firsts(prefix, name);
        let rest = first_by_name(prefix, name);
        let kept = first_by_name(s, name);
        assert forall|k: int| 0 <= k < kept.len() implies exists|p: int|
            0 <= p < s.len() && s[p] == #[trigger] kept[k] && first_of_its_name(s, name, p) by {
            if k < rest.len() {
                assert(kept[k] == rest[k]);
                let p = choose|p: int| 0 <= p < prefix.len() && prefix[p] == #[trigger] rest[k] && first_of_its_name(prefix, name, p);
                assert(s[p] == prefix[p]);
                assert forall|q: int| 0 <= q < p implies name(#[trigger] s[q]) != name(s[p]) by {
                    assert(s[q] == prefix[q]);
                }
            } else {
                let p = s.len() - 1;
                assert(kept[k] == x);
                assert forall|q: int| 0 <= q < p implies name(#[trigger] s[q]) != name(s[p]) by {
                    assert(s[q] == prefix[q]);
                    if name(prefix[q]) == name(x) {
                        assert(names_of(prefix, name).contains(name(x)));
                    }
                }
            }
        }
    }
}

/// Each name comes strictly before the next.
pub open spec fn strictly_sorted(q: Seq<Seq<char>>) -> bool {
    forall|i: int, j: int| 0 <= i < j < q.len() ==> lex_lt(#[trigger] q[i], #[trigger] q[j])
}

/// The names of a finite set in increasing order.
pub open spec fn sorted_names(s: Set<Seq<char>>) -> Seq<Seq<char>> {
    choose|q: Seq<Seq<char>>| strictly_sorted(q) && q.to_set() == s
}

/// A strictly sorted sequence is determined by the set of its names.
pub proof fn sorted_names_unique(q: Seq<Seq<char>>, s: Set<Seq<char>>)
    requires
        strictly_sorted(q),
        q.to_set() == s,
    ensures
        sorted_names(s) == q,
{
    let r = sorted_names(s);
    sorted_equal(q, r);
}

/// `q` with `x` put before the first name not below it, unless already there.
pub open spec fn sorted_insert(q: Seq<Seq<char>>, x: Seq<char>) -> Seq<Seq<char>>
    decreases q.len(),
{
    if q.len() == 0 {
        seq![x]
    } else if q[0] == x {
        q
    } else if lex_lt(x, q[0]) {
        seq![x] + q
    } else {
        seq![q[0]] + sorted_insert(q.drop_first(), x)
    }
}

/// Inserting into a strictly sorted list keeps it strictly sorted and adds
/// just the new name.
pub proof fn sorted_insert_keeps_order(q: Seq<Seq<char>>, x: Seq<char>)
    requires
        strictly_sorted(q),
    ensures
        strictly_sorted(sorted_insert(q, x)),
        sorted_insert(q, x).to_set() == q.to_set().insert(x),
    decreases q.len(),
{
    let r = sorted_insert(q, x);
    if q.len() == 0 {
        assert(r.to_set() =~= q.to_set().insert(x)) by {
            assert(r[0] == x);
        }
    } else if q[0] == x {
        assert(q.to_set().contains(q[0]));
        assert(q.to_set().insert(x) =~= q.to_set());
    } else if lex_lt(x, q[0]) {
        assert forall|i: int, j: int| 0 <= i < j < r.len() implies lex_lt(#[trigger] r[i], #[trigger] r[j]) by {
            if i == 0 {
                assert(r[j] == q[j - 1]);
                if j > 1 {
                    lex_lt_transitive(x, q[0], q[j - 1]);
                }
            } else {
                assert(r[i] == q[i - 1] && r[j] == q[j - 1]);
            }
        }
        assert forall|n: Seq<char>| r.to_set().contains(n) == q.to_set().insert(x).contains(n) by {
            if r.to_set().contains(n) {
                let k = choose|k: int| 0 <= k < r.len() && r[k] == n;
                if k > 0 {
                    assert(q[k - 1] == n);
                }
            }
            if q.to_set().contains(n) {
                let k = choose|k: int| 0 <= k < q.len() && q[k] == n;
                assert(r[k + 1] == n);
            }
            if n == x {
                assert(r[0] == n);
            }
        }
        assert(r.to_set() =~= q.to_set().insert(x));
    } else {
        lex_lt_total(x, q[0]);
        let t = q.drop_first();
        assert(strictly_sorted(t)) by {
            assert forall|i: int, j: int| 0 <= i < j < t.len() implies lex_lt(#[trigger] t[i], #[trigger] t[j]) by {
                assert(t[i] == q[i + 1] && t[j] == q[j + 1]);
            }
        }
        sorted_insert_keeps_order(t, x);
        let rest = sorted_insert(t, x);
        assert(r == seq![q[0]] + rest);
        assert forall|i: int, j: int| 0 <= i < j < r.len() implies lex_lt(#[trigger] r[i], #[trigger] r[j]) by {
            if i == 0 {
                assert(r[j] == rest[j - 1]);
                assert(rest.to_set().contains(rest[j - 1]));
                if rest[j - 1] != x {
                    let k = choose|k: int| 0 <= k < t.len() && t[k] == rest[j - 1];
                    assert(q[k + 1] == t[k]);
                }
            } else {
                assert(r[i] == rest[i - 1] && r[j] == rest[j - 1]);
            }
        }
        assert forall|n: Seq<char>| r.to_set().contains(n) == q.to_set().insert(x).contains(n) by {
            if r.to_set().contains(n) {
                let k = choose|k: int| 0 <= k < r.len() && r[k] == n;
                if k == 0 {
                    assert(q[0] == n);
                } else {
                    assert(rest[k - 1] == n);
                    assert(rest.to_set().contains(n));
                    if n != x {
                        let m = choose|m: int| 0 <= m < t.len() && t[m] == n;
                        assert(q[m + 1] == n);
                    }
                }
            }
            if q.to_set().contains(n) {
                let k = choose|k: int| 0 <= k < q.len() && q[k] == n;
                if k == 0 {
                    assert(r[0] == n);
                } else {
                    assert(t[k - 1] == n);
                    assert(t.to_set().contains(n));
                    assert(rest.to_set().contains(n));
                    let m = choose|m: int| 0 <= m < rest.len() && rest[m] == n;
                    assert(r[m + 1] == n);
                }
            }
            if n == x {
                assert(rest.to_set().contains(x));
                let m = choose|m: int| 0 <= m < rest.len() && rest[m] == x;
                assert(r[m + 1] == x);
            }
        }
        assert(r.to_set() =~= q.to_set().insert(x));
    }
}

/// The names of `q`, sorted by insertion.
pub open spec fn sorted_of(q: Seq<Seq<char>>) -> Seq<Seq<char>>
    decreases q.len(),
{
    if q.len() == 0 {
        Seq::empty()
    } else {
        sorted_insert(sorted_of(q.drop_last()), q.last())
    }
}

proof fn sorted_of_sorts(q: Seq<Seq<char>>)
    ensures
        strictly_sorted(sorted_of(q)),
        sorted_of(q).to_set() == q.to_set(),
    decreases q.len(),
{
    if q.len() == 0 {
        assert(q.to_set() =~= Set::<Seq<char>>::empty());
        assert(sorted_of(q).to_set() =~= Set::<Seq<char>>::empty());
    } else {
        let p = q.drop_last();
        sorted_of_sorts(p);
        sorted_insert_keeps_order(sorted_of(p), q.last());
        assert forall|n: Seq<char>| q.to_set().contains(n) == p.to_set().insert(q.last()).contains(n) by {
            if q.to_set().contains(n) {
                let k = choose|k: int| 0 <= k < q.len() && q[k] == n;
                if k < p.len() {
                    assert(p[k] == n);
                }
            }
            if p.to_set().contains(n) {
                let k = choose|k: int| 0 <= k < p.len() && p[k] == n;
                assert(q[k] == n);
            }
            if n == q.last() {
                assert(q[q.len() - 1] == n);
            }
        }
        assert(q.to_set() =~= p.to_set().insert(q.last()));
    }
}

/// The names listed by any sequence, in increasing order, list each of them
/// once and nothing else.
pub proof fn sorted_names_of_listing(q: Seq<Seq<char>>)
    ensures
        strictly_sorted(sorted_names(q.to_set())),
        sorted_names(q.to_set()).to_set() == q.to_set(),
        sorted_names(q.to_set()).no_duplicates(),
{
    sorted_of_sorts(q);
    sorted_names_unique(sorted_of(q), q.to_set());
    let r = sorted_names(q.to_set());
    assert forall|i: int, j: int| 0 <= i < r.len() && 0 <= j < r.len() && i != j implies r[i] != r[j] by {
        lex_lt_irreflexive(r[i]);
        if i < j {
            assert(lex_lt(r[i], r[j]));
        } else {
            assert(lex_lt(r[j], r[i]));
        }
    }
}

proof fn sorted_equal(a: Seq<Seq<char>>, b: Seq<Seq<char>>)
    requires
        strictly_sorted(a),
        strictly_sorted(b),
        a.to_set() == b.to_set(),
    ensures
        a == b,
    decreases a.len(),
{
    if a.len() == 0 {
        if b.len() > 0 {
            assert(b.to_set().contains(b[0]));
        }
        assert(a =~= b);
    } else if b.len() == 0 {
        assert(a.to_set().contains(a[0]));
    } else {
        assert(a.to_set().contains(b[0]));
        assert(b.to_set().contains(a[0]));
        let ia = choose|i: int| 0 <= i < a.len() && a[i] == b[0];
        let ib = choose|i: int| 0 <= i < b.len() && b[i] == a[0];
        lex_lt_irreflexive(a[0]);
        if a[0] != b[0] {
            assert(ia > 0 && ib > 0);
            assert(lex_lt(a[0], a[ia]));
            assert(lex_lt(b[0], b[ib]));
            lex_lt_transitive(a[0], b[0], a[0]);
        }
        let a2 = a.drop_first();
        let b2 = b.drop_first();
        assert forall|x: Seq<char>| a2.to_set().contains(x) == b2.to_set().contains(x) by {
            if a2.to_set().contains(x) {
                let i = choose|i: int| 0 <= i < a2.len() && a2[i] == x;
                assert(a[i + 1] == x);
                assert(lex_lt(a[0], x));
                lex_lt_irreflexive(x);
                assert(b.to_set().contains(x));
                let j = choose|j: int| 0 <= j < b.len() && b[j] == x;
                assert(j != 0);
                assert(b2[j - 1] == x);
            }
            if b2.to_set().contains(x) {
                let i = choose|i: int| 0 <= i < b2.len() && b2[i] == x;
                assert(b[i + 1] == x);
                assert(lex_lt(b[0], x));
                lex_lt_irreflexive(x);
                assert(a.to_set().contains(x));
                let j = choose|j: int| 0 <= j < a.len() && a[j] == x;
                assert(j != 0);
                assert(a2[j - 1] == x);
            }
        }
        assert(a2.to_set() =~= b2.to_set());
        assert forall|i: int, j: int| 0 <= i < j < a2.len() implies lex_lt(#[trigger] a2[i], #[trigger] a2[j]) by {
            assert(lex_lt(a[i + 1], a[j + 1]));
        }
        assert forall|i: int, j: int| 0 <= i < j < b2.len() implies lex_lt(#[trigger] b2[i], #[trigger] b2[j]) by {
            assert(lex_lt(b[i + 1], b[j + 1]));
        }
        sorted_equal(a2, b2);
        assert(a[0] == b[0]);
        assert(a =~= seq![a[0]] + a2);
        assert(b =~= seq![b[0]] + b2);
    }
}

/// Adds `name` to a strictly sorted list of names, keeping it strictly sorted.
pub fn insert_sorted(v: &mut Vec<String>, name: &str)
    requires
        strictly_sorted(views(old(v)@)),
    ensures
        strictly_sorted(views(final(v)@)),
        views(final(v)@).to_set() == views(old(v)@).to_set().insert(name@),
{
    let ghost before = views(v@);
    let n = v.len();
    let mut i: usize = 0;
    while i < n
        invariant
            n == v@.len(),
            views(v@) == before,
            0 <= i <= n,
            forall|j: int| 0 <= j < i ==> lex_lt(#[trigger] before[j], name@),
        ensures
            0 <= i <= n,
            views(v@) == before,
            forall|j: int| 0 <= j < i ==> lex_lt(#[trigger] before[j], name@),
            i < n ==> !lex_lt(before[i as int], name@),
        decreases n - i,
    {
        if !str_lt(v[i].as_str(), name) {
            break;
        }
        i = i + 1;
    }
    if i < n && str_eq(v[i].as_str(), name) {
        assert(before.to_set().insert(name@) =~= before.to_set()) by {
            assert(before[i as int] == name@);
        }
        return;
    }
    proof {
        if i < n {
            lex_lt_total(before[i as int], name@);
        }
    }
    v.insert(i, owned(name));
    let ghost after = views(v@);
    assert(after =~= before.insert(i as int, name@));
    proof {
        before.insert_ensures(i as int, name@);
    }
    assert forall|x: int, y: int| 0 <= x < y < after.len() implies lex_lt(#[trigger] after[x], #[trigger] after[y]) by {
        if y < i {
        } else if y == i {
        } else if x == i {
            assert(after[y] == before[y - 1]);
            if y - 1 > i {
                lex_lt_transitive(name@, before[i as int], before[y - 1]);
            }
        } else if x < i {
            assert(after[y] == before[y - 1]);
        } else {
            assert(after[x] == before[x - 1] && after[y] == before[y - 1]);
        }
    }
    assert forall|x: Seq<char>| after.to_set().contains(x) == before.to_set().insert(name@).contains(x) by {
        if after.to_set().contains(x) {
            let k = choose|k: int| 0 <= k < after.len() && after[k] == x;
            if k < i {
                assert(before[k] == x);
            } else if k > i {
                assert(before[k - 1] == x);
            }
        }
        if before.to_set().contains(x) {
            let k = choose|k: int| 0 <= k < before.len() && before[k] == x;
            if k < i {
                assert(after[k] == x);
            } else {
                assert(after[k + 1] == x);
            }
        }
        if x == name@ {
            assert(after[i as int] == x);
        }
    }
    assert(after.to_set() =~= before.to_set().insert(name@));
}

} // verus!
