//! Where an imported unit is looked for: a dotted import path names a `.cal`
//! file under the source directory, or, failing that, its package does.
use vstd::prelude::*;

use crate::codegen::project::last_dot_at;
use crate::text::{join, push_char, views, views_push};

verus! {

/// The pieces of `s` between the occurrences of `sep`, in order; there is one
/// more piece than separators.
pub open spec fn split_on(s: Seq<char>, sep: char) -> Seq<Seq<char>>
    decreases s.len(),
{
    if s.len() == 0 {
        seq![Seq::empty()]
    } else {
        let rest = split_on(s.drop_last(), sep);
        if s.last() == sep {
            rest.push(Seq::empty())
        } else {
            rest.update(rest.len() - 1, rest.last().push(s.last()))
        }
    }
}

/// Splitting always gives at least one piece.
pub proof fn split_on_nonempty(s: Seq<char>, sep: char)
    ensures
        split_on(s, sep).len() >= 1,
    decreases s.len(),
{
    if s.len() > 0 {
        split_on_nonempty(s.drop_last(), sep);
    }
}

/// The components of a dotted path: its pieces between dots.
pub fn dotted_components(dotted: &str) -> (res: Vec<String>)
    ensures
        views(res@) == split_on(dotted@, '.'),
{
    let n = dotted.unicode_len();
    let mut parts: Vec<String> = Vec::new();
    let mut cur = String::new();
    let mut i: usize = 0;
    while i < n
        invariant
            n == dotted@.len(),
            0 <= i <= n,
            views(parts@).push(cur@) == split_on(dotted@.take(i as int), '.'),
        decreases n - i,
    {
        let c = dotted.get_char(i);
        let ghost before = views(parts@).push(cur@);
        assert(dotted@.take(i + 1).drop_last() =~= dotted@.take(i as int));
        proof {
            split_on_nonempty(dotted@.take(i as int), '.');
        }
        if c == '.' {
            let done = cur;
            let ghost old_parts = parts@;
            proof {
                views_push(old_parts, done);
            }
            parts.push(done);
            cur = String::new();
            assert(views(parts@).push(cur@) =~= before.push(Seq::empty()));
        } else {
            push_char(&mut cur, c);
            assert(views(parts@).push(cur@) =~= before.update(before.len() - 1, before.last().push(c)));
        }
        i = i + 1;
    }
    assert(dotted@.take(n as int) =~= dotted@);
    let ghost old_parts = parts@;
    proof {
        views_push(old_parts, cur);
    }
    parts.push(cur);
    parts
}

/// The package of an import path: what precedes its last dot, if it has one.
pub open spec fn import_package_text(path: Seq<char>) -> Option<Seq<char>> {
    if exists|k: int| last_dot_at(path, k) {
        Some(path.take(choose|k: int| last_dot_at(path, k)))
    } else {
        None
    }
}

/// The package of an import path.
pub fn import_package(path: &str) -> (res: Option<String>)
    ensures
        match res {
            Some(p) => import_package_text(path@) == Some(p@),
            None => import_package_text(path@) is None,
        },
{
    let n = path.unicode_len();
    let mut k: usize = n;
    let mut found = false;
    while k > 0 && !found
        invariant
            n == path@.len(),
            0 <= k <= n,
            found ==> k > 0 && path@[k - 1] == '.',
            forall|j: int| k <= j < n ==> #[trigger] path@[j] != '.',
        decreases k + if found {
            0int
        } else {
            1int
        },
    {
        if path.get_char(k - 1) == '.' {
            found = true;
        } else {
            k = k - 1;
        }
    }
    if !found {
        assert(!exists|q: int| last_dot_at(path@, q));
        return None;
    }
    let dot = k - 1;
    assert(last_dot_at(path@, dot as int));
    proof {
        let q = choose|q: int| last_dot_at(path@, q);
        if q < dot {
            assert(path@[dot as int] != '.');
        }
        if q > dot {
            assert(path@[q] != '.');
        }
    }
    let mut out = String::new();
    let mut i: usize = 0;
    while i < dot
        invariant
            n == path@.len(),
            dot < n,
            0 <= i <= dot,
            out@ == path@.take(i as int),
        decreases dot - i,
    {
        let c = path.get_char(i);
        push_char(&mut out, c);
        assert(path@.take(i + 1) =~= path@.take(i as int).push(c));
        i = i + 1;
    }
    Some(out)
}

/// Extending the last piece extends the joined text.
proof fn join_extend_last(parts: Seq<Seq<char>>, sep: Seq<char>, x: Seq<char>)
    requires
        parts.len() >= 1,
    ensures
        join(parts.update(parts.len() - 1, parts.last() + x), sep) == join(parts, sep) + x,
{
    let q = parts.update(parts.len() - 1, parts.last() + x);
    if parts.len() == 1 {
        assert(join(q, sep) == q[0]);
    } else {
        assert(q.drop_last() =~= parts.drop_last());
        assert(join(q, sep) == join(q.drop_last(), sep) + sep + q.last());
        assert(join(q, sep) =~= join(parts, sep) + x);
    }
}

/// Joining the pieces of a split with the separator gives back the text:
/// splitting a dotted path loses nothing.
pub proof fn split_join(s: Seq<char>, sep: char)
    ensures
        join(split_on(s, sep), seq![sep]) == s,
    decreases s.len(),
{
    if s.len() == 0 {
        assert(join(split_on(s, sep), seq![sep]) =~= s);
    } else {
        let prefix = s.drop_last();
        let c = s.last();
        split_join(prefix, sep);
        split_on_nonempty(prefix, sep);
        let rest = split_on(prefix, sep);
        if c == sep {
            let q = rest.push(Seq::<char>::empty());
            assert(q.drop_last() =~= rest);
            assert(join(q, seq![sep]) == join(rest, seq![sep]) + seq![sep] + Seq::<char>::empty());
            assert(join(q, seq![sep]) =~= s);
        } else {
            join_extend_last(rest, seq![sep], seq![c]);
            assert(rest.last().push(c) =~= rest.last() + seq![c]);
            assert(join(split_on(s, sep), seq![sep]) =~= s);
        }
    }
}

/// No piece of a split holds the separator.
pub proof fn split_pieces_clean(s: Seq<char>, sep: char)
    ensures
        forall|i: int, j: int|
            0 <= i < split_on(s, sep).len() && 0 <= j < split_on(s, sep)[i].len() ==> #[trigger] split_on(s, sep)[i][j] != sep,
    decreases s.len(),
{
    if s.len() > 0 {
        let prefix = s.drop_last();
        split_pieces_clean(prefix, sep);
        split_on_nonempty(prefix, sep);
        let rest = split_on(prefix, sep);
        let all = split_on(s, sep);
        assert forall|i: int, j: int| 0 <= i < all.len() && 0 <= j < all[i].len() implies #[trigger] all[i][j] != sep by {
            if s.last() == sep {
                if i < rest.len() {
                    assert(all[i] == rest[i]);
                }
            } else {
                if i < rest.len() - 1 {
                    assert(all[i] == rest[i]);
                } else {
                    assert(all[i] == rest.last().push(s.last()));
                    if j < rest.last().len() {
                        assert(all[i][j] == rest[rest.len() - 1][j]);
                    }
                }
            }
        }
    }
}

} // verus!
