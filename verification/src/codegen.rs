//! Code generation: turns a network and its actor classes into the files of a
//! Cargo project, for one of several scheduling backends.
pub mod common;
pub mod layout;
pub mod naive;
pub mod orcc;
pub mod project;
pub mod rayon;
pub mod syntax;
pub mod threads;
pub mod tokio;

use vstd::prelude::*;

use crate::ast::{Actor, NativeFunction, NativeProcedure, Unit};
use crate::codegen::layout::{actor_files, file_views};
use crate::codegen::naive::{naive_main_file_text, Naive};
use crate::codegen::rayon::{rayon_main_file_text, Rayon, RAYON_DEPS};
use crate::codegen::threads::{threads_main_file_text, Threads, THREADS_DEPS};
use crate::codegen::tokio::{tokio_main_file_text, Tokio, TOKIO_DEPS};
use crate::network::Network;
use crate::text::{decimal, decimal_string, owned, lex_lt, lex_lt_irreflexive, lex_lt_total, lex_lt_transitive, str_eq, str_lt};

verus! {

/// The actor classes of a program, by class name; the entries are kept in
/// increasing order of class name, so each class name occurs once.
pub struct ActorMap {
    pub entries: Vec<(String, Box<Actor>)>,
}

impl ActorMap {
    /// The class names are strictly increasing.
    pub open spec fn wf(&self) -> bool {
        forall|i: int, j: int| 0 <= i < j < self.entries@.len() ==> lex_lt(#[trigger] self.entries@[i].0@, #[trigger] self.entries@[j].0@)
    }

    /// The map from class name to actor.
    pub open spec fn to_map(&self) -> Map<Seq<char>, Actor> {
        Map::new(
            |k: Seq<char>| exists|i: int| 0 <= i < self.entries@.len() && #[trigger] self.entries@[i].0@ == k,
            |k: Seq<char>| *self.entries@[choose|i: int| 0 <= i < self.entries@.len() && #[trigger] self.entries@[i].0@ == k].1,
        )
    }

    /// The empty map.
    pub fn new() -> (res: ActorMap)
        ensures
            res.wf(),
            res.entries@.len() == 0,
            res.to_map() == Map::<Seq<char>, Actor>::empty(),
    {
        let res = ActorMap { entries: Vec::new() };
        assert(res.to_map() =~= Map::<Seq<char>, Actor>::empty());
        res
    }

    /// The number of classes.
    pub fn len(&self) -> (res: usize)
        ensures
            res == self.entries@.len(),
    {
        self.entries.len()
    }

    /// The position of `class`, if it is in the map.
    pub fn find(&self, class: &str) -> (res: Option<usize>)
        requires
            self.wf(),
        ensures
            res matches Some(i) ==> i < self.entries@.len() && self.entries@[i as int].0@ == class@,
            res is None ==> forall|i: int| 0 <= i < self.entries@.len() ==> #[trigger] self.entries@[i].0@ != class@,
    {
        let mut i: usize = 0;
        while i < self.entries.len()
            invariant
                0 <= i <= self.entries@.len(),
                forall|j: int| 0 <= j < i ==> #[trigger] self.entries@[j].0@ != class@,
            decreases self.entries.len() - i,
        {
            if str_eq(self.entries[i].0.as_str(), class) {
                return Some(i);
            }
            i = i + 1;
        }
        None
    }

    /// Whether `class` is in the map.
    pub fn contains_key(&self, class: &str) -> (res: bool)
        requires
            self.wf(),
        ensures
            res == self.to_map().contains_key(class@),
    {
        match self.find(class) {
            Some(i) => {
                assert(self.to_map().dom().contains(class@));
                true
            },
            None => false,
        }
    }

    /// The actor of `class`, if it is in the map.
    pub fn get(&self, class: &str) -> (res: Option<&Actor>)
        requires
            self.wf(),
        ensures
            res matches Some(a) ==> self.to_map().contains_key(class@) && *a == self.to_map()[class@],
            res is None ==> !self.to_map().contains_key(class@),
    {
        match self.find(class) {
            Some(i) => {
                proof {
                    self.lemma_unique(i as int);
                }
                Some(&*self.entries[i].1)
            },
            None => None,
        }
    }

    /// Whether the class names are strictly increasing, as every map built by
    /// `new` and `insert` keeps them.
    pub fn is_sorted(&self) -> (res: bool)
        ensures
            res == self.wf(),
    {
        let n = self.entries.len();
        if n == 0 {
            return true;
        }
        let mut i: usize = 1;
        while i < n
            invariant
                n == self.entries@.len(),
                1 <= i <= n,
                forall|a: int, b: int| 0 <= a < b < i ==> lex_lt(#[trigger] self.entries@[a].0@, #[trigger] self.entries@[b].0@),
            decreases n - i,
        {
            if !str_lt(self.entries[i - 1].0.as_str(), self.entries[i].0.as_str()) {
                return false;
            }
            assert forall|a: int, b: int| 0 <= a < b < i + 1 implies lex_lt(#[trigger] self.entries@[a].0@, #[trigger] self.entries@[b].0@) by {
                if b == i && a < i - 1 {
                    lex_lt_transitive(self.entries@[a].0@, self.entries@[i - 1].0@, self.entries@[b].0@);
                }
            }
            i = i + 1;
        }
        true
    }

    /// In a well-formed map, the entry of a class is the one the map view picks.
    pub proof fn lemma_unique(&self, i: int)
        requires
            self.wf(),
            0 <= i < self.entries@.len(),
        ensures
            self.to_map().contains_key(self.entries@[i].0@),
            self.to_map()[self.entries@[i].0@] == *self.entries@[i].1,
    {
        let k = self.entries@[i].0@;
        assert(self.to_map().dom().contains(k));
        let j = choose|j: int| 0 <= j < self.entries@.len() && #[trigger] self.entries@[j].0@ == k;
        lex_lt_irreflexive(k);
        if j < i {
            assert(lex_lt(self.entries@[j].0@, self.entries@[i].0@));
        } else if i < j {
            assert(lex_lt(self.entries@[i].0@, self.entries@[j].0@));
        }
        assert(j == i);
    }

    /// Adds `actor` as class `class`, replacing any actor the class had.
    pub fn insert(&mut self, class: String, actor: Box<Actor>)
        requires
            old(self).wf(),
        ensures
            final(self).wf(),
            final(self).to_map() == old(self).to_map().insert(class@, *actor),
    {
        let ghost k = class@;
        let ghost a = *actor;
        let ghost before = self.entries@;
        let n = self.entries.len();
        let mut i: usize = 0;
        while i < n
            invariant
                n == self.entries@.len(),
                self.entries@ == before,
                k == class@,
                0 <= i <= n,
                forall|j: int| 0 <= j < i ==> lex_lt(#[trigger] self.entries@[j].0@, k),
            ensures
                0 <= i <= n,
                self.entries@ == before,
                forall|j: int| 0 <= j < i ==> lex_lt(#[trigger] self.entries@[j].0@, k),
                i < n ==> !lex_lt(before[i as int].0@, k),
            decreases n - i,
        {
            if !str_lt(self.entries[i].0.as_str(), class.as_str()) {
                break;
            }
            i = i + 1;
        }
        if i < n && str_eq(self.entries[i].0.as_str(), class.as_str()) {
            self.entries.set(i, (class, actor));
            assert forall|x: int, y: int| 0 <= x < y < self.entries@.len() implies lex_lt(
                #[trigger] self.entries@[x].0@,
                #[trigger] self.entries@[y].0@,
            ) by {
                assert(before[x].0@ == self.entries@[x].0@ || x == i);
                assert(before[y].0@ == self.entries@[y].0@ || y == i);
            }
            assert forall|kk: Seq<char>| #[trigger] self.to_map().contains_key(kk) == old(self).to_map().insert(k, a).contains_key(kk) by {
                if self.to_map().contains_key(kk) {
                    let j = choose|j: int| 0 <= j < self.entries@.len() && #[trigger] self.entries@[j].0@ == kk;
                    if j != i {
                        assert(before[j].0@ == kk);
                    }
                }
                if old(self).to_map().contains_key(kk) {
                    let j = choose|j: int| 0 <= j < before.len() && #[trigger] before[j].0@ == kk;
                    assert(self.entries@[j].0@ == kk);
                }
                if kk == k {
                    assert(self.entries@[i as int].0@ == kk);
                }
            }
            assert forall|kk: Seq<char>| #[trigger] self.to_map().contains_key(kk) implies self.to_map()[kk] == old(self).to_map().insert(k, a)[kk] by {
                let j = choose|j: int| 0 <= j < self.entries@.len() && #[trigger] self.entries@[j].0@ == kk;
                self.lemma_unique(j);
                if j != i {
                    assert(before[j] == self.entries@[j]);
                    old(self).lemma_unique(j);
                    lex_lt_irreflexive(kk);
                    if j < i {
                        assert(lex_lt(before[j].0@, before[i as int].0@));
                    } else {
                        assert(lex_lt(before[i as int].0@, before[j].0@));
                    }
                    assert(kk != k);
                }
            }
            assert(self.to_map() =~= old(self).to_map().insert(k, a));
        } else {
            proof {
                if i < n {
                    lex_lt_total(before[i as int].0@, k);
                    assert(lex_lt(k, before[i as int].0@));
                }
            }
            self.entries.insert(i, (class, actor));
            proof {
                before.insert_ensures(i as int, self.entries@[i as int]);
            }
            assert forall|x: int, y: int| 0 <= x < y < self.entries@.len() implies lex_lt(
                #[trigger] self.entries@[x].0@,
                #[trigger] self.entries@[y].0@,
            ) by {
                if y < i {
                    assert(self.entries@[x] == before[x] && self.entries@[y] == before[y]);
                } else if y == i {
                    assert(self.entries@[x] == before[x]);
                } else if x == i {
                    assert(self.entries@[y] == before[y - 1]);
                    if y - 1 > i {
                        assert(lex_lt(before[i as int].0@, before[y - 1].0@));
                        lex_lt_transitive(k, before[i as int].0@, before[y - 1].0@);
                    }
                } else if x < i {
                    assert(self.entries@[x] == before[x] && self.entries@[y] == before[y - 1]);
                } else {
                    assert(self.entries@[x] == before[x - 1] && self.entries@[y] == before[y - 1]);
                }
            }
            assert forall|kk: Seq<char>| #[trigger] self.to_map().contains_key(kk) == old(self).to_map().insert(k, a).contains_key(kk) by {
                if self.to_map().contains_key(kk) {
                    let j = choose|j: int| 0 <= j < self.entries@.len() && #[trigger] self.entries@[j].0@ == kk;
                    if j < i {
                        assert(before[j].0@ == kk);
                    } else if j > i {
                        assert(before[j - 1].0@ == kk);
                    }
                }
                if old(self).to_map().contains_key(kk) {
                    let j = choose|j: int| 0 <= j < before.len() && #[trigger] before[j].0@ == kk;
                    if j < i {
                        assert(self.entries@[j].0@ == kk);
                    } else {
                        assert(self.entries@[j + 1].0@ == kk);
                    }
                }
                if kk == k {
                    assert(self.entries@[i as int].0@ == kk);
                }
            }
            assert forall|kk: Seq<char>| #[trigger] self.to_map().contains_key(kk) implies self.to_map()[kk] == old(self).to_map().insert(k, a)[kk] by {
                let j = choose|j: int| 0 <= j < self.entries@.len() && #[trigger] self.entries@[j].0@ == kk;
                self.lemma_unique(j);
                lex_lt_irreflexive(kk);
                if j < i {
                    assert(before[j] == self.entries@[j]);
                    old(self).lemma_unique(j);
                    assert(lex_lt(before[j].0@, k));
                } else if j > i {
                    assert(before[j - 1] == self.entries@[j]);
                    old(self).lemma_unique(j - 1);
                    if j - 1 > i {
                        assert(lex_lt(before[i as int].0@, before[j - 1].0@));
                        lex_lt_transitive(k, before[i as int].0@, before[j - 1].0@);
                    }
                    assert(lex_lt(k, kk));
                }
            }
            assert(self.to_map() =~= old(self).to_map().insert(k, a));
        }
    }
}


/// Everything a backend generates from: the network, its actor classes by
/// class name, the units they import, and the native sources found.
pub struct Program<'a> {
    pub network: &'a Network,
    pub actors: &'a ActorMap,
    pub units: &'a [Unit],
    pub native_sources: &'a [String],
}

/// A declaration list holds native functions or procedures.
pub open spec fn uses_native(fns: Seq<NativeFunction>, procs: Seq<NativeProcedure>) -> bool {
    fns.len() != 0 || procs.len() != 0
}

impl<'a> Program<'a> {
    /// Some actor class or unit declares a native function or procedure.
    pub open spec fn spec_has_natives(&self) -> bool {
        (exists|i: int| 0 <= i < self.actors.entries@.len() && uses_native(
            (#[trigger] self.actors.entries@[i]).1.native_functions@,
            self.actors.entries@[i].1.native_procedures@,
        )) || (exists|i: int| 0 <= i < self.units@.len() && uses_native(
            (#[trigger] self.units@[i]).native_functions@,
            self.units@[i].native_procedures@,
        ))
    }

    /// Whether some actor class or unit declares a native function or procedure.
    pub fn has_natives(&self) -> (res: bool)
        ensures
            res == self.spec_has_natives(),
    {
        let mut i: usize = 0;
        while i < self.actors.entries.len()
            invariant
                0 <= i <= self.actors.entries@.len(),
                forall|j: int| 0 <= j < i ==> !uses_native(
                    (#[trigger] self.actors.entries@[j]).1.native_functions@,
                    self.actors.entries@[j].1.native_procedures@,
                ),
            decreases self.actors.entries.len() - i,
        {
            let a = &self.actors.entries[i].1;
            if a.native_functions.len() != 0 || a.native_procedures.len() != 0 {
                assert(uses_native(self.actors.entries@[i as int].1.native_functions@, self.actors.entries@[i as int].1.native_procedures@));
                return true;
            }
            i = i + 1;
        }
        let mut j: usize = 0;
        while j < self.units.len()
            invariant
                0 <= j <= self.units@.len(),
                forall|k: int| 0 <= k < self.actors.entries@.len() ==> !uses_native(
                    (#[trigger] self.actors.entries@[k]).1.native_functions@,
                    self.actors.entries@[k].1.native_procedures@,
                ),
                forall|k: int| 0 <= k < j ==> !uses_native(
                    (#[trigger] self.units@[k]).native_functions@,
                    self.units@[k].native_procedures@,
                ),
            decreases self.units.len() - j,
        {
            let u = &self.units[j];
            if u.native_functions.len() != 0 || u.native_procedures.len() != 0 {
                assert(uses_native(self.units@[j as int].native_functions@, self.units@[j as int].native_procedures@));
                return true;
            }
            j = j + 1;
        }
        false
    }
}

/// The generation settings shared by the backends.
#[derive(Clone, Copy)]
pub struct Options {
    /// Channel capacity in tokens; 0 means unbounded.
    pub cap: usize,
    /// Most consecutive firings of one actor per visit; 0 means unlimited.
    pub fire_budget: usize,
    /// Lift FSM states into type parameters.
    pub typestate: bool,
}

/// The firing budget as a Rust expression: `usize::MAX` stands for unlimited.
pub open spec fn fire_budget_text(fire_budget: nat) -> Seq<char> {
    if fire_budget == 0 {
        "usize::MAX"@
    } else {
        decimal(fire_budget)
    }
}

impl Options {
    /// The firing budget as a Rust expression.
    pub fn fire_budget_literal(&self) -> (res: String)
        ensures
            res@ == fire_budget_text(self.fire_budget as nat),
    {
        if self.fire_budget == 0 {
            owned("usize::MAX")
        } else {
            decimal_string(self.fire_budget)
        }
    }
}

/// What every backend offers: its name, what the projects it generates
/// depend on, and their source files.
pub trait CodeGenerator {
    /// The backend's name.
    fn name(&self) -> &'static str;

    /// The dependencies of the generated project besides the standard library,
    /// as lines of a Cargo manifest.
    fn extra_deps(&self) -> &'static str;

    /// The source files of the generated project, by name under `src/`.
    fn files(&self, program: &Program, orcc: bool) -> (res: Vec<(String, String)>)
        requires
            program.actors.wf(),
    ;
}

/// The scheduling backends.
#[derive(Copy, Clone, Debug, PartialEq, Eq, Structural)]
pub enum Backend {
    Naive,
    Threads,
    Rayon,
    Tokio,
}

/// A backend with its options.
pub enum Generator {
    Naive(Naive),
    Threads(Threads),
    Rayon(Rayon),
    Tokio(Tokio),
}

impl Backend {
    /// The generator of this backend with the given options; the naive backend
    /// takes the capacity and typestates, the others all options.
    pub fn generator(self, options: Options) -> (res: Generator)
        ensures
            res == match self {
                Backend::Naive => Generator::Naive(Naive { cap: options.cap, typestate: options.typestate }),
                Backend::Threads => Generator::Threads(Threads { options }),
                Backend::Rayon => Generator::Rayon(Rayon { options }),
                Backend::Tokio => Generator::Tokio(Tokio { options }),
            },
    {
        match self {
            Backend::Naive => Generator::Naive(Naive { cap: options.cap, typestate: options.typestate }),
            Backend::Threads => Generator::Threads(Threads { options }),
            Backend::Rayon => Generator::Rayon(Rayon { options }),
            Backend::Tokio => Generator::Tokio(Tokio { options }),
        }
    }
}

impl CodeGenerator for Generator {
    fn name(&self) -> (res: &'static str)
        ensures
            res@ == match self {
                Generator::Naive(_) => "naive"@,
                Generator::Threads(_) => "threads"@,
                Generator::Rayon(_) => "rayon"@,
                Generator::Tokio(_) => "tokio"@,
            },
    {
        match self {
            Generator::Naive(g) => g.name(),
            Generator::Threads(g) => g.name(),
            Generator::Rayon(g) => g.name(),
            Generator::Tokio(g) => g.name(),
        }
    }

    fn extra_deps(&self) -> (res: &'static str)
        ensures
            res@ == match self {
                Generator::Naive(_) => ""@,
                Generator::Threads(_) => THREADS_DEPS@,
                Generator::Rayon(_) => RAYON_DEPS@,
                Generator::Tokio(_) => TOKIO_DEPS@,
            },
    {
        match self {
            Generator::Naive(g) => g.extra_deps(),
            Generator::Threads(g) => g.extra_deps(),
            Generator::Rayon(g) => g.extra_deps(),
            Generator::Tokio(g) => g.extra_deps(),
        }
    }

    fn files(&self, program: &Program, orcc: bool) -> (res: Vec<(String, String)>)
        ensures
            file_views(res@) == match self {
                Generator::Naive(g) => actor_files(*program.actors, g.typestate, false).push(
                    ("main.rs"@, naive_main_file_text(*program, g.cap, orcc, g.typestate)),
                ),
                Generator::Threads(g) => actor_files(*program.actors, g.options.typestate, false).push(
                    ("main.rs"@, threads_main_file_text(*program, g.options, orcc)),
                ),
                Generator::Rayon(g) => actor_files(*program.actors, g.options.typestate, false).push(
                    ("main.rs"@, rayon_main_file_text(*program, g.options, orcc)),
                ),
                Generator::Tokio(g) => actor_files(*program.actors, g.options.typestate, true).push(
                    ("main.rs"@, tokio_main_file_text(*program, g.options, orcc)),
                ),
            },
    {
        match self {
            Generator::Naive(g) => g.files(program, orcc),
            Generator::Threads(g) => g.files(program, orcc),
            Generator::Rayon(g) => g.files(program, orcc),
            Generator::Tokio(g) => g.files(program, orcc),
        }
    }
}

} // verus!
