//! Names of the policies: a registry from lower-case names to kinds, and a
//! builder that makes a policy by name.

use crate::strategies::builtin::{builtin_initial, BuiltinStrategy, StrategyKind};
use crate::clock::now_micros;
use crate::strategies::Strategy;
use crate::text::{
    lemma_precedes_irreflexive, lemma_precedes_total, lemma_precedes_transitive, lowercase_of,
    lowercased, name_precedes, precedes,
};
use vstd::prelude::*;

verus! {

/// One entry of a registry.
pub struct Entry {
    pub name: String,
    pub kind: StrategyKind,
}

/// The names of a registry's entries, in order.
pub open spec fn names_of(entries: Seq<Entry>) -> Seq<Seq<char>> {
    Seq::new(entries.len(), |i: int| entries[i].name@)
}

/// The map that a sequence of entries stands for; a later entry of a name
/// overrides an earlier one.
pub open spec fn entries_map(entries: Seq<Entry>) -> Map<Seq<char>, StrategyKind>
    decreases entries.len(),
{
    if entries.len() == 0 {
        Map::empty()
    } else {
        entries_map(entries.drop_last()).insert(entries.last().name@, entries.last().kind)
    }
}

/// Each name comes before all that follow it.
pub open spec fn names_sorted(names: Seq<Seq<char>>) -> bool {
    forall|i: int, j: int| 0 <= i < j < names.len() ==> name_precedes(names[i], names[j])
}

/// The names in the map of some entries are the names of the entries.
pub proof fn lemma_entries_map_dom(entries: Seq<Entry>, name: Seq<char>)
    ensures
        entries_map(entries).contains_key(name) <==> exists|i: int|
            0 <= i < entries.len() && (#[trigger] entries[i]).name@ == name,
    decreases entries.len(),
{
    if entries.len() > 0 {
        let earlier = entries.drop_last();
        lemma_entries_map_dom(earlier, name);
        if entries_map(entries).contains_key(name) {
            if entries.last().name@ == name {
                assert(entries[entries.len() - 1].name@ == name);
            } else {
                let i = choose|i: int| 0 <= i < earlier.len() && (#[trigger] earlier[i]).name@ == name;
                assert(entries[i].name@ == name);
            }
        }
        if exists|i: int| 0 <= i < entries.len() && (#[trigger] entries[i]).name@ == name {
            let i = choose|i: int| 0 <= i < entries.len() && (#[trigger] entries[i]).name@ == name;
            if i < entries.len() - 1 {
                assert(earlier[i].name@ == name);
            }
        }
    }
}

/// Among sorted names, the entry of a name decides what the map holds for
/// it.
pub proof fn lemma_entries_map_at(entries: Seq<Entry>, i: int)
    requires
        0 <= i < entries.len(),
        names_sorted(names_of(entries)),
    ensures
        entries_map(entries).contains_key(entries[i].name@),
        entries_map(entries)[entries[i].name@] == entries[i].kind,
    decreases entries.len(),
{
    let earlier = entries.drop_last();
    if i < entries.len() - 1 {
        assert(names_sorted(names_of(earlier))) by {
            assert forall|x: int, y: int| 0 <= x < y < earlier.len() implies name_precedes(
                names_of(earlier)[x],
                names_of(earlier)[y],
            ) by {
                assert(names_of(entries)[x] == names_of(earlier)[x]);
                assert(names_of(entries)[y] == names_of(earlier)[y]);
            }
        }
        lemma_entries_map_at(earlier, i);
        assert(earlier[i] == entries[i]);
        assert(name_precedes(names_of(entries)[i], names_of(entries)[entries.len() - 1]));
        lemma_precedes_irreflexive(entries[i].name@, 0);
    }
}

/// Putting a new name in its place among the entries puts it into the
/// map.
pub proof fn lemma_entries_map_insert(entries: Seq<Entry>, k: int, entry: Entry)
    requires
        0 <= k <= entries.len(),
        forall|i: int| 0 <= i < entries.len() ==> (#[trigger] entries[i]).name@ != entry.name@,
    ensures
        entries_map(entries.insert(k, entry)) =~= entries_map(entries).insert(
            entry.name@,
            entry.kind,
        ),
    decreases entries.len(),
{
    let longer = entries.insert(k, entry);
    if k == entries.len() {
        assert(longer.drop_last() =~= entries);
    } else {
        let earlier = entries.drop_last();
        assert(longer.drop_last() =~= earlier.insert(k, entry));
        assert(longer.last() == entries.last());
        assert forall|i: int| 0 <= i < earlier.len() implies (#[trigger] earlier[i]).name@
            != entry.name@ by {
            assert(earlier[i] == entries[i]);
        }
        lemma_entries_map_insert(earlier, k, entry);
        assert(entries[entries.len() - 1].name@ != entry.name@);
    }
}

/// Giving the entry of a name another kind changes what the map holds
/// for that name.
pub proof fn lemma_entries_map_update(entries: Seq<Entry>, k: int, entry: Entry)
    requires
        0 <= k < entries.len(),
        entries[k].name@ == entry.name@,
        names_sorted(names_of(entries)),
    ensures
        entries_map(entries.update(k, entry)) =~= entries_map(entries).insert(
            entry.name@,
            entry.kind,
        ),
    decreases entries.len(),
{
    let changed = entries.update(k, entry);
    let earlier = entries.drop_last();
    if k == entries.len() - 1 {
        assert(changed.drop_last() =~= earlier);
    } else {
        assert(changed.drop_last() =~= earlier.update(k, entry));
        assert(changed.last() == entries.last());
        assert(names_sorted(names_of(earlier))) by {
            assert forall|x: int, y: int| 0 <= x < y < earlier.len() implies name_precedes(
                names_of(earlier)[x],
                names_of(earlier)[y],
            ) by {
                assert(names_of(entries)[x] == names_of(earlier)[x]);
                assert(names_of(entries)[y] == names_of(earlier)[y]);
            }
        }
        assert(earlier[k] == entries[k]);
        lemma_entries_map_update(earlier, k, entry);
        assert(name_precedes(names_of(entries)[k], names_of(entries)[entries.len() - 1]));
        lemma_precedes_irreflexive(entry.name@, 0);
    }
}

/// The names of the built-in policies, aliases among them.
pub open spec fn builtin_names() -> Map<Seq<char>, StrategyKind> {
    Map::<Seq<char>, StrategyKind>::empty().insert("drop-tail"@, StrategyKind::DropTail).insert(
        "droptail"@,
        StrategyKind::DropTail,
    ).insert("fifo"@, StrategyKind::Fifo).insert("red"@, StrategyKind::Red).insert(
        "adaptive-red"@,
        StrategyKind::AdaptiveRed,
    ).insert("ared"@, StrategyKind::AdaptiveRed).insert("blue"@, StrategyKind::Blue).insert(
        "codel"@,
        StrategyKind::CoDel,
    ).insert("pie"@, StrategyKind::Pie).insert("fq-codel"@, StrategyKind::FqCoDel).insert(
        "fqcodel"@,
        StrategyKind::FqCoDel,
    )
}

/// A registry of policies by lower-case name, in the order of the names.
pub struct StrategyRegistry {
    entries: Vec<Entry>,
}

impl View for StrategyRegistry {
    type V = Map<Seq<char>, StrategyKind>;

    closed spec fn view(&self) -> Map<Seq<char>, StrategyKind> {
        entries_map(self.entries@)
    }
}

impl StrategyRegistry {
    /// The registered names, in order.
    pub closed spec fn names(&self) -> Seq<Seq<char>> {
        names_of(self.entries@)
    }

    /// What holds of every registry between calls: the names are in
    /// order, and they are the names that the map holds.
    pub closed spec fn inv(&self) -> bool {
        names_sorted(self.names())
    }

    /// The names are those of the map, each once.
    pub proof fn lemma_names_are_keys(&self, name: Seq<char>)
        requires
            self.inv(),
        ensures
            self@.contains_key(name) <==> self.names().contains(name),
    {
        lemma_entries_map_dom(self.entries@, name);
        if self.names().contains(name) {
            let i = choose|i: int| 0 <= i < self.names().len() && self.names()[i] == name;
            assert(self.entries@[i].name@ == name);
        }
        if self@.contains_key(name) {
            let i = choose|i: int|
                0 <= i < self.entries@.len() && (#[trigger] self.entries@[i]).name@ == name;
            assert(self.names()[i] == name);
        }
    }

    /// The registry of the built-in policies.
    pub fn new() -> (registry: Self)
        ensures
            registry.inv(),
            registry@ == builtin_names(),
    {
        let mut registry = StrategyRegistry::empty();
        registry.register_lowered("drop-tail".to_owned(), StrategyKind::DropTail);
        registry.register_lowered("droptail".to_owned(), StrategyKind::DropTail);
        registry.register_lowered("fifo".to_owned(), StrategyKind::Fifo);
        registry.register_lowered("red".to_owned(), StrategyKind::Red);
        registry.register_lowered("adaptive-red".to_owned(), StrategyKind::AdaptiveRed);
        registry.register_lowered("ared".to_owned(), StrategyKind::AdaptiveRed);
        registry.register_lowered("blue".to_owned(), StrategyKind::Blue);
        registry.register_lowered("codel".to_owned(), StrategyKind::CoDel);
        registry.register_lowered("pie".to_owned(), StrategyKind::Pie);
        registry.register_lowered("fq-codel".to_owned(), StrategyKind::FqCoDel);
        registry.register_lowered("fqcodel".to_owned(), StrategyKind::FqCoDel);
        registry
    }

    /// A registry without names.
    pub fn empty() -> (registry: Self)
        ensures
            registry.inv(),
            registry@ == Map::<Seq<char>, StrategyKind>::empty(),
            registry.names() =~= Seq::<Seq<char>>::empty(),
    {
        StrategyRegistry { entries: Vec::new() }
    }

    /// Registers `kind` under a name that is in lower case already.
    pub fn register_lowered(&mut self, lowered: String, kind: StrategyKind)
        requires
            old(self).inv(),
        ensures
            final(self).inv(),
            final(self)@ == old(self)@.insert(lowered@, kind),
    {
        let ghost before = self.entries@;
        let n = self.entries.len();
        let mut k: usize = 0;
        while k < n && precedes(self.entries[k].name.as_str(), lowered.as_str())
            invariant
                k <= n,
                n == before.len(),
                self.entries@ == before,
                names_sorted(names_of(before)),
                forall|j: int| 0 <= j < k ==> name_precedes(#[trigger] before[j].name@, lowered@),
            decreases n - k,
        {
            k = k + 1;
        }
        let entry = Entry { name: lowered, kind };
        if k < n && self.entries[k].name == entry.name {
            self.entries[k].kind = kind;
            assert(self.entries@ =~= before.update(k as int, self.entries@[k as int]));
            proof {
                lemma_entries_map_update(before, k as int, self.entries@[k as int]);
                assert(names_of(self.entries@) =~= names_of(before));
            }
        } else {
            proof {
                assert forall|i: int| 0 <= i < before.len() implies (#[trigger] before[i]).name@
                    != entry.name@ by {
                    lemma_precedes_irreflexive(entry.name@, 0);
                    if i > k && before[i].name@ == entry.name@ {
                        // the entry at k would come before the new name
                        assert(name_precedes(names_of(before)[k as int], names_of(before)[i]));
                    }
                }
                lemma_entries_map_insert(before, k as int, entry);
            }
            self.entries.insert(k, entry);
            proof {
                let after = self.entries@;
                assert(after == before.insert(k as int, entry));
                assert forall|x: int, y: int| 0 <= x < y < after.len() implies name_precedes(
                    names_of(after)[x],
                    names_of(after)[y],
                ) by {
                    let a = names_of(after)[x];
                    let b = names_of(after)[y];
                    if y < k {
                        assert(names_of(before)[x] == a && names_of(before)[y] == b);
                    } else if y == k {
                        assert(before[x].name@ == a);
                    } else if x < k {
                        assert(names_of(before)[x] == a && names_of(before)[y - 1] == b);
                    } else if x == k {
                        // the new name comes before the entry it displaced,
                        // and so before all that follow
                        let at_k = before[k as int].name@;
                        lemma_precedes_total(at_k, entry.name@, 0);
                        if y - 1 > k {
                            assert(name_precedes(
                                names_of(before)[k as int],
                                names_of(before)[y - 1],
                            ));
                            lemma_precedes_transitive(entry.name@, at_k, b, 0);
                        }
                    } else {
                        assert(names_of(before)[x - 1] == a && names_of(before)[y - 1] == b);
                    }
                }
            }
        }
    }

    /// Registers `kind` under the lower-case form of `name`; an earlier
    /// registration of that name gives way.
    pub fn register(&mut self, name: &str, kind: StrategyKind)
        requires
            old(self).inv(),
        ensures
            final(self).inv(),
            final(self)@ == old(self)@.insert(lowercase_of(name@), kind),
    {
        let lowered = lowercased(name);
        self.register_lowered(lowered, kind);
    }

    /// The kind registered under a name that is in lower case already.
    pub fn lookup(&self, lowered: &str) -> (kind: Option<StrategyKind>)
        requires
            self.inv(),
        ensures
            kind is Some <==> self@.contains_key(lowered@),
            kind matches Some(k) ==> self@[lowered@] == k,
    {
        let n = self.entries.len();
        let mut i: usize = 0;
        while i < n
            invariant
                i <= n,
                n == self.entries@.len(),
                self.inv(),
                forall|j: int| 0 <= j < i ==> (#[trigger] self.entries@[j]).name@ != lowered@,
            decreases n - i,
        {
            if !precedes(self.entries[i].name.as_str(), lowered) && !precedes(
                lowered,
                self.entries[i].name.as_str(),
            ) {
                proof {
                    if self.entries@[i as int].name@ != lowered@ {
                        lemma_precedes_total(self.entries@[i as int].name@, lowered@, 0);
                    }
                    lemma_entries_map_at(self.entries@, i as int);
                }
                return Some(self.entries[i].kind);
            }
            proof {
                if self.entries@[i as int].name@ == lowered@ {
                    lemma_precedes_irreflexive(lowered@, 0);
                }
            }
            i = i + 1;
        }
        proof {
            lemma_entries_map_dom(self.entries@, lowered@);
        }
        None
    }

    /// A fresh policy of the kind registered under the lower-case form of
    /// `name`, for a buffer of `buffer_size` packets, made now; `None` for
    /// a name that is not registered. The clock is read here.
    pub fn create(&self, name: &str, buffer_size: usize) -> (strategy: Option<BuiltinStrategy>)
        requires
            self.inv(),
        ensures
            strategy is Some <==> self@.contains_key(lowercase_of(name@)),
            strategy matches Some(s) ==> s.inv() && exists|now: u64|
                s.state() == #[trigger] builtin_initial(
                    self@[lowercase_of(name@)],
                    buffer_size,
                    now,
                ),
    {
        self.create_at(name, buffer_size, now_micros())
    }

    /// A fresh policy of the kind registered under the lower-case form of
    /// `name`, for a buffer of `buffer_size` packets, made at `now`
    /// (microseconds); `None` for a name that is not registered.
    pub fn create_at(&self, name: &str, buffer_size: usize, now: u64) -> (strategy: Option<
        BuiltinStrategy,
    >)
        requires
            self.inv(),
        ensures
            strategy is Some <==> self@.contains_key(lowercase_of(name@)),
            strategy matches Some(s) ==> s.inv() && s.state() == builtin_initial(
                self@[lowercase_of(name@)],
                buffer_size,
                now,
            ),
    {
        let lowered = lowercased(name);
        self.create_lowered(lowered.as_str(), buffer_size, now)
    }

    /// A fresh policy of the kind registered under a name that is in
    /// lower case already.
    pub fn create_lowered(&self, lowered: &str, buffer_size: usize, now: u64) -> (strategy:
        Option<BuiltinStrategy>)
        requires
            self.inv(),
        ensures
            strategy is Some <==> self@.contains_key(lowered@),
            strategy matches Some(s) ==> s.inv() && s.state() == builtin_initial(
                self@[lowered@],
                buffer_size,
                now,
            ),
    {
        match self.lookup(lowered) {
            Some(kind) => Some(BuiltinStrategy::create_at(kind, buffer_size, now)),
            None => None,
        }
    }

    /// The registered names, in order.
    pub fn list(&self) -> (names: Vec<String>)
        requires
            self.inv(),
        ensures
            names@.len() == self.names().len(),
            forall|i: int| 0 <= i < names@.len() ==> (#[trigger] names@[i])@ == self.names()[i],
            names_sorted(self.names()),
    {
        let mut names: Vec<String> = Vec::new();
        let n = self.entries.len();
        let mut i: usize = 0;
        while i < n
            invariant
                i <= n,
                n == self.entries@.len(),
                names@.len() == i,
                forall|j: int| 0 <= j < i ==> (#[trigger] names@[j])@ == self.entries@[j].name@,
            decreases n - i,
        {
            names.push(self.entries[i].name.clone());
            i = i + 1;
        }
        names
    }
}

/// One parameter of a builder: a key and its value in thousandths.
pub struct Param {
    pub key: String,
    pub value_milli: i64,
}

/// Collects what a policy is made from: its name, the size of its buffer,
/// and parameters by key.
pub struct StrategyBuilder {
    name: String,
    buffer_size: usize,
    params: Vec<Param>,
}

/// What a builder holds, as plain values.
pub struct BuilderView {
    pub name: Seq<char>,
    pub buffer_size: usize,
    /// The parameters by key, in thousandths.
    pub params: Map<Seq<char>, i64>,
}

/// The map that parameters stand for, given one after the other: a later
/// value of a key takes the place of an earlier one.
pub open spec fn params_map(params: Seq<Param>) -> Map<Seq<char>, i64>
    decreases params.len(),
{
    if params.len() == 0 {
        Map::empty()
    } else {
        params_map(params.drop_last()).insert(params.last().key@, params.last().value_milli)
    }
}

impl View for StrategyBuilder {
    type V = BuilderView;

    closed spec fn view(&self) -> BuilderView {
        BuilderView {
            name: self.name@,
            buffer_size: self.buffer_size,
            params: params_map(self.params@),
        }
    }
}

impl StrategyBuilder {
    /// A builder for the policy of a name, with a buffer of 1024 packets.
    pub fn new(name: String) -> (builder: Self)
        ensures
            builder@ == (BuilderView { name: name@, buffer_size: 1024, params: Map::empty() }),
    {
        StrategyBuilder { name, buffer_size: 1024, params: Vec::new() }
    }

    /// The same builder with another buffer size.
    pub fn buffer_size(self, size: usize) -> (builder: Self)
        ensures
            builder@ == (BuilderView { buffer_size: size, ..self@ }),
    {
        let mut builder = self;
        builder.buffer_size = size;
        builder
    }

    /// The same builder with a parameter set, its value in thousandths;
    /// an earlier value of the key gives way.
    pub fn param(self, key: String, value_milli: i64) -> (builder: Self)
        ensures
            builder@ == (BuilderView {
                params: self@.params.insert(key@, value_milli),
                ..self@
            }),
    {
        let ghost before = self.params@;
        let mut builder = self;
        builder.params.push(Param { key, value_milli });
        assert(builder.params@.drop_last() =~= before);
        builder
    }

    /// A fresh policy of the built-in kind that the name stands for, made
    /// now; `None` for any other name. The parameters have no part in it.
    /// The clock is read here.
    pub fn build(self) -> (strategy: Option<BuiltinStrategy>)
        ensures
            strategy is Some <==> builtin_names().contains_key(lowercase_of(self@.name)),
            strategy matches Some(s) ==> s.inv() && exists|now: u64|
                s.state() == #[trigger] builtin_initial(
                    builtin_names()[lowercase_of(self@.name)],
                    self@.buffer_size,
                    now,
                ),
    {
        self.build_at(now_micros())
    }

    /// A fresh policy of the built-in kind that the name stands for, made
    /// at `now` (microseconds); `None` for any other name. The parameters
    /// have no part in it.
    pub fn build_at(self, now: u64) -> (strategy: Option<BuiltinStrategy>)
        ensures
            strategy is Some <==> builtin_names().contains_key(lowercase_of(self@.name)),
            strategy matches Some(s) ==> s.inv() && s.state() == builtin_initial(
                builtin_names()[lowercase_of(self@.name)],
                self@.buffer_size,
                now,
            ),
    {
        let registry = StrategyRegistry::new();
        registry.create_at(self.name.as_str(), self.buffer_size, now)
    }
}

} // verus!
