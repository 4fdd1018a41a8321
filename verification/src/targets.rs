//! The directories of a stage, each with what is to go into it, kept in
//! the order of their names.
use vstd::prelude::*;

verus! {

/// Whether the text `a` comes before the text `b` in the order of a
/// dictionary, character by character.
pub open spec fn spec_precedes(a: Seq<char>, b: Seq<char>) -> bool
    decreases a.len(),
{
    if b.len() == 0 {
        false
    } else if a.len() == 0 {
        true
    } else if a[0] != b[0] {
        a[0] < b[0]
    } else {
        spec_precedes(a.skip(1), b.skip(1))
    }
}

/// Whether each of `keys` comes before all that follow it.
pub open spec fn increasing(keys: Seq<Seq<char>>) -> bool {
    forall|i: int, j: int| 0 <= i < j < keys.len() ==> spec_precedes(#[trigger] keys[i], #[trigger] keys[j])
}

/// No text comes before itself.
pub proof fn lemma_precedes_irreflexive(a: Seq<char>)
    ensures
        !spec_precedes(a, a),
    decreases a.len(),
{
    if a.len() > 0 {
        lemma_precedes_irreflexive(a.skip(1));
    }
}

/// Of two different texts, one comes before the other.
pub proof fn lemma_precedes_total(a: Seq<char>, b: Seq<char>)
    ensures
        a == b || spec_precedes(a, b) || spec_precedes(b, a),
    decreases a.len(),
{
    if a.len() == 0 || b.len() == 0 {
        if a.len() == 0 && b.len() == 0 {
            assert(a =~= b);
        }
    } else if a[0] == b[0] {
        lemma_precedes_total(a.skip(1), b.skip(1));
        if a.skip(1) == b.skip(1) {
            assert(a =~= seq![a[0]] + a.skip(1));
            assert(b =~= seq![b[0]] + b.skip(1));
        }
    }
}

/// What comes before a text comes before all that the text comes before.
pub proof fn lemma_precedes_transitive(a: Seq<char>, b: Seq<char>, c: Seq<char>)
    requires
        spec_precedes(a, b),
        spec_precedes(b, c),
    ensures
        spec_precedes(a, c),
    decreases a.len(),
{
    if a.len() > 0 && a[0] == b[0] && b[0] == c[0] {
        lemma_precedes_transitive(a.skip(1), b.skip(1), c.skip(1));
    }
}

/// The characters of `s`.
fn characters(s: &str) -> (chars: Vec<char>)
    ensures
        chars@ == s@,
{
    let mut chars: Vec<char> = Vec::new();
    for c in it: s.chars()
        invariant
            chars@ == it.seq().take(it.index() as int),
    {
        chars.push(c);
    }
    chars
}

/// Whether the text `a` comes before the text `b` in the order of a
/// dictionary.
pub fn precedes(a: &str, b: &str) -> (before: bool)
    ensures
        before == spec_precedes(a@, b@),
{
    let xs = characters(a);
    let ys = characters(b);
    let mut i: usize = 0;
    assert(xs@.skip(0) =~= xs@);
    assert(ys@.skip(0) =~= ys@);
    while i < xs.len() && i < ys.len()
        invariant
            i <= xs.len(),
            i <= ys.len(),
            xs@ == a@,
            ys@ == b@,
            spec_precedes(a@, b@) == spec_precedes(xs@.skip(i as int), ys@.skip(i as int)),
        decreases xs.len() - i,
    {
        let x = xs[i];
        let y = ys[i];
        proof {
            assert(xs@.skip(i as int)[0] == x);
            assert(ys@.skip(i as int)[0] == y);
            assert(xs@.skip(i as int).skip(1) =~= xs@.skip(i + 1));
            assert(ys@.skip(i as int).skip(1) =~= ys@.skip(i + 1));
        }
        if x != y {
            return x < y;
        }
        i += 1;
    }
    i < ys.len()
}

/// Where `key` stands among `keys`, or would stand: behind the names that
/// come before it.
pub open spec fn place(keys: Seq<Seq<char>>, key: Seq<char>) -> int
    decreases keys.len(),
{
    if keys.len() == 0 {
        0
    } else if spec_precedes(keys.last(), key) {
        keys.len() as int
    } else {
        place(keys.drop_last(), key)
    }
}

/// Whether `key` is one of `keys`, given that they are in order.
pub open spec fn present(keys: Seq<Seq<char>>, key: Seq<char>) -> bool {
    0 <= place(keys, key) < keys.len() && keys[place(keys, key)] == key
}

/// The names `keys` with `key` put in its place, unless it is there.
pub open spec fn keys_with(keys: Seq<Seq<char>>, key: Seq<char>) -> Seq<Seq<char>> {
    if present(keys, key) {
        keys
    } else {
        keys.insert(place(keys, key), key)
    }
}

/// The values `values` of the names `keys` with `value` put at the place
/// of `key`, instead of what was there for it.
pub open spec fn values_with<V>(keys: Seq<Seq<char>>, values: Seq<V>, key: Seq<char>, value: V) -> Seq<V> {
    if present(keys, key) {
        values.update(place(keys, key), value)
    } else {
        values.insert(place(keys, key), value)
    }
}

/// The place of a name is behind the names before it and not behind any
/// other.
proof fn lemma_place(keys: Seq<Seq<char>>, key: Seq<char>, at: int)
    requires
        increasing(keys),
        0 <= at <= keys.len(),
        forall|i: int| 0 <= i < at ==> spec_precedes(#[trigger] keys[i], key),
        at < keys.len() ==> !spec_precedes(keys[at], key),
    ensures
        place(keys, key) == at,
    decreases keys.len(),
{
    if keys.len() > 0 && at < keys.len() {
        let init = keys.drop_last();
        if spec_precedes(keys.last(), key) {
            assert(at < keys.len() - 1);
            assert(spec_precedes(keys[at], keys[keys.len() - 1]));
            lemma_precedes_transitive(keys[at], keys.last(), key);
        } else {
            assert forall|i: int, j: int| 0 <= i < j < init.len() implies spec_precedes(
                #[trigger] init[i],
                #[trigger] init[j],
            ) by {
                assert(spec_precedes(keys[i], keys[j]));
            }
            assert forall|i: int| 0 <= i < at implies spec_precedes(#[trigger] init[i], key) by {
                assert(spec_precedes(keys[i], key));
            }
            if at < init.len() {
                lemma_place(init, key, at);
            } else {
                lemma_place(init, key, at);
            }
        }
    }
}

/// The names of `entries`, in their order.
pub open spec fn names<V>(entries: Seq<(String, V)>) -> Seq<Seq<char>> {
    Seq::new(entries.len(), |i: int| entries[i].0@)
}

/// What belongs to the names of `entries`, in their order.
pub open spec fn contents<V>(entries: Seq<(String, V)>) -> Seq<V> {
    Seq::new(entries.len(), |i: int| entries[i].1)
}

/// The names that come of putting `entries` in one after the other.
pub open spec fn names_of_all<V>(entries: Seq<(String, V)>) -> Seq<Seq<char>>
    decreases entries.len(),
{
    if entries.len() == 0 {
        Seq::<Seq<char>>::empty()
    } else {
        keys_with(names_of_all(entries.drop_last()), entries.last().0@)
    }
}

/// What belongs to the names that come of putting `entries` in one after
/// the other: for a name given twice, what was given last.
pub open spec fn contents_of_all<V>(entries: Seq<(String, V)>) -> Seq<V>
    decreases entries.len(),
{
    if entries.len() == 0 {
        Seq::<V>::empty()
    } else {
        values_with(
            names_of_all(entries.drop_last()),
            contents_of_all(entries.drop_last()),
            entries.last().0@,
            entries.last().1,
        )
    }
}

/// Puts `value` at the place of `key` among `entries`.
fn put<V>(entries: &mut Vec<(String, V)>, key: String, value: V)
    requires
        increasing(names(old(entries)@)),
    ensures
        increasing(names(final(entries)@)),
        names(final(entries)@) == keys_with(names(old(entries)@), key@),
        contents(final(entries)@) == values_with(
            names(old(entries)@),
            contents(old(entries)@),
            key@,
            value,
        ),
{
    let ghost keys = names(entries@);
    let ghost values = contents(entries@);
    let mut at: usize = 0;
    while at < entries.len() && precedes(entries[at].0.as_str(), key.as_str())
        invariant
            at <= entries.len(),
            names(entries@) == keys,
            increasing(keys),
            forall|i: int| 0 <= i < at ==> spec_precedes(#[trigger] keys[i], key@),
        decreases entries.len() - at,
    {
        at += 1;
    }
    proof {
        lemma_place(keys, key@, at as int);
    }
    if at < entries.len() && entries[at].0 == key {
        let _ = entries.remove(at);
        entries.insert(at, (key, value));
        proof {
            assert(names(entries@) =~= keys);
            assert(contents(entries@) =~= values.update(at as int, value));
        }
    } else {
        entries.insert(at, (key, value));
        proof {
            let now = names(entries@);
            assert(now =~= keys.insert(at as int, key@));
            assert(contents(entries@) =~= values.insert(at as int, value));
            assert forall|i: int, j: int| 0 <= i < j < now.len() implies spec_precedes(
                #[trigger] now[i],
                #[trigger] now[j],
            ) by {
                if j == at {
                    assert(now[i] == keys[i]);
                } else if i == at {
                    assert(now[j] == keys[j - 1]);
                    lemma_precedes_total(keys[at as int], key@);
                    if j - 1 > at {
                        assert(spec_precedes(keys[at as int], keys[j - 1]));
                        lemma_precedes_transitive(key@, keys[at as int], keys[j - 1]);
                    }
                } else {
                    let a = if i < at { i } else { i - 1 };
                    let b = if j < at { j } else { j - 1 };
                    assert(now[i] == keys[a]);
                    assert(now[j] == keys[b]);
                    assert(spec_precedes(keys[a], keys[b]));
                }
            }
        }
    }
}

/// Directories with what belongs to each, in the order of their names and
/// no name twice.
pub struct Targets<V> {
    entries: Vec<(String, V)>,
}

impl<V> Targets<V> {
    /// The names of the directories, in order.
    pub closed spec fn keys(&self) -> Seq<Seq<char>> {
        names(self.entries@)
    }

    /// What belongs to each directory, in the order of `keys`.
    pub closed spec fn values(&self) -> Seq<V> {
        contents(self.entries@)
    }

    /// What holds of every value of this type: the names are in order.
    #[verifier::type_invariant]
    pub closed spec fn ordered(&self) -> bool {
        increasing(self.keys())
    }

    /// The names are in order, none twice, and each has its value.
    pub proof fn lemma_ordered(&self)
        requires
            self.ordered(),
        ensures
            increasing(self.keys()),
            forall|i: int, j: int|
                0 <= i < j < self.keys().len() ==> #[trigger] self.keys()[i] != #[trigger] self.keys()[j],
            self.keys().len() == self.values().len(),
    {
        assert forall|i: int, j: int| 0 <= i < j < self.keys().len() implies #[trigger] self.keys()[i]
            != #[trigger] self.keys()[j] by {
            lemma_precedes_irreflexive(self.keys()[i]);
        }
    }

    /// No directories.
    pub fn new() -> (targets: Self)
        ensures
            targets.keys() == Seq::<Seq<char>>::empty(),
            targets.values() == Seq::<V>::empty(),
    {
        let targets = Targets { entries: Vec::new() };
        assert(targets.keys() =~= Seq::<Seq<char>>::empty());
        assert(targets.values() =~= Seq::<V>::empty());
        targets
    }

    /// The directories of `entries`, each with what the last entry of its
    /// name gives it.
    pub fn from_iter(entries: Vec<(String, V)>) -> (targets: Self)
        ensures
            targets.keys() == names_of_all(entries@),
            targets.values() == contents_of_all(entries@),
    {
        let ghost all = entries@;
        let mut kept: Vec<(String, V)> = Vec::new();
        assert(names(kept@) =~= Seq::<Seq<char>>::empty());
        assert(contents(kept@) =~= Seq::<V>::empty());
        for entry in it: entries
            invariant
                it.seq() == all,
                increasing(names(kept@)),
                names(kept@) == names_of_all(all.take(it.index() as int)),
                contents(kept@) == contents_of_all(all.take(it.index() as int)),
        {
            proof {
                let next = all.take(it.index() + 1);
                assert(next.drop_last() =~= all.take(it.index() as int));
                assert(next.last() == entry);
            }
            put(&mut kept, entry.0, entry.1);
        }
        assert(all.take(all.len() as int) =~= all);
        Targets { entries: kept }
    }

    /// Lets `value` belong to the directory `key`. Where the directory was
    /// there already, `value` replaces what belonged to it before; else the
    /// directory takes its place among the others.
    pub fn insert(self, key: String, value: V) -> (targets: Self)
        ensures
            targets.keys() == keys_with(self.keys(), key@),
            targets.values() == values_with(self.keys(), self.values(), key@, value),
    {
        proof {
            use_type_invariant(&self);
        }
        let mut entries = self.entries;
        put(&mut entries, key, value);
        Targets { entries }
    }

    /// How many directories there are.
    pub fn len(&self) -> (n: usize)
        ensures
            n == self.keys().len(),
            n == self.values().len(),
    {
        self.entries.len()
    }

    /// The name of the directory at `index`.
    pub fn key(&self, index: usize) -> (key: &String)
        requires
            index < self.keys().len(),
        ensures
            key@ == self.keys()[index as int],
    {
        &self.entries[index].0
    }

    /// What belongs to the directory at `index`.
    pub fn value(&self, index: usize) -> (value: &V)
        requires
            index < self.values().len(),
        ensures
            *value == self.values()[index as int],
    {
        &self.entries[index].1
    }
}

} // verus!
