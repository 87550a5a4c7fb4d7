//! A map from names to values that lists its entries in the order of their names.

use crate::text::chars_of;
use vstd::prelude::*;

verus! {

/// Dictionary order by code point: the order in which two names are listed.
pub open spec fn name_less(a: Seq<char>, b: Seq<char>) -> bool
    decreases a.len(),
{
    if b.len() == 0 {
        false
    } else if a.len() == 0 {
        true
    } else {
        a[0] < b[0] || (a[0] == b[0] && name_less(a.drop_first(), b.drop_first()))
    }
}

/// No name comes before itself.
pub proof fn lemma_name_less_irreflexive(a: Seq<char>)
    ensures
        !name_less(a, a),
    decreases a.len(),
{
    if a.len() > 0 {
        lemma_name_less_irreflexive(a.drop_first());
    }
}

/// The order of names is transitive.
pub proof fn lemma_name_less_transitive(a: Seq<char>, b: Seq<char>, c: Seq<char>)
    requires
        name_less(a, b),
        name_less(b, c),
    ensures
        name_less(a, c),
    decreases a.len(),
{
    if a.len() > 0 && a[0] == b[0] && b[0] == c[0] {
        lemma_name_less_transitive(a.drop_first(), b.drop_first(), c.drop_first());
    }
}

/// Of two different names one comes before the other.
pub proof fn lemma_name_less_total(a: Seq<char>, b: Seq<char>)
    ensures
        a == b || name_less(a, b) || name_less(b, a),
    decreases a.len(),
{
    if a.len() > 0 && b.len() > 0 && a[0] == b[0] {
        lemma_name_less_total(a.drop_first(), b.drop_first());
        if a.drop_first() == b.drop_first() {
            assert(a =~= seq![a[0]] + a.drop_first());
            assert(b =~= seq![b[0]] + b.drop_first());
        }
    } else if a.len() == 0 && b.len() == 0 {
        assert(a =~= b);
    }
}

/// Where two names part ways decides which comes first.
proof fn lemma_name_less_at(a: Seq<char>, b: Seq<char>, i: int)
    requires
        0 <= i <= a.len(),
        i <= b.len(),
        a.take(i) == b.take(i),
    ensures
        name_less(a, b) == name_less(a.skip(i), b.skip(i)),
    decreases i,
{
    if i == 0 {
        assert(a.skip(0) =~= a);
        assert(b.skip(0) =~= b);
    } else {
        assert(a[0] == a.take(i)[0]);
        assert(b[0] == b.take(i)[0]);
        assert(a.drop_first().take(i - 1) =~= a.take(i).drop_first());
        assert(b.drop_first().take(i - 1) =~= b.take(i).drop_first());
        lemma_name_less_at(a.drop_first(), b.drop_first(), i - 1);
        assert(a.drop_first().skip(i - 1) =~= a.skip(i));
        assert(b.drop_first().skip(i - 1) =~= b.skip(i));
    }
}

/// Whether `a` is listed before `b`.
pub fn name_precedes(a: &str, b: &str) -> (r: bool)
    ensures
        r == name_less(a@, b@),
{
    let x = chars_of(a);
    let y = chars_of(b);
    let mut i: usize = 0;
    while i < x.len() && i < y.len()
        invariant
            x@ == a@,
            y@ == b@,
            i <= x@.len(),
            i <= y@.len(),
            forall|j: int| 0 <= j < i ==> x@[j] == y@[j],
        decreases x@.len() - i,
    {
        if x[i] != y[i] {
            proof {
                assert(a@.take(i as int) =~= b@.take(i as int));
                lemma_name_less_at(a@, b@, i as int);
            }
            return x[i] < y[i];
        }
        i += 1;
    }
    proof {
        assert(a@.take(i as int) =~= b@.take(i as int));
        lemma_name_less_at(a@, b@, i as int);
    }
    i < y.len()
}

/// One entry of a [`NameMap`].
#[derive(Debug)]
pub struct NameEntry<V> {
    pub name: String,
    pub value: V,
}

/// A map keyed by name. Each name occurs once, and the entries stand in the order of their names.
#[derive(Debug)]
pub struct NameMap<V> {
    entries: Vec<NameEntry<V>>,
}

/// The entries of `s` as a map; of entries with one name any may count.
pub open spec fn entry_map<V>(s: Seq<NameEntry<V>>) -> Map<Seq<char>, V> {
    Map::new(
        |k: Seq<char>| exists|i: int| 0 <= i < s.len() && #[trigger] s[i].name@ == k,
        |k: Seq<char>| s[choose|i: int| 0 <= i < s.len() && #[trigger] s[i].name@ == k].value,
    )
}

/// Strictly ascending names.
pub open spec fn ascending<V>(s: Seq<NameEntry<V>>) -> bool {
    forall|i: int, j: int|
        0 <= i < j < s.len() ==> name_less(#[trigger] s[i].name@, #[trigger] s[j].name@)
}

/// In an ascending list an entry is found under its own name.
proof fn lemma_entry_map_at<V>(s: Seq<NameEntry<V>>, i: int)
    requires
        ascending(s),
        0 <= i < s.len(),
    ensures
        entry_map(s).contains_key(s[i].name@),
        entry_map(s)[s[i].name@] == s[i].value,
{
    let k = s[i].name@;
    let c = choose|j: int| 0 <= j < s.len() && #[trigger] s[j].name@ == k;
    assert(0 <= c < s.len() && s[c].name@ == k);
    lemma_name_less_irreflexive(k);
    if c < i {
        assert(name_less(s[c].name@, s[i].name@));
    } else if i < c {
        assert(name_less(s[i].name@, s[c].name@));
    }
}

/// An ascending list holds each name of its map once, with its value, and nothing else.
proof fn lemma_entries_are_listed<V>(s: Seq<NameEntry<V>>)
    requires
        ascending(s),
    ensures
        s.len() == entry_map(s).len(),
        forall|i: int|
            0 <= i < s.len() ==> entry_map(s).contains_key((#[trigger] s[i]).name@) && entry_map(
                s,
            )[s[i].name@] == s[i].value,
        forall|k: Seq<char>|
            entry_map(s).contains_key(k) ==> exists|i: int|
                0 <= i < s.len() && #[trigger] s[i].name@ == k,
        forall|i: int, j: int|
            0 <= i < j < s.len() ==> name_less(#[trigger] s[i].name@, #[trigger] s[j].name@),
{
    lemma_entry_map_len(s);
    assert forall|i: int| 0 <= i < s.len() implies entry_map(s).contains_key(
        (#[trigger] s[i]).name@,
    ) && entry_map(s)[s[i].name@] == s[i].value by {
        lemma_entry_map_at(s, i);
    }
}

/// Putting an entry at the place its name belongs to adds it to the map.
proof fn lemma_insert_entry<V>(s: Seq<NameEntry<V>>, at: int, e: NameEntry<V>)
    requires
        ascending(s),
        0 <= at <= s.len(),
        forall|i: int| 0 <= i < at ==> name_less(#[trigger] s[i].name@, e.name@),
        forall|i: int| at <= i < s.len() ==> name_less(e.name@, #[trigger] s[i].name@),
    ensures
        ascending(s.insert(at, e)),
        entry_map(s.insert(at, e)) == entry_map(s).insert(e.name@, e.value),
{
    let t = s.insert(at, e);
    assert forall|i: int, j: int| 0 <= i < j < t.len() implies name_less(
        #[trigger] t[i].name@,
        #[trigger] t[j].name@,
    ) by {
        if i < at && j < at {
            assert(t[i] == s[i] && t[j] == s[j]);
            assert(name_less(s[i].name@, s[j].name@));
        } else if i < at && j > at {
            assert(t[i] == s[i] && t[j] == s[j - 1]);
            assert(name_less(s[i].name@, s[j - 1].name@));
        } else if i > at {
            assert(t[i] == s[i - 1] && t[j] == s[j - 1]);
            assert(name_less(s[i - 1].name@, s[j - 1].name@));
        } else if i == at {
            assert(t[j] == s[j - 1]);
            assert(name_less(e.name@, s[j - 1].name@));
        } else {
            assert(t[i] == s[i]);
            assert(name_less(s[i].name@, e.name@));
        }
    }
    let want = entry_map(s).insert(e.name@, e.value);
    assert forall|k: Seq<char>| entry_map(t).contains_key(k) == want.contains_key(k) by {
        if entry_map(t).contains_key(k) {
            let i = choose|i: int| 0 <= i < t.len() && #[trigger] t[i].name@ == k;
            if i < at {
                assert(s[i].name@ == k);
            } else if i > at {
                assert(s[i - 1].name@ == k);
            }
        }
        if entry_map(s).contains_key(k) {
            let i = choose|i: int| 0 <= i < s.len() && #[trigger] s[i].name@ == k;
            if i < at {
                assert(t[i].name@ == k);
            } else {
                assert(t[i + 1].name@ == k);
            }
        }
        assert(t[at].name@ == e.name@);
    }
    assert forall|k: Seq<char>| entry_map(t).contains_key(k) implies entry_map(t)[k] == want[k] by {
        let i = choose|i: int| 0 <= i < t.len() && #[trigger] t[i].name@ == k;
        lemma_entry_map_at(t, i);
        lemma_name_less_irreflexive(k);
        if i < at {
            lemma_entry_map_at(s, i);
        } else if i > at {
            lemma_entry_map_at(s, i - 1);
        }
    }
    assert(entry_map(t) =~= want);
}

/// Replacing the value of an entry replaces it in the map.
proof fn lemma_update_entry<V>(s: Seq<NameEntry<V>>, at: int, e: NameEntry<V>)
    requires
        ascending(s),
        0 <= at < s.len(),
        s[at].name@ == e.name@,
    ensures
        ascending(s.update(at, e)),
        entry_map(s.update(at, e)) == entry_map(s).insert(e.name@, e.value),
{
    let t = s.update(at, e);
    assert forall|i: int, j: int| 0 <= i < j < t.len() implies name_less(
        #[trigger] t[i].name@,
        #[trigger] t[j].name@,
    ) by {
        assert(t[i].name@ == s[i].name@ && t[j].name@ == s[j].name@);
    }
    let want = entry_map(s).insert(e.name@, e.value);
    assert forall|k: Seq<char>| entry_map(t).contains_key(k) == want.contains_key(k) by {
        if entry_map(t).contains_key(k) {
            let i = choose|i: int| 0 <= i < t.len() && #[trigger] t[i].name@ == k;
            assert(s[i].name@ == k);
        }
        if entry_map(s).contains_key(k) {
            let i = choose|i: int| 0 <= i < s.len() && #[trigger] s[i].name@ == k;
            assert(t[i].name@ == k);
        }
        assert(t[at].name@ == e.name@);
    }
    assert forall|k: Seq<char>| entry_map(t).contains_key(k) implies entry_map(t)[k] == want[k] by {
        let i = choose|i: int| 0 <= i < t.len() && #[trigger] t[i].name@ == k;
        lemma_entry_map_at(t, i);
        lemma_entry_map_at(s, i);
        lemma_entry_map_at(t, at);
    }
    assert(entry_map(t) =~= want);
}

/// An ascending list is ascending without its last entry, which comes after all others.
proof fn lemma_ascending_drop_last<V>(s: Seq<NameEntry<V>>)
    requires
        ascending(s),
        s.len() > 0,
    ensures
        ascending(s.drop_last()),
        forall|i: int|
            0 <= i < s.len() - 1 ==> name_less(
                #[trigger] s.drop_last()[i].name@,
                s.last().name@,
            ),
{
    let rest = s.drop_last();
    assert forall|i: int, j: int| 0 <= i < j < rest.len() implies name_less(
        #[trigger] rest[i].name@,
        #[trigger] rest[j].name@,
    ) by {
        assert(rest[i] == s[i] && rest[j] == s[j]);
        assert(name_less(s[i].name@, s[j].name@));
    }
    assert forall|i: int| 0 <= i < rest.len() implies name_less(
        #[trigger] rest[i].name@,
        s.last().name@,
    ) by {
        assert(rest[i] == s[i]);
        assert(name_less(s[i].name@, s[s.len() - 1].name@));
    }
}

/// An ascending list has as many entries as its map.
proof fn lemma_entry_map_len<V>(s: Seq<NameEntry<V>>)
    requires
        ascending(s),
    ensures
        entry_map(s).dom().finite(),
        entry_map(s).len() == s.len(),
    decreases s.len(),
{
    if s.len() == 0 {
        assert(entry_map(s) =~= Map::<Seq<char>, V>::empty());
    } else {
        let rest = s.drop_last();
        let e = s.last();
        lemma_ascending_drop_last(s);
        lemma_entry_map_len(rest);
        lemma_insert_entry(rest, rest.len() as int, e);
        assert(rest.insert(rest.len() as int, e) =~= s);
        if entry_map(rest).contains_key(e.name@) {
            let i = choose|i: int| 0 <= i < rest.len() && #[trigger] rest[i].name@ == e.name@;
            assert(name_less(s[i].name@, s[s.len() - 1].name@));
            lemma_name_less_irreflexive(e.name@);
        }
        assert(entry_map(s).dom() =~= entry_map(rest).dom().insert(e.name@));
    }
}

/// Without its last entry an ascending list maps everything but the last name.
proof fn lemma_entry_map_drop_last<V>(s: Seq<NameEntry<V>>)
    requires
        ascending(s),
        s.len() > 0,
    ensures
        ascending(s.drop_last()),
        entry_map(s.drop_last()) == entry_map(s).remove(s.last().name@),
{
    let rest = s.drop_last();
    let e = s.last();
    lemma_ascending_drop_last(s);
    lemma_insert_entry(rest, rest.len() as int, e);
    assert(rest.insert(rest.len() as int, e) =~= s);
    if entry_map(rest).contains_key(e.name@) {
        let i = choose|i: int| 0 <= i < rest.len() && #[trigger] rest[i].name@ == e.name@;
        assert(name_less(s[i].name@, s[s.len() - 1].name@));
        lemma_name_less_irreflexive(e.name@);
    }
    assert(entry_map(rest) =~= entry_map(s).remove(e.name@));
}

/// A map can be listed in the order of its names in one way only.
pub proof fn law_one_listing<V>(a: Seq<NameEntry<V>>, b: Seq<NameEntry<V>>)
    requires
        ascending(a),
        ascending(b),
        entry_map(a) == entry_map(b),
    ensures
        a.len() == b.len(),
        forall|i: int|
            0 <= i < a.len() ==> (#[trigger] a[i]).name@ == b[i].name@ && a[i].value == b[i].value,
    decreases a.len(),
{
    lemma_entry_map_len(a);
    lemma_entry_map_len(b);
    if a.len() > 0 {
        let x = a.last().name@;
        let y = b.last().name@;
        lemma_entry_map_at(a, a.len() - 1);
        lemma_entry_map_at(b, b.len() - 1);
        assert(x == y) by {
            let j = choose|j: int| 0 <= j < b.len() && #[trigger] b[j].name@ == x;
            let i = choose|i: int| 0 <= i < a.len() && #[trigger] a[i].name@ == y;
            if j < b.len() - 1 && i < a.len() - 1 {
                assert(name_less(b[j].name@, b[b.len() - 1].name@));
                assert(name_less(a[i].name@, a[a.len() - 1].name@));
                lemma_name_less_transitive(x, y, x);
                lemma_name_less_irreflexive(x);
            }
        }
        lemma_entry_map_drop_last(a);
        lemma_entry_map_drop_last(b);
        law_one_listing(a.drop_last(), b.drop_last());
        assert forall|i: int| 0 <= i < a.len() implies (#[trigger] a[i]).name@ == b[i].name@
            && a[i].value == b[i].value by {
            if i < a.len() - 1 {
                assert(a.drop_last()[i] == a[i] && b.drop_last()[i] == b[i]);
            }
        }
    }
}

impl<V> View for NameMap<V> {
    type V = Map<Seq<char>, V>;

    closed spec fn view(&self) -> Map<Seq<char>, V> {
        entry_map(self.entries@)
    }
}

/// The number of entries whose names come before `name`.
fn position<V>(entries: &Vec<NameEntry<V>>, name: &str) -> (r: usize)
    requires
        ascending(entries@),
    ensures
        r <= entries@.len(),
        forall|i: int| 0 <= i < r ==> name_less(#[trigger] entries@[i].name@, name@),
        forall|i: int|
            r <= i < entries@.len() ==> !name_less(
                #[trigger] entries@[i].name@,
                name@,
            ),
{
    let mut lo: usize = 0;
    let mut hi: usize = entries.len();
    while lo < hi
        invariant
            ascending(entries@),
            lo <= hi <= entries@.len(),
            forall|i: int| 0 <= i < lo ==> name_less(#[trigger] entries@[i].name@, name@),
            forall|i: int|
                hi <= i < entries@.len() ==> !name_less(
                    #[trigger] entries@[i].name@,
                    name@,
                ),
        decreases hi - lo,
    {
        let mid: usize = lo + (hi - lo) / 2;
        let below = name_precedes(entries[mid].name.as_str(), name);
        proof {
            let m = entries@[mid as int].name@;
            assert forall|i: int| 0 <= i < mid && below implies name_less(
                #[trigger] entries@[i].name@,
                name@,
            ) by {
                lemma_name_less_transitive(entries@[i].name@, m, name@);
            }
            assert forall|i: int| mid < i < entries@.len() && !below implies !name_less(
                #[trigger] entries@[i].name@,
                name@,
            ) by {
                if name_less(entries@[i].name@, name@) {
                    lemma_name_less_transitive(m, entries@[i].name@, name@);
                }
            }
        }
        if below {
            lo = mid + 1;
        } else {
            hi = mid;
        }
    }
    lo
}

impl<V> NameMap<V> {
    /// The names are in order and each occurs once.
    #[verifier::type_invariant]
    spec fn in_order(self) -> bool {
        ascending(self.entries@)
    }

    pub fn new() -> (r: Self)
        ensures
            r@ == Map::<Seq<char>, V>::empty(),
    {
        let r = NameMap { entries: Vec::new() };
        assert(entry_map(r.entries@) =~= Map::<Seq<char>, V>::empty());
        r
    }

    /// The number of entries.
    pub fn len(&self) -> (r: usize)
        ensures
            r == self@.len(),
    {
        proof {
            use_type_invariant(self);
            lemma_entry_map_len(self.entries@);
        }
        self.entries.len()
    }

    /// All entries, each once, in the order of their names.
    pub fn entries(&self) -> (r: &Vec<NameEntry<V>>)
        ensures
            ascending(r@),
            entry_map(r@) == self@,
            r@.len() == self@.len(),
            forall|i: int|
                0 <= i < r@.len() ==> self@.contains_key((#[trigger] r@[i]).name@)
                    && self@[r@[i].name@] == r@[i].value,
            forall|k: Seq<char>|
                self@.contains_key(k) ==> exists|i: int|
                    0 <= i < r@.len() && #[trigger] r@[i].name@ == k,
            forall|i: int, j: int|
                0 <= i < j < r@.len() ==> name_less(#[trigger] r@[i].name@, #[trigger] r@[j].name@),
    {
        proof {
            use_type_invariant(self);
            lemma_entries_are_listed(self.entries@);
        }
        &self.entries
    }

    /// Gives up the entries, each once, in the order of their names.
    pub fn into_entries(self) -> (r: Vec<NameEntry<V>>)
        ensures
            ascending(r@),
            entry_map(r@) == self@,
            r@.len() == self@.len(),
            forall|i: int|
                0 <= i < r@.len() ==> self@.contains_key((#[trigger] r@[i]).name@)
                    && self@[r@[i].name@] == r@[i].value,
            forall|k: Seq<char>|
                self@.contains_key(k) ==> exists|i: int|
                    0 <= i < r@.len() && #[trigger] r@[i].name@ == k,
            forall|i: int, j: int|
                0 <= i < j < r@.len() ==> name_less(#[trigger] r@[i].name@, #[trigger] r@[j].name@),
    {
        proof {
            use_type_invariant(&self);
            lemma_entries_are_listed(self.entries@);
        }
        self.entries
    }

    /// Puts `value` under `name`, in place of what was there.
    pub fn insert(&mut self, name: String, value: V)
        ensures
            final(self)@ == old(self)@.insert(name@, value),
    {
        proof {
            use_type_invariant(&*self);
        }
        let ghost before = self.entries@;
        let mut entries: Vec<NameEntry<V>> = Vec::new();
        std::mem::swap(&mut entries, &mut self.entries);
        let at = position(&entries, name.as_str());
        let e = NameEntry { name, value };
        let ghost added = e;
        if at < entries.len() && !name_precedes(
            e.name.as_str(),
            entries[at].name.as_str(),
        ) {
            proof {
                lemma_name_less_total(e.name@, before[at as int].name@);
                lemma_update_entry(before, at as int, e);
            }
            entries.set(at, e);
            assert(entries@ =~= before.update(at as int, added));
        } else {
            proof {
                assert forall|i: int| at <= i < before.len() implies name_less(
                    e.name@,
                    #[trigger] before[i].name@,
                ) by {
                    if at < i {
                        lemma_name_less_transitive(
                            e.name@,
                            before[at as int].name@,
                            before[i].name@,
                        );
                    }
                }
                lemma_insert_entry(before, at as int, e);
            }
            entries.insert(at, e);
            assert(entries@ =~= before.insert(at as int, added));
        }
        self.entries = entries;
    }

    /// The value under `name`.
    pub fn get(&self, name: &str) -> (r: Option<&V>)
        ensures
            match r {
                Some(v) => self@.contains_key(name@) && *v == self@[name@],
                None => !self@.contains_key(name@),
            },
    {
        proof {
            use_type_invariant(self);
        }
        let at = position(&self.entries, name);
        if at < self.entries.len() && !name_precedes(name, self.entries[at].name.as_str()) {
            proof {
                lemma_name_less_total(name@, self.entries@[at as int].name@);
                lemma_entry_map_at(self.entries@, at as int);
            }
            Some(&self.entries[at].value)
        } else {
            proof {
                if self@.contains_key(name@) {
                    let i = choose|i: int|
                        0 <= i < self.entries@.len() && #[trigger] self.entries@[i].name@ == name@;
                    lemma_name_less_irreflexive(name@);
                    if at < i {
                        lemma_name_less_transitive(
                            name@,
                            self.entries@[at as int].name@,
                            self.entries@[i].name@,
                        );
                    }
                }
            }
            None
        }
    }
}

/// Names are listed by the first character in which they differ, and a name comes before every
/// longer one that begins with it.
pub proof fn law_name_order(a: Seq<char>, b: Seq<char>, k: int)
    requires
        0 <= k <= a.len(),
        k < b.len(),
        forall|i: int| 0 <= i < k ==> a[i] == b[i],
        k == a.len() || a[k] < b[k],
    ensures
        name_less(a, b),
        !name_less(b, a),
{
    assert(a.take(k) =~= b.take(k));
    lemma_name_less_at(a, b, k);
    lemma_name_less_at(b, a, k);
}

} // verus!
