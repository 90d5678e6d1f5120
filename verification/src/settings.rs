//! Locally staged plugin settings: for each plugin id, a table from field
//! key to value text. Both levels are association lists whose keys never
//! repeat; their views are maps.
use vstd::prelude::*;
use crate::text::same_text;

verus! {

/// The map that an association list denotes (a later pair overrides an earlier one).
pub open spec fn to_map<V>(pairs: Seq<(Seq<char>, V)>) -> Map<Seq<char>, V>
    decreases pairs.len(),
{
    if pairs.len() == 0 {
        Map::empty()
    } else {
        to_map(pairs.drop_last()).insert(pairs.last().0, pairs.last().1)
    }
}

/// The keys of an association list.
pub open spec fn keys_of<V>(pairs: Seq<(Seq<char>, V)>) -> Seq<Seq<char>> {
    pairs.map_values(|e: (Seq<char>, V)| e.0)
}

/// No key occurs twice.
pub open spec fn distinct(keys: Seq<Seq<char>>) -> bool {
    forall|i: int, j: int| 0 <= i < keys.len() && 0 <= j < keys.len() && i != j ==> keys[i] != keys[j]
}

/// A key is in the map exactly when it is the key of some pair.
pub proof fn lemma_to_map_dom<V>(pairs: Seq<(Seq<char>, V)>, k: Seq<char>)
    ensures
        to_map(pairs).contains_key(k) <==> keys_of(pairs).contains(k),
    decreases pairs.len(),
{
    if pairs.len() > 0 {
        lemma_to_map_dom(pairs.drop_last(), k);
        let ks = keys_of(pairs);
        let ks0 = keys_of(pairs.drop_last());
        assert(ks0 =~= ks.drop_last());
        if ks.contains(k) && k != pairs.last().0 {
            let i = choose|i: int| 0 <= i < ks.len() && ks[i] == k;
            assert(i < ks.len() - 1);
            assert(ks0[i] == k);
        }
        if ks0.contains(k) {
            let i = choose|i: int| 0 <= i < ks0.len() && ks0[i] == k;
            assert(ks[i] == k);
        }
        if k == pairs.last().0 {
            assert(ks[ks.len() - 1] == k);
        }
    }
}

/// The map is finite.
pub proof fn lemma_to_map_finite<V>(pairs: Seq<(Seq<char>, V)>)
    ensures
        to_map(pairs).dom().finite(),
    decreases pairs.len(),
{
    if pairs.len() > 0 {
        lemma_to_map_finite(pairs.drop_last());
    }
}

/// With distinct keys, the value at the key of pair `i` is the value of pair `i`.
pub proof fn lemma_to_map_at<V>(pairs: Seq<(Seq<char>, V)>, i: int)
    requires
        distinct(keys_of(pairs)),
        0 <= i < pairs.len(),
    ensures
        to_map(pairs).contains_key(pairs[i].0),
        to_map(pairs)[pairs[i].0] == pairs[i].1,
    decreases pairs.len(),
{
    if i < pairs.len() - 1 {
        let rest = pairs.drop_last();
        assert(keys_of(rest) =~= keys_of(pairs).drop_last());
        lemma_to_map_at(rest, i);
        assert(keys_of(pairs)[i] != keys_of(pairs)[pairs.len() - 1]);
    }
}

/// With distinct keys, replacing the value of pair `i` is an insertion into the map.
pub proof fn lemma_to_map_update<V>(pairs: Seq<(Seq<char>, V)>, i: int, v: V)
    requires
        distinct(keys_of(pairs)),
        0 <= i < pairs.len(),
    ensures
        to_map(pairs.update(i, (pairs[i].0, v))) == to_map(pairs).insert(pairs[i].0, v),
    decreases pairs.len(),
{
    let upd = pairs.update(i, (pairs[i].0, v));
    if i == pairs.len() - 1 {
        assert(upd.drop_last() =~= pairs.drop_last());
        assert(to_map(upd) =~= to_map(pairs).insert(pairs[i].0, v));
    } else {
        let rest = pairs.drop_last();
        assert(keys_of(rest) =~= keys_of(pairs).drop_last());
        lemma_to_map_update(rest, i, v);
        assert(upd.drop_last() =~= rest.update(i, (rest[i].0, v)));
        assert(keys_of(pairs)[i] != keys_of(pairs)[pairs.len() - 1]);
        assert(to_map(upd) =~= to_map(pairs).insert(pairs[i].0, v));
    }
}

/// The stored values of one plugin, keyed by field key.
pub struct FieldValues {
    entries: Vec<(String, String)>,
}

impl FieldValues {
    /// The pairs, as texts.
    pub closed spec fn pairs(self) -> Seq<(Seq<char>, Seq<char>)> {
        self.entries@.map_values(|e: (String, String)| (e.0@, e.1@))
    }

    #[verifier::type_invariant]
    closed spec fn keys_distinct(self) -> bool {
        distinct(keys_of(self.pairs()))
    }

    /// The number of stored pairs.
    pub closed spec fn size(self) -> nat {
        self.entries@.len()
    }

    /// No values.
    pub fn new() -> (r: Self)
        ensures
            r@ == Map::<Seq<char>, Seq<char>>::empty(),
            r.size() == 0,
    {
        let r = FieldValues { entries: Vec::new() };
        assert(r.pairs() =~= Seq::<(Seq<char>, Seq<char>)>::empty());
        r
    }

    fn find(&self, key: &str) -> (r: Option<usize>)
        ensures
            r matches Some(i) ==> i < self.size() && self.pairs()[i as int].0 == key@,
            r is None ==> !keys_of(self.pairs()).contains(key@),
    {
        let mut i: usize = 0;
        while i < self.entries.len()
            invariant
                i <= self.entries.len(),
                forall|j: int| 0 <= j < i ==> self.pairs()[j].0 != key@,
            decreases self.entries.len() - i,
        {
            if same_text(self.entries[i].0.as_str(), key) {
                return Some(i);
            }
            i += 1;
        }
        assert forall|j: int| 0 <= j < keys_of(self.pairs()).len() implies keys_of(self.pairs())[j]
            != key@ by {}
        None
    }

    /// The value stored under `key`, if any.
    pub fn get(&self, key: &str) -> (r: Option<&String>)
        ensures
            r is Some == self@.contains_key(key@),
            r matches Some(v) ==> v@ == self@[key@],
    {
        proof {
            use_type_invariant(self);
            lemma_to_map_dom(self.pairs(), key@);
        }
        match self.find(key) {
            Some(i) => {
                proof {
                    lemma_to_map_at(self.pairs(), i as int);
                }
                Some(&self.entries[i].1)
            },
            None => None,
        }
    }

    /// Stores `value` under `key`, replacing what was there.
    pub fn insert(&mut self, key: String, value: String)
        ensures
            final(self)@ == old(self)@.insert(key@, value@),
            final(self).size() == old(self).size() + if old(self)@.contains_key(key@) {
                0int
            } else {
                1int
            },
    {
        proof {
            use_type_invariant(&*self);
            lemma_to_map_dom(self.pairs(), key@);
        }
        let ghost old_pairs = self.pairs();
        let found = self.find(key.as_str());
        let mut entries: Vec<(String, String)> = Vec::new();
        std::mem::swap(&mut entries, &mut self.entries);
        let ghost spec_of = |es: Seq<(String, String)>| es.map_values(|e: (String, String)| (e.0@, e.1@));
        assert(spec_of(entries@) == old_pairs);
        match found {
            Some(i) => {
                proof {
                    lemma_to_map_update(old_pairs, i as int, value@);
                }
                entries.set(i, (key, value));
                assert(spec_of(entries@) =~= old_pairs.update(i as int, (old_pairs[i as int].0, value@)));
                assert(keys_of(spec_of(entries@)) =~= keys_of(old_pairs));
                assert(keys_of(old_pairs)[i as int] == key@);
            },
            None => {
                entries.push((key, value));
                assert(spec_of(entries@).drop_last() =~= old_pairs);
                assert(keys_of(spec_of(entries@)) =~= keys_of(old_pairs).push(key@));
            },
        }
        self.entries = entries;
    }

    /// The number of stored pairs.
    pub fn len(&self) -> (n: usize)
        ensures
            n == self.size(),
    {
        self.entries.len()
    }

    /// The `i`-th stored pair: a key and its value.
    pub fn entry(&self, i: usize) -> (r: (&String, &String))
        requires
            i < self.size(),
        ensures
            r.0@ == self.pairs()[i as int].0,
            r.1@ == self.pairs()[i as int].1,
            self@.contains_key(r.0@),
            self@[r.0@] == r.1@,
    {
        proof {
            use_type_invariant(self);
            lemma_to_map_at(self.pairs(), i as int);
        }
        (&self.entries[i].0, &self.entries[i].1)
    }

    /// A copy with the same pairs.
    pub fn copy(&self) -> (r: Self)
        ensures
            r@ == self@,
            r.pairs() == self.pairs(),
            r.size() == self.size(),
    {
        proof {
            use_type_invariant(self);
        }
        let mut entries: Vec<(String, String)> = Vec::new();
        let mut i: usize = 0;
        while i < self.entries.len()
            invariant
                i <= self.entries.len(),
                entries@.len() == i,
                forall|j: int|
                    0 <= j < i ==> #[trigger] entries@[j].0@ == self.entries@[j].0@ && entries@[j].1@
                        == self.entries@[j].1@,
            decreases self.entries.len() - i,
        {
            let k = self.entries[i].0.clone();
            let v = self.entries[i].1.clone();
            entries.push((k, v));
            i += 1;
        }
        assert(entries@.map_values(|e: (String, String)| (e.0@, e.1@)) =~= self.pairs());
        let r = FieldValues { entries };
        r
    }
}

impl View for FieldValues {
    type V = Map<Seq<char>, Seq<char>>;

    closed spec fn view(&self) -> Map<Seq<char>, Seq<char>> {
        to_map(self.pairs())
    }
}

/// The values of one plugin in a table: its row, or no values.
pub open spec fn row_of(
    table: Map<Seq<char>, Map<Seq<char>, Seq<char>>>,
    plugin: Seq<char>,
) -> Map<Seq<char>, Seq<char>> {
    if table.contains_key(plugin) {
        table[plugin]
    } else {
        Map::empty()
    }
}

/// The table after `value` is stored under (`plugin`, `key`).
pub open spec fn stored(
    table: Map<Seq<char>, Map<Seq<char>, Seq<char>>>,
    plugin: Seq<char>,
    key: Seq<char>,
    value: Seq<char>,
) -> Map<Seq<char>, Map<Seq<char>, Seq<char>>> {
    table.insert(plugin, row_of(table, plugin).insert(key, value))
}

/// What a lookup of (`plugin`, `key`) finds in a table.
pub open spec fn lookup(
    table: Map<Seq<char>, Map<Seq<char>, Seq<char>>>,
    plugin: Seq<char>,
    key: Seq<char>,
) -> Option<Seq<char>> {
    if table.contains_key(plugin) && table[plugin].contains_key(key) {
        Some(table[plugin][key])
    } else {
        None
    }
}

/// `base` after every pair of `incoming` is stored into it: each incoming value
/// replaces the one under the same plugin and key; a plugin whose incoming row
/// is empty is left as it was.
pub open spec fn merged(
    base: Map<Seq<char>, Map<Seq<char>, Seq<char>>>,
    incoming: Map<Seq<char>, Map<Seq<char>, Seq<char>>>,
) -> Map<Seq<char>, Map<Seq<char>, Seq<char>>> {
    Map::new(
        |p: Seq<char>|
            base.contains_key(p) || (incoming.contains_key(p) && incoming[p] != Map::<
                Seq<char>,
                Seq<char>,
            >::empty()),
        |p: Seq<char>|
            if incoming.contains_key(p) {
                row_of(base, p).union_prefer_right(incoming[p])
            } else {
                base[p]
            },
    )
}

/// The number of pairs in the rows of a table.
pub open spec fn pair_total(rows: Seq<(String, FieldValues)>) -> nat
    decreases rows.len(),
{
    if rows.len() == 0 {
        0
    } else {
        pair_total(rows.drop_last()) + rows.last().1.size()
    }
}

proof fn lemma_pair_total_prefix(rows: Seq<(String, FieldValues)>, i: int)
    requires
        0 <= i < rows.len(),
    ensures
        pair_total(rows.take(i + 1)) == pair_total(rows.take(i)) + rows[i].1.size(),
        pair_total(rows.take(i + 1)) <= pair_total(rows),
    decreases rows.len(),
{
    assert(rows.take(i + 1).drop_last() =~= rows.take(i));
    if i + 1 < rows.len() {
        lemma_pair_total_prefix(rows.drop_last(), i);
        assert(rows.drop_last().take(i + 1) =~= rows.take(i + 1));
        assert(rows.drop_last().take(i) =~= rows.take(i));
    } else {
        assert(rows.take(i + 1) =~= rows);
    }
}

proof fn lemma_pair_total_update(rows: Seq<(String, FieldValues)>, i: int, e: (String, FieldValues))
    requires
        0 <= i < rows.len(),
    ensures
        pair_total(rows.update(i, e)) + rows[i].1.size() == pair_total(rows) + e.1.size(),
    decreases rows.len(),
{
    let upd = rows.update(i, e);
    if i < rows.len() - 1 {
        lemma_pair_total_update(rows.drop_last(), i, e);
        assert(upd.drop_last() =~= rows.drop_last().update(i, e));
    } else {
        assert(upd.drop_last() =~= rows.drop_last());
    }
}

proof fn lemma_pair_total_same(a: Seq<(String, FieldValues)>, b: Seq<(String, FieldValues)>)
    requires
        a.len() == b.len(),
        forall|j: int| 0 <= j < a.len() ==> #[trigger] a[j].1.size() == b[j].1.size(),
    ensures
        pair_total(a) == pair_total(b),
    decreases a.len(),
{
    if a.len() > 0 {
        lemma_pair_total_same(a.drop_last(), b.drop_last());
    }
}

proof fn lemma_not_in_prefix<V>(pairs: Seq<(Seq<char>, V)>, i: int)
    requires
        distinct(keys_of(pairs)),
        0 <= i < pairs.len(),
    ensures
        !keys_of(pairs.take(i)).contains(pairs[i].0),
{
    if keys_of(pairs.take(i)).contains(pairs[i].0) {
        let j = choose|j: int| 0 <= j < keys_of(pairs.take(i)).len() && keys_of(pairs.take(i))[j] == pairs[i].0;
        assert(keys_of(pairs)[j] == keys_of(pairs)[i]);
    }
}

/// For each plugin id, the values staged for it.
pub struct SettingsTable {
    entries: Vec<(String, FieldValues)>,
}

impl SettingsTable {
    /// The rows, as texts and maps.
    pub closed spec fn rows(self) -> Seq<(Seq<char>, Map<Seq<char>, Seq<char>>)> {
        self.entries@.map_values(|e: (String, FieldValues)| (e.0@, e.1@))
    }

    #[verifier::type_invariant]
    closed spec fn ids_distinct(self) -> bool {
        distinct(keys_of(self.rows()))
    }

    /// The number of plugin rows.
    pub closed spec fn size(self) -> nat {
        self.entries@.len()
    }

    /// The number of (plugin, key) pairs stored.
    pub closed spec fn pair_count(self) -> nat {
        pair_total(self.entries@)
    }

    /// No rows.
    pub fn new() -> (r: Self)
        ensures
            r@ == Map::<Seq<char>, Map<Seq<char>, Seq<char>>>::empty(),
            r.size() == 0,
            r.pair_count() == 0,
    {
        let r = SettingsTable { entries: Vec::new() };
        assert(r.rows() =~= Seq::<(Seq<char>, Map<Seq<char>, Seq<char>>)>::empty());
        r
    }

    fn find(&self, id: &str) -> (r: Option<usize>)
        ensures
            r matches Some(i) ==> i < self.size() && self.rows()[i as int].0 == id@,
            r is None ==> !keys_of(self.rows()).contains(id@),
    {
        let mut i: usize = 0;
        while i < self.entries.len()
            invariant
                i <= self.entries.len(),
                forall|j: int| 0 <= j < i ==> self.rows()[j].0 != id@,
            decreases self.entries.len() - i,
        {
            if same_text(self.entries[i].0.as_str(), id) {
                return Some(i);
            }
            i += 1;
        }
        assert forall|j: int| 0 <= j < keys_of(self.rows()).len() implies keys_of(self.rows())[j]
            != id@ by {}
        None
    }

    /// The values staged for plugin `id`, if it has a row.
    pub fn row(&self, id: &str) -> (r: Option<&FieldValues>)
        ensures
            r is Some == self@.contains_key(id@),
            r matches Some(v) ==> v@ == self@[id@],
    {
        proof {
            use_type_invariant(self);
            lemma_to_map_dom(self.rows(), id@);
        }
        match self.find(id) {
            Some(i) => {
                proof {
                    lemma_to_map_at(self.rows(), i as int);
                }
                Some(&self.entries[i].1)
            },
            None => None,
        }
    }

    /// The value staged for (`plugin_id`, `key`), if any.
    pub fn lookup(&self, plugin_id: &str, key: &str) -> (r: Option<&String>)
        ensures
            r is Some == (lookup(self@, plugin_id@, key@) is Some),
            r matches Some(v) ==> lookup(self@, plugin_id@, key@) == Some(v@),
    {
        match self.row(plugin_id) {
            Some(row) => row.get(key),
            None => None,
        }
    }

    /// The number of plugin rows.
    pub fn len(&self) -> (n: usize)
        ensures
            n == self.size(),
    {
        self.entries.len()
    }

    /// Whether nothing is staged for any plugin.
    pub fn is_empty(&self) -> (b: bool)
        ensures
            b == (self.size() == 0),
            b == (self@ == Map::<Seq<char>, Map<Seq<char>, Seq<char>>>::empty()),
    {
        proof {
            if self.size() > 0 {
                let last = self.rows().last().0;
                lemma_to_map_dom(self.rows(), last);
                assert(keys_of(self.rows())[self.size() - 1] == last);
                assert(self@.contains_key(last));
            }
        }
        self.entries.len() == 0
    }

    /// The `i`-th row: a plugin id and its values.
    pub fn entry(&self, i: usize) -> (r: (&String, &FieldValues))
        requires
            i < self.size(),
        ensures
            r.0@ == self.rows()[i as int].0,
            self@.contains_key(r.0@),
            self@[r.0@] == r.1@,
    {
        proof {
            use_type_invariant(self);
            lemma_to_map_at(self.rows(), i as int);
        }
        (&self.entries[i].0, &self.entries[i].1)
    }

    /// A copy with the same rows.
    pub fn copy(&self) -> (r: Self)
        ensures
            r@ == self@,
            r.pair_count() == self.pair_count(),
    {
        proof {
            use_type_invariant(self);
        }
        let mut entries: Vec<(String, FieldValues)> = Vec::new();
        let mut i: usize = 0;
        while i < self.entries.len()
            invariant
                i <= self.entries.len(),
                entries@.len() == i,
                forall|j: int|
                    0 <= j < i ==> #[trigger] entries@[j].0@ == self.entries@[j].0@ && entries@[j].1@
                        == self.entries@[j].1@ && entries@[j].1.size() == self.entries@[j].1.size(),
            decreases self.entries.len() - i,
        {
            let id = self.entries[i].0.clone();
            let row = self.entries[i].1.copy();
            entries.push((id, row));
            i += 1;
        }
        assert(entries@.map_values(|e: (String, FieldValues)| (e.0@, e.1@)) =~= self.rows());
        proof {
            assert forall|j: int| 0 <= j < entries@.len() implies #[trigger] entries@[j].1.size()
                == self.entries@[j].1.size() by {
                assert(entries@[j].0@ == self.entries@[j].0@);
            }
            lemma_pair_total_same(entries@, self.entries@);
        }
        SettingsTable { entries }
    }

    /// Stores every pair of `incoming`, returning how many pairs were stored.
    pub fn merge(&mut self, incoming: &SettingsTable) -> (count: usize)
        requires
            incoming.pair_count() <= usize::MAX,
        ensures
            final(self)@ == merged(old(self)@, incoming@),
            count == incoming.pair_count(),
    {
        proof {
            use_type_invariant(incoming);
        }
        let ghost base = self@;
        let ghost in_rows = incoming.rows();
        let mut count: usize = 0;
        let mut i: usize = 0;
        assert(in_rows.take(0) =~= Seq::<(Seq<char>, Map<Seq<char>, Seq<char>>)>::empty());
        assert(merged(base, to_map(in_rows.take(0))) =~= base);
        while i < incoming.entries.len()
            invariant
                in_rows == incoming.rows(),
                distinct(keys_of(in_rows)),
                i <= incoming.entries.len(),
                self@ == merged(base, to_map(in_rows.take(i as int))),
                count == pair_total(incoming.entries@.take(i as int)),
                incoming.pair_count() <= usize::MAX,
            decreases incoming.entries.len() - i,
        {
            let pid = &incoming.entries[i].0;
            let row = &incoming.entries[i].1;
            let ghost m_i = merged(base, to_map(in_rows.take(i as int)));
            let ghost p = pid@;
            proof {
                lemma_pair_total_prefix(incoming.entries@, i as int);
                assert(in_rows[i as int].0 == p);
                lemma_not_in_prefix(in_rows, i as int);
                lemma_to_map_dom(in_rows.take(i as int), p);
                assert(row_of(m_i, p) == row_of(base, p));
            }
            let mut j: usize = 0;
            proof {
                use_type_invariant(row);
            }
            while j < row.len()
                invariant
                    0 <= j <= row.size(),
                    p == pid@,
                    !to_map(in_rows.take(i as int)).contains_key(p),
                    row_of(m_i, p) == row_of(base, p),
                    j == 0 ==> self@ == m_i,
                    j > 0 ==> self@ == m_i.insert(
                        p,
                        row_of(base, p).union_prefer_right(to_map(row.pairs().take(j as int))),
                    ),
                    count + row.size() - j <= usize::MAX,
                    count == pair_total(incoming.entries@.take(i as int)) + j,
                decreases row.size() - j,
            {
                let (k, v) = row.entry(j);
                let ghost before = self@;
                self.store(pid.as_str(), k.as_str(), v.clone());
                proof {
                    let x = to_map(row.pairs().take(j as int));
                    assert(row.pairs().take(j + 1).drop_last() =~= row.pairs().take(j as int));
                    assert(row.pairs().take(j + 1).last() == row.pairs()[j as int]);
                    assert(to_map(row.pairs().take(j + 1)) == x.insert(k@, v@));
                    if j == 0 {
                        assert(row.pairs().take(0) =~= Seq::<(Seq<char>, Seq<char>)>::empty());
                        assert(row_of(before, p) == row_of(base, p));
                    } else {
                        assert(row_of(before, p) == row_of(base, p).union_prefer_right(x));
                    }
                    assert(row_of(base, p).union_prefer_right(x.insert(k@, v@)) =~= row_of(
                        before,
                        p,
                    ).insert(k@, v@));
                    assert(self@ =~= m_i.insert(
                        p,
                        row_of(base, p).union_prefer_right(to_map(row.pairs().take(j + 1))),
                    ));
                }
                count = count + 1;
                j = j + 1;
            }
            proof {
                assert(row.pairs().take(row.size() as int) =~= row.pairs());
                assert(in_rows.take(i + 1).drop_last() =~= in_rows.take(i as int));
                assert(in_rows[i as int].1 == row@);
                assert(in_rows.take(i + 1).last() == in_rows[i as int]);
                assert(to_map(in_rows.take(i + 1)) == to_map(in_rows.take(i as int)).insert(p, row@));
                if row.size() > 0 {
                    let lk = row.pairs().last().0;
                    lemma_to_map_dom(row.pairs(), lk);
                    assert(keys_of(row.pairs())[row.size() - 1] == lk);
                    assert(row@.contains_key(lk));
                    assert(row@ != Map::<Seq<char>, Seq<char>>::empty());
                } else {
                    assert(row.pairs() =~= Seq::<(Seq<char>, Seq<char>)>::empty());
                    assert(row@ == Map::<Seq<char>, Seq<char>>::empty());
                    assert(row_of(base, p).union_prefer_right(row@) =~= row_of(base, p));
                }
                assert(self@ =~= merged(base, to_map(in_rows.take(i + 1))));
            }
            i = i + 1;
        }
        assert(in_rows.take(i as int) =~= in_rows);
        assert(incoming.entries@.take(i as int) =~= incoming.entries@);
        count
    }

    /// Makes sure plugin `id` has a row, adding an empty one if it has none.
    pub fn ensure_row(&mut self, id: &str)
        ensures
            final(self)@ == old(self)@.insert(id@, row_of(old(self)@, id@)),
            final(self).pair_count() == old(self).pair_count(),
    {
        proof {
            use_type_invariant(&*self);
            lemma_to_map_dom(self.rows(), id@);
        }
        let ghost old_rows = self.rows();
        let ghost old_entries = self.entries@;
        match self.find(id) {
            Some(i) => {
                proof {
                    lemma_to_map_at(old_rows, i as int);
                    assert(old(self)@.insert(id@, row_of(old(self)@, id@)) =~= old(self)@);
                }
            },
            None => {
                let mut entries: Vec<(String, FieldValues)> = Vec::new();
                std::mem::swap(&mut entries, &mut self.entries);
                let ghost spec_of = |es: Seq<(String, FieldValues)>|
                    es.map_values(|e: (String, FieldValues)| (e.0@, e.1@));
                assert(spec_of(entries@) == old_rows);
                let row = FieldValues::new();
                entries.push((id.to_owned(), row));
                assert(spec_of(entries@).drop_last() =~= old_rows);
                assert(keys_of(spec_of(entries@)) =~= keys_of(old_rows).push(id@));
                assert(entries@.drop_last() =~= old_entries);
                self.entries = entries;
            },
        }
    }

    /// Stores `value` under (`plugin_id`, `key`), creating the plugin's row if needed.
    pub fn store(&mut self, plugin_id: &str, key: &str, value: String)
        ensures
            final(self)@ == stored(old(self)@, plugin_id@, key@, value@),
            final(self).pair_count() == old(self).pair_count() + if lookup(
                old(self)@,
                plugin_id@,
                key@,
            ) is Some {
                0int
            } else {
                1int
            },
    {
        proof {
            use_type_invariant(&*self);
            lemma_to_map_dom(self.rows(), plugin_id@);
        }
        let ghost old_rows = self.rows();
        let ghost old_entries = self.entries@;
        let found = self.find(plugin_id);
        let mut entries: Vec<(String, FieldValues)> = Vec::new();
        std::mem::swap(&mut entries, &mut self.entries);
        let ghost spec_of = |es: Seq<(String, FieldValues)>|
            es.map_values(|e: (String, FieldValues)| (e.0@, e.1@));
        assert(spec_of(entries@) == old_rows);
        match found {
            Some(i) => {
                proof {
                    lemma_to_map_at(old_rows, i as int);
                }
                let (id, mut row) = entries.remove(i);
                row.insert(key.to_owned(), value);
                proof {
                    lemma_to_map_update(old_rows, i as int, row@);
                    assert(keys_of(old_rows)[i as int] == plugin_id@);
                }
                entries.insert(i, (id, row));
                assert(spec_of(entries@) =~= old_rows.update(i as int, (old_rows[i as int].0, row@)));
                assert(keys_of(spec_of(entries@)) =~= keys_of(old_rows));
                proof {
                    assert(entries@ =~= old_entries.update(i as int, entries@[i as int]));
                    lemma_pair_total_update(old_entries, i as int, entries@[i as int]);
                }
            },
            None => {
                let mut row = FieldValues::new();
                row.insert(key.to_owned(), value);
                entries.push((plugin_id.to_owned(), row));
                assert(spec_of(entries@).drop_last() =~= old_rows);
                assert(keys_of(spec_of(entries@)) =~= keys_of(old_rows).push(plugin_id@));
                assert(entries@.drop_last() =~= old_entries);
            },
        }
        self.entries = entries;
    }
}

impl View for SettingsTable {
    type V = Map<Seq<char>, Map<Seq<char>, Seq<char>>>;

    closed spec fn view(&self) -> Map<Seq<char>, Map<Seq<char>, Seq<char>>> {
        to_map(self.rows())
    }
}

/// The locally staged settings: values that the settings screen saves for
/// each plugin, kept apart from the shell's own configuration.
pub struct LocalSettings {
    pub values: SettingsTable,
}

impl LocalSettings {
    /// Stores `value` for field `key` of plugin `plugin_id`, replacing what was there.
    pub fn set(&mut self, plugin_id: &str, key: &str, value: String)
        ensures
            final(self).values@ == stored(old(self).values@, plugin_id@, key@, value@),
    {
        self.values.store(plugin_id, key, value);
    }

    /// The value staged for field `key` of plugin `plugin_id`, if any.
    pub fn get(&self, plugin_id: &str, key: &str) -> (r: Option<&String>)
        ensures
            r is Some == (lookup(self.values@, plugin_id@, key@) is Some),
            r matches Some(v) ==> lookup(self.values@, plugin_id@, key@) == Some(v@),
    {
        self.values.lookup(plugin_id, key)
    }
}

impl Default for LocalSettings {
    fn default() -> (r: Self)
        ensures
            r.values@ == Map::<Seq<char>, Map<Seq<char>, Seq<char>>>::empty(),
    {
        LocalSettings { values: SettingsTable::new() }
    }
}

/// Reading back what was just stored gives the stored value, and storing
/// leaves every other (plugin, key) pair as it was.
pub proof fn law_get_after_set(
    table: Map<Seq<char>, Map<Seq<char>, Seq<char>>>,
    plugin: Seq<char>,
    key: Seq<char>,
    value: Seq<char>,
    other_plugin: Seq<char>,
    other_key: Seq<char>,
)
    ensures
        lookup(stored(table, plugin, key, value), plugin, key) == Some(value),
        other_plugin != plugin || other_key != key ==> lookup(
            stored(table, plugin, key, value),
            other_plugin,
            other_key,
        ) == lookup(table, other_plugin, other_key),
{
}

/// After a merge, a (plugin, key) pair reads as the incoming value when the
/// incoming table has one, and as before otherwise.
pub proof fn law_merge_lookup(
    base: Map<Seq<char>, Map<Seq<char>, Seq<char>>>,
    incoming: Map<Seq<char>, Map<Seq<char>, Seq<char>>>,
    plugin: Seq<char>,
    key: Seq<char>,
)
    ensures
        lookup(merged(base, incoming), plugin, key) == if lookup(incoming, plugin, key) is Some {
            lookup(incoming, plugin, key)
        } else {
            lookup(base, plugin, key)
        },
{
    if incoming.contains_key(plugin) && incoming[plugin].contains_key(key) {
        assert(incoming[plugin] != Map::<Seq<char>, Seq<char>>::empty()) by {
            assert(!Map::<Seq<char>, Seq<char>>::empty().contains_key(key));
        }
    }
}

} // verus!
