//! Maps and sets keyed by text, kept in byte order.

use crate::text;
use vstd::prelude::*;

verus! {

/// `left` and `right` agree before `at`, and there `left` ends or holds the smaller byte.
pub open spec fn smaller_at(left: Seq<u8>, right: Seq<u8>, at: int) -> bool {
    &&& 0 <= at <= left.len()
    &&& at < right.len()
    &&& forall|j: int| 0 <= j < at ==> #[trigger] left[j] == right[j]
    &&& at == left.len() || left[at] < right[at]
}

/// Lexicographic byte order.
pub open spec fn precedes(left: Seq<u8>, right: Seq<u8>) -> bool {
    exists|at: int| #[trigger] smaller_at(left, right, at)
}

/// The byte order is irreflexive and asymmetric.
pub proof fn lemma_precedes_asymmetric(left: Seq<u8>, right: Seq<u8>)
    requires
        precedes(left, right),
    ensures
        !precedes(right, left),
        left != right,
{
    let at = choose|at: int| #[trigger] smaller_at(left, right, at);
    if precedes(right, left) {
        let back = choose|back: int| #[trigger] smaller_at(right, left, back);
        if at < back {
            assert(right[at] == left[at]);
        } else if back < at {
            assert(left[back] == right[back]);
        }
    }
}

/// The byte order is transitive.
pub proof fn lemma_precedes_transitive(a: Seq<u8>, b: Seq<u8>, c: Seq<u8>)
    requires
        precedes(a, b),
        precedes(b, c),
    ensures
        precedes(a, c),
{
    let first = choose|at: int| #[trigger] smaller_at(a, b, at);
    let second = choose|at: int| #[trigger] smaller_at(b, c, at);
    let at = if first < second {
        first
    } else {
        second
    };
    assert forall|j: int| 0 <= j < at implies #[trigger] a[j] == c[j] by {
        assert(a[j] == b[j]);
        assert(b[j] == c[j]);
    }
    if first < second {
        assert(b[first] == c[first]);
    } else if second < first {
        assert(a[second] == b[second]);
    }
    assert(smaller_at(a, c, at));
}

/// Where one byte sequence stands relative to another.
#[derive(Clone, Copy, Debug, PartialEq, Eq, Structural)]
pub enum Rank {
    Before,
    Same,
    After,
}

/// Ranks two byte sequences lexicographically.
pub fn rank(left: &[u8], right: &[u8]) -> (r: Rank)
    ensures
        r is Before <==> precedes(left@, right@),
        r is Same <==> left@ == right@,
        r is After <==> precedes(right@, left@),
{
    let mut i: usize = 0;
    while i < left.len() && i < right.len()
        invariant
            i <= left.len(),
            i <= right.len(),
            forall|j: int| 0 <= j < i ==> #[trigger] left@[j] == right@[j],
        decreases left.len() - i,
    {
        if left[i] < right[i] {
            proof {
                assert(smaller_at(left@, right@, i as int));
                lemma_precedes_asymmetric(left@, right@);
            }
            return Rank::Before;
        }
        if right[i] < left[i] {
            proof {
                assert(smaller_at(right@, left@, i as int));
                lemma_precedes_asymmetric(right@, left@);
            }
            return Rank::After;
        }
        i += 1;
    }
    if left.len() < right.len() {
        proof {
            assert(smaller_at(left@, right@, i as int));
            lemma_precedes_asymmetric(left@, right@);
        }
        Rank::Before
    } else if right.len() < left.len() {
        proof {
            assert(smaller_at(right@, left@, i as int));
            lemma_precedes_asymmetric(right@, left@);
        }
        Rank::After
    } else {
        proof {
            assert(left@ =~= right@);
            if precedes(left@, right@) {
                lemma_precedes_asymmetric(left@, right@);
            }
        }
        Rank::Same
    }
}

/// The rows stand in strictly increasing key order.
pub open spec fn ordered<T>(rows: Seq<(String, T)>) -> bool {
    forall|i: int, j: int|
        0 <= i < j < rows.len() ==> precedes(
            text::utf8(#[trigger] rows[i].0@),
            text::utf8(#[trigger] rows[j].0@),
        )
}

/// Some row of `rows` is keyed by `key`.
pub open spec fn keyed<T>(rows: Seq<(String, T)>, key: Seq<char>) -> bool {
    exists|i: int| 0 <= i < rows.len() && #[trigger] rows[i].0@ == key
}

/// The position of the row keyed by `key`.
pub open spec fn position<T>(rows: Seq<(String, T)>, key: Seq<char>) -> int {
    choose|i: int| 0 <= i < rows.len() && #[trigger] rows[i].0@ == key
}

/// Rows read as a map.
pub open spec fn as_map<T>(rows: Seq<(String, T)>) -> Map<Seq<char>, T> {
    Map::new(|key: Seq<char>| keyed(rows, key), |key: Seq<char>| rows[position(rows, key)].1)
}

/// In ordered rows a key stands at one position only.
pub proof fn lemma_position<T>(rows: Seq<(String, T)>, i: int)
    requires
        ordered(rows),
        0 <= i < rows.len(),
    ensures
        keyed(rows, rows[i].0@),
        position(rows, rows[i].0@) == i,
        as_map(rows).contains_key(rows[i].0@),
        as_map(rows)[rows[i].0@] == rows[i].1,
{
    let key = rows[i].0@;
    assert(keyed(rows, key));
    let p = position(rows, key);
    assert(rows[p].0@ == key);
    if p < i {
        lemma_precedes_asymmetric(text::utf8(rows[p].0@), text::utf8(rows[i].0@));
    } else if i < p {
        lemma_precedes_asymmetric(text::utf8(rows[i].0@), text::utf8(rows[p].0@));
    }
}

/// Ordered rows are as many as the keys that they bind.
pub proof fn lemma_size<T>(rows: Seq<(String, T)>)
    requires
        ordered(rows),
    ensures
        as_map(rows).dom().finite(),
        as_map(rows).len() == rows.len(),
    decreases rows.len(),
{
    if rows.len() == 0 {
        assert(as_map(rows).dom() =~= Set::<Seq<char>>::empty());
    } else {
        let front = rows.drop_last();
        let last = rows.last().0@;
        lemma_size(front);
        assert(!keyed(front, last)) by {
            if keyed(front, last) {
                let p = position(front, last);
                assert(rows[p].0@ == last);
                lemma_precedes_asymmetric(text::utf8(rows[p].0@), text::utf8(last));
            }
        }
        assert forall|key: Seq<char>| keyed(rows, key) == (key == last || keyed(front, key)) by {
            if keyed(rows, key) {
                let p = position(rows, key);
                if p < front.len() {
                    assert(front[p].0@ == key);
                }
            }
            if keyed(front, key) {
                let p = position(front, key);
                assert(rows[p].0@ == key);
            }
            if key == last {
                assert(rows[rows.len() - 1].0@ == key);
            }
        }
        assert(as_map(rows).dom() =~= as_map(front).dom().insert(last));
    }
}

/// A map keyed by text whose rows are walked in key order.
#[derive(Debug, PartialEq, Eq)]
pub struct Table<T> {
    entries: Vec<(String, T)>,
}

impl<T> View for Table<T> {
    type V = Map<Seq<char>, T>;

    open spec fn view(&self) -> Map<Seq<char>, T> {
        as_map(self.rows())
    }
}

impl<T> Table<T> {
    /// The rows in key order.
    pub closed spec fn rows(&self) -> Seq<(String, T)> {
        self.entries@
    }

    #[verifier::type_invariant]
    spec fn well_formed(self) -> bool {
        ordered(self.entries@)
    }

    /// An empty table.
    pub fn new() -> (r: Self)
        ensures
            r.rows() == Seq::<(String, T)>::empty(),
            r@ == Map::<Seq<char>, T>::empty(),
    {
        let r = Table { entries: Vec::new() };
        proof {
            assert(r@ =~= Map::<Seq<char>, T>::empty());
        }
        r
    }

    /// The number of rows; the rows of every table stand in key order.
    pub fn len(&self) -> (r: usize)
        ensures
            r == self.rows().len(),
            r == self@.len(),
            self@.dom().finite(),
            ordered(self.rows()),
    {
        proof {
            use_type_invariant(self);
            lemma_size(self.entries@);
        }
        self.entries.len()
    }

    pub fn is_empty(&self) -> (r: bool)
        ensures
            r == (self.rows().len() == 0),
            r == (self@ == Map::<Seq<char>, T>::empty()),
    {
        proof {
            if self.entries@.len() == 0 {
                assert(self@ =~= Map::<Seq<char>, T>::empty());
            } else {
                assert(keyed(self.entries@, self.entries@[0].0@));
                assert(self@.contains_key(self.entries@[0].0@));
            }
        }
        self.entries.len() == 0
    }

    /// The key of row `index`.
    pub fn key(&self, index: usize) -> (r: &String)
        requires
            index < self.rows().len(),
        ensures
            *r == self.rows()[index as int].0,
    {
        &self.entries[index].0
    }

    /// The value of row `index`.
    pub fn value(&self, index: usize) -> (r: &T)
        requires
            index < self.rows().len(),
        ensures
            *r == self.rows()[index as int].1,
    {
        &self.entries[index].1
    }

    /// The number of rows whose key precedes `key`.
    fn lower_bound(&self, key: &str) -> (r: usize)
        ensures
            r <= self.rows().len(),
            forall|i: int|
                0 <= i < r ==> precedes(
                    text::utf8(#[trigger] self.rows()[i].0@),
                    text::utf8(key@),
                ),
            forall|i: int|
                r <= i < self.rows().len() ==> !precedes(
                    text::utf8(#[trigger] self.rows()[i].0@),
                    text::utf8(key@),
                ),
    {
        proof {
            use_type_invariant(self);
        }
        let mut low: usize = 0;
        let mut high: usize = self.entries.len();
        while low < high
            invariant
                low <= high <= self.entries@.len(),
                ordered(self.entries@),
                forall|i: int|
                    0 <= i < low ==> precedes(
                        text::utf8(#[trigger] self.entries@[i].0@),
                        text::utf8(key@),
                    ),
                forall|i: int|
                    high <= i < self.entries@.len() ==> !precedes(
                        text::utf8(#[trigger] self.entries@[i].0@),
                        text::utf8(key@),
                    ),
            decreases high - low,
        {
            let middle: usize = low + (high - low) / 2;
            let before = match rank(self.entries[middle].0.as_str().as_bytes(), key.as_bytes()) {
                Rank::Before => true,
                _ => false,
            };
            if before {
                proof {
                    assert forall|i: int| 0 <= i < middle + 1 implies precedes(
                        text::utf8(#[trigger] self.entries@[i].0@),
                        text::utf8(key@),
                    ) by {
                        if i < middle {
                            lemma_precedes_transitive(
                                text::utf8(self.entries@[i].0@),
                                text::utf8(self.entries@[middle as int].0@),
                                text::utf8(key@),
                            );
                        }
                    }
                }
                low = middle + 1;
            } else {
                proof {
                    assert forall|i: int| middle <= i < self.entries@.len() implies !precedes(
                        text::utf8(#[trigger] self.entries@[i].0@),
                        text::utf8(key@),
                    ) by {
                        if middle < i && precedes(
                            text::utf8(self.entries@[i].0@),
                            text::utf8(key@),
                        ) {
                            lemma_precedes_transitive(
                                text::utf8(self.entries@[middle as int].0@),
                                text::utf8(self.entries@[i].0@),
                                text::utf8(key@),
                            );
                        }
                    }
                }
                high = middle;
            }
        }
        low
    }

    /// The row keyed by `key`.
    pub fn find(&self, key: &str) -> (r: Option<usize>)
        ensures
            r is Some <==> self@.contains_key(key@),
            r matches Some(i) ==> {
                &&& i < self.rows().len()
                &&& self.rows()[i as int].0@ == key@
                &&& self.rows()[i as int].1 == self@[key@]
            },
    {
        proof {
            use_type_invariant(self);
        }
        let at: usize = self.lower_bound(key);
        proof {
            assert forall|i: int| 0 <= i < at implies #[trigger] self.rows()[i].0@ != key@ by {
                lemma_precedes_asymmetric(text::utf8(self.rows()[i].0@), text::utf8(key@));
            }
            assert forall|i: int| at < i < self.rows().len() implies #[trigger] self.rows()[i].0@
                != key@ by {
                assert(precedes(
                    text::utf8(self.rows()[at as int].0@),
                    text::utf8(self.rows()[i].0@),
                ));
            }
        }
        if at < self.entries.len() && text::same(self.entries[at].0.as_str(), key) {
            proof {
                lemma_position(self.rows(), at as int);
            }
            Some(at)
        } else {
            proof {
                assert(!keyed(self.rows(), key@));
            }
            None
        }
    }

    pub fn contains(&self, key: &str) -> (r: bool)
        ensures
            r == self@.contains_key(key@),
    {
        self.find(key).is_some()
    }

    pub fn get(&self, key: &str) -> (r: Option<&T>)
        ensures
            r is Some <==> self@.contains_key(key@),
            r matches Some(value) ==> *value == self@[key@],
    {
        match self.find(key) {
            Some(i) => Some(&self.entries[i].1),
            None => None,
        }
    }

    /// Binds `key` to `value` and returns what it was bound to.
    pub fn insert(&mut self, key: String, value: T) -> (r: Option<T>)
        ensures
            final(self)@ == old(self)@.insert(key@, value),
            r is Some <==> old(self)@.contains_key(key@),
            r matches Some(previous) ==> previous == old(self)@[key@],
            final(self).rows().len() == old(self).rows().len() + (if r is Some {
                0int
            } else {
                1
            }),
    {
        proof {
            use_type_invariant(&*self);
        }
        let found = self.find(key.as_str());
        let at: usize = self.lower_bound(key.as_str());
        let ghost before = self.entries@;
        let mut entries: Vec<(String, T)> = Vec::new();
        std::mem::swap(&mut entries, &mut self.entries);
        let ghost name = key@;
        let ghost held = value;
        let result = match found {
            Some(i) => {
                let previous = entries.remove(i);
                entries.insert(i, (previous.0, value));
                proof {
                    assert(entries@ =~= before.update(i as int, (previous.0, value)));
                }
                Some(previous.1)
            },
            None => {
                proof {
                    assert forall|i: int| at <= i < before.len() implies precedes(
                        text::utf8(name),
                        text::utf8(#[trigger] before[i].0@),
                    ) by {
                        lemma_not_preceding(before[i].0@, name);
                        assert(before[i].0@ != name);
                    }
                }
                entries.insert(at, (key, value));
                None
            },
        };
        proof {
            assert(ordered(entries@));
            let after = entries@;
            let slot = match found {
                Some(i) => i as int,
                None => at as int,
            };
            assert(after[slot].0@ == name && after[slot].1 == held);
            assert forall|k: Seq<char>| #[trigger]
                as_map(after).contains_key(k) == as_map(before).insert(name, held).contains_key(
                    k,
                ) by {
                lemma_carry(before, after, slot, found is None, k);
            }
            assert forall|k: Seq<char>| as_map(after).contains_key(k) implies #[trigger] as_map(
                after,
            )[k] == as_map(before).insert(name, held)[k] by {
                lemma_carry(before, after, slot, found is None, k);
            }
            assert(as_map(after) =~= as_map(before).insert(name, held));
        }
        self.entries = entries;
        result
    }

    /// Unbinds `key` and returns what it was bound to.
    pub fn remove(&mut self, key: &str) -> (r: Option<T>)
        ensures
            final(self)@ == old(self)@.remove(key@),
            r is Some <==> old(self)@.contains_key(key@),
            r matches Some(previous) ==> previous == old(self)@[key@],
            final(self).rows().len() == old(self).rows().len() - (if r is Some {
                1int
            } else {
                0
            }),
    {
        proof {
            use_type_invariant(&*self);
        }
        match self.find(key) {
            Some(i) => {
                let ghost before = self.entries@;
                let mut entries: Vec<(String, T)> = Vec::new();
                std::mem::swap(&mut entries, &mut self.entries);
                let previous = entries.remove(i);
                proof {
                    let after = entries@;
                    assert(ordered(after)) by {
                        assert forall|a: int, b: int| 0 <= a < b < after.len() implies precedes(
                            text::utf8(#[trigger] after[a].0@),
                            text::utf8(#[trigger] after[b].0@),
                        ) by {
                            let pa = if a < i {
                                a
                            } else {
                                a + 1
                            };
                            let pb = if b < i {
                                b
                            } else {
                                b + 1
                            };
                            assert(after[a] == before[pa] && after[b] == before[pb]);
                        }
                    }
                    assert forall|k: Seq<char>| #[trigger]
                        as_map(after).contains_key(k) == as_map(before).remove(key@).contains_key(
                            k,
                        ) by {
                        lemma_drop(before, after, i as int, k);
                    }
                    assert forall|k: Seq<char>| as_map(after).contains_key(k) implies #[trigger]
                    as_map(after)[k] == as_map(before).remove(key@)[k] by {
                        lemma_drop(before, after, i as int, k);
                    }
                    assert(as_map(after) =~= as_map(before).remove(key@));
                }
                self.entries = entries;
                Some(previous.1)
            },
            None => {
                proof {
                    assert(self@.remove(key@) =~= self@);
                }
                None
            },
        }
    }

    /// Adds a row behind all others.
    pub fn append(&mut self, key: String, value: T)
        requires
            ordered(old(self).rows().push((key, value))),
        ensures
            final(self).rows() == old(self).rows().push((key, value)),
    {
        let mut entries: Vec<(String, T)> = Vec::new();
        std::mem::swap(&mut entries, &mut self.entries);
        entries.push((key, value));
        self.entries = entries;
    }

    /// The rows in key order.
    pub fn into_rows(self) -> (r: Vec<(String, T)>)
        ensures
            r@ == self.rows(),
            ordered(r@),
    {
        proof {
            use_type_invariant(&self);
        }
        self.entries
    }

    /// Unbinds every key.
    pub fn clear(&mut self)
        ensures
            final(self)@ == Map::<Seq<char>, T>::empty(),
            final(self).rows().len() == 0,
    {
        self.entries = Vec::new();
        proof {
            assert(self@ =~= Map::<Seq<char>, T>::empty());
        }
    }
}

impl<T: Clone> Clone for Table<T> {
    fn clone(&self) -> (r: Self)
        ensures
            r.rows().len() == self.rows().len(),
            forall|i: int|
                0 <= i < self.rows().len() ==> {
                    &&& r.rows()[i].0 == (#[trigger] self.rows()[i]).0
                    &&& cloned(self.rows()[i].1, r.rows()[i].1)
                },
    {
        proof {
            use_type_invariant(self);
        }
        let mut entries: Vec<(String, T)> = Vec::new();
        let mut i: usize = 0;
        while i < self.entries.len()
            invariant
                i <= self.entries.len(),
                entries@.len() == i,
                forall|j: int|
                    0 <= j < i ==> {
                        &&& (#[trigger] entries@[j]).0 == self.entries@[j].0
                        &&& cloned(self.entries@[j].1, entries@[j].1)
                    },
            decreases self.entries.len() - i,
        {
            entries.push((self.entries[i].0.clone(), self.entries[i].1.clone()));
            i += 1;
        }
        proof {
            assert(ordered(entries@));
        }
        Table { entries }
    }
}

/// Of two different keys that do not precede one way, the other way holds.
proof fn lemma_not_preceding(left: Seq<char>, right: Seq<char>)
    requires
        !precedes(text::utf8(left), text::utf8(right)),
        left != right,
    ensures
        precedes(text::utf8(right), text::utf8(left)),
{
    text::lemma_utf8_injective(left, right);
    lemma_total(text::utf8(left), text::utf8(right), 0);
}

/// The byte order is total.
pub proof fn lemma_total(left: Seq<u8>, right: Seq<u8>, from: int)
    requires
        0 <= from <= left.len(),
        from <= right.len(),
        forall|j: int| 0 <= j < from ==> #[trigger] left[j] == right[j],
        left != right,
    ensures
        precedes(left, right) || precedes(right, left),
    decreases left.len() - from,
{
    if from == left.len() || from == right.len() {
        if from == left.len() && from == right.len() {
            assert(left =~= right);
        } else if from == left.len() {
            assert(smaller_at(left, right, from));
        } else {
            assert(smaller_at(right, left, from));
        }
    } else if left[from] < right[from] {
        assert(smaller_at(left, right, from));
    } else if right[from] < left[from] {
        assert(smaller_at(right, left, from));
    } else {
        lemma_total(left, right, from + 1);
    }
}

/// How one key reads before and after a row was put at `slot`.
proof fn lemma_carry<T>(
    before: Seq<(String, T)>,
    after: Seq<(String, T)>,
    slot: int,
    grown: bool,
    key: Seq<char>,
)
    requires
        ordered(before),
        ordered(after),
        0 <= slot < after.len(),
        grown ==> after.len() == before.len() + 1 && after.remove(slot) =~= before,
        !grown ==> after.len() == before.len() && after =~= before.update(slot, after[slot])
            && before[slot].0@ == after[slot].0@,
    ensures
        as_map(after).contains_key(key) == as_map(before).insert(
            after[slot].0@,
            after[slot].1,
        ).contains_key(key),
        as_map(after).contains_key(key) ==> as_map(after)[key] == as_map(before).insert(
            after[slot].0@,
            after[slot].1,
        )[key],
{
    lemma_position(after, slot);
    if key != after[slot].0@ {
        if keyed(before, key) {
            let p = position(before, key);
            let q = if grown && p >= slot {
                p + 1
            } else {
                p
            };
            if grown {
                assert(after.remove(slot)[p] == before[p]);
            }
            assert(after[q] == before[p]);
            lemma_position(after, q);
        }
        if keyed(after, key) {
            let q = position(after, key);
            let p = if grown && q > slot {
                q - 1
            } else {
                q
            };
            if grown {
                assert(after.remove(slot)[p] == before[p]);
            }
            assert(after[q] == before[p]);
            lemma_position(before, p);
        }
    }
}

/// How one key reads before and after row `slot` was taken out.
proof fn lemma_drop<T>(
    before: Seq<(String, T)>,
    after: Seq<(String, T)>,
    slot: int,
    key: Seq<char>,
)
    requires
        ordered(before),
        ordered(after),
        0 <= slot < before.len(),
        after == before.remove(slot),
    ensures
        as_map(after).contains_key(key) == as_map(before).remove(before[slot].0@).contains_key(key),
        as_map(after).contains_key(key) ==> as_map(after)[key] == as_map(before).remove(
            before[slot].0@,
        )[key],
{
    lemma_position(before, slot);
    if keyed(after, key) {
        let q = position(after, key);
        let p = if q < slot {
            q
        } else {
            q + 1
        };
        assert(after[q] == before[p]);
        lemma_position(before, p);
        if key == before[slot].0@ {
            assert(p == slot);
        }
    }
    if keyed(before, key) && key != before[slot].0@ {
        let p = position(before, key);
        let q = if p < slot {
            p
        } else {
            p - 1
        };
        assert(after[q] == before[p]);
        lemma_position(after, q);
    }
}

/// Bytes come before what they lead, and else the first byte that differs decides.
pub proof fn law_the_first_different_byte_decides(
    common: Seq<u8>,
    low: u8,
    high: u8,
    left: Seq<u8>,
    right: Seq<u8>,
)
    ensures
        precedes(common, common + seq![high] + right),
        !precedes(common + seq![low] + left, common),
        !precedes(common, common),
        low < high ==> precedes(common + seq![low] + left, common + seq![high] + right),
        low > high ==> !precedes(common + seq![low] + left, common + seq![high] + right),
{
    let at = common.len() as int;
    let first = common + seq![low] + left;
    let second = common + seq![high] + right;
    assert(smaller_at(common, second, at));
    assert(smaller_at(common, first, at));
    lemma_precedes_asymmetric(common, first);
    if precedes(common, common) {
        lemma_precedes_asymmetric(common, common);
    }
    assert(first[at] == low && second[at] == high);
    if low < high {
        assert(smaller_at(first, second, at));
    }
    if low > high {
        assert(smaller_at(second, first, at));
        lemma_precedes_asymmetric(second, first);
    }
}

/// A table maps each of its keys to the value in that row, and no other key.
pub proof fn law_tables_map_their_keys<T>(rows: Seq<(String, T)>, key: Seq<char>, i: int)
    requires
        ordered(rows),
    ensures
        as_map(rows).contains_key(key) <==> exists|j: int|
            0 <= j < rows.len() && (#[trigger] rows[j]).0@ == key,
        0 <= i < rows.len() ==> as_map(rows)[rows[i].0@] == rows[i].1,
        0 <= i < rows.len() - 1 ==> precedes(text::utf8(rows[i].0@), text::utf8(rows[i + 1].0@)),
{
    if 0 <= i < rows.len() {
        lemma_position(rows, i);
    }
    if keyed(rows, key) {
        let j = choose|j: int| 0 <= j < rows.len() && #[trigger] rows[j].0@ == key;
        assert(rows[j].0@ == key);
    }
    if exists|j: int| 0 <= j < rows.len() && (#[trigger] rows[j]).0@ == key {
        let j = choose|j: int| 0 <= j < rows.len() && (#[trigger] rows[j]).0@ == key;
        assert(rows[j].0@ == key);
    }
}

} // verus!
