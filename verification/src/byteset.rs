//! Sets of byte strings, kept in byte order.

use crate::table;
use crate::table::{rank, Rank};
use vstd::prelude::*;

verus! {

/// The members in strictly ascending byte order.
pub open spec fn ascending(items: Seq<Vec<u8>>) -> bool {
    forall|i: int, j: int|
        0 <= i < j < items.len() ==> table::precedes(
            #[trigger] items[i]@,
            #[trigger] items[j]@,
        )
}

/// `key` is among the members.
pub open spec fn among(items: Seq<Vec<u8>>, key: Seq<u8>) -> bool {
    exists|i: int| 0 <= i < items.len() && #[trigger] items[i]@ == key
}

/// A set of byte strings.
pub struct ByteSet {
    items: Vec<Vec<u8>>,
}

impl View for ByteSet {
    type V = Set<Seq<u8>>;

    closed spec fn view(&self) -> Set<Seq<u8>> {
        Set::new(|key: Seq<u8>| among(self.items@, key))
    }
}

impl ByteSet {
    #[verifier::type_invariant]
    closed spec fn well_formed(self) -> bool {
        ascending(self.items@)
    }

    pub fn new() -> (r: Self)
        ensures
            r@ == Set::<Seq<u8>>::empty(),
    {
        let set = ByteSet { items: Vec::new() };
        proof {
            assert(set@ =~= Set::<Seq<u8>>::empty());
        }
        set
    }

    /// The number of members before `key`, and whether `key` is the next.
    fn seek(&self, key: &[u8]) -> (r: (usize, bool))
        ensures
            r.0 <= self.items@.len(),
            forall|i: int|
                0 <= i < r.0 ==> table::precedes(#[trigger] self.items@[i]@, key@),
            forall|i: int|
                r.0 <= i < self.items@.len() && #[trigger] self.items@[i]@ != key@
                    ==> table::precedes(key@, self.items@[i]@),
            r.1 == among(self.items@, key@),
            r.1 ==> r.0 < self.items@.len() && self.items@[r.0 as int]@ == key@,
    {
        proof {
            use_type_invariant(self);
        }
        let mut low: usize = 0;
        let mut high: usize = self.items.len();
        while low < high
            invariant
                low <= high <= self.items@.len(),
                ascending(self.items@),
                forall|i: int|
                    0 <= i < low ==> table::precedes(#[trigger] self.items@[i]@, key@),
                forall|i: int|
                    high <= i < self.items@.len() ==> table::precedes(
                        key@,
                        #[trigger] self.items@[i]@,
                    ),
            decreases high - low,
        {
            let middle: usize = low + (high - low) / 2;
            match rank(self.items[middle].as_slice(), key) {
                Rank::Before => {
                    proof {
                        assert forall|i: int| 0 <= i < middle + 1 implies table::precedes(
                            #[trigger] self.items@[i]@,
                            key@,
                        ) by {
                            if i < middle {
                                table::lemma_precedes_transitive(
                                    self.items@[i]@,
                                    self.items@[middle as int]@,
                                    key@,
                                );
                            }
                        }
                    }
                    low = middle + 1;
                },
                Rank::Same => {
                    proof {
                        assert(self.items@[middle as int]@ == key@);
                        assert forall|i: int|
                            middle <= i < self.items@.len() && #[trigger] self.items@[i]@
                                != key@ implies table::precedes(key@, self.items@[i]@) by {
                            assert(i != middle);
                        }
                    }
                    return (middle, true);
                },
                Rank::After => {
                    proof {
                        assert forall|i: int|
                            middle <= i < self.items@.len() implies table::precedes(
                            key@,
                            #[trigger] self.items@[i]@,
                        ) by {
                            if middle < i {
                                table::lemma_precedes_transitive(
                                    key@,
                                    self.items@[middle as int]@,
                                    self.items@[i]@,
                                );
                            }
                        }
                    }
                    high = middle;
                },
            }
        }
        proof {
            assert forall|i: int| 0 <= i < self.items@.len() implies #[trigger] self.items@[i]@
                != key@ by {
                if i < low {
                    table::lemma_precedes_asymmetric(self.items@[i]@, key@);
                } else {
                    table::lemma_precedes_asymmetric(key@, self.items@[i]@);
                }
            }
        }
        (low, false)
    }

    /// Whether `key` is a member.
    pub fn contains(&self, key: &[u8]) -> (r: bool)
        ensures
            r == self@.contains(key@),
    {
        self.seek(key).1
    }

    /// Adds `key`, and says whether it was new.
    pub fn insert(&mut self, key: Vec<u8>) -> (r: bool)
        ensures
            final(self)@ == old(self)@.insert(key@),
            r == !old(self)@.contains(key@),
    {
        proof {
            use_type_invariant(&*self);
        }
        let (at, found) = self.seek(key.as_slice());
        if found {
            proof {
                assert(self@.insert(key@) =~= self@);
            }
            return false;
        }
        let ghost before = self.items@;
        let ghost name = key@;
        let mut items: Vec<Vec<u8>> = Vec::new();
        std::mem::swap(&mut items, &mut self.items);
        items.insert(at, key);
        proof {
            let after = items@;
            assert(after[at as int]@ == name);
            assert forall|i: int, j: int| 0 <= i < j < after.len() implies table::precedes(
                #[trigger] after[i]@,
                #[trigger] after[j]@,
            ) by {
                let a = if i < at {
                    i
                } else {
                    i - 1
                };
                let b = if j < at {
                    j
                } else {
                    j - 1
                };
                if i != at {
                    assert(after[i] == before[a]);
                }
                if j != at {
                    assert(after[j] == before[b]);
                }
            }
            assert forall|k: Seq<u8>| among(after, k) == (among(before, k) || k == name) by {
                if among(before, k) {
                    let i = choose|i: int| 0 <= i < before.len() && #[trigger] before[i]@ == k;
                    let p = if i < at {
                        i
                    } else {
                        i + 1
                    };
                    assert(after[p]@ == k);
                }
                if among(after, k) {
                    let p = choose|p: int| 0 <= p < after.len() && #[trigger] after[p]@ == k;
                    if p < at {
                        assert(before[p]@ == k);
                    } else if p > at {
                        assert(before[p - 1]@ == k);
                    }
                }
            }
        }
        self.items = items;
        proof {
            assert(self@ =~= old(self)@.insert(name));
        }
        true
    }
}

} // verus!
