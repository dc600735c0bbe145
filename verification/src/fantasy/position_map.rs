//! A small map from position names to numbers, kept as two parallel lists.
use vstd::prelude::*;

verus! {

/// Position name to number (a limit or a count). Each name occurs once.
/// Kept as lists rather than a `HashMap<String, i32>`: vstd's hash-map
/// specifications hold only for key types that follow its key model, which
/// `String` does not, so such a map could not be reasoned about.
#[derive(Debug, Clone)]
pub struct PositionMap {
    pub positions: Vec<String>,
    pub values: Vec<i32>,
}

impl PositionMap {
    /// The two lists have the same length and no position occurs twice.
    pub open spec fn wf(&self) -> bool {
        &&& self.positions@.len() == self.values@.len()
        &&& forall|i: int, j: int|
            0 <= i < j < self.positions@.len() ==> #[trigger] self.positions@[i]@
                != #[trigger] self.positions@[j]@
    }

    /// Whether a position has an entry.
    pub open spec fn has(&self, position: Seq<char>) -> bool {
        exists|i: int| 0 <= i < self.positions@.len() && #[trigger] self.positions@[i]@ == position
    }

    /// The number stored for a position, or `default` when it has no entry.
    pub open spec fn spec_get_or(&self, position: Seq<char>, default: i32) -> i32 {
        if self.has(position) {
            self.values@[choose|i: int|
                0 <= i < self.positions@.len() && #[trigger] self.positions@[i]@ == position]
        } else {
            default
        }
    }

    /// The empty map.
    pub fn new() -> (m: PositionMap)
        ensures
            m.wf(),
            m.positions@.len() == 0,
    {
        PositionMap { positions: Vec::new(), values: Vec::new() }
    }

    /// The index of a position's entry, if it has one.
    pub fn find(&self, position: &String) -> (r: Option<usize>)
        requires
            self.wf(),
        ensures
            r is None <==> !self.has(position@),
            r matches Some(i) ==> i < self.positions@.len() && self.positions@[i as int]@
                == position@,
    {
        let mut i: usize = 0;
        while i < self.positions.len()
            invariant
                self.wf(),
                i <= self.positions@.len(),
                forall|j: int| 0 <= j < i ==> self.positions@[j]@ != position@,
            decreases self.positions@.len() - i,
        {
            if self.positions[i] == *position {
                return Some(i);
            }
            i = i + 1;
        }
        None
    }

    /// The number stored for a position, or `default` when it has no entry.
    pub fn get_or(&self, position: &String, default: i32) -> (v: i32)
        requires
            self.wf(),
        ensures
            v == self.spec_get_or(position@, default),
    {
        match self.find(position) {
            Some(i) => {
                let ghost c = choose|j: int|
                    0 <= j < self.positions@.len() && #[trigger] self.positions@[j]@ == position@;
                assert(c == i as int) by {
                    if c != i as int {
                        if c < i {
                            assert(self.positions@[c]@ != self.positions@[i as int]@);
                        } else {
                            assert(self.positions@[i as int]@ != self.positions@[c]@);
                        }
                    }
                }
                self.values[i]
            },
            None => default,
        }
    }

    /// Sets the number for a position, replacing any earlier one.
    pub fn insert(&mut self, position: String, value: i32)
        requires
            old(self).wf(),
        ensures
            final(self).wf(),
            forall|p: Seq<char>| #[trigger] final(self).has(p) <==> old(self).has(p) || p == position@,
            forall|p: Seq<char>, d: i32| #[trigger] final(self).spec_get_or(p, d) == if p == position@ {
                value
            } else {
                old(self).spec_get_or(p, d)
            },
    {
        let ghost old_positions = self.positions@;
        let ghost old_values = self.values@;
        match self.find(&position) {
            Some(i) => {
                self.values.set(i, value);
                assert(self.positions@ == old(self).positions@);
                assert forall|p: Seq<char>| #[trigger] self.has(p) <==> old(self).has(p) || p == position@ by {
                    if p == position@ {
                        assert(self.positions@[i as int]@ == p);
                    }
                    if old(self).has(p) {
                        let c = choose|j: int| 0 <= j < old_positions.len() && #[trigger] old_positions[j]@ == p;
                        assert(self.positions@[c]@ == p);
                    }
                }
                assert forall|p: Seq<char>, d: i32| #[trigger] self.spec_get_or(p, d) == if p == position@ {
                    value
                } else {
                    old(self).spec_get_or(p, d)
                } by {
                    if self.has(p) {
                        let c = choose|j: int| 0 <= j < self.positions@.len() && #[trigger] self.positions@[j]@ == p;
                        if p == position@ {
                            if c != i as int {
                                if c < i {
                                    assert(self.positions@[c]@ != self.positions@[i as int]@);
                                } else {
                                    assert(self.positions@[i as int]@ != self.positions@[c]@);
                                }
                            }
                        }
                    }
                }
            },
            None => {
                self.positions.push(position);
                self.values.push(value);
                let ghost n = old_positions.len();
                assert forall|a: int, b: int|
                    0 <= a < b < self.positions@.len() implies #[trigger] self.positions@[a]@
                        != #[trigger] self.positions@[b]@ by {
                    if b == n {
                        assert(old_positions[a] == self.positions@[a]);
                        if self.positions@[a]@ == self.positions@[b]@ {
                            assert(old(self).has(self.positions@[b]@));
                        }
                    } else {
                        assert(old_positions[a] == self.positions@[a]);
                        assert(old_positions[b] == self.positions@[b]);
                    }
                }
                assert forall|p: Seq<char>| #[trigger] self.has(p) <==> old(self).has(p) || p == position@ by {
                    if p == position@ {
                        assert(self.positions@[n as int]@ == p);
                    }
                    if old(self).has(p) {
                        let c = choose|j: int| 0 <= j < old_positions.len() && #[trigger] old_positions[j]@ == p;
                        assert(self.positions@[c]@ == p);
                    }
                    if self.has(p) && p != position@ {
                        let c = choose|j: int| 0 <= j < self.positions@.len() && #[trigger] self.positions@[j]@ == p;
                        assert(old_positions[c]@ == p);
                    }
                }
                assert forall|p: Seq<char>, d: i32| #[trigger] self.spec_get_or(p, d) == if p == position@ {
                    value
                } else {
                    old(self).spec_get_or(p, d)
                } by {
                    if self.has(p) {
                        let c = choose|j: int| 0 <= j < self.positions@.len() && #[trigger] self.positions@[j]@ == p;
                        if p == position@ {
                            if c != n {
                                assert(old(self).has(p));
                            }
                        } else {
                            assert(c < n);
                            let c0 = choose|j: int| 0 <= j < old_positions.len() && #[trigger] old_positions[j]@ == p;
                            if c0 != c {
                                if c0 < c {
                                    assert(self.positions@[c0]@ != self.positions@[c]@);
                                } else {
                                    assert(self.positions@[c]@ != self.positions@[c0]@);
                                }
                            }
                        }
                    }
                }
            },
        }
    }
}

} // verus!
