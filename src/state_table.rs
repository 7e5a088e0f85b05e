use std::collections::HashMap;
use vstd::prelude::*;

use crate::compose_filter::FilterState;
use crate::StateId;

verus! {

broadcast use vstd::std_specs::hash::group_hash_axioms;

/// The key of a product state: a state of each operand and a filter state.
#[derive(PartialEq, Eq, Structural, Clone, Copy, Debug)]
pub struct ComposeStateTuple {
    pub s1: StateId,
    pub s2: StateId,
    pub fs: FilterState,
}

pub open spec fn fs_code(fs: FilterState) -> int {
    match fs {
        FilterState::BothMayEps => 0,
        FilterState::Only1MayEps => 1,
        FilterState::Only2MayEps => 2,
        FilterState::Blocked => 3,
    }
}

/// The slot of `t`: a number that tells keys over operands with `n2` states
/// on the second side apart.
pub open spec fn tuple_slot(t: ComposeStateTuple, n2: int) -> int {
    (t.s1 * n2 + t.s2) * 3 + fs_code(t.fs)
}

/// `t` names states of operands with `n1` and `n2` states and a filter state
/// other than `Blocked`.
pub open spec fn tuple_in_range(t: ComposeStateTuple, n1: int, n2: int) -> bool {
    t.s1 < n1 && t.s2 < n2 && t.fs != FilterState::Blocked
}

/// The slots below `n`.
pub open spec fn slots_below(n: int) -> Set<usize> {
    Set::new(|k: usize| (k as int) < n)
}

proof fn lemma_slots_below(n: int)
    requires
        0 <= n <= usize::MAX,
    ensures
        slots_below(n).finite(),
        slots_below(n).len() == n,
    decreases n,
{
    if n == 0 {
        assert(slots_below(n) =~= Set::empty());
    } else {
        lemma_slots_below(n - 1);
        assert(slots_below(n) =~= slots_below(n - 1).insert((n - 1) as usize));
    }
}

proof fn lemma_slot_bound(t: ComposeStateTuple, n1: int, n2: int)
    requires
        tuple_in_range(t, n1, n2),
    ensures
        0 <= tuple_slot(t, n2) < n1 * n2 * 3,
{
    let a = t.s1 as int;
    let b = t.s2 as int;
    assert(a * n2 + b < n1 * n2) by (nonlinear_arith)
        requires
            0 <= a < n1,
            0 <= b < n2,
    ;
    assert(0 <= a * n2) by (nonlinear_arith)
        requires
            0 <= a,
            0 <= n2,
    ;
}

proof fn lemma_slot_injective(t: ComposeStateTuple, u: ComposeStateTuple, n1: int, n2: int)
    requires
        tuple_in_range(t, n1, n2),
        tuple_in_range(u, n1, n2),
        tuple_slot(t, n2) == tuple_slot(u, n2),
    ensures
        t == u,
{
    let x = t.s1 * n2 + t.s2;
    let y = u.s1 * n2 + u.s2;
    assert(x == y && fs_code(t.fs) == fs_code(u.fs));
    let a = t.s1 as int;
    let b = t.s2 as int;
    let c = u.s1 as int;
    let d = u.s2 as int;
    assert(a == c) by (nonlinear_arith)
        requires
            a * n2 + b == c * n2 + d,
            0 <= b < n2,
            0 <= d < n2,
            0 <= a,
            0 <= c,
    {
        if a < c {
            assert((c - a) * n2 >= n2);
        } else if c < a {
            assert((a - c) * n2 >= n2);
        }
    }
}

/// The product states discovered so far, numbered in order of discovery,
/// with a map from the slot of each key to its number.
pub struct ComposeStateTable {
    pub n1: usize,
    pub n2: usize,
    pub index: HashMap<usize, usize>,
    pub tuples: Vec<ComposeStateTuple>,
}

impl ComposeStateTable {
    /// The number of keys that can ever be stored.
    pub open spec fn capacity(&self) -> int {
        self.n1 * self.n2 * 3
    }

    /// Each stored key is in range and its slot maps to its number; each
    /// mapped slot holds the number of a key that lies in it.
    pub open spec fn wf(&self) -> bool {
        &&& self.capacity() < usize::MAX
        &&& forall|j: int|
            0 <= j < self.tuples@.len() ==> tuple_in_range(#[trigger] self.tuples@[j], self.n1 as int, self.n2 as int)
        &&& forall|j: int|
            0 <= j < self.tuples@.len() ==> {
                &&& self.index@.contains_key(tuple_slot(#[trigger] self.tuples@[j], self.n2 as int) as usize)
                &&& self.index@[tuple_slot(self.tuples@[j], self.n2 as int) as usize] == j as usize
            }
        &&& forall|k: usize|
            #[trigger] self.index@.contains_key(k) ==> {
                &&& self.index@[k] < self.tuples@.len()
                &&& tuple_slot(self.tuples@[self.index@[k] as int], self.n2 as int) == k
            }
        &&& self.index@.dom().len() == self.tuples@.len()
        &&& self.tuples@.len() <= self.capacity()
    }

    pub fn new(n1: usize, n2: usize) -> (r: Self)
        requires
            n1 * n2 * 3 < usize::MAX,
        ensures
            r.wf(),
            r.n1 == n1,
            r.n2 == n2,
            r.tuples@.len() == 0,
    {
        proof {
            assert(0 <= n1 * n2) by (nonlinear_arith);
        }
        let index: HashMap<usize, usize> = HashMap::new();
        proof {
            assert(index@.dom() =~= Set::empty());
        }
        ComposeStateTable { n1, n2, index, tuples: Vec::new() }
    }

    pub fn len(&self) -> (r: usize)
        ensures
            r == self.tuples@.len(),
    {
        self.tuples.len()
    }

    /// The key of product state `id`.
    pub fn find_tuple(&self, id: usize) -> (r: ComposeStateTuple)
        requires
            id < self.tuples@.len(),
        ensures
            r == self.tuples@[id as int],
    {
        self.tuples[id]
    }

    /// The number of `t`, given to it now if it was not stored yet; the flag
    /// says whether it was new.
    pub fn find_id(&mut self, t: ComposeStateTuple) -> (r: (usize, bool))
        requires
            old(self).wf(),
            tuple_in_range(t, old(self).n1 as int, old(self).n2 as int),
        ensures
            final(self).wf(),
            final(self).n1 == old(self).n1,
            final(self).n2 == old(self).n2,
            r.0 < final(self).tuples@.len(),
            final(self).tuples@[r.0 as int] == t,
            r.1 <==> !old(self).tuples@.contains(t),
            r.1 ==> final(self).tuples@ == old(self).tuples@.push(t),
            !r.1 ==> final(self).tuples@ == old(self).tuples@,
    {
        proof {
            lemma_slot_bound(t, self.n1 as int, self.n2 as int);
        }
        let slot = (t.s1 * self.n2 + t.s2) * 3 + match t.fs {
            FilterState::BothMayEps => 0,
            FilterState::Only1MayEps => 1,
            FilterState::Only2MayEps => 2,
            FilterState::Blocked => 3,
        };
        match self.index.get(&slot) {
            Some(id) => {
                let id = *id;
                proof {
                    lemma_slot_injective(self.tuples@[id as int], t, self.n1 as int, self.n2 as int);
                }
                (id, false)
            },
            None => {
                proof {
                    if self.tuples@.contains(t) {
                        let j = choose|j: int| 0 <= j < self.tuples@.len() && self.tuples@[j] == t;
                        assert(self.index@.contains_key(tuple_slot(self.tuples@[j], self.n2 as int) as usize));
                    }
                }
                let id = self.tuples.len();
                let ghost old_index = self.index@;
                let ghost old_tuples = self.tuples@;
                self.index.insert(slot, id);
                self.tuples.push(t);
                proof {
                    assert(self.index@.dom() =~= old_index.dom().insert(slot));
                    assert forall|j: int| 0 <= j < self.tuples@.len() implies {
                        &&& self.index@.contains_key(tuple_slot(#[trigger] self.tuples@[j], self.n2 as int) as usize)
                        &&& self.index@[tuple_slot(self.tuples@[j], self.n2 as int) as usize] == j as usize
                    } by {
                        if j < id {
                            assert(self.tuples@[j] == old_tuples[j]);
                            lemma_slot_bound(old_tuples[j], self.n1 as int, self.n2 as int);
                        }
                    }
                    assert forall|k: usize| #[trigger] self.index@.contains_key(k) implies {
                        &&& self.index@[k] < self.tuples@.len()
                        &&& tuple_slot(self.tuples@[self.index@[k] as int], self.n2 as int) == k
                    } by {
                        if k != slot {
                            assert(old_index.contains_key(k));
                        }
                    }
                    assert forall|k: usize| #[trigger] self.index@.dom().contains(k) implies slots_below(
                        self.capacity(),
                    ).contains(k) by {
                        lemma_slot_bound(self.tuples@[self.index@[k] as int], self.n1 as int, self.n2 as int);
                    }
                    lemma_slots_below(self.capacity());
                    vstd::set_lib::lemma_len_subset(self.index@.dom(), slots_below(self.capacity()));
                }
                (id, true)
            },
        }
    }
}

/// Within one table, no key has two numbers: distinct product states have
/// distinct keys.
pub proof fn lemma_state_table_unique(table: &ComposeStateTable, j1: int, j2: int)
    requires
        table.wf(),
        0 <= j1 < table.tuples@.len(),
        0 <= j2 < table.tuples@.len(),
        j1 != j2,
    ensures
        table.tuples@[j1] != table.tuples@[j2],
{
    assert(table.index@[tuple_slot(table.tuples@[j1], table.n2 as int) as usize] == j1 as usize);
    assert(table.index@[tuple_slot(table.tuples@[j2], table.n2 as int) as usize] == j2 as usize);
}

} // verus!
