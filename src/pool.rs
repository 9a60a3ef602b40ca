use vstd::prelude::*;

verus! {

/// Every slot of a pool is checked out.
#[derive(Debug, Clone, Copy, PartialEq, Eq, Structural)]
pub struct PoolExhausted;

/// The slot that the next checkout takes from a free list, if any.
pub open spec fn next_checkout(free: Seq<usize>) -> Option<usize> {
    if free.len() == 0 {
        None
    } else {
        Some(free.last())
    }
}

proof fn lemma_push_contains(s: Seq<usize>, x: usize, y: usize)
    ensures
        s.push(x).contains(y) <==> (s.contains(y) || y == x),
{
    if s.contains(y) {
        let k = choose|k: int| 0 <= k < s.len() && s[k] == y;
        assert(s.push(x)[k] == y);
    }
    if y == x {
        assert(s.push(x)[s.len() as int] == x);
    }
    if s.push(x).contains(y) {
        let k = choose|k: int| 0 <= k < s.len() + 1 && s.push(x)[k] == y;
        if k < s.len() {
            assert(s[k] == y);
        }
    }
}

proof fn lemma_no_duplicates_last(s: Seq<usize>, x: usize)
    requires
        s.push(x).no_duplicates(),
    ensures
        !s.contains(x),
{
    if s.contains(x) {
        let k = choose|k: int| 0 <= k < s.len() && s[k] == x;
        assert(s.push(x)[k] == s.push(x)[s.len() as int]);
    }
}

/// A fixed number of preallocated buffers, handed out by index.
///
/// The free list is a stack: the slot released last is the next one out.
pub struct Pool<T> {
    slots: Vec<T>,
    free: Vec<usize>,
    busy: Vec<bool>,
}

impl<T> Pool<T> {
    /// The buffers, checked out or not.
    pub closed spec fn slots(&self) -> Seq<T> {
        self.slots@
    }

    /// Indices of the slots that are not checked out, the next one out last.
    pub closed spec fn free_list(&self) -> Seq<usize> {
        self.free@
    }

    pub open spec fn capacity(&self) -> nat {
        self.slots().len()
    }

    /// Slot `i` is held by some caller.
    pub open spec fn checked_out(&self, i: int) -> bool {
        0 <= i < self.capacity() && !self.free_list().contains(i as usize)
    }

    pub closed spec fn wf(&self) -> bool {
        &&& self.busy@.len() == self.slots@.len()
        &&& self.free@.no_duplicates()
        &&& forall|k: int| 0 <= k < self.free@.len() ==> self.free@[k] < self.slots@.len()
        &&& forall|i: usize|
            i < self.slots@.len() ==> (#[trigger] self.busy@[i as int] <==> !self.free@.contains(i))
    }

    /// A well-formed free list names each slot at most once, and only slots
    /// of the pool.
    pub proof fn lemma_wf_free_list(&self)
        requires
            self.wf(),
        ensures
            self.free_list().no_duplicates(),
            forall|k: int| 0 <= k < self.free_list().len() ==> #[trigger] self.free_list()[k] < self.capacity(),
    {
    }

    /// A pool of `n` slots hands out at most `n` of them before one is
    /// released: its free list never holds more than `n` indices, and once
    /// it is empty, every slot is checked out and the next checkout fails.
    /// A slot released then is the next one out.
    pub proof fn lemma_pool_bounds(&self, i: usize)
        requires
            self.wf(),
        ensures
            self.free_list().len() <= self.capacity(),
            self.free_list().len() == 0 ==> next_checkout(self.free_list()) is None && forall|
                j: int,
            |
                0 <= j < self.capacity() ==> #[trigger] self.checked_out(j),
            next_checkout(self.free_list().push(i)) == Some(i),
    {
        let n = self.slots@.len();
        let s = self.free@.map_values(|x: usize| x as int);
        assert forall|a: int, b: int| 0 <= a < s.len() && 0 <= b < s.len() && a != b implies s[a]
            != s[b] by {
            assert(self.free@[a] != self.free@[b]);
        }
        s.unique_seq_to_set();
        vstd::set_lib::lemma_int_range(0, n as int);
        assert(s.to_set().subset_of(vstd::set_lib::set_int_range(0, n as int))) by {
            assert forall|x: int| s.to_set().contains(x) implies vstd::set_lib::set_int_range(
                0,
                n as int,
            ).contains(x) by {
                let k = choose|k: int| 0 <= k < s.len() && s[k] == x;
                assert(self.free@[k] < n);
            }
        }
        vstd::set_lib::lemma_len_subset(s.to_set(), vstd::set_lib::set_int_range(0, n as int));
        assert(self.free@.push(i).last() == i);
    }

    /// A pool over `slots`, none of them checked out.
    pub fn from_slots(slots: Vec<T>) -> (r: Pool<T>)
        ensures
            r.wf(),
            r.slots() == slots@,
            r.free_list() == Seq::new(slots@.len(), |i: int| i as usize),
    {
        let n = slots.len();
        let mut free: Vec<usize> = Vec::new();
        let mut busy: Vec<bool> = Vec::new();
        while free.len() < n
            invariant
                free@.len() <= n,
                busy@.len() == free@.len(),
                forall|k: int| 0 <= k < free@.len() ==> free@[k] == k,
                forall|k: int| 0 <= k < busy@.len() ==> !busy@[k],
            decreases n - free@.len(),
        {
            busy.push(false);
            free.push(free.len());
        }
        let r = Pool { slots, free, busy };
        assert(r.free@ =~= Seq::new(n as nat, |i: int| i as usize));
        assert forall|i: usize| i < n implies (#[trigger] r.busy@[i as int] <==> r.free@.contains(
            i,
        ) == false) by {
            assert(r.free@[i as int] == i);
        }
        r
    }

    /// Number of slots.
    pub fn slot_count(&self) -> (r: usize)
        ensures
            r == self.capacity(),
    {
        self.slots.len()
    }

    /// Whether slot `i` is checked out.
    pub fn is_checked_out(&self, i: usize) -> (r: bool)
        requires
            self.wf(),
        ensures
            r == self.checked_out(i as int),
    {
        i < self.slots.len() && self.busy[i]
    }

    /// Takes a slot off the free list: the one released last.
    pub fn checkout(&mut self) -> (r: Result<usize, PoolExhausted>)
        requires
            old(self).wf(),
        ensures
            final(self).wf(),
            final(self).slots() == old(self).slots(),
            match r {
                Ok(i) => next_checkout(old(self).free_list()) == Some(i) && final(self).free_list()
                    == old(self).free_list().drop_last() && final(self).checked_out(i as int),
                Err(_) => next_checkout(old(self).free_list()) is None && final(self).free_list()
                    == old(self).free_list(),
            },
    {
        match self.free.pop() {
            None => Err(PoolExhausted),
            Some(i) => {
                self.busy.set(i, true);
                proof {
                    let f = old(self).free@;
                    assert(f =~= self.free@.push(i));
                    assert forall|j: usize| j < self.slots@.len() implies (#[trigger] self.busy@[j as int]
                        <==> !self.free@.contains(j)) by {
                        lemma_push_contains(self.free@, i, j);
                        if j == i {
                            lemma_no_duplicates_last(self.free@, i);
                        }
                    }
                }
                Ok(i)
            },
        }
    }

    /// Puts slot `i` back on the free list. Releasing a slot that is not
    /// checked out is the caller's error, ruled out here.
    pub fn release(&mut self, i: usize)
        requires
            old(self).wf(),
            old(self).checked_out(i as int),
        ensures
            final(self).wf(),
            final(self).slots() == old(self).slots(),
            final(self).free_list() == old(self).free_list().push(i),
    {
        let ghost f = self.free@;
        self.free.push(i);
        self.busy.set(i, false);
        proof {
            assert forall|j: usize| j < self.slots@.len() implies (#[trigger] self.busy@[j as int]
                <==> !self.free@.contains(j)) by {
                lemma_push_contains(f, i, j);
            }
            lemma_push_contains(f, i, i);
            assert forall|a: int, b: int|
                0 <= a < self.free@.len() && 0 <= b < self.free@.len() && a != b implies self.free@[a]
                != self.free@[b] by {
                if a == f.len() {
                    assert(f.contains(self.free@[b]));
                } else if b == f.len() {
                    assert(f.contains(self.free@[a]));
                }
            }
        }
    }

    /// The buffer in slot `i`.
    pub fn get(&self, i: usize) -> (r: &T)
        requires
            i < self.capacity(),
        ensures
            *r == self.slots()[i as int],
    {
        &self.slots[i]
    }

    /// The buffer in slot `i`, to be changed in place.
    pub fn get_mut(&mut self, i: usize) -> (r: &mut T)
        requires
            i < old(self).capacity(),
        ensures
            *r == old(self).slots()[i as int],
            final(self).slots() == old(self).slots().update(i as int, *final(r)),
            final(self).free_list() == old(self).free_list(),
            old(self).wf() ==> final(self).wf(),
    {
        &mut self.slots[i]
    }
}

} // verus!
