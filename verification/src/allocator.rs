//! The port allocator: two parallel pools of ports and a cursor, handing one
//! pair to each health-check call.
//!
//! The check of the cursor, the read of the pair and the increment form one
//! critical section under the caller's lock, so two concurrent callers can
//! never receive the same pair.

use vstd::prelude::*;

use crate::digits::dec_digits;
use crate::digits::u64_to_string;
use crate::models::Ping;

verus! {

/// Two equal-length pools of ports and the cursor of the next pair to hand
/// out. The cursor only moves forward, and resets to the front once it has
/// run past the last pair: the allocator is cyclic, never permanently
/// exhausted.
pub struct PortAllocator {
    instantiated_ports: Vec<u16>,
    uninstantiated_ports: Vec<u16>,
    port_index: usize,
}

impl PortAllocator {
    /// The pool of instantiated ports.
    pub closed spec fn insts(&self) -> Seq<u16> {
        self.instantiated_ports@
    }

    /// The pool of uninstantiated ports.
    pub closed spec fn uninsts(&self) -> Seq<u16> {
        self.uninstantiated_ports@
    }

    /// The cursor: the position of the next pair to hand out.
    pub closed spec fn cursor(&self) -> int {
        self.port_index as int
    }

    /// The common length of the two pools.
    pub open spec fn pool_len(&self) -> int {
        self.insts().len() as int
    }

    /// The pools have equal length and the cursor never runs more than one
    /// step past the end.
    pub closed spec fn wf(&self) -> bool {
        self.instantiated_ports@.len() == self.uninstantiated_ports@.len()
            && self.instantiated_ports@.len() <= usize::MAX
            && self.port_index <= self.instantiated_ports@.len()
    }

    /// A fresh allocator over the two pools, with the cursor at the front.
    pub fn new(instantiated_ports: Vec<u16>, uninstantiated_ports: Vec<u16>) -> (r: Self)
        requires
            instantiated_ports@.len() == uninstantiated_ports@.len(),
        ensures
            r.wf(),
            r.insts() == instantiated_ports@,
            r.uninsts() == uninstantiated_ports@,
            r.cursor() == 0,
    {
        let n: usize = instantiated_ports.len();
        proof {
            assert(instantiated_ports@.len() <= usize::MAX);
        }
        PortAllocator { instantiated_ports, uninstantiated_ports, port_index: 0 }
    }

    /// Hands out the pair at the cursor and advances it; once the cursor has
    /// run past the last pair, reports exhaustion and resets it to the
    /// front instead.
    pub fn allocate(&mut self) -> (r: Option<(u16, u16)>)
        requires
            old(self).wf(),
        ensures
            final(self).wf(),
            final(self).insts() == old(self).insts(),
            final(self).uninsts() == old(self).uninsts(),
            spec_alloc_succeeds(*old(self)) ==> r == Some(spec_alloc_pair(*old(self)))
                && final(self).cursor() == old(self).cursor() + 1,
            !spec_alloc_succeeds(*old(self)) ==> r is None && final(self).cursor() == 0,
            *final(self) == spec_alloc_step(*old(self)),
    {
        if self.port_index >= self.instantiated_ports.len() {
            self.port_index = 0;
            return None;
        }
        let pair = (
            self.instantiated_ports[self.port_index],
            self.uninstantiated_ports[self.port_index],
        );
        self.port_index = self.port_index + 1;
        Some(pair)
    }

    /// Answers a health-check call: the allocated pair rendered in decimal,
    /// or a failure response when the cursor had run past the end.
    pub fn ping_response(&mut self) -> (r: Ping)
        requires
            old(self).wf(),
        ensures
            final(self).wf(),
            final(self).insts() == old(self).insts(),
            final(self).uninsts() == old(self).uninsts(),
            *final(self) == spec_alloc_step(*old(self)),
            r.success == spec_alloc_succeeds(*old(self)),
            spec_alloc_succeeds(*old(self)) ==> r.rust_port@ == dec_digits(
                spec_alloc_pair(*old(self)).0 as int,
            ) && r.uinit_port@ == dec_digits(spec_alloc_pair(*old(self)).1 as int),
            !spec_alloc_succeeds(*old(self)) ==> r.rust_port@ == "No more ports"@ && r.uinit_port@
                == "No more ports"@,
    {
        match self.allocate() {
            Some(pair) => Ping {
                success: true,
                rust_port: u64_to_string(pair.0 as u64),
                uinit_port: u64_to_string(pair.1 as u64),
            },
            None => Ping {
                success: false,
                rust_port: "No more ports".to_owned(),
                uinit_port: "No more ports".to_owned(),
            },
        }
    }
}

/// Whether the next allocation on `a` succeeds: the cursor still points
/// into the pools.
pub open spec fn spec_alloc_succeeds(a: PortAllocator) -> bool {
    a.cursor() < a.pool_len()
}

/// The pair a successful allocation on `a` returns.
pub open spec fn spec_alloc_pair(a: PortAllocator) -> (u16, u16) {
    (a.insts()[a.cursor()], a.uninsts()[a.cursor()])
}

/// The allocator after one call: the cursor one step further, or reset to
/// the front after exhaustion; the pools never change.
pub closed spec fn spec_alloc_step(a: PortAllocator) -> PortAllocator {
    if a.cursor() < a.pool_len() {
        PortAllocator { port_index: (a.port_index + 1) as usize, ..a }
    } else {
        PortAllocator { port_index: 0, ..a }
    }
}

/// The allocator after `k` calls.
pub open spec fn spec_alloc_iter(a: PortAllocator, k: nat) -> PortAllocator
    decreases k,
{
    if k == 0 {
        a
    } else {
        spec_alloc_step(spec_alloc_iter(a, (k - 1) as nat))
    }
}

/// One allocation keeps the pools, keeps well-formedness, and moves the
/// cursor one step forward or back to the front.
pub proof fn lemma_alloc_step(a: PortAllocator)
    requires
        a.wf(),
    ensures
        spec_alloc_step(a).wf(),
        spec_alloc_step(a).insts() == a.insts(),
        spec_alloc_step(a).uninsts() == a.uninsts(),
        spec_alloc_step(a).cursor() == if spec_alloc_succeeds(a) {
            a.cursor() + 1
        } else {
            0int
        },
{
}

/// After `k` calls on a fresh allocator, `k` within the pool length, the
/// cursor stands at `k` and the pools are unchanged.
pub proof fn lemma_alloc_iter_cursor(a: PortAllocator, k: int)
    requires
        a.wf(),
        a.cursor() == 0,
        0 <= k <= a.pool_len(),
    ensures
        spec_alloc_iter(a, k as nat).wf(),
        spec_alloc_iter(a, k as nat).insts() == a.insts(),
        spec_alloc_iter(a, k as nat).uninsts() == a.uninsts(),
        spec_alloc_iter(a, k as nat).cursor() == k,
    decreases k,
{
    if k > 0 {
        lemma_alloc_iter_cursor(a, k - 1);
        lemma_alloc_step(spec_alloc_iter(a, (k - 1) as nat));
    }
}

/// Law of the allocation round: on pools of length `n`, the `k`-th of `n`
/// consecutive calls on a fresh allocator succeeds and returns the pair at
/// position `k` — the `n` pairs come in pool order — and the call after the
/// `n`-th one reports failure.
pub proof fn lemma_allocation_round(a: PortAllocator, k: int)
    requires
        a.wf(),
        a.cursor() == 0,
        0 <= k < a.pool_len(),
    ensures
        spec_alloc_succeeds(spec_alloc_iter(a, k as nat)),
        spec_alloc_pair(spec_alloc_iter(a, k as nat)) == (a.insts()[k], a.uninsts()[k]),
        !spec_alloc_succeeds(spec_alloc_iter(a, a.pool_len() as nat)),
{
    lemma_alloc_iter_cursor(a, k);
    lemma_alloc_iter_cursor(a, a.pool_len());
}

/// Within one round over pools whose instantiated entries are pairwise
/// distinct, two different calls never return the same pair.
pub proof fn lemma_round_pairs_distinct(a: PortAllocator, k1: int, k2: int)
    requires
        a.wf(),
        a.cursor() == 0,
        0 <= k1 < k2 < a.pool_len(),
        forall|i: int, j: int|
            0 <= i < j < a.insts().len() ==> a.insts()[i] != a.insts()[j],
    ensures
        spec_alloc_pair(spec_alloc_iter(a, k1 as nat)) != spec_alloc_pair(
            spec_alloc_iter(a, k2 as nat),
        ),
{
    lemma_alloc_iter_cursor(a, k1);
    lemma_alloc_iter_cursor(a, k2);
    assert(a.insts()[k1] != a.insts()[k2]);
}

/// Two consecutive allocations — however two concurrent callers interleave,
/// the lock serialises them into exactly this — never return the same pair
/// when the instantiated pool is duplicate-free.
pub proof fn lemma_consecutive_pairs_distinct(a: PortAllocator)
    requires
        a.wf(),
        forall|i: int, j: int|
            0 <= i < j < a.insts().len() ==> a.insts()[i] != a.insts()[j],
        spec_alloc_succeeds(a),
        spec_alloc_succeeds(spec_alloc_step(a)),
    ensures
        spec_alloc_pair(spec_alloc_step(a)) != spec_alloc_pair(a),
{
    lemma_alloc_step(a);
    assert(a.insts()[a.cursor()] != a.insts()[a.cursor() + 1]);
}

} // verus!
