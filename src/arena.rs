//! Accounting of a bump allocator: a fixed pool of bytes handed out from the
//! front, never reclaimed.
use vstd::prelude::*;

verus! {

/// Number of bytes in the process-wide pool.
pub const MEM_POOL_SIZE: usize = 256 * 10024;

/// The first offset at or after `used` that is a multiple of `align`.
pub open spec fn align_up(used: nat, align: nat) -> nat
    recommends
        align > 0,
{
    if used % align == 0 {
        used
    } else {
        used + (align - used % align) as nat
    }
}

/// Where an allocation of `size` bytes aligned to `align` goes when `used`
/// bytes of a pool of `capacity` are taken: its start and the new number of
/// bytes taken, or `None` when it does not fit.
pub open spec fn advance_spec(used: nat, size: nat, align: nat, capacity: nat) -> Option<(nat, nat)>
    recommends
        align > 0,
{
    let start = align_up(used, align);
    if start + size <= capacity {
        Some((start, start + size))
    } else {
        None
    }
}

/// A bump allocator over a pool of `capacity` bytes, of which the first
/// `used` are taken.
#[derive(Debug)]
pub struct MmAllocator {
    capacity: usize,
    used: usize,
}

impl MmAllocator {
    pub closed spec fn capacity_view(&self) -> nat {
        self.capacity as nat
    }

    pub closed spec fn used_view(&self) -> nat {
        self.used as nat
    }

    /// No more bytes are taken than the pool holds.
    pub closed spec fn wf(&self) -> bool {
        self.used <= self.capacity
    }

    /// An allocator over an untouched pool of `capacity` bytes.
    pub fn new(capacity: usize) -> (r: MmAllocator)
        ensures
            r.wf(),
            r.capacity_view() == capacity,
            r.used_view() == 0,
    {
        MmAllocator { capacity, used: 0 }
    }

    pub fn capacity(&self) -> (r: usize)
        ensures
            r == self.capacity_view(),
    {
        self.capacity
    }

    /// Number of bytes taken from the front of the pool.
    pub fn used(&self) -> (r: usize)
        ensures
            r == self.used_view(),
    {
        self.used
    }

    /// The start of an allocation of `size` bytes aligned to `align` and the
    /// new number of bytes taken, when `used` of `capacity` are taken; `None`
    /// when it would cross the end of the pool.
    pub fn advance(used: usize, size: usize, align: usize, capacity: usize) -> (r: Option<
        (usize, usize),
    >)
        requires
            align > 0,
            used <= capacity,
        ensures
            match advance_spec(used as nat, size as nat, align as nat, capacity as nat) {
                Some((start, next)) => r == Some((start as usize, next as usize)),
                None => r is None,
            },
    {
        let rem = used % align;
        let pad: usize = if rem == 0 {
            0
        } else {
            align - rem
        };
        if pad > capacity - used {
            return None;
        }
        let start = used + pad;
        if size > capacity - start {
            return None;
        }
        Some((start, start + size))
    }

    /// Takes `size` bytes aligned to `align` from the pool and returns their
    /// offset; `None`, with nothing taken, when they do not fit.
    pub fn allocate(&mut self, size: usize, align: usize) -> (r: Option<usize>)
        requires
            old(self).wf(),
            align > 0,
        ensures
            final(self).wf(),
            final(self).capacity_view() == old(self).capacity_view(),
            match advance_spec(
                old(self).used_view(),
                size as nat,
                align as nat,
                old(self).capacity_view(),
            ) {
                Some((start, next)) => r == Some(start as usize) && final(self).used_view() == next,
                None => r is None && final(self).used_view() == old(self).used_view(),
            },
    {
        match Self::advance(self.used, size, align, self.capacity) {
            Some((start, next)) => {
                self.used = next;
                Some(start)
            },
            None => None,
        }
    }

    /// Gives back an allocation: nothing is ever reclaimed, so this does
    /// nothing.
    pub fn release(&mut self, offset: usize, size: usize)
        ensures
            *final(self) == *old(self),
    {
    }
}

/// Allocations never overlap: one made after another starts at or after the
/// other's end, and both lie within the pool and are aligned.
pub proof fn lemma_allocations_disjoint(
    used: nat,
    size1: nat,
    align1: nat,
    size2: nat,
    align2: nat,
    capacity: nat,
)
    requires
        align1 > 0,
        align2 > 0,
        advance_spec(used, size1, align1, capacity) is Some,
        advance_spec(advance_spec(used, size1, align1, capacity)->Some_0.1, size2, align2, capacity)
            is Some,
    ensures
        ({
            let (start1, used1) = advance_spec(used, size1, align1, capacity)->Some_0;
            let (start2, used2) = advance_spec(used1, size2, align2, capacity)->Some_0;
            &&& used <= start1
            &&& start1 + size1 == used1
            &&& used1 <= start2
            &&& start2 + size2 == used2
            &&& used2 <= capacity
            &&& start1 % align1 == 0
            &&& start2 % align2 == 0
        }),
{
    lemma_align_up(used, align1);
    let used1 = advance_spec(used, size1, align1, capacity)->Some_0.1;
    lemma_align_up(used1, align2);
}

/// Exhaustion is permanent: a request that does not fit still does not fit
/// once more bytes are taken, since the count of bytes taken never goes down.
pub proof fn lemma_exhaustion_is_permanent(
    used: nat,
    later_used: nat,
    size: nat,
    align: nat,
    capacity: nat,
)
    requires
        align > 0,
        used <= later_used,
        advance_spec(used, size, align, capacity) is None,
    ensures
        advance_spec(later_used, size, align, capacity) is None,
{
    lemma_align_up(used, align);
    lemma_align_up(later_used, align);
    lemma_align_up_least(used, align_up(later_used, align), align);
}

/// `align_up` gives the least multiple of `align` at or after `used`.
proof fn lemma_align_up_least(used: nat, m: nat, align: nat)
    requires
        align > 0,
        used <= m,
        m % align == 0,
    ensures
        align_up(used, align) <= m,
{
    let r = used % align;
    if r != 0 {
        let q = used / align;
        let k = m / align;
        vstd::arithmetic::div_mod::lemma_fundamental_div_mod(used as int, align as int);
        vstd::arithmetic::div_mod::lemma_fundamental_div_mod(m as int, align as int);
        assert(k * align == m);
        assert(q * align + r == used);
        assert(k > q) by (nonlinear_arith)
            requires
                k * align == m,
                q * align + r == used,
                used <= m,
                0 < r,
                align > 0,
                k >= 0,
                q >= 0,
        ;
        assert((q + 1) * align <= k * align) by (nonlinear_arith)
            requires
                k >= q + 1,
                align > 0,
        ;
        assert(align_up(used, align) == (q + 1) * align) by (nonlinear_arith)
            requires
                q * align + r == used,
                align_up(used, align) == used + (align - r),
        ;
    }
}

/// `align_up` rounds up to a multiple of `align` by less than `align`.
pub proof fn lemma_align_up(used: nat, align: nat)
    requires
        align > 0,
    ensures
        used <= align_up(used, align) < used + align,
        align_up(used, align) % align == 0,
{
    let r = used % align;
    if r != 0 {
        let up = (used + (align - r)) as int;
        assert(up % (align as int) == 0) by {
            vstd::arithmetic::div_mod::lemma_fundamental_div_mod(used as int, align as int);
            vstd::arithmetic::div_mod::lemma_mod_multiples_basic(
                (used / align + 1) as int,
                align as int,
            );
            assert(up == (used / align + 1) * align) by (nonlinear_arith)
                requires
                    used == align * (used / align) + r,
                    up == used + (align - r),
            ;
        }
    }
}

} // verus!
