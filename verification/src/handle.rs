//! The handle manager.
//!
//! Host-owned, reference-counted objects cross the boundary as opaque
//! integer handles. A handle stands for exactly one unit of ownership: it
//! is produced by [`HandleMap::lower`] or [`HandleMap::clone_handle`] and
//! consumed exactly once, by [`HandleMap::lift`] or [`HandleMap::free`];
//! the object is destroyed when its last unit is consumed.
//!
//! The manager performs no run-time validity check — caller discipline is
//! the contract, stated here as the `live` precondition of every operation
//! that takes a handle: passing a handle that was already consumed, or
//! never issued, is outside every contract in this module.

use vstd::prelude::*;
use vstd::pervasive::cloned;
use vstd::pervasive::unreached;
use vstd::pervasive::VecAdditionalExecFns;

verus! {

/// One live object and the number of ownership units (outstanding handles)
/// backing it.
pub struct HandleEntry<T> {
    pub count: u64,
    pub object: T,
}

/// The table of live objects, indexed by handle.
///
/// A handle is an index into `entries`; a consumed last unit leaves `None`
/// behind, and handles are never reissued.
pub struct HandleMap<T> {
    pub entries: Vec<Option<HandleEntry<T>>>,
}

/// How many entries of the table are live.
pub open spec fn live_entries<T>(entries: Seq<Option<HandleEntry<T>>>) -> nat
    decreases entries,
{
    if entries.len() == 0 {
        0
    } else {
        live_entries(entries.drop_last()) + if entries.last() is Some {
            1nat
        } else {
            0nat
        }
    }
}

/// The table after incrementing the count behind a live handle.
pub open spec fn clone_transition<T>(
    entries: Seq<Option<HandleEntry<T>>>,
    h: u64,
) -> Seq<Option<HandleEntry<T>>>
    recommends
        h < entries.len(),
        entries[h as int] is Some,
{
    let entry = entries[h as int].unwrap();
    entries.update(
        h as int,
        Some(HandleEntry { count: (entry.count + 1) as u64, object: entry.object }),
    )
}

/// The table after consuming one ownership unit behind a live handle: the
/// count drops by one, and the object is destroyed when it reaches zero.
pub open spec fn consume_transition<T>(
    entries: Seq<Option<HandleEntry<T>>>,
    h: u64,
) -> Seq<Option<HandleEntry<T>>>
    recommends
        h < entries.len(),
        entries[h as int] is Some,
{
    let entry = entries[h as int].unwrap();
    if entry.count <= 1 {
        entries.update(h as int, None)
    } else {
        entries.update(
            h as int,
            Some(HandleEntry { count: (entry.count - 1) as u64, object: entry.object }),
        )
    }
}

impl<T> HandleMap<T> {
    /// Whether `h` is a live handle: issued, and not yet consumed down to
    /// zero units.
    pub open spec fn live(self, h: u64) -> bool {
        h < self.entries@.len() && self.entries@[h as int] is Some
    }

    /// The number of ownership units behind a live handle.
    pub open spec fn count_of(self, h: u64) -> u64
        recommends
            self.live(h),
    {
        self.entries@[h as int].unwrap().count
    }

    /// The object behind a live handle.
    pub open spec fn object_of(self, h: u64) -> T
        recommends
            self.live(h),
    {
        self.entries@[h as int].unwrap().object
    }

    /// How many objects are alive in this table.
    pub open spec fn num_live(self) -> nat {
        live_entries(self.entries@)
    }

    /// An empty table: no objects, no handles.
    pub fn new() -> (r: HandleMap<T>)
        ensures
            r.entries@ == Seq::<Option<HandleEntry<T>>>::empty(),
            r.num_live() == 0,
    {
        HandleMap { entries: Vec::new() }
    }

    /// Consumes one unit of host-side ownership and issues the handle for
    /// it. The object's count starts at one: ownership is transferred,
    /// not shared.
    pub fn lower(&mut self, object: T) -> (h: u64)
        ensures
            h == old(self).entries@.len(),
            final(self).entries@ == old(self).entries@.push(
                Some(HandleEntry { count: 1u64, object }),
            ),
            final(self).live(h),
            final(self).count_of(h) == 1,
            final(self).object_of(h) == object,
            final(self).num_live() == old(self).num_live() + 1,
    {
        let h = self.entries.len() as u64;
        self.entries.push(Some(HandleEntry { count: 1, object }));
        proof {
            assert(final(self).entries@.drop_last() =~= old(self).entries@);
        }
        h
    }

    /// Issues a second, independently valid handle for the same object by
    /// incrementing its reference count. The returned handle carries the
    /// same bits — what makes it independent is the extra unit.
    pub fn clone_handle(&mut self, h: u64) -> (h2: u64)
        requires
            old(self).live(h),
            old(self).count_of(h) < u64::MAX,
        ensures
            h2 == h,
            final(self).entries@ == clone_transition(old(self).entries@, h),
            final(self).live(h),
            final(self).count_of(h) == old(self).count_of(h) + 1,
            final(self).object_of(h) == old(self).object_of(h),
            final(self).num_live() == old(self).num_live(),
    {
        let n = self.entries.len();
        proof {
            assert(h < n);
        }
        let i = h as usize;
        let mut slot: Option<HandleEntry<T>> = None;
        self.entries.set_and_swap(i, &mut slot);
        match slot {
            Some(entry) => {
                self.entries.set(
                    i,
                    Some(HandleEntry { count: entry.count + 1, object: entry.object }),
                );
            },
            None => unreached(),
        }
        proof {
            assert(final(self).entries@ =~= clone_transition(old(self).entries@, h));
            lemma_live_entries_update_same(old(self).entries@, final(self).entries@, h as int);
        }
        h
    }

    /// Consumes the handle and reconstructs host-side ownership of the
    /// object — the inverse of [`HandleMap::lower`]. The unit the handle
    /// carried is given up; if other handles remain, what is returned is
    /// a clone of the shared object.
    pub fn lift(&mut self, h: u64) -> (r: T) where T: Clone
        requires
            old(self).live(h),
        ensures
            final(self).entries@ == consume_transition(old(self).entries@, h),
            old(self).count_of(h) == 1 ==> !final(self).live(h) && r == old(self).object_of(h)
                && final(self).num_live() == old(self).num_live() - 1,
            old(self).count_of(h) > 1 ==> final(self).live(h) && cloned(old(self).object_of(h), r),
            old(self).count_of(h) > 1 ==> final(self).count_of(h) == old(self).count_of(h) - 1
                && final(self).num_live() == old(self).num_live(),
    {
        let n = self.entries.len();
        proof {
            assert(h < n);
        }
        let i = h as usize;
        let mut slot: Option<HandleEntry<T>> = None;
        self.entries.set_and_swap(i, &mut slot);
        match slot {
            Some(entry) => {
                if entry.count <= 1 {
                    proof {
                        assert(final(self).entries@ =~= consume_transition(
                            old(self).entries@,
                            h,
                        ));
                        lemma_live_entries_update_to_none(old(self).entries@, h as int);
                    }
                    entry.object
                } else {
                    let object = entry.object.clone();
                    self.entries.set(
                        i,
                        Some(HandleEntry { count: entry.count - 1, object: entry.object }),
                    );
                    proof {
                        assert(final(self).entries@ =~= consume_transition(
                            old(self).entries@,
                            h,
                        ));
                        lemma_live_entries_update_same(
                            old(self).entries@,
                            final(self).entries@,
                            h as int,
                        );
                    }
                    object
                }
            },
            None => unreached(),
        }
    }

    /// Consumes the handle without reconstructing the object: one unit is
    /// given up, and the object is destroyed if it was the last.
    /// Equivalent to [`HandleMap::lift`] followed immediately by dropping
    /// the result.
    pub fn free(&mut self, h: u64)
        requires
            old(self).live(h),
        ensures
            final(self).entries@ == consume_transition(old(self).entries@, h),
            old(self).count_of(h) == 1 ==> !final(self).live(h)
                && final(self).num_live() == old(self).num_live() - 1,
            old(self).count_of(h) > 1 ==> final(self).live(h)
                && final(self).count_of(h) == old(self).count_of(h) - 1
                && final(self).object_of(h) == old(self).object_of(h)
                && final(self).num_live() == old(self).num_live(),
    {
        let n = self.entries.len();
        proof {
            assert(h < n);
        }
        let i = h as usize;
        let mut slot: Option<HandleEntry<T>> = None;
        self.entries.set_and_swap(i, &mut slot);
        match slot {
            Some(entry) => {
                if entry.count <= 1 {
                    proof {
                        assert(final(self).entries@ =~= consume_transition(
                            old(self).entries@,
                            h,
                        ));
                        lemma_live_entries_update_to_none(old(self).entries@, h as int);
                    }
                } else {
                    self.entries.set(
                        i,
                        Some(HandleEntry { count: entry.count - 1, object: entry.object }),
                    );
                    proof {
                        assert(final(self).entries@ =~= consume_transition(
                            old(self).entries@,
                            h,
                        ));
                        lemma_live_entries_update_same(
                            old(self).entries@,
                            final(self).entries@,
                            h as int,
                        );
                    }
                }
            },
            None => unreached(),
        }
    }

    /// Borrows the object behind a live handle, for calling host-side
    /// methods on it without consuming the handle.
    pub fn borrow(&self, h: u64) -> (r: &T)
        requires
            self.live(h),
        ensures
            *r == self.object_of(h),
    {
        let n = self.entries.len();
        proof {
            assert(h < n);
        }
        let i = h as usize;
        let entry = &self.entries[i];
        proof {
            assert(*entry == self.entries@[h as int]);
        }
        match entry {
            Some(e) => &e.object,
            None => unreached(),
        }
    }

    /// Counts the objects alive in this table.
    pub fn live_objects(&self) -> (n: u64)
        requires
            self.num_live() <= u64::MAX,
        ensures
            n == self.num_live(),
    {
        let mut n: u64 = 0;
        let mut i: usize = 0;
        let len = self.entries.len();
        proof {
            assert(self.entries@.subrange(0, 0) =~= Seq::<Option<HandleEntry<T>>>::empty());
        }
        while i < len
            invariant
                i <= len,
                len == self.entries@.len(),
                self.num_live() <= u64::MAX,
                n == live_entries(self.entries@.subrange(0, i as int)),
            decreases len - i,
        {
            proof {
                lemma_live_entries_prefix_le(self.entries@, i as int + 1);
                assert(self.entries@.subrange(0, i as int + 1).drop_last() =~= self.entries@
                    .subrange(0, i as int));
                assert(self.entries@.subrange(0, i as int + 1).last() == self.entries@[i as int]);
            }
            if self.entries[i].is_some() {
                n = n + 1;
            }
            i = i + 1;
        }
        proof {
            assert(self.entries@.subrange(0, len as int) =~= self.entries@);
        }
        n
    }
}

/// A prefix of the table never holds more live entries than the table.
proof fn lemma_live_entries_prefix_le<T>(entries: Seq<Option<HandleEntry<T>>>, i: int)
    requires
        0 <= i <= entries.len(),
    ensures
        live_entries(entries.subrange(0, i)) <= live_entries(entries),
    decreases entries.len(),
{
    if i == entries.len() {
        assert(entries.subrange(0, i) =~= entries);
    } else {
        lemma_live_entries_prefix_le(entries.drop_last(), i);
        assert(entries.drop_last().subrange(0, i) =~= entries.subrange(0, i));
    }
}

/// Updating a live entry to another live entry keeps the live count.
proof fn lemma_live_entries_update_same<T>(
    before: Seq<Option<HandleEntry<T>>>,
    after: Seq<Option<HandleEntry<T>>>,
    i: int,
)
    requires
        before.len() == after.len(),
        0 <= i < before.len(),
        before[i] is Some,
        after[i] is Some,
        forall|j: int| 0 <= j < before.len() && j != i ==> after[j] == before[j],
    ensures
        live_entries(after) == live_entries(before),
    decreases before.len(),
{
    if i == before.len() - 1 {
        assert(before.drop_last() =~= after.drop_last());
    } else {
        lemma_live_entries_update_same(before.drop_last(), after.drop_last(), i);
    }
}

/// Consuming the last unit of an entry lowers the live count by one.
proof fn lemma_live_entries_update_to_none<T>(before: Seq<Option<HandleEntry<T>>>, i: int)
    requires
        0 <= i < before.len(),
        before[i] is Some,
    ensures
        live_entries(before.update(i, None)) == live_entries(before) - 1,
    decreases before.len(),
{
    let after = before.update(i, None);
    if i == before.len() - 1 {
        assert(before.drop_last() =~= after.drop_last());
    } else {
        lemma_live_entries_update_to_none(before.drop_last(), i);
        assert(before.drop_last().update(i, None) =~= after.drop_last());
    }
}

/// Exactly one settlement per issued handle, counted: cloning a handle
/// adds one ownership unit, and settling (lifting or freeing) each of the
/// two copies consumes one each, leaving the object's reference count at
/// the pre-clone value minus one — destroying the object if that is zero.
pub proof fn lemma_clone_then_settle_both<T>(entries: Seq<Option<HandleEntry<T>>>, h: u64)
    requires
        h < entries.len(),
        entries[h as int] is Some,
        1 <= entries[h as int].unwrap().count < u64::MAX,
    ensures
        ({
            let c = entries[h as int].unwrap().count;
            let after = consume_transition(
                consume_transition(clone_transition(entries, h), h),
                h,
            );
            &&& c > 1 ==> after[h as int] is Some && after[h as int].unwrap().count == c - 1
                && after[h as int].unwrap().object == entries[h as int].unwrap().object
            &&& c == 1 ==> after[h as int] is None
        }),
{
    let c = entries[h as int].unwrap().count;
    let obj = entries[h as int].unwrap().object;
    let e1 = clone_transition(entries, h);
    assert(e1.len() == entries.len());
    assert(e1[h as int] == Some(HandleEntry { count: (c + 1) as u64, object: obj }));
    assert(e1[h as int].unwrap().count == c + 1);
    let e2 = consume_transition(e1, h);
    assert(e2.len() == entries.len());
    assert(e2[h as int] == Some(HandleEntry { count: c, object: obj }));
    let e3 = consume_transition(e2, h);
    if c == 1 {
        assert(e3[h as int] is None);
    } else {
        assert(e3[h as int] == Some(HandleEntry { count: (c - 1) as u64, object: obj }));
    }
}

} // verus!
