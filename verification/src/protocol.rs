//! The advisory-lock protocol: what the OS-resident lock state of one
//! open file guarantees to cooperating holders.
//!
//! The library itself keeps no lock state — the kernel does, keyed by the
//! file's open-file-table entry. This module spells that state out and
//! proves how the native call resolves requests against it: which
//! acquisitions are granted, what the state becomes, and what a release
//! does. A holder is identified here by a plain number standing for one
//! open-file-table entry.

use vstd::prelude::*;
use crate::flags::LockType;

verus! {

/// No index lists the same holder twice.
pub open spec fn distinct(s: Seq<u64>) -> bool {
    forall|i: int, j: int| 0 <= i < j < s.len() ==> s[i] != s[j]
}

/// The kernel's advisory-lock state for one open file: nobody holds it,
/// one holder holds it exclusively, or some holders share it.
pub enum LockState {
    Unlocked,
    ExclusiveHeld { holder: u64 },
    SharedHeld { holders: Vec<u64> },
}

impl View for LockState {
    type V = Map<u64, LockType>;

    /// A state is read as the map from each current holder to the kind
    /// of lock it holds.
    open spec fn view(&self) -> Map<u64, LockType> {
        match self {
            LockState::Unlocked => Map::empty(),
            LockState::ExclusiveHeld { holder } => Map::empty().insert(*holder, LockType::Exclusive),
            LockState::SharedHeld { holders } => Map::new(
                |h: u64| holders@.contains(h),
                |h: u64| LockType::Shared,
            ),
        }
    }
}

impl LockState {
    /// Well-formed: a shared lock records each holder once and exists
    /// only while someone holds it.
    pub open spec fn wf(&self) -> bool {
        match self {
            LockState::SharedHeld { holders } => holders@.len() > 0 && distinct(holders@),
            _ => true,
        }
    }

    /// `h` holds some lock on the file.
    pub open spec fn spec_holds(&self, h: u64) -> bool {
        self@.dom().contains(h)
    }

    /// `h` holds the exclusive lock on the file.
    pub open spec fn spec_holds_exclusive(&self, h: u64) -> bool {
        self@.contains_pair(h, LockType::Exclusive)
    }

    /// `h` holds a shared lock on the file.
    pub open spec fn spec_holds_shared(&self, h: u64) -> bool {
        self@.contains_pair(h, LockType::Shared)
    }

    /// Whether the OS grants holder `h` a lock of the given kind against
    /// this state.
    pub open spec fn can_acquire(&self, h: u64, kind: LockType) -> bool {
        grants(self@, h, kind)
    }
}

/// Whether the OS grants holder `h` a lock of the given kind when the
/// file's state reads as `m`: an exclusive lock needs every other holder
/// gone; a shared lock tolerates other shared holders but no exclusive
/// one. A holder's own lock never stands in its way — the OS converts it.
pub open spec fn grants(m: Map<u64, LockType>, h: u64, kind: LockType) -> bool {
    match kind {
        LockType::Exclusive => forall|h2: u64| m.dom().contains(h2) ==> h2 == h,
        LockType::Shared => forall|h2: u64|
            m.dom().contains(h2) && h2 != h ==> m[h2] == LockType::Shared,
    }
}

fn has_holder(v: &Vec<u64>, x: u64) -> (found: bool)
    ensures
        found == v@.contains(x),
{
    let mut i: usize = 0;
    while i < v.len()
        invariant
            i <= v@.len(),
            forall|k: int| 0 <= k < i ==> v@[k] != x,
        decreases v@.len() - i,
    {
        if v[i] == x {
            return true;
        }
        i = i + 1;
    }
    false
}

impl LockState {
    /// Whether `h` holds some lock on the file in this state.
    pub fn holds(&self, h: u64) -> (held: bool)
        ensures
            held == self.spec_holds(h),
    {
        match self {
            LockState::Unlocked => false,
            LockState::ExclusiveHeld { holder } => *holder == h,
            LockState::SharedHeld { holders } => has_holder(holders, h),
        }
    }

    /// Whether `h` holds the exclusive lock in this state.
    pub fn holds_exclusive(&self, h: u64) -> (held: bool)
        ensures
            held == self.spec_holds_exclusive(h),
    {
        match self {
            LockState::Unlocked => false,
            LockState::ExclusiveHeld { holder } => *holder == h,
            LockState::SharedHeld { holders } => false,
        }
    }

    /// Whether `h` holds a shared lock in this state.
    pub fn holds_shared(&self, h: u64) -> (held: bool)
        ensures
            held == self.spec_holds_shared(h),
    {
        match self {
            LockState::Unlocked => false,
            LockState::ExclusiveHeld { holder } => false,
            LockState::SharedHeld { holders } => has_holder(holders, h),
        }
    }

    /// One acquisition request by holder `h`, resolved as the OS resolves
    /// it against this state. `Some(next)` is the state after a granted
    /// request: the requested lock replaces whatever `h` held before.
    /// `None` means the request conflicts with another holder's lock; the
    /// native call then fails at once under `NonBlocking` and waits under
    /// `Blocking`.
    pub fn acquire(&self, h: u64, kind: LockType) -> (r: Option<LockState>)
        requires
            self.wf(),
        ensures
            r is Some <==> self.can_acquire(h, kind),
            r matches Some(next) ==> next.wf() && next@ == self@.insert(h, kind),
    {
        match kind {
            LockType::Exclusive => self.acquire_exclusive(h),
            LockType::Shared => self.acquire_shared(h),
        }
    }

    fn acquire_exclusive(&self, h: u64) -> (r: Option<LockState>)
        requires
            self.wf(),
        ensures
            r is Some <==> self.can_acquire(h, LockType::Exclusive),
            r matches Some(next) ==> next.wf() && next@ == self@.insert(h, LockType::Exclusive),
    {
        match self {
            LockState::Unlocked => {
                let next = LockState::ExclusiveHeld { holder: h };
                proof {
                    assert(next@ =~= self@.insert(h, LockType::Exclusive));
                }
                Some(next)
            },
            LockState::ExclusiveHeld { holder } => {
                if *holder == h {
                    let next = LockState::ExclusiveHeld { holder: h };
                    proof {
                        assert(next@ =~= self@.insert(h, LockType::Exclusive));
                    }
                    Some(next)
                } else {
                    proof {
                        assert(self@.dom().contains(*holder));
                    }
                    None
                }
            },
            LockState::SharedHeld { holders } => {
                if holders.len() == 1 && holders[0] == h {
                    proof {
                        lemma_singleton_contains(holders@, h);
                    }
                    let next = LockState::ExclusiveHeld { holder: h };
                    proof {
                        assert(next@ =~= self@.insert(h, LockType::Exclusive));
                    }
                    Some(next)
                } else {
                    proof {
                        if holders@.len() == 1 {
                            lemma_index_contains(holders@, 0);
                            assert(self@.dom().contains(holders@[0]));
                        } else {
                            assert(holders@[0] != holders@[1]);
                            lemma_index_contains(holders@, 0);
                            lemma_index_contains(holders@, 1);
                            assert(self@.dom().contains(holders@[0]));
                            assert(self@.dom().contains(holders@[1]));
                        }
                    }
                    None
                }
            },
        }
    }

    fn acquire_shared(&self, h: u64) -> (r: Option<LockState>)
        requires
            self.wf(),
        ensures
            r is Some <==> self.can_acquire(h, LockType::Shared),
            r matches Some(next) ==> next.wf() && next@ == self@.insert(h, LockType::Shared),
    {
        match self {
            LockState::Unlocked => {
                let mut holders: Vec<u64> = Vec::new();
                holders.push(h);
                proof {
                    lemma_singleton_contains(holders@, h);
                }
                let next = LockState::SharedHeld { holders };
                proof {
                    assert(next@ =~= self@.insert(h, LockType::Shared));
                }
                Some(next)
            },
            LockState::ExclusiveHeld { holder } => {
                if *holder == h {
                    let mut holders: Vec<u64> = Vec::new();
                    holders.push(h);
                    proof {
                        lemma_singleton_contains(holders@, h);
                    }
                    let next = LockState::SharedHeld { holders };
                    proof {
                        assert(next@ =~= self@.insert(h, LockType::Shared));
                    }
                    Some(next)
                } else {
                    proof {
                        assert(self@.dom().contains(*holder));
                        assert(self@[*holder] == LockType::Exclusive);
                    }
                    None
                }
            },
            LockState::SharedHeld { holders } => {
                proof {
                    assert forall|h2: u64|
                        self@.dom().contains(h2) && h2 != h implies self@[h2]
                        == LockType::Shared by {}
                }
                let ghost old_view = self@;
                let mut joined = copy_holders(holders);
                if !has_holder(&joined, h) {
                    proof {
                        broadcast use vstd::seq_lib::lemma_seq_contains_after_push;
                    }
                    joined.push(h);
                }
                let next = LockState::SharedHeld { holders: joined };
                proof {
                    assert forall|x: u64| next@.dom().contains(x)
                        <==> old_view.insert(h, LockType::Shared).dom().contains(x) by {
                        broadcast use vstd::seq_lib::lemma_seq_contains_after_push;
                    }
                    assert(next@ =~= old_view.insert(h, LockType::Shared));
                }
                Some(next)
            },
        }
    }
}

impl LockState {
    /// One release by holder `h`, resolved as the OS resolves it: `h`'s
    /// lock, if any, is dropped and every other holder's lock stands.
    /// A release never fails — releasing a file one does not hold leaves
    /// the state as it was.
    pub fn release(&self, h: u64) -> (r: LockState)
        requires
            self.wf(),
        ensures
            r.wf(),
            r@ == self@.remove(h),
    {
        match self {
            LockState::Unlocked => {
                proof {
                    assert(Map::<u64, LockType>::empty() =~= self@.remove(h));
                }
                LockState::Unlocked
            },
            LockState::ExclusiveHeld { holder } => {
                if *holder == h {
                    proof {
                        assert(Map::<u64, LockType>::empty() =~= self@.remove(h));
                    }
                    LockState::Unlocked
                } else {
                    let r = LockState::ExclusiveHeld { holder: *holder };
                    proof {
                        assert(r@ =~= self@.remove(h));
                    }
                    r
                }
            },
            LockState::SharedHeld { holders } => {
                let remaining = drop_holder(holders, h);
                if remaining.len() == 0 {
                    proof {
                        assert forall|x: u64| !self@.remove(h).dom().contains(x) by {
                            if holders@.contains(x) && x != h {
                                assert(remaining@.contains(x));
                            }
                        }
                        assert(Map::<u64, LockType>::empty() =~= self@.remove(h));
                    }
                    LockState::Unlocked
                } else {
                    let r = LockState::SharedHeld { holders: remaining };
                    proof {
                        assert(r@ =~= self@.remove(h));
                    }
                    r
                }
            },
        }
    }
}

/// The holder list without `h`: every other entry kept, each still
/// listed once.
fn drop_holder(v: &Vec<u64>, h: u64) -> (r: Vec<u64>)
    requires
        distinct(v@),
    ensures
        distinct(r@),
        forall|x: u64| r@.contains(x) <==> v@.contains(x) && x != h,
{
    let mut r: Vec<u64> = Vec::new();
    let mut i: usize = 0;
    while i < v.len()
        invariant
            i <= v@.len(),
            distinct(v@),
            distinct(r@),
            forall|x: u64| r@.contains(x) <==> v@.take(i as int).contains(x) && x != h,
        decreases v@.len() - i,
    {
        let x = v[i];
        proof {
            assert(v@.take(i + 1 as int) =~= v@.take(i as int).push(v@[i as int]));
        }
        if x != h {
            proof {
                broadcast use vstd::seq_lib::lemma_seq_take_contains;

                if r@.contains(x) {
                    let k = choose|k: int| 0 <= k < i && v@[k] == x;
                    assert(v@[k] == v@[i as int]);
                    assert(false);
                }
            }
            r.push(x);
        }
        proof {
            broadcast use vstd::seq_lib::lemma_seq_contains_after_push;

            assert forall|y: u64|
                r@.contains(y) <==> v@.take(i + 1 as int).contains(y) && y != h by {}
        }
        i = i + 1;
    }
    proof {
        assert(v@.take(v@.len() as int) =~= v@);
    }
    r
}

/// An element picked by a valid index is contained in the sequence.
proof fn lemma_index_contains(s: Seq<u64>, k: int)
    requires
        0 <= k < s.len(),
    ensures
        s.contains(s[k]),
{
}

/// A one-element sequence holding `h` contains exactly `h`.
proof fn lemma_singleton_contains(s: Seq<u64>, h: u64)
    requires
        s.len() == 1,
        s[0] == h,
    ensures
        forall|x: u64| s.contains(x) <==> x == h,
{
    assert forall|x: u64| s.contains(x) implies x == h by {
        let k = choose|k: int| 0 <= k < s.len() && s[k] == x;
        assert(k == 0);
    }
    lemma_index_contains(s, 0);
}

/// A copy of the holder list, element for element.
fn copy_holders(v: &Vec<u64>) -> (r: Vec<u64>)
    ensures
        r@ == v@,
{
    let mut r: Vec<u64> = Vec::new();
    let mut i: usize = 0;
    while i < v.len()
        invariant
            i <= v@.len(),
            r@ == v@.take(i as int),
        decreases v@.len() - i,
    {
        let x = v[i];
        r.push(x);
        proof {
            assert(v@.take(i + 1 as int) =~= v@.take(i as int).push(v@[i as int]));
        }
        i = i + 1;
    }
    proof {
        assert(v@.take(v@.len() as int) =~= v@);
    }
    r
}

/// Lock/unlock round trip: when the OS grants holder `h` an exclusive
/// lock on a file, a release right after leaves the file unlocked — no
/// holder of any kind remains. The release itself never fails.
pub proof fn lemma_exclusive_round_trip(s: LockState, h: u64)
    requires
        s.wf(),
        s.can_acquire(h, LockType::Exclusive),
    ensures
        s@.insert(h, LockType::Exclusive).remove(h) =~= Map::<u64, LockType>::empty(),
{
}

/// An exclusive lock excludes every other holder: while `a` holds the
/// file exclusively, a request by any other holder `b` — of either
/// kind — is not granted, so under `NonBlocking` the native call fails
/// immediately.
pub proof fn lemma_exclusive_excludes_others(s: LockState, a: u64, b: u64)
    requires
        s.wf(),
        s.spec_holds_exclusive(a),
        b != a,
    ensures
        !s.can_acquire(b, LockType::Exclusive),
        !s.can_acquire(b, LockType::Shared),
{
    assert(s@.dom().contains(a));
    assert(s@[a] == LockType::Exclusive);
}

/// A blocked request is granted once the exclusive holder releases:
/// while `a` holds the file exclusively nothing is granted to `b`, but
/// against the state `a`'s release leaves behind, `b`'s request of
/// either kind is granted — a `Blocking` acquisition waiting on `a`
/// succeeds at that point.
pub proof fn lemma_granted_after_release(s: LockState, a: u64, b: u64)
    requires
        s.wf(),
        s.spec_holds_exclusive(a),
        b != a,
    ensures
        !s.can_acquire(b, LockType::Exclusive),
        grants(s@.remove(a), b, LockType::Exclusive),
        grants(s@.remove(a), b, LockType::Shared),
{
    lemma_exclusive_excludes_others(s, a, b);
}

/// Shared locks coexist: whoever could be granted a shared lock can
/// still be granted it after another holder takes one; and once two
/// distinct holders share the file, an exclusive request by a third is
/// refused while either of them remains.
pub proof fn lemma_shared_coexist(m: Map<u64, LockType>, h1: u64, h2: u64, h3: u64)
    requires
        grants(m, h1, LockType::Shared),
        grants(m, h2, LockType::Shared),
        h2 != h1,
        h3 != h1,
        h3 != h2,
    ensures
        grants(m.insert(h1, LockType::Shared), h2, LockType::Shared),
        !grants(
            m.insert(h1, LockType::Shared).insert(h2, LockType::Shared),
            h3,
            LockType::Exclusive,
        ),
        !grants(
            m.insert(h1, LockType::Shared).insert(h2, LockType::Shared).remove(h1),
            h3,
            LockType::Exclusive,
        ),
        !grants(
            m.insert(h1, LockType::Shared).insert(h2, LockType::Shared).remove(h2),
            h3,
            LockType::Exclusive,
        ),
{
    let m2 = m.insert(h1, LockType::Shared).insert(h2, LockType::Shared);
    assert(m2.dom().contains(h1));
    assert(m2.dom().contains(h2));
    assert(m2.remove(h1).dom().contains(h2));
    assert(m2.remove(h2).dom().contains(h1));
}

/// Releasing without holding: a holder that holds no lock on the file
/// can still release it, and the state is left exactly as it was.
pub proof fn lemma_release_without_lock(s: LockState, h: u64)
    requires
        s.wf(),
        !s.spec_holds(h),
    ensures
        s@.remove(h) =~= s@,
{
}

} // verus!
