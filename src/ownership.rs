use vstd::prelude::*;

verus! {

/// Why a release was refused.
#[derive(Debug, Clone, Copy, PartialEq, Eq, Structural)]
pub enum ReleaseError {
    /// The string was released once already.
    DoubleRelease,
    /// The string was never handed out by this ledger.
    Unknown,
}

/// A string handed across the boundary: the receiver owns it and must
/// release it exactly once through the ledger that allocated it.
pub struct OwnedString {
    pub text: String,
    pub id: u64,
}

impl OwnedString {
    pub fn text(&self) -> (r: &String)
        ensures
            r == &self.text,
    {
        &self.text
    }

    pub fn id(&self) -> (r: u64)
        ensures
            r == self.id,
    {
        self.id
    }
}

/// Keeps track of every string handed across the boundary. An allocation
/// gets the next identifier; `released[id]` tells whether it was given back.
pub struct StringLedger {
    pub released: Vec<bool>,
}

impl StringLedger {
    /// Identifiers handed out and not yet released.
    pub open spec fn outstanding(&self) -> Set<nat> {
        Set::new(|i: nat| i < self.released@.len() && !self.released@[i as int])
    }

    /// Whether `id` was handed out by this ledger.
    pub open spec fn issued(&self, id: nat) -> bool {
        id < self.released@.len()
    }

    pub fn new() -> (r: StringLedger)
        ensures
            r.released@.len() == 0,
            r.outstanding() == Set::<nat>::empty(),
    {
        let r = StringLedger { released: Vec::new() };
        assert(r.outstanding() =~= Set::<nat>::empty());
        r
    }

    /// Hands `text` across the boundary as a newly owned string.
    pub fn allocate(&mut self, text: String) -> (r: OwnedString)
        requires
            old(self).released@.len() < u64::MAX,
        ensures
            r.text@ == text@,
            r.id as nat == old(self).released@.len(),
            final(self).released@ == old(self).released@.push(false),
            !old(self).outstanding().contains(r.id as nat),
            final(self).outstanding() == old(self).outstanding().insert(r.id as nat),
    {
        let id = self.released.len() as u64;
        self.released.push(false);
        assert(final(self).outstanding() =~= old(self).outstanding().insert(id as nat));
        OwnedString { text, id }
    }

    /// Gives an owned string back. Succeeds exactly once per allocation.
    pub fn release(&mut self, s: &OwnedString) -> (r: Result<(), ReleaseError>)
        ensures
            r == (if !old(self).issued(s.id as nat) {
                Err::<(), ReleaseError>(ReleaseError::Unknown)
            } else if !old(self).outstanding().contains(s.id as nat) {
                Err::<(), ReleaseError>(ReleaseError::DoubleRelease)
            } else {
                Ok::<(), ReleaseError>(())
            }),
            r is Ok ==> final(self).outstanding() == old(self).outstanding().remove(s.id as nat),
            r is Ok ==> final(self).released@ == old(self).released@.update(s.id as int, true),
            r is Err ==> *final(self) == *old(self),
    {
        if s.id >= self.released.len() as u64 {
            return Err(ReleaseError::Unknown);
        }
        let i = s.id as usize;
        if self.released[i] {
            return Err(ReleaseError::DoubleRelease);
        }
        self.released.set(i, true);
        assert(final(self).outstanding() =~= old(self).outstanding().remove(s.id as nat));
        Ok(())
    }

    /// Whether no string handed out by this ledger is still outstanding.
    pub fn all_released(&self) -> (r: bool)
        ensures
            r == (self.outstanding() == Set::<nat>::empty()),
    {
        let mut i: usize = 0;
        while i < self.released.len()
            invariant
                i <= self.released@.len(),
                forall|j: int| 0 <= j < i ==> self.released@[j],
            decreases self.released@.len() - i,
        {
            if !self.released[i] {
                assert(self.outstanding().contains(i as nat));
                return false;
            }
            i += 1;
        }
        assert(self.outstanding() =~= Set::<nat>::empty());
        true
    }
}

/// Allocating a string and releasing it once leaves exactly the
/// outstanding allocations that were there before; a second release of the
/// same string is refused as a double release and changes nothing.
pub proof fn lemma_allocate_release_balanced(l0: StringLedger, l1: StringLedger, l2: StringLedger, id: nat)
    requires
        id == l0.released@.len(),
        l1.released@ == l0.released@.push(false),
        l2.released@ == l1.released@.update(id as int, true),
    ensures
        l2.outstanding() == l0.outstanding(),
        l2.issued(id),
        !l2.outstanding().contains(id),
{
    assert(l2.outstanding() =~= l0.outstanding());
}

} // verus!
