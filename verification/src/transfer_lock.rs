//! The transfer lock: the one lock that the consistency checker and the
//! transfer coordinator share. While the checker holds it no new transfer
//! starts.

use vstd::prelude::*;

verus! {

/// Who asks for the lock.
#[derive(Clone, Copy, Debug, PartialEq, Eq, Structural)]
pub enum Party {
    /// The consistency checker, which holds the lock for a whole retry loop.
    Checker,
    /// A transfer coordinator, which lets go as soon as it has the lock.
    Injector(u64),
}

/// The answer to a request for the lock.
#[derive(Clone, Copy, Debug, PartialEq, Eq, Structural)]
pub enum Grant {
    /// The lock was free and is now held by the party that asked.
    Granted,
    /// The lock is held: the party waits in line.
    Queued,
}

/// The lock as a value: who holds it, and who waits, first come first.
pub struct LockState {
    pub holder: Option<Party>,
    pub waiting: Seq<Party>,
}

impl LockState {
    /// The lock after `who` asked for it.
    pub open spec fn request(self, who: Party) -> LockState {
        if self.holder is None {
            LockState { holder: Some(who), waiting: self.waiting }
        } else {
            LockState { holder: self.holder, waiting: self.waiting.push(who) }
        }
    }

    /// The lock after its holder let go: the first in line holds it.
    pub open spec fn release(self) -> LockState {
        if self.waiting.len() == 0 {
            LockState { holder: None, waiting: self.waiting }
        } else {
            LockState { holder: Some(self.waiting[0]), waiting: self.waiting.drop_first() }
        }
    }

    /// The lock after each of `parties` asked for it, in order.
    pub open spec fn after_requests(self, parties: Seq<Party>) -> LockState
        decreases parties.len(),
    {
        if parties.len() == 0 {
            self
        } else {
            self.after_requests(parties.drop_last()).request(parties.last())
        }
    }

    /// The lock after `count` holders let go, one after the other.
    pub open spec fn after_releases(self, count: nat) -> LockState
        decreases count,
    {
        if count == 0 {
            self
        } else {
            self.after_releases((count - 1) as nat).release()
        }
    }
}

/// The transfer lock.
#[derive(Debug)]
pub struct TransferLock {
    holder: Option<Party>,
    waiting: Vec<Party>,
}

impl View for TransferLock {
    type V = LockState;

    closed spec fn view(&self) -> LockState {
        LockState { holder: self.holder, waiting: self.waiting@ }
    }
}

impl TransferLock {
    /// Nobody waits for a lock that nobody holds.
    pub open spec fn wf(self) -> bool {
        self@.holder is None ==> self@.waiting.len() == 0
    }

    /// A free lock.
    pub fn new() -> (lock: TransferLock)
        ensures
            lock@.holder is None,
            lock@.waiting.len() == 0,
            lock.wf(),
    {
        TransferLock { holder: None, waiting: Vec::new() }
    }

    /// Who holds the lock.
    pub fn holder(&self) -> (holder: Option<Party>)
        ensures
            holder == self@.holder,
    {
        self.holder
    }

    /// How many parties wait.
    pub fn waiting(&self) -> (count: usize)
        ensures
            count == self@.waiting.len(),
    {
        self.waiting.len()
    }

    /// Asks for the lock on behalf of `who`. A free lock is granted at
    /// once; at a held one the party joins the line.
    pub fn request(&mut self, who: Party) -> (grant: Grant)
        ensures
            final(self)@ == old(self)@.request(who),
            old(self).wf() ==> final(self).wf(),
            grant == Grant::Granted <==> old(self)@.holder is None,
            grant == Grant::Queued <==> old(self)@.holder is Some,
    {
        match self.holder {
            None => {
                self.holder = Some(who);
                Grant::Granted
            },
            Some(_) => {
                self.waiting.push(who);
                Grant::Queued
            },
        }
    }

    /// Lets go of the lock. The first party in line, if any, holds it
    /// from now on and is returned.
    pub fn release(&mut self) -> (next: Option<Party>)
        ensures
            final(self)@ == old(self)@.release(),
            old(self).wf() ==> final(self).wf(),
            next == final(self)@.holder,
    {
        if self.waiting.len() == 0 {
            self.holder = None;
            None
        } else {
            let first = self.waiting.remove(0);
            assert(self.waiting@ =~= old(self).waiting@.drop_first());
            self.holder = Some(first);
            Some(first)
        }
    }
}

/// While the lock is held, a request changes nothing but the line:
/// whoever asks, and however many do, the holder stays and each of them
/// waits, in the order of asking.
pub proof fn held_lock_grants_nothing(lock: LockState, parties: Seq<Party>)
    requires
        lock.holder is Some,
    ensures
        lock.after_requests(parties).holder == lock.holder,
        lock.after_requests(parties).waiting == lock.waiting + parties,
    decreases parties.len(),
{
    if parties.len() == 0 {
        assert(lock.waiting + parties =~= lock.waiting);
    } else {
        held_lock_grants_nothing(lock, parties.drop_last());
        assert(lock.waiting + parties =~= (lock.waiting + parties.drop_last()).push(
            parties.last(),
        ));
    }
}

/// Once the holder lets go, those in line hold the lock one after the
/// other, in the order in which they asked: after the holder and `turn`
/// of them have let go, the lock is held by the one that asked as number
/// `turn`, and the later ones still wait.
pub proof fn waiting_parties_take_turns(lock: LockState, turn: nat)
    requires
        lock.holder is Some,
        turn < lock.waiting.len(),
    ensures
        lock.after_releases(turn + 1).holder == Some(lock.waiting[turn as int]),
        lock.after_releases(turn + 1).waiting == lock.waiting.subrange(
            turn as int + 1,
            lock.waiting.len() as int,
        ),
    decreases turn,
{
    if turn == 0 {
        assert(lock.after_releases(0) == lock);
        assert(lock.waiting.drop_first() =~= lock.waiting.subrange(1, lock.waiting.len() as int));
    } else {
        waiting_parties_take_turns(lock, (turn - 1) as nat);
        let before = lock.after_releases(turn);
        assert(before.waiting[0] == lock.waiting[turn as int]);
        assert(before.waiting.drop_first() =~= lock.waiting.subrange(
            turn as int + 1,
            lock.waiting.len() as int,
        ));
    }
}

/// After the holder and all that waited have let go, the lock is free.
pub proof fn lock_is_free_after_all_turns(lock: LockState)
    requires
        lock.holder is Some,
    ensures
        lock.after_releases(lock.waiting.len() + 1).holder is None,
        lock.after_releases(lock.waiting.len() + 1).waiting.len() == 0,
{
    if lock.waiting.len() > 0 {
        waiting_parties_take_turns(lock, (lock.waiting.len() - 1) as nat);
    } else {
        assert(lock.after_releases(0) == lock);
    }
}

} // verus!
