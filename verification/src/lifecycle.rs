//! The life of one kernel instance: made once, run any number of times,
//! given up once.
//!
//! The host is meant to keep that order. The instance keeps it too: it hands
//! out its state only while it is live, and it gives the state back to its
//! owner exactly once. Running borrows the instance and giving it up takes
//! it alone, so that no run overlaps with the end of the instance.
use vstd::prelude::*;

verus! {

/// One instance of a kernel with state of type `T`.
#[derive(Debug, PartialEq, Eq)]
pub enum KernelInstance<T> {
    /// The instance was made and may be run.
    Live(T),
    /// The instance could not be made. It is never run.
    Failed,
    /// The instance was given up. It is never run again.
    Deleted,
}

impl<T> KernelInstance<T> {
    /// The instance that is made from the state that its kernel built: a
    /// live one, or a failed one where the kernel built none.
    pub open spec fn made(state: Option<T>) -> Self {
        match state {
            Some(state) => KernelInstance::Live(state),
            None => KernelInstance::Failed,
        }
    }

    /// The state to run the kernel on: there is one exactly while the
    /// instance is live.
    pub open spec fn state(self) -> Option<T> {
        match self {
            KernelInstance::Live(state) => Some(state),
            _ => None,
        }
    }

    /// The instance after it was given up: a live one is deleted, any other
    /// stays as it is.
    pub open spec fn given_up(self) -> Self {
        match self {
            KernelInstance::Live(_) => KernelInstance::Deleted,
            other => other,
        }
    }

    /// Makes an instance from the state that its kernel built, or a failed
    /// one where the kernel built none.
    pub fn create(state: Option<T>) -> (instance: Self)
        ensures
            instance == Self::made(state),
    {
        match state {
            Some(state) => KernelInstance::Live(state),
            None => KernelInstance::Failed,
        }
    }

    /// Whether the instance may be run.
    pub fn is_live(&self) -> (live: bool)
        ensures
            live == (self is Live),
    {
        match self {
            KernelInstance::Live(_) => true,
            _ => false,
        }
    }

    /// The state to run the kernel on: there is one exactly while the
    /// instance is live.
    pub fn compute(&self) -> (state: Option<&T>)
        ensures
            state == match self {
                KernelInstance::Live(state) => Some(state),
                _ => None::<&T>,
            },
    {
        match self {
            KernelInstance::Live(state) => Some(state),
            _ => None,
        }
    }

    /// Gives the instance up and hands its state to the caller to release. A
    /// live instance gives its state and is live no longer; any other stays
    /// as it is and gives nothing, so that no state is released twice.
    pub fn delete(&mut self) -> (state: Option<T>)
        ensures
            state == old(self).state(),
            *final(self) == old(self).given_up(),
    {
        let mut taken = KernelInstance::Deleted;
        std::mem::swap(self, &mut taken);
        match taken {
            KernelInstance::Live(state) => Some(state),
            KernelInstance::Failed => {
                *self = KernelInstance::Failed;
                None
            },
            KernelInstance::Deleted => None,
        }
    }
}

/// An instance runs only between its making and its end: there is state to
/// run on exactly when the kernel built some, and none once the instance was
/// given up. Giving it up a second time changes nothing and releases nothing.
pub proof fn lemma_lifecycle<T>(built: Option<T>)
    ensures
        KernelInstance::made(built).state() == built,
        KernelInstance::made(built).given_up().state() is None,
        KernelInstance::made(built).given_up().given_up() == KernelInstance::made(built).given_up(),
{
}

} // verus!
