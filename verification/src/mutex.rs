//! A lock that never waits for long.

use vstd::prelude::*;

verus! {

/// How often a busy lock is looked at again before the attempt is given up.
pub const SPIN_LIMIT: u32 = 100;

/// A lock around one value. To take the lock is to take the value out of it,
/// so whoever holds the guard owns the value, and the lock is busy for
/// as long as the value is away. An attempt on a busy lock fails after a
/// bounded number of looks: every caller needs a way to go on without it.
pub struct Mutex<T> {
    /// The value, while nobody holds the lock.
    value: Option<T>,
}

/// The proof of holding a lock: the value that the lock guards.
pub struct MutexGuard<T> {
    /// The guarded value.
    value: T,
}

impl<T> MutexGuard<T> {
    /// The guarded value.
    pub closed spec fn view(&self) -> T {
        self.value
    }

    /// Reads the guarded value.
    pub fn get(&self) -> (value: &T)
        ensures
            *value == self@,
    {
        &self.value
    }

    /// Gives access to the guarded value.
    pub fn get_mut(&mut self) -> (value: &mut T)
        ensures
            *value == old(self)@,
            final(self)@ == *final(value),
    {
        &mut self.value
    }
}

impl<T> Mutex<T> {
    /// Whether the lock is held.
    pub closed spec fn is_locked(&self) -> bool {
        self.value is None
    }

    /// The value in a lock that is not held.
    pub closed spec fn content(&self) -> T {
        self.value->0
    }

    /// Creates a lock around `value`. Nobody holds it.
    pub fn new(value: T) -> (mutex: Mutex<T>)
        ensures
            !mutex.is_locked(),
            mutex.content() == value,
    {
        Mutex { value: Some(value) }
    }

    /// Takes the lock if it is free, and looks again a bounded number of
    /// times if it is not.
    pub fn try_lock(&mut self) -> (guard: Option<MutexGuard<T>>)
        ensures
            old(self).is_locked() ==> guard is None && *final(self) == *old(self),
            !old(self).is_locked() ==> final(self).is_locked() && guard is Some && guard->0@
                == old(self).content(),
    {
        match self.value.take() {
            Some(value) => Some(MutexGuard { value }),
            None => self.try_lock_slow(),
        }
    }

    /// Takes the lock as soon as it is seen free, and gives up once it has
    /// been seen busy `SPIN_LIMIT` times over. The caller has the only
    /// reference to the lock, so a busy lock stays busy while it is looked
    /// at: the bound is what makes the attempt end.
    pub fn try_lock_slow(&mut self) -> (guard: Option<MutexGuard<T>>)
        ensures
            old(self).is_locked() ==> guard is None && *final(self) == *old(self),
            !old(self).is_locked() ==> final(self).is_locked() && guard is Some && guard->0@
                == old(self).content(),
    {
        let mut spins: u32 = SPIN_LIMIT;
        loop
            invariant
                *self == *old(self),
            decreases spins,
        {
            if let Some(value) = self.value.take() {
                return Some(MutexGuard { value });
            }
            while self.value.is_none()
                invariant
                    *self == *old(self),
                decreases spins,
            {
                match spins.checked_sub(1) {
                    Some(left) => {
                        spins = left;
                    },
                    None => {
                        return None;
                    },
                }
            }
        }
    }

    /// Gives the lock back, with the value as the holder leaves it.
    pub fn unlock(&mut self, guard: MutexGuard<T>)
        requires
            old(self).is_locked(),
        ensures
            !final(self).is_locked(),
            final(self).content() == guard@,
    {
        self.value = Some(guard.value);
    }
}

} // verus!
