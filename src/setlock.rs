use vstd::prelude::*;

verus! {

/// Why a write into an assign-once cell was refused.
#[derive(Clone, Copy, Debug, PartialEq, Eq, Structural)]
pub enum SetLockError {
    AlreadySet,
}

/// A cell that can be written once and read any number of times.
pub struct SetLock<T> {
    data: Option<T>,
}

impl<T> View for SetLock<T> {
    type V = Option<T>;

    closed spec fn view(&self) -> Option<T> {
        self.data
    }
}

impl<T> SetLock<T> {
    /// An empty cell.
    pub fn new() -> (r: Self)
        ensures
            r@ is None,
    {
        SetLock { data: None }
    }

    /// Writes the value into an empty cell; a full cell is left as it is and
    /// the write is refused.
    pub fn set(&mut self, value: T) -> (r: Result<(), SetLockError>)
        ensures
            old(self)@ is None ==> r is Ok && final(self)@ == Some(value),
            old(self)@ is Some ==> r == Err::<(), _>(SetLockError::AlreadySet) && final(self)@
                == old(self)@,
    {
        if self.data.is_some() {
            return Err(SetLockError::AlreadySet);
        }
        self.data = Some(value);
        Ok(())
    }

    /// The value, once it has been written.
    pub fn get(&self) -> (r: Option<&T>)
        ensures
            match r {
                Some(v) => self@ == Some(*v),
                None => self@ is None,
            },
    {
        match &self.data {
            Some(v) => Some(v),
            None => None,
        }
    }

    pub fn is_set(&self) -> (r: bool)
        ensures
            r == (self@ is Some),
    {
        self.data.is_some()
    }
}

} // verus!
