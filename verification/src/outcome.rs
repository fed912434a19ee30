//! The three-way answer of a parse step.
use vstd::prelude::*;

verus! {

/// What a parse step reports.
///
/// A step that cannot yet tell whether the input matches must say so with
/// `Suspended` rather than fail: the caller reacts to the two in opposite
/// ways, by waiting for more input or by trying something else.
#[derive(Debug, PartialEq, Eq)]
pub enum Outcome<T, E> {
    /// The construct was recognised; the cursor stands right behind it.
    Complete(T),
    /// The input seen so far does not decide the matter.
    Suspended,
    /// The input definitely does not match.
    Failed(E),
}

impl<T, E> Outcome<T, E> {
    /// The decided part of an outcome: `None` while suspended, otherwise the
    /// value or the error as a `Result`.
    pub open spec fn settled(self) -> Option<Result<T, E>> {
        match self {
            Outcome::Complete(value) => Some(Ok(value)),
            Outcome::Suspended => None,
            Outcome::Failed(error) => Some(Err(error)),
        }
    }

    /// Splits off the undecided case, so that a driver can hand the rest on
    /// as an ordinary `Result`.
    pub fn into_settled(self) -> (decided: Option<Result<T, E>>)
        ensures
            decided == self.settled(),
    {
        match self {
            Outcome::Complete(value) => Some(Ok(value)),
            Outcome::Suspended => None,
            Outcome::Failed(error) => Some(Err(error)),
        }
    }
}

impl<T: Clone, E: Clone> Clone for Outcome<T, E> {
    fn clone(&self) -> (copy: Self)
        ensures
            match (*self, copy) {
                (Outcome::Complete(value), Outcome::Complete(twin)) => cloned(value, twin),
                (Outcome::Suspended, Outcome::Suspended) => true,
                (Outcome::Failed(error), Outcome::Failed(twin)) => cloned(error, twin),
                _ => false,
            },
    {
        match self {
            Outcome::Complete(value) => Outcome::Complete(value.clone()),
            Outcome::Suspended => Outcome::Suspended,
            Outcome::Failed(error) => Outcome::Failed(error.clone()),
        }
    }
}

impl<T: Copy, E: Copy> Copy for Outcome<T, E> {

}

} // verus!
