//! The record of a repetition, in which its contract is written.
//!
//! A repetition alternates two closures: the element rule, which consumes
//! input, and the combiner, which looks at what the rule said and decides
//! how to go on. A [`Round`] records one such turn, and a sequence of rounds
//! records a whole run. The predicates here say when such a record is a run
//! of a given combiner; that each round's element is an answer of the rule
//! is said where the record is used, since it speaks of the state a mutable
//! borrow ends in.
use crate::outcome::Outcome;
use bytes::BytesMut;
use vstd::prelude::*;

verus! {

/// One turn of a repetition.
pub struct Round<R, E, S, F> {
    /// The cursor when the element rule was started.
    pub entry: BytesMut,
    /// The cursor when the element rule returned.
    pub exit: BytesMut,
    /// What the element rule answered.
    pub element: Outcome<R, E>,
    /// What the combiner made of it, or `None` if it was not asked.
    pub verdict: Option<Outcome<S, F>>,
}

impl<R, E, S, F> Round<R, E, S, F> {
    /// The combiner was asked and wants another element.
    pub open spec fn continues(self) -> bool {
        self.verdict == Some(Outcome::<S, F>::Suspended)
    }

    /// The combiner was asked exactly if the element was decided, and the
    /// verdict is an answer it can give to that element.
    pub open spec fn judged_by<C>(self, combine: C) -> bool where
        C: FnMut(Result<R, E>) -> Outcome<S, F>,
     {
        match self.element.settled() {
            Some(item) => self.verdict matches Some(verdict) && call_ensures(
                combine,
                (item,),
                verdict,
            ),
            None => self.verdict is None,
        }
    }

    /// The round ends the repetition with `res`: either nobody was asked
    /// and the repetition is suspended, or the verdict is final and is the
    /// result.
    pub open spec fn concludes(self, res: Outcome<S, F>) -> bool {
        match self.verdict {
            Some(verdict) => !(verdict is Suspended) && res == verdict,
            None => res is Suspended,
        }
    }
}

/// The rounds follow one another from `entry`: each but the last asks for
/// more, and each starts where the one before it ended.
pub open spec fn chained<R, E, S, F>(trace: Seq<Round<R, E, S, F>>, entry: BytesMut) -> bool {
    &&& trace.len() > 0
    &&& trace[0].entry == entry
    &&& forall|i: int|
        0 <= i < trace.len() - 1 ==> (#[trigger] trace[i]).continues() && trace[i + 1].entry
            == trace[i].exit
}

/// `trace` is a run of a repetition under `combine` that starts with the
/// cursor at `entry` and ends with `res`.
pub open spec fn repetition<C, R, E, S, F>(
    combine: C,
    trace: Seq<Round<R, E, S, F>>,
    entry: BytesMut,
    res: Outcome<S, F>,
) -> bool where C: FnMut(Result<R, E>) -> Outcome<S, F> {
    &&& chained(trace, entry)
    &&& forall|i: int| 0 <= i < trace.len() ==> (#[trigger] trace[i]).judged_by(combine)
    &&& trace.last().concludes(res)
}

/// `trace` is a run of a repetition that wants at least one element: the
/// failure of the first element ends it at once, with the error that
/// `error` makes of the rule's, and the combiner is not asked. Any other
/// first answer starts an ordinary [`repetition`].
pub open spec fn required_repetition<C, D, R, E, S, F>(
    combine: C,
    error: D,
    trace: Seq<Round<R, E, S, F>>,
    entry: BytesMut,
    res: Outcome<S, F>,
) -> bool where C: FnMut(Result<R, E>) -> Outcome<S, F>, D: FnOnce(E) -> F {
    if trace.len() > 0 && trace[0].element is Failed {
        &&& trace.len() == 1
        &&& trace[0].entry == entry
        &&& trace[0].verdict is None
        &&& res matches Outcome::Failed(adapted) && call_ensures(
            error,
            (trace[0].element->Failed_0,),
            adapted,
        )
    } else {
        repetition(combine, trace, entry, res)
    }
}

} // verus!
