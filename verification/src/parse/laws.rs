//! What follows from the contracts of the combinators.
//!
//! Each lemma takes a run of a combinator as its contract describes it (the
//! cursor on entry, the cursor left behind, the result and, for a
//! repetition, the record of its rounds) together with what is known of the
//! closures, and says what the run must then have been.
use crate::cursor::{contents, rewound};
use crate::outcome::Outcome;
use crate::parse::rule::{absent_on_failure, settles};
use crate::parse::trace::{repetition, required_repetition, Round};
use bytes::BytesMut;
use vstd::prelude::*;

verus! {

/// Zero repetitions are a repetition.
///
/// If the element rule fails where the repetition starts, consuming
/// nothing, and the combiner answers every failure with `Complete(value)`,
/// then `repeat` completes with `value` and leaves the cursor where it was.
pub proof fn lemma_repeat_nothing<P, R, E, C, S, F>(
    parse: P,
    combine: C,
    trace: Seq<Round<R, E, S, F>>,
    entry: BytesMut,
    left: BytesMut,
    res: Outcome<S, F>,
    value: S,
) where P: Fn(&mut BytesMut) -> Outcome<R, E>, C: FnMut(Result<R, E>) -> Outcome<S, F>
    requires
        repetition(combine, trace, entry, res),
        forall|i: int| 0 <= i < trace.len() ==> exists|b: &mut BytesMut|
            *b == (#[trigger] trace[i]).entry && *final(b) == trace[i].exit
            && call_ensures(parse, (b,), trace[i].element),
        settles(res is Complete, entry, trace.last().exit, left),
        forall|b: &mut BytesMut, element: Outcome<R, E>|
            *b == entry && #[trigger] call_ensures(parse, (b,), element)
            ==> element is Failed && rewound(*b, *final(b)),
        forall|e: E, verdict: Outcome<S, F>|
            #[trigger] call_ensures(combine, (Err::<R, E>(e),), verdict)
            ==> verdict == Outcome::<S, F>::Complete(value),
    ensures
        trace.len() == 1,
        res == Outcome::<S, F>::Complete(value),
        rewound(entry, left),
{
    let first = trace[0];
    assert(first.judged_by(combine));
    assert(trace.len() > 1 ==> first.continues());
}

/// What a repetition has matched when the element rule fails is kept.
///
/// Let the element rule, started on `inputs[i]`, complete with
/// `elements[i]` and leave `inputs[i + 1]`, for each of the `elements`, and
/// let it fail on what is left after the last, consuming nothing. Let the
/// combiner ask for more after every element and complete on a failure.
/// Then `repeat`, started on `inputs[0]`, hands the combiner those elements
/// in order and then the failure, completes with the combiner's last
/// answer, and leaves the cursor behind the last element, not behind
/// anything the failed attempt looked at.
pub proof fn lemma_repeat_collects<P, R, E, C, S, F>(
    parse: P,
    combine: C,
    trace: Seq<Round<R, E, S, F>>,
    entry: BytesMut,
    left: BytesMut,
    res: Outcome<S, F>,
    inputs: Seq<Seq<u8>>,
    elements: Seq<R>,
) where P: Fn(&mut BytesMut) -> Outcome<R, E>, C: FnMut(Result<R, E>) -> Outcome<S, F>
    requires
        repetition(combine, trace, entry, res),
        forall|i: int| 0 <= i < trace.len() ==> exists|b: &mut BytesMut|
            *b == (#[trigger] trace[i]).entry && *final(b) == trace[i].exit
            && call_ensures(parse, (b,), trace[i].element),
        settles(res is Complete, entry, trace.last().exit, left),
        inputs.len() == elements.len() + 1,
        contents(entry) == inputs[0],
        forall|i: int, b: &mut BytesMut, element: Outcome<R, E>|
            0 <= i < elements.len() && contents(*b) == #[trigger] inputs[i]
            && #[trigger] call_ensures(parse, (b,), element)
            ==> element == Outcome::<R, E>::Complete(elements[i])
                && contents(*final(b)) == inputs[i + 1],
        forall|b: &mut BytesMut, element: Outcome<R, E>|
            contents(*b) == inputs.last() && #[trigger] call_ensures(parse, (b,), element)
            ==> element is Failed && rewound(*b, *final(b)),
        forall|item: R, verdict: Outcome<S, F>|
            #[trigger] call_ensures(combine, (Ok::<R, E>(item),), verdict)
            ==> verdict is Suspended,
        forall|e: E, verdict: Outcome<S, F>|
            #[trigger] call_ensures(combine, (Err::<R, E>(e),), verdict)
            ==> verdict is Complete,
    ensures
        trace.len() == elements.len() + 1,
        forall|i: int| 0 <= i < elements.len()
            ==> (#[trigger] trace[i]).element == Outcome::<R, E>::Complete(elements[i]),
        trace.last().element is Failed,
        trace.last().verdict == Some(res),
        res is Complete,
        contents(left) == inputs.last(),
{
    let n = elements.len() as int;
    lemma_collects_upto(parse, combine, trace, entry, res, inputs, elements, n);
    let last = trace[n];
    assert(last.judged_by(combine));
    assert(trace.len() > n + 1 ==> last.continues());
    assert forall|i: int| 0 <= i < elements.len() implies (#[trigger] trace[i]).element
        == Outcome::<R, E>::Complete(elements[i]) by {
        lemma_collects_upto(parse, combine, trace, entry, res, inputs, elements, i);
    }
}

/// The induction behind [`lemma_repeat_collects`]: the repetition reaches
/// round `k`, and starts it on `inputs[k]`.
proof fn lemma_collects_upto<P, R, E, C, S, F>(
    parse: P,
    combine: C,
    trace: Seq<Round<R, E, S, F>>,
    entry: BytesMut,
    res: Outcome<S, F>,
    inputs: Seq<Seq<u8>>,
    elements: Seq<R>,
    k: int,
) where P: Fn(&mut BytesMut) -> Outcome<R, E>, C: FnMut(Result<R, E>) -> Outcome<S, F>
    requires
        repetition(combine, trace, entry, res),
        forall|i: int| 0 <= i < trace.len() ==> exists|b: &mut BytesMut|
            *b == (#[trigger] trace[i]).entry && *final(b) == trace[i].exit
            && call_ensures(parse, (b,), trace[i].element),
        inputs.len() == elements.len() + 1,
        contents(entry) == inputs[0],
        forall|i: int, b: &mut BytesMut, element: Outcome<R, E>|
            0 <= i < elements.len() && contents(*b) == #[trigger] inputs[i]
            && #[trigger] call_ensures(parse, (b,), element)
            ==> element == Outcome::<R, E>::Complete(elements[i])
                && contents(*final(b)) == inputs[i + 1],
        forall|item: R, verdict: Outcome<S, F>|
            #[trigger] call_ensures(combine, (Ok::<R, E>(item),), verdict)
            ==> verdict is Suspended,
        0 <= k <= elements.len(),
    ensures
        k < trace.len(),
        contents(trace[k].entry) == inputs[k],
        k < elements.len() ==> trace[k].element == Outcome::<R, E>::Complete(elements[k])
            && contents(trace[k].exit) == inputs[k + 1] && trace[k].continues(),
    decreases k,
{
    if k > 0 {
        lemma_collects_upto(parse, combine, trace, entry, res, inputs, elements, k - 1);
        let before = trace[k - 1];
        assert(before.continues());
        assert(trace.last().concludes(res));
    }
    let round = trace[k];
    assert(round.judged_by(combine));
}

/// Without a first element, the required repetition fails at once.
///
/// If the element rule fails where `at_least_once` starts, then the result
/// is a failure with what `error` makes of the rule's error, the combiner
/// has not been asked, and the cursor is where it was.
pub proof fn lemma_at_least_once_nothing<P, R, E, C, S, F, D>(
    parse: P,
    combine: C,
    error: D,
    trace: Seq<Round<R, E, S, F>>,
    entry: BytesMut,
    left: BytesMut,
    res: Outcome<S, F>,
) where
    P: Fn(&mut BytesMut) -> Outcome<R, E>,
    C: FnMut(Result<R, E>) -> Outcome<S, F>,
    D: FnOnce(E) -> F,
    requires
        required_repetition(combine, error, trace, entry, res),
        forall|i: int| 0 <= i < trace.len() ==> exists|b: &mut BytesMut|
            *b == (#[trigger] trace[i]).entry && *final(b) == trace[i].exit
            && call_ensures(parse, (b,), trace[i].element),
        settles(res is Complete, entry, trace.last().exit, left),
        forall|b: &mut BytesMut, element: Outcome<R, E>|
            *b == entry && #[trigger] call_ensures(parse, (b,), element) ==> element is Failed,
    ensures
        trace.len() == 1,
        trace[0].verdict is None,
        trace[0].element is Failed,
        res is Failed,
        call_ensures(error, (trace[0].element->Failed_0,), res->Failed_0),
        rewound(entry, left),
{
}

/// An optional rule consumes only what it finds.
///
/// If the rule inside keeps to the convention that a step which does not
/// complete consumes nothing, then `optional` leaves the cursor where it
/// was unless it has found something, that is, whenever its result is
/// `Complete(None)` or `Suspended`.
pub proof fn lemma_optional_consumes_what_it_finds<P, R, E, F>(
    parse: P,
    entry: BytesMut,
    left: BytesMut,
    res: Outcome<Option<R>, F>,
) where P: FnOnce(&mut BytesMut) -> Outcome<R, E>
    requires
        exists|run: &mut BytesMut, inner: Outcome<R, E>|
            *run == entry && *final(run) == left && #[trigger] call_ensures(parse, (run,), inner)
            && res == absent_on_failure::<R, E, F>(inner),
        forall|b: &mut BytesMut, inner: Outcome<R, E>|
            *b == entry && #[trigger] call_ensures(parse, (b,), inner) && !(inner is Complete)
            ==> rewound(*b, *final(b)),
    ensures
        !(res matches Outcome::Complete(Some(_))) ==> rewound(entry, left),
{
}

} // verus!
