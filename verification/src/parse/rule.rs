//! Rule combinators.
//!
//! Every function here takes the cursor and one or more closures. A *parse
//! closure* tries to recognise something at the front of the cursor. If it
//! completes, it has drained the cursor up to the end of what it
//! recognised; if it fails or is suspended, it is to have drained nothing.
//! A rule made of several steps gets that by running them inside
//! [`group`].
//!
//! The ABNF operators come out as follows.
//!
//! * Concatenation, `Rule1 Rule2`: run one rule after the other inside one
//!   [`group`], returning early on the first that does not complete.
//! * Alternatives, `Rule1 / Rule2`: try one rule after the other, each of
//!   them answering with an `Option` and wrapped in [`opt_group`], and take
//!   the first that finds something.
//! * Repetition, `*Rule`: [`repeat`], with a combiner that collects the
//!   elements and completes on the first failure. For `<n>Rule` and
//!   `<a>*<b>Rule` the combiner counts.
//! * Repetition with at least one element, `1*Rule`: [`at_least_once`].
//! * Optional sequence, `[Rule]`: [`optional`].
use crate::cursor::{contents, rewound, snapshot};
use crate::outcome::Outcome;
use crate::parse::trace::{chained, repetition, required_repetition, Round};
use bytes::BytesMut;
use vstd::prelude::*;

verus! {

/// Where `group` leaves the cursor: where the rule `reached` when the
/// attempt is kept, back at `entry` when it is abandoned.
pub open spec fn settles(keep: bool, entry: BytesMut, reached: BytesMut, left: BytesMut) -> bool {
    if keep {
        left == reached
    } else {
        rewound(entry, left)
    }
}

/// Whether `parse` may be started on the cursor `entry`.
pub open spec fn runs_on<P, T, E>(parse: P, entry: BytesMut) -> bool where
    P: FnOnce(&mut BytesMut) -> Outcome<T, E>,
 {
    forall|b: &mut BytesMut| *b == entry ==> call_requires(parse, (b,))
}

/// Whether `parse` may be started on any cursor.
pub open spec fn runs_anywhere<P, R, E>(parse: P) -> bool where
    P: FnOnce(&mut BytesMut) -> Outcome<R, E>,
 {
    forall|b: &mut BytesMut| call_requires(parse, (b,))
}

/// Whether `combine` may be given every decided answer of `parse`.
pub open spec fn takes_answers<P, R, E, C, S, F>(parse: P, combine: C) -> bool where
    P: FnOnce(&mut BytesMut) -> Outcome<R, E>,
    C: FnMut(Result<R, E>) -> Outcome<S, F>,
 {
    forall|b: &mut BytesMut, element: Outcome<R, E>, item: Result<R, E>|
        #[trigger] call_ensures(parse, (b,), element) && element.settled() == Some(item)
            ==> #[trigger] call_requires(combine, (item,))
}

/// Whether `error` may be given every error that `parse` fails with.
pub open spec fn takes_failures<P, R, E, D, F>(parse: P, error: D) -> bool where
    P: FnOnce(&mut BytesMut) -> Outcome<R, E>,
    D: FnOnce(E) -> F,
 {
    forall|b: &mut BytesMut, e: E| #[trigger]
        call_ensures(parse, (b,), Outcome::<R, E>::Failed(e)) ==> call_requires(error, (e,))
}

/// What an optional rule makes of the answer of the rule inside it.
pub open spec fn absent_on_failure<R, E, F>(inner: Outcome<R, E>) -> Outcome<Option<R>, F> {
    match inner {
        Outcome::Complete(value) => Outcome::Complete(Some(value)),
        Outcome::Suspended => Outcome::Suspended,
        Outcome::Failed(_) => Outcome::Complete(None),
    }
}

/// Runs `parse` as one all-or-nothing step.
///
/// The outcome of `parse` is handed on untouched. Unless it is `Complete`,
/// the cursor is put back to where it stood on entry, so that whatever the
/// rule consumed before giving up is not lost to the caller.
pub fn group<P, T, E>(buf: &mut BytesMut, parse: P) -> (res: Outcome<T, E>)
    where P: FnOnce(&mut BytesMut) -> Outcome<T, E>
    requires
        runs_on(parse, *old(buf)),
    ensures
        exists|run: &mut BytesMut|
            *run == *old(buf)
            && call_ensures(parse, (run,), res)
            && settles(res is Complete, *old(buf), *final(run), *final(buf)),
{
    let saved = snapshot(buf);
    let res = parse(buf);
    match res {
        Outcome::Complete(_) => {},
        _ => {
            *buf = saved;
        },
    }
    res
}

/// Runs a rule that may find nothing as one all-or-nothing step.
///
/// Like [`group`], but only a find is kept: on `Complete(None)` the cursor
/// is put back just as on `Suspended` and `Failed`.
pub fn opt_group<P, T, E>(buf: &mut BytesMut, parse: P) -> (res: Outcome<Option<T>, E>)
    where P: FnOnce(&mut BytesMut) -> Outcome<Option<T>, E>
    requires
        runs_on(parse, *old(buf)),
    ensures
        exists|run: &mut BytesMut|
            *run == *old(buf)
            && call_ensures(parse, (run,), res)
            && settles(
                res matches Outcome::Complete(Some(_)),
                *old(buf),
                *final(run),
                *final(buf),
            ),
{
    let saved = snapshot(buf);
    let res = parse(buf);
    match res {
        Outcome::Complete(Some(_)) => {},
        _ => {
            *buf = saved;
        },
    }
    res
}

/// The loop of a repetition, from the cursor as it stands and without any
/// rewinding.
fn drive<P, R, E, C, S, F>(buf: &mut BytesMut, parse: &P, combine: &mut C) -> (res: Outcome<S, F>)
    where P: Fn(&mut BytesMut) -> Outcome<R, E>, C: FnMut(Result<R, E>) -> Outcome<S, F>
    requires
        runs_anywhere(*parse),
        takes_answers(*parse, *old(combine)),
        forall|b: &mut BytesMut, element: Outcome<R, E>, item: Result<R, E>|
            #[trigger] call_ensures(*parse, (b,), element) && element.settled() == Some(item)
                && #[trigger] call_ensures(*old(combine), (item,), Outcome::<S, F>::Suspended)
                ==> contents(*final(b)).len() < contents(*b).len(),
    ensures
        exists|trace: Seq<Round<R, E, S, F>>|
            #[trigger] repetition(*old(combine), trace, *old(buf), res)
            && (forall|i: int| 0 <= i < trace.len() ==> exists|b: &mut BytesMut|
                *b == (#[trigger] trace[i]).entry && *final(b) == trace[i].exit
                && call_ensures(*parse, (b,), trace[i].element))
            && *final(buf) == trace.last().exit,
{
    let ghost mut trace: Seq<Round<R, E, S, F>> = Seq::empty();
    loop
        invariant
            *combine == *old(combine),
            runs_anywhere(*parse),
            takes_answers(*parse, *combine),
            forall|b: &mut BytesMut, element: Outcome<R, E>, item: Result<R, E>|
                #[trigger] call_ensures(*parse, (b,), element) && element.settled() == Some(item)
                    && #[trigger] call_ensures(*combine, (item,), Outcome::<S, F>::Suspended)
                    ==> contents(*final(b)).len() < contents(*b).len(),
            forall|i: int|
                0 <= i < trace.len() ==> (#[trigger] trace[i]).continues() && trace[i].judged_by(
                    *combine,
                ),
            forall|i: int|
                0 <= i < trace.len() - 1 ==> (#[trigger] trace[i + 1]).entry == trace[i].exit,
            forall|i: int| 0 <= i < trace.len() ==> exists|b: &mut BytesMut|
                *b == (#[trigger] trace[i]).entry && *final(b) == trace[i].exit
                && call_ensures(*parse, (b,), trace[i].element),
            trace.len() > 0 ==> trace[0].entry == *old(buf) && trace.last().exit == *buf,
            trace.len() == 0 ==> *buf == *old(buf),
        decreases contents(*buf).len(),
    {
        let ghost entry = *buf;
        let element = parse(buf);
        let ghost round = Round::<R, E, S, F> { entry, exit: *buf, element, verdict: None };
        match element.into_settled() {
            None => {
                proof {
                    trace = trace.push(round);
                    assert(repetition(*old(combine), trace, *old(buf), Outcome::<S, F>::Suspended));
                }
                return Outcome::Suspended;
            },
            Some(item) => {
                let verdict = combine(item);
                let ghost round = Round::<R, E, S, F> { verdict: Some(verdict), ..round };
                proof {
                    trace = trace.push(round);
                }
                match verdict {
                    Outcome::Suspended => {},
                    _ => {
                        proof {
                            assert(repetition(*old(combine), trace, *old(buf), verdict));
                        }
                        return verdict;
                    },
                }
            },
        }
    }
}

/// Parses zero or more elements.
///
/// `parse` is run for one element after the other. While it is suspended
/// the whole repetition is. Every other answer is handed to `combine` as a
/// `Result`, and `combine` decides: `Suspended` asks for another element,
/// `Complete` ends the repetition with its value, `Failed` ends it with its
/// error. The repetition is one all-or-nothing step: unless it ends with
/// `Complete`, the cursor is put back to where it stood on entry.
///
/// The repetition must get somewhere: whenever `combine` asks for another
/// element, the element before has to have consumed input. Otherwise the
/// loop would not end.
pub fn repeat<P, R, E, C, S, F>(buf: &mut BytesMut, parse: P, combine: C) -> (res: Outcome<S, F>)
    where P: Fn(&mut BytesMut) -> Outcome<R, E>, C: FnMut(Result<R, E>) -> Outcome<S, F>
    requires
        runs_anywhere(parse),
        takes_answers(parse, combine),
        forall|b: &mut BytesMut, element: Outcome<R, E>, item: Result<R, E>|
            #[trigger] call_ensures(parse, (b,), element) && element.settled() == Some(item)
                && #[trigger] call_ensures(combine, (item,), Outcome::<S, F>::Suspended)
                ==> contents(*final(b)).len() < contents(*b).len(),
    ensures
        exists|trace: Seq<Round<R, E, S, F>>|
            #[trigger] repetition(combine, trace, *old(buf), res)
            && (forall|i: int| 0 <= i < trace.len() ==> exists|b: &mut BytesMut|
                *b == (#[trigger] trace[i]).entry && *final(b) == trace[i].exit
                && call_ensures(parse, (b,), trace[i].element))
            && settles(res is Complete, *old(buf), trace.last().exit, *final(buf)),
        res is Complete || rewound(*old(buf), *final(buf)),
{
    let whole = move |cursor: &mut BytesMut| -> (r: Outcome<S, F>)
        ensures
            exists|trace: Seq<Round<R, E, S, F>>|
                #[trigger] repetition(combine, trace, *old(cursor), r)
                && (forall|i: int| 0 <= i < trace.len() ==> exists|b: &mut BytesMut|
                    *b == (#[trigger] trace[i]).entry && *final(b) == trace[i].exit
                    && call_ensures(parse, (b,), trace[i].element))
                && *final(cursor) == trace.last().exit
        {
            let mut combine = combine;
            drive(cursor, &parse, &mut combine)
        };
    group(buf, whole)
}

/// A repetition that wants at least one element, from the cursor as it
/// stands and without any rewinding.
fn drive_required<P, R, E, C, S, F, D>(
    buf: &mut BytesMut,
    parse: &P,
    combine: &mut C,
    error: D,
) -> (res: Outcome<S, F>)
    where
        P: Fn(&mut BytesMut) -> Outcome<R, E>,
        C: FnMut(Result<R, E>) -> Outcome<S, F>,
        D: FnOnce(E) -> F,
    requires
        runs_anywhere(*parse),
        takes_answers(*parse, *old(combine)),
        takes_failures(*parse, error),
        forall|b: &mut BytesMut, element: Outcome<R, E>, item: Result<R, E>|
            #[trigger] call_ensures(*parse, (b,), element) && element.settled() == Some(item)
                && #[trigger] call_ensures(*old(combine), (item,), Outcome::<S, F>::Suspended)
                ==> contents(*final(b)).len() < contents(*b).len(),
    ensures
        exists|trace: Seq<Round<R, E, S, F>>|
            #[trigger] required_repetition(*old(combine), error, trace, *old(buf), res)
            && (forall|i: int| 0 <= i < trace.len() ==> exists|b: &mut BytesMut|
                *b == (#[trigger] trace[i]).entry && *final(b) == trace[i].exit
                && call_ensures(*parse, (b,), trace[i].element))
            && *final(buf) == trace.last().exit,
{
    let ghost entry = *buf;
    let first = parse(buf);
    let ghost round = Round::<R, E, S, F> { entry, exit: *buf, element: first, verdict: None };
    match first.into_settled() {
        None => {
            proof {
                let stopped = Outcome::<S, F>::Suspended;
                assert(required_repetition(*old(combine), error, seq![round], entry, stopped));
            }
            Outcome::Suspended
        },
        Some(Err(e)) => {
            let adapted = error(e);
            proof {
                let failed = Outcome::<S, F>::Failed(adapted);
                assert(required_repetition(*old(combine), error, seq![round], entry, failed));
            }
            Outcome::Failed(adapted)
        },
        Some(Ok(item)) => {
            let verdict = combine(Ok(item));
            let ghost round = Round::<R, E, S, F> { verdict: Some(verdict), ..round };
            match verdict {
                Outcome::Suspended => {
                    let ghost resumed = *buf;
                    let res = drive(buf, parse, combine);
                    proof {
                        let rest = choose|rest: Seq<Round<R, E, S, F>>|
                            #[trigger] repetition(*old(combine), rest, resumed, res)
                            && (forall|i: int| 0 <= i < rest.len() ==> exists|b: &mut BytesMut|
                                *b == (#[trigger] rest[i]).entry && *final(b) == rest[i].exit
                                && call_ensures(*parse, (b,), rest[i].element))
                            && *buf == rest.last().exit;
                        assert(required_repetition(
                            *old(combine),
                            error,
                            seq![round] + rest,
                            entry,
                            res,
                        ));
                    }
                    res
                },
                _ => {
                    proof {
                        assert(required_repetition(
                            *old(combine),
                            error,
                            seq![round],
                            entry,
                            verdict,
                        ));
                    }
                    verdict
                },
            }
        },
    }
}

/// Parses one or more elements.
///
/// Like [`repeat`], but the first element is wanted: if `parse` fails on
/// the first attempt, `combine` is not asked at all, and the repetition
/// fails with what `error` makes of the rule's error. Later failures of
/// `parse` go to `combine` as they do in `repeat`.
pub fn at_least_once<P, R, E, C, S, F, D>(
    buf: &mut BytesMut,
    parse: P,
    combine: C,
    error: D,
) -> (res: Outcome<S, F>)
    where
        P: Fn(&mut BytesMut) -> Outcome<R, E>,
        C: FnMut(Result<R, E>) -> Outcome<S, F>,
        D: FnOnce(E) -> F,
    requires
        runs_anywhere(parse),
        takes_answers(parse, combine),
        takes_failures(parse, error),
        forall|b: &mut BytesMut, element: Outcome<R, E>, item: Result<R, E>|
            #[trigger] call_ensures(parse, (b,), element) && element.settled() == Some(item)
                && #[trigger] call_ensures(combine, (item,), Outcome::<S, F>::Suspended)
                ==> contents(*final(b)).len() < contents(*b).len(),
    ensures
        exists|trace: Seq<Round<R, E, S, F>>|
            #[trigger] required_repetition(combine, error, trace, *old(buf), res)
            && (forall|i: int| 0 <= i < trace.len() ==> exists|b: &mut BytesMut|
                *b == (#[trigger] trace[i]).entry && *final(b) == trace[i].exit
                && call_ensures(parse, (b,), trace[i].element))
            && settles(res is Complete, *old(buf), trace.last().exit, *final(buf)),
        res is Complete || rewound(*old(buf), *final(buf)),
{
    let whole = move |cursor: &mut BytesMut| -> (r: Outcome<S, F>)
        ensures
            exists|trace: Seq<Round<R, E, S, F>>|
                #[trigger] required_repetition(combine, error, trace, *old(cursor), r)
                && (forall|i: int| 0 <= i < trace.len() ==> exists|b: &mut BytesMut|
                    *b == (#[trigger] trace[i]).entry && *final(b) == trace[i].exit
                    && call_ensures(parse, (b,), trace[i].element))
                && *final(cursor) == trace.last().exit
        {
            let mut combine = combine;
            drive_required(cursor, &parse, &mut combine, error)
        };
    group(buf, whole)
}

/// Makes a rule optional.
///
/// `parse` is run once. Its value comes back as `Some`, its failure as
/// `None`, with the error dropped; while it is suspended, so is the optional
/// rule. The cursor is left as `parse` left it: nothing is put back here,
/// so the rule has to keep to the convention that a step which does not
/// complete consumes nothing.
pub fn optional<P, R, E, F>(buf: &mut BytesMut, parse: P) -> (res: Outcome<Option<R>, F>)
    where P: FnOnce(&mut BytesMut) -> Outcome<R, E>
    requires
        runs_on(parse, *old(buf)),
    ensures
        exists|run: &mut BytesMut, inner: Outcome<R, E>|
            *run == *old(buf)
            && *final(run) == *final(buf)
            && #[trigger] call_ensures(parse, (run,), inner)
            && res == absent_on_failure::<R, E, F>(inner),
{
    match parse(buf) {
        Outcome::Suspended => Outcome::Suspended,
        Outcome::Complete(value) => Outcome::Complete(Some(value)),
        Outcome::Failed(_) => Outcome::Complete(None),
    }
}

} // verus!
