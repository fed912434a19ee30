use abnf::outcome::Outcome;
use abnf::parse::rule::{at_least_once, group, opt_group, optional, repeat};
use bytes::BytesMut;

fn cursor(input: &str) -> BytesMut {
    BytesMut::from(input)
}

/// A single ASCII digit.
fn digit(buf: &mut BytesMut) -> Outcome<char, String> {
    if buf.is_empty() {
        Outcome::Suspended
    } else if buf[0].is_ascii_digit() {
        let head = buf.split_to(1);
        Outcome::Complete(char::from(head[0]))
    } else {
        Outcome::Failed(format!("no digit: {:?}", char::from(buf[0])))
    }
}

/// A single ASCII letter.
fn alpha(buf: &mut BytesMut) -> Outcome<char, String> {
    if buf.is_empty() {
        Outcome::Suspended
    } else if buf[0].is_ascii_alphabetic() {
        let head = buf.split_to(1);
        Outcome::Complete(char::from(head[0]))
    } else {
        Outcome::Failed(format!("no letter: {:?}", char::from(buf[0])))
    }
}

/// A digit followed by a letter, written without any rewinding of its own.
fn digit_then_alpha(buf: &mut BytesMut) -> Outcome<(char, char), String> {
    let first = match digit(buf) {
        Outcome::Complete(c) => c,
        Outcome::Suspended => return Outcome::Suspended,
        Outcome::Failed(e) => return Outcome::Failed(e),
    };
    let second = match alpha(buf) {
        Outcome::Complete(c) => c,
        Outcome::Suspended => return Outcome::Suspended,
        Outcome::Failed(e) => return Outcome::Failed(e),
    };
    Outcome::Complete((first, second))
}

/// `*DIGIT`, collected into a vector.
fn digits(buf: &mut BytesMut) -> Outcome<Vec<char>, String> {
    let mut seen = Vec::new();
    repeat(buf, digit, move |item| match item {
        Ok(c) => {
            seen.push(c);
            Outcome::Suspended
        }
        Err(_) => Outcome::Complete(seen.clone()),
    })
}

/// `1*DIGIT`, collected into a vector.
fn some_digits(buf: &mut BytesMut) -> Outcome<Vec<char>, String> {
    let mut seen = Vec::new();
    at_least_once(
        buf,
        digit,
        move |item| match item {
            Ok(c) => {
                seen.push(c);
                Outcome::Suspended
            }
            Err(_) => Outcome::Complete(seen.clone()),
        },
        |_| String::from("expected at least one digit"),
    )
}

// ---- group ----------------------------------------------------------------

#[test]
fn group_keeps_what_a_complete_rule_consumed() {
    let mut buf = cursor("1ab");
    let res = group(&mut buf, digit_then_alpha);
    assert_eq!(res, Outcome::Complete(('1', 'a')));
    assert_eq!(&buf[..], b"b");
}

#[test]
fn group_rewinds_a_rule_that_fails_halfway() {
    let mut buf = cursor("12");
    let res = group(&mut buf, digit_then_alpha);
    assert_eq!(res, Outcome::Failed(String::from("no letter: '2'")));
    assert_eq!(&buf[..], b"12");
}

#[test]
fn group_rewinds_a_rule_that_is_suspended_halfway() {
    let mut buf = cursor("1");
    let res = group(&mut buf, digit_then_alpha);
    assert_eq!(res, Outcome::Suspended);
    assert_eq!(&buf[..], b"1");
}

#[test]
fn ungrouped_rule_leaks_what_it_consumed() {
    let mut buf = cursor("12");
    let res = digit_then_alpha(&mut buf);
    assert_eq!(res, Outcome::Failed(String::from("no letter: '2'")));
    assert_eq!(&buf[..], b"2");
}

#[test]
fn group_hands_the_outcome_on_untouched() {
    let mut buf = cursor("xyz");
    let res: Outcome<u32, u32> = group(&mut buf, |_| Outcome::Failed(17));
    assert_eq!(res, Outcome::Failed(17));
    let res: Outcome<u32, u32> = group(&mut buf, |_| Outcome::Complete(4));
    assert_eq!(res, Outcome::Complete(4));
    let res: Outcome<u32, u32> = group(&mut buf, |_| Outcome::Suspended);
    assert_eq!(res, Outcome::Suspended);
    assert_eq!(&buf[..], b"xyz");
}

#[test]
fn group_on_empty_cursor() {
    let mut buf = BytesMut::new();
    let res = group(&mut buf, digit);
    assert_eq!(res, Outcome::Suspended);
    assert!(buf.is_empty());
}

#[test]
fn groups_nest() {
    let mut buf = cursor("1a2");
    let res: Outcome<(char, char, char), String> = group(&mut buf, |buf| {
        let (d, a) = match group(buf, digit_then_alpha) {
            Outcome::Complete(pair) => pair,
            Outcome::Suspended => return Outcome::Suspended,
            Outcome::Failed(e) => return Outcome::Failed(e),
        };
        match alpha(buf) {
            Outcome::Complete(c) => Outcome::Complete((d, a, c)),
            Outcome::Suspended => Outcome::Suspended,
            Outcome::Failed(e) => Outcome::Failed(e),
        }
    });
    assert_eq!(res, Outcome::Failed(String::from("no letter: '2'")));
    assert_eq!(&buf[..], b"1a2");
}

#[test]
fn group_rewinds_a_long_cursor() {
    let input = "7".repeat(100);
    let mut buf = cursor(&input);
    let res: Outcome<(), u8> = group(&mut buf, |buf| {
        buf.split_to(60);
        Outcome::Failed(1)
    });
    assert_eq!(res, Outcome::Failed(1));
    assert_eq!(&buf[..], input.as_bytes());
}

// ---- opt_group ------------------------------------------------------------

#[test]
fn opt_group_keeps_a_find() {
    let mut buf = cursor("1a!");
    let res = opt_group(&mut buf, |buf| match digit_then_alpha(buf) {
        Outcome::Complete(pair) => Outcome::<_, String>::Complete(Some(pair)),
        Outcome::Suspended => Outcome::Suspended,
        Outcome::Failed(_) => Outcome::Complete(None),
    });
    assert_eq!(res, Outcome::Complete(Some(('1', 'a'))));
    assert_eq!(&buf[..], b"!");
}

#[test]
fn opt_group_rewinds_when_nothing_was_found() {
    let mut buf = cursor("12");
    let res = opt_group(&mut buf, |buf| match digit_then_alpha(buf) {
        Outcome::Complete(pair) => Outcome::<_, String>::Complete(Some(pair)),
        Outcome::Suspended => Outcome::Suspended,
        Outcome::Failed(_) => Outcome::Complete(None),
    });
    assert_eq!(res, Outcome::Complete(None));
    assert_eq!(&buf[..], b"12");
}

#[test]
fn opt_group_rewinds_on_suspension_and_failure() {
    let mut buf = cursor("1");
    let res = opt_group(&mut buf, |buf| match digit_then_alpha(buf) {
        Outcome::Complete(pair) => Outcome::Complete(Some(pair)),
        Outcome::Suspended => Outcome::Suspended,
        Outcome::Failed(e) => Outcome::Failed(e),
    });
    assert_eq!(res, Outcome::Suspended);
    assert_eq!(&buf[..], b"1");

    let mut buf = cursor("1?");
    let res = opt_group(&mut buf, |buf| match digit_then_alpha(buf) {
        Outcome::Complete(pair) => Outcome::Complete(Some(pair)),
        Outcome::Suspended => Outcome::Suspended,
        Outcome::Failed(e) => Outcome::Failed(e),
    });
    assert_eq!(res, Outcome::Failed(String::from("no letter: '?'")));
    assert_eq!(&buf[..], b"1?");
}

// ---- repeat ---------------------------------------------------------------

#[test]
fn repeat_collects_digits_up_to_the_first_letter() {
    let mut buf = cursor("123abc");
    let res = digits(&mut buf);
    assert_eq!(res, Outcome::Complete(vec!['1', '2', '3']));
    assert_eq!(&buf[..], b"abc");
}

#[test]
fn repeat_of_nothing_is_complete() {
    let mut buf = cursor("abc");
    let res = digits(&mut buf);
    assert_eq!(res, Outcome::Complete(vec![]));
    assert_eq!(&buf[..], b"abc");
}

#[test]
fn repeat_is_suspended_when_the_input_runs_out() {
    let mut buf = cursor("123");
    let res = digits(&mut buf);
    assert_eq!(res, Outcome::Suspended);
    assert_eq!(&buf[..], b"123");
}

#[test]
fn repeat_on_empty_cursor_is_suspended() {
    let mut buf = BytesMut::new();
    let res = digits(&mut buf);
    assert_eq!(res, Outcome::Suspended);
    assert!(buf.is_empty());
}

#[test]
fn repeat_starts_over_after_a_suspension() {
    let mut buf = cursor("12");
    assert_eq!(digits(&mut buf), Outcome::Suspended);
    buf.extend_from_slice(b"3;");
    assert_eq!(digits(&mut buf), Outcome::Complete(vec!['1', '2', '3']));
    assert_eq!(&buf[..], b";");
}

#[test]
fn repeat_hands_each_answer_to_the_combiner_in_order() {
    let mut buf = cursor("40x");
    let mut log = Vec::new();
    let res: Outcome<(), ()> = repeat(&mut buf, digit, |item| {
        let last = item.is_err();
        log.push(item);
        if last {
            Outcome::Complete(())
        } else {
            Outcome::Suspended
        }
    });
    assert_eq!(res, Outcome::Complete(()));
    assert_eq!(log, vec![Ok('4'), Ok('0'), Err(String::from("no digit: 'x'"))]);
    assert_eq!(&buf[..], b"x");
}

#[test]
fn repeat_with_a_count() {
    let mut buf = cursor("12345");
    let mut seen = Vec::new();
    let res = repeat(&mut buf, digit, |item| match item {
        Ok(c) => {
            seen.push(c);
            if seen.len() == 2 {
                Outcome::Complete(seen.len())
            } else {
                Outcome::Suspended
            }
        }
        Err(e) => Outcome::Failed(e),
    });
    assert_eq!(res, Outcome::Complete(2));
    assert_eq!(seen, vec!['1', '2']);
    assert_eq!(&buf[..], b"345");
}

#[test]
fn repeat_rewinds_when_the_combiner_fails() {
    let mut buf = cursor("12a45");
    let mut count = 0;
    let res: Outcome<(), String> = repeat(&mut buf, digit, |item| match item {
        Ok(_) => {
            count += 1;
            if count == 3 {
                Outcome::Complete(())
            } else {
                Outcome::Suspended
            }
        }
        Err(_) => Outcome::Failed(format!("only {} of 3", count)),
    });
    assert_eq!(res, Outcome::Failed(String::from("only 2 of 3")));
    assert_eq!(&buf[..], b"12a45");
}

#[test]
fn repeat_does_not_ask_the_combiner_about_a_suspension() {
    let mut buf = cursor("1");
    let mut asked = 0;
    let res: Outcome<(), ()> = repeat(&mut buf, digit, |_| {
        asked += 1;
        Outcome::Suspended
    });
    assert_eq!(res, Outcome::Suspended);
    assert_eq!(asked, 1);
    assert_eq!(&buf[..], b"1");
}

// ---- at_least_once --------------------------------------------------------

#[test]
fn at_least_once_fails_without_a_first_element() {
    let mut buf = cursor("abc");
    let res = some_digits(&mut buf);
    assert_eq!(res, Outcome::Failed(String::from("expected at least one digit")));
    assert_eq!(&buf[..], b"abc");
}

#[test]
fn at_least_once_adapts_the_first_error_and_skips_the_combiner() {
    let mut buf = cursor("abc");
    let mut asked = false;
    let res: Outcome<(), (usize, String)> = at_least_once(
        &mut buf,
        digit,
        |_| {
            asked = true;
            Outcome::Complete(())
        },
        |e| (1, e),
    );
    assert_eq!(res, Outcome::Failed((1, String::from("no digit: 'a'"))));
    assert!(!asked);
    assert_eq!(&buf[..], b"abc");
}

#[test]
fn at_least_once_collects_like_repeat_after_the_first() {
    let mut buf = cursor("123abc");
    let res = some_digits(&mut buf);
    assert_eq!(res, Outcome::Complete(vec!['1', '2', '3']));
    assert_eq!(&buf[..], b"abc");

    let mut buf = cursor("7z");
    let res = some_digits(&mut buf);
    assert_eq!(res, Outcome::Complete(vec!['7']));
    assert_eq!(&buf[..], b"z");
}

#[test]
fn at_least_once_is_suspended_on_empty_cursor() {
    let mut buf = BytesMut::new();
    let res = some_digits(&mut buf);
    assert_eq!(res, Outcome::Suspended);
    assert!(buf.is_empty());
}

#[test]
fn at_least_once_rewinds_a_later_suspension() {
    let mut buf = cursor("12");
    let res = some_digits(&mut buf);
    assert_eq!(res, Outcome::Suspended);
    assert_eq!(&buf[..], b"12");
}

#[test]
fn at_least_once_can_end_with_the_first_element() {
    let mut buf = cursor("12");
    let res: Outcome<char, String> = at_least_once(
        &mut buf,
        digit,
        |item| match item {
            Ok(c) => Outcome::Complete(c),
            Err(e) => Outcome::Failed(e),
        },
        |e| e,
    );
    assert_eq!(res, Outcome::Complete('1'));
    assert_eq!(&buf[..], b"2");
}

#[test]
fn at_least_once_rewinds_when_the_combiner_fails() {
    let mut buf = cursor("12a");
    let res: Outcome<(), String> = at_least_once(
        &mut buf,
        digit,
        |item| match item {
            Ok(_) => Outcome::Suspended,
            Err(e) => Outcome::Failed(e),
        },
        |_| String::from("expected at least one digit"),
    );
    assert_eq!(res, Outcome::Failed(String::from("no digit: 'a'")));
    assert_eq!(&buf[..], b"12a");
}

// ---- optional -------------------------------------------------------------

#[test]
fn optional_finds_a_digit() {
    let mut buf = cursor("5x");
    let res: Outcome<Option<char>, ()> = optional(&mut buf, digit);
    assert_eq!(res, Outcome::Complete(Some('5')));
    assert_eq!(&buf[..], b"x");
}

#[test]
fn optional_turns_a_failure_into_nothing() {
    let mut buf = cursor("x5");
    let res: Outcome<Option<char>, ()> = optional(&mut buf, digit);
    assert_eq!(res, Outcome::Complete(None));
    assert_eq!(&buf[..], b"x5");
}

#[test]
fn optional_stays_suspended() {
    let mut buf = BytesMut::new();
    let res: Outcome<Option<char>, ()> = optional(&mut buf, digit);
    assert_eq!(res, Outcome::Suspended);
    assert!(buf.is_empty());
}

#[test]
fn optional_does_not_rewind_by_itself() {
    let mut buf = cursor("12");
    let res: Outcome<Option<(char, char)>, ()> = optional(&mut buf, digit_then_alpha);
    assert_eq!(res, Outcome::Complete(None));
    assert_eq!(&buf[..], b"2");

    let mut buf = cursor("12");
    let res: Outcome<Option<(char, char)>, ()> =
        optional(&mut buf, |buf: &mut BytesMut| group(buf, digit_then_alpha));
    assert_eq!(res, Outcome::Complete(None));
    assert_eq!(&buf[..], b"12");
}

#[test]
fn optional_after_a_rule_in_one_group() {
    let rule = |buf: &mut BytesMut| -> Outcome<(char, Option<char>), String> {
        group(buf, |buf| {
            let first = match alpha(buf) {
                Outcome::Complete(c) => c,
                Outcome::Suspended => return Outcome::Suspended,
                Outcome::Failed(e) => return Outcome::Failed(e),
            };
            match optional(buf, digit) {
                Outcome::Complete(second) => Outcome::Complete((first, second)),
                Outcome::Suspended => Outcome::Suspended,
                Outcome::Failed(e) => Outcome::Failed(e),
            }
        })
    };
    let mut buf = cursor("a1.");
    assert_eq!(rule(&mut buf), Outcome::Complete(('a', Some('1'))));
    assert_eq!(&buf[..], b".");

    let mut buf = cursor("a.");
    assert_eq!(rule(&mut buf), Outcome::Complete(('a', None)));
    assert_eq!(&buf[..], b".");

    let mut buf = cursor("a");
    assert_eq!(rule(&mut buf), Outcome::Suspended);
    assert_eq!(&buf[..], b"a");
}
