use std::sync::mpsc::{Receiver, TryRecvError};
use std::time::{Duration, Instant};
use vstd::prelude::*;

verus! {

#[verifier::external_type_specification]
#[verifier::external_body]
pub struct ExInstant(Instant);

#[verifier::external_type_specification]
#[verifier::external_body]
#[verifier::reject_recursive_types(T)]
pub struct ExReceiver<T>(Receiver<T>);

/// What a look at the channel of a search finds.
#[derive(Clone, Copy, Debug)]
pub enum Polled {
    /// A message was waiting.
    Message(&'static str),
    /// Nothing was waiting.
    Empty,
    /// The sender is gone.
    Disconnected,
}

/// `Instant::now` of std: the present moment. Nothing is claimed of it.
#[verifier::external_body]
pub(crate) fn now() -> (moment: Instant) {
    Instant::now()
}

/// `Instant::elapsed` of std: the time since `since`. Nothing is claimed of
/// it.
#[verifier::external_body]
pub(crate) fn time_since(since: &Instant) -> (passed: Duration) {
    since.elapsed()
}

/// `Duration::as_millis` of std: the whole milliseconds of a duration.
/// Nothing is claimed of the number.
#[verifier::external_body]
pub(crate) fn whole_millis(passed: &Duration) -> (millis: u128) {
    passed.as_millis()
}

/// `Receiver::try_recv` of std: takes a waiting message from the channel
/// without blocking. Nothing is claimed of what is found.
#[verifier::external_body]
pub(crate) fn poll(channel: &Receiver<&'static str>) -> (found: Polled) {
    match channel.try_recv() {
        Ok(text) => Polled::Message(text),
        Err(TryRecvError::Empty) => Polled::Empty,
        Err(TryRecvError::Disconnected) => Polled::Disconnected,
    }
}

/// Whether what was found on the channel ends the search: the message
/// `stop`, or the loss of the sender.
pub open spec fn ends_search(found: Polled) -> bool {
    match found {
        Polled::Message(text) => text@ == "stop"@,
        Polled::Empty => false,
        Polled::Disconnected => true,
    }
}

pub fn is_stop(found: Polled) -> (stop: bool)
    ensures
        stop == ends_search(found),
{
    proof {
        reveal_strlit("stop");
    }
    match found {
        Polled::Message(text) => {
            if text.unicode_len() != 4 {
                false
            } else {
                let same: bool = text.get_char(0) == 's' && text.get_char(1) == 't'
                    && text.get_char(2) == 'o' && text.get_char(3) == 'p';
                proof {
                    if same {
                        assert(text@ =~= "stop"@);
                    }
                }
                same
            }
        },
        Polled::Empty => false,
        Polled::Disconnected => true,
    }
}

/// The time that the next depth of a search is expected to take: as long as
/// the last depth times the whole number of times that depth took longer
/// than the one before it. After the first depth, as long as that took. A
/// depth that took no time counts as one that took a millisecond.
pub open spec fn predicted_time(last: int, before: Option<int>) -> int {
    match before {
        None => last,
        Some(earlier) => last * (last / (if earlier == 0 {
            1int
        } else {
            earlier
        })),
    }
}

/// Whether a search that has run for `elapsed` has the time for another
/// depth within `budget`.
#[verifier::opaque]
pub open spec fn spec_next_depth_fits(
    elapsed: int,
    last: int,
    before: Option<int>,
    budget: int,
) -> bool {
    elapsed + predicted_time(last, before) <= budget
}

/// The view of the time that the depth before the last took.
pub open spec fn before_view(before: Option<u128>) -> Option<int> {
    match before {
        Some(earlier) => Some(earlier as int),
        None => None,
    }
}

proof fn lemma_predicted_nonnegative(last: int, before: Option<int>)
    requires
        last >= 0,
        before matches Some(earlier) ==> earlier >= 0,
    ensures
        predicted_time(last, before) >= 0,
{
    match before {
        Some(earlier) => {
            let d = if earlier == 0 {
                1int
            } else {
                earlier
            };
            assert(last / d >= 0) by (nonlinear_arith)
                requires
                    last >= 0,
                    d > 0,
            ;
            assert(last * (last / d) >= 0) by (nonlinear_arith)
                requires
                    last >= 0,
                    last / d >= 0,
            ;
        },
        None => {},
    }
}

proof fn lemma_product_against_room(last: int, ratio: int, room: int)
    requires
        last >= 0,
        ratio > 0,
        room >= 0,
    ensures
        last > room / ratio ==> last * ratio > room,
        last <= room / ratio ==> last * ratio <= room,
{
    assert(last > room / ratio ==> last * ratio > room) by (nonlinear_arith)
        requires
            last >= 0,
            ratio > 0,
            room >= 0,
    ;
    assert(last <= room / ratio ==> last * ratio <= room) by (nonlinear_arith)
        requires
            last >= 0,
            ratio > 0,
            room >= 0,
    ;
}

pub fn next_depth_fits(elapsed: u128, last: u128, before: Option<u128>, budget: u128) -> (fits:
    bool)
    ensures
        fits == spec_next_depth_fits(
            elapsed as int,
            last as int,
            before_view(before),
            budget as int,
        ),
{
    proof {
        reveal(spec_next_depth_fits);
        lemma_predicted_nonnegative(last as int, before_view(before));
    }
    if elapsed > budget {
        return false;
    }
    let room: u128 = budget - elapsed;
    match before {
        None => last <= room,
        Some(earlier) => {
            let divisor: u128 = if earlier == 0 {
                1
            } else {
                earlier
            };
            let ratio: u128 = last / divisor;
            if ratio == 0 {
                assert(last as int * 0 == 0);
                true
            } else {
                proof {
                    lemma_product_against_room(last as int, ratio as int, room as int);
                }
                last <= room / ratio
            }
        },
    }
}

/// The time given to one move of a game with `time_left` on the clock and
/// `increment` added for each move: a twentieth of the first and half of
/// the second.
pub fn time_for_move(time_left: u128, increment: u128) -> (budget: u128)
    ensures
        budget == time_left / 20 + increment / 2,
{
    time_left / 20 + increment / 2
}

} // verus!
