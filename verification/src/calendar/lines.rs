//! The logical lines of a calendar, in the order in which they are written.
//!
//! A calendar is five opening lines, nine lines for each delivery, and one
//! closing line.
use vstd::prelude::*;

use crate::bring_client::mailbox_delivery_dates::Delivery;
use crate::date::{
    basic_date_text, basic_timestamp_text, extended_date_text, weekday_index, Moment, Weekday,
};
use crate::text::{decimal, four_digits};

verus! {

/// The lines that one event is made of.
pub const EVENT_LINES: usize = 9;

/// The lines that open a calendar.
pub const PREAMBLE_LINES: usize = 5;

/// The Norwegian name of a day of the week.
pub open spec fn weekday_name(day: Weekday) -> Seq<char> {
    match day {
        Weekday::Mon => "mandag"@,
        Weekday::Tue => "tirsdag"@,
        Weekday::Wed => "onsdag"@,
        Weekday::Thu => "torsdag"@,
        Weekday::Fri => "fredag"@,
        Weekday::Sat => "lørdag"@,
        Weekday::Sun => "søndag"@,
    }
}

/// The line that says when the event ends: the day after the delivery.
pub open spec fn dtend_line(delivery: Delivery) -> Seq<char> {
    "DTEND;VALUE=DATE:"@ + basic_date_text(delivery.date.day_after())
}

/// The line that says when the event was written down.
pub open spec fn dtstamp_line(stamp: Moment) -> Seq<char> {
    "DTSTAMP:"@ + basic_timestamp_text(stamp)
}

/// The line that says when the event starts: the day of the delivery.
pub open spec fn dtstart_line(delivery: Delivery) -> Seq<char> {
    "DTSTART;VALUE=DATE:"@ + basic_date_text(delivery.date)
}

/// The line that a reader of the calendar sees: the postal code, the name of
/// the day of the week and the day of the month without a leading zero.
pub open spec fn summary_line(delivery: Delivery) -> Seq<char> {
    "SUMMARY:"@ + four_digits(delivery.postal_code) + ": Posten kommer "@ + weekday_name(
        Weekday::at(weekday_index(delivery.date.year, delivery.date.month, delivery.date.day)),
    ) + " "@ + decimal(delivery.date.day as nat) + "."@
}

/// The line that tells one event from every other: postal code and day.
pub open spec fn uid_line(delivery: Delivery) -> Seq<char> {
    "UID:postgang-"@ + four_digits(delivery.postal_code) + "-"@ + extended_date_text(
        delivery.date,
    )
}

/// The nine lines of the event of one delivery. `stamp` is the instant that
/// the event is said to be written down at.
pub open spec fn event_lines(delivery: Delivery, stamp: Moment) -> Seq<Seq<char>> {
    seq![
        "BEGIN:VEVENT"@,
        dtend_line(delivery),
        dtstamp_line(stamp),
        dtstart_line(delivery),
        summary_line(delivery),
        "TRANSP:TRANSPARENT"@,
        uid_line(delivery),
        "URL:https://www.posten.no/levering-av-post/"@,
        "END:VEVENT"@,
    ]
}

/// The five lines that open every calendar.
pub open spec fn preamble_lines() -> Seq<Seq<char>> {
    seq![
        "BEGIN:VCALENDAR"@,
        "VERSION:2.0"@,
        "PRODID:-//Aasan//Aasan Postgang//EN"@,
        "CALSCALE:GREGORIAN"@,
        "METHOD:PUBLISH"@,
    ]
}

/// The lines of the events of `deliveries`, one event after the other in the
/// order of the deliveries.
pub open spec fn all_event_lines(deliveries: Seq<Delivery>, stamp: Moment) -> Seq<Seq<char>>
    decreases deliveries.len(),
{
    if deliveries.len() == 0 {
        Seq::empty()
    } else {
        all_event_lines(deliveries.drop_last(), stamp) + event_lines(deliveries.last(), stamp)
    }
}

/// All lines of the calendar of `deliveries`: the opening lines, the events,
/// and the closing line.
pub open spec fn calendar_lines(deliveries: Seq<Delivery>, stamp: Moment) -> Seq<Seq<char>> {
    preamble_lines() + all_event_lines(deliveries, stamp) + seq!["END:VCALENDAR"@]
}

/// Each delivery has nine lines, and line `k` of delivery `i` is line
/// `9 * i + k` of them all.
pub proof fn lemma_all_event_lines(deliveries: Seq<Delivery>, stamp: Moment)
    ensures
        all_event_lines(deliveries, stamp).len() == EVENT_LINES * deliveries.len(),
        forall|i: int, k: int|
            0 <= i < deliveries.len() && 0 <= k < EVENT_LINES ==> all_event_lines(
                deliveries,
                stamp,
            )[EVENT_LINES * i + k] == #[trigger] event_lines(deliveries[i], stamp)[k],
    decreases deliveries.len(),
{
    if deliveries.len() > 0 {
        let front = deliveries.drop_last();
        lemma_all_event_lines(front, stamp);
        assert forall|i: int, k: int|
            0 <= i < deliveries.len() && 0 <= k < EVENT_LINES implies all_event_lines(
            deliveries,
            stamp,
        )[EVENT_LINES * i + k] == #[trigger] event_lines(deliveries[i], stamp)[k] by {
            if i < front.len() {
                assert(front[i] == deliveries[i]);
            }
        }
    }
}

/// The line at `position` of the calendar of `deliveries`, or `None` behind
/// its last line.
pub open spec fn calendar_line(deliveries: Seq<Delivery>, stamp: Moment, position: int) -> Option<
    Seq<char>,
> {
    if 0 <= position < calendar_lines(deliveries, stamp).len() {
        Some(calendar_lines(deliveries, stamp)[position])
    } else {
        None
    }
}

/// The number of lines of a calendar of `deliveries` deliveries.
pub open spec fn line_count(deliveries: nat) -> int {
    PREAMBLE_LINES + EVENT_LINES * deliveries + 1
}

/// A calendar of `n` deliveries has `9 * n + 6` lines.
pub proof fn lemma_line_count(deliveries: Seq<Delivery>, stamp: Moment)
    ensures
        calendar_lines(deliveries, stamp).len() == line_count(deliveries.len()),
{
    lemma_all_event_lines(deliveries, stamp);
}

/// The first five lines of a calendar are the opening lines.
pub proof fn lemma_preamble_position(deliveries: Seq<Delivery>, stamp: Moment, p: int)
    requires
        0 <= p < PREAMBLE_LINES,
    ensures
        calendar_line(deliveries, stamp, p) == Some(preamble_lines()[p]),
{
    lemma_all_event_lines(deliveries, stamp);
}

/// Line `k` of the event of delivery `i` is line `5 + 9 * i + k` of the
/// calendar.
pub proof fn lemma_event_position(deliveries: Seq<Delivery>, stamp: Moment, i: int, k: int)
    requires
        0 <= i < deliveries.len(),
        0 <= k < EVENT_LINES,
    ensures
        calendar_line(deliveries, stamp, PREAMBLE_LINES + EVENT_LINES * i + k) == Some(
            event_lines(deliveries[i], stamp)[k],
        ),
{
    lemma_all_event_lines(deliveries, stamp);
    let all = all_event_lines(deliveries, stamp);
    assert(all[EVENT_LINES * i + k] == event_lines(deliveries[i], stamp)[k]);
    assert(calendar_lines(deliveries, stamp)[PREAMBLE_LINES + EVENT_LINES * i + k] == all[EVENT_LINES
        * i + k]);
}

/// The line behind the last event closes the calendar, and no line follows
/// it.
pub proof fn lemma_closing_position(deliveries: Seq<Delivery>, stamp: Moment)
    ensures
        calendar_line(deliveries, stamp, line_count(deliveries.len()) - 1) == Some(
            "END:VCALENDAR"@,
        ),
        calendar_line(deliveries, stamp, line_count(deliveries.len())) == None::<Seq<char>>,
{
    lemma_all_event_lines(deliveries, stamp);
}

} // verus!
