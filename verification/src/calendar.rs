//! iCalendar generator.
use vstd::prelude::*;
use vstd::std_specs::convert::FromSpecImpl;
use vstd::string::*;

use crate::bring_client::mailbox_delivery_dates::{Delivery, DeliveryDate};
use crate::date::{
    basic_date_text, basic_timestamp_text, weekday_index, Date, Moment, Timestamp, Weekday,
};

pub mod content_line;
pub mod folding;
pub mod lines;

use content_line::{rendered, stamped, CalendarIterator};
use lines::{calendar_lines, lemma_line_count, line_count, weekday_name};

verus! {

/// A date as it stands in the lines of an event, as in `19700813`.
pub fn format_naive_date(date: Date) -> (text: String)
    ensures
        text@ == basic_date_text(date@),
{
    date.to_basic_string()
}

/// An instant as it stands in the lines of an event, as in
/// `19700813T000000Z`.
pub fn format_timestamp(timestamp: &Timestamp) -> (text: String)
    ensures
        text@ == basic_timestamp_text(timestamp@),
{
    timestamp.to_basic_string()
}

/// The Norwegian name of a day of the week.
pub fn norwegian(day: Weekday) -> (name: &'static str)
    ensures
        name@ == weekday_name(day),
{
    match day {
        Weekday::Mon => "mandag",
        Weekday::Tue => "tirsdag",
        Weekday::Wed => "onsdag",
        Weekday::Thu => "torsdag",
        Weekday::Fri => "fredag",
        Weekday::Sat => "lørdag",
        Weekday::Sun => "søndag",
    }
}

/// The Norwegian name of the day of the week of `date`.
pub fn weekday(date: Date) -> (name: &'static str)
    ensures
        name@ == weekday_name(Weekday::at(weekday_index(date@.year, date@.month, date@.day))),
{
    norwegian(date.weekday())
}

/// The text of a document with the given logical lines: each line written
/// out as a content line is, one after the other.
pub open spec fn written(lines: Seq<Seq<char>>) -> Seq<char>
    decreases lines.len(),
{
    if lines.len() == 0 {
        Seq::empty()
    } else {
        written(lines.drop_last()) + rendered(lines.last())
    }
}

/// A calendar as the contracts see it: the deliveries in the order in which
/// their events are written, and the instant that the events are stamped
/// with, where that is fixed.
pub struct CalendarView {
    pub deliveries: Seq<Delivery>,
    pub created: Option<Moment>,
}

/// The deliveries of one calendar document.
#[derive(Debug)]
pub struct Calendar {
    delivery_dates: Vec<DeliveryDate>,
    created: Option<Timestamp>,
}

impl View for Calendar {
    type V = CalendarView;

    closed spec fn view(&self) -> CalendarView {
        CalendarView {
            deliveries: self.delivery_dates@.map_values(|delivery: DeliveryDate| delivery@),
            created: match self.created {
                Some(created) => Some(created@),
                None => None,
            },
        }
    }
}

impl Clone for Calendar {
    fn clone(&self) -> (copy: Self)
        ensures
            copy@ == self@,
    {
        let mut delivery_dates: Vec<DeliveryDate> = Vec::new();
        let mut i: usize = 0;
        while i < self.delivery_dates.len()
            invariant
                i <= self.delivery_dates@.len(),
                delivery_dates@ == self.delivery_dates@.take(i as int),
            decreases self.delivery_dates@.len() - i,
        {
            delivery_dates.push(self.delivery_dates[i]);
            proof {
                assert(delivery_dates@ =~= self.delivery_dates@.take(i + 1));
            }
            i = i + 1;
        }
        proof {
            assert(delivery_dates@ =~= self.delivery_dates@);
        }
        Calendar { delivery_dates, created: self.created }
    }
}

impl From<Vec<DeliveryDate>> for Calendar {
    fn from(value: Vec<DeliveryDate>) -> (calendar: Self)
        ensures
            calendar@.deliveries == value@.map_values(|delivery: DeliveryDate| delivery@),
            calendar@.created is None,
    {
        Calendar { delivery_dates: value, created: None }
    }
}

impl FromSpecImpl<Vec<DeliveryDate>> for Calendar {
    open spec fn obeys_from_spec() -> bool {
        true
    }

    /// The calendar of the deliveries, without a fixed instant.
    closed spec fn from_spec(value: Vec<DeliveryDate>) -> Self {
        Calendar { delivery_dates: value, created: None }
    }
}

impl Calendar {
    /// The calendar of `delivery_dates`, in their order. Where `created` is
    /// `None`, each event is stamped with the instant at which it is written.
    pub fn new(delivery_dates: Vec<DeliveryDate>, created: Option<Timestamp>) -> (calendar: Self)
        ensures
            calendar@.deliveries == delivery_dates@.map_values(|delivery: DeliveryDate| delivery@),
            calendar@.created == match created {
                Some(created) => Some(created@),
                None => None,
            },
    {
        Self { delivery_dates, created }
    }

    /// The number of deliveries.
    pub fn len(&self) -> (n: usize)
        ensures
            n == self@.deliveries.len(),
    {
        self.delivery_dates.len()
    }

    /// The delivery at `index`, if there are that many.
    pub fn get(&self, index: usize) -> (delivery: Option<DeliveryDate>)
        ensures
            delivery is Some <==> index < self@.deliveries.len(),
            delivery matches Some(d) ==> d@ == self@.deliveries[index as int],
    {
        if index < self.delivery_dates.len() {
            Some(self.delivery_dates[index])
        } else {
            None
        }
    }

    /// The instant that the events are stamped with, where that is fixed.
    pub fn created(&self) -> (created: Option<Timestamp>)
        ensures
            self@.created == match created {
                Some(created) => Some(created@),
                None => None,
            },
    {
        self.created
    }

    /// A sequencer at the first line of a copy of this calendar.
    pub fn iter(&self) -> (iterator: CalendarIterator)
        ensures
            iterator.calendar() == self@,
            iterator.position() == 0,
    {
        CalendarIterator::new(self.clone())
    }

    /// The calendar document with every event stamped with `now`, or with
    /// the fixed instant of the calendar where it has one.
    pub fn render_at(&self, now: &Timestamp) -> (document: String)
        ensures
            document@ == written(
                calendar_lines(
                    self@.deliveries,
                    match self@.created {
                        Some(created) => created,
                        None => now@,
                    },
                ),
            ),
    {
        let stamp = match self.created {
            Some(created) => created,
            None => *now,
        };
        let fixed = Calendar { delivery_dates: self.clone().delivery_dates, created: Some(stamp) };
        let ghost lines = calendar_lines(self@.deliveries, stamp@);
        proof {
            lemma_line_count(self@.deliveries, stamp@);
        }
        let mut iterator = CalendarIterator::new(fixed);
        let mut document = String::new();
        loop
            invariant
                iterator.calendar() == fixed@,
                fixed@.deliveries == self@.deliveries,
                fixed@.created == Some(stamp@),
                lines == calendar_lines(self@.deliveries, stamp@),
                lines.len() == line_count(self@.deliveries.len()),
                0 <= iterator.position() <= lines.len(),
                document@ == written(lines.take(iterator.position())),
            ensures
                iterator.position() == lines.len(),
                document@ == written(lines.take(iterator.position())),
            decreases lines.len() - iterator.position(),
        {
            let ghost position = iterator.position();
            match iterator.next() {
                Some(line) => {
                    let text = line.to_string();
                    document.append(text.as_str());
                    proof {
                        assert(lines.take(position + 1).drop_last() =~= lines.take(position));
                    }
                },
                None => {
                    break ;
                },
            }
        }
        proof {
            assert(lines.take(lines.len() as int) =~= lines);
        }
        document
    }

    /// The calendar document. Where the calendar has no fixed instant, the
    /// clock is read once and every event is stamped with what it says, so
    /// two documents of one calendar may differ in their stamps.
    pub fn to_string(&self) -> (document: String)
        ensures
            exists|stamp: Moment|
                stamped(self@.created, stamp) && document@ == written(
                    #[trigger] calendar_lines(self@.deliveries, stamp),
                ),
    {
        let now = match self.created {
            Some(created) => created,
            None => Timestamp::now(),
        };
        proof {
            use_type_invariant(now);
        }
        let document = self.render_at(&now);
        proof {
            assert(stamped(self@.created, now@));
            assert(document@ == written(calendar_lines(self@.deliveries, now@)));
        }
        document
    }
}

} // verus!
