//! Content lines: the logical lines of a calendar and the way each is written
//! out.
use vstd::prelude::*;
use vstd::std_specs::convert::FromSpecImpl;
use vstd::string::*;
use vstd::utf8::*;

use crate::bring_client::mailbox_delivery_dates::{Delivery, DeliveryDate};
use crate::calendar::folding::{
    boundary, crlf, crlf_space, folded, folded_rest, has_no_line_feed, lemma_boundary_range,
    lemma_boundary_splits_no_character, lemma_folded_valid, lemma_no_line_feed_no_mark,
    has_no_mark, lemma_short_line_stays_whole, lemma_unfolded_folded, segment_len, unfolded,
    MAX_LINE,
};
use crate::calendar::lines::{
    calendar_line, dtend_line, dtstamp_line, dtstart_line, event_lines, lemma_closing_position,
    lemma_event_position, lemma_preamble_position, line_count, preamble_lines, summary_line,
    uid_line, EVENT_LINES, PREAMBLE_LINES,
};
use crate::calendar::{format_naive_date, format_timestamp, weekday, Calendar, CalendarView};
use crate::date::{Moment, Timestamp, Ymd};
use crate::text::{
    escape, escaped, escaped_char, lemma_encode_ascii, lemma_encode_concat, push_decimal,
};

verus! {

/// One logical line of a calendar: plain text, not yet escaped or folded.
#[derive(Debug, Clone)]
pub struct ContentLine(pub String);

impl View for ContentLine {
    type V = Seq<char>;

    open spec fn view(&self) -> Seq<char> {
        self.0@
    }
}

impl From<&str> for ContentLine {
    fn from(x: &str) -> (line: Self)
        ensures
            line@ == x@,
    {
        ContentLine(x.to_owned())
    }
}

impl FromSpecImpl<&str> for ContentLine {
    /// Two strings with the same text need not be the same value, so the
    /// line is stated by its text, on `from` itself.
    open spec fn obeys_from_spec() -> bool {
        false
    }

    open spec fn from_spec(x: &str) -> Self {
        arbitrary()
    }
}

impl From<String> for ContentLine {
    fn from(x: String) -> (line: Self)
        ensures
            line@ == x@,
    {
        ContentLine(x)
    }
}

impl FromSpecImpl<String> for ContentLine {
    open spec fn obeys_from_spec() -> bool {
        true
    }

    open spec fn from_spec(x: String) -> Self {
        ContentLine(x)
    }
}

/// The text that a logical line is written out as: its line feeds escaped,
/// then folded into physical lines of at most 75 octets. The empty line is
/// written as nothing.
pub open spec fn rendered(text: Seq<char>) -> Seq<char> {
    folded_text(escaped(text))
}

/// The encoding of a character other than the line feed holds no line feed.
proof fn lemma_character_has_no_line_feed(c: char)
    requires
        c != '\n',
    ensures
        has_no_line_feed(encode_scalar(c as u32)),
{
    let s = c as u32;
    char_is_scalar(c);
    assert(s != 10);
    if s <= 0x7F {
        assert((s & 0x7F) as u8 != 10) by (bit_vector)
            requires
                s <= 0x7F,
                s != 10,
        ;
    }
    assert((0xC0 | ((s >> 6) & 0x1F) as u8) != 10 && (0xE0 | ((s >> 12) & 0x0F) as u8) != 10 && (
    0xF0 | ((s >> 18) & 0x7) as u8) != 10 && (0x80 | (s & 0x3F) as u8) != 10 && (0x80 | ((s >> 6)
        & 0x3F) as u8) != 10 && (0x80 | ((s >> 12) & 0x3F) as u8) != 10) by (bit_vector);
}

/// The encoding of an escaped line holds no line feed.
pub proof fn lemma_escaped_has_no_line_feed(text: Seq<char>)
    ensures
        has_no_line_feed(encode_utf8(escaped(text))),
    decreases text.len(),
{
    if text.len() > 0 {
        let front = escaped(text.drop_last());
        let last = escaped_char(text.last());
        lemma_escaped_has_no_line_feed(text.drop_last());
        lemma_encode_concat(front, last);
        if text.last() == '\n' {
            lemma_encode_ascii(last);
            assert(has_no_line_feed(encode_utf8(last)));
        } else {
            reveal_with_fuel(encode_utf8, 2);
            assert(last.drop_first() =~= Seq::<char>::empty());
            assert(encode_utf8(last) =~= encode_scalar(text.last() as u32));
            lemma_character_has_no_line_feed(text.last());
        }
        let whole = encode_utf8(escaped(text));
        assert forall|i: int| 0 <= i < whole.len() implies #[trigger] whole[i] != 10 by {
            if i < encode_utf8(front).len() {
                assert(whole[i] == encode_utf8(front)[i]);
            } else {
                assert(whole[i] == encode_utf8(last)[i - encode_utf8(front).len()]);
            }
        }
    }
}

/// The bytes of folded text are the folding of the bytes of the text, and
/// they are well-formed UTF-8: folding tears no character apart.
pub proof fn lemma_folded_text_bytes(content: Seq<char>)
    ensures
        encode_utf8(folded_text(content)) == folded(encode_utf8(content)),
        valid_utf8(folded(encode_utf8(content))),
{
    let bytes = encode_utf8(content);
    encode_utf8_valid_utf8(content);
    lemma_folded_valid(bytes);
    decode_utf8_encode_utf8(folded(bytes));
}

/// An empty line is written as nothing.
pub proof fn lemma_empty_line_not_written()
    ensures
        rendered(Seq::<char>::empty()) == Seq::<char>::empty(),
{
    let none = Seq::<char>::empty();
    assert(escaped(none) =~= none);
    assert(encode_utf8(none) =~= Seq::<u8>::empty());
    assert(rendered(none) =~= none);
}

/// A line whose escaped text takes at most 75 octets is written as that
/// text, unchanged, and a line break.
pub proof fn lemma_short_line_written_whole(text: Seq<char>)
    requires
        0 < encode_utf8(escaped(text)).len() <= MAX_LINE,
    ensures
        rendered(text) == escaped(text) + "\r\n"@,
{
    let bytes = encode_utf8(escaped(text));
    lemma_short_line_stays_whole(bytes);
    lemma_separators();
    lemma_encode_concat(escaped(text), "\r\n"@);
    encode_utf8_decode_utf8(escaped(text) + "\r\n"@);
}

/// Folding loses nothing: a reader who takes every line break with a space
/// behind it out of folded text has the text again, with the line break that
/// closes it. This holds of every text in which no line break with a space
/// behind it stands already.
pub proof fn lemma_folded_text_unfolds(content: Seq<char>)
    requires
        has_no_mark(encode_utf8(content)),
    ensures
        unfolded(encode_utf8(folded_text(content))) == if content.len() == 0 {
            Seq::<u8>::empty()
        } else {
            encode_utf8(content) + crlf()
        },
{
    let bytes = encode_utf8(content);
    lemma_folded_text_bytes(content);
    lemma_unfolded_folded(bytes);
    if content.len() > 0 {
        char_is_scalar(content[0]);
        assert(bytes.len() > 0);
    }
}

/// Writing a line out loses nothing: a reader who takes every line break
/// with a space behind it out of a written line has the escaped line again,
/// with the line break that closes it. This holds of every line.
pub proof fn lemma_written_line_unfolds(text: Seq<char>)
    ensures
        unfolded(encode_utf8(rendered(text))) == if text.len() == 0 {
            Seq::<u8>::empty()
        } else {
            encode_utf8(escaped(text)) + crlf()
        },
{
    let bytes = encode_utf8(escaped(text));
    lemma_folded_text_bytes(escaped(text));
    lemma_escaped_has_no_line_feed(text);
    lemma_no_line_feed_no_mark(bytes);
    lemma_unfolded_folded(bytes);
    if text.len() == 0 {
        assert(escaped(text) =~= Seq::<char>::empty());
        assert(bytes =~= Seq::<u8>::empty());
    } else {
        lemma_encode_concat(escaped(text.drop_last()), escaped_char(text.last()));
        let last = escaped_char(text.last());
        assert(last.len() > 0);
        assert(encode_utf8(last).len() > 0) by {
            char_is_scalar(last[0]);
        }
    }
}

/// The two separators of folded text are ASCII, so their encodings are the
/// bytes that the folding is stated over.
proof fn lemma_separators()
    ensures
        encode_utf8("\r\n"@) == crlf(),
        encode_utf8("\r\n "@) == crlf_space(),
{
    reveal_strlit("\r\n");
    reveal_strlit("\r\n ");
    lemma_encode_ascii("\r\n"@);
    lemma_encode_ascii("\r\n "@);
    assert(encode_utf8("\r\n"@) =~= crlf());
    assert(encode_utf8("\r\n "@) =~= crlf_space());
}

/// The text that an escaped line is folded into: physical lines of at most
/// 75 octets, each ended by a line break, each but the first started by a
/// space. The empty line is folded into nothing.
pub open spec fn folded_text(content: Seq<char>) -> Seq<char> {
    decode_utf8(folded(encode_utf8(content)))
}

/// Folds `content`, a logical line whose line feeds are escaped already, into
/// physical lines.
pub fn fold(content: &str) -> (out: String)
    ensures
        out@ == folded_text(content@),
{
    let ghost all = encode_utf8(content@);
    let mut out = String::new();
    if content.is_empty() {
        proof {
            assert(encode_utf8(content@) =~= Seq::<u8>::empty());
            encode_utf8_decode_utf8(out@);
        }
        return out;
    }
    let mut rest: &str = content;
    let cut = next_boundary(&ContentLineToPrint::First(rest));
    let (head, tail) = rest.split_at(cut);
    out.append(head);
    proof {
        assert(out@ =~= head@);
        assert(all.take(cut as int) =~= head.spec_bytes());
        assert(all.skip(cut as int) =~= tail.spec_bytes());
    }
    rest = tail;
    while rest.as_bytes().len() > 0
        invariant
            all == encode_utf8(content@),
            encode_utf8(out@) + folded_rest(rest.spec_bytes()) == folded(all),
        decreases rest.spec_bytes().len(),
    {
        let ghost before = out@;
        let ghost left = rest.spec_bytes();
        out.append("\r\n ");
        let cut = next_boundary(&ContentLineToPrint::Subsequent(rest));
        let (head, tail) = rest.split_at(cut);
        out.append(head);
        proof {
            lemma_separators();
            lemma_boundary_range(left, MAX_LINE - 1);
            lemma_encode_concat(before, "\r\n "@);
            lemma_encode_concat(before + "\r\n "@, head@);
            assert(left.take(cut as int) =~= head.spec_bytes());
            assert(left.skip(cut as int) =~= tail.spec_bytes());
            assert(encode_utf8(out@) + folded_rest(tail.spec_bytes()) =~= encode_utf8(before)
                + folded_rest(left));
        }
        rest = tail;
    }
    let ghost before = out@;
    out.append("\r\n");
    proof {
        lemma_separators();
        lemma_encode_concat(before, "\r\n"@);
        assert(rest.spec_bytes().len() == 0);
        assert(encode_utf8(out@) == folded(all));
        encode_utf8_decode_utf8(out@);
    }
    out
}

impl ContentLine {
    /// Writes the line out: escaped, folded, each physical line ended by a
    /// line break.
    pub fn to_string(&self) -> (out: String)
        ensures
            out@ == rendered(self@),
    {
        let content = escape(self.0.as_str());
        fold(content.as_str())
    }
}

/// What is left of a line that is being written out, and whether its first
/// physical line is still to come.
pub enum ContentLineToPrint<'a> {
    First(&'a str),
    Subsequent(&'a str),
}

impl<'a> ContentLineToPrint<'a> {
    /// The text that is left.
    pub open spec fn text(&self) -> &'a str {
        match self {
            ContentLineToPrint::First(x) => x,
            ContentLineToPrint::Subsequent(x) => x,
        }
    }

    /// The octets that the next physical line may take from the text: one
    /// less on a continuation line, which starts with a space.
    pub open spec fn limit(&self) -> int {
        match self {
            ContentLineToPrint::First(_) => MAX_LINE as int,
            ContentLineToPrint::Subsequent(_) => MAX_LINE - 1,
        }
    }
}

/// The byte index at which the next physical line of `content` ends.
pub fn next_boundary(content: &ContentLineToPrint) -> (cut: usize)
    ensures
        cut == boundary(content.text().spec_bytes(), content.limit()),
        is_char_boundary(content.text().spec_bytes(), cut as int),
{
    let (content, limit) = match content {
        ContentLineToPrint::First(x) => (x, MAX_LINE),
        ContentLineToPrint::Subsequent(x) => (x, MAX_LINE - 1),
    };
    proof {
        encode_utf8_valid_utf8(content@);
        lemma_boundary_splits_no_character(content.spec_bytes(), limit as int);
    }
    segment_len(content.as_bytes(), limit)
}

/// The text of a line that a sequencer hands out, if it hands one out.
pub open spec fn line_text(line: Option<ContentLine>) -> Option<Seq<char>> {
    match line {
        Some(line) => Some(line@),
        None => None,
    }
}

/// `stamp` can be the instant that an event is stamped with: the fixed one
/// where there is one, else any instant.
pub open spec fn stamped(created: Option<Moment>, stamp: Moment) -> bool {
    &&& stamp.valid()
    &&& created matches Some(fixed) ==> stamp == fixed
}

/// Where the sequencer of one event stands: at the line that it hands out
/// next, or at the end.
#[derive(Debug, Clone, Copy)]
pub enum DeliveryDateIteratorState {
    Begin,
    DtEnd,
    DtStamp,
    DtStart,
    Summary,
    Transp,
    Uid,
    Url,
    End,
    Done,
}

impl DeliveryDateIteratorState {
    /// The place of the state in the fixed order, from 0 for `Begin` to 9 for
    /// `Done`. For every state but `Done` it is the index of its line among
    /// the lines of the event.
    pub open spec fn ordinal(self) -> int {
        match self {
            DeliveryDateIteratorState::Begin => 0,
            DeliveryDateIteratorState::DtEnd => 1,
            DeliveryDateIteratorState::DtStamp => 2,
            DeliveryDateIteratorState::DtStart => 3,
            DeliveryDateIteratorState::Summary => 4,
            DeliveryDateIteratorState::Transp => 5,
            DeliveryDateIteratorState::Uid => 6,
            DeliveryDateIteratorState::Url => 7,
            DeliveryDateIteratorState::End => 8,
            DeliveryDateIteratorState::Done => 9,
        }
    }

    /// The state after one step: the next in the order, and `Done` after
    /// `Done`.
    pub open spec fn advanced(self) -> DeliveryDateIteratorState {
        match self {
            DeliveryDateIteratorState::Begin => DeliveryDateIteratorState::DtEnd,
            DeliveryDateIteratorState::DtEnd => DeliveryDateIteratorState::DtStamp,
            DeliveryDateIteratorState::DtStamp => DeliveryDateIteratorState::DtStart,
            DeliveryDateIteratorState::DtStart => DeliveryDateIteratorState::Summary,
            DeliveryDateIteratorState::Summary => DeliveryDateIteratorState::Transp,
            DeliveryDateIteratorState::Transp => DeliveryDateIteratorState::Uid,
            DeliveryDateIteratorState::Uid => DeliveryDateIteratorState::Url,
            DeliveryDateIteratorState::Url => DeliveryDateIteratorState::End,
            DeliveryDateIteratorState::End => DeliveryDateIteratorState::Done,
            DeliveryDateIteratorState::Done => DeliveryDateIteratorState::Done,
        }
    }

    /// The state that follows this one, or `None` at the end.
    pub fn next(self) -> (following: Option<Self>)
        ensures
            following is None <==> self is Done,
            following matches Some(state) ==> state == self.advanced() && state.ordinal()
                == self.ordinal() + 1,
    {
        match self {
            DeliveryDateIteratorState::Begin => Some(DeliveryDateIteratorState::DtEnd),
            DeliveryDateIteratorState::DtEnd => Some(DeliveryDateIteratorState::DtStamp),
            DeliveryDateIteratorState::DtStamp => Some(DeliveryDateIteratorState::DtStart),
            DeliveryDateIteratorState::DtStart => Some(DeliveryDateIteratorState::Summary),
            DeliveryDateIteratorState::Summary => Some(DeliveryDateIteratorState::Transp),
            DeliveryDateIteratorState::Transp => Some(DeliveryDateIteratorState::Uid),
            DeliveryDateIteratorState::Uid => Some(DeliveryDateIteratorState::Url),
            DeliveryDateIteratorState::Url => Some(DeliveryDateIteratorState::End),
            DeliveryDateIteratorState::End => Some(DeliveryDateIteratorState::Done),
            DeliveryDateIteratorState::Done => None,
        }
    }
}

/// The line that the sequencer of one event hands out in `state`, or `None`
/// at the end.
pub open spec fn event_line(
    state: DeliveryDateIteratorState,
    delivery: Delivery,
    stamp: Moment,
) -> Option<Seq<char>> {
    if state is Done {
        None
    } else {
        Some(event_lines(delivery, stamp)[state.ordinal()])
    }
}

/// The line that says when the event of `delivery` ends.
fn dtend(delivery: &DeliveryDate) -> (line: ContentLine)
    ensures
        line@ == dtend_line(delivery@),
{
    proof {
        use_type_invariant(delivery);
    }
    let mut text = String::new();
    text.append("DTEND;VALUE=DATE:");
    match delivery.date().successor() {
        Some(end) => {
            let end = format_naive_date(end);
            text.append(end.as_str());
        },
        None => {},
    }
    ContentLine(text)
}

/// The line that says that the event was written down at `stamp`.
fn dtstamp(stamp: &Timestamp) -> (line: ContentLine)
    ensures
        line@ == dtstamp_line(stamp@),
{
    let mut text = String::new();
    text.append("DTSTAMP:");
    let stamp = format_timestamp(stamp);
    text.append(stamp.as_str());
    ContentLine(text)
}

/// The line that says when the event of `delivery` starts.
fn dtstart(delivery: &DeliveryDate) -> (line: ContentLine)
    ensures
        line@ == dtstart_line(delivery@),
{
    let mut text = String::new();
    text.append("DTSTART;VALUE=DATE:");
    let start = format_naive_date(delivery.date());
    text.append(start.as_str());
    ContentLine(text)
}

/// The line that a reader of the calendar sees for `delivery`.
fn summary(delivery: &DeliveryDate) -> (line: ContentLine)
    ensures
        line@ == summary_line(delivery@),
{
    let postal_code = delivery.postal_code().to_string();
    let date = delivery.date();
    let mut text = String::new();
    text.append("SUMMARY:");
    text.append(postal_code.as_str());
    text.append(": Posten kommer ");
    text.append(weekday(date));
    text.append(" ");
    push_decimal(&mut text, date.day());
    text.append(".");
    proof {
        assert(text@ =~= summary_line(delivery@));
    }
    ContentLine(text)
}

/// The line that tells the event of `delivery` from every other.
fn uid(delivery: &DeliveryDate) -> (line: ContentLine)
    ensures
        line@ == uid_line(delivery@),
{
    let postal_code = delivery.postal_code().to_string();
    let date = delivery.date().to_string();
    let mut text = String::new();
    text.append("UID:postgang-");
    text.append(postal_code.as_str());
    text.append("-");
    text.append(date.as_str());
    proof {
        assert(text@ =~= uid_line(delivery@));
    }
    ContentLine(text)
}

/// The sequencer of the event of one delivery. It hands out the nine lines
/// of the event, one at each step, and nothing after them.
#[derive(Debug, Clone, Copy)]
pub struct DeliveryDateIterator {
    delivery_date: DeliveryDate,
    created: Option<Timestamp>,
    state: DeliveryDateIteratorState,
}

impl DeliveryDateIterator {
    /// The delivery whose event is handed out.
    pub closed spec fn delivery(&self) -> Delivery {
        self.delivery_date@
    }

    /// The instant that the event is stamped with, where that is fixed.
    pub closed spec fn created(&self) -> Option<Moment> {
        match self.created {
            Some(created) => Some(created@),
            None => None,
        }
    }

    /// The state that the sequencer is in.
    pub closed spec fn state(&self) -> DeliveryDateIteratorState {
        self.state
    }

    /// A sequencer at the first line of the event of `delivery_date`. Where
    /// `created` is `None`, the event is stamped with the instant at which
    /// its stamp is handed out.
    pub fn new(delivery_date: DeliveryDate, created: Option<Timestamp>) -> (iterator: Self)
        ensures
            iterator.delivery() == delivery_date@,
            iterator.created() == match created {
                Some(created) => Some(created@),
                None => None,
            },
            iterator.state() is Begin,
    {
        Self { delivery_date, created, state: DeliveryDateIteratorState::Begin }
    }

    /// The state that the sequencer is in.
    pub fn current(&self) -> (state: DeliveryDateIteratorState)
        ensures
            state == self.state(),
    {
        self.state
    }

    /// The line of the state that the sequencer is in, where that is not the
    /// stamp: such a line is the same whatever the event is stamped with.
    fn unstamped_line(&self) -> (line: Option<ContentLine>)
        requires
            !(self.state() is DtStamp),
        ensures
            forall|stamp: Moment|
                line_text(line) == #[trigger] event_line(self.state(), self.delivery(), stamp),
    {
        let value = &self.delivery_date;
        match self.state {
            DeliveryDateIteratorState::Begin => Some(ContentLine("BEGIN:VEVENT".to_owned())),
            DeliveryDateIteratorState::DtEnd => Some(dtend(value)),
            DeliveryDateIteratorState::DtStart => Some(dtstart(value)),
            DeliveryDateIteratorState::Summary => Some(summary(value)),
            DeliveryDateIteratorState::Transp => Some(
                ContentLine("TRANSP:TRANSPARENT".to_owned()),
            ),
            DeliveryDateIteratorState::Uid => Some(uid(value)),
            DeliveryDateIteratorState::Url => Some(
                ContentLine("URL:https://www.posten.no/levering-av-post/".to_owned()),
            ),
            DeliveryDateIteratorState::End => Some(ContentLine("END:VEVENT".to_owned())),
            _ => None,
        }
    }

    /// The line of the state that the sequencer is in, for an event that is
    /// stamped with `stamp`. The sequencer stays where it is.
    pub fn line_at(&self, stamp: &Timestamp) -> (line: Option<ContentLine>)
        ensures
            line_text(line) == event_line(self.state(), self.delivery(), stamp@),
    {
        match self.state {
            DeliveryDateIteratorState::DtStamp => Some(dtstamp(stamp)),
            _ => self.unstamped_line(),
        }
    }

    /// Hands out the line of the state that the sequencer is in and moves to
    /// the next state. The stamp of the event is the fixed instant where
    /// there is one; where there is none the clock is read when the stamp is
    /// handed out, so two sequencers of one delivery may hand out different
    /// stamps.
    pub fn next(&mut self) -> (line: Option<ContentLine>)
        ensures
            final(self).delivery() == old(self).delivery(),
            final(self).created() == old(self).created(),
            final(self).state() == old(self).state().advanced(),
            exists|stamp: Moment|
                stamped(old(self).created(), stamp) && line_text(line) == #[trigger] event_line(
                    old(self).state(),
                    old(self).delivery(),
                    stamp,
                ),
    {
        let line = match self.state {
            DeliveryDateIteratorState::DtStamp => {
                let stamp = match self.created {
                    Some(created) => created,
                    None => Timestamp::now(),
                };
                proof {
                    use_type_invariant(stamp);
                }
                self.line_at(&stamp)
            },
            _ => {
                let line = self.unstamped_line();
                proof {
                    if let Some(created) = &self.created {
                        use_type_invariant(created);
                    }
                    let stamp = match self.created {
                        Some(created) => created@,
                        None => Moment {
                            date: Ymd { year: 1970, month: 1, day: 1 },
                            hour: 0,
                            minute: 0,
                            second: 0,
                        },
                    };
                    assert(stamped(self.created(), stamp));
                    assert(line_text(line) == event_line(self.state(), self.delivery(), stamp));
                }
                line
            },
        };
        if let Some(state) = self.state.next() {
            self.state = state;
        }
        line
    }
}

/// Where the sequencer of a calendar stands among the opening lines.
#[derive(Debug, Clone, Copy)]
pub enum PreambleState {
    Begin,
    Version,
    ProdId,
    CalScale,
    Method,
}

impl PreambleState {
    /// The index of the state's line among the opening lines.
    pub open spec fn ordinal(self) -> int {
        match self {
            PreambleState::Begin => 0,
            PreambleState::Version => 1,
            PreambleState::ProdId => 2,
            PreambleState::CalScale => 3,
            PreambleState::Method => 4,
        }
    }
}

/// Where the sequencer of a calendar stands: in the opening lines, before
/// the event of the delivery at an index, inside that event, or at the end.
#[derive(Debug, Clone, Copy)]
pub enum CalendarIteratorState {
    Preamble(PreambleState),
    StartEvent(usize),
    Event(usize, DeliveryDateIterator),
    Done,
}

/// The sequencer of a whole calendar. It hands out the lines of the
/// calendar, one at each step, and nothing after them.
#[derive(Debug)]
pub struct CalendarIterator {
    calendar: Calendar,
    state: CalendarIteratorState,
}

impl CalendarIterator {
    /// The calendar whose lines are handed out.
    pub closed spec fn calendar(&self) -> CalendarView {
        self.calendar@
    }

    /// The index of the line that is handed out next; the number of lines,
    /// when all have been handed out.
    pub closed spec fn position(&self) -> int {
        match self.state {
            CalendarIteratorState::Preamble(at) => at.ordinal(),
            CalendarIteratorState::StartEvent(index) => PREAMBLE_LINES + EVENT_LINES * index,
            CalendarIteratorState::Event(index, iterator) => PREAMBLE_LINES + EVENT_LINES * index
                + iterator.state().ordinal(),
            CalendarIteratorState::Done => line_count(self.calendar@.deliveries.len()),
        }
    }

    /// An event is only started for a delivery that there is, and the
    /// sequencer of an event stands inside the event of that delivery.
    #[verifier::type_invariant]
    closed spec fn well_formed(self) -> bool {
        match self.state {
            CalendarIteratorState::Preamble(_) => true,
            CalendarIteratorState::StartEvent(index) => index <= self.calendar@.deliveries.len(),
            CalendarIteratorState::Event(index, iterator) => {
                &&& index < self.calendar@.deliveries.len()
                &&& iterator.delivery() == self.calendar@.deliveries[index as int]
                &&& iterator.created() == self.calendar@.created
                &&& 1 <= iterator.state().ordinal() < EVENT_LINES
            },
            CalendarIteratorState::Done => true,
        }
    }

    /// A sequencer at the first line of `calendar`.
    #[inline]
    pub fn new(calendar: Calendar) -> (iterator: Self)
        ensures
            iterator.calendar() == calendar@,
            iterator.position() == 0,
    {
        Self { calendar, state: CalendarIteratorState::Preamble(PreambleState::Begin) }
    }

    /// The opening line at `at`, and the state behind it.
    fn preamble_step(at: PreambleState) -> (step: (ContentLine, CalendarIteratorState))
        ensures
            step.0@ == preamble_lines()[at.ordinal()],
            step.1 == match at {
                PreambleState::Begin => CalendarIteratorState::Preamble(PreambleState::Version),
                PreambleState::Version => CalendarIteratorState::Preamble(PreambleState::ProdId),
                PreambleState::ProdId => CalendarIteratorState::Preamble(PreambleState::CalScale),
                PreambleState::CalScale => CalendarIteratorState::Preamble(PreambleState::Method),
                PreambleState::Method => CalendarIteratorState::StartEvent(0),
            },
    {
        match at {
            PreambleState::Begin => (
                ContentLine("BEGIN:VCALENDAR".to_owned()),
                CalendarIteratorState::Preamble(PreambleState::Version),
            ),
            PreambleState::Version => (
                ContentLine("VERSION:2.0".to_owned()),
                CalendarIteratorState::Preamble(PreambleState::ProdId),
            ),
            PreambleState::ProdId => (
                ContentLine("PRODID:-//Aasan//Aasan Postgang//EN".to_owned()),
                CalendarIteratorState::Preamble(PreambleState::CalScale),
            ),
            PreambleState::CalScale => (
                ContentLine("CALSCALE:GREGORIAN".to_owned()),
                CalendarIteratorState::Preamble(PreambleState::Method),
            ),
            PreambleState::Method => (
                ContentLine("METHOD:PUBLISH".to_owned()),
                CalendarIteratorState::StartEvent(0),
            ),
        }
    }

    /// One step of the sequencer of the event at `index`: its line, and the
    /// state of the calendar's sequencer behind it.
    fn event_step(index: usize, inner: DeliveryDateIterator) -> (step: (
        Option<ContentLine>,
        CalendarIteratorState,
    ))
        requires
            index < usize::MAX,
            !(inner.state() is Done),
        ensures
            exists|stamp: Moment|
                stamped(inner.created(), stamp) && line_text(step.0) == Some(
                    #[trigger] event_lines(inner.delivery(), stamp)[inner.state().ordinal()],
                ),
            inner.state() is End ==> step.1 == CalendarIteratorState::StartEvent(
                (index + 1) as usize,
            ),
            !(inner.state() is End) ==> (step.1 matches CalendarIteratorState::Event(i, iterator)
                && i == index && iterator.delivery() == inner.delivery() && iterator.created()
                == inner.created() && iterator.state() == inner.state().advanced()),
    {
        let mut iterator = inner;
        let line = iterator.next();
        proof {
            let stamp = choose|stamp: Moment|
                stamped(inner.created(), stamp) && line_text(line) == #[trigger] event_line(
                    inner.state(),
                    inner.delivery(),
                    stamp,
                );
            assert(line_text(line) == Some(
                event_lines(inner.delivery(), stamp)[inner.state().ordinal()],
            ));
        }
        match iterator.current() {
            DeliveryDateIteratorState::Done => (
                line,
                CalendarIteratorState::StartEvent(index + 1),
            ),
            _ => (line, CalendarIteratorState::Event(index, iterator)),
        }
    }

    /// Hands out the next line of the calendar and moves behind it. The
    /// events are stamped with the fixed instant of the calendar where it has
    /// one; where it has none the clock is read for each stamp.
    pub fn next(&mut self) -> (line: Option<ContentLine>)
        ensures
            final(self).calendar() == old(self).calendar(),
            final(self).position() == if old(self).position() < line_count(
                old(self).calendar().deliveries.len(),
            ) {
                old(self).position() + 1
            } else {
                old(self).position()
            },
            exists|stamp: Moment|
                stamped(old(self).calendar().created, stamp) && line_text(line)
                    == #[trigger] calendar_line(
                    old(self).calendar().deliveries,
                    stamp,
                    old(self).position(),
                ),
    {
        proof {
            use_type_invariant(&*self);
        }
        let ghost deliveries = self.calendar@.deliveries;
        let ghost position = self.position();
        let created = self.calendar.created();
        let _count = self.calendar.len();
        let ghost mut stamp = match created {
            Some(created) => created@,
            None => Moment {
                date: Ymd { year: 1970, month: 1, day: 1 },
                hour: 0,
                minute: 0,
                second: 0,
            },
        };
        proof {
            if let Some(created) = &created {
                use_type_invariant(created);
            }
        }
        let (line, state) = match self.state {
            CalendarIteratorState::Preamble(at) => {
                let (line, state) = Self::preamble_step(at);
                proof {
                    lemma_preamble_position(deliveries, stamp, at.ordinal());
                }
                (Some(line), state)
            },
            CalendarIteratorState::StartEvent(index) => match self.calendar.get(index) {
                Some(delivery) => {
                    let inner = DeliveryDateIterator::new(delivery, created);
                    let (line, state) = Self::event_step(index, inner);
                    proof {
                        stamp = choose|stamp: Moment|
                            stamped(inner.created(), stamp) && line_text(line) == Some(
                                #[trigger] event_lines(inner.delivery(), stamp)[0],
                            );
                        lemma_event_position(deliveries, stamp, index as int, 0);
                    }
                    (line, state)
                },
                None => {
                    proof {
                        lemma_closing_position(deliveries, stamp);
                    }
                    (Some(ContentLine("END:VCALENDAR".to_owned())), CalendarIteratorState::Done)
                },
            },
            CalendarIteratorState::Event(index, inner) => {
                let (line, state) = Self::event_step(index, inner);
                proof {
                    let k = inner.state().ordinal();
                    stamp = choose|stamp: Moment|
                        stamped(inner.created(), stamp) && line_text(line) == Some(
                            #[trigger] event_lines(inner.delivery(), stamp)[k],
                        );
                    lemma_event_position(deliveries, stamp, index as int, k);
                }
                (line, state)
            },
            CalendarIteratorState::Done => {
                proof {
                    lemma_closing_position(deliveries, stamp);
                }
                (None, CalendarIteratorState::Done)
            },
        };
        assert(stamped(self.calendar().created, stamp));
        assert(line_text(line) == calendar_line(deliveries, stamp, position));
        self.state = state;
        line
    }
}

} // verus!
