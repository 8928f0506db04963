use postgang::bring_client::mailbox_delivery_dates::DeliveryDate;
use postgang::bring_client::NorwegianPostalCode;
use postgang::calendar::content_line::{
    CalendarIterator, DeliveryDateIterator, DeliveryDateIteratorState,
};
use postgang::calendar::Calendar;
use postgang::date::{Date, Timestamp};

const PREAMBLE: &str = "BEGIN:VCALENDAR\r\n\
     VERSION:2.0\r\n\
     PRODID:-//Aasan//Aasan Postgang//EN\r\n\
     CALSCALE:GREGORIAN\r\n\
     METHOD:PUBLISH\r\n";

fn epoch_day() -> Date {
    Date::from_ymd(1970, 8, 13).unwrap()
}

fn created() -> Option<Timestamp> {
    Timestamp::new(epoch_day(), 0, 0, 0)
}

#[test]
fn calendar_without_deliveries_is_preamble_and_end() {
    let calendar = Calendar::new(vec![], created());
    assert_eq!(calendar.to_string(), format!("{PREAMBLE}END:VCALENDAR\r\n"));
}

#[test]
fn calendar_with_one_delivery() {
    let postal_code = NorwegianPostalCode::try_from("7800").unwrap();
    let delivery_dates = vec![DeliveryDate::new(postal_code, epoch_day())];
    let calendar = Calendar::new(delivery_dates, created());
    assert_eq!(
        calendar.to_string(),
        format!(
            "{PREAMBLE}BEGIN:VEVENT\r\n\
             DTEND;VALUE=DATE:19700814\r\n\
             DTSTAMP:19700813T000000Z\r\n\
             DTSTART;VALUE=DATE:19700813\r\n\
             SUMMARY:7800: Posten kommer torsdag 13.\r\n\
             TRANSP:TRANSPARENT\r\n\
             UID:postgang-7800-1970-08-13\r\n\
             URL:https://www.posten.no/levering-av-post/\r\n\
             END:VEVENT\r\n\
             END:VCALENDAR\r\n"
        )
    );
}

fn drain(calendar: &Calendar) -> Vec<String> {
    let mut iterator = calendar.iter();
    let mut lines = Vec::new();
    while let Some(line) = iterator.next() {
        lines.push(line.0);
    }
    assert!(iterator.next().is_none());
    assert!(iterator.next().is_none());
    lines
}

fn delivery(code: &str, year: i32, month: u32, day: u32) -> DeliveryDate {
    DeliveryDate::new(
        NorwegianPostalCode::try_from(code).unwrap(),
        Date::from_ymd(year, month, day).unwrap(),
    )
}

#[test]
fn state_steps_through_the_fixed_order() {
    let mut state = DeliveryDateIteratorState::Begin;
    let mut names = vec![format!("{state:?}")];
    while let Some(next) = state.next() {
        state = next;
        names.push(format!("{state:?}"));
    }
    assert_eq!(
        names,
        vec![
            "Begin", "DtEnd", "DtStamp", "DtStart", "Summary", "Transp", "Uid", "Url", "End",
            "Done"
        ]
    );
    assert!(DeliveryDateIteratorState::Done.next().is_none());
}

#[test]
fn event_sequencer_hands_out_nine_lines_and_stops() {
    let mut iterator = DeliveryDateIterator::new(delivery("0150", 2024, 3, 9), created());
    let mut lines = Vec::new();
    while let Some(line) = iterator.next() {
        lines.push(line.0);
    }
    assert_eq!(
        lines,
        vec![
            "BEGIN:VEVENT",
            "DTEND;VALUE=DATE:20240310",
            "DTSTAMP:19700813T000000Z",
            "DTSTART;VALUE=DATE:20240309",
            "SUMMARY:0150: Posten kommer lørdag 9.",
            "TRANSP:TRANSPARENT",
            "UID:postgang-0150-2024-03-09",
            "URL:https://www.posten.no/levering-av-post/",
            "END:VEVENT",
        ]
    );
    assert!(matches!(iterator.current(), DeliveryDateIteratorState::Done));
    assert!(iterator.next().is_none());
    assert!(matches!(iterator.current(), DeliveryDateIteratorState::Done));
}

#[test]
fn event_sequencer_line_at_does_not_move() {
    let iterator = DeliveryDateIterator::new(delivery("0150", 2024, 3, 9), None);
    let stamp = created().unwrap();
    assert_eq!(iterator.line_at(&stamp).unwrap().0, "BEGIN:VEVENT");
    assert_eq!(iterator.line_at(&stamp).unwrap().0, "BEGIN:VEVENT");
    assert!(matches!(iterator.current(), DeliveryDateIteratorState::Begin));
}

#[test]
fn event_without_fixed_instant_is_stamped_with_the_clock() {
    let mut iterator = DeliveryDateIterator::new(delivery("0150", 2024, 3, 9), None);
    let mut lines = Vec::new();
    while let Some(line) = iterator.next() {
        lines.push(line.0);
    }
    assert_eq!(lines.len(), 9);
    let stamp = &lines[2];
    assert!(stamp.starts_with("DTSTAMP:2"));
    assert!(stamp.ends_with('Z'));
    assert_eq!(stamp.len(), "DTSTAMP:19700813T000000Z".len());
    assert_eq!(lines[1], "DTEND;VALUE=DATE:20240310");
    assert_eq!(lines[8], "END:VEVENT");
}

#[test]
fn event_ends_on_the_day_after_across_months_and_years() {
    let lines = drain(&Calendar::new(
        vec![delivery("7800", 2023, 12, 31), delivery("7800", 2024, 2, 28)],
        created(),
    ));
    assert_eq!(lines[5 + 1], "DTEND;VALUE=DATE:20240101");
    assert_eq!(lines[5 + 3], "DTSTART;VALUE=DATE:20231231");
    assert_eq!(lines[5 + 4], "SUMMARY:7800: Posten kommer søndag 31.");
    assert_eq!(lines[14 + 1], "DTEND;VALUE=DATE:20240229");
    assert_eq!(lines[14 + 4], "SUMMARY:7800: Posten kommer onsdag 28.");
}

#[test]
fn calendar_sequencer_hands_out_preamble_events_and_end() {
    let calendar = Calendar::new(
        vec![delivery("7800", 1970, 8, 13), delivery("0001", 2024, 1, 1)],
        created(),
    );
    let lines = drain(&calendar);
    assert_eq!(lines.len(), 5 + 9 * 2 + 1);
    assert_eq!(
        lines[..5],
        [
            "BEGIN:VCALENDAR",
            "VERSION:2.0",
            "PRODID:-//Aasan//Aasan Postgang//EN",
            "CALSCALE:GREGORIAN",
            "METHOD:PUBLISH"
        ]
    );
    assert_eq!(lines[5], "BEGIN:VEVENT");
    assert_eq!(lines[11], "UID:postgang-7800-1970-08-13");
    assert_eq!(lines[13], "END:VEVENT");
    assert_eq!(lines[14], "BEGIN:VEVENT");
    assert_eq!(lines[18], "SUMMARY:0001: Posten kommer mandag 1.");
    assert_eq!(lines[20], "UID:postgang-0001-2024-01-01");
    assert_eq!(lines[22], "END:VEVENT");
    assert_eq!(lines[23], "END:VCALENDAR");
    assert!(lines.iter().all(|line| !line.is_empty()));
}

#[test]
fn calendar_sequencer_of_no_deliveries() {
    let mut iterator = CalendarIterator::new(Calendar::new(vec![], None));
    let mut lines = Vec::new();
    while let Some(line) = iterator.next() {
        lines.push(line.0);
    }
    assert_eq!(
        lines,
        vec![
            "BEGIN:VCALENDAR",
            "VERSION:2.0",
            "PRODID:-//Aasan//Aasan Postgang//EN",
            "CALSCALE:GREGORIAN",
            "METHOD:PUBLISH",
            "END:VCALENDAR"
        ]
    );
    assert!(iterator.next().is_none());
}

#[test]
fn events_are_written_in_the_order_of_the_deliveries() {
    let calendar = Calendar::new(
        vec![
            delivery("7800", 2024, 5, 3),
            delivery("7800", 2024, 5, 1),
            delivery("7800", 2024, 5, 2),
        ],
        created(),
    );
    let document = calendar.to_string();
    let first = document.find("UID:postgang-7800-2024-05-03").unwrap();
    let second = document.find("UID:postgang-7800-2024-05-01").unwrap();
    let third = document.find("UID:postgang-7800-2024-05-02").unwrap();
    assert!(first < second && second < third);
    assert_eq!(document.matches("BEGIN:VEVENT\r\n").count(), 3);
    assert!(document.ends_with("END:VEVENT\r\nEND:VCALENDAR\r\n"));
}

#[test]
fn document_is_the_lines_written_one_after_the_other() {
    let calendar = Calendar::new(vec![delivery("7800", 2024, 5, 3)], created());
    let joined: String = drain(&calendar)
        .iter()
        .map(|line| format!("{line}\r\n"))
        .collect();
    assert_eq!(calendar.to_string(), joined);
}

#[test]
fn render_at_stamps_with_the_given_instant() {
    let now = Timestamp::new(Date::from_ymd(2024, 2, 29).unwrap(), 12, 30, 45).unwrap();
    let calendar = Calendar::new(vec![delivery("7800", 2024, 5, 3)], None);
    assert!(calendar.render_at(&now).contains("\r\nDTSTAMP:20240229T123045Z\r\n"));
    let fixed = Calendar::new(vec![delivery("7800", 2024, 5, 3)], created());
    assert!(fixed.render_at(&now).contains("\r\nDTSTAMP:19700813T000000Z\r\n"));
    assert_eq!(fixed.render_at(&now), fixed.to_string());
}

#[test]
fn calendar_without_fixed_instant_reads_the_clock() {
    let calendar = Calendar::from(vec![delivery("7800", 2024, 5, 3)]);
    assert!(calendar.created().is_none());
    assert_eq!(calendar.len(), 1);
    let document = calendar.to_string();
    let at = document.find("DTSTAMP:").unwrap();
    let stamp = &document[at..at + 24];
    assert!(stamp.starts_with("DTSTAMP:2") && stamp.ends_with('Z'));
    assert!(!document.contains("DTSTAMP:19700813T000000Z"));
}

#[test]
fn calendar_getters_and_clone() {
    let calendar = Calendar::new(
        vec![delivery("7800", 2024, 5, 3), delivery("7801", 2024, 5, 4)],
        created(),
    );
    assert_eq!(calendar.len(), 2);
    assert_eq!(calendar.get(1).unwrap().postal_code().number(), 7801);
    assert!(calendar.get(2).is_none());
    assert_eq!(calendar.created().unwrap().to_basic_string(), "19700813T000000Z");
    assert_eq!(calendar.clone().to_string(), calendar.to_string());
}

#[test]
fn many_deliveries_are_all_written() {
    let deliveries: Vec<DeliveryDate> = (0..300u32)
        .map(|i| delivery("7800", 2000 + (i / 28) as i32, 1 + i % 12, 1 + i % 28))
        .collect();
    let calendar = Calendar::new(deliveries, created());
    let document = calendar.to_string();
    assert_eq!(document.matches("BEGIN:VEVENT\r\n").count(), 300);
    assert_eq!(document.matches("\r\n").count(), 5 + 9 * 300 + 1);
}
