use postgang::calendar::{format_naive_date, format_timestamp, norwegian, weekday};
use postgang::date::{Date, Timestamp, Weekday, MAX_YEAR, MIN_YEAR};

fn date(year: i32, month: u32, day: u32) -> Date {
    Date::from_ymd(year, month, day).unwrap()
}

fn ymd(date: &Date) -> (i32, u32, u32) {
    (date.year(), date.month(), date.day())
}

#[test]
fn from_ymd_keeps_year_month_and_day() {
    assert_eq!(ymd(&date(1970, 8, 13)), (1970, 8, 13));
    assert_eq!(ymd(&date(-4, 2, 29)), (-4, 2, 29));
}

#[test]
fn from_ymd_refuses_days_that_do_not_exist() {
    assert!(Date::from_ymd(2015, 0, 14).is_none());
    assert!(Date::from_ymd(2015, 13, 1).is_none());
    assert!(Date::from_ymd(2015, 1, 0).is_none());
    assert!(Date::from_ymd(2015, 1, 32).is_none());
    assert!(Date::from_ymd(2023, 4, 31).is_none());
    assert!(Date::from_ymd(2023, 4, 30).is_some());
    assert!(Date::from_ymd(2015, 2, 29).is_none());
    assert!(Date::from_ymd(2016, 2, 29).is_some());
    assert!(Date::from_ymd(2016, 2, 30).is_none());
}

#[test]
fn leap_years_follow_the_gregorian_rule() {
    assert!(Date::from_ymd(2000, 2, 29).is_some());
    assert!(Date::from_ymd(1900, 2, 29).is_none());
    assert!(Date::from_ymd(2100, 2, 29).is_none());
    assert!(Date::from_ymd(2024, 2, 29).is_some());
    assert!(Date::from_ymd(0, 2, 29).is_some());
    assert!(Date::from_ymd(-1, 2, 29).is_none());
    assert!(Date::from_ymd(-100, 2, 29).is_none());
    assert!(Date::from_ymd(-400, 2, 29).is_some());
}

#[test]
fn months_have_their_lengths() {
    let lengths = [31, 28, 31, 30, 31, 30, 31, 31, 30, 31, 30, 31];
    for (index, length) in lengths.iter().enumerate() {
        let month = index as u32 + 1;
        assert!(Date::from_ymd(2023, month, *length).is_some());
        assert!(Date::from_ymd(2023, month, *length + 1).is_none());
    }
}

#[test]
fn years_have_their_range() {
    assert_eq!(MIN_YEAR, -262143);
    assert_eq!(MAX_YEAR, 262142);
    assert!(Date::from_ymd(MAX_YEAR, 12, 31).is_some());
    assert!(Date::from_ymd(MAX_YEAR + 1, 1, 1).is_none());
    assert!(Date::from_ymd(MIN_YEAR, 1, 1).is_some());
    assert!(Date::from_ymd(MIN_YEAR - 1, 12, 31).is_none());
    assert!(Date::from_ymd(400000, 1, 1).is_none());
    assert!(Date::from_ymd(-400000, 1, 1).is_none());
    assert!(Date::from_ymd(i32::MAX, 1, 1).is_none());
    assert!(Date::from_ymd(i32::MIN, 1, 1).is_none());
}

#[test]
fn successor_is_the_next_day() {
    assert_eq!(ymd(&date(1970, 8, 13).successor().unwrap()), (1970, 8, 14));
    assert_eq!(ymd(&date(2023, 1, 31).successor().unwrap()), (2023, 2, 1));
    assert_eq!(ymd(&date(2023, 4, 30).successor().unwrap()), (2023, 5, 1));
    assert_eq!(ymd(&date(2023, 12, 31).successor().unwrap()), (2024, 1, 1));
    assert_eq!(ymd(&date(2023, 2, 28).successor().unwrap()), (2023, 3, 1));
    assert_eq!(ymd(&date(2024, 2, 28).successor().unwrap()), (2024, 2, 29));
    assert_eq!(ymd(&date(2024, 2, 29).successor().unwrap()), (2024, 3, 1));
    assert_eq!(ymd(&date(1900, 2, 28).successor().unwrap()), (1900, 3, 1));
    assert_eq!(ymd(&date(2000, 2, 28).successor().unwrap()), (2000, 2, 29));
    assert_eq!(ymd(&date(-1, 12, 31).successor().unwrap()), (0, 1, 1));
    assert_eq!(ymd(&date(9999, 12, 31).successor().unwrap()), (10000, 1, 1));
}

#[test]
fn last_date_has_no_successor() {
    let last = date(MAX_YEAR, 12, 31);
    assert!(!last.has_successor());
    assert!(last.successor().is_none());
    let before = date(MAX_YEAR, 12, 30);
    assert!(before.has_successor());
    assert_eq!(ymd(&before.successor().unwrap()), (MAX_YEAR, 12, 31));
    assert!(date(MAX_YEAR, 11, 30).has_successor());
    assert!(date(MAX_YEAR - 1, 12, 31).has_successor());
}

#[test]
fn weekday_of_known_dates() {
    assert_eq!(date(1970, 8, 13).weekday(), Weekday::Thu);
    assert_eq!(date(2024, 1, 1).weekday(), Weekday::Mon);
    assert_eq!(date(2024, 1, 6).weekday(), Weekday::Sat);
    assert_eq!(date(2024, 1, 7).weekday(), Weekday::Sun);
    assert_eq!(date(2000, 2, 29).weekday(), Weekday::Tue);
    assert_eq!(date(1970, 1, 1).weekday(), Weekday::Thu);
    assert_eq!(date(2023, 12, 29).weekday(), Weekday::Fri);
    assert_eq!(date(2023, 12, 27).weekday(), Weekday::Wed);
}

#[test]
fn weekday_from_its_index() {
    let days = [
        Weekday::Mon,
        Weekday::Tue,
        Weekday::Wed,
        Weekday::Thu,
        Weekday::Fri,
        Weekday::Sat,
        Weekday::Sun,
    ];
    for (index, day) in days.iter().enumerate() {
        assert_eq!(Weekday::from_monday_index(index as u32), Some(*day));
    }
    assert_eq!(Weekday::from_monday_index(7), None);
    assert_eq!(Weekday::from_monday_index(u32::MAX), None);
}

#[test]
fn norwegian_names_of_the_days() {
    assert_eq!(norwegian(Weekday::Mon), "mandag");
    assert_eq!(norwegian(Weekday::Tue), "tirsdag");
    assert_eq!(norwegian(Weekday::Wed), "onsdag");
    assert_eq!(norwegian(Weekday::Thu), "torsdag");
    assert_eq!(norwegian(Weekday::Fri), "fredag");
    assert_eq!(norwegian(Weekday::Sat), "lørdag");
    assert_eq!(norwegian(Weekday::Sun), "søndag");
}

#[test]
fn weekday_names_are_norwegian() {
    let names = [
        "mandag", "tirsdag", "onsdag", "torsdag", "fredag", "lørdag", "søndag",
    ];
    // 2024-01-01 was a Monday.
    for (index, name) in names.iter().enumerate() {
        assert_eq!(weekday(date(2024, 1, 1 + index as u32)), *name);
    }
    assert_eq!(weekday(date(1970, 8, 13)), "torsdag");
}

#[test]
fn basic_format_of_a_date() {
    assert_eq!(date(1970, 8, 13).to_basic_string(), "19700813");
    assert_eq!(format_naive_date(date(1970, 8, 14)), "19700814");
    assert_eq!(format_naive_date(date(2023, 12, 1)), "20231201");
    assert_eq!(format_naive_date(date(999, 1, 1)), "09990101");
    assert_eq!(format_naive_date(date(5, 10, 31)), "00051031");
    assert_eq!(format_naive_date(date(0, 1, 1)), "00000101");
    assert_eq!(format_naive_date(date(9999, 12, 31)), "99991231");
}

#[test]
fn basic_format_of_a_year_that_four_digits_cannot_hold() {
    assert_eq!(format_naive_date(date(10000, 1, 1)), "+100000101");
    assert_eq!(format_naive_date(date(MAX_YEAR, 12, 31)), "+2621421231");
    assert_eq!(format_naive_date(date(-1, 1, 1)), "-00010101");
    assert_eq!(format_naive_date(date(-999, 6, 15)), "-09990615");
    assert_eq!(format_naive_date(date(-9999, 6, 15)), "-99990615");
    assert_eq!(format_naive_date(date(-10000, 6, 15)), "-100000615");
    assert_eq!(format_naive_date(date(MIN_YEAR, 1, 1)), "-2621430101");
}

#[test]
fn extended_format_of_a_date() {
    assert_eq!(date(1970, 8, 13).to_string(), "1970-08-13");
    assert_eq!(date(2015, 9, 5).to_string(), "2015-09-05");
    assert_eq!(date(0, 1, 1).to_string(), "0000-01-01");
    assert_eq!(date(9999, 12, 31).to_string(), "9999-12-31");
    assert_eq!(date(-1, 1, 1).to_string(), "-0001-01-01");
    assert_eq!(date(10000, 12, 31).to_string(), "+10000-12-31");
    assert_eq!(date(-12345, 2, 3).to_string(), "-12345-02-03");
}

#[test]
fn timestamp_is_a_second_of_a_day() {
    let day = date(1970, 8, 13);
    assert!(Timestamp::new(day, 0, 0, 0).is_some());
    assert!(Timestamp::new(day, 23, 59, 59).is_some());
    assert!(Timestamp::new(day, 24, 0, 0).is_none());
    assert!(Timestamp::new(day, 0, 60, 0).is_none());
    assert!(Timestamp::new(day, 0, 0, 60).is_none());
    let at = Timestamp::new(day, 7, 8, 9).unwrap();
    assert_eq!(ymd(&at.date()), (1970, 8, 13));
    assert_eq!((at.hour(), at.minute(), at.second()), (7, 8, 9));
}

#[test]
fn basic_format_of_a_timestamp() {
    let at = Timestamp::new(date(1970, 8, 13), 0, 0, 0).unwrap();
    assert_eq!(format_timestamp(&at), "19700813T000000Z");
    let at = Timestamp::new(date(2023, 12, 31), 23, 59, 59).unwrap();
    assert_eq!(at.to_basic_string(), "20231231T235959Z");
    let at = Timestamp::new(date(5, 1, 2), 3, 4, 5).unwrap();
    assert_eq!(format_timestamp(&at), "00050102T030405Z");
    let at = Timestamp::new(date(10000, 1, 2), 13, 40, 5).unwrap();
    assert_eq!(format_timestamp(&at), "+100000102T134005Z");
}

#[test]
fn now_is_an_instant_of_this_age() {
    let now = Timestamp::now();
    assert!(now.date().year() >= 2024);
    assert!(Date::from_ymd(now.date().year(), now.date().month(), now.date().day()).is_some());
    assert!(now.hour() < 24 && now.minute() < 60 && now.second() < 60);
    assert_eq!(now.to_basic_string().len(), 16);
}
