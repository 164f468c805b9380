use github_streak_stats_lib::calendar::{Date, Weekday, ZonedDate, MAX_DAY, MIN_DAY};

fn date(year: i16, month: i8, day: i8) -> Date {
    Date::new(year, month, day).unwrap()
}

fn weekday_of_jiff(day: jiff::civil::Weekday) -> Weekday {
    match day {
        jiff::civil::Weekday::Monday => Weekday::Monday,
        jiff::civil::Weekday::Tuesday => Weekday::Tuesday,
        jiff::civil::Weekday::Wednesday => Weekday::Wednesday,
        jiff::civil::Weekday::Thursday => Weekday::Thursday,
        jiff::civil::Weekday::Friday => Weekday::Friday,
        jiff::civil::Weekday::Saturday => Weekday::Saturday,
        jiff::civil::Weekday::Sunday => Weekday::Sunday,
    }
}

#[test]
fn new_keeps_the_fields() {
    let d = date(2024, 2, 29);
    assert_eq!(d.year(), 2024);
    assert_eq!(d.month(), 2);
    assert_eq!(d.day(), 29);
}

#[test]
fn new_refuses_what_is_no_date() {
    assert_eq!(Date::new(2023, 2, 29), None);
    assert_eq!(Date::new(2024, 2, 30), None);
    assert_eq!(Date::new(1900, 2, 29), None);
    assert_eq!(Date::new(2024, 4, 31), None);
    assert_eq!(Date::new(2024, 13, 1), None);
    assert_eq!(Date::new(2024, 0, 1), None);
    assert_eq!(Date::new(2024, 1, 0), None);
    assert_eq!(Date::new(2024, 1, 32), None);
    assert_eq!(Date::new(2024, -1, 1), None);
    assert_eq!(Date::new(10000, 1, 1), None);
    assert_eq!(Date::new(-10000, 12, 31), None);
}

#[test]
fn new_accepts_the_ends_of_months() {
    assert!(Date::new(2000, 2, 29).is_some());
    assert!(Date::new(2024, 1, 31).is_some());
    assert!(Date::new(2024, 4, 30).is_some());
    assert!(Date::new(2023, 2, 28).is_some());
    assert!(Date::new(9999, 12, 31).is_some());
    assert!(Date::new(-9999, 1, 1).is_some());
}

#[test]
fn new_agrees_with_jiff_on_every_triple_of_some_years() {
    for year in [-9999i16, -401, -400, -1, 0, 1, 1900, 1970, 2000, 2023, 2024, 9999] {
        for month in -1i8..=14 {
            for day in -1i8..=33 {
                let ours = Date::new(year, month, day);
                let theirs = jiff::civil::Date::new(year, month, day);
                assert_eq!(ours.is_some(), theirs.is_ok(), "{year}-{month}-{day}");
            }
        }
    }
}

#[test]
fn min_is_the_first_date_of_jiff() {
    let min = Date::min();
    assert_eq!((min.year(), min.month(), min.day()), (-9999, 1, 1));
    let theirs = jiff::civil::Date::MIN;
    assert_eq!((min.year(), min.month(), min.day()), (theirs.year(), theirs.month(), theirs.day()));
    assert_eq!(min.epoch_day(), MIN_DAY);
}

#[test]
fn epoch_day_of_known_dates() {
    assert_eq!(date(1970, 1, 1).epoch_day(), 0);
    assert_eq!(date(1970, 1, 2).epoch_day(), 1);
    assert_eq!(date(1969, 12, 31).epoch_day(), -1);
    assert_eq!(date(2000, 3, 1).epoch_day(), 11017);
    assert_eq!(date(2024, 6, 15).epoch_day(), 19889);
    assert_eq!(date(-9999, 1, 1).epoch_day(), -4371587);
    assert_eq!(date(9999, 12, 31).epoch_day(), 2932896);
    assert_eq!(date(9999, 12, 31).epoch_day(), MAX_DAY);
    assert_eq!(date(0, 1, 1).epoch_day(), -719528);
}

#[test]
fn epoch_day_agrees_with_jiff_day_by_day() {
    let epoch = jiff::civil::date(1970, 1, 1);
    let mut theirs = jiff::civil::date(1896, 1, 1);
    let last = jiff::civil::date(2105, 1, 1);
    while theirs < last {
        let ours = date(theirs.year(), theirs.month(), theirs.day());
        assert_eq!(ours.epoch_day(), (theirs - epoch).get_days(), "{theirs}");
        theirs = theirs.tomorrow().unwrap();
    }
}

#[test]
fn epoch_day_agrees_with_jiff_over_the_whole_range() {
    let epoch = jiff::civil::date(1970, 1, 1);
    let mut theirs = jiff::civil::Date::MIN;
    loop {
        let ours = date(theirs.year(), theirs.month(), theirs.day());
        assert_eq!(ours.epoch_day(), (theirs - epoch).get_days(), "{theirs}");
        match theirs.checked_add(jiff::Span::new().days(997)) {
            Ok(next) => theirs = next,
            Err(_) => break,
        }
    }
    let max = jiff::civil::Date::MAX;
    assert_eq!(date(max.year(), max.month(), max.day()).epoch_day(), (max - epoch).get_days());
}

#[test]
fn weekday_of_known_dates() {
    assert_eq!(date(1970, 1, 1).weekday(), Weekday::Thursday);
    assert_eq!(date(2024, 6, 15).weekday(), Weekday::Saturday);
    assert_eq!(date(2024, 6, 16).weekday(), Weekday::Sunday);
    assert_eq!(date(2024, 6, 17).weekday(), Weekday::Monday);
    assert_eq!(date(2024, 6, 18).weekday(), Weekday::Tuesday);
    assert_eq!(date(2024, 6, 19).weekday(), Weekday::Wednesday);
    assert_eq!(date(2024, 6, 21).weekday(), Weekday::Friday);
    assert_eq!(date(-9999, 1, 1).weekday(), Weekday::Monday);
    assert_eq!(date(9999, 12, 31).weekday(), Weekday::Friday);
}

#[test]
fn weekday_goes_by_the_day_number() {
    let names = [
        Weekday::Sunday,
        Weekday::Monday,
        Weekday::Tuesday,
        Weekday::Wednesday,
        Weekday::Thursday,
        Weekday::Friday,
        Weekday::Saturday,
    ];
    let mut theirs = jiff::civil::date(-3, 12, 20);
    for _ in 0..1500 {
        let ours = date(theirs.year(), theirs.month(), theirs.day());
        let since_sunday = (ours.epoch_day() as i64 + 4).rem_euclid(7) as usize;
        assert_eq!(ours.weekday(), names[since_sunday], "{theirs}");
        assert_eq!(ours.weekday(), weekday_of_jiff(theirs.weekday()));
        theirs = theirs.tomorrow().unwrap();
    }
}

#[test]
fn days_since_counts_days() {
    assert_eq!(date(2024, 1, 3).days_since(date(2024, 1, 2)), 1);
    assert_eq!(date(2024, 1, 2).days_since(date(2024, 1, 3)), -1);
    assert_eq!(date(2024, 3, 1).days_since(date(2024, 2, 1)), 29);
    assert_eq!(date(2023, 3, 1).days_since(date(2023, 2, 1)), 28);
    assert_eq!(date(2024, 7, 1).days_since(date(2023, 7, 1)), 366);
    assert_eq!(date(2024, 6, 15).days_since(date(2024, 6, 15)), 0);
    assert_eq!(date(9999, 12, 31).days_since(date(-9999, 1, 1)), 7_304_483);
    assert_eq!(date(-9999, 1, 1).days_since(date(9999, 12, 31)), -7_304_483);
}

#[test]
fn days_since_is_the_difference_of_day_numbers() {
    let dates = [
        date(-9999, 1, 1),
        date(-1, 12, 31),
        date(0, 1, 1),
        date(1600, 2, 29),
        date(1970, 1, 1),
        date(2024, 2, 29),
        date(9999, 12, 31),
    ];
    for a in dates {
        for b in dates {
            assert_eq!(a.days_since(b), a.epoch_day() - b.epoch_day());
        }
    }
}

#[test]
fn is_after_orders_dates() {
    assert!(date(2024, 1, 2).is_after(date(2024, 1, 1)));
    assert!(date(2024, 2, 1).is_after(date(2024, 1, 31)));
    assert!(date(2025, 1, 1).is_after(date(2024, 12, 31)));
    assert!(!date(2024, 1, 1).is_after(date(2024, 1, 1)));
    assert!(!date(2024, 1, 1).is_after(date(2024, 1, 2)));
    assert!(!date(2023, 12, 31).is_after(date(2024, 1, 1)));
    assert!(!date(2024, 1, 31).is_after(date(2024, 2, 1)));
}

#[test]
fn checked_add_moves_the_date_and_keeps_the_clock() {
    let z = ZonedDate { date: date(2024, 2, 28), hour: 13, minute: 5, second: 59, offset_seconds: -18000 };
    let later = z.checked_add(0, 2).unwrap();
    assert_eq!(later.date, date(2024, 3, 1));
    assert_eq!((later.hour, later.minute, later.second, later.offset_seconds), (13, 5, 59, -18000));
    assert_eq!(z.checked_add(52, 0).unwrap().date, date(2025, 2, 26));
    assert_eq!(z.checked_add(1, 1).unwrap().date, date(2024, 3, 7));
    assert_eq!(z.checked_add(0, 0).unwrap(), z);
}

#[test]
fn checked_sub_moves_the_date_and_keeps_the_clock() {
    let z = ZonedDate { date: date(2024, 3, 1), hour: 23, minute: 0, second: 1, offset_seconds: 32400 };
    let earlier = z.checked_sub(0, 1).unwrap();
    assert_eq!(earlier.date, date(2024, 2, 29));
    assert_eq!((earlier.hour, earlier.minute, earlier.second, earlier.offset_seconds), (23, 0, 1, 32400));
    assert_eq!(z.checked_sub(52, 0).unwrap().date, date(2023, 3, 3));
    assert_eq!(z.checked_sub(1, 1).unwrap().date, date(2024, 2, 22));
    assert_eq!(z.checked_sub(0, 0).unwrap(), z);
}
