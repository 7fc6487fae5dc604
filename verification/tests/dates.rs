use logria::aggregators::AggregationMethod;
use logria::tally::Tally;
use logria::date::{Date, DateParserType, Stamp, MAX_JULIAN_DAY, MIN_JULIAN_DAY};

fn day_of_2021(ordinal: u16) -> i32 {
    time::Date::from_ordinal_date(2021, ordinal).unwrap().to_julian_day()
}

fn stamp(julian_day: i32, hour: u8, minute: u8, second: u8) -> Stamp {
    Stamp { julian_day, hour, minute, second, nanosecond: 0 }
}

fn span(first: u16, last: u16, count: i64) -> Date {
    Date {
        format: None,
        earliest: stamp(day_of_2021(first), 0, 0, 0),
        latest: stamp(day_of_2021(last), 0, 0, 0),
        count,
        parser_type: DateParserType::Date,
    }
}

#[test]
fn julian_day_bounds_are_those_of_the_time_crate() {
    assert_eq!(time::Date::MIN.to_julian_day(), MIN_JULIAN_DAY);
    assert_eq!(time::Date::MAX.to_julian_day(), MAX_JULIAN_DAY);
}

#[test]
fn date_can_construct() {
    assert!(Date::new("[month]/[day]/[year]", DateParserType::Date).format.is_some());
    assert!(Date::new("[hour]:[minute]:[second]", DateParserType::Time).format.is_some());
    assert!(Date::new("[month]/[day]/[year] [hour]:[minute]:[second]", DateParserType::DateTime).format.is_some());
}

#[test]
fn bad_format_is_kept_out() {
    let mut d = Date::new("[nonsense", DateParserType::Date);
    assert!(d.format.is_none());
    assert!(d.update("01/01/2021").is_err());
    assert_eq!(d.count, 0);
}

#[test]
fn unreadable_date_is_an_error_and_not_counted() {
    let mut d = Date::new("[month]/[day]/[year]", DateParserType::Date);
    assert!(d.update("not a date").is_err());
    assert_eq!(d.count, 0);
}

#[test]
fn date_can_update_date() {
    let mut d = Date::new("[month]/[day]/[year]", DateParserType::Date);
    for m in ["01/01/2021", "01/02/2021", "01/03/2021", "01/04/2021"] {
        d.update(m).unwrap();
    }
    assert!(d.format.is_some());
    assert_eq!(d.earliest, stamp(day_of_2021(1), 0, 0, 0));
    assert_eq!(d.latest, stamp(day_of_2021(4), 0, 0, 0));
    assert_eq!(d.count, 4);
    let (rate, unit) = d.determine_rate();
    assert_eq!(unit, "per day");
    assert_eq!(rate, 1);
    let expected = vec![
        "    Rate: 1 per day".to_string(),
        "    Count: 4".to_string(),
        "    Earliest: 2021-01-01".to_string(),
        "    Latest: 2021-01-04".to_string(),
    ];
    assert_eq!(d.messages(1), expected);
}

#[test]
fn date_can_update_time() {
    let mut d = Date::new("[hour]:[minute]:[second]", DateParserType::Time);
    for m in ["01:01:00", "02:01:00", "03:01:00", "04:01:00"] {
        d.update(m).unwrap();
    }
    assert_eq!(d.earliest, stamp(MIN_JULIAN_DAY, 1, 1, 0));
    assert_eq!(d.latest, stamp(MIN_JULIAN_DAY, 4, 1, 0));
    assert_eq!(d.count, 4);
    let (rate, unit) = d.determine_rate();
    assert_eq!(unit, "per hour");
    assert_eq!(rate, 1);
    let expected = vec![
        "    Rate: 1 per hour".to_string(),
        "    Count: 4".to_string(),
        "    Earliest: 1:01:00.0".to_string(),
        "    Latest: 4:01:00.0".to_string(),
    ];
    assert_eq!(d.messages(1), expected);
}

#[test]
fn date_can_update_date_time() {
    let mut d = Date::new("[month]/[day]/[year] [hour]:[minute]:[second]", DateParserType::DateTime);
    for m in ["01/01/2021 01:01:00", "01/02/2021 02:01:00", "01/03/2021 03:01:00", "01/04/2021 04:01:00"] {
        d.update(m).unwrap();
    }
    assert_eq!(d.earliest, stamp(day_of_2021(1), 1, 1, 0));
    assert_eq!(d.latest, stamp(day_of_2021(4), 4, 1, 0));
    assert_eq!(d.count, 4);
    let (rate, unit) = d.determine_rate();
    assert_eq!(unit, "per day");
    assert_eq!(rate, 1);
    let expected = vec![
        "    Rate: 1 per day".to_string(),
        "    Count: 4".to_string(),
        "    Earliest: 2021-01-01 1:01:00.0".to_string(),
        "    Latest: 2021-01-04 4:01:00.0".to_string(),
    ];
    assert_eq!(d.messages(1), expected);
}

#[test]
fn out_of_order_dates_keep_the_ends() {
    let mut d = Date::new("[month]/[day]/[year]", DateParserType::Date);
    for m in ["01/03/2021", "01/01/2021", "01/04/2021", "01/02/2021"] {
        d.update(m).unwrap();
    }
    assert_eq!(d.earliest, stamp(day_of_2021(1), 0, 0, 0));
    assert_eq!(d.latest, stamp(day_of_2021(4), 0, 0, 0));
}

#[test]
fn reset_starts_over() {
    let mut d = Date::new("[month]/[day]/[year]", DateParserType::Date);
    d.update("01/03/2021").unwrap();
    d.reset();
    assert_eq!(d.count, 0);
    assert_eq!(d.earliest, stamp(MAX_JULIAN_DAY, 0, 0, 0));
    assert_eq!(d.latest, stamp(MIN_JULIAN_DAY, 0, 0, 0));
    assert!(d.format.is_some());
}

#[test]
fn weekly() {
    assert_eq!(span(1, 15, 10).determine_rate(), (5, "per week".to_string()));
}

#[test]
fn daily() {
    assert_eq!(span(1, 15, 15).determine_rate(), (1, "per day".to_string()));
}

#[test]
fn hourly() {
    assert_eq!(span(1, 3, 150).determine_rate(), (3, "per hour".to_string()));
}

#[test]
fn minutely() {
    assert_eq!(span(1, 2, 1500).determine_rate(), (1, "per minute".to_string()));
}

#[test]
fn secondly() {
    assert_eq!(span(1, 2, 100000).determine_rate(), (1, "per second".to_string()));
}

#[test]
fn nothing_seen_has_rate_one() {
    assert_eq!(Date::new("[year]", DateParserType::Date).determine_rate().0, 1);
}

#[test]
fn tallies_follow_their_method() {
    assert!(Tally::of(&AggregationMethod::Mean).is_none());
    assert!(Tally::of(&AggregationMethod::Sum).is_none());
    let mut count = Tally::of(&AggregationMethod::Count).unwrap();
    count.update("a").unwrap();
    count.update("a").unwrap();
    match &count {
        Tally::Count(c) => {
            assert_eq!(c.count_of("a"), Some(2));
            assert_eq!(c.total_count(), 2);
        }
        _ => panic!("expected a counter"),
    }
    let mut dates = Tally::of(&AggregationMethod::Date("[year]-[month]-[day]".to_string())).unwrap();
    dates.update("2021-03-10").unwrap();
    assert!(dates.update("nonsense").is_err());
    match &dates {
        Tally::Dates(d) => {
            assert_eq!(d.count, 1);
            assert_eq!(d.messages(1)[2], "    Earliest: 2021-03-10");
        }
        _ => panic!("expected a date aggregator"),
    }
    let mut off = Tally::of(&AggregationMethod::Disabled).unwrap();
    assert!(off.update("x").is_ok());
    assert!(off.room());
}
