use itemdb::calendar::CalendarDate;

fn day(y: i32, m: u32, d: u32) -> CalendarDate {
    CalendarDate::new(y, m, d).unwrap()
}

#[test]
fn new_accepts_exactly_the_days_of_the_calendar() {
    assert!(CalendarDate::new(2024, 2, 29).is_some());
    assert!(CalendarDate::new(2023, 2, 29).is_none());
    assert!(CalendarDate::new(1900, 2, 29).is_none());
    assert!(CalendarDate::new(2000, 2, 29).is_some());
    assert!(CalendarDate::new(2023, 4, 31).is_none());
    assert!(CalendarDate::new(2023, 13, 1).is_none());
    assert!(CalendarDate::new(2023, 0, 1).is_none());
    assert!(CalendarDate::new(2023, 1, 0).is_none());
    assert!(CalendarDate::new(262142, 12, 31).is_some());
    assert!(CalendarDate::new(262143, 1, 1).is_none());
    assert!(CalendarDate::new(-262143, 1, 1).is_some());
    assert!(CalendarDate::new(-262144, 1, 1).is_none());
}

#[test]
fn accessors_give_back_the_parts() {
    let d = day(2022, 12, 31);
    assert_eq!((d.year(), d.month(), d.day()), (2022, 12, 31));
}

#[test]
fn format_writes_year_month_day() {
    assert_eq!(day(2022, 12, 31).format("%Y-%m-%d"), "2022-12-31");
    assert_eq!(day(2023, 1, 5).format("%Y_%m_%d"), "2023_01_05");
    assert_eq!(day(987, 3, 4).format("%Y-%m-%d"), "0987-03-04");
    assert_eq!(day(-5, 3, 4).format("%Y-%m-%d"), "-0005-03-04");
    assert_eq!(day(12345, 3, 4).format("%Y-%m-%d"), "+12345-03-04");
}

#[test]
fn parse_reads_what_format_writes() {
    for d in [day(2022, 12, 31), day(987, 3, 4), day(-5, 3, 4), day(12345, 3, 4)] {
        for fmt in ["%Y-%m-%d", "%Y_%m_%d"] {
            assert_eq!(CalendarDate::parse(&d.format(fmt), fmt).unwrap(), d);
        }
    }
}

#[test]
fn parse_rejects_what_is_not_a_date() {
    assert!(CalendarDate::parse("2023-02-30", "%Y-%m-%d").is_err());
    assert!(CalendarDate::parse("yesterday", "%Y-%m-%d").is_err());
    assert!(CalendarDate::parse("2023_01_05", "%Y-%m-%d").is_err());
    assert!(CalendarDate::parse("2023-01-05 ", "%Y-%m-%d").is_err());
}

#[test]
fn default_is_the_epoch_day() {
    assert_eq!(CalendarDate::default(), day(1970, 1, 1));
}

#[test]
fn is_before_orders_days_in_time() {
    assert!(day(2022, 12, 31).is_before(&day(2023, 1, 1)));
    assert!(day(2023, 1, 1).is_before(&day(2023, 1, 2)));
    assert!(day(2023, 1, 30).is_before(&day(2023, 2, 1)));
    assert!(!day(2023, 1, 1).is_before(&day(2023, 1, 1)));
    assert!(!day(2024, 1, 1).is_before(&day(2023, 12, 31)));
}
