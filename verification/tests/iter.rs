use date::Date;

fn date(year: i16, month: u8, day: u8) -> Date {
    Date::try_new(year, month, day).expect("a day of the calendar")
}

#[test]
fn test_iter() {
    let start = date(2012, 4, 21);
    assert!(start.iter_through(date(2012, 4, 25)).collect().len() == 5);
    assert!(start.iter_through(date(2012, 4, 21)).collect().len() == 1);
    assert!(start.iter_through(date(2012, 4, 20)).collect().is_empty());
    assert!(start.iter_through(Date::max_value()).next().unwrap() == date(2012, 4, 21));
}

#[test]
fn test_iter_gives_each_day_in_order() {
    let start = date(2012, 2, 27);
    let dates = start.iter_through(date(2012, 3, 2)).collect();
    assert!(
        dates
            == vec![
                date(2012, 2, 27),
                date(2012, 2, 28),
                date(2012, 2, 29),
                date(2012, 3, 1),
                date(2012, 3, 2),
            ]
    );
    // The same ends give the same dates again, and are themselves unchanged.
    assert!(start.iter_through(date(2012, 3, 2)).collect() == dates);
    assert!(start == date(2012, 2, 27));
}

#[test]
fn test_iter_step_by_step() {
    let mut iter = date(2019, 12, 31).iter_through(date(2020, 1, 1));
    assert!(iter.next() == Some(date(2019, 12, 31)));
    assert!(iter.next() == Some(date(2020, 1, 1)));
    assert!(iter.next().is_none());
    assert!(iter.next().is_none());
}

#[test]
fn test_iter_to_the_last_date() {
    let mut iter = Date::max_value().iter_through(Date::max_value());
    assert!(iter.next() == Some(Date::max_value()));
    assert!(iter.next().is_none());
    assert!(iter.next().is_none());
    assert!(Date::max_value().iter_through(Date::min_value()).collect().is_empty());
}
