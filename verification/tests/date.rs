use tailcall::date::Date;
use tailcall::value::Value;

#[test]
fn test_date() {
    let date = Date::default();
    let validate = date.validate(&Value::String("2020-01-01T12:00:00Z".to_string()));
    assert!(validate);
}

#[test]
fn test_invalid_date() {
    let date = Date::default();
    let validate = date.validate(&Value::String("2023-03-08T12:45:26".to_string()));
    assert!(!validate);
}

#[test]
fn test_invalid_value() {
    let date = Date::default();
    let validate = date.validate(&Value::Null);
    assert!(!validate);
}

#[test]
fn date_with_offset_and_fraction() {
    let date = Date::default();
    assert!(date.validate(&Value::String("1996-12-19T16:39:57.25-08:00".to_string())));
    assert!(!date.validate(&Value::Enum("2020-01-01T12:00:00Z".to_string())));
}

#[test]
fn full_date_is_a_date() {
    let date = Date::default();
    assert!(date.validate(&Value::String("2007-12-03".to_string())));
    assert!(date.validate(&Value::String("2024-02-29".to_string())));
    assert!(date.validate(&Value::String("2000-02-29".to_string())));
    assert!(date.validate(&Value::String("0001-01-31".to_string())));
}

#[test]
fn impossible_full_dates_are_refused() {
    let date = Date::default();
    for s in [
        "2023-02-29",
        "1900-02-29",
        "2007-13-01",
        "2007-00-10",
        "2007-12-32",
        "2007-04-31",
        "2007-12-00",
        "2007-1-03",
        "2007/12/03",
        "20071203",
        "2007-12-03 ",
        "+2007-12-03",
    ] {
        assert!(!date.validate(&Value::String(s.to_string())), "{s}");
    }
}
