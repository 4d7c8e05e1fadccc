use swash::date::{check_date, date_check_outcome};

#[test]
fn well_formed_date_is_accepted() {
    assert_eq!(check_date("2024-01-15"), Ok("2024-01-15".to_string()));
}

#[test]
fn malformed_dates_are_rejected() {
    for s in ["2024-1-15", "24-01-15", "2024/01/15", "x2024-01-15", "2024-01-15 ", "", "2024-01-155"] {
        assert_eq!(check_date(s), Err("Invalid date format".to_string()), "{:?}", s);
    }
}

#[test]
fn date_outcome_follows_the_match() {
    assert_eq!(date_check_outcome("abc", true), Ok("abc".to_string()));
    assert_eq!(date_check_outcome("abc", false), Err("Invalid date format".to_string()));
}

#[test]
fn non_ascii_digits_are_rejected() {
    for s in ["２０２４-01-15", "2024-０１-15", "2024-01-١٥"] {
        assert_eq!(check_date(s), Err("Invalid date format".to_string()), "{:?}", s);
    }
}
