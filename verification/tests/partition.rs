use windowed_statements::date::{date_from_ymd, Date};
use windowed_statements::window::{
    partition_windows, validate_geometry, window_date_strings, DateWindow, WindowError,
};

fn day_of(year: i32, month: u32, day: u32) -> i64 {
    date_from_ymd(year, month, day).expect("valid date").day
}

#[test]
fn partition_even_horizon() {
    let now = Date { day: 800000 };
    let windows = partition_windows(now, 290, 29).expect("valid configuration");
    assert_eq!(windows.len(), 10);
    for (i, w) in windows.iter().enumerate() {
        assert_eq!(w.sequence_index, i);
        assert_eq!(w.to.day, 800000 - 29 * i as i64);
        assert_eq!(w.from.day, 800000 - 29 * (i as i64 + 1));
    }
    assert_eq!(windows[9].from.day, 800000 - 290);
}

#[test]
fn partition_uneven_horizon_shortens_last_window() {
    let now = Date { day: 1000 };
    let windows = partition_windows(now, 90, 29).expect("valid configuration");
    assert_eq!(windows.len(), 4);
    assert_eq!(windows[0].to.day, 1000);
    assert_eq!(windows[0].from.day, 971);
    assert_eq!(windows[3].to.day, 913);
    assert_eq!(windows[3].from.day, 910);
    for i in 0..3 {
        assert_eq!(windows[i].from, windows[i + 1].to);
    }
}

#[test]
fn partition_horizon_smaller_than_window() {
    let now = Date { day: 1000 };
    let windows = partition_windows(now, 5, 29).expect("valid configuration");
    assert_eq!(windows.len(), 1);
    assert_eq!(windows[0].from.day, 995);
    assert_eq!(windows[0].to.day, 1000);
}

#[test]
fn partition_rejects_zero_sizes() {
    let now = Date { day: 1000 };
    assert_eq!(
        partition_windows(now, 0, 29).unwrap_err(),
        WindowError::InvalidArgument
    );
    assert_eq!(
        partition_windows(now, 290, 0).unwrap_err(),
        WindowError::InvalidArgument
    );
}

#[test]
fn partition_calendar_dates() {
    let now = Date {
        day: day_of(2024, 3, 30),
    };
    let windows = partition_windows(now, 87, 29).expect("valid configuration");
    assert_eq!(windows.len(), 3);
    assert_eq!(windows[0].to.day, day_of(2024, 3, 30));
    assert_eq!(windows[0].from.day, day_of(2024, 3, 1));
    assert_eq!(windows[1].to.day, day_of(2024, 3, 1));
    assert_eq!(windows[1].from.day, day_of(2024, 2, 1));
    assert_eq!(windows[2].to.day, day_of(2024, 2, 1));
    assert_eq!(windows[2].from.day, day_of(2024, 1, 3));
    assert_eq!(windows[2].from.day, now.day - 87);
}

#[test]
fn window_date_strings_formats_both_bounds() {
    let w = DateWindow {
        from: Date {
            day: day_of(2024, 3, 1),
        },
        to: Date {
            day: day_of(2024, 3, 30),
        },
        sequence_index: 0,
    };
    let (from_s, to_s) = window_date_strings(&w).expect("in calendar range");
    assert_eq!(from_s, "2024-03-01");
    assert_eq!(to_s, "2024-03-30");
}

#[test]
fn day_numbers_follow_the_calendar() {
    assert_eq!(day_of(2024, 3, 30) - 29, day_of(2024, 3, 1));
    assert_eq!(day_of(2024, 3, 1) - 29, day_of(2024, 2, 1));
    assert_eq!(day_of(2024, 2, 1) - 29, day_of(2024, 1, 3));
    assert_eq!(day_of(1, 1, 1), 1);
    assert!(date_from_ymd(2023, 2, 29).is_none());
    assert!(date_from_ymd(2024, 13, 1).is_none());
}

#[test]
fn geometry_validation() {
    assert!(validate_geometry(290, 29, 3, 10));
    assert!(validate_geometry(87, 29, 3, 1));
    assert!(!validate_geometry(290, 29, 3, 1));
    assert!(!validate_geometry(0, 29, 3, 10));
    assert!(!validate_geometry(290, 0, 3, 10));
    assert!(!validate_geometry(290, 29, 0, 10));
    assert!(!validate_geometry(290, 29, 3, 0));
}
