use tui_timer::duration::{format_duration, push_decimal};
use tui_timer::timer::{SubTimer, Timer};

fn sub(name: &str, total: u64, since: Option<u64>) -> SubTimer {
    SubTimer { name: name.to_string(), total_seconds: total, running_since: since }
}

fn timer(name: &str, total: u64, since: Option<u64>, children: Vec<SubTimer>) -> Timer {
    Timer { name: name.to_string(), total_seconds: total, running_since: since, children }
}

#[test]
fn duration_under_a_minute() {
    assert_eq!(format_duration(0), "0 seconds");
    assert_eq!(format_duration(42), "42 seconds");
    assert_eq!(format_duration(59), "59 seconds");
}

#[test]
fn duration_under_an_hour() {
    assert_eq!(format_duration(60), "1 minutes, 0 seconds");
    assert_eq!(format_duration(312), "5 minutes, 12 seconds");
    assert_eq!(format_duration(3599), "59 minutes, 59 seconds");
}

#[test]
fn duration_hours_drop_seconds() {
    assert_eq!(format_duration(3600), "1 hours, 0 minutes");
    assert_eq!(format_duration(9000), "2 hours, 30 minutes");
    assert_eq!(format_duration(9059), "2 hours, 30 minutes");
    assert_eq!(format_duration(5400 + 1800), "2 hours, 0 minutes");
}

#[test]
fn duration_largest_value() {
    assert_eq!(format_duration(u64::MAX), "5124095576030431 hours, 0 minutes");
}

#[test]
fn decimal_digits_are_appended() {
    let mut s = String::from("n=");
    push_decimal(&mut s, 0);
    push_decimal(&mut s, 1234567890);
    assert_eq!(s, "n=01234567890");
}

#[test]
fn sub_timer_starts_stopped() {
    let t = SubTimer::new("Deep focus".to_string());
    assert_eq!(t.name, "Deep focus");
    assert_eq!(t.total_seconds, 0);
    assert_eq!(t.running_since, None);
    assert!(!t.is_running());
    assert_eq!(t.elapsed(), 0);
}

#[test]
fn sub_timer_reading_while_running() {
    let t = sub("Meetings", 1800, Some(1_711_612_800));
    assert!(t.is_running());
    assert_eq!(t.elapsed_at(1_711_612_800 + 30), 1830);
    // a clock that reads earlier than the start adds nothing
    assert_eq!(t.elapsed_at(1_711_612_700), 1800);
    assert!(t.elapsed() >= 1800);
}

#[test]
fn sub_timer_start_then_stop_banks_the_run() {
    let mut t = sub("a", 10, None);
    t.toggle_at(100);
    assert_eq!(t.running_since, Some(100));
    assert_eq!(t.total_seconds, 10);
    assert_eq!(t.elapsed_at(100), 10);
    t.toggle_at(145);
    assert_eq!(t.running_since, None);
    assert_eq!(t.total_seconds, 55);
}

#[test]
fn sub_timer_toggle_keeps_the_reading() {
    let mut t = sub("a", 7, Some(1000));
    let before = t.elapsed_at(1234);
    t.toggle_at(1234);
    assert_eq!(t.elapsed_at(1234), before);
    assert_eq!(t.elapsed_at(9999), before);
}

#[test]
fn sub_timer_toggle_by_clock() {
    let mut t = sub("a", 5, None);
    t.toggle();
    assert!(t.is_running());
    assert_eq!(t.total_seconds, 5);
    t.toggle();
    assert!(!t.is_running());
    assert!(t.total_seconds >= 5);
}

#[test]
fn sub_timer_overflowing_run() {
    let mut t = sub("a", u64::MAX, Some(0));
    assert!(!t.fits_at(10));
    assert!(t.fits_at(0));
    assert_eq!(t.elapsed(), u64::MAX);
    // by the clock, a run that cannot be banked leaves the timer as it was
    t.toggle();
    assert_eq!(t.total_seconds, u64::MAX);
    assert_eq!(t.running_since, Some(0));
}

#[test]
fn timer_starts_stopped_and_empty() {
    let t = Timer::new("Work".to_string());
    assert_eq!(t.name, "Work");
    assert_eq!(t.total_seconds, 0);
    assert_eq!(t.running_since, None);
    assert!(t.children.is_empty());
    assert!(!t.any_running());
    assert_eq!(t.own_elapsed(), 0);
    assert_eq!(t.total_elapsed(), 0);
}

#[test]
fn timer_total_is_own_plus_children() {
    let t = timer("Work", 0, None, vec![sub("Deep focus", 5400, None), sub("Meetings", 1800, None)]);
    assert_eq!(t.total_elapsed_at(0), 7200);
    assert_eq!(t.total_elapsed(), 7200);
    let t = timer("Work", 100, Some(50), vec![sub("x", 5, Some(60)), sub("y", 1, None)]);
    assert_eq!(t.own_elapsed_at(70), 120);
    assert_eq!(t.total_elapsed_at(70), 120 + 15 + 1);
}

#[test]
fn running_child_counts_towards_parent() {
    let t = timer("Work", 0, None, vec![sub("Meetings", 1800, Some(1_711_612_800))]);
    assert!(t.any_running());
    assert_eq!(t.total_elapsed_at(1_711_612_800 + 60), 1860);
    assert_eq!(t.total_elapsed_at(1_711_612_800 + 120), 1920);
}

#[test]
fn stopped_timer_total_does_not_move() {
    let t = timer("Work", 3, None, vec![sub("a", 4, None)]);
    assert!(!t.any_running());
    assert_eq!(t.total_elapsed_at(0), t.total_elapsed_at(1_000_000));
}

#[test]
fn timer_own_toggle() {
    let mut t = timer("Work", 20, None, vec![sub("a", 4, Some(0))]);
    t.toggle_own_at(500);
    assert_eq!(t.running_since, Some(500));
    let total = t.total_elapsed_at(600);
    t.toggle_own_at(600);
    assert_eq!(t.running_since, None);
    assert_eq!(t.total_seconds, 120);
    assert_eq!(t.total_elapsed_at(600), total);
    assert_eq!(t.children[0].running_since, Some(0));
}

#[test]
fn timer_own_toggle_by_clock() {
    let mut t = timer("Work", 20, None, vec![]);
    t.toggle_own();
    assert!(t.running_since.is_some());
    assert_eq!(t.total_seconds, 20);
    t.toggle_own();
    assert!(t.running_since.is_none());
    assert!(t.total_seconds >= 20);
}

#[test]
fn timer_total_that_overflows() {
    let t = timer("Work", u64::MAX, None, vec![sub("a", 1, None)]);
    assert_eq!(t.total_elapsed(), u64::MAX);
    assert!(t.own_fits_at(5));
    let t = timer("Work", u64::MAX, Some(0), vec![]);
    assert!(!t.own_fits_at(5));
    assert_eq!(t.own_elapsed(), u64::MAX);
}
