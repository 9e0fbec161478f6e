use camera_controls::control::{
    ControlDescriptor, ControlKind, Direction, MenuItem, ReportedControl, ReportedKind,
    WriteOutcome,
};
use camera_controls::decimal::render_decimal;

fn report(
    kind: ReportedKind,
    minimum: i64,
    maximum: i64,
    step: u64,
    default: i64,
) -> ReportedControl {
    ReportedControl {
        id: 9963776,
        name: String::from("Brightness"),
        kind,
        minimum,
        maximum,
        step,
        default,
        items: Vec::new(),
    }
}

fn integer(minimum: i64, maximum: i64, step: u64, value: i64) -> ControlDescriptor {
    ControlDescriptor::normalize(&report(ReportedKind::Integer, minimum, maximum, step, value))
        .expect("an integer control is adjustable")
}

fn boolean(value: i64) -> ControlDescriptor {
    ControlDescriptor::normalize(&report(ReportedKind::Boolean, 0, 1, 1, value))
        .expect("a boolean control is adjustable")
}

fn item(key: i64, label: &str) -> MenuItem {
    MenuItem { key, label: String::from(label) }
}

fn menu(minimum: i64, maximum: i64, value: i64, items: Vec<MenuItem>) -> ControlDescriptor {
    let mut reported = report(ReportedKind::Menu, minimum, maximum, 1, value);
    reported.items = items;
    ControlDescriptor::normalize(&reported).expect("a menu control is adjustable")
}

#[test]
fn normalize_keeps_what_the_device_reported() {
    let control = integer(-10, 250, 5, 40);
    assert_eq!(control.id(), 9963776);
    assert_eq!(control.name().as_str(), "Brightness");
    assert_eq!(control.kind(), ControlKind::Integer);
    assert_eq!(control.minimum(), -10);
    assert_eq!(control.maximum(), 250);
    assert_eq!(control.step(), 5);
    assert_eq!(control.value(), 40);
}

#[test]
fn normalize_retains_only_adjustable_kinds() {
    let kinds = [
        (ReportedKind::Integer, Some(ControlKind::Integer)),
        (ReportedKind::Boolean, Some(ControlKind::Boolean)),
        (ReportedKind::Menu, Some(ControlKind::Menu)),
        (ReportedKind::Button, None),
        (ReportedKind::Integer64, None),
        (ReportedKind::ControlClass, None),
        (ReportedKind::Text, None),
        (ReportedKind::Bitmask, None),
        (ReportedKind::IntegerMenu, None),
        (ReportedKind::U8, None),
        (ReportedKind::U16, None),
        (ReportedKind::U32, None),
        (ReportedKind::Area, None),
    ];
    for (reported, expected) in kinds {
        let control = ControlDescriptor::normalize(&report(reported, 0, 10, 1, 3));
        assert_eq!(control.map(|c| c.kind()), expected);
    }
}

#[test]
fn normalize_puts_reversed_bounds_in_order() {
    let control = integer(100, 0, 10, 50);
    assert_eq!(control.minimum(), 0);
    assert_eq!(control.maximum(), 100);
    assert_eq!(control.value(), 50);
}

#[test]
fn normalize_turns_a_zero_step_into_one() {
    let control = integer(0, 100, 0, 50);
    assert_eq!(control.step(), 1);
    assert_eq!(control.plan_adjust(Direction::Increase), Some(51));
}

#[test]
fn normalize_brings_the_default_within_the_bounds() {
    assert_eq!(integer(0, 100, 1, 250).value(), 100);
    assert_eq!(integer(0, 100, 1, -3).value(), 0);
    assert_eq!(integer(0, 100, 1, 100).value(), 100);
    assert_eq!(integer(0, 100, 1, 0).value(), 0);
}

#[test]
fn normalize_keeps_menu_items_within_the_bounds() {
    let control = menu(
        0,
        2,
        0,
        vec![
            item(0, "Manual"),
            item(1, "Auto"),
            item(2, "Shutter"),
            item(3, "Aperture"),
            item(-1, "Off"),
        ],
    );
    assert_eq!(control.item_label(0).map(|l| l.as_str()), Some("Manual"));
    assert_eq!(control.item_label(1).map(|l| l.as_str()), Some("Auto"));
    assert_eq!(control.item_label(2).map(|l| l.as_str()), Some("Shutter"));
    assert_eq!(control.item_label(3), None);
    assert_eq!(control.item_label(-1), None);
}

#[test]
fn normalize_gives_items_to_menus_only() {
    let mut reported = report(ReportedKind::Integer, 0, 10, 1, 1);
    reported.items = vec![item(1, "One")];
    let control = ControlDescriptor::normalize(&reported).expect("adjustable");
    assert_eq!(control.item_label(1), None);
    assert_eq!(control.label(), "1");
}

#[test]
fn menu_with_a_repeated_key_shows_its_last_entry() {
    let control = menu(0, 3, 1, vec![item(1, "First"), item(2, "Other"), item(1, "Second")]);
    assert_eq!(control.item_label(1).map(|l| l.as_str()), Some("Second"));
    assert_eq!(control.label(), "Second");
}

#[test]
fn increase_stops_at_the_maximum() {
    let mut control = integer(0, 100, 10, 95);
    assert_eq!(control.candidate(Direction::Increase), 100);
    assert_eq!(control.plan_adjust(Direction::Increase), Some(100));
    control.complete_adjust(Direction::Increase, WriteOutcome::Written);
    assert_eq!(control.value(), 100);
}

#[test]
fn decrease_stops_at_the_minimum() {
    let mut control = integer(-5, 100, 10, 3);
    assert_eq!(control.plan_adjust(Direction::Decrease), Some(-5));
    control.complete_adjust(Direction::Decrease, WriteOutcome::Written);
    assert_eq!(control.value(), -5);
}

#[test]
fn adjustment_moves_by_one_step() {
    let mut control = integer(0, 100, 10, 40);
    assert_eq!(control.plan_adjust(Direction::Increase), Some(50));
    control.complete_adjust(Direction::Increase, WriteOutcome::Written);
    assert_eq!(control.value(), 50);
    assert_eq!(control.plan_adjust(Direction::Decrease), Some(40));
    control.complete_adjust(Direction::Decrease, WriteOutcome::Written);
    control.complete_adjust(Direction::Decrease, WriteOutcome::Written);
    assert_eq!(control.value(), 30);
}

#[test]
fn increase_lands_exactly_on_the_maximum() {
    let mut control = integer(0, 100, 10, 90);
    assert_eq!(control.plan_adjust(Direction::Increase), Some(100));
    control.complete_adjust(Direction::Increase, WriteOutcome::Written);
    assert_eq!(control.value(), 100);
    assert_eq!(control.plan_adjust(Direction::Increase), None);
}

#[test]
fn boolean_increase_turns_it_on() {
    let mut control = boolean(0);
    assert_eq!(control.label(), "False");
    assert_eq!(control.plan_adjust(Direction::Increase), Some(1));
    control.complete_adjust(Direction::Increase, WriteOutcome::Written);
    assert_eq!(control.value(), 1);
    assert_eq!(control.label(), "True");
}

#[test]
fn boolean_and_menu_move_by_one_whatever_their_step() {
    let control = ControlDescriptor::normalize(&report(ReportedKind::Boolean, 0, 1, 7, 0))
        .expect("adjustable");
    assert_eq!(control.candidate(Direction::Increase), 1);
    let mut reported = report(ReportedKind::Menu, 0, 9, 4, 5);
    reported.items = vec![item(5, "Five")];
    let control = ControlDescriptor::normalize(&reported).expect("adjustable");
    assert_eq!(control.candidate(Direction::Increase), 6);
    assert_eq!(control.candidate(Direction::Decrease), 4);
}

#[test]
fn increase_at_the_maximum_asks_for_no_write() {
    let mut control = integer(0, 100, 10, 100);
    assert_eq!(control.plan_adjust(Direction::Increase), None);
    control.complete_adjust(Direction::Increase, WriteOutcome::Written);
    assert_eq!(control.value(), 100);
}

#[test]
fn decrease_at_the_minimum_asks_for_no_write() {
    let mut control = integer(0, 100, 10, 0);
    assert_eq!(control.plan_adjust(Direction::Decrease), None);
    control.complete_adjust(Direction::Decrease, WriteOutcome::Written);
    assert_eq!(control.value(), 0);
}

#[test]
fn failed_write_leaves_the_value() {
    let mut control = integer(0, 100, 10, 40);
    assert_eq!(control.plan_adjust(Direction::Increase), Some(50));
    control.complete_adjust(Direction::Increase, WriteOutcome::Failed);
    assert_eq!(control.value(), 40);
    assert_eq!(control.plan_adjust(Direction::Decrease), Some(30));
    control.complete_adjust(Direction::Decrease, WriteOutcome::Failed);
    assert_eq!(control.value(), 40);
    assert_eq!(control.minimum(), 0);
    assert_eq!(control.maximum(), 100);
    assert_eq!(control.step(), 10);
}

#[test]
fn repeated_increase_never_passes_the_maximum() {
    let mut control = integer(-7, 20, 6, -7);
    let expected = [-1, 5, 11, 17, 20, 20, 20];
    for value in expected {
        control.complete_adjust(Direction::Increase, WriteOutcome::Written);
        assert_eq!(control.value(), value);
        assert!(control.value() <= control.maximum());
    }
}

#[test]
fn repeated_decrease_never_passes_the_minimum() {
    let mut control = integer(-7, 20, 6, 20);
    let expected = [14, 8, 2, -4, -7, -7, -7];
    for value in expected {
        control.complete_adjust(Direction::Decrease, WriteOutcome::Written);
        assert_eq!(control.value(), value);
        assert!(control.value() >= control.minimum());
    }
}

#[test]
fn adjustment_at_the_ends_of_the_integer_range() {
    let mut control = integer(i64::MIN, i64::MAX, u64::MAX, 0);
    assert_eq!(control.candidate(Direction::Increase), i64::MAX);
    assert_eq!(control.candidate(Direction::Decrease), i64::MIN);
    control.complete_adjust(Direction::Increase, WriteOutcome::Written);
    assert_eq!(control.value(), i64::MAX);
    assert_eq!(control.plan_adjust(Direction::Increase), None);
    let control = integer(i64::MIN, i64::MAX, 1, i64::MAX - 1);
    assert_eq!(control.candidate(Direction::Increase), i64::MAX);
    let control = integer(i64::MIN, i64::MAX, 3, i64::MIN + 1);
    assert_eq!(control.candidate(Direction::Decrease), i64::MIN);
}

#[test]
fn refresh_takes_the_live_value_over() {
    let mut control = integer(0, 100, 10, 40);
    control.refresh(Some(73));
    assert_eq!(control.value(), 73);
    control.refresh(Some(12));
    assert_eq!(control.value(), 12);
    control.refresh(Some(0));
    assert_eq!(control.value(), 0);
    control.refresh(Some(100));
    assert_eq!(control.value(), 100);
}

#[test]
fn refresh_after_a_failed_read_keeps_the_value() {
    let mut control = integer(0, 100, 10, 40);
    control.refresh(None);
    assert_eq!(control.value(), 40);
}

#[test]
fn refresh_brings_a_stray_value_within_the_bounds() {
    let mut control = integer(0, 100, 10, 40);
    control.refresh(Some(101));
    assert_eq!(control.value(), 100);
    control.refresh(Some(-1));
    assert_eq!(control.value(), 0);
    control.refresh(Some(i64::MAX));
    assert_eq!(control.value(), 100);
    control.refresh(Some(i64::MIN));
    assert_eq!(control.value(), 0);
}

#[test]
fn refresh_changes_nothing_but_the_value() {
    let mut control = menu(0, 3, 1, vec![item(0, "Off"), item(1, "On")]);
    control.refresh(Some(0));
    assert_eq!(control.kind(), ControlKind::Menu);
    assert_eq!(control.minimum(), 0);
    assert_eq!(control.maximum(), 3);
    assert_eq!(control.step(), 1);
    assert_eq!(control.name().as_str(), "Brightness");
    assert_eq!(control.item_label(1).map(|l| l.as_str()), Some("On"));
    assert_eq!(control.label(), "Off");
}

#[test]
fn menu_label_is_that_of_the_matching_item() {
    let control = menu(0, 5, 1, vec![item(0, "Off"), item(1, "On")]);
    assert_eq!(control.label(), "On");
}

#[test]
fn menu_label_falls_back_to_the_number() {
    let control = menu(0, 5, 5, vec![item(0, "Off"), item(1, "On")]);
    assert_eq!(control.value(), 5);
    assert_eq!(control.label(), "5");
}

#[test]
fn boolean_label_is_true_only_for_one() {
    assert_eq!(boolean(1).label(), "True");
    assert_eq!(boolean(0).label(), "False");
    let odd = ControlDescriptor::normalize(&report(ReportedKind::Boolean, 0, 2, 1, 2))
        .expect("adjustable");
    assert_eq!(odd.label(), "False");
}

#[test]
fn integer_label_is_the_number() {
    assert_eq!(integer(0, 100, 10, 95).label(), "95");
    assert_eq!(integer(-100, 100, 10, -42).label(), "-42");
    assert_eq!(integer(-100, 100, 10, 0).label(), "0");
}

#[test]
fn render_decimal_writes_what_the_formatter_writes() {
    let values = [
        0,
        1,
        9,
        10,
        11,
        99,
        100,
        101,
        12345,
        -1,
        -9,
        -10,
        -100,
        -9876543210,
        1000000000000000000,
        i64::MAX,
        i64::MIN,
        i64::MIN + 1,
    ];
    for value in values {
        assert_eq!(render_decimal(value), format!("{}", value));
    }
    assert_eq!(render_decimal(i64::MIN), "-9223372036854775808");
    assert_eq!(render_decimal(i64::MAX), "9223372036854775807");
    assert_eq!(render_decimal(-7), "-7");
    assert_eq!(render_decimal(1020), "1020");
}

#[test]
fn gauge_holds_the_terms_of_the_fraction() {
    let gauge = integer(-10, 30, 1, 0).gauge(true);
    assert_eq!(gauge.title, "Brightness");
    assert_eq!(gauge.label, "0");
    assert_eq!(gauge.filled, 10);
    assert_eq!(gauge.span, 40);
    assert!(gauge.focused);
    let gauge = integer(i64::MIN, i64::MAX, 1, i64::MAX).gauge(false);
    assert_eq!(gauge.filled, u64::MAX);
    assert_eq!(gauge.span, u64::MAX);
    assert!(!gauge.focused);
    let gauge = integer(5, 5, 1, 5).gauge(false);
    assert_eq!(gauge.filled, 0);
    assert_eq!(gauge.span, 0);
}
