use taskcrab::decimal::{decimal_string, push_decimal, read_u16, read_u8};
use taskcrab::task::{Task, Urgency, DEFAULT_PRIORITY, GREATEST_PRIORITY, LEAST_PRIORITY};

fn shown(month: u8, day: u8, year: u16) -> String {
    Task::new(0, "task".to_string(), 3, (month, day, year)).due_date_display()
}

#[test]
fn due_date_with_nothing_set_is_empty() {
    assert_eq!(shown(0, 0, 0), "");
}

#[test]
fn due_date_month_only() {
    assert_eq!(shown(3, 0, 0), "3");
}

#[test]
fn due_date_day_only() {
    assert_eq!(shown(0, 15, 0), "15");
}

#[test]
fn due_date_month_and_day() {
    assert_eq!(shown(3, 15, 0), "3/15");
}

#[test]
fn due_date_month_and_year() {
    assert_eq!(shown(3, 0, 2025), "3/2025");
}

#[test]
fn due_date_month_day_and_year() {
    assert_eq!(shown(3, 15, 2025), "3/15/2025");
}

#[test]
fn due_date_year_only() {
    assert_eq!(shown(0, 0, 2025), "2025");
}

#[test]
fn due_date_day_and_year() {
    assert_eq!(shown(0, 15, 2025), "15/2025");
}

#[test]
fn due_date_greatest_components() {
    assert_eq!(shown(255, 255, 65535), "255/255/65535");
    assert_eq!(shown(12, 31, 10), "12/31/10");
    assert_eq!(shown(100, 200, 1000), "100/200/1000");
}

#[test]
fn task_text_is_its_name() {
    let task = Task::new(4, "Water the plants".to_string(), 2, (1, 2, 3));
    assert_eq!(task.text(), "Water the plants");
}

#[test]
fn task_clone_keeps_every_field() {
    let task = Task::new(4, "Water the plants".to_string(), 2, (1, 2, 3));
    let copy = task.clone();
    assert_eq!(copy.id, 4);
    assert_eq!(copy.name, "Water the plants");
    assert_eq!(copy.priority, 2);
    assert_eq!(copy.due_date, (1, 2, 3));
}

#[test]
fn priority_bounds_and_default() {
    assert_eq!(LEAST_PRIORITY, 1);
    assert_eq!(GREATEST_PRIORITY, 5);
    assert_eq!(DEFAULT_PRIORITY, 3);
}

#[test]
fn urgency_has_one_step_for_each_priority() {
    let of = |priority: u8| Task::new(0, "t".to_string(), priority, (0, 0, 0)).urgency();
    assert_eq!(of(1), Urgency::Lowest);
    assert_eq!(of(2), Urgency::Low);
    assert_eq!(of(3), Urgency::Medium);
    assert_eq!(of(4), Urgency::High);
    assert_eq!(of(5), Urgency::Highest);
}

#[test]
fn urgency_of_any_other_priority_is_the_highest() {
    let of = |priority: u8| Task::new(0, "t".to_string(), priority, (0, 0, 0)).urgency();
    assert_eq!(of(0), Urgency::Highest);
    assert_eq!(of(6), Urgency::Highest);
    assert_eq!(of(255), Urgency::Highest);
}

#[test]
fn urgency_colors_run_from_green_to_red() {
    assert_eq!(Urgency::Lowest.color(), (2, 8, 2));
    assert_eq!(Urgency::Low.color(), (5, 8, 2));
    assert_eq!(Urgency::Medium.color(), (10, 8, 0));
    assert_eq!(Urgency::High.color(), (10, 5, 0));
    assert_eq!(Urgency::Highest.color(), (10, 2, 2));
}

#[test]
fn urgency_colors_are_the_tenths_of_the_shown_colors() {
    let shown: [(f32, f32, f32); 5] =
        [(0.2, 0.8, 0.2), (0.5, 0.8, 0.2), (1.0, 0.8, 0.0), (1.0, 0.5, 0.0), (1.0, 0.2, 0.2)];
    let steps =
        [Urgency::Lowest, Urgency::Low, Urgency::Medium, Urgency::High, Urgency::Highest];
    for (step, want) in steps.iter().zip(shown.iter()) {
        let (r, g, b) = step.color();
        assert_eq!((f32::from(r) / 10.0, f32::from(g) / 10.0, f32::from(b) / 10.0), *want);
    }
}

#[test]
fn decimal_string_writes_numbers_out() {
    assert_eq!(decimal_string(0), "0");
    assert_eq!(decimal_string(7), "7");
    assert_eq!(decimal_string(10), "10");
    assert_eq!(decimal_string(2025), "2025");
    assert_eq!(decimal_string(65535), "65535");
    assert_eq!(decimal_string(u32::MAX), "4294967295");
}

#[test]
fn decimal_string_agrees_with_the_standard_formatting() {
    for n in (0u32..70000).step_by(37) {
        assert_eq!(decimal_string(n), n.to_string());
    }
}

#[test]
fn push_decimal_appends() {
    let mut text = "due ".to_string();
    push_decimal(&mut text, 42);
    assert_eq!(text, "due 42");
    push_decimal(&mut text, 0);
    assert_eq!(text, "due 420");
}

#[test]
fn read_u8_reads_numerals() {
    assert_eq!(read_u8("0"), Some(0));
    assert_eq!(read_u8("7"), Some(7));
    assert_eq!(read_u8("12"), Some(12));
    assert_eq!(read_u8("255"), Some(255));
    assert_eq!(read_u8("+5"), Some(5));
    assert_eq!(read_u8("007"), Some(7));
    assert_eq!(read_u8("0000000000000000000255"), Some(255));
}

#[test]
fn read_u8_refuses_everything_else() {
    assert_eq!(read_u8(""), None);
    assert_eq!(read_u8("+"), None);
    assert_eq!(read_u8("-1"), None);
    assert_eq!(read_u8("-0"), None);
    assert_eq!(read_u8("++1"), None);
    assert_eq!(read_u8("256"), None);
    assert_eq!(read_u8("1000"), None);
    assert_eq!(read_u8("99999999999999999999999"), None);
    assert_eq!(read_u8(" 1"), None);
    assert_eq!(read_u8("1 "), None);
    assert_eq!(read_u8("1_0"), None);
    assert_eq!(read_u8("1.0"), None);
    assert_eq!(read_u8("abc"), None);
    assert_eq!(read_u8("1a"), None);
    assert_eq!(read_u8("\u{661}"), None);
    assert_eq!(read_u8("1\u{e9}"), None);
    assert_eq!(read_u8("2561x"), None);
}

#[test]
fn read_u16_reads_numerals() {
    assert_eq!(read_u16("0"), Some(0));
    assert_eq!(read_u16("2025"), Some(2025));
    assert_eq!(read_u16("65535"), Some(65535));
    assert_eq!(read_u16("+65535"), Some(65535));
    assert_eq!(read_u16("65536"), None);
    assert_eq!(read_u16("twenty"), None);
    assert_eq!(read_u16(""), None);
}

#[test]
fn readers_agree_with_the_standard_parsing() {
    let texts = [
        "", "0", "1", "9", "10", "99", "100", "255", "256", "300", "0255", "+", "+0", "+255",
        "+256", "-", "-1", "1-", "12a", "a12", " 12", "12 ", "1 2", "65535", "65536", "065535",
        "+065535", "655350", "4294967295", "4294967296", "18446744073709551616", "\u{ff11}",
        "1\u{0}", "٣", "1e2", "0x10", "+-1", "++", "1+",
    ];
    for text in texts.iter() {
        assert_eq!(read_u8(text), text.parse::<u8>().ok(), "u8 from {:?}", text);
        assert_eq!(read_u16(text), text.parse::<u16>().ok(), "u16 from {:?}", text);
    }
    for n in 0u32..1200 {
        let text = n.to_string();
        assert_eq!(read_u8(&text), text.parse::<u8>().ok());
        assert_eq!(read_u16(&text), text.parse::<u16>().ok());
    }
}

#[test]
fn what_is_written_is_read_back() {
    for n in (0u32..=65535).step_by(257) {
        assert_eq!(read_u16(&decimal_string(n)), Some(n as u16));
    }
    for n in 0u32..=255 {
        assert_eq!(read_u8(&decimal_string(n)), Some(n as u8));
    }
}
