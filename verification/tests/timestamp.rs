use stoat_components::timestamp::{
    edited_marker, header_labels, message_millis, sent_label, sent_label_with, trailing_label, CivilDate, SentAt,
};

fn date(year: i16, month: i8, day: i8) -> CivilDate {
    CivilDate { year, month, day }
}

#[test]
fn ulid_time_is_read() {
    assert_eq!(message_millis("01ARZ3NDEKTSV4RRFFQ69G5FAV"), Some(1469922850259));
    assert_eq!(message_millis("01arz3ndektsv4rrffq69g5fav"), Some(1469922850259));
    assert_eq!(message_millis("00000000000000000000000000"), Some(0));
    assert_eq!(message_millis("01ARZ3NDEKTSV4RRFFQ69G5FA"), None);
    assert_eq!(message_millis("01ARZ3NDEKTSV4RRFFQ69G5FAU"), None);
}

#[test]
fn labels_for_today_yesterday_and_earlier() {
    let sent = SentAt { date: date(2024, 3, 1), hour: 9, minute: 5 };
    assert_eq!(sent_label(sent, date(2024, 3, 1)), "Today at 09:05");
    assert_eq!(sent_label(sent, date(2024, 3, 2)), "Yesterday at 09:05");
    assert_eq!(sent_label(sent, date(2024, 3, 3)), "01/03/2024");
}

#[test]
fn yesterday_crosses_months_and_leap_days() {
    let sent = SentAt { date: date(2024, 2, 29), hour: 23, minute: 59 };
    assert_eq!(sent_label(sent, date(2024, 3, 1)), "Yesterday at 23:59");
    let sent = SentAt { date: date(2023, 12, 31), hour: 0, minute: 0 };
    assert_eq!(sent_label(sent, date(2024, 1, 1)), "Yesterday at 00:00");
    let sent = SentAt { date: date(2023, 2, 28), hour: 0, minute: 0 };
    assert_eq!(sent_label(sent, date(2023, 3, 1)), "Yesterday at 00:00");
}

#[test]
fn label_with_a_given_previous_day() {
    let sent = SentAt { date: date(-5, 1, 2), hour: 1, minute: 2 };
    assert_eq!(sent_label_with(sent, date(2000, 1, 1), None), "02/01/-5");
}

#[test]
fn edited_messages_are_marked() {
    assert_eq!(edited_marker(true), Some("(edited)".to_string()));
    assert_eq!(edited_marker(false), None);
    let sent = SentAt { date: date(2024, 3, 1), hour: 9, minute: 5 };
    assert_eq!(header_labels(sent, date(2024, 3, 1), true), ("Today at 09:05".to_string(), Some("(edited)".to_string())));
    assert_eq!(header_labels(sent, date(2024, 3, 2), false), ("Yesterday at 09:05".to_string(), None));
}

#[test]
fn trailing_messages_show_edited_or_time_on_hover() {
    let sent = SentAt { date: date(2024, 3, 1), hour: 14, minute: 7 };
    assert_eq!(trailing_label(sent, true, false), Some("(edited)".to_string()));
    assert_eq!(trailing_label(sent, true, true), Some("(edited)".to_string()));
    assert_eq!(trailing_label(sent, false, true), Some("14:07".to_string()));
    assert_eq!(trailing_label(sent, false, false), None);
}
