use stoat_components::compose::{TypingAction, TypingNotifier};
use stoat_components::compose::{
    autocomplete_trigger, emoji_insert_text, sends_typing, split_spoiler_name, Attachment,
    AttachmentController, AutocompleteType, ReplyController,
};

#[test]
fn replies_are_added_once_in_order() {
    let mut c = ReplyController::new();
    assert!(c.is_empty());
    c.add_reply("a".to_string(), true);
    c.add_reply("b".to_string(), false);
    c.add_reply("a".to_string(), false);
    let r = c.get_replies();
    assert_eq!(r.len(), 2);
    assert_eq!(r[0].message_id, "a");
    assert!(r[0].mention);
    assert_eq!(r[1].message_id, "b");
    assert!(!r[1].mention);
}

#[test]
fn toggling_a_mention_twice_restores_it() {
    let mut c = ReplyController::new();
    c.add_reply("a".to_string(), true);
    c.toggle_mention("a");
    assert!(!c.get_replies()[0].mention);
    c.toggle_mention("a");
    assert!(c.get_replies()[0].mention);
    c.toggle_mention("missing");
    assert!(c.get_replies()[0].mention);
}

#[test]
fn removing_a_reply_keeps_the_others() {
    let mut c = ReplyController::new();
    c.add_reply("a".to_string(), true);
    c.add_reply("b".to_string(), false);
    c.add_reply("c".to_string(), true);
    c.remove_reply("b");
    let ids: Vec<String> = c.get_replies().into_iter().map(|r| r.message_id).collect();
    assert_eq!(ids, vec!["a".to_string(), "c".to_string()]);
}

#[test]
fn taking_replies_empties_the_controller() {
    let mut c = ReplyController::new();
    c.add_reply("a".to_string(), false);
    let out = c.take_replies();
    assert!(c.is_empty());
    assert_eq!(out.len(), 1);
    assert_eq!(out[0].id, "a");
    assert!(!out[0].mention);
    assert_eq!(out[0].fail_if_not_exists, Some(true));
}

#[test]
fn spoiler_prefix_is_split_off() {
    assert_eq!(split_spoiler_name("SPOILER_cat.png"), ("cat.png".to_string(), true));
    assert_eq!(split_spoiler_name("cat.png"), ("cat.png".to_string(), false));
    assert_eq!(split_spoiler_name("SPOILER"), ("SPOILER".to_string(), false));
}

#[test]
fn upload_name_puts_the_prefix_back() {
    let a = Attachment { id: 1, filename: "cat.png".to_string(), spoiler: true, contents: vec![] };
    assert_eq!(a.upload_name(), "SPOILER_cat.png");
    let b = Attachment { id: 2, filename: "cat.png".to_string(), spoiler: false, contents: vec![] };
    assert_eq!(b.upload_name(), "cat.png");
}

#[test]
fn upload_name_restores_the_picked_name() {
    for name in ["SPOILER_a.txt", "b.txt", "SPOILER_", "spoiler_c"] {
        let (filename, spoiler) = split_spoiler_name(name);
        let a = Attachment { id: 0, filename, spoiler, contents: vec![] };
        assert_eq!(a.upload_name(), name);
    }
}

#[test]
fn attachments_keep_their_order_and_ids() {
    let mut c = AttachmentController::new();
    assert!(c.is_empty());
    c.attach(7, "SPOILER_a.png", vec![1, 2]);
    c.attach(3, "b.png", vec![3]);
    assert!(c.not_empty());
    let all = c.get_attachments();
    assert_eq!(all.len(), 2);
    assert_eq!(all[0].id, 7);
    assert_eq!(all[0].filename, "a.png");
    assert!(all[0].spoiler);
    assert_eq!(all[0].contents, vec![1, 2]);
    assert_eq!(all[1].id, 3);
    assert!(!all[1].spoiler);
}

#[test]
fn attaching_under_a_taken_id_replaces_in_place() {
    let mut c = AttachmentController::new();
    c.attach(1, "a", vec![]);
    c.attach(2, "b", vec![]);
    c.attach(1, "c", vec![9]);
    let all = c.get_attachments();
    assert_eq!(all.len(), 2);
    assert_eq!(all[0].id, 1);
    assert_eq!(all[0].filename, "c");
    assert_eq!(all[1].filename, "b");
}

#[test]
fn toggling_and_removing_attachments() {
    let mut c = AttachmentController::new();
    c.attach(1, "a", vec![]);
    c.attach(2, "b", vec![]);
    c.attach(3, "c", vec![]);
    c.toggle_spoiler(2);
    assert!(c.get_attachments()[1].spoiler);
    let second = c.get_attachments().remove(1);
    second.toggle_spoiler(&mut c);
    assert!(!c.get_attachments()[1].spoiler);
    second.remove(&mut c);
    let ids: Vec<u64> = c.get_attachments().iter().map(|a| a.id).collect();
    assert_eq!(ids, vec![1, 3]);
    c.remove(42);
    assert_eq!(c.get_attachments().len(), 2);
}

#[test]
fn taking_attachments_hands_over_the_map() {
    let mut c = AttachmentController::new();
    c.attach(5, "x", vec![1]);
    let m = c.take();
    assert!(c.is_empty());
    assert_eq!(m.len(), 1);
    assert_eq!(m.get(&5).unwrap().filename, "x");
}

#[test]
fn a_picked_file_gets_the_returned_id() {
    let mut c = AttachmentController::new();
    let id = c.add_file("SPOILER_pic.jpg", vec![0]);
    let all = c.get_attachments();
    assert_eq!(all.len(), 1);
    assert_eq!(all[0].id, id);
    assert_eq!(all[0].filename, "pic.jpg");
    assert!(all[0].spoiler);
}

#[test]
fn trigger_reads_the_last_word() {
    assert_eq!(autocomplete_trigger("hello @al", false), Some((AutocompleteType::User, "al".to_string())));
    assert_eq!(autocomplete_trigger("@", false), Some((AutocompleteType::User, String::new())));
    assert_eq!(autocomplete_trigger("see #gen", true), Some((AutocompleteType::Channel, "gen".to_string())));
    assert_eq!(autocomplete_trigger("see #gen", false), None);
    assert_eq!(autocomplete_trigger("ping %mod", true), Some((AutocompleteType::Role, "mod".to_string())));
    assert_eq!(autocomplete_trigger("hello @al ", false), None);
    assert_eq!(autocomplete_trigger("", true), None);
    assert_eq!(autocomplete_trigger("a@b", false), None);
    assert_eq!(autocomplete_trigger("x\t@é", false), Some((AutocompleteType::User, "é".to_string())));
}

#[test]
fn typing_notices_wait_two_seconds() {
    assert!(!sends_typing(true, None));
    assert!(sends_typing(false, None));
    assert!(!sends_typing(false, Some(1)));
    assert!(sends_typing(false, Some(2)));
    assert!(sends_typing(true, Some(5)));
}

#[test]
fn emoji_ids_are_wrapped_in_colons() {
    assert_eq!(emoji_insert_text("01ARZ3NDEKTSV4RRFFQ69G5FAV"), ":01ARZ3NDEKTSV4RRFFQ69G5FAV:");
    assert_eq!(emoji_insert_text("😀"), "😀");
    // 26 bytes but fewer characters still counts as an id
    assert_eq!(emoji_insert_text("ééééééééééééé"), ":ééééééééééééé:");
}

#[test]
fn typing_notices_and_their_stop() {
    let mut n = TypingNotifier::new();
    assert_eq!(n.on_edit(true, 1_000), TypingAction::Nothing);
    assert_eq!(n.on_edit(false, 1_000), TypingAction::Begin { timer: 1_000, delay_ms: 2500 });
    assert_eq!(n.on_edit(false, 2_999), TypingAction::Nothing);
    assert_eq!(n.on_edit(false, 3_000), TypingAction::Begin { timer: 3_000, delay_ms: 2500 });
    assert_eq!(n.on_stop_timer(1_000), TypingAction::Nothing);
    assert_eq!(n.on_stop_timer(3_000), TypingAction::End);
    assert_eq!(n.on_stop_timer(3_000), TypingAction::Nothing);
    assert_eq!(n.on_edit(true, 5_500), TypingAction::Begin { timer: 5_500, delay_ms: 2500 });
}
