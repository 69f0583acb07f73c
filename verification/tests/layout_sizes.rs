use lattice::layout::{clamp_prompt_scroll, lines_in, status_height_for};
use lattice::model::Model;
use lattice::ui::{Toast, ToastLevel};

#[test]
fn status_strip_grows_with_toast_lines() {
    let mut m = Model::new();
    assert_eq!(status_height_for(&m), 1);
    m.toasts.push(Toast::new(ToastLevel::Info, "one line"));
    assert_eq!(status_height_for(&m), 1);
    m.toasts.push(Toast::new(ToastLevel::Error, "a\nb\nc"));
    assert_eq!(status_height_for(&m), 3);
    let long = vec!["x"; 40].join("\n");
    m.toasts.push(Toast::new(ToastLevel::Error, &long));
    assert_eq!(status_height_for(&m), 16);
}

#[test]
fn lines_are_counted_like_str_lines() {
    for s in ["", "a", "a\n", "a\nb", "a\n\nb\n", "\n"] {
        assert_eq!(lines_in(s), s.lines().count(), "{s:?}");
    }
}

#[test]
fn prompt_scroll_stops_at_last_line() {
    assert_eq!(clamp_prompt_scroll(10, "a\nb\nc"), 2);
    assert_eq!(clamp_prompt_scroll(1, "a\nb\nc"), 1);
    assert_eq!(clamp_prompt_scroll(5, ""), 0);
}

use lattice::fields::FieldKind;
use lattice::form::FormField;
use lattice::layout::{form_row_body, form_row_scroll, form_row_title};

#[test]
fn row_titles_mark_required_and_sequence_rows() {
    let f = FormField::plain("Name", "", true, false);
    assert_eq!(form_row_title(&f), " Name * ");
    let mut g = FormField::plain("Flow", "", false, true);
    g.kind = Some(FieldKind::SequenceGram);
    assert_eq!(form_row_title(&g), " Flow  [F3 open editor] ");
}

#[test]
fn focused_row_shows_caret_marker() {
    let mut f = FormField::plain("Name", "héllo", false, false);
    f.set_caret(3);
    assert_eq!(form_row_body(&f, true), "hé▌llo");
    assert_eq!(form_row_body(&f, false), "héllo");
    let mut g = FormField::plain("Flow", "  ", false, true);
    g.kind = Some(FieldKind::SequenceGram);
    assert_eq!(form_row_body(&g, true), "<sequence diagram — press F3 to edit>");
}

#[test]
fn caret_row_stays_visible() {
    let mut f = FormField::plain("Body", "a\nb\nc\nd\ne\nf", false, true);
    f.set_caret(f.value.len());
    // Box of 5 rows: 3 inside the borders; caret on row 5 (index 5).
    assert_eq!(form_row_scroll(&f, 20, 5), 3);
    f.set_caret(0);
    assert_eq!(form_row_scroll(&f, 20, 5), 0);
}

use lattice::layout::{keep_error_toasts, mouse_scroll};
use lattice::model::Msg;
use lattice::ui::Screen;

#[test]
fn only_error_toasts_are_kept() {
    let mut ts = vec![
        Toast::new(ToastLevel::Info, "a"),
        Toast::new(ToastLevel::Error, "b"),
        Toast::new(ToastLevel::Warn, "c"),
        Toast::new(ToastLevel::Error, "d"),
    ];
    keep_error_toasts(&mut ts);
    let texts: Vec<&str> = ts.iter().map(|t| t.text.as_str()).collect();
    assert_eq!(texts, vec!["b", "d"]);
}

#[test]
fn wheel_scrolls_task_prompt_only_without_overlay() {
    let mut m = Model::new();
    assert!(mouse_scroll(&m, true).is_none());
    m.screen = Screen::Tasks;
    assert!(matches!(mouse_scroll(&m, true), Some(Msg::TaskPromptScroll(-3))));
    assert!(matches!(mouse_scroll(&m, false), Some(Msg::TaskPromptScroll(3))));
    m.palette_open = true;
    assert!(mouse_scroll(&m, false).is_none());
}

use lattice::keybind::{form_keys, global_keys, screen_keys};
use lattice::layout::{event_summary, tail_of};
use lattice::sequence::SequenceEvent;

#[test]
fn tail_keeps_the_end_with_marker() {
    assert_eq!(tail_of("hello", 10), "hello");
    assert_eq!(tail_of("hello world", 6), "…world");
    assert_eq!(tail_of("abc", 1), "…");
}

#[test]
fn events_are_listed_with_arrow_and_notes_marker() {
    let e = SequenceEvent::Message {
        from: "A".into(),
        to: "B".into(),
        dashed: true,
        rel_id: "r".into(),
        text: "ping".into(),
        edge_context: Some(" note ".into()),
    };
    assert_eq!(event_summary(&e), "A -->> B: ping  [ctx]");
    let e = SequenceEvent::Message {
        from: "A".into(),
        to: "B".into(),
        dashed: false,
        rel_id: "r".into(),
        text: "ping".into(),
        edge_context: Some("  ".into()),
    };
    assert_eq!(event_summary(&e), "A ->> B: ping");
}

#[test]
fn key_help_tables_are_complete() {
    assert_eq!(global_keys().len(), 6);
    assert_eq!(form_keys()[0].key, "F2");
    assert_eq!(screen_keys().last().unwrap().key, "w");
}
