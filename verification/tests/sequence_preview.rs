use lattice::preview::sequence_preview;
use lattice::sequence::{SequenceDiagram, SequenceEditorMode, SequenceEditorState, SequenceEvent};

fn msg(from: &str, to: &str, dashed: bool, rel: &str) -> SequenceEvent {
    SequenceEvent::Message {
        from: from.to_string(),
        to: to.to_string(),
        dashed,
        rel_id: rel.to_string(),
        text: String::new(),
        edge_context: None,
    }
}

fn editor(participants: &[&str], events: Vec<SequenceEvent>, event_cursor: usize) -> SequenceEditorState {
    SequenceEditorState {
        form_field_index: 0,
        diagrams: vec![SequenceDiagram {
            name: "d".to_string(),
            participants: participants.iter().map(|p| p.to_string()).collect(),
            events,
        }],
        diagram_cursor: 0,
        event_cursor,
        participant_cursor: 0,
        mode: SequenceEditorMode::Browse,
    }
}

#[test]
fn arrow_runs_between_lifelines() {
    let ed = editor(&["A", "B"], vec![msg("A", "B", false, "r1")], 0);
    let lines = sequence_preview(&ed, 20);
    assert_eq!(lines.len(), 2);
    assert_eq!(lines[0], "   A         B    ");
    assert_eq!(lines[1], "▶   │────────►│   ");
}

#[test]
fn leftward_dashed_arrow_has_head_right_of_sender() {
    let ed = editor(&["A", "B"], vec![msg("B", "A", true, "r1")], 5);
    let lines = sequence_preview(&ed, 20);
    assert_eq!(lines[1], "    │┄┄┄┄┄┄┄┄┄│◄  ");
}

#[test]
fn self_message_is_a_loop_with_label() {
    let ed = editor(&["A", "B"], vec![msg("A", "A", false, "r1")], 9);
    let lines = sequence_preview(&ed, 20);
    assert_eq!(lines[1], "    │↺ r1     │   ");
}

#[test]
fn unknown_participant_leaves_only_lifelines() {
    let ed = editor(&["A", "B"], vec![msg("A", "Z", false, "r1")], 9);
    let lines = sequence_preview(&ed, 20);
    assert_eq!(lines[1], "    │         │   ");
}

#[test]
fn empty_states_have_hints() {
    let ed = editor(&["A"], vec![], 0);
    let lines = sequence_preview(&ed, 20);
    assert_eq!(lines.len(), 3);
    assert_eq!(lines[1], "");
    assert_eq!(lines[2], "No events. Press 'm' to add a message.");
    assert_eq!(sequence_preview(&ed, 9), vec!["…".to_string()]);
    let none = editor(&[], vec![], 0);
    assert_eq!(
        sequence_preview(&none, 40),
        vec!["No participants. Press 'p' to add one.".to_string()]
    );
    let mut gone = editor(&["A"], vec![], 0);
    gone.diagram_cursor = 3;
    assert_eq!(sequence_preview(&gone, 40), vec!["No diagram.".to_string()]);
}

#[test]
fn long_names_are_cut_to_the_column() {
    let ed = editor(&["Alexandria", "Bob"], vec![], 0);
    let lines = sequence_preview(&ed, 12);
    // 10 cells, two columns of 4 with a gap of 2.
    assert_eq!(lines[0], "Alex  Bob ");
}
