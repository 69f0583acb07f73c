use lattice::sequence::{
    next_relation_id, parse_mermaid_diagram, parse_sequence_gram, render_sequence_gram,
    SequenceDiagram, SequenceEvent,
};

#[test]
fn sequence_gram_roundtrips_with_relation_ids_and_edge_context() {
    let src = r#"sequenceDiagram
participant A
participant B
A->>B: [R1] Do the thing
**edgeContext:**
**[R1]**
Must be idempotent
"#;
    let d = parse_mermaid_diagram("D", src);
    assert_eq!(d.events.len(), 1);
    let SequenceEvent::Message { rel_id, edge_context, text, .. } = &d.events[0];
    assert_eq!(rel_id, "R1");
    assert_eq!(text, "Do the thing");
    assert_eq!(edge_context.as_deref(), Some("Must be idempotent"));

    let rendered = render_sequence_gram(&[d.clone()].to_vec());
    assert!(rendered.contains("```mermaid\nsequenceDiagram\n"));
    assert!(rendered.contains("A->>B: Do the thing"));
    assert!(!rendered.contains("[R1] A->>B"));
    assert!(!rendered.contains("edgeContext:\nsequenceDiagram"));
    assert!(rendered.contains("Note over A,B: Must be idempotent"));
    let parsed_back = parse_sequence_gram(&rendered);
    assert_eq!(parsed_back.len(), 1);
    assert_eq!(parsed_back[0].events.len(), 1);
    let SequenceEvent::Message { rel_id, edge_context, text, .. } = &parsed_back[0].events[0];
    assert_eq!(rel_id, "R1");
    assert_eq!(text, "Do the thing");
    assert_eq!(edge_context.as_deref(), Some("Must be idempotent"));
}

#[test]
fn blank_gram_gives_one_empty_diagram() {
    let d = parse_sequence_gram(" \n");
    assert_eq!(d, vec![SequenceDiagram { name: "Diagram".into(), participants: vec![], events: vec![] }]);
}

#[test]
fn messages_get_numbered_relation_ids_and_dashes() {
    let d = parse_mermaid_diagram("X", "A->>B: hi\nB-->>A: [R9] back\n[R3] A->>C: lhs id\nnot a message\n");
    assert_eq!(d.participants, vec!["A".to_string(), "B".to_string(), "C".to_string()]);
    let ids: Vec<String> = d.events.iter().map(|SequenceEvent::Message { rel_id, .. }| rel_id.clone()).collect();
    assert_eq!(ids, vec!["R1", "R9", "R3"]);
    let SequenceEvent::Message { dashed, .. } = &d.events[1];
    assert!(*dashed);
    assert_eq!(next_relation_id(&d), "R10");
}

#[test]
fn fenced_diagrams_get_names_and_outside_context() {
    let src = "## Login\nEdgeContext:\n[R1] -> checks the token\n\n```mermaid\nsequenceDiagram\nU->>S: login\n```\n```mermaid\nsequenceDiagram\n```\n";
    let d = parse_sequence_gram(src);
    assert_eq!(d.len(), 1);
    assert_eq!(d[0].name, "Login");
    let SequenceEvent::Message { edge_context, .. } = &d[0].events[0];
    assert_eq!(edge_context.as_deref(), Some("checks the token"));
}

#[test]
fn render_writes_notes_with_line_breaks() {
    let d = SequenceDiagram {
        name: "N".into(),
        participants: vec!["A".into()],
        events: vec![SequenceEvent::Message {
            from: "A".into(),
            to: "A".into(),
            dashed: true,
            rel_id: "R1".into(),
            text: "one\ntwo".into(),
            edge_context: Some(" x\ny ".into()),
        }],
    };
    assert_eq!(
        render_sequence_gram(&vec![d]),
        "## N\n```mermaid\nsequenceDiagram\n    participant A\n    A-->>A: one<br/>two\n    Note over A: x<br/>y\n```\n"
    );
}
