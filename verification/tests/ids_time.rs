use lattice::ids::{AgentId, ProjectId, TaskId, TemplateId};
use lattice::time::{Clock, FixedClock, Timestamp};

#[test]
fn ids_are_distinct_by_type() {
    let p = ProjectId::new();
    let t = TemplateId::new();
    assert_ne!(p.0, t.0);
}

#[test]
fn ids_roundtrip_via_string() {
    let p = ProjectId::new();
    let parsed: ProjectId = p.to_string().parse().unwrap();
    assert_eq!(p, parsed);
}

#[test]
fn agent_id_string_form() {
    let a = AgentId::new("cursor-agent");
    assert_eq!(a.as_str(), "cursor-agent");
    assert_eq!(a.to_string(), "cursor-agent");
}

#[test]
fn nil_id_text_is_all_zeros() {
    assert_eq!(TaskId::nil().to_string(), "00000000-0000-0000-0000-000000000000");
    let t = TaskId(0x67e5504410b1426f9247bb680e5fe0c8);
    assert_eq!(t.to_string(), "67e55044-10b1-426f-9247-bb680e5fe0c8");
}

#[test]
fn bad_id_text_is_an_error() {
    assert!(ProjectId::parse("not-a-uuid").is_err());
    assert_eq!(
        TemplateId::parse("67e55044-10b1-426f-9247-bb680e5fe0c8").unwrap().0,
        0x67e5504410b1426f9247bb680e5fe0c8
    );
}

#[test]
fn timestamp_roundtrips_via_rfc3339() {
    let t = Timestamp::parse("2026-04-24T10:12:00Z").unwrap();
    assert_eq!(t.to_rfc3339(), "2026-04-24T10:12:00Z");
}

#[test]
fn fixed_clock_returns_set_value() {
    let t0 = Timestamp::parse("2026-01-01T00:00:00Z").unwrap();
    let clock = FixedClock::at(t0);
    assert_eq!(clock.now(), t0);
    let t1 = Timestamp::parse("2026-06-01T00:00:00Z").unwrap();
    clock.set(t1);
    assert_eq!(clock.now(), t1);
}

#[test]
fn timestamps_compare_by_instant() {
    let a = Timestamp::parse("2026-01-01T02:00:00+02:00").unwrap();
    let b = Timestamp::parse("2026-01-01T00:00:00Z").unwrap();
    assert_eq!(a, b);
    assert_eq!(a.to_rfc3339(), "2026-01-01T02:00:00+02:00");
    assert!(Timestamp::parse("yesterday").is_err());
}

#[test]
fn unwritable_timestamp_falls_back_to_epoch() {
    let t = Timestamp { unix_nanos: i128::MAX, offset_seconds: 0 };
    assert_eq!(t.to_rfc3339(), "1970-01-01T00:00:00Z");
}

#[test]
fn fixed_clock_clones_share_the_instant() {
    let t0 = Timestamp::parse("2026-01-01T00:00:00Z").unwrap();
    let t1 = Timestamp::parse("2026-06-01T00:00:00Z").unwrap();
    let clock = FixedClock::at(t0);
    let c2 = clock.clone();
    clock.set(t1);
    assert_eq!(clock.now(), t1);
    assert_eq!(c2.now(), t1);
}
