use heartbeats::snowflake::IdGenerator;

const TS_UNIT: u64 = 0x40_0000;
const NODE_UNIT: u64 = 0x1000;

#[test]
fn first_issue_packs_fields() {
    let mut g = IdGenerator::new(5);
    let id = g.next_id(7).expect("fresh generator issues");
    assert_eq!(id.id(), 7 * TS_UNIT + 5 * NODE_UNIT);
    assert_eq!(id.created_at_millis(), 7);
    assert_eq!(id.node_part(), 5);
    assert_eq!(id.sequence_part(), 0);
}

#[test]
fn same_millisecond_counts_sequence_up() {
    let mut g = IdGenerator::new(3);
    let a = g.next_id(10).unwrap();
    let b = g.next_id(10).unwrap();
    assert_eq!(a.sequence_part(), 0);
    assert_eq!(b.sequence_part(), 1);
    assert_eq!(b.id(), a.id() + 1);
}

#[test]
fn clock_step_back_keeps_increasing() {
    let mut g = IdGenerator::new(0);
    let a = g.next_id(20).unwrap();
    let b = g.next_id(15).unwrap();
    assert!(b.id() > a.id());
    assert_eq!(b.created_at_millis(), 20);
    assert_eq!(b.sequence_part(), 1);
}

#[test]
fn new_millisecond_resets_sequence() {
    let mut g = IdGenerator::new(0);
    let a = g.next_id(20).unwrap();
    let _ = g.next_id(20).unwrap();
    let c = g.next_id(21).unwrap();
    assert!(c.id() > a.id());
    assert_eq!(c.created_at_millis(), 21);
    assert_eq!(c.sequence_part(), 0);
}

#[test]
fn sequence_exhaustion_waits_for_next_millisecond() {
    let mut g = IdGenerator::new(0);
    for expected_seq in 0..4096u64 {
        let id = g.next_id(9).expect("room within the millisecond");
        assert_eq!(id.sequence_part(), expected_seq);
        assert_eq!(id.created_at_millis(), 9);
    }
    assert!(g.next_id(9).is_none(), "sequence range spent");
    let id = g.next_id(10).expect("next millisecond has room");
    assert_eq!(id.created_at_millis(), 10);
    assert_eq!(id.sequence_part(), 0);
}

#[test]
fn issued_ids_are_distinct_and_time_ordered() {
    let mut g = IdGenerator::new(7);
    let mut ids = Vec::new();
    let mut now = 100u64;
    for round in 0..200u64 {
        if round % 3 == 0 {
            now += 1;
        }
        ids.push(g.next_id(now).unwrap());
    }
    for i in 0..ids.len() {
        for j in (i + 1)..ids.len() {
            assert_ne!(ids[i].id(), ids[j].id());
        }
    }
    for w in ids.windows(2) {
        assert!(w[0].id() < w[1].id());
        assert!(w[0].created_at_millis() <= w[1].created_at_millis());
    }
}

#[test]
fn generate_uses_the_real_clock() {
    let mut g = IdGenerator::new(1);
    let a = g.generate();
    let b = g.generate();
    assert!(a.id() < b.id());
    assert_eq!(a.node_part(), 1);
    // the embedded instant is wall-clock milliseconds: past 2020, before 2100
    assert!(a.created_at_millis() > 1_577_836_800_000);
    assert!(a.created_at_millis() < 4_102_444_800_000);
}

#[test]
fn exhaustion_probe_flags_the_very_end() {
    let mut g = IdGenerator::new(0);
    assert!(!g.is_exhausted());
    let max_ts = 0x3FF_FFFF_FFFF;
    for _ in 0..4096u64 {
        g.next_id(max_ts).unwrap();
    }
    assert!(g.is_exhausted());
    assert!(g.next_id(max_ts).is_none());
}
