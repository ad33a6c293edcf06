use heartbeats::snowflake::{IdGenerator, Snowflake};
use heartbeats::stats::Stats;
use heartbeats::token::generate_token;

#[test]
fn empty_secret_spells_the_identifier() {
    let t = generate_token(Snowflake { raw: 0x1234_5678_9abc_def0 }, &[]);
    assert_eq!(t, "123456789abcdef0");
}

#[test]
fn leading_zeroes_are_kept() {
    let t = generate_token(Snowflake { raw: 1 }, &[]);
    assert_eq!(t, "0000000000000001");
    assert_eq!(t.len(), 16);
}

#[test]
fn secret_folds_into_the_key() {
    // one byte: the key is 0 * 31 + 1
    let t = generate_token(Snowflake { raw: 0 }, &[1]);
    assert_eq!(t, "0000000000000001");
    // two bytes: the key is (0 * 31 + 1) * 31 + 2 = 33 = 0x21
    let t = generate_token(Snowflake { raw: 0 }, &[1, 2]);
    assert_eq!(t, "0000000000000021");
}

#[test]
fn token_depends_on_the_secret() {
    let id = Snowflake { raw: 99 };
    let a = generate_token(id, b"left");
    let b = generate_token(id, b"right");
    assert_ne!(a, b);
    // and is reproducible with the same secret
    assert_eq!(a, generate_token(id, b"left"));
}

#[test]
fn same_name_twice_gets_distinct_id_and_token() {
    // two registrations under one display name: the identifiers differ,
    // so the tokens differ too
    let secret = b"process secret";
    let mut g = IdGenerator::new(2);
    let id1 = g.next_id(500).unwrap();
    let id2 = g.next_id(500).unwrap();
    assert_ne!(id1.id(), id2.id());

    let mut s = Stats::new(0);
    assert!(s.register_device(id1.id(), Some("twin".to_string())));
    assert!(s.register_device(id2.id(), Some("twin".to_string())));
    assert_eq!(s.devices.len(), 2);

    let t1 = generate_token(id1, secret);
    let t2 = generate_token(id2, secret);
    assert_ne!(t1, t2);
}
