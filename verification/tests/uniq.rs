use memori_storage::connection::{DbReplies, DbRequest, SqlBind, Step};
use memori_storage::drivers::mysql::next_step;
use memori_storage::drivers::{generate_uniq, DriverCall, DriverOutput};

fn terms(ts: &[&str]) -> Vec<String> {
    ts.iter().map(|t| t.to_string()).collect()
}

#[test]
fn uniqueness_keys_are_fnv1a_in_hex() {
    assert_eq!(generate_uniq(&terms(&[])), "cbf29ce484222325");
    assert_eq!(generate_uniq(&terms(&["a"])), "089be907b544fdc9");
    assert_eq!(generate_uniq(&terms(&["Alice", "person"])), "a8d91cbc290f1f36");
}

#[test]
fn term_boundaries_matter() {
    assert_eq!(generate_uniq(&terms(&["ab", "c"])), "0ab11b2f87ef04a1");
    assert_eq!(generate_uniq(&terms(&["a", "bc"])), "cb31b5381b2a17ab");
}

#[test]
fn equal_terms_give_equal_keys() {
    let k1 = generate_uniq(&terms(&["knows", "entity"]));
    let k2 = generate_uniq(&terms(&["knows", "entity"]));
    assert_eq!(k1, k2);
    assert_eq!(k1.len(), 16);
}

fn empty() -> DbReplies {
    DbReplies { rows: vec![] }
}

#[test]
fn inserts_carry_a_fresh_uuid() {
    let call = DriverCall::EntityCreate("alice".to_string());
    let uuid_of = |s: Step<DbRequest, DriverOutput>| match s {
        Step::Run(DbRequest::Execute(st)) => match &st.binds[0] {
            SqlBind::Text(u) => u.clone(),
            other => panic!("unexpected bind {other:?}"),
        },
        other => panic!("unexpected step {other:?}"),
    };
    let a = uuid_of(next_step(&call, &empty()));
    let b = uuid_of(next_step(&call, &empty()));
    assert_eq!(a.len(), 36);
    assert_eq!(a.as_bytes()[14], b'4');
    assert!(matches!(a.as_bytes()[19], b'8' | b'9' | b'a' | b'b'));
    assert_eq!([a.as_bytes()[8], a.as_bytes()[13], a.as_bytes()[18], a.as_bytes()[23]], [b'-'; 4]);
    assert!(a.bytes().all(|c| c == b'-' || c.is_ascii_digit() || (b'a'..=b'f').contains(&c)));
    assert_ne!(a, b);
}

#[test]
fn reads_draw_no_uuid() {
    let call = DriverCall::EntityGetId("alice".to_string());
    match next_step(&call, &empty()) {
        Step::Run(DbRequest::Execute(st)) => {
            assert_eq!(st.sql, "SELECT id FROM memori_entity WHERE external_id = ?");
            assert!(matches!(&st.binds[..], [SqlBind::Text(t)] if t == "alice"));
        }
        other => panic!("unexpected step {other:?}"),
    }
}
