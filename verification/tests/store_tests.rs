use mindlink::errors::AgentError;
use mindlink::store::Memory;

#[test]
fn append_then_last_turns_has_new_turn_most_recent() {
    let mut mem = Memory::open(":memory:").unwrap();
    mem.append("user", "hi").unwrap();
    mem.append("assistant", "hello").unwrap();
    let turns = mem.last_turns(10).unwrap();
    assert_eq!(turns.len(), 2);
    assert_eq!(turns[0].role, "user");
    assert_eq!(turns[0].content, "hi");
    assert_eq!(turns[1].role, "assistant");
    assert_eq!(turns[1].content, "hello");
    assert!(turns[0].id < turns[1].id);

    mem.append("user", "again").unwrap();
    let turns2 = mem.last_turns(10).unwrap();
    assert_eq!(turns2.len(), 3);
    let newest = &turns2[2];
    assert_eq!(newest.role, "user");
    assert_eq!(newest.content, "again");
    for earlier in &turns2[..2] {
        assert!(earlier.id < newest.id);
    }
}

#[test]
fn last_turns_bounded_window_oldest_first() {
    let mut mem = Memory::open(":memory:").unwrap();
    mem.append("user", "one").unwrap();
    mem.append("assistant", "two").unwrap();
    mem.append("user", "three").unwrap();

    let window = mem.last_turns(2).unwrap();
    assert_eq!(window.len(), 2);
    assert_eq!(window[0].content, "two");
    assert_eq!(window[1].content, "three");
    assert!(window[0].id < window[1].id);

    let all = mem.last_turns(99).unwrap();
    assert_eq!(all.len(), 3);
    assert_eq!(all[0].content, "one");
    assert_eq!(all[2].content, "three");

    let none = mem.last_turns(0).unwrap();
    assert!(none.is_empty());
}

#[test]
fn clear_then_last_turns_is_empty() {
    let mut mem = Memory::open(":memory:").unwrap();
    mem.append("user", "hi").unwrap();
    mem.append("assistant", "hello").unwrap();
    mem.clear().unwrap();
    assert!(mem.last_turns(5).unwrap().is_empty());
    assert!(mem.last_turns(0).unwrap().is_empty());
}

#[test]
fn open_unwritable_location_is_storage_failure() {
    let r = Memory::open("/no/such/directory/anywhere/memory.db");
    assert!(matches!(r, Err(AgentError::StorageFailure)));
}

#[test]
fn open_rejects_a_mismatched_pre_existing_schema() {
    let path = "/tmp/mindlink_hostile_schema.db";
    let conn = rusqlite::Connection::open(path).unwrap();
    conn.execute_batch(
        "DROP TABLE IF EXISTS memory;
         CREATE TABLE memory(id INTEGER, role TEXT NOT NULL, content TEXT NOT NULL, ts TEXT NOT NULL);
         INSERT INTO memory VALUES (5, 'user', 'a', 't');
         INSERT INTO memory VALUES (5, 'user', 'b', 't');",
    )
    .unwrap();
    drop(conn);
    assert!(matches!(Memory::open(path), Err(AgentError::StorageFailure)));
}

#[test]
fn open_rejects_a_file_with_a_trigger() {
    let path = "/tmp/mindlink_trigger_schema.db";
    let conn = rusqlite::Connection::open(path).unwrap();
    conn.execute_batch(
        "DROP TRIGGER IF EXISTS wipe;
         DROP TABLE IF EXISTS memory;
         CREATE TABLE memory(id INTEGER PRIMARY KEY AUTOINCREMENT, role TEXT NOT NULL, content TEXT NOT NULL, ts TEXT NOT NULL);
         CREATE INDEX IF NOT EXISTS idx_memory_ts ON memory(ts);
         CREATE TRIGGER wipe AFTER INSERT ON memory BEGIN DELETE FROM memory; END;",
    )
    .unwrap();
    drop(conn);
    assert!(matches!(Memory::open(path), Err(AgentError::StorageFailure)));
}

#[test]
fn reopen_accepts_own_schema_and_keeps_turns() {
    let path = "/tmp/mindlink_reopen_checked.db";
    {
        let mut mem = Memory::open(path).unwrap();
        mem.clear().unwrap();
        mem.append("user", "persisted").unwrap();
    }
    let mem = Memory::open(path).unwrap();
    let turns = mem.last_turns(10).unwrap();
    assert_eq!(turns.len(), 1);
    assert_eq!(turns[0].content, "persisted");
}

#[test]
fn timestamps_are_recorded() {
    let mut mem = Memory::open(":memory:").unwrap();
    mem.append("user", "hi").unwrap();
    let turns = mem.last_turns(1).unwrap();
    assert!(!turns[0].ts.is_empty());
}
