//! The conversation store: a durable, append-only ordered log of turns held
//! in a SQLite database. Supports opening, appending one turn, reading the
//! bounded most-recent window, and a full clear. The database contents are
//! modelled as a sequence of records in ascending id order.

use vstd::prelude::*;

use crate::errors::AgentError;

verus! {

/// One stored turn as the model sees it: id, role, content, timestamp.
pub type TurnRec = (int, Seq<char>, Seq<char>, Seq<char>);

/// The ids of the log are strictly increasing in log order.
pub open spec fn ids_increasing(log: Seq<TurnRec>) -> bool {
    forall|i: int, j: int| 0 <= i < j < log.len() ==> log[i].0 < log[j].0
}

/// The up-to-`n` most recent records of `log`, oldest first.
pub open spec fn recent(log: Seq<TurnRec>, n: int) -> Seq<TurnRec> {
    if n >= log.len() {
        log
    } else if n <= 0 {
        Seq::empty()
    } else {
        log.skip(log.len() - n)
    }
}

/// The model of a sequence of stored turns.
pub open spec fn turns_view(v: Seq<ChatTurn>) -> Seq<TurnRec> {
    v.map_values(|t: ChatTurn| t@)
}

/// One logged utterance: a monotonically increasing id assigned by the store,
/// a role, immutable content, and the insertion timestamp rendered as an
/// RFC 3339 string.
#[derive(Debug)]
pub struct ChatTurn {
    pub id: i64,
    pub role: String,
    pub content: String,
    pub ts: String,
}

impl View for ChatTurn {
    type V = TurnRec;

    open spec fn view(&self) -> TurnRec {
        (self.id as int, self.role@, self.content@, self.ts@)
    }
}

impl Clone for ChatTurn {
    fn clone(&self) -> (r: Self)
        ensures
            r@ == self@,
    {
        ChatTurn {
            id: self.id,
            role: self.role.clone(),
            content: self.content.clone(),
            ts: self.ts.clone(),
        }
    }
}

#[verifier::external_type_specification]
#[verifier::external_body]
pub struct ExConnection(rusqlite::Connection);

#[verifier::external_type_specification]
#[verifier::external_body]
pub struct ExSqliteError(rusqlite::Error);

/// The rows of the `memory` table of this connection's database, in ascending
/// `id` order, each row as (id, role, content, ts).
pub uninterp spec fn db_log(conn: rusqlite::Connection) -> Seq<TurnRec>;

/// Relies on rusqlite::Connection::open, Connection::execute_batch and
/// Connection::query_row: opens or creates the database file, creates the
/// log table and index if they are absent, and then validates the whole
/// schema. The catalog must hold exactly three objects: the `memory` table,
/// whose stored CREATE text is compared verbatim against the expected
/// declaration; the expected index; and the `sqlite_sequence` table that
/// AUTOINCREMENT maintains. Nothing else may be present, so no trigger or
/// view of a pre-existing file can alter what the other statements do, and
/// the verbatim text guarantees a real INTEGER PRIMARY KEY AUTOINCREMENT id
/// column: ids are unique, and the rows in ascending id order have strictly
/// increasing ids.
#[verifier::external_body]
fn open_log_db(path: &str) -> (r: Option<rusqlite::Connection>)
    ensures
        r matches Some(conn) ==> ids_increasing(db_log(conn)),
{
    let conn = rusqlite::Connection::open(path).ok()?;
    conn.execute_batch(
        "CREATE TABLE IF NOT EXISTS memory(id INTEGER PRIMARY KEY AUTOINCREMENT, role TEXT NOT NULL, content TEXT NOT NULL, ts TEXT NOT NULL);
         CREATE INDEX IF NOT EXISTS idx_memory_ts ON memory(ts);",
    ).ok()?;
    let schema_ok: bool = conn.query_row(
        "SELECT (SELECT count(*) FROM sqlite_master) = 3
            AND (SELECT count(*) FROM sqlite_master WHERE type = 'table' AND name = 'memory'
                 AND sql = 'CREATE TABLE memory(id INTEGER PRIMARY KEY AUTOINCREMENT, role TEXT NOT NULL, content TEXT NOT NULL, ts TEXT NOT NULL)') = 1
            AND (SELECT count(*) FROM sqlite_master WHERE type = 'index' AND name = 'idx_memory_ts'
                 AND sql = 'CREATE INDEX idx_memory_ts ON memory(ts)') = 1
            AND (SELECT count(*) FROM sqlite_master WHERE type = 'table'
                 AND name = 'sqlite_sequence') = 1",
        (),
        |row| row.get(0),
    ).ok()?;
    if schema_ok { Some(conn) } else { None }
}

/// Relies on rusqlite::Connection::execute with an INSERT statement, on a
/// connection whose schema open_log_db validated (the exact table, no
/// triggers): appends exactly one row, and the AUTOINCREMENT id column
/// assigns it an id strictly larger than any id ever used in the table. A
/// failed statement is rolled back and leaves the table unchanged.
#[verifier::external_body]
fn insert_row(
    conn: &mut rusqlite::Connection,
    role: &str,
    content: &str,
    ts: &str,
) -> (r: Result<(), rusqlite::Error>)
    ensures
        r is Ok ==> ({
            let before = db_log(*old(conn));
            let after = db_log(*final(conn));
            &&& after.len() == before.len() + 1
            &&& after.subrange(0, before.len() as int) == before
            &&& after.last().1 == role@
            &&& after.last().2 == content@
            &&& after.last().3 == ts@
            &&& forall|i: int| 0 <= i < before.len() ==> before[i].0 < after.last().0
        }),
        r is Err ==> db_log(*final(conn)) == db_log(*old(conn)),
{
    conn.execute(
        "INSERT INTO memory (role, content, ts) VALUES (?1, ?2, ?3)",
        (role, content, ts),
    )?;
    Ok(())
}

/// Relies on rusqlite::Connection::prepare and Statement::query_map with
/// "SELECT ... ORDER BY id DESC LIMIT ?": returns at most `limit` rows, the
/// most recent (largest id) first; the row mapper only moves the four column
/// values into a ChatTurn.
#[verifier::external_body]
fn select_recent_desc(
    conn: &rusqlite::Connection,
    limit: usize,
) -> (r: Result<Vec<ChatTurn>, rusqlite::Error>)
    ensures
        r matches Ok(v) ==> ({
            let log = db_log(*conn);
            let k = if limit as int <= log.len() { limit as int } else { log.len() as int };
            &&& v@.len() == k
            &&& forall|i: int| 0 <= i < k ==> v@[i]@ == log[log.len() - 1 - i]
        }),
{
    let mut stmt =
        conn.prepare("SELECT id, role, content, ts FROM memory ORDER BY id DESC LIMIT ?")?;
    let rows = stmt.query_map((limit as i64,), |row| {
        Ok(ChatTurn { id: row.get(0)?, role: row.get(1)?, content: row.get(2)?, ts: row.get(3)? })
    })?;
    rows.collect()
}

/// Relies on rusqlite::Connection::execute with "DELETE FROM memory", on a
/// connection whose schema open_log_db validated (the exact table, no
/// triggers): removes every row; a failed statement is rolled back and
/// leaves the table unchanged.
#[verifier::external_body]
fn delete_all(conn: &mut rusqlite::Connection) -> (r: Result<(), rusqlite::Error>)
    ensures
        r is Ok ==> db_log(*final(conn)).len() == 0,
        r is Err ==> db_log(*final(conn)) == db_log(*old(conn)),
{
    conn.execute("DELETE FROM memory", ())?;
    Ok(())
}

/// Relies on chrono's From<SystemTime> conversion and DateTime::to_rfc3339:
/// the current time rendered as an RFC 3339 timestamp. The conversion handles
/// clocks set before the Unix epoch (where Utc::now would panic); it is total
/// for any clock within chrono's representable range of years. Nothing is
/// assumed of the value.
#[verifier::external_body]
fn now_rfc3339() -> (r: String) {
    let now: chrono::DateTime<chrono::Utc> = std::time::SystemTime::now().into();
    now.to_rfc3339()
}

/// The durable conversation store, backed by one SQLite database.
pub struct Memory {
    conn: rusqlite::Connection,
}

impl View for Memory {
    type V = Seq<TurnRec>;

    closed spec fn view(&self) -> Seq<TurnRec> {
        db_log(self.conn)
    }
}

impl Memory {
    /// The store's invariant: the log's ids are strictly increasing, so id
    /// order, insertion order and chronological order coincide.
    pub open spec fn inv(&self) -> bool {
        ids_increasing(self@)
    }

    /// Opens or initializes durable storage at `path`, creating the schema if
    /// it is absent; a location that is unwritable, or that holds a database
    /// whose log table does not match the expected schema, is rejected.
    pub fn open(path: &str) -> (r: Result<Memory, AgentError>)
        ensures
            r matches Ok(m) ==> m.inv(),
            r matches Err(e) ==> e == AgentError::StorageFailure,
    {
        match open_log_db(path) {
            Some(conn) => Ok(Memory { conn }),
            None => Err(AgentError::StorageFailure),
        }
    }

    /// Inserts one new turn with a fresh strictly larger id and the current
    /// timestamp. On failure the log is unchanged.
    pub fn append(&mut self, role: &str, content: &str) -> (r: Result<(), AgentError>)
        requires
            old(self).inv(),
        ensures
            final(self).inv(),
            r is Ok ==> ({
                let before = old(self)@;
                let after = final(self)@;
                &&& after.len() == before.len() + 1
                &&& after.subrange(0, before.len() as int) == before
                &&& after.last().1 == role@
                &&& after.last().2 == content@
                &&& forall|i: int| 0 <= i < before.len() ==> before[i].0 < after.last().0
            }),
            r is Err ==> final(self)@ == old(self)@ && r == Err::<(), AgentError>(
                AgentError::StorageFailure,
            ),
    {
        let ts = now_rfc3339();
        match insert_row(&mut self.conn, role, content, ts.as_str()) {
            Ok(()) => {
                proof {
                    lemma_push_keeps_increasing(old(self)@, self@);
                }
                Ok(())
            },
            Err(_) => Err(AgentError::StorageFailure),
        }
    }

    /// Returns up to `limit` most recent turns, oldest first; fewer if the log
    /// holds fewer; none when `limit` is zero. The returned ids are strictly
    /// increasing, and the whole log comes back when `limit` covers it.
    pub fn last_turns(&self, limit: usize) -> (r: Result<Vec<ChatTurn>, AgentError>)
        requires
            self.inv(),
        ensures
            r matches Ok(v) ==> ({
                &&& turns_view(v@) == recent(self@, limit as int)
                &&& v@.len() <= limit
                &&& forall|i: int, j: int|
                    0 <= i < j < v@.len() ==> v@[i]@.0 < v@[j]@.0
                &&& limit >= self@.len() ==> turns_view(v@) == self@
            }),
            r matches Err(e) ==> e == AgentError::StorageFailure,
    {
        let mut desc = match select_recent_desc(&self.conn, limit) {
            Ok(v) => v,
            Err(_) => { return Err(AgentError::StorageFailure); },
        };
        let ghost orig = desc@;
        let ghost log = self@;
        let ghost k = orig.len() as int;
        let mut out: Vec<ChatTurn> = Vec::new();
        while desc.len() > 0
            invariant
                k == orig.len(),
                out@.len() + desc@.len() == k,
                desc@ == orig.subrange(0, desc@.len() as int),
                forall|j: int| 0 <= j < out@.len() ==> out@[j] == orig[k - 1 - j],
            decreases desc@.len(),
        {
            let ghost pre = desc@;
            let t = desc.pop().unwrap();
            proof {
                assert(orig.subrange(0, pre.len() as int)[pre.len() - 1] == orig[pre.len() - 1]);
                assert(t == orig[desc@.len() as int]);
            }
            out.push(t);
        }
        proof {
            let res = recent(log, limit as int);
            assert(forall|j: int| 0 <= j < k ==> orig[j]@ == log[log.len() - 1 - j]);
            assert(res.len() == k);
            assert(forall|j: int| 0 <= j < k ==> res[j] == log[log.len() - k + j]);
            assert(turns_view(out@) =~= res);
        }
        Ok(out)
    }

    /// Deletes every turn; irreversible. On failure the log is unchanged.
    pub fn clear(&mut self) -> (r: Result<(), AgentError>)
        requires
            old(self).inv(),
        ensures
            final(self).inv(),
            r is Ok ==> final(self)@.len() == 0,
            r is Err ==> final(self)@ == old(self)@ && r == Err::<(), AgentError>(
                AgentError::StorageFailure,
            ),
    {
        match delete_all(&mut self.conn) {
            Ok(()) => Ok(()),
            Err(_) => Err(AgentError::StorageFailure),
        }
    }
}

/// Law: appending a turn whose id is larger than every id in the log keeps
/// the ids strictly increasing, and every nonempty recent window read
/// afterwards ends with exactly that turn, whose id is larger than every id
/// that was in the log before.
pub proof fn lemma_append_then_last_turns(log: Seq<TurnRec>, t: TurnRec, n: int)
    requires
        ids_increasing(log),
        forall|i: int| 0 <= i < log.len() ==> log[i].0 < t.0,
        n >= 1,
    ensures
        ids_increasing(log.push(t)),
        recent(log.push(t), n).len() >= 1,
        recent(log.push(t), n).last() == t,
        forall|i: int| 0 <= i < log.len() ==> log[i].0 < recent(log.push(t), n).last().0,
{
    let p = log.push(t);
    assert(p.subrange(0, log.len() as int) =~= log);
    lemma_push_keeps_increasing(log, p);
    if n >= p.len() {
        assert(recent(p, n) == p);
        assert(p.last() == t);
    } else {
        let r = p.skip(p.len() - n);
        assert(r.len() == n);
        assert(r.last() == p[p.len() - n + (n - 1)]);
        assert(r.last() == t);
    }
}

/// Law: after a clear, a recent window of any size is empty.
pub proof fn lemma_clear_then_last_turns(n: int)
    ensures
        recent(Seq::<TurnRec>::empty(), n) == Seq::<TurnRec>::empty(),
{
}

/// A log extended at its end by one record with an id larger than every
/// earlier id is still strictly increasing.
proof fn lemma_push_keeps_increasing(before: Seq<TurnRec>, after: Seq<TurnRec>)
    requires
        ids_increasing(before),
        after.len() == before.len() + 1,
        after.subrange(0, before.len() as int) == before,
        forall|i: int| 0 <= i < before.len() ==> before[i].0 < after.last().0,
    ensures
        ids_increasing(after),
{
    assert forall|i: int, j: int| 0 <= i < j < after.len() implies after[i].0 < after[j].0 by {
        if j < before.len() {
            assert(after[i] == before[i]);
            assert(after[j] == before[j]);
        } else {
            assert(after[i] == before[i]);
            assert(after[j] == after.last());
        }
    }
}

} // verus!
