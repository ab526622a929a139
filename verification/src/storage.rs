//! The persistent store: two key-value tables in one SQLite database, one
//! mapping free-text queries to the canonical page URL they resolved to
//! (never expiring, overwritten on re-resolution), one holding per-room
//! remote-session credentials.
use vstd::prelude::*;

verus! {

use vstd::map_lib::*;

/// A database operation failed; the caller treats it as a cache miss or
/// reports it, never as fatal.
#[derive(Clone, Copy, Debug, PartialEq, Eq, Structural)]
pub enum StorageError {
    Database,
}

/// Remote-session credentials for one room.
#[derive(Clone, Debug, PartialEq, Eq)]
pub struct Credentials {
    /// Room these credentials are used in.
    pub guild_id: u64,
    pub username: String,
    pub password: String,
}

#[verifier::external_type_specification]
#[verifier::external_body]
pub struct ExConnection(rusqlite::Connection);

/// What the query table of a database connection holds: each free-text query
/// mapped to the canonical page URL it last resolved to.
pub uninterp spec fn query_map_of(c: rusqlite::Connection) -> Map<Seq<char>, Seq<char>>;

/// What the credentials table of a database connection holds: each room
/// mapped to its username and password pair.
pub uninterp spec fn credentials_map_of(c: rusqlite::Connection) -> Map<
    u64,
    (Seq<char>, Seq<char>),
>;

/// Relies on `rusqlite::Connection::open`: opens (creating if missing) the
/// database at `path`, with `:memory:` giving a fresh in-memory database.
/// What the tables hold afterwards depends on what is on disk, so nothing is
/// claimed of the two table views.
#[verifier::external_body]
fn open_db(path: &str) -> (r: Result<rusqlite::Connection, StorageError>)
{
    rusqlite::Connection::open(path).map_err(|_| StorageError::Database)
}

/// Relies on `rusqlite::Connection::execute` running
/// `CREATE TABLE IF NOT EXISTS` for the credentials table: existing rows are
/// kept and the other table is untouched.
#[verifier::external_body]
fn init_credentials_table(conn: &mut rusqlite::Connection) -> (r: Result<(), StorageError>)
    ensures
        r is Ok ==> query_map_of(*final(conn)) == query_map_of(*old(conn)),
{
    (&*conn).execute(
        "CREATE TABLE IF NOT EXISTS spotify_credentials (
            guild_id INTEGER PRIMARY KEY,
            username TEXT,
            password TEXT
        )",
        (),
    ).map(|_| ()).map_err(|_| StorageError::Database)
}

/// Relies on `rusqlite::Connection::execute` running
/// `CREATE TABLE IF NOT EXISTS` for the query table: existing rows are kept
/// and the other table is untouched.
#[verifier::external_body]
fn init_queries_table(conn: &mut rusqlite::Connection) -> (r: Result<(), StorageError>)
    ensures
        r is Ok ==> credentials_map_of(*final(conn)) == credentials_map_of(*old(conn)),
{
    (&*conn).execute(
        "CREATE TABLE IF NOT EXISTS yt_dlp_queries (
            query TEXT NOT NULL PRIMARY KEY,
            webpage_url TEXT NOT NULL
        )",
        (),
    ).map(|_| ()).map_err(|_| StorageError::Database)
}

/// Relies on `rusqlite::Connection::execute` running `INSERT OR REPLACE` on
/// the query table: afterwards the row keyed by `query` holds `url`, other
/// rows and the credentials table are untouched (SQLite upsert semantics).
/// Statements are atomic, so a failed one leaves both tables as they were.
#[verifier::external_body]
fn exec_save_query(conn: &mut rusqlite::Connection, query: &str, url: &str) -> (r: Result<
    (),
    StorageError,
>)
    ensures
        r is Ok ==> query_map_of(*final(conn)) == query_map_of(*old(conn)).insert(query@, url@),
        r is Err ==> query_map_of(*final(conn)) == query_map_of(*old(conn)),
        credentials_map_of(*final(conn)) == credentials_map_of(*old(conn)),
{
    (&*conn).execute(
        "INSERT OR REPLACE INTO yt_dlp_queries (query, webpage_url) VALUES (?1, ?2)",
        (query, url),
    ).map(|_| ()).map_err(|_| StorageError::Database)
}

/// Relies on `rusqlite::Connection::query_row` running a `SELECT` on the
/// query table by exact key: the stored URL when the row exists, `None` when
/// the query reports no row.
#[verifier::external_body]
fn exec_load_query(conn: &rusqlite::Connection, query: &str) -> (r: Result<
    Option<String>,
    StorageError,
>)
    ensures
        r matches Ok(v) ==> ((v is Some <==> query_map_of(*conn).contains_key(query@)) && (
        v is Some ==> v.unwrap()@ == query_map_of(*conn)[query@])),
{
    match conn.query_row(
        "SELECT webpage_url FROM yt_dlp_queries WHERE query = ?1",
        [query],
        |row| row.get(0),
    ) {
        Ok(url) => Ok(Some(url)),
        Err(rusqlite::Error::QueryReturnedNoRows) => Ok(None),
        Err(_) => Err(StorageError::Database),
    }
}

/// Relies on `rusqlite::Statement::query_map` running
/// `SELECT DISTINCT webpage_url` on the query table: the stored URLs, each
/// exactly once, in whatever order the database walks them.
#[verifier::external_body]
fn exec_load_all_queries(conn: &rusqlite::Connection) -> (r: Result<Vec<String>, StorageError>)
    ensures
        r matches Ok(urls) ==> (forall|v: Seq<char>|
            query_map_of(*conn).values().contains(v) <==> (exists|i: int|
                0 <= i < urls@.len() && #[trigger] urls@[i]@ == v)),
        r matches Ok(urls) ==> (forall|i: int, j: int|
            0 <= i < j < urls@.len() ==> #[trigger] urls@[i]@ != #[trigger] urls@[j]@),
{
    let inner = || -> rusqlite::Result<Vec<String>> {
        let mut stmt = conn.prepare("SELECT DISTINCT webpage_url FROM yt_dlp_queries")?;
        let rows = stmt.query_map([], |row| row.get(0))?;
        rows.collect()
    };
    inner().map_err(|_| StorageError::Database)
}

/// Relies on `rusqlite::Connection::execute` running `INSERT OR REPLACE` on
/// the credentials table: afterwards the row keyed by the room holds the
/// pair, other rows and the query table are untouched.
#[verifier::external_body]
fn exec_save_credentials(
    conn: &mut rusqlite::Connection,
    guild_id: u64,
    username: &str,
    password: &str,
) -> (r: Result<(), StorageError>)
    ensures
        r is Ok ==> credentials_map_of(*final(conn)) == credentials_map_of(*old(conn)).insert(
            guild_id,
            (username@, password@),
        ),
        r is Err ==> credentials_map_of(*final(conn)) == credentials_map_of(*old(conn)),
        query_map_of(*final(conn)) == query_map_of(*old(conn)),
{
    (&*conn).execute(
        "INSERT OR REPLACE INTO spotify_credentials (guild_id, username, password)
            VALUES (?1, ?2, ?3)",
        (guild_id as i64, username, password),
    ).map(|_| ()).map_err(|_| StorageError::Database)
}

/// Relies on `rusqlite::Connection::query_row` running a `SELECT` on the
/// credentials table by room: the stored pair when the row exists, `None`
/// when the query reports no row.
#[verifier::external_body]
fn exec_load_credentials(conn: &rusqlite::Connection, guild_id: u64) -> (r: Result<
    Option<(String, String)>,
    StorageError,
>)
    ensures
        r matches Ok(v) ==> ((v is Some <==> credentials_map_of(*conn).contains_key(guild_id))
            && (v is Some ==> (v.unwrap().0@, v.unwrap().1@)
            == credentials_map_of(*conn)[guild_id])),
{
    match conn.query_row(
        "SELECT username, password FROM spotify_credentials WHERE guild_id = ?1",
        [guild_id as i64],
        |row| Ok((row.get(0)?, row.get(1)?)),
    ) {
        Ok(pair) => Ok(Some(pair)),
        Err(rusqlite::Error::QueryReturnedNoRows) => Ok(None),
        Err(_) => Err(StorageError::Database),
    }
}

/// The persistent store around one database connection.
pub struct Storage {
    conn: rusqlite::Connection,
}

impl Storage {
    /// The query table: free-text query to canonical page URL.
    pub closed spec fn queries(&self) -> Map<Seq<char>, Seq<char>> {
        query_map_of(self.conn)
    }

    /// The credentials table: room to username and password.
    pub closed spec fn credentials(&self) -> Map<u64, (Seq<char>, Seq<char>)> {
        credentials_map_of(self.conn)
    }

    /// Opens (creating as needed) the database at `path` and makes sure both
    /// tables exist; `:memory:` gives a fresh in-memory store.
    pub fn new(path: &str) -> (r: Result<Storage, StorageError>) {
        let mut conn = match open_db(path) {
            Ok(conn) => conn,
            Err(e) => {
                return Err(e);
            },
        };
        if let Err(e) = init_credentials_table(&mut conn) {
            return Err(e);
        }
        if let Err(e) = init_queries_table(&mut conn) {
            return Err(e);
        }
        Ok(Storage { conn })
    }

    /// Records which canonical URL a query resolved to, overwriting any
    /// earlier record for the same query (last write wins, no merge).
    pub fn save(&mut self, query: &str, webpage_url: &str) -> (r: Result<(), StorageError>)
        ensures
            r is Ok ==> final(self).queries() == old(self).queries().insert(
                query@,
                webpage_url@,
            ),
            r is Err ==> final(self).queries() == old(self).queries(),
            final(self).credentials() == old(self).credentials(),
    {
        exec_save_query(&mut self.conn, query, webpage_url)
    }

    /// The canonical URL recorded for a query, if any; a database error reads
    /// as a miss.
    pub fn load(&self, query: &str) -> (r: Option<String>)
        ensures
            r is Some ==> self.queries().contains_key(query@) && r.unwrap()@
                == self.queries()[query@],
    {
        match exec_load_query(&self.conn, query) {
            Ok(found) => found,
            Err(_) => None,
        }
    }

    /// Every recorded canonical URL, each exactly once.
    pub fn load_all(&self) -> (r: Result<Vec<String>, StorageError>)
        ensures
            r matches Ok(urls) ==> (forall|v: Seq<char>|
                self.queries().values().contains(v) <==> (exists|i: int|
                    0 <= i < urls@.len() && #[trigger] urls@[i]@ == v)),
            r matches Ok(urls) ==> (forall|i: int, j: int|
                0 <= i < j < urls@.len() ==> #[trigger] urls@[i]@ != #[trigger] urls@[j]@),
    {
        exec_load_all_queries(&self.conn)
    }

    /// Stores a room's credentials, overwriting any earlier pair.
    pub fn save_credentials(&mut self, credentials: &Credentials) -> (r: Result<(), StorageError>)
        ensures
            r is Ok ==> final(self).credentials() == old(self).credentials().insert(
                credentials.guild_id,
                (credentials.username@, credentials.password@),
            ),
            r is Err ==> final(self).credentials() == old(self).credentials(),
            final(self).queries() == old(self).queries(),
    {
        exec_save_credentials(
            &mut self.conn,
            credentials.guild_id,
            credentials.username.as_str(),
            credentials.password.as_str(),
        )
    }

    /// The credentials stored for a room; an absent row is an error to the
    /// caller, which asks the user to connect first.
    pub fn load_credentials(&self, guild_id: u64) -> (r: Result<Credentials, StorageError>)
        ensures
            r matches Ok(c) ==> self.credentials().contains_key(guild_id) && c.guild_id == guild_id
                && (c.username@, c.password@) == self.credentials()[guild_id],
    {
        match exec_load_credentials(&self.conn, guild_id) {
            Ok(Some((username, password))) => Ok(Credentials { guild_id, username, password }),
            Ok(None) => Err(StorageError::Database),
            Err(e) => Err(e),
        }
    }
}

/// Saving `(q, a)` and then `(q, b)` overwrites rather than accumulates: the
/// query now maps to `b`, the stored values contain `b`, and — as long as no
/// other query had resolved to `a` — no longer contain `a`.
pub proof fn lemma_query_cache_overwrite(
    m: Map<Seq<char>, Seq<char>>,
    q: Seq<char>,
    a: Seq<char>,
    b: Seq<char>,
)
    requires
        a != b,
        !m.values().contains(a),
    ensures
        m.insert(q, a).insert(q, b) == m.insert(q, b),
        m.insert(q, a).insert(q, b)[q] == b,
        m.insert(q, a).insert(q, b).values().contains(b),
        !m.insert(q, a).insert(q, b).values().contains(a),
{
    let m2 = m.insert(q, a).insert(q, b);
    assert(m2 =~= m.insert(q, b));
    assert(m2.contains_key(q) && m2[q] == b);
    assert(m2.contains_value(b));
    assert forall|k: Seq<char>| m2.contains_key(k) implies m2[k] != a by {
        if k == q {
        } else {
            assert(m.contains_key(k) && m2[k] == m[k]);
            assert(!m.contains_value(a));
        }
    }
    assert(!m2.contains_value(a));
}

} // verus!
