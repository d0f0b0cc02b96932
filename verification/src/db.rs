//! The durable tenant catalog: an embedded SQLite database holding one
//! row per tenant and a small key/value table for the schema version and
//! the allocator cursor.
//!
//! The row codec — how a tenant becomes text columns and comes back — is
//! verified, including the round trip; the SQL statements themselves run
//! behind trusted wrappers over the rusqlite crate.

use rusqlite::OptionalExtension;
use vstd::prelude::*;

use crate::clock::{rfc3339_of, rfc3339_parse_of, ts_in_range};
use crate::errors::CoreError;
use crate::tenant::{
    spec_status_of_str, spec_status_str, spec_tier_of_str, spec_tier_str, Tenant, TenantStatus,
    TenantView,
};

verus! {

broadcast use vstd::string::group_string_axioms;

// ---------------------------------------------------------------------------
// Outside types
// ---------------------------------------------------------------------------

#[verifier::external_type_specification]
#[verifier::external_body]
pub struct ExConnection(rusqlite::Connection);

#[verifier::external_type_specification]
#[verifier::external_body]
pub struct ExSqlError(rusqlite::Error);

// ---------------------------------------------------------------------------
// Channel list codec (JSON)
// ---------------------------------------------------------------------------

/// The JSON rendering of a list of strings.
pub uninterp spec fn json_strings_of(v: Seq<Seq<char>>) -> Seq<char>;

/// The list of strings a JSON text denotes, if any.
pub uninterp spec fn json_strings_parse_of(s: Seq<char>) -> Option<Seq<Seq<char>>>;

/// Relies on `serde_json::to_string` for `Vec<String>`: renders the list
/// as a JSON array, which `serde_json::from_str` reads back unchanged
/// (second clause). Serialization of strings cannot fail.
#[verifier::external_body]
fn json_encode_strings(v: &Vec<String>) -> (r: String)
    ensures
        r@ == json_strings_of(v.deep_view()),
        json_strings_parse_of(r@) == Some(v.deep_view()),
{
    serde_json::to_string(v).unwrap()
}

/// Relies on `serde_json::from_str` for `Vec<String>`: the list a JSON
/// text denotes.
#[verifier::external_body]
fn json_parse_strings(s: &str) -> (r: Option<Vec<String>>)
    ensures
        match r {
            Some(v) => json_strings_parse_of(s@) == Some(v.deep_view()),
            None => json_strings_parse_of(s@) is None,
        },
{
    serde_json::from_str::<Vec<String>>(s).ok()
}

// ---------------------------------------------------------------------------
// The row codec
// ---------------------------------------------------------------------------

/// A tenant as stored: every column in its textual encoding.
pub struct TenantRow {
    pub id: String,
    pub tier: String,
    pub status: String,
    pub vm_ip: String,
    pub gateway_ip: String,
    pub tap_device: String,
    pub socket_path: String,
    pub data_dir: String,
    pub vm_pid: Option<u32>,
    pub channels: String,
    pub skip_tool_approval: i64,
    pub created_at: String,
}

/// Abstract value of a stored row.
pub struct TenantRowView {
    pub id: Seq<char>,
    pub tier: Seq<char>,
    pub status: Seq<char>,
    pub vm_ip: Seq<char>,
    pub gateway_ip: Seq<char>,
    pub tap_device: Seq<char>,
    pub socket_path: Seq<char>,
    pub data_dir: Seq<char>,
    pub vm_pid: Option<u32>,
    pub channels: Seq<char>,
    pub skip_tool_approval: i64,
    pub created_at: Seq<char>,
}

impl View for TenantRow {
    type V = TenantRowView;

    open spec fn view(&self) -> TenantRowView {
        TenantRowView {
            id: self.id@,
            tier: self.tier@,
            status: self.status@,
            vm_ip: self.vm_ip@,
            gateway_ip: self.gateway_ip@,
            tap_device: self.tap_device@,
            socket_path: self.socket_path@,
            data_dir: self.data_dir@,
            vm_pid: self.vm_pid,
            channels: self.channels@,
            skip_tool_approval: self.skip_tool_approval,
            created_at: self.created_at@,
        }
    }
}

/// The row a tenant is stored as.
pub open spec fn spec_encode_tenant(t: TenantView) -> TenantRowView {
    TenantRowView {
        id: t.id,
        tier: spec_tier_str(t.tier),
        status: spec_status_str(t.status),
        vm_ip: t.vm_ip,
        gateway_ip: t.gateway_ip,
        tap_device: t.tap_device,
        socket_path: t.socket_path,
        data_dir: t.data_dir,
        vm_pid: t.vm_pid,
        channels: json_strings_of(t.channels),
        skip_tool_approval: if t.skip_tool_approval {
            1
        } else {
            0
        },
        created_at: rfc3339_of(t.created_at),
    }
}

/// The tenant a stored row denotes. Unknown tier or status names fall
/// back to `Free` and `Failed`; an unreadable channel list becomes
/// empty; an unreadable timestamp becomes `fallback_ts`.
pub open spec fn spec_decode_row(row: TenantRowView, fallback_ts: i64) -> TenantView {
    TenantView {
        id: row.id,
        tier: spec_tier_of_str(row.tier),
        status: spec_status_of_str(row.status),
        vm_ip: row.vm_ip,
        gateway_ip: row.gateway_ip,
        tap_device: row.tap_device,
        socket_path: row.socket_path,
        data_dir: row.data_dir,
        vm_pid: row.vm_pid,
        channels: match json_strings_parse_of(row.channels) {
            Some(c) => c,
            None => Seq::empty(),
        },
        created_at: match rfc3339_parse_of(row.created_at) {
            Some(ts) => ts,
            None => fallback_ts,
        },
        skip_tool_approval: row.skip_tool_approval != 0,
    }
}

/// Encodes a tenant as its stored row.
///
/// The second clause is the store round trip: decoding the encoded row
/// gives the tenant back exactly, whatever fallback timestamp the
/// decoder would use.
pub fn encode_tenant(t: &Tenant) -> (r: TenantRow)
    requires
        ts_in_range(t.created_at),
    ensures
        r@ == spec_encode_tenant(t@),
        forall|fallback_ts: i64| spec_decode_row(r@, fallback_ts) == t@,
{
    let r = TenantRow {
        id: t.id.clone(),
        tier: String::from_str(crate::tenant::tier_to_str(&t.tier)),
        status: String::from_str(crate::tenant::status_to_str(&t.status)),
        vm_ip: t.vm_ip.clone(),
        gateway_ip: t.gateway_ip.clone(),
        tap_device: t.tap_device.clone(),
        socket_path: t.socket_path.clone(),
        data_dir: t.data_dir.clone(),
        vm_pid: t.vm_pid,
        channels: json_encode_strings(&t.channels),
        skip_tool_approval: if t.skip_tool_approval {
            1
        } else {
            0
        },
        created_at: crate::clock::format_rfc3339(t.created_at),
    };
    proof {
        crate::tenant::lemma_enum_str_round_trip(t.tier, t.status);
        assert forall|fallback_ts: i64| spec_decode_row(r@, fallback_ts) == t@ by {
            assert(spec_decode_row(r@, fallback_ts).channels == t@.channels);
        }
    }
    r
}

/// Decodes one stored row, substituting `fallback_ts` for an unreadable
/// timestamp.
pub fn decode_tenant_row(row: &TenantRow, fallback_ts: i64) -> (r: Tenant)
    ensures
        r@ == spec_decode_row(row@, fallback_ts),
{
    let channels: Vec<String> = match json_parse_strings(row.channels.as_str()) {
        Some(c) => c,
        None => Vec::new(),
    };
    let created_at: i64 = match crate::clock::parse_rfc3339(row.created_at.as_str()) {
        Some(ts) => ts,
        None => fallback_ts,
    };
    proof {
        if json_strings_parse_of(row.channels@) is None {
            assert(channels.deep_view() =~= Seq::<Seq<char>>::empty());
        }
    }
    Tenant {
        id: row.id.clone(),
        tier: crate::tenant::str_to_tier(row.tier.as_str()),
        status: crate::tenant::str_to_status(row.status.as_str()),
        vm_ip: row.vm_ip.clone(),
        gateway_ip: row.gateway_ip.clone(),
        tap_device: row.tap_device.clone(),
        socket_path: row.socket_path.clone(),
        data_dir: row.data_dir.clone(),
        vm_pid: row.vm_pid,
        channels,
        created_at,
        skip_tool_approval: row.skip_tool_approval != 0,
    }
}

/// Decodes every row of a loaded catalog.
pub fn decode_tenant_rows(rows: &Vec<TenantRow>, fallback_ts: i64) -> (r: Vec<Tenant>)
    ensures
        r@.len() == rows@.len(),
        forall|i: int|
            0 <= i < r@.len() ==> (#[trigger] r@[i])@ == spec_decode_row(rows@[i]@, fallback_ts),
{
    let mut r: Vec<Tenant> = Vec::new();
    let mut i: usize = 0;
    while i < rows.len()
        invariant
            0 <= i <= rows@.len(),
            r@.len() == i,
            forall|k: int|
                0 <= k < i ==> (#[trigger] r@[k])@ == spec_decode_row(rows@[k]@, fallback_ts),
        decreases rows@.len() - i,
    {
        let t = decode_tenant_row(&rows[i], fallback_ts);
        r.push(t);
        i = i + 1;
    }
    r
}

// ---------------------------------------------------------------------------
// SQL wrappers
// ---------------------------------------------------------------------------

/// Relies on `rusqlite::Connection::open`: opens (or creates) the
/// database file.
#[verifier::external_body]
fn conn_open(path: &str) -> Result<rusqlite::Connection, rusqlite::Error> {
    rusqlite::Connection::open(path)
}

/// Relies on `rusqlite::Connection::execute_batch`: runs statements that
/// take no parameters (pragmas and schema DDL).
#[verifier::external_body]
fn conn_execute_batch(conn: &rusqlite::Connection, sql: &str) -> Result<(), rusqlite::Error> {
    conn.execute_batch(sql)
}

/// Relies on `rusqlite::Connection::query_row` and `rusqlite::Row::get`:
/// reads the value stored under a key in `db_meta`, if any.
#[verifier::external_body]
fn meta_get(conn: &rusqlite::Connection, key: &str) -> Result<
    Option<String>,
    rusqlite::Error,
> {
    conn.query_row("SELECT value FROM db_meta WHERE key = ?1", [key], |row| row.get(0)).optional()
}

/// Relies on `rusqlite::Connection::execute`: stores a value under a key
/// in `db_meta`, replacing any previous value.
#[verifier::external_body]
fn meta_set(conn: &rusqlite::Connection, key: &str, value: &str) -> Result<(), rusqlite::Error> {
    conn.execute(
        "INSERT INTO db_meta(key, value) VALUES(?1, ?2) ON CONFLICT(key) DO UPDATE SET value = excluded.value",
        [key, value],
    )?;
    Ok(())
}

/// Relies on `rusqlite::Connection::execute`: inserts one tenant row;
/// fails if the id exists (primary key).
#[verifier::external_body]
fn row_insert(conn: &rusqlite::Connection, row: &TenantRow) -> Result<(), rusqlite::Error> {
    let params: [&dyn rusqlite::ToSql; 12] = [
        &row.id, &row.tier, &row.status, &row.vm_ip, &row.gateway_ip, &row.tap_device,
        &row.socket_path, &row.data_dir, &row.vm_pid, &row.channels, &row.skip_tool_approval,
        &row.created_at,
    ];
    conn.execute(
        "INSERT INTO tenants (id, tier, status, vm_ip, gateway_ip, tap_device, socket_path, data_dir, vm_pid, channels, skip_tool_approval, created_at) VALUES (?1, ?2, ?3, ?4, ?5, ?6, ?7, ?8, ?9, ?10, ?11, ?12)",
        &params[..],
    )?;
    Ok(())
}

/// Relies on `rusqlite::Connection::execute`: updates the status and PID
/// columns of one tenant row.
#[verifier::external_body]
fn row_update_status(
    conn: &rusqlite::Connection,
    id: &str,
    status: &str,
    vm_pid: Option<u32>,
) -> Result<(), rusqlite::Error> {
    let params: [&dyn rusqlite::ToSql; 3] = [&status, &vm_pid, &id];
    conn.execute("UPDATE tenants SET status = ?1, vm_pid = ?2 WHERE id = ?3", &params[..])?;
    Ok(())
}

/// Relies on `rusqlite::Connection::execute`: deletes one tenant row.
#[verifier::external_body]
fn row_delete(conn: &rusqlite::Connection, id: &str) -> Result<(), rusqlite::Error> {
    conn.execute("DELETE FROM tenants WHERE id = ?1", [id])?;
    Ok(())
}

/// Relies on `rusqlite::Statement::query_map` and `rusqlite::Row::get`:
/// reads every tenant row, each column converted to its plain value.
#[verifier::external_body]
fn rows_select(conn: &rusqlite::Connection) -> Result<Vec<TenantRow>, rusqlite::Error> {
    let mut stmt = conn.prepare(
        "SELECT id, tier, status, vm_ip, gateway_ip, tap_device, socket_path, data_dir, vm_pid, channels, skip_tool_approval, created_at FROM tenants",
    )?;
    let rows = stmt.query_map([], |r| {
        Ok(TenantRow {
            id: r.get(0)?, tier: r.get(1)?, status: r.get(2)?, vm_ip: r.get(3)?,
            gateway_ip: r.get(4)?, tap_device: r.get(5)?, socket_path: r.get(6)?,
            data_dir: r.get(7)?, vm_pid: r.get(8)?, channels: r.get(9)?,
            skip_tool_approval: r.get(10)?, created_at: r.get(11)?,
        })
    })?;
    rows.collect()
}

// ---------------------------------------------------------------------------
// The catalog
// ---------------------------------------------------------------------------

/// The durable tenant catalog. One writer at a time; callers serialize.
pub struct Database {
    pub conn: rusqlite::Connection,
}

/// The allocator cursor a stored `db_meta` value denotes: the decimal
/// value when it parses as a `u16`, else the default cursor 1.
pub open spec fn spec_next_index_of(raw: Option<Seq<char>>) -> u16 {
    match raw {
        Some(s) => {
            if s.len() > 0 && crate::strutil::all_digits(s) && crate::strutil::dec_val(s)
                <= u16::MAX {
                crate::strutil::dec_val(s) as u16
            } else {
                1
            }
        },
        None => 1,
    }
}

/// Decodes the stored allocator cursor.
pub fn decode_next_index(raw: Option<String>) -> (r: u16)
    ensures
        r == spec_next_index_of(match raw {
            Some(s) => Some(s@),
            None => None::<Seq<char>>,
        }),
{
    match raw {
        Some(s) => {
            match crate::strutil::parse_u16(s.as_str()) {
                Some(v) => v,
                None => 1,
            }
        },
        None => 1,
    }
}

impl Database {
    /// Opens the catalog, enables write-ahead journaling and applies the
    /// schema migrations. Every failure of the underlying database
    /// surfaces as `Db`.
    pub fn new(path: &str) -> (r: Result<Database, CoreError>)
        ensures
            r matches Err(e) ==> e matches CoreError::Db,
    {
        let conn = match conn_open(path) {
            Ok(c) => c,
            Err(_) => {
                return Err(CoreError::Db);
            },
        };
        match conn_execute_batch(&conn, "PRAGMA journal_mode=WAL;") {
            Ok(_) => {},
            Err(_) => {
                return Err(CoreError::Db);
            },
        }
        match apply_schema_migrations(&conn) {
            Ok(_) => {},
            Err(e) => {
                return Err(e);
            },
        }
        Ok(Database { conn })
    }

    /// Persists a new tenant row. Fails with `Db` when the id already
    /// exists durably or the database refuses the write.
    pub fn insert_tenant(&self, tenant: &Tenant) -> (r: Result<(), CoreError>)
        requires
            ts_in_range(tenant.created_at),
        ensures
            r matches Err(e) ==> e matches CoreError::Db,
    {
        let row = encode_tenant(tenant);
        match row_insert(&self.conn, &row) {
            Ok(_) => Ok(()),
            Err(_) => Err(CoreError::Db),
        }
    }

    /// Persists a status and PID change for one tenant.
    pub fn update_tenant_status(&self, id: &str, status: TenantStatus, vm_pid: Option<u32>) -> (r:
        Result<(), CoreError>)
        ensures
            r matches Err(e) ==> e matches CoreError::Db,
    {
        let status_str = crate::tenant::status_to_str(&status);
        match row_update_status(&self.conn, id, status_str, vm_pid) {
            Ok(_) => Ok(()),
            Err(_) => Err(CoreError::Db),
        }
    }

    /// Removes one tenant row.
    pub fn delete_tenant(&self, id: &str) -> (r: Result<(), CoreError>)
        ensures
            r matches Err(e) ==> e matches CoreError::Db,
    {
        match row_delete(&self.conn, id) {
            Ok(_) => Ok(()),
            Err(_) => Err(CoreError::Db),
        }
    }

    /// Loads the full catalog. Each returned tenant is the decoding of a
    /// stored row (see `spec_decode_row`); rows with unreadable
    /// timestamps are stamped with the current time.
    pub fn load_all_tenants(&self) -> (r: Result<Vec<Tenant>, CoreError>)
        ensures
            r matches Err(e) ==> e matches CoreError::Db,
    {
        let rows = match rows_select(&self.conn) {
            Ok(rows) => rows,
            Err(_) => {
                return Err(CoreError::Db);
            },
        };
        let fallback_ts = crate::clock::now_ts();
        Ok(decode_tenant_rows(&rows, fallback_ts))
    }

    /// Reads the persisted allocator cursor; 1 when none is stored.
    pub fn get_subnet_next_index(&self) -> (r: Result<u16, CoreError>)
        ensures
            r matches Err(e) ==> e matches CoreError::Db,
    {
        match meta_get(&self.conn, "subnet_next_index") {
            Ok(raw) => Ok(decode_next_index(raw)),
            Err(_) => Err(CoreError::Db),
        }
    }

    /// Persists the allocator cursor.
    pub fn set_subnet_next_index(&self, index: u16) -> (r: Result<(), CoreError>)
        ensures
            r matches Err(e) ==> e matches CoreError::Db,
    {
        let value = crate::strutil::u64_to_string(index as u64);
        match meta_set(&self.conn, "subnet_next_index", value.as_str()) {
            Ok(_) => Ok(()),
            Err(_) => Err(CoreError::Db),
        }
    }
}

/// Creates the `db_meta` table, then brings the schema to version 1 by
/// creating the `tenants` table.
fn apply_schema_migrations(conn: &rusqlite::Connection) -> (r: Result<(), CoreError>)
    ensures
        r matches Err(e) ==> e matches CoreError::Db,
{
    match conn_execute_batch(
        conn,
        "CREATE TABLE IF NOT EXISTS db_meta (key TEXT PRIMARY KEY, value TEXT NOT NULL);",
    ) {
        Ok(_) => {},
        Err(_) => {
            return Err(CoreError::Db);
        },
    }
    let version = match meta_get(conn, "schema_version") {
        Ok(raw) => decode_schema_version(raw),
        Err(_) => {
            return Err(CoreError::Db);
        },
    };
    if version < 1 {
        match conn_execute_batch(
            conn,
            "CREATE TABLE IF NOT EXISTS tenants (\n                id TEXT PRIMARY KEY,\n                tier TEXT NOT NULL,\n                status TEXT NOT NULL,\n                vm_ip TEXT NOT NULL,\n                gateway_ip TEXT NOT NULL,\n                tap_device TEXT NOT NULL,\n                socket_path TEXT NOT NULL,\n                data_dir TEXT NOT NULL,\n                vm_pid INTEGER,\n                channels TEXT NOT NULL,\n                skip_tool_approval INTEGER NOT NULL DEFAULT 0,\n                created_at TEXT NOT NULL\n            );",
        ) {
            Ok(_) => {},
            Err(_) => {
                return Err(CoreError::Db);
            },
        }
        match meta_set(conn, "schema_version", "1") {
            Ok(_) => {},
            Err(_) => {
                return Err(CoreError::Db);
            },
        }
    }
    Ok(())
}

/// The schema version a stored `db_meta` value denotes; 0 when absent
/// or unreadable.
fn decode_schema_version(raw: Option<String>) -> (r: u32)
    ensures
        raw is None ==> r == 0,
{
    match raw {
        Some(s) => {
            match crate::strutil::parse_dec_max(s.as_str(), 1000000) {
                Some(v) => v,
                None => 0,
            }
        },
        None => 0,
    }
}

} // verus!
