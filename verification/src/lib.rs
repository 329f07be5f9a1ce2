//! DuckDB for Excel VBA, with three levels of permission.
//!
//! A level is kept in two layers: the settings that the engine is opened with
//! (`conn`), and an allow list over the kinds of statements that the engine's own
//! parser reports (`classify`). The library decides; the engine calls themselves,
//! and the memory that VBA sees, belong to the program around it (`task`).
use vstd::prelude::*;

pub mod api;
pub mod append;
pub mod classify;
pub mod conn;
pub mod ffi;
pub mod inbound;
pub mod level;
pub mod oleaut;
pub mod query;
pub mod raw;
pub mod schema;
pub mod task;
pub mod text;
pub mod value;
pub mod variant;

pub use level::Level;

verus! {

/// The version of this crate.
pub const VERSION: &'static str = "0.1.0";

/// The version text.
pub open spec fn version_text(level: Level, engine: Seq<char>) -> Seq<char> {
    "dackdb "@ + VERSION@ + " / DuckDB "@ + engine + " / 権限: "@ + level.name_text() + " ("@
        + level.description_text() + ")"@
}

/// The engine's version, given the bytes of its name; `None` where the engine
/// gives none.
pub fn duckdb_version(name: Option<&[u8]>) -> (r: String)
    ensures
        r@ == (match name {
            Some(bytes) => text::lossy(bytes@),
            None => "unknown"@,
        }),
{
    match name {
        Some(bytes) => text::from_utf8_lossy(bytes),
        None => "unknown".to_owned(),
    }
}

/// The version text, given the engine's version.
pub fn version_string(level: Level, engine: &str) -> (r: String)
    ensures
        r@ == version_text(level, engine@),
{
    let mut s = "dackdb ".to_owned();
    s.append(VERSION);
    s.append(" / DuckDB ");
    s.append(engine);
    s.append(" / 権限: ");
    s.append(level.name());
    s.append(" (");
    s.append(level.description_ja());
    s.append(")");
    s
}

} // verus!
