//! The permission level that a DLL is built with.
use vstd::prelude::*;

verus! {

/// What a DLL may do. The levels grow: each one may do all that the one before
/// may do.
#[derive(Debug, Clone, Copy, PartialEq, Eq, PartialOrd, Ord, Structural)]
pub enum Level {
    /// Reading only.
    Read,
    /// Reading and changing rows, without changing the schema.
    ReadWrite,
    /// Everything: new databases, schema changes, schema output.
    Admin,
}

impl Level {
    /// The name shown to VBA.
    pub open spec fn name_text(self) -> Seq<char> {
        match self {
            Level::Read => "READ_ONLY"@,
            Level::ReadWrite => "READ_WRITE"@,
            Level::Admin => "ADMIN"@,
        }
    }

    /// The description used in messages.
    pub open spec fn description_text(self) -> Seq<char> {
        match self {
            Level::Read => "読み取り専用"@,
            Level::ReadWrite => "読み書き可（DDL 不可）"@,
            Level::Admin => "管理者（全機能）"@,
        }
    }

    /// Where the level stands in the order of the levels.
    pub open spec fn rank(self) -> int {
        match self {
            Level::Read => 0,
            Level::ReadWrite => 1,
            Level::Admin => 2,
        }
    }

    /// The name shown to VBA.
    pub fn name(self) -> (r: &'static str)
        ensures
            r@ == self.name_text(),
    {
        match self {
            Level::Read => "READ_ONLY",
            Level::ReadWrite => "READ_WRITE",
            Level::Admin => "ADMIN",
        }
    }

    /// The description used in messages.
    pub fn description_ja(self) -> (r: &'static str)
        ensures
            r@ == self.description_text(),
    {
        match self {
            Level::Read => "読み取り専用",
            Level::ReadWrite => "読み書き可（DDL 不可）",
            Level::Admin => "管理者（全機能）",
        }
    }

    /// Whether the writing functions can be used (`DackExecute`,
    /// `DackAppendArray`, transactions).
    pub fn allows_write(self) -> (r: bool)
        ensures
            r == (self.rank() >= Level::ReadWrite.rank()),
    {
        matches!(self, Level::ReadWrite | Level::Admin)
    }

    /// Whether the schema functions can be used (`DackCreateDatabase`,
    /// `DackExecuteDDL`, `DackExportSchema`).
    pub fn allows_ddl(self) -> (r: bool)
        ensures
            r == (self == Level::Admin),
    {
        matches!(self, Level::Admin)
    }
}

/// The functions that every level has.
pub open spec fn reading_functions() -> Seq<Seq<char>> {
    seq![
        "DackVersion"@,
        "DackCapabilities"@,
        "DackOpen"@,
        "DackClose"@,
        "DackQuery"@,
        "DackQueryParams"@,
        "DackListTables"@,
        "DackDescribe"@,
    ]
}

/// The functions that come with writing.
pub open spec fn writing_functions() -> Seq<Seq<char>> {
    seq![
        "DackExecute"@,
        "DackExecuteParams"@,
        "DackAppendArray"@,
        "DackBegin"@,
        "DackCommit"@,
        "DackRollback"@,
    ]
}

/// The functions that come with schema changes.
pub open spec fn schema_functions() -> Seq<Seq<char>> {
    seq!["DackCreateDatabase"@, "DackExecuteDDL"@, "DackExportSchema"@, "DackCheckpoint"@]
}

/// The functions that can be used at `level`, in the order in which they are
/// listed.
pub open spec fn functions_at(level: Level) -> Seq<Seq<char>> {
    match level {
        Level::Read => reading_functions(),
        Level::ReadWrite => reading_functions() + writing_functions(),
        Level::Admin => reading_functions() + writing_functions() + schema_functions(),
    }
}

/// The contents of a list of string slices.
pub open spec fn texts(v: Seq<&'static str>) -> Seq<Seq<char>> {
    Seq::new(v.len(), |i: int| v[i]@)
}

/// The exported functions that can be used at `level`.
pub fn capabilities(level: Level) -> (r: Vec<&'static str>)
    ensures
        texts(r@) == functions_at(level),
{
    let mut v: Vec<&'static str> = vec![
        "DackVersion",
        "DackCapabilities",
        "DackOpen",
        "DackClose",
        "DackQuery",
        "DackQueryParams",
        "DackListTables",
        "DackDescribe",
    ];
    if level.allows_write() {
        v.push("DackExecute");
        v.push("DackExecuteParams");
        v.push("DackAppendArray");
        v.push("DackBegin");
        v.push("DackCommit");
        v.push("DackRollback");
    }
    if level.allows_ddl() {
        v.push("DackCreateDatabase");
        v.push("DackExecuteDDL");
        v.push("DackExportSchema");
        v.push("DackCheckpoint");
    }
    v
}

/// The functions of each level by their names, in the order in which they are listed.
pub proof fn law_functions_by_name()
    ensures
        functions_at(Level::Read) == seq![
            "DackVersion"@,
            "DackCapabilities"@,
            "DackOpen"@,
            "DackClose"@,
            "DackQuery"@,
            "DackQueryParams"@,
            "DackListTables"@,
            "DackDescribe"@,
        ],
        functions_at(Level::ReadWrite) == functions_at(Level::Read) + seq![
            "DackExecute"@,
            "DackExecuteParams"@,
            "DackAppendArray"@,
            "DackBegin"@,
            "DackCommit"@,
            "DackRollback"@,
        ],
        functions_at(Level::Admin) == functions_at(Level::ReadWrite) + seq![
            "DackCreateDatabase"@,
            "DackExecuteDDL"@,
            "DackExportSchema"@,
            "DackCheckpoint"@,
        ],
{
}

/// A higher level has every function of a lower one, and more: the functions of
/// the lower level stand in front, unchanged.
pub proof fn law_capabilities_grow(lower: Level, higher: Level)
    requires
        lower.rank() < higher.rank(),
    ensures
        functions_at(lower).is_prefix_of(functions_at(higher)),
        functions_at(lower).len() < functions_at(higher).len(),
        forall|f: Seq<char>| #[trigger]
            functions_at(lower).contains(f) ==> functions_at(higher).contains(f),
{
    let a = functions_at(lower);
    let b = functions_at(higher);
    assert forall|f: Seq<char>| #[trigger] a.contains(f) implies b.contains(f) by {
        let i = choose|i: int| 0 <= i < a.len() && a[i] == f;
        assert(b[i] == f);
    }
}

} // verus!
