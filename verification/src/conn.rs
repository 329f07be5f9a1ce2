//! Opening a database with the settings of its level, and the connections that are
//! open.
//!
//! The settings are the first of the two layers that keep a level: what the
//! engine was opened with, no SQL text can undo. VBA holds a number for each
//! connection, never a pointer, so a wrong number is an error and nothing worse.
//!
//! Opening asks the outside for one thing after the other: `Opening` says what to
//! do next, and `OpenTask::step` takes the answer.
use crate::level::Level;
use crate::raw;
use crate::text;
use std::collections::HashMap;
use vstd::prelude::*;

verus! {

broadcast use vstd::std_specs::hash::group_hash_axioms;

/// What may be chosen when a database is opened.
#[derive(Debug, Clone, Copy, PartialEq, Eq, Structural)]
pub struct OpenOptions {
    /// Whether files outside the database may be read and written. Only the
    /// administrator's level heeds this; below it they never may.
    pub allow_external_access: bool,
}

impl Default for OpenOptions {
    fn default() -> (r: Self)
        ensures
            !r.allow_external_access,
    {
        OpenOptions { allow_external_access: false }
    }
}

// ---------------------------------------------------------------------------
// Settings
// ---------------------------------------------------------------------------

/// One setting of the engine.
#[derive(Debug, Clone, Copy)]
pub struct Setting {
    pub name: &'static str,
    pub value: &'static str,
}

/// The texts of the settings.
pub open spec fn settings_texts(s: Seq<Setting>) -> Seq<(Seq<char>, Seq<char>)> {
    Seq::new(s.len(), |i: int| (s[i].name@, s[i].value@))
}

/// The settings of a level, in the order in which the engine gets them.
pub open spec fn settings_of(level: Level, opts: OpenOptions) -> Seq<(Seq<char>, Seq<char>)> {
    let access = seq![
        (
            "access_mode"@,
            if level == Level::Read {
                "READ_ONLY"@
            } else {
                "READ_WRITE"@
            },
        ),
        (
            "enable_external_access"@,
            if level == Level::Admin && opts.allow_external_access {
                "true"@
            } else {
                "false"@
            },
        ),
        ("allow_unsigned_extensions"@, "false"@),
    ];
    if level == Level::Admin {
        access + seq![
            ("autoload_known_extensions"@, "true"@),
            ("lock_configuration"@, "false"@),
        ]
    } else {
        access + seq![
            ("autoinstall_known_extensions"@, "false"@),
            ("autoload_known_extensions"@, "false"@),
            ("lock_configuration"@, "true"@),
        ]
    }
}

/// The settings of a level. They are written out where a default of the engine
/// would do, so that a change of the default does not change a level; only whether
/// the administrator's engine fetches known extensions by itself is left to the
/// engine. `lock_configuration` stands last: behind it no setting takes effect.
pub fn build_config(level: Level, opts: OpenOptions) -> (r: Vec<Setting>)
    ensures
        settings_texts(r@) == settings_of(level, opts),
{
    let mut c: Vec<Setting> = Vec::new();
    match level {
        Level::Read => {
            c.push(Setting { name: "access_mode", value: "READ_ONLY" });
            c.push(Setting { name: "enable_external_access", value: "false" });
        },
        Level::ReadWrite => {
            c.push(Setting { name: "access_mode", value: "READ_WRITE" });
            c.push(Setting { name: "enable_external_access", value: "false" });
        },
        Level::Admin => {
            c.push(Setting { name: "access_mode", value: "READ_WRITE" });
            c.push(
                Setting {
                    name: "enable_external_access",
                    value: if opts.allow_external_access {
                        "true"
                    } else {
                        "false"
                    },
                },
            );
        },
    }
    c.push(Setting { name: "allow_unsigned_extensions", value: "false" });
    if level == Level::Admin {
        c.push(Setting { name: "autoload_known_extensions", value: "true" });
        c.push(Setting { name: "lock_configuration", value: "false" });
    } else {
        c.push(Setting { name: "autoinstall_known_extensions", value: "false" });
        c.push(Setting { name: "autoload_known_extensions", value: "false" });
        c.push(Setting { name: "lock_configuration", value: "true" });
    }
    c
}

// ---------------------------------------------------------------------------
// Opening
// ---------------------------------------------------------------------------

/// What is to be done next to open a database.
#[derive(Debug)]
pub enum OpenAction {
    /// Look whether there is a file at this path.
    FindFile(String),
    /// Make a configuration with these settings, in this order.
    Configure(Vec<Setting>),
    /// Open the database at this path, with that configuration.
    OpenDatabase(String),
    /// Connect to that database.
    Connect,
}

/// What came of making a configuration.
#[derive(Debug, Clone, Copy)]
pub enum ConfigReply {
    Made,
    /// The engine gave none.
    NotMade,
    /// The engine did not take the setting at this index.
    NotSet(usize),
}

/// What came of the action.
#[derive(Debug)]
pub enum OpenReply {
    Found(bool),
    Configured(ConfigReply),
    /// `None` where the database is open, else the engine's message.
    Opened(Option<String>),
    Connected(bool),
}

/// Why the file is looked for.
#[derive(Debug, Clone, Copy, PartialEq, Eq, Structural)]
pub enum Purpose {
    /// To read it: it has to be there.
    Read,
    /// To make it: it must not be there.
    Create,
}

/// A database that is being opened, and what was asked last.
#[derive(Debug)]
pub enum OpenTask {
    Finding { purpose: Purpose, level: Level, path: String, opts: OpenOptions },
    Configuring { level: Level, path: String, opts: OpenOptions },
    OpeningDatabase { level: Level, path: String },
    Connecting { level: Level, path: String },
}

/// How far opening has come.
#[derive(Debug)]
pub enum Opening {
    Ask { action: OpenAction, task: OpenTask },
    Refused(String),
    /// The connection is there and can be registered.
    Ready { level: Level, path: String },
}

/// The contents of an `OpenAction`.
#[verifier::ext_equal]
pub enum OpenActionView {
    FindFile(Seq<char>),
    Configure(Seq<(Seq<char>, Seq<char>)>),
    OpenDatabase(Seq<char>),
    Connect,
}

/// The contents of an `OpenTask`.
#[verifier::ext_equal]
pub enum OpenTaskView {
    Finding { purpose: Purpose, level: Level, path: Seq<char>, opts: OpenOptions },
    Configuring { level: Level, path: Seq<char>, opts: OpenOptions },
    OpeningDatabase { level: Level, path: Seq<char> },
    Connecting { level: Level, path: Seq<char> },
}

/// The contents of an `Opening`.
#[verifier::ext_equal]
pub enum OpeningView {
    Ask { action: OpenActionView, task: OpenTaskView },
    Refused(Seq<char>),
    Ready { level: Level, path: Seq<char> },
}

impl View for OpenAction {
    type V = OpenActionView;

    open spec fn view(&self) -> OpenActionView {
        match *self {
            OpenAction::FindFile(p) => OpenActionView::FindFile(p@),
            OpenAction::Configure(s) => OpenActionView::Configure(settings_texts(s@)),
            OpenAction::OpenDatabase(p) => OpenActionView::OpenDatabase(p@),
            OpenAction::Connect => OpenActionView::Connect,
        }
    }
}

impl View for OpenTask {
    type V = OpenTaskView;

    open spec fn view(&self) -> OpenTaskView {
        match *self {
            OpenTask::Finding { purpose, level, path, opts } => OpenTaskView::Finding {
                purpose,
                level,
                path: path@,
                opts,
            },
            OpenTask::Configuring { level, path, opts } => OpenTaskView::Configuring {
                level,
                path: path@,
                opts,
            },
            OpenTask::OpeningDatabase { level, path } => OpenTaskView::OpeningDatabase {
                level,
                path: path@,
            },
            OpenTask::Connecting { level, path } => OpenTaskView::Connecting { level, path: path@ },
        }
    }
}

impl View for Opening {
    type V = OpeningView;

    open spec fn view(&self) -> OpeningView {
        match *self {
            Opening::Ask { action, task } => OpeningView::Ask { action: action@, task: task@ },
            Opening::Refused(m) => OpeningView::Refused(m@),
            Opening::Ready { level, path } => OpeningView::Ready { level, path: path@ },
        }
    }
}

/// The message for a file that is not there.
pub open spec fn file_missing(path: Seq<char>) -> Seq<char> {
    "データベースファイルが見つかりません: "@ + path
        + "\n読み取り専用 DLL は新しいファイルを作成できません。作成するには dackdb_admin.dll の DackCreateDatabase を使ってください。"@
}

/// The message for a file that is there already.
pub open spec fn file_exists(path: Seq<char>) -> Seq<char> {
    "ファイルが既に存在します: "@ + path
        + "\n既存のデータベースを開くには DackOpen を使ってください。上書きが必要な場合は先にファイルを削除してください。"@
}

/// The next thing is the configuration.
pub open spec fn ask_configuration(
    level: Level,
    path: Seq<char>,
    opts: OpenOptions,
) -> OpeningView {
    OpeningView::Ask {
        action: OpenActionView::Configure(settings_of(level, opts)),
        task: OpenTaskView::Configuring { level, path, opts },
    }
}

/// How opening begins. Reading needs the file to be there, except for a database
/// in memory.
pub open spec fn opening(level: Level, path: Seq<char>, opts: OpenOptions) -> OpeningView {
    let p = text::trimmed(path);
    if p.len() == 0 {
        OpeningView::Refused(
            "データベースのパスが空です。dack.db のフルパスを指定してください。"@,
        )
    } else if level == Level::Read && p != ":memory:"@ {
        OpeningView::Ask {
            action: OpenActionView::FindFile(p),
            task: OpenTaskView::Finding { purpose: Purpose::Read, level, path: p, opts },
        }
    } else {
        ask_configuration(level, p, opts)
    }
}

/// How making a new database begins. A file that is there is never overwritten.
pub open spec fn creating(level: Level, path: Seq<char>, opts: OpenOptions) -> OpeningView {
    let p = text::trimmed(path);
    if p.len() == 0 {
        OpeningView::Refused("作成するデータベースのパスが空です。"@)
    } else {
        OpeningView::Ask {
            action: OpenActionView::FindFile(p),
            task: OpenTaskView::Finding { purpose: Purpose::Create, level, path: p, opts },
        }
    }
}

/// The reply answers what was asked.
pub open spec fn answers(task: OpenTaskView, reply: OpenReply) -> bool {
    match task {
        OpenTaskView::Finding { .. } => reply is Found,
        OpenTaskView::Configuring { level, path, opts } => match reply {
            OpenReply::Configured(ConfigReply::NotSet(i)) => i < settings_of(level, opts).len(),
            OpenReply::Configured(_) => true,
            _ => false,
        },
        OpenTaskView::OpeningDatabase { .. } => reply is Opened,
        OpenTaskView::Connecting { .. } => reply is Connected,
    }
}

/// How opening goes on.
pub open spec fn opening_after(task: OpenTaskView, reply: OpenReply) -> OpeningView {
    match task {
        OpenTaskView::Finding { purpose, level, path, opts } => {
            let found = reply->Found_0;
            match purpose {
                Purpose::Read => if found {
                    ask_configuration(level, path, opts)
                } else {
                    OpeningView::Refused(file_missing(path))
                },
                Purpose::Create => if found {
                    OpeningView::Refused(file_exists(path))
                } else {
                    opening(level, path, opts)
                },
            }
        },
        OpenTaskView::Configuring { level, path, opts } => match reply->Configured_0 {
            ConfigReply::NotMade => OpeningView::Refused(
                "DuckDB の設定オブジェクトを作成できませんでした"@,
            ),
            ConfigReply::NotSet(i) => {
                let setting = settings_of(level, opts)[i as int];
                OpeningView::Refused(raw::setting_failure(setting.0, setting.1))
            },
            ConfigReply::Made => if raw::has_nul(path) {
                OpeningView::Refused(raw::NUL_MESSAGE@)
            } else {
                OpeningView::Ask {
                    action: OpenActionView::OpenDatabase(path),
                    task: OpenTaskView::OpeningDatabase { level, path },
                }
            },
        },
        OpenTaskView::OpeningDatabase { level, path } => match reply->Opened_0 {
            Some(m) => OpeningView::Refused(raw::open_failure(path, m@)),
            None => OpeningView::Ask {
                action: OpenActionView::Connect,
                task: OpenTaskView::Connecting { level, path },
            },
        },
        OpenTaskView::Connecting { level, path } => if reply->Connected_0 {
            OpeningView::Ready { level, path }
        } else {
            OpeningView::Refused("データベースへの接続に失敗しました"@)
        },
    }
}

fn configure(level: Level, path: String, opts: OpenOptions) -> (r: Opening)
    ensures
        r@ == ask_configuration(level, path@, opts),
{
    Opening::Ask {
        action: OpenAction::Configure(build_config(level, opts)),
        task: OpenTask::Configuring { level, path, opts },
    }
}

/// Begins to open the database at `path`.
pub fn open(level: Level, path: &str, opts: OpenOptions) -> (r: Opening)
    ensures
        r@ == opening(level, path@, opts),
{
    let path = text::trim(path);
    if path.as_str().is_empty() {
        return Opening::Refused(
            "データベースのパスが空です。dack.db のフルパスを指定してください。".to_owned(),
        );
    }
    if level == Level::Read && path != ":memory:".to_owned() {
        return Opening::Ask {
            action: OpenAction::FindFile(path.clone()),
            task: OpenTask::Finding { purpose: Purpose::Read, level, path, opts },
        };
    }
    configure(level, path, opts)
}

/// Begins to make a new database at `path`.
pub fn create(level: Level, path: &str, opts: OpenOptions) -> (r: Opening)
    ensures
        r@ == creating(level, path@, opts),
{
    let path = text::trim(path);
    if path.as_str().is_empty() {
        return Opening::Refused("作成するデータベースのパスが空です。".to_owned());
    }
    Opening::Ask {
        action: OpenAction::FindFile(path.clone()),
        task: OpenTask::Finding { purpose: Purpose::Create, level, path, opts },
    }
}

impl OpenTask {
    /// Goes on with what came of the last action.
    pub fn step(self, reply: OpenReply) -> (r: Opening)
        requires
            answers(self@, reply),
        ensures
            r@ == opening_after(self@, reply),
    {
        match (self, reply) {
            (OpenTask::Finding { purpose, level, path, opts }, OpenReply::Found(found)) => {
                match purpose {
                    Purpose::Read => {
                        if found {
                            return configure(level, path, opts);
                        }
                        let mut m = "データベースファイルが見つかりません: ".to_owned();
                        m.append(path.as_str());
                        m.append(
                            "\n読み取り専用 DLL は新しいファイルを作成できません。作成するには dackdb_admin.dll の DackCreateDatabase を使ってください。",
                        );
                        Opening::Refused(m)
                    },
                    Purpose::Create => {
                        if !found {
                            return open(level, path.as_str(), opts);
                        }
                        let mut m = "ファイルが既に存在します: ".to_owned();
                        m.append(path.as_str());
                        m.append(
                            "\n既存のデータベースを開くには DackOpen を使ってください。上書きが必要な場合は先にファイルを削除してください。",
                        );
                        Opening::Refused(m)
                    },
                }
            },
            (
                OpenTask::Configuring { level, path, opts },
                OpenReply::Configured(outcome),
            ) => match outcome {
                ConfigReply::NotMade => Opening::Refused(
                    "DuckDB の設定オブジェクトを作成できませんでした".to_owned(),
                ),
                ConfigReply::NotSet(i) => {
                    let settings = build_config(level, opts);
                    let setting = settings[i];
                    Opening::Refused(raw::setting_refused(setting.name, setting.value))
                },
                ConfigReply::Made => {
                    if raw::contains_nul(path.as_str()) {
                        return Opening::Refused(raw::NUL_MESSAGE.to_owned());
                    }
                    Opening::Ask {
                        action: OpenAction::OpenDatabase(path.clone()),
                        task: OpenTask::OpeningDatabase { level, path },
                    }
                },
            },
            (OpenTask::OpeningDatabase { level, path }, OpenReply::Opened(outcome)) => {
                match outcome {
                    Some(m) => Opening::Refused(raw::not_opened(path.as_str(), m.as_str())),
                    None => Opening::Ask {
                        action: OpenAction::Connect,
                        task: OpenTask::Connecting { level, path },
                    },
                }
            },
            (OpenTask::Connecting { level, path }, OpenReply::Connected(ok)) => {
                if ok {
                    Opening::Ready { level, path }
                } else {
                    Opening::Refused("データベースへの接続に失敗しました".to_owned())
                }
            },
            _ => Opening::Refused(String::new()),
        }
    }
}

// ---------------------------------------------------------------------------
// Open connections
// ---------------------------------------------------------------------------

/// One open connection; `C` is what the engine knows it by.
#[derive(Debug)]
pub struct ConnState<C> {
    pub conn: C,
    pub level: Level,
    pub path: String,
}

/// The open connections by their handles.
#[derive(Debug)]
pub struct Registry<C> {
    open: HashMap<i64, ConnState<C>>,
    next: i64,
}

/// The message for a handle that belongs to no open connection.
pub open spec fn bad_handle_text(handle: int) -> Seq<char> {
    "接続ハンドル "@ + text::dec_int(handle)
        + " は無効です。DackOpen が成功していないか、既に DackClose 済みの可能性があります。"@
}

fn bad_handle_message(handle: i64) -> (r: String)
    ensures
        r@ == bad_handle_text(handle as int),
{
    let mut m = "接続ハンドル ".to_owned();
    text::push_int(&mut m, handle as i128);
    m.append(
        " は無効です。DackOpen が成功していないか、既に DackClose 済みの可能性があります。",
    );
    m
}

impl<C> Registry<C> {
    /// The open connections.
    pub closed spec fn connections(self) -> Map<i64, ConnState<C>> {
        self.open@
    }

    /// The handle that the next connection gets.
    pub closed spec fn next_handle(self) -> i64 {
        self.next
    }

    /// Handles are given out upwards from 1, and those in use were given out.
    pub open spec fn wf(self) -> bool {
        &&& self.next_handle() >= 1
        &&& forall|h: i64| #[trigger]
            self.connections().dom().contains(h) ==> 1 <= h < self.next_handle()
    }

    /// No connection is open. 0 is never a handle.
    pub fn new() -> (r: Self)
        ensures
            r.connections() == Map::<i64, ConnState<C>>::empty(),
            r.next_handle() == 1,
            r.wf(),
    {
        Registry { open: HashMap::new(), next: 1 }
    }

    /// Takes in a new connection and gives it a handle, which no connection had
    /// before it. Only when all 64-bit numbers have been given out do they start
    /// anew, from the lowest.
    pub fn register(&mut self, level: Level, path: String, conn: C) -> (handle: i64)
        ensures
            handle == old(self).next_handle(),
            final(self).next_handle() == (if handle == i64::MAX {
                i64::MIN as int
            } else {
                handle + 1
            }),
            final(self).connections() == old(self).connections().insert(
                handle,
                (ConnState { conn, level, path }),
            ),
            old(self).wf() ==> !old(self).connections().dom().contains(handle),
            old(self).wf() && handle < i64::MAX ==> final(self).wf(),
    {
        let handle = self.next;
        self.next = if handle == i64::MAX {
            i64::MIN
        } else {
            handle + 1
        };
        self.open.insert(handle, ConnState { conn, level, path });
        handle
    }

    /// The connection with this handle.
    pub fn get(&self, handle: i64) -> (r: Result<&ConnState<C>, String>)
        ensures
            self.connections().dom().contains(handle) ==> (r matches Ok(state) && *state
                == self.connections()[handle]),
            !self.connections().dom().contains(handle) ==> (r matches Err(m) && m@
                == bad_handle_text(handle as int)),
    {
        match self.open.get(&handle) {
            Some(state) => Ok(state),
            None => Err(bad_handle_message(handle)),
        }
    }
}

/// Closes a connection. A handle that is closed already is an error, so that a
/// mistake in VBA shows.
pub fn close<C>(registry: &mut Registry<C>, handle: i64) -> (r: Result<(), String>)
    ensures
        r is Ok <==> old(registry).connections().dom().contains(handle),
        r matches Err(m) ==> m@ == bad_handle_text(handle as int),
        final(registry).connections() == old(registry).connections().remove(handle),
        final(registry).next_handle() == old(registry).next_handle(),
        old(registry).wf() ==> final(registry).wf(),
{
    match registry.open.remove(&handle) {
        Some(_) => Ok(()),
        None => Err(bad_handle_message(handle)),
    }
}

/// Hands the connection with this handle to `f`.
pub fn with_conn<C, R, F: FnOnce(&ConnState<C>) -> R>(
    registry: &Registry<C>,
    handle: i64,
    f: F,
) -> (r: Result<R, String>)
    requires
        registry.connections().dom().contains(handle) ==> call_requires(
            f,
            (&registry.connections()[handle],),
        ),
    ensures
        registry.connections().dom().contains(handle) ==> (r matches Ok(x) && call_ensures(
            f,
            (&registry.connections()[handle],),
            x,
        )),
        !registry.connections().dom().contains(handle) ==> (r matches Err(m) && m@
            == bad_handle_text(handle as int)),
{
    match registry.get(handle) {
        Ok(state) => Ok(f(state)),
        Err(m) => Err(m),
    }
}

/// How many connections are open.
pub fn open_count<C>(registry: &Registry<C>) -> (r: usize)
    ensures
        r == registry.connections().len(),
{
    registry.open.len()
}

// ---------------------------------------------------------------------------
// Laws
// ---------------------------------------------------------------------------

/// The names of the settings differ from each other.
proof fn lemma_setting_names()
    ensures
        "lock_configuration"@ != "access_mode"@,
        "lock_configuration"@ != "enable_external_access"@,
        "lock_configuration"@ != "allow_unsigned_extensions"@,
        "lock_configuration"@ != "autoinstall_known_extensions"@,
        "lock_configuration"@ != "autoload_known_extensions"@,
        "access_mode"@ != "enable_external_access"@,
        "access_mode"@ != "allow_unsigned_extensions"@,
        "access_mode"@ != "autoinstall_known_extensions"@,
        "access_mode"@ != "autoload_known_extensions"@,
        "enable_external_access"@ != "allow_unsigned_extensions"@,
        "enable_external_access"@ != "autoinstall_known_extensions"@,
        "enable_external_access"@ != "autoload_known_extensions"@,
        "allow_unsigned_extensions"@ != "autoinstall_known_extensions"@,
        "allow_unsigned_extensions"@ != "autoload_known_extensions"@,
        "autoinstall_known_extensions"@ != "autoload_known_extensions"@,
        "READ_ONLY"@ != "READ_WRITE"@,
        "true"@ != "false"@,
{
    reveal_strlit("lock_configuration");
    reveal_strlit("access_mode");
    reveal_strlit("enable_external_access");
    reveal_strlit("allow_unsigned_extensions");
    reveal_strlit("autoinstall_known_extensions");
    reveal_strlit("autoload_known_extensions");
    reveal_strlit("READ_ONLY");
    reveal_strlit("READ_WRITE");
    reveal_strlit("true");
    reveal_strlit("false");
    assert("lock_configuration"@.len() == 18);
    assert("access_mode"@.len() == 11);
    assert("enable_external_access"@.len() == 22);
    assert("allow_unsigned_extensions"@.len() == 25);
    assert("autoinstall_known_extensions"@.len() == 28);
    assert("autoload_known_extensions"@.len() == 25);
    assert("allow_unsigned_extensions"@[2] != "autoload_known_extensions"@[2]);
    assert("READ_ONLY"@.len() == 9);
    assert("READ_WRITE"@.len() == 10);
    assert("true"@.len() == 4);
    assert("false"@.len() == 5);
}

/// The lock is the last setting and no earlier one: nothing that should take effect
/// stands behind it. Below the administrator's level it locks the configuration, so
/// that no SQL text can change a setting. The administrator's is never locked.
pub proof fn law_the_lock_comes_last(level: Level, opts: OpenOptions, i: int)
    requires
        0 <= i < settings_of(level, opts).len(),
    ensures
        settings_of(level, opts)[i].0 == "lock_configuration"@ <==> i == settings_of(
            level,
            opts,
        ).len() - 1,
        settings_of(level, opts).last().1 == (if level == Level::Admin {
            "false"@
        } else {
            "true"@
        }),
{
    lemma_setting_names();
}

/// The engine is told once how it may be used: for reading only exactly at the
/// reading level.
pub proof fn law_read_level_is_read_only(level: Level, opts: OpenOptions, i: int)
    requires
        0 <= i < settings_of(level, opts).len(),
    ensures
        settings_of(level, opts)[0].0 == "access_mode"@,
        settings_of(level, opts)[i].0 == "access_mode"@ ==> i == 0,
        settings_of(level, opts)[0].1 == "READ_ONLY"@ <==> level == Level::Read,
{
    lemma_setting_names();
}

/// Files outside the database are out of reach, unless the administrator asked
/// for them.
pub proof fn law_external_access_needs_the_administrator(level: Level, opts: OpenOptions, i: int)
    requires
        0 <= i < settings_of(level, opts).len(),
        settings_of(level, opts)[i].0 == "enable_external_access"@,
        settings_of(level, opts)[i].1 != "false"@,
    ensures
        level == Level::Admin,
        opts.allow_external_access,
{
    lemma_setting_names();
}

/// Extensions without a signature are never allowed, at no level.
pub proof fn law_unsigned_extensions_are_never_allowed(level: Level, opts: OpenOptions, i: int)
    requires
        0 <= i < settings_of(level, opts).len(),
    ensures
        settings_of(level, opts)[2] == ("allow_unsigned_extensions"@, "false"@),
        settings_of(level, opts)[i].0 == "allow_unsigned_extensions"@ ==> settings_of(
            level,
            opts,
        )[i].1 == "false"@,
{
    lemma_setting_names();
}

/// The engine is told at every level whether it loads known extensions by itself:
/// it does for the administrator alone.
pub proof fn law_known_extensions_load_for_the_administrator(
    level: Level,
    opts: OpenOptions,
    i: int,
)
    requires
        0 <= i < settings_of(level, opts).len(),
    ensures
        settings_of(level, opts)[settings_of(level, opts).len() - 2].0
            == "autoload_known_extensions"@,
        settings_of(level, opts)[i].0 == "autoload_known_extensions"@ ==> settings_of(
            level,
            opts,
        )[i].1 == (if level == Level::Admin {
            "true"@
        } else {
            "false"@
        }),
{
    lemma_setting_names();
}

/// Where opening stands after these replies.
pub open spec fn opened_by(start: OpeningView, replies: Seq<OpenReply>) -> OpeningView
    decreases replies.len(),
{
    if replies.len() == 0 {
        start
    } else {
        match opened_by(start, replies.drop_last()) {
            OpeningView::Ask { action, task } => opening_after(task, replies.last()),
            end => end,
        }
    }
}

/// What every step of opening at a level keeps: the level and the path stay what
/// they were, and the settings asked for are those of the level.
pub open spec fn keeps_level(
    o: OpeningView,
    level: Level,
    path: Seq<char>,
    opts: OpenOptions,
) -> bool {
    match o {
        OpeningView::Refused(_) => true,
        OpeningView::Ready { level: l, path: p } => l == level && p == path,
        OpeningView::Ask { action, task } => match task {
            OpenTaskView::Finding { purpose, level: l, path: p, opts: o } => purpose
                == Purpose::Read && l == level && p == path && o == opts,
            OpenTaskView::Configuring { level: l, path: p, opts: o } => l == level && p == path && o
                == opts && action == OpenActionView::Configure(settings_of(level, opts)),
            OpenTaskView::OpeningDatabase { level: l, path: p } => l == level && p == path
                && action == OpenActionView::OpenDatabase(path),
            OpenTaskView::Connecting { level: l, path: p } => l == level && p == path,
        },
    }
}

/// Whatever the outside answers, a connection is ready only with the level and
/// the path that were asked for, and the only settings that the engine ever gets
/// are those of that level.
pub proof fn law_opening_keeps_the_level(
    level: Level,
    path: Seq<char>,
    opts: OpenOptions,
    replies: Seq<OpenReply>,
)
    ensures
        keeps_level(
            opened_by(opening(level, path, opts), replies),
            level,
            text::trimmed(path),
            opts,
        ),
    decreases replies.len(),
{
    if replies.len() > 0 {
        law_opening_keeps_the_level(level, path, opts, replies.drop_last());
    }
}

/// Each of the replies answers what was asked.
pub open spec fn opening_conversation(start: OpeningView, replies: Seq<OpenReply>) -> bool
    decreases replies.len(),
{
    replies.len() > 0 ==> {
        let before = opened_by(start, replies.drop_last());
        &&& before is Ask
        &&& answers(before->task, replies.last())
        &&& opening_conversation(start, replies.drop_last())
    }
}

/// How far the engine has come with a database that is being opened.
pub open spec fn engine_prepared(now: OpeningView, replies: Seq<OpenReply>) -> bool {
    let n = replies.len() as int;
    let configured = OpenReply::Configured(ConfigReply::Made);
    match now {
        OpeningView::Refused(_) => true,
        OpeningView::Ready { .. } => {
            &&& n >= 3
            &&& replies[n - 1] == OpenReply::Connected(true)
            &&& replies[n - 2] == OpenReply::Opened(None)
            &&& replies[n - 3] == configured
        },
        OpeningView::Ask { action, task } => match task {
            OpenTaskView::OpeningDatabase { .. } => n >= 1 && replies[n - 1] == configured,
            OpenTaskView::Connecting { .. } => n >= 2 && replies[n - 1] == OpenReply::Opened(None)
                && replies[n - 2] == configured,
            _ => true,
        },
    }
}

/// A database is opened only after the engine has taken every setting, and a
/// connection is ready only after the engine has opened the database with them
/// and has connected to it.
pub proof fn law_settings_come_before_the_database(
    level: Level,
    path: Seq<char>,
    opts: OpenOptions,
    replies: Seq<OpenReply>,
)
    requires
        opening_conversation(opening(level, path, opts), replies),
    ensures
        engine_prepared(opened_by(opening(level, path, opts), replies), replies),
    decreases replies.len(),
{
    if replies.len() > 0 {
        law_settings_come_before_the_database(level, path, opts, replies.drop_last());
    }
}

/// What is asked for and what is ready, by its level and its path: the file that is
/// looked for and the database that is opened are at `path`, the settings are those
/// of the level, and so are the level and the path of a connection that is ready.
pub open spec fn stays_with(
    now: OpeningView,
    level: Level,
    path: Seq<char>,
    opts: OpenOptions,
) -> bool {
    match now {
        OpeningView::Refused(_) => true,
        OpeningView::Ready { level: l, path: p } => l == level && p == path,
        OpeningView::Ask { action, task } => match action {
            OpenActionView::FindFile(p) => p == path,
            OpenActionView::Configure(s) => s == settings_of(level, opts),
            OpenActionView::OpenDatabase(p) => p == path,
            OpenActionView::Connect => true,
        },
    }
}

/// The same of what the task holds.
spec fn task_stays_with(
    now: OpeningView,
    level: Level,
    path: Seq<char>,
    opts: OpenOptions,
) -> bool {
    now matches OpeningView::Ask { action, task } ==> match task {
        OpenTaskView::Finding { purpose, level: l, path: p, opts: o } => l == level && p == path && o
            == opts,
        OpenTaskView::Configuring { level: l, path: p, opts: o } => l == level && p == path && o
            == opts,
        OpenTaskView::OpeningDatabase { level: l, path: p } => l == level && p == path,
        OpenTaskView::Connecting { level: l, path: p } => l == level && p == path,
    }
}

/// Making a new database stays with its path and its level, whatever the outside
/// answers: the database that the engine is told to open is the one at the path that
/// was asked for, with the settings of the level, and the connection is to it.
pub proof fn law_creating_keeps_the_level(
    level: Level,
    path: Seq<char>,
    opts: OpenOptions,
    replies: Seq<OpenReply>,
)
    ensures
        stays_with(
            opened_by(creating(level, path, opts), replies),
            level,
            text::trimmed(path),
            opts,
        ),
{
    lemma_creating_keeps_the_level(level, path, opts, replies);
}

proof fn lemma_creating_keeps_the_level(
    level: Level,
    path: Seq<char>,
    opts: OpenOptions,
    replies: Seq<OpenReply>,
)
    ensures
        stays_with(
            opened_by(creating(level, path, opts), replies),
            level,
            text::trimmed(path),
            opts,
        ),
        task_stays_with(
            opened_by(creating(level, path, opts), replies),
            level,
            text::trimmed(path),
            opts,
        ),
    decreases replies.len(),
{
    if replies.len() > 0 {
        lemma_creating_keeps_the_level(level, path, opts, replies.drop_last());
        text::law_trimmed_twice(path);
    }
}

/// Opening succeeds where nothing fails: where the path is not empty and holds no
/// NUL, the file is there where it has to be, and the engine does what it is asked,
/// the connection is ready.
pub proof fn law_opening_succeeds(level: Level, path: Seq<char>, opts: OpenOptions)
    requires
        text::trimmed(path).len() > 0,
        !raw::has_nul(text::trimmed(path)),
    ensures
        ({
            let made = OpenReply::Configured(ConfigReply::Made);
            let ready = OpeningView::Ready { level, path: text::trimmed(path) };
            let looked_for = level == Level::Read && text::trimmed(path) != ":memory:"@;
            &&& !looked_for ==> opened_by(
                opening(level, path, opts),
                seq![made, OpenReply::Opened(None), OpenReply::Connected(true)],
            ) == ready
            &&& looked_for ==> opened_by(
                opening(level, path, opts),
                seq![
                    OpenReply::Found(true),
                    made,
                    OpenReply::Opened(None),
                    OpenReply::Connected(true),
                ],
            ) == ready
        }),
{
    let made = OpenReply::Configured(ConfigReply::Made);
    let start = opening(level, path, opts);
    let end = seq![made, OpenReply::Opened(None), OpenReply::Connected(true)];
    if level == Level::Read && text::trimmed(path) != ":memory:"@ {
        let all = seq![
            OpenReply::Found(true),
            made,
            OpenReply::Opened(None),
            OpenReply::Connected(true),
        ];
        assert(all == seq![OpenReply::Found(true)] + end);
        lemma_opened_on(start, OpenReply::Found(true), end);
        lemma_configured_opens(level, text::trimmed(path), opts);
    } else {
        lemma_configured_opens(level, text::trimmed(path), opts);
    }
}

/// A new database is made where nothing fails: where the path is not empty and holds
/// no NUL, no file is there, and the engine does what it is asked, the connection is
/// ready. A file that is there ends it.
pub proof fn law_creating_succeeds(path: Seq<char>, opts: OpenOptions)
    requires
        text::trimmed(path).len() > 0,
        !raw::has_nul(text::trimmed(path)),
    ensures
        opened_by(
            creating(Level::Admin, path, opts),
            seq![
                OpenReply::Found(false),
                OpenReply::Configured(ConfigReply::Made),
                OpenReply::Opened(None),
                OpenReply::Connected(true),
            ],
        ) == (OpeningView::Ready { level: Level::Admin, path: text::trimmed(path) }),
        opened_by(creating(Level::Admin, path, opts), seq![OpenReply::Found(true)]) is Refused,
{
    let made = OpenReply::Configured(ConfigReply::Made);
    let start = creating(Level::Admin, path, opts);
    let end = seq![made, OpenReply::Opened(None), OpenReply::Connected(true)];
    let all = seq![
        OpenReply::Found(false),
        made,
        OpenReply::Opened(None),
        OpenReply::Connected(true),
    ];
    assert(all == seq![OpenReply::Found(false)] + end);
    lemma_opened_on(start, OpenReply::Found(false), end);
    text::law_trimmed_twice(path);
    lemma_configured_opens(Level::Admin, text::trimmed(path), opts);
    let found = seq![OpenReply::Found(true)];
    assert(found.drop_last() == Seq::<OpenReply>::empty());
    assert(opened_by(start, found.drop_last()) == start);
}

/// A path with nothing in it but white space opens nothing and makes nothing. To read,
/// the file is looked for first, except for a database in memory; to make a new one it
/// always is.
pub proof fn law_what_comes_first(level: Level, path: Seq<char>, opts: OpenOptions)
    ensures
        text::trimmed(path).len() == 0 ==> opening(level, path, opts) is Refused && creating(
            level,
            path,
            opts,
        ) is Refused,
        text::trimmed(path).len() > 0 ==> {
            &&& creating(level, path, opts) is Ask
            &&& creating(level, path, opts)->action == OpenActionView::FindFile(text::trimmed(path))
            &&& opening(level, path, opts) is Ask
            &&& opening(level, path, opts)->action == (if level == Level::Read && text::trimmed(path)
                != ":memory:"@ {
                OpenActionView::FindFile(text::trimmed(path))
            } else {
                OpenActionView::Configure(settings_of(level, opts))
            })
        },
{
}

/// A database that does not open is named, with what the engine says of it, and so is a
/// setting that the engine does not take.
pub proof fn law_failures_to_open_are_named(
    level: Level,
    path: Seq<char>,
    opts: OpenOptions,
    m: String,
    i: usize,
)
    requires
        m@.len() > 0,
        i < settings_of(level, opts).len(),
    ensures
        opening_after(
            OpenTaskView::OpeningDatabase { level, path },
            OpenReply::Opened(Some(m)),
        ) matches OpeningView::Refused(e) && text::has_text(e, m@) && text::has_text(e, path),
        opening_after(
            OpenTaskView::Configuring { level, path, opts },
            OpenReply::Configured(ConfigReply::NotSet(i)),
        ) matches OpeningView::Refused(e) && text::has_text(e, settings_of(level, opts)[i as int].0)
            && text::has_text(e, settings_of(level, opts)[i as int].1),
{
    let s = settings_of(level, opts)[i as int];
    raw::law_the_engine_is_quoted(m@, path, path, 0);
    raw::law_the_engine_is_quoted(m@, s.0, s.1, 0);
}

/// A step that fails ends the opening.
pub proof fn law_failures_end_the_opening(task: OpenTaskView, reply: OpenReply)
    requires
        ({
            ||| task is Finding && task->Finding_purpose == Purpose::Read && reply
                == OpenReply::Found(false)
            ||| task is Finding && task->Finding_purpose == Purpose::Create && reply
                == OpenReply::Found(true)
            ||| task is Configuring && reply is Configured && reply != OpenReply::Configured(
                ConfigReply::Made,
            )
            ||| task is OpeningDatabase && (reply matches OpenReply::Opened(m) && m is Some)
            ||| task is Connecting && reply == OpenReply::Connected(false)
        }),
    ensures
        opening_after(task, reply) is Refused,
{
}

/// The first reply, then the others.
proof fn lemma_opened_on(start: OpeningView, first: OpenReply, rest: Seq<OpenReply>)
    requires
        start is Ask,
    ensures
        opened_by(start, seq![first] + rest) == opened_by(
            opening_after(start->task, first),
            rest,
        ),
    decreases rest.len(),
{
    let all = seq![first] + rest;
    if rest.len() > 0 {
        lemma_opened_on(start, first, rest.drop_last());
        assert(all.drop_last() == seq![first] + rest.drop_last());
    } else {
        assert(all.drop_last() == Seq::<OpenReply>::empty());
        assert(opened_by(start, all.drop_last()) == start);
    }
}

proof fn lemma_configured_opens(level: Level, path: Seq<char>, opts: OpenOptions)
    requires
        !raw::has_nul(path),
    ensures
        opened_by(
            ask_configuration(level, path, opts),
            seq![
                OpenReply::Configured(ConfigReply::Made),
                OpenReply::Opened(None),
                OpenReply::Connected(true),
            ],
        ) == (OpeningView::Ready { level, path }),
{
    let made = OpenReply::Configured(ConfigReply::Made);
    let one = seq![made];
    let two = seq![made, OpenReply::Opened(None)];
    let three = seq![made, OpenReply::Opened(None), OpenReply::Connected(true)];
    let start = ask_configuration(level, path, opts);
    assert(three.drop_last() == two);
    assert(two.drop_last() == one);
    assert(one.drop_last() == Seq::<OpenReply>::empty());
    assert(opened_by(start, one.drop_last()) == start);
    assert(opened_by(start, one) == opening_after(start->task, made));
    assert(opened_by(start, two) is Ask);
}

/// The settings by their names: each has one value, and there is no other setting.
pub proof fn law_settings_by_name(level: Level, opts: OpenOptions, i: int)
    requires
        0 <= i < settings_of(level, opts).len(),
    ensures
        ({
            let s = settings_of(level, opts)[i];
            ||| s == ("access_mode"@, "READ_ONLY"@) && level == Level::Read
            ||| s == ("access_mode"@, "READ_WRITE"@) && level != Level::Read
            ||| s == ("enable_external_access"@, "true"@) && level == Level::Admin
                && opts.allow_external_access
            ||| s == ("enable_external_access"@, "false"@) && !(level == Level::Admin
                && opts.allow_external_access)
            ||| s == ("allow_unsigned_extensions"@, "false"@)
            ||| s == ("autoinstall_known_extensions"@, "false"@) && level != Level::Admin
            ||| s == ("autoload_known_extensions"@, "true"@) && level == Level::Admin
            ||| s == ("autoload_known_extensions"@, "false"@) && level != Level::Admin
            ||| s == ("lock_configuration"@, "true"@) && level != Level::Admin
            ||| s == ("lock_configuration"@, "false"@) && level == Level::Admin
        }),
        settings_of(level, opts).len() == if level == Level::Admin {
            5int
        } else {
            6
        },
        forall|a: int, b: int|
            0 <= a < b < settings_of(level, opts).len() ==> (#[trigger] settings_of(level, opts)[a]).0
                != (#[trigger] settings_of(level, opts)[b]).0,
{
    lemma_setting_names();
}

/// A new database is made only where no file was found: whatever the outside
/// answers, nothing but the search happens before that answer, and any other
/// answer ends it.
pub proof fn law_creating_never_overwrites(
    level: Level,
    path: Seq<char>,
    opts: OpenOptions,
    replies: Seq<OpenReply>,
)
    requires
        replies.len() > 0 ==> replies[0] is Found,
    ensures
        ({
            let now = opened_by(creating(level, path, opts), replies);
            ||| now is Refused
            ||| replies.len() == 0 && now is Ask && now->action is FindFile
            ||| replies.len() > 0 && replies[0] == OpenReply::Found(false)
        }),
    decreases replies.len(),
{
    if replies.len() > 0 {
        law_creating_never_overwrites(level, path, opts, replies.drop_last());
    }
}

/// What happens to the open connections.
pub enum Change<C> {
    Registered { handle: i64, state: ConnState<C> },
    Closed { handle: i64 },
}

/// What `register` and `close` make of the open connections.
pub open spec fn makes<C>(before: Registry<C>, change: Change<C>, after: Registry<C>) -> bool {
    match change {
        Change::Registered { handle, state } => {
            &&& handle == before.next_handle()
            &&& after.next_handle() == (if handle == i64::MAX {
                i64::MIN as int
            } else {
                handle + 1
            })
            &&& after.connections() == before.connections().insert(handle, state)
        },
        Change::Closed { handle } => {
            &&& after.next_handle() == before.next_handle()
            &&& after.connections() == before.connections().remove(handle)
        },
    }
}

/// Each change leads from one state to the next.
pub open spec fn history<C>(states: Seq<Registry<C>>, changes: Seq<Change<C>>) -> bool {
    &&& states.len() == changes.len() + 1
    &&& forall|k: int|
        0 <= k < changes.len() ==> makes(states[k], #[trigger] changes[k], states[k + 1])
}

/// Handles are given out upwards, whatever is opened and closed in between: a new
/// one is above every earlier one, and so above every open one, as long as the last
/// 64-bit number has not been given out.
pub proof fn law_handles_grow<C>(
    states: Seq<Registry<C>>,
    changes: Seq<Change<C>>,
    earlier: int,
    later: int,
)
    requires
        history(states, changes),
        states[0].wf(),
        0 <= earlier < later < changes.len(),
        changes[earlier] is Registered,
        changes[later] is Registered,
        forall|k: int|
            0 <= k < later ==> (#[trigger] changes[k] matches Change::Registered { handle, .. }
                ==> handle < i64::MAX),
    ensures
        changes[earlier]->Registered_handle < changes[later]->Registered_handle,
        forall|h: i64| #[trigger]
            states[later].connections().dom().contains(h) ==> h
                < changes[later]->Registered_handle,
{
    lemma_handles_grow(states, changes, 0, earlier);
    lemma_handles_grow(states, changes, earlier + 1, later);
    assert(makes(states[earlier], changes[earlier], states[earlier + 1]));
    assert(makes(states[later], changes[later], states[later + 1]));
}

proof fn lemma_handles_grow<C>(
    states: Seq<Registry<C>>,
    changes: Seq<Change<C>>,
    from: int,
    to: int,
)
    requires
        history(states, changes),
        0 <= from <= to < changes.len(),
        states[from].wf(),
        forall|k: int|
            from <= k < to ==> (#[trigger] changes[k] matches Change::Registered { handle, .. }
                ==> handle < i64::MAX),
    ensures
        states[to].wf(),
        states[from].next_handle() <= states[to].next_handle(),
    decreases to - from,
{
    if from < to {
        assert(makes(states[from], changes[from], states[from + 1]));
        lemma_handles_grow(states, changes, from + 1, to);
    }
}

/// A handle that was closed stays closed: registering another connection, which
/// is what `register` does, never gives it out again.
pub proof fn law_closed_handles_stay_closed<C>(
    before: Registry<C>,
    after: Registry<C>,
    state: ConnState<C>,
    handle: i64,
)
    requires
        before.wf(),
        handle < before.next_handle(),
        !before.connections().dom().contains(handle),
        after.connections() == before.connections().insert(before.next_handle(), state),
    ensures
        !after.connections().dom().contains(handle),
{
}

} // verus!
