//! Application settings as plain values, with their defaults.
//!
//! Reading and writing the settings file is the caller's part. What is done
//! here is what follows the reading: the defaults for what the file leaves
//! out, and the move of a connection from the old single-connection layout
//! into the list.

use vstd::prelude::*;

verus! {

/// One SQL Server connection of the settings.
#[derive(Debug)]
pub struct DbConnection {
    pub name: String,
    pub server: String,
    pub database: String,
    pub username: String,
    pub password: String,
    pub use_windows_auth: bool,
}

/// The mathematical content of a `DbConnection`.
pub struct DbConnectionView {
    pub name: Seq<char>,
    pub server: Seq<char>,
    pub database: Seq<char>,
    pub username: Seq<char>,
    pub password: Seq<char>,
    pub use_windows_auth: bool,
}

impl DeepView for DbConnection {
    type V = DbConnectionView;

    open spec fn deep_view(&self) -> DbConnectionView {
        DbConnectionView {
            name: self.name@,
            server: self.server@,
            database: self.database@,
            username: self.username@,
            password: self.password@,
            use_windows_auth: self.use_windows_auth,
        }
    }
}

impl Default for DbConnection {
    fn default() -> (r: Self)
        ensures
            r.deep_view() == (DbConnectionView {
                name: Seq::empty(),
                server: Seq::empty(),
                database: Seq::empty(),
                username: Seq::empty(),
                password: Seq::empty(),
                use_windows_auth: false,
            }),
    {
        DbConnection {
            name: String::new(),
            server: String::new(),
            database: String::new(),
            username: String::new(),
            password: String::new(),
            use_windows_auth: false,
        }
    }
}

impl Clone for DbConnection {
    fn clone(&self) -> (r: Self)
        ensures
            r.deep_view() == self.deep_view(),
    {
        DbConnection {
            name: self.name.clone(),
            server: self.server.clone(),
            database: self.database.clone(),
            username: self.username.clone(),
            password: self.password.clone(),
            use_windows_auth: self.use_windows_auth,
        }
    }
}

/// The application settings.
#[derive(Debug)]
pub struct Config {
    pub log_file_path: String,
    pub html_output_path: String,
    pub config_file: String,
    pub auto_copy: bool,
    pub connections: Vec<DbConnection>,
    pub active_connection_index: i32,
    pub csv_separator: String,
    pub encoding: String,
    pub format_sql: bool,
}

/// The mathematical content of a `Config`.
pub struct ConfigView {
    pub log_file_path: Seq<char>,
    pub html_output_path: Seq<char>,
    pub config_file: Seq<char>,
    pub auto_copy: bool,
    pub connections: Seq<DbConnectionView>,
    pub active_connection_index: int,
    pub csv_separator: Seq<char>,
    pub encoding: Seq<char>,
    pub format_sql: bool,
}

impl DeepView for Config {
    type V = ConfigView;

    open spec fn deep_view(&self) -> ConfigView {
        ConfigView {
            log_file_path: self.log_file_path@,
            html_output_path: self.html_output_path@,
            config_file: self.config_file@,
            auto_copy: self.auto_copy,
            connections: self.connections.deep_view(),
            active_connection_index: self.active_connection_index as int,
            csv_separator: self.csv_separator@,
            encoding: self.encoding@,
            format_sql: self.format_sql,
        }
    }
}

/// The default of the switches that are on unless turned off.
pub fn default_true() -> (r: bool)
    ensures
        r,
{
    true
}

/// The index that stands for "no active connection".
pub fn default_neg_one() -> (r: i32)
    ensures
        r == -1,
{
    -1
}

/// The default separator of exported text.
pub fn default_comma() -> (r: String)
    ensures
        r@ == ","@,
{
    ",".to_owned()
}

/// The default encoding of logs.
pub fn default_encoding() -> (r: String)
    ensures
        r@ == "SHIFT_JIS"@,
{
    "SHIFT_JIS".to_owned()
}

impl ConfigView {
    /// The settings of a fresh installation.
    pub open spec fn fresh() -> ConfigView {
        ConfigView {
            log_file_path: Seq::empty(),
            html_output_path: Seq::empty(),
            config_file: Seq::empty(),
            auto_copy: true,
            connections: Seq::empty(),
            active_connection_index: -1,
            csv_separator: ","@,
            encoding: "SHIFT_JIS"@,
            format_sql: true,
        }
    }
}

impl Default for Config {
    fn default() -> (r: Self)
        ensures
            r.deep_view() == ConfigView::fresh(),
    {
        let connections: Vec<DbConnection> = Vec::new();
        assert(connections.deep_view() =~= Seq::<DbConnectionView>::empty());
        Config {
            log_file_path: String::new(),
            html_output_path: String::new(),
            config_file: String::new(),
            auto_copy: default_true(),
            connections,
            active_connection_index: default_neg_one(),
            csv_separator: default_comma(),
            encoding: default_encoding(),
            format_sql: default_true(),
        }
    }
}

/// Copies a list of connections.
pub fn clone_connections(connections: &Vec<DbConnection>) -> (r: Vec<DbConnection>)
    ensures
        r.deep_view() == connections.deep_view(),
{
    let mut out: Vec<DbConnection> = Vec::new();
    let mut i: usize = 0;
    while i < connections.len()
        invariant
            i <= connections.len(),
            out.len() == i,
            forall|k: int|
                0 <= k < i ==> (#[trigger] out[k]).deep_view() == connections[k].deep_view(),
        decreases connections.len() - i,
    {
        out.push(connections[i].clone());
        i += 1;
    }
    out
}

impl Clone for Config {
    fn clone(&self) -> (r: Self)
        ensures
            r.deep_view() == self.deep_view(),
    {
        Config {
            log_file_path: self.log_file_path.clone(),
            html_output_path: self.html_output_path.clone(),
            config_file: self.config_file.clone(),
            auto_copy: self.auto_copy,
            connections: clone_connections(&self.connections),
            active_connection_index: self.active_connection_index,
            csv_separator: self.csv_separator.clone(),
            encoding: self.encoding.clone(),
            format_sql: self.format_sql,
        }
    }
}

/// `text`, or `fallback` where it is empty.
pub open spec fn or_default(text: Seq<char>, fallback: Seq<char>) -> Seq<char> {
    if text.len() == 0 {
        fallback
    } else {
        text
    }
}

/// The settings that `load` hands out for what was read.
pub open spec fn completed(
    stored: Option<ConfigView>,
    config_file: Seq<char>,
    default_log_path: Seq<char>,
    default_output_path: Seq<char>,
) -> ConfigView {
    let base = match stored {
        Some(config) => config,
        None => ConfigView::fresh(),
    };
    ConfigView {
        config_file,
        log_file_path: or_default(base.log_file_path, default_log_path),
        html_output_path: or_default(base.html_output_path, default_output_path),
        csv_separator: or_default(base.csv_separator, ","@),
        encoding: or_default(base.encoding, "SHIFT_JIS"@),
        ..base
    }
}

/// What the old single-connection layout of the settings file held.
#[derive(Debug)]
pub struct LegacyConnection {
    pub server: Option<String>,
    pub database: Option<String>,
    pub username: Option<String>,
    pub password: Option<String>,
    pub use_windows_auth: Option<bool>,
}

/// The mathematical content of a `LegacyConnection`.
pub struct LegacyConnectionView {
    pub server: Option<Seq<char>>,
    pub database: Option<Seq<char>>,
    pub username: Option<Seq<char>>,
    pub password: Option<Seq<char>>,
    pub use_windows_auth: Option<bool>,
}

impl DeepView for LegacyConnection {
    type V = LegacyConnectionView;

    open spec fn deep_view(&self) -> LegacyConnectionView {
        LegacyConnectionView {
            server: self.server.deep_view(),
            database: self.database.deep_view(),
            username: self.username.deep_view(),
            password: self.password.deep_view(),
            use_windows_auth: self.use_windows_auth,
        }
    }
}

/// A text that may be missing, empty where it is.
pub open spec fn text_or_empty(text: Option<Seq<char>>) -> Seq<char> {
    match text {
        Some(t) => t,
        None => Seq::empty(),
    }
}

/// The connection that the old layout stands for.
pub open spec fn legacy_connection(legacy: LegacyConnectionView) -> DbConnectionView {
    DbConnectionView {
        name: "Default"@,
        server: text_or_empty(legacy.server),
        database: text_or_empty(legacy.database),
        username: text_or_empty(legacy.username),
        password: text_or_empty(legacy.password),
        use_windows_auth: match legacy.use_windows_auth {
            Some(on) => on,
            None => true,
        },
    }
}

/// The settings after the move from the old layout: where the list of
/// connections is empty and the old layout names a server, that connection
/// becomes the only and the active one.
pub open spec fn migrated(config: ConfigView, legacy: LegacyConnectionView) -> ConfigView {
    if config.connections.len() == 0 && text_or_empty(legacy.server).len() > 0 {
        ConfigView {
            connections: seq![legacy_connection(legacy)],
            active_connection_index: 0,
            ..config
        }
    } else {
        config
    }
}

/// A text that may be missing, empty where it is.
fn take_text(text: Option<String>) -> (r: String)
    ensures
        r@ == text_or_empty(text.deep_view()),
{
    match text {
        Some(t) => t,
        None => String::new(),
    }
}

/// Moves a connection from the old single-connection layout into the list.
pub fn migrate_legacy(config: Config, legacy: LegacyConnection) -> (r: Config)
    ensures
        r.deep_view() == migrated(config.deep_view(), legacy.deep_view()),
{
    let named = match &legacy.server {
        Some(server) => !server.as_str().is_empty(),
        None => false,
    };
    if config.connections.len() == 0 && named {
        let connection = DbConnection {
            name: "Default".to_owned(),
            server: take_text(legacy.server),
            database: take_text(legacy.database),
            username: take_text(legacy.username),
            password: take_text(legacy.password),
            use_windows_auth: match legacy.use_windows_auth {
                Some(on) => on,
                None => true,
            },
        };
        let mut config = config;
        config.connections.push(connection);
        assert(config.connections.deep_view() =~= seq![connection.deep_view()]);
        config.active_connection_index = 0;
        config
    } else {
        config
    }
}

/// The settings without the connection at `index`; where the active
/// connection was that one or a later one, none is active any more.
pub open spec fn without_connection(config: ConfigView, index: int) -> ConfigView {
    if 0 <= index < config.connections.len() {
        ConfigView {
            connections: config.connections.remove(index),
            active_connection_index: if config.active_connection_index >= index {
                -1
            } else {
                config.active_connection_index
            },
            ..config
        }
    } else {
        config
    }
}

impl Config {
    /// Takes the connection at `index` out of the list and says whether there
    /// was one. Where the active connection was that one or a later one, none
    /// is active afterwards.
    pub fn delete_connection(&mut self, index: usize) -> (removed: bool)
        ensures
            final(self).deep_view() == without_connection(old(self).deep_view(), index as int),
            removed == (index < old(self).connections.len()),
    {
        if index < self.connections.len() {
            let ghost before = self.connections.deep_view();
            self.connections.remove(index);
            assert(self.connections.deep_view() =~= before.remove(index as int));
            if index <= 0x7fff_ffff && self.active_connection_index >= index as i32 {
                self.active_connection_index = -1;
            }
            true
        } else {
            false
        }
    }
}

/// The fields of the connection editor, and which connection they edit:
/// an index into the list, or -1 for a new one.
#[derive(Debug)]
pub struct ConnectionForm {
    pub editing_connection_index: i32,
    pub conn_name: String,
    pub conn_server: String,
    pub conn_database: String,
    pub conn_username: String,
    pub conn_password: String,
    pub conn_use_windows_auth: bool,
}

/// The mathematical content of a `ConnectionForm`.
pub struct ConnectionFormView {
    pub editing_connection_index: int,
    pub connection: DbConnectionView,
}

impl DeepView for ConnectionForm {
    type V = ConnectionFormView;

    open spec fn deep_view(&self) -> ConnectionFormView {
        ConnectionFormView {
            editing_connection_index: self.editing_connection_index as int,
            connection: DbConnectionView {
                name: self.conn_name@,
                server: self.conn_server@,
                database: self.conn_database@,
                username: self.conn_username@,
                password: self.conn_password@,
                use_windows_auth: self.conn_use_windows_auth,
            },
        }
    }
}

impl ConnectionFormView {
    /// The editor as it opens for a new connection.
    pub open spec fn blank() -> ConnectionFormView {
        ConnectionFormView {
            editing_connection_index: -1,
            connection: DbConnectionView {
                name: Seq::empty(),
                server: Seq::empty(),
                database: Seq::empty(),
                username: Seq::empty(),
                password: Seq::empty(),
                use_windows_auth: true,
            },
        }
    }

    /// The editor after an attempt to load the connection at `index`: it
    /// shows that connection where there is one, and stays as it is else.
    pub open spec fn loaded(self, config: ConfigView, index: int) -> ConnectionFormView {
        if 0 <= index < config.connections.len() && index <= i32::MAX {
            ConnectionFormView {
                editing_connection_index: index,
                connection: config.connections[index],
            }
        } else {
            self
        }
    }

    /// The list of connections after the editor is saved: the edited
    /// connection is replaced where the index is in range, a new one goes to
    /// the end, and an index out of range changes nothing.
    pub open spec fn saved_into(self, connections: Seq<DbConnectionView>) -> Seq<DbConnectionView> {
        if self.editing_connection_index < 0 {
            connections.push(self.connection)
        } else if self.editing_connection_index < connections.len() {
            connections.update(self.editing_connection_index, self.connection)
        } else {
            connections
        }
    }
}

impl ConnectionForm {
    /// The editor as it opens for a new connection.
    pub fn new() -> (r: Self)
        ensures
            r.deep_view() == ConnectionFormView::blank(),
    {
        ConnectionForm {
            editing_connection_index: -1,
            conn_name: String::new(),
            conn_server: String::new(),
            conn_database: String::new(),
            conn_username: String::new(),
            conn_password: String::new(),
            conn_use_windows_auth: true,
        }
    }

    /// Shows the connection at `index` in the editor, where there is one.
    pub fn load_connection_to_form(&mut self, config: &Config, index: usize)
        ensures
            final(self).deep_view() == old(self).deep_view().loaded(
                config.deep_view(),
                index as int,
            ),
    {
        if index < config.connections.len() && index <= 0x7fff_ffff {
            let connection = &config.connections[index];
            assert(config.connections.deep_view()[index as int] == connection.deep_view());
            self.conn_name = connection.name.clone();
            self.conn_server = connection.server.clone();
            self.conn_database = connection.database.clone();
            self.conn_username = connection.username.clone();
            self.conn_password = connection.password.clone();
            self.conn_use_windows_auth = connection.use_windows_auth;
            self.editing_connection_index = index as i32;
        }
    }

    /// Empties the editor for a new connection.
    pub fn clear_connection_form(&mut self)
        ensures
            final(self).deep_view() == ConnectionFormView::blank(),
    {
        self.conn_name = String::new();
        self.conn_server = String::new();
        self.conn_database = String::new();
        self.conn_username = String::new();
        self.conn_password = String::new();
        self.conn_use_windows_auth = true;
        self.editing_connection_index = -1;
    }

    /// The connection that the editor holds.
    pub fn connection(&self) -> (r: DbConnection)
        ensures
            r.deep_view() == self.deep_view().connection,
    {
        DbConnection {
            name: self.conn_name.clone(),
            server: self.conn_server.clone(),
            database: self.conn_database.clone(),
            username: self.conn_username.clone(),
            password: self.conn_password.clone(),
            use_windows_auth: self.conn_use_windows_auth,
        }
    }

    /// Puts the connection of the editor into the settings: in place of the
    /// one it edits, or at the end where it is new. The rest of the settings
    /// stays as it is.
    pub fn save_current_connection(&self, config: &mut Config)
        ensures
            final(config).deep_view() == (ConfigView {
                connections: self.deep_view().saved_into(old(config).deep_view().connections),
                ..old(config).deep_view()
            }),
    {
        let connection = self.connection();
        let ghost before = config.connections.deep_view();
        if self.editing_connection_index >= 0 {
            let index = self.editing_connection_index as usize;
            if index < config.connections.len() {
                config.connections.set(index, connection);
                assert(config.connections.deep_view() =~= before.update(
                    index as int,
                    connection.deep_view(),
                ));
            }
        } else {
            config.connections.push(connection);
            assert(config.connections.deep_view() =~= before.push(connection.deep_view()));
        }
    }
}

impl Default for ConnectionForm {
    fn default() -> (r: Self)
        ensures
            r.deep_view() == ConnectionFormView::blank(),
    {
        ConnectionForm::new()
    }
}

/// Hands out the settings of one settings file.
pub struct ConfigManager {
    config_path: String,
}

impl ConfigManager {
    /// Where the settings are kept.
    pub closed spec fn path(&self) -> Seq<char> {
        self.config_path@
    }

    /// A manager for the settings kept at `config_path`.
    pub fn new(config_path: String) -> (r: Self)
        ensures
            r.path() == config_path@,
    {
        ConfigManager { config_path }
    }

    /// Where the settings are kept.
    pub fn get_config_file_path(&self) -> (r: &str)
        ensures
            r@ == self.path(),
    {
        self.config_path.as_str()
    }

    /// Completes what was read from the settings file: a missing file counts
    /// as fresh settings, the file's own path is filled in, and the paths, the
    /// separator and the encoding get their defaults where they are empty.
    pub fn load(
        &self,
        stored: Option<Config>,
        default_log_path: &str,
        default_output_path: &str,
    ) -> (r: Config)
        ensures
            r.deep_view() == completed(
                stored.deep_view(),
                self.path(),
                default_log_path@,
                default_output_path@,
            ),
    {
        let mut config = match stored {
            Some(config) => config,
            None => Config::default(),
        };
        config.config_file = self.config_path.clone();
        if config.log_file_path.as_str().is_empty() {
            config.log_file_path = default_log_path.to_owned();
        }
        if config.html_output_path.as_str().is_empty() {
            config.html_output_path = default_output_path.to_owned();
        }
        if config.csv_separator.as_str().is_empty() {
            config.csv_separator = default_comma();
        }
        if config.encoding.as_str().is_empty() {
            config.encoding = default_encoding();
        }
        config
    }
}

} // verus!
