use sql_log_parser::config::{
    default_comma, default_encoding, default_neg_one, default_true, migrate_legacy, Config,
    ConfigManager, ConnectionForm, DbConnection, LegacyConnection,
};
use sql_log_parser::encoding::{decode_bytes, decode_lines, shift_jis_to_utf8, try_decode_bytes};
use sql_log_parser::file_helper::{get_directory, get_file_name};
use sql_log_parser::sql_connector::{escape_csv_field, result_to_csv, SqlColumn, SqlResult};

#[test]
fn test_get_file_name() {
    assert_eq!(get_file_name("C:\\path\\to\\file.txt"), Some("file.txt".to_string()));
    assert_eq!(get_file_name("/path/to/file.txt"), Some("file.txt".to_string()));
}

#[test]
fn test_get_directory() {
    assert_eq!(get_directory("C:\\path\\to\\file.txt"), Some("C:\\path\\to".to_string()));
}

#[test]
fn file_names_at_the_edges() {
    assert_eq!(get_file_name("file.txt"), Some("file.txt".to_string()));
    assert_eq!(get_file_name("/path/to/dir/"), Some("dir".to_string()));
    assert_eq!(get_file_name(""), None);
    assert_eq!(get_file_name("/"), None);
    assert_eq!(get_file_name("a/.."), None);
    assert_eq!(get_file_name("a/..."), Some("...".to_string()));
    assert_eq!(get_file_name("."), None);
}

#[test]
fn directories_at_the_edges() {
    assert_eq!(get_directory("/path/to/file.txt"), Some("/path/to".to_string()));
    assert_eq!(get_directory("file.txt"), Some(String::new()));
    assert_eq!(get_directory("/file.txt"), Some("/".to_string()));
    assert_eq!(get_directory("a//b/"), Some("a".to_string()));
    assert_eq!(get_directory(""), None);
    assert_eq!(get_directory("//"), None);
}

#[test]
fn test_config_default() {
    let config = Config::default();
    assert!(config.auto_copy);
    assert_eq!(config.active_connection_index, -1);
    assert_eq!(config.csv_separator, ",");
}

#[test]
fn config_defaults_are_the_documented_ones() {
    assert!(default_true());
    assert_eq!(default_neg_one(), -1);
    assert_eq!(default_comma(), ",");
    assert_eq!(default_encoding(), "SHIFT_JIS");
    let config = Config::default();
    assert_eq!(config.encoding, "SHIFT_JIS");
    assert!(config.format_sql);
    assert!(config.connections.is_empty());
    assert_eq!(config.log_file_path, "");
}

#[test]
fn loading_fills_in_what_is_empty() {
    let manager = ConfigManager::new("/opt/app/log_parser_config.json".to_string());
    assert_eq!(manager.get_config_file_path(), "/opt/app/log_parser_config.json");
    let fresh = manager.load(None, "/opt/app/stcApp.log", "/opt/app");
    assert_eq!(fresh.config_file, "/opt/app/log_parser_config.json");
    assert_eq!(fresh.log_file_path, "/opt/app/stcApp.log");
    assert_eq!(fresh.html_output_path, "/opt/app");
    assert_eq!(fresh.csv_separator, ",");
    assert_eq!(fresh.encoding, "SHIFT_JIS");
    assert!(fresh.auto_copy);

    let stored = Config {
        log_file_path: "/var/log/x.log".to_string(),
        csv_separator: String::new(),
        encoding: "UTF-8".to_string(),
        auto_copy: false,
        ..Config::default()
    };
    let loaded = manager.load(Some(stored), "/d/stcApp.log", "/d");
    assert_eq!(loaded.log_file_path, "/var/log/x.log");
    assert_eq!(loaded.html_output_path, "/d");
    assert_eq!(loaded.csv_separator, ",");
    assert_eq!(loaded.encoding, "UTF-8");
    assert!(!loaded.auto_copy);
}

#[test]
fn the_old_layout_becomes_the_first_connection() {
    let legacy = LegacyConnection {
        server: Some("srv".to_string()),
        database: None,
        username: Some("sa".to_string()),
        password: None,
        use_windows_auth: None,
    };
    let config = migrate_legacy(Config::default(), legacy);
    assert_eq!(config.connections.len(), 1);
    assert_eq!(config.connections[0].name, "Default");
    assert_eq!(config.connections[0].server, "srv");
    assert_eq!(config.connections[0].database, "");
    assert_eq!(config.connections[0].username, "sa");
    assert!(config.connections[0].use_windows_auth);
    assert_eq!(config.active_connection_index, 0);

    let unnamed = LegacyConnection {
        server: Some(String::new()),
        database: Some("d".to_string()),
        username: None,
        password: None,
        use_windows_auth: Some(false),
    };
    let untouched = migrate_legacy(Config::default(), unnamed);
    assert!(untouched.connections.is_empty());
    assert_eq!(untouched.active_connection_index, -1);
}

#[test]
fn encoding_test_utf8_passthrough() {
    // Pure ASCII/UTF-8 should pass through unchanged
    let data = b"Hello, World!";
    let result = shift_jis_to_utf8(data);
    assert_eq!(result, "Hello, World!");
    let result = decode_bytes(data, "UTF-8");
    assert_eq!(result, "Hello, World!");
}

#[test]
fn encoding_test_shift_jis_conversion() {
    // SHIFT-JIS encoding of "日本語" (Japanese text)
    let data: &[u8] = &[0x93, 0xFA, 0x96, 0x7B, 0x8C, 0xEA];
    let result = shift_jis_to_utf8(data);
    assert_eq!(result, "日本語");
    let result = decode_bytes(data, "SHIFT_JIS");
    assert_eq!(result, "日本語");
}

#[test]
fn test_invalid_encoding_fallback() {
    let data = b"Hello";
    let result = decode_bytes(data, "INVALID_ENCODING_LABEL");
    // Should fallback to UTF-8
    assert_eq!(result, "Hello");
}

#[test]
fn an_unknown_label_decodes_as_utf8() {
    let data = "héllo".as_bytes();
    assert_eq!(decode_bytes(data, "no-such-encoding"), "héllo");
    assert_eq!(decode_bytes(data, "latin1"), "hÃ©llo");
    assert_eq!(try_decode_bytes(data, "utf-8"), Some("héllo".to_string()));
}

#[test]
fn invalid_bytes_are_replaced_not_refused() {
    assert_eq!(decode_bytes(&[b'a', 0xFF, b'b'], "UTF-8"), "a\u{FFFD}b");
}

#[test]
fn lines_are_split_at_line_feeds() {
    assert_eq!(decode_lines(b"", "UTF-8"), Vec::<String>::new());
    assert_eq!(decode_lines(b"a", "UTF-8"), vec!["a".to_string()]);
    assert_eq!(decode_lines(b"a\n", "UTF-8"), vec!["a".to_string()]);
    assert_eq!(decode_lines(b"a\n\nb", "UTF-8"), vec!["a".to_string(), String::new(), "b".to_string()]);
    assert_eq!(decode_lines(b"\n", "UTF-8"), vec![String::new()]);
    assert_eq!(decode_lines(b"a\r\nb\r\n", "UTF-8"), vec!["a\r".to_string(), "b\r".to_string()]);
}

#[test]
fn test_escape_csv_field() {
    assert_eq!(escape_csv_field("hello", ","), "hello");
    assert_eq!(escape_csv_field("hello,world", ","), "\"hello,world\"");
    assert_eq!(escape_csv_field("say \"hi\"", ","), "\"say \"\"hi\"\"\"");
}

#[test]
fn csv_fields_are_quoted_for_line_feeds_and_long_separators() {
    assert_eq!(escape_csv_field("a\nb", ","), "\"a\nb\"");
    assert_eq!(escape_csv_field("a;;b", ";;"), "\"a;;b\"");
    assert_eq!(escape_csv_field("a;b", ";;"), "a;b");
    assert_eq!(escape_csv_field("", ","), "");
    assert_eq!(escape_csv_field("x", ""), "\"x\"");
}

#[test]
fn test_result_to_csv() {
    let result = SqlResult {
        success: true,
        error: None,
        columns: vec![
            SqlColumn { name: "ID".to_string(), sql_type: 0, size: 0 },
            SqlColumn { name: "Name".to_string(), sql_type: 0, size: 0 },
        ],
        rows: vec![
            vec!["1".to_string(), "Alice".to_string()],
            vec!["2".to_string(), "Bob".to_string()],
        ],
        rows_affected: 2,
    };

    let csv = result_to_csv(&result, ",");
    assert!(csv.contains("ID,Name"));
    assert!(csv.contains("1,Alice"));
    assert!(csv.contains("2,Bob"));
    assert_eq!(csv, "ID,Name\n1,Alice\n2,Bob\n");
}

#[test]
fn csv_of_an_empty_result_is_an_empty_header_line() {
    assert_eq!(result_to_csv(&SqlResult::success(), ","), "\n");
}

#[test]
fn sql_results_without_data() {
    let ok = SqlResult::success();
    assert!(ok.success);
    assert_eq!(ok.error, None);
    assert!(ok.columns.is_empty() && ok.rows.is_empty());
    assert_eq!(ok.rows_affected, 0);
    let failed = SqlResult::error("no driver");
    assert!(!failed.success);
    assert_eq!(failed.error, Some("no driver".to_string()));
}

#[test]
fn the_connection_editor_loads_saves_and_clears() {
    let mut config = Config::default();
    let mut form = ConnectionForm::new();
    assert_eq!(form.editing_connection_index, -1);
    assert!(form.conn_use_windows_auth);

    form.conn_name = "main".to_string();
    form.conn_server = "srv".to_string();
    form.save_current_connection(&mut config);
    assert_eq!(config.connections.len(), 1);
    assert_eq!(config.connections[0].name, "main");

    config.connections.push(DbConnection { name: "spare".to_string(), ..DbConnection::default() });
    form.load_connection_to_form(&config, 1);
    assert_eq!(form.editing_connection_index, 1);
    assert_eq!(form.conn_name, "spare");
    assert!(!form.conn_use_windows_auth);
    form.load_connection_to_form(&config, 7);
    assert_eq!(form.editing_connection_index, 1);

    form.conn_name = "renamed".to_string();
    form.save_current_connection(&mut config);
    assert_eq!(config.connections.len(), 2);
    assert_eq!(config.connections[1].name, "renamed");
    assert_eq!(config.connections[0].name, "main");

    form.editing_connection_index = 9;
    form.save_current_connection(&mut config);
    assert_eq!(config.connections.len(), 2);

    form.clear_connection_form();
    assert_eq!(form.editing_connection_index, -1);
    assert_eq!(form.conn_name, "");
    assert!(form.conn_use_windows_auth);
    assert_eq!(form.connection().name, "");
}

#[test]
fn deleting_a_connection_resets_the_active_one_at_or_after_it() {
    let named = |n: &str| DbConnection { name: n.to_string(), ..DbConnection::default() };
    let mut config = Config {
        connections: vec![named("a"), named("b"), named("c")],
        active_connection_index: 2,
        ..Config::default()
    };
    assert!(!config.delete_connection(3));
    assert_eq!(config.connections.len(), 3);
    assert!(config.delete_connection(1));
    assert_eq!(config.connections.len(), 2);
    assert_eq!(config.connections[1].name, "c");
    assert_eq!(config.active_connection_index, -1);

    config.active_connection_index = 0;
    assert!(config.delete_connection(1));
    assert_eq!(config.active_connection_index, 0);
    assert!(config.delete_connection(0));
    assert_eq!(config.active_connection_index, -1);
    assert!(config.connections.is_empty());
}
