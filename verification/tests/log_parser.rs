use sql_log_parser::log_parser::{
    correlate, find_dao_class_name, find_last_query, first_query, list_ids, LineEvents, LineFacts,
    LogParser, QueryResult,
};
use sql_log_parser::pattern::PatternLibrary;

fn library() -> PatternLibrary {
    PatternLibrary::new().expect("the fixed patterns compile")
}

#[test]
fn log_parser_test_parse_params_string() {
    let parser = LogParser::default();
    let params = parser.parse_params_string(&library(), "[String:1:hello][Int:2:42]");
    assert_eq!(params.len(), 2);
    assert_eq!(params[0], "String:1:hello");
    assert_eq!(params[1], "Int:2:42");
}

#[test]
fn log_parser_test_query_result_found() {
    let mut result = QueryResult::default();
    assert!(!result.found());

    result.sql = "SELECT 1".to_string();
    assert!(result.found());
}

#[test]
fn log_parser_test_get_last_query_basic() {
    let content = r#"2024/01/01 10:00:00,INFO,Test,id=abc123 sql=SELECT * FROM users
2024/01/01 10:00:01,INFO,Test,id=abc123 params=[String:1:test]
2024/01/01 10:01:00,INFO,Test,id=def456 sql=SELECT * FROM orders
2024/01/01 10:01:01,INFO,Test,id=def456 params=[Int:1:42]"#;

    let parser = LogParser::default();
    let result = parser.get_last_query(&library(), content.as_bytes());

    assert_eq!(result.id, "def456");
    assert_eq!(result.sql, "SELECT * FROM orders");
    assert_eq!(result.params.len(), 1);
    assert_eq!(result.params[0], "Int:1:42");
}

#[test]
fn log_parser_test_get_last_query_with_trailing_newlines() {
    let content = "2024/01/01 10:00:00,INFO,Test,id=abc123 sql=SELECT 1\n\n\n\n";

    let parser = LogParser::default();
    let result = parser.get_last_query(&library(), content.as_bytes());

    assert_eq!(result.id, "abc123");
    assert_eq!(result.sql, "SELECT 1");
}

#[test]
fn log_parser_test_get_last_query_empty_file() {
    let parser = LogParser::default();
    let result = parser.get_last_query(&library(), b"");

    assert!(!result.found());
    assert!(result.id.is_empty());
    assert!(result.sql.is_empty());
}

#[test]
fn log_parser_test_get_last_query_only_whitespace() {
    let content = "   \n\n   \n\t\t\n";

    let parser = LogParser::default();
    let result = parser.get_last_query(&library(), content.as_bytes());

    assert!(!result.found());
}

#[test]
fn log_parser_test_get_last_query_no_sql() {
    let content = r#"2024/01/01 10:00:00,INFO,Test,Some random log line
2024/01/01 10:00:01,INFO,Test,Another log line without SQL"#;

    let parser = LogParser::default();
    let result = parser.get_last_query(&library(), content.as_bytes());

    assert!(!result.found());
}

#[test]
fn log_parser_test_get_last_query_file_not_found() {
    // A log that cannot be read is handed over as no bytes at all.
    let missing: Vec<u8> = Vec::new();
    let parser = LogParser::default();
    let result = parser.get_last_query(&library(), &missing);

    assert!(!result.found());
    assert!(result.id.is_empty());
}

#[test]
fn log_parser_test_get_last_query_multiple_executions_same_id() {
    let content = r#"2024/01/01 10:00:00,INFO,Test,id=abc123 sql=SELECT * FROM users WHERE id = ?
2024/01/01 10:00:01,INFO,Test,id=abc123 params=[Int:1:1]
2024/01/01 10:02:00,INFO,Test,id=abc123 params=[Int:1:2]
2024/01/01 10:03:00,INFO,Test,id=abc123 params=[Int:1:3]"#;

    let parser = LogParser::default();
    let result = parser.get_last_query(&library(), content.as_bytes());

    assert_eq!(result.id, "abc123");
    assert_eq!(result.sql, "SELECT * FROM users WHERE id = ?");
    // Should get the LAST params
    assert_eq!(result.params.len(), 1);
    assert_eq!(result.params[0], "Int:1:3");
}

#[test]
fn log_parser_test_get_last_query_sql_with_special_chars() {
    let content = r#"2024/01/01 10:00:00,INFO,Test,id=abc123 sql=SELECT * FROM users WHERE name LIKE '%test%' AND status IN (1, 2, 3)"#;

    let parser = LogParser::default();
    let result = parser.get_last_query(&library(), content.as_bytes());

    assert_eq!(result.id, "abc123");
    assert_eq!(
        result.sql,
        "SELECT * FROM users WHERE name LIKE '%test%' AND status IN (1, 2, 3)"
    );
}

#[test]
fn last_query_takes_params_from_anywhere_in_the_log() {
    let content = "id=aa sql=SELECT 1 WHERE x = ?\n\
                   id=aa params=[Int:1:7]\n\
                   id=bb sql=SELECT 2\n\
                   id=aa sql=SELECT 3 WHERE y = ?\n";
    let parser = LogParser::new("UTF-8".to_string());
    let result = parser.get_last_query(&library(), content.as_bytes());
    assert_eq!(result.id, "aa");
    assert_eq!(result.sql, "SELECT 3 WHERE y = ?");
    assert_eq!(result.params, vec!["Int:1:7".to_string()]);
}

#[test]
fn last_query_passes_over_a_statement_without_text() {
    let content = "id=aa sql=SELECT 1\nid=bb sql=   \n";
    let parser = LogParser::new("UTF-8".to_string());
    let result = parser.get_last_query(&library(), content.as_bytes());
    assert_eq!(result.id, "aa");
    assert_eq!(result.sql, "SELECT 1");
    assert!(result.params.is_empty());
}

#[test]
fn last_query_handles_carriage_returns_and_a_missing_final_newline() {
    let content = "id=aa sql=SELECT 1\r\nid=aa params=[Int:1:1]\r\nid=cc sql=SELECT 9";
    let parser = LogParser::new("UTF-8".to_string());
    let result = parser.get_last_query(&library(), content.as_bytes());
    assert_eq!(result.id, "cc");
    assert_eq!(result.sql, "SELECT 9");
}

#[test]
fn all_ids_come_in_first_seen_order_with_their_counts() {
    let content = "id=bb sql=SELECT 2\n\
                   id=aa sql=SELECT 1\n\
                   id=aa params=[Int:1:1]\n\
                   id=bb sql=SELECT 2 again\n\
                   id=aa params=[Int:1:2]\n\
                   id=bb params=[]\n";
    let parser = LogParser::new("UTF-8".to_string());
    let ids = parser.get_all_ids(&library(), content.as_bytes());
    assert_eq!(ids.len(), 2);
    assert_eq!(ids[0].id, "bb");
    assert!(ids[0].has_sql);
    assert_eq!(ids[0].params_count, 1);
    assert_eq!(ids[1].id, "aa");
    assert!(ids[1].has_sql);
    assert_eq!(ids[1].params_count, 2);
}

#[test]
fn all_ids_never_list_an_id_seen_in_params_alone() {
    let content = "id=ee params=[Int:1:1]\n\
                   id=aa sql=SELECT 1\n\
                   id=ee params=[Int:1:2]\n\
                   id=ff params=[Int:1:3]\n";
    let parser = LogParser::new("UTF-8".to_string());
    let ids = parser.get_all_ids(&library(), content.as_bytes());
    assert_eq!(ids.len(), 1);
    assert_eq!(ids[0].id, "aa");
    assert_eq!(ids[0].params_count, 0);
}

#[test]
fn all_ids_do_not_count_params_that_come_before_the_statement() {
    let content = "id=aa params=[Int:1:1]\nid=aa sql=SELECT 1\nid=aa params=[Int:1:2]\n";
    let parser = LogParser::new("UTF-8".to_string());
    let ids = parser.get_all_ids(&library(), content.as_bytes());
    assert_eq!(ids.len(), 1);
    assert_eq!(ids[0].params_count, 1);
}

#[test]
fn all_ids_of_an_empty_log_are_none() {
    let parser = LogParser::default();
    assert!(parser.get_all_ids(&library(), b"").is_empty());
}

#[test]
fn all_ids_accept_lowercase_hex_only() {
    let content = "id=XYZ sql=SELECT 1\nid=0af9 sql=SELECT 2\n";
    let parser = LogParser::new("UTF-8".to_string());
    let ids = parser.get_all_ids(&library(), content.as_bytes());
    assert_eq!(ids.len(), 1);
    assert_eq!(ids[0].id, "0af9");
}

#[test]
fn executions_are_numbered_from_one_without_gaps() {
    let content = "2024/01/01 10:00:00,INFO,Test,id=abc123 sql=SELECT * FROM users WHERE id = ?\n\
                   2024/01/01 10:00:01,INFO,Test,id=abc123 params=[Int:1:1]\n\
                   noise\n\
                   2024/01/01 10:02:00,INFO,Test,id=abc123 params=[Int:1:2]\n\
                   2024/01/01 10:02:30,INFO,Test,id=fff000 params=[Int:1:99]\n\
                   2024/01/01 10:03:00,INFO,Test,id=abc123 params=[Int:1:3]\n";
    let parser = LogParser::new("UTF-8".to_string());
    let runs = parser.parse_log_file_advanced(&library(), content.as_bytes(), "abc123");
    assert_eq!(runs.len(), 3);
    for (i, run) in runs.iter().enumerate() {
        assert_eq!(run.execution_index, i as i32 + 1);
        assert_eq!(run.id, "abc123");
        assert_eq!(run.sql, "SELECT * FROM users WHERE id = ?");
        assert_eq!(run.dao_file, "Unknown");
    }
    assert_eq!(runs[0].filled_sql, "SELECT * FROM users WHERE id = 1");
    assert_eq!(runs[1].filled_sql, "SELECT * FROM users WHERE id = 2");
    assert_eq!(runs[2].filled_sql, "SELECT * FROM users WHERE id = 3");
    assert_eq!(runs[0].timestamp, "2024/01/01 10:00:01");
    assert_eq!(runs[2].timestamp, "2024/01/01 10:03:00");
    assert_eq!(runs[1].params, vec!["Int:1:2".to_string()]);
}

#[test]
fn a_statement_without_params_gives_one_execution() {
    let content = "2024/01/01 10:00:00,INFO,Test,id=abc123 sql=SELECT 1\nnoise\n";
    let parser = LogParser::default();
    let runs = parser.parse_log_file_advanced(&library(), content.as_bytes(), "abc123");
    assert_eq!(runs.len(), 1);
    assert_eq!(runs[0].execution_index, 1);
    assert_eq!(runs[0].sql, "SELECT 1");
    assert_eq!(runs[0].filled_sql, "SELECT 1");
    assert!(runs[0].params.is_empty());
    assert_eq!(runs[0].timestamp, "2024/01/01 10:00:00");
}

#[test]
fn the_first_template_wins() {
    let content = "id=abc123 sql=SELECT 1 WHERE a = ?\n\
                   id=abc123 params=[Int:1:1]\n\
                   id=abc123 sql=SELECT 2 WHERE b = ?\n\
                   id=abc123 params=[Int:1:2]\n";
    let parser = LogParser::new("UTF-8".to_string());
    let runs = parser.parse_log_file_advanced(&library(), content.as_bytes(), "abc123");
    assert_eq!(runs.len(), 2);
    assert_eq!(runs[0].sql, "SELECT 1 WHERE a = ?");
    assert_eq!(runs[1].sql, "SELECT 1 WHERE a = ?");
    assert_eq!(runs[1].filled_sql, "SELECT 1 WHERE a = 2");
}

#[test]
fn params_before_any_statement_are_passed_over() {
    let content = "id=abc123 params=[Int:1:1]\nid=abc123 sql=SELECT ?\nid=abc123 params=[Int:1:2]\n";
    let parser = LogParser::new("UTF-8".to_string());
    let runs = parser.parse_log_file_advanced(&library(), content.as_bytes(), "abc123");
    assert_eq!(runs.len(), 1);
    assert_eq!(runs[0].filled_sql, "SELECT 2");
    assert_eq!(runs[0].execution_index, 1);
}

#[test]
fn a_bare_statement_takes_the_timestamp_of_the_line_before() {
    let content = "2024/02/02 08:00:00 something\n  id=abc123 sql=SELECT 1\nid=abc123 params=[]\n";
    let parser = LogParser::new("UTF-8".to_string());
    let runs = parser.parse_log_file_advanced(&library(), content.as_bytes(), "abc123");
    assert_eq!(runs.len(), 1);
    assert_eq!(runs[0].timestamp, "2024/02/02 08:00:00");
    assert!(runs[0].params.is_empty());
}

#[test]
fn the_attribution_marker_is_found_after_the_statement() {
    let content = "id=abc123 sql=SELECT 1\n\
                   other\n\
                   x Daoの終了jp.co.example.app.UserDao end\n\
                   y Daoの終了jp.co.example.app.OrderDao end\n\
                   id=abc123 params=[]\n";
    let parser = LogParser::new("UTF-8".to_string());
    let runs = parser.parse_log_file_advanced(&library(), content.as_bytes(), "abc123");
    assert_eq!(runs.len(), 1);
    assert_eq!(runs[0].dao_file, "UserDao");
}

#[test]
fn the_attribution_marker_can_be_replaced() {
    let patterns = PatternLibrary::with_attribution(r"done by (\w+)").expect("compiles");
    let content = "id=abc123 sql=SELECT 1\ndone by Ledger\n";
    let parser = LogParser::new("UTF-8".to_string());
    let runs = parser.parse_log_file_advanced(&patterns, content.as_bytes(), "abc123");
    assert_eq!(runs[0].dao_file, "Ledger");
    assert!(PatternLibrary::with_attribution("(unclosed").is_none());
}

#[test]
fn a_failed_fill_keeps_the_template() {
    let content = "id=abc123 sql=SELECT ? AND ?\nid=abc123 params=[Int:1:1]\n";
    let parser = LogParser::new("UTF-8".to_string());
    let runs = parser.parse_log_file_advanced(&library(), content.as_bytes(), "abc123");
    assert_eq!(runs.len(), 1);
    assert_eq!(runs[0].filled_sql, "SELECT ? AND ?");
}

#[test]
fn an_unknown_id_gives_no_executions() {
    let content = "id=abc123 sql=SELECT 1\n";
    let parser = LogParser::default();
    assert!(parser.parse_log_file_advanced(&library(), content.as_bytes(), "abc").is_empty());
    assert!(parser.parse_log_file_advanced(&library(), b"", "abc123").is_empty());
}

#[test]
fn the_target_id_is_taken_literally() {
    let content = "id=abc sql=SELECT letter\nid=a.c sql=SELECT dot\n";
    let parser = LogParser::new("UTF-8".to_string());
    let runs = parser.parse_log_file_advanced(&library(), content.as_bytes(), "a.c");
    assert_eq!(runs.len(), 1);
    assert_eq!(runs[0].sql, "SELECT dot");
}

#[test]
fn find_by_id_returns_the_first_statement_and_the_first_params() {
    let content = "id=abc123 params=[Int:1:0]\n\
                   id=abc123 sql=  SELECT 1 WHERE a = ?  \n\
                   id=abc123 params=[Int:1:1]\n\
                   id=abc123 sql=SELECT 2\n";
    let parser = LogParser::new("UTF-8".to_string());
    let result = parser.parse_log_file(&library(), content.as_bytes(), "abc123");
    assert_eq!(result.id, "abc123");
    assert_eq!(result.sql, "SELECT 1 WHERE a = ?");
    assert_eq!(result.params, vec!["Int:1:0".to_string()]);
    assert!(result.found());
}

#[test]
fn find_by_id_on_an_empty_log_finds_nothing() {
    let parser = LogParser::default();
    let result = parser.parse_log_file(&library(), b"", "abc123");
    assert_eq!(result.id, "abc123");
    assert!(!result.found());
    assert!(result.params.is_empty());
}

#[test]
fn shift_jis_logs_are_decoded_line_by_line() {
    // "id=ab sql=SELECT '日本語'" in Shift_JIS.
    let mut data: Vec<u8> = b"id=ab sql=SELECT '".to_vec();
    data.extend_from_slice(&[0x93, 0xFA, 0x96, 0x7B, 0x8C, 0xEA]);
    data.extend_from_slice(b"'\n");
    let parser = LogParser::default();
    assert_eq!(parser.encoding(), "SHIFT_JIS");
    let result = parser.get_last_query(&library(), &data);
    assert_eq!(result.sql, "SELECT '日本語'");
    let mut parser = parser;
    parser.set_encoding("UTF-8".to_string());
    assert_eq!(parser.encoding(), "UTF-8");
}

fn facts() -> LineFacts {
    LineFacts { timestamp: None, correlated: None, statement: None, params: None, attribution: None }
}

#[test]
fn correlate_works_on_plain_facts() {
    let lines = vec![
        LineFacts { timestamp: Some("T0".to_string()), ..facts() },
        LineFacts { statement: Some("SELECT ?".to_string()), ..facts() },
        LineFacts { attribution: Some("FirstDao".to_string()), ..facts() },
        LineFacts { params: Some(vec!["Int:1:5".to_string()]), ..facts() },
        LineFacts {
            timestamp: Some("T4".to_string()),
            correlated: Some(("T4".to_string(), "SELECT other".to_string())),
            statement: Some("SELECT other".to_string()),
            params: Some(vec!["Int:1:6".to_string()]),
            ..facts()
        },
    ];
    let runs = correlate("k1", &lines);
    assert_eq!(runs.len(), 2);
    assert_eq!(runs[0].id, "k1");
    assert_eq!(runs[0].timestamp, "T0");
    assert_eq!(runs[0].dao_file, "FirstDao");
    assert_eq!(runs[0].filled_sql, "SELECT 5");
    assert_eq!(runs[0].execution_index, 1);
    assert_eq!(runs[1].timestamp, "T4");
    assert_eq!(runs[1].sql, "SELECT ?");
    assert_eq!(runs[1].filled_sql, "SELECT 6");
    assert_eq!(runs[1].execution_index, 2);
}

#[test]
fn correlate_counts_params_on_the_settling_line() {
    let lines = vec![LineFacts {
        statement: Some("SELECT ?".to_string()),
        params: Some(vec!["Int:1:1".to_string()]),
        ..facts()
    }];
    let runs = correlate("k", &lines);
    assert_eq!(runs.len(), 1);
    assert_eq!(runs[0].filled_sql, "SELECT 1");
}

#[test]
fn correlate_passes_over_a_statement_without_text() {
    let lines = vec![
        LineFacts { statement: Some(String::new()), ..facts() },
        LineFacts { params: Some(vec![]), ..facts() },
        LineFacts { statement: Some("SELECT 1".to_string()), ..facts() },
    ];
    let runs = correlate("k", &lines);
    assert_eq!(runs.len(), 1);
    assert_eq!(runs[0].sql, "SELECT 1");
    assert!(runs[0].params.is_empty());
}

#[test]
fn the_attribution_window_ends_before_the_fiftieth_line() {
    let mut lines: Vec<LineFacts> = (0..60).map(|_| facts()).collect();
    lines[50].attribution = Some("LateDao".to_string());
    assert_eq!(find_dao_class_name(&lines, 0), "Unknown");
    assert_eq!(find_dao_class_name(&lines, 1), "LateDao");
    lines[0].attribution = Some("SameLineDao".to_string());
    assert_eq!(find_dao_class_name(&lines, 0), "Unknown");
    assert_eq!(find_dao_class_name(&lines, 59), "Unknown");
    assert_eq!(find_dao_class_name(&lines, 1000), "Unknown");
}

#[test]
fn first_query_works_on_plain_facts() {
    let lines = vec![
        LineFacts { params: Some(vec!["a".to_string()]), ..facts() },
        LineFacts { statement: Some(String::new()), ..facts() },
        LineFacts { statement: Some("SELECT 1".to_string()), ..facts() },
    ];
    let result = first_query("k", &lines);
    assert_eq!(result.id, "k");
    assert_eq!(result.sql, "");
    assert_eq!(result.params, vec!["a".to_string()]);
}

#[test]
fn list_ids_works_on_plain_events() {
    let events = vec![
        LineEvents { statement: None, params: Some(("p".to_string(), vec![])) },
        LineEvents {
            statement: Some(("a".to_string(), "SELECT".to_string())),
            params: Some(("a".to_string(), vec![])),
        },
        LineEvents { statement: Some(("b".to_string(), String::new())), params: None },
        LineEvents { statement: None, params: Some(("a".to_string(), vec![])) },
    ];
    let ids = list_ids(&events);
    assert_eq!(ids.len(), 2);
    assert_eq!((ids[0].id.as_str(), ids[0].has_sql, ids[0].params_count), ("a", true, 2));
    assert_eq!((ids[1].id.as_str(), ids[1].has_sql, ids[1].params_count), ("b", true, 0));
}

#[test]
fn find_last_query_works_on_plain_events() {
    let events = vec![
        LineEvents { statement: None, params: Some(("z".to_string(), vec!["early".to_string()])) },
        LineEvents { statement: Some(("a".to_string(), "SELECT a".to_string())), params: None },
        LineEvents { statement: Some(("z".to_string(), "SELECT z".to_string())), params: None },
        LineEvents { statement: Some(("q".to_string(), String::new())), params: None },
        LineEvents { statement: None, params: Some(("a".to_string(), vec!["late".to_string()])) },
    ];
    let result = find_last_query(&events);
    assert_eq!(result.id, "z");
    assert_eq!(result.sql, "SELECT z");
    assert_eq!(result.params, vec!["early".to_string()]);
    assert!(!find_last_query(&Vec::new()).found());
}
