use sql_log_parser::sql_formatter::{format_params, format_sql, replace_placeholders};

fn strings(items: &[&str]) -> Vec<String> {
    items.iter().map(|s| s.to_string()).collect()
}

#[test]
fn test_format_sql() {
    let sql = "SELECT * FROM users WHERE id = 1 AND active = true";
    let formatted = format_sql(sql);
    assert!(formatted.contains("\nWHERE"));
    assert!(formatted.contains("\nAND"));
}

#[test]
fn test_format_params() {
    let params = vec!["String:1:hello".to_string(), "Int:2:42".to_string()];
    let formatted = format_params(&params);
    assert!(formatted.contains("[1] String: hello"));
    assert!(formatted.contains("[2] Int: 42"));
}

#[test]
fn test_replace_placeholders() {
    let query = "SELECT * FROM users WHERE name = ? AND id = ?";
    let params = vec!["String:1:John".to_string(), "Int:2:42".to_string()];
    let result = replace_placeholders(query, &params).unwrap();
    assert_eq!(result, "SELECT * FROM users WHERE name = 'John' AND id = 42");
}

#[test]
fn test_replace_placeholders_types() {
    let query = "SELECT * FROM t WHERE a = ? AND b = ? AND c = ?";
    let params = vec![
        "String:1:null".to_string(),
        "Timestamp:2:2024-01-01 10:00:00".to_string(),
        "Boolean:3:true".to_string(),
    ];
    let result = replace_placeholders(query, &params).unwrap();
    assert_eq!(
        result,
        "SELECT * FROM t WHERE a = NULL AND b = '2024-01-01 10:00:00' AND c = TRUE"
    );
}

#[test]
fn test_escape_quotes() {
    let query = "INSERT INTO t (name) VALUES (?)";
    let params = vec!["String:1:O'Brien".to_string()];
    let result = replace_placeholders(query, &params).unwrap();
    assert_eq!(result, "INSERT INTO t (name) VALUES ('O''Brien')");
}

#[test]
fn substitute_fills_by_position_and_doubles_quotes() {
    let result = replace_placeholders(
        "SELECT * FROM t WHERE id = ? AND name = ?",
        &strings(&["Int:1:42", "String:2:O'Brien"]),
    );
    assert_eq!(
        result,
        Ok("SELECT * FROM t WHERE id = 42 AND name = 'O''Brien'".to_string())
    );
}

#[test]
fn substitute_formats_null_timestamp_and_boolean() {
    let result = replace_placeholders(
        "... a=? AND b=? AND c=?",
        &strings(&["String:1:null", "Timestamp:2:2024-01-01 10:00:00", "Boolean:3:true"]),
    );
    assert_eq!(
        result,
        Ok("... a=NULL AND b='2024-01-01 10:00:00' AND c=TRUE".to_string())
    );
}

#[test]
fn substitute_names_the_missing_position() {
    let result = replace_placeholders("a = ? AND b = ?", &strings(&["Int:1:7"]));
    assert_eq!(result, Err("Missing value for position 2".to_string()));
}

#[test]
fn substitute_names_a_two_digit_position() {
    let sql = "?,?,?,?,?,?,?,?,?,?,?,?";
    let tokens: Vec<String> = (1..=11).map(|i| format!("Int:{}:{}", i, i * 10)).collect();
    let result = replace_placeholders(sql, &tokens);
    assert_eq!(result, Err("Missing value for position 12".to_string()));
}

#[test]
fn substitute_is_repeatable() {
    let tokens = strings(&["String:1:a", "Int:2:5"]);
    let first = replace_placeholders("x=? y=?", &tokens);
    let second = replace_placeholders("x=? y=?", &tokens);
    assert_eq!(first, second);
    assert_eq!(first, Ok("x='a' y=5".to_string()));
}

#[test]
fn substitute_counts_placeholders_not_declared_positions() {
    // Tokens may come in any order; what counts is the declared position.
    let result = replace_placeholders("a=? b=?", &strings(&["Int:2:20", "Int:1:10"]));
    assert_eq!(result, Ok("a=10 b=20".to_string()));
}

#[test]
fn substitute_lets_the_last_duplicate_win() {
    let result = replace_placeholders("a=?", &strings(&["Int:1:1", "Int:1:2"]));
    assert_eq!(result, Ok("a=2".to_string()));
}

#[test]
fn substitute_drops_tokens_with_a_bad_position() {
    let result = replace_placeholders("a=?", &strings(&["Int:x:1", "Int:1:9", "Int::3"]));
    assert_eq!(result, Ok("a=9".to_string()));
    let missing = replace_placeholders("a=?", &strings(&["Int:one:1"]));
    assert_eq!(missing, Err("Missing value for position 1".to_string()));
}

#[test]
fn substitute_skips_tokens_with_fewer_than_three_parts() {
    let result = replace_placeholders("a=?", &strings(&["Int:1", "garbage", "Long:1:5"]));
    assert_eq!(result, Ok("a=5".to_string()));
}

#[test]
fn substitute_accepts_signs_and_leading_zeros_in_positions() {
    let result = replace_placeholders("a=? b=?", &strings(&["Int:+1:5", "Int:002:6"]));
    assert_eq!(result, Ok("a=5 b=6".to_string()));
    let negative = replace_placeholders("a=?", &strings(&["Int:-1:5"]));
    assert_eq!(negative, Err("Missing value for position 1".to_string()));
    let too_big = replace_placeholders("a=?", &strings(&["Int:2147483648:5"]));
    assert_eq!(too_big, Err("Missing value for position 1".to_string()));
}

#[test]
fn substitute_keeps_colons_in_the_value() {
    let result = replace_placeholders("t=?", &strings(&["Timestamp:1:10:20:30"]));
    assert_eq!(result, Ok("t='10:20:30'".to_string()));
}

#[test]
fn substitute_treats_type_names_without_regard_to_case() {
    let result = replace_placeholders(
        "a=? b=? c=? d=?",
        &strings(&["STRING:1:x", "bigDecimal:2:1.50", "DATE:3:2024-01-01", "boolean:4:False"]),
    );
    assert_eq!(result, Ok("a='x' b=1.50 c='2024-01-01' d=FALSE".to_string()));
}

#[test]
fn substitute_guesses_for_unknown_types() {
    let result = replace_placeholders(
        "a=? b=? c=?",
        &strings(&["Blob:1:12.5", "Blob:2:it's", "Blob:3:"]),
    );
    assert_eq!(result, Ok("a=12.5 b='it''s' c=".to_string()));
}

#[test]
fn substitute_makes_null_of_any_type() {
    let result = replace_placeholders("a=? b=?", &strings(&["Int:1:null", "Whatever:2:null"]));
    assert_eq!(result, Ok("a=NULL b=NULL".to_string()));
    let upper = replace_placeholders("a=?", &strings(&["String:1:NULL"]));
    assert_eq!(upper, Ok("a='NULL'".to_string()));
}

#[test]
fn substitute_without_placeholders_returns_the_text() {
    assert_eq!(replace_placeholders("SELECT 1", &[]), Ok("SELECT 1".to_string()));
    assert_eq!(replace_placeholders("", &strings(&["Int:1:1"])), Ok(String::new()));
}

#[test]
fn format_sql_of_nothing_is_not_found() {
    assert_eq!(format_sql(""), "Not found");
}

#[test]
fn format_sql_breaks_before_each_keyword() {
    assert_eq!(
        format_sql("SELECT a FROM t WHERE x = 1 AND y = 2 OR z = 3 GROUP BY a ORDER BY a"),
        "SELECT a\nFROM t\nWHERE x = 1\nAND y = 2\nOR z = 3\nGROUP BY a\nORDER BY a"
    );
}

#[test]
fn format_sql_matches_any_case_and_writes_capitals() {
    assert_eq!(format_sql("select a from t where x = 1"), "select a\nFROM t\nWHERE x = 1");
}

#[test]
fn format_sql_trims_the_result() {
    assert_eq!(format_sql("  x SELECT y  "), "x\nSELECT y");
    assert_eq!(format_sql("   "), "");
}

#[test]
fn format_sql_needs_spaces_on_both_sides() {
    assert_eq!(format_sql("a ANDROID b"), "a ANDROID b");
    assert_eq!(format_sql("a AND AND b"), "a\nAND AND b");
}

#[test]
fn format_params_of_nothing_is_not_found() {
    assert_eq!(format_params(&[]), "Not found");
}

#[test]
fn format_params_gives_one_line_per_token() {
    let text = format_params(&strings(&["String:1:hello", "broken", "Int:2:4:2"]));
    assert_eq!(text, "  [1] String: hello\n  broken\n  [2] Int: 4:2\n");
}
