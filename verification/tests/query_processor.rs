use sql_log_parser::log_parser::{Execution, QueryResult};
use sql_log_parser::pattern::PatternLibrary;
use sql_log_parser::query_processor::{
    get_filled_query, group_by_template, summarize, summarize_last, ProcessResult, QueryProcessor,
};

fn library() -> PatternLibrary {
    PatternLibrary::new().expect("the fixed patterns compile")
}

#[test]
fn query_processor_test_get_filled_query_no_params() {
    let processor = QueryProcessor::new();
    let query = QueryResult {
        id: "test".to_string(),
        sql: "SELECT 1".to_string(),
        params: Vec::new(),
    };
    assert_eq!(processor.get_filled_query(&query), "SELECT 1");
}

#[test]
fn query_processor_test_get_filled_query_with_params() {
    let processor = QueryProcessor::new();
    let query = QueryResult {
        id: "test".to_string(),
        sql: "SELECT * FROM t WHERE id = ?".to_string(),
        params: vec!["Int:1:42".to_string()],
    };
    assert_eq!(processor.get_filled_query(&query), "SELECT * FROM t WHERE id = 42");
}

#[test]
fn a_query_that_cannot_be_filled_stays_as_it_is() {
    let query = QueryResult {
        id: "t".to_string(),
        sql: "SELECT ?, ?".to_string(),
        params: vec!["Int:1:1".to_string()],
    };
    assert_eq!(get_filled_query(&query), "SELECT ?, ?");
    assert_eq!(get_filled_query(&QueryResult::default()), "");
}

fn run(sql: &str, index: i32) -> Execution {
    Execution { sql: sql.to_string(), execution_index: index, ..Execution::default() }
}

#[test]
fn grouping_partitions_the_executions() {
    let runs = vec![run("B", 1), run("A", 2), run("B", 3), run("b", 4), run("A", 5), run("B", 6)];
    let groups = group_by_template(&runs);
    let templates: Vec<&str> = groups.iter().map(|g| g.template_sql.as_str()).collect();
    assert_eq!(templates, vec!["B", "A", "b"]);
    let members: Vec<Vec<i32>> = groups
        .iter()
        .map(|g| g.executions.iter().map(|e| e.execution_index).collect())
        .collect();
    assert_eq!(members, vec![vec![1, 3, 6], vec![2, 5], vec![4]]);
    let total: usize = groups.iter().map(|g| g.executions.len()).sum();
    assert_eq!(total, runs.len());
    for group in &groups {
        assert!(group.executions.iter().all(|e| e.sql == group.template_sql));
        assert!(!group.is_expanded && !group.is_template_expanded);
    }
}

#[test]
fn grouping_formats_the_template() {
    let groups = group_by_template(&vec![run("SELECT a FROM t", 1)]);
    assert_eq!(groups.len(), 1);
    assert_eq!(groups[0].formatted_template_sql, "SELECT a\nFROM t");
    assert!(group_by_template(&Vec::new()).is_empty());
}

#[test]
fn grouping_does_not_normalise_whitespace() {
    let groups = group_by_template(&vec![run("SELECT 1", 1), run("SELECT  1", 2)]);
    assert_eq!(groups.len(), 2);
}

#[test]
fn resolving_an_id_takes_the_last_execution_as_representative() {
    let content = "id=abc123 sql=SELECT * FROM t WHERE id = ?\n\
                   id=abc123 params=[Int:1:1]\n\
                   id=abc123 params=[Int:1:2]\n";
    let processor = QueryProcessor::new();
    let result = processor.process_query(&library(), "abc123", content.as_bytes());
    assert!(result.success());
    assert_eq!(result.error, None);
    assert_eq!(result.executions.len(), 2);
    assert_eq!(result.groups.len(), 1);
    assert_eq!(result.groups[0].executions.len(), 2);
    assert_eq!(result.query.id, "abc123");
    assert_eq!(result.query.params, vec!["Int:1:2".to_string()]);
    assert_eq!(result.filled_sql, "SELECT * FROM t WHERE id = 2");
    assert_eq!(result.formatted_sql, "SELECT *\nFROM t\nWHERE id = ?");
    assert_eq!(result.formatted_params, "  [1] Int: 2\n");
    assert!(!result.copied_to_clipboard);
}

#[test]
fn resolving_an_unknown_id_is_an_error() {
    let processor = QueryProcessor::default();
    let result = processor.process_query(&library(), "abc123", b"nothing here\n");
    assert!(!result.success());
    assert_eq!(result.error, Some("ID not found: abc123".to_string()));
    assert!(result.executions.is_empty() && result.groups.is_empty());
    assert!(!result.wants_copy(true));
}

#[test]
fn resolving_the_last_query_gives_one_execution_in_one_group() {
    let content = "id=aa sql=SELECT 1\nid=bb sql=SELECT x WHERE y = ?\nid=bb params=[String:1:v]\n";
    let processor = QueryProcessor::new();
    let result = processor.process_last_query(&library(), content.as_bytes());
    assert!(result.success());
    assert_eq!(result.query.id, "bb");
    assert_eq!(result.filled_sql, "SELECT x WHERE y = 'v'");
    assert_eq!(result.executions.len(), 1);
    assert_eq!(result.executions[0].timestamp, "Last Execution");
    assert_eq!(result.executions[0].dao_file, "");
    assert_eq!(result.executions[0].execution_index, 1);
    assert_eq!(result.groups.len(), 1);
    assert_eq!(result.groups[0].template_sql, "SELECT x WHERE y = ?");
    assert_eq!(result.groups[0].formatted_template_sql, "SELECT x\nWHERE y = ?");
}

#[test]
fn resolving_the_last_query_of_an_empty_log_is_an_error() {
    let processor = QueryProcessor::new();
    for content in ["", "   \n\n   \n\t\t\n", "no statement\n"] {
        let result = processor.process_last_query(&library(), content.as_bytes());
        assert!(!result.success());
        assert_eq!(result.error, Some("No SQL queries found in log file".to_string()));
        assert!(result.executions.is_empty());
    }
}

#[test]
fn summaries_work_on_plain_values() {
    let failed = summarize("zz", Vec::new());
    assert_eq!(failed.error, Some("ID not found: zz".to_string()));
    let ok = summarize("zz", vec![run("SELECT 1", 1)]);
    assert!(ok.success());
    assert_eq!(ok.formatted_params, "Not found");
    let none = summarize_last(QueryResult::default());
    assert!(!none.success());
}

#[test]
fn copying_is_asked_for_only_with_text_and_consent() {
    let mut result = summarize(
        "zz",
        vec![Execution { filled_sql: "SELECT 1".to_string(), ..run("SELECT 1", 1) }],
    );
    assert!(result.wants_copy(true));
    assert!(!result.wants_copy(false));
    result.record_copy(true);
    assert!(result.copied_to_clipboard);
    assert!(result.success());
    let empty = ProcessResult::default();
    assert!(!empty.wants_copy(true));
    assert!(!empty.success());
}

#[test]
fn the_scanner_of_a_processor_can_be_changed() {
    let mut processor = QueryProcessor::new();
    assert_eq!(processor.parser().encoding(), "SHIFT_JIS");
    processor.parser_mut().set_encoding("UTF-8".to_string());
    assert_eq!(processor.parser().encoding(), "UTF-8");
}
