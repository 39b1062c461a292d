use sql_log_parser::html_generator::{HtmlGenerator, HtmlOptions, SqlHighlighter};
use sql_log_parser::log_parser::Execution;

fn highlighter() -> SqlHighlighter {
    SqlHighlighter::new().expect("the highlighting patterns compile")
}

#[test]
fn test_escape_html() {
    let gen = HtmlGenerator::new();
    assert_eq!(gen.escape_html("<script>"), "&lt;script&gt;");
    assert_eq!(gen.escape_html("a & b"), "a &amp; b");
}

#[test]
fn test_generate_empty_report() {
    let gen = HtmlGenerator::new();
    let html = gen.generate_report(&highlighter(), &[], &HtmlOptions::default(), "2024-01-01 10:00:00");
    assert!(html.contains("<!DOCTYPE html>"));
    assert!(html.contains("Total Executions: 0"));
}

#[test]
fn escape_html_covers_quotes_and_existing_entities() {
    let gen = HtmlGenerator::default();
    assert_eq!(gen.escape_html("\"it's\" &amp;"), "&quot;it&#39;s&quot; &amp;amp;");
    assert_eq!(gen.escape_html(""), "");
}

#[test]
fn short_dao_names_are_what_follows_the_last_dot() {
    let gen = HtmlGenerator::new();
    assert_eq!(gen.get_short_dao_name("jp.co.example.UserDao"), "UserDao");
    assert_eq!(gen.get_short_dao_name("UserDao"), "UserDao");
    assert_eq!(gen.get_short_dao_name("trailing."), "");
    assert_eq!(gen.get_short_dao_name(""), "");
}

#[test]
fn params_are_shown_in_spans() {
    let gen = HtmlGenerator::new();
    assert_eq!(
        gen.format_params_html(&Vec::new()),
        "<div class=\"param-item\">No parameters</div>"
    );
    assert_eq!(
        gen.format_params_html(&vec!["String:1:<b>".to_string(), "raw&".to_string()]),
        "<div class=\"param-item\"><span class=\"param-index\">[1]</span> \
         <span class=\"param-type\">String</span>: <span class=\"param-value\">&lt;b&gt;</span></div>\
         <div class=\"param-item\">raw&amp;</div>"
    );
}

#[test]
fn statements_are_marked_up_after_escaping() {
    let marked = highlighter().highlight_sql("select a from t where n < 10");
    assert_eq!(
        marked,
        "<span class=\"keyword\">select</span> a <span class=\"keyword\">from</span> t \
         <span class=\"keyword\">where</span> n &lt; <span class=\"number\">10</span>"
    );
}

#[test]
fn nav_items_show_number_short_id_and_class() {
    let gen = HtmlGenerator::new();
    let run = Execution {
        id: "0123456789abcdef".to_string(),
        dao_file: "jp.co.x.OrderDao".to_string(),
        execution_index: 3,
        ..Execution::default()
    };
    assert_eq!(
        gen.generate_nav_item(&run, 12),
        "<div class=\"nav-item\" id=\"nav-12\" onclick=\"showCard(12)\">\n    \
         <div class=\"id\">#3 - 01234567</div>\n    <div class=\"dao\">OrderDao</div>\n</div>"
    );
}

#[test]
fn reports_hold_a_card_per_execution() {
    let gen = HtmlGenerator::new();
    let runs = vec![
        Execution {
            id: "abc".to_string(),
            timestamp: "2024/01/01 10:00:00".to_string(),
            dao_file: "UserDao".to_string(),
            sql: "SELECT ?".to_string(),
            filled_sql: "SELECT 1".to_string(),
            params: vec!["Int:1:1".to_string()],
            execution_index: 1,
        },
        Execution { id: "abc".to_string(), execution_index: 2, ..Execution::default() },
    ];
    let options = HtmlOptions { title: "Run <1>".to_string(), log_file: "/var/log/a&b.log".to_string() };
    let html = gen.generate_report(&highlighter(), &runs, &options, "2024-05-06 07:08:09");
    assert!(html.starts_with("<!DOCTYPE html>\n<html lang=\"ja\">"));
    assert!(html.ends_with("</body>\n</html>"));
    assert!(html.contains("<title>Run &lt;1&gt;</title>"));
    assert!(html.contains("<div>Generated: 2024-05-06 07:08:09</div>"));
    assert!(html.contains("<div>Log File: /var/log/a&amp;b.log</div>"));
    assert!(html.contains("<div>Total Executions: 2</div>"));
    assert!(html.contains("id=\"card-0\""));
    assert!(html.contains("id=\"card-1\""));
    assert!(html.contains("<div class=\"card-title\">Execution #2</div>"));
    assert!(html.contains("<div class=\"section-title\">Parameters (1)</div>"));
    assert!(html.contains("onclick=\"copyToClipboard('sql-1', this)\""));
    assert!(html.contains("* { margin: 0; padding: 0; box-sizing: border-box; }"));
    let card = gen.generate_execution_card(&highlighter(), &runs[0], 0);
    assert!(html.contains(&card));
    assert!(card.contains("<span class=\"keyword\">SELECT</span> <span class=\"number\">1</span>"));
}

#[test]
fn reports_without_title_or_log_file_say_so() {
    let gen = HtmlGenerator::new();
    let html = gen.generate_report(&highlighter(), &[], &HtmlOptions::default(), "now");
    assert!(html.contains("<title>SQL Report</title>"));
    assert!(html.contains("<div>Log File: N/A</div>"));
}
