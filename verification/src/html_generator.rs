//! The report page: executions as a self-contained HTML document.
//!
//! Statement text is escaped first and marked up afterwards. The marking is
//! done by the pattern engine, one pattern after the other, each on what the
//! one before made of the text.

use vstd::prelude::*;
use regex::Regex;
use crate::log_parser::{Execution, ExecutionView};
use crate::pattern::{compile, pattern_compiles, pattern_of, replace_all, replaced_all};
use crate::sql_formatter::{split_token, token_colons};
use crate::text::{chars_of, decimal, push_decimal, string_of};

verus! {

/// What the report says about itself.
#[derive(Debug)]
pub struct HtmlOptions {
    pub title: String,
    pub log_file: String,
}

/// The mathematical content of an `HtmlOptions`.
pub struct HtmlOptionsView {
    pub title: Seq<char>,
    pub log_file: Seq<char>,
}

impl DeepView for HtmlOptions {
    type V = HtmlOptionsView;

    open spec fn deep_view(&self) -> HtmlOptionsView {
        HtmlOptionsView { title: self.title@, log_file: self.log_file@ }
    }
}

impl Default for HtmlOptions {
    fn default() -> (r: Self)
        ensures
            r.deep_view() == (HtmlOptionsView { title: Seq::empty(), log_file: Seq::empty() }),
    {
        HtmlOptions { title: String::new(), log_file: String::new() }
    }
}

impl Clone for HtmlOptions {
    fn clone(&self) -> (r: Self)
        ensures
            r.deep_view() == self.deep_view(),
    {
        HtmlOptions { title: self.title.clone(), log_file: self.log_file.clone() }
    }
}

/// What stands for `c` in HTML text.
pub open spec fn entity(c: char) -> Seq<char> {
    if c == '&' {
        "&amp;"@
    } else if c == '<' {
        "&lt;"@
    } else if c == '>' {
        "&gt;"@
    } else if c == '"' {
        "&quot;"@
    } else if c == '\'' {
        "&#39;"@
    } else {
        seq![c]
    }
}

/// `s` as HTML text: the five characters with a meaning in markup give way
/// to their entities.
pub open spec fn escaped_html(s: Seq<char>) -> Seq<char>
    decreases s.len(),
{
    if s.len() == 0 {
        Seq::empty()
    } else {
        escaped_html(s.drop_last()) + entity(s.last())
    }
}

/// Appends `v[from..to]` as HTML text to `out`.
fn push_escaped(out: &mut String, v: &Vec<char>, from: usize, to: usize)
    requires
        from <= to <= v.len(),
    ensures
        final(out)@ == old(out)@ + escaped_html(v@.subrange(from as int, to as int)),
{
    let ghost s = v@.subrange(from as int, to as int);
    let mut i: usize = from;
    while i < to
        invariant
            from <= i <= to <= v.len(),
            s == v@.subrange(from as int, to as int),
            out@ == old(out)@ + escaped_html(s.take(i - from)),
        decreases to - i,
    {
        let c = v[i];
        proof {
            assert(s.take(i - from + 1).drop_last() == s.take(i - from));
        }
        if c == '&' {
            out.append("&amp;");
        } else if c == '<' {
            out.append("&lt;");
        } else if c == '>' {
            out.append("&gt;");
        } else if c == '"' {
            out.append("&quot;");
        } else if c == '\'' {
            out.append("&#39;");
        } else {
            out.push(c);
        }
        i += 1;
    }
    assert(s.take(to - from) == s);
}

/// Appends `text` as HTML text to `out`.
fn push_escaped_text(out: &mut String, text: &str)
    ensures
        final(out)@ == old(out)@ + escaped_html(text@),
{
    let v = chars_of(text);
    assert(v@.subrange(0, v.len() as int) == v@);
    push_escaped(out, &v, 0, v.len());
}

/// `n` written in decimal, with a minus sign where it is negative.
pub open spec fn signed_decimal(n: int) -> Seq<char> {
    if n < 0 {
        seq!['-'] + decimal((-n) as nat)
    } else {
        decimal(n as nat)
    }
}

/// Appends `n` in decimal to `out`.
fn push_signed(out: &mut String, n: i32)
    ensures
        final(out)@ == old(out)@ + signed_decimal(n as int),
{
    if n < 0 {
        out.push('-');
        push_decimal(out, (0 - (n as i64)) as u64);
    } else {
        push_decimal(out, n as u64);
    }
}

/// The class name at the end of a dotted path: what follows the last dot.
pub open spec fn short_name(path: Seq<char>) -> Seq<char>
    decreases path.len(),
{
    if path.len() == 0 {
        Seq::empty()
    } else if path.last() == '.' {
        Seq::empty()
    } else {
        short_name(path.drop_last()).push(path.last())
    }
}

/// Where the class name at the end of the dotted path `v` begins.
fn short_name_start(v: &Vec<char>) -> (n: usize)
    ensures
        n <= v.len(),
        v@.skip(n as int) == short_name(v@),
{
    let mut n: usize = v.len();
    assert(v@.take(n as int) == v@);
    while n > 0 && v[n - 1] != '.'
        invariant
            n <= v.len(),
            short_name(v@.take(n as int)) + v@.skip(n as int) == short_name(v@),
        decreases n,
    {
        proof {
            let head = v@.take(n as int);
            assert(head.drop_last() == v@.take(n - 1));
        }
        n -= 1;
    }
    n
}

/// The replacement that puts a match into a `keyword` span.
pub const KEYWORD_SPAN: &'static str = r##"<span class="keyword">$0</span>"##;

/// The replacement that puts a match into a `string` span.
pub const STRING_SPAN: &'static str = r##"<span class="string">$0</span>"##;

/// The replacement that puts a match into a `number` span.
pub const NUMBER_SPAN: &'static str = r##"<span class="number">$0</span>"##;

/// A literal in single quotes.
pub const STRING_PATTERN: &'static str = r"'[^']*'";

/// A number, with or without a fraction.
pub const NUMBER_PATTERN: &'static str = r"\b\d+\.?\d*\b";

/// The words that are marked as keywords, in the order of their passes.
pub open spec fn keywords() -> Seq<Seq<char>> {
    seq![
        "SELECT"@, "FROM"@, "WHERE"@, "AND"@, "OR"@, "INSERT"@,
        "UPDATE"@, "DELETE"@, "INTO"@, "VALUES"@, "SET"@, "JOIN"@,
        "LEFT"@, "RIGHT"@, "INNER"@, "OUTER"@, "ON"@, "AS"@,
        "ORDER"@, "BY"@, "GROUP"@, "HAVING"@, "LIMIT"@, "OFFSET"@,
        "CREATE"@, "ALTER"@, "DROP"@, "TABLE"@, "INDEX"@, "NULL"@,
        "NOT"@, "IN"@, "BETWEEN"@, "LIKE"@, "IS"@, "EXISTS"@,
        "CASE"@, "WHEN"@, "THEN"@, "ELSE"@, "END"@,
    ]
}

/// The pattern for one keyword: the word alone, in any case.
pub open spec fn keyword_pattern(word: Seq<char>) -> Seq<char> {
    r"(?i)\b"@ + word + r"\b"@
}

/// `text` after the passes of the first `n` keywords.
pub open spec fn with_keywords(text: Seq<char>, n: int) -> Seq<char>
    decreases n,
{
    if n <= 0 {
        text
    } else {
        replaced_all(
            keyword_pattern(keywords()[n - 1]),
            with_keywords(text, n - 1),
            KEYWORD_SPAN@,
        )
    }
}

/// A statement as marked-up HTML: escaped, then keywords, string literals
/// and numbers put into spans, in that order.
pub open spec fn highlighted(sql: Seq<char>) -> Seq<char> {
    replaced_all(
        NUMBER_PATTERN@,
        replaced_all(
            STRING_PATTERN@,
            with_keywords(escaped_html(sql), keywords().len() as int),
            STRING_SPAN@,
        ),
        NUMBER_SPAN@,
    )
}

/// Whether every pattern of the highlighter compiles.
pub open spec fn highlighter_compiles() -> bool {
    &&& forall|i: int|
        0 <= i < keywords().len() ==> pattern_compiles(keyword_pattern(#[trigger] keywords()[i]))
    &&& pattern_compiles(STRING_PATTERN@)
    &&& pattern_compiles(NUMBER_PATTERN@)
}

/// The patterns that mark up a statement, compiled once.
pub struct SqlHighlighter {
    words: Vec<Regex>,
    strings: Regex,
    numbers: Regex,
}

impl SqlHighlighter {
    #[verifier::type_invariant]
    spec fn well_formed(&self) -> bool {
        &&& self.words.len() == keywords().len()
        &&& forall|i: int|
            0 <= i < self.words.len() ==> pattern_of(#[trigger] self.words[i]) == keyword_pattern(
                keywords()[i],
            )
        &&& pattern_of(self.strings) == STRING_PATTERN@
        &&& pattern_of(self.numbers) == NUMBER_PATTERN@
    }

    /// Compiles the patterns.
    pub fn new() -> (r: Option<SqlHighlighter>)
        ensures
            r is Some <==> highlighter_compiles(),
    {
        let list: Vec<&'static str> = vec![
            "SELECT", "FROM", "WHERE", "AND", "OR", "INSERT",
            "UPDATE", "DELETE", "INTO", "VALUES", "SET", "JOIN",
            "LEFT", "RIGHT", "INNER", "OUTER", "ON", "AS",
            "ORDER", "BY", "GROUP", "HAVING", "LIMIT", "OFFSET",
            "CREATE", "ALTER", "DROP", "TABLE", "INDEX", "NULL",
            "NOT", "IN", "BETWEEN", "LIKE", "IS", "EXISTS",
            "CASE", "WHEN", "THEN", "ELSE", "END",
        ];
        let mut words: Vec<Regex> = Vec::new();
        let mut i: usize = 0;
        while i < list.len()
            invariant
                i <= list.len(),
                list@.map_values(|w: &'static str| w@) == keywords(),
                words.len() == i,
                forall|k: int|
                    0 <= k < i ==> pattern_of(#[trigger] words[k]) == keyword_pattern(keywords()[k])
                        && pattern_compiles(keyword_pattern(keywords()[k])),
            decreases list.len() - i,
        {
            assert(list@.map_values(|w: &'static str| w@)[i as int] == list[i as int]@);
            let mut text = r"(?i)\b".to_owned();
            text.append(list[i]);
            text.append(r"\b");
            match compile(text.as_str()) {
                Ok(re) => {
                    words.push(re);
                },
                Err(_) => {
                    return None;
                },
            }
            i += 1;
        }
        let strings = match compile(STRING_PATTERN) {
            Ok(re) => re,
            Err(_) => {
                return None;
            },
        };
        let numbers = match compile(NUMBER_PATTERN) {
            Ok(re) => re,
            Err(_) => {
                return None;
            },
        };
        assert forall|k: int| 0 <= k < keywords().len() implies pattern_compiles(
            keyword_pattern(#[trigger] keywords()[k]),
        ) by {
            assert(pattern_of(words[k]) == keyword_pattern(keywords()[k]));
        }
        Some(SqlHighlighter { words, strings, numbers })
    }

    /// Marks up a statement.
    pub fn highlight_sql(&self, sql: &str) -> (r: String)
        ensures
            r@ == highlighted(sql@),
    {
        proof {
            use_type_invariant(self);
        }
        let mut text = String::new();
        push_escaped_text(&mut text, sql);
        let mut i: usize = 0;
        while i < self.words.len()
            invariant
                i <= self.words.len(),
                self.words.len() == keywords().len(),
                forall|k: int|
                    0 <= k < self.words.len() ==> pattern_of(#[trigger] self.words[k])
                        == keyword_pattern(keywords()[k]),
                text@ == with_keywords(escaped_html(sql@), i as int),
            decreases self.words.len() - i,
        {
            text = replace_all(&self.words[i], text.as_str(), KEYWORD_SPAN);
            i += 1;
        }
        let text = replace_all(&self.strings, text.as_str(), STRING_SPAN);
        replace_all(&self.numbers, text.as_str(), NUMBER_SPAN)
    }
}

/// The page up to its title.
pub const PAGE_OPEN: &'static str = r##"<!DOCTYPE html>
<html lang="ja">
<head>
    <meta charset="UTF-8">
    <meta name="viewport" content="width=device-width, initial-scale=1.0">
    <title>"##;

/// From the title to the list of executions: the style sheet and the sidebar.
pub const PAGE_STYLE: &'static str = r##"</title>
    <style>
        * { margin: 0; padding: 0; box-sizing: border-box; }
        body {
            font-family: 'Segoe UI', Tahoma, Geneva, Verdana, sans-serif;
            background: linear-gradient(135deg, #1a1a2e 0%, #16213e 100%);
            color: #e0e0e0;
            min-height: 100vh;
            display: flex;
        }
        .sidebar {
            width: 280px;
            background: rgba(0,0,0,0.3);
            padding: 20px;
            overflow-y: auto;
            position: fixed;
            height: 100vh;
            border-right: 1px solid rgba(255,255,255,0.1);
        }
        .sidebar h2 {
            color: #64b5f6;
            margin-bottom: 20px;
            font-size: 1.2rem;
        }
        .nav-item {
            padding: 12px 15px;
            margin-bottom: 8px;
            background: rgba(255,255,255,0.05);
            border-radius: 8px;
            cursor: pointer;
            transition: all 0.3s;
            border-left: 3px solid transparent;
        }
        .nav-item:hover {
            background: rgba(100,181,246,0.2);
            border-left-color: #64b5f6;
        }
        .nav-item.active {
            background: rgba(100,181,246,0.3);
            border-left-color: #64b5f6;
        }
        .nav-item .id { font-weight: bold; color: #fff; }
        .nav-item .dao { font-size: 0.85rem; color: #888; margin-top: 4px; }
        .main {
            margin-left: 280px;
            flex: 1;
            padding: 30px;
        }
        .header {
            margin-bottom: 30px;
            padding-bottom: 20px;
            border-bottom: 1px solid rgba(255,255,255,0.1);
        }
        .header h1 {
            color: #64b5f6;
            font-size: 1.8rem;
            margin-bottom: 10px;
        }
        .header .meta {
            color: #888;
            font-size: 0.9rem;
        }
        .card {
            background: rgba(255,255,255,0.05);
            border-radius: 12px;
            padding: 25px;
            margin-bottom: 25px;
            border: 1px solid rgba(255,255,255,0.1);
            display: none;
        }
        .card.active { display: block; }
        .card-header {
            display: flex;
            justify-content: space-between;
            align-items: center;
            margin-bottom: 20px;
            padding-bottom: 15px;
            border-bottom: 1px solid rgba(255,255,255,0.1);
        }
        .card-title {
            font-size: 1.2rem;
            color: #64b5f6;
        }
        .card-meta {
            color: #888;
            font-size: 0.85rem;
        }
        .section {
            margin-bottom: 20px;
        }
        .section-title {
            color: #81c784;
            font-size: 0.9rem;
            text-transform: uppercase;
            letter-spacing: 1px;
            margin-bottom: 10px;
        }
        .sql-box {
            background: #0d1117;
            border-radius: 8px;
            padding: 20px;
            overflow-x: auto;
            font-family: 'Consolas', 'Monaco', monospace;
            font-size: 0.9rem;
            line-height: 1.6;
            border: 1px solid rgba(255,255,255,0.1);
        }
        .copy-btn {
            background: #64b5f6;
            color: #000;
            border: none;
            padding: 8px 16px;
            border-radius: 6px;
            cursor: pointer;
            font-size: 0.85rem;
            transition: all 0.3s;
        }
        .copy-btn:hover {
            background: #90caf9;
        }
        .copy-btn.copied {
            background: #81c784;
        }
        .keyword { color: #569cd6; font-weight: bold; }
        .string { color: #ce9178; }
        .number { color: #b5cea8; }
        .params-list {
            background: rgba(0,0,0,0.2);
            border-radius: 8px;
            padding: 15px;
        }
        .param-item {
            padding: 8px 12px;
            background: rgba(255,255,255,0.05);
            border-radius: 4px;
            margin-bottom: 6px;
            font-family: monospace;
        }
        .param-index { color: #64b5f6; }
        .param-type { color: #81c784; }
        .param-value { color: #fff; }
    </style>
</head>
<body>
    <nav class="sidebar">
        <h2>📋 Executions</h2>
        "##;

/// From the list of executions to the heading.
pub const PAGE_HEADING: &'static str = r##"
    </nav>
    <main class="main">
        <div class="header">
            <h1>🔍 "##;

/// From the heading to the time of generation.
pub const PAGE_GENERATED: &'static str = r##"</h1>
            <div class="meta">
                <div>Generated: "##;

/// From the time of generation to the log file.
pub const PAGE_LOG_FILE: &'static str = r##"</div>
                <div>Log File: "##;

/// From the log file to the number of executions.
pub const PAGE_TOTAL: &'static str = r##"</div>
                <div>Total Executions: "##;

/// From the number of executions to the cards.
pub const PAGE_CARDS: &'static str = r##"</div>
            </div>
        </div>
        "##;

/// From the cards to the end: the script and the closing tags.
pub const PAGE_CLOSE: &'static str = r##"
    </main>
    <script>
        function showCard(index) {
            document.querySelectorAll('.card').forEach(c => c.classList.remove('active'));
            document.querySelectorAll('.nav-item').forEach(n => n.classList.remove('active'));
            document.getElementById('card-' + index).classList.add('active');
            document.getElementById('nav-' + index).classList.add('active');
        }
        function copyToClipboard(id, btn) {
            const text = document.getElementById(id).innerText;
            navigator.clipboard.writeText(text).then(() => {
                btn.classList.add('copied');
                btn.innerText = '✓ Copied!';
                setTimeout(() => {
                    btn.classList.remove('copied');
                    btn.innerText = '📋 Copy';
                }, 2000);
            });
        }
        // Show first card by default
        if (document.querySelector('.nav-item')) {
            showCard(0);
        }
    </script>
</body>
</html>"##;

/// A sidebar entry up to its index.
pub const NAV_OPEN: &'static str = r##"<div class="nav-item" id="nav-"##;

/// A sidebar entry from its index to the index of its card.
pub const NAV_ONCLICK: &'static str = r##"" onclick="showCard("##;

/// A sidebar entry from the index of its card to its number.
pub const NAV_NUMBER: &'static str = r##")">
    <div class="id">#"##;

/// Between number and id of a sidebar entry.
pub const NAV_DASH: &'static str = r##" - "##;

/// A sidebar entry from its id to its class name.
pub const NAV_DAO: &'static str = r##"</div>
    <div class="dao">"##;

/// The end of a sidebar entry.
pub const NAV_CLOSE: &'static str = r##"</div>
</div>"##;

/// A card up to its index.
pub const CARD_OPEN: &'static str = r##"<div class="card" id="card-"##;

/// A card from its index to its number.
pub const CARD_TITLE: &'static str = r##"">
    <div class="card-header">
        <div>
            <div class="card-title">Execution #"##;

/// A card from its number to its id.
pub const CARD_ID: &'static str = r##"</div>
            <div class="card-meta">ID: "##;

/// Between id and class name of a card.
pub const CARD_DAO: &'static str = r##" | DAO: "##;

/// A card from its class name to the index in its copy button.
pub const CARD_COPY: &'static str = r##"</div>
        </div>
        <button class="copy-btn" onclick="copyToClipboard('sql-"##;

/// A card from its copy button to the index of its statement box.
pub const CARD_SQL_ID: &'static str = r##"', this)">📋 Copy</button>
    </div>
    <div class="section">
        <div class="section-title">Filled SQL</div>
        <div class="sql-box" id="sql-"##;

/// A card from the index of its statement box to the statement.
pub const CARD_SQL: &'static str = r##"">"##;

/// A card from the statement to the number of parameters.
pub const CARD_PARAMS: &'static str = r##"</div>
    </div>
    <div class="section">
        <div class="section-title">Parameters ("##;

/// A card from the number of parameters to their list.
pub const CARD_PARAMS_LIST: &'static str = r##")</div>
        <div class="params-list">"##;

/// A card from the parameters to the timestamp.
pub const CARD_TIMESTAMP: &'static str = r##"</div>
    </div>
    <div class="section">
        <div class="section-title">Timestamp</div>
        <div class="card-meta">"##;

/// The end of a card.
pub const CARD_CLOSE: &'static str = r##"</div>
    </div>
</div>"##;

/// The opening of the display of a parameter with three parts.
pub const PARAM_OPEN: &'static str = r##"<div class="param-item"><span class="param-index">["##;

/// Between position and type of a parameter.
pub const PARAM_TYPE: &'static str = r##"]</span> <span class="param-type">"##;

/// Between type and value of a parameter.
pub const PARAM_VALUE: &'static str = r##"</span>: <span class="param-value">"##;

/// The end of the display of a parameter with three parts.
pub const PARAM_CLOSE: &'static str = "</span></div>";

/// The opening of the display of a parameter that is shown as it is.
pub const PARAM_RAW_OPEN: &'static str = r##"<div class="param-item">"##;

/// The end of the display of a parameter that is shown as it is.
pub const PARAM_RAW_CLOSE: &'static str = "</div>";

/// What is shown in place of an empty parameter list.
pub const NO_PARAMS: &'static str = r##"<div class="param-item">No parameters</div>"##;

/// The display of one parameter token: position, type and value in spans
/// where the token has three parts, the escaped token where it has not.
pub open spec fn param_item(token: Seq<char>) -> Seq<char> {
    match split_token(token) {
        Some((declared, position, value)) => PARAM_OPEN@ + escaped_html(position) + PARAM_TYPE@
            + escaped_html(declared) + PARAM_VALUE@ + escaped_html(value) + PARAM_CLOSE@,
        None => PARAM_RAW_OPEN@ + escaped_html(token) + PARAM_RAW_CLOSE@,
    }
}

/// The displays of `tokens`, one after the other.
pub open spec fn param_items(tokens: Seq<Seq<char>>) -> Seq<char>
    decreases tokens.len(),
{
    if tokens.len() == 0 {
        Seq::empty()
    } else {
        param_items(tokens.drop_last()) + param_item(tokens.last())
    }
}

/// The display of a parameter list.
pub open spec fn params_html(tokens: Seq<Seq<char>>) -> Seq<char> {
    if tokens.len() == 0 {
        NO_PARAMS@
    } else {
        param_items(tokens)
    }
}

/// The first eight characters of an id, or all of a shorter one.
pub open spec fn short_id(id: Seq<char>) -> Seq<char> {
    if id.len() <= 8 {
        id
    } else {
        id.take(8)
    }
}

/// The sidebar entry of the execution at `index`.
pub open spec fn nav_item(run: ExecutionView, index: nat) -> Seq<char> {
    NAV_OPEN@ + decimal(index) + NAV_ONCLICK@ + decimal(index) + NAV_NUMBER@ + signed_decimal(
        run.execution_index,
    ) + NAV_DASH@ + escaped_html(short_id(run.id)) + NAV_DAO@ + escaped_html(
        short_name(run.dao_file),
    ) + NAV_CLOSE@
}

/// The card of the execution at `index`.
pub open spec fn execution_card(run: ExecutionView, index: nat) -> Seq<char> {
    CARD_OPEN@ + decimal(index) + CARD_TITLE@ + signed_decimal(run.execution_index) + CARD_ID@
        + escaped_html(run.id) + CARD_DAO@ + escaped_html(run.dao_file) + CARD_COPY@ + decimal(
        index,
    ) + CARD_SQL_ID@ + decimal(index) + CARD_SQL@ + highlighted(run.filled_sql) + CARD_PARAMS@
        + decimal(run.params.len()) + CARD_PARAMS_LIST@ + params_html(run.params)
        + CARD_TIMESTAMP@ + escaped_html(run.timestamp) + CARD_CLOSE@
}

/// The sidebar entries of the first `n` executions.
pub open spec fn nav_items(executions: Seq<ExecutionView>, n: int) -> Seq<char>
    decreases n,
{
    if n <= 0 {
        Seq::empty()
    } else {
        nav_items(executions, n - 1) + nav_item(executions[n - 1], (n - 1) as nat)
    }
}

/// The cards of the first `n` executions.
pub open spec fn execution_cards(executions: Seq<ExecutionView>, n: int) -> Seq<char>
    decreases n,
{
    if n <= 0 {
        Seq::empty()
    } else {
        execution_cards(executions, n - 1) + execution_card(executions[n - 1], (n - 1) as nat)
    }
}

/// The title of the page: the one given, `SQL Report` where none is.
pub open spec fn page_title(options: HtmlOptionsView) -> Seq<char> {
    if options.title.len() == 0 {
        "SQL Report"@
    } else {
        options.title
    }
}

/// How the log file is shown: escaped, `N/A` where none is named.
pub open spec fn log_file_display(options: HtmlOptionsView) -> Seq<char> {
    if options.log_file.len() == 0 {
        "N/A"@
    } else {
        escaped_html(options.log_file)
    }
}

/// The report page for `executions`, generated at the time that
/// `generated_at` tells.
pub open spec fn report(
    executions: Seq<ExecutionView>,
    options: HtmlOptionsView,
    generated_at: Seq<char>,
) -> Seq<char> {
    PAGE_OPEN@ + escaped_html(page_title(options)) + PAGE_STYLE@ + nav_items(
        executions,
        executions.len() as int,
    ) + PAGE_HEADING@ + escaped_html(page_title(options)) + PAGE_GENERATED@ + generated_at
        + PAGE_LOG_FILE@ + log_file_display(options) + PAGE_TOTAL@ + decimal(executions.len())
        + PAGE_CARDS@ + execution_cards(executions, executions.len() as int) + PAGE_CLOSE@
}

/// Writes report pages.
pub struct HtmlGenerator {}

impl HtmlGenerator {
    /// A generator.
    pub fn new() -> (r: Self) {
        HtmlGenerator {  }
    }

    /// `text` as HTML text.
    pub fn escape_html(&self, text: &str) -> (r: String)
        ensures
            r@ == escaped_html(text@),
    {
        let mut out = String::new();
        push_escaped_text(&mut out, text);
        out
    }

    /// The class name at the end of a dotted path.
    pub fn get_short_dao_name(&self, dao_file: &str) -> (r: String)
        ensures
            r@ == short_name(dao_file@),
    {
        let v = chars_of(dao_file);
        let start = short_name_start(&v);
        string_of(&v, start, v.len())
    }

    /// The display of a parameter list.
    pub fn format_params_html(&self, params: &Vec<String>) -> (r: String)
        ensures
            r@ == params_html(params.deep_view()),
    {
        if params.len() == 0 {
            return NO_PARAMS.to_owned();
        }
        let ghost tokens = params.deep_view();
        let mut out = String::new();
        let mut i: usize = 0;
        while i < params.len()
            invariant
                i <= params.len(),
                tokens == params.deep_view(),
                out@ == param_items(tokens.take(i as int)),
            decreases params.len() - i,
        {
            proof {
                assert(tokens.take(i + 1).drop_last() == tokens.take(i as int));
            }
            let item = param_item_html(params[i].as_str());
            out.append(item.as_str());
            i += 1;
        }
        assert(tokens.take(params.len() as int) == tokens);
        out
    }

    /// The sidebar entry of the execution at `index`.
    pub fn generate_nav_item(&self, exec: &Execution, index: usize) -> (r: String)
        ensures
            r@ == nav_item(exec.deep_view(), index as nat),
    {
        let id = chars_of(exec.id.as_str());
        let shown: usize = if id.len() <= 8 {
            id.len()
        } else {
            8
        };
        assert(id@.subrange(0, shown as int) == short_id(exec.id@));
        let dao = chars_of(exec.dao_file.as_str());
        let start = short_name_start(&dao);
        let mut out = NAV_OPEN.to_owned();
        push_decimal(&mut out, index as u64);
        out.append(NAV_ONCLICK);
        push_decimal(&mut out, index as u64);
        out.append(NAV_NUMBER);
        push_signed(&mut out, exec.execution_index);
        out.append(NAV_DASH);
        push_escaped(&mut out, &id, 0, shown);
        out.append(NAV_DAO);
        push_escaped(&mut out, &dao, start, dao.len());
        out.append(NAV_CLOSE);
        out
    }

    /// The card of the execution at `index`.
    pub fn generate_execution_card(
        &self,
        highlighter: &SqlHighlighter,
        exec: &Execution,
        index: usize,
    ) -> (r: String)
        ensures
            r@ == execution_card(exec.deep_view(), index as nat),
    {
        let highlighted_sql = highlighter.highlight_sql(exec.filled_sql.as_str());
        let params = self.format_params_html(&exec.params);
        let mut out = CARD_OPEN.to_owned();
        push_decimal(&mut out, index as u64);
        out.append(CARD_TITLE);
        push_signed(&mut out, exec.execution_index);
        out.append(CARD_ID);
        push_escaped_text(&mut out, exec.id.as_str());
        out.append(CARD_DAO);
        push_escaped_text(&mut out, exec.dao_file.as_str());
        out.append(CARD_COPY);
        push_decimal(&mut out, index as u64);
        out.append(CARD_SQL_ID);
        push_decimal(&mut out, index as u64);
        out.append(CARD_SQL);
        out.append(highlighted_sql.as_str());
        out.append(CARD_PARAMS);
        push_decimal(&mut out, exec.params.len() as u64);
        out.append(CARD_PARAMS_LIST);
        out.append(params.as_str());
        out.append(CARD_TIMESTAMP);
        push_escaped_text(&mut out, exec.timestamp.as_str());
        out.append(CARD_CLOSE);
        out
    }

    /// Writes the report page for `executions`: a sidebar entry and a card
    /// for each, under a heading with the title, the time of generation as
    /// `generated_at` gives it, the log file and the number of executions.
    pub fn generate_report(
        &self,
        highlighter: &SqlHighlighter,
        executions: &[Execution],
        options: &HtmlOptions,
        generated_at: &str,
    ) -> (r: String)
        ensures
            r@ == report(executions.deep_view(), options.deep_view(), generated_at@),
    {
        let ghost all = executions.deep_view();
        let title = if options.title.as_str().is_empty() {
            "SQL Report"
        } else {
            options.title.as_str()
        };
        let mut navs = String::new();
        let mut cards = String::new();
        let mut i: usize = 0;
        while i < executions.len()
            invariant
                i <= executions.len(),
                all == executions.deep_view(),
                navs@ == nav_items(all, i as int),
                cards@ == execution_cards(all, i as int),
            decreases executions.len() - i,
        {
            let nav = self.generate_nav_item(&executions[i], i);
            navs.append(nav.as_str());
            let card = self.generate_execution_card(highlighter, &executions[i], i);
            cards.append(card.as_str());
            i += 1;
        }
        let mut out = PAGE_OPEN.to_owned();
        push_escaped_text(&mut out, title);
        out.append(PAGE_STYLE);
        out.append(navs.as_str());
        out.append(PAGE_HEADING);
        push_escaped_text(&mut out, title);
        out.append(PAGE_GENERATED);
        out.append(generated_at);
        out.append(PAGE_LOG_FILE);
        if options.log_file.as_str().is_empty() {
            out.append("N/A");
        } else {
            push_escaped_text(&mut out, options.log_file.as_str());
        }
        out.append(PAGE_TOTAL);
        push_decimal(&mut out, executions.len() as u64);
        out.append(PAGE_CARDS);
        out.append(cards.as_str());
        out.append(PAGE_CLOSE);
        out
    }
}

impl Default for HtmlGenerator {
    fn default() -> (r: Self) {
        HtmlGenerator::new()
    }
}

/// The display of one parameter token.
fn param_item_html(token: &str) -> (r: String)
    ensures
        r@ == param_item(token@),
{
    let v = chars_of(token);
    match token_colons(&v) {
        Some((i, j)) => {
            let mut out = PARAM_OPEN.to_owned();
            push_escaped(&mut out, &v, i + 1, j);
            out.append(PARAM_TYPE);
            push_escaped(&mut out, &v, 0, i);
            out.append(PARAM_VALUE);
            push_escaped(&mut out, &v, j + 1, v.len());
            out.append(PARAM_CLOSE);
            out
        },
        None => {
            let mut out = PARAM_RAW_OPEN.to_owned();
            push_escaped_text(&mut out, token);
            out.append(PARAM_RAW_CLOSE);
            out
        },
    }
}

} // verus!
