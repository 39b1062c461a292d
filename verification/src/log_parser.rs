//! The log scanner: correlation of statement and parameter events by
//! transaction id.
//!
//! A scan goes in three steps. The raw bytes are split into lines and decoded
//! (`encoding`). Each line is then reduced to the few facts the patterns find
//! on it (`pattern`). What follows is plain bookkeeping over those facts, and
//! that is what the spec functions in this file describe.

use vstd::prelude::*;
use crate::encoding::{decodable, decode_lines, decoded_lines, split_lines};
use crate::pattern::{
    bare_statement, correlated_statement, first_match, group_of, leading_timestamp, params_event,
    statement_event, target_params, PatternLibrary, TargetPatterns,
};
use crate::sql_formatter::{replace_placeholders, substituted};
use crate::text::{trim, trimmed};

verus! {

/// Copies a list of texts.
pub fn clone_texts(texts: &Vec<String>) -> (r: Vec<String>)
    ensures
        r.deep_view() == texts.deep_view(),
{
    let mut out: Vec<String> = Vec::new();
    let mut i: usize = 0;
    while i < texts.len()
        invariant
            i <= texts.len(),
            out.len() == i,
            forall|k: int| 0 <= k < i ==> out[k]@ == texts[k]@,
        decreases texts.len() - i,
    {
        out.push(texts[i].clone());
        i += 1;
    }
    out
}

/// The minimal match for one id. An empty `sql` means that nothing was found.
#[derive(Debug)]
pub struct QueryResult {
    pub id: String,
    pub sql: String,
    pub params: Vec<String>,
}

/// The mathematical content of a `QueryResult`.
pub struct QueryResultView {
    pub id: Seq<char>,
    pub sql: Seq<char>,
    pub params: Seq<Seq<char>>,
}

impl DeepView for QueryResult {
    type V = QueryResultView;

    open spec fn deep_view(&self) -> QueryResultView {
        QueryResultView { id: self.id@, sql: self.sql@, params: self.params.deep_view() }
    }
}

impl QueryResultView {
    /// The result that stands for "nothing found" under `id`.
    pub open spec fn not_found(id: Seq<char>) -> QueryResultView {
        QueryResultView { id, sql: Seq::empty(), params: Seq::empty() }
    }
}

impl QueryResult {
    /// Whether a statement was found.
    pub fn found(&self) -> (r: bool)
        ensures
            r == (self.sql@.len() > 0),
    {
        !self.sql.as_str().is_empty()
    }
}

impl Default for QueryResult {
    fn default() -> (r: Self)
        ensures
            r.deep_view() == QueryResultView::not_found(Seq::empty()),
    {
        let params: Vec<String> = Vec::new();
        assert(params.deep_view() =~= Seq::<Seq<char>>::empty());
        QueryResult { id: String::new(), sql: String::new(), params }
    }
}

impl Clone for QueryResult {
    fn clone(&self) -> (r: Self)
        ensures
            r.deep_view() == self.deep_view(),
    {
        QueryResult {
            id: self.id.clone(),
            sql: self.sql.clone(),
            params: clone_texts(&self.params),
        }
    }
}

/// One run of a statement: the template, the parameters bound to it, and the
/// statement with the parameters filled in.
#[derive(Debug)]
pub struct Execution {
    pub id: String,
    pub timestamp: String,
    pub dao_file: String,
    pub sql: String,
    pub filled_sql: String,
    pub params: Vec<String>,
    pub execution_index: i32,
}

/// The mathematical content of an `Execution`.
pub struct ExecutionView {
    pub id: Seq<char>,
    pub timestamp: Seq<char>,
    pub dao_file: Seq<char>,
    pub sql: Seq<char>,
    pub filled_sql: Seq<char>,
    pub params: Seq<Seq<char>>,
    pub execution_index: int,
}

impl DeepView for Execution {
    type V = ExecutionView;

    open spec fn deep_view(&self) -> ExecutionView {
        ExecutionView {
            id: self.id@,
            timestamp: self.timestamp@,
            dao_file: self.dao_file@,
            sql: self.sql@,
            filled_sql: self.filled_sql@,
            params: self.params.deep_view(),
            execution_index: self.execution_index as int,
        }
    }
}

impl Default for Execution {
    fn default() -> (r: Self)
        ensures
            r.deep_view() == (ExecutionView {
                id: Seq::empty(),
                timestamp: Seq::empty(),
                dao_file: Seq::empty(),
                sql: Seq::empty(),
                filled_sql: Seq::empty(),
                params: Seq::empty(),
                execution_index: 0,
            }),
    {
        let params: Vec<String> = Vec::new();
        assert(params.deep_view() =~= Seq::<Seq<char>>::empty());
        Execution {
            id: String::new(),
            timestamp: String::new(),
            dao_file: String::new(),
            sql: String::new(),
            filled_sql: String::new(),
            params,
            execution_index: 0,
        }
    }
}

impl Clone for Execution {
    fn clone(&self) -> (r: Self)
        ensures
            r.deep_view() == self.deep_view(),
    {
        Execution {
            id: self.id.clone(),
            timestamp: self.timestamp.clone(),
            dao_file: self.dao_file.clone(),
            sql: self.sql.clone(),
            filled_sql: self.filled_sql.clone(),
            params: clone_texts(&self.params),
            execution_index: self.execution_index,
        }
    }
}

/// One entry of the id catalogue.
#[derive(Debug)]
pub struct IdInfo {
    pub id: String,
    pub has_sql: bool,
    pub params_count: i32,
}

/// The mathematical content of an `IdInfo`.
pub struct IdInfoView {
    pub id: Seq<char>,
    pub has_sql: bool,
    pub params_count: int,
}

impl DeepView for IdInfo {
    type V = IdInfoView;

    open spec fn deep_view(&self) -> IdInfoView {
        IdInfoView {
            id: self.id@,
            has_sql: self.has_sql,
            params_count: self.params_count as int,
        }
    }
}

impl Default for IdInfo {
    fn default() -> (r: Self)
        ensures
            r.deep_view() == (IdInfoView { id: Seq::empty(), has_sql: false, params_count: 0 }),
    {
        IdInfo { id: String::new(), has_sql: false, params_count: 0 }
    }
}

impl Clone for IdInfo {
    fn clone(&self) -> (r: Self)
        ensures
            r.deep_view() == self.deep_view(),
    {
        IdInfo { id: self.id.clone(), has_sql: self.has_sql, params_count: self.params_count }
    }
}

/// What one line says about the transaction that a scan follows.
#[derive(Debug)]
pub struct LineFacts {
    /// The timestamp that opens the line.
    pub timestamp: Option<String>,
    /// Timestamp and statement, where the line has the fully correlated form.
    pub correlated: Option<(String, String)>,
    /// The statement, where the line carries one in any form.
    pub statement: Option<String>,
    /// The parameter tokens, where the line carries a parameter run.
    pub params: Option<Vec<String>>,
    /// The data-access class, where the line carries the completion marker.
    pub attribution: Option<String>,
}

/// The mathematical content of a `LineFacts`.
pub struct LineFactsView {
    pub timestamp: Option<Seq<char>>,
    pub correlated: Option<(Seq<char>, Seq<char>)>,
    pub statement: Option<Seq<char>>,
    pub params: Option<Seq<Seq<char>>>,
    pub attribution: Option<Seq<char>>,
}

impl DeepView for LineFacts {
    type V = LineFactsView;

    open spec fn deep_view(&self) -> LineFactsView {
        LineFactsView {
            timestamp: self.timestamp.deep_view(),
            correlated: self.correlated.deep_view(),
            statement: self.statement.deep_view(),
            params: self.params.deep_view(),
            attribution: self.attribution.deep_view(),
        }
    }
}

/// The statement that a scan has settled on, with where and when it was seen.
pub struct Template {
    pub sql: Seq<char>,
    pub timestamp: Seq<char>,
    pub dao: Seq<char>,
}

/// The reach of the search for an attribution marker: the statement on line
/// `i` is looked up on the lines after `i` and before `i` plus this.
pub const ATTRIBUTION_WINDOW: usize = 50;

/// The class named by the first marker among lines `from..to`, `Unknown` where none has one.
pub open spec fn attribution_in(facts: Seq<LineFactsView>, from: int, to: int) -> Seq<char>
    decreases to - from,
{
    if from < 0 || from >= to || from >= facts.len() {
        "Unknown"@
    } else {
        match facts[from].attribution {
            Some(name) => name,
            None => attribution_in(facts, from + 1, to),
        }
    }
}

/// The class that the statement on line `i` is attributed to.
pub open spec fn attribution_after(facts: Seq<LineFactsView>, i: int) -> Seq<char> {
    attribution_in(facts, i + 1, i + ATTRIBUTION_WINDOW)
}

/// The timestamp of line `i`, else that of the line before it, else nothing.
pub open spec fn nearby_timestamp(facts: Seq<LineFactsView>, i: int) -> Seq<char> {
    match facts[i].timestamp {
        Some(stamp) => stamp,
        None => if i > 0 {
            match facts[i - 1].timestamp {
                Some(stamp) => stamp,
                None => Seq::empty(),
            }
        } else {
            Seq::empty()
        },
    }
}

/// The template that line `i` offers: its correlated statement if it has one,
/// else its bare statement. A statement without text offers nothing.
pub open spec fn statement_at(facts: Seq<LineFactsView>, i: int) -> Option<Template> {
    match facts[i].correlated {
        Some((stamp, sql)) => if sql.len() > 0 {
            Some(Template { sql, timestamp: stamp, dao: attribution_after(facts, i) })
        } else {
            None
        },
        None => match facts[i].statement {
            Some(sql) => if sql.len() > 0 {
                Some(
                    Template {
                        sql,
                        timestamp: nearby_timestamp(facts, i),
                        dao: attribution_after(facts, i),
                    },
                )
            } else {
                None
            },
            None => None,
        },
    }
}

/// The template after the first `n` lines: the first one offered stays.
pub open spec fn template_upto(facts: Seq<LineFactsView>, n: int) -> Option<Template>
    decreases n,
{
    if n <= 0 {
        None
    } else {
        match template_upto(facts, n - 1) {
            Some(template) => Some(template),
            None => statement_at(facts, n - 1),
        }
    }
}

/// A statement filled with `tokens`, or left as it is where filling fails.
pub open spec fn filled(sql: Seq<char>, tokens: Seq<Seq<char>>) -> Seq<char> {
    match substituted(sql, tokens) {
        Ok(text) => text,
        Err(_) => sql,
    }
}

/// The execution that a parameter line adds.
pub open spec fn run_of(
    id: Seq<char>,
    template: Template,
    stamp: Option<Seq<char>>,
    tokens: Seq<Seq<char>>,
    index: int,
) -> ExecutionView {
    ExecutionView {
        id,
        timestamp: match stamp {
            Some(own) => own,
            None => template.timestamp,
        },
        dao_file: template.dao,
        sql: template.sql,
        filled_sql: filled(template.sql, tokens),
        params: tokens,
        execution_index: index,
    }
}

/// The executions that the parameter lines among the first `n` lines add.
/// A parameter line counts once a template is known, its own line included.
pub open spec fn runs_upto(id: Seq<char>, facts: Seq<LineFactsView>, n: int) -> Seq<
    ExecutionView,
>
    decreases n,
{
    if n <= 0 {
        Seq::empty()
    } else {
        let before = runs_upto(id, facts, n - 1);
        match (template_upto(facts, n), facts[n - 1].params) {
            (Some(template), Some(tokens)) => before.push(
                run_of(id, template, facts[n - 1].timestamp, tokens, before.len() as int + 1),
            ),
            _ => before,
        }
    }
}

/// The single execution of a statement that no parameter line follows.
pub open spec fn lone_run(id: Seq<char>, template: Template) -> ExecutionView {
    ExecutionView {
        id,
        timestamp: template.timestamp,
        dao_file: template.dao,
        sql: template.sql,
        filled_sql: template.sql,
        params: Seq::empty(),
        execution_index: 1,
    }
}

/// All executions of `id` that the lines tell of, in the order of discovery.
pub open spec fn executions_of(id: Seq<char>, facts: Seq<LineFactsView>) -> Seq<ExecutionView> {
    let runs = runs_upto(id, facts, facts.len() as int);
    if runs.len() > 0 {
        runs
    } else {
        match template_upto(facts, facts.len() as int) {
            Some(template) => seq![lone_run(id, template)],
            None => Seq::empty(),
        }
    }
}

/// No more executions than lines, and they are numbered 1, 2, 3, … without a gap.
pub proof fn lemma_runs_numbered(id: Seq<char>, facts: Seq<LineFactsView>, n: int)
    ensures
        runs_upto(id, facts, n).len() <= if n > 0 { n } else { 0 },
        forall|k: int|
            0 <= k < runs_upto(id, facts, n).len() ==> (#[trigger] runs_upto(
                id,
                facts,
                n,
            )[k]).execution_index == k + 1,
    decreases n,
{
    if n > 0 {
        lemma_runs_numbered(id, facts, n - 1);
    }
}

/// The executions found for an id are numbered 1 to N in the order of
/// discovery, without a gap, whatever the lines hold.
pub proof fn lemma_execution_indices(id: Seq<char>, facts: Seq<LineFactsView>)
    ensures
        forall|k: int|
            0 <= k < executions_of(id, facts).len() ==> (#[trigger] executions_of(
                id,
                facts,
            )[k]).execution_index == k + 1,
        executions_of(id, facts).len() <= facts.len(),
{
    lemma_runs_numbered(id, facts, facts.len() as int);
    if runs_upto(id, facts, facts.len() as int).len() == 0 {
        if facts.len() == 0 {
            assert(template_upto(facts, 0) is None);
        }
    }
}

/// Once a template is settled it stays: reading more lines changes nothing of it.
pub proof fn lemma_template_stays(facts: Seq<LineFactsView>, i: int, n: int)
    requires
        0 <= i <= n,
        template_upto(facts, i) is Some,
    ensures
        template_upto(facts, n) == template_upto(facts, i),
    decreases n - i,
{
    if i < n {
        lemma_template_stays(facts, i, n - 1);
    }
}

/// Every execution among the first `n` lines carries the id of the scan and
/// the template that the scan has settled on, which has text.
pub proof fn lemma_runs_share_template(id: Seq<char>, facts: Seq<LineFactsView>, n: int)
    requires
        0 <= n,
    ensures
        runs_upto(id, facts, n).len() > 0 ==> template_upto(facts, n) is Some,
        template_upto(facts, n) matches Some(template) ==> template.sql.len() > 0,
        forall|k: int|
            0 <= k < runs_upto(id, facts, n).len() ==> {
                let run = #[trigger] runs_upto(id, facts, n)[k];
                &&& run.id == id
                &&& template_upto(facts, n) matches Some(template) && run.sql == template.sql
                    && run.dao_file == template.dao
                &&& run.filled_sql == filled(run.sql, run.params)
            },
    decreases n,
{
    if n > 0 {
        lemma_runs_share_template(id, facts, n - 1);
        if template_upto(facts, n - 1) is Some {
            lemma_template_stays(facts, n - 1, n);
        }
        let before = runs_upto(id, facts, n - 1);
        let now = runs_upto(id, facts, n);
        assert forall|k: int| 0 <= k < now.len() implies {
            let run = #[trigger] now[k];
            &&& run.id == id
            &&& template_upto(facts, n) matches Some(template) && run.sql == template.sql
                && run.dao_file == template.dao
            &&& run.filled_sql == filled(run.sql, run.params)
        } by {
            if k < before.len() {
                assert(now[k] == before[k]);
            }
        }
    }
}

/// What a scan gives. There are executions exactly where some line offers a
/// statement with text. They all carry the id of the scan and one and the
/// same template, the first that was offered: a later statement never takes
/// its place. Where no parameter line counts, there is exactly one execution,
/// numbered 1, without parameters and with the template as its filled text.
pub proof fn lemma_first_template_wins(id: Seq<char>, facts: Seq<LineFactsView>)
    ensures
        executions_of(id, facts).len() > 0 <==> template_upto(facts, facts.len() as int) is Some,
        forall|k: int|
            0 <= k < executions_of(id, facts).len() ==> {
                let run = #[trigger] executions_of(id, facts)[k];
                &&& run.id == id
                &&& template_upto(facts, facts.len() as int) matches Some(template) && run.sql
                    == template.sql && run.dao_file == template.dao
                &&& run.sql.len() > 0
            },
        runs_upto(id, facts, facts.len() as int).len() == 0 && template_upto(
            facts,
            facts.len() as int,
        ) is Some ==> {
            &&& executions_of(id, facts).len() == 1
            &&& executions_of(id, facts)[0].params.len() == 0
            &&& executions_of(id, facts)[0].filled_sql == executions_of(id, facts)[0].sql
            &&& executions_of(id, facts)[0].execution_index == 1
        },
{
    lemma_runs_share_template(id, facts, facts.len() as int);
}

/// A template as the scan holds it.
struct Settled {
    sql: String,
    timestamp: String,
    dao: String,
}

impl Settled {
    spec fn model(&self) -> Template {
        Template { sql: self.sql@, timestamp: self.timestamp@, dao: self.dao@ }
    }
}

/// The template that a scan holds, if it holds one.
spec fn settled_model(held: Option<Settled>) -> Option<Template> {
    match held {
        Some(settled) => Some(settled.model()),
        None => None,
    }
}

/// The class that the statement on line `sql_line_index` is attributed to:
/// the first marker on one of the lines after it, within the window, or
/// `Unknown`.
pub fn find_dao_class_name(facts: &Vec<LineFacts>, sql_line_index: usize) -> (r: String)
    ensures
        r@ == attribution_after(facts.deep_view(), sql_line_index as int),
{
    let ghost all = facts.deep_view();
    if sql_line_index >= facts.len() {
        return "Unknown".to_owned();
    }
    let end: usize = if facts.len() - sql_line_index > ATTRIBUTION_WINDOW {
        sql_line_index + ATTRIBUTION_WINDOW
    } else {
        facts.len()
    };
    let mut j: usize = sql_line_index + 1;
    while j < end
        invariant
            sql_line_index < j <= facts.len(),
            end <= facts.len(),
            end <= sql_line_index + ATTRIBUTION_WINDOW,
            end == facts.len() || end == sql_line_index + ATTRIBUTION_WINDOW,
            all == facts.deep_view(),
            attribution_in(all, j as int, sql_line_index + ATTRIBUTION_WINDOW)
                == attribution_after(all, sql_line_index as int),
        decreases end - j,
    {
        match &facts[j].attribution {
            Some(name) => {
                return name.clone();
            },
            None => {},
        }
        j += 1;
    }
    "Unknown".to_owned()
}

/// The timestamp of line `i`, else that of the line before it, else nothing.
fn timestamp_near(facts: &Vec<LineFacts>, i: usize) -> (r: String)
    requires
        i < facts.len(),
    ensures
        r@ == nearby_timestamp(facts.deep_view(), i as int),
{
    match &facts[i].timestamp {
        Some(stamp) => stamp.clone(),
        None => {
            if i > 0 {
                match &facts[i - 1].timestamp {
                    Some(stamp) => stamp.clone(),
                    None => String::new(),
                }
            } else {
                String::new()
            }
        },
    }
}

/// The template that line `i` offers.
fn offered_at(facts: &Vec<LineFacts>, i: usize) -> (r: Option<Settled>)
    requires
        i < facts.len(),
    ensures
        settled_model(r) == statement_at(facts.deep_view(), i as int),
{
    match &facts[i].correlated {
        Some((stamp, sql)) => {
            if sql.as_str().is_empty() {
                None
            } else {
                Some(
                    Settled {
                        sql: sql.clone(),
                        timestamp: stamp.clone(),
                        dao: find_dao_class_name(facts, i),
                    },
                )
            }
        },
        None => match &facts[i].statement {
            Some(sql) => {
                if sql.as_str().is_empty() {
                    None
                } else {
                    Some(
                        Settled {
                            sql: sql.clone(),
                            timestamp: timestamp_near(facts, i),
                            dao: find_dao_class_name(facts, i),
                        },
                    )
                }
            },
            None => None,
        },
    }
}

/// A statement filled with `tokens`, or left as it is where filling fails.
pub fn fill_or_keep(sql: &str, tokens: &Vec<String>) -> (r: String)
    ensures
        r@ == filled(sql@, tokens.deep_view()),
{
    let list = tokens.as_slice();
    match replace_placeholders(sql, list) {
        Ok(text) => text,
        Err(_) => sql.to_owned(),
    }
}

/// Correlates the facts of successive lines into the executions of
/// `target_id`.
///
/// The first line that offers a statement settles the template; later
/// statements change nothing. Every parameter line from there on, the
/// settling line included, adds one execution, numbered from 1. A template
/// that no parameter line follows gives one execution without parameters.
pub fn correlate(target_id: &str, facts: &Vec<LineFacts>) -> (r: Vec<Execution>)
    requires
        facts.len() <= i32::MAX,
    ensures
        r.deep_view() == executions_of(target_id@, facts.deep_view()),
        forall|k: int| 0 <= k < r.len() ==> r[k].execution_index == k + 1,
{
    let ghost all = facts.deep_view();
    let ghost id = target_id@;
    let mut held: Option<Settled> = None;
    let mut out: Vec<Execution> = Vec::new();
    let mut i: usize = 0;
    while i < facts.len()
        invariant
            i <= facts.len() <= i32::MAX,
            all == facts.deep_view(),
            id == target_id@,
            settled_model(held) == template_upto(all, i as int),
            out.deep_view() == runs_upto(id, all, i as int),
            out.len() <= i,
        decreases facts.len() - i,
    {
        if held.is_none() {
            held = offered_at(facts, i);
        }
        match &held {
            Some(settled) => match &facts[i].params {
                Some(tokens) => {
                    let stamp = match &facts[i].timestamp {
                        Some(own) => own.clone(),
                        None => settled.timestamp.clone(),
                    };
                    let run = Execution {
                        id: target_id.to_owned(),
                        timestamp: stamp,
                        dao_file: settled.dao.clone(),
                        sql: settled.sql.clone(),
                        filled_sql: fill_or_keep(settled.sql.as_str(), tokens),
                        params: clone_texts(tokens),
                        execution_index: (out.len() + 1) as i32,
                    };
                    out.push(run);
                },
                None => {},
            },
            None => {},
        }
        i += 1;
    }
    if out.len() == 0 {
        match held {
            Some(settled) => {
                let params: Vec<String> = Vec::new();
                assert(params.deep_view() =~= Seq::<Seq<char>>::empty());
                let run = Execution {
                    id: target_id.to_owned(),
                    timestamp: settled.timestamp,
                    dao_file: settled.dao,
                    sql: settled.sql.clone(),
                    filled_sql: settled.sql,
                    params,
                    execution_index: 1,
                };
                out.push(run);
            },
            None => {},
        }
    }
    proof {
        lemma_execution_indices(id, all);
        assert forall|k: int| 0 <= k < out.len() implies out[k].execution_index == k + 1 by {
            assert(out.deep_view()[k] == out[k].deep_view());
        }
    }
    out
}

/// A captured text without the whitespace around it.
pub open spec fn cleaned(found: Option<Seq<char>>) -> Option<Seq<char>> {
    match found {
        Some(text) => Some(trimmed(text)),
        None => None,
    }
}

/// The facts on `line` for a scan that follows `id`, with `marker` as the
/// attribution pattern. Statement text is trimmed.
pub open spec fn line_facts(marker: Seq<char>, id: Seq<char>, line: Seq<char>) -> LineFactsView {
    LineFactsView {
        timestamp: leading_timestamp(line),
        correlated: match correlated_statement(id, line) {
            Some((stamp, sql)) => Some((stamp, trimmed(sql))),
            None => None,
        },
        statement: cleaned(bare_statement(id, line)),
        params: target_params(id, line),
        attribution: group_of(first_match(marker, line), 1),
    }
}

/// The facts on each of `lines`.
pub open spec fn facts_of(marker: Seq<char>, id: Seq<char>, lines: Seq<Seq<char>>) -> Seq<
    LineFactsView,
> {
    lines.map_values(|line: Seq<char>| line_facts(marker, id, line))
}

/// Reads the facts on `line`.
pub fn read_facts(patterns: &PatternLibrary, target: &TargetPatterns, line: &str) -> (r:
    LineFacts)
    ensures
        r.deep_view() == line_facts(patterns.attribution_pattern(), target.target(), line@),
{
    let correlated = match target.correlated_statement(line) {
        Some((stamp, sql)) => Some((stamp, trim(sql.as_str()))),
        None => None,
    };
    let statement = match target.bare_statement(line) {
        Some(sql) => Some(trim(sql.as_str())),
        None => None,
    };
    LineFacts {
        timestamp: patterns.leading_timestamp(line),
        correlated,
        statement,
        params: target.params(patterns, line),
        attribution: patterns.attribution(line),
    }
}

/// Reads the facts on each of `lines`.
pub fn read_all_facts(patterns: &PatternLibrary, target: &TargetPatterns, lines: &Vec<String>) -> (r:
    Vec<LineFacts>)
    ensures
        r.deep_view() == facts_of(
            patterns.attribution_pattern(),
            target.target(),
            lines.deep_view(),
        ),
        r.len() == lines.len(),
{
    let mut out: Vec<LineFacts> = Vec::new();
    let mut i: usize = 0;
    while i < lines.len()
        invariant
            i <= lines.len(),
            out.len() == i,
            forall|k: int|
                0 <= k < i ==> (#[trigger] out[k]).deep_view() == line_facts(
                    patterns.attribution_pattern(),
                    target.target(),
                    lines[k]@,
                ),
        decreases lines.len() - i,
    {
        out.push(read_facts(patterns, target, lines[i].as_str()));
        i += 1;
    }
    out
}

/// The first statement among the first `n` lines, with or without text.
pub open spec fn first_statement(facts: Seq<LineFactsView>, n: int) -> Option<Seq<char>>
    decreases n,
{
    if n <= 0 {
        None
    } else {
        match first_statement(facts, n - 1) {
            Some(sql) => Some(sql),
            None => facts[n - 1].statement,
        }
    }
}

/// The first parameter run among the first `n` lines.
pub open spec fn first_params(facts: Seq<LineFactsView>, n: int) -> Option<Seq<Seq<char>>>
    decreases n,
{
    if n <= 0 {
        None
    } else {
        match first_params(facts, n - 1) {
            Some(tokens) => Some(tokens),
            None => facts[n - 1].params,
        }
    }
}

/// The minimal match for `id`: its first statement and its first parameter
/// run, wherever they stand.
pub open spec fn query_of(id: Seq<char>, facts: Seq<LineFactsView>) -> QueryResultView {
    QueryResultView {
        id,
        sql: match first_statement(facts, facts.len() as int) {
            Some(sql) => sql,
            None => Seq::empty(),
        },
        params: match first_params(facts, facts.len() as int) {
            Some(tokens) => tokens,
            None => Seq::empty(),
        },
    }
}

/// Picks the first statement and the first parameter run of `target_id` out
/// of the facts of successive lines.
pub fn first_query(target_id: &str, facts: &Vec<LineFacts>) -> (r: QueryResult)
    ensures
        r.deep_view() == query_of(target_id@, facts.deep_view()),
{
    let ghost all = facts.deep_view();
    let mut sql: Option<String> = None;
    let mut params: Option<Vec<String>> = None;
    let mut i: usize = 0;
    while i < facts.len() && (sql.is_none() || params.is_none())
        invariant
            i <= facts.len(),
            all == facts.deep_view(),
            sql.deep_view() == first_statement(all, i as int),
            params.deep_view() == first_params(all, i as int),
        decreases facts.len() - i,
    {
        if sql.is_none() {
            sql = match &facts[i].statement {
                Some(text) => Some(text.clone()),
                None => None,
            };
        }
        if params.is_none() {
            params = match &facts[i].params {
                Some(tokens) => Some(clone_texts(tokens)),
                None => None,
            };
        }
        i += 1;
    }
    proof {
        lemma_first_found_stays(all, i as int, facts.len() as int);
    }
    let none: Vec<String> = Vec::new();
    assert(none.deep_view() =~= Seq::<Seq<char>>::empty());
    QueryResult {
        id: target_id.to_owned(),
        sql: match sql {
            Some(text) => text,
            None => String::new(),
        },
        params: match params {
            Some(tokens) => tokens,
            None => none,
        },
    }
}

/// What was found first stays found as more lines are read.
pub proof fn lemma_first_found_stays(facts: Seq<LineFactsView>, i: int, n: int)
    requires
        0 <= i <= n,
    ensures
        first_statement(facts, i) is Some ==> first_statement(facts, n) == first_statement(
            facts,
            i,
        ),
        first_params(facts, i) is Some ==> first_params(facts, n) == first_params(facts, i),
    decreases n - i,
{
    if i < n {
        lemma_first_found_stays(facts, i, n - 1);
    }
}

/// The events on one line, whatever id they belong to.
#[derive(Debug)]
pub struct LineEvents {
    /// Id and trimmed text of a statement event.
    pub statement: Option<(String, String)>,
    /// Id and tokens of a parameters event.
    pub params: Option<(String, Vec<String>)>,
}

/// The mathematical content of a `LineEvents`.
pub struct LineEventsView {
    pub statement: Option<(Seq<char>, Seq<char>)>,
    pub params: Option<(Seq<char>, Seq<Seq<char>>)>,
}

impl DeepView for LineEvents {
    type V = LineEventsView;

    open spec fn deep_view(&self) -> LineEventsView {
        LineEventsView {
            statement: self.statement.deep_view(),
            params: self.params.deep_view(),
        }
    }
}

/// The events on `line`. Statement text is trimmed.
pub open spec fn line_events(line: Seq<char>) -> LineEventsView {
    LineEventsView {
        statement: match statement_event(line) {
            Some((id, rest)) => Some((id, trimmed(rest))),
            None => None,
        },
        params: params_event(line),
    }
}

/// The events on each of `lines`.
pub open spec fn events_of(lines: Seq<Seq<char>>) -> Seq<LineEventsView> {
    lines.map_values(|line: Seq<char>| line_events(line))
}

/// Reads the events on `line`.
pub fn read_events(patterns: &PatternLibrary, line: &str) -> (r: LineEvents)
    ensures
        r.deep_view() == line_events(line@),
{
    let statement = match patterns.statement_event(line) {
        Some((id, rest)) => Some((id, trim(rest.as_str()))),
        None => None,
    };
    LineEvents { statement, params: patterns.params_event(line) }
}

/// Reads the events on each of `lines`.
pub fn read_all_events(patterns: &PatternLibrary, lines: &Vec<String>) -> (r: Vec<LineEvents>)
    ensures
        r.deep_view() == events_of(lines.deep_view()),
        r.len() == lines.len(),
{
    let mut out: Vec<LineEvents> = Vec::new();
    let mut i: usize = 0;
    while i < lines.len()
        invariant
            i <= lines.len(),
            out.len() == i,
            forall|k: int| 0 <= k < i ==> (#[trigger] out[k]).deep_view() == line_events(lines[k]@),
        decreases lines.len() - i,
    {
        out.push(read_events(patterns, lines[i].as_str()));
        i += 1;
    }
    out
}

/// Whether the catalogue has an entry for `id`.
pub open spec fn listed(ids: Seq<IdInfoView>, id: Seq<char>) -> bool {
    exists|k: int| 0 <= k < ids.len() && (#[trigger] ids[k]).id == id
}

/// The catalogue after a statement event of `id`: a new id goes to the end.
pub open spec fn enrolled(ids: Seq<IdInfoView>, id: Seq<char>) -> Seq<IdInfoView> {
    if listed(ids, id) {
        ids
    } else {
        ids.push(IdInfoView { id, has_sql: true, params_count: 0 })
    }
}

/// An entry after a parameters event of `id`.
pub open spec fn bumped(entry: IdInfoView, id: Seq<char>) -> IdInfoView {
    if entry.id == id {
        IdInfoView { params_count: entry.params_count + 1, ..entry }
    } else {
        entry
    }
}

/// The catalogue after a parameters event of `id`: the entry of that id
/// counts one more, and an id that is not listed is passed over.
pub open spec fn counted(ids: Seq<IdInfoView>, id: Seq<char>) -> Seq<IdInfoView> {
    ids.map_values(|entry: IdInfoView| bumped(entry, id))
}

/// The catalogue after one more line: its statement event first, then its
/// parameters event.
pub open spec fn catalogue_step(ids: Seq<IdInfoView>, line: LineEventsView) -> Seq<IdInfoView> {
    let with_statement = match line.statement {
        Some((id, _)) => enrolled(ids, id),
        None => ids,
    };
    match line.params {
        Some((id, _)) => counted(with_statement, id),
        None => with_statement,
    }
}

/// The catalogue of ids after the first `n` lines, in the order in which
/// their first statement appeared.
pub open spec fn catalogue(events: Seq<LineEventsView>, n: int) -> Seq<IdInfoView>
    decreases n,
{
    if n <= 0 {
        Seq::empty()
    } else {
        catalogue_step(catalogue(events, n - 1), events[n - 1])
    }
}

/// The id of the statement event on a line.
pub open spec fn statement_id(line: LineEventsView) -> Option<Seq<char>> {
    match line.statement {
        Some((id, _)) => Some(id),
        None => None,
    }
}

/// The id of the parameters event on a line.
pub open spec fn params_id(line: LineEventsView) -> Option<Seq<char>> {
    match line.params {
        Some((id, _)) => Some(id),
        None => None,
    }
}

/// Whether one of the first `n` lines has a statement event of `id`.
pub open spec fn has_statement(events: Seq<LineEventsView>, n: int, id: Seq<char>) -> bool {
    exists|i: int|
        0 <= i < n && i < events.len() && statement_id(#[trigger] events[i]) == Some(id)
}

/// How many of the first `n` lines have a parameters event of `id`.
pub open spec fn params_events(events: Seq<LineEventsView>, n: int, id: Seq<char>) -> int
    decreases n,
{
    if n <= 0 {
        0
    } else {
        params_events(events, n - 1, id) + if params_id(events[n - 1]) == Some(id) {
            1int
        } else {
            0int
        }
    }
}

/// Every id in the catalogue was seen in a statement event: an id that
/// occurs in parameters events alone is never listed. No id is listed twice,
/// and no entry counts more parameter runs than there were.
pub proof fn lemma_catalogue(events: Seq<LineEventsView>, n: int)
    requires
        n <= events.len(),
    ensures
        forall|k: int|
            0 <= k < catalogue(events, n).len() ==> has_statement(
                events,
                n,
                (#[trigger] catalogue(events, n)[k]).id,
            ) && catalogue(events, n)[k].has_sql,
        forall|j: int, k: int|
            0 <= j < k < catalogue(events, n).len() ==> (#[trigger] catalogue(events, n)[j]).id
                != (#[trigger] catalogue(events, n)[k]).id,
        forall|k: int|
            0 <= k < catalogue(events, n).len() ==> 0 <= (#[trigger] catalogue(
                events,
                n,
            )[k]).params_count <= params_events(events, n, catalogue(events, n)[k].id),
        catalogue(events, n).len() <= if n > 0 { n } else { 0 },
    decreases n,
{
    if n > 0 {
        lemma_catalogue(events, n - 1);
        let before = catalogue(events, n - 1);
        let line = events[n - 1];
        let mid = match line.statement {
            Some((id, _)) => enrolled(before, id),
            None => before,
        };
        let after = catalogue(events, n);
        assert(after.len() == mid.len());
        assert forall|k: int| 0 <= k < mid.len() implies has_statement(
            events,
            n,
            (#[trigger] mid[k]).id,
        ) && mid[k].has_sql by {
            if k < before.len() {
                assert(mid[k] == before[k]);
                let i = choose|i: int|
                    0 <= i < n - 1 && i < events.len() && statement_id(#[trigger] events[i])
                        == Some(before[k].id);
                assert(statement_id(events[i]) == Some(mid[k].id));
            } else {
                assert(statement_id(events[n - 1]) == Some(mid[k].id));
            }
        }
        assert forall|k: int| 0 <= k < after.len() implies has_statement(
            events,
            n,
            (#[trigger] after[k]).id,
        ) && after[k].has_sql by {
            assert(after[k].id == mid[k].id);
            assert(after[k].has_sql == mid[k].has_sql);
        }
        assert forall|j: int, k: int| 0 <= j < k < after.len() implies (#[trigger] after[j]).id
            != (#[trigger] after[k]).id by {
            assert(after[j].id == mid[j].id);
            assert(after[k].id == mid[k].id);
            if k < before.len() {
                assert(mid[j] == before[j] && mid[k] == before[k]);
            } else {
                assert(mid[j] == before[j]);
            }
        }
        assert forall|k: int| 0 <= k < after.len() implies 0 <= (#[trigger] after[k]).params_count
            <= params_events(events, n, after[k].id) by {
            assert(after[k].id == mid[k].id);
            lemma_params_events_nonnegative(events, n - 1, mid[k].id);
            if k < before.len() {
                assert(mid[k] == before[k]);
            }
            match line.params {
                Some((id, _)) => {
                    assert(after[k] == bumped(mid[k], id));
                },
                None => {},
            }
        }
    }
}

/// A count of events is not negative.
pub proof fn lemma_params_events_nonnegative(events: Seq<LineEventsView>, n: int, id: Seq<char>)
    ensures
        params_events(events, n, id) >= 0,
    decreases n,
{
    if n > 0 {
        lemma_params_events_nonnegative(events, n - 1, id);
    }
}

/// How many parameters events of `id` among the first `n` lines count: those
/// on the line of the first statement event of `id` or after it.
pub open spec fn counted_events(events: Seq<LineEventsView>, n: int, id: Seq<char>) -> int
    decreases n,
{
    if n <= 0 {
        0
    } else {
        counted_events(events, n - 1, id) + if params_id(events[n - 1]) == Some(id)
            && has_statement(events, n, id) {
            1int
        } else {
            0int
        }
    }
}

/// No parameters event counts for an id before its first statement event.
pub proof fn lemma_nothing_counted_before(events: Seq<LineEventsView>, n: int, id: Seq<char>)
    requires
        !has_statement(events, n, id),
    ensures
        counted_events(events, n, id) == 0,
    decreases n,
{
    if n > 0 {
        if has_statement(events, n - 1, id) {
            let i = choose|i: int|
                0 <= i < n - 1 && i < events.len() && statement_id(#[trigger] events[i]) == Some(
                    id,
                );
            assert(statement_id(events[i]) == Some(id));
        }
        lemma_nothing_counted_before(events, n - 1, id);
    }
}

/// Each entry of the catalogue counts exactly the parameters events of its
/// id that stand on the line of its first statement event or after it.
pub proof fn lemma_catalogue_counts(events: Seq<LineEventsView>, n: int)
    requires
        n <= events.len(),
    ensures
        forall|k: int|
            0 <= k < catalogue(events, n).len() ==> (#[trigger] catalogue(
                events,
                n,
            )[k]).params_count == counted_events(events, n, catalogue(events, n)[k].id),
    decreases n,
{
    if n > 0 {
        lemma_catalogue_counts(events, n - 1);
        lemma_catalogue(events, n - 1);
        lemma_catalogue(events, n);
        let before = catalogue(events, n - 1);
        let line = events[n - 1];
        let mid = match line.statement {
            Some((id, _)) => enrolled(before, id),
            None => before,
        };
        let after = catalogue(events, n);
        assert(after.len() == mid.len());
        assert forall|k: int| 0 <= k < after.len() implies (#[trigger] after[k]).params_count
            == counted_events(events, n, after[k].id) by {
            assert(after[k].id == mid[k].id);
            if k < before.len() {
                assert(mid[k] == before[k]);
            } else {
                // A new entry: its id was not listed, so nothing was counted for it.
                assert(!listed(before, mid[k].id));
                if has_statement(events, n - 1, mid[k].id) {
                    lemma_listed_after_statement(events, n - 1, mid[k].id);
                }
                lemma_nothing_counted_before(events, n - 1, mid[k].id);
            }
            match line.params {
                Some((id, _)) => {
                    assert(after[k] == bumped(mid[k], id));
                },
                None => {},
            }
        }
    }
}

/// An id with a statement event among the first `n` lines is listed.
pub proof fn lemma_listed_after_statement(events: Seq<LineEventsView>, n: int, id: Seq<char>)
    requires
        n <= events.len(),
        has_statement(events, n, id),
    ensures
        listed(catalogue(events, n), id),
    decreases n,
{
    if n > 0 {
        let before = catalogue(events, n - 1);
        let line = events[n - 1];
        let mid = match line.statement {
            Some((sid, _)) => enrolled(before, sid),
            None => before,
        };
        let after = catalogue(events, n);
        if has_statement(events, n - 1, id) {
            lemma_listed_after_statement(events, n - 1, id);
            let k = choose|k: int| 0 <= k < before.len() && (#[trigger] before[k]).id == id;
            assert(mid[k].id == id);
        } else {
            let i = choose|i: int|
                0 <= i < n && i < events.len() && statement_id(#[trigger] events[i]) == Some(id);
            assert(i == n - 1) by {
                if i < n - 1 {
                    assert(statement_id(events[i]) == Some(id));
                }
            }
            if listed(before, id) {
                let k = choose|k: int| 0 <= k < before.len() && (#[trigger] before[k]).id == id;
                assert(mid[k].id == id);
            } else {
                assert(mid[before.len() as int].id == id);
            }
        }
        let k = choose|k: int| 0 <= k < mid.len() && (#[trigger] mid[k]).id == id;
        assert(after.len() == mid.len());
        assert(after[k].id == mid[k].id);
    }
}

/// Builds the id catalogue from the events of successive lines.
///
/// A statement event enrols its id, in first-seen order. A parameters event
/// counts for its id if that id is enrolled by then, the same line included;
/// an id that turns up in parameters events alone is never listed.
pub fn list_ids(events: &Vec<LineEvents>) -> (r: Vec<IdInfo>)
    requires
        events.len() <= i32::MAX,
    ensures
        r.deep_view() == catalogue(events.deep_view(), events.len() as int),
        forall|k: int|
            0 <= k < r.len() ==> has_statement(
                events.deep_view(),
                events.len() as int,
                (#[trigger] r[k]).id@,
            ),
{
    let ghost all = events.deep_view();
    let mut out: Vec<IdInfo> = Vec::new();
    let mut i: usize = 0;
    while i < events.len()
        invariant
            i <= events.len() <= i32::MAX,
            all == events.deep_view(),
            out.deep_view() == catalogue(all, i as int),
            forall|k: int| 0 <= k < out.len() ==> 0 <= (#[trigger] out[k]).params_count <= i,
        decreases events.len() - i,
    {
        match &events[i].statement {
            Some((id, _)) => {
                enrol(&mut out, id.as_str());
            },
            None => {},
        }
        match &events[i].params {
            Some((id, _)) => {
                count_params(&mut out, id.as_str(), i);
            },
            None => {},
        }
        i += 1;
    }
    proof {
        lemma_catalogue(all, events.len() as int);
        assert forall|k: int| 0 <= k < out.len() implies has_statement(
            all,
            events.len() as int,
            (#[trigger] out[k]).id@,
        ) by {
            assert(out.deep_view()[k] == out[k].deep_view());
        }
    }
    out
}

/// Enrols `id` unless it is listed.
fn enrol(ids: &mut Vec<IdInfo>, id: &str)
    ensures
        final(ids).deep_view() == enrolled(old(ids).deep_view(), id@),
        forall|k: int|
            0 <= k < final(ids).len() ==> (#[trigger] final(ids)[k]).params_count == if k < old(ids).len() {
                old(ids)[k].params_count
            } else {
                0
            },
{
    let ghost before = ids.deep_view();
    let mut k: usize = 0;
    while k < ids.len()
        invariant
            k <= ids.len(),
            *ids == *old(ids),
            before == ids.deep_view(),
            forall|j: int| 0 <= j < k ==> (#[trigger] before[j]).id != id@,
        decreases ids.len() - k,
    {
        assert(before[k as int] == ids[k as int].deep_view());
        if crate::sql_formatter::same_text(ids[k].id.as_str(), id) {
            return ;
        }
        k += 1;
    }
    let entry = IdInfo { id: id.to_owned(), has_sql: true, params_count: 0 };
    ids.push(entry);
}

/// Counts one more parameter run for every entry of `id`.
fn count_params(ids: &mut Vec<IdInfo>, id: &str, limit: usize)
    requires
        limit < i32::MAX,
        forall|k: int| 0 <= k < old(ids).len() ==> 0 <= (#[trigger] old(ids)[k]).params_count <= limit,
    ensures
        final(ids).deep_view() == counted(old(ids).deep_view(), id@),
        forall|k: int|
            0 <= k < final(ids).len() ==> 0 <= (#[trigger] final(ids)[k]).params_count <= limit
                + 1,
{
    let ghost before = ids.deep_view();
    let n = ids.len();
    let mut k: usize = 0;
    while k < n
        invariant
            k <= n == ids.len(),
            limit < i32::MAX,
            before == old(ids).deep_view(),
            before.len() == n,
            forall|j: int| 0 <= j < k ==> (#[trigger] ids[j]).deep_view() == bumped(before[j], id@),
            forall|j: int| k <= j < n ==> (#[trigger] ids[j]).deep_view() == before[j],
            forall|j: int| 0 <= j < n ==> 0 <= (#[trigger] ids[j]).params_count <= limit + 1,
            forall|j: int| k <= j < n ==> (#[trigger] ids[j]).params_count <= limit,
        decreases n - k,
    {
        if crate::sql_formatter::same_text(ids[k].id.as_str(), id) {
            let entry = IdInfo {
                id: ids[k].id.clone(),
                has_sql: ids[k].has_sql,
                params_count: ids[k].params_count + 1,
            };
            ids.set(k, entry);
        }
        k += 1;
    }
}

/// The last statement event with text among the first `n` lines: its id and text.
pub open spec fn last_statement(events: Seq<LineEventsView>, n: int) -> Option<
    (Seq<char>, Seq<char>),
>
    decreases n,
{
    if n <= 0 {
        None
    } else {
        match events[n - 1].statement {
            Some((id, sql)) => if sql.len() > 0 {
                Some((id, sql))
            } else {
                last_statement(events, n - 1)
            },
            None => last_statement(events, n - 1),
        }
    }
}

/// The tokens of the last parameters event of `id` among the first `n`
/// lines, none where there is no such event.
pub open spec fn last_params(events: Seq<LineEventsView>, n: int, id: Seq<char>) -> Seq<
    Seq<char>,
>
    decreases n,
{
    if n <= 0 {
        Seq::empty()
    } else {
        match events[n - 1].params {
            Some((owner, tokens)) => if owner == id {
                tokens
            } else {
                last_params(events, n - 1, id)
            },
            None => last_params(events, n - 1, id),
        }
    }
}

/// The most recent query: the statement event on the last line that has one
/// with text, and the last parameters event of the same id, wherever it
/// stands.
pub open spec fn last_query(events: Seq<LineEventsView>) -> QueryResultView {
    match last_statement(events, events.len() as int) {
        Some((id, sql)) => QueryResultView {
            id,
            sql,
            params: last_params(events, events.len() as int, id),
        },
        None => QueryResultView::not_found(Seq::empty()),
    }
}

/// A log without lines holds no query.
pub proof fn lemma_no_lines_no_query()
    ensures
        last_query(Seq::empty()) == QueryResultView::not_found(Seq::empty()),
{
}

/// Whatever the lines hold, the most recent query is either not found, with
/// nothing in it, or has statement text.
pub proof fn lemma_last_query_shape(events: Seq<LineEventsView>)
    ensures
        last_query(events).sql.len() > 0 || last_query(events) == QueryResultView::not_found(
            Seq::empty(),
        ),
{
    lemma_last_statement_has_text(events, events.len() as int);
}

/// The last statement, where there is one, has text.
pub proof fn lemma_last_statement_has_text(events: Seq<LineEventsView>, n: int)
    ensures
        last_statement(events, n) matches Some((_, sql)) ==> sql.len() > 0,
    decreases n,
{
    if n > 0 {
        lemma_last_statement_has_text(events, n - 1);
    }
}

/// Finds the most recent query among the events of successive lines, in one
/// pass from the end for the statement and one for its parameters.
pub fn find_last_query(events: &Vec<LineEvents>) -> (r: QueryResult)
    ensures
        r.deep_view() == last_query(events.deep_view()),
{
    let ghost all = events.deep_view();
    let mut n: usize = events.len();
    while n > 0
        invariant
            n <= events.len(),
            all == events.deep_view(),
            last_statement(all, n as int) == last_statement(all, events.len() as int),
        decreases n,
    {
        match &events[n - 1].statement {
            Some((id, sql)) => {
                if !sql.as_str().is_empty() {
                    let params = find_last_params(events, id.as_str());
                    return QueryResult { id: id.clone(), sql: sql.clone(), params };
                }
            },
            None => {},
        }
        n -= 1;
    }
    QueryResult::default()
}

/// The tokens of the last parameters event of `id`.
fn find_last_params(events: &Vec<LineEvents>, id: &str) -> (r: Vec<String>)
    ensures
        r.deep_view() == last_params(events.deep_view(), events.len() as int, id@),
{
    let ghost all = events.deep_view();
    let mut n: usize = events.len();
    while n > 0
        invariant
            n <= events.len(),
            all == events.deep_view(),
            last_params(all, n as int, id@) == last_params(all, events.len() as int, id@),
        decreases n,
    {
        match &events[n - 1].params {
            Some((owner, tokens)) => {
                if crate::sql_formatter::same_text(owner.as_str(), id) {
                    return clone_texts(tokens);
                }
            },
            None => {},
        }
        n -= 1;
    }
    let none: Vec<String> = Vec::new();
    none
}

/// Whether the log `data` is within what one scan can hold: the decoders can
/// size their buffers, and the lines can be counted in 32 bits.
pub open spec fn scannable(data: Seq<u8>) -> bool {
    decodable(data.len()) && split_lines(data).len() <= i32::MAX
}

/// The log scanner. It holds the label of the encoding that logs are read in.
pub struct LogParser {
    encoding: String,
}

impl LogParser {
    /// The encoding label that the scanner decodes with.
    pub closed spec fn label(&self) -> Seq<char> {
        self.encoding@
    }

    /// A scanner for logs in `encoding`.
    pub fn new(encoding: String) -> (r: Self)
        ensures
            r.label() == encoding@,
    {
        LogParser { encoding }
    }

    /// Changes the encoding that logs are read in.
    pub fn set_encoding(&mut self, encoding: String)
        ensures
            final(self).label() == encoding@,
    {
        self.encoding = encoding;
    }

    /// The encoding label that the scanner decodes with.
    pub fn encoding(&self) -> (r: &str)
        ensures
            r@ == self.label(),
    {
        self.encoding.as_str()
    }

    /// The lines of the log `data`, decoded; `None` where the log is beyond
    /// what one scan can hold.
    pub fn lines(&self, data: &[u8]) -> (r: Option<Vec<String>>)
        ensures
            match r {
                Some(lines) => scannable(data@) && lines.deep_view() == decoded_lines(
                    self.label(),
                    data@,
                ) && lines.len() <= i32::MAX,
                None => !scannable(data@),
            },
    {
        if data.len() > usize::MAX / 8 {
            return None;
        }
        let lines = decode_lines(data, self.encoding.as_str());
        assert(lines.deep_view().len() == split_lines(data@).len());
        if lines.len() > 0x7fff_ffff {
            None
        } else {
            Some(lines)
        }
    }

    /// The first statement and the first parameter run of `target_id` in the
    /// log `data`. A log beyond what one scan can hold gives the not-found
    /// result, as an empty one does.
    pub fn parse_log_file(&self, patterns: &PatternLibrary, data: &[u8], target_id: &str) -> (r:
        QueryResult)
        ensures
            r.deep_view() == if scannable(data@) {
                query_of(
                    target_id@,
                    facts_of(
                        patterns.attribution_pattern(),
                        target_id@,
                        decoded_lines(self.label(), data@),
                    ),
                )
            } else {
                QueryResultView::not_found(target_id@)
            },
    {
        let lines = match self.lines(data) {
            Some(lines) => lines,
            None => {
                let none: Vec<String> = Vec::new();
                assert(none.deep_view() =~= Seq::<Seq<char>>::empty());
                return QueryResult { id: target_id.to_owned(), sql: String::new(), params: none };
            },
        };
        let target = TargetPatterns::new(target_id);
        let facts = read_all_facts(patterns, &target, &lines);
        first_query(target_id, &facts)
    }

    /// All executions of `target_id` in the log `data`, in the order of
    /// discovery and numbered from 1 without a gap. A log beyond what one
    /// scan can hold gives none.
    pub fn parse_log_file_advanced(
        &self,
        patterns: &PatternLibrary,
        data: &[u8],
        target_id: &str,
    ) -> (r: Vec<Execution>)
        ensures
            r.deep_view() == if scannable(data@) {
                executions_of(
                    target_id@,
                    facts_of(
                        patterns.attribution_pattern(),
                        target_id@,
                        decoded_lines(self.label(), data@),
                    ),
                )
            } else {
                Seq::empty()
            },
            forall|k: int| 0 <= k < r.len() ==> r[k].execution_index == k + 1,
    {
        let lines = match self.lines(data) {
            Some(lines) => lines,
            None => {
                return Vec::new();
            },
        };
        let target = TargetPatterns::new(target_id);
        let facts = read_all_facts(patterns, &target, &lines);
        correlate(target_id, &facts)
    }

    /// The catalogue of the ids in the log `data`, in the order in which
    /// their first statement appears. A log beyond what one scan can hold
    /// gives none.
    pub fn get_all_ids(&self, patterns: &PatternLibrary, data: &[u8]) -> (r: Vec<IdInfo>)
        ensures
            r.deep_view() == if scannable(data@) {
                catalogue(
                    events_of(decoded_lines(self.label(), data@)),
                    decoded_lines(self.label(), data@).len() as int,
                )
            } else {
                Seq::empty()
            },
            forall|k: int|
                0 <= k < r.len() ==> has_statement(
                    events_of(decoded_lines(self.label(), data@)),
                    decoded_lines(self.label(), data@).len() as int,
                    (#[trigger] r[k]).id@,
                ),
    {
        let lines = match self.lines(data) {
            Some(lines) => lines,
            None => {
                return Vec::new();
            },
        };
        let events = read_all_events(patterns, &lines);
        list_ids(&events)
    }

    /// The most recent query in the log `data`. An empty log, one without a
    /// statement, and one beyond what a scan can hold give the not-found
    /// result.
    pub fn get_last_query(&self, patterns: &PatternLibrary, data: &[u8]) -> (r: QueryResult)
        ensures
            r.deep_view() == if scannable(data@) {
                last_query(events_of(decoded_lines(self.label(), data@)))
            } else {
                QueryResultView::not_found(Seq::empty())
            },
            data@.len() == 0 ==> r.deep_view() == QueryResultView::not_found(Seq::empty()),
    {
        let lines = match self.lines(data) {
            Some(lines) => lines,
            None => {
                return QueryResult::default();
            },
        };
        let events = read_all_events(patterns, &lines);
        find_last_query(&events)
    }

    /// The bracketed tokens of a parameter run such as `[a:1:x][b:2:y]`.
    pub fn parse_params_string(&self, patterns: &PatternLibrary, params_str: &str) -> (r: Vec<
        String,
    >)
        ensures
            r.deep_view() == crate::pattern::bracket_tokens(params_str@),
    {
        patterns.tokens(params_str)
    }
}

impl Default for LogParser {
    fn default() -> (r: Self)
        ensures
            r.label() == "SHIFT_JIS"@,
    {
        LogParser::new("SHIFT_JIS".to_owned())
    }
}

} // verus!
