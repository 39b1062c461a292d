//! The extraction patterns and the regular-expression engine behind them.
//!
//! Matching is done by the `regex` crate. What it finds is not modelled here:
//! the spec functions `first_match` and `all_matches` stand for its results,
//! and everything built on top is stated over them.

use vstd::prelude::*;
use regex::Regex;

verus! {

/// `regex::Regex`: a compiled expression. Nothing of its inside is visible here.
#[verifier::external_type_specification]
#[verifier::external_body]
pub struct ExRegex(Regex);

/// `regex::Error`: why a pattern did not compile.
#[verifier::external_type_specification]
#[verifier::external_body]
pub struct ExRegexError(regex::Error);

/// The capture groups of one match: group 0 is the whole match, and a group
/// that took no part in the match is `None`.
pub type Groups = Seq<Option<Seq<char>>>;

/// The pattern text that a compiled expression was built from.
pub uninterp spec fn pattern_of(re: Regex) -> Seq<char>;

/// Whether the engine accepts `pattern` under its default configuration.
pub uninterp spec fn pattern_compiles(pattern: Seq<char>) -> bool;

/// The groups of the leftmost match of `pattern` in `text`, if it matches at all.
pub uninterp spec fn first_match(pattern: Seq<char>, text: Seq<char>) -> Option<Groups>;

/// The groups of every successive non-overlapping match of `pattern` in `text`, in order.
pub uninterp spec fn all_matches(pattern: Seq<char>, text: Seq<char>) -> Seq<Groups>;

/// Group `i` of a match, `None` where the pattern has no such group or it did not take part.
pub open spec fn group(groups: Groups, i: int) -> Option<Seq<char>> {
    if 0 <= i < groups.len() {
        groups[i]
    } else {
        None
    }
}

/// Group `i` of an optional match.
pub open spec fn group_of(found: Option<Groups>, i: int) -> Option<Seq<char>> {
    match found {
        Some(groups) => group(groups, i),
        None => None,
    }
}

/// The characters that the engine treats as syntax.
pub open spec fn is_meta(c: char) -> bool {
    c == '\\' || c == '.' || c == '+' || c == '*' || c == '?' || c == '(' || c == ')' || c == '|'
        || c == '[' || c == ']' || c == '{' || c == '}' || c == '^' || c == '$' || c == '#' || c
        == '&' || c == '-' || c == '~'
}

/// `s` with a backslash in front of every syntax character.
pub open spec fn escaped(s: Seq<char>) -> Seq<char>
    decreases s.len(),
{
    if s.len() == 0 {
        Seq::empty()
    } else if is_meta(s.last()) {
        escaped(s.drop_last()).push('\\').push(s.last())
    } else {
        escaped(s.drop_last()).push(s.last())
    }
}

/// `Regex::new`: compiles `pattern` under the default configuration. The
/// compiled value remembers the text it was given.
#[verifier::external_body]
pub(crate) fn compile(pattern: &str) -> (r: Result<Regex, regex::Error>)
    ensures
        r is Ok <==> pattern_compiles(pattern@),
        r matches Ok(re) ==> pattern_of(re) == pattern@,
{
    Regex::new(pattern)
}

/// `Regex::captures`: the groups of the leftmost match, each copied out as owned text.
#[verifier::external_body]
pub(crate) fn captures(re: &Regex, text: &str) -> (r: Option<Vec<Option<String>>>)
    ensures
        r.deep_view() == first_match(pattern_of(*re), text@),
{
    re.captures(text).map(|c| c.iter().map(|g| g.map(|m| m.as_str().to_string())).collect())
}

/// `Regex::captures_iter`: the groups of each successive match, copied out as owned text.
#[verifier::external_body]
pub(crate) fn captures_all(re: &Regex, text: &str) -> (r: Vec<Vec<Option<String>>>)
    ensures
        r.deep_view() == all_matches(pattern_of(*re), text@),
{
    re.captures_iter(text).map(|c| c.iter().map(|g| g.map(|m| m.as_str().to_string())).collect()).collect()
}

/// `text` with every non-overlapping match of `pattern` replaced by
/// `replacement`, in which `$0` stands for the match.
pub uninterp spec fn replaced_all(
    pattern: Seq<char>,
    text: Seq<char>,
    replacement: Seq<char>,
) -> Seq<char>;

/// `Regex::replace_all`: every non-overlapping match gives way to the
/// expanded replacement.
#[verifier::external_body]
pub(crate) fn replace_all(re: &Regex, text: &str, replacement: &str) -> (r: String)
    ensures
        r@ == replaced_all(pattern_of(*re), text@, replacement@),
{
    re.replace_all(text, replacement).into_owned()
}

/// `regex::escape`: every syntax character gets a backslash in front, the rest is kept.
#[verifier::external_body]
pub(crate) fn escape(text: &str) -> (r: String)
    ensures
        r@ == escaped(text@),
{
    regex::escape(text)
}

/// Bracketed parameter tokens: `[` … `]` with no `]` inside.
pub const PARAM_PATTERN: &'static str = r"\[([^\]]+)\]";

/// A statement event: a lowercase-hex id, whitespace, and `sql=` with the rest of the line.
pub const ID_SQL_PATTERN: &'static str = r"id=([a-f0-9]+)\s+sql=(.*)";

/// A parameters event: a lowercase-hex id, whitespace, and `params=` with the rest of the line.
pub const ID_PARAMS_PATTERN: &'static str = r"id=([a-f0-9]+)\s+params=(.*)";

/// The timestamp that may open a line.
pub const TIMESTAMP_PATTERN: &'static str = r"^(\d{4}/\d{2}/\d{2}\s+\d{2}:\d{2}:\d{2})";

/// The marker a data-access object leaves when it completes, with its class name as group 1.
pub const DAO_PATTERN: &'static str = r"Daoの終了jp\.co\.[^\s,]+?([A-Za-z]+Dao)\b";

/// `first_match`, or nothing where the pattern does not compile.
pub open spec fn try_match(pattern: Seq<char>, text: Seq<char>) -> Option<Groups> {
    if pattern_compiles(pattern) {
        first_match(pattern, text)
    } else {
        None
    }
}

/// Group 1 of every match in `found` that has one.
pub open spec fn first_groups(found: Seq<Groups>) -> Seq<Seq<char>> {
    found.filter_map(|g: Groups| group(g, 1))
}

/// The bracketed tokens in `run`, in order.
pub open spec fn bracket_tokens(run: Seq<char>) -> Seq<Seq<char>> {
    first_groups(all_matches(PARAM_PATTERN@, run))
}

/// Groups 1 and 2 of a match, where both took part.
pub open spec fn two_groups(found: Option<Groups>) -> Option<(Seq<char>, Seq<char>)> {
    match (group_of(found, 1), group_of(found, 2)) {
        (Some(a), Some(b)) => Some((a, b)),
        _ => None,
    }
}

/// The statement event on `line`: the id and the rest of the line after `sql=`.
pub open spec fn statement_event(line: Seq<char>) -> Option<(Seq<char>, Seq<char>)> {
    two_groups(first_match(ID_SQL_PATTERN@, line))
}

/// The parameters event on `line`: the id and the bracketed tokens after `params=`.
pub open spec fn params_event(line: Seq<char>) -> Option<(Seq<char>, Seq<Seq<char>>)> {
    match two_groups(first_match(ID_PARAMS_PATTERN@, line)) {
        Some((id, run)) => Some((id, bracket_tokens(run))),
        None => None,
    }
}

/// The timestamp that opens `line`, if one does.
pub open spec fn leading_timestamp(line: Seq<char>) -> Option<Seq<char>> {
    group_of(first_match(TIMESTAMP_PATTERN@, line), 1)
}

/// Copies group `i` out of a match.
fn take_group(groups: &Vec<Option<String>>, i: usize) -> (r: Option<String>)
    ensures
        r.deep_view() == group(groups.deep_view(), i as int),
{
    if i < groups.len() {
        match &groups[i] {
            Some(text) => Some(text.clone()),
            None => None,
        }
    } else {
        None
    }
}

/// Copies group `i` out of an optional match.
fn take_group_of(found: &Option<Vec<Option<String>>>, i: usize) -> (r: Option<String>)
    ensures
        r.deep_view() == group_of(found.deep_view(), i as int),
{
    match found {
        Some(groups) => take_group(groups, i),
        None => None,
    }
}

/// Copies groups 1 and 2 out of an optional match.
fn take_two_groups(found: &Option<Vec<Option<String>>>) -> (r: Option<(String, String)>)
    ensures
        r.deep_view() == two_groups(found.deep_view()),
{
    match take_group_of(found, 1) {
        Some(a) => match take_group_of(found, 2) {
            Some(b) => Some((a, b)),
            None => None,
        },
        None => None,
    }
}

/// The fixed patterns, compiled once and shared read-only by every scan.
pub struct PatternLibrary {
    param: Regex,
    id_sql: Regex,
    id_params: Regex,
    timestamp: Regex,
    attribution: Regex,
}

impl PatternLibrary {
    #[verifier::type_invariant]
    spec fn well_formed(&self) -> bool {
        &&& pattern_of(self.param) == PARAM_PATTERN@
        &&& pattern_of(self.id_sql) == ID_SQL_PATTERN@
        &&& pattern_of(self.id_params) == ID_PARAMS_PATTERN@
        &&& pattern_of(self.timestamp) == TIMESTAMP_PATTERN@
    }

    /// The pattern whose group 1 names the data-access class that a line attributes a statement to.
    pub closed spec fn attribution_pattern(&self) -> Seq<char> {
        pattern_of(self.attribution)
    }

    /// Whether the four fixed patterns compile.
    pub open spec fn fixed_patterns_compile() -> bool {
        &&& pattern_compiles(PARAM_PATTERN@)
        &&& pattern_compiles(ID_SQL_PATTERN@)
        &&& pattern_compiles(ID_PARAMS_PATTERN@)
        &&& pattern_compiles(TIMESTAMP_PATTERN@)
    }

    /// The library with the default attribution marker.
    pub fn new() -> (r: Option<PatternLibrary>)
        ensures
            r is Some <==> Self::fixed_patterns_compile() && pattern_compiles(DAO_PATTERN@),
            r matches Some(lib) ==> lib.attribution_pattern() == DAO_PATTERN@,
    {
        Self::with_attribution(DAO_PATTERN)
    }

    /// The library with `marker` as the attribution pattern, so that the marker
    /// text can change without touching the scanners.
    pub fn with_attribution(marker: &str) -> (r: Option<PatternLibrary>)
        ensures
            r is Some <==> Self::fixed_patterns_compile() && pattern_compiles(marker@),
            r matches Some(lib) ==> lib.attribution_pattern() == marker@,
    {
        let param = match compile(PARAM_PATTERN) {
            Ok(re) => re,
            Err(_) => { return None; },
        };
        let id_sql = match compile(ID_SQL_PATTERN) {
            Ok(re) => re,
            Err(_) => { return None; },
        };
        let id_params = match compile(ID_PARAMS_PATTERN) {
            Ok(re) => re,
            Err(_) => { return None; },
        };
        let timestamp = match compile(TIMESTAMP_PATTERN) {
            Ok(re) => re,
            Err(_) => { return None; },
        };
        let attribution = match compile(marker) {
            Ok(re) => re,
            Err(_) => { return None; },
        };
        Some(PatternLibrary { param, id_sql, id_params, timestamp, attribution })
    }

    /// The bracketed tokens in `run`, in order.
    pub fn tokens(&self, run: &str) -> (r: Vec<String>)
        ensures
            r.deep_view() == bracket_tokens(run@),
    {
        proof {
            use_type_invariant(self);
        }
        let found = captures_all(&self.param, run);
        let ghost all = found.deep_view();
        let ghost pick = |g: Groups| group(g, 1);
        let mut out: Vec<String> = Vec::new();
        let mut i: usize = 0;
        while i < found.len()
            invariant
                i <= found.len(),
                all == found.deep_view(),
                pick == |g: Groups| group(g, 1),
                out.deep_view() == all.take(i as int).filter_map(pick),
            decreases found.len() - i,
        {
            let token = take_group(&found[i], 1);
            proof {
                all.lemma_filter_map_take_succ(pick, i as int);
            }
            match token {
                Some(text) => {
                    out.push(text);
                },
                None => {},
            }
            i += 1;
        }
        assert(all.take(found.len() as int) == all);
        out
    }

    /// The statement event on `line`: the id and the rest of the line after `sql=`.
    pub fn statement_event(&self, line: &str) -> (r: Option<(String, String)>)
        ensures
            r.deep_view() == statement_event(line@),
    {
        proof {
            use_type_invariant(self);
        }
        let found = captures(&self.id_sql, line);
        take_two_groups(&found)
    }

    /// The parameters event on `line`: the id and the bracketed tokens after `params=`.
    pub fn params_event(&self, line: &str) -> (r: Option<(String, Vec<String>)>)
        ensures
            r.deep_view() == params_event(line@),
    {
        proof {
            use_type_invariant(self);
        }
        let found = captures(&self.id_params, line);
        match take_two_groups(&found) {
            Some((id, run)) => {
                let tokens = self.tokens(run.as_str());
                Some((id, tokens))
            },
            None => None,
        }
    }

    /// The timestamp that opens `line`, if one does.
    pub fn leading_timestamp(&self, line: &str) -> (r: Option<String>)
        ensures
            r.deep_view() == leading_timestamp(line@),
    {
        proof {
            use_type_invariant(self);
        }
        let found = captures(&self.timestamp, line);
        take_group_of(&found, 1)
    }

    /// The class that `line` attributes a statement to, if it carries the marker.
    pub fn attribution(&self, line: &str) -> (r: Option<String>)
        ensures
            r.deep_view() == group_of(first_match(self.attribution_pattern(), line@), 1),
    {
        let found = captures(&self.attribution, line);
        take_group_of(&found, 1)
    }
}

/// The pattern for a line that carries timestamp, level, source and the statement of `id`.
pub open spec fn correlated_pattern(id: Seq<char>) -> Seq<char> {
    r"^(\d{4}/\d{2}/\d{2}\s+\d{2}:\d{2}:\d{2}),\w+,([^,]+),.*id="@ + escaped(id)
        + r"\s+sql=\s*(.+)"@
}

/// The pattern for a statement of `id` anywhere on a line.
pub open spec fn bare_pattern(id: Seq<char>) -> Seq<char> {
    "id="@ + escaped(id) + r"\s+sql=\s*(.+)"@
}

/// The pattern for a parameter run of `id` anywhere on a line.
pub open spec fn params_pattern(id: Seq<char>) -> Seq<char> {
    "id="@ + escaped(id) + r"\s+params=(\[[^\n]+)"@
}

/// Group `i` of a match, empty where it took no part.
pub open spec fn group_or_empty(groups: Groups, i: int) -> Seq<char> {
    match group(groups, i) {
        Some(text) => text,
        None => Seq::empty(),
    }
}

/// Timestamp and statement text of `id` on a fully correlated `line`.
pub open spec fn correlated_statement(id: Seq<char>, line: Seq<char>) -> Option<
    (Seq<char>, Seq<char>),
> {
    match try_match(correlated_pattern(id), line) {
        Some(groups) => Some((group_or_empty(groups, 1), group_or_empty(groups, 3))),
        None => None,
    }
}

/// Statement text of `id` on `line`, as the bare pattern finds it.
pub open spec fn bare_statement(id: Seq<char>, line: Seq<char>) -> Option<Seq<char>> {
    match try_match(bare_pattern(id), line) {
        Some(groups) => Some(group_or_empty(groups, 1)),
        None => None,
    }
}

/// The parameter tokens of `id` on `line`.
pub open spec fn target_params(id: Seq<char>, line: Seq<char>) -> Option<Seq<Seq<char>>> {
    match try_match(params_pattern(id), line) {
        Some(groups) => Some(bracket_tokens(group_or_empty(groups, 1))),
        None => None,
    }
}

/// Copies group `i` out of a match, empty where it took no part.
fn take_group_or_empty(groups: &Vec<Option<String>>, i: usize) -> (r: String)
    ensures
        r@ == group_or_empty(groups.deep_view(), i as int),
{
    match take_group(groups, i) {
        Some(text) => text,
        None => String::new(),
    }
}

/// The three patterns that look for one transaction id, compiled for one scan.
/// A pattern that does not compile matches nothing.
pub struct TargetPatterns {
    id: String,
    correlated: Option<Regex>,
    bare: Option<Regex>,
    params: Option<Regex>,
}

impl TargetPatterns {
    #[verifier::type_invariant]
    spec fn well_formed(&self) -> bool {
        &&& self.correlated is Some <==> pattern_compiles(correlated_pattern(self.id@))
        &&& self.correlated matches Some(re) ==> pattern_of(re) == correlated_pattern(self.id@)
        &&& self.bare is Some <==> pattern_compiles(bare_pattern(self.id@))
        &&& self.bare matches Some(re) ==> pattern_of(re) == bare_pattern(self.id@)
        &&& self.params is Some <==> pattern_compiles(params_pattern(self.id@))
        &&& self.params matches Some(re) ==> pattern_of(re) == params_pattern(self.id@)
    }

    /// The id these patterns look for.
    pub closed spec fn target(&self) -> Seq<char> {
        self.id@
    }

    /// The patterns for `target_id`, taken literally.
    pub fn new(target_id: &str) -> (r: TargetPatterns)
        ensures
            r.target() == target_id@,
    {
        let literal = escape(target_id);
        let mut correlated_text =
            r"^(\d{4}/\d{2}/\d{2}\s+\d{2}:\d{2}:\d{2}),\w+,([^,]+),.*id=".to_owned();
        correlated_text.append(literal.as_str());
        correlated_text.append(r"\s+sql=\s*(.+)");
        let mut bare_text = "id=".to_owned();
        bare_text.append(literal.as_str());
        bare_text.append(r"\s+sql=\s*(.+)");
        let mut params_text = "id=".to_owned();
        params_text.append(literal.as_str());
        params_text.append(r"\s+params=(\[[^\n]+)");
        let correlated = optional(compile(correlated_text.as_str()));
        let bare = optional(compile(bare_text.as_str()));
        let params = optional(compile(params_text.as_str()));
        TargetPatterns { id: target_id.to_owned(), correlated, bare, params }
    }

    /// Timestamp and statement text on a fully correlated `line`.
    pub fn correlated_statement(&self, line: &str) -> (r: Option<(String, String)>)
        ensures
            r.deep_view() == correlated_statement(self.target(), line@),
    {
        proof {
            use_type_invariant(self);
        }
        match &self.correlated {
            Some(re) => match captures(re, line) {
                Some(groups) => Some(
                    (take_group_or_empty(&groups, 1), take_group_or_empty(&groups, 3)),
                ),
                None => None,
            },
            None => None,
        }
    }

    /// Statement text on `line`, as the bare pattern finds it.
    pub fn bare_statement(&self, line: &str) -> (r: Option<String>)
        ensures
            r.deep_view() == bare_statement(self.target(), line@),
    {
        proof {
            use_type_invariant(self);
        }
        match &self.bare {
            Some(re) => match captures(re, line) {
                Some(groups) => Some(take_group_or_empty(&groups, 1)),
                None => None,
            },
            None => None,
        }
    }

    /// The parameter tokens on `line`.
    pub fn params(&self, library: &PatternLibrary, line: &str) -> (r: Option<Vec<String>>)
        ensures
            r.deep_view() == target_params(self.target(), line@),
    {
        proof {
            use_type_invariant(self);
        }
        match &self.params {
            Some(re) => match captures(re, line) {
                Some(groups) => {
                    let run = take_group_or_empty(&groups, 1);
                    Some(library.tokens(run.as_str()))
                },
                None => None,
            },
            None => None,
        }
    }
}

/// The compiled expression, or nothing where compiling failed.
fn optional(compiled: Result<Regex, regex::Error>) -> (r: Option<Regex>)
    ensures
        r is Some <==> compiled is Ok,
        r matches Some(re) ==> compiled == Ok::<Regex, regex::Error>(re),
{
    match compiled {
        Ok(re) => Some(re),
        Err(_) => None,
    }
}

} // verus!
