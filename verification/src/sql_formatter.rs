//! Reconstruction and cosmetic formatting of SQL text.
//!
//! A parameter token has the wire form `TYPE:POSITION:VALUE`. `replace_placeholders`
//! puts the literal of each token in place of the `?` it belongs to.

use std::collections::HashMap;
use vstd::prelude::*;
use crate::text::{
    chars_of, decimal, doubled, find_char, first_index, is_number, lowercase, parse_i32,
    parsed_i32, push_decimal, push_doubled, push_range, string_of, trim_bounds, trimmed,
    uppercase,
};

verus! {

broadcast use vstd::std_specs::hash::group_hash_axioms;

/// Whether two texts hold the same characters.
pub fn same_text(a: &str, b: &str) -> (r: bool)
    ensures
        r == (a@ == b@),
{
    let x = a.to_owned();
    let y = b.to_owned();
    x == y
}

/// The three parts of a token: what stands before the first colon, between the
/// first and the second, and after the second. `None` with fewer than two colons.
pub open spec fn split_token(s: Seq<char>) -> Option<(Seq<char>, Seq<char>, Seq<char>)> {
    let i = first_index(s, ':');
    let j = i + 1 + first_index(s.skip(i + 1), ':');
    if i < s.len() && j < s.len() {
        Some((s.take(i), s.subrange(i + 1, j), s.skip(j + 1)))
    } else {
        None
    }
}

/// The positions of the two colons that split a token.
pub fn token_colons(v: &Vec<char>) -> (r: Option<(usize, usize)>)
    ensures
        match r {
            Some((i, j)) => i < j < v.len() && split_token(v@) == Some(
                (v@.take(i as int), v@.subrange(i + 1, j as int), v@.skip(j + 1)),
            ),
            None => split_token(v@) is None,
        },
{
    let i = find_char(v, 0, ':');
    assert(v@.skip(0) == v@);
    if i >= v.len() {
        return None;
    }
    let j = find_char(v, i + 1, ':');
    if j >= v.len() {
        return None;
    }
    Some((i, j))
}

/// `s` as a SQL string literal: in single quotes, embedded quotes doubled.
pub open spec fn quoted(s: Seq<char>) -> Seq<char> {
    seq!['\''] + doubled(s, '\'') + seq!['\'']
}

/// Whether every character of `s` is numeric or a dot.
pub open spec fn looks_numeric(s: Seq<char>) -> bool {
    forall|i: int| 0 <= i < s.len() ==> is_number(#[trigger] s[i]) || s[i] == '.'
}

/// Whether the lowercased type name calls for a quoted literal.
pub open spec fn is_text_kind(kind: Seq<char>) -> bool {
    kind == "string"@ || kind == "timestamp"@ || kind == "date"@
}

/// Whether the lowercased type name belongs to the numeric family.
pub open spec fn is_numeric_kind(kind: Seq<char>) -> bool {
    kind == "bigdecimal"@ || kind == "number"@ || kind == "int"@ || kind == "long"@ || kind
        == "float"@ || kind == "double"@
}

/// The SQL literal for a value of the declared type.
pub open spec fn literal(declared: Seq<char>, value: Seq<char>) -> Seq<char> {
    let kind = lowercase(declared);
    if value == "null"@ {
        "NULL"@
    } else if is_text_kind(kind) {
        quoted(value)
    } else if kind == "boolean"@ {
        uppercase(value)
    } else if is_numeric_kind(kind) {
        value
    } else if looks_numeric(value) {
        value
    } else {
        quoted(value)
    }
}

/// `v[from..]` as a SQL string literal.
fn quote(v: &Vec<char>, from: usize) -> (r: String)
    requires
        from <= v.len(),
    ensures
        r@ == quoted(v@.skip(from as int)),
{
    let mut out = String::new();
    out.push('\'');
    push_doubled(&mut out, v, from, '\'');
    out.push('\'');
    out
}

/// Whether every character of `v[from..]` is numeric or a dot.
fn numeric_looking(v: &Vec<char>, from: usize) -> (r: bool)
    requires
        from <= v.len(),
    ensures
        r == looks_numeric(v@.skip(from as int)),
{
    let ghost s = v@.skip(from as int);
    let mut i: usize = from;
    while i < v.len()
        invariant
            from <= i <= v.len(),
            s == v@.skip(from as int),
            forall|k: int| 0 <= k < i - from ==> is_number(#[trigger] s[k]) || s[k] == '.',
        decreases v.len() - i,
    {
        let c = v[i];
        assert(s[i - from] == c);
        if !(c.is_numeric() || c == '.') {
            return false;
        }
        i += 1;
    }
    true
}

/// The SQL literal for the token `v`, whose colons stand at `i` and `j`.
fn token_literal(v: &Vec<char>, i: usize, j: usize) -> (r: String)
    requires
        i < j < v.len(),
    ensures
        r@ == literal(v@.take(i as int), v@.skip(j + 1)),
{
    let declared = string_of(v, 0, i);
    let value = string_of(v, j + 1, v.len());
    let kind = declared.as_str().to_lowercase();
    if same_text(value.as_str(), "null") {
        "NULL".to_owned()
    } else if same_text(kind.as_str(), "string") || same_text(kind.as_str(), "timestamp")
        || same_text(kind.as_str(), "date") {
        quote(v, j + 1)
    } else if same_text(kind.as_str(), "boolean") {
        value.as_str().to_uppercase()
    } else if same_text(kind.as_str(), "bigdecimal") || same_text(kind.as_str(), "number")
        || same_text(kind.as_str(), "int") || same_text(kind.as_str(), "long") || same_text(
        kind.as_str(),
        "float",
    ) || same_text(kind.as_str(), "double") {
        value
    } else if numeric_looking(v, j + 1) {
        value
    } else {
        quote(v, j + 1)
    }
}

/// What one token contributes: its position and its literal. `None` for a
/// token that has fewer than three parts or whose position is no integer.
pub open spec fn binding(token: Seq<char>) -> Option<(int, Seq<char>)> {
    match split_token(token) {
        Some((declared, position, value)) => match parsed_i32(position) {
            Some(p) => Some((p, literal(declared, value))),
            None => None,
        },
        None => None,
    }
}

/// The literal for each declared position. Later tokens replace earlier ones
/// with the same position; unusable tokens leave no trace.
pub open spec fn bindings(tokens: Seq<Seq<char>>) -> Map<int, Seq<char>>
    decreases tokens.len(),
{
    if tokens.len() == 0 {
        Map::empty()
    } else {
        match binding(tokens.last()) {
            Some((p, text)) => bindings(tokens.drop_last()).insert(p, text),
            None => bindings(tokens.drop_last()),
        }
    }
}

/// What one token contributes, computed.
fn token_binding(token: &str) -> (r: Option<(i32, String)>)
    ensures
        r.deep_view() == match binding(token@) {
            Some((p, text)) => Some((p as i32, text)),
            None => None,
        },
        binding(token@) matches Some((p, _)) ==> i32::MIN <= p <= i32::MAX,
{
    let v = chars_of(token);
    match token_colons(&v) {
        Some((i, j)) => {
            let position = string_of(&v, i + 1, j);
            let digits = chars_of(position.as_str());
            match parse_i32(&digits) {
                Some(p) => Some((p, token_literal(&v, i, j))),
                None => None,
            }
        },
        None => None,
    }
}

/// Whether the hash map `m` holds exactly the bindings `model`.
pub open spec fn holds(m: Map<i32, String>, model: Map<int, Seq<char>>) -> bool {
    &&& forall|k: int| #[trigger]
        model.contains_key(k) ==> i32::MIN <= k <= i32::MAX && m.contains_key(k as i32) && m[k as i32]@
            == model[k]
    &&& forall|k: i32| #[trigger] m.contains_key(k) ==> model.contains_key(k as int)
}

/// The literal for each declared position, computed.
fn collect_bindings(params: &[String]) -> (m: HashMap<i32, String>)
    ensures
        holds(m@, bindings(params.deep_view())),
{
    let ghost tokens = params.deep_view();
    let mut m: HashMap<i32, String> = HashMap::new();
    let mut i: usize = 0;
    while i < params.len()
        invariant
            i <= params.len(),
            tokens == params.deep_view(),
            holds(m@, bindings(tokens.take(i as int))),
        decreases params.len() - i,
    {
        proof {
            assert(tokens.take(i + 1).drop_last() == tokens.take(i as int));
        }
        match token_binding(params[i].as_str()) {
            Some((p, text)) => {
                m.insert(p, text);
            },
            None => {},
        }
        i += 1;
    }
    assert(tokens.take(params.len() as int) == tokens);
    m
}

/// The text that scanning `sql[from..]` adds to `out`, when the next
/// placeholder is number `position`: each `?` gives way to the literal bound
/// to its number. `Err` names the first placeholder without one.
pub open spec fn fill(
    sql: Seq<char>,
    values: Map<int, Seq<char>>,
    from: int,
    position: int,
    out: Seq<char>,
) -> Result<Seq<char>, int>
    decreases sql.len() - from,
{
    if from < 0 || from >= sql.len() {
        Ok(out)
    } else if sql[from] != '?' {
        fill(sql, values, from + 1, position, out.push(sql[from]))
    } else if values.contains_key(position) {
        fill(sql, values, from + 1, position + 1, out + values[position])
    } else {
        Err(position)
    }
}

/// The message for a placeholder without a value.
pub open spec fn missing_value(position: int) -> Seq<char> {
    "Missing value for position "@ + decimal(position as nat)
}

/// `sql` with the literal of each token in place of its placeholder, or the
/// message that names the first placeholder left without a value.
pub open spec fn substituted(sql: Seq<char>, tokens: Seq<Seq<char>>) -> Result<
    Seq<char>,
    Seq<char>,
> {
    match fill(sql, bindings(tokens), 0, 1, Seq::empty()) {
        Ok(text) => Ok(text),
        Err(position) => Err(missing_value(position)),
    }
}

/// How many placeholders `sql[from..]` holds.
pub open spec fn placeholders_from(sql: Seq<char>, from: int) -> int
    decreases sql.len() - from,
{
    if from < 0 || from >= sql.len() {
        0
    } else if sql[from] == '?' {
        1 + placeholders_from(sql, from + 1)
    } else {
        placeholders_from(sql, from + 1)
    }
}

/// How many placeholders `sql` holds.
pub open spec fn placeholders(sql: Seq<char>) -> int {
    placeholders_from(sql, 0)
}

/// A scan succeeds where every placeholder ahead has a literal, and else
/// stops at the first that has none.
pub proof fn lemma_fill_outcome(
    sql: Seq<char>,
    values: Map<int, Seq<char>>,
    from: int,
    position: int,
    out: Seq<char>,
)
    requires
        0 <= from <= sql.len(),
    ensures
        placeholders_from(sql, from) >= 0,
        match fill(sql, values, from, position, out) {
            Ok(_) => forall|p: int|
                position <= p < position + placeholders_from(sql, from) ==> values.contains_key(p),
            Err(k) => {
                &&& position <= k < position + placeholders_from(sql, from)
                &&& !values.contains_key(k)
                &&& forall|p: int| position <= p < k ==> values.contains_key(p)
            },
        },
    decreases sql.len() - from,
{
    if from < sql.len() {
        if sql[from] != '?' {
            lemma_fill_outcome(sql, values, from + 1, position, out.push(sql[from]));
        } else {
            lemma_fill_outcome(sql, values, from + 1, position + 1, out + values[position]);
        }
    }
}

/// Substitution fails exactly where one of the placeholders, numbered from 1
/// in the order of appearance, has no literal; the message then names the
/// first such placeholder.
pub proof fn lemma_substitution_outcome(sql: Seq<char>, tokens: Seq<Seq<char>>)
    ensures
        substituted(sql, tokens) is Ok <==> forall|p: int|
            1 <= p <= placeholders(sql) ==> bindings(tokens).contains_key(p),
        forall|k: int|
            1 <= k <= placeholders(sql) && !bindings(tokens).contains_key(k) && (forall|p: int|
                1 <= p < k ==> bindings(tokens).contains_key(p)) ==> substituted(sql, tokens)
                == Err::<Seq<char>, Seq<char>>(missing_value(k)),
{
    lemma_fill_outcome(sql, bindings(tokens), 0, 1, Seq::empty());
    match fill(sql, bindings(tokens), 0, 1, Seq::empty()) {
        Ok(_) => {},
        Err(first) => {
            assert forall|k: int|
                1 <= k <= placeholders(sql) && !bindings(tokens).contains_key(k) && (forall|
                    p: int,
                | 1 <= p < k ==> bindings(tokens).contains_key(p)) implies k == first by {
                if k < first {
                    assert(bindings(tokens).contains_key(k));
                }
                if first < k {
                    assert(bindings(tokens).contains_key(first));
                }
            }
        },
    }
}

/// A statement with two placeholders or more, given a literal for the first
/// and none for the second, is refused with the message that names position 2.
pub proof fn lemma_missing_second_value(sql: Seq<char>, tokens: Seq<Seq<char>>)
    requires
        placeholders(sql) >= 2,
        bindings(tokens).contains_key(1),
        !bindings(tokens).contains_key(2),
    ensures
        substituted(sql, tokens) == Err::<Seq<char>, Seq<char>>(missing_value(2)),
{
    lemma_substitution_outcome(sql, tokens);
    assert forall|p: int| 1 <= p < 2 implies bindings(tokens).contains_key(p) by {}
}

/// Substitution is a function of the statement and the tokens: the same
/// inputs give the same result, whenever and however often it is asked.
pub proof fn lemma_substitution_is_pure(
    sql: Seq<char>,
    tokens: Seq<Seq<char>>,
    again_sql: Seq<char>,
    again_tokens: Seq<Seq<char>>,
)
    requires
        sql == again_sql,
        tokens == again_tokens,
    ensures
        substituted(sql, tokens) == substituted(again_sql, again_tokens),
{
}

/// Replaces the `?` placeholders of `query`, in order of appearance, by the
/// literals of `params`.
///
/// The n-th `?` takes the literal of the last token that declares position n.
/// A token with fewer than three parts, or with a position that is no integer,
/// is passed over. The call fails only where a `?` has no literal, and the
/// message then names its number.
pub fn replace_placeholders(query: &str, params: &[String]) -> (r: Result<String, String>)
    ensures
        match r {
            Ok(text) => substituted(query@, params.deep_view()) == Ok::<Seq<char>, Seq<char>>(
                text@,
            ),
            Err(message) => substituted(query@, params.deep_view()) == Err::<
                Seq<char>,
                Seq<char>,
            >(message@),
        },
{
    let values = collect_bindings(params);
    let sql = chars_of(query);
    let ghost model = bindings(params.deep_view());
    let mut out = String::new();
    let mut seen: usize = 0;
    let mut i: usize = 0;
    while i < sql.len()
        invariant
            seen <= i <= sql.len(),
            sql@ == query@,
            model == bindings(params.deep_view()),
            holds(values@, model),
            fill(sql@, model, i as int, seen + 1, out@) == fill(sql@, model, 0, 1, Seq::empty()),
        decreases sql.len() - i,
    {
        let c = sql[i];
        if c != '?' {
            out.push(c);
        } else {
            let found = if seen < 0x7fff_ffff {
                values.get(&((seen + 1) as i32))
            } else {
                None
            };
            match found {
                Some(text) => {
                    out.append(text.as_str());
                    seen += 1;
                },
                None => {
                    let mut message = "Missing value for position ".to_owned();
                    push_decimal(&mut message, (seen + 1) as u64);
                    return Err(message);
                },
            }
        }
        i += 1;
    }
    Ok(out)
}

/// The display line for one token: position, type and value where the token
/// has three parts, the raw token where it has not.
pub open spec fn param_line(token: Seq<char>) -> Seq<char> {
    match split_token(token) {
        Some((declared, position, value)) => "  ["@ + position + "] "@ + declared + ": "@ + value
            + "\n"@,
        None => "  "@ + token + "\n"@,
    }
}

/// The display lines of `tokens`, one after the other.
pub open spec fn param_lines(tokens: Seq<Seq<char>>) -> Seq<char>
    decreases tokens.len(),
{
    if tokens.len() == 0 {
        Seq::empty()
    } else {
        param_lines(tokens.drop_last()) + param_line(tokens.last())
    }
}

/// The display text for a parameter list.
pub open spec fn formatted_params(tokens: Seq<Seq<char>>) -> Seq<char> {
    if tokens.len() == 0 {
        "Not found"@
    } else {
        param_lines(tokens)
    }
}

/// Appends the display line of `token` to `out`.
fn push_param_line(out: &mut String, token: &str)
    ensures
        final(out)@ == old(out)@ + param_line(token@),
{
    let v = chars_of(token);
    match token_colons(&v) {
        Some((i, j)) => {
            out.append("  [");
            push_range(out, &v, i + 1, j);
            out.append("] ");
            push_range(out, &v, 0, i);
            out.append(": ");
            push_range(out, &v, j + 1, v.len());
            out.append("\n");
        },
        None => {
            out.append("  ");
            out.append(token);
            out.append("\n");
        },
    }
}

/// Formats a parameter list for display, one line per token.
pub fn format_params(params: &[String]) -> (r: String)
    ensures
        r@ == formatted_params(params.deep_view()),
{
    if params.len() == 0 {
        return "Not found".to_owned();
    }
    let ghost tokens = params.deep_view();
    let mut out = String::new();
    let mut i: usize = 0;
    while i < params.len()
        invariant
            i <= params.len(),
            tokens == params.deep_view(),
            out@ == param_lines(tokens.take(i as int)),
        decreases params.len() - i,
    {
        proof {
            assert(tokens.take(i + 1).drop_last() == tokens.take(i as int));
        }
        push_param_line(&mut out, params[i].as_str());
        i += 1;
    }
    assert(tokens.take(params.len() as int) == tokens);
    out
}

/// `c` with an ASCII lowercase letter turned into its capital.
pub open spec fn ascii_upper(c: char) -> char {
    if 'a' <= c && c <= 'z' {
        (c as int - 32) as char
    } else {
        c
    }
}

/// `c` with an ASCII lowercase letter turned into its capital.
pub fn to_ascii_upper(c: char) -> (r: char)
    ensures
        r == ascii_upper(c),
{
    if c >= 'a' && c <= 'z' {
        ((c as u8) - 32) as char
    } else {
        c
    }
}

/// Whether `keyword`, between two spaces, stands in `s` at position `i`,
/// letters compared without regard to ASCII case.
pub open spec fn keyword_at(s: Seq<char>, keyword: Seq<char>, i: int) -> bool {
    &&& 0 <= i
    &&& i + keyword.len() + 2 <= s.len()
    &&& s[i] == ' '
    &&& s[i + keyword.len() + 1] == ' '
    &&& forall|k: int| 0 <= k < keyword.len() ==> ascii_upper(#[trigger] s[i + 1 + k]) == keyword[k]
}

/// `s[from..]` with a line break in place of the space before each occurrence
/// of `keyword`, found from left to right without overlap. The occurrence
/// itself is written as `keyword` spells it.
pub open spec fn break_before(s: Seq<char>, keyword: Seq<char>, from: int) -> Seq<char>
    decreases s.len() - from,
{
    if from < 0 || from >= s.len() {
        Seq::empty()
    } else if keyword_at(s, keyword, from) {
        seq!['\n'] + keyword + seq![' '] + break_before(s, keyword, from + keyword.len() + 2)
    } else {
        seq![s[from]] + break_before(s, keyword, from + 1)
    }
}

/// `s` after the seven keyword passes, in their fixed order.
pub open spec fn with_breaks(s: Seq<char>) -> Seq<char> {
    let a = break_before(s, "SELECT"@, 0);
    let b = break_before(a, "FROM"@, 0);
    let c = break_before(b, "WHERE"@, 0);
    let d = break_before(c, "AND"@, 0);
    let e = break_before(d, "OR"@, 0);
    let f = break_before(e, "ORDER BY"@, 0);
    break_before(f, "GROUP BY"@, 0)
}

/// The display form of a statement.
pub open spec fn formatted_sql(s: Seq<char>) -> Seq<char> {
    if s.len() == 0 {
        "Not found"@
    } else {
        trimmed(with_breaks(s))
    }
}

/// Whether `keyword`, between two spaces, stands in `v` at position `i`.
fn at_keyword(v: &Vec<char>, keyword: &Vec<char>, i: usize) -> (r: bool)
    requires
        i < v.len(),
    ensures
        r == keyword_at(v@, keyword@, i as int),
{
    let n = keyword.len();
    if n > v.len() - i || v.len() - i - n < 2 {
        return false;
    }
    if v[i] != ' ' || v[i + n + 1] != ' ' {
        return false;
    }
    let mut k: usize = 0;
    while k < n
        invariant
            k <= n == keyword.len(),
            i + n + 2 <= v.len(),
            forall|j: int| 0 <= j < k ==> ascii_upper(#[trigger] v@[i + 1 + j]) == keyword@[j],
        decreases n - k,
    {
        if to_ascii_upper(v[i + 1 + k]) != keyword[k] {
            return false;
        }
        k += 1;
    }
    true
}

/// One keyword pass over `v`.
fn break_lines(v: &Vec<char>, keyword: &str) -> (r: Vec<char>)
    ensures
        r@ == break_before(v@, keyword@, 0),
{
    let kw = chars_of(keyword);
    let mut out: Vec<char> = Vec::new();
    let mut i: usize = 0;
    while i < v.len()
        invariant
            i <= v.len(),
            kw@ == keyword@,
            out@ + break_before(v@, kw@, i as int) == break_before(v@, kw@, 0),
        decreases v.len() - i,
    {
        let ghost before = out@;
        if at_keyword(v, &kw, i) {
            out.push('\n');
            let mut k: usize = 0;
            while k < kw.len()
                invariant
                    k <= kw.len(),
                    out@ == before.push('\n') + kw@.take(k as int),
                decreases kw.len() - k,
            {
                out.push(kw[k]);
                k += 1;
            }
            out.push(' ');
            i = i + kw.len() + 2;
        } else {
            out.push(v[i]);
            i += 1;
        }
    }
    out
}

/// Formats a statement for display: a line break goes before each of
/// `SELECT`, `FROM`, `WHERE`, `AND`, `OR`, `ORDER BY` and `GROUP BY` that
/// stands between two spaces, in any ASCII case, and the result is trimmed.
pub fn format_sql(sql: &str) -> (r: String)
    ensures
        r@ == formatted_sql(sql@),
{
    let v = chars_of(sql);
    if v.len() == 0 {
        return "Not found".to_owned();
    }
    let a = break_lines(&v, "SELECT");
    let b = break_lines(&a, "FROM");
    let c = break_lines(&b, "WHERE");
    let d = break_lines(&c, "AND");
    let e = break_lines(&d, "OR");
    let f = break_lines(&e, "ORDER BY");
    let g = break_lines(&f, "GROUP BY");
    let (from, to) = trim_bounds(&g);
    string_of(&g, from, to)
}

} // verus!
