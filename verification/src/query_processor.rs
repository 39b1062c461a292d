//! Grouping of executions by template, and the two operations that resolve a
//! query: by id, and the most recent one.

use vstd::prelude::*;
use crate::log_parser::{
    clone_texts, events_of, executions_of, facts_of, fill_or_keep, filled, last_query, scannable,
    Execution, ExecutionView, LogParser, QueryResult, QueryResultView,
};
use crate::encoding::decoded_lines;
use crate::pattern::PatternLibrary;
use crate::sql_formatter::{
    format_params, format_sql, formatted_params, formatted_sql, same_text,
};

verus! {

/// The executions that share one template.
#[derive(Debug)]
pub struct QueryGroup {
    pub template_sql: String,
    pub formatted_template_sql: String,
    pub executions: Vec<Execution>,
    pub is_expanded: bool,
    pub is_template_expanded: bool,
}

/// The mathematical content of a `QueryGroup`.
pub struct QueryGroupView {
    pub template_sql: Seq<char>,
    pub formatted_template_sql: Seq<char>,
    pub executions: Seq<ExecutionView>,
    pub is_expanded: bool,
    pub is_template_expanded: bool,
}

impl DeepView for QueryGroup {
    type V = QueryGroupView;

    open spec fn deep_view(&self) -> QueryGroupView {
        QueryGroupView {
            template_sql: self.template_sql@,
            formatted_template_sql: self.formatted_template_sql@,
            executions: self.executions.deep_view(),
            is_expanded: self.is_expanded,
            is_template_expanded: self.is_template_expanded,
        }
    }
}

/// Copies a list of executions.
pub fn clone_executions(executions: &Vec<Execution>) -> (r: Vec<Execution>)
    ensures
        r.deep_view() == executions.deep_view(),
{
    let mut out: Vec<Execution> = Vec::new();
    let mut i: usize = 0;
    while i < executions.len()
        invariant
            i <= executions.len(),
            out.len() == i,
            forall|k: int| 0 <= k < i ==> (#[trigger] out[k]).deep_view() == executions[k].deep_view(),
        decreases executions.len() - i,
    {
        out.push(executions[i].clone());
        i += 1;
    }
    out
}

impl Clone for QueryGroup {
    fn clone(&self) -> (r: Self)
        ensures
            r.deep_view() == self.deep_view(),
    {
        QueryGroup {
            template_sql: self.template_sql.clone(),
            formatted_template_sql: self.formatted_template_sql.clone(),
            executions: clone_executions(&self.executions),
            is_expanded: self.is_expanded,
            is_template_expanded: self.is_template_expanded,
        }
    }
}

impl Default for QueryGroup {
    fn default() -> (r: Self)
        ensures
            r.deep_view() == (QueryGroupView {
                template_sql: Seq::empty(),
                formatted_template_sql: Seq::empty(),
                executions: Seq::empty(),
                is_expanded: false,
                is_template_expanded: false,
            }),
    {
        let executions: Vec<Execution> = Vec::new();
        assert(executions.deep_view() =~= Seq::<ExecutionView>::empty());
        QueryGroup {
            template_sql: String::new(),
            formatted_template_sql: String::new(),
            executions,
            is_expanded: false,
            is_template_expanded: false,
        }
    }
}

/// The distinct templates of `executions`, each where it is first seen.
pub open spec fn templates(executions: Seq<ExecutionView>) -> Seq<Seq<char>>
    decreases executions.len(),
{
    if executions.len() == 0 {
        Seq::empty()
    } else {
        let before = templates(executions.drop_last());
        if before.contains(executions.last().sql) {
            before
        } else {
            before.push(executions.last().sql)
        }
    }
}

/// The executions of `template`, in the order of the input. Templates are
/// compared character by character, with no normalisation.
pub open spec fn members(executions: Seq<ExecutionView>, template: Seq<char>) -> Seq<
    ExecutionView,
> {
    executions.filter(|e: ExecutionView| e.sql == template)
}

/// The group of `template`.
pub open spec fn group_of_template(executions: Seq<ExecutionView>, template: Seq<char>) -> QueryGroupView {
    QueryGroupView {
        template_sql: template,
        formatted_template_sql: formatted_sql(template),
        executions: members(executions, template),
        is_expanded: false,
        is_template_expanded: false,
    }
}

/// The groups of `executions`: one per distinct template, in first-seen order.
pub open spec fn grouped(executions: Seq<ExecutionView>) -> Seq<QueryGroupView> {
    templates(executions).map_values(|t: Seq<char>| group_of_template(executions, t))
}

/// The templates are distinct, and they are exactly the statements that occur.
pub proof fn lemma_templates(executions: Seq<ExecutionView>)
    ensures
        templates(executions).no_duplicates(),
        forall|i: int|
            0 <= i < executions.len() ==> templates(executions).contains(
                (#[trigger] executions[i]).sql,
            ),
        forall|k: int|
            0 <= k < templates(executions).len() ==> exists|i: int|
                0 <= i < executions.len() && (#[trigger] executions[i]).sql == (
                #[trigger] templates(executions)[k]),
        templates(executions).len() <= executions.len(),
    decreases executions.len(),
{
    if executions.len() > 0 {
        let front = executions.drop_last();
        let last = executions.last();
        lemma_templates(front);
        let before = templates(front);
        let now = templates(executions);
        assert forall|i: int| 0 <= i < executions.len() implies now.contains(
            (#[trigger] executions[i]).sql,
        ) by {
            if i < front.len() {
                assert(front[i] == executions[i]);
                let k = choose|k: int| 0 <= k < before.len() && before[k] == front[i].sql;
                assert(now[k] == before[k]);
            } else {
                if !before.contains(last.sql) {
                    assert(now[before.len() as int] == last.sql);
                }
            }
        }
        assert forall|k: int| 0 <= k < now.len() implies exists|i: int|
            0 <= i < executions.len() && (#[trigger] executions[i]).sql == (#[trigger] now[k]) by {
            if k < before.len() {
                let i = choose|i: int| 0 <= i < front.len() && (#[trigger] front[i]).sql == before[k];
                assert(executions[i] == front[i]);
            } else {
                assert(executions[executions.len() - 1].sql == now[k]);
            }
        }
    }
}

/// The position at which `template` is first seen, or the length where it never is.
pub open spec fn first_seen(executions: Seq<ExecutionView>, template: Seq<char>) -> int
    decreases executions.len(),
{
    if executions.len() == 0 {
        0
    } else if first_seen(executions.drop_last(), template) < executions.len() - 1 {
        first_seen(executions.drop_last(), template)
    } else if executions.last().sql == template {
        executions.len() - 1
    } else {
        executions.len() as int
    }
}

/// `first_seen` is the least position that holds the template.
pub proof fn lemma_first_seen(executions: Seq<ExecutionView>, template: Seq<char>)
    ensures
        0 <= first_seen(executions, template) <= executions.len(),
        first_seen(executions, template) < executions.len() ==> executions[first_seen(
            executions,
            template,
        )].sql == template,
        forall|i: int|
            0 <= i < first_seen(executions, template) ==> (#[trigger] executions[i]).sql
                != template,
    decreases executions.len(),
{
    if executions.len() > 0 {
        let front = executions.drop_last();
        lemma_first_seen(front, template);
        assert forall|i: int| 0 <= i < first_seen(executions, template) implies (
        #[trigger] executions[i]).sql != template by {
            if i < front.len() {
                assert(front[i] == executions[i]);
            }
        }
    }
}

/// The templates stand in the order in which they are first seen.
pub proof fn lemma_templates_in_first_seen_order(executions: Seq<ExecutionView>)
    ensures
        forall|j: int, k: int|
            0 <= j < k < templates(executions).len() ==> first_seen(
                executions,
                #[trigger] templates(executions)[j],
            ) < first_seen(executions, #[trigger] templates(executions)[k]),
        forall|k: int|
            0 <= k < templates(executions).len() ==> first_seen(
                executions,
                #[trigger] templates(executions)[k],
            ) < executions.len(),
    decreases executions.len(),
{
    if executions.len() > 0 {
        let front = executions.drop_last();
        let last = executions.last();
        lemma_templates_in_first_seen_order(front);
        lemma_templates(front);
        let before = templates(front);
        let now = templates(executions);
        assert forall|k: int| 0 <= k < now.len() implies first_seen(executions, #[trigger] now[k])
            < executions.len() && (k < before.len() ==> first_seen(executions, now[k])
            == first_seen(front, before[k])) by {
            lemma_first_seen(front, now[k]);
            if k < before.len() {
                assert(now[k] == before[k]);
            } else {
                assert(now[k] == last.sql);
                if first_seen(front, last.sql) < front.len() {
                    let i = first_seen(front, last.sql);
                    assert(front[i].sql == last.sql);
                    assert(before.contains(front[i].sql));
                }
            }
        }
        assert forall|j: int, k: int| 0 <= j < k < now.len() implies first_seen(
            executions,
            #[trigger] now[j],
        ) < first_seen(executions, #[trigger] now[k]) by {
            lemma_first_seen(front, now[k]);
            lemma_first_seen(front, now[j]);
            if k < before.len() {
                assert(now[k] == before[k] && now[j] == before[j]);
            } else {
                assert(now[j] == before[j]);
                assert(now[k] == last.sql);
                if first_seen(front, last.sql) < front.len() {
                    let i = first_seen(front, last.sql);
                    assert(front[i].sql == last.sql);
                    assert(before.contains(front[i].sql));
                }
            }
        }
    }
}

/// Grouping partitions its input. Every execution belongs to the group of
/// its own template and to no other; the groups follow the order in which
/// their templates are first seen; within a group the executions keep their
/// order; no group is empty; and the groups together hold as many executions
/// as went in.
pub proof fn lemma_grouping_partitions(executions: Seq<ExecutionView>)
    ensures
        forall|k: int|
            0 <= k < grouped(executions).len() ==> (#[trigger] grouped(executions)[k]).executions
                == members(executions, grouped(executions)[k].template_sql) && grouped(
                executions,
            )[k].executions.len() > 0,
        forall|j: int, k: int|
            0 <= j < k < grouped(executions).len() ==> (#[trigger] grouped(
                executions,
            )[j]).template_sql != (#[trigger] grouped(executions)[k]).template_sql,
        forall|i: int, k: int|
            0 <= i < executions.len() && 0 <= k < grouped(executions).len() ==> (grouped(
                executions,
            )[k].executions.contains(#[trigger] executions[i]) <==> (#[trigger] grouped(
                executions,
            )[k]).template_sql == executions[i].sql),
        forall|i: int|
            0 <= i < executions.len() ==> exists|k: int|
                0 <= k < grouped(executions).len() && (#[trigger] grouped(
                    executions,
                )[k]).template_sql == (#[trigger] executions[i]).sql,
        forall|j: int, k: int|
            0 <= j < k < grouped(executions).len() ==> first_seen(
                executions,
                (#[trigger] grouped(executions)[j]).template_sql,
            ) < first_seen(executions, (#[trigger] grouped(executions)[k]).template_sql),
        forall|k: int, m: int|
            0 <= k < grouped(executions).len() && 0 <= m < grouped(executions)[k].executions.len()
                ==> (#[trigger] grouped(executions)[k].executions[m]).sql == grouped(
                executions,
            )[k].template_sql,
        total_size(grouped(executions)) == executions.len(),
{
    lemma_templates(executions);
    lemma_templates_in_first_seen_order(executions);
    assert forall|k: int, m: int|
        0 <= k < grouped(executions).len() && 0 <= m < grouped(
            executions,
        )[k].executions.len() implies (#[trigger] grouped(executions)[k].executions[m]).sql
        == grouped(executions)[k].template_sql by {
        let template = templates(executions)[k];
        executions.lemma_filter_pred(|e: ExecutionView| e.sql == template, m);
    }
    let groups = grouped(executions);
    let names = templates(executions);
    assert forall|k: int| 0 <= k < groups.len() implies (#[trigger] groups[k]).executions
        == members(executions, groups[k].template_sql) && groups[k].executions.len() > 0 by {
        let i = choose|i: int| 0 <= i < executions.len() && (#[trigger] executions[i]).sql == names[k];
        lemma_member(executions, names[k], i);
    }
    assert forall|i: int, k: int| 0 <= i < executions.len() && 0 <= k < groups.len() implies (
    groups[k].executions.contains(#[trigger] executions[i]) <==> (#[trigger] groups[k]).template_sql
        == executions[i].sql) by {
        lemma_member(executions, names[k], i);
    }
    assert forall|i: int| 0 <= i < executions.len() implies exists|k: int|
        0 <= k < groups.len() && (#[trigger] groups[k]).template_sql == (#[trigger] executions[i]).sql by {
        let k = choose|k: int| 0 <= k < names.len() && names[k] == executions[i].sql;
        assert(groups[k].template_sql == executions[i].sql);
    }
    assert forall|j: int, k: int| 0 <= j < k < groups.len() implies first_seen(
        executions,
        (#[trigger] groups[j]).template_sql,
    ) < first_seen(executions, (#[trigger] groups[k]).template_sql) by {
        assert(groups[j].template_sql == names[j]);
        assert(groups[k].template_sql == names[k]);
    }
    lemma_total_size(executions, executions.len() as int);
}

/// An execution is among the members of a template exactly if it has that template.
pub proof fn lemma_member(executions: Seq<ExecutionView>, template: Seq<char>, i: int)
    requires
        0 <= i < executions.len(),
    ensures
        members(executions, template).contains(executions[i]) <==> executions[i].sql == template,
{
    let pred = |e: ExecutionView| e.sql == template;
    if executions[i].sql == template {
        assert(pred(executions[i]));
        executions.lemma_filter_contains(pred, i);
    }
    if members(executions, template).contains(executions[i]) {
        let k = choose|k: int|
            0 <= k < members(executions, template).len() && members(executions, template)[k]
                == executions[i];
        executions.lemma_filter_pred(pred, k);
        assert(pred(members(executions, template)[k]));
    }
}

/// How many executions the groups hold together.
pub open spec fn total_size(groups: Seq<QueryGroupView>) -> int
    decreases groups.len(),
{
    if groups.len() == 0 {
        0
    } else {
        total_size(groups.drop_last()) + groups.last().executions.len()
    }
}

/// How many of the first `n` executions the groups of `names` hold together.
spec fn size_upto(executions: Seq<ExecutionView>, names: Seq<Seq<char>>, n: int) -> int
    decreases names.len(),
{
    if names.len() == 0 {
        0
    } else {
        size_upto(executions, names.drop_last(), n) + members(executions.take(n), names.last()).len()
    }
}

/// One more execution adds one to the group of its template and nothing elsewhere.
proof fn lemma_size_step(executions: Seq<ExecutionView>, names: Seq<Seq<char>>, n: int)
    requires
        0 <= n < executions.len(),
        names.no_duplicates(),
    ensures
        size_upto(executions, names, n + 1) == size_upto(executions, names, n) + if names.contains(
            executions[n].sql,
        ) {
            1int
        } else {
            0int
        },
    decreases names.len(),
{
    if names.len() > 0 {
        let front = names.drop_last();
        let t = names.last();
        assert forall|i: int, j: int| 0 <= i < front.len() && 0 <= j < front.len() && i != j implies front[i] != front[j] by {
            assert(front[i] == names[i] && front[j] == names[j]);
        }
        lemma_size_step(executions, front, n);
        let pred = |e: ExecutionView| e.sql == t;
        assert(executions.take(n + 1) == executions.take(n).push(executions[n]));
        Seq::lemma_filter_push(executions.take(n), executions[n], pred);
        if executions[n].sql == t {
            if front.contains(t) {
                let k = choose|k: int| 0 <= k < front.len() && front[k] == t;
                assert(names[k] == t && names[names.len() - 1] == t);
            }
            assert(names.contains(t)) by {
                assert(names[names.len() - 1] == t);
            }
        } else {
            if names.contains(executions[n].sql) {
                let k = choose|k: int| 0 <= k < names.len() && names[k] == executions[n].sql;
                assert(front[k] == names[k]);
            }
            if front.contains(executions[n].sql) {
                let k = choose|k: int| 0 <= k < front.len() && front[k] == executions[n].sql;
                assert(names[k] == front[k]);
            }
        }
    }
}

/// The groups of names that do not occur hold nothing new; a new name brings one member.
proof fn lemma_size_total(executions: Seq<ExecutionView>, n: int)
    requires
        0 <= n <= executions.len(),
    ensures
        size_upto(executions, templates(executions.take(n)), n) == n,
    decreases n,
{
    if n > 0 {
        let front = executions.take(n - 1);
        let now = executions.take(n);
        assert(now.drop_last() == front);
        assert(now.last() == executions[n - 1]);
        lemma_size_total(executions, n - 1);
        lemma_templates(front);
        lemma_templates(now);
        let before = templates(front);
        if before.contains(executions[n - 1].sql) {
            lemma_size_step(executions, before, n - 1);
        } else {
            let names = templates(now);
            assert(names == before.push(executions[n - 1].sql));
            assert(names.drop_last() == before);
            lemma_size_step(executions, names, n - 1);
            assert(names.contains(executions[n - 1].sql)) by {
                assert(names[names.len() - 1] == executions[n - 1].sql);
            }
            lemma_no_members(front, executions[n - 1].sql);
            assert(executions.take(n - 1) == front);
        }
    } else {
        assert(executions.take(0) == Seq::<ExecutionView>::empty());
    }
}

/// A template that is not among the templates has no members.
proof fn lemma_no_members(executions: Seq<ExecutionView>, template: Seq<char>)
    requires
        !templates(executions).contains(template),
    ensures
        members(executions, template).len() == 0,
{
    lemma_templates(executions);
    let pred = |e: ExecutionView| e.sql == template;
    if members(executions, template).len() > 0 {
        let e = members(executions, template)[0];
        executions.lemma_filter_pred(pred, 0);
        assert(pred(e));
        assert(members(executions, template).contains(e));
        executions.lemma_filter_contains_rev(pred, e);
        assert(executions.contains(e));
        let i = choose|i: int| 0 <= i < executions.len() && executions[i] == e;
        assert(templates(executions).contains(executions[i].sql));
    }
}

/// The sizes of the groups of the first `names.len()` templates add up as `size_upto` says.
proof fn lemma_total_is_size(executions: Seq<ExecutionView>, names: Seq<Seq<char>>)
    ensures
        total_size(names.map_values(|t: Seq<char>| group_of_template(executions, t))) == size_upto(
            executions,
            names,
            executions.len() as int,
        ),
    decreases names.len(),
{
    let make = |t: Seq<char>| group_of_template(executions, t);
    assert(executions.take(executions.len() as int) == executions);
    if names.len() > 0 {
        lemma_total_is_size(executions, names.drop_last());
        assert(names.map_values(make).drop_last() == names.drop_last().map_values(make));
        assert(names.map_values(make).last() == make(names.last()));
    }
}

/// The groups together hold as many executions as went in.
proof fn lemma_total_size(executions: Seq<ExecutionView>, n: int)
    requires
        n == executions.len(),
    ensures
        total_size(grouped(executions)) == executions.len(),
{
    assert(executions.take(n) == executions);
    lemma_size_total(executions, n);
    lemma_total_is_size(executions, templates(executions));
}

/// The distinct templates of `executions`, each where it is first seen.
fn distinct_templates(executions: &Vec<Execution>) -> (r: Vec<String>)
    ensures
        r.deep_view() == templates(executions.deep_view()),
{
    let ghost all = executions.deep_view();
    let mut names: Vec<String> = Vec::new();
    let mut i: usize = 0;
    while i < executions.len()
        invariant
            i <= executions.len(),
            all == executions.deep_view(),
            names.deep_view() == templates(all.take(i as int)),
        decreases executions.len() - i,
    {
        let ghost before = names.deep_view();
        proof {
            assert(all.take(i + 1).drop_last() == all.take(i as int));
        }
        let mut known = false;
        let mut k: usize = 0;
        while k < names.len() && !known
            invariant
                k <= names.len(),
                i < executions.len(),
                before == names.deep_view(),
                known ==> before.contains(executions[i as int].sql@),
                !known ==> forall|j: int| 0 <= j < k ==> before[j] != executions[i as int].sql@,
            decreases names.len() - k + if known { 0int } else { 1int },
        {
            if same_text(names[k].as_str(), executions[i].sql.as_str()) {
                assert(before[k as int] == executions[i as int].sql@);
                known = true;
            } else {
                k += 1;
            }
        }
        if !known {
            names.push(executions[i].sql.clone());
        }
        i += 1;
    }
    assert(all.take(executions.len() as int) == all);
    names
}

/// The executions of `template`, in the order of the input.
fn collect_members(executions: &Vec<Execution>, template: &str) -> (r: Vec<Execution>)
    ensures
        r.deep_view() == members(executions.deep_view(), template@),
{
    let ghost all = executions.deep_view();
    let ghost pred = |e: ExecutionView| e.sql == template@;
    let mut out: Vec<Execution> = Vec::new();
    let mut i: usize = 0;
    while i < executions.len()
        invariant
            i <= executions.len(),
            all == executions.deep_view(),
            pred == |e: ExecutionView| e.sql == template@,
            out.deep_view() == all.take(i as int).filter(pred),
        decreases executions.len() - i,
    {
        proof {
            assert(all.take(i + 1) == all.take(i as int).push(all[i as int]));
            Seq::lemma_filter_push(all.take(i as int), all[i as int], pred);
        }
        if same_text(executions[i].sql.as_str(), template) {
            let member = executions[i].clone();
            out.push(member);
        }
        i += 1;
    }
    assert(all.take(executions.len() as int) == all);
    out
}

/// Groups executions by template: one group per distinct statement text, in
/// the order in which the texts are first seen, each group holding its
/// executions in the order of the input.
pub fn group_by_template(executions: &Vec<Execution>) -> (r: Vec<QueryGroup>)
    ensures
        r.deep_view() == grouped(executions.deep_view()),
{
    let ghost all = executions.deep_view();
    let names = distinct_templates(executions);
    let mut groups: Vec<QueryGroup> = Vec::new();
    let mut k: usize = 0;
    while k < names.len()
        invariant
            k <= names.len(),
            all == executions.deep_view(),
            names.deep_view() == templates(all),
            groups.len() == k,
            forall|j: int|
                0 <= j < k ==> (#[trigger] groups[j]).deep_view() == group_of_template(
                    all,
                    names[j]@,
                ),
        decreases names.len() - k,
    {
        let group = QueryGroup {
            template_sql: names[k].clone(),
            formatted_template_sql: format_sql(names[k].as_str()),
            executions: collect_members(executions, names[k].as_str()),
            is_expanded: false,
            is_template_expanded: false,
        };
        groups.push(group);
        k += 1;
    }
    assert(groups.deep_view() =~= grouped(all)) by {
        assert forall|j: int| 0 <= j < groups.len() implies groups.deep_view()[j] == grouped(
            all,
        )[j] by {
            assert(names.deep_view()[j] == names[j]@);
        }
    }
    groups
}

/// The outcome of resolving a query.
#[derive(Debug)]
pub struct ProcessResult {
    /// The representative match.
    pub query: QueryResult,
    /// All executions found.
    pub executions: Vec<Execution>,
    /// The executions, grouped by template.
    pub groups: Vec<QueryGroup>,
    pub filled_sql: String,
    pub formatted_sql: String,
    pub formatted_params: String,
    pub copied_to_clipboard: bool,
    pub error: Option<String>,
}

/// The mathematical content of a `ProcessResult`.
pub struct ProcessResultView {
    pub query: QueryResultView,
    pub executions: Seq<ExecutionView>,
    pub groups: Seq<QueryGroupView>,
    pub filled_sql: Seq<char>,
    pub formatted_sql: Seq<char>,
    pub formatted_params: Seq<char>,
    pub copied_to_clipboard: bool,
    pub error: Option<Seq<char>>,
}

impl DeepView for ProcessResult {
    type V = ProcessResultView;

    open spec fn deep_view(&self) -> ProcessResultView {
        ProcessResultView {
            query: self.query.deep_view(),
            executions: self.executions.deep_view(),
            groups: self.groups.deep_view(),
            filled_sql: self.filled_sql@,
            formatted_sql: self.formatted_sql@,
            formatted_params: self.formatted_params@,
            copied_to_clipboard: self.copied_to_clipboard,
            error: self.error.deep_view(),
        }
    }
}

impl ProcessResultView {
    /// The outcome that holds nothing but `error`.
    pub open spec fn failed(error: Seq<char>) -> ProcessResultView {
        ProcessResultView {
            query: QueryResultView::not_found(Seq::empty()),
            executions: Seq::empty(),
            groups: Seq::empty(),
            filled_sql: Seq::empty(),
            formatted_sql: Seq::empty(),
            formatted_params: Seq::empty(),
            copied_to_clipboard: false,
            error: Some(error),
        }
    }

    /// Success: no error, and a statement or an execution to show.
    pub open spec fn success(self) -> bool {
        self.error is None && (self.query.sql.len() > 0 || self.executions.len() > 0)
    }

    /// Whether the filled statement is to go to the clipboard.
    pub open spec fn wants_copy(self, auto_copy: bool) -> bool {
        auto_copy && self.filled_sql.len() > 0
    }
}

impl ProcessResult {
    /// Success: no error, and a statement or an execution to show.
    pub fn success(&self) -> (r: bool)
        ensures
            r == self.deep_view().success(),
    {
        self.error.is_none() && (!self.query.sql.as_str().is_empty() || self.executions.len() > 0)
    }

    /// Whether the filled statement is to go to the clipboard: the caller
    /// asked for it and there is text to copy.
    pub fn wants_copy(&self, auto_copy: bool) -> (r: bool)
        ensures
            r == self.deep_view().wants_copy(auto_copy),
    {
        auto_copy && !self.filled_sql.as_str().is_empty()
    }

    /// Records whether the copy to the clipboard went through. A failed copy
    /// is no error.
    pub fn record_copy(&mut self, copied: bool)
        ensures
            final(self).deep_view() == (ProcessResultView {
                copied_to_clipboard: copied,
                ..old(self).deep_view()
            }),
    {
        self.copied_to_clipboard = copied;
    }

    /// The outcome that holds nothing but `error`.
    fn failed(error: String) -> (r: ProcessResult)
        ensures
            r.deep_view() == ProcessResultView::failed(error@),
    {
        let executions: Vec<Execution> = Vec::new();
        let groups: Vec<QueryGroup> = Vec::new();
        assert(executions.deep_view() =~= Seq::<ExecutionView>::empty());
        assert(groups.deep_view() =~= Seq::<QueryGroupView>::empty());
        ProcessResult {
            query: QueryResult::default(),
            executions,
            groups,
            filled_sql: String::new(),
            formatted_sql: String::new(),
            formatted_params: String::new(),
            copied_to_clipboard: false,
            error: Some(error),
        }
    }
}

/// Copies a list of groups.
pub fn clone_groups(groups: &Vec<QueryGroup>) -> (r: Vec<QueryGroup>)
    ensures
        r.deep_view() == groups.deep_view(),
{
    let mut out: Vec<QueryGroup> = Vec::new();
    let mut i: usize = 0;
    while i < groups.len()
        invariant
            i <= groups.len(),
            out.len() == i,
            forall|k: int| 0 <= k < i ==> (#[trigger] out[k]).deep_view() == groups[k].deep_view(),
        decreases groups.len() - i,
    {
        out.push(groups[i].clone());
        i += 1;
    }
    out
}

impl Clone for ProcessResult {
    fn clone(&self) -> (r: Self)
        ensures
            r.deep_view() == self.deep_view(),
    {
        ProcessResult {
            query: self.query.clone(),
            executions: clone_executions(&self.executions),
            groups: clone_groups(&self.groups),
            filled_sql: self.filled_sql.clone(),
            formatted_sql: self.formatted_sql.clone(),
            formatted_params: self.formatted_params.clone(),
            copied_to_clipboard: self.copied_to_clipboard,
            error: match &self.error {
                Some(message) => Some(message.clone()),
                None => None,
            },
        }
    }
}

impl Default for ProcessResult {
    fn default() -> (r: Self)
        ensures
            r.deep_view() == (ProcessResultView {
                error: None,
                ..ProcessResultView::failed(Seq::empty())
            }),
    {
        let executions: Vec<Execution> = Vec::new();
        let groups: Vec<QueryGroup> = Vec::new();
        assert(executions.deep_view() =~= Seq::<ExecutionView>::empty());
        assert(groups.deep_view() =~= Seq::<QueryGroupView>::empty());
        ProcessResult {
            query: QueryResult::default(),
            executions,
            groups,
            filled_sql: String::new(),
            formatted_sql: String::new(),
            formatted_params: String::new(),
            copied_to_clipboard: false,
            error: None,
        }
    }
}

/// The outcome of resolving `id` to `executions`: an error where there are
/// none, else the groups and the view of the last execution.
pub open spec fn resolved_by_id(id: Seq<char>, executions: Seq<ExecutionView>) -> ProcessResultView {
    if executions.len() == 0 {
        ProcessResultView::failed("ID not found: "@ + id)
    } else {
        let last = executions.last();
        ProcessResultView {
            query: QueryResultView { id: last.id, sql: last.sql, params: last.params },
            executions,
            groups: grouped(executions),
            filled_sql: last.filled_sql,
            formatted_sql: formatted_sql(last.sql),
            formatted_params: formatted_params(last.params),
            copied_to_clipboard: false,
            error: None,
        }
    }
}

/// The statement of `query` with its parameters filled in: nothing for an
/// empty statement, the statement itself without parameters or where filling
/// fails.
pub open spec fn filled_query(query: QueryResultView) -> Seq<char> {
    if query.sql.len() == 0 {
        Seq::empty()
    } else if query.params.len() == 0 {
        query.sql
    } else {
        filled(query.sql, query.params)
    }
}

/// The single execution that stands for the most recent query.
pub open spec fn last_execution(query: QueryResultView) -> ExecutionView {
    ExecutionView {
        id: query.id,
        timestamp: "Last Execution"@,
        dao_file: Seq::empty(),
        sql: query.sql,
        filled_sql: filled_query(query),
        params: query.params,
        execution_index: 1,
    }
}

/// The outcome of resolving the most recent query: an error where none was
/// found, else one execution in one group.
pub open spec fn resolved_last(query: QueryResultView) -> ProcessResultView {
    if query.sql.len() == 0 {
        ProcessResultView {
            query,
            ..ProcessResultView::failed("No SQL queries found in log file"@)
        }
    } else {
        ProcessResultView {
            query,
            executions: seq![last_execution(query)],
            groups: seq![
                QueryGroupView {
                    template_sql: query.sql,
                    formatted_template_sql: formatted_sql(query.sql),
                    executions: seq![last_execution(query)],
                    is_expanded: false,
                    is_template_expanded: false,
                },
            ],
            filled_sql: filled_query(query),
            formatted_sql: formatted_sql(query.sql),
            formatted_params: formatted_params(query.params),
            copied_to_clipboard: false,
            error: None,
        }
    }
}

/// Puts the outcome together from the executions found for `target_id`.
pub fn summarize(target_id: &str, executions: Vec<Execution>) -> (r: ProcessResult)
    ensures
        r.deep_view() == resolved_by_id(target_id@, executions.deep_view()),
        r.deep_view().success() <==> executions.len() > 0,
{
    if executions.len() == 0 {
        let mut message = "ID not found: ".to_owned();
        message.append(target_id);
        return ProcessResult::failed(message);
    }
    let groups = group_by_template(&executions);
    let last = &executions[executions.len() - 1];
    let query = QueryResult {
        id: last.id.clone(),
        sql: last.sql.clone(),
        params: clone_texts(&last.params),
    };
    let formatted_sql = format_sql(last.sql.as_str());
    let list = last.params.as_slice();
    let formatted_params = format_params(list);
    let filled_sql = last.filled_sql.clone();
    ProcessResult {
        query,
        executions,
        groups,
        filled_sql,
        formatted_sql,
        formatted_params,
        copied_to_clipboard: false,
        error: None,
    }
}

/// Puts the outcome together from the most recent query.
pub fn summarize_last(query: QueryResult) -> (r: ProcessResult)
    ensures
        r.deep_view() == resolved_last(query.deep_view()),
        r.deep_view().success() <==> query.sql@.len() > 0,
{
    if !query.found() {
        let failed = ProcessResult::failed("No SQL queries found in log file".to_owned());
        return ProcessResult {
            query,
            executions: failed.executions,
            groups: failed.groups,
            filled_sql: failed.filled_sql,
            formatted_sql: failed.formatted_sql,
            formatted_params: failed.formatted_params,
            copied_to_clipboard: false,
            error: failed.error,
        };
    }
    let formatted_sql = format_sql(query.sql.as_str());
    let list = query.params.as_slice();
    let formatted_params = format_params(list);
    let filled_sql = get_filled_query(&query);
    let run = Execution {
        id: query.id.clone(),
        timestamp: "Last Execution".to_owned(),
        dao_file: String::new(),
        sql: query.sql.clone(),
        filled_sql: filled_sql.clone(),
        params: clone_texts(&query.params),
        execution_index: 1,
    };
    let mut members: Vec<Execution> = Vec::new();
    members.push(run.clone());
    assert(members.deep_view() =~= seq![run.deep_view()]);
    let group = QueryGroup {
        template_sql: query.sql.clone(),
        formatted_template_sql: formatted_sql.clone(),
        executions: members,
        is_expanded: false,
        is_template_expanded: false,
    };
    let mut executions: Vec<Execution> = Vec::new();
    executions.push(run);
    assert(executions.deep_view() =~= seq![run.deep_view()]);
    let mut groups: Vec<QueryGroup> = Vec::new();
    groups.push(group);
    assert(groups.deep_view() =~= seq![group.deep_view()]);
    ProcessResult {
        query,
        executions,
        groups,
        filled_sql,
        formatted_sql,
        formatted_params,
        copied_to_clipboard: false,
        error: None,
    }
}

/// The statement of `query` with its parameters filled in.
pub fn get_filled_query(query: &QueryResult) -> (r: String)
    ensures
        r@ == filled_query(query.deep_view()),
{
    if query.sql.as_str().is_empty() {
        return String::new();
    }
    if query.params.len() == 0 {
        return query.sql.clone();
    }
    fill_or_keep(query.sql.as_str(), &query.params)
}

/// Resolves queries from logs: scans, groups and formats.
pub struct QueryProcessor {
    parser: LogParser,
}

impl QueryProcessor {
    /// The scanner that the processor reads logs with.
    pub closed spec fn scanner(&self) -> LogParser {
        self.parser
    }

    /// A processor that reads logs in Shift_JIS.
    pub fn new() -> (r: Self)
        ensures
            r.scanner().label() == "SHIFT_JIS"@,
    {
        QueryProcessor { parser: LogParser::default() }
    }

    /// The scanner, for direct use.
    pub fn parser(&self) -> (r: &LogParser)
        ensures
            *r == self.scanner(),
    {
        &self.parser
    }

    /// The scanner, to change how logs are read.
    pub fn parser_mut(&mut self) -> (r: &mut LogParser)
        ensures
            *r == old(self).scanner(),
            final(self).scanner() == *final(r),
    {
        &mut self.parser
    }

    /// The statement of `query` with its parameters filled in.
    pub fn get_filled_query(&self, query: &QueryResult) -> (r: String)
        ensures
            r@ == filled_query(query.deep_view()),
    {
        get_filled_query(query)
    }

    /// Resolves `target_id` in the log `data`: all its executions, grouped by
    /// template, with the last execution as the representative. Where the id
    /// does not occur the outcome carries the error `ID not found: …`.
    pub fn process_query(&self, patterns: &PatternLibrary, target_id: &str, data: &[u8]) -> (r:
        ProcessResult)
        ensures
            r.deep_view() == resolved_by_id(
                target_id@,
                if scannable(data@) {
                    executions_of(
                        target_id@,
                        facts_of(
                            patterns.attribution_pattern(),
                            target_id@,
                            decoded_lines(self.scanner().label(), data@),
                        ),
                    )
                } else {
                    Seq::empty()
                },
            ),
            r.deep_view().success() <==> r.executions.len() > 0,
            forall|k: int| 0 <= k < r.executions.len() ==> r.executions[k].execution_index == k + 1,
    {
        let executions = self.parser.parse_log_file_advanced(patterns, data, target_id);
        let r = summarize(target_id, executions);
        proof {
            assert forall|k: int| 0 <= k < r.executions.len() implies r.executions[k].execution_index
                == k + 1 by {
                assert(r.executions.deep_view()[k] == r.executions[k].deep_view());
            }
        }
        r
    }

    /// Resolves the most recent query in the log `data`, as one execution in
    /// one group. Where the log holds no statement the outcome carries the
    /// error `No SQL queries found in log file`.
    pub fn process_last_query(&self, patterns: &PatternLibrary, data: &[u8]) -> (r: ProcessResult)
        ensures
            r.deep_view() == resolved_last(
                if scannable(data@) {
                    last_query(events_of(decoded_lines(self.scanner().label(), data@)))
                } else {
                    QueryResultView::not_found(Seq::empty())
                },
            ),
            r.deep_view().success() <==> r.query.sql@.len() > 0,
    {
        summarize_last(self.parser.get_last_query(patterns, data))
    }
}

impl Default for QueryProcessor {
    fn default() -> (r: Self)
        ensures
            r.scanner().label() == "SHIFT_JIS"@,
    {
        QueryProcessor::new()
    }
}

} // verus!
