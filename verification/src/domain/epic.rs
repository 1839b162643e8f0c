//! Dependency graphs between the tasks of an epic.
use vstd::prelude::*;
use crate::collections::{has_item, has_key, key_index, lookup, StringMap, StringSet};
use crate::domain::issue::Issue;
use crate::pattern::{captures, lowercase, regex_captures, regex_replaced, replace_all};
use crate::text::{
    byte_len, contains, find_chars, find_from, has, join, joined, lemma_byte_len_concat,
    lemma_byte_len_has, lemma_find_from, slice, split_whitespace, str_eq, to_chars, trim_bounds,
    trimmed, utf8_len, words,
};

verus! {

/// State of a task in the epic dependency graph.
#[derive(Debug, PartialEq, Eq)]
pub enum TaskState {
    /// Not started yet (e.g. "New", "To Do").
    NotStarted,
    /// Agent session is currently running.
    InProgress,
    /// PR has been created; branch name is known.
    HasPr(String),
    /// Terminal success state in Notion.
    Completed,
    /// Terminal cancelled/archived state.
    Cancelled,
}

/// What a `TaskState` holds.
#[verifier::ext_equal]
pub enum TaskStateView {
    NotStarted,
    InProgress,
    HasPr(Seq<char>),
    Completed,
    Cancelled,
}

impl DeepView for TaskState {
    type V = TaskStateView;

    open spec fn deep_view(&self) -> TaskStateView {
        match self {
            TaskState::NotStarted => TaskStateView::NotStarted,
            TaskState::InProgress => TaskStateView::InProgress,
            TaskState::HasPr(branch) => TaskStateView::HasPr(branch@),
            TaskState::Completed => TaskStateView::Completed,
            TaskState::Cancelled => TaskStateView::Cancelled,
        }
    }
}

/// The state of each task that has one.
pub type TaskStates = spec_fn(Seq<char>) -> Option<TaskStateView>;

/// The states that a map holds.
pub open spec fn states_in(m: Seq<(String, TaskState)>) -> TaskStates {
    |task: Seq<char>| lookup(m, task).deep_view()
}

/// Result of checking whether a task is eligible to be dispatched.
#[derive(Debug)]
pub struct EpicEligibility {
    /// Whether the task can be dispatched now.
    pub eligible: bool,
    /// The git base branch that the work starts from: the default branch for root
    /// tasks and fan-in tasks, a blocker's branch for stacked tasks.
    pub base_branch: String,
    /// Upstream blocker task identifiers that are still pending.
    pub unresolved: Vec<String>,
}

/// A dependency graph for an epic's sub-tasks.
///
/// Built from a Mermaid `graph TD` diagram on the epic page (authoritative) and
/// from "Blocked by" relations on individual tasks (supplementary).
#[derive(Debug)]
pub struct EpicGraph {
    /// Task identifier to the upstream task identifiers that must resolve first.
    pub dependencies: StringMap<StringSet>,
}

impl Default for EpicGraph {
    fn default() -> (r: Self)
        ensures
            r.wf(),
            r.dependencies@.len() == 0,
            forall|t: Seq<char>| r.upstream(t) == Set::<Seq<char>>::empty(),
    {
        EpicGraph { dependencies: StringMap::new() }
    }
}

/// A blocker in this state no longer holds its downstream tasks back.
pub open spec fn is_resolved(state: Option<TaskStateView>) -> bool {
    match state {
        Some(TaskStateView::Completed) => true,
        Some(TaskStateView::Cancelled) => true,
        Some(TaskStateView::HasPr(_)) => true,
        _ => false,
    }
}

/// The blockers among `deps` that are not resolved, in order.
pub open spec fn pending(deps: Seq<String>, states: TaskStates) -> Seq<Seq<char>>
    decreases deps.len(),
{
    if deps.len() == 0 {
        seq![]
    } else {
        let before = pending(deps.drop_last(), states);
        if is_resolved(states(deps.last()@)) {
            before
        } else {
            before.push(deps.last()@)
        }
    }
}

/// The branches of the blockers among `deps` that have a pull request, in order.
pub open spec fn pr_branches(deps: Seq<String>, states: TaskStates) -> Seq<Seq<char>>
    decreases deps.len(),
{
    if deps.len() == 0 {
        seq![]
    } else {
        let before = pr_branches(deps.drop_last(), states);
        match states(deps.last()@) {
            Some(TaskStateView::HasPr(branch)) => before.push(branch),
            _ => before,
        }
    }
}

/// Nothing is pending if and only if every blocker is resolved.
pub proof fn lemma_pending(deps: Seq<String>, states: TaskStates)
    ensures
        (pending(deps, states).len() == 0) <==> (forall|i: int|
            0 <= i < deps.len() ==> is_resolved(states((#[trigger] deps[i])@))),
        forall|x: Seq<char>| #[trigger]
            pending(deps, states).contains(x) <==> has_item(deps, x) && !is_resolved(
                states(x),
            ),
    decreases deps.len(),
{
    if deps.len() > 0 {
        let before = deps.drop_last();
        lemma_pending(before, states);
        let p = pending(before, states);
        let q = pending(deps, states);
        assert forall|x: Seq<char>| #[trigger]
            q.contains(x) <==> has_item(deps, x) && !is_resolved(states(x)) by {
            assert(p.contains(x) <==> has_item(before, x) && !is_resolved(states(x)));
            if has_item(deps, x) {
                let i = choose|i: int| 0 <= i < deps.len() && (#[trigger] deps[i])@ == x;
                if i < before.len() {
                    assert(before[i]@ == x);
                    assert(has_item(before, x));
                    if !is_resolved(states(x)) {
                        let k = p.index_of(x);
                        assert(q[k] == x);
                    }
                } else if !is_resolved(states(x)) {
                    assert(q[q.len() - 1] == x);
                }
            }
            if q.contains(x) {
                let k = q.index_of(x);
                if k < p.len() {
                    assert(p[k] == x);
                    assert(p.contains(x));
                    let i = choose|i: int| 0 <= i < before.len() && (#[trigger] before[i])@ == x;
                    assert(deps[i]@ == x);
                } else {
                    assert(deps[deps.len() - 1]@ == x);
                }
            }
        }
        if q.len() == 0 {
            assert forall|i: int| 0 <= i < deps.len() implies is_resolved(
                states((#[trigger] deps[i])@),
            ) by {
                if i < before.len() {
                    assert(is_resolved(states(before[i]@)));
                }
            }
        }
    }
}

impl EpicGraph {
    /// Keys are unique, and so are the blockers of each task.
    pub open spec fn wf(&self) -> bool {
        &&& self.dependencies.wf()
        &&& forall|i: int|
            0 <= i < self.dependencies@.len() ==> (#[trigger] self.dependencies@[i]).1.wf()
    }

    /// The blockers of a task, in order; none for a task the graph does not have.
    pub open spec fn deps(&self, task: Seq<char>) -> Seq<String> {
        match self.dependencies.at(task) {
            Some(set) => set@,
            None => seq![],
        }
    }

    /// The blockers of a task.
    pub open spec fn upstream(&self, task: Seq<char>) -> Set<Seq<char>> {
        Set::new(|k: Seq<char>| has_item(self.deps(task), k))
    }

    /// What `check_eligibility` answers.
    pub open spec fn verdict(
        &self,
        task: Seq<char>,
        states: TaskStates,
        default_branch: Seq<char>,
    ) -> (bool, Seq<char>, Seq<Seq<char>>) {
        let deps = self.deps(task);
        let unresolved = pending(deps, states);
        let branches = pr_branches(deps, states);
        if unresolved.len() > 0 {
            (false, default_branch, unresolved)
        } else if branches.len() == 1 {
            (true, branches[0], unresolved)
        } else {
            (true, default_branch, unresolved)
        }
    }

    /// Merge additional dependency edges from Notion "Blocked by" relations.
    pub fn merge_blocked_by(&mut self, task_id: &str, blocker_ids: &[String])
        requires
            old(self).wf(),
        ensures
            final(self).wf(),
            has_key(final(self).dependencies@, task_id@),
            forall|t: Seq<char>|
                has_key(final(self).dependencies@, t) <==> t == task_id@ || has_key(
                    old(self).dependencies@,
                    t,
                ),
            forall|t: Seq<char>, u: Seq<char>| #[trigger]
                final(self).upstream(t).contains(u) <==> old(self).upstream(t).contains(u) || (t
                    == task_id@ && has_item(blocker_ids@, u)),
    {
        let mut set = self.blockers(task_id);
        let ghost start = set.elems();
        let mut i: usize = 0;
        while i < blocker_ids.len()
            invariant
                i <= blocker_ids@.len(),
                set.wf(),
                forall|u: Seq<char>| #[trigger]
                    has_item(set@, u) <==> start.contains(u) || has_item(
                        blocker_ids@.take(i as int),
                        u,
                    ),
            decreases blocker_ids@.len() - i,
        {
            let ghost before = set@;
            let ghost elems = set.elems();
            let _ = set.insert(blocker_ids[i].clone());
            proof {
                let b = blocker_ids@.take(i as int);
                let c = blocker_ids@.take(i + 1);
                assert forall|u: Seq<char>| #[trigger]
                    has_item(set@, u) <==> start.contains(u) || has_item(c, u) by {
                    assert(set.elems().contains(u) == elems.insert(blocker_ids@[i as int]@).contains(u));
                    if has_item(b, u) {
                        let j = choose|j: int| 0 <= j < b.len() && (#[trigger] b[j])@ == u;
                        assert(c[j]@ == u);
                    }
                    if u == blocker_ids@[i as int]@ {
                        assert(c[i as int]@ == u);
                    }
                    if has_item(c, u) && u != blocker_ids@[i as int]@ {
                        let j = choose|j: int| 0 <= j < c.len() && (#[trigger] c[j])@ == u;
                        assert(b[j]@ == u);
                    }
                }
            }
            i += 1;
        }
        assert(blocker_ids@.take(i as int) =~= blocker_ids@);
        let ghost old_deps = self.dependencies@;
        let ghost old_map = self.dependencies;
        let ghost s = set;
        self.dependencies.insert(task_id.to_owned(), set);
        proof {
            let new_deps = self.dependencies@;
            assert forall|i: int| 0 <= i < new_deps.len() implies (#[trigger] new_deps[i]).1.wf() by {
                if has_key(old_deps, task_id@) {
                    if i != key_index(old_deps, task_id@) {
                        assert(new_deps[i] == old_deps[i]);
                    }
                } else if i < old_deps.len() {
                    assert(new_deps[i] == old_deps[i]);
                }
            }
            assert forall|t: Seq<char>|
                has_key(new_deps, t) <==> t == task_id@ || has_key(old_deps, t) by {
                assert(self.dependencies.at(t) == if t == task_id@ {
                    Some(s)
                } else {
                    old_map.at(t)
                });
            }
            assert forall|t: Seq<char>, u: Seq<char>| #[trigger]
                self.upstream(t).contains(u) <==> old(self).upstream(t).contains(u) || (t
                    == task_id@ && has_item(blocker_ids@, u)) by {
                assert(self.dependencies.at(t) == if t == task_id@ {
                    Some(s)
                } else {
                    old_map.at(t)
                });
                assert(has_item(s@, u) <==> start.contains(u) || has_item(blocker_ids@, u));
            }
        }
    }

    /// Get upstream dependencies for a task.
    pub fn blockers(&self, task_id: &str) -> (r: StringSet)
        requires
            self.wf(),
        ensures
            r.wf(),
            r@ == self.deps(task_id@),
            r.elems() == self.upstream(task_id@),
    {
        let r = match self.dependencies.position(task_id) {
            Some(i) => self.dependencies.entries[i].1.clone(),
            None => StringSet::new(),
        };
        assert(r.elems() =~= self.upstream(task_id@));
        r
    }

    /// Check if a task is eligible to be dispatched given current task states.
    ///
    /// Branch stacking rules:
    /// - no blocker: eligible, on the default branch;
    /// - any blocker not resolved: not eligible;
    /// - all resolved, exactly one with a pull request: eligible, stacked on its branch;
    /// - all resolved otherwise: eligible, on the default branch (fan-in).
    pub fn check_eligibility(
        &self,
        task_id: &str,
        task_states: &StringMap<TaskState>,
        default_branch: &str,
    ) -> (r: EpicEligibility)
        requires
            self.wf(),
            task_states.wf(),
        ensures
            (r.eligible, r.base_branch@, r.unresolved.deep_view()) == self.verdict(
                task_id@,
                states_in(task_states@),
                default_branch@,
            ),
            r.eligible <==> forall|u: Seq<char>| #[trigger]
                self.upstream(task_id@).contains(u) ==> is_resolved(
                task_states.at(u).deep_view(),
            ),
    {
        let deps = self.blockers(task_id);
        let ghost states = states_in(task_states@);
        let mut unresolved: Vec<String> = Vec::new();
        let mut branches: Vec<String> = Vec::new();
        let mut i: usize = 0;
        while i < deps.items.len()
            invariant
                i <= deps@.len(),
                states == states_in(task_states@),
                task_states.wf(),
                unresolved.deep_view() == pending(deps@.take(i as int), states),
                branches.deep_view() == pr_branches(deps@.take(i as int), states),
            decreases deps@.len() - i,
        {
            let id = &deps.items[i];
            assert(deps@.take(i + 1).drop_last() =~= deps@.take(i as int));
            let ghost u0 = unresolved.deep_view();
            let ghost b0 = branches.deep_view();
            match task_states.get(id.as_str()) {
                Some(TaskState::Completed) => {},
                Some(TaskState::Cancelled) => {},
                Some(TaskState::HasPr(branch)) => {
                    branches.push(branch.clone());
                    assert(branches.deep_view() =~= b0.push(branch@));
                },
                _ => {
                    unresolved.push(id.clone());
                    assert(unresolved.deep_view() =~= u0.push(id@));
                },
            }
            i += 1;
        }
        proof {
            assert(deps@.take(i as int) =~= deps@);
            lemma_pending(deps@, states);
            assert forall|u: Seq<char>| #[trigger]
                self.upstream(task_id@).contains(u) == has_item(deps@, u) by {}
            if pending(deps@, states).len() > 0 {
                let x = pending(deps@, states)[0];
                assert(pending(deps@, states).contains(x));
                assert(self.upstream(task_id@).contains(x));
            }
        }
        let eligible = unresolved.len() == 0;
        let base_branch = if eligible && branches.len() == 1 {
            branches[0].clone()
        } else {
            default_branch.to_owned()
        };
        EpicEligibility { eligible, base_branch, unresolved }
    }
}

/// Resolving more blockers never takes eligibility away.
pub proof fn law_resolving_keeps_eligible(
    graph: EpicGraph,
    task: Seq<char>,
    before: TaskStates,
    after: TaskStates,
    default_branch: Seq<char>,
)
    requires
        forall|u: Seq<char>|
            is_resolved(#[trigger] before(u)) ==> is_resolved(after(u)),
    ensures
        graph.verdict(task, before, default_branch).0 ==> graph.verdict(
            task,
            after,
            default_branch,
        ).0,
{
    let deps = graph.deps(task);
    lemma_pending(deps, before);
    lemma_pending(deps, after);
    if pending(deps, before).len() == 0 {
        assert forall|i: int| 0 <= i < deps.len() implies is_resolved(
            after((#[trigger] deps[i])@),
        ) by {
            assert(is_resolved(before(deps[i]@)));
        }
    }
}

/// A task whose blockers are all completed or cancelled is dispatched on the
/// default branch.
pub proof fn law_finished_blockers_give_default_branch(
    graph: EpicGraph,
    task: Seq<char>,
    states: TaskStates,
    default_branch: Seq<char>,
)
    requires
        forall|i: int|
            0 <= i < graph.deps(task).len() ==> {
                let s = states((#[trigger] graph.deps(task)[i])@);
                s is Some && (s->0 is Completed || s->0 is Cancelled)
            },
    ensures
        graph.verdict(task, states, default_branch) == (
            true,
            default_branch,
            Seq::<Seq<char>>::empty(),
        ),
{
    let deps = graph.deps(task);
    lemma_pending(deps, states);
    lemma_no_pr_branches(deps, states);
    assert(pending(deps, states) =~= Seq::<Seq<char>>::empty());
}

/// A task is dispatched if and only if every blocker is resolved, and what is
/// listed as unresolved are the other blockers.
pub proof fn law_eligible_once_all_resolved(
    graph: EpicGraph,
    task: Seq<char>,
    states: TaskStates,
    default_branch: Seq<char>,
)
    ensures
        graph.verdict(task, states, default_branch).0 <==> (forall|u: Seq<char>|
            graph.upstream(task).contains(u) ==> is_resolved(#[trigger] states(u))),
        forall|u: Seq<char>| #[trigger]
            graph.verdict(task, states, default_branch).2.contains(u) <==> graph.upstream(
                task,
            ).contains(u) && !is_resolved(states(u)),
{
    let deps = graph.deps(task);
    lemma_pending(deps, states);
    let all = forall|u: Seq<char>|
        graph.upstream(task).contains(u) ==> is_resolved(#[trigger] states(u));
    if pending(deps, states).len() == 0 {
        assert forall|u: Seq<char>| graph.upstream(task).contains(u) implies is_resolved(
            #[trigger] states(u),
        ) by {
            let i = choose|i: int| 0 <= i < deps.len() && (#[trigger] deps[i])@ == u;
            assert(is_resolved(states(deps[i]@)));
        }
    } else if all {
        let u = pending(deps, states)[0];
        assert(pending(deps, states).contains(u));
        assert(graph.upstream(task).contains(u));
        assert(is_resolved(states(u)));
    }
}

/// A task whose only blocker has a pull request is stacked on its branch.
pub proof fn law_single_pr_is_stacked_on(
    graph: EpicGraph,
    task: Seq<char>,
    states: TaskStates,
    default_branch: Seq<char>,
    branch: Seq<char>,
)
    requires
        graph.deps(task).len() == 1,
        states(graph.deps(task)[0]@) == Some(TaskStateView::HasPr(branch)),
    ensures
        graph.verdict(task, states, default_branch) == (true, branch, Seq::<Seq<char>>::empty()),
{
    let deps = graph.deps(task);
    reveal_with_fuel(pending, 2);
    reveal_with_fuel(pr_branches, 2);
    assert(pending(deps, states) =~= Seq::<Seq<char>>::empty());
    assert(pr_branches(deps, states) =~= seq![branch]);
}

/// A task that two blockers with pull requests come together in is dispatched
/// on the default branch, once it is dispatched.
pub proof fn law_fan_in_gives_default_branch(
    graph: EpicGraph,
    task: Seq<char>,
    states: TaskStates,
    default_branch: Seq<char>,
    i: int,
    j: int,
)
    requires
        0 <= i < j < graph.deps(task).len(),
        states(graph.deps(task)[i]@) matches Some(TaskStateView::HasPr(_)),
        states(graph.deps(task)[j]@) matches Some(TaskStateView::HasPr(_)),
    ensures
        graph.verdict(task, states, default_branch).1 == default_branch,
{
    lemma_two_branches(graph.deps(task), states, i, j);
}

proof fn lemma_two_branches(deps: Seq<String>, states: TaskStates, i: int, j: int)
    requires
        0 <= i < j < deps.len(),
        states(deps[i]@) matches Some(TaskStateView::HasPr(_)),
        states(deps[j]@) matches Some(TaskStateView::HasPr(_)),
    ensures
        pr_branches(deps, states).len() >= 2,
    decreases deps.len(),
{
    let before = deps.drop_last();
    if j < before.len() {
        lemma_two_branches(before, states, i, j);
    } else {
        lemma_one_branch(before, states, i);
    }
}

proof fn lemma_one_branch(deps: Seq<String>, states: TaskStates, i: int)
    requires
        0 <= i < deps.len(),
        states(deps[i]@) matches Some(TaskStateView::HasPr(_)),
    ensures
        pr_branches(deps, states).len() >= 1,
    decreases deps.len(),
{
    if i < deps.len() - 1 {
        lemma_one_branch(deps.drop_last(), states, i);
    }
}

proof fn lemma_no_pr_branches(deps: Seq<String>, states: TaskStates)
    requires
        forall|i: int|
            0 <= i < deps.len() ==> {
                let s = states((#[trigger] deps[i])@);
                s is Some && (s->0 is Completed || s->0 is Cancelled)
            },
    ensures
        pr_branches(deps, states).len() == 0,
    decreases deps.len(),
{
    if deps.len() > 0 {
        assert forall|i: int| 0 <= i < deps.drop_last().len() implies ({
            let s = states((#[trigger] deps.drop_last()[i])@);
            s is Some && (s->0 is Completed || s->0 is Cancelled)
        }) by {
            assert(deps.drop_last()[i] == deps[i]);
        }
        lemma_no_pr_branches(deps.drop_last(), states);
        assert(deps.last() == deps[deps.len() - 1]);
    }
}

/// What stands between the first "```mermaid" and the next "```", trimmed.
pub open spec fn mermaid_block(content: Seq<char>) -> Option<Seq<char>> {
    match find_from(content, "```mermaid"@, 0) {
        Some(start) => {
            let from = start + "```mermaid"@.len();
            match find_from(content, "```"@, from) {
                Some(end) => Some(trimmed(content.subrange(from, end))),
                None => None,
            }
        },
        None => None,
    }
}

/// Extract a Mermaid code block from page content (fenced with ```mermaid).
pub fn extract_mermaid_block(content: &str) -> (r: Option<String>)
    ensures
        r.deep_view() == mermaid_block(content@),
{
    let v = to_chars(content);
    let open = to_chars("```mermaid");
    let close = to_chars("```");
    match find_chars(&v, &open, 0) {
        Some(start) => {
            let from: usize = start + open.len();
            match find_chars(&v, &close, from) {
                Some(end) => {
                    let (i, k) = trim_bounds(&v, from, end);
                    Some(slice(&v, i, k))
                },
                None => None,
            }
        },
        None => None,
    }
}

/// The pattern of a tag such as "[iOS] ".
pub open spec fn tag_pattern() -> Seq<char> {
    r"\[[\w\s]+\]\s*"@
}

/// Words in lower case, one space between each two.
pub open spec fn collapsed(s: Seq<char>) -> Seq<char> {
    joined(words(lowercase(s)), " "@)
}

/// A title or label as it is matched: without tags, in lower case, with single spaces.
pub open spec fn normalized(s: Seq<char>) -> Seq<char> {
    match regex_replaced(tag_pattern(), s, ""@) {
        Some(stripped) => collapsed(stripped),
        None => collapsed(s),
    }
}

/// The words of a text with one space between each two of them.
pub fn collapse_whitespace(s: &str) -> (r: String)
    ensures
        r@ == joined(words(s@), " "@),
{
    let parts = split_whitespace(s);
    join(&parts, " ")
}

/// Normalize a string for fuzzy matching: lowercase, strip tag prefixes, collapse whitespace.
pub fn normalize_for_matching(s: &str) -> (r: String)
    ensures
        r@ == normalized(s@),
{
    match replace_all(r"\[[\w\s]+\]\s*", s, "") {
        Some(stripped) => collapse_whitespace(stripped.as_str().to_lowercase().as_str()),
        None => collapse_whitespace(s.to_lowercase().as_str()),
    }
}

/// How far a title is from a label, where one stands in the other.
pub open spec fn match_score(label: Seq<char>, title: Seq<char>) -> Option<int> {
    if has(title, label) {
        Some(byte_len(title) - byte_len(label))
    } else if has(label, title) {
        Some(byte_len(label) - byte_len(title))
    } else {
        None
    }
}

/// `i` is the first of the titles that are nearest to the label.
pub open spec fn is_nearest(label: Seq<char>, titles: Seq<Seq<char>>, i: int) -> bool {
    &&& 0 <= i < titles.len()
    &&& match_score(label, titles[i]) is Some
    &&& forall|j: int|
        0 <= j < titles.len() && match_score(label, #[trigger] titles[j]) is Some ==> {
            &&& match_score(label, titles[i])->0 <= match_score(label, titles[j])->0
            &&& j < i ==> match_score(label, titles[i])->0 < match_score(label, titles[j])->0
        }
}

/// The first of the titles that are nearest to the label, if any matches.
pub open spec fn nearest(label: Seq<char>, titles: Seq<Seq<char>>) -> Option<int> {
    if exists|i: int| is_nearest(label, titles, i) {
        Some(choose|i: int| is_nearest(label, titles, i))
    } else {
        None
    }
}

/// At most one title is the first nearest one.
pub proof fn lemma_nearest_unique(label: Seq<char>, titles: Seq<Seq<char>>, i: int, k: int)
    requires
        is_nearest(label, titles, i),
        is_nearest(label, titles, k),
    ensures
        i == k,
{
    assert(match_score(label, titles[i]) is Some);
    assert(match_score(label, titles[k]) is Some);
}

/// A title is at distance 0 only if it is the label.
pub proof fn lemma_score(label: Seq<char>, title: Seq<char>)
    ensures
        match_score(label, title) is Some ==> match_score(label, title)->0 >= 0,
        match_score(label, title) == Some(0int) <==> title == label,
{
    if title == label {
        assert(title.subrange(0, title.len() as int) =~= label);
    }
    if has(title, label) {
        lemma_byte_len_has(title, label);
        if byte_len(title) == byte_len(label) {
            lemma_same_len(title, label);
        }
    } else if has(label, title) {
        lemma_byte_len_has(label, title);
        if byte_len(title) == byte_len(label) {
            lemma_same_len(label, title);
        }
    }
}

proof fn lemma_same_len(s: Seq<char>, p: Seq<char>)
    requires
        has(s, p),
        byte_len(s) == byte_len(p),
    ensures
        s == p,
{
    lemma_find_from(s, p, 0);
    let i = find_from(s, p, 0)->0;
    let head = s.take(i);
    let tail = s.skip(i + p.len());
    assert(s =~= head + p + tail);
    lemma_byte_len_concat(head + p, tail);
    lemma_byte_len_concat(head, p);
    lemma_no_bytes(head);
    lemma_no_bytes(tail);
    assert(s =~= p);
}

proof fn lemma_no_bytes(s: Seq<char>)
    requires
        byte_len(s) == 0,
    ensures
        s.len() == 0,
{
}

/// The first of the titles that are nearest to the label.
///
/// An equal title wins; otherwise, among the titles that hold the label or
/// stand in it, the one with the smallest difference in length.
pub fn nearest_title(label: &str, titles: &Vec<String>) -> (r: Option<usize>)
    ensures
        match r {
            Some(i) => i < titles@.len() && nearest(label@, titles.deep_view()) == Some(i as int),
            None => nearest(label@, titles.deep_view()) is None,
        },
{
    let ghost ts = titles.deep_view();
    let mut i: usize = 0;
    while i < titles.len()
        invariant
            i <= titles@.len(),
            ts == titles.deep_view(),
            forall|j: int| 0 <= j < i ==> #[trigger] ts[j] != label@,
        decreases titles@.len() - i,
    {
        if str_eq(label, titles[i].as_str()) {
            proof {
                assert forall|j: int|
                    0 <= j < ts.len() && match_score(label@, #[trigger] ts[j]) is Some implies ({
                    &&& match_score(label@, ts[i as int])->0 <= match_score(label@, ts[j])->0
                    &&& j < i ==> match_score(label@, ts[i as int])->0 < match_score(label@, ts[j])->0
                }) by {
                    lemma_score(label@, ts[j]);
                    lemma_score(label@, ts[i as int]);
                }
                lemma_score(label@, ts[i as int]);
                assert(is_nearest(label@, ts, i as int));
                lemma_nearest_unique(label@, ts, i as int, nearest(label@, ts)->0);
            }
            return Some(i);
        }
        i += 1;
    }
    let mut best: Option<(usize, u128)> = None;
    let label_len = utf8_len(label);
    i = 0;
    while i < titles.len()
        invariant
            i <= titles@.len(),
            ts == titles.deep_view(),
            label_len == byte_len(label@),
            match best {
                Some((k, score)) => is_nearest(label@, ts.take(i as int), k as int) && match_score(
                    label@,
                    ts[k as int],
                ) == Some(score as int),
                None => forall|j: int| 0 <= j < i ==> match_score(label@, #[trigger] ts[j]) is None,
            },
        decreases titles@.len() - i,
    {
        let title = titles[i].as_str();
        let ghost prev = ts.take(i as int);
        let ghost next = ts.take(i + 1);
        assert(ts[i as int] == title@);
        assert(forall|j: int| 0 <= j < i ==> #[trigger] next[j] == prev[j]);
        let score: Option<u128> = if contains(title, label) {
            proof {
                lemma_byte_len_has(title@, label@);
            }
            Some(utf8_len(title) - label_len)
        } else if contains(label, title) {
            proof {
                lemma_byte_len_has(label@, title@);
            }
            Some(label_len - utf8_len(title))
        } else {
            None
        };
        let better = match (&best, &score) {
            (_, None) => false,
            (None, Some(_)) => true,
            (Some((_, b)), Some(s)) => *s < *b,
        };
        if better {
            if let Some(s) = score {
                best = Some((i, s));
            }
        }
        i += 1;
    }
    assert(ts.take(i as int) =~= ts);
    match best {
        Some((k, _)) => {
            proof {
                lemma_nearest_unique(label@, ts, k as int, nearest(label@, ts)->0);
            }
            Some(k)
        },
        None => None,
    }
}

/// The titles of tasks, normalized.
pub open spec fn normalized_titles(tasks: Seq<Issue>) -> Seq<Seq<char>> {
    tasks.map_values(|t: Issue| normalized(t.title@))
}

/// The identifier of the task that a label stands for.
pub open spec fn task_of_label(label: Seq<char>, tasks: Seq<Issue>) -> Option<Seq<char>> {
    match nearest(normalized(label), normalized_titles(tasks)) {
        Some(i) => Some(tasks[i].identifier@),
        None => None,
    }
}

/// Match a Mermaid node label to a task identifier via normalized substring matching.
pub fn match_label_to_task(label: &str, tasks: &[Issue]) -> (r: Option<String>)
    ensures
        r.deep_view() == task_of_label(label@, tasks@),
{
    let mut titles: Vec<String> = Vec::new();
    let mut i: usize = 0;
    while i < tasks.len()
        invariant
            i <= tasks@.len(),
            titles.deep_view() == normalized_titles(tasks@).take(i as int),
        decreases tasks@.len() - i,
    {
        let ghost before = titles.deep_view();
        titles.push(normalize_for_matching(tasks[i].title.as_str()));
        assert(titles.deep_view() =~= before.push(normalized(tasks@[i as int].title@)));
        assert(normalized_titles(tasks@).take(i + 1) =~= before.push(
            normalized_titles(tasks@)[i as int],
        ));
        i += 1;
    }
    assert(titles.deep_view() =~= normalized_titles(tasks@));
    let label = normalize_for_matching(label);
    match nearest_title(label.as_str(), &titles) {
        Some(k) => Some(tasks[k].identifier.clone()),
        None => None,
    }
}

/// The pattern of a node definition: `ID["Label"]`.
pub open spec fn node_pattern() -> Seq<char> {
    r#"(\w+)\["([^"]+)"\]"#@
}

/// The pattern of an edge that starts a line: `A --> B`.
pub open spec fn edge_pattern() -> Seq<char> {
    r"(?m)^\s*(\w+)\s*-->\s*(\w+)"@
}

/// Groups 1 and 2 of each match that has both.
pub open spec fn group_pairs(found: Seq<Seq<Option<Seq<char>>>>) -> Seq<(Seq<char>, Seq<char>)>
    decreases found.len(),
{
    if found.len() == 0 {
        seq![]
    } else {
        let before = group_pairs(found.drop_last());
        let groups = found.last();
        if groups.len() > 2 && groups[1] is Some && groups[2] is Some {
            before.push((groups[1]->0, groups[2]->0))
        } else {
            before
        }
    }
}

/// Groups 1 and 2 of each match of a pattern.
pub open spec fn matched_pairs(pattern: Seq<char>, text: Seq<char>) -> Seq<(Seq<char>, Seq<char>)> {
    match regex_captures(pattern, text) {
        Some(found) => group_pairs(found),
        None => seq![],
    }
}

/// Groups 1 and 2 of each match that has both.
pub fn pick_pairs(found: &Vec<Vec<Option<String>>>) -> (r: Vec<(String, String)>)
    ensures
        r.deep_view() == group_pairs(found.deep_view()),
{
    let mut out: Vec<(String, String)> = Vec::new();
    let ghost fs = found.deep_view();
    let mut i: usize = 0;
    assert(out.deep_view() =~= group_pairs(fs.take(0)));
    while i < found.len()
        invariant
            i <= found@.len(),
            fs == found.deep_view(),
            out.deep_view() == group_pairs(fs.take(i as int)),
        decreases found@.len() - i,
    {
        let groups = &found[i];
        assert(fs[i as int] == groups.deep_view());
        assert(fs.take(i + 1).drop_last() =~= fs.take(i as int));
        let ghost before = out.deep_view();
        if groups.len() > 2 {
            if let (Some(a), Some(b)) = (&groups[1], &groups[2]) {
                out.push((a.clone(), b.clone()));
                assert(out.deep_view() =~= before.push((a@, b@)));
            }
        }
        i += 1;
    }
    assert(fs.take(i as int) =~= fs);
    out
}

fn find_pairs(pattern: &str, text: &str) -> (r: Vec<(String, String)>)
    ensures
        r.deep_view() == matched_pairs(pattern@, text@),
{
    match captures(pattern, text) {
        Some(found) => pick_pairs(&found),
        None => {
            let r: Vec<(String, String)> = Vec::new();
            assert(r.deep_view() =~= Seq::<(Seq<char>, Seq<char>)>::empty());
            r
        },
    }
}

/// The label of a node: the one it was given last.
pub open spec fn label_of(nodes: Seq<(Seq<char>, Seq<char>)>, id: Seq<char>) -> Option<Seq<char>>
    decreases nodes.len(),
{
    if nodes.len() == 0 {
        None
    } else if nodes.last().0 == id {
        Some(nodes.last().1)
    } else {
        label_of(nodes.drop_last(), id)
    }
}

/// The identifier of the task that a node stands for.
pub open spec fn task_of_node(
    nodes: Seq<(Seq<char>, Seq<char>)>,
    tasks: Seq<Issue>,
    id: Seq<char>,
) -> Option<Seq<char>> {
    match label_of(nodes, id) {
        Some(label) => task_of_label(label, tasks),
        None => None,
    }
}

/// An edge of the diagram says that `up` must resolve before `down` starts.
pub open spec fn edge_between(
    nodes: Seq<(Seq<char>, Seq<char>)>,
    edges: Seq<(Seq<char>, Seq<char>)>,
    tasks: Seq<Issue>,
    down: Seq<char>,
    up: Seq<char>,
) -> bool {
    exists|i: int|
        0 <= i < edges.len() && task_of_node(nodes, tasks, (#[trigger] edges[i]).0) == Some(up)
            && task_of_node(nodes, tasks, edges[i].1) == Some(down)
}

/// Some task has the identifier `id`.
pub open spec fn is_task(tasks: Seq<Issue>, id: Seq<char>) -> bool {
    exists|i: int| 0 <= i < tasks.len() && (#[trigger] tasks[i]).identifier@ == id
}

proof fn lemma_task_of_label(label: Seq<char>, tasks: Seq<Issue>)
    ensures
        task_of_label(label, tasks) is Some ==> is_task(tasks, task_of_label(label, tasks)->0),
{
    let l = normalized(label);
    let ts = normalized_titles(tasks);
    if nearest(l, ts) is Some {
        let i = nearest(l, ts)->0;
        assert(is_nearest(l, ts, i));
        assert(tasks[i].identifier@ == task_of_label(label, tasks)->0);
    }
}

/// The graph has exactly the given tasks, and between them exactly the edges
/// of the diagram whose both ends stand for a task.
pub open spec fn is_diagram_graph(
    g: EpicGraph,
    nodes: Seq<(Seq<char>, Seq<char>)>,
    edges: Seq<(Seq<char>, Seq<char>)>,
    tasks: Seq<Issue>,
) -> bool {
    &&& g.wf()
    &&& forall|t: Seq<char>| #[trigger] has_key(g.dependencies@, t) <==> is_task(tasks, t)
    &&& forall|t: Seq<char>, u: Seq<char>| #[trigger]
        g.upstream(t).contains(u) <==> edge_between(nodes, edges, tasks, t, u)
}

impl EpicGraph {
    /// Parse a Mermaid `graph TD` block and match node labels to task identifiers.
    ///
    /// Expected format:
    /// ```text
    /// graph TD
    ///   A["PM: Define requirements"]
    ///   B["Backend API endpoints"]
    ///   A --> B
    /// ```
    ///
    /// Node labels are matched to task titles via normalized substring matching.
    pub fn from_mermaid(mermaid: &str, tasks: &[Issue]) -> (r: Self)
        ensures
            is_diagram_graph(
                r,
                matched_pairs(node_pattern(), mermaid@),
                matched_pairs(edge_pattern(), mermaid@),
                tasks@,
            ),
    {
        let nodes = find_pairs(r#"(\w+)\["([^"]+)"\]"#, mermaid);
        let edges = find_pairs(r"(?m)^\s*(\w+)\s*-->\s*(\w+)", mermaid);
        Self::from_parts(&nodes, &edges, tasks)
    }

    /// The graph of a diagram with the given node definitions and edges.
    pub fn from_parts(
        nodes: &Vec<(String, String)>,
        edges: &Vec<(String, String)>,
        tasks: &[Issue],
    ) -> (r: Self)
        ensures
            is_diagram_graph(r, nodes.deep_view(), edges.deep_view(), tasks@),
    {
        let node_tasks = resolve_nodes(nodes, tasks);
        let mut graph = EpicGraph::default();
        let ghost ns = nodes.deep_view();
        let ghost es = edges.deep_view();
        let mut i: usize = 0;
        while i < edges.len()
            invariant
                i <= edges@.len(),
                ns == nodes.deep_view(),
                es == edges.deep_view(),
                node_tasks.wf(),
                forall|id: Seq<char>| #[trigger]
                    node_tasks.at(id).deep_view() == task_of_node(ns, tasks@, id),
                graph.wf(),
                forall|t: Seq<char>| #[trigger]
                    has_key(graph.dependencies@, t) ==> is_task(tasks@, t),
                forall|t: Seq<char>, u: Seq<char>| #[trigger]
                    graph.upstream(t).contains(u) <==> edge_between(
                        ns,
                        es.take(i as int),
                        tasks@,
                        t,
                        u,
                    ),
            decreases edges@.len() - i,
        {
            let e = &edges[i];
            assert(es[i as int] == (e.0@, e.1@));
            let ghost g0 = graph;
            let ghost before = es.take(i as int);
            let ghost after = es.take(i + 1);
            let up = node_tasks.get(e.0.as_str());
            let down = node_tasks.get(e.1.as_str());
            assert(node_tasks.at(e.0@).deep_view() == task_of_node(ns, tasks@, e.0@));
            assert(node_tasks.at(e.1@).deep_view() == task_of_node(ns, tasks@, e.1@));
            assert(forall|k: int| 0 <= k < i ==> #[trigger] after[k] == before[k]);
            match (up, down) {
                (Some(up), Some(down)) => {
                    let mut one: Vec<String> = Vec::new();
                    one.push(up.clone());
                    graph.merge_blocked_by(down.as_str(), one.as_slice());
                    proof {
                        assert(one@[0]@ == up@);
                        match label_of(ns, e.1@) {
                            Some(l) => lemma_task_of_label(l, tasks@),
                            None => {},
                        }
                        assert forall|t: Seq<char>, u: Seq<char>| #[trigger]
                            graph.upstream(t).contains(u) <==> edge_between(ns, after, tasks@, t, u) by {
                            assert(g0.upstream(t).contains(u) <==> edge_between(
                                ns,
                                before,
                                tasks@,
                                t,
                                u,
                            ));
                            if edge_between(ns, before, tasks@, t, u) {
                                let k = choose|k: int|
                                    0 <= k < before.len() && task_of_node(
                                        ns,
                                        tasks@,
                                        (#[trigger] before[k]).0,
                                    ) == Some(u) && task_of_node(ns, tasks@, before[k].1) == Some(t);
                                assert(after[k] == before[k]);
                            }
                            if t == down@ && u == up@ {
                                assert(after[i as int] == es[i as int]);
                            }
                            if edge_between(ns, after, tasks@, t, u) {
                                let k = choose|k: int|
                                    0 <= k < after.len() && task_of_node(
                                        ns,
                                        tasks@,
                                        (#[trigger] after[k]).0,
                                    ) == Some(u) && task_of_node(ns, tasks@, after[k].1) == Some(t);
                                if k < i {
                                    assert(after[k] == before[k]);
                                } else {
                                    assert(one@[0]@ == u);
                                }
                            }
                        }
                    }
                },
                _ => {
                    proof {
                        assert forall|t: Seq<char>, u: Seq<char>| #[trigger]
                            graph.upstream(t).contains(u) <==> edge_between(ns, after, tasks@, t, u) by {
                            if edge_between(ns, before, tasks@, t, u) {
                                let k = choose|k: int|
                                    0 <= k < before.len() && task_of_node(
                                        ns,
                                        tasks@,
                                        (#[trigger] before[k]).0,
                                    ) == Some(u) && task_of_node(ns, tasks@, before[k].1) == Some(t);
                                assert(after[k] == before[k]);
                            }
                            if edge_between(ns, after, tasks@, t, u) {
                                let k = choose|k: int|
                                    0 <= k < after.len() && task_of_node(
                                        ns,
                                        tasks@,
                                        (#[trigger] after[k]).0,
                                    ) == Some(u) && task_of_node(ns, tasks@, after[k].1) == Some(t);
                                assert(k < i);
                                assert(after[k] == before[k]);
                            }
                        }
                    }
                },
            }
            i += 1;
        }
        assert(es.take(i as int) =~= es);
        i = 0;
        let none: Vec<String> = Vec::new();
        while i < tasks.len()
            invariant
                i <= tasks@.len(),
                none@.len() == 0,
                graph.wf(),
                forall|t: Seq<char>| #[trigger]
                    has_key(graph.dependencies@, t) ==> is_task(tasks@, t),
                forall|k: int|
                    0 <= k < i ==> has_key(graph.dependencies@, (#[trigger] tasks@[k]).identifier@),
                forall|t: Seq<char>, u: Seq<char>| #[trigger]
                    graph.upstream(t).contains(u) <==> edge_between(ns, es, tasks@, t, u),
            decreases tasks@.len() - i,
        {
            let ghost g0 = graph;
            graph.merge_blocked_by(tasks[i].identifier.as_str(), none.as_slice());
            assert(is_task(tasks@, tasks@[i as int].identifier@));
            proof {
                assert forall|t: Seq<char>, u: Seq<char>| #[trigger]
                    graph.upstream(t).contains(u) <==> edge_between(ns, es, tasks@, t, u) by {
                    assert(g0.upstream(t).contains(u) <==> edge_between(ns, es, tasks@, t, u));
                }
            }
            i += 1;
        }
        graph
    }
}

/// The task of each node that stands for one, by node.
fn resolve_nodes(nodes: &Vec<(String, String)>, tasks: &[Issue]) -> (r: StringMap<String>)
    ensures
        r.wf(),
        forall|id: Seq<char>| #[trigger]
            r.at(id).deep_view() == task_of_node(nodes.deep_view(), tasks@, id),
{
    let ghost ns = nodes.deep_view();
    let mut labels: StringMap<String> = StringMap::new();
    let mut i: usize = 0;
    while i < nodes.len()
        invariant
            i <= nodes@.len(),
            ns == nodes.deep_view(),
            labels.wf(),
            forall|id: Seq<char>| #[trigger]
                labels.at(id).deep_view() == label_of(ns.take(i as int), id),
        decreases nodes@.len() - i,
    {
        let ghost l0 = labels;
        labels.insert(nodes[i].0.clone(), nodes[i].1.clone());
        proof {
            let next = ns.take(i + 1);
            assert(next.drop_last() =~= ns.take(i as int));
            assert(next.last() == ns[i as int]);
            assert forall|id: Seq<char>| #[trigger]
                labels.at(id).deep_view() == label_of(next, id) by {
                assert(l0.at(id).deep_view() == label_of(ns.take(i as int), id));
            }
        }
        i += 1;
    }
    assert(ns.take(i as int) =~= ns);
    let mut out: StringMap<String> = StringMap::new();
    i = 0;
    while i < labels.entries.len()
        invariant
            i <= labels@.len(),
            labels.wf(),
            out.wf(),
            forall|k: int|
                0 <= k < i ==> out.at((#[trigger] labels@[k]).0@).deep_view() == task_of_label(
                    labels@[k].1@,
                    tasks@,
                ),
            forall|id: Seq<char>| #[trigger]
                out.at(id) is Some ==> exists|k: int|
                    0 <= k < i && (#[trigger] labels@[k]).0@ == id,
        decreases labels@.len() - i,
    {
        let ghost o0 = out;
        let entry = &labels.entries[i];
        if let Some(task) = match_label_to_task(entry.1.as_str(), tasks) {
            out.insert(entry.0.clone(), task);
        } else {
            proof {
                if o0.at(entry.0@) is Some {
                    let k = choose|k: int| 0 <= k < i && (#[trigger] labels@[k]).0@ == entry.0@;
                    assert(labels@[k].0@ != labels@[i as int].0@);
                }
            }
        }
        proof {
            assert forall|k: int| 0 <= k < i + 1 implies out.at((#[trigger] labels@[k]).0@).deep_view()
                == task_of_label(labels@[k].1@, tasks@) by {
                if k < i {
                    assert(labels@[k].0@ != labels@[i as int].0@);
                }
            }
            assert forall|id: Seq<char>| #[trigger] out.at(id) is Some implies exists|k: int|
                0 <= k < i + 1 && (#[trigger] labels@[k]).0@ == id by {
                if id == entry.0@ {
                    assert(labels@[i as int].0@ == id);
                } else {
                    assert(o0.at(id) is Some);
                }
            }
        }
        i += 1;
    }
    proof {
        assert forall|id: Seq<char>| #[trigger]
            out.at(id).deep_view() == task_of_node(ns, tasks@, id) by {
            assert(labels.at(id).deep_view() == label_of(ns, id));
            if has_key(labels@, id) {
                let k = key_index(labels@, id);
                assert(labels@[k].0@ == id);
                assert(out.at(labels@[k].0@).deep_view() == task_of_label(labels@[k].1@, tasks@));
            } else {
                if out.at(id) is Some {
                    let k = choose|k: int| 0 <= k < labels@.len() && (#[trigger] labels@[k]).0@ == id;
                    assert(has_key(labels@, id));
                }
            }
        }
    }
    out
}

/// Where any title matches a label, some title is the first nearest one.
proof fn lemma_some_nearest(label: Seq<char>, titles: Seq<Seq<char>>, k: int)
    requires
        0 <= k < titles.len(),
        match_score(label, titles[k]) is Some,
    ensures
        nearest(label, titles) is Some,
        is_nearest(label, titles, nearest(label, titles)->0),
    decreases match_score(label, titles[k])->0, k,
{
    lemma_score(label, titles[k]);
    if is_nearest(label, titles, k) {
        assert(exists|i: int| is_nearest(label, titles, i));
    } else {
        let j = choose|j: int|
            0 <= j < titles.len() && match_score(label, #[trigger] titles[j]) is Some && !({
                &&& match_score(label, titles[k])->0 <= match_score(label, titles[j])->0
                &&& j < k ==> match_score(label, titles[k])->0 < match_score(label, titles[j])->0
            });
        lemma_score(label, titles[j]);
        lemma_some_nearest(label, titles, j);
    }
}

/// A label that stands in the title of a task, or that the title stands in,
/// matches some task; and a label matches no other titles than such.
pub proof fn law_contained_label_matches(label: Seq<char>, titles: Seq<Seq<char>>)
    ensures
        nearest(label, titles) is Some <==> exists|k: int|
            0 <= k < titles.len() && (has(#[trigger] titles[k], label) || has(label, titles[k])),
{
    if exists|k: int|
        0 <= k < titles.len() && (has(#[trigger] titles[k], label) || has(label, titles[k])) {
        let k = choose|k: int|
            0 <= k < titles.len() && (has(#[trigger] titles[k], label) || has(label, titles[k]));
        lemma_some_nearest(label, titles, k);
    }
    if nearest(label, titles) is Some {
        let i = nearest(label, titles)->0;
        assert(is_nearest(label, titles, i));
        assert(has(titles[i], label) || has(label, titles[i]));
    }
}

/// By how many bytes two texts differ in length.
pub open spec fn length_gap(a: Seq<char>, b: Seq<char>) -> int {
    if byte_len(a) >= byte_len(b) {
        byte_len(a) - byte_len(b)
    } else {
        byte_len(b) - byte_len(a)
    }
}

/// The title that a label matches holds the label or stands in it, no other such
/// title is nearer to it in length, and none before it is as near.
pub proof fn law_match_is_the_nearest(label: Seq<char>, titles: Seq<Seq<char>>)
    requires
        nearest(label, titles) is Some,
    ensures
        ({
            let i = nearest(label, titles)->0;
            &&& 0 <= i < titles.len()
            &&& has(titles[i], label) || has(label, titles[i])
            &&& forall|k: int|
                0 <= k < titles.len() && (has(#[trigger] titles[k], label) || has(
                    label,
                    titles[k],
                )) ==> {
                    &&& length_gap(titles[i], label) <= length_gap(titles[k], label)
                    &&& k < i ==> length_gap(titles[i], label) < length_gap(titles[k], label)
                }
        }),
{
    let i = nearest(label, titles)->0;
    assert(is_nearest(label, titles, i));
    lemma_gap(label, titles[i]);
    assert forall|k: int|
        0 <= k < titles.len() && (has(#[trigger] titles[k], label) || has(label, titles[k])) implies ({
        &&& length_gap(titles[i], label) <= length_gap(titles[k], label)
        &&& k < i ==> length_gap(titles[i], label) < length_gap(titles[k], label)
    }) by {
        lemma_gap(label, titles[k]);
        assert(match_score(label, titles[k]) is Some);
    }
}

proof fn lemma_gap(label: Seq<char>, title: Seq<char>)
    requires
        has(title, label) || has(label, title),
    ensures
        match_score(label, title) == Some(length_gap(title, label)),
{
    if has(title, label) {
        lemma_byte_len_has(title, label);
    } else {
        lemma_byte_len_has(label, title);
    }
}

/// A label that is the title of a task, but for case, tags and spacing, stands for
/// a task of that very title.
pub proof fn law_equal_title_wins(label: Seq<char>, tasks: Seq<Issue>, k: int)
    requires
        0 <= k < tasks.len(),
        normalized(tasks[k].title@) == normalized(label),
    ensures
        exists|i: int|
            0 <= i <= k && normalized((#[trigger] tasks[i]).title@) == normalized(label)
                && task_of_label(label, tasks) == Some(tasks[i].identifier@),
{
    let l = normalized(label);
    let ts = normalized_titles(tasks);
    assert(ts[k] == l);
    lemma_score(l, ts[k]);
    lemma_some_nearest(l, ts, k);
    let i = nearest(l, ts)->0;
    lemma_score(l, ts[i]);
    assert(match_score(l, ts[i])->0 <= match_score(l, ts[k])->0);
    assert(ts[i] == l);
    assert(normalized(tasks[i].title@) == normalized(label));
}

/// Every edge of a diagram between two nodes that stand for tasks makes the first a
/// blocker of the second, and a task has no other blockers.
pub proof fn law_edges_make_blockers(
    g: EpicGraph,
    nodes: Seq<(Seq<char>, Seq<char>)>,
    edges: Seq<(Seq<char>, Seq<char>)>,
    tasks: Seq<Issue>,
)
    requires
        is_diagram_graph(g, nodes, edges, tasks),
    ensures
        forall|i: int|
            0 <= i < edges.len() && task_of_node(nodes, tasks, (#[trigger] edges[i]).0) is Some
                && task_of_node(nodes, tasks, edges[i].1) is Some ==> g.upstream(
                task_of_node(nodes, tasks, edges[i].1)->0,
            ).contains(task_of_node(nodes, tasks, edges[i].0)->0),
        forall|t: Seq<char>, u: Seq<char>| #[trigger]
            g.upstream(t).contains(u) ==> exists|i: int|
                0 <= i < edges.len() && task_of_node(nodes, tasks, (#[trigger] edges[i]).0) == Some(
                    u,
                ) && task_of_node(nodes, tasks, edges[i].1) == Some(t),
{
    assert forall|i: int|
        0 <= i < edges.len() && task_of_node(nodes, tasks, (#[trigger] edges[i]).0) is Some
            && task_of_node(nodes, tasks, edges[i].1) is Some implies g.upstream(
        task_of_node(nodes, tasks, edges[i].1)->0,
    ).contains(task_of_node(nodes, tasks, edges[i].0)->0) by {
        let t = task_of_node(nodes, tasks, edges[i].1)->0;
        let u = task_of_node(nodes, tasks, edges[i].0)->0;
        assert(edge_between(nodes, edges, tasks, t, u));
    }
    assert forall|t: Seq<char>, u: Seq<char>| #[trigger] g.upstream(t).contains(u) implies exists|
        i: int,
    |
        0 <= i < edges.len() && task_of_node(nodes, tasks, (#[trigger] edges[i]).0) == Some(u)
            && task_of_node(nodes, tasks, edges[i].1) == Some(t) by {
        assert(edge_between(nodes, edges, tasks, t, u));
    }
}

/// A node goes by the label that it was given last, and stands for the task of
/// that label; one that was given none stands for no task.
pub proof fn law_node_goes_by_last_label(
    nodes: Seq<(Seq<char>, Seq<char>)>,
    tasks: Seq<Issue>,
    id: Seq<char>,
)
    ensures
        forall|i: int|
            0 <= i < nodes.len() && (#[trigger] nodes[i]).0 == id && (forall|j: int|
                i < j < nodes.len() ==> (#[trigger] nodes[j]).0 != id) ==> task_of_node(
                nodes,
                tasks,
                id,
            ) == task_of_label(nodes[i].1, tasks),
        (forall|j: int| 0 <= j < nodes.len() ==> (#[trigger] nodes[j]).0 != id) ==> task_of_node(
            nodes,
            tasks,
            id,
        ) is None,
    decreases nodes.len(),
{
    if nodes.len() > 0 {
        let before = nodes.drop_last();
        law_node_goes_by_last_label(before, tasks, id);
        assert(forall|j: int| 0 <= j < before.len() ==> #[trigger] before[j] == nodes[j]);
        if nodes.last().0 == id {
            assert(nodes[nodes.len() - 1].0 == id);
        } else {
            assert forall|i: int|
                0 <= i < nodes.len() && (#[trigger] nodes[i]).0 == id && (forall|j: int|
                    i < j < nodes.len() ==> (#[trigger] nodes[j]).0 != id) implies task_of_node(
                nodes,
                tasks,
                id,
            ) == task_of_label(nodes[i].1, tasks) by {
                assert(before[i].0 == id);
                assert forall|j: int| i < j < before.len() implies (#[trigger] before[j]).0 != id by {
                    assert(nodes[j].0 != id);
                }
                assert(task_of_node(before, tasks, id) == task_of_label(before[i].1, tasks));
            }
        }
    }
}

/// A task is dispatched if and only if each of its blockers is completed or
/// cancelled or has a pull request: one that runs, has not started or is not known
/// holds it back, and is listed as unresolved.
pub proof fn law_only_settled_blockers_let_through(
    graph: EpicGraph,
    task: Seq<char>,
    states: TaskStates,
    default_branch: Seq<char>,
)
    ensures
        graph.verdict(task, states, default_branch).0 <==> (forall|u: Seq<char>| #[trigger]
            graph.upstream(task).contains(u) ==> (states(u) == Some(TaskStateView::Completed)
                || states(u) == Some(TaskStateView::Cancelled) || (states(u) is Some && states(u)->0
                is HasPr))),
        forall|u: Seq<char>|
            graph.upstream(task).contains(u) && (states(u) is None || states(u)
                == Some(TaskStateView::InProgress) || states(u) == Some(TaskStateView::NotStarted))
                ==> !graph.verdict(task, states, default_branch).0 && #[trigger] graph.verdict(
                task,
                states,
                default_branch,
            ).2.contains(u),
{
    law_eligible_once_all_resolved(graph, task, states, default_branch);
    let ok = graph.verdict(task, states, default_branch).0;
    if ok {
        assert forall|u: Seq<char>| #[trigger] graph.upstream(task).contains(u) implies (states(u)
            == Some(TaskStateView::Completed) || states(u) == Some(TaskStateView::Cancelled) || (
        states(u) is Some && states(u)->0 is HasPr)) by {
            assert(is_resolved(states(u)));
        }
    } else {
        let u = choose|u: Seq<char>|
            graph.upstream(task).contains(u) && !is_resolved(#[trigger] states(u));
        assert(graph.upstream(task).contains(u));
    }
    assert forall|u: Seq<char>|
        graph.upstream(task).contains(u) && (states(u) is None || states(u) == Some(
            TaskStateView::InProgress,
        ) || states(u) == Some(TaskStateView::NotStarted)) implies !graph.verdict(
        task,
        states,
        default_branch,
    ).0 && #[trigger] graph.verdict(task, states, default_branch).2.contains(u) by {
        assert(!is_resolved(states(u)));
    }
}

/// A task with exactly one blocker that has a pull request, and all others settled
/// without one, is stacked on that blocker's branch.
pub proof fn law_stacked_on_the_one_open_pr(
    graph: EpicGraph,
    task: Seq<char>,
    states: TaskStates,
    default_branch: Seq<char>,
    i: int,
    branch: Seq<char>,
)
    requires
        0 <= i < graph.deps(task).len(),
        states(graph.deps(task)[i]@) == Some(TaskStateView::HasPr(branch)),
        forall|j: int|
            0 <= j < graph.deps(task).len() && j != i ==> {
                let s = states((#[trigger] graph.deps(task)[j])@);
                s is Some && (s->0 is Completed || s->0 is Cancelled)
            },
    ensures
        graph.verdict(task, states, default_branch).0,
        graph.verdict(task, states, default_branch).1 == branch,
{
    let deps = graph.deps(task);
    lemma_pending(deps, states);
    assert forall|k: int| 0 <= k < deps.len() implies is_resolved(states((#[trigger] deps[k])@)) by {
        if k != i {
            let s = states(deps[k]@);
            assert(s is Some && (s->0 is Completed || s->0 is Cancelled));
        }
    }
    lemma_the_one_branch(deps, states, i, branch);
}

proof fn lemma_the_one_branch(deps: Seq<String>, states: TaskStates, i: int, branch: Seq<char>)
    requires
        0 <= i < deps.len(),
        states(deps[i]@) == Some(TaskStateView::HasPr(branch)),
        forall|j: int|
            0 <= j < deps.len() && j != i ==> {
                let s = states((#[trigger] deps[j])@);
                s is Some && (s->0 is Completed || s->0 is Cancelled)
            },
    ensures
        pr_branches(deps, states) == seq![branch],
    decreases deps.len(),
{
    let before = deps.drop_last();
    assert forall|j: int| 0 <= j < before.len() && j != i implies ({
        let s = states((#[trigger] before[j])@);
        s is Some && (s->0 is Completed || s->0 is Cancelled)
    }) by {
        assert(before[j] == deps[j]);
    }
    if i < before.len() {
        lemma_the_one_branch(before, states, i, branch);
        assert(deps.last() == deps[deps.len() - 1]);
    } else {
        lemma_no_pr_branches(before, states);
        assert(pr_branches(deps, states) =~= seq![branch]);
    }
}

/// The diagram of a page is what stands between the fence that opens it and the
/// next fence, without the white space around it.
pub proof fn law_fenced_diagram_found(before: Seq<char>, diagram: Seq<char>, after: Seq<char>)
    requires
        find_from(before + "```mermaid"@ + diagram + "```"@ + after, "```mermaid"@, 0) == Some(
            before.len() as int,
        ),
        find_from(
            before + "```mermaid"@ + diagram + "```"@ + after,
            "```"@,
            (before.len() + "```mermaid"@.len()) as int,
        ) == Some((before.len() + "```mermaid"@.len() + diagram.len()) as int),
    ensures
        mermaid_block(before + "```mermaid"@ + diagram + "```"@ + after) == Some(trimmed(diagram)),
{
    let page = before + "```mermaid"@ + diagram + "```"@ + after;
    let from = before.len() + "```mermaid"@.len();
    assert(page.subrange(from as int, (from + diagram.len()) as int) =~= diagram);
}

/// Titles and labels are compared without tags such as "[iOS]", in lower case, and
/// with one space between each two words.
pub proof fn law_compared_without_tags_and_case(s: Seq<char>)
    ensures
        ({
            let bare = match regex_replaced(r"\[[\w\s]+\]\s*"@, s, ""@) {
                Some(t) => t,
                None => s,
            };
            normalized(s) == joined(words(lowercase(bare)), " "@)
        }),
{
}

/// What a match says is taken from its first and its second group, for each match
/// that has both, in order.
pub proof fn law_pairs_are_first_and_second_groups(found: Seq<Seq<Option<Seq<char>>>>)
    requires
        forall|i: int|
            0 <= i < found.len() ==> (#[trigger] found[i]).len() > 2 && found[i][1] is Some
                && found[i][2] is Some,
    ensures
        group_pairs(found).len() == found.len(),
        forall|i: int|
            0 <= i < found.len() ==> #[trigger] group_pairs(found)[i] == (
                found[i][1]->0,
                found[i][2]->0,
            ),
    decreases found.len(),
{
    if found.len() > 0 {
        let before = found.drop_last();
        assert(forall|i: int| 0 <= i < before.len() ==> #[trigger] before[i] == found[i]);
        law_pairs_are_first_and_second_groups(before);
        assert(found.last() == found[found.len() - 1]);
    }
}

/// Pairs are what a pattern finds in a text, and there are none where it finds nothing.
pub proof fn law_pairs_found_by_pattern(pattern: Seq<char>, text: Seq<char>)
    ensures
        match regex_captures(pattern, text) {
            Some(found) => matched_pairs(pattern, text) == group_pairs(found),
            None => matched_pairs(pattern, text).len() == 0,
        },
{
}

/// Nodes are what is written as a name and a label in brackets and quotes, and edges what
/// starts a line as two names with an arrow between them.
pub proof fn law_nodes_and_edges_as_written(text: Seq<char>)
    ensures
        matched_pairs(node_pattern(), text) == (match regex_captures(
            r#"(\w+)\["([^"]+)"\]"#@,
            text,
        ) {
            Some(found) => group_pairs(found),
            None => seq![],
        }),
        matched_pairs(edge_pattern(), text) == (match regex_captures(
            r"(?m)^\s*(\w+)\s*-->\s*(\w+)"@,
            text,
        ) {
            Some(found) => group_pairs(found),
            None => seq![],
        }),
{
}

/// A match without its first or second group gives no pair.
pub proof fn law_incomplete_match_gives_no_pair(
    found: Seq<Seq<Option<Seq<char>>>>,
    groups: Seq<Option<Seq<char>>>,
)
    requires
        groups.len() < 3 || groups[1] is None || groups[2] is None,
    ensures
        group_pairs(found.push(groups)) == group_pairs(found),
{
    assert(found.push(groups).drop_last() =~= found);
}

/// The graph of a diagram has every task, drawn or not, and nothing that is no task.
pub proof fn law_graph_has_exactly_the_tasks(
    g: EpicGraph,
    nodes: Seq<(Seq<char>, Seq<char>)>,
    edges: Seq<(Seq<char>, Seq<char>)>,
    tasks: Seq<Issue>,
    id: Seq<char>,
)
    requires
        is_diagram_graph(g, nodes, edges, tasks),
    ensures
        g.wf(),
        has_key(g.dependencies@, id) <==> exists|i: int|
            0 <= i < tasks.len() && (#[trigger] tasks[i]).identifier@ == id,
{
    assert(has_key(g.dependencies@, id) <==> is_task(tasks, id));
}

} // verus!
