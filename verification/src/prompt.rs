//! Prompts: Liquid templates filled with what is known of an issue.
use vstd::prelude::*;
use vstd::string::*;
use crate::domain::issue::{Comment, CommentView, Issue, IssueView};
use crate::error::{Error, Result};
use crate::paths::{join_path, joined_path};
use crate::steady::{check_template, is_steady};
use crate::text::{cat2, join, joined, trim, trimmed, views};
use crate::workspace::safety::{sanitize_key, sanitized};

verus! {

/// A field of an object that a template can refer to.
#[derive(Debug)]
pub enum FieldValue {
    Text(String),
    Object(Vec<(String, String)>),
}

/// What a `FieldValue` holds.
#[verifier::ext_equal]
pub enum FieldValueView {
    Text(Seq<char>),
    Object(Seq<(Seq<char>, Seq<char>)>),
}

impl DeepView for FieldValue {
    type V = FieldValueView;

    open spec fn deep_view(&self) -> FieldValueView {
        match self {
            FieldValue::Text(s) => FieldValueView::Text(s@),
            FieldValue::Object(es) => FieldValueView::Object(es.deep_view()),
        }
    }
}

/// A value that a template can refer to.
#[derive(Debug)]
pub enum TemplateValue {
    Text(String),
    Number(i64),
    Object(Vec<(String, FieldValue)>),
}

/// What a `TemplateValue` holds.
#[verifier::ext_equal]
pub enum TemplateValueView {
    Text(Seq<char>),
    Number(i64),
    Object(Seq<(Seq<char>, FieldValueView)>),
}

impl DeepView for TemplateValue {
    type V = TemplateValueView;

    open spec fn deep_view(&self) -> TemplateValueView {
        match self {
            TemplateValue::Text(s) => TemplateValueView::Text(s@),
            TemplateValue::Number(n) => TemplateValueView::Number(*n),
            TemplateValue::Object(es) => TemplateValueView::Object(es.deep_view()),
        }
    }
}

/// The step at which a template failed.
#[derive(Debug, Clone, Copy, PartialEq, Eq, Structural)]
pub enum RenderStage {
    Build,
    Parse,
    Render,
}

/// What rendering a template may give: a text, or the step that failed and its
/// message.
pub type RenderOutcome = std::result::Result<Seq<char>, (RenderStage, Seq<char>)>;

/// What the result of `render` holds.
pub open spec fn outcome_view(r: std::result::Result<String, (RenderStage, String)>) -> RenderOutcome {
    match r {
        Ok(s) => Ok(s@),
        Err((stage, m)) => Err((stage, m@)),
    }
}

/// `outcome` is something that rendering `template` with `globals` can give.
///
/// This is a relation, since a template can print the time, or a whole object,
/// whose fields come in no fixed order.
pub uninterp spec fn liquid_outcome(
    template: Seq<char>,
    globals: Seq<(Seq<char>, TemplateValueView)>,
    outcome: RenderOutcome,
) -> bool;

/// A `liquid` value, on its way into a template.
#[verifier::external_type_specification]
#[verifier::external_body]
pub struct ExLiquidValue(liquid::model::Value);

/// Hands a field to `liquid`, variant by variant. Nothing is claimed of it by
/// itself: it is part of what `render` relates.
#[verifier::external_body]
fn field_to_liquid(value: &FieldValue) -> liquid::model::Value {
    match value {
        FieldValue::Text(s) => liquid::model::Value::scalar(s.clone()),
        FieldValue::Object(es) => liquid::model::Value::Object(
            es.iter().map(|(k, s)| (k.clone().into(), liquid::model::Value::scalar(s.clone()))).collect(),
        ),
    }
}

/// Hands a value to `liquid`, variant by variant. Nothing is claimed of it by
/// itself: it is part of what `render` relates.
#[verifier::external_body]
fn to_liquid(value: &TemplateValue) -> liquid::model::Value {
    match value {
        TemplateValue::Text(s) => liquid::model::Value::scalar(s.clone()),
        TemplateValue::Number(n) => liquid::model::Value::scalar(*n),
        TemplateValue::Object(es) => liquid::model::Value::Object(
            es.iter().map(|(k, f)| (k.clone().into(), field_to_liquid(f))).collect(),
        ),
    }
}

/// `liquid::Template::render` of the template that a `liquid::Parser` with the
/// standard library parses from the text, over the given globals; a later
/// global of one name replaces an earlier one. What comes out is related to
/// what went in, not described, and may differ from call to call.
///
/// Parsing and rendering break off on some templates: on whole numbers beyond
/// `i64`, on integer division of the least `i64` by -1 and, in builds that check
/// for it, on other arithmetic that overflows, on ranges longer than a list can
/// be, on `cycle` without values, on `tablerow` with no columns, on dates with wide
/// directives or some beyond ASCII, on sorting long lists of mixed values, on
/// deeply nested indexes, on blocks inside a comment whose end is not found, and on
/// malformed templates whose line is misread while the error is described.
/// `is_steady` leaves these out. Memory and stack are taken to suffice, no list or
/// text to have 10^13 elements, and no rendering to take 10^14 steps.
#[verifier::external_body]
pub(crate) fn render(template: &str, globals: &Vec<(String, TemplateValue)>) -> (r: std::result::Result<
    String,
    (RenderStage, String),
>)
    requires
        is_steady(template@, globals.deep_view()),
    ensures
        liquid_outcome(template@, globals.deep_view(), outcome_view(r)),
{
    let object: liquid::Object = globals.iter().map(|(k, v)| (k.clone().into(), to_liquid(v))).collect();
    let parser = liquid::ParserBuilder::with_stdlib().build().map_err(|e| (RenderStage::Build, e.to_string()))?;
    let parsed = parser.parse(template).map_err(|e| (RenderStage::Parse, e.to_string()))?;
    parsed.render(&object).map_err(|e| (RenderStage::Render, e.to_string()))
}

/// An optional text, empty where there is none.
pub open spec fn or_empty(s: Option<Seq<char>>) -> Seq<char> {
    match s {
        Some(t) => t,
        None => seq![],
    }
}

/// A comment as prompts show it: author, time where known, and body.
pub open spec fn comment_text(c: CommentView) -> Seq<char> {
    let when = match c.created_at {
        Some(t) => " ("@ + t + ")"@,
        None => seq![],
    };
    "**"@ + c.author + "**"@ + when + ": "@ + c.body
}

/// The comments of an issue as prompts show them, with a blank line between.
pub open spec fn comments_text(cs: Seq<CommentView>) -> Seq<char> {
    joined(cs.map_values(|c: CommentView| comment_text(c)), "\n\n"@)
}

/// The extra properties of an issue as fields of it.
pub open spec fn extra_fields(extra: Seq<(Seq<char>, Seq<char>)>) -> Seq<
    (Seq<char>, FieldValueView),
> {
    extra.map_values(|e: (Seq<char>, Seq<char>)| (e.0, FieldValueView::Text(e.1)))
}

/// What a template finds under `issue`: the issue's own fields, its extra
/// properties under `extra`, and each of them by itself, in place of a field of
/// the same name.
pub open spec fn issue_fields(issue: IssueView) -> Seq<(Seq<char>, FieldValueView)> {
    seq![
        ("identifier"@, FieldValueView::Text(issue.identifier)),
        ("safe_identifier"@, FieldValueView::Text(sanitized(issue.identifier))),
        ("title"@, FieldValueView::Text(issue.title)),
        ("description"@, FieldValueView::Text(or_empty(issue.description))),
        ("status"@, FieldValueView::Text(issue.status)),
        ("priority"@, FieldValueView::Text(or_empty(issue.priority))),
        ("url"@, FieldValueView::Text(or_empty(issue.url))),
        ("comments"@, FieldValueView::Text(comments_text(issue.comments))),
        ("extra"@, FieldValueView::Object(issue.extra)),
    ] + extra_fields(issue.extra)
}

/// What a template finds: the issue, and the attempt, the workspace and the
/// base branch where they are given.
pub open spec fn prompt_globals(
    issue: IssueView,
    attempt: Option<u32>,
    workspace: Option<Seq<char>>,
    base_branch: Option<Seq<char>>,
) -> Seq<(Seq<char>, TemplateValueView)> {
    let a = seq![("issue"@, TemplateValueView::Object(issue_fields(issue)))];
    let b = match attempt {
        Some(n) => a.push(("attempt"@, TemplateValueView::Number(n as i64))),
        None => a,
    };
    let c = match workspace {
        Some(w) => b.push(("workspace"@, TemplateValueView::Text(w))),
        None => b,
    };
    match base_branch {
        Some(w) => c.push(("base_branch"@, TemplateValueView::Text(w))),
        None => c,
    }
}

/// What an optional string holds.
pub open spec fn opt_str(s: Option<&str>) -> Option<Seq<char>> {
    match s {
        Some(t) => Some(t@),
        None => None,
    }
}

fn show_comment(c: &Comment) -> (r: String)
    ensures
        r@ == comment_text(c.deep_view()),
{
    let mut s = "**".to_owned();
    s.append(c.author.as_str());
    s.append("**");
    if let Some(t) = &c.created_at {
        let mut when = " (".to_owned();
        when.append(t.as_str());
        when.append(")");
        s.append(when.as_str());
    } else {
        assert(s@ + Seq::<char>::empty() =~= s@);
    }
    s.append(": ");
    s.append(c.body.as_str());
    s
}

/// The comments of an issue as prompts show them.
pub fn format_comments(comments: &Vec<Comment>) -> (r: String)
    ensures
        r@ == comments_text(comments.deep_view()),
{
    let mut parts: Vec<String> = Vec::new();
    let ghost want = comments.deep_view().map_values(|c: CommentView| comment_text(c));
    let mut i: usize = 0;
    while i < comments.len()
        invariant
            i <= comments@.len(),
            want == comments.deep_view().map_values(|c: CommentView| comment_text(c)),
            views(parts@) == want.take(i as int),
        decreases comments@.len() - i,
    {
        let ghost before = views(parts@);
        let part = show_comment(&comments[i]);
        assert(want[i as int] == part@);
        parts.push(part);
        assert(views(parts@) =~= before.push(want[i as int]));
        assert(want.take(i + 1) =~= before.push(want[i as int]));
        i += 1;
    }
    assert(want.take(i as int) =~= want);
    join(&parts, "\n\n")
}

fn text_or_empty(s: &Option<String>) -> (r: String)
    ensures
        r@ == or_empty(s.deep_view()),
{
    match s {
        Some(t) => t.clone(),
        None => String::new(),
    }
}

/// What a template finds: the issue, and the attempt, the workspace and the
/// base branch where they are given.
pub fn globals_for(
    issue: &Issue,
    attempt: Option<u32>,
    workspace: Option<&str>,
    base_branch: Option<&str>,
) -> (r: Vec<(String, TemplateValue)>)
    ensures
        r.deep_view() == prompt_globals(
            issue.deep_view(),
            attempt,
            opt_str(workspace),
            opt_str(base_branch),
        ),
{
    let mut fields: Vec<(String, FieldValue)> = Vec::new();
    let safe = sanitize_key(issue.identifier.as_str());
    fields.push(("identifier".to_owned(), FieldValue::Text(issue.identifier.clone())));
    fields.push(("safe_identifier".to_owned(), FieldValue::Text(safe)));
    fields.push(("title".to_owned(), FieldValue::Text(issue.title.clone())));
    fields.push(("description".to_owned(), FieldValue::Text(text_or_empty(&issue.description))));
    fields.push(("status".to_owned(), FieldValue::Text(issue.status.clone())));
    fields.push(("priority".to_owned(), FieldValue::Text(text_or_empty(&issue.priority))));
    fields.push(("url".to_owned(), FieldValue::Text(text_or_empty(&issue.url))));
    fields.push(("comments".to_owned(), FieldValue::Text(format_comments(&issue.comments))));
    let properties = issue.extra.clone();
    let ghost extra = issue.extra.deep_view();
    assert(properties.entries.deep_view() =~= extra);
    fields.push(("extra".to_owned(), FieldValue::Object(properties.entries)));
    let ghost own = fields.deep_view();
    let ghost more = extra_fields(extra);
    let mut i: usize = 0;
    assert(own + more.take(0) =~= own);
    while i < issue.extra.entries.len()
        invariant
            i <= issue.extra@.len(),
            extra == issue.extra.deep_view(),
            more == extra_fields(extra),
            fields.deep_view() == own + more.take(i as int),
        decreases issue.extra@.len() - i,
    {
        let ghost before = fields.deep_view();
        let e = &issue.extra.entries[i];
        fields.push((e.0.clone(), FieldValue::Text(e.1.clone())));
        assert(more[i as int] == (e.0@, FieldValueView::Text(e.1@)));
        assert(fields.deep_view() =~= before.push(more[i as int]));
        assert(own + more.take(i + 1) =~= before.push(more[i as int]));
        i += 1;
    }
    assert(more.take(i as int) =~= more);
    assert(fields.deep_view() =~= issue_fields(issue.deep_view()));
    let mut out: Vec<(String, TemplateValue)> = Vec::new();
    out.push(("issue".to_owned(), TemplateValue::Object(fields)));
    if let Some(n) = attempt {
        out.push(("attempt".to_owned(), TemplateValue::Number(n as i64)));
    }
    if let Some(w) = workspace {
        out.push(("workspace".to_owned(), TemplateValue::Text(w.to_owned())));
    }
    if let Some(b) = base_branch {
        out.push(("base_branch".to_owned(), TemplateValue::Text(b.to_owned())));
    }
    assert(out.deep_view() =~= prompt_globals(
        issue.deep_view(),
        attempt,
        opt_str(workspace),
        opt_str(base_branch),
    ));
    out
}

/// What the message for a failed step starts with.
pub open spec fn stage_prefix(stage: RenderStage) -> Seq<char> {
    match stage {
        RenderStage::Build => "failed to build liquid parser: "@,
        RenderStage::Parse => "failed to parse template: "@,
        RenderStage::Render => "failed to render template: "@,
    }
}

/// A prompt result is what a rendering outcome comes to.
pub open spec fn is_prompt_of(r: Result<String>, outcome: RenderOutcome) -> bool {
    match (r, outcome) {
        (Ok(s), Ok(t)) => s@ == t,
        (Err(e), Err((stage, m))) => e is Prompt && e.detail() == stage_prefix(stage) + m,
        _ => false,
    }
}

/// The prompt, or the error, that a rendering outcome comes to.
pub fn prompt_result(outcome: std::result::Result<String, (RenderStage, String)>) -> (r: Result<String>)
    ensures
        is_prompt_of(r, outcome_view(outcome)),
{
    match outcome {
        Ok(s) => Ok(s),
        Err((RenderStage::Build, m)) => Err(
            Error::Prompt(cat2("failed to build liquid parser: ", m.as_str())),
        ),
        Err((RenderStage::Parse, m)) => Err(
            Error::Prompt(cat2("failed to parse template: ", m.as_str())),
        ),
        Err((RenderStage::Render, m)) => Err(
            Error::Prompt(cat2("failed to render template: ", m.as_str())),
        ),
    }
}

/// What is said of a template that could break off.
pub open spec fn unsteady_message() -> Seq<char> {
    "template holds a number, filter or tag that cannot be rendered reliably"@
}

/// `r` is what rendering `template` for the issue can give: an error where it
/// could break off.
pub open spec fn can_render(
    template: Seq<char>,
    globals: Seq<(Seq<char>, TemplateValueView)>,
    r: Result<String>,
) -> bool {
    if is_steady(template, globals) {
        exists|outcome: RenderOutcome|
            #[trigger] liquid_outcome(template, globals, outcome) && is_prompt_of(r, outcome)
    } else {
        r matches Err(e) && e is Prompt && e.detail() == unsteady_message()
    }
}

/// Render the prompt template with issue data.
pub fn build_prompt(template_str: &str, issue: &Issue, attempt: Option<u32>) -> (r: Result<String>)
    ensures
        can_render(template_str@, prompt_globals(issue.deep_view(), attempt, None, None), r),
{
    build_prompt_full(template_str, issue, attempt, None, None)
}

/// Render a template with issue data and an optional workspace path.
pub fn build_prompt_with_workspace(
    template_str: &str,
    issue: &Issue,
    attempt: Option<u32>,
    workspace: Option<&str>,
) -> (r: Result<String>)
    ensures
        can_render(
            template_str@,
            prompt_globals(issue.deep_view(), attempt, opt_str(workspace), None),
            r,
        ),
{
    build_prompt_full(template_str, issue, attempt, workspace, None)
}

/// Render a template with issue data, workspace path, and base branch.
pub fn build_prompt_full(
    template_str: &str,
    issue: &Issue,
    attempt: Option<u32>,
    workspace: Option<&str>,
    base_branch: Option<&str>,
) -> (r: Result<String>)
    ensures
        can_render(
            template_str@,
            prompt_globals(issue.deep_view(), attempt, opt_str(workspace), opt_str(base_branch)),
            r,
        ),
{
    let globals = globals_for(issue, attempt, workspace, base_branch);
    if !check_template(template_str, &globals) {
        return Err(
            Error::Prompt(
                "template holds a number, filter or tag that cannot be rendered reliably".to_owned(),
            ),
        );
    }
    let outcome = render(template_str, &globals);
    let ghost seen = outcome_view(outcome);
    let r = prompt_result(outcome);
    assert(liquid_outcome(template_str@, globals.deep_view(), seen) && is_prompt_of(r, seen));
    r
}

/// The directory that a rendered subdirectory gives: the workspace itself where
/// it is blank or could not be rendered.
pub open spec fn agent_dir_of(workspace_dir: Seq<char>, rendered: Result<String>) -> Seq<char> {
    match rendered {
        Ok(s) => if trimmed(s@).len() == 0 {
            workspace_dir
        } else {
            joined_path(workspace_dir, trimmed(s@))
        },
        Err(_) => workspace_dir,
    }
}

/// The directory that a rendered subdirectory gives.
pub fn agent_dir(workspace_dir: &str, rendered: &Result<String>) -> (r: String)
    ensures
        r@ == agent_dir_of(workspace_dir@, *rendered),
{
    match rendered {
        Ok(s) => {
            let sub = trim(s.as_str());
            if sub.as_str().is_empty() {
                workspace_dir.to_owned()
            } else {
                join_path(workspace_dir, sub.as_str())
            }
        },
        Err(_) => workspace_dir.to_owned(),
    }
}

/// Resolve the agent working directory from a workspace dir and subdirectory template.
///
/// Where there is no template, or it renders to white space or not at all, this
/// is `workspace_dir`. Otherwise, it is what the rendered template leads to from
/// `workspace_dir`; a template can be an expression such as
/// `{% if issue.title contains '[iOS]' %}mail-ios{% endif %}`.
pub fn resolve_agent_dir(
    workspace_dir: &str,
    subdirectory_template: Option<&str>,
    issue: &Issue,
) -> (r: String)
    ensures
        match subdirectory_template {
            Some(t) => if t@.len() == 0 {
                r@ == workspace_dir@
            } else {
                exists|p: Result<String>| #[trigger]
                    can_render(t@, prompt_globals(issue.deep_view(), None, None, None), p) && r@
                        == agent_dir_of(workspace_dir@, p)
            },
            None => r@ == workspace_dir@,
        },
{
    match subdirectory_template {
        Some(t) => {
            if t.is_empty() {
                return workspace_dir.to_owned();
            }
            let rendered = build_prompt(t, issue, None);
            agent_dir(workspace_dir, &rendered)
        },
        None => workspace_dir.to_owned(),
    }
}

/// A comment is shown with its author, its time where that is known, and its body.
pub proof fn law_comment_shown(c: CommentView)
    ensures
        c.created_at matches Some(t) ==> comment_text(c) == "**"@ + c.author + "**"@ + (" ("@ + t
            + ")"@) + ": "@ + c.body,
        c.created_at is None ==> comment_text(c) == "**"@ + c.author + "**"@ + ": "@ + c.body,
{
    if c.created_at is None {
        assert("**"@ + c.author + "**"@ + Seq::<char>::empty() =~= "**"@ + c.author + "**"@);
    }
}

/// Comments are shown one after the other, with a blank line between each two.
pub proof fn law_comments_shown(cs: Seq<CommentView>, c: CommentView)
    ensures
        comments_text(seq![]).len() == 0,
        comments_text(seq![c]) == comment_text(c),
        cs.len() > 0 ==> comments_text(cs.push(c)) == comments_text(cs) + "\n\n"@ + comment_text(c),
{
    let show = |x: CommentView| comment_text(x);
    let empty = Seq::<CommentView>::empty();
    assert(empty.map_values(show) =~= seq![]);
    assert(seq![c].map_values(show) =~= seq![comment_text(c)]);
    let all = cs.push(c).map_values(show);
    assert(all.drop_last() =~= cs.map_values(show));
}

/// Under `issue` a template finds each field of the issue by its name, and each extra
/// property by its own, as well as all of them together.
pub proof fn law_template_finds_the_issue(issue: IssueView)
    ensures
        ({
            let f = issue_fields(issue);
            &&& f.contains(("identifier"@, FieldValueView::Text(issue.identifier)))
            &&& f.contains(("safe_identifier"@, FieldValueView::Text(sanitized(issue.identifier))))
            &&& f.contains(("title"@, FieldValueView::Text(issue.title)))
            &&& f.contains(("status"@, FieldValueView::Text(issue.status)))
            &&& issue.description matches Some(t) ==> f.contains(
                ("description"@, FieldValueView::Text(t)),
            )
            &&& issue.priority matches Some(t) ==> f.contains(("priority"@, FieldValueView::Text(t)))
            &&& issue.url matches Some(t) ==> f.contains(("url"@, FieldValueView::Text(t)))
            &&& issue.description is None ==> f.contains(
                ("description"@, FieldValueView::Text(seq![])),
            )
            &&& issue.priority is None ==> f.contains(("priority"@, FieldValueView::Text(seq![])))
            &&& issue.url is None ==> f.contains(("url"@, FieldValueView::Text(seq![])))
            &&& f.contains(("comments"@, FieldValueView::Text(comments_text(issue.comments))))
            &&& f.contains(("extra"@, FieldValueView::Object(issue.extra)))
            &&& forall|i: int|
                0 <= i < issue.extra.len() ==> f.contains(
                    ((#[trigger] issue.extra[i]).0, FieldValueView::Text(issue.extra[i].1)),
                )
            &&& f.len() == 9 + issue.extra.len()
        }),
{
    let f = issue_fields(issue);
    assert(f[0] == ("identifier"@, FieldValueView::Text(issue.identifier)));
    assert(f[1] == ("safe_identifier"@, FieldValueView::Text(sanitized(issue.identifier))));
    assert(f[2] == ("title"@, FieldValueView::Text(issue.title)));
    assert(f[3] == ("description"@, FieldValueView::Text(or_empty(issue.description))));
    assert(f[4] == ("status"@, FieldValueView::Text(issue.status)));
    assert(f[5] == ("priority"@, FieldValueView::Text(or_empty(issue.priority))));
    assert(f[6] == ("url"@, FieldValueView::Text(or_empty(issue.url))));
    assert(f[7] == ("comments"@, FieldValueView::Text(comments_text(issue.comments))));
    assert(f[8] == ("extra"@, FieldValueView::Object(issue.extra)));
    assert forall|i: int| 0 <= i < issue.extra.len() implies f.contains(
        ((#[trigger] issue.extra[i]).0, FieldValueView::Text(issue.extra[i].1)),
    ) by {
        assert(f[9 + i] == (issue.extra[i].0, FieldValueView::Text(issue.extra[i].1)));
    }
}

/// A template finds the issue, and the attempt, the workspace and the base branch
/// exactly where they are given.
pub proof fn law_template_finds_what_is_given(
    issue: IssueView,
    attempt: Option<u32>,
    workspace: Option<Seq<char>>,
    base_branch: Option<Seq<char>>,
)
    ensures
        ({
            let g = prompt_globals(issue, attempt, workspace, base_branch);
            &&& g.contains(("issue"@, TemplateValueView::Object(issue_fields(issue))))
            &&& attempt matches Some(n) ==> g.contains(
                ("attempt"@, TemplateValueView::Number(n as i64)),
            )
            &&& workspace matches Some(w) ==> g.contains(("workspace"@, TemplateValueView::Text(w)))
            &&& base_branch matches Some(b) ==> g.contains(
                ("base_branch"@, TemplateValueView::Text(b)),
            )
            &&& g.len() == 1 + (if attempt is Some {
                1int
            } else {
                0
            }) + (if workspace is Some {
                1int
            } else {
                0
            }) + (if base_branch is Some {
                1int
            } else {
                0
            })
        }),
{
    let g = prompt_globals(issue, attempt, workspace, base_branch);
    assert(g[0] == ("issue"@, TemplateValueView::Object(issue_fields(issue))));
    let k: int = if attempt is Some {
        2
    } else {
        1
    };
    if let Some(n) = attempt {
        assert(g[1] == ("attempt"@, TemplateValueView::Number(n as i64)));
    }
    if let Some(w) = workspace {
        assert(g[k] == ("workspace"@, TemplateValueView::Text(w)));
    }
    if let Some(b) = base_branch {
        assert(g[g.len() - 1] == ("base_branch"@, TemplateValueView::Text(b)));
    }
}

/// A template that renders gives its text; one that fails gives an error that names the
/// step at which it failed.
pub proof fn law_prompt_is_the_rendering(r: Result<String>, text: Seq<char>, stage: RenderStage)
    ensures
        is_prompt_of(r, Ok(text)) <==> r is Ok && r->Ok_0@ == text,
        is_prompt_of(r, Err((stage, text))) ==> r is Err && r->Err_0 is Prompt,
        is_prompt_of(r, Err((RenderStage::Build, text))) ==> r->Err_0.detail()
            == "failed to build liquid parser: "@ + text,
        is_prompt_of(r, Err((RenderStage::Parse, text))) ==> r->Err_0.detail()
            == "failed to parse template: "@ + text,
        is_prompt_of(r, Err((RenderStage::Render, text))) ==> r->Err_0.detail()
            == "failed to render template: "@ + text,
{
}

/// Agents work in the subdirectory that was rendered, without the white space around
/// it, and in the workspace itself where that is blank or could not be rendered.
pub proof fn law_agent_works_in_rendered_directory(
    workspace_dir: Seq<char>,
    rendered: Result<String>,
)
    ensures
        rendered is Ok && trimmed(rendered->Ok_0@).len() > 0 ==> agent_dir_of(workspace_dir, rendered)
            == joined_path(workspace_dir, trimmed(rendered->Ok_0@)),
        rendered is Ok && trimmed(rendered->Ok_0@).len() == 0 ==> agent_dir_of(
            workspace_dir,
            rendered,
        ) == workspace_dir,
        rendered is Err ==> agent_dir_of(workspace_dir, rendered) == workspace_dir,
{
}

} // verus!
