//! Issues and comments from Notion.
use vstd::prelude::*;
use vstd::string::*;
use crate::collections::{law_put_stores, put, StringMap};
use crate::config::schema::{TrackerConfig, TrackerConfigView};
use crate::domain::issue::{BlockerView, Comment, CommentView, Issue, IssueView};
use crate::error::{Error, Result};
use crate::json::{json_parsed, parse, Json, JsonView};
use crate::pattern::{
    captures, lowercase, regex_captures, regex_replaced, replace_all,
};
use crate::text::{
    cat2, cat3, join, joined, replace, replaced, split_whitespace, str_eq, trim, trimmed, views, words,
};

verus! {

/// Reads what Notion answers, by a configuration.
#[derive(Debug)]
pub struct NotionTracker {
    pub config: TrackerConfig,
}

/// A text in single quotes.
pub open spec fn quoted(s: Seq<char>) -> Seq<char> {
    "'"@ + s + "'"@
}

/// The query for the issues with given statuses.
pub open spec fn status_query(
    config: TrackerConfigView,
    source: Seq<char>,
    statuses: Seq<Seq<char>>,
) -> Seq<char> {
    let list = joined(statuses.map_values(|s: Seq<char>| quoted(s)), ", "@);
    let base = "SELECT * FROM \""@ + source + "\" WHERE \""@ + config.property_status + "\" IN ("@
        + list + ")"@;
    let assigned = match config.assignee_user_id {
        Some(user) => base + (" AND \""@ + config.property_assignee + "\" LIKE '%"@ + user + "%'"@),
        None => base,
    };
    match config.skip_if_set {
        Some(property) => assigned + (" AND \""@ + property + "\" IS NULL"@),
        None => assigned,
    }
}

/// The first text block of an answer from position `i` on that is JSON.
pub open spec fn first_json(blocks: Seq<JsonView>, i: int) -> Option<JsonView>
    decreases blocks.len() - i,
{
    if 0 <= i < blocks.len() {
        match blocks[i].str_at("text"@) {
            Some(text) => match json_parsed(text) {
                Ok(v) => Some(v),
                Err(_) => first_json(blocks, i + 1),
            },
            None => first_json(blocks, i + 1),
        }
    } else {
        None
    }
}

/// What an answer of a tool holds: its first text block that is JSON, or else
/// the answer itself.
pub open spec fn unwrapped(result: JsonView) -> JsonView {
    match result.array_at("content"@) {
        Some(blocks) => match first_json(blocks, 0) {
            Some(v) => v,
            None => result,
        },
        None => result,
    }
}

/// The plain texts of rich text, one after the other.
pub open spec fn plain_texts(items: Seq<JsonView>) -> Seq<char>
    decreases items.len(),
{
    if items.len() == 0 {
        seq![]
    } else {
        let before = plain_texts(items.drop_last());
        match items.last().str_at("plain_text"@) {
            Some(t) => before + t,
            None => before,
        }
    }
}

/// The rich text under a key of a property, where it is not empty.
pub open spec fn rich_text(prop: JsonView, key: Seq<char>) -> Option<Seq<char>> {
    match prop.array_at(key) {
        Some(items) => if plain_texts(items).len() > 0 {
            Some(plain_texts(items))
        } else {
            None
        },
        None => None,
    }
}

/// The name of the option under a key of a property.
pub open spec fn option_name(prop: JsonView, key: Seq<char>) -> Option<Seq<char>> {
    match prop.get(key) {
        Some(v) => v.str_at("name"@),
        None => None,
    }
}

/// What a property reads as: a string as it is, rich text, a title, a select or
/// status option by its name, a number as it prints.
pub open spec fn property_text(prop: JsonView) -> Option<Seq<char>> {
    if prop.as_str() is Some {
        prop.as_str()
    } else if rich_text(prop, "rich_text"@) is Some {
        rich_text(prop, "rich_text"@)
    } else if rich_text(prop, "title"@) is Some {
        rich_text(prop, "title"@)
    } else if option_name(prop, "select"@) is Some {
        option_name(prop, "select"@)
    } else if option_name(prop, "status"@) is Some {
        option_name(prop, "status"@)
    } else {
        match prop {
            JsonView::Number(n) => n.shown,
            _ => None,
        }
    }
}

/// What a property of a row reads as.
pub open spec fn property_of(props: JsonView, name: Seq<char>) -> Option<Seq<char>> {
    match props.get(name) {
        Some(prop) => property_text(prop),
        None => None,
    }
}

/// The properties of a row beyond the known ones, by their names in lower case.
pub open spec fn extra_properties(
    props: JsonView,
    entries: Seq<(Seq<char>, JsonView)>,
    known: Seq<Seq<char>>,
) -> Seq<(Seq<char>, Seq<char>)>
    decreases entries.len(),
{
    if entries.len() == 0 {
        seq![]
    } else {
        let before = extra_properties(props, entries.drop_last(), known);
        let key = entries.last().0;
        match property_of(props, key) {
            Some(value) => if known.contains(key) {
                before
            } else {
                put(before, lowercase(key), value)
            },
            None => before,
        }
    }
}

/// The properties that become fields of an issue.
pub open spec fn known_properties(config: TrackerConfigView) -> Seq<Seq<char>> {
    seq![
        config.property_id,
        config.property_title,
        config.property_status,
        config.property_priority,
        config.property_description,
    ]
}

/// The issue that a row describes; none for a row without an identifier.
pub open spec fn issue_of_row(config: TrackerConfigView, row: JsonView) -> Option<IssueView> {
    let props = match row.get("properties"@) {
        Some(p) => p,
        None => row,
    };
    match property_of(props, config.property_id) {
        Some(raw) => Some(
            IssueView {
                identifier: match config.id_prefix {
                    Some(prefix) => prefix + raw,
                    None => raw,
                },
                title: match property_of(props, config.property_title) {
                    Some(t) => t,
                    None => seq![],
                },
                description: property_of(props, config.property_description),
                status: match property_of(props, config.property_status) {
                    Some(t) => t,
                    None => seq![],
                },
                priority: property_of(props, config.property_priority),
                url: row.str_at("url"@),
                notion_page_id: row.str_at("id"@),
                blockers: Seq::<BlockerView>::empty(),
                source: "notion"@,
                extra: match props.as_object() {
                    Some(entries) => extra_properties(props, entries, known_properties(config)),
                    None => seq![],
                },
                comments: Seq::<CommentView>::empty(),
                workflow_id: seq![],
            },
        ),
        None => None,
    }
}

/// The issues that rows describe, in order.
pub open spec fn issues_of_rows(config: TrackerConfigView, rows: Seq<JsonView>) -> Seq<IssueView>
    decreases rows.len(),
{
    if rows.len() == 0 {
        seq![]
    } else {
        let before = issues_of_rows(config, rows.drop_last());
        match issue_of_row(config, rows.last()) {
            Some(i) => before.push(i),
            None => before,
        }
    }
}

/// The issues that data describe.
pub open spec fn issues_of_data(config: TrackerConfigView, data: JsonView) -> Seq<IssueView> {
    match data.array_at("results"@) {
        Some(rows) => issues_of_rows(config, rows),
        None => seq![],
    }
}

fn opt_text(s: Option<&str>) -> (r: Option<String>)
    ensures
        match (r, s) {
            (Some(a), Some(b)) => a@ == b@,
            (None, None) => true,
            _ => false,
        },
{
    match s {
        Some(t) => Some(t.to_owned()),
        None => None,
    }
}

fn read_rich_text(prop: &Json, key: &str) -> (r: Option<String>)
    ensures
        r.deep_view() == rich_text(prop.deep_view(), key@),
{
    match prop.array_at(key) {
        Some(items) => {
            let ghost vs = items.deep_view();
            let mut out = String::new();
            let mut i: usize = 0;
            while i < items.len()
                invariant
                    i <= items@.len(),
                    vs == items.deep_view(),
                    out@ == plain_texts(vs.take(i as int)),
                decreases items@.len() - i,
            {
                assert(vs.take(i + 1).drop_last() =~= vs.take(i as int));
                assert(vs[i as int] == items@[i as int].deep_view());
                if let Some(t) = items[i].str_at("plain_text") {
                    out.append(t);
                }
                i += 1;
            }
            assert(vs.take(i as int) =~= vs);
            if out.as_str().is_empty() {
                None
            } else {
                Some(out)
            }
        },
        None => None,
    }
}

fn read_option(prop: &Json, key: &str) -> (r: Option<String>)
    ensures
        r.deep_view() == option_name(prop.deep_view(), key@),
{
    match prop.get(key) {
        Some(v) => opt_text(v.str_at("name")),
        None => None,
    }
}

fn read_property(prop: &Json) -> (r: Option<String>)
    ensures
        r.deep_view() == property_text(prop.deep_view()),
{
    if let Some(s) = prop.as_str() {
        return Some(s.to_owned());
    }
    if let Some(t) = read_rich_text(prop, "rich_text") {
        return Some(t);
    }
    if let Some(t) = read_rich_text(prop, "title") {
        return Some(t);
    }
    if let Some(t) = read_option(prop, "select") {
        return Some(t);
    }
    if let Some(t) = read_option(prop, "status") {
        return Some(t);
    }
    match prop {
        Json::Number(n) => n.shown.clone(),
        _ => None,
    }
}

impl NotionTracker {
    /// A reader for the configuration.
    pub fn new(config: TrackerConfig) -> (r: Self)
        ensures
            r.config == config,
    {
        NotionTracker { config }
    }

    /// The program and the arguments that start the MCP server.
    pub fn server_command(&self) -> (r: Result<(String, Vec<String>)>)
        ensures
            match r {
                Ok((program, args)) => words(self.config.mcp_command@).len() > 0 && words(
                    self.config.mcp_command@,
                ) == seq![program@] + views(args@),
                Err(e) => words(self.config.mcp_command@).len() == 0 && e is Tracker && e.detail()
                    == "empty mcp_command"@,
            },
    {
        let mut parts = split_whitespace(self.config.mcp_command.as_str());
        let ghost all = views(parts@);
        if parts.len() == 0 {
            return Err(Error::Tracker("empty mcp_command".to_owned()));
        }
        let program = parts.remove(0);
        assert(all =~= seq![program@] + views(parts@));
        Ok((program, parts))
    }

    /// Get the data source URL for the configured database.
    pub fn data_source_url(&self) -> (r: String)
        ensures
            r@ == "collection://"@ + self.config.database_id@,
    {
        cat2("collection://", self.config.database_id.as_str())
    }

    /// Build SQL query for fetching issues with given statuses.
    pub fn build_status_query(&self, ds_id: &str, statuses: &Vec<String>) -> (r: String)
        ensures
            r@ == status_query(self.config.deep_view(), ds_id@, statuses.deep_view()),
    {
        let ghost want = statuses.deep_view().map_values(|s: Seq<char>| quoted(s));
        let mut list: Vec<String> = Vec::new();
        let mut i: usize = 0;
        while i < statuses.len()
            invariant
                i <= statuses@.len(),
                want == statuses.deep_view().map_values(|s: Seq<char>| quoted(s)),
                views(list@) == want.take(i as int),
            decreases statuses@.len() - i,
        {
            let ghost before = views(list@);
            let q = cat3("'", statuses[i].as_str(), "'");
            assert(want[i as int] == q@);
            list.push(q);
            assert(views(list@) =~= before.push(want[i as int]));
            assert(want.take(i + 1) =~= before.push(want[i as int]));
            i += 1;
        }
        assert(want.take(i as int) =~= want);
        let status_list = join(&list, ", ");
        let mut query = "SELECT * FROM \"".to_owned();
        query.append(ds_id);
        query.append("\" WHERE \"");
        query.append(self.config.property_status.as_str());
        query.append("\" IN (");
        query.append(status_list.as_str());
        query.append(")");
        if let Some(user) = &self.config.assignee_user_id {
            let mut more = " AND \"".to_owned();
            more.append(self.config.property_assignee.as_str());
            more.append("\" LIKE '%");
            more.append(user.as_str());
            more.append("%'");
            query.append(more.as_str());
        }
        if let Some(property) = &self.config.skip_if_set {
            let more = cat3(" AND \"", property.as_str(), "\" IS NULL");
            query.append(more.as_str());
        }
        query
    }

    /// Unwrap the MCP tool response to get the inner data.
    /// MCP tools return `{"content": [{"type":"text","text":"{...}"}]}`.
    pub fn unwrap_tool_result(result: &Json) -> (r: Json)
        ensures
            r.deep_view() == unwrapped(result.deep_view()),
    {
        if let Some(blocks) = result.array_at("content") {
            let ghost bs = blocks.deep_view();
            let mut i: usize = 0;
            while i < blocks.len()
                invariant
                    i <= blocks@.len(),
                    bs == blocks.deep_view(),
                    result.deep_view().array_at("content"@) == Some(bs),
                    first_json(bs, 0) == first_json(bs, i as int),
                decreases blocks@.len() - i,
            {
                assert(bs[i as int] == blocks@[i as int].deep_view());
                if let Some(text) = blocks[i].str_at("text") {
                    if let Ok(v) = parse(text) {
                        return v;
                    }
                }
                i += 1;
            }
        }
        result.copy()
    }

    /// What a property of a row reads as.
    pub fn extract_property(&self, props: &Json, name: &str) -> (r: Option<String>)
        ensures
            r.deep_view() == property_of(props.deep_view(), name@),
    {
        match props.get(name) {
            Some(prop) => read_property(prop),
            None => None,
        }
    }

    /// The properties of a row beyond the known ones, by their names in lower
    /// case, so that templates can use `{{ issue.platform }}`.
    pub fn extract_extra_properties(&self, props: &Json, known: &Vec<String>) -> (r: StringMap<String>)
        ensures
            r.wf(),
            r.deep_view() == match props.deep_view().as_object() {
                Some(entries) => extra_properties(props.deep_view(), entries, known.deep_view()),
                None => Seq::<(Seq<char>, Seq<char>)>::empty(),
            },
    {
        let mut extra: StringMap<String> = StringMap::new();
        assert(extra.deep_view() =~= Seq::<(Seq<char>, Seq<char>)>::empty());
        if let Some(entries) = props.as_object() {
            let ghost es = entries.deep_view();
            let ghost ks = known.deep_view();
            let mut i: usize = 0;
            while i < entries.len()
                invariant
                    i <= entries@.len(),
                    es == entries.deep_view(),
                    ks == known.deep_view(),
                    extra.wf(),
                    extra.deep_view() == extra_properties(props.deep_view(), es.take(i as int), ks),
                decreases entries@.len() - i,
            {
                assert(es.take(i + 1).drop_last() =~= es.take(i as int));
                assert(es.take(i + 1).last() == es[i as int]);
                let key = entries[i].0.as_str();
                assert(es[i as int].0 == key@);
                if let Some(value) = self.extract_property(props, key) {
                    if !lists(known, key) {
                        extra.store(key.to_lowercase(), value);
                    }
                }
                i += 1;
            }
            assert(es.take(i as int) =~= es);
        }
        extra
    }

    /// The issue that a row describes; none for a row without an identifier.
    pub fn parse_issue_row(&self, row: &Json) -> (r: Option<Issue>)
        ensures
            r.deep_view() == issue_of_row(self.config.deep_view(), row.deep_view()),
            r is Some ==> r->0.extra.wf(),
    {
        let props = match row.get("properties") {
            Some(p) => p,
            None => row,
        };
        let raw_id = match self.extract_property(props, self.config.property_id.as_str()) {
            Some(id) => id,
            None => {
                return None;
            },
        };
        let identifier = match &self.config.id_prefix {
            Some(prefix) => cat2(prefix.as_str(), raw_id.as_str()),
            None => raw_id,
        };
        let title = match self.extract_property(props, self.config.property_title.as_str()) {
            Some(t) => t,
            None => String::new(),
        };
        let status = match self.extract_property(props, self.config.property_status.as_str()) {
            Some(t) => t,
            None => String::new(),
        };
        let priority = self.extract_property(props, self.config.property_priority.as_str());
        let description = self.extract_property(props, self.config.property_description.as_str());
        let mut known: Vec<String> = Vec::new();
        known.push(self.config.property_id.clone());
        known.push(self.config.property_title.clone());
        known.push(self.config.property_status.clone());
        known.push(self.config.property_priority.clone());
        known.push(self.config.property_description.clone());
        assert(known.deep_view() =~= known_properties(self.config.deep_view()));
        let extra = self.extract_extra_properties(props, &known);
        let issue = Issue {
            identifier,
            title,
            description,
            status,
            priority,
            url: opt_text(row.str_at("url")),
            notion_page_id: opt_text(row.str_at("id")),
            blockers: Vec::new(),
            source: "notion".to_owned(),
            extra,
            comments: Vec::new(),
            workflow_id: String::new(),
        };
        assert(issue.blockers.deep_view() =~= Seq::<BlockerView>::empty());
        assert(issue.comments.deep_view() =~= Seq::<CommentView>::empty());
        Some(issue)
    }

    /// The issues that data describe.
    pub fn read_issues(&self, data: &Json) -> (r: Vec<Issue>)
        ensures
            r.deep_view() == issues_of_data(self.config.deep_view(), data.deep_view()),
    {
        let mut issues: Vec<Issue> = Vec::new();
        let ghost cfg = self.config.deep_view();
        assert(issues.deep_view() =~= Seq::<IssueView>::empty());
        if let Some(rows) = data.array_at("results") {
            let ghost rs = rows.deep_view();
            let mut i: usize = 0;
            while i < rows.len()
                invariant
                    i <= rows@.len(),
                    rs == rows.deep_view(),
                    cfg == self.config.deep_view(),
                    issues.deep_view() == issues_of_rows(cfg, rs.take(i as int)),
                decreases rows@.len() - i,
            {
                assert(rs.take(i + 1).drop_last() =~= rs.take(i as int));
                assert(rs[i as int] == rows@[i as int].deep_view());
                let ghost before = issues.deep_view();
                if let Some(issue) = self.parse_issue_row(&rows[i]) {
                    let ghost v = issue.deep_view();
                    issues.push(issue);
                    assert(issues.deep_view() =~= before.push(v));
                }
                i += 1;
            }
            assert(rs.take(i as int) =~= rs);
        }
        issues
    }

    /// Extract Issue structs from a Notion query result.
    pub fn extract_issues(&self, result: &Json) -> (r: Vec<Issue>)
        ensures
            r.deep_view() == issues_of_data(
                self.config.deep_view(),
                unwrapped(result.deep_view()),
            ),
    {
        let data = Self::unwrap_tool_result(result);
        self.read_issues(&data)
    }
}

fn lists(known: &Vec<String>, key: &str) -> (r: bool)
    ensures
        r == known.deep_view().contains(key@),
{
    let ghost ks = known.deep_view();
    let mut i: usize = 0;
    while i < known.len()
        invariant
            i <= known@.len(),
            ks == known.deep_view(),
            forall|k: int| 0 <= k < i ==> #[trigger] ks[k] != key@,
        decreases known@.len() - i,
    {
        assert(ks[i as int] == known@[i as int]@);
        if str_eq(known[i].as_str(), key) {
            assert(ks.contains(key@));
            return true;
        }
        i += 1;
    }
    false
}

/// The text of an answer: its own, or that of its first text block.
pub open spec fn answer_text(result: JsonView) -> Option<Seq<char>> {
    match result.str_at("text"@) {
        Some(t) => Some(t),
        None => match result.array_at("content"@) {
            Some(blocks) => first_text(blocks, 0),
            None => None,
        },
    }
}

/// The first text among blocks from position `i` on.
pub open spec fn first_text(blocks: Seq<JsonView>, i: int) -> Option<Seq<char>>
    decreases blocks.len() - i,
{
    if 0 <= i < blocks.len() {
        match blocks[i].str_at("text"@) {
            Some(t) => Some(t),
            None => first_text(blocks, i + 1),
        }
    } else {
        None
    }
}

/// The pattern of a comment: its attributes and its body, which can hold tags.
pub open spec fn comment_pattern() -> Seq<char> {
    r#"<comment\b([^>]*)>([\s\S]*?)</comment>"#@
}

/// The pattern of a comment's time.
pub open spec fn datetime_pattern() -> Seq<char> {
    r#"datetime="([^"]*)""#@
}

/// The pattern of a comment's author.
pub open spec fn user_pattern() -> Seq<char> {
    r#"user-url="user://([^"]*)""#@
}

/// The pattern of a tag.
pub open spec fn markup_pattern() -> Seq<char> {
    r"<[^>]+/?>"@
}

/// What group `g` of a match holds.
pub open spec fn group(found: Seq<Option<Seq<char>>>, g: int) -> Option<Seq<char>> {
    if 0 <= g < found.len() {
        found[g]
    } else {
        None
    }
}

/// What group 1 of the first match of a pattern holds.
pub open spec fn first_group(pattern: Seq<char>, text: Seq<char>) -> Option<Seq<char>> {
    match regex_captures(pattern, text) {
        Some(found) => if found.len() > 0 {
            group(found[0], 1)
        } else {
            None
        },
        None => None,
    }
}

/// The comment with a given author, time and body without tags; none where the
/// body is blank.
pub open spec fn comment_with(
    author: Option<Seq<char>>,
    created_at: Option<Seq<char>>,
    body: Seq<char>,
) -> Option<CommentView> {
    if trimmed(body).len() == 0 {
        None
    } else {
        Some(
            CommentView {
                author: match author {
                    Some(a) => a,
                    None => "Unknown"@,
                },
                body: trimmed(body),
                created_at,
            },
        )
    }
}

/// A body without its tags, `<br/>` as a line feed.
pub open spec fn plain_body(raw: Seq<char>) -> Seq<char> {
    let broken = replaced(raw, "<br/>"@, "\n"@);
    match regex_replaced(markup_pattern(), broken, ""@) {
        Some(t) => t,
        None => broken,
    }
}

/// The comment that a match of the comment pattern describes.
pub open spec fn comment_of(found: Seq<Option<Seq<char>>>) -> Option<CommentView> {
    match (group(found, 1), group(found, 2)) {
        (Some(attrs), Some(raw)) => comment_with(
            first_group(user_pattern(), attrs),
            first_group(datetime_pattern(), attrs),
            plain_body(raw),
        ),
        _ => None,
    }
}

/// The comments that matches of the comment pattern describe, in order.
pub open spec fn comments_of(found: Seq<Seq<Option<Seq<char>>>>) -> Seq<CommentView>
    decreases found.len(),
{
    if found.len() == 0 {
        seq![]
    } else {
        let before = comments_of(found.drop_last());
        match comment_of(found.last()) {
            Some(c) => before.push(c),
            None => before,
        }
    }
}

/// The comments in a text of comment elements.
pub open spec fn comments_in(xml: Seq<char>) -> Seq<CommentView> {
    match regex_captures(comment_pattern(), xml) {
        Some(found) => comments_of(found),
        None => seq![],
    }
}

/// The comment with a given author, time and body without tags.
pub fn make_comment(
    author: Option<String>,
    created_at: Option<String>,
    body: &str,
) -> (r: Option<Comment>)
    ensures
        r.deep_view() == comment_with(author.deep_view(), created_at.deep_view(), body@),
{
    let body = trim(body);
    if body.as_str().is_empty() {
        return None;
    }
    let author = match author {
        Some(a) => a,
        None => "Unknown".to_owned(),
    };
    Some(Comment { author, body, created_at })
}

/// What group 1 of the first match of a pattern holds.
pub(crate) fn find_first(pattern: &str, text: &str) -> (r: Option<String>)
    ensures
        r.deep_view() == first_group(pattern@, text@),
{
    match captures(pattern, text) {
        Some(found) => if found.len() > 0 && found[0].len() > 1 {
            assert(found.deep_view()[0] == found@[0].deep_view());
            found[0][1].clone()
        } else {
            None
        },
        None => None,
    }
}

fn strip_markup(raw: &str) -> (r: String)
    ensures
        r@ == plain_body(raw@),
{
    proof {
        reveal_strlit("<br/>");
    }
    let broken = replace(raw, "<br/>", "\n");
    match replace_all(r"<[^>]+/?>", broken.as_str(), "") {
        Some(t) => t,
        None => broken,
    }
}

fn read_comment(found: &Vec<Option<String>>) -> (r: Option<Comment>)
    ensures
        r.deep_view() == comment_of(found.deep_view()),
{
    if found.len() > 2 {
        if let (Some(attrs), Some(raw)) = (&found[1], &found[2]) {
            let created_at = find_first(r#"datetime="([^"]*)""#, attrs.as_str());
            let author = find_first(r#"user-url="user://([^"]*)""#, attrs.as_str());
            let body = strip_markup(raw.as_str());
            return make_comment(author, created_at, body.as_str());
        }
    }
    None
}

impl NotionTracker {
    /// Extract the raw text from an MCP tool response content block.
    pub fn extract_text(result: &Json) -> (r: Option<String>)
        ensures
            r.deep_view() == answer_text(result.deep_view()),
    {
        if let Some(t) = result.str_at("text") {
            return Some(t.to_owned());
        }
        if let Some(blocks) = result.array_at("content") {
            let ghost bs = blocks.deep_view();
            let mut i: usize = 0;
            while i < blocks.len()
                invariant
                    i <= blocks@.len(),
                    bs == blocks.deep_view(),
                    result.deep_view().str_at("text"@) is None,
                    result.deep_view().array_at("content"@) == Some(bs),
                    first_text(bs, 0) == first_text(bs, i as int),
                decreases blocks@.len() - i,
            {
                assert(bs[i as int] == blocks@[i as int].deep_view());
                if let Some(t) = blocks[i].str_at("text") {
                    return Some(t.to_owned());
                }
                i += 1;
            }
        }
        None
    }

    /// Parse comments from the Notion MCP `notion-get-comments` XML response:
    /// ```xml
    /// <discussions>
    ///   <discussion ...>
    ///     <comment user-url="user://uuid" datetime="...">body text</comment>
    ///   </discussion>
    /// </discussions>
    /// ```
    pub fn parse_comments(result: &Json) -> (r: Vec<Comment>)
        ensures
            r.deep_view() == match answer_text(result.deep_view()) {
                Some(xml) => comments_in(xml),
                None => Seq::<CommentView>::empty(),
            },
    {
        match Self::extract_text(result) {
            Some(xml) => Self::parse_comments_xml(xml.as_str()),
            None => {
                let r: Vec<Comment> = Vec::new();
                assert(r.deep_view() =~= Seq::<CommentView>::empty());
                r
            },
        }
    }

    /// The comments in a text of comment elements.
    pub fn parse_comments_xml(xml: &str) -> (r: Vec<Comment>)
        ensures
            r.deep_view() == comments_in(xml@),
    {
        let mut comments: Vec<Comment> = Vec::new();
        assert(comments.deep_view() =~= Seq::<CommentView>::empty());
        if let Some(found) = captures(r#"<comment\b([^>]*)>([\s\S]*?)</comment>"#, xml) {
            let ghost fs = found.deep_view();
            let mut i: usize = 0;
            while i < found.len()
                invariant
                    i <= found@.len(),
                    fs == found.deep_view(),
                    comments.deep_view() == comments_of(fs.take(i as int)),
                decreases found@.len() - i,
            {
                assert(fs.take(i + 1).drop_last() =~= fs.take(i as int));
                assert(fs[i as int] == found@[i as int].deep_view());
                let ghost before = comments.deep_view();
                if let Some(c) = read_comment(&found[i]) {
                    let ghost v = c.deep_view();
                    comments.push(c);
                    assert(comments.deep_view() =~= before.push(v));
                }
                i += 1;
            }
            assert(fs.take(i as int) =~= fs);
        }
        comments
    }
}

/// An object with one entry.
pub open spec fn object1(key: Seq<char>, value: JsonView) -> JsonView {
    JsonView::Object(seq![(key, value)])
}

fn make_object1(key: &str, value: Json) -> (r: Json)
    ensures
        r.deep_view() == object1(key@, value.deep_view()),
{
    let mut entries: Vec<(String, Json)> = Vec::new();
    entries.push((key.to_owned(), value));
    let r = Json::Object(entries);
    assert(r.deep_view()->Object_0 =~= object1(key@, value.deep_view())->Object_0);
    r
}

/// What the `notion-query-data-sources` tool is asked.
pub open spec fn query_request(source: Seq<char>, sql: Seq<char>) -> JsonView {
    object1(
        "data"@,
        JsonView::Object(
            seq![
                ("data_source_urls"@, JsonView::Array(seq![JsonView::Str(source)])),
                ("query"@, JsonView::Str(sql)),
            ],
        ),
    )
}

/// What the `notion-query-data-sources` tool is asked.
pub fn query_arguments(source: &str, sql: &str) -> (r: Json)
    ensures
        r.deep_view() == query_request(source@, sql@),
{
    let mut urls: Vec<Json> = Vec::new();
    urls.push(Json::string(source));
    let list = Json::Array(urls);
    assert(list.deep_view()->Array_0 =~= seq![JsonView::Str(source@)]);
    let mut entries: Vec<(String, Json)> = Vec::new();
    entries.push(("data_source_urls".to_owned(), list));
    entries.push(("query".to_owned(), Json::string(sql)));
    let data = Json::Object(entries);
    assert(data.deep_view()->Object_0 =~= seq![
        ("data_source_urls"@, JsonView::Array(seq![JsonView::Str(source@)])),
        ("query"@, JsonView::Str(sql@)),
    ]);
    make_object1("data", data)
}

/// What the `notion-fetch` tool is asked.
pub fn fetch_arguments(id: &str) -> (r: Json)
    ensures
        r.deep_view() == object1("url"@, JsonView::Str(id@)),
{
    make_object1("url", Json::string(id))
}

/// What the `notion-get-comments` tool is asked.
pub fn comments_arguments(page_id: &str) -> (r: Json)
    ensures
        r.deep_view() == object1("page_id"@, JsonView::Str(page_id@)),
{
    make_object1("page_id", Json::string(page_id))
}

/// The property of a row under a name: one of its own "properties", or of the row
/// itself where it has none.
pub open spec fn row_property(row: JsonView, name: Seq<char>) -> Option<JsonView> {
    match row.get("properties"@) {
        Some(props) => props.get(name),
        None => row.get(name),
    }
}

/// A property that is a text reads as that text, whatever the text.
pub proof fn law_text_property(prop: JsonView, text: Seq<char>)
    requires
        prop == JsonView::Str(text),
    ensures
        property_text(prop) == Some(text),
{
}

/// A property that is a number reads as the number prints.
pub proof fn law_number_property(prop: JsonView)
    requires
        prop is Number,
    ensures
        property_text(prop) == prop->Number_0.shown,
{
}

/// A property that is neither a text nor an object nor a number reads as nothing.
pub proof fn law_plain_property_unread(prop: JsonView)
    requires
        prop is Null || prop is Bool || prop is Array,
    ensures
        property_text(prop) is None,
{
}

/// A select property reads as the name of its option.
pub proof fn law_select_property(prop: JsonView, name: Seq<char>)
    requires
        prop.get("rich_text"@) is None,
        prop.get("title"@) is None,
        prop.get("select"@) is Some,
        prop.get("select"@)->0.get("name"@) == Some(JsonView::Str(name)),
    ensures
        property_text(prop) == Some(name),
{
}

/// A status property reads as the name of its option.
pub proof fn law_status_property(prop: JsonView, name: Seq<char>)
    requires
        prop.get("rich_text"@) is None,
        prop.get("title"@) is None,
        prop.get("select"@) is None,
        prop.get("status"@) is Some,
        prop.get("status"@)->0.get("name"@) == Some(JsonView::Str(name)),
    ensures
        property_text(prop) == Some(name),
{
}

/// A rich text property, and a title, read as its pieces one after the other; one
/// without text reads as nothing.
pub proof fn law_rich_property(prop: JsonView, items: Seq<JsonView>)
    requires
        prop.get("select"@) is None,
        prop.get("status"@) is None,
        prop.get("rich_text"@) == Some(JsonView::Array(items)) && prop.get("title"@) is None
            || prop.get("title"@) == Some(JsonView::Array(items)) && prop.get("rich_text"@) is None,
    ensures
        property_text(prop) == (if plain_texts(items).len() == 0 {
            None::<Seq<char>>
        } else {
            Some(plain_texts(items))
        }),
{
}

/// The text of rich text in two parts is the text of the first and then that of the
/// second; the text of one piece is its "plain_text", and a piece without one has
/// none.
pub proof fn law_rich_text_in_order(
    a: Seq<JsonView>,
    b: Seq<JsonView>,
    piece: JsonView,
    text: Seq<char>,
)
    ensures
        plain_texts(a + b) == plain_texts(a) + plain_texts(b),
        piece.get("plain_text"@) == Some(JsonView::Str(text)) ==> plain_texts(seq![piece]) == text,
        piece.get("plain_text"@) is None ==> plain_texts(seq![piece]).len() == 0,
    decreases b.len(),
{
    assert(seq![piece].drop_last() =~= seq![]);
    reveal_with_fuel(plain_texts, 2);
    if piece.get("plain_text"@) == Some(JsonView::Str(text)) {
        assert(plain_texts(seq![piece]) =~= text);
    }
    if b.len() > 0 {
        law_rich_text_in_order(a, b.drop_last(), piece, text);
        assert((a + b).drop_last() =~= a + b.drop_last());
        assert(plain_texts(a + b) =~= plain_texts(a) + plain_texts(b));
    } else {
        assert(a + b =~= a);
    }
}

/// The priority is that of the property configured for it, and of no other: it is
/// absent where the row has no such property, and otherwise what that property
/// reads as.
pub proof fn law_priority_from_its_property(config: TrackerConfigView, row: JsonView, name: Seq<char>)
    ensures
        issue_of_row(config, row) matches Some(i) ==> {
            let prop = row_property(row, config.property_priority);
            &&& prop is None ==> i.priority is None
            &&& prop == Some(JsonView::Str(name)) ==> i.priority == Some(name)
            &&& prop is Some && prop->0.get("rich_text"@) is None && prop->0.get("title"@) is None
                && prop->0.get("select"@) is Some && prop->0.get("select"@)->0.get("name"@) == Some(
                JsonView::Str(name),
            ) ==> i.priority == Some(name)
            &&& prop is Some && prop->0.get("rich_text"@) is None && prop->0.get("title"@) is None
                && prop->0.get("select"@) is None && prop->0.get("status"@) is Some
                && prop->0.get("status"@)->0.get("name"@) == Some(JsonView::Str(name))
                ==> i.priority == Some(name)
        },
{
}

/// Two rows with the same property under the name configured for the priority have
/// the same priority, however else they differ.
pub proof fn law_priority_depends_on_its_property(
    config: TrackerConfigView,
    row: JsonView,
    other: JsonView,
)
    requires
        issue_of_row(config, row) is Some,
        issue_of_row(config, other) is Some,
        row_property(row, config.property_priority) == row_property(
            other,
            config.property_priority,
        ),
    ensures
        issue_of_row(config, row)->0.priority == issue_of_row(config, other)->0.priority,
{
}

/// The status is that of the property configured for it, and of no other: empty
/// where the row has no such property, and otherwise what that property reads as.
pub proof fn law_status_from_its_property(config: TrackerConfigView, row: JsonView, name: Seq<char>)
    ensures
        issue_of_row(config, row) matches Some(i) ==> {
            let prop = row_property(row, config.property_status);
            &&& prop is None ==> i.status.len() == 0
            &&& prop == Some(JsonView::Str(name)) ==> i.status == name
            &&& prop is Some && prop->0.get("rich_text"@) is None && prop->0.get("title"@) is None
                && prop->0.get("select"@) is None && prop->0.get("status"@) is Some
                && prop->0.get("status"@)->0.get("name"@) == Some(JsonView::Str(name)) ==> i.status
                == name
            &&& forall|other: JsonView|
                issue_of_row(config, other) is Some && #[trigger] row_property(
                    other,
                    config.property_status,
                ) == prop ==> issue_of_row(config, other)->0.status == i.status
        },
{
}

/// The title is that of the property configured for it, and of no other: empty
/// where the row has no such property, and otherwise what that property reads as.
pub proof fn law_title_from_its_property(config: TrackerConfigView, row: JsonView, text: Seq<char>)
    ensures
        issue_of_row(config, row) matches Some(i) ==> {
            let prop = row_property(row, config.property_title);
            &&& prop is None ==> i.title.len() == 0
            &&& prop == Some(JsonView::Str(text)) ==> i.title == text
            &&& forall|other: JsonView|
                issue_of_row(config, other) is Some && #[trigger] row_property(
                    other,
                    config.property_title,
                ) == prop ==> issue_of_row(config, other)->0.title == i.title
        },
{
}

/// The description is that of the property configured for it, and of no other:
/// absent where the row has no such property, and otherwise what that property
/// reads as.
pub proof fn law_description_from_its_property(
    config: TrackerConfigView,
    row: JsonView,
    text: Seq<char>,
)
    ensures
        issue_of_row(config, row) matches Some(i) ==> {
            let prop = row_property(row, config.property_description);
            &&& prop is None ==> i.description is None
            &&& prop == Some(JsonView::Str(text)) ==> i.description == Some(text)
            &&& forall|other: JsonView|
                issue_of_row(config, other) is Some && #[trigger] row_property(
                    other,
                    config.property_description,
                ) == prop ==> issue_of_row(config, other)->0.description == i.description
        },
{
}

/// A row is an issue if and only if the property configured for the identifier reads
/// as something; the identifier is that, behind the configured prefix.
pub proof fn law_identifier_from_its_property(
    config: TrackerConfigView,
    row: JsonView,
    id: Seq<char>,
)
    ensures
        ({
            let prop = row_property(row, config.property_id);
            &&& prop is None ==> issue_of_row(config, row) is None
            &&& prop == Some(JsonView::Str(id)) ==> issue_of_row(config, row) is Some
                && issue_of_row(config, row)->0.identifier == (match config.id_prefix {
                Some(prefix) => prefix + id,
                None => id,
            })
            &&& prop is Some && prop->0 is Number ==> match prop->0->Number_0.shown {
                Some(shown) => issue_of_row(config, row) is Some && issue_of_row(
                    config,
                    row,
                )->0.identifier == (match config.id_prefix {
                    Some(prefix) => prefix + shown,
                    None => shown,
                }),
                None => issue_of_row(config, row) is None,
            }
            &&& forall|other: JsonView| #[trigger]
                row_property(other, config.property_id) == prop ==> {
                    &&& issue_of_row(config, other) is Some <==> issue_of_row(config, row) is Some
                    &&& issue_of_row(config, row) is Some ==> issue_of_row(
                        config,
                        other,
                    )->0.identifier == issue_of_row(config, row)->0.identifier
                }
        }),
{
}

/// What an issue has from the row itself: its link and its page. It comes from
/// Notion, belongs to no workflow yet, and has no blockers and no comments.
pub proof fn law_rest_of_an_issue(config: TrackerConfigView, row: JsonView, text: Seq<char>)
    ensures
        issue_of_row(config, row) matches Some(i) ==> {
            &&& row.get("url"@) == Some(JsonView::Str(text)) ==> i.url == Some(text)
            &&& row.get("url"@) is None ==> i.url is None
            &&& row.get("id"@) == Some(JsonView::Str(text)) ==> i.notion_page_id == Some(text)
            &&& row.get("id"@) is None ==> i.notion_page_id is None
            &&& i.source == "notion"@
            &&& i.workflow_id.len() == 0
            &&& i.blockers.len() == 0
            &&& i.comments.len() == 0
        },
{
}

/// Rows are read one by one and in order; those that are no issues leave nothing.
pub proof fn law_rows_read_in_order(config: TrackerConfigView, a: Seq<JsonView>, b: Seq<JsonView>)
    ensures
        issues_of_rows(config, a + b) == issues_of_rows(config, a) + issues_of_rows(config, b),
        a.len() == 1 ==> issues_of_rows(config, a) == (match issue_of_row(config, a[0]) {
            Some(i) => seq![i],
            None => seq![],
        }),
    decreases b.len(),
{
    if a.len() == 1 {
        assert(a.drop_last() =~= seq![]);
        reveal_with_fuel(issues_of_rows, 2);
        assert(a.last() == a[0]);
        assert(issues_of_rows(config, a) =~= (match issue_of_row(config, a[0]) {
            Some(i) => seq![i],
            None => seq![],
        }));
    }
    if b.len() > 0 {
        law_rows_read_in_order(config, a, b.drop_last());
        assert((a + b).drop_last() =~= a + b.drop_last());
        assert(issues_of_rows(config, a + b) =~= issues_of_rows(config, a) + issues_of_rows(
            config,
            b,
        ));
    } else {
        assert(a + b =~= a);
        assert(issues_of_rows(config, a) + issues_of_rows(config, b) =~= issues_of_rows(config, a));
    }
}

/// The rows of an answer are its "results"; without them there are no issues.
pub proof fn law_issues_from_results(config: TrackerConfigView, data: JsonView, rows: Seq<JsonView>)
    ensures
        data.get("results"@) == Some(JsonView::Array(rows)) ==> issues_of_data(config, data)
            == issues_of_rows(config, rows),
        !(data.get("results"@) is Some && data.get("results"@)->0 is Array) ==> issues_of_data(
            config,
            data,
        ).len() == 0,
{
}

/// Some property beyond the known ones has this name in lower case and this reading.
pub open spec fn is_other_property(
    props: JsonView,
    entries: Seq<(Seq<char>, JsonView)>,
    known: Seq<Seq<char>>,
    extra: (Seq<char>, Seq<char>),
) -> bool {
    exists|i: int|
        0 <= i < entries.len() && !known.contains((#[trigger] entries[i]).0) && lowercase(
            entries[i].0,
        ) == extra.0 && property_of(props, entries[i].0) == Some(extra.1)
}

/// No property that becomes a field of an issue is kept as an extra one, and what is
/// kept is what a property of the row reads as, under its name in lower case.
pub proof fn law_extras_are_other_properties(
    props: JsonView,
    entries: Seq<(Seq<char>, JsonView)>,
    known: Seq<Seq<char>>,
)
    ensures
        forall|k: int|
            0 <= k < extra_properties(props, entries, known).len() ==> is_other_property(
                props,
                entries,
                known,
                #[trigger] extra_properties(props, entries, known)[k],
            ),
    decreases entries.len(),
{
    if entries.len() > 0 {
        let before = entries.drop_last();
        law_extras_are_other_properties(props, before, known);
        let s = extra_properties(props, before, known);
        let all = extra_properties(props, entries, known);
        let last = entries.last().0;
        assert(entries[entries.len() - 1].0 == last);
        assert forall|k: int| 0 <= k < all.len() implies is_other_property(
            props,
            entries,
            known,
            #[trigger] all[k],
        ) by {
            if k < s.len() && all[k] == s[k] {
                let i = choose|i: int|
                    0 <= i < before.len() && !known.contains((#[trigger] before[i]).0) && lowercase(
                        before[i].0,
                    ) == s[k].0 && property_of(props, before[i].0) == Some(s[k].1);
                assert(entries[i] == before[i]);
            } else {
                law_put_stores(s, lowercase(last), property_of(props, last)->0);
                assert(all[k] == (lowercase(last), property_of(props, last)->0));
            }
        }
    }
}

/// Every property beyond the known ones that reads as something is kept.
pub proof fn law_extras_miss_none(
    props: JsonView,
    entries: Seq<(Seq<char>, JsonView)>,
    known: Seq<Seq<char>>,
    i: int,
)
    requires
        0 <= i < entries.len(),
        !known.contains(entries[i].0),
        property_of(props, entries[i].0) is Some,
    ensures
        exists|k: int|
            0 <= k < extra_properties(props, entries, known).len() && (#[trigger] extra_properties(
                props,
                entries,
                known,
            )[k]).0 == lowercase(entries[i].0),
    decreases entries.len(),
{
    let before = entries.drop_last();
    let s = extra_properties(props, before, known);
    let all = extra_properties(props, entries, known);
    let last = entries.last().0;
    if i < before.len() {
        assert(before[i] == entries[i]);
        law_extras_miss_none(props, before, known, i);
        let k = choose|k: int|
            0 <= k < s.len() && (#[trigger] s[k]).0 == lowercase(entries[i].0);
        if all != s {
            law_put_stores(s, lowercase(last), property_of(props, last)->0);
        }
        assert(all[k].0 == lowercase(entries[i].0));
    } else {
        law_put_stores(s, lowercase(last), property_of(props, last)->0);
    }
}

/// The properties that are no extra ones are the five that the configuration names.
pub proof fn law_known_properties_are_the_configured(config: TrackerConfigView, name: Seq<char>)
    ensures
        known_properties(config).contains(name) <==> name == config.property_id || name
            == config.property_title || name == config.property_status || name
            == config.property_priority || name == config.property_description,
{
    let k = known_properties(config);
    assert(k[0] == config.property_id && k[1] == config.property_title && k[2]
        == config.property_status && k[3] == config.property_priority && k[4]
        == config.property_description);
}

/// A query asks the given source for rows whose status is one of those listed, in
/// quotes; with an assignee it asks for theirs alone, and with a property to skip
/// by, only for rows where that is not set.
pub proof fn law_query_asks_for(
    config: TrackerConfigView,
    source: Seq<char>,
    statuses: Seq<Seq<char>>,
)
    ensures
        ({
            let list = joined(
                Seq::new(statuses.len(), |i: int| "'"@ + statuses[i] + "'"@),
                ", "@,
            );
            let base = "SELECT * FROM \""@ + source + "\" WHERE \""@ + config.property_status
                + "\" IN ("@ + list + ")"@;
            let q = status_query(config, source, statuses);
            &&& config.assignee_user_id is None && config.skip_if_set is None ==> q == base
            &&& config.assignee_user_id matches Some(user) ==> config.skip_if_set is None ==> q
                == base + (" AND \""@ + config.property_assignee + "\" LIKE '%"@ + user + "%'"@)
            &&& config.skip_if_set matches Some(p) ==> config.assignee_user_id is None ==> q == base
                + (" AND \""@ + p + "\" IS NULL"@)
            &&& (config.assignee_user_id is Some && config.skip_if_set is Some) ==> q == base + (
            " AND \""@ + config.property_assignee + "\" LIKE '%"@ + config.assignee_user_id->0
                + "%'"@) + (" AND \""@ + config.skip_if_set->0 + "\" IS NULL"@)
        }),
{
    assert(statuses.map_values(|s: Seq<char>| quoted(s)) =~= Seq::new(
        statuses.len(),
        |i: int| "'"@ + statuses[i] + "'"@,
    ));
}

proof fn lemma_first_json(blocks: Seq<JsonView>, i: int)
    requires
        0 <= i <= blocks.len(),
    ensures
        match first_json(blocks, i) {
            Some(v) => exists|k: int|
                i <= k < blocks.len() && (#[trigger] blocks[k]).get("text"@) is Some && blocks[k].get(
                    "text"@,
                )->0 is Str && json_parsed(blocks[k].get("text"@)->0->Str_0) is Ok && json_parsed(
                    blocks[k].get("text"@)->0->Str_0,
                )->Ok_0 == v && forall|m: int|
                    i <= m < k ==> !((#[trigger] blocks[m]).get("text"@) is Some && blocks[m].get(
                        "text"@,
                    )->0 is Str && json_parsed(blocks[m].get("text"@)->0->Str_0) is Ok),
            None => forall|m: int|
                i <= m < blocks.len() ==> !((#[trigger] blocks[m]).get("text"@) is Some
                    && blocks[m].get("text"@)->0 is Str && json_parsed(
                    blocks[m].get("text"@)->0->Str_0,
                ) is Ok),
        },
    decreases blocks.len() - i,
{
    if i < blocks.len() {
        let b = blocks[i];
        if b.get("text"@) is Some && b.get("text"@)->0 is Str && json_parsed(
            b.get("text"@)->0->Str_0,
        ) is Ok {
            assert(blocks[i].str_at("text"@) == Some(b.get("text"@)->0->Str_0));
        } else {
            lemma_first_json(blocks, i + 1);
            assert(first_json(blocks, i) == first_json(blocks, i + 1));
            if let Some(v) = first_json(blocks, i + 1) {
                let k = choose|k: int|
                    i + 1 <= k < blocks.len() && (#[trigger] blocks[k]).get("text"@) is Some
                        && blocks[k].get("text"@)->0 is Str && json_parsed(
                        blocks[k].get("text"@)->0->Str_0,
                    ) is Ok && json_parsed(blocks[k].get("text"@)->0->Str_0)->Ok_0 == v && forall|
                        m: int,
                    |
                        i + 1 <= m < k ==> !((#[trigger] blocks[m]).get("text"@) is Some
                            && blocks[m].get("text"@)->0 is Str && json_parsed(
                            blocks[m].get("text"@)->0->Str_0,
                        ) is Ok);
                assert(blocks[k].get("text"@) is Some);
            }
        }
    }
}

/// What an answer holds is the first of its text blocks that is JSON; an answer
/// without one stands for itself.
pub proof fn law_answer_is_first_json_block(result: JsonView)
    ensures
        match result.get("content"@) {
            Some(JsonView::Array(blocks)) => {
                ||| exists|k: int|
                    0 <= k < blocks.len() && (#[trigger] blocks[k]).get("text"@) is Some
                        && blocks[k].get("text"@)->0 is Str && json_parsed(
                        blocks[k].get("text"@)->0->Str_0,
                    ) is Ok && json_parsed(blocks[k].get("text"@)->0->Str_0)->Ok_0 == unwrapped(
                        result,
                    ) && forall|m: int|
                        0 <= m < k ==> !((#[trigger] blocks[m]).get("text"@) is Some
                            && blocks[m].get("text"@)->0 is Str && json_parsed(
                            blocks[m].get("text"@)->0->Str_0,
                        ) is Ok)
                ||| {
                    &&& unwrapped(result) == result
                    &&& forall|m: int|
                        0 <= m < blocks.len() ==> !((#[trigger] blocks[m]).get("text"@) is Some
                            && blocks[m].get("text"@)->0 is Str && json_parsed(
                            blocks[m].get("text"@)->0->Str_0,
                        ) is Ok)
                }
            },
            _ => unwrapped(result) == result,
        },
{
    if let Some(JsonView::Array(blocks)) = result.get("content"@) {
        lemma_first_json(blocks, 0);
    }
}

proof fn lemma_first_text(blocks: Seq<JsonView>, i: int)
    requires
        0 <= i <= blocks.len(),
    ensures
        match first_text(blocks, i) {
            Some(t) => exists|k: int|
                i <= k < blocks.len() && (#[trigger] blocks[k]).get("text"@) == Some(JsonView::Str(t))
                    && forall|m: int|
                    i <= m < k ==> !((#[trigger] blocks[m]).get("text"@) is Some && blocks[m].get(
                        "text"@,
                    )->0 is Str),
            None => forall|m: int|
                i <= m < blocks.len() ==> !((#[trigger] blocks[m]).get("text"@) is Some
                    && blocks[m].get("text"@)->0 is Str),
        },
    decreases blocks.len() - i,
{
    if i < blocks.len() {
        let b = blocks[i];
        if b.get("text"@) is Some && b.get("text"@)->0 is Str {
            assert(blocks[i].get("text"@) == Some(JsonView::Str(b.get("text"@)->0->Str_0)));
        } else {
            lemma_first_text(blocks, i + 1);
            if let Some(t) = first_text(blocks, i + 1) {
                let k = choose|k: int|
                    i + 1 <= k < blocks.len() && (#[trigger] blocks[k]).get("text"@) == Some(
                        JsonView::Str(t),
                    ) && forall|m: int|
                        i + 1 <= m < k ==> !((#[trigger] blocks[m]).get("text"@) is Some
                            && blocks[m].get("text"@)->0 is Str);
                assert(blocks[k].get("text"@) is Some);
            }
        }
    }
}

/// The text of an answer is its own "text", or else the first text among the blocks
/// of its "content".
pub proof fn law_answer_text(result: JsonView, own: Seq<char>, blocks: Seq<JsonView>)
    ensures
        result.get("text"@) == Some(JsonView::Str(own)) ==> answer_text(result) == Some(own),
        result.get("text"@) is None && result.get("content"@) is None ==> answer_text(
            result,
        ) is None,
        result.get("text"@) is None && result.get("content"@) == Some(JsonView::Array(blocks))
            ==> match answer_text(result) {
            Some(t) => exists|k: int|
                0 <= k < blocks.len() && (#[trigger] blocks[k]).get("text"@) == Some(JsonView::Str(t))
                    && forall|m: int|
                    0 <= m < k ==> !((#[trigger] blocks[m]).get("text"@) is Some && blocks[m].get(
                        "text"@,
                    )->0 is Str),
            None => forall|m: int|
                0 <= m < blocks.len() ==> !((#[trigger] blocks[m]).get("text"@) is Some
                    && blocks[m].get("text"@)->0 is Str),
        },
{
    lemma_first_text(blocks, 0);
}

/// A comment keeps the author and the time that its attributes give, and its body
/// without the white space around it; a body that is blank makes no comment. An
/// author that is not given is "Unknown".
pub proof fn law_comment_keeps_what_is_given(
    author: Option<Seq<char>>,
    created_at: Option<Seq<char>>,
    body: Seq<char>,
)
    ensures
        match comment_with(author, created_at, body) {
            Some(c) => {
                &&& trimmed(body).len() > 0
                &&& c.body == trimmed(body)
                &&& c.created_at == created_at
                &&& author is Some ==> c.author == author->0
                &&& author is None ==> c.author == "Unknown"@
            },
            None => trimmed(body).len() == 0,
        },
{
}

/// The time of a comment is what its "datetime" attribute holds, its author what its
/// "user-url" holds, and its body the second group with line breaks for `<br/>` and
/// without tags.
pub proof fn law_comment_from_its_element(
    found: Seq<Option<Seq<char>>>,
    attrs: Seq<char>,
    raw: Seq<char>,
)
    requires
        found.len() > 2,
        found[1] == Some(attrs),
        found[2] == Some(raw),
    ensures
        comment_of(found) matches Some(c) ==> {
            let time = regex_captures(r#"datetime="([^"]*)""#@, attrs);
            let user = regex_captures(r#"user-url="user://([^"]*)""#@, attrs);
            &&& time is None ==> c.created_at is None
            &&& time is Some && time->0.len() == 0 ==> c.created_at is None
            &&& time is Some && time->0.len() > 0 && time->0[0].len() > 1 ==> c.created_at
                == time->0[0][1]
            &&& user is Some && user->0.len() > 0 && user->0[0].len() > 1 && user->0[0][1] is Some
                ==> c.author == user->0[0][1]->0
            &&& user is None || user->0.len() == 0 ==> c.author == "Unknown"@
            &&& match regex_replaced(r"<[^>]+/?>"@, replaced(raw, "<br/>"@, "\n"@), ""@) {
                Some(t) => c.body == trimmed(t),
                None => c.body == trimmed(replaced(raw, "<br/>"@, "\n"@)),
            }
        },
{
}

/// Comments are read one by one and in order.
pub proof fn law_comments_read_in_order(
    a: Seq<Seq<Option<Seq<char>>>>,
    b: Seq<Seq<Option<Seq<char>>>>,
)
    ensures
        comments_of(a + b) == comments_of(a) + comments_of(b),
        a.len() == 1 ==> comments_of(a) == (match comment_of(a[0]) {
            Some(c) => seq![c],
            None => seq![],
        }),
    decreases b.len(),
{
    if a.len() == 1 {
        assert(a.drop_last() =~= seq![]);
        reveal_with_fuel(comments_of, 2);
        assert(a.last() == a[0]);
        assert(comments_of(a) =~= (match comment_of(a[0]) {
            Some(c) => seq![c],
            None => seq![],
        }));
    }
    if b.len() > 0 {
        law_comments_read_in_order(a, b.drop_last());
        assert((a + b).drop_last() =~= a + b.drop_last());
        assert(comments_of(a + b) =~= comments_of(a) + comments_of(b));
    } else {
        assert(a + b =~= a);
        assert(comments_of(a) + comments_of(b) =~= comments_of(a));
    }
}

/// A query names the one source under "data_source_urls" and the text of the query
/// under "query".
pub proof fn law_query_request_holds(source: Seq<char>, sql: Seq<char>)
    ensures
        query_request(source, sql).get("data"@) is Some,
        query_request(source, sql).get("data"@)->0.get("query"@) == Some(JsonView::Str(sql)),
        query_request(source, sql).get("data"@)->0.get("data_source_urls"@) == Some(
            JsonView::Array(seq![JsonView::Str(source)]),
        ),
{
    reveal_strlit("data_source_urls");
    reveal_strlit("query");
    assert("data_source_urls"@.len() == 16 && "query"@.len() == 5);
    reveal_with_fuel(crate::json::entry_from, 3);
}

/// Comments are what the pattern of a comment element finds, and there are none where it
/// finds nothing.
pub proof fn law_comments_found_by_element(xml: Seq<char>)
    ensures
        match regex_captures(r#"<comment\b([^>]*)>([\s\S]*?)</comment>"#@, xml) {
            Some(found) => comments_in(xml) == comments_of(found),
            None => comments_in(xml).len() == 0,
        },
{
}

} // verus!
