//! Issues from Sentry.
use vstd::prelude::*;
use vstd::string::*;
use crate::collections::StringMap;
use crate::config::schema::{SentryConfig, SentryConfigView};
use crate::domain::issue::{BlockerView, CommentView, Issue, IssueView};
use crate::error::Error;
use crate::json::{Json, JsonView};
use crate::pattern::{captures, regex_captures, regex_split, split};
use crate::text::{
    ascii_uppered, cat2, cat3, decimal, decimal_string, has_prefix, holds, join, joined, lemma_holds,
    lemma_holds_grows, lemma_holds_last, parse_u64, parsed_u64, starts_with, strip_prefix, to_ascii_uppercase, trim, trim_char, trimmed,
    trimmed_of, views, without_prefix,
};
use crate::tracker::notion::{find_first, first_group, group};

verus! {

/// Reads what Sentry answers, by a configuration.
#[derive(Debug)]
pub struct SentryTracker {
    pub config: SentryConfig,
}

/// The search for the issues of a project.
pub open spec fn search_query(project: Seq<char>, extra: Seq<char>, resolved: bool) -> Seq<char> {
    let status = if resolved {
        "is:resolved"@
    } else {
        "is:unresolved"@
    };
    let base = "project:"@ + project + " "@ + status;
    if extra.len() == 0 {
        base
    } else {
        base + " "@ + extra
    }
}

/// The texts of blocks that have one, in order.
pub open spec fn block_texts(blocks: Seq<JsonView>) -> Seq<Seq<char>>
    decreases blocks.len(),
{
    if blocks.len() == 0 {
        seq![]
    } else {
        let before = block_texts(blocks.drop_last());
        match blocks.last().str_at("text"@) {
            Some(t) => before.push(t),
            None => before,
        }
    }
}

/// The text of an answer: that of its blocks, a line each, or else its own.
pub open spec fn answer_lines(result: JsonView) -> Seq<char> {
    match result.array_at("content"@) {
        Some(blocks) => joined(block_texts(blocks), "\n"@),
        None => match result.str_at("text"@) {
            Some(t) => t,
            None => seq![],
        },
    }
}

/// The pattern of an issue's header: `## N. [SHORT-ID](url)`.
pub open spec fn header_pattern() -> Seq<char> {
    r"##\s+\d+\.\s+\[([^\]]+)\]\(([^)]+)\)"@
}

/// The pattern of a line in bold.
pub open spec fn bold_pattern() -> Seq<char> {
    r"(?m)^\*\*(.+?)\*\*$"@
}

/// The pattern of a line `- **Field**: value`.
pub open spec fn field_pattern(field: Seq<char>) -> Seq<char> {
    r"- \*\*"@ + field + r"\*\*:\s*(.+)"@
}

/// An optional text, empty where there is none.
pub open spec fn or_blank(s: Option<Seq<char>>) -> Seq<char> {
    match s {
        Some(t) => t,
        None => seq![],
    }
}

/// The value of a field of a section.
pub open spec fn field_of(section: Seq<char>, field: Seq<char>) -> Option<Seq<char>> {
    match first_group(field_pattern(field), section) {
        Some(v) => Some(trimmed(v)),
        None => None,
    }
}

/// What a section says of its issue.
#[derive(Debug)]
pub struct SentryFields {
    pub short_id: String,
    pub url: String,
    pub title: String,
    pub status: Option<String>,
    pub users: Option<String>,
    pub events: Option<String>,
    pub first_seen: Option<String>,
    pub last_seen: Option<String>,
    pub culprit: Option<String>,
}

/// What a `SentryFields` holds.
#[verifier::ext_equal]
pub struct SentryFieldsView {
    pub short_id: Seq<char>,
    pub url: Seq<char>,
    pub title: Seq<char>,
    pub status: Option<Seq<char>>,
    pub users: Option<Seq<char>>,
    pub events: Option<Seq<char>>,
    pub first_seen: Option<Seq<char>>,
    pub last_seen: Option<Seq<char>>,
    pub culprit: Option<Seq<char>>,
}

impl DeepView for SentryFields {
    type V = SentryFieldsView;

    open spec fn deep_view(&self) -> SentryFieldsView {
        SentryFieldsView {
            short_id: self.short_id@,
            url: self.url@,
            title: self.title@,
            status: self.status.deep_view(),
            users: self.users.deep_view(),
            events: self.events.deep_view(),
            first_seen: self.first_seen.deep_view(),
            last_seen: self.last_seen.deep_view(),
            culprit: self.culprit.deep_view(),
        }
    }
}

/// The number that an optional text gives, 0 where it gives none.
pub open spec fn count_of(s: Option<Seq<char>>) -> u64 {
    match s {
        Some(t) => match parsed_u64(t) {
            Some(n) => n,
            None => 0,
        },
        None => 0,
    }
}

/// What the short ids of a project start with: its name in capitals and a hyphen.
pub open spec fn short_id_prefix(project: Seq<char>) -> Seq<char> {
    ascii_uppered(project) + "-"@
}

/// The short id is one of the project's; any is where no project is configured.
pub open spec fn belongs(project: Seq<char>, short_id: Seq<char>) -> bool {
    project.len() == 0 || has_prefix(short_id, short_id_prefix(project))
}

/// What went wrong, as an agent is told.
pub open spec fn crash_description(f: SentryFieldsView) -> Seq<char> {
    "Sentry crash: "@ + f.title + "\n\nCulprit: "@ + trimmed_of(or_blank(f.culprit), '`') + "\nEvents: "@
        + decimal(count_of(f.events) as nat) + " | Users affected: "@ + decimal(
        count_of(f.users) as nat,
    ) + "\nFirst seen: "@ + or_blank(f.first_seen) + " | Last seen: "@ + or_blank(f.last_seen)
        + "\nSentry link: "@ + f.url
}

/// The extra properties of an issue from Sentry.
pub open spec fn crash_extra(f: SentryFieldsView) -> Seq<(Seq<char>, Seq<char>)> {
    let base = seq![
        ("event_count"@, decimal(count_of(f.events) as nat)),
        ("user_count"@, decimal(count_of(f.users) as nat)),
        ("first_seen"@, or_blank(f.first_seen)),
        ("last_seen"@, or_blank(f.last_seen)),
    ];
    let culprit = trimmed_of(or_blank(f.culprit), '`');
    if culprit.len() == 0 {
        base
    } else {
        base.push(("culprit"@, culprit))
    }
}

/// The issue that a section describes; none where it has too few events or
/// belongs to another project.
pub open spec fn crash_issue(config: SentryConfigView, f: SentryFieldsView) -> Option<IssueView> {
    if count_of(f.events) < config.min_events || !belongs(config.project, f.short_id) {
        None
    } else {
        Some(
            IssueView {
                identifier: config.id_prefix + f.short_id,
                title: f.title,
                description: Some(crash_description(f)),
                status: or_blank(f.status),
                priority: Some("High"@),
                url: if f.url.len() == 0 {
                    None
                } else {
                    Some(f.url)
                },
                notion_page_id: None,
                blockers: Seq::<BlockerView>::empty(),
                source: "sentry"@,
                extra: crash_extra(f),
                comments: Seq::<CommentView>::empty(),
                workflow_id: seq![],
            },
        )
    }
}

/// The short id and the url of a section's header, where it has one.
pub open spec fn header_of(section: Seq<char>) -> Option<(Seq<char>, Seq<char>)> {
    match regex_captures(header_pattern(), section) {
        Some(found) => if found.len() > 0 {
            Some((or_blank(group(found[0], 1)), or_blank(group(found[0], 2))))
        } else {
            None
        },
        None => None,
    }
}

/// What a section with a given header says of its issue.
pub open spec fn fields_of(section: Seq<char>, header: (Seq<char>, Seq<char>)) -> SentryFieldsView {
    SentryFieldsView {
        short_id: header.0,
        url: header.1,
        title: or_blank(first_group(bold_pattern(), section)),
        status: field_of(section, "Status"@),
        users: field_of(section, "Users"@),
        events: field_of(section, "Events"@),
        first_seen: field_of(section, "First seen"@),
        last_seen: field_of(section, "Last seen"@),
        culprit: field_of(section, "Culprit"@),
    }
}

/// The issue that a section describes.
pub open spec fn issue_of_section(config: SentryConfigView, section: Seq<char>) -> Option<IssueView> {
    match header_of(section) {
        Some(header) => crash_issue(config, fields_of(section, header)),
        None => None,
    }
}

/// The issues that sections describe, in order.
pub open spec fn issues_of_sections(config: SentryConfigView, sections: Seq<Seq<char>>) -> Seq<IssueView>
    decreases sections.len(),
{
    if sections.len() == 0 {
        seq![]
    } else {
        let before = issues_of_sections(config, sections.drop_last());
        match issue_of_section(config, sections.last()) {
            Some(i) => before.push(i),
            None => before,
        }
    }
}

/// The sections that headers begin: each header with what follows it up to the
/// next. `parts` is what stands before, between and after the headers.
pub open spec fn sections_of(headers: Seq<Seq<Option<Seq<char>>>>, parts: Seq<Seq<char>>) -> Seq<
    Seq<char>,
> {
    Seq::new(
        headers.len(),
        |i: int|
            or_blank(group(headers[i], 0)) + if i + 1 < parts.len() {
                parts[i + 1]
            } else {
                seq![]
            },
    )
}

/// The sections of a text.
pub open spec fn sections_in(text: Seq<char>) -> Seq<Seq<char>> {
    match (regex_captures(header_pattern(), text), regex_split(header_pattern(), text)) {
        (Some(headers), Some(parts)) => sections_of(headers, parts),
        _ => seq![],
    }
}

fn text_of(s: &Option<String>) -> (r: String)
    ensures
        r@ == or_blank(s.deep_view()),
{
    match s {
        Some(t) => t.clone(),
        None => String::new(),
    }
}

fn number_of(s: &Option<String>) -> (r: u64)
    ensures
        r == count_of(s.deep_view()),
{
    match s {
        Some(t) => match parse_u64(t.as_str()) {
            Some(n) => n,
            None => 0,
        },
        None => 0,
    }
}

/// The sections that headers begin: each header with what follows it up to the
/// next.
pub fn cut_sections(headers: &Vec<Vec<Option<String>>>, parts: &Vec<String>) -> (r: Vec<String>)
    ensures
        r.deep_view() == sections_of(headers.deep_view(), parts.deep_view()),
{
    let ghost hs = headers.deep_view();
    let ghost ps = parts.deep_view();
    let ghost want = sections_of(hs, ps);
    let mut out: Vec<String> = Vec::new();
    let mut i: usize = 0;
    while i < headers.len()
        invariant
            i <= headers@.len(),
            hs == headers.deep_view(),
            ps == parts.deep_view(),
            want == sections_of(hs, ps),
            out.deep_view() == want.take(i as int),
        decreases headers@.len() - i,
    {
        let ghost before = out.deep_view();
        assert(hs[i as int] == headers@[i as int].deep_view());
        let mut section = if headers[i].len() > 0 {
            text_of(&headers[i][0])
        } else {
            String::new()
        };
        assert(section@ == or_blank(group(hs[i as int], 0)));
        if parts.len() > 0 && i < parts.len() - 1 {
            assert(ps[i + 1] == parts@[i + 1]@);
            section.append(parts[i + 1].as_str());
        } else {
            assert(section@ + Seq::<char>::empty() =~= section@);
        }
        assert(want[i as int] =~= section@);
        out.push(section);
        assert(out.deep_view() =~= before.push(want[i as int]));
        assert(want.take(i + 1) =~= before.push(want[i as int]));
        i += 1;
    }
    assert(want.take(i as int) =~= want);
    out
}

impl SentryTracker {
    /// A reader for the configuration.
    pub fn new(config: SentryConfig) -> (r: Self)
        ensures
            r.config == config,
    {
        SentryTracker { config }
    }

    /// Build the full Sentry search string: the project, `is:unresolved` or
    /// `is:resolved`, and the configured `query`.
    pub fn build_query(&self, resolved: bool) -> (r: String)
        ensures
            r@ == search_query(self.config.project@, self.config.query@, resolved),
    {
        let status = if resolved {
            "is:resolved"
        } else {
            "is:unresolved"
        };
        let mut s = "project:".to_owned();
        s.append(self.config.project.as_str());
        s.append(" ");
        s.append(status);
        if !self.config.query.as_str().is_empty() {
            s.append(" ");
            s.append(self.config.query.as_str());
        }
        s
    }

    /// The short id of an issue: its identifier without the prefix.
    pub fn short_id(&self, id: &str) -> (r: String)
        ensures
            r@ == without_prefix(id@, self.config.id_prefix@),
    {
        match strip_prefix(id, self.config.id_prefix.as_str()) {
            Some(s) => s,
            None => id.to_owned(),
        }
    }

    /// Extract the text content from an MCP tool response.
    pub fn extract_text(result: &Json) -> (r: String)
        ensures
            r@ == answer_lines(result.deep_view()),
    {
        match result.array_at("content") {
            Some(blocks) => {
                let ghost bs = blocks.deep_view();
                let mut texts: Vec<String> = Vec::new();
                let mut i: usize = 0;
                assert(views(texts@) =~= block_texts(bs.take(0)));
                while i < blocks.len()
                    invariant
                        i <= blocks@.len(),
                        bs == blocks.deep_view(),
                        views(texts@) == block_texts(bs.take(i as int)),
                    decreases blocks@.len() - i,
                {
                    assert(bs.take(i + 1).drop_last() =~= bs.take(i as int));
                    assert(bs[i as int] == blocks@[i as int].deep_view());
                    let ghost before = views(texts@);
                    if let Some(t) = blocks[i].str_at("text") {
                        texts.push(t.to_owned());
                        assert(views(texts@) =~= before.push(t@));
                    }
                    i += 1;
                }
                assert(bs.take(i as int) =~= bs);
                join(&texts, "\n")
            },
            None => match result.str_at("text") {
                Some(t) => t.to_owned(),
                None => String::new(),
            },
        }
    }

    /// Extract the first bold line (issue title) from a section.
    /// Looks for `**Title text**` on its own line.
    pub fn extract_bold_line(section: &str) -> (r: String)
        ensures
            r@ == or_blank(first_group(bold_pattern(), section@)),
    {
        match find_first(r"(?m)^\*\*(.+?)\*\*$", section) {
            Some(t) => t,
            None => String::new(),
        }
    }

    /// Extract a `- **Field**: value` from a section.
    pub fn extract_field(section: &str, field: &str) -> (r: Option<String>)
        ensures
            r.deep_view() == field_of(section@, field@),
    {
        let pattern = cat3(r"- \*\*", field, r"\*\*:\s*(.+)");
        match find_first(pattern.as_str(), section) {
            Some(v) => Some(trim(v.as_str())),
            None => None,
        }
    }

    /// The issue that a section describes; none where it has too few events or
    /// belongs to another project.
    pub fn make_issue(&self, f: &SentryFields) -> (r: Option<Issue>)
        ensures
            r.deep_view() == crash_issue(self.config.deep_view(), f.deep_view()),
            r is Some ==> r->0.extra.wf(),
    {
        let events = number_of(&f.events);
        if events < self.config.min_events {
            return None;
        }
        if !self.config.project.as_str().is_empty() {
            let project = to_ascii_uppercase(self.config.project.as_str());
            let prefix = cat2(project.as_str(), "-");
            if !starts_with(f.short_id.as_str(), prefix.as_str()) {
                return None;
            }
        }
        let users = number_of(&f.users);
        let event_count = decimal_string(events);
        let user_count = decimal_string(users);
        let first_seen = text_of(&f.first_seen);
        let last_seen = text_of(&f.last_seen);
        let raw_culprit = text_of(&f.culprit);
        let culprit = trim_char(raw_culprit.as_str(), '`');
        let mut description = "Sentry crash: ".to_owned();
        description.append(f.title.as_str());
        description.append("\n\nCulprit: ");
        description.append(culprit.as_str());
        description.append("\nEvents: ");
        description.append(event_count.as_str());
        description.append(" | Users affected: ");
        description.append(user_count.as_str());
        description.append("\nFirst seen: ");
        description.append(first_seen.as_str());
        description.append(" | Last seen: ");
        description.append(last_seen.as_str());
        description.append("\nSentry link: ");
        description.append(f.url.as_str());
        let mut entries: Vec<(String, String)> = Vec::new();
        entries.push(("event_count".to_owned(), event_count));
        entries.push(("user_count".to_owned(), user_count));
        entries.push(("first_seen".to_owned(), first_seen));
        entries.push(("last_seen".to_owned(), last_seen));
        if !culprit.as_str().is_empty() {
            entries.push(("culprit".to_owned(), culprit));
        }
        let extra = StringMap { entries };
        proof {
            reveal_strlit("event_count");
            reveal_strlit("user_count");
            reveal_strlit("first_seen");
            reveal_strlit("last_seen");
            reveal_strlit("culprit");
            assert("event_count"@[0] == 'e' && "user_count"@[0] == 'u' && "first_seen"@[0] == 'f'
                && "last_seen"@[0] == 'l' && "culprit"@[0] == 'c');
            assert(extra.wf());
            assert(extra.deep_view() =~= crash_extra(f.deep_view()));
        }
        let issue = Issue {
            identifier: cat2(self.config.id_prefix.as_str(), f.short_id.as_str()),
            title: f.title.clone(),
            description: Some(description),
            status: text_of(&f.status),
            priority: Some("High".to_owned()),
            url: if f.url.as_str().is_empty() {
                None
            } else {
                Some(f.url.clone())
            },
            notion_page_id: None,
            blockers: Vec::new(),
            source: "sentry".to_owned(),
            extra,
            comments: Vec::new(),
            workflow_id: String::new(),
        };
        assert(issue.blockers.deep_view() =~= Seq::<BlockerView>::empty());
        assert(issue.comments.deep_view() =~= Seq::<CommentView>::empty());
        Some(issue)
    }

    fn read_section(&self, section: &str) -> (r: Option<Issue>)
        ensures
            r.deep_view() == issue_of_section(self.config.deep_view(), section@),
    {
        let found = match captures(r"##\s+\d+\.\s+\[([^\]]+)\]\(([^)]+)\)", section) {
            Some(found) => found,
            None => {
                return None;
            },
        };
        if found.len() == 0 {
            return None;
        }
        assert(found.deep_view()[0] == found@[0].deep_view());
        let short_id = if found[0].len() > 1 {
            text_of(&found[0][1])
        } else {
            String::new()
        };
        let url = if found[0].len() > 2 {
            text_of(&found[0][2])
        } else {
            String::new()
        };
        let fields = SentryFields {
            short_id,
            url,
            title: Self::extract_bold_line(section),
            status: Self::extract_field(section, "Status"),
            users: Self::extract_field(section, "Users"),
            events: Self::extract_field(section, "Events"),
            first_seen: Self::extract_field(section, "First seen"),
            last_seen: Self::extract_field(section, "Last seen"),
            culprit: Self::extract_field(section, "Culprit"),
        };
        self.make_issue(&fields)
    }

    /// The issues that sections describe, in order.
    pub fn read_sections(&self, sections: &Vec<String>) -> (r: Vec<Issue>)
        ensures
            r.deep_view() == issues_of_sections(self.config.deep_view(), sections.deep_view()),
    {
        let ghost cfg = self.config.deep_view();
        let ghost ss = sections.deep_view();
        let mut issues: Vec<Issue> = Vec::new();
        let mut i: usize = 0;
        assert(issues.deep_view() =~= issues_of_sections(cfg, ss.take(0)));
        while i < sections.len()
            invariant
                i <= sections@.len(),
                ss == sections.deep_view(),
                cfg == self.config.deep_view(),
                issues.deep_view() == issues_of_sections(cfg, ss.take(i as int)),
            decreases sections@.len() - i,
        {
            assert(ss.take(i + 1).drop_last() =~= ss.take(i as int));
            assert(ss[i as int] == sections@[i as int]@);
            let ghost before = issues.deep_view();
            if let Some(issue) = self.read_section(sections[i].as_str()) {
                let ghost v = issue.deep_view();
                issues.push(issue);
                assert(issues.deep_view() =~= before.push(v));
            }
            i += 1;
        }
        assert(ss.take(i as int) =~= ss);
        issues
    }

    /// Parse the markdown response into Issue structs.
    ///
    /// Expected format per issue:
    /// ```text
    /// ## N. [SHORT-ID](url)
    ///
    /// **Title**
    ///
    /// - **Status**: status
    /// - **Users**: N
    /// - **Events**: N
    /// - **First seen**: ...
    /// - **Last seen**: ...
    /// - **Culprit**: `culprit`
    /// ```
    pub fn parse_issue_list(&self, text: &str) -> (r: Vec<Issue>)
        ensures
            r.deep_view() == issues_of_sections(self.config.deep_view(), sections_in(text@)),
    {
        let pattern = r"##\s+\d+\.\s+\[([^\]]+)\]\(([^)]+)\)";
        match (captures(pattern, text), split(pattern, text)) {
            (Some(headers), Some(parts)) => {
                let sections = cut_sections(&headers, &parts);
                self.read_sections(&sections)
            },
            _ => {
                let none: Vec<Issue> = Vec::new();
                assert(none.deep_view() =~= issues_of_sections(
                    self.config.deep_view(),
                    sections_in(text@),
                ));
                none
            },
        }
    }

    /// The issues that an answer of the search describes: none where the answer
    /// is an error.
    pub fn read_search(&self, result: &Json) -> (r: Vec<Issue>)
        ensures
            r.deep_view() == if result.deep_view().bool_at("isError"@) == Some(true) {
                Seq::<IssueView>::empty()
            } else {
                issues_of_sections(
                    self.config.deep_view(),
                    sections_in(answer_lines(result.deep_view())),
                )
            },
    {
        let failed = match result.bool_at("isError") {
            Some(b) => b,
            None => false,
        };
        if failed {
            let none: Vec<Issue> = Vec::new();
            assert(none.deep_view() =~= Seq::<IssueView>::empty());
            return none;
        }
        let text = Self::extract_text(result);
        self.parse_issue_list(text.as_str())
    }

    /// The issue that an answer with the details of one describes.
    pub fn read_detail(&self, result: &Json) -> (r: Option<Issue>)
        ensures
            ({
                let all = issues_of_sections(
                    self.config.deep_view(),
                    sections_in(answer_lines(result.deep_view())),
                );
                r.deep_view() == if all.len() > 0 {
                    Some(all[0])
                } else {
                    None
                }
            }),
    {
        let text = Self::extract_text(result);
        let mut issues = self.parse_issue_list(text.as_str());
        if issues.len() > 0 {
            let ghost all = issues.deep_view();
            let first = issues.remove(0);
            assert(all[0] == first.deep_view());
            Some(first)
        } else {
            None
        }
    }

    /// What the `search_issues` tool is asked.
    pub fn search_arguments(&self, resolved: bool) -> (r: Json)
        ensures
            r.deep_view() == search_request(self.config.deep_view(), resolved),
    {
        let query = self.build_query(resolved);
        let mut entries: Vec<(String, Json)> = Vec::new();
        entries.push(("organizationSlug".to_owned(), Json::string(self.config.org.as_str())));
        if !self.config.project.as_str().is_empty() {
            entries.push(
                ("projectSlugOrId".to_owned(), Json::string(self.config.project.as_str())),
            );
        }
        entries.push(("naturalLanguageQuery".to_owned(), Json::text(query)));
        let r = Json::Object(entries);
        assert(r.deep_view()->Object_0 =~= search_request(
            self.config.deep_view(),
            resolved,
        )->Object_0);
        r
    }

    /// What the `get_issue_details` tool is asked.
    pub fn detail_arguments(&self, short_id: &str) -> (r: Json)
        ensures
            r.deep_view() == JsonView::Object(
                seq![
                    ("organizationSlug"@, JsonView::Str(self.config.org@)),
                    ("issueId"@, JsonView::Str(short_id@)),
                ],
            ),
    {
        let mut entries: Vec<(String, Json)> = Vec::new();
        entries.push(("organizationSlug".to_owned(), Json::string(self.config.org.as_str())));
        entries.push(("issueId".to_owned(), Json::string(short_id)));
        let r = Json::Object(entries);
        assert(r.deep_view()->Object_0 =~= seq![
            ("organizationSlug"@, JsonView::Str(self.config.org@)),
            ("issueId"@, JsonView::Str(short_id@)),
        ]);
        r
    }

    /// Sentry answers no queries of agents.
    pub fn agent_query(&self) -> (r: Error)
        ensures
            r is Tracker,
            r.detail() == "agent_query not supported for Sentry"@,
    {
        Error::Tracker("agent_query not supported for Sentry".to_owned())
    }
}

/// What the `search_issues` tool is asked: the project, where one is
/// configured, is an argument of its own.
pub open spec fn search_request(config: SentryConfigView, resolved: bool) -> JsonView {
    let org = seq![("organizationSlug"@, JsonView::Str(config.org))];
    let scoped = if config.project.len() == 0 {
        org
    } else {
        org.push(("projectSlugOrId"@, JsonView::Str(config.project)))
    };
    JsonView::Object(
        scoped.push(
            (
                "naturalLanguageQuery"@,
                JsonView::Str(search_query(config.project, config.query, resolved)),
            ),
        ),
    )
}

/// No issue with fewer events than configured, nor one of another project,
/// comes out of an answer, and every identifier starts with the prefix.
pub proof fn law_sentry_issues_qualify(config: SentryConfigView, sections: Seq<Seq<char>>)
    ensures
        forall|i: int|
            0 <= i < issues_of_sections(config, sections).len() ==> {
                let issue = #[trigger] issues_of_sections(config, sections)[i];
                exists|f: SentryFieldsView| {
                    &&& #[trigger] crash_issue(config, f) == Some(issue)
                    &&& count_of(f.events) >= config.min_events
                    &&& belongs(config.project, f.short_id)
                    &&& issue.identifier == config.id_prefix + f.short_id
                }
            },
    decreases sections.len(),
{
    if sections.len() > 0 {
        law_sentry_issues_qualify(config, sections.drop_last());
        let before = issues_of_sections(config, sections.drop_last());
        let all = issues_of_sections(config, sections);
        assert forall|i: int| 0 <= i < all.len() implies ({
            let issue = #[trigger] all[i];
            exists|f: SentryFieldsView| {
                &&& #[trigger] crash_issue(config, f) == Some(issue)
                &&& count_of(f.events) >= config.min_events
                &&& belongs(config.project, f.short_id)
                &&& issue.identifier == config.id_prefix + f.short_id
            }
        }) by {
            if i < before.len() {
                assert(all[i] == before[i]);
            } else {
                let f = fields_of(sections.last(), header_of(sections.last())->0);
                assert(crash_issue(config, f) == Some(all[i]));
            }
        }
    }
}

/// The short id of an issue is found again in its identifier.
pub proof fn law_short_id_recovered(prefix: Seq<char>, short_id: Seq<char>)
    ensures
        without_prefix(prefix + short_id, prefix) == short_id,
{
    let id = prefix + short_id;
    assert(id.subrange(0, prefix.len() as int) =~= prefix);
    assert(id.skip(prefix.len() as int) =~= short_id);
}

/// A search asks for the project's issues, resolved ones or unresolved ones as wanted,
/// and adds what else is configured.
pub proof fn law_search_asks_for(project: Seq<char>, extra: Seq<char>)
    ensures
        search_query(project, seq![], true) == "project:"@ + project + " "@ + "is:resolved"@,
        search_query(project, seq![], false) == "project:"@ + project + " "@ + "is:unresolved"@,
        extra.len() > 0 ==> search_query(project, extra, true) == search_query(
            project,
            seq![],
            true,
        ) + " "@ + extra,
        extra.len() > 0 ==> search_query(project, extra, false) == search_query(
            project,
            seq![],
            false,
        ) + " "@ + extra,
{
}

/// A search names the organisation, the project where there is one, and the query.
pub proof fn law_search_request_holds(config: SentryConfigView, resolved: bool)
    ensures
        ({
            let r = search_request(config, resolved);
            &&& r.get("organizationSlug"@) == Some(JsonView::Str(config.org))
            &&& config.project.len() > 0 ==> r.get("projectSlugOrId"@) == Some(
                JsonView::Str(config.project),
            )
            &&& config.project.len() == 0 ==> r.get("projectSlugOrId"@) is None
            &&& r.get("naturalLanguageQuery"@) == Some(
                JsonView::Str(search_query(config.project, config.query, resolved)),
            )
        }),
{
    reveal_strlit("organizationSlug");
    reveal_strlit("projectSlugOrId");
    reveal_strlit("naturalLanguageQuery");
    assert("organizationSlug"@.len() == 16 && "projectSlugOrId"@.len() == 15
        && "naturalLanguageQuery"@.len() == 20);
    reveal_with_fuel(crate::json::entry_from, 4);
}

/// The texts of an answer are those of its blocks, in their order; blocks without one
/// leave nothing.
pub proof fn law_block_texts_in_order(
    a: Seq<JsonView>,
    b: Seq<JsonView>,
)
    ensures
        block_texts(a + b) == block_texts(a) + block_texts(b),
        a.len() == 1 ==> block_texts(a) == (match a[0].get("text"@) {
            Some(JsonView::Str(t)) => seq![t],
            _ => seq![],
        }),
    decreases b.len(),
{
    if a.len() == 1 {
        assert(a.drop_last() =~= seq![]);
        reveal_with_fuel(block_texts, 2);
        assert(a.last() == a[0]);
        assert(block_texts(a) =~= (match a[0].get("text"@) {
            Some(JsonView::Str(t)) => seq![t],
            _ => seq![],
        }));
    }
    if b.len() > 0 {
        law_block_texts_in_order(a, b.drop_last());
        assert((a + b).drop_last() =~= a + b.drop_last());
        assert(block_texts(a + b) =~= block_texts(a) + block_texts(b));
    } else {
        assert(a + b =~= a);
        assert(block_texts(a) + block_texts(b) =~= block_texts(a));
    }
}

/// The text of an answer is that of its "content", a line for each block, and its own
/// "text" only where it has no content.
pub proof fn law_answer_lines(result: JsonView, blocks: Seq<JsonView>, text: Seq<char>)
    ensures
        result.get("content"@) == Some(JsonView::Array(blocks)) ==> answer_lines(result) == joined(
            block_texts(blocks),
            "\n"@,
        ),
        result.get("content"@) is None && result.get("text"@) == Some(JsonView::Str(text))
            ==> answer_lines(result) == text,
        result.get("content"@) is None && result.get("text"@) is None ==> answer_lines(
            result,
        ).len() == 0,
{
}

/// Each field of an issue is what stands behind its own name in the section, without
/// the white space around it; the title is the line in bold, and the short id and the
/// link are those of the header.
pub proof fn law_fields_by_their_names(section: Seq<char>, header: (Seq<char>, Seq<char>))
    ensures
        ({
            let f = fields_of(section, header);
            let value = |name: Seq<char>|
                match first_group(r"- \*\*"@ + name + r"\*\*:\s*(.+)"@, section) {
                    Some(v) => Some(trimmed(v)),
                    None => None::<Seq<char>>,
                };
            &&& f.short_id == header.0
            &&& f.url == header.1
            &&& f.status == value("Status"@)
            &&& f.users == value("Users"@)
            &&& f.events == value("Events"@)
            &&& f.first_seen == value("First seen"@)
            &&& f.last_seen == value("Last seen"@)
            &&& f.culprit == value("Culprit"@)
            &&& match first_group(r"(?m)^\*\*(.+?)\*\*$"@, section) {
                Some(title) => f.title == title,
                None => f.title.len() == 0,
            }
        }),
{
}

/// A number that is missing, or is none, counts as zero.
pub proof fn law_counts_read(text: Seq<char>)
    ensures
        count_of(None) == 0,
        parsed_u64(text) is None ==> count_of(Some(text)) == 0,
        parsed_u64(text) is Some ==> count_of(Some(text)) == parsed_u64(text)->0,
{
}

/// A short id belongs to a project exactly where it starts with the project's name in
/// capitals and a hyphen; to no project in particular belong all.
pub proof fn law_short_ids_belong(project: Seq<char>, rest: Seq<char>, short_id: Seq<char>)
    ensures
        belongs(seq![], short_id),
        belongs(project, ascii_uppered(project) + "-"@ + rest),
        project.len() > 0 && belongs(project, short_id) ==> short_id == ascii_uppered(project) + "-"@
            + short_id.skip((project.len() + 1) as int),
{
    reveal_strlit("-");
    let p = ascii_uppered(project) + "-"@;
    assert(p.len() == project.len() + 1);
    assert((p + rest).subrange(0, p.len() as int) =~= p);
    if project.len() > 0 && belongs(project, short_id) {
        assert(short_id =~= short_id.subrange(0, p.len() as int) + short_id.skip(p.len() as int));
    }
}

/// A crash becomes an issue exactly where it has at least as many events as configured
/// and belongs to the project.
pub proof fn law_crashes_that_qualify(config: SentryConfigView, f: SentryFieldsView)
    ensures
        crash_issue(config, f) is Some <==> count_of(f.events) >= config.min_events && belongs(
            config.project,
            f.short_id,
        ),
{
}

/// The issue of a crash has the short id behind the prefix, the title, status and link
/// of the crash, high priority, and what is known of it as extra properties.
pub proof fn law_issue_of_a_crash(config: SentryConfigView, f: SentryFieldsView)
    ensures
        crash_issue(config, f) matches Some(i) ==> {
            &&& i.identifier == config.id_prefix + f.short_id
            &&& i.title == f.title
            &&& f.status is Some ==> i.status == f.status->0
            &&& f.status is None ==> i.status.len() == 0
            &&& i.priority == Some("High"@)
            &&& f.url.len() > 0 ==> i.url == Some(f.url)
            &&& f.url.len() == 0 ==> i.url is None
            &&& i.source == "sentry"@
            &&& i.notion_page_id is None
            &&& i.blockers.len() == 0
            &&& i.comments.len() == 0
            &&& i.workflow_id.len() == 0
            &&& i.description is Some
            &&& i.extra.contains(("event_count"@, decimal(count_of(f.events) as nat)))
            &&& i.extra.contains(("user_count"@, decimal(count_of(f.users) as nat)))
            &&& f.first_seen is Some ==> i.extra.contains(("first_seen"@, f.first_seen->0))
            &&& f.last_seen is Some ==> i.extra.contains(("last_seen"@, f.last_seen->0))
            &&& f.culprit is Some && trimmed_of(f.culprit->0, '`').len() > 0 ==> i.extra.contains(
                ("culprit"@, trimmed_of(f.culprit->0, '`')),
            )
            &&& f.culprit is None ==> i.extra.len() == 4
        },
{
    if let Some(i) = crash_issue(config, f) {
        let e = i.extra;
        assert(e[0] == ("event_count"@, decimal(count_of(f.events) as nat)));
        assert(e[1] == ("user_count"@, decimal(count_of(f.users) as nat)));
        assert(e[2] == ("first_seen"@, or_blank(f.first_seen)));
        assert(e[3] == ("last_seen"@, or_blank(f.last_seen)));
        if f.culprit is Some && trimmed_of(f.culprit->0, '`').len() > 0 {
            assert(e[4] == ("culprit"@, trimmed_of(f.culprit->0, '`')));
        }
        if f.culprit is None {
            assert(or_blank(f.culprit) =~= seq![]);
            lemma_nothing_to_trim('`');
        }
    }
}

proof fn lemma_nothing_to_trim(c: char)
    ensures
        trimmed_of(seq![], c).len() == 0,
{
    let e = Seq::<char>::empty();
    assert(seq![] =~= e);
}

/// The description of a crash tells its title, culprit, numbers, times and link, each
/// behind its own label.
pub proof fn law_description_of_a_crash(f: SentryFieldsView)
    ensures
        ({
            let d = crash_description(f);
            &&& holds(d, "Sentry crash: "@ + f.title)
            &&& f.culprit is Some ==> holds(d, "Culprit: "@ + trimmed_of(f.culprit->0, '`'))
            &&& holds(d, "Events: "@ + decimal(count_of(f.events) as nat))
            &&& holds(d, "Users affected: "@ + decimal(count_of(f.users) as nat))
            &&& f.first_seen is Some ==> holds(d, "First seen: "@ + f.first_seen->0)
            &&& f.last_seen is Some ==> holds(d, "Last seen: "@ + f.last_seen->0)
            &&& holds(d, "Sentry link: "@ + f.url)
        }),
{
    let d = crash_description(f);
    let events = decimal(count_of(f.events) as nat);
    let users = decimal(count_of(f.users) as nat);
    let culprit = trimmed_of(or_blank(f.culprit), '`');
    let first = or_blank(f.first_seen);
    let last = or_blank(f.last_seen);
    assert("\n\nCulprit: "@ =~= "\n\n"@ + "Culprit: "@) by {
        reveal_strlit("\n\nCulprit: ");
        reveal_strlit("\n\n");
        reveal_strlit("Culprit: ");
    }
    assert("\nEvents: "@ =~= "\n"@ + "Events: "@) by {
        reveal_strlit("\nEvents: ");
        reveal_strlit("\n");
        reveal_strlit("Events: ");
    }
    assert(" | Users affected: "@ =~= " | "@ + "Users affected: "@) by {
        reveal_strlit(" | Users affected: ");
        reveal_strlit(" | ");
        reveal_strlit("Users affected: ");
    }
    assert("\nFirst seen: "@ =~= "\n"@ + "First seen: "@) by {
        reveal_strlit("\nFirst seen: ");
        reveal_strlit("\n");
        reveal_strlit("First seen: ");
    }
    assert(" | Last seen: "@ =~= " | "@ + "Last seen: "@) by {
        reveal_strlit(" | Last seen: ");
        reveal_strlit(" | ");
        reveal_strlit("Last seen: ");
    }
    assert("\nSentry link: "@ =~= "\n"@ + "Sentry link: "@) by {
        reveal_strlit("\nSentry link: ");
        reveal_strlit("\n");
        reveal_strlit("Sentry link: ");
    }
    let d0 = "Sentry crash: "@ + f.title;
    let d1 = d0 + "\n\nCulprit: "@;
    let d2 = d1 + culprit;
    let d3 = d2 + "\nEvents: "@;
    let d4 = d3 + events;
    let d5 = d4 + " | Users affected: "@;
    let d6 = d5 + users;
    let d7 = d6 + "\nFirst seen: "@;
    let d8 = d7 + first;
    let d9 = d8 + " | Last seen: "@;
    let d10 = d9 + last;
    let d11 = d10 + "\nSentry link: "@;
    lemma_holds(d0, seq![], "Sentry crash: "@ + f.title, seq![]);
    lemma_holds_last(d0, "\n\n"@, "Culprit: "@, culprit);
    lemma_holds_last(d2, "\n"@, "Events: "@, events);
    lemma_holds_last(d4, " | "@, "Users affected: "@, users);
    lemma_holds_last(d6, "\n"@, "First seen: "@, first);
    lemma_holds_last(d8, " | "@, "Last seen: "@, last);
    lemma_holds_last(d10, "\n"@, "Sentry link: "@, f.url);
    lemma_holds_grows(d0, "\n\nCulprit: "@);
    lemma_holds_grows(d1, culprit);
    lemma_holds_grows(d2, "\nEvents: "@);
    lemma_holds_grows(d3, events);
    lemma_holds_grows(d4, " | Users affected: "@);
    lemma_holds_grows(d5, users);
    lemma_holds_grows(d6, "\nFirst seen: "@);
    lemma_holds_grows(d7, first);
    lemma_holds_grows(d8, " | Last seen: "@);
    lemma_holds_grows(d9, last);
    lemma_holds_grows(d10, "\nSentry link: "@);
    lemma_holds_grows(d11, f.url);
    assert(d == d11 + f.url);
}

/// A section with a header is read as the crash that the header names; one without is
/// none.
pub proof fn law_section_read_by_its_header(
    config: SentryConfigView,
    section: Seq<char>,
    found: Seq<Seq<Option<Seq<char>>>>,
)
    requires
        regex_captures(r"##\s+\d+\.\s+\[([^\]]+)\]\(([^)]+)\)"@, section) == Some(found),
    ensures
        found.len() == 0 ==> issue_of_section(config, section) is None,
        found.len() > 0 && found[0].len() > 2 && found[0][1] is Some && found[0][2] is Some
            ==> issue_of_section(config, section) == crash_issue(
            config,
            fields_of(section, (found[0][1]->0, found[0][2]->0)),
        ),
{
}

/// Sections are read one by one and in order; those that are no issues leave nothing.
pub proof fn law_sections_read_in_order(
    a: Seq<Seq<char>>,
    b: Seq<Seq<char>>,
    config: SentryConfigView,
)
    ensures
        issues_of_sections(config, a + b) == issues_of_sections(config, a) + issues_of_sections(config, b),
        a.len() == 1 ==> issues_of_sections(config, a) == (match issue_of_section(config, a[0]) {
            Some(i) => seq![i],
            None => seq![],
        }),
    decreases b.len(),
{
    if a.len() == 1 {
        assert(a.drop_last() =~= seq![]);
        reveal_with_fuel(issues_of_sections, 2);
        assert(a.last() == a[0]);
        assert(issues_of_sections(config, a) =~= (match issue_of_section(config, a[0]) {
            Some(i) => seq![i],
            None => seq![],
        }));
    }
    if b.len() > 0 {
        law_sections_read_in_order(a, b.drop_last(), config);
        assert((a + b).drop_last() =~= a + b.drop_last());
        assert(issues_of_sections(config, a + b) =~= issues_of_sections(config, a) + issues_of_sections(config, b));
    } else {
        assert(a + b =~= a);
        assert(issues_of_sections(config, a) + issues_of_sections(config, b) =~= issues_of_sections(config, a));
    }
}

/// Each header begins a section of its own, with what stands between it and the next.
pub proof fn law_sections_by_headers(
    headers: Seq<Seq<Option<Seq<char>>>>,
    parts: Seq<Seq<char>>,
    i: int,
)
    requires
        0 <= i < headers.len(),
        parts.len() == headers.len() + 1,
        headers[i].len() > 0,
        headers[i][0] is Some,
    ensures
        sections_of(headers, parts).len() == headers.len(),
        sections_of(headers, parts)[i] == headers[i][0]->0 + parts[i + 1],
{
}

/// The sections of an answer are what its headers begin; where the text cannot be taken
/// apart there are none.
pub proof fn law_sections_found_by_header(text: Seq<char>)
    ensures
        ({
            let p = r"##\s+\d+\.\s+\[([^\]]+)\]\(([^)]+)\)"@;
            match (regex_captures(p, text), regex_split(p, text)) {
                (Some(headers), Some(parts)) => sections_in(text) == sections_of(headers, parts),
                _ => sections_in(text).len() == 0,
            }
        }),
{
}

} // verus!
