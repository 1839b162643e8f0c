//! Issues as the trackers report them.
use vstd::prelude::*;
use crate::collections::StringMap;

verus! {

/// An issue of a tracker.
#[derive(Debug)]
pub struct Issue {
    /// Unique identifier from the ID property, e.g. "TASK-123456".
    pub identifier: String,
    pub title: String,
    pub description: Option<String>,
    pub status: String,
    pub priority: Option<String>,
    pub url: Option<String>,
    pub notion_page_id: Option<String>,
    pub blockers: Vec<Blocker>,
    /// Which tracker the issue came from, e.g. "notion".
    pub source: String,
    /// Extra properties extracted from the tracker (e.g. "platform", "severity").
    pub extra: StringMap<String>,
    pub comments: Vec<Comment>,
    /// The workflow that picked the issue up; empty until one does.
    pub workflow_id: String,
}

/// An issue that another one waits for.
#[derive(Debug)]
pub struct Blocker {
    pub identifier: String,
    pub title: String,
    pub status: String,
}

/// A comment on an issue.
#[derive(Debug)]
pub struct Comment {
    pub author: String,
    pub body: String,
    pub created_at: Option<String>,
}

/// What an issue holds.
#[verifier::ext_equal]
pub struct IssueView {
    pub identifier: Seq<char>,
    pub title: Seq<char>,
    pub description: Option<Seq<char>>,
    pub status: Seq<char>,
    pub priority: Option<Seq<char>>,
    pub url: Option<Seq<char>>,
    pub notion_page_id: Option<Seq<char>>,
    pub blockers: Seq<BlockerView>,
    pub source: Seq<char>,
    pub extra: Seq<(Seq<char>, Seq<char>)>,
    pub comments: Seq<CommentView>,
    pub workflow_id: Seq<char>,
}

/// What a blocker holds.
#[verifier::ext_equal]
pub struct BlockerView {
    pub identifier: Seq<char>,
    pub title: Seq<char>,
    pub status: Seq<char>,
}

/// What a comment holds.
#[verifier::ext_equal]
pub struct CommentView {
    pub author: Seq<char>,
    pub body: Seq<char>,
    pub created_at: Option<Seq<char>>,
}

impl DeepView for Blocker {
    type V = BlockerView;

    open spec fn deep_view(&self) -> BlockerView {
        BlockerView {
            identifier: self.identifier@,
            title: self.title@,
            status: self.status@,
        }
    }
}

impl DeepView for Comment {
    type V = CommentView;

    open spec fn deep_view(&self) -> CommentView {
        CommentView {
            author: self.author@,
            body: self.body@,
            created_at: self.created_at.deep_view(),
        }
    }
}

impl DeepView for Issue {
    type V = IssueView;

    open spec fn deep_view(&self) -> IssueView {
        IssueView {
            identifier: self.identifier@,
            title: self.title@,
            description: self.description.deep_view(),
            status: self.status@,
            priority: self.priority.deep_view(),
            url: self.url.deep_view(),
            notion_page_id: self.notion_page_id.deep_view(),
            blockers: self.blockers.deep_view(),
            source: self.source@,
            extra: self.extra.deep_view(),
            comments: self.comments.deep_view(),
            workflow_id: self.workflow_id@,
        }
    }
}

impl Clone for Blocker {
    fn clone(&self) -> (r: Self)
        ensures
            r == *self,
    {
        Blocker {
            identifier: self.identifier.clone(),
            title: self.title.clone(),
            status: self.status.clone(),
        }
    }
}

impl Clone for Comment {
    fn clone(&self) -> (r: Self)
        ensures
            r == *self,
    {
        Comment {
            author: self.author.clone(),
            body: self.body.clone(),
            created_at: self.created_at.clone(),
        }
    }
}

impl Clone for Issue {
    fn clone(&self) -> (r: Self)
        ensures
            r.deep_view() == self.deep_view(),
            self.extra.wf() ==> r.extra.wf(),
    {
        let r = Issue {
            identifier: self.identifier.clone(),
            title: self.title.clone(),
            description: self.description.clone(),
            status: self.status.clone(),
            priority: self.priority.clone(),
            url: self.url.clone(),
            notion_page_id: self.notion_page_id.clone(),
            blockers: self.blockers.clone(),
            source: self.source.clone(),
            extra: self.extra.clone(),
            comments: self.comments.clone(),
            workflow_id: self.workflow_id.clone(),
        };
        assert(r.blockers.deep_view() =~= self.blockers.deep_view());
        assert(r.extra.deep_view() =~= self.extra.deep_view());
        assert(r.comments.deep_view() =~= self.comments.deep_view());
        r
    }
}

} // verus!
