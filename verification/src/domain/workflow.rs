//! Workflows and the keys under which their issues are known.
use vstd::prelude::*;
use crate::paths::{file_name, last_name, named};
use crate::text::{
    cat3, find_chars, find_from, has_prefix, lemma_find_from, lemma_pieces_clean, occurs_at, pieces,
    slice, str_eq, strip_prefix, strip_suffix, to_chars, without_prefix, without_suffix,
};

verus! {

/// The name of a workflow.
#[derive(Debug, PartialEq, Eq, Hash)]
pub struct WorkflowId(pub String);

impl Clone for WorkflowId {
    fn clone(&self) -> (r: Self)
        ensures
            r == *self,
    {
        WorkflowId(self.0.clone())
    }
}

/// The name that a file name gives to its workflow.
pub open spec fn workflow_name(file: Seq<char>) -> Seq<char> {
    let stem = without_suffix(file, ".md"@);
    let name = without_prefix(stem, "WORKFLOW."@);
    if name.len() == 0 || name == "WORKFLOW"@ || stem == "WORKFLOW"@ {
        "default"@
    } else {
        name
    }
}

/// The name that a path gives to its workflow.
pub open spec fn workflow_of_path(path: Seq<char>) -> Seq<char> {
    match last_name(path) {
        Some(file) => workflow_name(file),
        None => workflow_name("WORKFLOW.md"@),
    }
}

/// The key of an issue in a workflow: `"{workflow_id}/{issue_id}"`.
pub open spec fn key_of(workflow: Seq<char>, issue: Seq<char>) -> Seq<char> {
    workflow + "/"@ + issue
}

/// The issue of a key: what follows the first "/", or all of it where there is none.
pub open spec fn issue_of_key(key: Seq<char>) -> Seq<char> {
    match find_from(key, "/"@, 0) {
        Some(i) => key.skip(i + 1),
        None => key,
    }
}

impl WorkflowId {
    /// Derive a workflow ID from a file path.
    ///
    /// `WORKFLOW.md` gives `"default"`,
    /// `WORKFLOW.bugs.md` gives `"bugs"`,
    /// `path/to/WORKFLOW.foo.bar.md` gives `"foo.bar"`.
    pub fn from_path(path: &str) -> (r: Self)
        ensures
            r.0@ == workflow_of_path(path@),
    {
        let file = match file_name(path) {
            Some(f) => f,
            None => "WORKFLOW.md".to_owned(),
        };
        let stem = match strip_suffix(file.as_str(), ".md") {
            Some(s) => s,
            None => file,
        };
        let name = match strip_prefix(stem.as_str(), "WORKFLOW.") {
            Some(s) => s,
            None => stem.clone(),
        };
        if name.as_str().is_empty() || str_eq(name.as_str(), "WORKFLOW") || str_eq(
            stem.as_str(),
            "WORKFLOW",
        ) {
            WorkflowId("default".to_owned())
        } else {
            WorkflowId(name)
        }
    }

    /// Build a composite state key: `"{workflow_id}/{issue_id}"`.
    ///
    /// For the "default" workflow, this still prefixes so that all workflows
    /// use a consistent key format.
    pub fn state_key(&self, issue_id: &str) -> (r: String)
        ensures
            r@ == key_of(self.0@, issue_id@),
    {
        cat3(self.0.as_str(), "/", issue_id)
    }
}

/// The issue of a state key.
pub fn issue_id_of_key(key: &str) -> (r: String)
    ensures
        r@ == issue_of_key(key@),
{
    proof {
        reveal_strlit("/");
    }
    let v = to_chars(key);
    let slash = to_chars("/");
    match find_chars(&v, &slash, 0) {
        Some(i) => {
            assert(v@.subrange(i + 1, v@.len() as int) =~= v@.skip(i + 1));
            slice(&v, i + 1, v.len())
        },
        None => key.to_owned(),
    }
}

/// A workflow's name never holds a "/".
pub proof fn law_path_names_hold_no_slash(path: Seq<char>)
    ensures
        !workflow_of_path(path).contains('/'),
{
    reveal_strlit("default");
    reveal_strlit("WORKFLOW.md");
    let file = match last_name(path) {
        Some(f) => f,
        None => "WORKFLOW.md"@,
    };
    assert(!file.contains('/')) by {
        lemma_pieces_clean(path, '/');
        lemma_named_from(pieces(path, '/'));
        if last_name(path) is Some {
            let cs = named(pieces(path, '/'));
            assert(cs[cs.len() - 1] == file);
            assert(pieces(path, '/').contains(file));
        }
    }
    let stem = without_suffix(file, ".md"@);
    let name = without_prefix(stem, "WORKFLOW."@);
    assert(!stem.contains('/')) by {
        if stem.contains('/') {
            assert(file[stem.index_of('/')] == '/');
        }
    }
    assert(!name.contains('/')) by {
        if name.contains('/') {
            let k = name.index_of('/');
            let cut = "WORKFLOW."@.len() as int;
            if has_prefix(stem, "WORKFLOW."@) {
                assert(stem[k + cut] == '/');
            }
        }
    }
}

proof fn lemma_named_from(ps: Seq<Seq<char>>)
    ensures
        forall|i: int| 0 <= i < named(ps).len() ==> ps.contains(#[trigger] named(ps)[i]),
    decreases ps.len(),
{
    if ps.len() > 0 {
        lemma_named_from(ps.drop_last());
        assert forall|i: int| 0 <= i < named(ps).len() implies ps.contains(
            #[trigger] named(ps)[i],
        ) by {
            let before = named(ps.drop_last());
            if i < before.len() {
                assert(ps.drop_last().contains(before[i]));
                let k = ps.drop_last().index_of(before[i]);
                assert(ps[k] == before[i]);
            } else {
                assert(ps[ps.len() - 1] == named(ps)[i]);
            }
        }
    }
}

proof fn lemma_first_slash(workflow: Seq<char>, issue: Seq<char>)
    requires
        !workflow.contains('/'),
    ensures
        find_from(key_of(workflow, issue), "/"@, 0) == Some(workflow.len() as int),
{
    reveal_strlit("/");
    let key = key_of(workflow, issue);
    let n = workflow.len() as int;
    assert(key.subrange(n, n + 1) =~= "/"@);
    assert(occurs_at(key, "/"@, n));
    lemma_find_from(key, "/"@, 0);
    let i = find_from(key, "/"@, 0)->0;
    if i < n {
        assert(key.subrange(i, i + 1)[0] == '/');
        assert(workflow[i] == '/');
    }
}

/// The issue of a key is the issue that the key was made for.
pub proof fn law_key_gives_issue_back(workflow: Seq<char>, issue: Seq<char>)
    requires
        !workflow.contains('/'),
    ensures
        issue_of_key(key_of(workflow, issue)) == issue,
{
    lemma_first_slash(workflow, issue);
    reveal_strlit("/");
    assert(issue_of_key(key_of(workflow, issue)) =~= issue);
}

/// Two workflows, or two issues of one workflow, never share a key.
pub proof fn law_keys_apart(w1: Seq<char>, i1: Seq<char>, w2: Seq<char>, i2: Seq<char>)
    requires
        !w1.contains('/'),
        !w2.contains('/'),
        key_of(w1, i1) == key_of(w2, i2),
    ensures
        w1 == w2,
        i1 == i2,
{
    lemma_first_slash(w1, i1);
    lemma_first_slash(w2, i2);
    law_key_gives_issue_back(w1, i1);
    law_key_gives_issue_back(w2, i2);
    assert(w1 =~= key_of(w1, i1).take(w1.len() as int));
    assert(w2 =~= key_of(w2, i2).take(w2.len() as int));
}

/// A file called "WORKFLOW.", a name and ".md" gives that name to its workflow.
pub proof fn law_workflow_named_by_its_file(name: Seq<char>)
    requires
        name.len() > 0,
        name != "WORKFLOW"@,
    ensures
        workflow_name("WORKFLOW."@ + name + ".md"@) == name,
{
    let head = "WORKFLOW."@;
    let tail = ".md"@;
    let file = head + name + tail;
    reveal_strlit("WORKFLOW.");
    reveal_strlit("WORKFLOW");
    reveal_strlit(".md");
    let stem = head + name;
    assert(file.subrange(file.len() - tail.len(), file.len() - tail.len() + tail.len()) =~= tail);
    assert(file.take(file.len() - tail.len()) =~= stem);
    assert(stem.subrange(0, head.len() as int) =~= head);
    assert(stem.skip(head.len() as int) =~= name);
    assert(stem.len() > "WORKFLOW"@.len());
}

/// The plain file "WORKFLOW.md" gives the name "default", and no workflow is left
/// without a name.
pub proof fn law_plain_workflow_is_default(file: Seq<char>)
    ensures
        workflow_name("WORKFLOW.md"@) == "default"@,
        workflow_name(file).len() > 0,
{
    let plain = "WORKFLOW.md"@;
    let tail = ".md"@;
    reveal_strlit("WORKFLOW.md");
    reveal_strlit("WORKFLOW.");
    reveal_strlit("WORKFLOW");
    reveal_strlit(".md");
    reveal_strlit("default");
    assert(plain.subrange(plain.len() - tail.len(), plain.len() - tail.len() + tail.len()) =~= tail);
    assert(plain.take(plain.len() - tail.len()) =~= "WORKFLOW"@);
}

} // verus!
