//! WORKFLOW files: front matter and prompt.
use vstd::prelude::*;
use crate::collections::StringMap;
use crate::config::env::{expand_config, expanded_config};
use crate::config::schema::{ServiceConfig, ServiceConfigView};
use crate::error::{Error, Result};
use crate::text::{
    find_chars, find_from, has_prefix, is_space, lemma_find_from, lemma_trimmed_fixed, matches_at,
    occurs_at, slice, to_chars, trim_bounds, trimmed,
};

verus! {

/// The front matter and the prompt of a WORKFLOW file, or why it has none.
pub open spec fn workflow_parts(content: Seq<char>) -> std::result::Result<
    (Seq<char>, Seq<char>),
    Seq<char>,
> {
    let text = trimmed(content);
    if !has_prefix(text, "---"@) {
        Err("WORKFLOW.md must start with --- front matter delimiter"@)
    } else {
        match find_from(text, "\n---"@, 3) {
            Some(end) => Ok((text.subrange(3, end), trimmed(text.skip(end + 4)))),
            None => Err("missing closing --- front matter delimiter"@),
        }
    }
}

/// Split a WORKFLOW.md file into its YAML front matter and its prompt.
///
/// Expected format:
/// ```text
/// ---
/// tracker:
///   kind: notion
/// ---
/// You are working on issue {{ issue.identifier }}...
/// ```
pub fn split_workflow(content: &str) -> (r: Result<(String, String)>)
    ensures
        match r {
            Ok((yaml, prompt)) => workflow_parts(content@) == Ok::<(Seq<char>, Seq<char>), Seq<char>>(
                (yaml@, prompt@),
            ),
            Err(e) => e is Workflow && workflow_parts(content@) == Err::<
                (Seq<char>, Seq<char>),
                Seq<char>,
            >(e.detail()),
        },
{
    proof {
        reveal_strlit("---");
        reveal_strlit("\n---");
    }
    let whole = to_chars(content);
    let (a, b) = trim_bounds(&whole, 0, whole.len());
    assert(whole@.subrange(0, whole@.len() as int) =~= whole@);
    let text_string = slice(&whole, a, b);
    let text = to_chars(text_string.as_str());
    let open = to_chars("---");
    let close = to_chars("\n---");
    if !matches_at(&text, &open, 0) {
        return Err(
            Error::Workflow("WORKFLOW.md must start with --- front matter delimiter".to_owned()),
        );
    }
    match find_chars(&text, &close, 3) {
        Some(end) => {
            let yaml = slice(&text, 3, end);
            let (i, k) = trim_bounds(&text, end + 4, text.len());
            assert(text@.subrange(end + 4, text@.len() as int) =~= text@.skip(end + 4));
            let prompt = slice(&text, i, k);
            Ok((yaml, prompt))
        },
        None => Err(Error::Workflow("missing closing --- front matter delimiter".to_owned())),
    }
}

/// The configuration that a WORKFLOW file gives: what its front matter says,
/// its prompt, and the environment's values for the variables in it.
pub fn complete_config(
    config: ServiceConfig,
    prompt: &str,
    env: &StringMap<String>,
) -> (r: ServiceConfig)
    requires
        env.wf(),
    ensures
        r.deep_view() == expanded_config(
            (ServiceConfigView { prompt_template: prompt@, ..config.deep_view() }),
            env@,
        ),
        r.deep_view().prompt_template == prompt@,
        config.mcp_servers.wf() ==> r.mcp_servers.wf(),
{
    let mut config = config;
    config.prompt_template = prompt.to_owned();
    expand_config(&mut config, env);
    config
}

/// A file made of delimited front matter and a prompt is split into the two:
/// the front matter up to its first line that starts with "---", the prompt
/// as it is, where no white space surrounds it.
pub proof fn law_framed_workflow_splits(yaml: Seq<char>, prompt: Seq<char>)
    requires
        prompt.len() > 0,
        !is_space(prompt[0]),
        !is_space(prompt.last()),
        forall|i: int| 0 <= i < yaml.len() ==> !#[trigger] occurs_at(yaml + "\n---"@, "\n---"@, i),
    ensures
        workflow_parts("---"@ + yaml + "\n---"@ + "\n"@ + prompt) == Ok::<
            (Seq<char>, Seq<char>),
            Seq<char>,
        >((yaml, prompt)),
{
    reveal_strlit("---");
    reveal_strlit("\n---");
    reveal_strlit("\n");
    let s = "---"@ + yaml + "\n---"@ + "\n"@ + prompt;
    assert(s[0] == '-');
    assert(s.last() == prompt.last());
    lemma_trimmed_fixed(s);
    assert(s.subrange(0, 3) =~= "---"@);
    let end = 3 + yaml.len() as int;
    assert(s.subrange(end, end + 4) =~= "\n---"@);
    assert(occurs_at(s, "\n---"@, end));
    lemma_find_from(s, "\n---"@, 3);
    let found = find_from(s, "\n---"@, 3)->0;
    assert(found <= end);
    if found < end {
        let k = found - 3;
        let head = yaml + "\n---"@;
        assert(head.subrange(k, k + 4) =~= s.subrange(found, found + 4));
        assert(occurs_at(head, "\n---"@, k));
    }
    assert(s.subrange(3, found) =~= yaml);
    let rest = s.skip(found + 4);
    assert(rest =~= "\n"@ + prompt);
    lemma_trim_after_newline(prompt);
}

proof fn lemma_trim_after_newline(prompt: Seq<char>)
    requires
        prompt.len() > 0,
        !is_space(prompt[0]),
        !is_space(prompt.last()),
    ensures
        trimmed("\n"@ + prompt) == prompt,
{
    reveal_strlit("\n");
    let s = "\n"@ + prompt;
    reveal_with_fuel(crate::text::skip_space, 3);
    assert(s[0] == '\n');
    assert(s[1] == prompt[0]);
    assert(s[s.len() - 1] == prompt.last());
    assert(crate::text::skip_space(s, 0) == 1);
    assert(s.subrange(1, s.len() as int) =~= prompt);
}

/// What is split off a file are the two parts of it: "---", the front matter, a line
/// that starts with "---", and then the prompt, without the white space around it.
pub proof fn law_parts_make_up_the_file(content: Seq<char>)
    ensures
        match workflow_parts(content) {
            Ok((yaml, prompt)) => exists|rest: Seq<char>| {
                &&& trimmed(content) == #[trigger] ("---"@ + yaml + "\n---"@ + rest)
                &&& prompt == trimmed(rest)
                &&& forall|k: int| 3 <= k < 3 + yaml.len() ==> !#[trigger] occurs_at(
                    trimmed(content),
                    "\n---"@,
                    k,
                )
            },
            Err(e) => {
                ||| !has_prefix(trimmed(content), "---"@) && e
                    == "WORKFLOW.md must start with --- front matter delimiter"@
                ||| has_prefix(trimmed(content), "---"@) && (forall|k: int|
                    3 <= k ==> !#[trigger] occurs_at(trimmed(content), "\n---"@, k)) && e
                    == "missing closing --- front matter delimiter"@
            },
        },
{
    reveal_strlit("---");
    reveal_strlit("\n---");
    let t = trimmed(content);
    let bar = "\n---"@;
    lemma_find_from(t, bar, 3);
    if let Ok((yaml, prompt)) = workflow_parts(content) {
        let end = find_from(t, bar, 3)->0;
        assert(t.subrange(0, 3) =~= "---"@);
        assert(t.subrange(end, end + 4) =~= bar);
        assert(t =~= "---"@ + yaml + bar + t.skip(end + 4));
    }
}

} // verus!
