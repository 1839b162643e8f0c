//! What is settled when the program starts.
use vstd::prelude::*;
use crate::collections::StringSet;
use crate::domain::workflow::WorkflowId;
use crate::text::cat3;

verus! {

/// Note that a workflow was loaded; each workflow file must have a name of its
/// own.
pub fn claim_workflow(seen: &mut StringSet, id: &WorkflowId) -> (r: Result<(), String>)
    requires
        old(seen).wf(),
    ensures
        final(seen).wf(),
        match r {
            Ok(_) => !old(seen).elems().contains(id.0@) && final(seen).elems()
                == old(seen).elems().insert(id.0@),
            Err(m) => {
                &&& old(seen).elems().contains(id.0@)
                &&& final(seen).elems() == old(seen).elems()
                &&& m@ == "duplicate workflow ID \""@ + id.0@
                    + "\": each WORKFLOW file must have a unique name"@
            },
        },
{
    if seen.contains(id.0.as_str()) {
        return Err(
            cat3(
                "duplicate workflow ID \"",
                id.0.as_str(),
                "\": each WORKFLOW file must have a unique name",
            ),
        );
    }
    seen.insert(id.0.clone());
    Ok(())
}

/// The port of the HTTP server: the one given on the command line, else the one
/// in the first workflow file, else 8080.
pub fn server_port(given: Option<u16>, configured: Option<u16>) -> (r: u16)
    ensures
        r == match (given, configured) {
            (Some(p), _) => p,
            (None, Some(p)) => p,
            (None, None) => 8080,
        },
{
    match given {
        Some(p) => p,
        None => match configured {
            Some(p) => p,
            None => 8080,
        },
    }
}

} // verus!
