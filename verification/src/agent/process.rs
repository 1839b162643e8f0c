//! The agent's process: its command and its lines.
use vstd::prelude::*;
use crate::error::{Error, Result};
use crate::json::{json_parsed, parse, Json};
use crate::text::{cat2, split_whitespace, trim, trimmed, views, words};

verus! {

/// The program and the arguments of a command, separated by white space.
pub fn split_command(command: &str) -> (r: Result<(String, Vec<String>)>)
    ensures
        match r {
            Ok((program, args)) => words(command@).len() > 0 && words(command@) == seq![program@]
                + views(args@),
            Err(e) => words(command@).len() == 0 && e is Agent && e.detail()
                == "empty agent command"@,
        },
{
    let parts = split_whitespace(command);
    let mut parts = parts;
    let ghost all = views(parts@);
    if parts.len() == 0 {
        return Err(Error::Agent("empty agent command".to_owned()));
    }
    let program = parts.remove(0);
    assert(all =~= seq![program@] + views(parts@));
    Ok((program, parts))
}

/// The message that a line of the agent's output holds.
pub fn parse_line(line: &str) -> (r: Result<Json>)
    ensures
        match (r, json_parsed(trimmed(line@))) {
            (Ok(j), Ok(v)) => j.deep_view() == v,
            (Err(e), Err(m)) => e is AgentProtocol && e.detail() == "parse error on line: "@ + m,
            _ => false,
        },
{
    let text = trim(line);
    match parse(text.as_str()) {
        Ok(j) => Ok(j),
        Err(m) => Err(Error::AgentProtocol(cat2("parse error on line: ", m.as_str()))),
    }
}

} // verus!
