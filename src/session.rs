use vstd::prelude::*;
use crate::text::{trim_whitespace, trimmed};

verus! {

/// What an input line of the interactive mode asks for.
#[derive(Debug)]
pub enum LineAction {
    /// A blank line: prompt again.
    Skip,
    /// `exit` or `quit`: leave the interactive mode.
    Quit,
    /// Run this query.
    Run(String),
}

/// Reads one input line: surrounding whitespace is ignored, a blank line is skipped,
/// `exit` and `quit` end the session, and anything else is a query.
pub fn classify_line(line: &str) -> (r: LineAction)
    ensures
        trimmed(line@).len() == 0 ==> r is Skip,
        trimmed(line@) == "exit"@ || trimmed(line@) == "quit"@ ==> r is Quit,
        r is Run <==> (trimmed(line@).len() > 0 && trimmed(line@) != "exit"@ && trimmed(line@)
            != "quit"@),
        r matches LineAction::Run(q) ==> q@ == trimmed(line@),
{
    let query = trim_whitespace(line);
    if query.as_str().unicode_len() == 0 {
        proof {
            reveal_strlit("exit");
            reveal_strlit("quit");
        }
        LineAction::Skip
    } else if query == String::from_str("exit") || query == String::from_str("quit") {
        LineAction::Quit
    } else {
        LineAction::Run(query)
    }
}

} // verus!
