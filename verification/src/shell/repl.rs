//! The decisions of the read-eval loop.
use vstd::prelude::*;
use crate::text::{char_count, trim, trimmed};

verus! {

/// What the shell does with a line read at the prompt: it runs the line without the
/// blanks around it, and passes over a blank line.
pub fn accept_line(line: &str) -> (r: Option<String>)
    ensures
        r is None <==> trim(line@).len() == 0,
        r matches Some(t) ==> t@ == trim(line@),
{
    let t = trimmed(line);
    if char_count(t.as_str()) == 0 {
        None
    } else {
        Some(t)
    }
}

} // verus!
