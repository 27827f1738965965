//! What is shown of the programs the shell starts.
use vstd::prelude::*;
use crate::text::{decimal, join, join_strings, owned, push_char, push_decimal, push_str, views};

verus! {

/// How a background job is listed: the program, its arguments and ` &`.
pub open spec fn background_label(name: Seq<char>, args: Seq<Seq<char>>) -> Seq<char> {
    name + (if args.len() > 0 {
        " "@ + join(args, " "@)
    } else {
        Seq::empty()
    }) + " &"@
}

/// The command line under which a program started in the background is listed.
pub fn background_command_line(name: &str, args: &[String]) -> (r: String)
    ensures
        r@ == background_label(name@, views(args@)),
{
    let mut r = owned(name);
    if args.len() > 0 {
        push_str(&mut r, " ");
        let joined = join_strings(args, " ");
        push_str(&mut r, joined.as_str());
    }
    push_str(&mut r, " &");
    assert(r@ =~= background_label(name@, views(args@)));
    r
}

/// The line shown when a background job starts: its number in brackets and the
/// process identifier.
pub fn job_started_line(id: usize, pid: u32) -> (r: String)
    ensures
        r@ == "["@ + decimal(id as nat) + "] "@ + decimal(pid as nat) + "\n"@,
{
    let mut r = owned("[");
    push_decimal(&mut r, id as u128);
    push_str(&mut r, "] ");
    push_decimal(&mut r, pid as u128);
    push_str(&mut r, "\n");
    r
}

} // verus!
