//! The shell's session state: variables, completion specifications, command
//! history, background jobs and the transaction registry.
use vstd::prelude::*;
use crate::chronos::transaction::manager::Transaction;
use crate::strmap::StringMap;

pub mod history;
pub mod jobs;
pub mod variables;

verus! {

/// Everything the shell remembers during a session.
pub struct ShellState {
    pub variables: StringMap,
    pub completions: StringMap,
    pub history: history::History,
    pub jobs: Vec<jobs::Job>,
    pub transactions: Vec<Transaction>,
}

impl ShellState {
    /// A fresh session with the given transaction registry (loaded from disk).
    pub fn new(transactions: Vec<Transaction>) -> (s: ShellState)
        ensures
            s.variables@ == Map::<Seq<char>, Seq<char>>::empty(),
            s.completions@ == Map::<Seq<char>, Seq<char>>::empty(),
            s.history.entries@ == Seq::<String>::empty(),
            s.history.last_appended == 0,
            s.jobs@ == Seq::<jobs::Job>::empty(),
            s.transactions == transactions,
    {
        ShellState {
            variables: StringMap::new(),
            completions: StringMap::new(),
            history: history::History::new(),
            jobs: Vec::new(),
            transactions,
        }
    }
}

} // verus!
