//! The command history and its persistence to a history file.
use vstd::prelude::*;
use crate::text::{trim, trimmed, views};

verus! {

/// The commands entered in a session, and how many of them the history file already holds.
pub struct History {
    pub entries: Vec<String>,
    pub last_appended: usize,
}

impl History {
    pub fn new() -> (h: History)
        ensures
            h.entries@ == Seq::<String>::empty(),
            h.last_appended == 0,
    {
        History { entries: Vec::new(), last_appended: 0 }
    }
}

/// The commands of the history.
pub fn history_registry(h: &History) -> (r: &Vec<String>)
    ensures
        r == h.entries,
{
    &h.entries
}

/// How many commands the history file already holds.
pub fn last_appended_idx(h: &History) -> (n: usize)
    ensures
        n == h.last_appended,
{
    h.last_appended
}

/// Records a command.
pub fn add_history(h: &mut History, cmd: String)
    ensures
        final(h).entries@ == old(h).entries@.push(cmd),
        final(h).last_appended == old(h).last_appended,
{
    h.entries.push(cmd);
}

/// The lines of a history file that become history entries: those that are not blank.
pub open spec fn kept_lines(lines: Seq<Seq<char>>) -> Seq<Seq<char>>
    decreases lines.len(),
{
    if lines.len() == 0 {
        Seq::empty()
    } else {
        let rest = kept_lines(lines.drop_last());
        if trim(lines.last()).len() > 0 {
            rest.push(lines.last())
        } else {
            rest
        }
    }
}

/// Adds the non-blank lines read from a history file; the file then counts as holding
/// every entry.
pub fn append_from_lines(h: &mut History, lines: &[String])
    ensures
        views(final(h).entries@) == views(old(h).entries@) + kept_lines(views(lines@)),
        final(h).last_appended == final(h).entries@.len(),
{
    let ghost start = views(h.entries@);
    let mut i: usize = 0;
    assert(views(h.entries@) =~= start + kept_lines(views(lines@).take(0)));
    while i < lines.len()
        invariant
            i <= lines@.len(),
            views(h.entries@) == start + kept_lines(views(lines@).take(i as int)),
        decreases lines.len() - i,
    {
        let ghost t = views(lines@).take(i + 1);
        assert(t.drop_last() =~= views(lines@).take(i as int));
        assert(t.last() == lines@[i as int]@);
        let tr = trimmed(lines[i].as_str());
        if !tr.as_str().is_empty() {
            let line = lines[i].clone();
            proof {
                crate::text::lemma_views_push(h.entries@, line);
            }
            h.entries.push(line);
        }
        i = i + 1;
    }
    assert(views(lines@).take(lines@.len() as int) =~= views(lines@));
    h.last_appended = h.entries.len();
}

/// The entries from position `from` on (none when `from` is past the end).
pub open spec fn entries_from(entries: Seq<Seq<char>>, from: int) -> Seq<Seq<char>> {
    if from <= entries.len() {
        entries.skip(from)
    } else {
        Seq::empty()
    }
}

/// The entries that a history file written with `-a` has not received yet.
pub fn pending_entries(h: &History) -> (r: Vec<String>)
    ensures
        views(r@) == entries_from(views(h.entries@), h.last_appended as int),
{
    let mut r: Vec<String> = Vec::new();
    let mut i = h.last_appended;
    if i > h.entries.len() {
        assert(views(r@) =~= Seq::<Seq<char>>::empty());
        return r;
    }
    let ghost start = i;
    assert(views(r@) =~= views(h.entries@).subrange(start as int, i as int));
    while i < h.entries.len()
        invariant
            start <= i <= h.entries@.len(),
            start == h.last_appended,
            views(r@) == views(h.entries@).subrange(start as int, i as int),
        decreases h.entries.len() - i,
    {
        let e = h.entries[i].clone();
        proof {
            crate::text::lemma_views_push(r@, e);
        }
        r.push(e);
        i = i + 1;
        assert(views(r@) =~= views(h.entries@).subrange(start as int, i as int));
    }
    assert(views(h.entries@).subrange(start as int, h.entries@.len() as int) =~= views(h.entries@).skip(start as int));
    r
}

/// Records that the history file now holds every entry.
pub fn mark_saved(h: &mut History)
    ensures
        final(h).entries == old(h).entries,
        final(h).last_appended == old(h).entries@.len(),
{
    h.last_appended = h.entries.len();
}

/// Once the history file holds every entry, the entries it has not received are
/// exactly those recorded since, in order.
pub proof fn lemma_pending_after_save(saved: Seq<Seq<char>>, added: Seq<Seq<char>>)
    ensures
        entries_from(saved + added, saved.len() as int) == added,
{
    assert((saved + added).skip(saved.len() as int) =~= added);
}

} // verus!
