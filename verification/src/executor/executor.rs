//! How an input line is routed: split at `|` tokens into the commands of a pipeline.
use vstd::prelude::*;
use crate::lexer::lexer::{spec_tokenize, tokenize};
use crate::text::{lemma_views_push, str_eq, views};

verus! {

/// The views of a list of token lists.
pub open spec fn chunk_views(v: Seq<Vec<String>>) -> Seq<Seq<Seq<char>>> {
    v.map_values(|c: Vec<String>| views(c@))
}

/// The tokens split at each `|` token, which itself is dropped: one more part than
/// there are `|` tokens, parts possibly empty.
pub open spec fn split_pipes(tokens: Seq<Seq<char>>) -> Seq<Seq<Seq<char>>>
    decreases tokens.len(),
{
    if tokens.len() == 0 {
        seq![Seq::empty()]
    } else {
        let c = split_pipes(tokens.drop_last());
        if tokens.last() == "|"@ {
            c.push(Seq::empty())
        } else {
            c.update(c.len() - 1, c.last().push(tokens.last()))
        }
    }
}

/// The number of `|` tokens.
pub open spec fn pipe_count(tokens: Seq<Seq<char>>) -> nat
    decreases tokens.len(),
{
    if tokens.len() == 0 {
        0
    } else {
        pipe_count(tokens.drop_last()) + if tokens.last() == "|"@ { 1nat } else { 0nat }
    }
}

/// Where an input line goes: a single command, or a pipeline of several.
pub enum Route {
    Single(Vec<String>),
    Pipeline(Vec<Vec<String>>),
}

/// The model of a [`Route`].
pub enum RouteModel {
    Single(Seq<Seq<char>>),
    Pipeline(Seq<Seq<Seq<char>>>),
}

impl View for Route {
    type V = RouteModel;

    open spec fn view(&self) -> RouteModel {
        match self {
            Route::Single(c) => RouteModel::Single(views(c@)),
            Route::Pipeline(cs) => RouteModel::Pipeline(chunk_views(cs@)),
        }
    }
}

/// The route of an input line: its tokens split at `|`; more than one part makes a
/// pipeline, a single part is run on its own.
pub open spec fn spec_route(input: Seq<char>) -> RouteModel {
    let chunks = split_pipes(spec_tokenize(input));
    if chunks.len() > 1 {
        RouteModel::Pipeline(chunks)
    } else {
        RouteModel::Single(chunks[0])
    }
}

proof fn lemma_split_pipes_nonempty(tokens: Seq<Seq<char>>)
    ensures
        split_pipes(tokens).len() >= 1,
    decreases tokens.len(),
{
    if tokens.len() > 0 {
        lemma_split_pipes_nonempty(tokens.drop_last());
    }
}

/// Tokenizes an input line and decides how it runs (see [`spec_route`]).
pub fn execute_pipeline(input: &str) -> (r: Route)
    ensures
        r@ == spec_route(input@),
{
    let tokens = tokenize(input);
    let ghost t = views(tokens@);
    let mut chunks: Vec<Vec<String>> = Vec::new();
    let mut current: Vec<String> = Vec::new();
    let mut i: usize = 0;
    assert(views(current@) =~= Seq::<Seq<char>>::empty());
    assert(t.take(0) =~= Seq::<Seq<char>>::empty());
    assert(chunk_views(chunks@).push(views(current@)) =~= split_pipes(t.take(0)));
    while i < tokens.len()
        invariant
            i <= tokens@.len(),
            t == views(tokens@),
            chunk_views(chunks@).push(views(current@)) == split_pipes(t.take(i as int)),
        decreases tokens.len() - i,
    {
        let ghost before = chunk_views(chunks@).push(views(current@));
        assert(t.take(i + 1).drop_last() =~= t.take(i as int));
        assert(t.take(i + 1).last() == tokens@[i as int]@);
        let token = tokens[i].clone();
        if str_eq(token.as_str(), "|") {
            let done = current;
            current = Vec::new();
            chunks.push(done);
            assert(views(current@) =~= Seq::<Seq<char>>::empty());
            assert(chunk_views(chunks@) =~= before);
            assert(chunk_views(chunks@).push(views(current@)) =~= before.push(Seq::empty()));
        } else {
            proof {
                lemma_views_push(current@, token);
            }
            current.push(token);
            assert(chunk_views(chunks@).push(views(current@)) =~= before.update(
                before.len() - 1,
                before.last().push(t[i as int]),
            ));
        }
        i = i + 1;
    }
    assert(t.take(tokens@.len() as int) =~= t);
    let ghost last = views(current@);
    let ghost prior = chunk_views(chunks@);
    chunks.push(current);
    assert(chunk_views(chunks@) =~= prior.push(last));
    proof {
        lemma_split_pipes_nonempty(t);
    }
    if chunks.len() > 1 {
        Route::Pipeline(chunks)
    } else {
        let ghost all = chunk_views(chunks@);
        let only = chunks.pop().unwrap();
        assert(views(only@) == all[0]);
        Route::Single(only)
    }
}

/// Splitting at `|` gives one part more than there are `|` tokens, and no part holds a
/// `|` token.
pub proof fn lemma_split_pipes(tokens: Seq<Seq<char>>)
    ensures
        split_pipes(tokens).len() == pipe_count(tokens) + 1,
        forall|k: int, j: int|
            0 <= k < split_pipes(tokens).len() && 0 <= j < split_pipes(tokens)[k].len()
                ==> #[trigger] split_pipes(tokens)[k][j] != "|"@,
    decreases tokens.len(),
{
    if tokens.len() > 0 {
        let d = tokens.drop_last();
        lemma_split_pipes(d);
        let c = split_pipes(d);
        let s = split_pipes(tokens);
        if tokens.last() == "|"@ {
            assert forall|k: int, j: int| 0 <= k < s.len() && 0 <= j < s[k].len() implies #[trigger] s[k][j]
                != "|"@ by {
                assert(k < c.len());
                assert(s[k] == c[k]);
            }
        } else {
            assert forall|k: int, j: int| 0 <= k < s.len() && 0 <= j < s[k].len() implies #[trigger] s[k][j]
                != "|"@ by {
                if k < c.len() - 1 {
                    assert(s[k] == c[k]);
                } else {
                    assert(s[k] == c.last().push(tokens.last()));
                    if j < c.last().len() {
                        assert(s[k][j] == c[k][j]);
                    }
                }
            }
        }
    }
}

} // verus!
