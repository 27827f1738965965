//! Splitting a command line into words and operator tokens.
use vstd::prelude::*;
use crate::text::{chars_of, lemma_views_push, string_of, views};

verus! {

/// The state of the tokenizer between two characters.
pub struct LexState {
    pub tokens: Seq<Seq<char>>,
    pub current: Seq<char>,
    pub in_single: bool,
    pub in_double: bool,
    pub escaped: bool,
}

/// Characters that form operator tokens outside quotes.
pub open spec fn is_operator_char(c: char) -> bool {
    c == '>' || c == '<' || c == '|' || c == ';' || c == '&'
}

/// Operators whose character may be doubled (`>>`, `&&`, `||`).
pub open spec fn doubles(c: char) -> bool {
    c == '>' || c == '&' || c == '|'
}

/// Ends the word being read, if there is one.
pub open spec fn flush(st: LexState) -> LexState {
    if st.current.len() > 0 {
        LexState { tokens: st.tokens.push(st.current), current: Seq::empty(), ..st }
    } else {
        st
    }
}

/// The tokens produced from `s[i..]` when the tokenizer is in state `st` at position `i`.
pub open spec fn lex_from(s: Seq<char>, i: nat, st: LexState) -> Seq<Seq<char>>
    decreases s.len() - i,
{
    if i >= s.len() {
        flush(st).tokens
    } else {
        let c = s[i as int];
        let quoted = st.in_single || st.in_double;
        if st.escaped {
            lex_from(s, i + 1, LexState { current: st.current.push(c), escaped: false, ..st })
        } else if c == '\\' && !st.in_single {
            lex_from(s, i + 1, LexState { escaped: true, ..st })
        } else if c == '\'' && !st.in_double {
            lex_from(s, i + 1, LexState { in_single: !st.in_single, ..st })
        } else if c == '"' && !st.in_single {
            lex_from(s, i + 1, LexState { in_double: !st.in_double, ..st })
        } else if (c == ' ' || c == '\t') && !quoted {
            lex_from(s, i + 1, flush(st))
        } else if is_operator_char(c) && !quoted {
            if st.current == seq!['2'] && c == '>' {
                // `2>` is read as one token; a following `>` starts a token of its own
                lex_from(
                    s,
                    i + 1,
                    LexState { tokens: st.tokens.push(seq!['2', '>']), current: Seq::empty(), ..st },
                )
            } else if doubles(c) && i + 1 < s.len() && s[i + 1int] == c {
                let f = flush(st);
                lex_from(s, i + 2, LexState { tokens: f.tokens.push(seq![c, c]), ..f })
            } else {
                let f = flush(st);
                lex_from(s, i + 1, LexState { tokens: f.tokens.push(seq![c]), ..f })
            }
        } else {
            lex_from(s, i + 1, LexState { current: st.current.push(c), ..st })
        }
    }
}

pub open spec fn initial_lex_state() -> LexState {
    LexState {
        tokens: Seq::empty(),
        current: Seq::empty(),
        in_single: false,
        in_double: false,
        escaped: false,
    }
}

/// The tokens of a command line: words separated by blanks and tabs outside quotes,
/// quotes removed, a backslash escaping the next character (outside single quotes),
/// and the operators `> >> < | || ; & &&` as tokens of their own.
pub open spec fn spec_tokenize(s: Seq<char>) -> Seq<Seq<char>> {
    lex_from(s, 0, initial_lex_state())
}

/// Every token in `st` is non-empty.
pub open spec fn all_nonempty(tokens: Seq<Seq<char>>) -> bool {
    forall|k: int| 0 <= k < tokens.len() ==> #[trigger] tokens[k].len() > 0
}

proof fn lemma_push_nonempty(tokens: Seq<Seq<char>>, t: Seq<char>)
    requires
        all_nonempty(tokens),
        t.len() > 0,
    ensures
        all_nonempty(tokens.push(t)),
{
    assert forall|k: int| 0 <= k < tokens.len() + 1 implies #[trigger] tokens.push(t)[k].len() > 0 by {
        if k < tokens.len() {
            assert(tokens.push(t)[k] == tokens[k]);
        }
    }
}

proof fn lemma_lex_from_nonempty(s: Seq<char>, i: nat, st: LexState)
    requires
        all_nonempty(st.tokens),
    ensures
        all_nonempty(lex_from(s, i, st)),
    decreases s.len() - i,
{
    let f = flush(st);
    if st.current.len() > 0 {
        lemma_push_nonempty(st.tokens, st.current);
    }
    if i < s.len() {
        let c = s[i as int];
        lemma_push_nonempty(f.tokens, seq![c, c]);
        lemma_push_nonempty(f.tokens, seq![c]);
        lemma_push_nonempty(st.tokens, seq!['2', '>']);
        let quoted = st.in_single || st.in_double;
        if st.escaped {
            lemma_lex_from_nonempty(s, i + 1, LexState { current: st.current.push(c), escaped: false, ..st });
        } else if c == '\\' && !st.in_single {
            lemma_lex_from_nonempty(s, i + 1, LexState { escaped: true, ..st });
        } else if c == '\'' && !st.in_double {
            lemma_lex_from_nonempty(s, i + 1, LexState { in_single: !st.in_single, ..st });
        } else if c == '"' && !st.in_single {
            lemma_lex_from_nonempty(s, i + 1, LexState { in_double: !st.in_double, ..st });
        } else if (c == ' ' || c == '\t') && !quoted {
            lemma_lex_from_nonempty(s, i + 1, f);
        } else if is_operator_char(c) && !quoted {
            if st.current == seq!['2'] && c == '>' {
                lemma_lex_from_nonempty(
                    s,
                    i + 1,
                    LexState { tokens: st.tokens.push(seq!['2', '>']), current: Seq::empty(), ..st },
                );
            } else if doubles(c) && i + 1 < s.len() && s[i + 1int] == c {
                lemma_lex_from_nonempty(s, i + 2, LexState { tokens: f.tokens.push(seq![c, c]), ..f });
            } else {
                lemma_lex_from_nonempty(s, i + 1, LexState { tokens: f.tokens.push(seq![c]), ..f });
            }
        } else {
            lemma_lex_from_nonempty(s, i + 1, LexState { current: st.current.push(c), ..st });
        }
    }
}

/// No token is empty: a pair of empty quotes, or blanks, never produce a token.
pub proof fn lemma_tokens_nonempty(s: Seq<char>)
    ensures
        all_nonempty(spec_tokenize(s)),
{
    lemma_lex_from_nonempty(s, 0, initial_lex_state());
}

proof fn lemma_single_quoted_from(w: Seq<char>, k: nat)
    requires
        w.len() > 0,
        k <= w.len(),
        !w.contains('\''),
    ensures
        lex_from(
            seq!['\''] + w + seq!['\''],
            k + 1,
            LexState {
                tokens: Seq::empty(),
                current: w.take(k as int),
                in_single: true,
                in_double: false,
                escaped: false,
            },
        ) == seq![w],
    decreases w.len() - k,
{
    let s = seq!['\''] + w + seq!['\''];
    let st = LexState {
        tokens: Seq::empty(),
        current: w.take(k as int),
        in_single: true,
        in_double: false,
        escaped: false,
    };
    if k == w.len() {
        assert(s[k + 1int] == '\'');
        assert(w.take(k as int) =~= w);
        let st2 = LexState { in_single: false, ..st };
        assert(lex_from(s, k + 2, st2) == flush(st2).tokens);
        assert(flush(st2).tokens =~= seq![w]);
    } else {
        assert(s[k + 1int] == w[k as int]);
        assert(w[k as int] != '\'');
        assert(w.take(k as int).push(w[k as int]) =~= w.take(k + 1int));
        lemma_single_quoted_from(w, k + 1);
    }
}

/// Inside single quotes every character is kept as it is, double quotes, backslashes,
/// blanks and operator characters included: a single-quoted word without `'` is one
/// token, the word itself.
pub proof fn lemma_single_quotes_literal(w: Seq<char>)
    requires
        w.len() > 0,
        !w.contains('\''),
    ensures
        spec_tokenize(seq!['\''] + w + seq!['\'']) == seq![w],
{
    let s = seq!['\''] + w + seq!['\''];
    assert(s[0] == '\'');
    assert(w.take(0) =~= Seq::<char>::empty());
    lemma_single_quoted_from(w, 0);
}

fn flush_current(tokens: &mut Vec<String>, current: &mut Vec<char>)
    ensures
        final(current)@ == Seq::<char>::empty(),
        views(final(tokens)@) == if old(current)@.len() > 0 {
            views(old(tokens)@).push(old(current)@)
        } else {
            views(old(tokens)@)
        },
{
    if current.len() > 0 {
        let t = string_of(current.as_slice());
        proof {
            lemma_views_push(tokens@, t);
        }
        tokens.push(t);
        *current = Vec::new();
    } else {
        assert(current@ =~= Seq::<char>::empty());
    }
}

fn push_token(tokens: &mut Vec<String>, t: &[char])
    ensures
        views(final(tokens)@) == views(old(tokens)@).push(t@),
{
    let s = string_of(t);
    proof {
        lemma_views_push(tokens@, s);
    }
    tokens.push(s);
}

/// Splits a command line into tokens.
pub fn tokenize(input: &str) -> (tokens: Vec<String>)
    ensures
        views(tokens@) == spec_tokenize(input@),
{
    let chars = chars_of(input);
    let n = chars.len();
    let mut tokens: Vec<String> = Vec::new();
    let mut current: Vec<char> = Vec::new();
    let mut in_single = false;
    let mut in_double = false;
    let mut escaped = false;
    let mut i: usize = 0;
    assert(views(tokens@) =~= Seq::<Seq<char>>::empty());
    assert(current@ =~= Seq::<char>::empty());
    while i < n
        invariant
            n == chars@.len(),
            chars@ == input@,
            i <= n,
            lex_from(
                chars@,
                i as nat,
                LexState { tokens: views(tokens@), current: current@, in_single, in_double, escaped },
            ) == spec_tokenize(input@),
        decreases n - i,
    {
        let c = chars[i];
        let quoted = in_single || in_double;
        let ghost st = LexState {
            tokens: views(tokens@),
            current: current@,
            in_single,
            in_double,
            escaped,
        };
        if escaped {
            current.push(c);
            escaped = false;
            i = i + 1;
        } else if c == '\\' && !in_single {
            escaped = true;
            i = i + 1;
        } else if c == '\'' && !in_double {
            in_single = !in_single;
            i = i + 1;
        } else if c == '"' && !in_single {
            in_double = !in_double;
            i = i + 1;
        } else if (c == ' ' || c == '\t') && !quoted {
            flush_current(&mut tokens, &mut current);
            assert(flush(st).current =~= current@);
            i = i + 1;
        } else if (c == '>' || c == '<' || c == '|' || c == ';' || c == '&') && !quoted {
            if current.len() == 1 && current[0] == '2' && c == '>' {
                assert(current@ =~= seq!['2']);
                let redirect = ['2', '>'];
                assert(redirect@ =~= seq!['2', '>']);
                push_token(&mut tokens, &redirect);
                current = Vec::new();
                i = i + 1;
            } else {
                assert(current@ != seq!['2'] || c != '>');
                flush_current(&mut tokens, &mut current);
                assert(flush(st).current =~= current@);
                if (c == '>' || c == '&' || c == '|') && i + 1 < n && chars[i + 1] == c {
                    let pair = [c, c];
                    assert(pair@ =~= seq![c, c]);
                    push_token(&mut tokens, &pair);
                    i = i + 2;
                } else {
                    let single = [c];
                    assert(single@ =~= seq![c]);
                    push_token(&mut tokens, &single);
                    i = i + 1;
                }
            }
        } else {
            current.push(c);
            i = i + 1;
        }
    }
    flush_current(&mut tokens, &mut current);
    tokens
}

} // verus!
