//! Splitting a command into a program name and its arguments.
//!
//! Tokens are separated by white space. A double quote opens or closes a
//! quoted region, in which white space belongs to the token; the quotes
//! themselves are dropped. A closing quote ends the token, and a quote that
//! is still open at the end of the text counts as closed there. Empty tokens
//! are never produced.

use vstd::prelude::*;
use crate::error::RunError;
use crate::text::{chars_of, string_of, texts};

verus! {

/// The characters that separate tokens outside quotes: space, tab, line
/// feed, form feed and carriage return.
pub open spec fn is_separator(c: char) -> bool {
    c == ' ' || c == '\t' || c == '\n' || c == '\x0C' || c == '\r'
}

/// Where the scan of a command stands.
pub struct ScanState {
    /// The tokens that are complete.
    pub tokens: Seq<Seq<char>>,
    /// The token that is being read.
    pub current: Seq<char>,
    /// Whether a quoted region is open.
    pub in_quotes: bool,
}

/// `tokens` with `current` added, unless `current` is empty.
pub open spec fn flushed(tokens: Seq<Seq<char>>, current: Seq<char>) -> Seq<Seq<char>> {
    if current.len() > 0 {
        tokens.push(current)
    } else {
        tokens
    }
}

/// The scan after one more character.
pub open spec fn scan_step(st: ScanState, c: char) -> ScanState {
    if c == '"' {
        if st.in_quotes {
            ScanState { tokens: flushed(st.tokens, st.current), current: seq![], in_quotes: false }
        } else {
            ScanState { in_quotes: true, ..st }
        }
    } else if is_separator(c) && !st.in_quotes {
        ScanState { tokens: flushed(st.tokens, st.current), current: seq![], in_quotes: false }
    } else {
        ScanState { current: st.current.push(c), ..st }
    }
}

/// The scan after all of `s`.
pub open spec fn scan(s: Seq<char>) -> ScanState
    decreases s.len(),
{
    if s.len() == 0 {
        ScanState { tokens: seq![], current: seq![], in_quotes: false }
    } else {
        scan_step(scan(s.drop_last()), s.last())
    }
}

/// The tokens of a command.
pub open spec fn tokens_of(s: Seq<char>) -> Seq<Seq<char>> {
    flushed(scan(s).tokens, scan(s).current)
}

/// No token is empty, and none holds a double quote.
pub open spec fn clean_tokens(tokens: Seq<Seq<char>>) -> bool {
    forall|i: int|
        0 <= i < tokens.len() ==> (#[trigger] tokens[i]).len() > 0 && !tokens[i].contains('"')
}

/// Every token of every command is non-empty and free of quotes.
pub proof fn lemma_tokens_clean(s: Seq<char>)
    ensures
        clean_tokens(tokens_of(s)),
        clean_tokens(scan(s).tokens),
        !scan(s).current.contains('"'),
    decreases s.len(),
{
    if s.len() > 0 {
        lemma_tokens_clean(s.drop_last());
        let before = scan(s.drop_last());
        let c = s.last();
        if !(c == '"') && !(is_separator(c) && !before.in_quotes) {
            let cur = before.current.push(c);
            assert forall|k: int| 0 <= k < cur.len() implies cur[k] != '"' by {
                if k < before.current.len() {
                    assert(before.current.contains(cur[k]));
                }
            }
        }
    }
}

/// White space that stands outside quotes belongs to no token.
pub proof fn lemma_unquoted_tokens_have_no_separator(s: Seq<char>)
    requires
        !s.contains('"'),
    ensures
        !scan(s).in_quotes,
        forall|k: int| 0 <= k < scan(s).current.len() ==> !is_separator(scan(s).current[k]),
        forall|i: int, k: int|
            0 <= i < tokens_of(s).len() && 0 <= k < tokens_of(s)[i].len() ==> !is_separator(
                #[trigger] tokens_of(s)[i][k],
            ),
        forall|i: int, k: int|
            0 <= i < scan(s).tokens.len() && 0 <= k < scan(s).tokens[i].len() ==> !is_separator(
                #[trigger] scan(s).tokens[i][k],
            ),
    decreases s.len(),
{
    if s.len() > 0 {
        let init = s.drop_last();
        assert forall|k: int| 0 <= k < init.len() implies init[k] != '"' by {
            assert(s.contains(s[k]));
        }
        lemma_unquoted_tokens_have_no_separator(init);
        assert(s.contains(s.last()));
    }
}

/// The tokens written one after the other.
pub open spec fn joined(tokens: Seq<Seq<char>>) -> Seq<char>
    decreases tokens.len(),
{
    if tokens.len() == 0 {
        seq![]
    } else {
        joined(tokens.drop_last()) + tokens.last()
    }
}

/// A command without its quotes and without the separators that stand
/// outside quotes.
pub open spec fn token_text(s: Seq<char>) -> Seq<char>
    decreases s.len(),
{
    if s.len() == 0 {
        seq![]
    } else if s.last() == '"' || (is_separator(s.last()) && !scan(s.drop_last()).in_quotes) {
        token_text(s.drop_last())
    } else {
        token_text(s.drop_last()).push(s.last())
    }
}

proof fn lemma_joined_flushed(tokens: Seq<Seq<char>>, current: Seq<char>)
    ensures
        joined(flushed(tokens, current)) == joined(tokens) + current,
{
    if current.len() > 0 {
        assert(tokens.push(current).drop_last() =~= tokens);
    } else {
        assert(joined(tokens) + current =~= joined(tokens));
    }
}

/// The tokens of a command, joined, are the command without its quotes and
/// its unquoted separators: tokenizing loses and adds no other character,
/// and keeps the order.
pub proof fn lemma_tokens_join(s: Seq<char>)
    ensures
        joined(scan(s).tokens) + scan(s).current == token_text(s),
        joined(tokens_of(s)) == token_text(s),
    decreases s.len(),
{
    if s.len() == 0 {
        assert(joined(scan(s).tokens) + scan(s).current =~= token_text(s));
    } else {
        lemma_tokens_join(s.drop_last());
        let before = scan(s.drop_last());
        let c = s.last();
        lemma_joined_flushed(before.tokens, before.current);
        if c == '"' || (is_separator(c) && !before.in_quotes) {
            assert(joined(scan(s).tokens) + scan(s).current =~= token_text(s));
        } else {
            assert(joined(before.tokens) + before.current.push(c) =~= (joined(before.tokens)
                + before.current).push(c));
        }
    }
    lemma_joined_flushed(scan(s).tokens, scan(s).current);
}

/// The scan stands between tokens: none is being read and no quote is open.
pub open spec fn at_rest(st: ScanState) -> bool {
    st.current.len() == 0 && !st.in_quotes
}

/// Where the scan of `a` ends between tokens, the tokens of `a` followed by
/// `b` are those of `a`, then those of `b`.
pub proof fn lemma_tokens_concatenate(a: Seq<char>, b: Seq<char>)
    requires
        at_rest(scan(a)),
    ensures
        scan(a + b).tokens == scan(a).tokens + scan(b).tokens,
        scan(a + b).current == scan(b).current,
        scan(a + b).in_quotes == scan(b).in_quotes,
        tokens_of(a + b) == tokens_of(a) + tokens_of(b),
    decreases b.len(),
{
    if b.len() == 0 {
        assert(a + b =~= a);
        assert(scan(a).tokens + scan(b).tokens =~= scan(a).tokens);
        assert(scan(a).current =~= scan(b).current);
    } else {
        lemma_tokens_concatenate(a, b.drop_last());
        assert((a + b).drop_last() =~= a + b.drop_last());
        assert((a + b).last() == b.last());
        let left = scan(a).tokens;
        let before = scan(b.drop_last());
        assert(flushed(left + before.tokens, before.current) =~= left + flushed(
            before.tokens,
            before.current,
        ));
        assert(scan(a + b).tokens =~= left + scan(b).tokens);
    }
    assert(flushed(scan(a).tokens + scan(b).tokens, scan(b).current) =~= scan(a).tokens + flushed(
        scan(b).tokens,
        scan(b).current,
    ));
}

fn is_separator_char(c: char) -> (r: bool)
    ensures
        r == is_separator(c),
{
    c == ' ' || c == '\t' || c == '\n' || c == '\x0C' || c == '\r'
}

/// Splits a command into its tokens: the program name first, then the
/// arguments. Fails when the command holds no token at all.
pub fn tokenize(command: &str) -> (r: Result<Vec<String>, RunError>)
    ensures
        match r {
            Ok(tokens) => texts(tokens@) == tokens_of(command@) && tokens@.len() > 0
                && clean_tokens(texts(tokens@)),
            Err(e) => e is Tokenize && tokens_of(command@).len() == 0,
        },
{
    let chars = chars_of(command);
    let mut tokens: Vec<String> = Vec::new();
    let mut current: Vec<char> = Vec::new();
    let mut in_quotes = false;
    let mut i: usize = 0;
    assert(chars@.take(0) =~= Seq::<char>::empty());
    assert(texts(tokens@) =~= Seq::<Seq<char>>::empty());
    while i < chars.len()
        invariant
            i <= chars.len(),
            texts(tokens@) == scan(chars@.take(i as int)).tokens,
            current@ == scan(chars@.take(i as int)).current,
            in_quotes == scan(chars@.take(i as int)).in_quotes,
        decreases chars.len() - i,
    {
        let c = chars[i];
        proof {
            assert(chars@.take(i + 1).drop_last() =~= chars@.take(i as int));
            assert(chars@.take(i + 1).last() == c);
        }
        let ghost before = texts(tokens@);
        if c == '"' {
            if in_quotes && current.len() > 0 {
                tokens.push(string_of(&current));
                current = Vec::new();
                assert(texts(tokens@) =~= before.push(scan(chars@.take(i as int)).current));
            }
            in_quotes = !in_quotes;
        } else if is_separator_char(c) && !in_quotes {
            if current.len() > 0 {
                tokens.push(string_of(&current));
                current = Vec::new();
                assert(texts(tokens@) =~= before.push(scan(chars@.take(i as int)).current));
            }
        } else {
            current.push(c);
        }
        assert(current@ =~= scan(chars@.take(i + 1)).current);
        i += 1;
    }
    assert(chars@.take(chars.len() as int) =~= chars@);
    let ghost before = texts(tokens@);
    if current.len() > 0 {
        tokens.push(string_of(&current));
        assert(texts(tokens@) =~= before.push(current@));
    }
    proof {
        lemma_tokens_clean(command@);
    }
    if tokens.len() == 0 {
        Err(RunError::Tokenize)
    } else {
        Ok(tokens)
    }
}

} // verus!
