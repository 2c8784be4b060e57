//! Properties of tokenizing that relate its model to simpler descriptions.
use vstd::prelude::*;
use crate::chars::closing_quote;
use crate::chars::is_quote;
use crate::chars::is_unicode_whitespace;
use crate::message::lemma_skip_ws_end;
use crate::message::lemma_word_end;
use crate::message::scan;
use crate::message::skip_ws_end;
use crate::message::texts;
use crate::message::tokenize_result;
use crate::message::tokens;
use crate::message::word_at;
use crate::message::word_end;
use crate::message::words_from;
use crate::message::StringViewError;

verus! {

/// The maximal runs of non-whitespace characters of `s` from position `i` on.
pub open spec fn whitespace_split_from(s: Seq<char>, i: int) -> Seq<Seq<char>>
    decreases s.len() - i,
    via whitespace_split_decreases
{
    if i < 0 || i > s.len() {
        Seq::empty()
    } else {
        let j = skip_ws_end(s, i);
        if j >= s.len() {
            Seq::empty()
        } else {
            let k = word_end(s, j);
            seq![s.subrange(j, k)] + whitespace_split_from(s, k)
        }
    }
}

#[via_fn]
proof fn whitespace_split_decreases(s: Seq<char>, i: int) {
    if 0 <= i <= s.len() {
        lemma_skip_ws_end(s, i);
        let j = skip_ws_end(s, i);
        if j < s.len() {
            lemma_word_end(s, j + 1);
        }
    }
}

/// The maximal runs of non-whitespace characters of `s`.
pub open spec fn whitespace_split(s: Seq<char>) -> Seq<Seq<char>> {
    whitespace_split_from(s, 0)
}

/// No character of `s` is a quotation mark of the table.
pub open spec fn has_no_quotes(s: Seq<char>) -> bool {
    forall|k: int| 0 <= k < s.len() ==> !is_quote(#[trigger] s[k])
}

/// `s` does not end in a backslash that follows a non-whitespace character
/// (such a backslash is dropped from the word it ends).
pub open spec fn no_dropped_backslash(s: Seq<char>) -> bool {
    !(s.len() >= 2 && s[s.len() - 1] == '\\' && !is_unicode_whitespace(s[s.len() - 2]))
}

proof fn lemma_unquoted_scan(s: Seq<char>, i: int, acc: Seq<char>)
    requires
        1 <= i <= s.len(),
        has_no_quotes(s),
        no_dropped_backslash(s),
        !is_unicode_whitespace(s[i - 1]),
    ensures
        scan(s, i, None, acc) == Ok::<(Seq<char>, int), StringViewError>(
            (acc + s.subrange(i, word_end(s, i)), word_end(s, i)),
        ),
    decreases s.len() - i,
{
    if i == s.len() {
        assert(acc + s.subrange(i, i) =~= acc);
    } else {
        assert(!is_quote(s[i]));
        if s[i] == '\\' {
            assert(i + 1 < s.len());
            assert(!is_quote(s[i + 1]));
            lemma_unquoted_scan(s, i + 1, acc.push('\\'));
            lemma_word_end(s, i + 1);
            assert(acc.push('\\') + s.subrange(i + 1, word_end(s, i + 1)) =~= acc + s.subrange(
                i,
                word_end(s, i),
            ));
        } else if is_unicode_whitespace(s[i]) {
            assert(acc + s.subrange(i, i) =~= acc);
        } else {
            lemma_unquoted_scan(s, i + 1, acc.push(s[i]));
            lemma_word_end(s, i + 1);
            assert(acc.push(s[i]) + s.subrange(i + 1, word_end(s, i + 1)) =~= acc + s.subrange(
                i,
                word_end(s, i),
            ));
        }
    }
}

proof fn lemma_unquoted_words(s: Seq<char>, i: int)
    requires
        0 <= i <= s.len(),
        has_no_quotes(s),
        no_dropped_backslash(s),
    ensures
        words_from(s, i) == Ok::<Seq<Seq<char>>, StringViewError>(whitespace_split_from(s, i)),
    decreases s.len() - i,
{
    lemma_skip_ws_end(s, i);
    let j = skip_ws_end(s, i);
    if j < s.len() {
        assert(!is_quote(s[j]));
        assert(closing_quote(s[j]) is None);
        lemma_unquoted_scan(s, j + 1, seq![s[j]]);
        lemma_word_end(s, j + 1);
        let k = word_end(s, j);
        assert(k == word_end(s, j + 1));
        assert(seq![s[j]] + s.subrange(j + 1, k) =~= s.subrange(j, k));
        lemma_unquoted_words(s, k);
    }
}

/// A message without quotation marks splits exactly on runs of whitespace,
/// unless it ends in a backslash that closes a word (that backslash is dropped).
pub proof fn lemma_unquoted_input_splits_on_whitespace(s: Seq<char>)
    requires
        has_no_quotes(s),
        no_dropped_backslash(s),
    ensures
        tokens(s) == Ok::<Seq<Seq<char>>, StringViewError>(whitespace_split(s)),
{
    lemma_unquoted_words(s, 0);
}

proof fn lemma_quoted_scan(s: Seq<char>, i: int, quote: (char, char), acc: Seq<char>)
    requires
        1 <= i < s.len(),
        s[s.len() - 1] == quote.1,
        quote.1 != '\\',
        forall|k: int| i <= k < s.len() - 1 ==> #[trigger] s[k] != '\\' && s[k] != quote.1,
    ensures
        scan(s, i, Some(quote), acc) == Ok::<(Seq<char>, int), StringViewError>(
            (acc + s.subrange(i, s.len() - 1), s.len() as int),
        ),
    decreases s.len() - i,
{
    if i == s.len() - 1 {
        assert(acc + s.subrange(i, i) =~= acc);
    } else {
        lemma_quoted_scan(s, i + 1, quote, acc.push(s[i]));
        assert(acc.push(s[i]) + s.subrange(i + 1, s.len() - 1) =~= acc + s.subrange(
            i,
            s.len() - 1,
        ));
    }
}

/// Every opening mark of the quote table groups a word as the straight
/// double quote does: the text between an opening mark and its closing mark
/// is one word, whitespace included, when it holds neither a backslash nor
/// the closing mark.
pub proof fn lemma_quoted_text_is_one_word(open: char, w: Seq<char>)
    requires
        closing_quote(open) is Some,
        forall|k: int|
            0 <= k < w.len() ==> #[trigger] w[k] != '\\' && w[k] != closing_quote(open)->0,
    ensures
        tokens(seq![open] + w + seq![closing_quote(open)->0]) == Ok::<
            Seq<Seq<char>>,
            StringViewError,
        >(seq![w]),
{
    let close = closing_quote(open)->0;
    let s = seq![open] + w + seq![close];
    assert(s[0] == open);
    assert(!is_unicode_whitespace(open));
    assert(skip_ws_end(s, 0) == 0);
    assert(s[s.len() - 1] == close);
    assert forall|k: int| 1 <= k < s.len() - 1 implies #[trigger] s[k] != '\\' && s[k] != close by {
        assert(s[k] == w[k - 1]);
    }
    assert(close != '\\');
    lemma_quoted_scan(s, 1, (open, close), Seq::empty());
    assert(Seq::<char>::empty() + s.subrange(1, s.len() - 1) =~= w);
    assert(word_at(s, 0) == Ok::<(Seq<char>, int), StringViewError>((w, s.len() as int)));
    assert(skip_ws_end(s, s.len() as int) == s.len());
    assert(words_from(s, s.len() as int) == Ok::<Seq<Seq<char>>, StringViewError>(Seq::empty()));
    assert(seq![w] + Seq::<Seq<char>>::empty() =~= seq![w]);
}

/// Empty and all-whitespace messages have no words, and are no error.
pub proof fn lemma_blank_input_has_no_tokens(s: Seq<char>)
    requires
        forall|k: int| 0 <= k < s.len() ==> is_unicode_whitespace(#[trigger] s[k]),
    ensures
        tokens(s) == Ok::<Seq<Seq<char>>, StringViewError>(Seq::empty()),
{
    lemma_skip_ws_end(s, 0);
}

/// Tokenizing depends on the message alone: any two results that tokenizing
/// one message may give hold the same words, or the same error.
pub proof fn lemma_tokenize_is_pure(
    s: Seq<char>,
    r1: Result<Vec<String>, StringViewError>,
    r2: Result<Vec<String>, StringViewError>,
)
    requires
        tokenize_result(s, r1),
        tokenize_result(s, r2),
    ensures
        match (r1, r2) {
            (Ok(v1), Ok(v2)) => texts(v1@) == texts(v2@),
            (Err(e1), Err(e2)) => e1 == e2,
            _ => false,
        },
{
}

} // verus!
