//! A cursor over a message string and the quote-aware tokenizer built on it.
use vstd::prelude::*;
use vstd::string::StrSliceExecFns;
use vstd::string::StringExecFns;
use crate::chars::closing_quote;
use crate::chars::closing_quote_of;
use crate::chars::is_quote;
use crate::chars::is_quote_char;
use crate::chars::is_unicode_whitespace;
use crate::chars::is_whitespace;

verus! {

/// Why a message could not be split into words.
#[derive(Debug, Clone, Copy, PartialEq, Eq, Structural)]
pub enum StringViewError {
    /// The input ended inside a quoted word; names the closing mark expected.
    ExpectedClosingQuote { close_quote: char },
    /// A quotation mark appeared inside an unquoted word.
    UnexpectedQuote { quote: char },
    /// A closing mark was followed by this character instead of whitespace.
    InvalidEndOfQuotedString { char: char },
}

impl StringViewError {
    /// The diagnostic that describes the error.
    pub open spec fn text(&self) -> Seq<char> {
        match *self {
            StringViewError::ExpectedClosingQuote { close_quote } => "Expected closing quote '"@
                + seq![close_quote] + "'"@,
            StringViewError::UnexpectedQuote { quote } => "Unexpected quote '"@ + seq![quote]
                + "' in non-quoted string."@,
            StringViewError::InvalidEndOfQuotedString { char } =>
                "Expected space after closing quotation but received "@ + seq![char],
        }
    }

    /// Renders the error for a reader.
    pub fn to_string(&self) -> (r: String)
        ensures
            r@ == self.text(),
    {
        match *self {
            StringViewError::ExpectedClosingQuote { close_quote } => {
                let mut r = String::from_str("Expected closing quote '");
                push_char(&mut r, close_quote);
                r.append("'");
                r
            },
            StringViewError::UnexpectedQuote { quote } => {
                let mut r = String::from_str("Unexpected quote '");
                push_char(&mut r, quote);
                r.append("' in non-quoted string.");
                r
            },
            StringViewError::InvalidEndOfQuotedString { char } => {
                let mut r = String::from_str(
                    "Expected space after closing quotation but received ",
                );
                push_char(&mut r, char);
                r
            },
        }
    }
}

/// Relies on `String::push`: appends one character.
#[verifier::external_body]
fn push_char(s: &mut String, c: char)
    ensures
        final(s)@ == old(s)@.push(c),
{
    s.push(c);
}

// ---------------------------------------------------------------------------
// The model of tokenizing, over the characters of the message.

/// First position at or after `i` that holds no whitespace (or the end).
pub open spec fn skip_ws_end(s: Seq<char>, i: int) -> int
    decreases s.len() - i,
{
    if i < 0 || i >= s.len() || !is_unicode_whitespace(s[i]) {
        i
    } else {
        skip_ws_end(s, i + 1)
    }
}

/// First position at or after `i` that holds whitespace (or the end).
pub open spec fn word_end(s: Seq<char>, i: int) -> int
    decreases s.len() - i,
{
    if i < 0 || i >= s.len() || is_unicode_whitespace(s[i]) {
        i
    } else {
        word_end(s, i + 1)
    }
}

/// Whether a backslash may escape `c` in a word opened by `quote`
/// (`Some((open, close))`) or in an unquoted word (`None`).
pub open spec fn escapable(quote: Option<(char, char)>, c: char) -> bool {
    match quote {
        Some((open, close)) => c == open || c == close,
        None => is_quote(c),
    }
}

/// What ends a word when the input runs out: an error inside quotes.
pub open spec fn end_of_input(
    s: Seq<char>,
    quote: Option<(char, char)>,
    acc: Seq<char>,
) -> Result<(Seq<char>, int), StringViewError> {
    match quote {
        Some((_, close)) => Err(StringViewError::ExpectedClosingQuote { close_quote: close }),
        None => Ok((acc, s.len() as int)),
    }
}

/// Scans the rest of a word from position `i`, with `acc` read so far.
/// On success gives the word's text and the position where the cursor stops.
pub open spec fn scan(
    s: Seq<char>,
    i: int,
    quote: Option<(char, char)>,
    acc: Seq<char>,
) -> Result<(Seq<char>, int), StringViewError>
    decreases s.len() - i,
{
    if i < 0 || i >= s.len() {
        end_of_input(s, quote, acc)
    } else if s[i] == '\\' {
        if i + 1 >= s.len() {
            end_of_input(s, quote, acc)
        } else if escapable(quote, s[i + 1]) {
            scan(s, i + 2, quote, acc.push(s[i + 1]))
        } else {
            scan(s, i + 1, quote, acc.push('\\'))
        }
    } else {
        match quote {
            None => {
                if is_quote(s[i]) {
                    Err(StringViewError::UnexpectedQuote { quote: s[i] })
                } else if is_unicode_whitespace(s[i]) {
                    Ok((acc, i))
                } else {
                    scan(s, i + 1, quote, acc.push(s[i]))
                }
            },
            Some((_, close)) => {
                if s[i] == close {
                    if i + 1 >= s.len() {
                        Ok((acc, s.len() as int))
                    } else if is_unicode_whitespace(s[i + 1]) {
                        Ok((acc, i + 1))
                    } else {
                        Err(StringViewError::InvalidEndOfQuotedString { char: s[i + 1] })
                    }
                } else {
                    scan(s, i + 1, quote, acc.push(s[i]))
                }
            },
        }
    }
}

/// The word that starts at position `p`: quoted when `s[p]` opens a
/// quotation, else an unquoted word that begins with `s[p]`.
pub open spec fn word_at(s: Seq<char>, p: int) -> Result<(Seq<char>, int), StringViewError> {
    match closing_quote(s[p]) {
        Some(close) => scan(s, p + 1, Some((s[p], close)), Seq::empty()),
        None => scan(s, p + 1, None, seq![s[p]]),
    }
}

/// A word that was scanned ends after where its scan started.
pub proof fn lemma_scan_end(s: Seq<char>, i: int, quote: Option<(char, char)>, acc: Seq<char>)
    requires
        0 <= i <= s.len(),
    ensures
        scan(s, i, quote, acc) matches Ok((_, k)) ==> i <= k <= s.len(),
    decreases s.len() - i,
{
    if i < s.len() {
        if s[i] == '\\' {
            if i + 1 < s.len() {
                if escapable(quote, s[i + 1]) {
                    lemma_scan_end(s, i + 2, quote, acc.push(s[i + 1]));
                } else {
                    lemma_scan_end(s, i + 1, quote, acc.push('\\'));
                }
            }
        } else {
            lemma_scan_end(s, i + 1, quote, acc.push(s[i]));
        }
    }
}

/// Whitespace skipping never moves backwards, nor past the end.
pub proof fn lemma_skip_ws_end(s: Seq<char>, i: int)
    requires
        0 <= i <= s.len(),
    ensures
        i <= skip_ws_end(s, i) <= s.len(),
        skip_ws_end(s, i) < s.len() ==> !is_unicode_whitespace(s[skip_ws_end(s, i)]),
        forall|k: int| i <= k < skip_ws_end(s, i) ==> is_unicode_whitespace(#[trigger] s[k]),
    decreases s.len() - i,
{
    if i < s.len() && is_unicode_whitespace(s[i]) {
        lemma_skip_ws_end(s, i + 1);
    }
}

/// A word ends neither before its start nor past the end of the input.
pub proof fn lemma_word_end(s: Seq<char>, i: int)
    requires
        0 <= i <= s.len(),
    ensures
        i <= word_end(s, i) <= s.len(),
        word_end(s, i) < s.len() ==> is_unicode_whitespace(s[word_end(s, i)]),
        forall|k: int| i <= k < word_end(s, i) ==> !is_unicode_whitespace(#[trigger] s[k]),
    decreases s.len() - i,
{
    if i < s.len() && !is_unicode_whitespace(s[i]) {
        lemma_word_end(s, i + 1);
    }
}

/// The words of `s` from position `i` on: whitespace between words is
/// skipped, and the first malformed word makes the whole result an error.
pub open spec fn words_from(s: Seq<char>, i: int) -> Result<Seq<Seq<char>>, StringViewError>
    decreases s.len() - i,
    via words_from_decreases
{
    if i < 0 || i > s.len() {
        Ok(Seq::empty())
    } else {
        let j = skip_ws_end(s, i);
        if j >= s.len() {
            Ok(Seq::empty())
        } else {
            match word_at(s, j) {
                Err(e) => Err(e),
                Ok((w, k)) => match words_from(s, k) {
                    Ok(rest) => Ok(seq![w] + rest),
                    Err(e) => Err(e),
                },
            }
        }
    }
}

/// A word ends after the position where it starts.
pub proof fn lemma_word_at_end(s: Seq<char>, p: int)
    requires
        0 <= p < s.len(),
    ensures
        word_at(s, p) matches Ok((_, k)) ==> p < k <= s.len(),
{
    match closing_quote(s[p]) {
        Some(close) => lemma_scan_end(s, p + 1, Some((s[p], close)), Seq::empty()),
        None => lemma_scan_end(s, p + 1, None, seq![s[p]]),
    }
}

#[via_fn]
proof fn words_from_decreases(s: Seq<char>, i: int) {
    if 0 <= i <= s.len() {
        lemma_skip_ws_end(s, i);
        let j = skip_ws_end(s, i);
        if j < s.len() {
            lemma_word_at_end(s, j);
        }
    }
}

/// The words of a whole message.
pub open spec fn tokens(s: Seq<char>) -> Result<Seq<Seq<char>>, StringViewError> {
    words_from(s, 0)
}

/// The texts of a list of strings.
pub open spec fn texts(v: Seq<String>) -> Seq<Seq<char>> {
    v.map_values(|t: String| t@)
}

} // verus!

verus! {

/// A cursor over a message, with one step of history for `undo`.
///
/// Positions count characters, not bytes.
pub struct StringView {
    /// Where the cursor stands.
    pub index: usize,
    /// The message being read.
    pub buffer: String,
    /// The number of characters in `buffer`.
    pub end: usize,
    /// Where the cursor stood before its last move.
    pub previous: usize,
}

impl StringView {
    /// The cursor's fields agree with its buffer.
    pub open spec fn wf(&self) -> bool {
        &&& self.end == self.buffer@.len()
        &&& self.previous <= self.index <= self.end
    }

    /// The cursor at the start of `buffer`.
    pub fn new(buffer: String) -> (r: Self)
        ensures
            r.wf(),
            r.buffer@ == buffer@,
            r.index == 0,
            r.previous == 0,
    {
        let buffer_len = buffer.as_str().unicode_len();
        StringView { index: 0, buffer, end: buffer_len, previous: 0 }
    }

    /// Whether the cursor has reached the end of the message.
    pub fn eof(&self) -> (r: bool)
        ensures
            r == (self.index >= self.end),
    {
        self.index >= self.end
    }

    /// The character under the cursor.
    pub fn current(&self) -> (r: Option<char>)
        requires
            self.wf(),
        ensures
            r == (if self.index < self.end {
                Some(self.buffer@[self.index as int])
            } else {
                None
            }),
    {
        if self.eof() {
            None
        } else {
            Some(self.buffer.as_str().get_char(self.index))
        }
    }

    /// Goes back to where the cursor stood before its last move.
    pub fn undo(&mut self)
        requires
            old(self).wf(),
        ensures
            final(self).wf(),
            final(self).index == old(self).previous,
            final(self).previous == old(self).previous,
            final(self).buffer == old(self).buffer,
            final(self).end == old(self).end,
    {
        self.index = self.previous;
    }

    /// Steps past the character under the cursor and returns the one it
    /// then stands on, if any.
    pub fn get(&mut self) -> (r: Option<char>)
        requires
            old(self).wf(),
            old(self).index < old(self).end,
        ensures
            final(self).wf(),
            final(self).index == old(self).index + 1,
            final(self).previous == old(self).index,
            final(self).buffer == old(self).buffer,
            final(self).end == old(self).end,
            r == (if final(self).index < final(self).end {
                Some(final(self).buffer@[final(self).index as int])
            } else {
                None
            }),
    {
        self.previous = self.index;
        self.index = self.index + 1;
        self.current()
    }

    /// Moves past a run of whitespace; true when it moved.
    pub fn skip_whitespace(&mut self) -> (r: bool)
        requires
            old(self).wf(),
        ensures
            final(self).wf(),
            final(self).index == skip_ws_end(old(self).buffer@, old(self).index as int),
            final(self).previous == old(self).index,
            final(self).buffer == old(self).buffer,
            final(self).end == old(self).end,
            r == (final(self).index != old(self).index),
    {
        let ghost s = self.buffer@;
        let mut pos: usize = self.index;
        while pos < self.end
            invariant
                self.wf(),
                s == self.buffer@,
                self.index <= pos <= self.end,
                skip_ws_end(s, pos as int) == skip_ws_end(s, self.index as int),
            ensures
                skip_ws_end(s, pos as int) == pos,
            decreases self.end - pos,
        {
            let c = self.buffer.as_str().get_char(pos);
            if !is_whitespace(c) {
                break;
            }
            pos = pos + 1;
        }
        self.previous = self.index;
        self.index = pos;
        self.previous != self.index
    }

    /// Moves past `string` when the message continues with it; true when it did.
    pub fn skip_string(&mut self, string: String) -> (r: bool)
        requires
            old(self).wf(),
        ensures
            final(self).wf(),
            final(self).buffer == old(self).buffer,
            final(self).end == old(self).end,
            r == (old(self).index + string@.len() <= old(self).end && old(self).buffer@.subrange(
                old(self).index as int,
                old(self).index + string@.len(),
            ) == string@),
            r ==> final(self).index == old(self).index + string@.len() && final(self).previous
                == old(self).index,
            !r ==> *final(self) == *old(self),
    {
        let str_len = string.as_str().unicode_len();
        if str_len > self.end - self.index {
            return false;
        }
        let mut k: usize = 0;
        while k < str_len
            invariant
                self.wf(),
                str_len == string@.len(),
                self.index + str_len <= self.end,
                k <= str_len,
                forall|t: int| 0 <= t < k ==> self.buffer@[self.index + t] == string@[t],
            decreases str_len - k,
        {
            if self.buffer.as_str().get_char(self.index + k) != string.as_str().get_char(k) {
                assert(self.buffer@.subrange(self.index as int, self.index + str_len)[k as int]
                    != string@[k as int]);
                return false;
            }
            k = k + 1;
        }
        assert(self.buffer@.subrange(self.index as int, self.index + str_len) =~= string@);
        self.previous = self.index;
        self.index = self.index + str_len;
        true
    }

    /// Reads everything from the cursor to the end of the message.
    pub fn read_rest(&mut self) -> (r: String)
        requires
            old(self).wf(),
        ensures
            final(self).wf(),
            final(self).buffer == old(self).buffer,
            final(self).end == old(self).end,
            r@ == old(self).buffer@.subrange(old(self).index as int, old(self).end as int),
            final(self).index == old(self).end,
            final(self).previous == old(self).index,
    {
        let result = String::from_str(self.buffer.as_str().substring_char(self.index, self.end));
        self.previous = self.index;
        self.index = self.end;
        result
    }

    /// Reads the next `length` characters.
    pub fn read(&mut self, length: usize) -> (r: String)
        requires
            old(self).wf(),
            old(self).index + length <= old(self).end,
        ensures
            final(self).wf(),
            final(self).buffer == old(self).buffer,
            final(self).end == old(self).end,
            r@ == old(self).buffer@.subrange(old(self).index as int, old(self).index + length),
            final(self).index == old(self).index + length,
            final(self).previous == old(self).index,
    {
        let result = String::from_str(
            self.buffer.as_str().substring_char(self.index, self.index + length),
        );
        self.previous = self.index;
        self.index = self.index + length;
        result
    }

    /// Reads the run of characters other than whitespace under the cursor,
    /// and stops on the whitespace that ends it.
    pub fn get_word(&mut self) -> (r: String)
        requires
            old(self).wf(),
        ensures
            final(self).wf(),
            final(self).buffer == old(self).buffer,
            final(self).end == old(self).end,
            final(self).index == word_end(old(self).buffer@, old(self).index as int),
            final(self).previous == old(self).index,
            r@ == old(self).buffer@.subrange(old(self).index as int, final(self).index as int),
    {
        let ghost s = self.buffer@;
        let mut pos: usize = self.index;
        while pos < self.end
            invariant
                self.wf(),
                s == self.buffer@,
                self.index <= pos <= self.end,
                word_end(s, pos as int) == word_end(s, self.index as int),
            ensures
                word_end(s, pos as int) == pos,
            decreases self.end - pos,
        {
            let c = self.buffer.as_str().get_char(pos);
            if is_whitespace(c) {
                break;
            }
            pos = pos + 1;
        }
        let result = String::from_str(self.buffer.as_str().substring_char(self.index, pos));
        self.previous = self.index;
        self.index = pos;
        result
    }

    /// Reads the word that starts under the cursor: a quoted word when the
    /// cursor stands on an opening quotation mark, else an unquoted one.
    /// `Ok(None)` when the cursor is at the end.
    pub fn get_quoted_word(&mut self) -> (r: Result<Option<String>, StringViewError>)
        requires
            old(self).wf(),
        ensures
            final(self).wf(),
            final(self).buffer == old(self).buffer,
            final(self).end == old(self).end,
            old(self).index >= old(self).end ==> r == Ok::<Option<String>, StringViewError>(None)
                && final(self).index == old(self).index,
            old(self).index < old(self).end ==> match r {
                Ok(Some(t)) => word_at(old(self).buffer@, old(self).index as int) == Ok::<
                    (Seq<char>, int),
                    StringViewError,
                >((t@, final(self).index as int)),
                Ok(None) => false,
                Err(e) => word_at(old(self).buffer@, old(self).index as int) == Err::<
                    (Seq<char>, int),
                    StringViewError,
                >(e),
            },
    {
        let ghost s = self.buffer@;
        let ghost start = self.index as int;
        let first = match self.current() {
            None => {
                return Ok(None);
            },
            Some(c) => c,
        };
        let close = closing_quote_of(first);
        let is_quoted = close.is_some();
        let close_char = match close {
            Some(c) => c,
            None => first,
        };
        let ghost quote: Option<(char, char)> = if is_quoted {
            Some((first, close_char))
        } else {
            None
        };
        let mut result = String::new();
        if !is_quoted {
            push_char(&mut result, first);
        }
        assert(result@ =~= (if is_quoted { Seq::<char>::empty() } else { seq![first] }));
        loop
            invariant
                self.wf(),
                self.buffer == old(self).buffer,
                self.end == old(self).end,
                self.buffer@ == s,
                start == old(self).index,
                start <= self.index < self.end,
                is_quoted == (quote is Some),
                is_quoted ==> quote == Some((first, close_char)),
                scan(s, self.index + 1, quote, result@) == word_at(s, start),
            decreases self.end - self.index,
        {
            let c = match self.get() {
                None => {
                    if is_quoted {
                        return Err(StringViewError::ExpectedClosingQuote { close_quote: close_char });
                    }
                    return Ok(Some(result));
                },
                Some(c) => c,
            };
            if c == '\\' {
                let n = match self.get() {
                    None => {
                        if is_quoted {
                            return Err(
                                StringViewError::ExpectedClosingQuote { close_quote: close_char },
                            );
                        }
                        return Ok(Some(result));
                    },
                    Some(n) => n,
                };
                let escaped = if is_quoted {
                    n == first || n == close_char
                } else {
                    is_quote_char(n)
                };
                if escaped {
                    push_char(&mut result, n);
                } else {
                    self.undo();
                    push_char(&mut result, c);
                }
                continue;
            }
            if !is_quoted && is_quote_char(c) {
                return Err(StringViewError::UnexpectedQuote { quote: c });
            }
            if is_quoted && c == close_char {
                return match self.get() {
                    None => Ok(Some(result)),
                    Some(n) => {
                        if is_whitespace(n) {
                            Ok(Some(result))
                        } else {
                            Err(StringViewError::InvalidEndOfQuotedString { char: n })
                        }
                    },
                };
            }
            if !is_quoted && is_whitespace(c) {
                return Ok(Some(result));
            }
            push_char(&mut result, c);
        }
    }

    /// Reads every remaining word, skipping the whitespace between them.
    /// The first malformed word makes the whole call fail.
    pub fn get_parameters(&mut self) -> (r: Result<Vec<String>, StringViewError>)
        requires
            old(self).wf(),
        ensures
            final(self).wf(),
            final(self).buffer == old(self).buffer,
            final(self).end == old(self).end,
            match r {
                Ok(v) => words_from(old(self).buffer@, old(self).index as int) == Ok::<
                    Seq<Seq<char>>,
                    StringViewError,
                >(texts(v@)),
                Err(e) => words_from(old(self).buffer@, old(self).index as int) == Err::<
                    Seq<Seq<char>>,
                    StringViewError,
                >(e),
            },
    {
        let ghost s = self.buffer@;
        let mut parameters: Vec<String> = Vec::new();
        loop
            invariant
                self.wf(),
                self.buffer == old(self).buffer,
                self.end == old(self).end,
                self.buffer@ == s,
                match words_from(s, self.index as int) {
                    Ok(rest) => words_from(s, old(self).index as int) == Ok::<
                        Seq<Seq<char>>,
                        StringViewError,
                    >(texts(parameters@) + rest),
                    Err(e) => words_from(s, old(self).index as int) == Err::<
                        Seq<Seq<char>>,
                        StringViewError,
                    >(e),
                },
            decreases self.end - self.index,
        {
            let ghost before = self.index as int;
            self.skip_whitespace();
            proof {
                lemma_skip_ws_end(s, before);
            }
            if self.eof() {
                assert(texts(parameters@) + Seq::<Seq<char>>::empty() =~= texts(parameters@));
                return Ok(parameters);
            }
            let ghost j = self.index as int;
            proof {
                lemma_word_at_end(s, j);
            }
            match self.get_quoted_word() {
                Err(e) => {
                    return Err(e);
                },
                Ok(None) => {
                    return Ok(parameters);
                },
                Ok(Some(t)) => {
                    let ghost prev = parameters@;
                    parameters.push(t);
                    proof {
                        assert(texts(parameters@) =~= texts(prev) + seq![t@]);
                        match words_from(s, self.index as int) {
                            Ok(rest) => {
                                assert(texts(parameters@) + rest =~= texts(prev) + (seq![t@]
                                    + rest));
                            },
                            Err(_) => {},
                        }
                    }
                },
            }
        }
    }
}

/// `r` is what tokenizing the message `s` gives: its words, or the error
/// of its first malformed word.
pub open spec fn tokenize_result(s: Seq<char>, r: Result<Vec<String>, StringViewError>) -> bool {
    match r {
        Ok(v) => tokens(s) == Ok::<Seq<Seq<char>>, StringViewError>(texts(v@)),
        Err(e) => tokens(s) == Err::<Seq<Seq<char>>, StringViewError>(e),
    }
}

/// Splits a message into words: the command name followed by its arguments.
pub fn tokenize(message: String) -> (r: Result<Vec<String>, StringViewError>)
    ensures
        tokenize_result(message@, r),
{
    let mut view = StringView::new(message);
    view.get_parameters()
}

} // verus!
