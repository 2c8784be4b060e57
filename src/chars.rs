//! Character classes used by the tokenizer: Unicode whitespace and the
//! table of paired quotation marks.
use vstd::prelude::*;

verus! {

/// The characters with the Unicode `White_Space` property.
pub open spec fn is_unicode_whitespace(c: char) -> bool {
    ('\u{9}' <= c && c <= '\u{d}')
        || c == ' '
        || c == '\u{85}'
        || c == '\u{a0}'
        || c == '\u{1680}'
        || ('\u{2000}' <= c && c <= '\u{200a}')
        || c == '\u{2028}'
        || c == '\u{2029}'
        || c == '\u{202f}'
        || c == '\u{205f}'
        || c == '\u{3000}'
}

/// Relies on `char::is_whitespace`: true exactly for the characters with
/// the Unicode `White_Space` property.
#[verifier::external_body]
pub(crate) fn is_whitespace(c: char) -> (r: bool)
    ensures
        r == is_unicode_whitespace(c),
{
    c.is_whitespace()
}

/// The closing mark paired with an opening quotation mark, or `None` when
/// `c` opens no quotation.
pub open spec fn closing_quote(c: char) -> Option<char> {
    if c == '"' {
        Some('"')
    } else if c == '\u{2018}' {
        Some('\u{2019}')
    } else if c == '\u{201a}' {
        Some('\u{201b}')
    } else if c == '\u{201c}' {
        Some('\u{201d}')
    } else if c == '\u{201e}' {
        Some('\u{201f}')
    } else if c == '\u{2e42}' {
        Some('\u{2e42}')
    } else if c == '\u{300c}' {
        Some('\u{300d}')
    } else if c == '\u{300e}' {
        Some('\u{300f}')
    } else if c == '\u{301d}' {
        Some('\u{301e}')
    } else if c == '\u{fe41}' {
        Some('\u{fe42}')
    } else if c == '\u{fe43}' {
        Some('\u{fe44}')
    } else if c == '\u{ff02}' {
        Some('\u{ff02}')
    } else if c == '\u{ff62}' {
        Some('\u{ff63}')
    } else if c == '\u{ab}' {
        Some('\u{bb}')
    } else if c == '\u{2039}' {
        Some('\u{203a}')
    } else if c == '\u{300a}' {
        Some('\u{300b}')
    } else if c == '\u{3008}' {
        Some('\u{3009}')
    } else {
        None
    }
}

/// Every character of the quote table, opening or closing.
pub open spec fn is_quote(c: char) -> bool {
    closing_quote(c) is Some || exists|o: char| closing_quote(o) == Some(c)
}

/// Looks `c` up in the quote table.
pub fn closing_quote_of(c: char) -> (r: Option<char>)
    ensures
        r == closing_quote(c),
{
    if c == '"' {
        Some('"')
    } else if c == '\u{2018}' {
        Some('\u{2019}')
    } else if c == '\u{201a}' {
        Some('\u{201b}')
    } else if c == '\u{201c}' {
        Some('\u{201d}')
    } else if c == '\u{201e}' {
        Some('\u{201f}')
    } else if c == '\u{2e42}' {
        Some('\u{2e42}')
    } else if c == '\u{300c}' {
        Some('\u{300d}')
    } else if c == '\u{300e}' {
        Some('\u{300f}')
    } else if c == '\u{301d}' {
        Some('\u{301e}')
    } else if c == '\u{fe41}' {
        Some('\u{fe42}')
    } else if c == '\u{fe43}' {
        Some('\u{fe44}')
    } else if c == '\u{ff02}' {
        Some('\u{ff02}')
    } else if c == '\u{ff62}' {
        Some('\u{ff63}')
    } else if c == '\u{ab}' {
        Some('\u{bb}')
    } else if c == '\u{2039}' {
        Some('\u{203a}')
    } else if c == '\u{300a}' {
        Some('\u{300b}')
    } else if c == '\u{3008}' {
        Some('\u{3009}')
    } else {
        None
    }
}

/// Whether `c` is a closing mark of the quote table.
pub fn is_closing_quote(c: char) -> (r: bool)
    ensures
        r == exists|o: char| closing_quote(o) == Some(c),
{
    let r = c == '"' || c == '\u{2019}' || c == '\u{201b}' || c == '\u{201d}' || c == '\u{201f}'
        || c == '\u{2e42}' || c == '\u{300d}' || c == '\u{300f}' || c == '\u{301e}'
        || c == '\u{fe42}' || c == '\u{fe44}' || c == '\u{ff02}' || c == '\u{ff63}'
        || c == '\u{bb}' || c == '\u{203a}' || c == '\u{300b}' || c == '\u{3009}';
    proof {
        if r {
            if c == '"' { assert(closing_quote('"') == Some(c)); }
            else if c == '\u{2019}' { assert(closing_quote('\u{2018}') == Some(c)); }
            else if c == '\u{201b}' { assert(closing_quote('\u{201a}') == Some(c)); }
            else if c == '\u{201d}' { assert(closing_quote('\u{201c}') == Some(c)); }
            else if c == '\u{201f}' { assert(closing_quote('\u{201e}') == Some(c)); }
            else if c == '\u{2e42}' { assert(closing_quote('\u{2e42}') == Some(c)); }
            else if c == '\u{300d}' { assert(closing_quote('\u{300c}') == Some(c)); }
            else if c == '\u{300f}' { assert(closing_quote('\u{300e}') == Some(c)); }
            else if c == '\u{301e}' { assert(closing_quote('\u{301d}') == Some(c)); }
            else if c == '\u{fe42}' { assert(closing_quote('\u{fe41}') == Some(c)); }
            else if c == '\u{fe44}' { assert(closing_quote('\u{fe43}') == Some(c)); }
            else if c == '\u{ff02}' { assert(closing_quote('\u{ff02}') == Some(c)); }
            else if c == '\u{ff63}' { assert(closing_quote('\u{ff62}') == Some(c)); }
            else if c == '\u{bb}' { assert(closing_quote('\u{ab}') == Some(c)); }
            else if c == '\u{203a}' { assert(closing_quote('\u{2039}') == Some(c)); }
            else if c == '\u{300b}' { assert(closing_quote('\u{300a}') == Some(c)); }
            else { assert(closing_quote('\u{3008}') == Some(c)); }
        }
    }
    r
}

/// Whether `c` appears anywhere in the quote table.
pub fn is_quote_char(c: char) -> (r: bool)
    ensures
        r == is_quote(c),
{
    let opens = closing_quote_of(c).is_some();
    let closes = is_closing_quote(c);
    opens || closes
}

} // verus!
