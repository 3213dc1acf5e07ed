//! Text for the log: request bytes on one line, and the switches that
//! turn logging on and off.

use vstd::prelude::*;
use vstd::string::{StrSliceExecFns, StringExecFns};
use vstd::utf8::{decode_utf8, valid_utf8};

verus! {

/// The text `String::from_utf8_lossy` makes of `bytes`.
pub uninterp spec fn lossy_text(bytes: Seq<u8>) -> Seq<char>;

/// Calls `String::from_utf8_lossy` and takes the text it returns.
///
/// Trusted: the text depends on the bytes alone and is the one
/// [`lossy_text`] names; bytes that are valid UTF-8 give the text they
/// encode.
#[verifier::external_body]
fn from_utf8_lossy(buffer: &[u8]) -> (text: String)
    ensures
        text@ == lossy_text(buffer@),
        valid_utf8(buffer@) ==> text@ == decode_utf8(buffer@),
{
    String::from_utf8_lossy(buffer).into_owned()
}

pub assume_specification[ String::push ](text: &mut String, ch: char)
    ensures
        final(text)@ == old(text)@.push(ch),
;

/// How one character is written in the log: line feed, carriage return,
/// tab and NUL as a backslash and a letter, every other character as
/// itself.
pub open spec fn escape_char(c: char) -> Seq<char> {
    if c == '\n' {
        seq!['\\', 'n']
    } else if c == '\r' {
        seq!['\\', 'r']
    } else if c == '\t' {
        seq!['\\', 't']
    } else if c == '\0' {
        seq!['\\', '0']
    } else {
        seq![c]
    }
}

/// A text with each of its characters written as [`escape_char`] says.
pub open spec fn escaped(text: Seq<char>) -> Seq<char>
    decreases text.len(),
{
    if text.len() == 0 {
        Seq::empty()
    } else {
        escaped(text.drop_last()) + escape_char(text.last())
    }
}

/// Writes `text` with its control characters escaped.
pub fn escape(text: &str) -> (line: String)
    ensures
        line@ == escaped(text@),
{
    let mut line = String::new();
    let n = text.unicode_len();
    let mut i: usize = 0;
    while i < n
        invariant
            n == text@.len(),
            i <= n,
            line@ == escaped(text@.take(i as int)),
        decreases n - i,
    {
        let c = text.get_char(i);
        proof {
            let next = text@.take(i + 1);
            assert(next.drop_last() =~= text@.take(i as int));
            assert(next.last() == c);
        }
        if c == '\n' {
            line.push('\\');
            line.push('n');
        } else if c == '\r' {
            line.push('\\');
            line.push('r');
        } else if c == '\t' {
            line.push('\\');
            line.push('t');
        } else if c == '\0' {
            line.push('\\');
            line.push('0');
        } else {
            line.push(c);
        }
        assert(line@ =~= escaped(text@.take(i as int)) + escape_char(c));
        i += 1;
    }
    assert(text@.take(n as int) =~= text@);
    line
}

/// The bytes of a request as one line of text for the log: read as UTF-8,
/// with what is not UTF-8 replaced, and control characters escaped.
pub fn into_log_json(buffer: &[u8]) -> (line: String)
    ensures
        line@ == escaped(lossy_text(buffer@)),
        valid_utf8(buffer@) ==> line@ == escaped(decode_utf8(buffer@)),
{
    let text = from_utf8_lossy(buffer);
    escape(text.as_str())
}

/// Whether `text` is exactly `word`.
fn is_word(text: &String, word: &str) -> (same: bool)
    ensures
        same == (text@ == word@),
{
    *text == String::from_str(word)
}

/// Whether ordinary messages are logged, given the value of the switch
/// `ENABLE_LOG` (`None` when it is not set): only for `true` and `1`.
pub fn get_enable_log(value: Option<String>) -> (enabled: bool)
    ensures
        enabled == (value matches Some(val) && (val@ == "true"@ || val@ == "1"@)),
{
    match value {
        Some(val) => is_word(&val, "true") || is_word(&val, "1"),
        None => false,
    }
}

/// Whether errors are logged, given the value of the switch
/// `ENABLE_ERROR_LOG` (`None` when it is not set): always, unless the
/// value is `false` or `0`.
pub fn get_enable_log_error(value: Option<String>) -> (enabled: bool)
    ensures
        enabled == !(value matches Some(val) && (val@ == "false"@ || val@ == "0"@)),
{
    match value {
        Some(val) => !is_word(&val, "false") && !is_word(&val, "0"),
        None => true,
    }
}

} // verus!
