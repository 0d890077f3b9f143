//! Sending text through the macOS Messages application: AppleScript
//! string escaping and the script the sender runs.

use vstd::prelude::*;
use vstd::string::StringExecFns;

use crate::text::{chars_to_string, str_to_chars};

verus! {

/// The escaped form of one character inside an AppleScript double-quoted
/// literal: backslashes, double quotes, newlines and carriage returns get
/// a backslash escape, everything else is unchanged.
pub open spec fn applescript_escape_char(c: char) -> Seq<char> {
    if c == '\\' {
        seq!['\\', '\\']
    } else if c == '"' {
        seq!['\\', '"']
    } else if c == '\n' {
        seq!['\\', 'n']
    } else if c == '\r' {
        seq!['\\', 'r']
    } else {
        seq![c]
    }
}

/// The escaped form of a whole character sequence.
pub open spec fn applescript_escape_seq(s: Seq<char>) -> Seq<char>
    decreases s.len(),
{
    if s.len() == 0 {
        Seq::empty()
    } else {
        applescript_escape_seq(s.drop_last()) + applescript_escape_char(s.last())
    }
}

/// Escape a string for use inside an AppleScript double-quoted literal.
///
/// Handles backslashes, double quotes, newlines and carriage returns.
pub fn applescript_escape(s: &str) -> (r: String)
    ensures
        r@ == applescript_escape_seq(s@),
{
    let chars = str_to_chars(s);
    let mut out: Vec<char> = Vec::new();
    let mut i: usize = 0;
    while i < chars.len()
        invariant
            i <= chars@.len(),
            chars@ == s@,
            out@ == applescript_escape_seq(s@.take(i as int)),
        decreases chars@.len() - i,
    {
        let c = chars[i];
        if c == '\\' {
            out.push('\\');
            out.push('\\');
        } else if c == '"' {
            out.push('\\');
            out.push('"');
        } else if c == '\n' {
            out.push('\\');
            out.push('n');
        } else if c == '\r' {
            out.push('\\');
            out.push('r');
        } else {
            out.push(c);
        }
        i = i + 1;
        proof {
            assert(s@.take(i as int).drop_last() =~= s@.take(i as int - 1));
            assert(out@ =~= applescript_escape_seq(s@.take(i as int - 1)) + applescript_escape_char(s@[i as int - 1]));
        }
    }
    proof {
        assert(s@.take(chars@.len() as int) =~= s@);
    }
    chars_to_string(&out)
}

/// The AppleScript that sends `text` to the handle `to` through the
/// Messages application, with both values escaped for their quoted
/// positions.
pub open spec fn send_script(to: Seq<char>, text: Seq<char>) -> Seq<char> {
    "tell application \"Messages\"\n    set targetService to 1st account whose service type = iMessage\n    set targetBuddy to participant targetService handle \""@
        + applescript_escape_seq(to)
        + "\"\n    send \""@
        + applescript_escape_seq(text)
        + "\" to targetBuddy\nend tell"@
}

/// Build the AppleScript used to send an iMessage to `to` (a phone
/// number or email address).
pub fn build_send_script(to: &str, text: &str) -> (r: String)
    ensures
        r@ == send_script(to@, text@),
{
    let escaped_to = applescript_escape(to);
    let escaped_text = applescript_escape(text);
    let mut r = String::new();
    r.append("tell application \"Messages\"\n    set targetService to 1st account whose service type = iMessage\n    set targetBuddy to participant targetService handle \"");
    r.append(escaped_to.as_str());
    r.append("\"\n    send \"");
    r.append(escaped_text.as_str());
    r.append("\" to targetBuddy\nend tell");
    r
}

} // verus!
