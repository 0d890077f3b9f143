//! The startup banner's text pieces: labels, padding and borders. The
//! terminal layout and printing live at the program's edge.

use vstd::prelude::*;
use vstd::string::StringExecFns;

use crate::text::{chars_to_string, dec_seq, decimal_string, str_to_chars};

verus! {

/// `n` copies of one character.
pub open spec fn repeat_char(c: char, n: int) -> Seq<char>
    decreases n,
{
    if n <= 0 {
        Seq::empty()
    } else {
        repeat_char(c, n - 1).push(c)
    }
}

/// A string of `n` copies of `c`.
pub fn repeat_string(c: char, n: usize) -> (r: String)
    ensures
        r@ == repeat_char(c, n as int),
{
    let mut out: Vec<char> = Vec::new();
    let mut i: usize = 0;
    while i < n
        invariant
            i <= n,
            out@ == repeat_char(c, i as int),
        decreases n - i,
    {
        out.push(c);
        i = i + 1;
    }
    chars_to_string(&out)
}

/// `s` padded with spaces on the right to at least `width` characters.
pub open spec fn pad_right(s: Seq<char>, width: int) -> Seq<char> {
    if s.len() >= width {
        s
    } else {
        s + repeat_char(' ', width - s.len())
    }
}

/// Pad a string with spaces on the right to at least `width`
/// characters.
pub fn pad_right_string(s: &str, width: usize) -> (r: String)
    ensures
        r@ == pad_right(s@, width as int),
{
    let chars = str_to_chars(s);
    let n = chars.len();
    if n >= width {
        let mut r = String::new();
        r.append(s);
        return r;
    }
    let fill = repeat_string(' ', width - n);
    let mut r = String::new();
    r.append(s);
    r.append(fill.as_str());
    r
}

/// The provider shown in the banner: the configured default, else the
/// first configured provider, else `none`.
pub fn provider_label(default_provider: Option<&str>, first_llm: Option<&str>) -> (r: String)
    ensures
        default_provider is Some ==> r@ == default_provider->0@,
        default_provider is None && first_llm is Some ==> r@ == first_llm->0@,
        default_provider is None && first_llm is None ==> r@ == "none"@,
{
    match default_provider {
        Some(p) => {
            let mut r = String::new();
            r.append(p);
            r
        },
        None => match first_llm {
            Some(p) => {
                let mut r = String::new();
                r.append(p);
                r
            },
            None => String::from_str("none"),
        },
    }
}

/// The channel names joined with commas.
pub open spec fn joined_names(names: Seq<Seq<char>>) -> Seq<char>
    decreases names.len(),
{
    if names.len() == 0 {
        Seq::empty()
    } else if names.len() == 1 {
        names[0]
    } else {
        joined_names(names.drop_last()) + ", "@ + names.last()
    }
}

/// The channels shown in the banner: `none`, or the given names joined
/// with commas.
pub fn channels_label(names: &Vec<String>) -> (r: String)
    ensures
        names@.len() == 0 ==> r@ == "none"@,
        names@.len() > 0 ==> r@ == joined_names(names@.map_values(|s: String| s@)),
{
    if names.len() == 0 {
        return String::from_str("none");
    }
    let ghost views = names@.map_values(|s: String| s@);
    let mut r = String::new();
    r.append(names[0].as_str());
    let mut i: usize = 1;
    proof {
        assert(views.take(1) =~= seq![views[0]]);
        assert(r@ == joined_names(views.take(1)));
    }
    while i < names.len()
        invariant
            1 <= i <= names@.len(),
            views == names@.map_values(|s: String| s@),
            r@ == joined_names(views.take(i as int)),
        decreases names@.len() - i,
    {
        r.append(", ");
        r.append(names[i].as_str());
        i = i + 1;
        proof {
            assert(views.take(i as int).drop_last() =~= views.take(i as int - 1));
            assert(views.take(i as int).last() == views[i as int - 1]);
            assert(views.take(i as int).len() > 1);
        }
    }
    proof {
        assert(views.take(views.len() as int) =~= views);
    }
    r
}

/// The skills line of the banner: `none`, or a count with `loaded`.
pub fn skills_label(count: usize) -> (r: String)
    ensures
        count == 0 ==> r@ == "none"@,
        count > 0 ==> r@ == dec_seq(count as int) + " loaded"@,
{
    if count == 0 {
        return String::from_str("none");
    }
    let mut r = decimal_string(count as u64);
    r.append(" loaded");
    r
}

/// The MCP line of the banner: `none`, or a count with a pluralized
/// `server`.
pub fn mcp_label(count: usize) -> (r: String)
    ensures
        count == 0 ==> r@ == "none"@,
        count == 1 ==> r@ == dec_seq(count as int) + " server"@,
        count > 1 ==> r@ == dec_seq(count as int) + " servers"@,
{
    if count == 0 {
        return String::from_str("none");
    }
    let mut r = decimal_string(count as u64);
    if count == 1 {
        r.append(" server");
    } else {
        r.append(" servers");
    }
    r
}

/// The gateway URL shown in the banner.
pub fn gateway_url(host: &str, port: u16) -> (r: String)
    ensures
        r@ == "http://"@ + host@ + ":"@ + dec_seq(port as int),
{
    let mut r = String::new();
    r.append("http://");
    r.append(host);
    r.append(":");
    let p = decimal_string(port as u64);
    r.append(p.as_str());
    r
}

} // verus!
