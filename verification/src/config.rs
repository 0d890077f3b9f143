//! The slice of the application configuration the gateway core reads,
//! and the config-watcher decisions: which filesystem events matter and
//! which text format a config file holds.

use vstd::prelude::*;

use crate::text::str_to_chars;

verus! {

/// Where the gateway listens.
pub struct GatewayConfig {
    pub host: String,
    pub port: u16,
}

/// The application configuration the core reads.
pub struct AppConfig {
    pub gateway: GatewayConfig,
    pub data_dir: Option<String>,
}

/// The text formats a config file may hold.
#[derive(Debug, PartialEq, Eq, Structural)]
pub enum ConfigFormat {
    Yaml,
    Toml,
    Unsupported,
}

/// The part of a path after its last `/`.
pub open spec fn basename_of(path: Seq<char>) -> Seq<char>
    decreases path.len(),
{
    if path.len() == 0 {
        path
    } else if path.last() == '/' {
        Seq::empty()
    } else {
        basename_of(path.drop_last()).push(path.last())
    }
}

/// Does `s` end in `suffix`?
pub open spec fn ends_with(s: Seq<char>, suffix: Seq<char>) -> bool {
    s.len() >= suffix.len() && s.subrange(s.len() - suffix.len(), s.len() as int) == suffix
}

/// The format implied by a file name: a `.yml` or `.yaml` extension
/// parses as YAML, `.toml` as TOML, anything else is refused. The dot
/// must not open the name: a bare dot-file has no extension.
pub open spec fn format_for(path: Seq<char>) -> ConfigFormat {
    let base = basename_of(path);
    if ends_with(base, ".yml"@) && base.len() > ".yml"@.len() {
        ConfigFormat::Yaml
    } else if ends_with(base, ".yaml"@) && base.len() > ".yaml"@.len() {
        ConfigFormat::Yaml
    } else if ends_with(base, ".toml"@) && base.len() > ".toml"@.len() {
        ConfigFormat::Toml
    } else {
        ConfigFormat::Unsupported
    }
}

/// Compare two strings character by character.
pub fn str_eq(a: &str, b: &str) -> (r: bool)
    ensures
        r == (a@ == b@),
{
    let va = str_to_chars(a);
    let vb = str_to_chars(b);
    chars_eq(&va, &vb)
}

/// Compare two character vectors.
pub fn chars_eq(va: &Vec<char>, vb: &Vec<char>) -> (r: bool)
    ensures
        r == (va@ == vb@),
{
    if va.len() != vb.len() {
        return false;
    }
    let mut i: usize = 0;
    while i < va.len()
        invariant
            va@.len() == vb@.len(),
            i <= va@.len(),
            forall|k: int| 0 <= k < i ==> va@[k] == vb@[k],
        decreases va@.len() - i,
    {
        if va[i] != vb[i] {
            return false;
        }
        i = i + 1;
    }
    proof {
        assert(va@ =~= vb@);
    }
    true
}

/// The basename of a path.
fn basename_exec(path: &str) -> (r: Vec<char>)
    ensures
        r@ == basename_of(path@),
{
    let chars = str_to_chars(path);
    let mut out: Vec<char> = Vec::new();
    let mut i: usize = 0;
    while i < chars.len()
        invariant
            chars@ == path@,
            i <= chars@.len(),
            out@ == basename_of(path@.take(i as int)),
        decreases chars@.len() - i,
    {
        let c = chars[i];
        if c == '/' {
            out = Vec::new();
        } else {
            out.push(c);
        }
        i = i + 1;
        proof {
            assert(path@.take(i as int).drop_last() =~= path@.take(i as int - 1));
        }
    }
    proof {
        assert(path@.take(chars@.len() as int) =~= path@);
    }
    out
}

/// Does a filesystem event concern the watched config file? Only
/// creations and modifications count, and only when one of the event's
/// paths has the watched file's name.
pub fn event_touches_config(
    is_create_or_modify: bool,
    event_paths: &Vec<String>,
    target_filename: &str,
) -> (r: bool)
    ensures
        r <==> is_create_or_modify && exists|i: int|
            0 <= i < event_paths@.len() && basename_of(#[trigger] event_paths@[i]@)
                == target_filename@,
{
    if !is_create_or_modify {
        return false;
    }
    let target = str_to_chars(target_filename);
    let mut i: usize = 0;
    while i < event_paths.len()
        invariant
            is_create_or_modify,
            i <= event_paths@.len(),
            target@ == target_filename@,
            forall|k: int|
                0 <= k < i ==> basename_of(#[trigger] event_paths@[k]@) != target_filename@,
        decreases event_paths@.len() - i,
    {
        let base = basename_exec(event_paths[i].as_str());
        if chars_eq(&base, &target) {
            proof {
                assert(basename_of(event_paths@[i as int]@) == target_filename@);
            }
            return true;
        }
        i = i + 1;
    }
    false
}

/// Does `v` end in the view of `suffix`?
fn ends_with_exec(v: &Vec<char>, suffix: &str) -> (r: bool)
    ensures
        r == ends_with(v@, suffix@),
{
    let sv = str_to_chars(suffix);
    let n = v.len();
    let m = sv.len();
    if n < m {
        return false;
    }
    let off = n - m;
    let mut i: usize = 0;
    while i < m
        invariant
            sv@ == suffix@,
            n == v@.len(),
            m == sv@.len(),
            m <= n,
            off == n - m,
            i <= m,
            forall|k: int| 0 <= k < i ==> v@[off + k] == sv@[k],
        decreases m - i,
    {
        if v[off + i] != sv[i] {
            proof {
                if ends_with(v@, suffix@) {
                    assert(v@.subrange(
                        v@.len() - suffix@.len(),
                        v@.len() as int,
                    )[i as int] == suffix@[i as int]);
                }
            }
            return false;
        }
        i = i + 1;
    }
    proof {
        assert(v@.subrange(v@.len() - suffix@.len(), v@.len() as int) =~= suffix@);
    }
    true
}

/// The format a config path parses as, by its file extension.
pub fn config_format_for(path: &str) -> (r: ConfigFormat)
    ensures
        r == format_for(path@),
{
    let base = basename_exec(path);
    proof {
        reveal_strlit(".yml");
        reveal_strlit(".yaml");
        reveal_strlit(".toml");
    }
    if ends_with_exec(&base, ".yml") && base.len() > 4 {
        ConfigFormat::Yaml
    } else if ends_with_exec(&base, ".yaml") && base.len() > 5 {
        ConfigFormat::Yaml
    } else if ends_with_exec(&base, ".toml") && base.len() > 5 {
        ConfigFormat::Toml
    } else {
        ConfigFormat::Unsupported
    }
}

} // verus!
