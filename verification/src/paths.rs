//! Filesystem scoping for the plugin sandbox: path validation, joining
//! under the plugin root, the canonical-boundary check, and mount
//! planning.

use vstd::prelude::*;
use vstd::string::StringExecFns;

use crate::errors::Error;
use crate::text::{dec_seq, decimal_string, str_to_chars, trim_seq, trim_str};

verus! {

/// Is `p` the same path as `root` or a descendant of it, comparing
/// whole components? A canonical root that ends in `/` (the filesystem
/// root) prefixes every path under it.
pub open spec fn path_inside(root: Seq<char>, p: Seq<char>) -> bool {
    ||| p == root
    ||| (root.len() < p.len() && p.subrange(0, root.len() as int) == root && (p[root.len() as int]
        == '/' || (root.len() > 0 && root.last() == '/')))
}

/// `rel` joined under `root` with a single separator, as the platform
/// join writes it for a relative right-hand side.
pub open spec fn join_path(root: Seq<char>, rel: Seq<char>) -> Seq<char> {
    if root.len() == 0 {
        rel
    } else if root.last() == '/' {
        root + rel
    } else {
        root + "/"@ + rel
    }
}

/// A planned preopened directory, before canonicalization.
#[derive(Debug)]
pub struct MountPlan {
    pub host_path: String,
    pub writable: bool,
    pub create_if_missing: bool,
}

/// Validate one configured filesystem path: after trimming it must be
/// non-empty and relative.
pub fn validate_relative_path(raw: &str) -> (r: Result<String, Error>)
    ensures
        r is Ok <==> trim_seq(raw@).len() > 0 && trim_seq(raw@)[0] != '/',
        r is Ok ==> r->Ok_0@ == trim_seq(raw@),
        r is Err ==> r->Err_0 is Plugin,
        trim_seq(raw@).len() == 0 ==> r is Err && r->Err_0.spec_message()
            == "filesystem path entries cannot be empty"@,
        trim_seq(raw@).len() > 0 && trim_seq(raw@)[0] == '/' ==> r is Err
            && r->Err_0.spec_message()
            == "absolute filesystem paths are not allowed in plugin permissions: "@ + trim_seq(
            raw@,
        ),
{
    let trimmed = trim_str(raw);
    if trimmed.as_str().unicode_len() == 0 {
        return Err(Error::Plugin(String::from_str("filesystem path entries cannot be empty")));
    }
    if trimmed.as_str().get_char(0) == '/' {
        let mut msg = String::new();
        msg.append("absolute filesystem paths are not allowed in plugin permissions: ");
        msg.append(trimmed.as_str());
        return Err(Error::Plugin(msg));
    }
    Ok(trimmed)
}

/// Join a relative path under the plugin root.
pub fn join_under_root(root: &str, rel: &str) -> (r: String)
    ensures
        r@ == join_path(root@, rel@),
{
    let n = root.unicode_len();
    let mut r = String::new();
    if n == 0 {
        r.append(rel);
        return r;
    }
    r.append(root);
    if root.get_char(n - 1) != '/' {
        r.append("/");
    }
    r.append(rel);
    r
}

/// The error text for a canonical path outside the canonical root.
pub open spec fn escape_text(root: Seq<char>, p: Seq<char>) -> Seq<char> {
    "path escapes plugin root: "@ + p + " is outside "@ + root
}

/// Require a canonicalized path to still sit inside the canonicalized
/// plugin root.
pub fn check_canonical_inside_root(canonical_root: &str, canonical: &str) -> (r: Result<(), Error>)
    ensures
        r is Ok <==> path_inside(canonical_root@, canonical@),
        r is Err ==> r->Err_0 is Plugin && r->Err_0.spec_message() == escape_text(
            canonical_root@,
            canonical@,
        ),
{
    let root = str_to_chars(canonical_root);
    let p = str_to_chars(canonical);
    let rn = root.len();
    let pn = p.len();
    let inside: bool;
    if pn == rn {
        inside = crate::config::chars_eq(&p, &root);
    } else if pn > rn {
        let mut prefix_ok = true;
        let mut i: usize = 0;
        while i < rn
            invariant
                rn <= pn,
                rn == root@.len(),
                pn == p@.len(),
                i <= rn,
                prefix_ok <==> forall|k: int| 0 <= k < i ==> p@[k] == root@[k],
            decreases rn - i,
        {
            if p[i] != root[i] {
                proof {
                    assert(p@[i as int] != root@[i as int]);
                }
                prefix_ok = false;
            }
            i = i + 1;
        }
        if prefix_ok {
            let boundary = p[rn] == '/' || (rn > 0 && root[rn - 1] == '/');
            inside = boundary;
            proof {
                if prefix_ok {
                    assert(p@.subrange(0, rn as int) =~= root@);
                }
            }
        } else {
            inside = false;
            proof {
                if path_inside(canonical_root@, canonical@) {
                    let k = choose|k: int|
                        0 <= k < rn && p@[k] != root@[k];
                    assert(p@.subrange(0, rn as int)[k] == root@[k]);
                    assert(false);
                }
            }
        }
    } else {
        inside = false;
    }
    if inside {
        Ok(())
    } else {
        let mut msg = String::new();
        msg.append("path escapes plugin root: ");
        msg.append(canonical);
        msg.append(" is outside ");
        msg.append(canonical_root);
        Err(Error::Plugin(msg))
    }
}

/// The candidate mounts of a manifest: every trimmed read path joined
/// under the root, then every trimmed write path.
pub open spec fn read_candidate(root: Seq<char>, raw: Seq<char>) -> Seq<char> {
    join_path(root, trim_seq(raw))
}

/// Plan the preopened directories for a manifest's filesystem
/// permissions: reject configured paths when the filesystem flag is
/// off; with the flag on and nothing configured, mount the plugin root
/// read-only; otherwise join each validated read path (read-only) and
/// write path (writable, created if missing) under the root.
pub fn plan_mounts(
    filesystem: bool,
    read_paths: &Vec<String>,
    write_paths: &Vec<String>,
    plugin_root: &str,
) -> (r: Result<Vec<MountPlan>, Error>)
    ensures
        !filesystem && (read_paths@.len() > 0 || write_paths@.len() > 0) ==> r is Err && r->Err_0
            is Plugin && r->Err_0.spec_message()
            == "filesystem paths were provided but filesystem=false in plugin permissions"@,
        !filesystem && read_paths@.len() == 0 && write_paths@.len() == 0 ==> r is Ok
            && r->Ok_0@.len() == 0,
        filesystem && read_paths@.len() == 0 && write_paths@.len() == 0 ==> r is Ok
            && r->Ok_0@.len() == 1 && r->Ok_0@[0].host_path@ == plugin_root@
            && !r->Ok_0@[0].writable && !r->Ok_0@[0].create_if_missing,
        filesystem && (read_paths@.len() > 0 || write_paths@.len() > 0) ==> ((r is Ok) <==> (
        forall|i: int|
            0 <= i < read_paths@.len() ==> trim_seq(#[trigger] read_paths@[i]@).len() > 0
                && trim_seq(read_paths@[i]@)[0] != '/') && (forall|i: int|
            0 <= i < write_paths@.len() ==> trim_seq(#[trigger] write_paths@[i]@).len() > 0
                && trim_seq(write_paths@[i]@)[0] != '/')),
        filesystem && (read_paths@.len() > 0 || write_paths@.len() > 0) && r is Ok ==> ({
            let nr = read_paths@.len() as int;
            let nw = write_paths@.len() as int;
            &&& r->Ok_0@.len() == nr + nw
            &&& forall|i: int|
                0 <= i < nr ==> (#[trigger] r->Ok_0@[i]).host_path@ == read_candidate(
                    plugin_root@,
                    read_paths@[i]@,
                ) && !r->Ok_0@[i].writable && !r->Ok_0@[i].create_if_missing
            &&& forall|i: int|
                0 <= i < nw ==> (#[trigger] r->Ok_0@[nr + i]).host_path@ == read_candidate(
                    plugin_root@,
                    write_paths@[i]@,
                ) && r->Ok_0@[nr + i].writable && r->Ok_0@[nr + i].create_if_missing
        }),
        r is Err ==> r->Err_0 is Plugin,
{
    if !filesystem {
        if read_paths.len() > 0 || write_paths.len() > 0 {
            return Err(
                Error::Plugin(
                    String::from_str(
                        "filesystem paths were provided but filesystem=false in plugin permissions",
                    ),
                ),
            );
        }
        return Ok(Vec::new());
    }
    if read_paths.len() == 0 && write_paths.len() == 0 {
        let mut out: Vec<MountPlan> = Vec::new();
        out.push(
            MountPlan {
                host_path: String::from_str(plugin_root),
                writable: false,
                create_if_missing: false,
            },
        );
        return Ok(out);
    }
    let mut out: Vec<MountPlan> = Vec::new();
    let mut i: usize = 0;
    while i < read_paths.len()
        invariant
            filesystem,
            i <= read_paths@.len(),
            out@.len() == i,
            forall|k: int|
                0 <= k < i ==> (#[trigger] out@[k]).host_path@ == read_candidate(
                    plugin_root@,
                    read_paths@[k]@,
                ) && !out@[k].writable && !out@[k].create_if_missing,
            forall|k: int|
                0 <= k < i ==> trim_seq(#[trigger] read_paths@[k]@).len() > 0 && trim_seq(
                    read_paths@[k]@,
                )[0] != '/',
        decreases read_paths@.len() - i,
    {
        let rel = match validate_relative_path(read_paths[i].as_str()) {
            Ok(rel) => rel,
            Err(e) => {
                return Err(e);
            },
        };
        let host = join_under_root(plugin_root, rel.as_str());
        out.push(MountPlan { host_path: host, writable: false, create_if_missing: false });
        i = i + 1;
    }
    let nr = read_paths.len();
    let mut j: usize = 0;
    while j < write_paths.len()
        invariant
            filesystem,
            nr == read_paths@.len(),
            j <= write_paths@.len(),
            out@.len() == nr + j,
            forall|k: int|
                0 <= k < nr ==> (#[trigger] out@[k]).host_path@ == read_candidate(
                    plugin_root@,
                    read_paths@[k]@,
                ) && !out@[k].writable && !out@[k].create_if_missing,
            forall|k: int|
                0 <= k < nr ==> trim_seq(#[trigger] read_paths@[k]@).len() > 0 && trim_seq(
                    read_paths@[k]@,
                )[0] != '/',
            forall|k: int|
                0 <= k < j ==> (#[trigger] out@[nr + k]).host_path@ == read_candidate(
                    plugin_root@,
                    write_paths@[k]@,
                ) && out@[nr + k].writable && out@[nr + k].create_if_missing,
            forall|k: int|
                0 <= k < j ==> trim_seq(#[trigger] write_paths@[k]@).len() > 0 && trim_seq(
                    write_paths@[k]@,
                )[0] != '/',
        decreases write_paths@.len() - j,
    {
        let rel = match validate_relative_path(write_paths[j].as_str()) {
            Ok(rel) => rel,
            Err(e) => {
                return Err(e);
            },
        };
        let host = join_under_root(plugin_root, rel.as_str());
        out.push(MountPlan { host_path: host, writable: true, create_if_missing: true });
        j = j + 1;
    }
    Ok(out)
}

/// The distinct entries of a list, each kept at its first appearance.
pub open spec fn dedup_first(ps: Seq<Seq<char>>) -> Seq<Seq<char>>
    decreases ps.len(),
{
    if ps.len() == 0 {
        Seq::empty()
    } else {
        dedup_first(ps.drop_last()) + (if ps.drop_last().contains(ps.last()) {
            Seq::<Seq<char>>::empty()
        } else {
            seq![ps.last()]
        })
    }
}

/// Is some candidate of this path writable?
pub open spec fn writable_somewhere(cs: Seq<(String, bool)>, p: Seq<char>) -> bool {
    exists|i: int| 0 <= i < cs.len() && (#[trigger] cs[i]).0@ == p && cs[i].1
}

/// Check every canonicalized mount against the canonical root and name
/// the surviving mounts `mnt0`, `mnt1`, ... one per distinct host path
/// in first-appearance order; a path is writable when any of its
/// occurrences is, so a writable mount overrides a read-only one of the
/// same host path.
///
/// Takes `(canonical host path, writable)` pairs; gives
/// `(guest name, canonical host path, writable)` rows.
pub fn assemble_mounts(cands: &Vec<(String, bool)>, canonical_root: &str) -> (r: Result<
    Vec<(String, String, bool)>,
    Error,
>)
    ensures
        r is Ok <==> forall|i: int|
            0 <= i < cands@.len() ==> path_inside(canonical_root@, #[trigger] cands@[i].0@),
        r is Ok ==> r->Ok_0@.map_values(|x: (String, String, bool)| x.1@) == dedup_first(
            cands@.map_values(|c: (String, bool)| c.0@),
        ),
        r is Ok ==> forall|k: int|
            0 <= k < r->Ok_0@.len() ==> (#[trigger] r->Ok_0@[k]).0@ == "mnt"@ + dec_seq(k),
        r is Ok ==> forall|k: int|
            0 <= k < r->Ok_0@.len() ==> ((#[trigger] r->Ok_0@[k]).2 <==> writable_somewhere(
                cands@,
                r->Ok_0@[k].1@,
            )),
        r is Ok ==> forall|k: int|
            0 <= k < r->Ok_0@.len() ==> path_inside(canonical_root@, (#[trigger] r->Ok_0@[k]).1@),
        r is Err ==> r->Err_0 is Plugin && exists|i: int|
            #![auto]
            0 <= i < cands@.len() && !path_inside(canonical_root@, cands@[i].0@)
                && r->Err_0.spec_message() == escape_text(canonical_root@, cands@[i].0@),
{
    let ghost paths = cands@.map_values(|c: (String, bool)| c.0@);
    let mut out: Vec<(String, String, bool)> = Vec::new();
    let mut i: usize = 0;
    proof {
        assert(out@.map_values(|x: (String, String, bool)| x.1@) =~= dedup_first(paths.take(0)));
    }
    while i < cands.len()
        invariant
            paths == cands@.map_values(|c: (String, bool)| c.0@),
            i <= cands@.len(),
            forall|x: int|
                0 <= x < i ==> path_inside(canonical_root@, #[trigger] cands@[x].0@),
            out@.map_values(|x: (String, String, bool)| x.1@) == dedup_first(paths.take(i as int)),
            forall|k: int|
                0 <= k < out@.len() ==> (#[trigger] out@[k]).0@ == "mnt"@ + dec_seq(k),
            forall|k: int|
                0 <= k < out@.len() ==> ((#[trigger] out@[k]).2 <==> writable_somewhere(
                    cands@,
                    out@[k].1@,
                )),
            forall|k: int|
                0 <= k < out@.len() ==> path_inside(canonical_root@, (#[trigger] out@[k]).1@),
            out@.len() <= i,
        decreases cands@.len() - i,
    {
        let path = &cands[i].0;
        match check_canonical_inside_root(canonical_root, path.as_str()) {
            Ok(()) => {},
            Err(e) => {
                proof {
                    assert(!path_inside(canonical_root@, cands@[i as int].0@));
                }
                return Err(e);
            },
        }
        let mut dup = false;
        let mut f: usize = 0;
        while f < i
            invariant
                i <= cands@.len(),
                path@ == cands@[i as int].0@,
                f <= i,
                dup <==> exists|x: int|
                    0 <= x < f && (#[trigger] cands@[x]).0@ == path@,
            decreases i - f,
        {
            if crate::config::str_eq(cands[f].0.as_str(), path.as_str()) {
                proof {
                    assert(cands@[f as int].0@ == path@);
                }
                dup = true;
            }
            f = f + 1;
        }
        if !dup {
            let mut wr = false;
            let mut t: usize = 0;
            while t < cands.len()
                invariant
                    path@ == cands@[i as int].0@,
                    i < cands@.len(),
                    t <= cands@.len(),
                    wr <==> exists|x: int|
                        0 <= x < t && (#[trigger] cands@[x]).0@ == path@ && cands@[x].1,
                decreases cands@.len() - t,
            {
                if cands[t].1 && crate::config::str_eq(cands[t].0.as_str(), path.as_str()) {
                    proof {
                        assert(cands@[t as int].0@ == path@ && cands@[t as int].1);
                    }
                    wr = true;
                }
                t = t + 1;
            }
            proof {
                assert(wr == writable_somewhere(cands@, path@));
            }
            let idx = out.len();
            let mut name = String::new();
            name.append("mnt");
            let idx_text = decimal_string(idx as u64);
            name.append(idx_text.as_str());
            out.push((name, copy_str(path), wr));
        }
        i = i + 1;
        proof {
            let pre = paths.take(i as int - 1);
            let cur = paths.take(i as int);
            assert(cur.drop_last() =~= pre);
            assert(cur.last() == cands@[i as int - 1].0@);
            if dup {
                let x = choose|x: int|
                    0 <= x < i - 1 && (#[trigger] cands@[x]).0@ == cands@[i as int - 1].0@;
                assert(pre[x] == cands@[x].0@);
                assert(pre.contains(cur.last()));
            } else {
                if pre.contains(cur.last()) {
                    let x = choose|x: int| 0 <= x < pre.len() && pre[x] == cur.last();
                    assert(cands@[x].0@ == cands@[i as int - 1].0@);
                    assert(false);
                }
            }
            assert(out@.map_values(|x: (String, String, bool)| x.1@) =~= dedup_first(
                paths.take(i as int),
            ));
        }
    }
    proof {
        assert(paths.take(cands@.len() as int) =~= paths);
    }
    Ok(out)
}

/// Clone an owned string.
fn copy_str(s: &String) -> (r: String)
    ensures
        r@ == s@,
{
    s.clone()
}

/// Trim the allowlisted domains and drop the empty entries, keeping
/// order: the list of names the resolver is asked for.
pub fn plan_domain_queries(domains: &Vec<String>) -> (r: Vec<String>)
    ensures
        r@.map_values(|d: String| d@) == domains@.map_values(
            |d: String| trim_seq(d@),
        ).filter(|d: Seq<char>| d.len() > 0),
{
    let mut out: Vec<String> = Vec::new();
    let mut i: usize = 0;
    proof {
        reveal(Seq::filter);
        assert(domains@.map_values(|d: String| trim_seq(d@)).take(0).filter(
            |d: Seq<char>| d.len() > 0,
        ) =~= Seq::<Seq<char>>::empty());
    }
    while i < domains.len()
        invariant
            i <= domains@.len(),
            out@.map_values(|d: String| d@) == domains@.map_values(
                |d: String| trim_seq(d@),
            ).take(i as int).filter(|d: Seq<char>| d.len() > 0),
        decreases domains@.len() - i,
    {
        let t = trim_str(domains[i].as_str());
        if t.as_str().unicode_len() > 0 {
            out.push(t);
        }
        i = i + 1;
        proof {
            reveal(Seq::filter);
            let mapped = domains@.map_values(|d: String| trim_seq(d@));
            assert(mapped.take(i as int).drop_last() =~= mapped.take(i as int - 1));
            assert(mapped.take(i as int).last() == trim_seq(domains@[i as int - 1]@));
            assert(out@.map_values(|d: String| d@) =~= mapped.take(i as int).filter(
                |d: Seq<char>| d.len() > 0,
            ));
        }
    }
    proof {
        assert(domains@.map_values(|d: String| trim_seq(d@)).take(domains@.len() as int)
            =~= domains@.map_values(|d: String| trim_seq(d@)));
    }
    out
}

} // verus!
