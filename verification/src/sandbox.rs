//! The plugin manifest, its capability projection, the sandbox resource
//! limits, environment filtering, and the classification of a guest
//! run's outcome.

use vstd::prelude::*;
use vstd::string::StringExecFns;

use crate::errors::Error;
use crate::text::{dec_seq, decimal_string};
use crate::validate::contains_seq;

verus! {

/// A plugin's identity, from its descriptor file.
pub struct PluginInfo {
    pub name: String,
    pub description: String,
    pub version: String,
}

/// A plugin's declared permissions.
pub struct PluginPermissions {
    pub filesystem: bool,
    pub filesystem_read_paths: Vec<String>,
    pub filesystem_write_paths: Vec<String>,
    pub network: Vec<String>,
    pub env_vars: Vec<String>,
}

/// A plugin's declared resource limits.
pub struct PluginLimits {
    pub max_memory_mb: u64,
    pub timeout_secs: u64,
    pub max_output_bytes: usize,
}

/// A plugin's descriptor: identity, permissions and limits.
pub struct PluginManifest {
    pub plugin: PluginInfo,
    pub permissions: PluginPermissions,
    pub limits: PluginLimits,
}

/// A capability a plugin reports to the registry.
#[derive(Debug)]
pub enum Capability {
    Filesystem { read_paths: Vec<String>, write_paths: Vec<String> },
    Network(Vec<String>),
    EnvVars(Vec<String>),
}

/// What a guest wrote and how it ended.
#[derive(Debug)]
pub struct PluginOutput {
    pub stdout: Vec<u8>,
    pub stderr: Vec<u8>,
    pub status: i32,
}

/// The per-stream output capacity: the declared limit, floored at one
/// byte.
pub fn effective_output_limit(max_output_bytes: usize) -> (r: usize)
    ensures
        r == (if max_output_bytes >= 1 {
            max_output_bytes as int
        } else {
            1int
        }),
{
    if max_output_bytes >= 1 {
        max_output_bytes
    } else {
        1
    }
}

/// The guest memory ceiling in bytes: megabytes scaled, saturating, and
/// clamped to the platform word.
pub fn memory_limit_bytes(max_memory_mb: u64) -> (r: usize)
    ensures
        r == (if max_memory_mb * 1048576 <= usize::MAX {
            max_memory_mb * 1048576
        } else {
            usize::MAX as int
        }),
{
    let scaled: u64 = match max_memory_mb.checked_mul(1048576) {
        Some(v) => v,
        None => u64::MAX,
    };
    if scaled <= usize::MAX as u64 {
        scaled as usize
    } else {
        usize::MAX
    }
}

/// The epoch deadline for a guest run: the declared timeout, floored at
/// one tick.
pub fn epoch_deadline(timeout_secs: u64) -> (r: u64)
    ensures
        r == (if timeout_secs >= 1 {
            timeout_secs as int
        } else {
            1int
        }),
{
    if timeout_secs >= 1 {
        timeout_secs
    } else {
        1
    }
}

/// Is `k` one of the allowlisted names?
pub open spec fn env_key_allowed(allow: Seq<String>, k: Seq<char>) -> bool {
    exists|i: int| 0 <= i < allow.len() && (#[trigger] allow[i])@ == k
}

/// Keep only the environment entries whose names the manifest allows;
/// everything else is stripped.
pub fn filter_env(env: &Vec<(String, String)>, allow: &Vec<String>) -> (r: Vec<(String, String)>)
    ensures
        r@ == env@.filter(
            |p: (String, String)| env_key_allowed(allow@, p.0@),
        ),
{
    let mut out: Vec<(String, String)> = Vec::new();
    let mut i: usize = 0;
    proof {
        reveal(Seq::filter);
        assert(out@ =~= env@.take(0).filter(|p: (String, String)| env_key_allowed(allow@, p.0@)));
    }
    while i < env.len()
        invariant
            i <= env@.len(),
            out@ == env@.take(i as int).filter(
                |p: (String, String)| env_key_allowed(allow@, p.0@),
            ),
        decreases env@.len() - i,
    {
        if key_allowed(allow, env[i].0.as_str()) {
            let item = (env[i].0.clone(), env[i].1.clone());
            proof {
                assert(env@[i as int] == (env@[i as int].0, env@[i as int].1));
                assert(item == env@[i as int]);
            }
            out.push(item);
        }
        i = i + 1;
        proof {
            reveal(Seq::filter);
            assert(env@.take(i as int).drop_last() =~= env@.take(i as int - 1));
            assert(env@.take(i as int).last() == env@[i as int - 1]);
            assert(out@ =~= env@.take(i as int).filter(
                |p: (String, String)| env_key_allowed(allow@, p.0@),
            ));
        }
    }
    proof {
        assert(env@.take(env@.len() as int) =~= env@);
    }
    out
}

/// Is this name in the allowlist?
fn key_allowed(allow: &Vec<String>, k: &str) -> (r: bool)
    ensures
        r == env_key_allowed(allow@, k@),
{
    let mut i: usize = 0;
    while i < allow.len()
        invariant
            i <= allow@.len(),
            forall|j: int| 0 <= j < i ==> (#[trigger] allow@[j])@ != k@,
        decreases allow@.len() - i,
    {
        if crate::config::str_eq(allow[i].as_str(), k) {
            proof {
                assert((allow@[i as int])@ == k@);
            }
            return true;
        }
        i = i + 1;
    }
    false
}

/// How a guest run came back from the engine.
pub enum GuestOutcome {
    /// The entrypoint returned normally.
    Completed,
    /// The guest called the WASI exit with this code.
    Exited(i32),
    /// A trap, with the root cause's text.
    Trapped(String),
}

/// The error text for a timed-out run.
pub open spec fn timeout_text() -> Seq<char> {
    "execution timed out"@
}

/// The error text for a run that overflowed its output pipes.
pub open spec fn output_limit_text(max_output_bytes: int) -> Seq<char> {
    "plugin output exceeded limit ("@ + dec_seq(max_output_bytes) + " bytes per stream)"@
}

/// Classify what a guest run produced: a normal return is exit status
/// zero; an explicit guest exit carries its code through; a trap whose
/// root cause names an epoch interruption is a timeout; one that names
/// the bounded pipe's capacity is an output overflow naming the limit;
/// any other trap is a generic execution error with its text preserved.
pub fn classify_outcome(
    outcome: GuestOutcome,
    stdout: Vec<u8>,
    stderr: Vec<u8>,
    max_output_bytes: usize,
) -> (r: Result<PluginOutput, Error>)
    ensures
        outcome is Completed ==> r is Ok && r->Ok_0.status == 0,
        outcome matches GuestOutcome::Exited(code) ==> r is Ok && r->Ok_0.status == code,
        r is Ok ==> r->Ok_0.stdout@ == stdout@ && r->Ok_0.stderr@ == stderr@,
        outcome matches GuestOutcome::Trapped(root) ==> r is Err && r->Err_0 is Plugin && ({
            if contains_seq(root@, "interrupted"@) {
                r->Err_0.spec_message() == timeout_text()
            } else if contains_seq(root@, "write beyond capacity of MemoryOutputPipe"@) {
                r->Err_0.spec_message() == output_limit_text(max_output_bytes as int)
            } else {
                r->Err_0.spec_message() == "execution error: "@ + root@
            }
        }),
{
    match outcome {
        GuestOutcome::Completed => Ok(PluginOutput { stdout, stderr, status: 0 }),
        GuestOutcome::Exited(code) => Ok(PluginOutput { stdout, stderr, status: code }),
        GuestOutcome::Trapped(root) => {
            if contains_str(root.as_str(), "interrupted") {
                Err(Error::Plugin(String::from_str("execution timed out")))
            } else if contains_str(root.as_str(), "write beyond capacity of MemoryOutputPipe") {
                let mut msg = String::new();
                msg.append("plugin output exceeded limit (");
                let n = decimal_string(max_output_bytes as u64);
                msg.append(n.as_str());
                msg.append(" bytes per stream)");
                Err(Error::Plugin(msg))
            } else {
                let mut msg = String::new();
                msg.append("execution error: ");
                msg.append(root.as_str());
                Err(Error::Plugin(msg))
            }
        },
    }
}

/// Does `t` contain `p`?
fn contains_str(t: &str, p: &str) -> (r: bool)
    ensures
        r == contains_seq(t@, p@),
{
    crate::validate::contains_substring(t, p)
}

/// The capabilities a manifest projects to the registry: filesystem
/// when the flag is set, network and environment when their allowlists
/// are non-empty, in that order.
pub fn capabilities(manifest: &PluginManifest) -> (r: Vec<Capability>)
    ensures
        r@.len() == (if manifest.permissions.filesystem {
            1int
        } else {
            0int
        }) + (if manifest.permissions.network@.len() > 0 {
            1int
        } else {
            0int
        }) + (if manifest.permissions.env_vars@.len() > 0 {
            1int
        } else {
            0int
        }),
        manifest.permissions.filesystem ==> r@[0] is Filesystem
            && r@[0]->Filesystem_read_paths@.len()
            == manifest.permissions.filesystem_read_paths@.len()
            && r@[0]->Filesystem_write_paths@.len()
            == manifest.permissions.filesystem_write_paths@.len() && (forall|i: int|
            0 <= i < r@[0]->Filesystem_read_paths@.len()
                ==> (#[trigger] r@[0]->Filesystem_read_paths@[i])@
                == (manifest.permissions.filesystem_read_paths@[i])@) && (forall|i: int|
            0 <= i < r@[0]->Filesystem_write_paths@.len()
                ==> (#[trigger] r@[0]->Filesystem_write_paths@[i])@
                == (manifest.permissions.filesystem_write_paths@[i])@),
        manifest.permissions.network@.len() > 0 ==> exists|k: int|
            0 <= k < r@.len() && (#[trigger] r@[k]) is Network && r@[k]->Network_0@.len()
                == manifest.permissions.network@.len() && (forall|i: int|
                0 <= i < r@[k]->Network_0@.len() ==> (#[trigger] r@[k]->Network_0@[i])@
                    == (manifest.permissions.network@[i])@),
        manifest.permissions.env_vars@.len() > 0 ==> exists|k: int|
            0 <= k < r@.len() && (#[trigger] r@[k]) is EnvVars && r@[k]->EnvVars_0@.len()
                == manifest.permissions.env_vars@.len() && (forall|i: int|
                0 <= i < r@[k]->EnvVars_0@.len() ==> (#[trigger] r@[k]->EnvVars_0@[i])@
                    == (manifest.permissions.env_vars@[i])@),
{
    let mut caps: Vec<Capability> = Vec::new();
    if manifest.permissions.filesystem {
        caps.push(
            Capability::Filesystem {
                read_paths: clone_strings(&manifest.permissions.filesystem_read_paths),
                write_paths: clone_strings(&manifest.permissions.filesystem_write_paths),
            },
        );
    }
    if manifest.permissions.network.len() > 0 {
        let ghost k = caps@.len() as int;
        caps.push(Capability::Network(clone_strings(&manifest.permissions.network)));
        proof {
            assert(caps@[k] is Network);
        }
    }
    if manifest.permissions.env_vars.len() > 0 {
        let ghost k = caps@.len() as int;
        caps.push(Capability::EnvVars(clone_strings(&manifest.permissions.env_vars)));
        proof {
            assert(caps@[k] is EnvVars);
        }
    }
    caps
}

/// Clone a vector of strings.
fn clone_strings(v: &Vec<String>) -> (r: Vec<String>)
    ensures
        r@.len() == v@.len(),
        forall|i: int| 0 <= i < v@.len() ==> (#[trigger] r@[i])@ == (v@[i])@,
{
    let mut out: Vec<String> = Vec::new();
    let mut i: usize = 0;
    while i < v.len()
        invariant
            i <= v@.len(),
            out@.len() == i,
            forall|k: int| 0 <= k < i ==> (#[trigger] out@[k])@ == (v@[k])@,
        decreases v@.len() - i,
    {
        out.push(v[i].clone());
        i = i + 1;
    }
    out
}

} // verus!
