//! The WebSocket gateway protocol: the JSON frames the server sends,
//! the per-frame decision logic (size guard, resume, injection screen),
//! and the in-process session registry.

use vstd::prelude::*;
use vstd::string::StringExecFns;

use crate::config::AppConfig;
use crate::store::{new_uuid_string, SessionStore};
use crate::text::{chars_to_string, str_to_chars};
use crate::validate::{is_prompt_injection, InputValidator};

verus! {

/// Largest WebSocket frame accepted at the protocol layer.
pub const MAX_WS_FRAME_BYTES: usize = 64 * 1024;

/// Largest whole WebSocket message accepted at the protocol layer.
pub const MAX_WS_MESSAGE_BYTES: usize = 256 * 1024;

/// Largest text payload the gateway itself accepts.
pub const MAX_WS_TEXT_BYTES: usize = 32 * 1024;

/// Is a text message longer than the gateway accepts?
pub fn text_message_too_large(len: usize) -> (r: bool)
    ensures
        r == (len > 32768),
{
    len > MAX_WS_TEXT_BYTES
}

/// The hexadecimal digit character for `d % 16`, lower case.
pub open spec fn hex_char(d: int) -> char {
    let h = d % 16;
    if h < 10 {
        ((48 + h) as u8) as char
    } else {
        ((87 + h) as u8) as char
    }
}

/// The JSON string escape of one character: quote and backslash get a
/// backslash escape, the named control characters their short forms,
/// other control characters a `\u00XX` form; everything else is
/// unchanged.
pub open spec fn json_escape_char(c: char) -> Seq<char> {
    if c == '"' {
        seq!['\\', '"']
    } else if c == '\\' {
        seq!['\\', '\\']
    } else if c == '\u{08}' {
        seq!['\\', 'b']
    } else if c == '\t' {
        seq!['\\', 't']
    } else if c == '\n' {
        seq!['\\', 'n']
    } else if c == '\u{0c}' {
        seq!['\\', 'f']
    } else if c == '\r' {
        seq!['\\', 'r']
    } else if (c as u32) < 32 {
        seq!['\\', 'u', '0', '0', hex_char((c as int) / 16), hex_char(c as int)]
    } else {
        seq![c]
    }
}

/// The JSON string escape of a whole character sequence.
pub open spec fn json_escape_seq(s: Seq<char>) -> Seq<char>
    decreases s.len(),
{
    if s.len() == 0 {
        Seq::empty()
    } else {
        json_escape_seq(s.drop_last()) + json_escape_char(s.last())
    }
}

/// The escape of one character, as a vector.
fn json_escape_char_exec(c: char) -> (r: Vec<char>)
    ensures
        r@ == json_escape_char(c),
{
    let mut out: Vec<char> = Vec::new();
    let code = c as u32;
    if c == '"' {
        out.push('\\');
        out.push('"');
    } else if c == '\\' {
        out.push('\\');
        out.push('\\');
    } else if c == '\u{08}' {
        out.push('\\');
        out.push('b');
    } else if c == '\t' {
        out.push('\\');
        out.push('t');
    } else if c == '\n' {
        out.push('\\');
        out.push('n');
    } else if c == '\u{0c}' {
        out.push('\\');
        out.push('f');
    } else if c == '\r' {
        out.push('\\');
        out.push('r');
    } else if code < 32 {
        out.push('\\');
        out.push('u');
        out.push('0');
        out.push('0');
        out.push(hex_char_exec((code / 16) as u8));
        out.push(hex_char_exec((code % 16) as u8));
    } else {
        out.push(c);
    }
    proof {
        assert(out@ =~= json_escape_char(c));
    }
    out
}

/// Escape a string for a JSON string literal position.
pub fn json_escape(s: &str) -> (r: String)
    ensures
        r@ == json_escape_seq(s@),
{
    let chars = str_to_chars(s);
    let mut out: Vec<char> = Vec::new();
    let mut i: usize = 0;
    while i < chars.len()
        invariant
            i <= chars@.len(),
            chars@ == s@,
            out@ == json_escape_seq(s@.take(i as int)),
        decreases chars@.len() - i,
    {
        let c = chars[i];
        let mut piece = json_escape_char_exec(c);
        out.append(&mut piece);
        i = i + 1;
        proof {
            assert(s@.take(i as int).drop_last() =~= s@.take(i as int - 1));
            assert(s@.take(i as int).last() == s@[i as int - 1]);
        }
    }
    proof {
        assert(s@.take(chars@.len() as int) =~= s@);
    }
    chars_to_string(&out)
}

/// The hexadecimal digit character for `d % 16`, lower case.
fn hex_char_exec(d: u8) -> (r: char)
    requires
        d < 16,
    ensures
        r == hex_char(d as int),
{
    if d < 10 {
        (48 + d) as char
    } else {
        (87 + d) as char
    }
}

/// The welcome frame sent first on every connection.
pub open spec fn connected_frame_text(session_id: Seq<char>) -> Seq<char> {
    "{\"type\":\"connected\",\"session_id\":\""@ + json_escape_seq(session_id) + "\"}"@
}

/// The frame acknowledging a session resume.
pub open spec fn resumed_frame_text(session_id: Seq<char>) -> Seq<char> {
    "{\"type\":\"resumed\",\"session_id\":\""@ + json_escape_seq(session_id) + "\"}"@
}

/// The frame carrying the agent's reply.
pub open spec fn message_frame_text(session_id: Seq<char>, content: Seq<char>) -> Seq<char> {
    "{\"type\":\"message\",\"session_id\":\""@ + json_escape_seq(session_id) + "\",\"content\":\""@
        + json_escape_seq(content) + "\"}"@
}

/// Build the welcome frame.
pub fn connected_frame(session_id: &str) -> (r: String)
    ensures
        r@ == connected_frame_text(session_id@),
{
    let mut r = String::new();
    r.append("{\"type\":\"connected\",\"session_id\":\"");
    let esc = json_escape(session_id);
    r.append(esc.as_str());
    r.append("\"}");
    r
}

/// Build the resume acknowledgement frame.
pub fn resumed_frame(session_id: &str) -> (r: String)
    ensures
        r@ == resumed_frame_text(session_id@),
{
    let mut r = String::new();
    r.append("{\"type\":\"resumed\",\"session_id\":\"");
    let esc = json_escape(session_id);
    r.append(esc.as_str());
    r.append("\"}");
    r
}

/// Build the frame carrying the agent's reply.
pub fn message_frame(session_id: &str, content: &str) -> (r: String)
    ensures
        r@ == message_frame_text(session_id@, content@),
{
    let mut r = String::new();
    r.append("{\"type\":\"message\",\"session_id\":\"");
    let esc_id = json_escape(session_id);
    r.append(esc_id.as_str());
    r.append("\",\"content\":\"");
    let esc_content = json_escape(content);
    r.append(esc_content.as_str());
    r.append("\"}");
    r
}

/// The error frame for an oversized text message.
pub fn message_too_large_frame() -> (r: &'static str)
    ensures
        r@ == "{\"type\":\"error\",\"code\":\"message_too_large\",\"max_bytes\":32768}"@,
{
    "{\"type\":\"error\",\"code\":\"message_too_large\",\"max_bytes\":32768}"
}

/// The error frame for a screened-out message.
pub fn prompt_injection_frame() -> (r: &'static str)
    ensures
        r@ == "{\"type\":\"error\",\"code\":\"prompt_injection_detected\"}"@,
{
    "{\"type\":\"error\",\"code\":\"prompt_injection_detected\"}"
}

/// The error frame for a resume naming no known session.
pub fn unknown_session_frame() -> (r: &'static str)
    ensures
        r@ == "{\"type\":\"error\",\"code\":\"unknown_session\"}"@,
{
    "{\"type\":\"error\",\"code\":\"unknown_session\"}"
}

/// What a client text frame was found to carry, after JSON reading at
/// the boundary.
pub enum ClientFrame {
    /// `{"type":"resume","session_id":...}`.
    Resume(String),
    /// A frame with a `content` field.
    Content(String),
    /// Anything else.
    Other,
}

/// What the gateway does with one client text frame.
pub enum FrameDecision {
    /// Send the oversize error frame and close the connection.
    TooLarge,
    /// Send the resumed frame for this session.
    Resumed(String),
    /// Send the unknown-session error frame.
    UnknownSession,
    /// Send the injection error frame; the connection stays open.
    InjectionRejected,
    /// Hand this content to the agent.
    Forward(String),
    /// Nothing to do.
    Ignore,
}

/// Decide what to do with one client text frame: the size guard first,
/// then resume handling, then the injection screen, then the agent.
pub fn classify_text_frame(byte_len: usize, frame: ClientFrame, session_known: bool) -> (d:
    FrameDecision)
    ensures
        byte_len > 32768 ==> d is TooLarge,
        byte_len <= 32768 ==> match frame {
            ClientFrame::Resume(id) => {
                &&& session_known ==> (d matches FrameDecision::Resumed(rid) && rid == id)
                &&& !session_known ==> d is UnknownSession
            },
            ClientFrame::Content(content) => {
                &&& is_prompt_injection(content@) ==> d is InjectionRejected
                &&& !is_prompt_injection(content@) ==> (d matches FrameDecision::Forward(f)
                    && f == content)
            },
            ClientFrame::Other => d is Ignore,
        },
{
    if text_message_too_large(byte_len) {
        return FrameDecision::TooLarge;
    }
    match frame {
        ClientFrame::Resume(id) => {
            if session_known {
                FrameDecision::Resumed(id)
            } else {
                FrameDecision::UnknownSession
            }
        },
        ClientFrame::Content(content) => {
            if InputValidator::check_prompt_injection(content.as_str()) {
                FrameDecision::InjectionRejected
            } else {
                FrameDecision::Forward(content)
            }
        },
        ClientFrame::Other => FrameDecision::Ignore,
    }
}

/// Per-connection session tracking.
pub struct SessionState {
    pub id: String,
    pub user_id: Option<String>,
    pub channel_id: Option<String>,
    pub history: Vec<String>,
}

/// Shared gateway state: the configuration, the in-process session
/// registry, and the optional durable store behind it.
pub struct AppState {
    pub config: AppConfig,
    pub sessions: Vec<SessionState>,
    pub session_store: Option<SessionStore>,
}

impl AppState {
    /// The ids of the registered in-process sessions, oldest first.
    pub open spec fn session_ids(&self) -> Seq<Seq<char>> {
        self.sessions@.map_values(|s: SessionState| s.id@)
    }

    /// Make a state with no sessions.
    pub fn new(config: AppConfig, session_store: Option<SessionStore>) -> (r: AppState)
        ensures
            r.session_ids() =~= Seq::<Seq<char>>::empty(),
            r.config == config,
    {
        AppState { config, sessions: Vec::new(), session_store }
    }

    /// Is a session id registered in-process?
    pub fn has_session(&self, id: &str) -> (r: bool)
        ensures
            r == self.session_ids().contains(id@),
    {
        let mut i: usize = 0;
        while i < self.sessions.len()
            invariant
                i <= self.sessions@.len(),
                forall|k: int| 0 <= k < i ==> #[trigger] self.sessions@[k].id@ != id@,
            decreases self.sessions@.len() - i,
        {
            if crate::config::str_eq(self.sessions[i].id.as_str(), id) {
                proof {
                    assert(self.session_ids()[i as int] == id@);
                }
                return true;
            }
            i = i + 1;
        }
        proof {
            assert forall|k: int| 0 <= k < self.session_ids().len() implies self.session_ids()[k]
                != id@ by {
                assert(self.sessions@[k].id@ != id@);
            }
        }
        false
    }

    /// Register a fresh session and best-effort persist it; a store
    /// failure does not abort the connection. Returns the new id.
    pub fn create_session(&mut self) -> (r: String)
        ensures
            final(self).session_ids() == old(self).session_ids().push(r@),
            final(self).sessions@.len() == old(self).sessions@.len() + 1,
            ({
                let entry = final(self).sessions@.last();
                &&& entry.id@ == r@
                &&& entry.user_id is None
                &&& entry.channel_id is None
                &&& entry.history@.len() == 0
            }),
            final(self).config == old(self).config,
            r@.len() == 36,
            (final(self).session_store is Some) == (old(self).session_store is Some),
            old(self).session_store is Some ==> ({
                let pre = old(self).session_store->0;
                let post = final(self).session_store->0;
                &&& post.messages() == pre.messages()
                &&& post.tasks() == pre.tasks()
                &&& (post.sessions() == pre.sessions() || exists|t: int|
                    #![auto]
                    0 <= t && post.sessions() == pre.sessions().insert(
                        r@,
                        (
                            Option::<Seq<char>>::None,
                            Option::<Seq<char>>::None,
                            crate::timefmt::rfc3339_of(t),
                            crate::timefmt::rfc3339_of(t),
                        ),
                    ))
            }),
    {
        let id = new_uuid_string();
        let entry = SessionState {
            id: copy_string(&id),
            user_id: None,
            channel_id: None,
            history: Vec::new(),
        };
        self.sessions.push(entry);
        match &mut self.session_store {
            Some(store) => {
                let _persisted = store.create_session(id.as_str(), None, None);
            },
            None => {},
        }
        proof {
            assert(self.session_ids() =~= old(self).session_ids().push(id@));
        }
        id
    }

    /// Drop a session id from the in-process registry; the durable
    /// record remains for later resume.
    pub fn remove_session(&mut self, id: &str)
        ensures
            final(self).session_ids() == old(self).session_ids().filter(
                |s: Seq<char>| s != id@,
            ),
            final(self).config == old(self).config,
            final(self).session_store == old(self).session_store,
    {
        let mut kept: Vec<SessionState> = Vec::new();
        proof {
            reveal(Seq::filter);
        }
        let n = self.sessions.len();
        let mut i: usize = 0;
        while i < n
            invariant
                n == old(self).sessions@.len(),
                self.sessions@ == old(self).sessions@,
                self.config == old(self).config,
                self.session_store == old(self).session_store,
                i <= n,
                kept@.map_values(|s: SessionState| s.id@) == old(self).session_ids().take(
                    i as int,
                ).filter(|s: Seq<char>| s != id@),
            decreases n - i,
        {
            let keep = !crate::config::str_eq(self.sessions[i].id.as_str(), id);
            if keep {
                let s = &self.sessions[i];
                kept.push(
                    SessionState {
                        id: copy_string(&s.id),
                        user_id: copy_opt_string(&s.user_id),
                        channel_id: copy_opt_string(&s.channel_id),
                        history: copy_strings(&s.history),
                    },
                );
            }
            i = i + 1;
            proof {
                reveal(Seq::filter);
                let pre = old(self).session_ids().take(i as int - 1);
                let cur = old(self).session_ids().take(i as int);
                assert(cur.drop_last() =~= pre);
                assert(kept@.map_values(|s: SessionState| s.id@) =~= cur.filter(
                    |s: Seq<char>| s != id@,
                ));
            }
        }
        self.sessions = kept;
        proof {
            assert(old(self).session_ids().take(n as int) =~= old(self).session_ids());
        }
    }
}

/// Clone an owned string.
fn copy_string(s: &String) -> (r: String)
    ensures
        r@ == s@,
{
    s.clone()
}

/// Clone an optional owned string.
fn copy_opt_string(s: &Option<String>) -> (r: Option<String>)
    ensures
        (r is Some) == (s is Some),
        r is Some ==> r->0@ == s->0@,
{
    match s {
        Some(v) => Some(v.clone()),
        None => None,
    }
}

/// Clone a vector of strings.
fn copy_strings(v: &Vec<String>) -> (r: Vec<String>)
    ensures
        r@.len() == v@.len(),
        forall|i: int| 0 <= i < v@.len() ==> #[trigger] r@[i]@ == v@[i]@,
{
    let mut out: Vec<String> = Vec::new();
    let mut i: usize = 0;
    while i < v.len()
        invariant
            i <= v@.len(),
            out@.len() == i,
            forall|k: int| 0 <= k < i ==> #[trigger] out@[k]@ == v@[k]@,
        decreases v@.len() - i,
    {
        out.push(v[i].clone());
        i = i + 1;
    }
    out
}

/// The main gateway server; binding and serving live at the program's
/// edge, the protocol decisions in this module.
pub struct GatewayServer {
    pub config: AppConfig,
}

impl GatewayServer {
    /// Make a server for the given configuration.
    pub fn new(config: AppConfig) -> (r: GatewayServer)
        ensures
            r.config == config,
    {
        GatewayServer { config }
    }

    /// The `host:port` the server binds.
    pub fn bind_addr(&self) -> (r: String)
        ensures
            r@ == self.config.gateway.host@ + ":"@ + crate::text::dec_seq(
                self.config.gateway.port as int,
            ),
    {
        let mut r = String::new();
        r.append(self.config.gateway.host.as_str());
        r.append(":");
        let port = crate::text::decimal_string(self.config.gateway.port as u64);
        r.append(port.as_str());
        r
    }
}

/// The `/health` reply body.
pub fn health_body() -> (r: &'static str)
    ensures
        r@ == "ok"@,
{
    "ok"
}

/// The `/api/status` reply body for a session count.
pub fn status_body(session_count: usize) -> (r: String)
    ensures
        r@ == "{\"status\":\"running\",\"sessions\":"@ + crate::text::dec_seq(
            session_count as int,
        ) + "}"@,
{
    let mut r = String::new();
    r.append("{\"status\":\"running\",\"sessions\":");
    let n = crate::text::decimal_string(session_count as u64);
    r.append(n.as_str());
    r.append("}");
    r
}

} // verus!
