//! The `schedule_heartbeat` agent tool: a bounded, recursion-safe way
//! for the agent to schedule its own future wake-up calls.

use vstd::prelude::*;
use vstd::string::StringExecFns;

use crate::errors::Error;
use crate::store::{pending_for, now_unix_seconds, SessionStore};
use crate::text::{dec_seq, decimal_string};
use crate::timefmt::{lemma_rfc3339_roundtrip, rfc3339_of, spec_parse_timestamp, MAX_UNIX_SECONDS};

verus! {

/// Maximum delay: 30 days in seconds.
pub const MAX_DELAY_SECONDS: i64 = 2_592_000;

/// Maximum pending heartbeats per session.
pub const MAX_PENDING_PER_SESSION: i64 = 5;

/// The caller's standing when a tool runs.
pub struct ToolContext {
    pub session_id: String,
    pub user_id: Option<String>,
    pub is_heartbeat: bool,
}

/// What a tool hands back to the agent.
#[derive(Debug)]
pub struct ToolOutput {
    pub content: String,
    pub is_error: bool,
}

impl ToolOutput {
    /// A successful tool reply carrying `content`.
    pub fn success(content: String) -> (r: ToolOutput)
        ensures
            r.content == content,
            !r.is_error,
    {
        ToolOutput { content, is_error: false }
    }
}

/// The user a task is recorded for: the context's user, or `unknown`.
pub open spec fn task_user(ctx: ToolContext) -> Seq<char> {
    match ctx.user_id {
        Some(u) => u@,
        None => "unknown"@,
    }
}

/// The success text of a scheduling call.
pub open spec fn schedule_success_text(fire_at: int, delay: int, task_id: Seq<char>) -> Seq<char> {
    "Heartbeat scheduled for "@ + rfc3339_of(fire_at) + " (in "@ + dec_seq(delay)
        + " seconds). Task ID: "@ + task_id
}

/// Law: the recorded fire-at instant is the call time plus the delay.
/// A task scheduled at `now` with `delay` seconds carries the text
/// `rfc3339_of(now + delay)`, and that text parses back to exactly
/// `now + delay`.
pub proof fn lemma_fire_at_is_call_time_plus_delay(now: int, delay: int)
    requires
        0 <= now,
        0 <= delay,
        now + delay <= MAX_UNIX_SECONDS,
    ensures
        spec_parse_timestamp(rfc3339_of(now + delay)) == Some(now + delay),
{
    lemma_rfc3339_roundtrip(now + delay);
}

/// Tool for scheduling a future heartbeat wake-up call for the agent.
pub struct ScheduleHeartbeat;

impl ScheduleHeartbeat {
    /// Make the tool.
    pub fn new() -> (r: ScheduleHeartbeat) {
        ScheduleHeartbeat
    }

    /// The tool's registry name.
    pub fn name(&self) -> (r: &'static str)
        ensures
            r@ == "schedule_heartbeat"@,
    {
        "schedule_heartbeat"
    }

    /// The description shown to the agent.
    pub fn description(&self) -> (r: &'static str)
        ensures
            r@
                == "Schedule a wake-up call for yourself in the future. Use this to set reminders or check back on tasks."@,
    {
        "Schedule a wake-up call for yourself in the future. Use this to set reminders or check back on tasks."
    }

    /// The tool's argument schema, as JSON text.
    pub fn input_schema_json(&self) -> (r: &'static str)
        ensures
            r@
                == "{\"type\":\"object\",\"properties\":{\"delay_seconds\":{\"type\":\"integer\",\"description\":\"Number of seconds to wait before waking up (min 1, max 2592000 = 30 days)\"},\"reason\":{\"type\":\"string\",\"description\":\"Context/reason for the wake-up call (e.g. 'Check if deployment finished')\"}},\"required\":[\"delay_seconds\",\"reason\"]}"@,
    {
        "{\"type\":\"object\",\"properties\":{\"delay_seconds\":{\"type\":\"integer\",\"description\":\"Number of seconds to wait before waking up (min 1, max 2592000 = 30 days)\"},\"reason\":{\"type\":\"string\",\"description\":\"Context/reason for the wake-up call (e.g. 'Check if deployment finished')\"}},\"required\":[\"delay_seconds\",\"reason\"]}"
    }

    /// Check the raw tool arguments: `delay_seconds` must be an integer
    /// and `reason` a string.
    pub fn check_args(&self, delay_seconds: Option<i64>, has_reason: bool) -> (r: Result<
        i64,
        Error,
    >)
        ensures
            r is Ok <==> delay_seconds is Some && has_reason,
            r is Ok ==> r->Ok_0 == delay_seconds->0,
            delay_seconds is None ==> r->Err_0 is Agent && r->Err_0.spec_message()
                == "missing or invalid 'delay_seconds' argument"@,
            delay_seconds is Some && !has_reason ==> r->Err_0 is Agent && r->Err_0.spec_message()
                == "missing or invalid 'reason' argument"@,
    {
        match delay_seconds {
            None => Err(
                Error::Agent(String::from_str("missing or invalid 'delay_seconds' argument")),
            ),
            Some(d) => {
                if !has_reason {
                    Err(Error::Agent(String::from_str("missing or invalid 'reason' argument")))
                } else {
                    Ok(d)
                }
            },
        }
    }

    /// Schedule a heartbeat as of the instant `now`.
    ///
    /// Refuses recursive scheduling, out-of-range delays, and a sixth
    /// pending task for the session; otherwise persists a pending task
    /// firing `delay_seconds` after `now` and reports it.
    pub fn execute_at(
        &self,
        store: &mut SessionStore,
        ctx: &ToolContext,
        delay_seconds: i64,
        reason: &str,
        now: i64,
    ) -> (r: Result<ToolOutput, Error>)
        requires
            0 <= now <= MAX_UNIX_SECONDS - MAX_DELAY_SECONDS,
        ensures
            ctx.is_heartbeat ==> r is Err && r->Err_0 is Agent && r->Err_0.spec_message()
                == "cannot schedule a heartbeat from within a heartbeat execution"@,
            !ctx.is_heartbeat && delay_seconds <= 0 ==> r is Err && r->Err_0 is Agent
                && r->Err_0.spec_message() == "delay_seconds must be positive"@,
            !ctx.is_heartbeat && delay_seconds > MAX_DELAY_SECONDS ==> r is Err && r->Err_0
                is Agent && r->Err_0.spec_message()
                == "delay_seconds cannot exceed 2592000 (30 days)"@,
            !ctx.is_heartbeat && 0 < delay_seconds <= MAX_DELAY_SECONDS && pending_for(
                old(store).tasks(),
                ctx.session_id@,
            ).len() >= MAX_PENDING_PER_SESSION && r is Err && r->Err_0 is Agent
                ==> r->Err_0.spec_message() == "session already has "@ + dec_seq(
                pending_for(old(store).tasks(), ctx.session_id@).len() as int,
            ) + " pending heartbeats (max 5)"@,
            pending_for(old(store).tasks(), ctx.session_id@).len() >= MAX_PENDING_PER_SESSION
                ==> r is Err && final(store).tasks() == old(store).tasks(),
            r is Ok ==> !ctx.is_heartbeat && 0 < delay_seconds <= MAX_DELAY_SECONDS && pending_for(
                old(store).tasks(),
                ctx.session_id@,
            ).len() < MAX_PENDING_PER_SESSION,
            r is Ok ==> old(store).sessions().contains_key(ctx.session_id@),
            r is Ok ==> exists|fire: int, d: int, id: Seq<char>|
                {
                    &&& fire == now + delay_seconds
                    &&& d == delay_seconds
                    &&& final(store).tasks() == old(store).tasks().push(
                        (id, ctx.session_id@, task_user(*ctx), rfc3339_of(fire), reason@, "pending"@),
                    )
                    &&& r->Ok_0.content@ == #[trigger] schedule_success_text(fire, d, id)
                    &&& !r->Ok_0.is_error
                },
            r is Err ==> final(store).tasks() == old(store).tasks(),
            final(store).sessions() == old(store).sessions() && final(store).messages() == old(
                store,
            ).messages(),
            r is Err ==> r->Err_0 is Agent || r->Err_0 is Database,
            r is Err && r->Err_0 is Agent ==> (ctx.is_heartbeat || delay_seconds <= 0
                || delay_seconds > MAX_DELAY_SECONDS || pending_for(
                old(store).tasks(),
                ctx.session_id@,
            ).len() >= MAX_PENDING_PER_SESSION),
    {
        if ctx.is_heartbeat {
            return Err(
                Error::Agent(
                    String::from_str("cannot schedule a heartbeat from within a heartbeat execution"),
                ),
            );
        }
        if delay_seconds <= 0 {
            return Err(Error::Agent(String::from_str("delay_seconds must be positive")));
        }
        if delay_seconds > MAX_DELAY_SECONDS {
            return Err(
                Error::Agent(String::from_str("delay_seconds cannot exceed 2592000 (30 days)")),
            );
        }

        let pending = match store.count_pending_tasks_for_session(ctx.session_id.as_str()) {
            Ok(n) => n,
            Err(e) => {
                return Err(e);
            },
        };
        if pending >= MAX_PENDING_PER_SESSION {
            let count_text = decimal_string(pending as u64);
            let mut msg = String::new();
            msg.append("session already has ");
            msg.append(count_text.as_str());
            msg.append(" pending heartbeats (max 5)");
            return Err(Error::Agent(msg));
        }

        let user = match &ctx.user_id {
            Some(u) => u.clone(),
            None => String::from_str("unknown"),
        };

        let fire_at = now + delay_seconds;
        let task_id = match store.schedule_task(
            ctx.session_id.as_str(),
            user.as_str(),
            fire_at,
            reason,
        ) {
            Ok(id) => id,
            Err(e) => {
                return Err(e);
            },
        };

        let fire_text = crate::timefmt::format_rfc3339(fire_at);
        let delay_text = decimal_string(delay_seconds as u64);
        let mut content = String::new();
        content.append("Heartbeat scheduled for ");
        content.append(fire_text.as_str());
        content.append(" (in ");
        content.append(delay_text.as_str());
        content.append(" seconds). Task ID: ");
        content.append(task_id.as_str());
        proof {
            assert(content@ =~= schedule_success_text(
                now + delay_seconds,
                delay_seconds as int,
                task_id@,
            ));
        }
        Ok(ToolOutput::success(content))
    }

    /// Schedule a heartbeat as of the present time.
    pub fn execute(
        &self,
        store: &mut SessionStore,
        ctx: &ToolContext,
        delay_seconds: i64,
        reason: &str,
    ) -> (r: Result<ToolOutput, Error>)
        ensures
            ctx.is_heartbeat ==> r is Err && r->Err_0 is Agent && r->Err_0.spec_message()
                == "cannot schedule a heartbeat from within a heartbeat execution"@,
            !ctx.is_heartbeat && delay_seconds <= 0 ==> r is Err && r->Err_0 is Agent
                && r->Err_0.spec_message() == "delay_seconds must be positive"@,
            !ctx.is_heartbeat && delay_seconds > MAX_DELAY_SECONDS ==> r is Err && r->Err_0
                is Agent && r->Err_0.spec_message()
                == "delay_seconds cannot exceed 2592000 (30 days)"@,
            !ctx.is_heartbeat && 0 < delay_seconds <= MAX_DELAY_SECONDS && pending_for(
                old(store).tasks(),
                ctx.session_id@,
            ).len() >= MAX_PENDING_PER_SESSION && r is Err && r->Err_0 is Agent
                ==> r->Err_0.spec_message() == "session already has "@ + dec_seq(
                pending_for(old(store).tasks(), ctx.session_id@).len() as int,
            ) + " pending heartbeats (max 5)"@,
            pending_for(old(store).tasks(), ctx.session_id@).len() >= MAX_PENDING_PER_SESSION
                ==> r is Err && final(store).tasks() == old(store).tasks(),
            r is Ok ==> !ctx.is_heartbeat && 0 < delay_seconds <= MAX_DELAY_SECONDS && pending_for(
                old(store).tasks(),
                ctx.session_id@,
            ).len() < MAX_PENDING_PER_SESSION,
            r is Ok ==> old(store).sessions().contains_key(ctx.session_id@),
            r is Ok ==> exists|fire: int, d: int, id: Seq<char>|
                {
                    &&& delay_seconds <= fire
                    &&& d == delay_seconds
                    &&& final(store).tasks() == old(store).tasks().push(
                        (id, ctx.session_id@, task_user(*ctx), rfc3339_of(fire), reason@, "pending"@),
                    )
                    &&& r->Ok_0.content@ == #[trigger] schedule_success_text(fire, d, id)
                    &&& !r->Ok_0.is_error
                },
            r is Err ==> final(store).tasks() == old(store).tasks(),
            final(store).sessions() == old(store).sessions() && final(store).messages() == old(
                store,
            ).messages(),
            r is Err ==> r->Err_0 is Agent || r->Err_0 is Database,
            r is Err && r->Err_0 is Agent ==> (ctx.is_heartbeat || delay_seconds <= 0
                || delay_seconds > MAX_DELAY_SECONDS || pending_for(
                old(store).tasks(),
                ctx.session_id@,
            ).len() >= MAX_PENDING_PER_SESSION),
    {
        let raw_now = now_unix_seconds();
        let now = if raw_now > MAX_UNIX_SECONDS - MAX_DELAY_SECONDS {
            MAX_UNIX_SECONDS - MAX_DELAY_SECONDS
        } else {
            raw_now
        };
        let r = self.execute_at(store, ctx, delay_seconds, reason, now);
        r
    }
}

} // verus!
