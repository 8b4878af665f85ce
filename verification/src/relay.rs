//! The relay loop's decisions: the status it shows, when it polls the queue
//! again, and where it sends its requests.

use vstd::prelude::*;
use crate::config::RelayConfig;

verus! {

/// What the relay shows of itself.
#[derive(Clone, Debug)]
pub struct RelayStatus {
    pub connected: bool,
    pub venue_id: Option<String>,
    pub print_count: u64,
}

impl RelayStatus {
    /// The status before any configuration is known.
    pub fn new() -> (s: RelayStatus)
        ensures
            !s.connected,
            s.venue_id is None,
            s.print_count == 0,
    {
        RelayStatus { connected: false, venue_id: None, print_count: 0 }
    }

    /// Records that a job ended; only a job that printed is counted.
    pub fn record_completion(&mut self, success: bool)
        requires
            success ==> old(self).print_count < u64::MAX,
        ensures
            final(self).print_count == old(self).print_count + if success { 1int } else { 0int },
            final(self).connected == old(self).connected,
            final(self).venue_id == old(self).venue_id,
    {
        if success {
            self.print_count = self.print_count + 1;
        }
    }
}

/// What the supervising loop does next.
#[derive(Clone, Copy, Debug, PartialEq, Eq)]
pub enum SupervisorStep {
    /// Run the relay for the configured venue.
    RunRelay,
    /// No configuration yet: wait this many seconds and look again.
    AwaitSetup { seconds: u64 },
}

/// Decides whether the relay can run with the configuration at hand. With a
/// configuration, the status shows its venue and the relay as connected.
pub fn supervise(status: &mut RelayStatus, config: &Option<RelayConfig>) -> (step: SupervisorStep)
    ensures
        config is None ==> step == (SupervisorStep::AwaitSetup { seconds: 10 }) && *final(status)
            == *old(status),
        config matches Some(cfg) ==> step == SupervisorStep::RunRelay && final(status).connected
            && final(status).venue_id == Some(cfg.venue_id) && final(status).print_count == old(
            status,
        ).print_count,
{
    match config {
        Some(cfg) => {
            status.venue_id = Some(cfg.venue_id.clone());
            status.connected = true;
            SupervisorStep::RunRelay
        },
        None => SupervisorStep::AwaitSetup { seconds: 10 },
    }
}

/// Records that the relay stopped; it is retried after the returned number
/// of seconds.
pub fn relay_stopped(status: &mut RelayStatus) -> (seconds: u64)
    ensures
        seconds == 5,
        !final(status).connected,
        final(status).venue_id == old(status).venue_id,
        final(status).print_count == old(status).print_count,
{
    status.connected = false;
    5
}

/// Records that the relay has started polling the queue.
pub fn relay_started(status: &mut RelayStatus)
    ensures
        final(status).connected,
        final(status).venue_id == old(status).venue_id,
        final(status).print_count == old(status).print_count,
{
    status.connected = true;
}

/// What the relay does after one poll of the queue.
#[derive(Clone, Copy, Debug, PartialEq, Eq)]
pub enum PollStep {
    /// A job was handled: poll again at once.
    PollAgain,
    /// The queue was empty: wait this many seconds.
    Idle { seconds: u64 },
    /// The poll failed: the relay shows as disconnected for this many
    /// seconds, then as connected again (see `backoff_over`).
    Backoff { seconds: u64 },
}

/// Decides the next step from the outcome of a poll: `Ok(true)` when a job
/// was handled, `Ok(false)` when there was none, an error otherwise.
pub fn after_poll(status: &mut RelayStatus, outcome: &Result<bool, String>) -> (step: PollStep)
    ensures
        step == match outcome {
            Ok(true) => PollStep::PollAgain,
            Ok(false) => PollStep::Idle { seconds: 2 },
            Err(_) => PollStep::Backoff { seconds: 5 },
        },
        final(status).connected == (old(status).connected && outcome is Ok),
        final(status).venue_id == old(status).venue_id,
        final(status).print_count == old(status).print_count,
{
    match outcome {
        Ok(true) => PollStep::PollAgain,
        Ok(false) => PollStep::Idle { seconds: 2 },
        Err(_) => {
            status.connected = false;
            PollStep::Backoff { seconds: 5 }
        },
    }
}

/// Records that a back-off after a failed poll is over.
pub fn backoff_over(status: &mut RelayStatus)
    ensures
        final(status).connected,
        final(status).venue_id == old(status).venue_id,
        final(status).print_count == old(status).print_count,
{
    status.connected = true;
}

/// The address at which the relay claims the next print job.
pub fn claim_job_endpoint(supabase_url: &str) -> (r: String)
    ensures
        r@ == supabase_url@ + "/rest/v1/rpc/claim_print_job"@,
{
    let mut s = String::from_str(supabase_url);
    s.append("/rest/v1/rpc/claim_print_job");
    s
}

/// The address at which the relay reports a finished print job.
pub fn complete_job_endpoint(supabase_url: &str) -> (r: String)
    ensures
        r@ == supabase_url@ + "/rest/v1/rpc/complete_print_job"@,
{
    let mut s = String::from_str(supabase_url);
    s.append("/rest/v1/rpc/complete_print_job");
    s
}

/// The `Authorization` header value for the queue's API key.
pub fn bearer_authorization(api_key: &str) -> (r: String)
    ensures
        r@ == "Bearer "@ + api_key@,
{
    let mut s = String::from_str("Bearer ");
    s.append(api_key);
    s
}

} // verus!
