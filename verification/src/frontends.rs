//! The remote frontends: what the command server counts, what it answers,
//! and how a client names the server.

use vstd::prelude::*;

verus! {

/// The frontend for model-context-protocol requests.
#[derive(Debug, Clone, Copy, PartialEq, Eq, Structural)]
pub struct McpFrontend {}

impl McpFrontend {
    /// A frontend.
    pub fn new() -> (r: Self)
        ensures
            r == (McpFrontend {}),
    {
        McpFrontend {}
    }
}

impl Default for McpFrontend {
    fn default() -> (r: Self)
        ensures
            r == (McpFrontend {}),
    {
        Self::new()
    }
}

/// What the command server counts.
#[derive(Debug, Clone, Copy, PartialEq, Eq, Structural)]
pub struct ServerMetrics {
    pub total_requests: u64,
    pub successful_requests: u64,
    pub failed_requests: u64,
    pub total_addresses_generated: u64,
    pub total_addresses_scanned: u64,
    pub total_addresses_discovered: u64,
}

impl ServerMetrics {
    /// Every request counted succeeded or failed.
    pub open spec fn wf(self) -> bool {
        self.successful_requests + self.failed_requests == self.total_requests
    }

    /// Nothing counted yet.
    pub fn new() -> (r: Self)
        ensures
            r.wf(),
            r == (ServerMetrics {
                total_requests: 0,
                successful_requests: 0,
                failed_requests: 0,
                total_addresses_generated: 0,
                total_addresses_scanned: 0,
                total_addresses_discovered: 0,
            }),
    {
        ServerMetrics {
            total_requests: 0,
            successful_requests: 0,
            failed_requests: 0,
            total_addresses_generated: 0,
            total_addresses_scanned: 0,
            total_addresses_discovered: 0,
        }
    }

    /// Counts one more request, successful or not; returns the numbers of
    /// successful requests and of all requests, whose ratio is the success
    /// rate.
    pub fn record_request(&mut self, success: bool) -> (r: (u64, u64))
        requires
            old(self).wf(),
            old(self).total_requests < u64::MAX,
        ensures
            final(self).wf(),
            final(self).total_requests == old(self).total_requests + 1,
            success ==> final(self).successful_requests == old(self).successful_requests + 1
                && final(self).failed_requests == old(self).failed_requests,
            !success ==> final(self).failed_requests == old(self).failed_requests + 1
                && final(self).successful_requests == old(self).successful_requests,
            final(self).total_addresses_generated == old(self).total_addresses_generated,
            final(self).total_addresses_scanned == old(self).total_addresses_scanned,
            final(self).total_addresses_discovered == old(self).total_addresses_discovered,
            r == (final(self).successful_requests, final(self).total_requests),
    {
        self.total_requests = self.total_requests + 1;
        if success {
            self.successful_requests = self.successful_requests + 1;
        } else {
            self.failed_requests = self.failed_requests + 1;
        }
        (self.successful_requests, self.total_requests)
    }
}

impl ServerMetrics {
    /// `m` with one more request counted, successful or not.
    pub open spec fn recorded(self, success: bool) -> ServerMetrics {
        ServerMetrics {
            total_requests: (self.total_requests + 1) as u64,
            successful_requests: if success {
                (self.successful_requests + 1) as u64
            } else {
                self.successful_requests
            },
            failed_requests: if success {
                self.failed_requests
            } else {
                (self.failed_requests + 1) as u64
            },
            ..self
        }
    }
}

/// Answers a remote command that went as `outcome` and counts the request
/// in `metrics`, by the status of the answer: successful exactly when the
/// answer is. Also gives the numbers of successful requests and of all
/// requests so far, whose ratio is the success rate.
pub fn answer_command(metrics: &mut ServerMetrics, outcome: CommandOutcome) -> (r: (DataframeResponse, (u64, u64)))
    requires
        old(metrics).wf(),
        old(metrics).total_requests < u64::MAX,
    ensures
        answers(outcome, r.0),
        *final(metrics) == old(metrics).recorded(r.0.success),
        final(metrics).wf(),
        r.1 == (final(metrics).successful_requests, final(metrics).total_requests),
{
    let response = execute_command_response(outcome);
    let rate = metrics.record_request(response.success);
    (response, rate)
}

impl Default for ServerMetrics {
    fn default() -> (r: Self)
        ensures
            r.wf(),
            r.total_requests == 0,
    {
        Self::new()
    }
}

/// The answer of the command server: a table as JSON, or an error.
#[derive(Debug)]
pub struct DataframeResponse {
    pub dataframe_json: String,
    pub success: bool,
    pub error: String,
}

/// How a remote command went.
#[derive(Debug)]
pub enum CommandOutcome {
    /// The command text did not deserialize; the parser's message.
    BadCommand(String),
    /// The command ran and failed with this message.
    Failed(String),
    /// The command ran but its table did not serialize; the message.
    SerializeFailed(String),
    /// The command ran; its table as JSON.
    Done(String),
}

/// `r` is the answer to a remote command that went as `outcome`.
pub open spec fn answers(outcome: CommandOutcome, r: DataframeResponse) -> bool {
    match outcome {
        CommandOutcome::BadCommand(e) => !r.success && r.dataframe_json@.len() == 0 && r.error@
            == "Failed to deserialize command: "@ + e@,
        CommandOutcome::Failed(e) => !r.success && r.dataframe_json@.len() == 0 && r.error@ == e@,
        CommandOutcome::SerializeFailed(e) => !r.success && r.dataframe_json@.len() == 0 && r.error@
            == "Failed to serialize DataFrame: "@ + e@,
        CommandOutcome::Done(json) => r.success && r.dataframe_json@ == json@ && r.error@.len() == 0,
    }
}

/// The answer to a remote command that went as `outcome`.
pub fn execute_command_response(outcome: CommandOutcome) -> (r: DataframeResponse)
    ensures
        answers(outcome, r),
{
    proof {
        reveal_strlit("");
    }
    match outcome {
        CommandOutcome::BadCommand(e) => {
            let mut msg = String::from_str("Failed to deserialize command: ");
            msg.append(e.as_str());
            DataframeResponse { dataframe_json: String::from_str(""), success: false, error: msg }
        },
        CommandOutcome::Failed(e) => DataframeResponse {
            dataframe_json: String::from_str(""),
            success: false,
            error: e,
        },
        CommandOutcome::SerializeFailed(e) => {
            let mut msg = String::from_str("Failed to serialize DataFrame: ");
            msg.append(e.as_str());
            DataframeResponse { dataframe_json: String::from_str(""), success: false, error: msg }
        },
        CommandOutcome::Done(json) => DataframeResponse {
            dataframe_json: json,
            success: true,
            error: String::from_str(""),
        },
    }
}

/// Whether `s` starts with `p`.
fn starts_with(s: &str, p: &str) -> (r: bool)
    ensures
        r == (p@.len() <= s@.len() && s@.subrange(0, p@.len() as int) == p@),
{
    let n = p.unicode_len();
    let m = s.unicode_len();
    if n > m {
        return false;
    }
    let mut i: usize = 0;
    while i < n
        invariant
            0 <= i <= n <= m,
            n == p@.len(),
            m == s@.len(),
            forall|k: int| 0 <= k < i ==> s@[k] == p@[k],
        decreases n - i,
    {
        if s.get_char(i) != p.get_char(i) {
            assert(s@.subrange(0, n as int)[i as int] != p@[i as int]);
            return false;
        }
        i = i + 1;
    }
    assert(s@.subrange(0, n as int) =~= p@);
    true
}

/// The URL of the command server at `addr`: `addr` itself when it starts
/// with `http://` or `https://`, else `addr` behind `http://`.
pub fn remote_url(addr: &str) -> (r: String)
    ensures
        r@ == if ("http://"@.len() <= addr@.len() && addr@.subrange(0, 7) == "http://"@) || (
        "https://"@.len() <= addr@.len() && addr@.subrange(0, 8) == "https://"@) {
            addr@
        } else {
            "http://"@ + addr@
        },
{
    proof {
        reveal_strlit("http://");
        reveal_strlit("https://");
    }
    if starts_with(addr, "http://") || starts_with(addr, "https://") {
        String::from_str(addr)
    } else {
        let mut url = String::from_str("http://");
        url.append(addr);
        url
    }
}

} // verus!
