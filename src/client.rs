use vstd::prelude::*;

use crate::decode::{
    check_ping, decode_client_list, decode_detailed_player_info, decode_info, decode_rcon,
    decode_rules, echoes_nonce, parse_client_list, parse_detailed_list, parse_info, parse_rcon,
    parse_rules,
};
use crate::error::{Error, ResponseFault};
use crate::packet::{strip_of, validate_and_strip};
use crate::protocol::{DEFAULT_TIMEOUT_MS, MAX_RETRIES};
use crate::types::{DetailedPlayerList, PingInfo, PlayerList, RconResponse, ServerInfo, ServerRules};

verus! {

/// How long each attempt waits, and how many attempts a query makes.
#[derive(Debug, Clone, Copy, PartialEq, Eq, Structural)]
pub struct ClientConfig {
    /// Per-attempt receive deadline in milliseconds.
    pub timeout_ms: u64,
    /// Total number of send attempts, not additional ones.
    pub max_retries: usize,
}

impl Default for ClientConfig {
    fn default() -> (r: ClientConfig)
        ensures
            r.timeout_ms == DEFAULT_TIMEOUT_MS,
            r.max_retries == MAX_RETRIES,
    {
        ClientConfig { timeout_ms: DEFAULT_TIMEOUT_MS, max_retries: MAX_RETRIES }
    }
}

/// How one attempt ended, as reported by whoever drives the socket.
#[derive(Debug, Clone)]
pub enum Outcome {
    /// The datagram could not be sent; the system's message.
    SendFailed(String),
    /// A datagram arrived; its bytes.
    Received(Vec<u8>),
    /// Waiting for a datagram failed; the system's message.
    ReceiveFailed(String),
    /// No datagram arrived before the deadline.
    TimedOut,
}

/// What the driver of the socket does next.
#[derive(Debug)]
pub enum Action {
    /// Send the request and wait up to the deadline for a reply.
    Send,
    /// The query is over: the reply's bytes, or why there is none.
    Finish(Result<Vec<u8>, Error>),
}

/// Progress of one query through its bounded attempts.
#[derive(Debug, Clone, Copy, PartialEq, Eq, Structural)]
pub struct Retry {
    /// Attempts that have timed out so far.
    pub attempts: usize,
    /// Attempts allowed in all.
    pub max_attempts: usize,
}

/// The first action of a query allowed `max` attempts.
pub open spec fn start_action(max: usize) -> Action {
    if max > 0 {
        Action::Send
    } else {
        Action::Finish(Err(Error::Timeout))
    }
}

/// The state before any attempt.
pub open spec fn initial(max: usize) -> Retry {
    Retry { attempts: 0, max_attempts: max }
}

/// The next state and action after an attempt ends with `o`. A reply or a
/// failure ends the query at once; a timeout leads to another attempt while
/// any are left.
pub open spec fn next(s: Retry, o: Outcome) -> (Retry, Action) {
    match o {
        Outcome::SendFailed(m) => (s, Action::Finish(Err(Error::Send(m)))),
        Outcome::ReceiveFailed(m) => (s, Action::Finish(Err(Error::Receive(m)))),
        Outcome::Received(b) => (s, Action::Finish(Ok(b))),
        Outcome::TimedOut => if s.attempts < s.max_attempts {
            let t = Retry { attempts: (s.attempts + 1) as usize, max_attempts: s.max_attempts };
            if t.attempts < t.max_attempts {
                (t, Action::Send)
            } else {
                (t, Action::Finish(Err(Error::Timeout)))
            }
        } else {
            (s, Action::Finish(Err(Error::Timeout)))
        },
    }
}

impl Retry {
    /// Starts a query under `config`, with the first action to take.
    pub fn start(config: &ClientConfig) -> (r: (Retry, Action))
        ensures
            r.0 == initial(config.max_retries),
            r.1 == start_action(config.max_retries),
    {
        let s = Retry { attempts: 0, max_attempts: config.max_retries };
        if config.max_retries > 0 {
            (s, Action::Send)
        } else {
            (s, Action::Finish(Err(Error::Timeout)))
        }
    }

    /// Takes in how an attempt ended and says what to do next.
    pub fn on_outcome(&mut self, o: Outcome) -> (a: Action)
        ensures
            (*final(self), a) == next(*old(self), o),
    {
        match o {
            Outcome::SendFailed(m) => Action::Finish(Err(Error::Send(m))),
            Outcome::ReceiveFailed(m) => Action::Finish(Err(Error::Receive(m))),
            Outcome::Received(b) => Action::Finish(Ok(b)),
            Outcome::TimedOut => {
                if self.attempts < self.max_attempts {
                    self.attempts = self.attempts + 1;
                    if self.attempts < self.max_attempts {
                        Action::Send
                    } else {
                        Action::Finish(Err(Error::Timeout))
                    }
                } else {
                    Action::Finish(Err(Error::Timeout))
                }
            },
        }
    }
}

/// The actions taken when `k` attempts in a row time out, from state `s`.
pub open spec fn run_timeouts(s: Retry, k: nat) -> (Retry, Seq<Action>)
    decreases k,
{
    if k == 0 {
        (s, seq![])
    } else {
        let (t, a) = next(s, Outcome::TimedOut);
        let (u, rest) = run_timeouts(t, (k - 1) as nat);
        (u, seq![a] + rest)
    }
}

proof fn lemma_timeouts_from(s: Retry, k: nat)
    requires
        k >= 1,
        s.attempts + k == s.max_attempts,
    ensures
        run_timeouts(s, k).1.len() == k,
        forall|j: int| 0 <= j < k - 1 ==> #[trigger] run_timeouts(s, k).1[j] == Action::Send,
        run_timeouts(s, k).1[k - 1] == Action::Finish(Err(Error::Timeout)),
    decreases k,
{
    let (t, a) = next(s, Outcome::TimedOut);
    let rest = run_timeouts(t, (k - 1) as nat).1;
    assert(run_timeouts(s, k).1 == seq![a] + rest);
    if k == 1 {
        assert(rest =~= Seq::<Action>::empty());
    } else {
        lemma_timeouts_from(t, (k - 1) as nat);
        assert forall|j: int| 0 <= j < k - 1 implies #[trigger] run_timeouts(s, k).1[j] == Action::Send by {
            if j > 0 {
                assert(run_timeouts(s, k).1[j] == rest[j - 1]);
            }
        }
    }
}

/// A server that never replies: with `n` attempts allowed, the query sends its
/// request exactly `n` times, one timeout after another, and then ends with one
/// `Timeout`.
pub proof fn lemma_silent_server(n: usize)
    ensures
        ({
            let acts = seq![start_action(n)] + run_timeouts(initial(n), n as nat).1;
            &&& acts.len() == n + 1
            &&& forall|j: int| 0 <= j < n ==> #[trigger] acts[j] == Action::Send
            &&& acts[n as int] == Action::Finish(Err(Error::Timeout))
        }),
{
    let acts = seq![start_action(n)] + run_timeouts(initial(n), n as nat).1;
    if n > 0 {
        lemma_timeouts_from(initial(n), n as nat);
        let rest = run_timeouts(initial(n), n as nat).1;
        assert forall|j: int| 0 <= j < n implies #[trigger] acts[j] == Action::Send by {
            if j > 0 {
                assert(acts[j] == rest[j - 1]);
            }
        }
        assert(acts[n as int] == rest[n - 1]);
    }
}

/// What a reply datagram to a query yields once its header is checked and
/// its payload is read by `parse`.
pub open spec fn reply<T>(d: Seq<u8>, parse: spec_fn(Seq<u8>) -> Result<T, Error>) -> Result<T, Error> {
    match strip_of(d) {
        Err(e) => Err(e),
        Ok(p) => parse(p),
    }
}

/// The server information in a reply datagram.
pub fn info_from_response(datagram: &[u8]) -> (r: Result<ServerInfo, Error>)
    ensures
        match reply(datagram@, |p| parse_info(p)) {
            Ok(v) => r matches Ok(info) && info@ == v,
            Err(e) => r == Err::<ServerInfo, Error>(e),
        },
{
    match validate_and_strip(datagram) {
        Ok(p) => decode_info(p.as_slice()),
        Err(e) => Err(e),
    }
}

/// The rules in a reply datagram.
pub fn rules_from_response(datagram: &[u8]) -> (r: Result<ServerRules, Error>)
    ensures
        match reply(datagram@, |p| parse_rules(p)) {
            Ok(m) => r matches Ok(rules) && rules.wf() && rules.view() == m,
            Err(e) => r == Err::<ServerRules, Error>(e),
        },
{
    match validate_and_strip(datagram) {
        Ok(p) => decode_rules(p.as_slice()),
        Err(e) => Err(e),
    }
}

/// The player list in a reply datagram.
pub fn client_list_from_response(datagram: &[u8]) -> (r: Result<PlayerList, Error>)
    ensures
        match reply(datagram@, |p| parse_client_list(p)) {
            Ok(v) => r matches Ok(list) && list@ == v,
            Err(e) => r == Err::<PlayerList, Error>(e),
        },
{
    match validate_and_strip(datagram) {
        Ok(p) => decode_client_list(p.as_slice()),
        Err(e) => Err(e),
    }
}

/// The detailed player list in a reply datagram.
pub fn detailed_player_info_from_response(datagram: &[u8]) -> (r: Result<DetailedPlayerList, Error>)
    ensures
        match reply(datagram@, |p| parse_detailed_list(p)) {
            Ok(v) => r matches Ok(list) && list@ == v,
            Err(e) => r == Err::<DetailedPlayerList, Error>(e),
        },
{
    match validate_and_strip(datagram) {
        Ok(p) => decode_detailed_player_info(p.as_slice()),
        Err(e) => Err(e),
    }
}

/// The answer to an RCON command in a reply datagram.
pub fn rcon_from_response(datagram: &[u8]) -> (r: Result<RconResponse, Error>)
    ensures
        match reply(datagram@, |p| parse_rcon(p)) {
            Ok(m) => r matches Ok(resp) && resp.message@ == m,
            Err(e) => r == Err::<RconResponse, Error>(e),
        },
{
    match validate_and_strip(datagram) {
        Ok(p) => decode_rcon(p.as_slice()),
        Err(e) => Err(e),
    }
}

/// The ping result for a reply datagram to a ping carrying `nonce`, which
/// took `elapsed_ms` to arrive. Succeeds only when the reply echoes the nonce.
pub fn ping_from_response(datagram: &[u8], nonce: &[u8; 4], elapsed_ms: u64) -> (r: Result<PingInfo, Error>)
    ensures
        match strip_of(datagram@) {
            Err(e) => r == Err::<PingInfo, Error>(e),
            Ok(p) => if echoes_nonce(p, nonce@) {
                r == Ok::<PingInfo, Error>(PingInfo { ping_ms: elapsed_ms })
            } else {
                r == Err::<PingInfo, Error>(Error::InvalidResponse(ResponseFault::PingMismatch))
            },
        },
{
    let p = match validate_and_strip(datagram) {
        Ok(p) => p,
        Err(e) => return Err(e),
    };
    match check_ping(p.as_slice(), nonce) {
        Ok(()) => Ok(PingInfo { ping_ms: elapsed_ms }),
        Err(e) => Err(e),
    }
}

} // verus!
