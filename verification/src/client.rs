//! The connection to one backend: its health, the requests awaiting a
//! response, and the requests of the wire protocol. The caller owns the
//! socket and reports what happens on it; every request that was tracked is
//! settled exactly once.

use crate::circuit::elapsed_ms;
use crate::config::DownstreamMcpServer;
use crate::counter::{bump, bump_by, bumped, bumped_by};
use crate::json::{json_object, json_parsed, json_string, object_doc, parse, string_doc};
use crate::snapshot::keys_where;
use serde_json::Value;
use vstd::prelude::*;

verus! {

/// Times the caller looks for the connection to come up before it gives up.
pub const CONNECT_POLLS: u32 = 30;

/// Milliseconds between two such looks.
pub const CONNECT_POLL_MS: u64 = 100;

/// Seconds between two heartbeats.
pub const HEARTBEAT_SECONDS: u64 = 30;

/// Milliseconds between two sweeps for requests past their timeout.
pub const SWEEP_INTERVAL_MS: u64 = 1000;

/// State of the connection to a backend.
#[derive(Debug, Clone)]
pub enum ConnectionState {
    Disconnected,
    Connecting,
    Connected,
    Error(String),
}

impl Default for ConnectionState {
    fn default() -> (state: Self)
        ensures
            state is Disconnected,
    {
        ConnectionState::Disconnected
    }
}

/// Health of the connection to a backend.
#[derive(Debug, Clone)]
pub struct ConnectionHealth {
    pub state: ConnectionState,
    /// Milliseconds since the Unix epoch.
    pub connected_at: Option<u64>,
    /// Milliseconds since the Unix epoch.
    pub last_heartbeat: Option<u64>,
    pub message_count: u64,
    pub error_count: u64,
    /// Milliseconds the latest answered request took.
    pub latency_ms: u64,
}

impl ConnectionHealth {
    pub open spec fn is_initial(self) -> bool {
        &&& self.state is Disconnected
        &&& self.connected_at is None
        &&& self.last_heartbeat is None
        &&& self.message_count == 0
        &&& self.error_count == 0
        &&& self.latency_ms == 0
    }
}

impl Default for ConnectionHealth {
    fn default() -> (health: Self)
        ensures
            health.is_initial(),
    {
        ConnectionHealth {
            state: ConnectionState::Disconnected,
            connected_at: None,
            last_heartbeat: None,
            message_count: 0,
            error_count: 0,
            latency_ms: 0,
        }
    }
}

/// A request that awaits its response.
#[derive(Debug, Clone)]
pub struct PendingRequest {
    /// Correlation id.
    pub id: String,
    pub sent_at: u64,
    pub timeout_ms: u64,
}

/// When a pending request was sent and how long it may take.
pub struct Deadline {
    pub sent_at: u64,
    pub timeout_ms: u64,
}

/// How a request was settled.
#[derive(Debug, Clone, Copy, PartialEq, Eq)]
pub enum Completion {
    /// Its response arrived.
    Answered,
    /// It was pending for longer than its timeout.
    TimedOut,
    /// The connection ended while it was pending.
    ConnectionClosed,
    /// A later request took over its correlation id.
    Displaced,
}

/// A request settled: its completion handle is to be fired, once, with the
/// completion given.
#[derive(Debug, Clone)]
pub struct Settled {
    pub id: String,
    pub how: Completion,
}

/// No request is listed twice.
pub open spec fn distinct_requests(list: Seq<PendingRequest>) -> bool {
    forall|i: int, j: int| 0 <= i < j < list.len() ==> list[i].id@ != list[j].id@
}

pub open spec fn is_pending(list: Seq<PendingRequest>, id: Seq<char>) -> bool {
    exists|i: int| 0 <= i < list.len() && #[trigger] list[i].id@ == id
}

pub open spec fn place_of(list: Seq<PendingRequest>, id: Seq<char>) -> int {
    choose|i: int| 0 <= i < list.len() && #[trigger] list[i].id@ == id
}

/// The deadline of each pending request, by correlation id.
pub open spec fn deadlines(list: Seq<PendingRequest>) -> Map<Seq<char>, Deadline> {
    Map::new(
        |id: Seq<char>| is_pending(list, id),
        |id: Seq<char>| Deadline {
            sent_at: list[place_of(list, id)].sent_at,
            timeout_ms: list[place_of(list, id)].timeout_ms,
        },
    )
}

/// Whether a request has used up its timeout at `now`.
pub open spec fn is_overdue(now: u64) -> spec_fn(Seq<char>, Deadline) -> bool {
    |id: Seq<char>, deadline: Deadline| elapsed_ms(now, deadline.sent_at) >= deadline.timeout_ms
}

/// The ids settled, as a set.
pub open spec fn settled_ids(settled: Seq<Settled>) -> Set<Seq<char>> {
    Set::new(|id: Seq<char>| exists|i: int| 0 <= i < settled.len() && #[trigger] settled[i].id@ == id)
}

/// No request is settled twice, and each is settled as `how`.
pub open spec fn settles_once(settled: Seq<Settled>, how: Completion) -> bool {
    &&& forall|i: int, j: int| 0 <= i < j < settled.len() ==> settled[i].id@ != settled[j].id@
    &&& forall|i: int| 0 <= i < settled.len() ==> (#[trigger] settled[i]).how == how
}

proof fn lemma_deadline_at(list: Seq<PendingRequest>, i: int)
    requires
        distinct_requests(list),
        0 <= i < list.len(),
    ensures
        deadlines(list).contains_key(list[i].id@),
        deadlines(list)[list[i].id@] == (Deadline {
            sent_at: list[i].sent_at,
            timeout_ms: list[i].timeout_ms,
        }),
{
    let id = list[i].id@;
    assert(is_pending(list, id));
    let p = place_of(list, id);
    assert(list[p].id@ == id);
    assert(p == i);
}

/// A request of the wire protocol.
#[derive(Debug, Clone)]
pub struct JsonRpcRequest {
    pub jsonrpc: String,
    pub id: String,
    pub method: String,
    pub params: Value,
}

impl JsonRpcRequest {
    pub open spec fn is(self, id: Seq<char>, method: Seq<char>, params: Value) -> bool {
        &&& self.jsonrpc@ == "2.0"@
        &&& self.id@ == id
        &&& self.method@ == method
        &&& self.params == params
    }
}

/// The parameters of the `initialize` request.
pub const INITIALIZE_PARAMS: &'static str =
    "{\"protocolVersion\":\"2024-11-05\",\"capabilities\":{\"tools\":{},\"resources\":{}},\"clientInfo\":{\"name\":\"context-casial-xpress-proxy\",\"version\":\"0.1.4\"}}";

/// The parameters of a `tools/call` request.
pub open spec fn call_params(name: Seq<char>, arguments: Value) -> Value {
    json_object(seq![("name"@, json_string(name)), ("arguments"@, arguments)])
}

/// The parameters of a `resources/read` request.
pub open spec fn read_params(uri: Seq<char>) -> Value {
    json_object(seq![("uri"@, json_string(uri))])
}

/// `Uuid::new_v4`, written as text. Nothing is claimed of the id.
#[verifier::external_body]
pub(crate) fn fresh_id() -> String {
    uuid::Uuid::new_v4().to_string()
}

/// A request with the id, method and parameters given.
pub fn request(id: String, method: &str, params: Value) -> (made: JsonRpcRequest)
    ensures
        made.is(id@, method@, params),
{
    JsonRpcRequest { jsonrpc: "2.0".to_owned(), id, method: method.to_owned(), params }
}

/// The `initialize` request under the id given.
pub fn initialize_request(id: String) -> (made: JsonRpcRequest)
    ensures
        made.is(id@, "initialize"@, json_parsed(INITIALIZE_PARAMS@)),
{
    request(id, "initialize", parse(INITIALIZE_PARAMS))
}

/// The `tools/list` request under the id given.
pub fn list_tools_request(id: String) -> (made: JsonRpcRequest)
    ensures
        made.is(id@, "tools/list"@, json_parsed("{}"@)),
{
    request(id, "tools/list", parse("{}"))
}

/// The `tools/call` request under the id given.
pub fn call_tool_request(id: String, name: &str, arguments: Value) -> (made: JsonRpcRequest)
    ensures
        made.is(id@, "tools/call"@, call_params(name@, arguments)),
{
    let mut members: Vec<(String, Value)> = Vec::new();
    members.push(("name".to_owned(), string_doc(name)));
    members.push(("arguments".to_owned(), arguments));
    assert(crate::json::member_views(members@) =~= seq![
        ("name"@, json_string(name@)),
        ("arguments"@, arguments),
    ]);
    request(id, "tools/call", object_doc(members))
}

/// The `resources/list` request under the id given.
pub fn list_resources_request(id: String) -> (made: JsonRpcRequest)
    ensures
        made.is(id@, "resources/list"@, json_parsed("{}"@)),
{
    request(id, "resources/list", parse("{}"))
}

/// The `resources/read` request under the id given.
pub fn read_resource_request(id: String, uri: &str) -> (made: JsonRpcRequest)
    ensures
        made.is(id@, "resources/read"@, read_params(uri@)),
{
    let mut members: Vec<(String, Value)> = Vec::new();
    members.push(("uri".to_owned(), string_doc(uri)));
    assert(crate::json::member_views(members@) =~= seq![("uri"@, json_string(uri@))]);
    request(id, "resources/read", object_doc(members))
}

/// The client of one backend.
pub struct McpClient {
    config: DownstreamMcpServer,
    health: ConnectionHealth,
    pending: Vec<PendingRequest>,
}

impl McpClient {
    /// The deadline of each pending request, by correlation id.
    pub closed spec fn pending(&self) -> Map<Seq<char>, Deadline> {
        deadlines(self.pending@)
    }

    pub closed spec fn health(&self) -> ConnectionHealth {
        self.health
    }

    pub closed spec fn config(&self) -> DownstreamMcpServer {
        self.config
    }

    /// No correlation id is pending twice.
    pub closed spec fn wf(&self) -> bool {
        distinct_requests(self.pending@)
    }

    /// A client that is disconnected and awaits nothing.
    pub fn new(config: DownstreamMcpServer) -> (client: McpClient)
        ensures
            client.wf(),
            client.config() == config,
            client.health().is_initial(),
            client.pending() == Map::<Seq<char>, Deadline>::empty(),
    {
        let client = McpClient { config, health: ConnectionHealth::default(), pending: Vec::new() };
        assert(client.pending() =~= Map::<Seq<char>, Deadline>::empty());
        client
    }

    /// Whether the connection is up.
    pub fn is_connected(&self) -> (connected: bool)
        ensures
            connected == (self.health().state is Connected),
    {
        match self.health.state {
            ConnectionState::Connected => true,
            _ => false,
        }
    }

    /// The health of the connection.
    pub fn get_health(&self) -> (health: &ConnectionHealth)
        ensures
            *health == self.health(),
    {
        &self.health
    }

    /// The backend this client connects to.
    pub fn server(&self) -> (config: &DownstreamMcpServer)
        ensures
            *config == self.config(),
    {
        &self.config
    }

    /// How many requests are pending.
    pub fn pending_count(&self) -> (count: usize)
        requires
            self.wf(),
        ensures
            self.pending().dom().finite(),
            count == self.pending().dom().len(),
    {
        proof {
            lemma_pending_size(self.pending@);
        }
        self.pending.len()
    }

    /// Starts connecting. A client that is connected already stays as it
    /// is and answers `true`: there is nothing to do. Any other client
    /// becomes `Connecting` and answers `false`.
    pub fn connect(&mut self) -> (already: bool)
        ensures
            already == (old(self).health().state is Connected),
            already ==> *final(self) == *old(self),
            !already ==> final(self).health() == (ConnectionHealth {
                state: ConnectionState::Connecting,
                ..old(self).health()
            }),
            final(self).pending() == old(self).pending(),
            final(self).config() == old(self).config(),
            old(self).wf() ==> final(self).wf(),
    {
        if self.is_connected() {
            return true;
        }
        self.health.state = ConnectionState::Connecting;
        false
    }

    /// The socket is up at `now`.
    pub fn connected(&mut self, now: u64)
        ensures
            final(self).health() == (ConnectionHealth {
                state: ConnectionState::Connected,
                connected_at: Some(now),
                ..old(self).health()
            }),
            final(self).pending() == old(self).pending(),
            final(self).config() == old(self).config(),
            old(self).wf() ==> final(self).wf(),
    {
        self.health.state = ConnectionState::Connected;
        self.health.connected_at = Some(now);
    }

    /// A heartbeat was sent at `now`.
    pub fn heartbeat(&mut self, now: u64)
        ensures
            final(self).health() == (ConnectionHealth {
                last_heartbeat: Some(now),
                ..old(self).health()
            }),
            final(self).pending() == old(self).pending(),
            final(self).config() == old(self).config(),
            old(self).wf() ==> final(self).wf(),
    {
        self.health.last_heartbeat = Some(now);
    }

    /// A request frame was written.
    pub fn sent(&mut self)
        ensures
            final(self).health() == (ConnectionHealth {
                message_count: bumped(old(self).health().message_count),
                ..old(self).health()
            }),
            final(self).pending() == old(self).pending(),
            final(self).config() == old(self).config(),
            old(self).wf() ==> final(self).wf(),
    {
        self.health.message_count = bump(self.health.message_count);
    }

    /// A frame arrived that is no response, or the socket reported an
    /// error: it is counted.
    pub fn faulted(&mut self)
        ensures
            final(self).health() == (ConnectionHealth {
                error_count: bumped(old(self).health().error_count),
                ..old(self).health()
            }),
            final(self).pending() == old(self).pending(),
            final(self).config() == old(self).config(),
            old(self).wf() ==> final(self).wf(),
    {
        self.health.error_count = bump(self.health.error_count);
    }
}

proof fn lemma_pending_size(list: Seq<PendingRequest>)
    requires
        distinct_requests(list),
    ensures
        deadlines(list).dom().finite(),
        deadlines(list).dom().len() == list.len(),
    decreases list.len(),
{
    if list.len() == 0 {
        assert(deadlines(list).dom() =~= Set::empty());
    } else {
        let rest = list.drop_last();
        let last = list.last();
        lemma_pending_size(rest);
        assert(!is_pending(rest, last.id@)) by {
            if is_pending(rest, last.id@) {
                let p = place_of(rest, last.id@);
                assert(list[p].id@ == list[list.len() - 1].id@);
            }
        }
        assert(deadlines(list).dom() =~= deadlines(rest).dom().insert(last.id@)) by {
            assert forall|id: Seq<char>| is_pending(list, id) <==> (id == last.id@ || is_pending(
                rest,
                id,
            )) by {
                if is_pending(list, id) {
                    let p = place_of(list, id);
                    if p < rest.len() {
                        assert(rest[p].id@ == id);
                    }
                }
                if is_pending(rest, id) {
                    let p = place_of(rest, id);
                    assert(list[p].id@ == id);
                }
                if id == last.id@ {
                    assert(list[list.len() - 1].id@ == id);
                }
            }
        }
    }
}

impl McpClient {
    fn find(&self, id: &str) -> (place: Option<usize>)
        requires
            self.wf(),
        ensures
            place is Some <==> self.pending().contains_key(id@),
            place matches Some(i) ==> i < self.pending@.len() && self.pending@[i as int].id@ == id@,
    {
        let wanted = id.to_owned();
        let mut i: usize = 0;
        while i < self.pending.len()
            invariant
                i <= self.pending@.len(),
                wanted@ == id@,
                forall|j: int| 0 <= j < i ==> (#[trigger] self.pending@[j]).id@ != id@,
            decreases self.pending@.len() - i,
        {
            if self.pending[i].id == wanted {
                assert(is_pending(self.pending@, id@));
                return Some(i);
            }
            i = i + 1;
        }
        assert(!is_pending(self.pending@, id@)) by {
            if is_pending(self.pending@, id@) {
                let p = place_of(self.pending@, id@);
                assert(self.pending@[p].id@ == id@);
            }
        }
        None
    }

    fn take_at(&mut self, place: usize) -> (taken: PendingRequest)
        requires
            old(self).wf(),
            place < old(self).pending@.len(),
        ensures
            final(self).wf(),
            taken == old(self).pending@[place as int],
            final(self).pending@ == old(self).pending@.remove(place as int),
            final(self).pending() == old(self).pending().remove(taken.id@),
            final(self).health() == old(self).health(),
            final(self).config() == old(self).config(),
    {
        let ghost before = self.pending@;
        let taken = self.pending.remove(place);
        proof {
            let after = self.pending@;
            assert forall|i: int, j: int| 0 <= i < j < after.len() implies after[i].id@
                != after[j].id@ by {
                let a = if i < place { i } else { i + 1 };
                let b = if j < place { j } else { j + 1 };
                assert(before[a].id@ != before[b].id@);
            }
            assert forall|id: Seq<char>| is_pending(after, id) <==> (is_pending(before, id) && id
                != taken.id@) by {
                if is_pending(after, id) {
                    let p = place_of(after, id);
                    let q = if p < place { p } else { p + 1 };
                    assert(before[q].id@ == id);
                    assert(before[q].id@ != before[place as int].id@);
                }
                if is_pending(before, id) && id != taken.id@ {
                    let q = place_of(before, id);
                    let p = if q < place { q } else { q - 1 };
                    assert(after[p].id@ == id);
                }
            }
            assert forall|id: Seq<char>| is_pending(after, id) implies deadlines(after)[id]
                == deadlines(before)[id] by {
                let p = place_of(after, id);
                assert(after[p].id@ == id);
                let q = if p < place { p } else { p + 1 };
                lemma_deadline_at(after, p);
                lemma_deadline_at(before, q);
            }
            assert(deadlines(after) =~= deadlines(before).remove(taken.id@));
        }
        taken
    }

    /// Tracks a request sent at `now` under the correlation id given, with
    /// the backend's timeout. A request pending under the same id loses its
    /// place and is settled as displaced.
    pub fn track(&mut self, id: String, now: u64) -> (displaced: Option<Settled>)
        requires
            old(self).wf(),
        ensures
            final(self).wf(),
            final(self).pending() == old(self).pending().insert(
                id@,
                Deadline { sent_at: now, timeout_ms: old(self).config().timeout_ms },
            ),
            displaced is Some <==> old(self).pending().contains_key(id@),
            displaced matches Some(settled) ==> settled.id@ == id@ && settled.how
                == Completion::Displaced,
            final(self).health() == old(self).health(),
            final(self).config() == old(self).config(),
    {
        let displaced = match self.find(id.as_str()) {
            Some(place) => {
                let taken = self.take_at(place);
                Some(Settled { id: taken.id, how: Completion::Displaced })
            },
            None => None,
        };
        let ghost before = self.pending@;
        assert(!is_pending(before, id@)) by {
            assert(!self.pending().contains_key(id@));
        }
        self.pending.push(PendingRequest { id, sent_at: now, timeout_ms: self.config.timeout_ms });
        proof {
            let after = self.pending@;
            assert forall|i: int, j: int| 0 <= i < j < after.len() implies after[i].id@
                != after[j].id@ by {
                if j == before.len() {
                    assert(before[i].id@ == after[i].id@);
                } else {
                    assert(before[i].id@ != before[j].id@);
                }
            }
            assert forall|k: Seq<char>| is_pending(after, k) <==> (k == id@ || is_pending(
                before,
                k,
            )) by {
                if is_pending(after, k) {
                    let p = place_of(after, k);
                    if p < before.len() {
                        assert(before[p].id@ == k);
                    }
                }
                if is_pending(before, k) {
                    let p = place_of(before, k);
                    assert(after[p].id@ == k);
                }
                if k == id@ {
                    assert(after[before.len() as int].id@ == k);
                }
            }
            assert forall|k: Seq<char>| is_pending(after, k) implies deadlines(after)[k]
                == deadlines(before).insert(
                id@,
                Deadline { sent_at: now, timeout_ms: self.config.timeout_ms },
            )[k] by {
                let p = place_of(after, k);
                assert(after[p].id@ == k);
                lemma_deadline_at(after, p);
                if p < before.len() {
                    lemma_deadline_at(before, p);
                }
            }
            assert(deadlines(after) =~= deadlines(before).insert(
                id@,
                Deadline { sent_at: now, timeout_ms: self.config.timeout_ms },
            ));
        }
        displaced
    }

    /// A response with the correlation id given arrived at `now`. A pending
    /// request of that id is settled as answered and its latency is
    /// recorded; a response that matches no pending request is counted as
    /// an error and dropped.
    pub fn response(&mut self, id: &str, now: u64) -> (answered: Option<Settled>)
        requires
            old(self).wf(),
        ensures
            final(self).wf(),
            final(self).pending() == old(self).pending().remove(id@),
            answered is Some <==> old(self).pending().contains_key(id@),
            answered matches Some(settled) ==> settled.id@ == id@ && settled.how
                == Completion::Answered,
            final(self).health() == if old(self).pending().contains_key(id@) {
                ConnectionHealth {
                    latency_ms: elapsed_ms(now, old(self).pending()[id@].sent_at) as u64,
                    ..old(self).health()
                }
            } else {
                ConnectionHealth {
                    error_count: bumped(old(self).health().error_count),
                    ..old(self).health()
                }
            },
            final(self).config() == old(self).config(),
    {
        match self.find(id) {
            Some(place) => {
                proof {
                    lemma_deadline_at(self.pending@, place as int);
                }
                let taken = self.take_at(place);
                self.health.latency_ms = if now >= taken.sent_at {
                    now - taken.sent_at
                } else {
                    0
                };
                Some(Settled { id: taken.id, how: Completion::Answered })
            },
            None => {
                self.health.error_count = bump(self.health.error_count);
                assert(self.pending() =~= old(self).pending().remove(id@));
                None
            },
        }
    }

    /// Settles every request that has used up its timeout at `now` as
    /// timed out, each once, and counts each as an error. The others stay
    /// pending.
    pub fn sweep(&mut self, now: u64) -> (expired: Vec<Settled>)
        requires
            old(self).wf(),
        ensures
            final(self).wf(),
            settled_ids(expired@) == keys_where(old(self).pending(), is_overdue(now)),
            settles_once(expired@, Completion::TimedOut),
            final(self).pending() == old(self).pending().remove_keys(
                keys_where(old(self).pending(), is_overdue(now)),
            ),
            final(self).health() == (ConnectionHealth {
                error_count: bumped_by(old(self).health().error_count, expired@.len()),
                ..old(self).health()
            }),
            final(self).config() == old(self).config(),
    {
        let ghost before = self.pending();
        let ghost overdue = keys_where(before, is_overdue(now));
        let mut expired: Vec<Settled> = Vec::new();
        let mut i: usize = 0;
        while i < self.pending.len()
            invariant
                self.wf(),
                i <= self.pending@.len(),
                overdue == keys_where(before, is_overdue(now)),
                self.health == old(self).health,
                self.config == old(self).config,
                settles_once(expired@, Completion::TimedOut),
                settled_ids(expired@).subset_of(overdue),
                self.pending() == before.remove_keys(settled_ids(expired@)),
                forall|j: int|
                    0 <= j < i ==> !overdue.contains((#[trigger] self.pending@[j]).id@),
            decreases self.pending@.len() - i,
        {
            let sent_at = self.pending[i].sent_at;
            let elapsed: u64 = if now >= sent_at {
                now - sent_at
            } else {
                0
            };
            proof {
                lemma_deadline_at(self.pending@, i as int);
            }
            if elapsed >= self.pending[i].timeout_ms {
                let ghost held = self.pending@;
                let ghost gone = settled_ids(expired@);
                let taken = self.take_at(i);
                let ghost earlier = expired@;
                expired.push(Settled { id: taken.id, how: Completion::TimedOut });
                proof {
                    let id = taken.id@;
                    assert(settled_ids(expired@) =~= gone.insert(id)) by {
                        assert forall|k: Seq<char>| settled_ids(expired@).contains(k) implies gone.insert(
                            id,
                        ).contains(k) by {
                            let p = choose|p: int|
                                0 <= p < expired@.len() && #[trigger] expired@[p].id@ == k;
                            if p < earlier.len() {
                                assert(earlier[p].id@ == k);
                            }
                        }
                        assert forall|k: Seq<char>| gone.insert(id).contains(k) implies settled_ids(
                            expired@,
                        ).contains(k) by {
                            if k == id {
                                assert(expired@[earlier.len() as int].id@ == k);
                            } else {
                                let p = choose|p: int|
                                    0 <= p < earlier.len() && #[trigger] earlier[p].id@ == k;
                                assert(expired@[p].id@ == k);
                            }
                        }
                    }
                    assert(!gone.contains(id));
                    assert(self.pending() =~= before.remove_keys(settled_ids(expired@)));
                    assert forall|j: int| 0 <= j < i implies !overdue.contains(
                        (#[trigger] self.pending@[j]).id@,
                    ) by {
                        assert(self.pending@[j] == held[j]);
                    }
                    assert forall|a: int, b: int| 0 <= a < b < expired@.len() implies expired@[a].id@
                        != expired@[b].id@ by {
                        if b == earlier.len() {
                            assert(earlier[a].id@ == expired@[a].id@);
                            assert(gone.contains(earlier[a].id@));
                        }
                    }
                }
            } else {
                i = i + 1;
            }
        }
        proof {
            assert(settled_ids(expired@) =~= overdue) by {
                assert forall|k: Seq<char>| overdue.contains(k) implies settled_ids(
                    expired@,
                ).contains(k) by {
                    if !settled_ids(expired@).contains(k) {
                        assert(self.pending().contains_key(k));
                        let p = place_of(self.pending@, k);
                        assert(self.pending@[p].id@ == k);
                    }
                }
            }
        }
        self.health.error_count = bump_by(self.health.error_count, expired.len());
        expired
    }

    /// The connection has ended: the client is disconnected, and every
    /// request still pending is settled as closed, each once. Nothing stays
    /// pending.
    pub fn disconnect(&mut self) -> (closed: Vec<Settled>)
        requires
            old(self).wf(),
        ensures
            final(self).wf(),
            settled_ids(closed@) == old(self).pending().dom(),
            settles_once(closed@, Completion::ConnectionClosed),
            closed@.len() == old(self).pending().dom().len(),
            final(self).pending() == Map::<Seq<char>, Deadline>::empty(),
            final(self).health() == (ConnectionHealth {
                state: ConnectionState::Disconnected,
                ..old(self).health()
            }),
            final(self).config() == old(self).config(),
    {
        let ghost before = self.pending@;
        let mut closed: Vec<Settled> = Vec::new();
        proof {
            lemma_pending_size(before);
        }
        while self.pending.len() > 0
            invariant
                self.health == old(self).health,
                self.config == old(self).config,
                distinct_requests(before),
                self.pending@ == before.take(self.pending@.len() as int),
                self.pending@.len() + closed@.len() == before.len(),
                forall|k: int|
                    0 <= k < closed@.len() ==> (#[trigger] closed@[k]).id@ == before[before.len()
                        - 1 - k].id@ && closed@[k].how == Completion::ConnectionClosed,
            decreases self.pending@.len(),
        {
            let taken = self.pending.pop().unwrap();
            closed.push(Settled { id: taken.id, how: Completion::ConnectionClosed });
        }
        self.health.state = ConnectionState::Disconnected;
        proof {
            assert(self.pending() =~= Map::<Seq<char>, Deadline>::empty()) by {
                assert forall|k: Seq<char>| !is_pending(self.pending@, k) by {
                    if is_pending(self.pending@, k) {
                        let p = place_of(self.pending@, k);
                        assert(self.pending@[p].id@ == k);
                    }
                }
            }
            assert forall|a: int, b: int| 0 <= a < b < closed@.len() implies closed@[a].id@
                != closed@[b].id@ by {
                assert(before[before.len() - 1 - b].id@ != before[before.len() - 1 - a].id@);
            }
            assert(settled_ids(closed@) =~= deadlines(before).dom()) by {
                assert forall|k: Seq<char>| settled_ids(closed@).contains(k) implies is_pending(
                    before,
                    k,
                ) by {
                    let p = choose|p: int| 0 <= p < closed@.len() && #[trigger] closed@[p].id@ == k;
                    assert(before[before.len() - 1 - p].id@ == k);
                }
                assert forall|k: Seq<char>| is_pending(before, k) implies settled_ids(
                    closed@,
                ).contains(k) by {
                    let q = place_of(before, k);
                    assert(before[q].id@ == k);
                    assert(closed@[before.len() - 1 - q].id@ == k);
                }
            }
        }
        closed
    }
}

/// A request answered is pending no more: a second response under its id
/// settles nothing, and neither a later sweep nor the end of the connection
/// settles it again.
pub proof fn lemma_answered_request_is_gone(
    pending: Map<Seq<char>, Deadline>,
    id: Seq<char>,
    later: u64,
)
    ensures
        !pending.remove(id).contains_key(id),
        !keys_where(pending.remove(id), is_overdue(later)).contains(id),
        !pending.remove(id).dom().contains(id),
{
}

/// A request swept is pending no more: a response that arrives late
/// settles nothing, and neither a later sweep nor the end of the connection
/// settles it again.
pub proof fn lemma_swept_request_is_gone(
    pending: Map<Seq<char>, Deadline>,
    id: Seq<char>,
    now: u64,
    later: u64,
)
    requires
        keys_where(pending, is_overdue(now)).contains(id),
    ensures
        !pending.remove_keys(keys_where(pending, is_overdue(now))).contains_key(id),
        !keys_where(
            pending.remove_keys(keys_where(pending, is_overdue(now))),
            is_overdue(later),
        ).contains(id),
        !pending.remove_keys(keys_where(pending, is_overdue(now))).dom().contains(id),
{
}

/// A sweep settles exactly the overdue requests: a request that stays
/// pending has time left, and none that was swept is pending afterwards.
pub proof fn lemma_sweep_is_exact(pending: Map<Seq<char>, Deadline>, id: Seq<char>, now: u64)
    requires
        pending.contains_key(id),
    ensures
        keys_where(pending, is_overdue(now)).contains(id) <==> elapsed_ms(now, pending[id].sent_at)
            >= pending[id].timeout_ms,
        pending.remove_keys(keys_where(pending, is_overdue(now))).contains_key(id) <==> elapsed_ms(
            now,
            pending[id].sent_at,
        ) < pending[id].timeout_ms,
{
}

/// What to do while waiting for the connection to come up.
#[derive(Debug, Clone, Copy, PartialEq, Eq)]
pub enum ConnectPoll {
    /// The connection is up.
    Up,
    /// Look again after `delay_ms`.
    Wait { delay_ms: u64 },
    /// The connection did not come up in time.
    GiveUp,
}

impl McpClient {
    /// What to do after `looks` looks at a connection that is being
    /// established: done when it is up, wait while looks are left, give up
    /// after [`CONNECT_POLLS`] of them.
    pub fn poll_connect(&self, looks: u32) -> (poll: ConnectPoll)
        ensures
            poll == if self.health().state is Connected {
                ConnectPoll::Up
            } else if looks < CONNECT_POLLS {
                ConnectPoll::Wait { delay_ms: CONNECT_POLL_MS }
            } else {
                ConnectPoll::GiveUp
            },
    {
        if self.is_connected() {
            ConnectPoll::Up
        } else if looks < CONNECT_POLLS {
            ConnectPoll::Wait { delay_ms: CONNECT_POLL_MS }
        } else {
            ConnectPoll::GiveUp
        }
    }
}

impl JsonRpcRequest {
    /// A request of the method and parameters given, whatever its id.
    pub open spec fn asks(self, method: Seq<char>, params: Value) -> bool {
        self.is(self.id@, method, params)
    }
}

impl McpClient {
    /// The `initialize` request, under a fresh correlation id.
    pub fn initialize(&self) -> (made: JsonRpcRequest)
        ensures
            made.asks("initialize"@, json_parsed(INITIALIZE_PARAMS@)),
    {
        initialize_request(fresh_id())
    }

    /// The `tools/list` request, under a fresh correlation id.
    pub fn list_tools(&self) -> (made: JsonRpcRequest)
        ensures
            made.asks("tools/list"@, json_parsed("{}"@)),
    {
        list_tools_request(fresh_id())
    }

    /// The `tools/call` request, under a fresh correlation id.
    pub fn call_tool(&self, name: &str, arguments: Value) -> (made: JsonRpcRequest)
        ensures
            made.asks("tools/call"@, call_params(name@, arguments)),
    {
        call_tool_request(fresh_id(), name, arguments)
    }

    /// The `resources/list` request, under a fresh correlation id.
    pub fn list_resources(&self) -> (made: JsonRpcRequest)
        ensures
            made.asks("resources/list"@, json_parsed("{}"@)),
    {
        list_resources_request(fresh_id())
    }

    /// The `resources/read` request, under a fresh correlation id.
    pub fn read_resource(&self, uri: &str) -> (made: JsonRpcRequest)
        ensures
            made.asks("resources/read"@, read_params(uri@)),
    {
        read_resource_request(fresh_id(), uri)
    }
}

impl McpClient {
    /// The connection could not be established, or broke beyond repair:
    /// the client is in error, for the reason given.
    pub fn failed(&mut self, reason: String)
        ensures
            final(self).health() == (ConnectionHealth {
                state: ConnectionState::Error(reason),
                ..old(self).health()
            }),
            final(self).pending() == old(self).pending(),
            final(self).config() == old(self).config(),
            old(self).wf() ==> final(self).wf(),
    {
        self.health.state = ConnectionState::Error(reason);
    }
}

/// A request that gets no response is settled as timed out by the first
/// sweep at or after the end of its timeout, and by none before. With
/// sweeps at most one interval apart, that is no sooner than the timeout
/// and sooner than the timeout plus one interval after the request was
/// sent.
pub proof fn lemma_timeout_fires_within_one_sweep(
    pending: Map<Seq<char>, Deadline>,
    id: Seq<char>,
    previous: u64,
    next: u64,
)
    requires
        pending.contains_key(id),
        previous < pending[id].sent_at + pending[id].timeout_ms <= next,
        next - previous <= SWEEP_INTERVAL_MS,
    ensures
        pending[id].sent_at <= previous ==> !keys_where(pending, is_overdue(previous)).contains(id)
            && pending.remove_keys(keys_where(pending, is_overdue(previous))).contains_key(id),
        keys_where(pending, is_overdue(next)).contains(id),
        !pending.remove_keys(keys_where(pending, is_overdue(next))).contains_key(id),
        pending[id].timeout_ms <= next - pending[id].sent_at < pending[id].timeout_ms
            + SWEEP_INTERVAL_MS,
{
}

} // verus!
