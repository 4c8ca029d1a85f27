//! The federation manager: circuit-aware sync of backend catalogs into the
//! registry and routing of tool calls, as decisions over plain values. The
//! caller performs the network work and reports what came of it.

use crate::cache::{
    cache_after_hit, cache_after_miss, cache_clear, cache_get, cache_new, cache_view, check_cache,
    expiry,
    is_cache_hit, remember, ToolCacheEntry, ToolCacheEntryView,
};
use crate::circuit::{
    backoff_total, backoff_with_jitter, circuits_clear, circuits_entries, circuits_get,
    circuits_held, circuits_insert, circuits_new, cooldown_end, jitter_bound, jitter_limit,
    random_jitter, CircuitState,
};
use crate::client::fresh_id;
use crate::config::{DownstreamMcpServer, FederationSettings};
use crate::counter::{bump, bump_by, bumped, bumped_by};
use crate::digest::{sha256_hex, sha256_hex_of};
use crate::json::{
    encode, items_of, json_encoding, json_items, json_member, json_parsed, json_text, member, parse,
    text_of,
};
use crate::metrics::{FederationMetrics, FederationMetricsView};
use crate::registry::{
    is_entry_of, names_upto, without_source, RegistryChangeEventView, ToolRegistry, ToolSource,
    ToolSourceView, ToolSpec, ToolSpecView,
};
use crate::snapshot::{count_among, entry_keys, entry_values, keys_where, lemma_count_of_snapshot};
use dashmap::DashMap;
use serde_json::Value;
use vstd::prelude::*;
use vstd::string::StringExecFns;

verus! {

/// How a tool call is to be carried out.
#[derive(Debug, Clone, Copy, PartialEq, Eq)]
pub enum ExecutionMode {
    Execute,
    Plan,
    Hybrid,
}

/// What the federation layer tells its listeners.
#[derive(Debug, Clone)]
pub enum FederationEvent {
    ServerConnected(String),
    ServerDisconnected(String),
    ToolsUpdated(String, usize),
    SyncCompleted,
    Error(String),
}

/// Whether a circuit is open at `now`.
pub open spec fn is_open_entry(now: u64) -> spec_fn(Seq<char>, CircuitState) -> bool {
    |id: Seq<char>, state: CircuitState| state.is_open_at(now)
}

/// How many circuits are open at `now`.
pub open spec fn open_count(circuits: Map<Seq<char>, CircuitState>, now: u64) -> nat {
    keys_where(circuits, is_open_entry(now)).len()
}

/// The state of the federation layer, as contracts speak of it. The
/// registry's counters of tools are no part of it: they count the catalog,
/// as [`ToolRegistry::counts_catalog`] says.
pub struct FederationModel {
    pub settings: FederationSettings,
    /// Circuit state of each backend that has failed.
    pub circuits: Map<Seq<char>, CircuitState>,
    /// The catalog last seen from each backend.
    pub cache: Map<Seq<char>, ToolCacheEntryView>,
    pub metrics: FederationMetricsView,
    /// The registry's catalog.
    pub catalog: Map<Seq<char>, ToolSpecView>,
    /// The registry's change events not yet taken.
    pub events: Seq<RegistryChangeEventView>,
    /// The registry's count of calls whose arguments violated a schema.
    pub validation_errors: u64,
}

impl FederationModel {
    /// Every tracked circuit has a reset window of at least one second.
    pub open spec fn well_formed(self) -> bool {
        forall|id: Seq<char>| #[trigger]
            self.circuits.contains_key(id) ==> self.circuits[id].well_formed()
    }

    /// The circuit of a backend: the one tracked, or a fresh one.
    pub open spec fn circuit_of(self, id: Seq<char>) -> CircuitState {
        if self.circuits.contains_key(id) {
            self.circuits[id]
        } else {
            CircuitState::fresh(self.settings.circuit_breaker_reset_seconds)
        }
    }

    /// Whether the circuit of a backend is open at `now`.
    pub open spec fn is_blocked(self, id: Seq<char>, now: u64) -> bool {
        self.circuits.contains_key(id) && self.circuits[id].is_open_at(now)
    }

    /// Milliseconds until the circuit of a blocked backend closes.
    pub open spec fn retry_after(self, id: Seq<char>, now: u64) -> int {
        self.circuits[id].open_until->0 - now
    }

    /// The cooldown, if any, that a failure of backend `id` at `now` starts.
    pub open spec fn failure_penalty(self, id: Seq<char>, now: u64, jitter: u64) -> Option<u64> {
        self.circuit_of(id).failure_penalty(now, self.settings, jitter)
    }

    /// The state after a failure of backend `id` at `now` was recorded: its
    /// circuit counts the failure, the error counters go up by one, and the
    /// open circuits are counted anew.
    pub open spec fn after_failure(self, id: Seq<char>, now: u64, jitter: u64) -> FederationModel {
        let circuits = self.circuits.insert(
            id,
            self.circuit_of(id).after_failure(now, self.settings, jitter),
        );
        FederationModel {
            circuits,
            metrics: self.metrics.with_failure(id, open_count(circuits, now) as usize),
            ..self
        }
    }

    /// The state after a success of backend `id` at `now` was recorded: a
    /// tracked circuit recovers fully, and the open circuits are counted
    /// anew.
    pub open spec fn after_success(self, id: Seq<char>, now: u64) -> FederationModel {
        let circuits = if self.circuits.contains_key(id) {
            self.circuits.insert(id, self.circuits[id].after_success())
        } else {
            self.circuits
        };
        FederationModel {
            circuits,
            metrics: FederationMetricsView {
                open_circuits: open_count(circuits, now) as usize,
                ..self.metrics
            },
            ..self
        }
    }

    /// The state after the circuit of backend `id` was checked at `now`
    /// before network work: a tracked circuit is checked, and a check that
    /// finds it open is counted as a skip.
    pub open spec fn after_gate(self, id: Seq<char>, now: u64) -> FederationModel {
        if self.circuits.contains_key(id) {
            FederationModel {
                circuits: self.circuits.insert(id, self.circuits[id].after_check(now)),
                metrics: FederationMetricsView {
                    circuit_open_skips: if self.is_blocked(id, now) {
                        bumped(self.metrics.circuit_open_skips)
                    } else {
                        self.metrics.circuit_open_skips
                    },
                    ..self.metrics
                },
                ..self
            }
        } else {
            self
        }
    }
}

/// The federation manager.
pub struct McpFederationManager {
    settings: FederationSettings,
    tool_registry: ToolRegistry,
    metrics: FederationMetrics,
    failure_tracker: DashMap<String, CircuitState>,
    tool_cache: DashMap<String, ToolCacheEntry>,
}

impl McpFederationManager {
    pub closed spec fn model(&self) -> FederationModel {
        FederationModel {
            settings: self.settings,
            circuits: circuits_held(self.failure_tracker),
            cache: cache_view(self.tool_cache),
            metrics: self.metrics@,
            catalog: self.tool_registry.catalog(),
            events: self.tool_registry.pending_events(),
            validation_errors: self.tool_registry.counters().schema_validation_errors,
        }
    }

    /// The registry is well formed, no backend is tallied twice, and every
    /// tracked circuit has a reset window of at least one second.
    pub closed spec fn wf(&self) -> bool {
        &&& self.tool_registry.wf()
        &&& self.metrics.wf()
        &&& forall|id: Seq<char>| #[trigger]
            circuits_held(self.failure_tracker).contains_key(id) ==> circuits_held(
                self.failure_tracker,
            )[id].well_formed()
    }

    /// What well-formedness says of the tracked circuits.
    pub proof fn lemma_tracked_circuits_are_well_formed(&self)
        requires
            self.wf(),
        ensures
            self.model().well_formed(),
    {
    }

    /// A manager over `tool_registry` with nothing tracked, nothing cached
    /// and all counters at zero.
    pub fn new(settings: FederationSettings, tool_registry: ToolRegistry) -> (manager: Self)
        requires
            tool_registry.wf(),
        ensures
            manager.wf(),
            manager.model() == (FederationModel {
                settings,
                circuits: Map::empty(),
                cache: Map::empty(),
                metrics: FederationMetricsView::zero(),
                catalog: tool_registry.catalog(),
                events: tool_registry.pending_events(),
                validation_errors: tool_registry.counters().schema_validation_errors,
            }),
    {
        let manager = McpFederationManager {
            settings,
            tool_registry,
            metrics: FederationMetrics::default(),
            failure_tracker: circuits_new(),
            tool_cache: cache_new(),
        };
        assert(manager.model().cache =~= Map::empty());
        manager
    }

    /// The registry.
    pub fn registry(&self) -> (registry: &ToolRegistry)
        ensures
            registry.catalog() == self.model().catalog,
            registry.pending_events() == self.model().events,
            registry.counters().schema_validation_errors == self.model().validation_errors,
            self.wf() ==> registry.wf() && registry.counts_catalog(),
    {
        proof {
            if self.wf() {
                self.tool_registry.lemma_counters_count_catalog();
            }
        }
        &self.tool_registry
    }

    /// The settings.
    pub fn settings(&self) -> (settings: &FederationSettings)
        ensures
            *settings == self.model().settings,
    {
        &self.settings
    }

    /// How many circuits are open at `now`.
    pub fn count_open_circuits(&self, now: u64) -> (open: usize)
        ensures
            open == open_count(self.model().circuits, now),
    {
        let entries = circuits_entries(&self.failure_tracker);
        let ghost keys = entry_keys(entries@);
        let ghost states = entry_values(entries@);
        proof {
            lemma_count_of_snapshot(
                keys,
                states,
                circuits_held(self.failure_tracker),
                is_open_entry(now),
            );
        }
        let mut open: usize = 0;
        let mut i: usize = 0;
        while i < entries.len()
            invariant
                i <= entries@.len(),
                keys == entry_keys(entries@),
                states == entry_values(entries@),
                open == count_among(keys, states, is_open_entry(now), i as int),
                open <= i,
            decreases entries@.len() - i,
        {
            if entries[i].1.is_open_now(now) {
                open = open + 1;
            }
            i = i + 1;
        }
        open
    }

    /// Records a failure of backend `server_id` at `now`, with the jitter
    /// given. Returns the cooldown when the failure opened the circuit.
    pub fn record_failure_with(&mut self, server_id: &str, now: u64, jitter: u64) -> (opened_for:
        Option<u64>)
        requires
            old(self).wf(),
            jitter <= jitter_bound(old(self).model().settings),
        ensures
            final(self).wf(),
            opened_for == old(self).model().failure_penalty(server_id@, now, jitter),
            final(self).model() == old(self).model().after_failure(server_id@, now, jitter),
    {
        let mut state = match circuits_get(&self.failure_tracker, server_id) {
            Some(state) => state,
            None => CircuitState::new(self.settings.circuit_breaker_reset_seconds),
        };
        let opened_for = state.register_failure_with(now, &self.settings, jitter);
        circuits_insert(&mut self.failure_tracker, server_id.to_owned(), state);
        let open = self.count_open_circuits(now);
        self.metrics.federation_errors = bump(self.metrics.federation_errors);
        self.metrics.count_server_failure(server_id);
        self.metrics.open_circuits = open;
        opened_for
    }

    /// Records a success of backend `server_id` at `now`.
    pub fn record_success(&mut self, server_id: &str, now: u64)
        requires
            old(self).wf(),
        ensures
            final(self).wf(),
            final(self).model() == old(self).model().after_success(server_id@, now),
    {
        if let Some(state) = circuits_get(&self.failure_tracker, server_id) {
            let mut recovered = state;
            recovered.register_success();
            circuits_insert(&mut self.failure_tracker, server_id.to_owned(), recovered);
        }
        let open = self.count_open_circuits(now);
        self.metrics.open_circuits = open;
    }

    /// Checks the circuit of backend `server_id` at `now`, before any
    /// network work. Answers whether the backend is blocked; a blocked
    /// backend is counted as a skip.
    pub fn gate(&mut self, server_id: &str, now: u64) -> (blocked: bool)
        requires
            old(self).wf(),
        ensures
            final(self).wf(),
            blocked == old(self).model().is_blocked(server_id@, now),
            final(self).model() == old(self).model().after_gate(server_id@, now),
    {
        match circuits_get(&self.failure_tracker, server_id) {
            Some(state) => {
                let mut checked = state;
                let blocked = checked.is_open(now);
                circuits_insert(&mut self.failure_tracker, server_id.to_owned(), checked);
                if blocked {
                    self.metrics.circuit_open_skips = bump(self.metrics.circuit_open_skips);
                }
                blocked
            },
            None => false,
        }
    }

    /// The counters.
    pub fn get_metrics(&self) -> (metrics: &FederationMetrics)
        ensures
            metrics@ == self.model().metrics,
    {
        &self.metrics
    }
}

/// What kind of failure an operation of the federation layer met.
#[derive(Debug, Clone, Copy, PartialEq, Eq)]
pub enum ErrorKind {
    /// A tool description without a name.
    MissingToolName,
    /// No tool of that name is registered.
    ToolNotFound,
    /// No enabled backend has that id.
    UnknownBackend,
    /// No backend could be connected.
    NoneConnected,
    /// The backend is not connected.
    NotConnected,
    /// The request did not get through, or no response came back.
    Transport,
    /// The backend answered with a JSON-RPC error.
    Downstream,
    /// The backend's answer held no result.
    NoToolsData,
    /// The result held no array of tools.
    InvalidToolsFormat,
    /// The array of tools could not be serialized.
    Unserializable,
    /// The sync was broken off before it came to an end.
    Unfinished,
    /// The circuit was open before the call; no network work was done.
    CircuitOpen { retry_after_ms: u64 },
    /// This failure opened the circuit; remaining retries were abandoned.
    CircuitOpened { cooldown_ms: u64 },
}

/// A failure, with the words of the backend or the transport where there
/// are any.
#[derive(Debug, Clone)]
pub struct FederationError {
    pub kind: ErrorKind,
    pub detail: String,
}

impl FederationError {
    pub open spec fn is(self, kind: ErrorKind, detail: Seq<char>) -> bool {
        self.kind == kind && self.detail@ == detail
    }

    /// A failure of the kind given, without further words.
    pub fn plain(kind: ErrorKind) -> (error: FederationError)
        ensures
            error.is(kind, Seq::empty()),
    {
        FederationError { kind, detail: String::new() }
    }
}

/// Whether a backend is to be synced.
#[derive(Debug, Clone, Copy, PartialEq, Eq)]
pub enum SyncStart {
    /// The backend's circuit is open: nothing is fetched, and the sync
    /// reports `tools` tools, which is none.
    Skip { tools: usize },
    /// The tool list is to be fetched and handed to the sync.
    Fetch,
}

/// What fetching the tool list of a backend gave.
#[derive(Debug, Clone)]
pub enum FetchOutcome {
    /// The backend is not connected.
    NotConnected,
    /// The request failed on the way; the transport's words.
    Transport(String),
    /// The backend answered with a JSON-RPC error; its message.
    Downstream(String),
    /// The backend answered without a result.
    Empty,
    /// The backend's result.
    Fetched(Value),
}

/// The key under which a result holds its tools.
pub open spec fn tools_key() -> Seq<char> {
    "tools"@
}

/// The tool descriptions in a result, where it holds an array of them.
pub open spec fn tools_in(result: Value) -> Option<Seq<Value>> {
    match json_member(result, tools_key()) {
        Some(tools) => json_items(tools),
        None => None,
    }
}

/// The content hash of the raw tool array of a result.
pub open spec fn catalog_hash(result: Value) -> Option<Seq<char>> {
    match json_member(result, tools_key()) {
        Some(tools) => match json_encoding(tools) {
            Some(bytes) => Some(sha256_hex(bytes)),
            None => None,
        },
        None => None,
    }
}

/// The text under a key, where the member is a string.
pub open spec fn text_member(doc: Value, key: Seq<char>) -> Option<Seq<char>> {
    match json_member(doc, key) {
        Some(member) => json_text(member),
        None => None,
    }
}

/// The member under a key, or the document that `fallback` parses to.
pub open spec fn member_or(doc: Value, key: Seq<char>, fallback: Seq<char>) -> Value {
    match json_member(doc, key) {
        Some(member) => member,
        None => json_parsed(fallback),
    }
}

/// The address recorded for the tools of a backend.
pub open spec fn backend_url(id: Seq<char>) -> Seq<char> {
    "server://"@ + id
}

/// The tool a backend's description stands for; `None` where it has no
/// name. A missing description is empty, a missing input schema accepts any
/// object, and missing metadata is an empty object.
pub open spec fn described_tool(data: Value, id: Seq<char>, now: u64) -> Option<ToolSpecView> {
    match text_member(data, "name"@) {
        None => None,
        Some(name) => Some(
            ToolSpecView {
                name,
                description: match text_member(data, "description"@) {
                    Some(text) => text,
                    None => Seq::empty(),
                },
                input_schema: member_or(data, "inputSchema"@, "{\"type\":\"object\"}"@),
                output_schema: json_member(data, "outputSchema"@),
                source: ToolSourceView::Federated { server_id: id, server_url: backend_url(id) },
                spec_version: "1.0.0"@,
                spec_hash: Seq::empty(),
                last_updated: now,
                metadata: member_or(data, "metadata"@, "{}"@),
            },
        ),
    }
}

fn text_under(doc: &Value, key: &str) -> (text: Option<String>)
    ensures
        text is Some <==> text_member(*doc, key@) is Some,
        text matches Some(s) ==> text_member(*doc, key@) == Some(s@),
{
    match member(doc, key) {
        Some(found) => text_of(&found),
        None => None,
    }
}

fn member_or_parsed(doc: &Value, key: &str, fallback: &str) -> (found: Value)
    ensures
        found == member_or(*doc, key@, fallback@),
{
    match member(doc, key) {
        Some(found) => found,
        None => parse(fallback),
    }
}

/// Whether the catalog holds a tool of the source addressed by `id`.
pub open spec fn has_source(catalog: Map<Seq<char>, ToolSpecView>, id: Seq<char>) -> bool {
    exists|name: Seq<char>| #[trigger]
        catalog.contains_key(name) && catalog[name].source.is_source(id)
}

/// The catalog after the first `upto` descriptions were registered for
/// backend `id` at `now`; descriptions without a name are passed over.
pub open spec fn catalog_with(
    catalog: Map<Seq<char>, ToolSpecView>,
    items: Seq<Value>,
    id: Seq<char>,
    now: u64,
    upto: int,
) -> Map<Seq<char>, ToolSpecView>
    decreases upto,
{
    if upto <= 0 {
        catalog
    } else {
        let before = catalog_with(catalog, items, id, now, upto - 1);
        match described_tool(items[upto - 1], id, now) {
            Some(tool) => before.insert(tool.name, tool.stamped(now)),
            None => before,
        }
    }
}

/// The change events after the first `upto` descriptions were registered.
pub open spec fn events_with(
    catalog: Map<Seq<char>, ToolSpecView>,
    events: Seq<RegistryChangeEventView>,
    items: Seq<Value>,
    id: Seq<char>,
    now: u64,
    upto: int,
) -> Seq<RegistryChangeEventView>
    decreases upto,
{
    if upto <= 0 {
        events
    } else {
        let before = events_with(catalog, events, items, id, now, upto - 1);
        match described_tool(items[upto - 1], id, now) {
            Some(tool) => before.push(
                if catalog_with(catalog, items, id, now, upto - 1).contains_key(tool.name) {
                    RegistryChangeEventView::ToolUpdated(tool.name)
                } else {
                    RegistryChangeEventView::ToolAdded(tool.name)
                },
            ),
            None => before,
        }
    }
}

/// How many of the first `upto` descriptions have a name.
pub open spec fn described_count(items: Seq<Value>, id: Seq<char>, now: u64, upto: int) -> nat
    decreases upto,
{
    if upto <= 0 {
        0
    } else {
        described_count(items, id, now, upto - 1) + if described_tool(items[upto - 1], id, now)
            is Some {
            1nat
        } else {
            0nat
        }
    }
}

impl FederationModel {
    /// The state after the tools of backend `id` were replaced by `items`:
    /// its old tools leave the catalog, the described ones enter it.
    pub open spec fn with_catalog_replaced(
        self,
        id: Seq<char>,
        items: Seq<Value>,
        now: u64,
    ) -> FederationModel {
        let cleared = without_source(self.catalog, id);
        let announced = if has_source(self.catalog, id) {
            self.events.push(RegistryChangeEventView::SourceRemoved(id))
        } else {
            self.events
        };
        FederationModel {
            catalog: catalog_with(cleared, items, id, now, items.len() as int),
            events: events_with(cleared, announced, items, id, now, items.len() as int),
            ..self
        }
    }

    /// The state after a fetched result was taken in at `now`. An unchanged
    /// catalog that is still cached only renews the cache entry; anything
    /// else replaces the backend's tools and is remembered. Either way the
    /// backend's success is recorded. A result without a tool array, or
    /// whose tool array has no serialization, changes nothing.
    pub open spec fn after_fetched(self, id: Seq<char>, result: Value, now: u64) -> FederationModel {
        if tools_in(result) is Some && catalog_hash(result) is Some {
            let items = tools_in(result)->0;
            let hash = catalog_hash(result)->0;
            if is_cache_hit(self.cache, id, hash, now, self.settings) {
                (FederationModel {
                    cache: cache_after_hit(self.cache, id, now, self.settings),
                    ..self
                }).after_success(id, now)
            } else {
                let replaced = self.with_catalog_replaced(id, items, now);
                (FederationModel {
                    cache: cache_after_miss(
                        self.cache,
                        id,
                        hash,
                        described_count(items, id, now, items.len() as int) as usize,
                        now,
                        self.settings,
                    ),
                    ..replaced
                }).after_success(id, now)
            }
        } else {
            self
        }
    }

    /// How many tools taking in a fetched result reports, or why it fails.
    pub open spec fn fetched_count(self, id: Seq<char>, result: Value, now: u64) -> Result<
        usize,
        ErrorKind,
    > {
        if tools_in(result) is None {
            Err(ErrorKind::InvalidToolsFormat)
        } else if catalog_hash(result) is None {
            Err(ErrorKind::Unserializable)
        } else if is_cache_hit(self.cache, id, catalog_hash(result)->0, now, self.settings) {
            Ok(self.cache[id].tool_count)
        } else {
            Ok(
                described_count(tools_in(result)->0, id, now, tools_in(result)->0.len() as int)
                    as usize,
            )
        }
    }

    /// The state after a sync of backend `id` at `now`. While its circuit
    /// is open the sync is skipped and counted, and nothing else changes;
    /// otherwise the circuit is checked and the outcome of the fetch is
    /// taken in.
    pub open spec fn after_sync(
        self,
        id: Seq<char>,
        outcome: FetchOutcome,
        now: u64,
        jitter: u64,
    ) -> FederationModel {
        if self.is_blocked(id, now) {
            self.after_gate(id, now)
        } else {
            self.after_gate(id, now).after_outcome(id, outcome, now, jitter)
        }
    }

    /// The state after the outcome of a fetch was taken in.
    pub open spec fn after_outcome(
        self,
        id: Seq<char>,
        outcome: FetchOutcome,
        now: u64,
        jitter: u64,
    ) -> FederationModel {
        match outcome {
            FetchOutcome::NotConnected => self.after_failure(id, now, jitter),
            FetchOutcome::Transport(_) => self.after_failure(id, now, jitter),
            FetchOutcome::Downstream(_) => self.after_failure(id, now, jitter),
            FetchOutcome::Empty => self,
            FetchOutcome::Fetched(result) => self.after_fetched(id, result, now),
        }
    }
}

/// Whether `synced` is what a sync of backend `id` reports under `model`:
/// no tools while its circuit is open, otherwise what taking in `outcome`
/// reports.
pub open spec fn sync_reports(
    model: FederationModel,
    id: Seq<char>,
    outcome: FetchOutcome,
    now: u64,
    synced: Result<usize, FederationError>,
) -> bool {
    if model.is_blocked(id, now) {
        synced == Ok::<usize, FederationError>(0)
    } else {
        outcome_reports(model.after_gate(id, now), id, outcome, now, synced)
    }
}

/// Whether `synced` is what taking in `outcome` reports under `model`.
pub open spec fn outcome_reports(
    model: FederationModel,
    id: Seq<char>,
    outcome: FetchOutcome,
    now: u64,
    synced: Result<usize, FederationError>,
) -> bool {
    match outcome {
        FetchOutcome::NotConnected => synced matches Err(e) && e.is(
            ErrorKind::NotConnected,
            Seq::empty(),
        ),
        FetchOutcome::Transport(words) => synced matches Err(e) && e.is(
            ErrorKind::Transport,
            words@,
        ),
        FetchOutcome::Downstream(words) => synced matches Err(e) && e.is(
            ErrorKind::Downstream,
            words@,
        ),
        FetchOutcome::Empty => synced matches Err(e) && e.is(ErrorKind::NoToolsData, Seq::empty()),
        FetchOutcome::Fetched(result) => match model.fetched_count(id, result, now) {
            Ok(count) => synced == Ok::<usize, FederationError>(count),
            Err(kind) => synced matches Err(e) && e.is(kind, Seq::empty()),
        },
    }
}

impl McpFederationManager {
    /// Reads a backend's description of one tool.
    pub fn parse_tool_spec(tool_data: &Value, server_id: &str, now: u64) -> (parsed: Result<
        ToolSpec,
        FederationError,
    >)
        ensures
            parsed is Ok <==> described_tool(*tool_data, server_id@, now) is Some,
            parsed matches Ok(tool) ==> Some(tool@) == described_tool(*tool_data, server_id@, now),
            parsed matches Err(e) ==> e.is(ErrorKind::MissingToolName, Seq::empty()),
    {
        let name = match text_under(tool_data, "name") {
            Some(name) => name,
            None => { return Err(FederationError::plain(ErrorKind::MissingToolName)); },
        };
        let description = match text_under(tool_data, "description") {
            Some(text) => text,
            None => String::new(),
        };
        let mut server_url = "server://".to_owned();
        server_url.append(server_id);
        Ok(
            ToolSpec {
                name,
                description,
                input_schema: member_or_parsed(tool_data, "inputSchema", "{\"type\":\"object\"}"),
                output_schema: member(tool_data, "outputSchema"),
                source: ToolSource::Federated { server_id: server_id.to_owned(), server_url },
                spec_version: "1.0.0".to_owned(),
                spec_hash: String::new(),
                last_updated: now,
                metadata: member_or_parsed(tool_data, "metadata", "{}"),
            },
        )
    }
}

impl McpFederationManager {
    fn replace_catalog(&mut self, server_id: &str, items: &Vec<Value>, now: u64) -> (count: usize)
        requires
            old(self).wf(),
        ensures
            final(self).wf(),
            final(self).model() == old(self).model().with_catalog_replaced(
                server_id@,
                items@,
                now,
            ),
            count == described_count(items@, server_id@, now, items@.len() as int),
    {
        let ghost before = self.model();
        let ghost cleared = without_source(before.catalog, server_id@);
        let removed = self.tool_registry.remove_tools_from_source(server_id);
        let ghost announced = self.tool_registry.pending_events();
        proof {
            let held = keys_where(before.catalog, is_entry_of(server_id@));
            if removed@.len() > 0 {
                assert(names_upto(removed@, removed@.len() as int).contains(removed@[0]@));
                assert(held.contains(removed@[0]@));
                assert(before.catalog.contains_key(removed@[0]@));
            }
            if has_source(before.catalog, server_id@) {
                let name = choose|name: Seq<char>| #[trigger]
                    before.catalog.contains_key(name) && before.catalog[name].source.is_source(
                        server_id@,
                    );
                assert(held.contains(name));
                assert(names_upto(removed@, removed@.len() as int).contains(name));
            }
        }
        let mut count: usize = 0;
        let mut i: usize = 0;
        while i < items.len()
            invariant
                i <= items@.len(),
                count <= i,
                count == described_count(items@, server_id@, now, i as int),
                self.tool_registry.wf(),
                self.tool_registry.catalog() == catalog_with(
                    cleared,
                    items@,
                    server_id@,
                    now,
                    i as int,
                ),
                self.tool_registry.pending_events() == events_with(
                    cleared,
                    announced,
                    items@,
                    server_id@,
                    now,
                    i as int,
                ),
                self.tool_registry.counters().schema_validation_errors == old(
                    self,
                ).tool_registry.counters().schema_validation_errors,
                self.settings == old(self).settings,
                self.metrics == old(self).metrics,
                self.failure_tracker == old(self).failure_tracker,
                self.tool_cache == old(self).tool_cache,
            decreases items@.len() - i,
        {
            if let Ok(tool) = Self::parse_tool_spec(&items[i], server_id, now) {
                self.tool_registry.register_tool(tool, now);
                count = count + 1;
            }
            i = i + 1;
        }
        count
    }

    fn take_in(&mut self, server_id: &str, outcome: FetchOutcome, now: u64, jitter: u64) -> (synced:
        Result<usize, FederationError>)
        requires
            old(self).wf(),
            jitter <= jitter_bound(old(self).model().settings),
        ensures
            final(self).wf(),
            final(self).model() == old(self).model().after_outcome(server_id@, outcome, now, jitter),
            outcome_reports(old(self).model(), server_id@, outcome, now, synced),
    {
        let result = match outcome {
            FetchOutcome::NotConnected => {
                self.record_failure_with(server_id, now, jitter);
                return Err(FederationError::plain(ErrorKind::NotConnected));
            },
            FetchOutcome::Transport(words) => {
                self.record_failure_with(server_id, now, jitter);
                return Err(FederationError { kind: ErrorKind::Transport, detail: words });
            },
            FetchOutcome::Downstream(words) => {
                self.record_failure_with(server_id, now, jitter);
                return Err(FederationError { kind: ErrorKind::Downstream, detail: words });
            },
            FetchOutcome::Empty => {
                return Err(FederationError::plain(ErrorKind::NoToolsData));
            },
            FetchOutcome::Fetched(result) => result,
        };
        let tools = match member(&result, "tools") {
            Some(tools) => tools,
            None => {
                return Err(FederationError::plain(ErrorKind::InvalidToolsFormat));
            },
        };
        let items = match items_of(&tools) {
            Some(items) => items,
            None => {
                return Err(FederationError::plain(ErrorKind::InvalidToolsFormat));
            },
        };
        let hash = match encode(&tools) {
            Some(bytes) => sha256_hex_of(bytes.as_slice()),
            None => {
                return Err(FederationError::plain(ErrorKind::Unserializable));
            },
        };
        if let Some(count) = check_cache(&mut self.tool_cache, server_id, &hash, now, &self.settings) {
            self.record_success(server_id, now);
            return Ok(count);
        }
        let count = self.replace_catalog(server_id, &items, now);
        remember(&mut self.tool_cache, server_id, hash, count, now, &self.settings);
        self.record_success(server_id, now);
        Ok(count)
    }

    /// Says, before any network work, whether backend `server_id` is to be
    /// synced at `now`. While its circuit is open the sync is skipped: the
    /// skip is counted, the backend contributes no tools, and nothing is to
    /// be fetched.
    pub fn begin_sync(&mut self, server_id: &str, now: u64) -> (start: SyncStart)
        requires
            old(self).wf(),
        ensures
            final(self).wf(),
            start == if old(self).model().is_blocked(server_id@, now) {
                SyncStart::Skip { tools: 0 }
            } else {
                SyncStart::Fetch
            },
            final(self).model() == old(self).model().after_gate(server_id@, now),
    {
        if self.gate(server_id, now) {
            SyncStart::Skip { tools: 0 }
        } else {
            SyncStart::Fetch
        }
    }

    /// Syncs backend `server_id` at `now` with what fetching its tool list
    /// gave, and with the jitter given for a failure's cooldown. While the
    /// backend's circuit is open the sync is skipped: the skip is counted,
    /// no tools are reported and nothing else changes. Otherwise: a failure
    /// to reach the backend, or its JSON-RPC error, is recorded against its
    /// circuit. A fetched catalog is looked up in the cache: unchanged and
    /// still live, it leaves the registry alone; otherwise the backend's
    /// tools are replaced and the catalog is remembered. Returns the number
    /// of tools the backend now contributes.
    pub fn sync_server_tools_with(
        &mut self,
        server_id: &str,
        outcome: FetchOutcome,
        now: u64,
        jitter: u64,
    ) -> (synced: Result<usize, FederationError>)
        requires
            old(self).wf(),
            jitter <= jitter_bound(old(self).model().settings),
        ensures
            final(self).wf(),
            final(self).model() == old(self).model().after_sync(server_id@, outcome, now, jitter),
            sync_reports(old(self).model(), server_id@, outcome, now, synced),
            old(self).model().is_blocked(server_id@, now) ==> synced == Ok::<
                usize,
                FederationError,
            >(0) && final(self).model() == old(self).model().after_gate(server_id@, now),
    {
        if self.gate(server_id, now) {
            return Ok(0);
        }
        self.take_in(server_id, outcome, now, jitter)
    }

    /// Takes in what fetching the tool list of backend `server_id` gave,
    /// drawing the jitter for a failure's cooldown. The outcome is that of
    /// [`Self::sync_server_tools_with`] for some jitter within the bound.
    pub fn sync_server_tools(&mut self, server_id: &str, outcome: FetchOutcome, now: u64) -> (synced:
        Result<usize, FederationError>)
        requires
            old(self).wf(),
        ensures
            final(self).wf(),
            exists|jitter: u64|
                jitter <= jitter_bound(old(self).model().settings) && final(self).model()
                    == #[trigger] old(self).model().after_sync(server_id@, outcome, now, jitter),
            sync_reports(old(self).model(), server_id@, outcome, now, synced),
            old(self).model().is_blocked(server_id@, now) ==> synced == Ok::<
                usize,
                FederationError,
            >(0) && final(self).model() == old(self).model().after_gate(server_id@, now),
    {
        let jitter = random_jitter(jitter_limit(&self.settings));
        self.sync_server_tools_with(server_id, outcome, now, jitter)
    }
}

/// A catalog fetched twice in a row mutates the registry at most once: when
/// the same result is taken in again before its cache entry expires, the
/// catalog and the change events are exactly as the first sync left them,
/// and the same tool count is reported.
pub proof fn lemma_unchanged_catalog_syncs_once(
    model: FederationModel,
    id: Seq<char>,
    result: Value,
    first: u64,
    second: u64,
)
    requires
        model.settings.tool_cache_ttl_seconds > 0,
        tools_in(result) is Some,
        catalog_hash(result) is Some,
        second < expiry(first, model.settings),
    ensures
        model.after_fetched(id, result, first).after_fetched(id, result, second).catalog
            == model.after_fetched(id, result, first).catalog,
        model.after_fetched(id, result, first).after_fetched(id, result, second).events
            == model.after_fetched(id, result, first).events,
        model.after_fetched(id, result, first).fetched_count(id, result, second)
            == model.fetched_count(id, result, first),
        is_cache_hit(
            model.after_fetched(id, result, first).cache,
            id,
            catalog_hash(result)->0,
            second,
            model.settings,
        ),
{
}

/// A failing backend touches nothing of another backend: recording a
/// failure of one leaves every other circuit, the cache, the catalog and the
/// events as they were.
pub proof fn lemma_failure_is_isolated(
    model: FederationModel,
    id: Seq<char>,
    other: Seq<char>,
    now: u64,
    jitter: u64,
)
    requires
        id != other,
    ensures
        model.after_failure(id, now, jitter).circuits.contains_key(other)
            == model.circuits.contains_key(other),
        model.circuits.contains_key(other) ==> model.after_failure(id, now, jitter).circuits[other]
            == model.circuits[other],
        model.after_failure(id, now, jitter).cache == model.cache,
        model.after_failure(id, now, jitter).catalog == model.catalog,
        model.after_failure(id, now, jitter).events == model.events,
{
}

/// What one round of syncing all backends came to.
#[derive(Debug, Clone, Copy, PartialEq, Eq)]
pub struct SyncReport {
    /// Tools contributed by the backends that synced, counted up to
    /// `u64::MAX`.
    pub total_tools: u64,
    /// Backends whose sync failed.
    pub errors: usize,
    /// Failed backends whose failure was not recorded against a circuit.
    pub unrecorded_errors: usize,
}

/// Whether a failure of this kind is recorded against the backend's
/// circuit, and counted, when it happens.
pub open spec fn is_recorded(kind: ErrorKind) -> bool {
    kind == ErrorKind::NotConnected || kind == ErrorKind::Transport || kind
        == ErrorKind::Downstream
}

/// Tools contributed by the first `upto` results.
pub open spec fn tools_among(results: Seq<Result<usize, FederationError>>, upto: int) -> nat
    decreases upto,
{
    if upto <= 0 {
        0
    } else {
        tools_among(results, upto - 1) + match results[upto - 1] {
            Ok(count) => count as nat,
            Err(_) => 0nat,
        }
    }
}

/// Failures among the first `upto` results.
pub open spec fn errors_among(results: Seq<Result<usize, FederationError>>, upto: int) -> nat
    decreases upto,
{
    if upto <= 0 {
        0
    } else {
        errors_among(results, upto - 1) + if results[upto - 1] is Err {
            1nat
        } else {
            0nat
        }
    }
}

/// Failures among the first `upto` results that were not recorded against
/// a circuit.
pub open spec fn unrecorded_among(results: Seq<Result<usize, FederationError>>, upto: int) -> nat
    decreases upto,
{
    if upto <= 0 {
        0
    } else {
        unrecorded_among(results, upto - 1) + match results[upto - 1] {
            Ok(_) => 0nat,
            Err(e) => if is_recorded(e.kind) {
                0nat
            } else {
                1nat
            },
        }
    }
}

pub open spec fn sync_report(results: Seq<Result<usize, FederationError>>) -> SyncReport {
    SyncReport {
        total_tools: bumped_by(0, tools_among(results, results.len() as int)),
        errors: errors_among(results, results.len() as int) as usize,
        unrecorded_errors: unrecorded_among(results, results.len() as int) as usize,
    }
}

/// Whether a backend of that id is known: federation is on and an enabled
/// server of the settings has the id.
pub open spec fn is_known_backend(settings: FederationSettings, id: Seq<char>) -> bool {
    settings.enabled && exists|i: int|
        0 <= i < settings.downstream_servers@.len()
            && #[trigger] settings.downstream_servers@[i].enabled
            && settings.downstream_servers@[i].id@ == id
}

/// The number of retries in effect: the configured one, but never below 1.
pub open spec fn max_attempts(settings: FederationSettings) -> u32 {
    if settings.max_retries < 1 {
        1
    } else {
        settings.max_retries
    }
}

/// What one call of a tool on a backend gave.
#[derive(Debug, Clone)]
pub enum CallOutcome {
    /// The backend is not connected.
    NotConnected,
    /// The request failed on the way; the transport's words.
    Transport(String),
    /// The backend answered with a JSON-RPC error; its message.
    Downstream(String),
    /// The backend answered without an error; its result, if it sent one.
    Completed(Option<Value>),
}

/// What to do after a call.
#[derive(Debug, Clone)]
pub enum ForwardStep {
    /// The call succeeded; the result for the caller.
    Done(Value),
    /// The call is given up.
    Failed(FederationError),
    /// Call again after `delay_ms`, as attempt number `attempt`.
    Retry { attempt: u32, delay_ms: u64 },
}

/// The result handed to the caller when the backend sent none.
pub open spec fn bare_success() -> Value {
    json_parsed("{\"status\":\"success\"}"@)
}

impl FederationModel {
    pub open spec fn after_sync_round(
        self,
        results: Seq<Result<usize, FederationError>>,
        finished_at: u64,
        duration_ms: u64,
    ) -> FederationModel {
        FederationModel {
            metrics: FederationMetricsView {
                last_sync: Some(finished_at),
                sync_duration_ms: duration_ms,
                federation_errors: bumped_by(
                    self.metrics.federation_errors,
                    unrecorded_among(results, results.len() as int),
                ),
                ..self.metrics
            },
            ..self
        }
    }

    /// The state after a forwarded call was gated at `now`.
    pub open spec fn after_forward_gate(self, id: Seq<char>, now: u64) -> FederationModel {
        if is_known_backend(self.settings, id) {
            self.after_gate(id, now)
        } else {
            self
        }
    }

    /// The state after the outcome of a forwarded call was taken in.
    pub open spec fn after_call(
        self,
        id: Seq<char>,
        outcome: CallOutcome,
        now: u64,
        jitter: u64,
    ) -> FederationModel {
        match outcome {
            CallOutcome::Completed(_) => {
                let recovered = self.after_success(id, now);
                FederationModel {
                    metrics: FederationMetricsView {
                        tool_calls_forwarded: bumped(recovered.metrics.tool_calls_forwarded),
                        ..recovered.metrics
                    },
                    ..recovered
                }
            },
            _ => self.after_failure(id, now, jitter),
        }
    }

    /// Whether `step` is what follows the outcome of call number `attempt`
    /// (counted from 0): a success is done; a backend that is not connected
    /// is given up; any other failure that opens the circuit is given up at
    /// once; otherwise the call is tried again after a fresh backoff, until
    /// the attempts are used up.
    pub open spec fn steps_to(
        self,
        id: Seq<char>,
        attempt: u32,
        outcome: CallOutcome,
        now: u64,
        jitter: u64,
        retry_jitter: u64,
        step: ForwardStep,
    ) -> bool {
        match outcome {
            CallOutcome::Completed(result) => step == ForwardStep::Done(
                match result {
                    Some(value) => value,
                    None => bare_success(),
                },
            ),
            CallOutcome::NotConnected => step matches ForwardStep::Failed(e) && e.is(
                ErrorKind::NotConnected,
                Seq::empty(),
            ),
            CallOutcome::Transport(words) => self.steps_after_failure(
                id,
                attempt,
                ErrorKind::Transport,
                words@,
                now,
                jitter,
                retry_jitter,
                step,
            ),
            CallOutcome::Downstream(words) => self.steps_after_failure(
                id,
                attempt,
                ErrorKind::Downstream,
                words@,
                now,
                jitter,
                retry_jitter,
                step,
            ),
        }
    }

    pub open spec fn steps_after_failure(
        self,
        id: Seq<char>,
        attempt: u32,
        kind: ErrorKind,
        words: Seq<char>,
        now: u64,
        jitter: u64,
        retry_jitter: u64,
        step: ForwardStep,
    ) -> bool {
        match self.failure_penalty(id, now, jitter) {
            Some(cooldown) => step matches ForwardStep::Failed(e) && e.is(
                ErrorKind::CircuitOpened { cooldown_ms: cooldown },
                words,
            ),
            None => if attempt >= max_attempts(self.settings) {
                step matches ForwardStep::Failed(e) && e.is(kind, words)
            } else {
                step == (ForwardStep::Retry {
                    attempt: (attempt + 1) as u32,
                    delay_ms: backoff_total(self.settings, (attempt + 1) as u32, retry_jitter)
                        as u64,
                })
            },
        }
    }
}

impl McpFederationManager {
    /// Whether an enabled server of the settings has the id, federation
    /// being on.
    pub fn knows_backend(&self, server_id: &str) -> (known: bool)
        ensures
            known == is_known_backend(self.model().settings, server_id@),
    {
        if !self.settings.enabled {
            return false;
        }
        let wanted = server_id.to_owned();
        let mut i: usize = 0;
        while i < self.settings.downstream_servers.len()
            invariant
                i <= self.settings.downstream_servers@.len(),
                wanted@ == server_id@,
                self.settings.enabled,
                forall|j: int|
                    0 <= j < i ==> !(#[trigger] self.settings.downstream_servers@[j].enabled
                        && self.settings.downstream_servers@[j].id@ == server_id@),
            decreases self.settings.downstream_servers@.len() - i,
        {
            if self.settings.downstream_servers[i].enabled && self.settings.downstream_servers[i].id
                == wanted {
                assert(self.settings.downstream_servers@[i as int].enabled
                    && self.settings.downstream_servers@[i as int].id@ == server_id@);
                return true;
            }
            i = i + 1;
        }
        false
    }

    /// Closes a round of syncing all backends: sums up what the backends
    /// gave, stamps the time and duration of the round, and counts the
    /// failures that no circuit has counted yet.
    pub fn sync_all_servers(
        &mut self,
        results: &Vec<Result<usize, FederationError>>,
        finished_at: u64,
        duration_ms: u64,
    ) -> (report: SyncReport)
        requires
            old(self).wf(),
        ensures
            final(self).wf(),
            report == sync_report(results@),
            final(self).model() == old(self).model().after_sync_round(
                results@,
                finished_at,
                duration_ms,
            ),
    {
        let mut total: u64 = 0;
        let mut errors: usize = 0;
        let mut unrecorded: usize = 0;
        let mut i: usize = 0;
        while i < results.len()
            invariant
                i <= results@.len(),
                total == bumped_by(0, tools_among(results@, i as int)),
                errors == errors_among(results@, i as int),
                unrecorded == unrecorded_among(results@, i as int),
                unrecorded <= errors <= i,
            decreases results@.len() - i,
        {
            match &results[i] {
                Ok(count) => {
                    total = bump_by(total, *count);
                },
                Err(e) => {
                    errors = errors + 1;
                    match e.kind {
                        ErrorKind::NotConnected | ErrorKind::Transport | ErrorKind::Downstream => {},
                        _ => {
                            unrecorded = unrecorded + 1;
                        },
                    }
                },
            }
            i = i + 1;
        }
        self.metrics.last_sync = Some(finished_at);
        self.metrics.sync_duration_ms = duration_ms;
        self.metrics.federation_errors = bump_by(self.metrics.federation_errors, unrecorded);
        SyncReport { total_tools: total, errors, unrecorded_errors: unrecorded }
    }

    /// Takes in which backends connected. Succeeds when at least one did.
    pub fn connect_all(&mut self, connected: &Vec<bool>) -> (done: Result<(), FederationError>)
        requires
            old(self).wf(),
        ensures
            final(self).wf(),
            done is Ok <==> connected@.contains(true),
            done matches Err(e) ==> e.is(ErrorKind::NoneConnected, Seq::empty()),
            final(self).model() == (FederationModel {
                metrics: FederationMetricsView {
                    active_connections: connected@.filter(|c: bool| c).len() as usize,
                    total_servers: connected@.len() as usize,
                    ..old(self).model().metrics
                },
                ..old(self).model()
            }),
    {
        let ghost is_up = |c: bool| c;
        let mut active: usize = 0;
        let mut i: usize = 0;
        proof {
            reveal(Seq::filter);
            assert(connected@.take(0).filter(is_up) =~= Seq::empty());
        }
        while i < connected.len()
            invariant
                i <= connected@.len(),
                is_up == (|c: bool| c),
                active == connected@.take(i as int).filter(is_up).len(),
                active <= i,
                active > 0 <==> connected@.take(i as int).contains(true),
            decreases connected@.len() - i,
        {
            proof {
                let sofar = connected@.take(i as int);
                assert(connected@.take(i + 1) =~= sofar.push(connected@[i as int]));
                sofar.lemma_filter_push(connected@[i as int], is_up);
                if sofar.contains(true) {
                    let k = choose|k: int| 0 <= k < sofar.len() && sofar[k] == true;
                    assert(sofar.push(connected@[i as int])[k] == true);
                }
                if sofar.push(connected@[i as int]).contains(true) && !connected@[i as int] {
                    let k = choose|k: int|
                        0 <= k < sofar.len() + 1 && sofar.push(connected@[i as int])[k] == true;
                    assert(sofar[k] == true);
                }
                if connected@[i as int] {
                    assert(sofar.push(connected@[i as int])[i as int] == true);
                }
            }
            if connected[i] {
                active = active + 1;
            }
            i = i + 1;
        }
        assert(connected@.take(connected@.len() as int) =~= connected@);
        self.metrics.active_connections = active;
        self.metrics.total_servers = connected.len();
        if active > 0 {
            Ok(())
        } else {
            Err(FederationError::plain(ErrorKind::NoneConnected))
        }
    }

    /// Gates a call that is to be forwarded to backend `server_id`: an
    /// unknown backend is refused, and an open circuit fails the call at
    /// once, counted as a skip, with the time left until it closes.
    pub fn begin_forward(&mut self, server_id: &str, now: u64) -> (cleared: Result<
        (),
        FederationError,
    >)
        requires
            old(self).wf(),
        ensures
            final(self).wf(),
            final(self).model() == old(self).model().after_forward_gate(server_id@, now),
            cleared is Ok <==> is_known_backend(old(self).model().settings, server_id@) && !old(
                self,
            ).model().is_blocked(server_id@, now),
            cleared matches Err(e) ==> e.detail@ == Seq::<char>::empty() && e.kind == if
                !is_known_backend(old(self).model().settings, server_id@) {
                ErrorKind::UnknownBackend
            } else {
                ErrorKind::CircuitOpen {
                    retry_after_ms: old(self).model().retry_after(server_id@, now) as u64,
                }
            },
    {
        if !self.knows_backend(server_id) {
            return Err(FederationError::plain(ErrorKind::UnknownBackend));
        }
        let before = circuits_get(&self.failure_tracker, server_id);
        if self.gate(server_id, now) {
            let retry_after_ms: u64 = match before {
                Some(state) => match state.open_until {
                    Some(until) => until - now,
                    None => 0,
                },
                None => 0,
            };
            Err(FederationError::plain(ErrorKind::CircuitOpen { retry_after_ms }))
        } else {
            Ok(())
        }
    }

    /// Takes in the outcome of call number `attempt` (counted from 0) of a
    /// tool on backend `server_id`, with the jitters given for a cooldown
    /// and for the backoff before a retry, and says what to do next.
    pub fn after_call_with(
        &mut self,
        server_id: &str,
        attempt: u32,
        outcome: CallOutcome,
        now: u64,
        jitter: u64,
        retry_jitter: u64,
    ) -> (step: ForwardStep)
        requires
            old(self).wf(),
            jitter <= jitter_bound(old(self).model().settings),
            retry_jitter <= jitter_bound(old(self).model().settings),
        ensures
            final(self).wf(),
            final(self).model() == old(self).model().after_call(server_id@, outcome, now, jitter),
            old(self).model().steps_to(
                server_id@,
                attempt,
                outcome,
                now,
                jitter,
                retry_jitter,
                step,
            ),
    {
        let (kind, words) = match outcome {
            CallOutcome::Completed(result) => {
                self.record_success(server_id, now);
                self.metrics.tool_calls_forwarded = bump(self.metrics.tool_calls_forwarded);
                return ForwardStep::Done(
                    match result {
                        Some(value) => value,
                        None => parse("{\"status\":\"success\"}"),
                    },
                );
            },
            CallOutcome::NotConnected => {
                self.record_failure_with(server_id, now, jitter);
                return ForwardStep::Failed(FederationError::plain(ErrorKind::NotConnected));
            },
            CallOutcome::Transport(words) => (ErrorKind::Transport, words),
            CallOutcome::Downstream(words) => (ErrorKind::Downstream, words),
        };
        if let Some(cooldown_ms) = self.record_failure_with(server_id, now, jitter) {
            return ForwardStep::Failed(
                FederationError { kind: ErrorKind::CircuitOpened { cooldown_ms }, detail: words },
            );
        }
        let limit: u32 = if self.settings.max_retries < 1 {
            1
        } else {
            self.settings.max_retries
        };
        if attempt >= limit {
            return ForwardStep::Failed(FederationError { kind, detail: words });
        }
        let next: u32 = attempt + 1;
        ForwardStep::Retry { attempt: next, delay_ms: backoff_with_jitter(&self.settings, next, retry_jitter) }
    }

    /// Takes in the outcome of a call, drawing both jitters. The outcome is
    /// that of [`Self::after_call_with`] for some jitters, the first within
    /// the bound.
    pub fn after_call(&mut self, server_id: &str, attempt: u32, outcome: CallOutcome, now: u64) -> (step:
        ForwardStep)
        requires
            old(self).wf(),
        ensures
            final(self).wf(),
            exists|jitter: u64, retry_jitter: u64|
                jitter <= jitter_bound(old(self).model().settings) && retry_jitter <= jitter_bound(
                    old(self).model().settings,
                ) && final(self).model() == old(self).model().after_call(
                    server_id@,
                    outcome,
                    now,
                    jitter,
                ) && #[trigger] old(self).model().steps_to(
                    server_id@,
                    attempt,
                    outcome,
                    now,
                    jitter,
                    retry_jitter,
                    step,
                ),
    {
        let jitter = random_jitter(jitter_limit(&self.settings));
        let retry_jitter = random_jitter(jitter_limit(&self.settings));
        self.after_call_with(server_id, attempt, outcome, now, jitter, retry_jitter)
    }

    /// Forgets every circuit and every cached catalog, and counts no active
    /// connection.
    pub fn shutdown(&mut self)
        requires
            old(self).wf(),
        ensures
            final(self).wf(),
            final(self).model() == (FederationModel {
                circuits: Map::empty(),
                cache: Map::empty(),
                metrics: FederationMetricsView {
                    active_connections: 0,
                    ..old(self).model().metrics
                },
                ..old(self).model()
            }),
    {
        circuits_clear(&mut self.failure_tracker);
        cache_clear(&mut self.tool_cache);
        self.metrics.active_connections = 0;
        assert(self.model().cache =~= Map::empty());
    }
}

/// A deferred description of a tool call.
#[derive(Debug, Clone)]
pub struct ExecutionPlan {
    pub plan_id: String,
    pub tool_name: String,
    pub arguments: Value,
    /// The backend id, or "local".
    pub target_server: String,
    /// Milliseconds since the Unix epoch.
    pub created_at: u64,
    pub dependencies: Vec<String>,
    pub spec_ref: Option<String>,
}

/// Where a call is to be carried out.
#[derive(Debug, Clone)]
pub enum Dispatch {
    /// By the local executor.
    Local { tool_name: String },
    /// By forwarding to a backend.
    Downstream { server_id: String, tool_name: String },
}

/// What routing a call came to: a plan, a dispatch, or both.
#[derive(Debug, Clone)]
pub struct RoutedCall {
    pub plan: Option<ExecutionPlan>,
    pub dispatch: Option<Dispatch>,
}

/// The target a tool's source stands for in a plan.
pub open spec fn target_of(source: ToolSourceView) -> Seq<char> {
    match source {
        ToolSourceView::Local => "local"@,
        ToolSourceView::Federated { server_id, .. } => server_id,
    }
}

/// The catalog reference of a tool.
pub open spec fn catalog_ref(name: Seq<char>) -> Seq<char> {
    "mcp://catalog/tools/"@ + name
}

/// Whether `plan` is the plan for calling `tool` with `arguments`.
pub open spec fn plan_describes(
    plan: ExecutionPlan,
    tool: ToolSpecView,
    arguments: Value,
    plan_id: Seq<char>,
    now: u64,
) -> bool {
    &&& plan.plan_id@ == plan_id
    &&& plan.tool_name@ == tool.name
    &&& plan.arguments == arguments
    &&& plan.target_server@ == target_of(tool.source)
    &&& plan.created_at == now
    &&& plan.dependencies@.len() == 0
    &&& plan.spec_ref matches Some(reference) && reference@ == catalog_ref(tool.name)
}

/// Whether `dispatch` is where a call of `tool` goes.
pub open spec fn dispatches(dispatch: Dispatch, tool: ToolSpecView) -> bool {
    match tool.source {
        ToolSourceView::Local => dispatch matches Dispatch::Local { tool_name } && tool_name@
            == tool.name,
        ToolSourceView::Federated { server_id, .. } => dispatch matches Dispatch::Downstream {
            server_id: target,
            tool_name,
        } && target@ == server_id && tool_name@ == tool.name,
    }
}

/// Whether `routed` is what routing a call of `tool` in `mode` comes to:
/// a plan unless the mode is `Execute`, a dispatch unless it is `Plan`.
pub open spec fn routes(
    routed: RoutedCall,
    tool: ToolSpecView,
    arguments: Value,
    mode: ExecutionMode,
    plan_id: Seq<char>,
    now: u64,
) -> bool {
    &&& routed.plan is Some <==> mode != ExecutionMode::Execute
    &&& routed.plan matches Some(plan) ==> plan_describes(plan, tool, arguments, plan_id, now)
    &&& routed.dispatch is Some <==> mode != ExecutionMode::Plan
    &&& routed.dispatch matches Some(dispatch) ==> dispatches(dispatch, tool)
}

/// The plan for calling `tool` with `arguments`, under the id given.
pub fn generate_execution_plan(tool: &ToolSpec, arguments: Value, plan_id: String, now: u64) -> (plan:
    ExecutionPlan)
    ensures
        plan_describes(plan, tool@, arguments, plan_id@, now),
{
    let mut reference = "mcp://catalog/tools/".to_owned();
    reference.append(tool.name.as_str());
    ExecutionPlan {
        plan_id,
        tool_name: tool.name.clone(),
        arguments,
        target_server: match &tool.source {
            ToolSource::Local => "local".to_owned(),
            ToolSource::Federated { server_id, .. } => server_id.clone(),
        },
        created_at: now,
        dependencies: Vec::new(),
        spec_ref: Some(reference),
    }
}

/// Where a call of `tool` goes.
pub fn dispatch_for(tool: &ToolSpec) -> (dispatch: Dispatch)
    ensures
        dispatches(dispatch, tool@),
{
    match &tool.source {
        ToolSource::Local => Dispatch::Local { tool_name: tool.name.clone() },
        ToolSource::Federated { server_id, .. } => Dispatch::Downstream {
            server_id: server_id.clone(),
            tool_name: tool.name.clone(),
        },
    }
}

/// What is shown of one configured backend.
#[derive(Debug, Clone)]
pub struct ServerStatus {
    pub id: String,
    pub name: String,
    pub transport: String,
    pub connected: bool,
    pub enabled: bool,
    pub tool_count: usize,
}

/// Whether `status` shows `server` with the connection state and tool count
/// given.
pub open spec fn shows(
    status: ServerStatus,
    server: DownstreamMcpServer,
    connected: bool,
    tool_count: nat,
) -> bool {
    &&& status.id@ == server.id@
    &&& status.name@ == server.name@
    &&& status.transport@ == server.connection_type@
    &&& status.connected == connected
    &&& status.enabled == server.enabled
    &&& status.tool_count == tool_count
}

/// The enabled servers among the first `upto`, in their order.
pub open spec fn enabled_among(servers: Seq<DownstreamMcpServer>, upto: int) -> Seq<
    DownstreamMcpServer,
>
    decreases upto,
{
    if upto <= 0 {
        Seq::empty()
    } else if servers[upto - 1].enabled {
        enabled_among(servers, upto - 1).push(servers[upto - 1])
    } else {
        enabled_among(servers, upto - 1)
    }
}

/// The backends to connect: none while federation is off, else the
/// enabled servers in their order.
pub open spec fn backends_to_connect(settings: FederationSettings) -> Seq<DownstreamMcpServer> {
    if settings.enabled {
        enabled_among(settings.downstream_servers@, settings.downstream_servers@.len() as int)
    } else {
        Seq::empty()
    }
}

impl McpFederationManager {
    /// Routes a call of the tool `tool_name` under the plan id given. Fails
    /// exactly when no tool of that name is registered.
    pub fn route_tool_call_with(
        &self,
        tool_name: &str,
        arguments: Value,
        mode: ExecutionMode,
        plan_id: String,
        now: u64,
    ) -> (routed: Result<RoutedCall, FederationError>)
        ensures
            routed is Ok <==> self.model().catalog.contains_key(tool_name@),
            routed matches Ok(call) ==> routes(
                call,
                self.model().catalog[tool_name@],
                arguments,
                mode,
                plan_id@,
                now,
            ),
            routed matches Err(e) ==> e.is(ErrorKind::ToolNotFound, Seq::empty()),
    {
        let tool = match self.tool_registry.get_tool(tool_name) {
            Some(tool) => tool,
            None => { return Err(FederationError::plain(ErrorKind::ToolNotFound)); },
        };
        match mode {
            ExecutionMode::Plan => Ok(
                RoutedCall {
                    plan: Some(generate_execution_plan(&tool, arguments, plan_id, now)),
                    dispatch: None,
                },
            ),
            ExecutionMode::Execute => Ok(
                RoutedCall { plan: None, dispatch: Some(dispatch_for(&tool)) },
            ),
            ExecutionMode::Hybrid => Ok(
                RoutedCall {
                    plan: Some(generate_execution_plan(&tool, arguments, plan_id, now)),
                    dispatch: Some(dispatch_for(&tool)),
                },
            ),
        }
    }

    /// Routes a call of the tool `tool_name` under a fresh plan id. The
    /// outcome is that of [`Self::route_tool_call_with`] for some id.
    pub fn route_tool_call(&self, tool_name: &str, arguments: Value, mode: ExecutionMode, now: u64) -> (routed:
        Result<RoutedCall, FederationError>)
        ensures
            routed is Ok <==> self.model().catalog.contains_key(tool_name@),
            routed matches Ok(call) ==> exists|plan_id: Seq<char>| #[trigger]
                routes(call, self.model().catalog[tool_name@], arguments, mode, plan_id, now),
            routed matches Err(e) ==> e.is(ErrorKind::ToolNotFound, Seq::empty()),
    {
        let plan_id = fresh_id();
        self.route_tool_call_with(tool_name, arguments, mode, plan_id, now)
    }

    /// What is shown of the first configured server with the id given;
    /// `None` where no server has it.
    pub fn server_status(&self, server_id: &str, connected: bool) -> (status: Option<ServerStatus>)
        requires
            self.wf(),
        ensures
            status is Some <==> exists|i: int|
                0 <= i < self.model().settings.downstream_servers@.len()
                    && #[trigger] self.model().settings.downstream_servers@[i].id@ == server_id@,
            status matches Some(shown) ==> exists|i: int|
                0 <= i < self.model().settings.downstream_servers@.len() && shows(
                    shown,
                    #[trigger] self.model().settings.downstream_servers@[i],
                    connected,
                    keys_where(self.model().catalog, is_entry_of(server_id@)).len(),
                ) && self.model().settings.downstream_servers@[i].id@ == server_id@ && forall|
                    j: int,
                |
                    0 <= j < i ==> #[trigger] self.model().settings.downstream_servers@[j].id@
                        != server_id@,
    {
        let wanted = server_id.to_owned();
        let mut i: usize = 0;
        while i < self.settings.downstream_servers.len()
            invariant
                i <= self.settings.downstream_servers@.len(),
                wanted@ == server_id@,
                self.wf(),
                forall|j: int|
                    0 <= j < i ==> #[trigger] self.settings.downstream_servers@[j].id@
                        != server_id@,
            decreases self.settings.downstream_servers@.len() - i,
        {
            let server = &self.settings.downstream_servers[i];
            if server.id == wanted {
                let tools = self.tool_registry.get_tools_from_source(server_id);
                let shown = ServerStatus {
                    id: server.id.clone(),
                    name: server.name.clone(),
                    transport: server.connection_type.clone(),
                    connected,
                    enabled: server.enabled,
                    tool_count: tools.len(),
                };
                assert(shows(
                    shown,
                    self.model().settings.downstream_servers@[i as int],
                    connected,
                    keys_where(self.model().catalog, is_entry_of(server_id@)).len(),
                ));
                return Some(shown);
            }
            i = i + 1;
        }
        None
    }

    /// The backends to connect at start: none while federation is off,
    /// else the enabled servers in their order.
    pub fn backends(&self) -> (servers: Vec<&DownstreamMcpServer>)
        ensures
            servers@.len() == backends_to_connect(self.model().settings).len(),
            forall|k: int|
                0 <= k < servers@.len() ==> *#[trigger] servers@[k] == backends_to_connect(
                    self.model().settings,
                )[k],
    {
        let mut servers: Vec<&DownstreamMcpServer> = Vec::new();
        if !self.settings.enabled {
            return servers;
        }
        let mut i: usize = 0;
        while i < self.settings.downstream_servers.len()
            invariant
                i <= self.settings.downstream_servers@.len(),
                servers@.len() == enabled_among(self.settings.downstream_servers@, i as int).len(),
                forall|k: int|
                    0 <= k < servers@.len() ==> *#[trigger] servers@[k] == enabled_among(
                        self.settings.downstream_servers@,
                        i as int,
                    )[k],
            decreases self.settings.downstream_servers@.len() - i,
        {
            if self.settings.downstream_servers[i].enabled {
                servers.push(&self.settings.downstream_servers[i]);
            }
            i = i + 1;
        }
        servers
    }

    /// Seconds between periodic syncs; `None` where federation is off or no
    /// interval is set.
    pub fn refresh_interval(&self) -> (seconds: Option<u64>)
        ensures
            seconds == if self.model().settings.enabled
                && self.model().settings.catalog_refresh_interval > 0 {
                Some(self.model().settings.catalog_refresh_interval)
            } else {
                None
            },
    {
        if self.settings.enabled && self.settings.catalog_refresh_interval > 0 {
            Some(self.settings.catalog_refresh_interval)
        } else {
            None
        }
    }
}

impl McpFederationManager {
    /// The circuit tracked for backend `server_id`, if it has failed.
    pub fn circuit_state(&self, server_id: &str) -> (state: Option<CircuitState>)
        ensures
            state is Some <==> self.model().circuits.contains_key(server_id@),
            state matches Some(circuit) ==> circuit == self.model().circuits[server_id@],
    {
        circuits_get(&self.failure_tracker, server_id)
    }

    /// The catalog remembered for backend `server_id`, if any.
    pub fn cached_catalog(&self, server_id: &str) -> (entry: Option<ToolCacheEntry>)
        ensures
            entry is Some <==> self.model().cache.contains_key(server_id@),
            entry matches Some(remembered) ==> remembered@ == self.model().cache[server_id@],
    {
        cache_get(&self.tool_cache, server_id)
    }

    /// Hands out the registry's change events emitted since the last call,
    /// oldest first, and forgets them.
    pub fn take_events(&mut self) -> (events: Vec<crate::registry::RegistryChangeEvent>)
        requires
            old(self).wf(),
        ensures
            final(self).wf(),
            Seq::new(events@.len(), |i: int| events@[i]@) == old(self).model().events,
            final(self).model() == (FederationModel {
                events: Seq::empty(),
                ..old(self).model()
            }),
    {
        self.tool_registry.take_events()
    }
}

impl McpFederationManager {
    /// Records a failure of backend `server_id` at `now`, drawing the
    /// jitter of a cooldown. The outcome is that of
    /// [`Self::record_failure_with`] for some jitter within the bound.
    pub fn record_failure(&mut self, server_id: &str, now: u64) -> (opened_for: Option<u64>)
        requires
            old(self).wf(),
        ensures
            final(self).wf(),
            exists|jitter: u64|
                jitter <= jitter_bound(old(self).model().settings) && opened_for == #[trigger] old(
                    self,
                ).model().failure_penalty(server_id@, now, jitter) && final(self).model() == old(
                    self,
                ).model().after_failure(server_id@, now, jitter),
    {
        let jitter = random_jitter(jitter_limit(&self.settings));
        self.record_failure_with(server_id, now, jitter)
    }
}

impl McpFederationManager {
    /// Checks `arguments` against the input schema of the tool `tool_name`,
    /// as [`ToolRegistry::validate_tool_arguments`] does: valid arguments
    /// change nothing, and a violation of the schema is counted.
    pub fn validate_tool_arguments(&mut self, tool_name: &str, arguments: &Value) -> (checked:
        Result<(), Vec<String>>)
        requires
            old(self).wf(),
        ensures
            final(self).wf(),
            final(self).model() == (FederationModel {
                validation_errors: crate::registry::validation_errors_after(
                    old(self).model().catalog,
                    old(self).model().validation_errors,
                    tool_name@,
                    *arguments,
                ),
                ..old(self).model()
            }),
            checked is Ok <==> crate::registry::validates(
                old(self).model().catalog,
                tool_name@,
                *arguments,
            ),
            checked matches Err(messages) ==> messages@.len() >= 1,
    {
        self.tool_registry.validate_tool_arguments(tool_name, arguments)
    }
}

/// A backend and whether its connection is up.
#[derive(Debug, Clone)]
pub struct Link {
    pub server_id: String,
    pub connected: bool,
}

/// Whether a server of the settings has the id.
pub open spec fn is_configured(settings: FederationSettings, id: Seq<char>) -> bool {
    exists|i: int|
        0 <= i < settings.downstream_servers@.len()
            && #[trigger] settings.downstream_servers@[i].id@ == id
}

/// The first server of the settings with the id.
pub open spec fn configured(settings: FederationSettings, id: Seq<char>) -> DownstreamMcpServer {
    settings.downstream_servers@[choose|i: int|
        0 <= i < settings.downstream_servers@.len()
            && #[trigger] settings.downstream_servers@[i].id@ == id && forall|j: int|
            0 <= j < i ==> #[trigger] settings.downstream_servers@[j].id@ != id]
}

/// The places, among the first `upto` links, of those that belong to a
/// configured server.
pub open spec fn configured_links(settings: FederationSettings, links: Seq<Link>, upto: int) -> Seq<
    int,
>
    decreases upto,
{
    if upto <= 0 {
        Seq::empty()
    } else if is_configured(settings, links[upto - 1].server_id@) {
        configured_links(settings, links, upto - 1).push(upto - 1)
    } else {
        configured_links(settings, links, upto - 1)
    }
}

impl McpFederationManager {
    /// What is to be set up at start: the backends to connect, and the
    /// seconds between periodic syncs where a periodic sync is to run.
    pub fn initialize(&self) -> (plan: (Vec<&DownstreamMcpServer>, Option<u64>))
        ensures
            plan.0@.len() == backends_to_connect(self.model().settings).len(),
            forall|k: int|
                0 <= k < plan.0@.len() ==> *#[trigger] plan.0@[k] == backends_to_connect(
                    self.model().settings,
                )[k],
            plan.1 == if self.model().settings.enabled
                && self.model().settings.catalog_refresh_interval > 0 {
                Some(self.model().settings.catalog_refresh_interval)
            } else {
                None
            },
    {
        (self.backends(), self.refresh_interval())
    }

    /// What is shown of the backends linked: one status for each link whose
    /// server is configured, in the order of the links.
    pub fn get_active_servers(&self, links: &Vec<Link>) -> (shown: Vec<ServerStatus>)
        requires
            self.wf(),
        ensures
            shown@.len() == configured_links(
                self.model().settings,
                links@,
                links@.len() as int,
            ).len(),
            forall|k: int|
                0 <= k < shown@.len() ==> shows(
                    #[trigger] shown@[k],
                    configured(
                        self.model().settings,
                        links@[configured_links(
                            self.model().settings,
                            links@,
                            links@.len() as int,
                        )[k]].server_id@,
                    ),
                    links@[configured_links(
                        self.model().settings,
                        links@,
                        links@.len() as int,
                    )[k]].connected,
                    keys_where(
                        self.model().catalog,
                        is_entry_of(
                            links@[configured_links(
                                self.model().settings,
                                links@,
                                links@.len() as int,
                            )[k]].server_id@,
                        ),
                    ).len(),
                ),
    {
        let ghost settings = self.model().settings;
        let mut shown: Vec<ServerStatus> = Vec::new();
        let mut n: usize = 0;
        while n < links.len()
            invariant
                n <= links@.len(),
                self.wf(),
                settings == self.model().settings,
                shown@.len() == configured_links(settings, links@, n as int).len(),
                forall|k: int|
                    0 <= k < shown@.len() ==> shows(
                        #[trigger] shown@[k],
                        configured(
                            settings,
                            links@[configured_links(settings, links@, n as int)[k]].server_id@,
                        ),
                        links@[configured_links(settings, links@, n as int)[k]].connected,
                        keys_where(
                            self.model().catalog,
                            is_entry_of(
                                links@[configured_links(settings, links@, n as int)[k]].server_id@,
                            ),
                        ).len(),
                    ),
            decreases links@.len() - n,
        {
            let ghost earlier = shown@;
            let ghost places = configured_links(settings, links@, n as int);
            if let Some(status) = self.server_status(links[n].server_id.as_str(), links[n].connected) {
                shown.push(status);
                proof {
                    let id = links@[n as int].server_id@;
                    let i = choose|i: int|
                        0 <= i < settings.downstream_servers@.len() && shows(
                            status,
                            #[trigger] settings.downstream_servers@[i],
                            links@[n as int].connected,
                            keys_where(self.model().catalog, is_entry_of(id)).len(),
                        ) && settings.downstream_servers@[i].id@ == id && forall|j: int|
                            0 <= j < i ==> #[trigger] settings.downstream_servers@[j].id@ != id;
                    let first = choose|i: int|
                        0 <= i < settings.downstream_servers@.len()
                            && #[trigger] settings.downstream_servers@[i].id@ == id && forall|
                            j: int,
                        |
                            0 <= j < i ==> #[trigger] settings.downstream_servers@[j].id@ != id;
                    assert(settings.downstream_servers@[i].id@ == id);
                    assert(first == i) by {
                        if first < i {
                            assert(settings.downstream_servers@[first].id@ != id);
                        }
                        if i < first {
                            assert(settings.downstream_servers@[i].id@ != id);
                        }
                    }
                    assert(is_configured(settings, id));
                    assert(configured_links(settings, links@, n + 1) == places.push(n as int));
                    assert forall|k: int| 0 <= k < shown@.len() implies shows(
                        #[trigger] shown@[k],
                        configured(
                            settings,
                            links@[configured_links(settings, links@, n + 1)[k]].server_id@,
                        ),
                        links@[configured_links(settings, links@, n + 1)[k]].connected,
                        keys_where(
                            self.model().catalog,
                            is_entry_of(
                                links@[configured_links(settings, links@, n + 1)[k]].server_id@,
                            ),
                        ).len(),
                    ) by {
                        if k < earlier.len() {
                            assert(shown@[k] == earlier[k]);
                            assert(places.push(n as int)[k] == places[k]);
                        } else {
                            assert(shown@[k] == status);
                            assert(places.push(n as int)[k] == n);
                        }
                    }
                }
            } else {
                assert(!is_configured(settings, links@[n as int].server_id@));
                assert(configured_links(settings, links@, n + 1) == places);
            }
            n = n + 1;
        }
        shown
    }
}

/// Gating a blocked backend does no more than count the skip: its circuit
/// stays as it is, and so do every other circuit, the cache, the catalog
/// and the events.
pub proof fn lemma_blocked_gate_only_counts(model: FederationModel, id: Seq<char>, now: u64)
    requires
        model.is_blocked(id, now),
    ensures
        model.after_gate(id, now).circuits == model.circuits,
        model.after_gate(id, now).cache == model.cache,
        model.after_gate(id, now).catalog == model.catalog,
        model.after_gate(id, now).events == model.events,
        model.after_gate(id, now).metrics == (FederationMetricsView {
            circuit_open_skips: bumped(model.metrics.circuit_open_skips),
            ..model.metrics
        }),
        model.after_gate(id, now).is_blocked(id, now),
{
    assert(model.after_gate(id, now).circuits =~= model.circuits);
}

/// A call that succeeds recovers the backend fully, whatever failed
/// before: its circuit counts no failure and is closed at every time, and
/// one more call is counted as forwarded.
pub proof fn lemma_success_resets_the_backend(
    model: FederationModel,
    id: Seq<char>,
    result: Option<Value>,
    now: u64,
    jitter: u64,
    at: u64,
)
    ensures
        !model.after_call(id, CallOutcome::Completed(result), now, jitter).is_blocked(id, at),
        model.circuits.contains_key(id) ==> model.after_call(
            id,
            CallOutcome::Completed(result),
            now,
            jitter,
        ).circuits[id].failure_count == 0,
        model.after_call(id, CallOutcome::Completed(result), now, jitter).metrics.tool_calls_forwarded
            == bumped(model.metrics.tool_calls_forwarded),
        model.after_call(id, CallOutcome::Completed(result), now, jitter).metrics.federation_errors
            == model.metrics.federation_errors,
{
}

/// A failure that opens the circuit blocks the backend at once: a gate at
/// any time from then until the cooldown ends finds it blocked.
pub proof fn lemma_opened_circuit_blocks(
    model: FederationModel,
    id: Seq<char>,
    now: u64,
    jitter: u64,
    at: u64,
)
    requires
        model.failure_penalty(id, now, jitter) is Some,
        at < cooldown_end(now, model.failure_penalty(id, now, jitter)->0),
    ensures
        model.after_failure(id, now, jitter).is_blocked(id, at),
        model.after_failure(id, now, jitter).retry_after(id, at) == cooldown_end(
            now,
            model.failure_penalty(id, now, jitter)->0,
        ) - at,
{
    crate::circuit::lemma_tripped_circuit_is_open(
        model.circuit_of(id),
        now,
        model.settings,
        jitter,
        at,
    );
}

/// The family a failure belongs to.
#[derive(Debug, Clone, Copy, PartialEq, Eq)]
pub enum ErrorClass {
    /// Handshake, timeout or socket failure.
    Connection,
    /// Malformed JSON-RPC, or an error of the backend's application.
    Protocol,
    /// The circuit is open: a fast failure, not a true failure of the
    /// backend.
    CircuitOpen,
    /// An unknown tool or backend.
    NotFound,
}

/// The family of each kind of failure.
pub open spec fn class_of(kind: ErrorKind) -> ErrorClass {
    match kind {
        ErrorKind::MissingToolName => ErrorClass::Protocol,
        ErrorKind::ToolNotFound => ErrorClass::NotFound,
        ErrorKind::UnknownBackend => ErrorClass::NotFound,
        ErrorKind::NoneConnected => ErrorClass::Connection,
        ErrorKind::NotConnected => ErrorClass::Connection,
        ErrorKind::Transport => ErrorClass::Connection,
        ErrorKind::Downstream => ErrorClass::Protocol,
        ErrorKind::NoToolsData => ErrorClass::Protocol,
        ErrorKind::InvalidToolsFormat => ErrorClass::Protocol,
        ErrorKind::Unserializable => ErrorClass::Protocol,
        ErrorKind::Unfinished => ErrorClass::Connection,
        ErrorKind::CircuitOpen { .. } => ErrorClass::CircuitOpen,
        ErrorKind::CircuitOpened { .. } => ErrorClass::CircuitOpen,
    }
}

impl FederationError {
    /// The family this failure belongs to.
    pub fn class(&self) -> (class: ErrorClass)
        ensures
            class == class_of(self.kind),
    {
        match self.kind {
            ErrorKind::MissingToolName => ErrorClass::Protocol,
            ErrorKind::ToolNotFound => ErrorClass::NotFound,
            ErrorKind::UnknownBackend => ErrorClass::NotFound,
            ErrorKind::NoneConnected => ErrorClass::Connection,
            ErrorKind::NotConnected => ErrorClass::Connection,
            ErrorKind::Transport => ErrorClass::Connection,
            ErrorKind::Downstream => ErrorClass::Protocol,
            ErrorKind::NoToolsData => ErrorClass::Protocol,
            ErrorKind::InvalidToolsFormat => ErrorClass::Protocol,
            ErrorKind::Unserializable => ErrorClass::Protocol,
            ErrorKind::Unfinished => ErrorClass::Connection,
            ErrorKind::CircuitOpen { .. } => ErrorClass::CircuitOpen,
            ErrorKind::CircuitOpened { .. } => ErrorClass::CircuitOpen,
        }
    }
}

/// Failures of the connection and of the backend are the ones recorded
/// against its circuit; a circuit that is open is never itself recorded as
/// a failure.
pub proof fn lemma_open_circuit_is_no_failure(kind: ErrorKind)
    ensures
        is_recorded(kind) ==> class_of(kind) == ErrorClass::Connection || class_of(kind)
            == ErrorClass::Protocol,
        class_of(kind) == ErrorClass::CircuitOpen ==> !is_recorded(kind),
        class_of(kind) == ErrorClass::NotFound ==> !is_recorded(kind),
{
}

/// The threshold reached: with a threshold of three, three failures of a
/// backend in a row, none forgiven in between, leave the first two without
/// effect on the circuit and open it with the third. From then until the
/// cooldown ends the backend is blocked: a call to it is counted as a skip,
/// and no call is counted as forwarded.
pub proof fn lemma_third_failure_opens_and_blocks(
    model: FederationModel,
    id: Seq<char>,
    first: u64,
    second: u64,
    third: u64,
    jitters: (u64, u64, u64),
    at: u64,
)
    requires
        model.well_formed(),
        model.settings.circuit_breaker_threshold == 3,
        model.circuit_of(id).failure_count == 0,
        model.circuit_of(id).last_failure is None,
        first <= second <= third,
        third - first < 1000,
        at < cooldown_end(
            third,
            model.after_failure(id, first, jitters.0).after_failure(
                id,
                second,
                jitters.1,
            ).failure_penalty(id, third, jitters.2)->0,
        ),
    ensures
        model.failure_penalty(id, first, jitters.0) is None,
        model.after_failure(id, first, jitters.0).failure_penalty(id, second, jitters.1) is None,
        model.after_failure(id, first, jitters.0).after_failure(
            id,
            second,
            jitters.1,
        ).failure_penalty(id, third, jitters.2) is Some,
        model.after_failure(id, first, jitters.0).after_failure(id, second, jitters.1).after_failure(
            id,
            third,
            jitters.2,
        ).is_blocked(id, at),
        model.after_failure(id, first, jitters.0).after_failure(id, second, jitters.1).after_failure(
            id,
            third,
            jitters.2,
        ).after_gate(id, at).metrics.tool_calls_forwarded == model.metrics.tool_calls_forwarded,
{
    let m1 = model.after_failure(id, first, jitters.0);
    let m2 = m1.after_failure(id, second, jitters.1);
    let c0 = model.circuit_of(id);
    assert(c0.well_formed());
    crate::circuit::lemma_failures_count_up(c0, first, model.settings, jitters.0);
    let c1 = m1.circuit_of(id);
    assert(c1 == c0.after_failure(first, model.settings, jitters.0));
    crate::circuit::lemma_failures_count_up(c1, second, model.settings, jitters.1);
    let c2 = m2.circuit_of(id);
    assert(c2 == c1.after_failure(second, model.settings, jitters.1));
    crate::circuit::lemma_failures_count_up(c2, third, model.settings, jitters.2);
    lemma_opened_circuit_blocks(m2, id, third, jitters.2, at);
}

/// The third attempt succeeds: with two retries allowed and a threshold
/// above two, two transport failures of a backend are each followed by a
/// retry, and the success of the third attempt is done with its result.
/// Afterwards the backend's circuit counts no failure, has no cooldown and
/// remembers no failure, and one more call is counted as forwarded.
pub proof fn lemma_third_attempt_succeeds(
    model: FederationModel,
    id: Seq<char>,
    words: (String, String),
    result: Value,
    times: (u64, u64, u64),
    jitters: (u64, u64, u64),
    retry_jitters: (u64, u64),
)
    requires
        model.settings.max_retries == 2,
        model.settings.circuit_breaker_threshold > 2,
        model.circuit_of(id).failure_count == 0,
    ensures
        model.steps_to(
            id,
            0,
            CallOutcome::Transport(words.0),
            times.0,
            jitters.0,
            retry_jitters.0,
            ForwardStep::Retry {
                attempt: 1,
                delay_ms: backoff_total(model.settings, 1, retry_jitters.0) as u64,
            },
        ),
        model.after_call(id, CallOutcome::Transport(words.0), times.0, jitters.0).steps_to(
            id,
            1,
            CallOutcome::Transport(words.1),
            times.1,
            jitters.1,
            retry_jitters.1,
            ForwardStep::Retry {
                attempt: 2,
                delay_ms: backoff_total(model.settings, 2, retry_jitters.1) as u64,
            },
        ),
        model.after_call(id, CallOutcome::Transport(words.0), times.0, jitters.0).after_call(
            id,
            CallOutcome::Transport(words.1),
            times.1,
            jitters.1,
        ).steps_to(
            id,
            2,
            CallOutcome::Completed(Some(result)),
            times.2,
            jitters.2,
            0,
            ForwardStep::Done(result),
        ),
        model.after_call(id, CallOutcome::Transport(words.0), times.0, jitters.0).after_call(
            id,
            CallOutcome::Transport(words.1),
            times.1,
            jitters.1,
        ).after_call(id, CallOutcome::Completed(Some(result)), times.2, jitters.2).circuits[id]
            == (CircuitState {
            failure_count: 0,
            last_failure: None,
            open_until: None,
            reset_after: model.circuit_of(id).reset_after,
        }),
        model.after_call(id, CallOutcome::Transport(words.0), times.0, jitters.0).after_call(
            id,
            CallOutcome::Transport(words.1),
            times.1,
            jitters.1,
        ).after_call(
            id,
            CallOutcome::Completed(Some(result)),
            times.2,
            jitters.2,
        ).metrics.tool_calls_forwarded == bumped(model.metrics.tool_calls_forwarded),
{
}

/// A catalog synced twice in a row mutates the registry at most once: when
/// a backend whose circuit is closed is synced with a result, and synced
/// again with the same result before the cache entry expires, the second
/// sync leaves the catalog and the change events exactly as the first left
/// them and reports the same number of tools.
pub proof fn lemma_second_sync_changes_nothing(
    model: FederationModel,
    id: Seq<char>,
    result: Value,
    first: u64,
    second: u64,
    jitters: (u64, u64),
    reported: (Result<usize, FederationError>, Result<usize, FederationError>),
)
    requires
        model.settings.tool_cache_ttl_seconds > 0,
        tools_in(result) is Some,
        catalog_hash(result) is Some,
        !model.is_blocked(id, first),
        second < expiry(first, model.settings),
        sync_reports(model, id, FetchOutcome::Fetched(result), first, reported.0),
        sync_reports(
            model.after_sync(id, FetchOutcome::Fetched(result), first, jitters.0),
            id,
            FetchOutcome::Fetched(result),
            second,
            reported.1,
        ),
    ensures
        model.after_sync(id, FetchOutcome::Fetched(result), first, jitters.0).after_sync(
            id,
            FetchOutcome::Fetched(result),
            second,
            jitters.1,
        ).catalog == model.after_sync(id, FetchOutcome::Fetched(result), first, jitters.0).catalog,
        model.after_sync(id, FetchOutcome::Fetched(result), first, jitters.0).after_sync(
            id,
            FetchOutcome::Fetched(result),
            second,
            jitters.1,
        ).events == model.after_sync(id, FetchOutcome::Fetched(result), first, jitters.0).events,
        reported.0 is Ok,
        reported.1 == reported.0,
{
    let gated = model.after_gate(id, first);
    lemma_unchanged_catalog_syncs_once(gated, id, result, first, second);
}

/// A round over three backends, one with its circuit open, one healthy and
/// one not connected: the open one is skipped and counted as a skip, the
/// healthy one contributes its tools, and the failure of the third is
/// counted exactly once.
pub proof fn lemma_round_counts_the_failure_once(
    model: FederationModel,
    backends: (Seq<char>, Seq<char>, Seq<char>),
    result: Value,
    now: u64,
    jitters: (u64, u64, u64),
    offered: FetchOutcome,
    synced: (
        Result<usize, FederationError>,
        Result<usize, FederationError>,
        Result<usize, FederationError>,
    ),
    finished_at: u64,
    duration_ms: u64,
)
    requires
        backends.0 != backends.1,
        backends.0 != backends.2,
        backends.1 != backends.2,
        model.is_blocked(backends.0, now),
        !model.is_blocked(backends.1, now),
        !model.is_blocked(backends.2, now),
        tools_in(result) is Some,
        catalog_hash(result) is Some,
        sync_reports(model, backends.0, offered, now, synced.0),
        sync_reports(
            model.after_sync(backends.0, offered, now, jitters.0),
            backends.1,
            FetchOutcome::Fetched(result),
            now,
            synced.1,
        ),
        sync_reports(
            model.after_sync(backends.0, offered, now, jitters.0).after_sync(
                backends.1,
                FetchOutcome::Fetched(result),
                now,
                jitters.1,
            ),
            backends.2,
            FetchOutcome::NotConnected,
            now,
            synced.2,
        ),
    ensures
        synced.0 == Ok::<usize, FederationError>(0),
        synced.1 is Ok,
        synced.2 is Err,
        sync_report(seq![synced.0, synced.1, synced.2]).total_tools == synced.1->Ok_0,
        sync_report(seq![synced.0, synced.1, synced.2]).errors == 1,
        model.after_sync(backends.0, offered, now, jitters.0).after_sync(
            backends.1,
            FetchOutcome::Fetched(result),
            now,
            jitters.1,
        ).after_sync(backends.2, FetchOutcome::NotConnected, now, jitters.2).after_sync_round(
            seq![synced.0, synced.1, synced.2],
            finished_at,
            duration_ms,
        ).metrics.federation_errors == bumped(model.metrics.federation_errors),
        model.after_sync(backends.0, offered, now, jitters.0).after_sync(
            backends.1,
            FetchOutcome::Fetched(result),
            now,
            jitters.1,
        ).after_sync(backends.2, FetchOutcome::NotConnected, now, jitters.2).after_sync_round(
            seq![synced.0, synced.1, synced.2],
            finished_at,
            duration_ms,
        ).metrics.circuit_open_skips == bumped(model.metrics.circuit_open_skips),
{
    let results = seq![synced.0, synced.1, synced.2];
    reveal_with_fuel(tools_among, 4);
    reveal_with_fuel(errors_among, 4);
    reveal_with_fuel(unrecorded_among, 4);
    let m1 = model.after_sync(backends.0, offered, now, jitters.0);
    assert(m1 == model.after_gate(backends.0, now));
    assert(!m1.is_blocked(backends.1, now));
    let m2 = m1.after_sync(backends.1, FetchOutcome::Fetched(result), now, jitters.1);
    assert(!m2.is_blocked(backends.2, now));
}

/// A sync that finds its catalog remembered leaves the registry alone:
/// when the backend's circuit is closed and the fetched catalog is a live
/// entry of the cache, the catalog and the change events stay exactly as
/// they are, no event is emitted, and the remembered number of tools is
/// reported.
pub proof fn lemma_remembered_catalog_leaves_registry_alone(
    model: FederationModel,
    id: Seq<char>,
    result: Value,
    now: u64,
    jitter: u64,
    reported: Result<usize, FederationError>,
)
    requires
        tools_in(result) is Some,
        catalog_hash(result) is Some,
        !model.is_blocked(id, now),
        is_cache_hit(model.cache, id, catalog_hash(result)->0, now, model.settings),
        sync_reports(model, id, FetchOutcome::Fetched(result), now, reported),
    ensures
        model.after_sync(id, FetchOutcome::Fetched(result), now, jitter).catalog == model.catalog,
        model.after_sync(id, FetchOutcome::Fetched(result), now, jitter).events == model.events,
        model.after_sync(id, FetchOutcome::Fetched(result), now, jitter).validation_errors
            == model.validation_errors,
        reported == Ok::<usize, FederationError>(model.cache[id].tool_count),
        model.after_sync(id, FetchOutcome::Fetched(result), now, jitter).cache[id] == (
        ToolCacheEntryView { expires_at: expiry(now, model.settings), ..model.cache[id] }),
{
}

} // verus!
