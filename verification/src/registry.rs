//! The shared catalog of tool specifications, local and federated.

use crate::builtin::{
    ORCHESTRATE_NAME,
    ORCHESTRATE_DESCRIPTION,
    ORCHESTRATE_INPUT_SCHEMA,
    ORCHESTRATE_OUTPUT_SCHEMA,
    ORCHESTRATE_VERSION,
    ORCHESTRATE_METADATA,
    DISCOVER_NAME,
    DISCOVER_DESCRIPTION,
    DISCOVER_INPUT_SCHEMA,
    DISCOVER_OUTPUT_SCHEMA,
    DISCOVER_VERSION,
    DISCOVER_METADATA,
    EXA_SEARCH_NAME,
    EXA_SEARCH_DESCRIPTION,
    EXA_SEARCH_INPUT_SCHEMA,
    EXA_SEARCH_OUTPUT_SCHEMA,
    EXA_SEARCH_VERSION,
    EXA_SEARCH_METADATA,
    EXA_RESEARCH_NAME,
    EXA_RESEARCH_DESCRIPTION,
    EXA_RESEARCH_INPUT_SCHEMA,
    EXA_RESEARCH_OUTPUT_SCHEMA,
    EXA_RESEARCH_VERSION,
    EXA_RESEARCH_METADATA,
};
use crate::digest::{sha256_hex, sha256_hex_of};
use crate::json::{
    check_against_schema, encode, is_checkable, json_bytes, json_parsed, parse, schema_accepts,
    schema_compiles, schema_is_checkable, SchemaCheck,
};
use crate::counter::{bump, bumped};
use crate::snapshot::{count_among, entry_keys, entry_values, keys_where, lemma_count_of_snapshot, lemma_size_of_snapshot, lists};
use dashmap::DashMap;
use serde_json::Value;
use vstd::prelude::*;
use vstd::string::{StrSliceExecFns, StringExecFns};
use vstd::utf8::encode_utf8;

verus! {

/// Where a tool specification comes from.
#[derive(Debug, Clone)]
pub enum ToolSource {
    Local,
    Federated { server_id: String, server_url: String },
}

pub enum ToolSourceView {
    Local,
    Federated { server_id: Seq<char>, server_url: Seq<char> },
}

impl View for ToolSource {
    type V = ToolSourceView;

    open spec fn view(&self) -> ToolSourceView {
        match self {
            ToolSource::Local => ToolSourceView::Local,
            ToolSource::Federated { server_id, server_url } => ToolSourceView::Federated {
                server_id: server_id@,
                server_url: server_url@,
            },
        }
    }
}

/// The identifier under which locally provided tools are addressed.
pub open spec fn local_source_id() -> Seq<char> {
    "local"@
}

impl ToolSourceView {
    /// Whether the source is the one addressed by `id`: the backend of that
    /// id, or the local source for [`local_source_id`].
    pub open spec fn is_source(self, id: Seq<char>) -> bool {
        match self {
            ToolSourceView::Local => id == local_source_id(),
            ToolSourceView::Federated { server_id, .. } => server_id == id,
        }
    }
}

/// One tool: an immutable snapshot, replaced as a whole on update.
#[derive(Debug, Clone)]
pub struct ToolSpec {
    pub name: String,
    pub description: String,
    pub input_schema: Value,
    pub output_schema: Option<Value>,
    pub source: ToolSource,
    pub spec_version: String,
    pub spec_hash: String,
    /// Milliseconds since the Unix epoch.
    pub last_updated: u64,
    pub metadata: Value,
}

pub struct ToolSpecView {
    pub name: Seq<char>,
    pub description: Seq<char>,
    pub input_schema: Value,
    pub output_schema: Option<Value>,
    pub source: ToolSourceView,
    pub spec_version: Seq<char>,
    pub spec_hash: Seq<char>,
    pub last_updated: u64,
    pub metadata: Value,
}

impl View for ToolSpec {
    type V = ToolSpecView;

    open spec fn view(&self) -> ToolSpecView {
        ToolSpecView {
            name: self.name@,
            description: self.description@,
            input_schema: self.input_schema,
            output_schema: self.output_schema,
            source: self.source@,
            spec_version: self.spec_version@,
            spec_hash: self.spec_hash@,
            last_updated: self.last_updated,
            metadata: self.metadata,
        }
    }
}

/// The bytes a tool's content hash is taken over: the input schema, the
/// output schema where there is one, the name and the description.
pub open spec fn hashed_bytes(
    name: Seq<char>,
    description: Seq<char>,
    input_schema: Value,
    output_schema: Option<Value>,
) -> Seq<u8> {
    json_bytes(input_schema) + (match output_schema {
        Some(schema) => json_bytes(schema),
        None => Seq::empty(),
    }) + encode_utf8(name) + encode_utf8(description)
}

/// The content hash of a tool: a function of its name, description, input
/// schema and output schema, and of nothing else.
pub open spec fn content_hash(
    name: Seq<char>,
    description: Seq<char>,
    input_schema: Value,
    output_schema: Option<Value>,
) -> Seq<char> {
    sha256_hex(hashed_bytes(name, description, input_schema, output_schema))
}

impl ToolSpecView {
    pub open spec fn content_hash(self) -> Seq<char> {
        content_hash(self.name, self.description, self.input_schema, self.output_schema)
    }

    /// The snapshot that is stored for this tool at `now`: the same tool
    /// with its content hash and the time stamped in.
    pub open spec fn stamped(self, now: u64) -> ToolSpecView {
        ToolSpecView { spec_hash: self.content_hash(), last_updated: now, ..self }
    }
}

/// Computes the content hash of a tool.
pub fn compute_tool_hash(tool: &ToolSpec) -> (hash: String)
    ensures
        hash@ == tool@.content_hash(),
        hash@.len() == 64,
{
    let mut buffer: Vec<u8> = Vec::new();
    if let Some(mut bytes) = encode(&tool.input_schema) {
        buffer.append(&mut bytes);
    }
    if let Some(schema) = &tool.output_schema {
        if let Some(mut bytes) = encode(schema) {
            buffer.append(&mut bytes);
        }
    }
    let mut name_bytes = tool.name.as_str().as_bytes_vec();
    buffer.append(&mut name_bytes);
    let mut description_bytes = tool.description.as_str().as_bytes_vec();
    buffer.append(&mut description_bytes);
    assert(buffer@ =~= hashed_bytes(
        tool@.name,
        tool@.description,
        tool@.input_schema,
        tool@.output_schema,
    ));
    sha256_hex_of(buffer.as_slice())
}

/// Registration is deterministic in the content hash: two tools that agree
/// on name, description, input schema and output schema are stored with the
/// same hash, whatever else differs and whenever they are registered.
pub proof fn lemma_content_hash_deterministic(
    a: ToolSpecView,
    b: ToolSpecView,
    registered_a: u64,
    registered_b: u64,
)
    requires
        a.name == b.name,
        a.description == b.description,
        a.input_schema == b.input_schema,
        a.output_schema == b.output_schema,
    ensures
        a.content_hash() == b.content_hash(),
        a.stamped(registered_a).spec_hash == b.stamped(registered_b).spec_hash,
{
}

/// A change to the catalog, for listeners.
#[derive(Debug, Clone)]
pub enum RegistryChangeEvent {
    ToolAdded(String),
    ToolUpdated(String),
    ToolRemoved(String),
    SourceAdded(String),
    SourceRemoved(String),
}

pub enum RegistryChangeEventView {
    ToolAdded(Seq<char>),
    ToolUpdated(Seq<char>),
    ToolRemoved(Seq<char>),
    SourceAdded(Seq<char>),
    SourceRemoved(Seq<char>),
}

impl View for RegistryChangeEvent {
    type V = RegistryChangeEventView;

    open spec fn view(&self) -> RegistryChangeEventView {
        match self {
            RegistryChangeEvent::ToolAdded(name) => RegistryChangeEventView::ToolAdded(name@),
            RegistryChangeEvent::ToolUpdated(name) => RegistryChangeEventView::ToolUpdated(name@),
            RegistryChangeEvent::ToolRemoved(name) => RegistryChangeEventView::ToolRemoved(name@),
            RegistryChangeEvent::SourceAdded(id) => RegistryChangeEventView::SourceAdded(id@),
            RegistryChangeEvent::SourceRemoved(id) => RegistryChangeEventView::SourceRemoved(id@),
        }
    }
}

/// Counters of the registry.
#[derive(Debug, Clone, Copy)]
pub struct RegistryMetrics {
    pub total_tools: usize,
    pub local_tools: usize,
    pub federated_tools: usize,
    pub schema_validation_errors: u64,
    /// Milliseconds since the Unix epoch.
    pub last_federation_sync: Option<u64>,
    pub federation_failures: u64,
}

/// The tools a registry holds, by name.
pub uninterp spec fn tools_held(tools: DashMap<String, ToolSpec>) -> Map<Seq<char>, ToolSpec>;

pub open spec fn no_tools() -> Map<Seq<char>, ToolSpec> {
    Map::empty()
}

/// `DashMap::new`: a map that holds nothing.
#[verifier::external_body]
fn tools_new() -> (tools: DashMap<String, ToolSpec>)
    ensures
        tools_held(tools) == no_tools(),
{
    DashMap::new()
}

/// `DashMap::contains_key`.
#[verifier::external_body]
fn tools_contain(tools: &DashMap<String, ToolSpec>, name: &str) -> (held: bool)
    ensures
        held == tools_held(*tools).contains_key(name@),
{
    tools.contains_key(name)
}

/// `DashMap::get`, the tool copied out.
#[verifier::external_body]
fn tools_get(tools: &DashMap<String, ToolSpec>, name: &str) -> (found: Option<ToolSpec>)
    ensures
        found is Some <==> tools_held(*tools).contains_key(name@),
        found matches Some(tool) ==> tools_held(*tools)[name@] == tool,
{
    tools.get(name).map(|entry| entry.value().clone())
}

/// `DashMap::insert`: the entry under the key is added or replaced, the
/// others stay.
#[verifier::external_body]
fn tools_insert(tools: &mut DashMap<String, ToolSpec>, name: String, tool: ToolSpec)
    ensures
        tools_held(*final(tools)) == tools_held(*old(tools)).insert(name@, tool),
{
    tools.insert(name, tool);
}

/// `DashMap::remove`: the entry under the key leaves and is returned, the
/// others stay.
#[verifier::external_body]
fn tools_remove(tools: &mut DashMap<String, ToolSpec>, name: &str) -> (removed: Option<ToolSpec>)
    ensures
        tools_held(*final(tools)) == tools_held(*old(tools)).remove(name@),
        removed is Some <==> tools_held(*old(tools)).contains_key(name@),
        removed matches Some(tool) ==> tools_held(*old(tools))[name@] == tool,
{
    tools.remove(name).map(|(_, tool)| tool)
}

/// `DashMap::iter`, each entry copied out: every entry once, in no
/// particular order.
#[verifier::external_body]
fn tools_entries(tools: &DashMap<String, ToolSpec>) -> (entries: Vec<(String, ToolSpec)>)
    ensures
        lists(entries@, tools_held(*tools)),
{
    tools.iter().map(|entry| (entry.key().clone(), entry.value().clone())).collect()
}

pub open spec fn is_local_entry() -> spec_fn(Seq<char>, ToolSpecView) -> bool {
    |name: Seq<char>, tool: ToolSpecView| tool.source is Local
}

pub open spec fn is_entry_of(id: Seq<char>) -> spec_fn(Seq<char>, ToolSpecView) -> bool {
    |name: Seq<char>, tool: ToolSpecView| tool.source.is_source(id)
}

/// The catalog without the tools of one source.
pub open spec fn without_source(
    catalog: Map<Seq<char>, ToolSpecView>,
    id: Seq<char>,
) -> Map<Seq<char>, ToolSpecView> {
    catalog.remove_keys(keys_where(catalog, is_entry_of(id)))
}

/// The registry: the catalog of all tools by name, the counters, and the
/// change events not yet handed to listeners.
pub struct ToolRegistry {
    tools: DashMap<String, ToolSpec>,
    metrics: RegistryMetrics,
    events: Vec<RegistryChangeEvent>,
}

impl ToolRegistry {
    /// The catalog: each tool's snapshot under its name.
    pub closed spec fn catalog(&self) -> Map<Seq<char>, ToolSpecView> {
        Map::new(
            |name: Seq<char>| tools_held(self.tools).contains_key(name),
            |name: Seq<char>| tools_held(self.tools)[name]@,
        )
    }

    /// The change events emitted and not yet taken, oldest first.
    pub closed spec fn pending_events(&self) -> Seq<RegistryChangeEventView> {
        Seq::new(self.events@.len(), |i: int| self.events@[i]@)
    }

    pub closed spec fn counters(&self) -> RegistryMetrics {
        self.metrics
    }

    /// Every tool is stored under its own name.
    pub closed spec fn names_match(&self) -> bool {
        forall|name: Seq<char>| #[trigger]
            self.catalog().contains_key(name) ==> self.catalog()[name].name == name
    }

    /// Every tool is stored under its own name, and the tool counters count
    /// the catalog.
    pub closed spec fn wf(&self) -> bool {
        &&& self.names_match()
        &&& self.catalog().dom().finite()
        &&& self.metrics.total_tools == self.catalog().dom().len()
        &&& self.metrics.local_tools == keys_where(self.catalog(), is_local_entry()).len()
        &&& self.metrics.federated_tools == self.metrics.total_tools - self.metrics.local_tools
    }

    /// The tool counters count the catalog: all tools, the local ones, and
    /// the federated ones.
    pub open spec fn counts_catalog(&self) -> bool {
        &&& self.catalog().dom().finite()
        &&& self.counters().total_tools == self.catalog().dom().len()
        &&& self.counters().local_tools == keys_where(self.catalog(), is_local_entry()).len()
        &&& self.counters().federated_tools == self.counters().total_tools
            - self.counters().local_tools
    }

    /// What well-formedness says of the counters.
    pub proof fn lemma_counters_count_catalog(&self)
        requires
            self.wf(),
        ensures
            self.counts_catalog(),
            forall|name: Seq<char>| #[trigger]
                self.catalog().contains_key(name) ==> self.catalog()[name].name == name,
    {
    }

    /// An empty registry.
    pub fn new() -> (registry: ToolRegistry)
        ensures
            registry.wf(),
            registry.counts_catalog(),
            registry.catalog() == Map::<Seq<char>, ToolSpecView>::empty(),
            registry.pending_events() == Seq::<RegistryChangeEventView>::empty(),
            registry.counters().schema_validation_errors == 0,
            registry.counters().federation_failures == 0,
            registry.counters().last_federation_sync is None,
    {
        let registry = ToolRegistry {
            tools: tools_new(),
            metrics: RegistryMetrics {
                total_tools: 0,
                local_tools: 0,
                federated_tools: 0,
                schema_validation_errors: 0,
                last_federation_sync: None,
                federation_failures: 0,
            },
            events: Vec::new(),
        };
        assert(registry.catalog() =~= Map::<Seq<char>, ToolSpecView>::empty());
        assert(keys_where(registry.catalog(), is_local_entry()) =~= Set::empty());
        assert(registry.pending_events() =~= Seq::<RegistryChangeEventView>::empty());
        registry
    }

    /// The snapshot stored under `name`, if any.
    pub fn get_tool(&self, name: &str) -> (found: Option<ToolSpec>)
        ensures
            found is Some <==> self.catalog().contains_key(name@),
            found matches Some(tool) ==> tool@ == self.catalog()[name@],
    {
        tools_get(&self.tools, name)
    }

    /// The counters.
    pub fn get_metrics(&self) -> (metrics: RegistryMetrics)
        ensures
            metrics == self.counters(),
    {
        self.metrics
    }
}

pub open spec fn entry_views(entries: Seq<(String, ToolSpec)>) -> Seq<ToolSpecView> {
    Seq::new(entries.len(), |i: int| entries[i].1@)
}

pub open spec fn tool_names(tools: Seq<ToolSpec>) -> Seq<Seq<char>> {
    Seq::new(tools.len(), |i: int| tools[i]@.name)
}

pub open spec fn tool_views(tools: Seq<ToolSpec>) -> Seq<ToolSpecView> {
    Seq::new(tools.len(), |i: int| tools[i]@)
}

/// The message for a tool that the catalog does not hold.
pub open spec fn not_found_message(name: Seq<char>) -> Seq<char> {
    "Tool '"@ + name + "' not found in registry"@
}

/// The message for a tool whose input schema does not compile, `detail`
/// being the compiler's words.
pub open spec fn bad_schema_message(name: Seq<char>, detail: Seq<char>) -> Seq<char> {
    "Invalid JSON schema for tool '"@ + name + "': "@ + detail
}

/// What is said of a schema that cannot be checked against.
pub open spec fn uncheckable_detail() -> Seq<char> {
    "the schema holds a reference or nests too deep"@
}

/// Whether the arguments of a call are valid: the tool is held, its input
/// schema can be checked against and compiles, and the arguments satisfy
/// it.
pub open spec fn validates(
    catalog: Map<Seq<char>, ToolSpecView>,
    name: Seq<char>,
    arguments: Value,
) -> bool {
    &&& catalog.contains_key(name)
    &&& schema_is_checkable(catalog[name].input_schema)
    &&& schema_compiles(catalog[name].input_schema)
    &&& schema_accepts(catalog[name].input_schema, arguments)
}

/// The count of schema violations after a call's arguments were checked:
/// one more when the schema could be checked against, compiled, and the
/// arguments violate it.
pub open spec fn validation_errors_after(
    catalog: Map<Seq<char>, ToolSpecView>,
    count: u64,
    name: Seq<char>,
    arguments: Value,
) -> u64 {
    if catalog.contains_key(name) && schema_is_checkable(catalog[name].input_schema)
        && schema_compiles(catalog[name].input_schema) && !schema_accepts(
        catalog[name].input_schema,
        arguments,
    ) {
        bumped(count)
    } else {
        count
    }
}

/// Whether `source` is the one addressed by `id`.
pub fn source_is(source: &ToolSource, id: &str) -> (same: bool)
    ensures
        same == source@.is_source(id@),
{
    let wanted = id.to_owned();
    match source {
        ToolSource::Local => wanted == "local".to_owned(),
        ToolSource::Federated { server_id, .. } => *server_id == wanted,
    }
}

impl ToolRegistry {
    proof fn lemma_snapshot_views(&self, entries: Seq<(String, ToolSpec)>)
        requires
            lists(entries, tools_held(self.tools)),
        ensures
            crate::snapshot::enumerates(entry_keys(entries), entry_views(entries), self.catalog()),
    {
        let keys = entry_keys(entries);
        let raw = entry_values(entries);
        let held = tools_held(self.tools);
        assert forall|i: int| 0 <= i < keys.len() implies self.catalog().contains_key(
            #[trigger] keys[i],
        ) && self.catalog()[keys[i]] == entry_views(entries)[i] by {
            assert(held.contains_key(keys[i]) && held[keys[i]] == raw[i]);
        }
        assert forall|k: Seq<char>| #[trigger] self.catalog().contains_key(k) implies exists|
            i: int,
        |
            0 <= i < keys.len() && keys[i] == k by {
            assert(held.contains_key(k));
        }
    }

    fn refresh_metrics(&mut self)
        requires
            old(self).names_match(),
        ensures
            final(self).wf(),
            final(self).catalog() == old(self).catalog(),
            final(self).pending_events() == old(self).pending_events(),
            final(self).counters().schema_validation_errors == old(
                self,
            ).counters().schema_validation_errors,
            final(self).counters().federation_failures == old(self).counters().federation_failures,
            final(self).counters().last_federation_sync == old(
                self,
            ).counters().last_federation_sync,
    {
        let entries = tools_entries(&self.tools);
        let total = entries.len();
        let ghost keys = entry_keys(entries@);
        let ghost views = entry_views(entries@);
        proof {
            self.lemma_snapshot_views(entries@);
            lemma_size_of_snapshot(keys, views, self.catalog());
            lemma_count_of_snapshot(keys, views, self.catalog(), is_local_entry());
        }
        let mut local: usize = 0;
        let mut i: usize = 0;
        while i < total
            invariant
                i <= total,
                total == entries@.len(),
                keys == entry_keys(entries@),
                views == entry_views(entries@),
                local == count_among(keys, views, is_local_entry(), i as int),
                local <= i,
            decreases total - i,
        {
            if let ToolSource::Local = entries[i].1.source {
                local = local + 1;
            }
            i = i + 1;
        }
        self.metrics.total_tools = total;
        self.metrics.local_tools = local;
        self.metrics.federated_tools = total - local;
    }

    /// Stores `tool` under its name, with its content hash and `now`
    /// stamped in, replacing what was stored under that name. Emits
    /// `ToolUpdated` when the name was held, `ToolAdded` when it was not.
    pub fn register_tool(&mut self, tool: ToolSpec, now: u64)
        requires
            old(self).wf(),
        ensures
            final(self).wf(),
            final(self).counts_catalog(),
            final(self).catalog() == old(self).catalog().insert(tool@.name, tool@.stamped(now)),
            final(self).catalog()[tool@.name].spec_hash.len() == 64,
            final(self).pending_events() == old(self).pending_events().push(
                if old(self).catalog().contains_key(tool@.name) {
                    RegistryChangeEventView::ToolUpdated(tool@.name)
                } else {
                    RegistryChangeEventView::ToolAdded(tool@.name)
                },
            ),
            final(self).counters().schema_validation_errors == old(
                self,
            ).counters().schema_validation_errors,
            final(self).counters().federation_failures == old(self).counters().federation_failures,
            final(self).counters().last_federation_sync == old(
                self,
            ).counters().last_federation_sync,
    {
        let name = tool.name.clone();
        let is_update = tools_contain(&self.tools, name.as_str());
        let hash = compute_tool_hash(&tool);
        let ghost given = tool@;
        let mut stored = tool;
        stored.spec_hash = hash;
        stored.last_updated = now;
        assert(stored@ == given.stamped(now));
        tools_insert(&mut self.tools, name.clone(), stored);
        assert(self.catalog() =~= old(self).catalog().insert(given.name, given.stamped(now)));
        self.refresh_metrics();
        let event = if is_update {
            RegistryChangeEvent::ToolUpdated(name)
        } else {
            RegistryChangeEvent::ToolAdded(name)
        };
        self.events.push(event);
        assert(self.pending_events() =~= old(self).pending_events().push(event@));
    }

    /// Removes the tool stored under `name` and returns it. Emits
    /// `ToolRemoved` when there was one.
    pub fn remove_tool(&mut self, name: &str) -> (removed: Option<ToolSpec>)
        requires
            old(self).wf(),
        ensures
            final(self).wf(),
            final(self).counts_catalog(),
            final(self).catalog() == old(self).catalog().remove(name@),
            removed is Some <==> old(self).catalog().contains_key(name@),
            removed matches Some(tool) ==> tool@ == old(self).catalog()[name@],
            final(self).pending_events() == if removed is Some {
                old(self).pending_events().push(RegistryChangeEventView::ToolRemoved(name@))
            } else {
                old(self).pending_events()
            },
            final(self).counters().schema_validation_errors == old(
                self,
            ).counters().schema_validation_errors,
    {
        let removed = tools_remove(&mut self.tools, name);
        assert(self.catalog() =~= old(self).catalog().remove(name@));
        if removed.is_some() {
            self.refresh_metrics();
            let event = RegistryChangeEvent::ToolRemoved(name.to_owned());
            self.events.push(event);
            assert(self.pending_events() =~= old(self).pending_events().push(event@));
        } else {
            assert(self.catalog() =~= old(self).catalog());
        }
        removed
    }

    /// Hands out the change events emitted since the last call, oldest
    /// first, and forgets them.
    pub fn take_events(&mut self) -> (events: Vec<RegistryChangeEvent>)
        ensures
            Seq::new(events@.len(), |i: int| events@[i]@) == old(self).pending_events(),
            final(self).pending_events() == Seq::<RegistryChangeEventView>::empty(),
            final(self).catalog() == old(self).catalog(),
            final(self).counters() == old(self).counters(),
            old(self).wf() ==> final(self).wf(),
    {
        let mut taken: Vec<RegistryChangeEvent> = Vec::new();
        std::mem::swap(&mut taken, &mut self.events);
        assert(self.pending_events() =~= Seq::<RegistryChangeEventView>::empty());
        assert(Seq::new(taken@.len(), |i: int| taken@[i]@) =~= old(self).pending_events());
        taken
    }
}

/// The first `upto` names, as a set.
pub open spec fn names_upto(names: Seq<String>, upto: int) -> Set<Seq<char>> {
    Set::new(|k: Seq<char>| exists|n: int| 0 <= n < upto && #[trigger] names[n]@ == k)
}

impl ToolRegistry {
    /// Removes every tool whose source is the one addressed by `server_id`
    /// and leaves every other tool as it was. Returns the names removed,
    /// each once. Emits `SourceRemoved` when anything was removed.
    pub fn remove_tools_from_source(&mut self, server_id: &str) -> (removed: Vec<String>)
        requires
            old(self).wf(),
        ensures
            final(self).wf(),
            final(self).counts_catalog(),
            final(self).catalog() == without_source(old(self).catalog(), server_id@),
            names_upto(removed@, removed@.len() as int) == keys_where(
                old(self).catalog(),
                is_entry_of(server_id@),
            ),
            forall|m: int, n: int| 0 <= m < n < removed@.len() ==> removed@[m]@ != removed@[n]@,
            final(self).pending_events() == if removed@.len() > 0 {
                old(self).pending_events().push(RegistryChangeEventView::SourceRemoved(server_id@))
            } else {
                old(self).pending_events()
            },
            final(self).counters().schema_validation_errors == old(
                self,
            ).counters().schema_validation_errors,
            final(self).counters().federation_failures == old(self).counters().federation_failures,
            final(self).counters().last_federation_sync == old(
                self,
            ).counters().last_federation_sync,
    {
        let entries = tools_entries(&self.tools);
        let ghost keys = entry_keys(entries@);
        let ghost views = entry_views(entries@);
        let ghost before = self.catalog();
        let ghost held_before = tools_held(self.tools);
        let ghost wanted = is_entry_of(server_id@);
        proof {
            self.lemma_snapshot_views(entries@);
        }
        let mut names: Vec<String> = Vec::new();
        let ghost mut picked: Seq<int> = Seq::empty();
        let mut i: usize = 0;
        while i < entries.len()
            invariant
                i <= entries@.len(),
                keys == entry_keys(entries@),
                views == entry_views(entries@),
                wanted == is_entry_of(server_id@),
                picked.len() == names@.len(),
                forall|n: int|
                    0 <= n < picked.len() ==> 0 <= #[trigger] picked[n] < i && names@[n]@
                        == keys[picked[n]] && wanted(keys[picked[n]], views[picked[n]]),
                forall|m: int, n: int| 0 <= m < n < picked.len() ==> picked[m] < picked[n],
                forall|j: int|
                    0 <= j < i && wanted(keys[j], #[trigger] views[j]) ==> exists|n: int|
                        0 <= n < picked.len() && picked[n] == j,
            decreases entries@.len() - i,
        {
            if source_is(&entries[i].1.source, server_id) {
                names.push(entries[i].0.clone());
                proof {
                    let earlier = picked;
                    picked = picked.push(i as int);
                    assert forall|j: int|
                        0 <= j < i + 1 && wanted(keys[j], #[trigger] views[j]) implies exists|
                        n: int,
                    |
                        0 <= n < picked.len() && picked[n] == j by {
                        if j == i {
                            assert(picked[picked.len() - 1] == j);
                        } else {
                            let n = choose|n: int| 0 <= n < earlier.len() && earlier[n] == j;
                            assert(picked[n] == earlier[n]);
                        }
                    }
                }
            }
            i = i + 1;
        }
        proof {
            assert forall|m: int, n: int| 0 <= m < n < names@.len() implies names@[m]@
                != names@[n]@ by {
                assert(picked[m] < picked[n]);
                assert(keys[picked[m]] != keys[picked[n]]);
            }
            assert(names_upto(names@, names@.len() as int) =~= keys_where(before, wanted)) by {
                assert forall|k: Seq<char>|
                    names_upto(names@, names@.len() as int).contains(k) implies keys_where(
                    before,
                    wanted,
                ).contains(k) by {
                    let n = choose|n: int| 0 <= n < names@.len() && #[trigger] names@[n]@ == k;
                    let j = picked[n];
                    assert(before.contains_key(keys[j]) && before[keys[j]] == views[j]);
                }
                assert forall|k: Seq<char>|
                    keys_where(before, wanted).contains(k) implies names_upto(
                    names@,
                    names@.len() as int,
                ).contains(k) by {
                    let j = choose|j: int| 0 <= j < keys.len() && keys[j] == k;
                    assert(before.contains_key(keys[j]) && before[keys[j]] == views[j]);
                    let n = choose|n: int| 0 <= n < picked.len() && picked[n] == j;
                    assert(names@[n]@ == k);
                }
            }
        }
        let mut n: usize = 0;
        while n < names.len()
            invariant
                n <= names@.len(),
                tools_held(self.tools) == held_before.remove_keys(names_upto(names@, n as int)),
                self.events == old(self).events,
                self.metrics == old(self).metrics,
            decreases names@.len() - n,
        {
            let ghost held_now = tools_held(self.tools);
            tools_remove(&mut self.tools, names[n].as_str());
            proof {
                assert(names_upto(names@, n + 1) =~= names_upto(names@, n as int).insert(
                    names@[n as int]@,
                )) by {
                    assert forall|k: Seq<char>|
                        names_upto(names@, n as int).insert(names@[n as int]@).contains(
                            k,
                        ) implies names_upto(names@, n + 1).contains(k) by {
                        if k == names@[n as int]@ {
                            assert(names@[n as int]@ == k);
                        } else {
                            let m = choose|m: int| 0 <= m < n && #[trigger] names@[m]@ == k;
                            assert(names@[m]@ == k);
                        }
                    }
                }
                assert(tools_held(self.tools) =~= held_before.remove_keys(
                    names_upto(names@, n + 1),
                ));
            }
            n = n + 1;
        }
        proof {
            assert(self.catalog() =~= without_source(before, server_id@));
            assert(self.names_match());
        }
        self.refresh_metrics();
        if names.len() > 0 {
            let event = RegistryChangeEvent::SourceRemoved(server_id.to_owned());
            self.events.push(event);
            assert(self.pending_events() =~= old(self).pending_events().push(event@));
        }
        names
    }

    /// Every tool of the catalog, each once, in no particular order.
    pub fn get_all_tools(&self) -> (tools: Vec<ToolSpec>)
        requires
            self.wf(),
        ensures
            crate::snapshot::enumerates(tool_names(tools@), tool_views(tools@), self.catalog()),
            tools@.len() == self.catalog().dom().len(),
    {
        let entries = tools_entries(&self.tools);
        let ghost keys = entry_keys(entries@);
        let ghost views = entry_views(entries@);
        proof {
            self.lemma_snapshot_views(entries@);
            lemma_size_of_snapshot(keys, views, self.catalog());
        }
        let mut tools: Vec<ToolSpec> = Vec::new();
        let mut i: usize = 0;
        while i < entries.len()
            invariant
                i <= entries@.len(),
                tools@.len() == i,
                forall|j: int| 0 <= j < i ==> #[trigger] tools@[j] == entries@[j].1,
            decreases entries@.len() - i,
        {
            tools.push(clone_tool(&entries[i].1));
            i = i + 1;
        }
        proof {
            assert(tool_views(tools@) =~= views);
            assert(tool_names(tools@) =~= keys) by {
                assert forall|j: int| 0 <= j < keys.len() implies tool_names(tools@)[j]
                    == keys[j] by {
                    assert(self.catalog().contains_key(keys[j]) && self.catalog()[keys[j]]
                        == views[j]);
                }
            }
        }
        tools
    }
}

/// A copy of a tool snapshot.
pub fn clone_tool(tool: &ToolSpec) -> (copy: ToolSpec)
    ensures
        copy == *tool,
{
    ToolSpec {
        name: tool.name.clone(),
        description: tool.description.clone(),
        input_schema: tool.input_schema.clone(),
        output_schema: match &tool.output_schema {
            Some(schema) => Some(schema.clone()),
            None => None,
        },
        source: match &tool.source {
            ToolSource::Local => ToolSource::Local,
            ToolSource::Federated { server_id, server_url } => ToolSource::Federated {
                server_id: server_id.clone(),
                server_url: server_url.clone(),
            },
        },
        spec_version: tool.spec_version.clone(),
        spec_hash: tool.spec_hash.clone(),
        last_updated: tool.last_updated,
        metadata: tool.metadata.clone(),
    }
}

/// The tools of one source.
pub open spec fn with_source(
    catalog: Map<Seq<char>, ToolSpecView>,
    id: Seq<char>,
) -> Map<Seq<char>, ToolSpecView> {
    catalog.restrict(keys_where(catalog, is_entry_of(id)))
}

/// Removal by source deletes exactly the tools of that source: a name is
/// held afterwards if and only if it was held by a tool of another source,
/// and such a tool is untouched.
pub proof fn lemma_without_source_exact(
    catalog: Map<Seq<char>, ToolSpecView>,
    id: Seq<char>,
    name: Seq<char>,
)
    ensures
        without_source(catalog, id).contains_key(name) <==> catalog.contains_key(name)
            && !catalog[name].source.is_source(id),
        without_source(catalog, id).contains_key(name) ==> without_source(catalog, id)[name]
            == catalog[name],
        catalog.contains_key(name) && catalog[name].source.is_source(id) ==> !without_source(
            catalog,
            id,
        ).contains_key(name),
{
}

impl ToolRegistry {
    /// The tools whose source is the one addressed by `server_id`, each
    /// once, in no particular order.
    pub fn get_tools_from_source(&self, server_id: &str) -> (tools: Vec<ToolSpec>)
        requires
            self.wf(),
        ensures
            crate::snapshot::enumerates(
                tool_names(tools@),
                tool_views(tools@),
                with_source(self.catalog(), server_id@),
            ),
            tools@.len() == keys_where(self.catalog(), is_entry_of(server_id@)).len(),
    {
        let entries = tools_entries(&self.tools);
        let ghost keys = entry_keys(entries@);
        let ghost views = entry_views(entries@);
        let ghost wanted = is_entry_of(server_id@);
        let ghost target = with_source(self.catalog(), server_id@);
        proof {
            self.lemma_snapshot_views(entries@);
        }
        let mut tools: Vec<ToolSpec> = Vec::new();
        let ghost mut picked: Seq<int> = Seq::empty();
        let mut i: usize = 0;
        while i < entries.len()
            invariant
                i <= entries@.len(),
                keys == entry_keys(entries@),
                views == entry_views(entries@),
                wanted == is_entry_of(server_id@),
                picked.len() == tools@.len(),
                forall|n: int|
                    0 <= n < picked.len() ==> 0 <= #[trigger] picked[n] < i && tools@[n]
                        == entries@[picked[n]].1 && wanted(keys[picked[n]], views[picked[n]]),
                forall|m: int, n: int| 0 <= m < n < picked.len() ==> picked[m] < picked[n],
                forall|j: int|
                    0 <= j < i && wanted(keys[j], #[trigger] views[j]) ==> exists|n: int|
                        0 <= n < picked.len() && picked[n] == j,
            decreases entries@.len() - i,
        {
            if source_is(&entries[i].1.source, server_id) {
                tools.push(clone_tool(&entries[i].1));
                proof {
                    let earlier = picked;
                    picked = picked.push(i as int);
                    assert forall|j: int|
                        0 <= j < i + 1 && wanted(keys[j], #[trigger] views[j]) implies exists|
                        n: int,
                    |
                        0 <= n < picked.len() && picked[n] == j by {
                        if j == i {
                            assert(picked[picked.len() - 1] == j);
                        } else {
                            let n = choose|n: int| 0 <= n < earlier.len() && earlier[n] == j;
                            assert(picked[n] == earlier[n]);
                        }
                    }
                }
            }
            i = i + 1;
        }
        proof {
            let names = tool_names(tools@);
            let shown = tool_views(tools@);
            assert forall|n: int| 0 <= n < names.len() implies names[n] == keys[picked[n]]
                && shown[n] == views[picked[n]] by {
                let j = picked[n];
                assert(self.catalog().contains_key(keys[j]) && self.catalog()[keys[j]]
                    == views[j]);
            }
            assert forall|m: int, n: int| 0 <= m < n < names.len() implies names[m]
                != names[n] by {
                assert(picked[m] < picked[n]);
                assert(keys[picked[m]] != keys[picked[n]]);
            }
            assert forall|n: int| 0 <= n < names.len() implies target.contains_key(
                #[trigger] names[n],
            ) && target[names[n]] == shown[n] by {
                let j = picked[n];
                assert(self.catalog().contains_key(keys[j]) && self.catalog()[keys[j]]
                    == views[j]);
            }
            assert forall|k: Seq<char>| #[trigger] target.contains_key(k) implies exists|n: int|
                0 <= n < names.len() && names[n] == k by {
                let j = choose|j: int| 0 <= j < keys.len() && keys[j] == k;
                assert(self.catalog().contains_key(keys[j]) && self.catalog()[keys[j]]
                    == views[j]);
                let n = choose|n: int| 0 <= n < picked.len() && picked[n] == j;
                assert(names[n] == k);
            }
            lemma_size_of_snapshot(names, shown, target);
            assert(target.dom() =~= keys_where(self.catalog(), wanted));
        }
        tools
    }

    /// Checks `arguments` against the input schema of the tool stored under
    /// `tool_name`. Succeeds exactly when the tool is held, its schema can
    /// be checked against and compiles, and the arguments satisfy it.
    /// Otherwise returns at least one message; a violation of the schema is
    /// also counted. A schema that holds a reference, or nests too deep, is
    /// answered as a schema that is not valid, and nothing is checked.
    pub fn validate_tool_arguments(&mut self, tool_name: &str, arguments: &Value) -> (checked:
        Result<(), Vec<String>>)
        ensures
            final(self).catalog() == old(self).catalog(),
            final(self).pending_events() == old(self).pending_events(),
            old(self).wf() ==> final(self).wf(),
            checked is Ok <==> validates(old(self).catalog(), tool_name@, *arguments),
            checked matches Err(messages) ==> messages@.len() >= 1,
            checked matches Err(messages) ==> (!old(self).catalog().contains_key(tool_name@)
                ==> messages@.len() == 1 && messages@[0]@ == not_found_message(tool_name@)),
            checked matches Err(messages) ==> (old(self).catalog().contains_key(tool_name@)
                && !schema_is_checkable(old(self).catalog()[tool_name@].input_schema)
                ==> messages@.len() == 1 && messages@[0]@ == bad_schema_message(
                tool_name@,
                uncheckable_detail(),
            )),
            checked matches Err(messages) ==> (old(self).catalog().contains_key(tool_name@)
                && schema_is_checkable(old(self).catalog()[tool_name@].input_schema)
                && !schema_compiles(old(self).catalog()[tool_name@].input_schema)
                ==> messages@.len() == 1 && exists|detail: Seq<char>|
                messages@[0]@ == bad_schema_message(tool_name@, detail)),
            final(self).counters() == (RegistryMetrics {
                schema_validation_errors: validation_errors_after(
                    old(self).catalog(),
                    old(self).counters().schema_validation_errors,
                    tool_name@,
                    *arguments,
                ),
                ..old(self).counters()
            }),
    {
        let tool = match self.get_tool(tool_name) {
            Some(tool) => tool,
            None => {
                let mut message = "Tool '".to_owned();
                message.append(tool_name);
                message.append("' not found in registry");
                let mut messages: Vec<String> = Vec::new();
                messages.push(message);
                return Err(messages);
            },
        };
        if !is_checkable(&tool.input_schema) {
            let mut message = "Invalid JSON schema for tool '".to_owned();
            message.append(tool_name);
            message.append("': ");
            message.append("the schema holds a reference or nests too deep");
            let mut messages: Vec<String> = Vec::new();
            messages.push(message);
            return Err(messages);
        }
        match check_against_schema(&tool.input_schema, arguments) {
            SchemaCheck::BadSchema(detail) => {
                let mut message = "Invalid JSON schema for tool '".to_owned();
                message.append(tool_name);
                message.append("': ");
                message.append(detail.as_str());
                assert(message@ == bad_schema_message(tool_name@, detail@));
                let mut messages: Vec<String> = Vec::new();
                messages.push(message);
                Err(messages)
            },
            SchemaCheck::Accepted => Ok(()),
            SchemaCheck::Rejected(messages) => {
                self.metrics.schema_validation_errors = bump(self.metrics.schema_validation_errors);
                Err(messages)
            },
        }
    }
}

/// A locally provided tool built from its texts.
pub open spec fn local_tool(
    name: Seq<char>,
    description: Seq<char>,
    input_schema: Seq<char>,
    output_schema: Seq<char>,
    version: Seq<char>,
    metadata: Seq<char>,
) -> ToolSpecView {
    ToolSpecView {
        name,
        description,
        input_schema: json_parsed(input_schema),
        output_schema: Some(json_parsed(output_schema)),
        source: ToolSourceView::Local,
        spec_version: version,
        spec_hash: Seq::empty(),
        last_updated: 0,
        metadata: json_parsed(metadata),
    }
}

/// The tools the gateway provides itself, in the order they are seeded.
pub open spec fn builtin_tools() -> Seq<ToolSpecView> {
    seq![
        local_tool(
            ORCHESTRATE_NAME@,
            ORCHESTRATE_DESCRIPTION@,
            ORCHESTRATE_INPUT_SCHEMA@,
            ORCHESTRATE_OUTPUT_SCHEMA@,
            ORCHESTRATE_VERSION@,
            ORCHESTRATE_METADATA@,
        ),
        local_tool(
            DISCOVER_NAME@,
            DISCOVER_DESCRIPTION@,
            DISCOVER_INPUT_SCHEMA@,
            DISCOVER_OUTPUT_SCHEMA@,
            DISCOVER_VERSION@,
            DISCOVER_METADATA@,
        ),
        local_tool(
            EXA_SEARCH_NAME@,
            EXA_SEARCH_DESCRIPTION@,
            EXA_SEARCH_INPUT_SCHEMA@,
            EXA_SEARCH_OUTPUT_SCHEMA@,
            EXA_SEARCH_VERSION@,
            EXA_SEARCH_METADATA@,
        ),
        local_tool(
            EXA_RESEARCH_NAME@,
            EXA_RESEARCH_DESCRIPTION@,
            EXA_RESEARCH_INPUT_SCHEMA@,
            EXA_RESEARCH_OUTPUT_SCHEMA@,
            EXA_RESEARCH_VERSION@,
            EXA_RESEARCH_METADATA@,
        ),
    ]
}

/// The catalog after the first `upto` built-in tools were stored at `now`.
pub open spec fn seeded(
    catalog: Map<Seq<char>, ToolSpecView>,
    now: u64,
    upto: int,
) -> Map<Seq<char>, ToolSpecView>
    decreases upto,
{
    if upto <= 0 {
        catalog
    } else {
        let tool = builtin_tools()[upto - 1];
        seeded(catalog, now, upto - 1).insert(tool.name, tool.stamped(now))
    }
}

fn make_local_tool(
    name: &str,
    description: &str,
    input_schema: &str,
    output_schema: &str,
    version: &str,
    metadata: &str,
) -> (made: ToolSpec)
    ensures
        made@ == local_tool(
            name@,
            description@,
            input_schema@,
            output_schema@,
            version@,
            metadata@,
        ),
{
    ToolSpec {
        name: name.to_owned(),
        description: description.to_owned(),
        input_schema: parse(input_schema),
        output_schema: Some(parse(output_schema)),
        source: ToolSource::Local,
        spec_version: version.to_owned(),
        spec_hash: String::new(),
        last_updated: 0,
        metadata: parse(metadata),
    }
}

impl ToolRegistry {
    /// Stores `tool` under its name, with its content hash and `now`
    /// stamped in, without emitting an event.
    pub fn register_tool_sync(&mut self, tool: ToolSpec, now: u64)
        requires
            old(self).wf(),
        ensures
            final(self).wf(),
            final(self).counts_catalog(),
            final(self).catalog() == old(self).catalog().insert(tool@.name, tool@.stamped(now)),
            final(self).catalog()[tool@.name].spec_hash.len() == 64,
            final(self).pending_events() == old(self).pending_events(),
            final(self).counters().schema_validation_errors == old(
                self,
            ).counters().schema_validation_errors,
            final(self).counters().federation_failures == old(self).counters().federation_failures,
            final(self).counters().last_federation_sync == old(
                self,
            ).counters().last_federation_sync,
    {
        let ghost given = tool@;
        let hash = compute_tool_hash(&tool);
        let mut stored = tool;
        stored.spec_hash = hash;
        stored.last_updated = now;
        assert(stored@ == given.stamped(now));
        let name = stored.name.clone();
        tools_insert(&mut self.tools, name, stored);
        assert(self.catalog() =~= old(self).catalog().insert(given.name, given.stamped(now)));
        self.refresh_metrics();
    }

    /// Stores the built-in tools, in their order, without events.
    pub fn seed_with_local_tools(&mut self, now: u64)
        requires
            old(self).wf(),
        ensures
            final(self).wf(),
            final(self).counts_catalog(),
            final(self).catalog() == seeded(
                old(self).catalog(),
                now,
                builtin_tools().len() as int,
            ),
            final(self).pending_events() == old(self).pending_events(),
            final(self).counters().schema_validation_errors == old(
                self,
            ).counters().schema_validation_errors,
    {
        let first = make_local_tool(
            ORCHESTRATE_NAME,
            ORCHESTRATE_DESCRIPTION,
            ORCHESTRATE_INPUT_SCHEMA,
            ORCHESTRATE_OUTPUT_SCHEMA,
            ORCHESTRATE_VERSION,
            ORCHESTRATE_METADATA,
        );
        let second = make_local_tool(
            DISCOVER_NAME,
            DISCOVER_DESCRIPTION,
            DISCOVER_INPUT_SCHEMA,
            DISCOVER_OUTPUT_SCHEMA,
            DISCOVER_VERSION,
            DISCOVER_METADATA,
        );
        let third = make_local_tool(
            EXA_SEARCH_NAME,
            EXA_SEARCH_DESCRIPTION,
            EXA_SEARCH_INPUT_SCHEMA,
            EXA_SEARCH_OUTPUT_SCHEMA,
            EXA_SEARCH_VERSION,
            EXA_SEARCH_METADATA,
        );
        let fourth = make_local_tool(
            EXA_RESEARCH_NAME,
            EXA_RESEARCH_DESCRIPTION,
            EXA_RESEARCH_INPUT_SCHEMA,
            EXA_RESEARCH_OUTPUT_SCHEMA,
            EXA_RESEARCH_VERSION,
            EXA_RESEARCH_METADATA,
        );
        assert(builtin_tools().len() == 4);
        proof {
            reveal_with_fuel(seeded, 5);
        }
        self.register_tool_sync(first, now);
        self.register_tool_sync(second, now);
        self.register_tool_sync(third, now);
        self.register_tool_sync(fourth, now);
    }
}

/// The places of the listeners that a change could not be delivered to,
/// last place first, so that removing them one after the other leaves the
/// places of the others as they are.
pub fn dead_listeners(delivered: &Vec<bool>) -> (dead: Vec<usize>)
    ensures
        forall|k: int| 0 <= k < dead@.len() ==> (#[trigger] dead@[k]) < delivered@.len()
            && !delivered@[dead@[k] as int],
        forall|k: int, l: int| 0 <= k < l < dead@.len() ==> dead@[k] > dead@[l],
        forall|i: int|
            0 <= i < delivered@.len() && !(#[trigger] delivered@[i]) ==> exists|k: int|
                0 <= k < dead@.len() && dead@[k] == i,
{
    let mut dead: Vec<usize> = Vec::new();
    let mut i: usize = delivered.len();
    while i > 0
        invariant
            i <= delivered@.len(),
            forall|k: int| 0 <= k < dead@.len() ==> i <= (#[trigger] dead@[k]) < delivered@.len()
                && !delivered@[dead@[k] as int],
            forall|k: int, l: int| 0 <= k < l < dead@.len() ==> dead@[k] > dead@[l],
            forall|j: int|
                i <= j < delivered@.len() && !(#[trigger] delivered@[j]) ==> exists|k: int|
                    0 <= k < dead@.len() && dead@[k] == j,
        decreases i,
    {
        i = i - 1;
        if !delivered[i] {
            let ghost earlier = dead@;
            dead.push(i);
            proof {
                assert forall|j: int|
                    i <= j < delivered@.len() && !(#[trigger] delivered@[j]) implies exists|k: int|
                    0 <= k < dead@.len() && dead@[k] == j by {
                    if j == i {
                        assert(dead@[earlier.len() as int] == j);
                    } else {
                        let k = choose|k: int| 0 <= k < earlier.len() && earlier[k] == j;
                        assert(dead@[k] == j);
                    }
                }
            }
        }
    }
    dead
}

} // verus!
