//! Configuration of the pitfall-avoidance shim, which adds helpful context
//! to tool calls.

use vstd::prelude::*;
use vstd::string::StringExecFns;
use vstd::utf8::encode_utf8;

verus! {

/// Configuration of the shim.
#[derive(Debug, Clone)]
pub struct ShimConfig {
    /// Whether the shim is on.
    pub enabled: bool,
    /// Inject the current date and time.
    pub inject_datetime: bool,
    /// Add timestamps to all returns.
    pub timestamp_returns: bool,
    /// Custom extension text.
    pub custom_extension: Option<String>,
    pub features: ShimFeatures,
}

#[derive(Debug, Clone, Copy, PartialEq, Eq)]
pub struct ShimFeatures {
    pub inject_timezone: bool,
    pub add_execution_metadata: bool,
    pub include_system_info: bool,
    pub date_format_hints: bool,
    pub pitfall_warnings: bool,
}

impl ShimFeatures {
    pub open spec fn standard() -> ShimFeatures {
        ShimFeatures {
            inject_timezone: true,
            add_execution_metadata: true,
            include_system_info: false,
            date_format_hints: true,
            pitfall_warnings: true,
        }
    }
}

impl Default for ShimFeatures {
    fn default() -> (features: Self)
        ensures
            features == ShimFeatures::standard(),
    {
        ShimFeatures {
            inject_timezone: true,
            add_execution_metadata: true,
            include_system_info: false,
            date_format_hints: true,
            pitfall_warnings: true,
        }
    }
}

impl ShimConfig {
    /// The configuration with everything standard but the switch and the
    /// extension.
    pub open spec fn is_standard_with(self, enabled: bool, extension: Option<String>) -> bool {
        &&& self.enabled == enabled
        &&& self.inject_datetime
        &&& self.timestamp_returns
        &&& self.custom_extension == extension
        &&& self.features == ShimFeatures::standard()
    }
}

impl Default for ShimConfig {
    fn default() -> (config: Self)
        ensures
            config.is_standard_with(true, None),
    {
        ShimConfig {
            enabled: true,
            inject_datetime: true,
            timestamp_returns: true,
            custom_extension: None,
            features: ShimFeatures::default(),
        }
    }
}

/// The shim.
pub struct PitfallAvoidanceShim {
    config: ShimConfig,
}

impl PitfallAvoidanceShim {
    pub closed spec fn config(&self) -> ShimConfig {
        self.config
    }

    /// A shim with the configuration given.
    pub fn new(config: ShimConfig) -> (shim: Self)
        ensures
            shim.config() == config,
    {
        PitfallAvoidanceShim { config }
    }

    /// A standard shim, switched and extended as the command line says.
    pub fn from_args(enabled: bool, extension: Option<String>) -> (shim: Self)
        ensures
            shim.config().is_standard_with(enabled, extension),
    {
        let mut config = ShimConfig::default();
        config.enabled = enabled;
        config.custom_extension = extension;
        PitfallAvoidanceShim { config }
    }

    /// Whether the shim is on.
    pub fn is_enabled(&self) -> (enabled: bool)
        ensures
            enabled == self.config().enabled,
    {
        self.config.enabled
    }

    /// The configuration.
    pub fn get_config(&self) -> (config: &ShimConfig)
        ensures
            *config == self.config(),
    {
        &self.config
    }

    /// Replaces the configuration.
    pub fn update_config(&mut self, config: ShimConfig)
        ensures
            final(self).config() == config,
    {
        self.config = config;
    }
}

impl Default for PitfallAvoidanceShim {
    fn default() -> (shim: Self)
        ensures
            shim.config().is_standard_with(true, None),
    {
        PitfallAvoidanceShim::new(ShimConfig::default())
    }
}

/// What the command line says of the shim.
#[derive(Debug, Clone)]
pub struct ShimArgs {
    pub enabled: bool,
    pub extension: Option<String>,
    pub config_file: Option<String>,
}

impl Default for ShimArgs {
    fn default() -> (args: Self)
        ensures
            args.enabled,
            args.extension is None,
            args.config_file is None,
    {
        ShimArgs { enabled: true, extension: None, config_file: None }
    }
}

/// Whether the bytes of `prefix` begin the bytes of `text`.
pub open spec fn begins_with(text: Seq<char>, prefix: Seq<char>) -> bool {
    encode_utf8(prefix).len() <= encode_utf8(text).len() && encode_utf8(text).subrange(
        0,
        encode_utf8(prefix).len() as int,
    ) == encode_utf8(prefix)
}

/// Whether `text` begins with `prefix`.
pub fn has_prefix(text: &str, prefix: &str) -> (begins: bool)
    ensures
        begins == begins_with(text@, prefix@),
{
    let whole = text.as_bytes();
    let start = prefix.as_bytes();
    if start.len() > whole.len() {
        return false;
    }
    let mut i: usize = 0;
    while i < start.len()
        invariant
            i <= start@.len() <= whole@.len(),
            whole@ == encode_utf8(text@),
            start@ == encode_utf8(prefix@),
            forall|j: int| 0 <= j < i ==> whole@[j] == start@[j],
        decreases start@.len() - i,
    {
        if whole[i] != start[i] {
            assert(whole@.subrange(0, start@.len() as int)[i as int] != start@[i as int]);
            return false;
        }
        i = i + 1;
    }
    assert(whole@.subrange(0, start@.len() as int) =~= start@);
    true
}

/// The reminder of the current date.
pub open spec fn date_warning(date: Seq<char>) -> Seq<char> {
    "Current date is "@ + date + " - ensure any date-based queries use this as reference"@
}

pub open spec fn search_warnings() -> Seq<Seq<char>> {
    seq![
        "When searching for recent events, remember to include the current year in queries"@,
        "For documentation searches, prefer recent versions by including year constraints"@,
    ]
}

/// The warnings that go with a tool.
pub open spec fn tool_warnings(tool: Seq<char>) -> Seq<Seq<char>> {
    if tool == "web_search_exa"@ || tool == "deep_researcher_start"@ {
        search_warnings()
    } else if begins_with(tool, "exa."@) {
        search_warnings() + (if begins_with(tool, "exa.research"@) {
            seq![
                "Research tasks should define clear output schemas for structured results"@,
                "Use multiple query variations to maximize coverage"@,
            ]
        } else {
            Seq::empty()
        }) + (if tool == "exa.websets.create"@ {
            seq![
                "Configure webhooks for real-time notifications on standing queries"@,
                "Use semantic deduplication to prevent alert fatigue"@,
            ]
        } else {
            Seq::empty()
        }) + (if tool == "exa.get_contents"@ {
            seq![
                "Consider using livecrawl='preferred' for time-sensitive content"@,
                "Enable subpages exploration for comprehensive site coverage"@,
            ]
        } else {
            Seq::empty()
        })
    } else if tool == "orchestrate_mcp_proxy"@ {
        seq![
            "Ensure target server URLs are properly validated before proxying"@,
            "Consider consciousness coordination impacts on downstream servers"@,
        ]
    } else {
        Seq::empty()
    }
}

/// The warnings that go with the role of an agent.
pub open spec fn role_warnings(role: Option<Seq<char>>) -> Seq<Seq<char>> {
    match role {
        None => Seq::empty(),
        Some(role) => if role == "researcher"@ || role == "analyst"@ {
            seq![
                "Maintain evidence chains and cite all sources"@,
                "Surface contradictions and uncertainties explicitly"@,
            ]
        } else if role == "monitor"@ || role == "watcher"@ {
            seq![
                "Set up appropriate update frequencies for monitoring tasks"@,
                "Use domain filters to reduce noise in standing queries"@,
            ]
        } else if role == "orchestrator"@ {
            seq![
                "Coordinate multi-agent patterns for complex research tasks"@,
                "Ensure proper task decomposition before execution"@,
            ]
        } else {
            Seq::empty()
        },
    }
}

/// The warnings for a call: the date, then those of the tool, then those
/// of the role.
pub open spec fn warnings_for(
    tool: Seq<char>,
    role: Option<Seq<char>>,
    date: Seq<char>,
) -> Seq<Seq<char>> {
    seq![date_warning(date)] + tool_warnings(tool) + role_warnings(role)
}

pub open spec fn texts(list: Seq<String>) -> Seq<Seq<char>> {
    Seq::new(list.len(), |i: int| list[i]@)
}

pub open spec fn role_text(role: Option<&str>) -> Option<Seq<char>> {
    match role {
        Some(role) => Some(role@),
        None => None,
    }
}

fn is_text(text: &str, wanted: &str) -> (same: bool)
    ensures
        same == (text@ == wanted@),
{
    text.to_owned() == wanted.to_owned()
}

fn warn(warnings: &mut Vec<String>, first: &str, second: &str)
    ensures
        texts(final(warnings)@) == texts(old(warnings)@) + seq![first@, second@],
{
    warnings.push(first.to_owned());
    warnings.push(second.to_owned());
    assert(texts(warnings@) =~= texts(old(warnings)@) + seq![first@, second@]);
}

/// The warnings for a call of `tool_name` by an agent of `agent_role` on
/// `current_date`.
pub fn get_contextual_warnings(tool_name: &str, agent_role: Option<&str>, current_date: &str) -> (warnings:
    Vec<String>)
    ensures
        texts(warnings@) == warnings_for(tool_name@, role_text(agent_role), current_date@),
{
    let mut warnings: Vec<String> = Vec::new();
    let mut reminder = "Current date is ".to_owned();
    reminder.append(current_date);
    reminder.append(" - ensure any date-based queries use this as reference");
    warnings.push(reminder);
    assert(texts(warnings@) =~= seq![date_warning(current_date@)]);
    let ghost dated = texts(warnings@);

    if is_text(tool_name, "web_search_exa") || is_text(tool_name, "deep_researcher_start") {
        warn(
            &mut warnings,
            "When searching for recent events, remember to include the current year in queries",
            "For documentation searches, prefer recent versions by including year constraints",
        );
    } else if has_prefix(tool_name, "exa.") {
        warn(
            &mut warnings,
            "When searching for recent events, remember to include the current year in queries",
            "For documentation searches, prefer recent versions by including year constraints",
        );
        if has_prefix(tool_name, "exa.research") {
            warn(
                &mut warnings,
                "Research tasks should define clear output schemas for structured results",
                "Use multiple query variations to maximize coverage",
            );
        }
        if is_text(tool_name, "exa.websets.create") {
            warn(
                &mut warnings,
                "Configure webhooks for real-time notifications on standing queries",
                "Use semantic deduplication to prevent alert fatigue",
            );
        }
        if is_text(tool_name, "exa.get_contents") {
            warn(
                &mut warnings,
                "Consider using livecrawl='preferred' for time-sensitive content",
                "Enable subpages exploration for comprehensive site coverage",
            );
        }
    } else if is_text(tool_name, "orchestrate_mcp_proxy") {
        warn(
            &mut warnings,
            "Ensure target server URLs are properly validated before proxying",
            "Consider consciousness coordination impacts on downstream servers",
        );
    }
    assert(texts(warnings@) =~= dated + tool_warnings(tool_name@));
    let ghost tooled = texts(warnings@);

    if let Some(role) = agent_role {
        if is_text(role, "researcher") || is_text(role, "analyst") {
            warn(
                &mut warnings,
                "Maintain evidence chains and cite all sources",
                "Surface contradictions and uncertainties explicitly",
            );
        } else if is_text(role, "monitor") || is_text(role, "watcher") {
            warn(
                &mut warnings,
                "Set up appropriate update frequencies for monitoring tasks",
                "Use domain filters to reduce noise in standing queries",
            );
        } else if is_text(role, "orchestrator") {
            warn(
                &mut warnings,
                "Coordinate multi-agent patterns for complex research tasks",
                "Ensure proper task decomposition before execution",
            );
        }
    }
    assert(texts(warnings@) =~= tooled + role_warnings(role_text(agent_role)));
    warnings
}

} // verus!
