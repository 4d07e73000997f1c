//! The agent that a host drives: its state, and the calls that read and change
//! it. A pointer to an agent that may be null is an `Option` here, and a C string
//! is the `Option` of its bytes without the terminator.

use crate::approval::{law_listed_once, lemma_initial_list, ApprovalGate, GateView};
use crate::chat::{messages, system_message, with_system_prompt, ChatMessage, MessageView};
use crate::context::{
    law_unused_window_has_room, law_utilization_up_to_full, microcompacted, to_clear, utilization,
    window_state, ContextCheckResult, ContextGuard, DEFAULT_CONTEXT_WINDOW,
};
use crate::doubles::{
    held, hold, is_nan, law_held_between, order_key, HUNDRED, SEVEN_TENTHS, TWO, ZERO,
};
use crate::json::{parse, parsed, spells_list, write_list, written_list};
use crate::memory::{law_newest_entries_stay, MemoryStore, MemoryView};
use crate::provider::{create_provider, provider_named, OpenAiCompatibleProvider, ProviderView};
use crate::scope::{permitted, rank, scope_named, ToolScope};
use crate::stop::StopHooks;
use crate::subagent::{all_running, running, SubagentHandle};
use crate::text::{c_text, fits_c_string, read_c_text};
use crate::tool::{pass_on_tool_use, pass_on_user_data, tool_views, FFITool, ToolView};
use serde_json::Value;
use vstd::hash_map::StringHashMap;
use vstd::prelude::*;

verus! {

/// How many entries are recalled if the caller does not say.
pub const DEFAULT_RECALL_LIMIT: usize = 5;

/// Callbacks into the host. `T` is a callback that takes one text, `U` one that
/// takes the name and the arguments of a tool, `D` what the host wants back with
/// every call.
#[derive(Debug, Clone, Copy, PartialEq, Eq)]
pub struct BenitoCallbacks<T, U, D> {
    pub on_text_delta: Option<T>,
    pub on_tool_use: Option<U>,
    pub on_tool_result: Option<T>,
    pub on_done: Option<T>,
    pub on_error: Option<T>,
    pub user_data: D,
}

/// The state of an agent. `X` is a host function that runs a tool.
pub struct BenitoAgentHandle<T, U, D, X> {
    /// The provider; none until one is set.
    pub provider: Option<OpenAiCompatibleProvider>,
    pub model: String,
    /// Sampling temperature, as the bit pattern of a double.
    pub temperature: u64,
    pub tools: Vec<FFITool<U, D, X>>,
    pub history: Vec<ChatMessage>,
    pub system_prompt: String,
    pub callbacks: BenitoCallbacks<T, U, D>,
    /// Context window management.
    pub context_guard: ContextGuard,
    /// Approval gate for external-effect tools.
    pub approval_gate: ApprovalGate,
    /// Memory: cross-session conversation persistence.
    pub memory_store: MemoryStore,
    /// Sub-agent registry.
    pub subagents: StringHashMap<SubagentHandle>,
    /// Stop hooks: cost/time/iteration limits.
    pub stop_hooks: StopHooks,
    /// Tool filtering by scope/permission.
    pub tool_scopes: StringHashMap<ToolScope>,
}

/// An agent with its texts.
pub struct AgentView<T, U, D, X> {
    pub provider: Option<ProviderView>,
    pub model: Seq<char>,
    pub temperature: u64,
    pub tools: Seq<ToolView<U, D, X>>,
    pub history: Seq<MessageView>,
    pub system_prompt: Seq<char>,
    pub callbacks: BenitoCallbacks<T, U, D>,
    pub context_guard: ContextGuard,
    pub approval_gate: GateView,
    pub memory_store: MemoryView,
    pub subagents: Map<Seq<char>, SubagentHandle>,
    pub stop_hooks: StopHooks,
    pub tool_scopes: Map<Seq<char>, ToolScope>,
}

/// An optional provider as text.
pub open spec fn optional_provider(p: Option<OpenAiCompatibleProvider>) -> Option<ProviderView> {
    match p {
        Some(provider) => Some(provider@),
        None => None,
    }
}

impl<T, U, D, X> View for BenitoAgentHandle<T, U, D, X> {
    type V = AgentView<T, U, D, X>;

    open spec fn view(&self) -> AgentView<T, U, D, X> {
        AgentView {
            provider: optional_provider(self.provider),
            model: self.model@,
            temperature: self.temperature,
            tools: tool_views(self.tools@),
            history: messages(self.history@),
            system_prompt: self.system_prompt@,
            callbacks: self.callbacks,
            context_guard: self.context_guard,
            approval_gate: self.approval_gate@,
            memory_store: self.memory_store@,
            subagents: self.subagents@,
            stop_hooks: self.stop_hooks,
            tool_scopes: self.tool_scopes@,
        }
    }
}

impl<T, U, D, X> AgentView<T, U, D, X> {
    /// A new agent, for a host that has set no user data yet.
    pub open spec fn initial(no_user_data: D) -> AgentView<T, U, D, X> {
        AgentView {
            provider: None,
            model: Seq::empty(),
            temperature: SEVEN_TENTHS,
            tools: Seq::empty(),
            history: Seq::empty(),
            system_prompt: Seq::empty(),
            callbacks: BenitoCallbacks {
                on_text_delta: None,
                on_tool_use: None,
                on_tool_result: None,
                on_done: None,
                on_error: None,
                user_data: no_user_data,
            },
            context_guard: ContextGuard::fresh(DEFAULT_CONTEXT_WINDOW),
            approval_gate: GateView::initial(),
            memory_store: MemoryView::initial(),
            subagents: Map::empty(),
            stop_hooks: StopHooks::initial(),
            tool_scopes: Map::empty(),
        }
    }

    /// What holds of every agent, and what every call keeps: the temperature is a
    /// number between 0.0 and 2.0; every tool has the user data and the tool use
    /// callback that are set; the context window is not empty, the noted token use
    /// fits a machine word, and some compaction may fail; no tool is listed twice;
    /// the memory has room for an entry and is within its bounds; the registered
    /// sub-agents are running.
    pub open spec fn well_formed(self) -> bool {
        &&& !is_nan(self.temperature)
        &&& order_key(ZERO) <= order_key(self.temperature) <= order_key(TWO)
        &&& forall|i: int|
            0 <= i < self.tools.len() ==> (#[trigger] self.tools[i]).user_data
                == self.callbacks.user_data && self.tools[i].on_tool_use
                == self.callbacks.on_tool_use
        &&& self.context_guard.context_window > 0
        &&& self.context_guard.used() <= usize::MAX
        &&& self.context_guard.max_failures > 0
        &&& self.approval_gate.allowlist.no_duplicates()
        &&& self.memory_store.max_entries > 0
        &&& self.memory_store.conversations.len() <= self.memory_store.max_entries
        &&& all_running(self.subagents)
    }

    /// The tool that would be registered under these terms: it takes over the
    /// user data and the tool use callback that are set at the time.
    pub open spec fn tool(
        self,
        name: Seq<char>,
        description: Seq<char>,
        schema: Value,
        execute_fn: X,
    ) -> ToolView<U, D, X> {
        ToolView {
            name,
            description,
            parameters_schema: schema,
            execute_fn,
            user_data: self.callbacks.user_data,
            on_tool_use: self.callbacks.on_tool_use,
        }
    }

    /// The agent after the host has set its user data: they are passed to every
    /// callback and to every tool from then on.
    pub open spec fn with_user_data(self, user_data: D) -> AgentView<T, U, D, X> {
        AgentView {
            callbacks: BenitoCallbacks { user_data, ..self.callbacks },
            tools: Seq::new(
                self.tools.len(),
                |i: int| ToolView { user_data, ..self.tools[i] },
            ),
            ..self
        }
    }

    /// The agent after the host has set its tool use callback: every tool calls it
    /// from then on.
    pub open spec fn with_tool_use(self, callback: Option<U>) -> AgentView<T, U, D, X> {
        AgentView {
            callbacks: BenitoCallbacks { on_tool_use: callback, ..self.callbacks },
            tools: Seq::new(
                self.tools.len(),
                |i: int| ToolView { on_tool_use: callback, ..self.tools[i] },
            ),
            ..self
        }
    }

    /// The agent after its messages were forgotten; a system prompt stays.
    pub open spec fn history_cleared(self) -> AgentView<T, U, D, X> {
        AgentView {
            history: if self.system_prompt.len() == 0 {
                Seq::empty()
            } else {
                seq![system_message(self.system_prompt)]
            },
            ..self
        }
    }

    /// The agent after the scope of a tool was set.
    pub open spec fn with_scope(self, tool: Seq<char>, scope: ToolScope) -> AgentView<T, U, D, X> {
        AgentView { tool_scopes: self.tool_scopes.insert(tool, scope), ..self }
    }

    /// The scope of a tool, if one was set.
    pub open spec fn scope_of(self, tool: Seq<char>) -> Option<ToolScope> {
        if self.tool_scopes.contains_key(tool) {
            Some(self.tool_scopes[tool])
        } else {
            None
        }
    }
}

/// How many entries a request for `limit` of them recalls.
pub open spec fn recall_limit(limit: i32) -> nat {
    if limit > 0 {
        limit as nat
    } else {
        DEFAULT_RECALL_LIMIT as nat
    }
}

/// Create an agent, if the runtime that it needs could be started.
pub fn benito_agent_init<T, U, D, X>(runtime_started: bool, no_user_data: D) -> (r: Option<
    BenitoAgentHandle<T, U, D, X>,
>)
    ensures
        r is Some <==> runtime_started,
        r matches Some(h) ==> h@ == AgentView::<T, U, D, X>::initial(no_user_data)
            && h@.well_formed(),
{
    if !runtime_started {
        return None;
    }
    let h: BenitoAgentHandle<T, U, D, X> = BenitoAgentHandle {
        provider: None,
        model: String::new(),
        temperature: SEVEN_TENTHS,
        tools: Vec::new(),
        history: Vec::new(),
        system_prompt: String::new(),
        callbacks: BenitoCallbacks {
            on_text_delta: None,
            on_tool_use: None,
            on_tool_result: None,
            on_done: None,
            on_error: None,
            user_data: no_user_data,
        },
        context_guard: ContextGuard::new(DEFAULT_CONTEXT_WINDOW),
        approval_gate: ApprovalGate::new(),
        memory_store: MemoryStore::new(),
        subagents: StringHashMap::new(),
        stop_hooks: StopHooks::new(),
        tool_scopes: StringHashMap::new(),
    };
    proof {
        lemma_initial_list();
    }
    assert(h@.tools =~= Seq::<ToolView<U, D, X>>::empty());
    assert(h@.history =~= Seq::<MessageView>::empty());
    Some(h)
}

/// The provider and the model that a request to set them asks for; nothing if
/// there is no agent, an argument is null or not UTF-8, or there is no such
/// provider.
pub open spec fn provider_settings(
    agent: bool,
    provider_name: Option<&[u8]>,
    api_key: Option<&[u8]>,
    model: Option<&[u8]>,
) -> Option<(ProviderView, Seq<char>)> {
    if agent && c_text(provider_name) is Some && c_text(api_key) is Some && c_text(model) is Some {
        match provider_named(c_text(provider_name)->0, c_text(api_key)->0) {
            Ok(provider) => Some((provider, c_text(model)->0)),
            Err(_) => None,
        }
    } else {
        None
    }
}

/// Set the LLM provider and model. Returns 0 on success, -1 on failure.
pub fn benito_agent_set_provider<T, U, D, X>(
    handle: Option<&mut BenitoAgentHandle<T, U, D, X>>,
    provider_name: Option<&[u8]>,
    api_key: Option<&[u8]>,
    model: Option<&[u8]>,
) -> (r: i32)
    ensures
        r == (if provider_settings(handle is Some, provider_name, api_key, model) is Some {
            0i32
        } else {
            -1i32
        }),
        handle matches Some(h) ==> final(h)@ == (match provider_settings(
            true,
            provider_name,
            api_key,
            model,
        ) {
            Some((provider, model_text)) => AgentView {
                provider: Some(provider),
                model: model_text,
                ..h@
            },
            None => h@,
        }),
        handle matches Some(h) ==> h@.well_formed() ==> final(h)@.well_formed(),
{
    let h = match handle {
        Some(h) => h,
        None => return -1,
    };
    let name = match read_c_text(provider_name) {
        Some(s) => s,
        None => return -1,
    };
    let key = match read_c_text(api_key) {
        Some(s) => s,
        None => return -1,
    };
    let model_text = match read_c_text(model) {
        Some(s) => s,
        None => return -1,
    };
    match create_provider(name.as_str(), key.as_str()) {
        Ok(provider) => {
            h.provider = Some(provider);
            h.model = model_text;
            0
        },
        Err(_) => -1,
    }
}

/// Set the system prompt. Returns 0 on success, -1 on failure.
pub fn benito_agent_set_system_prompt<T, U, D, X>(
    handle: Option<&mut BenitoAgentHandle<T, U, D, X>>,
    prompt: Option<&[u8]>,
) -> (r: i32)
    ensures
        r == (if handle is Some && c_text(prompt) is Some {
            0i32
        } else {
            -1i32
        }),
        handle matches Some(h) ==> final(h)@ == (match c_text(prompt) {
            Some(text) => AgentView { system_prompt: text, ..h@ },
            None => h@,
        }),
        handle matches Some(h) ==> h@.well_formed() ==> final(h)@.well_formed(),
{
    match (handle, read_c_text(prompt)) {
        (Some(h), Some(text)) => {
            h.system_prompt = text;
            0
        },
        _ => -1,
    }
}

/// Set the temperature, held between 0.0 and 2.0; the number is given as the bit
/// pattern of a double. What is no number counts as 0.0.
pub fn benito_agent_set_temperature<T, U, D, X>(
    handle: Option<&mut BenitoAgentHandle<T, U, D, X>>,
    temperature: u64,
) -> (r: i32)
    ensures
        r == (if handle is Some {
            0i32
        } else {
            -1i32
        }),
        handle matches Some(h) ==> final(h)@ == (AgentView {
            temperature: held(temperature, ZERO, TWO),
            ..h@
        }),
        handle matches Some(h) ==> !is_nan(final(h)@.temperature) && order_key(ZERO) <= order_key(
            final(h)@.temperature,
        ) <= order_key(TWO),
        handle matches Some(h) ==> h@.well_formed() ==> final(h)@.well_formed(),
{
    match handle {
        Some(h) => {
            proof {
                law_held_between(temperature, ZERO, TWO);
            }
            h.temperature = hold(temperature, ZERO, TWO);
            0
        },
        None => -1,
    }
}

impl<T, U: Copy, D: Copy, X> BenitoAgentHandle<T, U, D, X> {
    /// Registers a tool with a parsed parameter schema.
    pub fn add_tool(&mut self, name: String, description: String, schema: Value, execute_fn: X)
        ensures
            final(self)@ == (AgentView {
                tools: old(self)@.tools.push(
                    old(self)@.tool(name@, description@, schema, execute_fn),
                ),
                ..old(self)@
            }),
    {
        let ghost before = self@.tools;
        let tool = FFITool {
            name,
            description,
            parameters_schema: schema,
            execute_fn,
            user_data: self.callbacks.user_data,
            on_tool_use: self.callbacks.on_tool_use,
        };
        let ghost added = tool@;
        self.tools.push(tool);
        assert(self@.tools =~= before.push(added));
    }
}

/// Name, description and schema of a tool that is to be registered; nothing if
/// an argument is null or not UTF-8, or the schema is not JSON.
pub open spec fn tool_terms(
    tool_name: Option<&[u8]>,
    description: Option<&[u8]>,
    parameters_schema_json: Option<&[u8]>,
) -> Option<(Seq<char>, Seq<char>, Value)> {
    match (c_text(tool_name), c_text(description), c_text(parameters_schema_json)) {
        (Some(name), Some(desc), Some(schema)) => match parsed(schema) {
            Some(value) => Some((name, desc, value)),
            None => None,
        },
        _ => None,
    }
}

/// Register a tool with the agent. The schema of its parameters is JSON text.
/// Returns 0 on success, -1 on failure.
pub fn benito_agent_register_tool<T, U: Copy, D: Copy, X>(
    handle: Option<&mut BenitoAgentHandle<T, U, D, X>>,
    tool_name: Option<&[u8]>,
    description: Option<&[u8]>,
    parameters_schema_json: Option<&[u8]>,
    execute_fn: X,
) -> (r: i32)
    ensures
        r == (if handle is Some && tool_terms(
            tool_name,
            description,
            parameters_schema_json,
        ) is Some {
            0i32
        } else {
            -1i32
        }),
        handle matches Some(h) ==> final(h)@ == (match tool_terms(
            tool_name,
            description,
            parameters_schema_json,
        ) {
            Some((name, desc, schema)) => AgentView {
                tools: h@.tools.push(h@.tool(name, desc, schema, execute_fn)),
                ..h@
            },
            None => h@,
        }),
        handle matches Some(h) ==> h@.well_formed() ==> final(h)@.well_formed(),
{
    let h = match handle {
        Some(h) => h,
        None => return -1,
    };
    let name = match read_c_text(tool_name) {
        Some(s) => s,
        None => return -1,
    };
    let desc = match read_c_text(description) {
        Some(s) => s,
        None => return -1,
    };
    let schema_json = match read_c_text(parameters_schema_json) {
        Some(s) => s,
        None => return -1,
    };
    match parse(schema_json.as_str()) {
        Some(schema) => {
            h.add_tool(name, desc, schema, execute_fn);
            0
        },
        None => -1,
    }
}

/// Set what the host wants back with every call: the tools that are registered
/// already pass it on too.
pub fn benito_agent_set_user_data<T, U, D: Copy, X>(
    handle: Option<&mut BenitoAgentHandle<T, U, D, X>>,
    user_data: D,
)
    ensures
        handle matches Some(h) ==> final(h)@ == h@.with_user_data(user_data),
        handle matches Some(h) ==> h@.well_formed() ==> final(h)@.well_formed(),
{
    match handle {
        Some(h) => {
            let ghost before = h@;
            h.callbacks.user_data = user_data;
            pass_on_user_data(&mut h.tools, user_data);
            assert(h@.tools =~= before.with_user_data(user_data).tools);
        },
        None => {},
    }
}

/// Set the text delta callback, called for each chunk of assistant text.
pub fn benito_agent_set_text_delta_callback<T, U, D, X>(
    handle: Option<&mut BenitoAgentHandle<T, U, D, X>>,
    callback: Option<T>,
)
    ensures
        handle matches Some(h) ==> final(h)@ == (AgentView {
            callbacks: BenitoCallbacks { on_text_delta: callback, ..h@.callbacks },
            ..h@
        }),
        handle matches Some(h) ==> h@.well_formed() ==> final(h)@.well_formed(),
{
    match handle {
        Some(h) => {
            h.callbacks.on_text_delta = callback;
        },
        None => {},
    }
}

/// Set the tool use callback, called when the model requests a tool: the tools
/// that are registered already call it too.
pub fn benito_agent_set_tool_use_callback<T, U: Copy, D, X>(
    handle: Option<&mut BenitoAgentHandle<T, U, D, X>>,
    callback: Option<U>,
)
    ensures
        handle matches Some(h) ==> final(h)@ == h@.with_tool_use(callback),
        handle matches Some(h) ==> h@.well_formed() ==> final(h)@.well_formed(),
{
    match handle {
        Some(h) => {
            let ghost before = h@;
            h.callbacks.on_tool_use = callback;
            pass_on_tool_use(&mut h.tools, callback);
            assert(h@.tools =~= before.with_tool_use(callback).tools);
        },
        None => {},
    }
}

/// Set the done callback, called when a turn completes.
pub fn benito_agent_set_done_callback<T, U, D, X>(
    handle: Option<&mut BenitoAgentHandle<T, U, D, X>>,
    callback: Option<T>,
)
    ensures
        handle matches Some(h) ==> final(h)@ == (AgentView {
            callbacks: BenitoCallbacks { on_done: callback, ..h@.callbacks },
            ..h@
        }),
        handle matches Some(h) ==> h@.well_formed() ==> final(h)@.well_formed(),
{
    match handle {
        Some(h) => {
            h.callbacks.on_done = callback;
        },
        None => {},
    }
}

/// Set the error callback, called when an error occurs.
pub fn benito_agent_set_error_callback<T, U, D, X>(
    handle: Option<&mut BenitoAgentHandle<T, U, D, X>>,
    callback: Option<T>,
)
    ensures
        handle matches Some(h) ==> final(h)@ == (AgentView {
            callbacks: BenitoCallbacks { on_error: callback, ..h@.callbacks },
            ..h@
        }),
        handle matches Some(h) ==> h@.well_formed() ==> final(h)@.well_formed(),
{
    match handle {
        Some(h) => {
            h.callbacks.on_error = callback;
        },
        None => {},
    }
}

/// Set the context window size (in tokens) and forget what was used. Returns 0
/// on success, -1 on failure.
pub fn benito_agent_set_context_window<T, U, D, X>(
    handle: Option<&mut BenitoAgentHandle<T, U, D, X>>,
    context_tokens: usize,
) -> (r: i32)
    ensures
        r == (if handle is Some && context_tokens != 0 {
            0i32
        } else {
            -1i32
        }),
        handle matches Some(h) ==> final(h)@ == (if context_tokens != 0 {
            AgentView { context_guard: ContextGuard::fresh(context_tokens), ..h@ }
        } else {
            h@
        }),
        handle matches Some(h) ==> h@.well_formed() ==> final(h)@.well_formed(),
{
    match handle {
        Some(h) => {
            if context_tokens == 0 {
                return -1;
            }
            h.context_guard = ContextGuard::new(context_tokens);
            0
        },
        None => -1,
    }
}

/// Get current context utilization percentage (0.0 - 100.0), as the bit pattern
/// of a double; a window that is more than full counts as full.
pub fn benito_agent_context_utilization<T, U, D, X>(
    handle: Option<&BenitoAgentHandle<T, U, D, X>>,
) -> (r: u64)
    requires
        handle matches Some(h) ==> h@.context_guard.used() <= usize::MAX,
    ensures
        handle is None ==> r == ZERO,
        handle matches Some(h) ==> {
            let util = utilization(
                h@.context_guard.used(),
                h@.context_guard.context_window as nat,
            );
            r == (if util > HUNDRED {
                HUNDRED as int
            } else {
                util
            })
        },
        ZERO <= r <= HUNDRED,
        handle matches Some(h) ==> h@.context_guard.used() <= h@.context_guard.context_window
            ==> r == utilization(
            h@.context_guard.used(),
            h@.context_guard.context_window as nat,
        ),
{
    match handle {
        Some(h) => {
            proof {
                law_utilization_up_to_full(
                    h@.context_guard.used(),
                    h@.context_guard.context_window as nat,
                );
            }
            let util: u64 = h.context_guard.utilization_pct();
            if util > HUNDRED {
                HUNDRED
            } else {
                util
            }
        },
        None => ZERO,
    }
}

/// Check if context is exhausted (returns 1 if exhausted, 0 otherwise).
pub fn benito_agent_context_is_exhausted<T, U, D, X>(
    handle: Option<&BenitoAgentHandle<T, U, D, X>>,
) -> (r: i32)
    requires
        handle matches Some(h) ==> h@.context_guard.used() <= usize::MAX,
    ensures
        r == (if handle is Some && window_state(
            handle->0@.context_guard.used(),
            handle->0@.context_guard.context_window as nat,
        ) == ContextCheckResult::ContextExhausted {
            1i32
        } else {
            0i32
        }),
{
    match handle {
        Some(h) => match h.context_guard.check() {
            ContextCheckResult::ContextExhausted => 1,
            _ => 0,
        },
        None => 0,
    }
}

/// Force microcompact: clear old tool result bodies, keep recent envelopes.
/// Returns number of entries cleared.
pub fn benito_agent_microcompact<T, U, D, X>(
    handle: Option<&mut BenitoAgentHandle<T, U, D, X>>,
    keep_recent: usize,
) -> (r: i32)
    ensures
        handle is None ==> r == 0,
        handle matches Some(h) ==> {
            &&& r == to_clear(h@.history, keep_recent as nat).len() as usize as i32
            &&& final(h)@ == (AgentView {
                history: microcompacted(h@.history, keep_recent as nat),
                context_guard: h@.context_guard.after_success(),
                ..h@
            })
        },
        handle matches Some(h) ==> h@.well_formed() ==> final(h)@.well_formed(),
{
    match handle {
        Some(h) => {
            let count = h.context_guard.microcompact(&mut h.history, keep_recent);
            h.context_guard.record_compaction_success();
            count as i32
        },
        None => 0,
    }
}

/// Enable the approval gate for external-effect tools.
pub fn benito_agent_enable_approval_gate<T, U, D, X>(
    handle: Option<&mut BenitoAgentHandle<T, U, D, X>>,
)
    ensures
        handle matches Some(h) ==> final(h)@ == (AgentView {
            approval_gate: GateView { enabled: true, ..h@.approval_gate },
            ..h@
        }),
        handle matches Some(h) ==> h@.well_formed() ==> final(h)@.well_formed(),
{
    match handle {
        Some(h) => {
            h.approval_gate.enable();
        },
        None => {},
    }
}

/// Disable the approval gate.
pub fn benito_agent_disable_approval_gate<T, U, D, X>(
    handle: Option<&mut BenitoAgentHandle<T, U, D, X>>,
)
    ensures
        handle matches Some(h) ==> final(h)@ == (AgentView {
            approval_gate: GateView { enabled: false, ..h@.approval_gate },
            ..h@
        }),
        handle matches Some(h) ==> h@.well_formed() ==> final(h)@.well_formed(),
{
    match handle {
        Some(h) => {
            h.approval_gate.disable();
        },
        None => {},
    }
}

/// Add a tool to the approval allowlist (bypasses approval). Returns 0 on
/// success, -1 on failure.
pub fn benito_agent_approval_allowlist_add<T, U, D, X>(
    handle: Option<&mut BenitoAgentHandle<T, U, D, X>>,
    tool_name: Option<&[u8]>,
) -> (r: i32)
    ensures
        r == (if handle is Some && c_text(tool_name) is Some {
            0i32
        } else {
            -1i32
        }),
        handle matches Some(h) ==> final(h)@ == (match c_text(tool_name) {
            Some(name) => AgentView { approval_gate: h@.approval_gate.allowing(name), ..h@ },
            None => h@,
        }),
        handle matches Some(h) ==> h@.well_formed() ==> final(h)@.well_formed(),
{
    match (handle, read_c_text(tool_name)) {
        (Some(h), Some(name)) => {
            proof {
                law_listed_once(h@.approval_gate, name@);
            }
            h.approval_gate.add_to_allowlist(name.as_str());
            0
        },
        _ => -1,
    }
}

/// Add a conversation entry to the memory store, with the time as whole seconds
/// since the Unix epoch. Returns 0 on success, -1 on failure.
pub fn benito_agent_memory_add<T, U, D, X>(
    handle: Option<&mut BenitoAgentHandle<T, U, D, X>>,
    session_id: Option<&[u8]>,
    role: Option<&[u8]>,
    content: Option<&[u8]>,
    now: u64,
) -> (r: i32)
    ensures
        r == (if handle is Some && c_text(session_id) is Some && c_text(role) is Some && c_text(
            content,
        ) is Some {
            0i32
        } else {
            -1i32
        }),
        handle matches Some(h) ==> final(h)@ == (match (
            c_text(session_id),
            c_text(role),
            c_text(content),
        ) {
            (Some(session), Some(speaker), Some(said)) => AgentView {
                memory_store: h@.memory_store.with_entry(session, speaker, said, now),
                ..h@
            },
            _ => h@,
        }),
        handle matches Some(h) ==> h@.well_formed() ==> final(h)@.well_formed(),
{
    let h = match handle {
        Some(h) => h,
        None => return -1,
    };
    let session = match read_c_text(session_id) {
        Some(s) => s,
        None => return -1,
    };
    let speaker = match read_c_text(role) {
        Some(s) => s,
        None => return -1,
    };
    let said = match read_c_text(content) {
        Some(s) => s,
        None => return -1,
    };
    h.memory_store.add_entry(session.as_str(), speaker.as_str(), said.as_str(), now);
    0
}

/// Recall recent entries from other sessions relevant to a query, as a JSON array
/// of strings; nothing if there is no agent or an argument is null or not UTF-8.
/// A limit that is not positive stands for 5.
pub fn benito_agent_memory_recall<T, U, D, X>(
    handle: Option<&BenitoAgentHandle<T, U, D, X>>,
    current_session: Option<&[u8]>,
    query: Option<&[u8]>,
    limit: i32,
) -> (r: Option<String>)
    ensures
        r is Some <==> handle is Some && c_text(current_session) is Some && c_text(query) is Some,
        r matches Some(text) ==> {
            let lines = handle->0@.memory_store.recall(
                c_text(query)->0,
                c_text(current_session)->0,
                recall_limit(limit),
            );
            &&& text@ == written_list(lines)
            &&& spells_list(text@, lines)
            &&& fits_c_string(text@)
        },
{
    let h = match handle {
        Some(h) => h,
        None => return None,
    };
    let session = match read_c_text(current_session) {
        Some(s) => s,
        None => return None,
    };
    let wanted = match read_c_text(query) {
        Some(s) => s,
        None => return None,
    };
    let count: usize = if limit > 0 {
        limit as usize
    } else {
        DEFAULT_RECALL_LIMIT
    };
    let lines = h.memory_store.recall(wanted.as_str(), session.as_str(), count);
    match write_list(&lines) {
        Some(text) => Some(text),
        None => Some("[]".to_owned()),
    }
}

/// Clear the memory store.
pub fn benito_agent_memory_clear<T, U, D, X>(
    handle: Option<&mut BenitoAgentHandle<T, U, D, X>>,
)
    ensures
        handle matches Some(h) ==> final(h)@ == (AgentView {
            memory_store: h@.memory_store.emptied(),
            ..h@
        }),
        handle matches Some(h) ==> h@.well_formed() ==> final(h)@.well_formed(),
{
    match handle {
        Some(h) => {
            h.memory_store.clear();
        },
        None => {},
    }
}

/// Get the number of active sub-agents.
pub fn benito_agent_subagent_count<T, U, D, X>(
    handle: Option<&BenitoAgentHandle<T, U, D, X>>,
) -> (r: i32)
    ensures
        handle is None ==> r == 0,
        handle matches Some(h) ==> r == h@.subagents.len() as usize as i32,
        handle matches Some(h) ==> h@.well_formed() ==> h@.subagents.len() == running(
            h@.subagents,
        ).len(),
{
    match handle {
        Some(h) => {
            proof {
                if h@.well_formed() {
                    assert(running(h@.subagents) =~= h@.subagents.dom());
                }
            }
            h.subagents.len() as i32
        },
        None => 0,
    }
}

/// Set the maximum number of iterations per agent turn.
pub fn benito_agent_set_max_iterations<T, U, D, X>(
    handle: Option<&mut BenitoAgentHandle<T, U, D, X>>,
    max: usize,
)
    ensures
        handle matches Some(h) ==> final(h)@ == (AgentView {
            stop_hooks: StopHooks { max_iterations: max, ..h@.stop_hooks },
            ..h@
        }),
        handle matches Some(h) ==> h@.well_formed() ==> final(h)@.well_formed(),
{
    match handle {
        Some(h) => {
            h.stop_hooks.set_max_iterations(max);
        },
        None => {},
    }
}

/// Set the maximum time for an agent turn: seconds, as the bit pattern of a
/// double.
pub fn benito_agent_set_max_time<T, U, D, X>(
    handle: Option<&mut BenitoAgentHandle<T, U, D, X>>,
    seconds: u64,
)
    ensures
        handle matches Some(h) ==> final(h)@ == (AgentView {
            stop_hooks: StopHooks { max_time_seconds: seconds, ..h@.stop_hooks },
            ..h@
        }),
        handle matches Some(h) ==> h@.well_formed() ==> final(h)@.well_formed(),
{
    match handle {
        Some(h) => {
            h.stop_hooks.set_max_time(seconds);
        },
        None => {},
    }
}

/// Set the maximum cost (cents) for an agent turn. 0 = unlimited.
pub fn benito_agent_set_max_cost<T, U, D, X>(
    handle: Option<&mut BenitoAgentHandle<T, U, D, X>>,
    cents: u64,
)
    ensures
        handle matches Some(h) ==> final(h)@ == (AgentView {
            stop_hooks: StopHooks { max_cost_cents: cents, ..h@.stop_hooks },
            ..h@
        }),
        handle matches Some(h) ==> h@.well_formed() ==> final(h)@.well_formed(),
{
    match handle {
        Some(h) => {
            h.stop_hooks.set_max_cost(cents);
        },
        None => {},
    }
}

/// Get the current iteration count for the active turn.
pub fn benito_agent_current_iteration<T, U, D, X>(
    handle: Option<&BenitoAgentHandle<T, U, D, X>>,
) -> (r: i32)
    ensures
        handle is None ==> r == 0,
        handle matches Some(h) ==> r == h@.stop_hooks.current_iteration as i32,
{
    match handle {
        Some(h) => h.stop_hooks.current_iteration as i32,
        None => 0,
    }
}

/// Get the current cost (cents) for the active turn.
pub fn benito_agent_current_cost<T, U, D, X>(
    handle: Option<&BenitoAgentHandle<T, U, D, X>>,
) -> (r: u64)
    ensures
        handle is None ==> r == 0,
        handle matches Some(h) ==> r == h@.stop_hooks.current_cost_cents,
{
    match handle {
        Some(h) => h.stop_hooks.current_cost_cents,
        None => 0,
    }
}

/// The name of a tool and a scope; nothing if an argument is null or not UTF-8,
/// or there is no such scope.
pub open spec fn scope_terms(tool_name: Option<&[u8]>, scope: Option<&[u8]>) -> Option<
    (Seq<char>, ToolScope),
> {
    match (c_text(tool_name), c_text(scope)) {
        (Some(name), Some(text)) => match scope_named(text) {
            Some(level) => Some((name, level)),
            None => None,
        },
        _ => None,
    }
}

/// Set the scope/permission level for a tool. Returns 0 on success, -1 on
/// failure.
pub fn benito_agent_set_tool_scope<T, U, D, X>(
    handle: Option<&mut BenitoAgentHandle<T, U, D, X>>,
    tool_name: Option<&[u8]>,
    scope: Option<&[u8]>,
) -> (r: i32)
    ensures
        r == (if handle is Some && scope_terms(tool_name, scope) is Some {
            0i32
        } else {
            -1i32
        }),
        handle matches Some(h) ==> final(h)@ == (match scope_terms(tool_name, scope) {
            Some((name, level)) => h@.with_scope(name, level),
            None => h@,
        }),
        handle matches Some(h) ==> h@.well_formed() ==> final(h)@.well_formed(),
{
    let h = match handle {
        Some(h) => h,
        None => return -1,
    };
    let name = match read_c_text(tool_name) {
        Some(s) => s,
        None => return -1,
    };
    let scope_text = match read_c_text(scope) {
        Some(s) => s,
        None => return -1,
    };
    match ToolScope::from_str(scope_text.as_str()) {
        Some(level) => {
            h.tool_scopes.insert(name, level);
            0
        },
        None => -1,
    }
}

/// Get the scope for a tool. Returns: 0=read, 1=write, 2=admin, -1=not found.
pub fn benito_agent_get_tool_scope<T, U, D, X>(
    handle: Option<&BenitoAgentHandle<T, U, D, X>>,
    tool_name: Option<&[u8]>,
) -> (r: i32)
    ensures
        r == (match (handle, c_text(tool_name)) {
            (Some(h), Some(name)) => match h@.scope_of(name) {
                Some(level) => rank(level),
                None => -1i32,
            },
            _ => -1i32,
        }),
{
    match (handle, read_c_text(tool_name)) {
        (Some(h), Some(name)) => match h.tool_scopes.get(name.as_str()) {
            Some(level) => level.code(),
            None => -1,
        },
        _ => -1,
    }
}

/// Check if a tool is allowed given a maximum permitted scope. Returns 1 if
/// allowed, 0 if blocked.
pub fn benito_agent_check_tool_permission<T, U, D, X>(
    handle: Option<&BenitoAgentHandle<T, U, D, X>>,
    tool_name: Option<&[u8]>,
    max_scope: Option<&[u8]>,
) -> (r: i32)
    ensures
        r == (match (handle, scope_terms(tool_name, max_scope)) {
            (Some(h), Some((name, limit))) => if permitted(h@.scope_of(name), limit) {
                1i32
            } else {
                0i32
            },
            _ => 0i32,
        }),
{
    let h = match handle {
        Some(h) => h,
        None => return 0,
    };
    let name = match read_c_text(tool_name) {
        Some(s) => s,
        None => return 0,
    };
    let max_text = match read_c_text(max_scope) {
        Some(s) => s,
        None => return 0,
    };
    let limit = match ToolScope::from_str(max_text.as_str()) {
        Some(level) => level,
        None => return 0,
    };
    match h.tool_scopes.get(name.as_str()) {
        Some(level) => if level.allowed_under(limit) {
            1
        } else {
            0
        },
        None => 1,
    }
}

/// Clear the conversation history; a system prompt stays.
pub fn benito_agent_clear_history<T, U, D, X>(
    handle: Option<&mut BenitoAgentHandle<T, U, D, X>>,
) -> (r: i32)
    ensures
        r == (if handle is Some {
            0i32
        } else {
            -1i32
        }),
        handle matches Some(h) ==> final(h)@ == h@.history_cleared(),
        handle matches Some(h) ==> h@.well_formed() ==> final(h)@.well_formed(),
{
    match handle {
        Some(h) => {
            let ghost before = h@;
            h.history.clear();
            if !h.system_prompt.as_str().is_empty() {
                h.history.insert(0, ChatMessage::system(h.system_prompt.as_str()));
            }
            assert(h@.history =~= before.history_cleared().history);
            0
        },
        None => -1,
    }
}

/// The scope that was set for a tool last is the one that is read, and the
/// scopes of other tools stay.
pub proof fn law_scope_reads_back<T, U, D, X>(
    agent: AgentView<T, U, D, X>,
    tool: Seq<char>,
    scope: ToolScope,
    other: Seq<char>,
)
    ensures
        agent.with_scope(tool, scope).scope_of(tool) == Some(scope),
        other != tool ==> agent.with_scope(tool, scope).scope_of(other) == agent.scope_of(other),
{
}

/// A tool for which no scope was set is permitted under every limit, and one for
/// which a scope was set is permitted exactly under that one and wider ones.
pub proof fn law_permission_follows_scope<T, U, D, X>(
    agent: AgentView<T, U, D, X>,
    tool: Seq<char>,
    scope: ToolScope,
    limit: ToolScope,
)
    ensures
        !agent.tool_scopes.contains_key(tool) ==> permitted(agent.scope_of(tool), limit),
        permitted(agent.with_scope(tool, scope).scope_of(tool), limit) <==> rank(scope) <= rank(
            limit,
        ),
{
}

/// A new agent has no provider, no model, no tools, no history, no sub-agents and
/// no scopes, and remembers nothing; its gate lets every tool pass, its window has
/// room and no limit stops its first round.
pub proof fn law_new_agent<T, U, D, X>(no_user_data: D, tool: Seq<char>)
    ensures
        AgentView::<T, U, D, X>::initial(no_user_data).well_formed(),
        AgentView::<T, U, D, X>::initial(no_user_data).provider is None,
        AgentView::<T, U, D, X>::initial(no_user_data).model.len() == 0,
        AgentView::<T, U, D, X>::initial(no_user_data).tools.len() == 0,
        AgentView::<T, U, D, X>::initial(no_user_data).history.len() == 0,
        AgentView::<T, U, D, X>::initial(no_user_data).subagents.len() == 0,
        AgentView::<T, U, D, X>::initial(no_user_data).memory_store.conversations.len() == 0,
        AgentView::<T, U, D, X>::initial(no_user_data).scope_of(tool) is None,
        !AgentView::<T, U, D, X>::initial(no_user_data).approval_gate.needs_approval(tool),
        window_state(
            AgentView::<T, U, D, X>::initial(no_user_data).context_guard.used(),
            DEFAULT_CONTEXT_WINDOW as nat,
        ) == ContextCheckResult::Room,
        AgentView::<T, U, D, X>::initial(no_user_data).stop_hooks.ticked().verdict(ZERO)
            is Continue,
{
    law_unused_window_has_room(DEFAULT_CONTEXT_WINDOW as nat);
    lemma_initial_list();
}

/// The temperature of an agent is a number between 0.0 and 2.0 from the start, and
/// whatever it is set to, it stays one.
pub proof fn law_temperature_in_range<T, U, D, X>(no_user_data: D, temperature: u64)
    ensures
        !is_nan(AgentView::<T, U, D, X>::initial(no_user_data).temperature),
        order_key(ZERO) <= order_key(AgentView::<T, U, D, X>::initial(no_user_data).temperature)
            <= order_key(TWO),
        !is_nan(held(temperature, ZERO, TWO)),
        order_key(ZERO) <= order_key(held(temperature, ZERO, TWO)) <= order_key(TWO),
{
    law_held_between(temperature, ZERO, TWO);
}

/// A tool passes on the user data that were set last and calls the tool use
/// callback that was set last, whether it was registered before or after.
pub proof fn law_tools_follow_the_host<T, U, D, X>(
    agent: AgentView<T, U, D, X>,
    tool: ToolView<U, D, X>,
    user_data: D,
    callback: Option<U>,
    i: int,
)
    requires
        0 <= i < agent.tools.len(),
    ensures
        agent.with_user_data(user_data).tools[i] == (ToolView { user_data, ..agent.tools[i] }),
        agent.with_tool_use(callback).tools[i] == (ToolView {
            on_tool_use: callback,
            ..agent.tools[i]
        }),
        agent.with_user_data(user_data).tool(
            tool.name,
            tool.description,
            tool.parameters_schema,
            tool.execute_fn,
        ).user_data == user_data,
        agent.with_tool_use(callback).tool(
            tool.name,
            tool.description,
            tool.parameters_schema,
            tool.execute_fn,
        ).on_tool_use == callback,
{
}

/// Clearing the history leaves the system prompt alone or nothing, clearing it
/// again changes nothing, and a turn that starts then puts no second system
/// message in front.
pub proof fn law_cleared_history<T, U, D, X>(agent: AgentView<T, U, D, X>)
    ensures
        agent.history_cleared().history.len() <= 1,
        agent.history_cleared().history_cleared() == agent.history_cleared(),
        with_system_prompt(agent.history_cleared().history, agent.system_prompt)
            == agent.history_cleared().history,
{
    if agent.system_prompt.len() > 0 {
        assert(agent.history_cleared().history[0].role == "system"@);
    }
}

/// A microcompaction closes the circuit.
pub proof fn law_microcompact_closes_circuit<T, U, D, X>(agent: AgentView<T, U, D, X>)
    requires
        agent.well_formed(),
    ensures
        !agent.context_guard.after_success().broken(),
{
}

/// What an agent takes into its memory comes last there.
pub proof fn law_new_memory_comes_last<T, U, D, X>(
    agent: AgentView<T, U, D, X>,
    session_id: Seq<char>,
    role: Seq<char>,
    content: Seq<char>,
    now: u64,
)
    requires
        agent.well_formed(),
    ensures
        agent.memory_store.with_entry(session_id, role, content, now).conversations.len() > 0,
        agent.memory_store.with_entry(session_id, role, content, now).conversations.last()
            == agent.memory_store.entry(session_id, role, content, now),
{
    law_newest_entries_stay(agent.memory_store, session_id, role, content, now);
}

/// An agent shows all that it holds.
pub proof fn law_agent_is_seen<T, U, D, X>(agent: BenitoAgentHandle<T, U, D, X>, i: int)
    ensures
        agent@.provider is Some <==> agent.provider is Some,
        agent.provider is Some ==> agent@.provider == Some(agent.provider->0@),
        agent@.model == agent.model@,
        agent@.temperature == agent.temperature,
        agent@.tools.len() == agent.tools@.len(),
        0 <= i < agent.tools@.len() ==> agent@.tools[i] == agent.tools@[i]@,
        agent@.history.len() == agent.history@.len(),
        0 <= i < agent.history@.len() ==> agent@.history[i] == agent.history@[i]@,
        agent@.system_prompt == agent.system_prompt@,
        agent@.callbacks == agent.callbacks,
        agent@.context_guard == agent.context_guard,
        agent@.approval_gate == agent.approval_gate@,
        agent@.memory_store == agent.memory_store@,
        agent@.subagents == agent.subagents@,
        agent@.stop_hooks == agent.stop_hooks,
        agent@.tool_scopes == agent.tool_scopes@,
{
}

/// What a new agent is set to: a temperature of 0.7, a window of 128000 tokens, no
/// callback, the given user data, and the parts of an agent as they are when new.
pub proof fn law_settings_of_a_new_agent<T, U, D, X>(no_user_data: D)
    ensures
        ({
            let agent = AgentView::<T, U, D, X>::initial(no_user_data);
            &&& agent.temperature == 0x3fe6_6666_6666_6666
            &&& agent.context_guard == ContextGuard::fresh(128_000)
            &&& agent.system_prompt.len() == 0
            &&& agent.callbacks.on_text_delta is None
            &&& agent.callbacks.on_tool_use is None
            &&& agent.callbacks.on_tool_result is None
            &&& agent.callbacks.on_done is None
            &&& agent.callbacks.on_error is None
            &&& agent.callbacks.user_data == no_user_data
            &&& agent.approval_gate == GateView::initial()
            &&& agent.memory_store == MemoryView::initial()
            &&& agent.stop_hooks == StopHooks::initial()
            &&& agent.tool_scopes.dom() =~= Set::empty()
        }),
{
}

/// Setting a provider takes an agent, three texts and a known provider, and gives the
/// provider of that name with that key, and the model as it is.
pub proof fn law_provider_takes_all_arguments(
    agent: bool,
    provider_name: Option<&[u8]>,
    api_key: Option<&[u8]>,
    model: Option<&[u8]>,
    name_text: Seq<char>,
    key_text: Seq<char>,
    model_text: Seq<char>,
)
    ensures
        !agent || c_text(provider_name) is None || c_text(api_key) is None || c_text(model) is None
            ==> provider_settings(agent, provider_name, api_key, model) is None,
        agent && c_text(provider_name) == Some(name_text) && c_text(api_key) == Some(key_text)
            && c_text(model) == Some(model_text) ==> {
            let set = provider_settings(agent, provider_name, api_key, model);
            &&& set is Some <==> provider_named(name_text, key_text) is Ok
            &&& set is Some ==> (set->0).0 == provider_named(name_text, key_text)->Ok_0
            &&& set is Some ==> (set->0).1 == model_text
        },
{
}

/// Registering a tool takes three texts, the last of them JSON, and gives the tool
/// the name, the description and the parsed schema as they are, and the callbacks of
/// the agent.
pub proof fn law_tool_takes_all_arguments<T, U, D, X>(
    agent: AgentView<T, U, D, X>,
    tool_name: Option<&[u8]>,
    description: Option<&[u8]>,
    schema_json: Option<&[u8]>,
    name_text: Seq<char>,
    description_text: Seq<char>,
    schema_text: Seq<char>,
    schema: Value,
    execute_fn: X,
)
    ensures
        c_text(tool_name) is None || c_text(description) is None || c_text(schema_json) is None
            ==> tool_terms(tool_name, description, schema_json) is None,
        c_text(tool_name) == Some(name_text) && c_text(description) == Some(description_text)
            && c_text(schema_json) == Some(schema_text) ==> {
            let terms = tool_terms(tool_name, description, schema_json);
            &&& terms is Some <==> parsed(schema_text) is Some
            &&& terms is Some ==> (terms->0).0 == name_text
            &&& terms is Some ==> (terms->0).1 == description_text
            &&& terms is Some ==> (terms->0).2 == parsed(schema_text)->0
        },
        ({
            let tool = agent.tool(name_text, description_text, schema, execute_fn);
            &&& tool.name == name_text
            &&& tool.description == description_text
            &&& tool.parameters_schema == schema
            &&& tool.execute_fn == execute_fn
            &&& tool.user_data == agent.callbacks.user_data
            &&& tool.on_tool_use == agent.callbacks.on_tool_use
        }),
{
}

/// Scoping a tool takes two texts, the second the name of a scope.
pub proof fn law_scope_takes_all_arguments(
    tool_name: Option<&[u8]>,
    scope: Option<&[u8]>,
    name_text: Seq<char>,
    scope_text: Seq<char>,
)
    ensures
        c_text(tool_name) is None || c_text(scope) is None ==> scope_terms(tool_name, scope)
            is None,
        c_text(tool_name) == Some(name_text) && c_text(scope) == Some(scope_text) ==> {
            let terms = scope_terms(tool_name, scope);
            &&& terms is Some <==> scope_named(scope_text) is Some
            &&& terms is Some ==> (terms->0).0 == name_text
            &&& terms is Some ==> Some((terms->0).1) == scope_named(scope_text)
        },
{
}

/// What each of these calls leaves alone: setting user data or the tool use callback
/// touches the callbacks and the tools only, scoping a tool the scopes only, and
/// clearing the history the history only.
pub proof fn law_changes_are_local<T, U, D, X>(
    agent: AgentView<T, U, D, X>,
    user_data: D,
    callback: Option<U>,
    tool: Seq<char>,
    scope: ToolScope,
)
    ensures
        agent.with_user_data(user_data) == (AgentView {
            callbacks: BenitoCallbacks { user_data, ..agent.callbacks },
            tools: agent.with_user_data(user_data).tools,
            ..agent
        }),
        agent.with_user_data(user_data).tools.len() == agent.tools.len(),
        agent.with_tool_use(callback) == (AgentView {
            callbacks: BenitoCallbacks { on_tool_use: callback, ..agent.callbacks },
            tools: agent.with_tool_use(callback).tools,
            ..agent
        }),
        agent.with_tool_use(callback).tools.len() == agent.tools.len(),
        agent.with_scope(tool, scope) == (AgentView {
            tool_scopes: agent.tool_scopes.insert(tool, scope),
            ..agent
        }),
        agent.history_cleared() == (AgentView {
            history: agent.history_cleared().history,
            ..agent
        }),
        agent.scope_of(tool) == Some(scope) <==> agent.tool_scopes.contains_key(tool)
            && agent.tool_scopes[tool] == scope,
        agent.scope_of(tool) is None <==> !agent.tool_scopes.contains_key(tool),
{
}

/// A cleared history is the system prompt as the system's message, or nothing if
/// there is no system prompt.
pub proof fn law_cleared_history_is_the_system_prompt<T, U, D, X>(agent: AgentView<T, U, D, X>)
    ensures
        agent.system_prompt.len() == 0 ==> agent.history_cleared().history.len() == 0,
        agent.system_prompt.len() > 0 ==> {
            &&& agent.history_cleared().history.len() == 1
            &&& agent.history_cleared().history[0].role == "system"@
            &&& agent.history_cleared().history[0].content == agent.system_prompt
        },
{
}

/// A positive number of entries is asked for as it is; any other stands for five.
pub proof fn law_how_many_are_recalled(limit: i32)
    ensures
        limit > 0 ==> recall_limit(limit) == limit,
        limit <= 0 ==> recall_limit(limit) == 5,
{
}

} // verus!
