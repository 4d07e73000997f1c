//! Turns of the agent: how a prompt is taken in, what a turn is started with,
//! and what is reported of it.

use crate::agent::{optional_provider, AgentView, BenitoAgentHandle, BenitoCallbacks};
use crate::chat::{
    byte_len, copy_history, estimate_tokens, law_every_message_counts, messages, token_estimate,
    user_message, with_system_prompt, ChatMessage, MessageView,
};
use crate::context::ContextGuard;
use crate::doubles::greater;
use crate::memory::{entry_line, law_remembered_is_recalled};
use crate::provider::{OpenAiCompatibleProvider, ProviderView};
use crate::stop::{law_iteration_budget, StopHooks};
use crate::text::{c_text, fits_c_string, is_c_string, read_c_text, texts};
use crate::tool::{tool_views, FFITool, ToolView};
use vstd::prelude::*;
use vstd::utf8::encode_utf8;

verus! {

/// How a turn asks the tool call loop to run.
#[derive(Debug, PartialEq, Eq)]
pub struct TurnSettings {
    /// What the provider is called in the loop.
    pub provider_label: String,
    /// Through which channel the prompt came.
    pub channel: String,
    /// The rounds of tool calls that are allowed.
    pub max_iterations: usize,
    /// The time that is allowed, in seconds, as the bit pattern of a double.
    pub max_time_seconds: u64,
    /// The cost that is allowed, in cents; 0 stands for any.
    pub max_cost_cents: u64,
    /// Whether output is suppressed.
    pub silent: bool,
}

/// The settings with their texts.
pub struct SettingsView {
    pub provider_label: Seq<char>,
    pub channel: Seq<char>,
    pub max_iterations: usize,
    pub max_time_seconds: u64,
    pub max_cost_cents: u64,
    pub silent: bool,
}

impl View for TurnSettings {
    type V = SettingsView;

    open spec fn view(&self) -> SettingsView {
        SettingsView {
            provider_label: self.provider_label@,
            channel: self.channel@,
            max_iterations: self.max_iterations,
            max_time_seconds: self.max_time_seconds,
            max_cost_cents: self.max_cost_cents,
            silent: self.silent,
        }
    }
}

/// How the tool call loop is asked to run under the limits that are set.
pub open spec fn settings_under(limits: StopHooks) -> SettingsView {
    SettingsView {
        provider_label: "custom"@,
        channel: "benito-ffi"@,
        max_iterations: limits.max_iterations,
        max_time_seconds: limits.max_time_seconds,
        max_cost_cents: limits.max_cost_cents,
        silent: false,
    }
}

/// Everything that a turn in the background runs on.
pub struct AgentTurn<T, U, D, X> {
    pub provider: Option<OpenAiCompatibleProvider>,
    pub model: String,
    /// Sampling temperature, as the bit pattern of a double.
    pub temperature: u64,
    pub system_prompt: String,
    pub tools: Vec<FFITool<U, D, X>>,
    pub callbacks: BenitoCallbacks<T, U, D>,
    pub history: Vec<ChatMessage>,
    pub settings: TurnSettings,
    /// What stops the turn; its rounds are counted here.
    pub stop_hooks: StopHooks,
}

/// A turn with its texts.
pub struct TurnView<T, U, D, X> {
    pub provider: Option<ProviderView>,
    pub model: Seq<char>,
    pub temperature: u64,
    pub system_prompt: Seq<char>,
    pub tools: Seq<ToolView<U, D, X>>,
    pub callbacks: BenitoCallbacks<T, U, D>,
    pub history: Seq<MessageView>,
    pub settings: SettingsView,
    pub stop_hooks: StopHooks,
}

impl<T, U, D, X> View for AgentTurn<T, U, D, X> {
    type V = TurnView<T, U, D, X>;

    open spec fn view(&self) -> TurnView<T, U, D, X> {
        TurnView {
            provider: optional_provider(self.provider),
            model: self.model@,
            temperature: self.temperature,
            system_prompt: self.system_prompt@,
            tools: tool_views(self.tools@),
            callbacks: self.callbacks,
            history: messages(self.history@),
            settings: self.settings@,
            stop_hooks: self.stop_hooks,
        }
    }
}

/// A callback that is due, with the text that goes with it.
#[derive(Debug, PartialEq, Eq)]
pub struct Notice<T, D> {
    pub callback: T,
    pub user_data: D,
    pub text: String,
}

/// A callback that is due, with its text.
pub struct NoticeView<T, D> {
    pub callback: T,
    pub user_data: D,
    pub text: Seq<char>,
}

impl<T, D> View for Notice<T, D> {
    type V = NoticeView<T, D>;

    open spec fn view(&self) -> NoticeView<T, D> {
        NoticeView { callback: self.callback, user_data: self.user_data, text: self.text@ }
    }
}

/// What became of a prompt.
pub enum PromptOutcome<T, U, D, X> {
    /// There is no agent, or the prompt is null or not UTF-8.
    Rejected,
    /// No model is set; the host is told so if it listens.
    Unconfigured(Option<Notice<T, D>>),
    /// A turn is to be run.
    Started(AgentTurn<T, U, D, X>),
}

/// What became of a prompt whose answer the host waits for.
pub enum BlockingOutcome<T, D> {
    /// There is no agent, or the prompt is null or not UTF-8.
    Rejected,
    /// No model is set; the host is told so if it listens.
    Unconfigured(Option<Notice<T, D>>),
    /// A turn is to be run, on the history and the tools of the agent: the
    /// settings of the loop, and what stops the turn.
    Ready(TurnSettings, StopHooks),
}

/// The notice that a text gives rise to: none if nobody listens or the text has
/// a NUL.
pub open spec fn noticed<T, D>(callback: Option<T>, user_data: D, text: Seq<char>) -> Option<
    NoticeView<T, D>,
> {
    match callback {
        Some(cb) => if fits_c_string(text) {
            Some(NoticeView { callback: cb, user_data, text })
        } else {
            None
        },
        None => None,
    }
}

/// An optional notice with its text.
pub open spec fn optional_notice<T, D>(n: Option<Notice<T, D>>) -> Option<NoticeView<T, D>> {
    match n {
        Some(notice) => Some(notice@),
        None => None,
    }
}

/// The views of a list of notices.
pub open spec fn notice_views<T, D>(notices: Seq<Notice<T, D>>) -> Seq<NoticeView<T, D>> {
    Seq::new(notices.len(), |i: int| notices[i]@)
}

/// The chunks of a text that can be handed out as C strings, in order.
pub open spec fn deliverable(chunks: Seq<Seq<char>>) -> Seq<Seq<char>> {
    chunks.filter(|chunk: Seq<char>| fits_c_string(chunk))
}

/// The notices that chunks of assistant text give rise to: none if nobody listens,
/// else one for each chunk without a NUL, in order.
pub open spec fn deltas_noticed<T, U, D>(
    callbacks: BenitoCallbacks<T, U, D>,
    chunks: Seq<Seq<char>>,
) -> Seq<NoticeView<T, D>> {
    match callbacks.on_text_delta {
        Some(callback) => Seq::new(
            deliverable(chunks).len(),
            |i: int|
                NoticeView {
                    callback,
                    user_data: callbacks.user_data,
                    text: deliverable(chunks)[i],
                },
        ),
        None => Seq::empty(),
    }
}

/// The notice at the end of a turn: the final text goes to the done callback,
/// an error to the error callback.
pub open spec fn reported<T, U, D>(
    callbacks: BenitoCallbacks<T, U, D>,
    succeeded: bool,
    text: Seq<char>,
) -> Option<NoticeView<T, D>> {
    if succeeded {
        noticed(callbacks.on_done, callbacks.user_data, text)
    } else {
        noticed(callbacks.on_error, callbacks.user_data, text)
    }
}

impl<T, U, D, X> AgentView<T, U, D, X> {
    /// The turn that a prompt starts: it takes the tools with it and works on a
    /// copy of the history, with the prompt at its end.
    /// It runs under the limits that are set, and its rounds, its time and its cost
    /// are counted from its start.
    pub open spec fn turn(self, prompt: Seq<char>, now: u64) -> TurnView<T, U, D, X> {
        TurnView {
            provider: self.provider,
            model: self.model,
            temperature: self.temperature,
            system_prompt: self.system_prompt,
            tools: self.tools,
            callbacks: self.callbacks,
            history: self.history.push(user_message(prompt)),
            settings: settings_under(self.stop_hooks),
            stop_hooks: self.stop_hooks.started(now),
        }
    }

    /// The token estimate of the history with a prompt at its end.
    pub open spec fn prompt_tokens(self, prompt: Seq<char>) -> nat {
        token_estimate(self.history.push(user_message(prompt)))
    }

    /// The agent after it has started a turn: the tools have gone, the prompt is
    /// remembered, and the use of the context window is noted.
    pub open spec fn turn_started(self, prompt: Seq<char>, now: u64) -> AgentView<T, U, D, X> {
        AgentView {
            tools: Seq::empty(),
            memory_store: self.memory_store.with_entry("default"@, "user"@, prompt, now),
            context_guard: ContextGuard {
                last_input_tokens: self.prompt_tokens(prompt) as usize,
                last_output_tokens: 0,
                ..self.context_guard
            },
            ..self
        }
    }

    /// The agent before a turn that the host waits for: the prompt stands at the
    /// end of the history.
    pub open spec fn prompted(self, prompt: Seq<char>) -> AgentView<T, U, D, X> {
        AgentView { history: self.history.push(user_message(prompt)), ..self }
    }
}

/// What is said while no provider is set.
pub fn no_provider_text() -> (s: String)
    ensures
        s@ == "No provider configured. Call benito_agent_set_provider() first."@,
{
    "No provider configured. Call benito_agent_set_provider() first.".to_owned()
}

/// The settings of a turn under the limits that are set.
pub fn turn_settings(hooks: &StopHooks) -> (r: TurnSettings)
    ensures
        r@ == settings_under(*hooks),
        r.max_iterations == hooks.max_iterations,
        r.max_time_seconds == hooks.max_time_seconds,
        r.max_cost_cents == hooks.max_cost_cents,
{
    TurnSettings {
        provider_label: "custom".to_owned(),
        channel: "benito-ffi".to_owned(),
        max_iterations: hooks.max_iterations,
        max_time_seconds: hooks.max_time_seconds,
        max_cost_cents: hooks.max_cost_cents,
        silent: false,
    }
}

/// What stops a turn that starts now.
pub fn turn_hooks(hooks: &StopHooks, now: u64) -> (r: StopHooks)
    ensures
        r == hooks.started(now),
{
    let mut r = *hooks;
    r.start_turn(now);
    r
}

/// The notice that a text gives rise to.
pub fn notice<T, D>(callback: Option<T>, user_data: D, text: String) -> (r: Option<Notice<T, D>>)
    ensures
        optional_notice(r) == noticed(callback, user_data, text@),
{
    match callback {
        Some(callback) => if is_c_string(text.as_str()) {
            Some(Notice { callback, user_data, text })
        } else {
            None
        },
        None => None,
    }
}

/// The notice of a chunk of assistant text.
pub fn delta_notice<T: Copy, U, D: Copy>(
    callbacks: &BenitoCallbacks<T, U, D>,
    text: String,
) -> (r: Option<Notice<T, D>>)
    ensures
        optional_notice(r) == noticed(callbacks.on_text_delta, callbacks.user_data, text@),
{
    notice(callbacks.on_text_delta, callbacks.user_data, text)
}

/// The notices of the chunks of assistant text that a turn has left.
pub fn delta_notices<T: Copy, U, D: Copy>(
    callbacks: &BenitoCallbacks<T, U, D>,
    chunks: Vec<String>,
) -> (r: Vec<Notice<T, D>>)
    ensures
        notice_views(r@) == deltas_noticed(*callbacks, texts(chunks@)),
{
    let ghost all = texts(chunks@);
    let mut r: Vec<Notice<T, D>> = Vec::new();
    let mut i: usize = 0;
    proof {
        reveal(Seq::filter);
        assert(notice_views(r@) =~= deltas_noticed(*callbacks, all.take(0)));
    }
    while i < chunks.len()
        invariant
            i <= chunks@.len(),
            all == texts(chunks@),
            notice_views(r@) == deltas_noticed(*callbacks, all.take(i as int)),
        decreases chunks@.len() - i,
    {
        let ghost before = notice_views(r@);
        proof {
            reveal(Seq::filter);
            assert(all.take(i + 1).drop_last() =~= all.take(i as int));
            assert(all.take(i + 1).last() == chunks@[i as int]@);
        }
        match delta_notice(callbacks, chunks[i].clone()) {
            Some(notice) => {
                let ghost added = notice@;
                r.push(notice);
                assert(notice_views(r@) =~= before.push(added));
                assert(before.push(added) =~= deltas_noticed(*callbacks, all.take(i + 1)));
            },
            None => {
                assert(before =~= deltas_noticed(*callbacks, all.take(i + 1)));
            },
        }
        i += 1;
    }
    assert(all.take(i as int) =~= all);
    r
}

/// The notice at the end of a turn, given its final text or its error in words.
pub fn turn_report<T: Copy, U, D: Copy>(
    callbacks: &BenitoCallbacks<T, U, D>,
    result: Result<String, String>,
) -> (r: Option<Notice<T, D>>)
    ensures
        optional_notice(r) == (match result {
            Ok(text) => reported(*callbacks, true, text@),
            Err(text) => reported(*callbacks, false, text@),
        }),
{
    match result {
        Ok(text) => notice(callbacks.on_done, callbacks.user_data, text),
        Err(text) => notice(callbacks.on_error, callbacks.user_data, text),
    }
}

/// What a host that waits for a turn gets: the final text, or nothing if the
/// turn failed or the text has a NUL.
pub fn blocking_reply(result: Result<String, String>) -> (r: Option<String>)
    ensures
        match r {
            Some(text) => result is Ok && text@ == result->Ok_0@ && fits_c_string(text@),
            None => result is Err || !fits_c_string(result->Ok_0@),
        },
{
    match result {
        Ok(text) => if is_c_string(text.as_str()) {
            Some(text)
        } else {
            None
        },
        Err(_) => None,
    }
}

/// The end of a turn that the host waits for, given its final text or its error in
/// words: what the host gets, and the notice of it.
pub fn blocking_report<T: Copy, U, D: Copy>(
    callbacks: &BenitoCallbacks<T, U, D>,
    result: Result<String, String>,
) -> (r: (Option<String>, Option<Notice<T, D>>))
    ensures
        match r.0 {
            Some(text) => result is Ok && text@ == result->Ok_0@ && fits_c_string(text@),
            None => result is Err || !fits_c_string(result->Ok_0@),
        },
        optional_notice(r.1) == (match result {
            Ok(text) => reported(*callbacks, true, text@),
            Err(text) => reported(*callbacks, false, text@),
        }),
{
    let told = match &result {
        Ok(text) => turn_report(callbacks, Ok(text.clone())),
        Err(text) => turn_report(callbacks, Err(text.clone())),
    };
    (blocking_reply(result), told)
}

/// What the host is told, if it listens, of a prompt that comes before a provider
/// was set.
pub open spec fn unconfigured<T, U, D>(callbacks: BenitoCallbacks<T, U, D>) -> Option<
    NoticeView<T, D>,
> {
    noticed(
        callbacks.on_error,
        callbacks.user_data,
        "No provider configured. Call benito_agent_set_provider() first."@,
    )
}

/// The notice of a prompt that comes before a provider was set.
pub fn unconfigured_notice<T: Copy, U, D: Copy>(callbacks: &BenitoCallbacks<T, U, D>) -> (r: Option<
    Notice<T, D>,
>)
    ensures
        optional_notice(r) == unconfigured(*callbacks),
        r is Some <==> callbacks.on_error is Some,
{
    proof {
        reveal_strlit("No provider configured. Call benito_agent_set_provider() first.");
    }
    notice(callbacks.on_error, callbacks.user_data, no_provider_text())
}

impl<T, U, D, X> PromptOutcome<T, U, D, X> {
    /// What the host is told at once: 0 if a turn was started, -1 otherwise.
    pub fn code(&self) -> (r: i32)
        ensures
            r == (if self is Started {
                0i32
            } else {
                -1i32
            }),
    {
        match self {
            PromptOutcome::Started(_) => 0,
            _ => -1,
        }
    }
}

/// Send a prompt to the agent and start a turn, with the time as whole seconds
/// since the Unix epoch.
pub fn benito_agent_send_prompt<T: Copy, U: Copy, D: Copy, X>(
    handle: Option<&mut BenitoAgentHandle<T, U, D, X>>,
    prompt: Option<&[u8]>,
    now: u64,
) -> (r: PromptOutcome<T, U, D, X>)
    requires
        handle is Some && c_text(prompt) is Some && handle->0@.model.len() != 0
            ==> handle->0@.prompt_tokens(c_text(prompt)->0) <= usize::MAX,
    ensures
        r is Rejected <==> handle is None || c_text(prompt) is None,
        r is Unconfigured <==> handle is Some && c_text(prompt) is Some && handle->0@.model.len()
            == 0,
        r matches PromptOutcome::Unconfigured(n) ==> optional_notice(n) == unconfigured(
            handle->0@.callbacks,
        ) && (n is Some <==> handle->0@.callbacks.on_error is Some),
        r matches PromptOutcome::Started(turn) ==> turn@ == handle->0@.turn(
            c_text(prompt)->0,
            now,
        ),
        handle matches Some(h) ==> final(h)@ == (if r is Started {
            h@.turn_started(c_text(prompt)->0, now)
        } else {
            h@
        }),
        handle matches Some(h) ==> h@.well_formed() ==> final(h)@.well_formed(),
{
    let h = match handle {
        Some(h) => h,
        None => return PromptOutcome::Rejected,
    };
    let text = match read_c_text(prompt) {
        Some(s) => s,
        None => return PromptOutcome::Rejected,
    };
    if h.model.as_str().is_empty() {
        return PromptOutcome::Unconfigured(unconfigured_notice(&h.callbacks));
    }
    let ghost before = h@;
    let mut tools: Vec<FFITool<U, D, X>> = Vec::new();
    std::mem::swap(&mut tools, &mut h.tools);
    let mut history = copy_history(&h.history);
    history.push(ChatMessage::user(text.as_str()));
    assert(messages(history@) =~= before.turn(text@, now).history);
    h.memory_store.add_entry("default", "user", text.as_str(), now);
    match estimate_tokens(&history) {
        Some(tokens) => h.context_guard.update_usage(tokens, 0),
        None => {},
    }
    assert(h@.tools =~= Seq::<ToolView<U, D, X>>::empty());
    PromptOutcome::Started(
        AgentTurn {
            provider: match &h.provider {
                Some(p) => Some(p.clone()),
                None => None,
            },
            model: h.model.clone(),
            temperature: h.temperature,
            system_prompt: h.system_prompt.clone(),
            tools,
            callbacks: h.callbacks,
            history,
            settings: turn_settings(&h.stop_hooks),
            stop_hooks: turn_hooks(&h.stop_hooks, now),
        },
    )
}

/// Take in a prompt for a turn that the host waits for, with the time as whole
/// seconds since the Unix epoch.
pub fn benito_agent_send_prompt_blocking<T: Copy, U, D: Copy, X>(
    handle: Option<&mut BenitoAgentHandle<T, U, D, X>>,
    prompt: Option<&[u8]>,
    now: u64,
) -> (r: BlockingOutcome<T, D>)
    ensures
        r is Rejected <==> handle is None || c_text(prompt) is None,
        r is Unconfigured <==> handle is Some && c_text(prompt) is Some && handle->0@.model.len()
            == 0,
        r matches BlockingOutcome::Unconfigured(n) ==> optional_notice(n) == unconfigured(
            handle->0@.callbacks,
        ) && (n is Some <==> handle->0@.callbacks.on_error is Some),
        r matches BlockingOutcome::Ready(settings, hooks) ==> {
            &&& settings@ == settings_under(handle->0@.stop_hooks)
            &&& settings.max_iterations == handle->0@.stop_hooks.max_iterations
            &&& hooks == handle->0@.stop_hooks.started(now)
        },
        handle matches Some(h) ==> final(h)@ == (if r is Ready {
            h@.prompted(c_text(prompt)->0)
        } else {
            h@
        }),
        handle matches Some(h) ==> h@.well_formed() ==> final(h)@.well_formed(),
{
    let h = match handle {
        Some(h) => h,
        None => return BlockingOutcome::Rejected,
    };
    let text = match read_c_text(prompt) {
        Some(s) => s,
        None => return BlockingOutcome::Rejected,
    };
    if h.model.as_str().is_empty() {
        return BlockingOutcome::Unconfigured(unconfigured_notice(&h.callbacks));
    }
    let ghost before = h@;
    h.history.push(ChatMessage::user(text.as_str()));
    assert(h@.history =~= before.prompted(text@).history);
    BlockingOutcome::Ready(turn_settings(&h.stop_hooks), turn_hooks(&h.stop_hooks, now))
}

/// A turn keeps to the limits that are set on its agent: after a number of rounds,
/// a time and a cost it goes on exactly if none of the three is beyond its limit. A
/// cost limit of 0 is none.
pub proof fn law_turn_keeps_to_limits<T, U, D, X>(
    agent: AgentView<T, U, D, X>,
    prompt: Seq<char>,
    now: u64,
    rounds: nat,
    elapsed: u64,
    cost: u64,
)
    requires
        0 < rounds <= usize::MAX,
    ensures
        agent.turn(prompt, now).settings.max_iterations == agent.stop_hooks.max_iterations,
        ({
            let limits = agent.stop_hooks;
            let hooks = StopHooks {
                current_cost_cents: cost,
                ..agent.turn(prompt, now).stop_hooks.ticked_times(rounds)
            };
            hooks.verdict(elapsed) is Continue <==> {
                &&& rounds <= limits.max_iterations
                &&& !greater(elapsed, limits.max_time_seconds)
                &&& limits.max_cost_cents == 0 || cost <= limits.max_cost_cents
            }
        }),
{
    law_iteration_budget(agent.stop_hooks, now, rounds, elapsed);
}

/// The tools go with the first turn that is started in the background: it has
/// all of them, and the next one has none.
pub proof fn law_tools_go_with_the_turn<T, U, D, X>(
    agent: AgentView<T, U, D, X>,
    prompt: Seq<char>,
    now: u64,
    next: Seq<char>,
    later: u64,
)
    ensures
        agent.turn(prompt, now).tools == agent.tools,
        agent.turn_started(prompt, now).turn(next, later).tools.len() == 0,
{
}

/// A turn in the background works on a copy: the history of the agent stays, so
/// the next turn starts from it too.
pub proof fn law_background_turn_keeps_history<T, U, D, X>(
    agent: AgentView<T, U, D, X>,
    prompt: Seq<char>,
    now: u64,
    next: Seq<char>,
    later: u64,
)
    ensures
        agent.turn_started(prompt, now).history == agent.history,
        agent.turn_started(prompt, now).turn(next, later).history == agent.turn(
            next,
            later,
        ).history,
{
}

/// The prompt is the last message that a turn sees, also after the system prompt
/// was put in front.
pub proof fn law_prompt_comes_last<T, U, D, X>(
    agent: AgentView<T, U, D, X>,
    prompt: Seq<char>,
    now: u64,
)
    ensures
        with_system_prompt(agent.turn(prompt, now).history, agent.system_prompt).last()
            == user_message(prompt),
        with_system_prompt(agent.prompted(prompt).history, agent.system_prompt).last()
            == user_message(prompt),
{
}

/// A prompt that started a turn is recalled first in every other session, by a
/// query with the same words.
pub proof fn law_prompt_is_remembered<T, U, D, X>(
    agent: AgentView<T, U, D, X>,
    prompt: Seq<char>,
    now: u64,
    session: Seq<char>,
    limit: nat,
)
    requires
        agent.well_formed(),
        session != "default"@,
        limit > 0,
    ensures
        agent.turn_started(prompt, now).memory_store.recall(prompt, session, limit).len() > 0,
        agent.turn_started(prompt, now).memory_store.recall(prompt, session, limit)[0]
            == entry_line(agent.memory_store.entry("default"@, "user"@, prompt, now)),
{
    law_remembered_is_recalled(
        agent.memory_store,
        "default"@,
        "user"@,
        prompt,
        now,
        session,
        limit,
    );
}

/// To a host that listens, every chunk without a NUL is delivered once, in order:
/// one more chunk is one more notice at the end, and the notices of what came
/// before stay.
pub proof fn law_chunks_are_delivered_in_order<T, U, D>(
    callbacks: BenitoCallbacks<T, U, D>,
    chunks: Seq<Seq<char>>,
    chunk: Seq<char>,
)
    ensures
        deltas_noticed(callbacks, chunks.push(chunk)) == (match noticed(
            callbacks.on_text_delta,
            callbacks.user_data,
            chunk,
        ) {
            Some(notice) => deltas_noticed(callbacks, chunks).push(notice),
            None => deltas_noticed(callbacks, chunks),
        }),
{
    reveal(Seq::filter);
    assert(chunks.push(chunk).drop_last() =~= chunks);
    let all = deltas_noticed(callbacks, chunks.push(chunk));
    match noticed(callbacks.on_text_delta, callbacks.user_data, chunk) {
        Some(notice) => {
            assert(all =~= deltas_noticed(callbacks, chunks).push(notice));
        },
        None => {
            assert(all =~= deltas_noticed(callbacks, chunks));
        },
    }
}

/// A prompt adds a quarter of its bytes, rounded down, to the token estimate.
pub proof fn law_prompt_adds_tokens<T, U, D, X>(agent: AgentView<T, U, D, X>, prompt: Seq<char>)
    ensures
        agent.prompt_tokens(prompt) == token_estimate(agent.history) + byte_len(prompt) / 4,
{
    let history = agent.prompted(prompt).history;
    assert(history.drop_last() =~= agent.history);
}

/// A turn runs on the whole conversation: every message of the agent's history, one
/// by one and in order, and at its end the prompt, whole, with the role of the user.
pub proof fn law_turn_runs_on_the_whole_conversation<T, U, D, X>(
    agent: AgentView<T, U, D, X>,
    prompt: Seq<char>,
    now: u64,
    i: int,
)
    ensures
        agent.turn(prompt, now).history.len() == agent.history.len() + 1,
        0 <= i < agent.history.len() ==> agent.turn(prompt, now).history[i] == agent.history[i],
        agent.turn(prompt, now).history[agent.history.len() as int].role == "user"@,
        agent.turn(prompt, now).history[agent.history.len() as int].content == prompt,
        agent.prompted(prompt).history.len() == agent.history.len() + 1,
        0 <= i < agent.history.len() ==> agent.prompted(prompt).history[i] == agent.history[i],
        agent.prompted(prompt).history[agent.history.len() as int].role == "user"@,
        agent.prompted(prompt).history[agent.history.len() as int].content == prompt,
{
}

/// A turn has the provider, the model, the temperature, the system prompt, the tools
/// and the callbacks of its agent, all of them as they are, and a tool call loop with
/// fixed names under the limits of the agent.
pub proof fn law_turn_has_what_is_set<T, U, D, X>(
    agent: AgentView<T, U, D, X>,
    prompt: Seq<char>,
    now: u64,
    i: int,
)
    ensures
        agent.turn(prompt, now).provider == agent.provider,
        agent.turn(prompt, now).model == agent.model,
        agent.turn(prompt, now).temperature == agent.temperature,
        agent.turn(prompt, now).system_prompt == agent.system_prompt,
        agent.turn(prompt, now).callbacks == agent.callbacks,
        agent.turn(prompt, now).tools.len() == agent.tools.len(),
        0 <= i < agent.tools.len() ==> agent.turn(prompt, now).tools[i] == agent.tools[i],
        agent.turn(prompt, now).stop_hooks == agent.stop_hooks.started(now),
        agent.turn(prompt, now).settings == settings_under(agent.stop_hooks),
        settings_under(agent.stop_hooks).provider_label == "custom"@,
        settings_under(agent.stop_hooks).channel == "benito-ffi"@,
        settings_under(agent.stop_hooks).max_iterations == agent.stop_hooks.max_iterations,
        settings_under(agent.stop_hooks).max_time_seconds == agent.stop_hooks.max_time_seconds,
        settings_under(agent.stop_hooks).max_cost_cents == agent.stop_hooks.max_cost_cents,
        !settings_under(agent.stop_hooks).silent,
{
}

/// What a prompt changes of its agent: the tools go with the turn, the prompt is
/// remembered as the user's in the default session, and the tokens of the
/// conversation, with a quarter of the bytes of the prompt, are noted as used;
/// nothing else changes. A prompt that the host waits for changes the history only.
pub proof fn law_what_a_prompt_changes<T, U, D, X>(
    agent: AgentView<T, U, D, X>,
    prompt: Seq<char>,
    now: u64,
)
    requires
        agent.prompt_tokens(prompt) <= usize::MAX,
    ensures
        ({
            let after = agent.turn_started(prompt, now);
            &&& after == (AgentView {
                tools: after.tools,
                memory_store: after.memory_store,
                context_guard: after.context_guard,
                ..agent
            })
            &&& after.tools.len() == 0
            &&& after.memory_store == agent.memory_store.with_entry(
                "default"@,
                "user"@,
                prompt,
                now,
            )
            &&& after.context_guard.last_input_tokens == token_estimate(agent.history)
                + encode_utf8(prompt).len() / 4
            &&& after.context_guard.last_output_tokens == 0
            &&& after.context_guard == (ContextGuard {
                last_input_tokens: after.context_guard.last_input_tokens,
                last_output_tokens: 0,
                ..agent.context_guard
            })
        }),
        agent.prompted(prompt) == (AgentView {
            history: agent.prompted(prompt).history,
            ..agent
        }),
{
    law_every_message_counts(agent.history, user_message(prompt));
}

/// A text is told exactly if somebody listens and it holds no NUL, and then whole, by
/// that callback and with that user data.
pub proof fn law_what_is_told<T, D>(callback: Option<T>, user_data: D, text: Seq<char>)
    ensures
        noticed(callback, user_data, text) is Some <==> callback is Some && !text.contains('\0'),
        noticed(callback, user_data, text) matches Some(notice) ==> {
            &&& Some(notice.callback) == callback
            &&& notice.user_data == user_data
            &&& notice.text == text
        },
{
}

/// The final text of a turn is told to the done callback, and an error to the error
/// callback; a prompt without a provider is told to the error callback, if there is
/// one, in fixed words.
pub proof fn law_who_is_told<T, U, D>(callbacks: BenitoCallbacks<T, U, D>, text: Seq<char>)
    ensures
        reported(callbacks, true, text) == noticed(callbacks.on_done, callbacks.user_data, text),
        reported(callbacks, false, text) == noticed(callbacks.on_error, callbacks.user_data, text),
        unconfigured(callbacks) is Some <==> callbacks.on_error is Some,
        unconfigured(callbacks) matches Some(notice) ==> {
            &&& Some(notice.callback) == callbacks.on_error
            &&& notice.user_data == callbacks.user_data
            &&& notice.text
                == "No provider configured. Call benito_agent_set_provider() first."@
        },
{
    reveal_strlit("No provider configured. Call benito_agent_set_provider() first.");
}

/// No chunk, no notice.
pub proof fn law_no_chunks_no_notices<T, U, D>(callbacks: BenitoCallbacks<T, U, D>)
    ensures
        deltas_noticed(callbacks, Seq::empty()).len() == 0,
{
    reveal(Seq::filter);
}

/// Turns, settings and notices show all that they hold.
pub proof fn law_turns_are_seen<T, U, D, X>(
    turn: AgentTurn<T, U, D, X>,
    settings: TurnSettings,
    notices: Seq<Notice<T, D>>,
    notice: Option<Notice<T, D>>,
    i: int,
)
    ensures
        turn@.provider is Some <==> turn.provider is Some,
        turn.provider is Some ==> turn@.provider == Some(turn.provider->0@),
        turn@.model == turn.model@,
        turn@.temperature == turn.temperature,
        turn@.system_prompt == turn.system_prompt@,
        turn@.tools.len() == turn.tools@.len(),
        0 <= i < turn.tools@.len() ==> turn@.tools[i] == turn.tools@[i]@,
        turn@.callbacks == turn.callbacks,
        turn@.history.len() == turn.history@.len(),
        0 <= i < turn.history@.len() ==> turn@.history[i] == turn.history@[i]@,
        turn@.settings == turn.settings@,
        turn@.stop_hooks == turn.stop_hooks,
        settings@.provider_label == settings.provider_label@,
        settings@.channel == settings.channel@,
        settings@.max_iterations == settings.max_iterations,
        settings@.max_time_seconds == settings.max_time_seconds,
        settings@.max_cost_cents == settings.max_cost_cents,
        settings@.silent == settings.silent,
        notice_views(notices).len() == notices.len(),
        0 <= i < notices.len() ==> {
            &&& notice_views(notices)[i].callback == notices[i].callback
            &&& notice_views(notices)[i].user_data == notices[i].user_data
            &&& notice_views(notices)[i].text == notices[i].text@
        },
        notice is Some ==> optional_notice(notice) == Some(notice->0@),
        notice is None ==> optional_notice(notice) is None,
{
}

} // verus!
