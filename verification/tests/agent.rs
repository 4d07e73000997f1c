use benito_core::agent::{
    benito_agent_approval_allowlist_add, benito_agent_check_tool_permission,
    benito_agent_clear_history, benito_agent_context_is_exhausted,
    benito_agent_context_utilization, benito_agent_current_cost,
    benito_agent_current_iteration, benito_agent_disable_approval_gate,
    benito_agent_enable_approval_gate, benito_agent_get_tool_scope, benito_agent_init,
    benito_agent_memory_add, benito_agent_memory_clear, benito_agent_memory_recall,
    benito_agent_microcompact, benito_agent_register_tool, benito_agent_set_context_window,
    benito_agent_set_done_callback, benito_agent_set_error_callback,
    benito_agent_set_max_cost, benito_agent_set_max_iterations, benito_agent_set_max_time,
    benito_agent_set_provider, benito_agent_set_system_prompt, benito_agent_set_temperature,
    benito_agent_set_text_delta_callback, benito_agent_set_tool_scope,
    benito_agent_set_tool_use_callback, benito_agent_set_user_data, benito_agent_subagent_count,
    BenitoAgentHandle,
};
use benito_core::chat::ChatMessage;
use benito_core::stop::{StopHooks, StopReason};
use benito_core::turn::{
    benito_agent_send_prompt, benito_agent_send_prompt_blocking, blocking_reply, blocking_report,
    delta_notice, delta_notices, no_provider_text, notice, turn_hooks, turn_report, turn_settings,
    unconfigured_notice, BlockingOutcome, Notice, PromptOutcome,
};

type Agent = BenitoAgentHandle<u8, u16, u32, u64>;

const BAD: Option<&[u8]> = Some(&[0xff]);

fn c(s: &str) -> Option<&[u8]> {
    Some(s.as_bytes())
}

fn agent() -> Agent {
    benito_agent_init(true, 0).unwrap()
}

fn configured() -> Agent {
    let mut a = agent();
    assert_eq!(benito_agent_set_provider(Some(&mut a), c("xai"), c("key"), c("grok-4.3")), 0);
    a
}

#[test]
fn init_needs_a_runtime() {
    let none: Option<Agent> = benito_agent_init(false, 0);
    assert!(none.is_none());
}

#[test]
fn init_sets_the_defaults() {
    let a: Agent = benito_agent_init(true, 77).unwrap();
    assert!(a.provider.is_none());
    assert_eq!(a.model, "");
    assert_eq!(a.temperature, 0.7f64.to_bits());
    assert_eq!(a.tools.len(), 0);
    assert_eq!(a.history.len(), 0);
    assert_eq!(a.system_prompt, "");
    assert_eq!(a.callbacks.user_data, 77);
    assert_eq!(a.callbacks.on_done, None);
    assert_eq!(a.callbacks.on_tool_result, None);
    assert_eq!(a.context_guard.context_window, 128_000);
    assert_eq!(a.stop_hooks.max_iterations, 20);
    assert_eq!(a.memory_store.max_entries, 1000);
    assert_eq!(benito_agent_subagent_count(Some(&a)), 0);
}

#[test]
fn provider_is_set_with_its_model() {
    let a = configured();
    let p = a.provider.unwrap();
    assert_eq!(p.name, "xAI");
    assert_eq!(p.credential, Some("key".to_string()));
    assert_eq!(a.model, "grok-4.3");
}

#[test]
fn provider_is_refused() {
    let mut a = configured();
    assert_eq!(benito_agent_set_provider(Some(&mut a), c("acme"), c("k"), c("m")), -1);
    assert_eq!(benito_agent_set_provider(Some(&mut a), None, c("k"), c("m")), -1);
    assert_eq!(benito_agent_set_provider(Some(&mut a), c("xai"), BAD, c("m")), -1);
    assert_eq!(benito_agent_set_provider(Some(&mut a), c("xai"), c("k"), BAD), -1);
    let none: Option<&mut Agent> = None;
    assert_eq!(benito_agent_set_provider(none, c("xai"), c("k"), c("m")), -1);
    assert_eq!(a.model, "grok-4.3");
    assert_eq!(a.provider.unwrap().credential, Some("key".to_string()));
}

#[test]
fn system_prompt_is_set() {
    let mut a = agent();
    assert_eq!(benito_agent_set_system_prompt(Some(&mut a), c("be kind")), 0);
    assert_eq!(a.system_prompt, "be kind");
    assert_eq!(benito_agent_set_system_prompt(Some(&mut a), BAD), -1);
    assert_eq!(benito_agent_set_system_prompt(Some(&mut a), None), -1);
    assert_eq!(a.system_prompt, "be kind");
}

#[test]
fn temperature_is_clamped() {
    let mut a = agent();
    for (given, kept) in [(1.25, 1.25), (-3.0, 0.0), (9.0, 2.0), (2.0, 2.0)] {
        let given: f64 = given;
        let kept: f64 = kept;
        assert_eq!(benito_agent_set_temperature(Some(&mut a), given.to_bits()), 0);
        assert_eq!(a.temperature, kept.to_bits());
    }
    for (given, kept) in [
        (f64::NAN, 0.0f64),
        (-f64::NAN, 0.0),
        (f64::INFINITY, 2.0),
        (f64::NEG_INFINITY, 0.0),
    ] {
        a.temperature = 1.0f64.to_bits();
        assert_eq!(benito_agent_set_temperature(Some(&mut a), given.to_bits()), 0);
        assert_eq!(a.temperature, kept.to_bits());
    }
    let none: Option<&mut Agent> = None;
    assert_eq!(benito_agent_set_temperature(none, 0), -1);
}

#[test]
fn tool_takes_over_what_is_set() {
    let mut a = agent();
    benito_agent_set_user_data(Some(&mut a), 5);
    benito_agent_set_tool_use_callback(Some(&mut a), Some(6));
    let schema = c(r#"{"type": "object"}"#);
    assert_eq!(benito_agent_register_tool(Some(&mut a), c("shot"), c("takes one"), schema, 9), 0);
    assert_eq!(a.tools.len(), 1);
    assert_eq!(a.tools[0].name, "shot");
    assert_eq!(a.tools[0].description, "takes one");
    assert_eq!(a.tools[0].execute_fn, 9);
    assert_eq!(a.tools[0].user_data, 5);
    assert_eq!(a.tools[0].on_tool_use, Some(6));
    let kind = a.tools[0].parameters_schema.get("type").and_then(|v| v.as_str());
    assert_eq!(kind, Some("object"));
}

#[test]
fn registered_tools_follow_the_host() {
    let mut a = agent();
    benito_agent_set_user_data(Some(&mut a), 5);
    benito_agent_register_tool(Some(&mut a), c("one"), c("d"), c("{}"), 1);
    benito_agent_register_tool(Some(&mut a), c("two"), c("d"), c("{}"), 2);
    benito_agent_set_user_data(Some(&mut a), 50);
    benito_agent_set_tool_use_callback(Some(&mut a), Some(7));
    benito_agent_register_tool(Some(&mut a), c("three"), c("d"), c("{}"), 3);
    assert_eq!(a.callbacks.user_data, 50);
    assert_eq!(a.tools.len(), 3);
    for (i, tool) in a.tools.iter().enumerate() {
        assert_eq!(tool.user_data, 50);
        assert_eq!(tool.on_tool_use, Some(7));
        assert_eq!(tool.execute_fn, i as u64 + 1);
    }
    benito_agent_set_tool_use_callback(Some(&mut a), None);
    assert_eq!(a.tools[1].name, "two");
    assert_eq!(a.tools[1].on_tool_use, None);
}

#[test]
fn tool_is_refused() {
    let mut a = agent();
    let ok = c("{}");
    assert_eq!(benito_agent_register_tool(Some(&mut a), c("n"), c("d"), c("{oops"), 1), -1);
    assert_eq!(benito_agent_register_tool(Some(&mut a), None, c("d"), ok, 1), -1);
    assert_eq!(benito_agent_register_tool(Some(&mut a), c("n"), BAD, ok, 1), -1);
    assert_eq!(benito_agent_register_tool(Some(&mut a), c("n"), c("d"), None, 1), -1);
    let none: Option<&mut Agent> = None;
    assert_eq!(benito_agent_register_tool(none, c("n"), c("d"), ok, 1), -1);
    assert_eq!(a.tools.len(), 0);
}

#[test]
fn callbacks_are_set_one_by_one() {
    let mut a = agent();
    benito_agent_set_text_delta_callback(Some(&mut a), Some(1));
    benito_agent_set_tool_use_callback(Some(&mut a), Some(2));
    benito_agent_set_done_callback(Some(&mut a), Some(3));
    benito_agent_set_error_callback(Some(&mut a), Some(4));
    assert_eq!(a.callbacks.on_text_delta, Some(1));
    assert_eq!(a.callbacks.on_tool_use, Some(2));
    assert_eq!(a.callbacks.on_done, Some(3));
    assert_eq!(a.callbacks.on_error, Some(4));
    assert_eq!(a.callbacks.on_tool_result, None);
    benito_agent_set_done_callback(Some(&mut a), None);
    assert_eq!(a.callbacks.on_done, None);
    let none: Option<&mut Agent> = None;
    benito_agent_set_done_callback(none, Some(3));
}

#[test]
fn window_is_set_and_usage_forgotten() {
    let mut a = agent();
    a.context_guard.update_usage(100, 20);
    assert_eq!(benito_agent_set_context_window(Some(&mut a), 0), -1);
    assert_eq!(a.context_guard.last_input_tokens, 100);
    assert_eq!(benito_agent_set_context_window(Some(&mut a), 1000), 0);
    assert_eq!(a.context_guard.context_window, 1000);
    assert_eq!(a.context_guard.last_input_tokens, 0);
    let none: Option<&mut Agent> = None;
    assert_eq!(benito_agent_set_context_window(none, 5), -1);
}

#[test]
fn utilization_is_told() {
    let none: Option<&Agent> = None;
    assert_eq!(f64::from_bits(benito_agent_context_utilization(none)), 0.0);
    let mut a = agent();
    assert_eq!(f64::from_bits(benito_agent_context_utilization(Some(&a))), 0.0);
    a.context_guard.update_usage(32_000, 16_000);
    assert_eq!(f64::from_bits(benito_agent_context_utilization(Some(&a))), 37.5);
    a.context_guard.update_usage(128_000, 0);
    assert_eq!(f64::from_bits(benito_agent_context_utilization(Some(&a))), 100.0);
    a.context_guard.update_usage(300_000, 0);
    assert_eq!(f64::from_bits(benito_agent_context_utilization(Some(&a))), 100.0);
}

#[test]
fn exhaustion_is_told() {
    let mut a = agent();
    benito_agent_set_context_window(Some(&mut a), 100);
    a.context_guard.update_usage(94, 0);
    assert_eq!(benito_agent_context_is_exhausted(Some(&a)), 0);
    a.context_guard.update_usage(94, 1);
    assert_eq!(benito_agent_context_is_exhausted(Some(&a)), 1);
    let none: Option<&Agent> = None;
    assert_eq!(benito_agent_context_is_exhausted(none), 0);
}

#[test]
fn microcompaction_counts_as_success() {
    let mut a = agent();
    a.history.push(ChatMessage { role: "tool".to_string(), content: "y".repeat(501) });
    a.history.push(ChatMessage::user("hi"));
    a.context_guard.record_compaction_failure();
    assert_eq!(benito_agent_microcompact(Some(&mut a), 1), 1);
    assert_eq!(a.history[0].content, "[Old tool result content cleared]");
    assert_eq!(a.context_guard.consecutive_compaction_failures, 0);
    let none: Option<&mut Agent> = None;
    assert_eq!(benito_agent_microcompact(none, 1), 0);
}

#[test]
fn gate_is_switched() {
    let mut a = agent();
    benito_agent_enable_approval_gate(Some(&mut a));
    assert!(a.approval_gate.needs_approval("shell"));
    assert_eq!(benito_agent_approval_allowlist_add(Some(&mut a), c("shell")), 0);
    assert!(!a.approval_gate.needs_approval("shell"));
    assert_eq!(benito_agent_approval_allowlist_add(Some(&mut a), BAD), -1);
    assert_eq!(benito_agent_approval_allowlist_add(Some(&mut a), None), -1);
    assert!(a.approval_gate.needs_approval("rm"));
    benito_agent_disable_approval_gate(Some(&mut a));
    assert!(!a.approval_gate.needs_approval("rm"));
}

#[test]
fn memory_is_recalled_as_json() {
    let mut a = agent();
    assert_eq!(benito_agent_memory_add(Some(&mut a), c("s1"), c("user"), c("say \"hi\"\n"), 3), 0);
    assert_eq!(benito_agent_memory_add(Some(&mut a), c("s1"), c("user"), c("say bye"), 4), 0);
    assert_eq!(
        benito_agent_memory_recall(Some(&a), c("s2"), c("say"), 0),
        Some(r#"["[user] 4: say bye","[user] 3: say \"hi\"\n"]"#.to_string())
    );
    assert_eq!(
        benito_agent_memory_recall(Some(&a), c("s2"), c("say"), 1),
        Some(r#"["[user] 4: say bye"]"#.to_string())
    );
    assert_eq!(
        benito_agent_memory_recall(Some(&a), c("s1"), c("say"), 1),
        Some("[]".to_string())
    );
    benito_agent_memory_clear(Some(&mut a));
    assert_eq!(
        benito_agent_memory_recall(Some(&a), c("s2"), c("say"), 1),
        Some("[]".to_string())
    );
}

#[test]
fn recalled_json_spells_the_lines() {
    let mut a = agent();
    let odd = "tab\t quote\" back\\slash \u{1} \u{7f} é \u{1f600}";
    benito_agent_memory_add(Some(&mut a), c("s1"), c("user"), c(odd), 3);
    let text = benito_agent_memory_recall(Some(&a), c("s2"), c("tab"), 9).unwrap();
    let lines: Vec<String> = serde_json::from_str(&text).unwrap();
    assert_eq!(lines, vec![format!("[user] 3: {}", odd)]);
}

#[test]
fn recall_asks_for_five_unless_told() {
    let mut a = agent();
    for i in 0..9 {
        benito_agent_memory_add(Some(&mut a), c("s1"), c("user"), c("note"), i);
    }
    for (limit, count) in [(0, 5), (-3, 5), (2, 2), (9, 9), (50, 9)] {
        let text = benito_agent_memory_recall(Some(&a), c("s2"), c("note"), limit).unwrap();
        let lines: Vec<String> = serde_json::from_str(&text).unwrap();
        assert_eq!(lines.len(), count);
    }
}

#[test]
fn memory_refuses_bad_arguments() {
    let mut a = agent();
    assert_eq!(benito_agent_memory_add(Some(&mut a), None, c("user"), c("x"), 0), -1);
    assert_eq!(benito_agent_memory_add(Some(&mut a), c("s"), BAD, c("x"), 0), -1);
    assert_eq!(benito_agent_memory_add(Some(&mut a), c("s"), c("user"), None, 0), -1);
    assert_eq!(a.memory_store.conversations.len(), 0);
    assert_eq!(benito_agent_memory_recall(Some(&a), None, c("x"), 1), None);
    assert_eq!(benito_agent_memory_recall(Some(&a), c("s"), BAD, 1), None);
    let none: Option<&Agent> = None;
    assert_eq!(benito_agent_memory_recall(none, c("s"), c("x"), 1), None);
}

#[test]
fn limits_are_set() {
    let mut a = agent();
    benito_agent_set_max_iterations(Some(&mut a), 3);
    benito_agent_set_max_time(Some(&mut a), 1.5f64.to_bits());
    benito_agent_set_max_cost(Some(&mut a), 12);
    assert_eq!(a.stop_hooks.max_iterations, 3);
    assert_eq!(a.stop_hooks.max_time_seconds, 1.5f64.to_bits());
    assert_eq!(a.stop_hooks.max_cost_cents, 12);
    a.stop_hooks.start_turn(0);
    a.stop_hooks.tick_iteration(0);
    a.stop_hooks.add_cost(7);
    assert_eq!(benito_agent_current_iteration(Some(&a)), 1);
    assert_eq!(benito_agent_current_cost(Some(&a)), 7);
    let none: Option<&Agent> = None;
    assert_eq!(benito_agent_current_iteration(none), 0);
    assert_eq!(benito_agent_current_cost(none), 0);
    assert_eq!(benito_agent_subagent_count(none), 0);
}

#[test]
fn scopes_read_back() {
    let mut a = agent();
    assert_eq!(benito_agent_get_tool_scope(Some(&a), c("ls")), -1);
    assert_eq!(benito_agent_set_tool_scope(Some(&mut a), c("ls"), c("read")), 0);
    assert_eq!(benito_agent_set_tool_scope(Some(&mut a), c("rm"), c("admin")), 0);
    assert_eq!(benito_agent_get_tool_scope(Some(&a), c("ls")), 0);
    assert_eq!(benito_agent_get_tool_scope(Some(&a), c("rm")), 2);
    assert_eq!(benito_agent_set_tool_scope(Some(&mut a), c("rm"), c("write")), 0);
    assert_eq!(benito_agent_get_tool_scope(Some(&a), c("rm")), 1);
    assert_eq!(benito_agent_set_tool_scope(Some(&mut a), c("rm"), c("root")), -1);
    assert_eq!(benito_agent_set_tool_scope(Some(&mut a), BAD, c("read")), -1);
    assert_eq!(benito_agent_set_tool_scope(Some(&mut a), c("rm"), None), -1);
    assert_eq!(benito_agent_get_tool_scope(Some(&a), c("rm")), 1);
    assert_eq!(benito_agent_get_tool_scope(Some(&a), BAD), -1);
}

#[test]
fn permission_follows_scope() {
    let mut a = agent();
    benito_agent_set_tool_scope(Some(&mut a), c("edit"), c("write"));
    assert_eq!(benito_agent_check_tool_permission(Some(&a), c("edit"), c("read")), 0);
    assert_eq!(benito_agent_check_tool_permission(Some(&a), c("edit"), c("write")), 1);
    assert_eq!(benito_agent_check_tool_permission(Some(&a), c("edit"), c("admin")), 1);
    assert_eq!(benito_agent_check_tool_permission(Some(&a), c("other"), c("read")), 1);
    assert_eq!(benito_agent_check_tool_permission(Some(&a), c("other"), c("root")), 0);
    assert_eq!(benito_agent_check_tool_permission(Some(&a), None, c("read")), 0);
    assert_eq!(benito_agent_check_tool_permission(Some(&a), c("other"), BAD), 0);
    let none: Option<&Agent> = None;
    assert_eq!(benito_agent_check_tool_permission(none, c("edit"), c("admin")), 0);
}

#[test]
fn clearing_history_keeps_the_system_prompt() {
    let mut a = agent();
    a.history.push(ChatMessage::user("hi"));
    assert_eq!(benito_agent_clear_history(Some(&mut a)), 0);
    assert_eq!(a.history.len(), 0);
    benito_agent_set_system_prompt(Some(&mut a), c("be kind"));
    a.history.push(ChatMessage::user("hi"));
    assert_eq!(benito_agent_clear_history(Some(&mut a)), 0);
    assert_eq!(a.history, vec![ChatMessage::system("be kind")]);
    let none: Option<&mut Agent> = None;
    assert_eq!(benito_agent_clear_history(none), -1);
}

#[test]
fn prompt_without_provider_is_refused() {
    let mut a = agent();
    benito_agent_set_user_data(Some(&mut a), 8);
    let outcome = benito_agent_send_prompt(Some(&mut a), c("hi"), 1);
    assert!(matches!(outcome, PromptOutcome::Unconfigured(None)));
    assert_eq!(outcome.code(), -1);
    benito_agent_set_error_callback(Some(&mut a), Some(4));
    match benito_agent_send_prompt(Some(&mut a), c("hi"), 1) {
        PromptOutcome::Unconfigured(n) => {
            assert_eq!(n, Some(Notice { callback: 4, user_data: 8, text: no_provider_text() }))
        }
        _ => panic!("a turn was started"),
    }
    assert_eq!(a.memory_store.conversations.len(), 0);
    match benito_agent_send_prompt_blocking(Some(&mut a), c("hi"), 1) {
        BlockingOutcome::Unconfigured(n) => {
            assert_eq!(n, Some(Notice { callback: 4, user_data: 8, text: no_provider_text() }))
        }
        _ => panic!("a turn may run"),
    }
    benito_agent_set_error_callback(Some(&mut a), None);
    assert!(matches!(
        benito_agent_send_prompt_blocking(Some(&mut a), c("hi"), 1),
        BlockingOutcome::Unconfigured(None)
    ));
    assert_eq!(unconfigured_notice(&a.callbacks), None);
    assert_eq!(a.history.len(), 0);
}

#[test]
fn bad_prompt_is_rejected() {
    let mut a = configured();
    assert!(matches!(
        benito_agent_send_prompt(Some(&mut a), None, 1),
        PromptOutcome::Rejected
    ));
    assert!(matches!(benito_agent_send_prompt(Some(&mut a), BAD, 1), PromptOutcome::Rejected));
    let none: Option<&mut Agent> = None;
    assert!(matches!(benito_agent_send_prompt(none, c("hi"), 1), PromptOutcome::Rejected));
    for prompt in [None, BAD] {
        assert!(matches!(
            benito_agent_send_prompt_blocking(Some(&mut a), prompt, 1),
            BlockingOutcome::Rejected
        ));
    }
    let none: Option<&mut Agent> = None;
    assert!(matches!(
        benito_agent_send_prompt_blocking(none, c("hi"), 1),
        BlockingOutcome::Rejected
    ));
    assert_eq!(a.history.len(), 0);
}

#[test]
fn prompt_starts_a_turn() {
    let mut a = configured();
    benito_agent_set_system_prompt(Some(&mut a), c("be kind"));
    benito_agent_register_tool(Some(&mut a), c("shot"), c("d"), c("{}"), 1);
    benito_agent_set_max_iterations(Some(&mut a), 3);
    a.history.push(ChatMessage::user("before..")); // two tokens
    let outcome = benito_agent_send_prompt(Some(&mut a), c("what is up?!"), 42);
    assert_eq!(outcome.code(), 0);
    let turn = match outcome {
        PromptOutcome::Started(turn) => turn,
        _ => panic!("no turn was started"),
    };
    assert_eq!(turn.model, "grok-4.3");
    assert_eq!(turn.provider.unwrap().name, "xAI");
    assert_eq!(turn.temperature, 0.7f64.to_bits());
    assert_eq!(turn.system_prompt, "be kind");
    assert_eq!(turn.tools.len(), 1);
    assert_eq!(turn.settings.max_iterations, 3);
    assert_eq!(turn.stop_hooks.max_iterations, 3);
    assert_eq!(turn.stop_hooks.turn_start, Some(42));
    assert_eq!(a.stop_hooks.turn_start, None);
    assert_eq!(
        turn.history,
        vec![ChatMessage::user("before.."), ChatMessage::user("what is up?!")]
    );
    assert_eq!(a.tools.len(), 0);
    assert_eq!(a.history, vec![ChatMessage::user("before..")]);
    assert_eq!(a.context_guard.last_input_tokens, 5);
    assert_eq!(a.context_guard.last_output_tokens, 0);
    assert_eq!(
        benito_agent_memory_recall(Some(&a), c("elsewhere"), c("what is up?!"), 1),
        Some(r#"["[user] 42: what is up?!"]"#.to_string())
    );
    match benito_agent_send_prompt(Some(&mut a), c("again"), 43) {
        PromptOutcome::Started(next) => {
            assert_eq!(next.tools.len(), 0);
            assert_eq!(next.history.len(), 2);
        }
        _ => panic!("no turn was started"),
    }
}

#[test]
fn blocking_prompt_stays_in_the_history() {
    let mut a = configured();
    benito_agent_register_tool(Some(&mut a), c("shot"), c("d"), c("{}"), 1);
    benito_agent_set_max_iterations(Some(&mut a), 4);
    benito_agent_set_max_time(Some(&mut a), 2.5f64.to_bits());
    benito_agent_set_max_cost(Some(&mut a), 10);
    let (settings, mut hooks) = match benito_agent_send_prompt_blocking(Some(&mut a), c("hi"), 9) {
        BlockingOutcome::Ready(settings, hooks) => (settings, hooks),
        _ => panic!("no turn may run"),
    };
    assert_eq!(settings, turn_settings(&a.stop_hooks));
    assert_eq!(settings.max_iterations, 4);
    assert_eq!(hooks, turn_hooks(&a.stop_hooks, 9));
    for _ in 0..4 {
        assert_eq!(hooks.tick_iteration(1.0f64.to_bits()), StopReason::Continue);
    }
    assert_eq!(hooks.tick_iteration(1.0f64.to_bits()), StopReason::MaxIterations(4));
    let mut hooks = turn_hooks(&a.stop_hooks, 9);
    assert_eq!(
        hooks.tick_iteration(3.0f64.to_bits()),
        StopReason::MaxTime(2.5f64.to_bits())
    );
    hooks.add_cost(11);
    assert_eq!(hooks.tick_iteration(1.0f64.to_bits()), StopReason::MaxCost(10));
    assert_eq!(a.history, vec![ChatMessage::user("hi")]);
    assert_eq!(a.tools.len(), 1);
    assert_eq!(a.memory_store.conversations.len(), 0);
    assert_eq!(a.context_guard.last_input_tokens, 0);
}

#[test]
fn turn_is_reported_once() {
    let mut a = configured();
    assert_eq!(turn_report(&a.callbacks, Ok("done".to_string())), None);
    benito_agent_set_user_data(Some(&mut a), 6);
    benito_agent_set_done_callback(Some(&mut a), Some(1));
    benito_agent_set_error_callback(Some(&mut a), Some(2));
    assert_eq!(
        turn_report(&a.callbacks, Ok("done".to_string())),
        Some(Notice { callback: 1, user_data: 6, text: "done".to_string() })
    );
    assert_eq!(
        turn_report(&a.callbacks, Err("boom".to_string())),
        Some(Notice { callback: 2, user_data: 6, text: "boom".to_string() })
    );
    assert_eq!(turn_report(&a.callbacks, Ok("a\0b".to_string())), None);
}

#[test]
fn deltas_need_a_listener_and_a_c_string() {
    let mut a = configured();
    assert_eq!(delta_notice(&a.callbacks, "chunk".to_string()), None);
    benito_agent_set_text_delta_callback(Some(&mut a), Some(5));
    assert_eq!(
        delta_notice(&a.callbacks, "chunk".to_string()),
        Some(Notice { callback: 5, user_data: 0, text: "chunk".to_string() })
    );
    assert_eq!(delta_notice(&a.callbacks, "\0".to_string()), None);
    assert_eq!(notice(None::<u8>, 1u32, "x".to_string()), None);
}

#[test]
fn chunks_are_delivered_in_order() {
    let mut a = configured();
    let chunks = || vec!["one".to_string(), "t\0wo".to_string(), String::new(), "one".to_string()];
    assert_eq!(delta_notices(&a.callbacks, chunks()), vec![]);
    benito_agent_set_text_delta_callback(Some(&mut a), Some(5));
    let due: Vec<String> =
        delta_notices(&a.callbacks, chunks()).into_iter().map(|n| n.text).collect();
    assert_eq!(due, vec!["one", "", "one"]);
    assert_eq!(
        delta_notices(&a.callbacks, vec!["x".to_string()]),
        vec![Notice { callback: 5, user_data: 0, text: "x".to_string() }]
    );
}

#[test]
fn blocking_reply_is_the_final_text() {
    assert_eq!(blocking_reply(Ok("fine".to_string())), Some("fine".to_string()));
    assert_eq!(blocking_reply(Ok("a\0".to_string())), None);
    assert_eq!(blocking_reply(Err("boom".to_string())), None);
}

#[test]
fn blocking_turn_is_reported_too() {
    let mut a = configured();
    benito_agent_set_user_data(Some(&mut a), 6);
    benito_agent_set_done_callback(Some(&mut a), Some(1));
    benito_agent_set_error_callback(Some(&mut a), Some(2));
    assert_eq!(
        blocking_report(&a.callbacks, Ok("fine".to_string())),
        (
            Some("fine".to_string()),
            Some(Notice { callback: 1, user_data: 6, text: "fine".to_string() })
        )
    );
    assert_eq!(
        blocking_report(&a.callbacks, Err("boom".to_string())),
        (None, Some(Notice { callback: 2, user_data: 6, text: "boom".to_string() }))
    );
    assert_eq!(blocking_report(&a.callbacks, Ok("a\0".to_string())), (None, None));
}

#[test]
fn turns_run_under_the_limits_that_are_set() {
    let mut hooks = StopHooks::new();
    assert_eq!(turn_settings(&hooks).max_iterations, 20);
    hooks.set_max_iterations(2);
    hooks.set_max_time(1.5f64.to_bits());
    hooks.set_max_cost(30);
    let s = turn_settings(&hooks);
    assert_eq!(s.provider_label, "custom");
    assert_eq!(s.channel, "benito-ffi");
    assert_eq!(s.max_iterations, 2);
    assert_eq!(s.max_time_seconds, 1.5f64.to_bits());
    assert_eq!(s.max_cost_cents, 30);
    assert!(!s.silent);
}
