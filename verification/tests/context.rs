use benito_core::chat::{
    copy_history, ensure_system_prompt, estimate_tokens, text_bytes, ChatMessage,
};
use benito_core::context::{ContextCheckResult, ContextGuard};

fn message(role: &str, content: &str) -> ChatMessage {
    ChatMessage { role: role.to_string(), content: content.to_string() }
}

fn guard(window: usize, input: usize, output: usize) -> ContextGuard {
    let mut g = ContextGuard::new(window);
    g.update_usage(input, output);
    g
}

fn percent(g: &ContextGuard) -> f64 {
    if g.context_window == 0 {
        return 0.0;
    }
    (g.last_input_tokens + g.last_output_tokens) as f64 / g.context_window as f64 * 100.0
}

fn agrees_with_floats(g: &ContextGuard) {
    let util = percent(g);
    assert_eq!(g.utilization_pct(), util.to_bits());
    let expected = if util >= 95.0 {
        ContextCheckResult::ContextExhausted
    } else if util >= 90.0 {
        ContextCheckResult::CompactionNeeded
    } else {
        ContextCheckResult::Room
    };
    assert_eq!(g.check(), expected);
}

#[test]
fn new_guard_has_room() {
    let g = ContextGuard::new(128_000);
    assert_eq!(g.context_window, 128_000);
    assert_eq!(g.last_input_tokens, 0);
    assert_eq!(g.last_output_tokens, 0);
    assert_eq!(g.consecutive_compaction_failures, 0);
    assert_eq!(g.max_failures, 3);
    assert_eq!(g.check(), ContextCheckResult::Room);
}

#[test]
fn thresholds_are_ninety_and_ninety_five_percent() {
    assert_eq!(guard(1000, 899, 0).check(), ContextCheckResult::Room);
    assert_eq!(guard(1000, 900, 0).check(), ContextCheckResult::CompactionNeeded);
    assert_eq!(guard(1000, 500, 449).check(), ContextCheckResult::CompactionNeeded);
    assert_eq!(guard(1000, 500, 450).check(), ContextCheckResult::ContextExhausted);
    assert_eq!(guard(1000, 5000, 0).check(), ContextCheckResult::ContextExhausted);
    assert_eq!(guard(128_000, 121_599, 0).check(), ContextCheckResult::CompactionNeeded);
    assert_eq!(guard(128_000, 121_600, 0).check(), ContextCheckResult::ContextExhausted);
}

#[test]
fn utilization_is_a_percentage() {
    assert_eq!(f64::from_bits(guard(200, 30, 20).utilization_pct()), 25.0);
    assert_eq!(f64::from_bits(guard(3, 1, 0).utilization_pct()), 1.0 / 3.0 * 100.0);
    assert_eq!(f64::from_bits(guard(10, 25, 0).utilization_pct()), 250.0);
    assert_eq!(f64::from_bits(guard(10, 0, 0).utilization_pct()), 0.0);
    for shift in 0..64 {
        let window = usize::MAX >> shift;
        assert_eq!(f64::from_bits(guard(window, window, 0).utilization_pct()), 100.0);
        assert!(f64::from_bits(guard(window, window - 1, 0).utilization_pct()) <= 100.0);
    }
}

#[test]
fn empty_window_is_never_full() {
    assert_eq!(guard(0, 10, 10).check(), ContextCheckResult::Room);
    assert_eq!(f64::from_bits(guard(0, 10, 10).utilization_pct()), 0.0);
}

#[test]
fn check_agrees_with_double_arithmetic() {
    let mut windows: Vec<usize> = Vec::new();
    for w in 1..400 {
        windows.push(w);
    }
    let mut seed: u64 = 0x9e37_79b9_7f4a_7c15;
    for shift in 0..64 {
        for _ in 0..40 {
            seed ^= seed << 13;
            seed ^= seed >> 7;
            seed ^= seed << 17;
            windows.push((seed >> shift) as usize);
        }
        windows.push(usize::MAX >> shift);
        windows.push(1usize << shift);
    }
    for w in windows {
        for percent in [90u128, 95] {
            let edge = (w as u128 * percent / 100) as usize;
            let mut deltas: Vec<usize> = (0..4).collect();
            for bits in 2..14 {
                deltas.push(1 << bits);
                deltas.push((1 << bits) + 1);
            }
            for d in deltas {
                agrees_with_floats(&guard(w, edge.saturating_add(d), 0));
                agrees_with_floats(&guard(w, edge.saturating_sub(d), 0));
                agrees_with_floats(&guard(w, d, 0));
                agrees_with_floats(&guard(d, w, 0));
            }
        }
    }
}

#[test]
fn circuit_breaks_after_three_failures_in_a_row() {
    let mut g = ContextGuard::new(10);
    g.record_compaction_failure();
    g.record_compaction_failure();
    assert!(!g.is_circuit_broken());
    g.record_compaction_success();
    g.record_compaction_failure();
    g.record_compaction_failure();
    assert!(!g.is_circuit_broken());
    g.record_compaction_failure();
    assert!(g.is_circuit_broken());
    g.record_compaction_success();
    assert!(!g.is_circuit_broken());
}

#[test]
fn microcompact_clears_old_long_tool_results() {
    let long = "x".repeat(501);
    let edge = "x".repeat(500);
    let mut history = vec![
        message("tool", &long),
        message("tool", &edge),
        message("user", &long),
        message("tool", &long),
        message("tool", &long),
    ];
    let g = ContextGuard::new(10);
    assert_eq!(g.microcompact(&mut history, 1), 2);
    assert_eq!(
        history,
        vec![
            message("tool", "[Old tool result content cleared]"),
            message("tool", &edge),
            message("user", &long),
            message("tool", "[Old tool result content cleared]"),
            message("tool", &long),
        ]
    );
    assert_eq!(g.microcompact(&mut history, 1), 0);
    assert_eq!(g.microcompact(&mut history, 0), 1);
}

#[test]
fn microcompact_measures_bytes() {
    let mut history = vec![message("tool", &"ü".repeat(251))];
    assert_eq!(ContextGuard::new(10).microcompact(&mut history, 0), 1);
    let mut history = vec![message("tool", &"ü".repeat(250))];
    assert_eq!(ContextGuard::new(10).microcompact(&mut history, 0), 0);
}

#[test]
fn microcompact_keeps_a_short_history() {
    let long = "x".repeat(600);
    let mut history = vec![message("tool", &long), message("tool", &long)];
    assert_eq!(ContextGuard::new(10).microcompact(&mut history, 2), 0);
    assert_eq!(ContextGuard::new(10).microcompact(&mut history, 9), 0);
    assert_eq!(history, vec![message("tool", &long), message("tool", &long)]);
}

#[test]
fn tokens_are_quarters_of_bytes() {
    assert_eq!(text_bytes("grün"), 5);
    assert_eq!(estimate_tokens(&vec![]), Some(0));
    let history = vec![message("user", "12345678"), message("user", "123"), message("user", "grün")];
    assert_eq!(estimate_tokens(&history), Some(3));
}

#[test]
fn messages_carry_their_role() {
    assert_eq!(ChatMessage::user("hi"), message("user", "hi"));
    assert_eq!(ChatMessage::system("be kind"), message("system", "be kind"));
    let history = vec![message("user", "a"), message("assistant", "b")];
    assert_eq!(copy_history(&history), history);
    assert_eq!(history[0].clone(), history[0]);
}

#[test]
fn system_prompt_is_put_first_once() {
    let mut history = vec![ChatMessage::user("hi")];
    ensure_system_prompt(&mut history, "");
    assert_eq!(history, vec![ChatMessage::user("hi")]);
    ensure_system_prompt(&mut history, "be kind");
    assert_eq!(history, vec![ChatMessage::system("be kind"), ChatMessage::user("hi")]);
    ensure_system_prompt(&mut history, "be terse");
    assert_eq!(history, vec![ChatMessage::system("be kind"), ChatMessage::user("hi")]);
}

#[test]
fn system_message_anywhere_counts() {
    let mut history = vec![ChatMessage::user("hi"), ChatMessage::system("late")];
    ensure_system_prompt(&mut history, "be kind");
    assert_eq!(history, vec![ChatMessage::user("hi"), ChatMessage::system("late")]);
}
