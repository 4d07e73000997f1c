//! The context window: how full it is, and how old tool output is cleared.

use crate::chat::{byte_len, messages, text_bytes, ChatMessage, MessageView};
use crate::doubles::{
    double_of, half_even, law_arithmetic_is_rounded, lemma_exponent_at_least,
    lemma_exponent_at_most, lemma_half_even_between, lemma_hundredfold, lemma_nearest_scaled,
    lemma_nearest_significand, lemma_quotient_by_integer, lemma_quotient_of_integers, lemma_share,
    product, quotient, rounds, Double, DoubleView, BEYOND, HUNDRED, LEAST, NINETY, NINETY_FIVE,
    ZERO,
};
use crate::text::same_text;
use vstd::arithmetic::div_mod::lemma_fundamental_div_mod;
use vstd::arithmetic::power2::{lemma2_to64, lemma2_to64_rest, pow2};
use vstd::prelude::*;
use vstd::utf8::{encode_utf8, is_ascii_chars_encode_utf8};

verus! {

/// The window that a new agent starts with, in tokens.
pub const DEFAULT_CONTEXT_WINDOW: usize = 128_000;

/// Tool output of more bytes than this is cleared when it is old.
pub const TOOL_RESULT_LIMIT: usize = 500;

/// How many compactions may fail in a row.
pub const MAX_COMPACTION_FAILURES: usize = 3;

/// Context window guard: tracks token utilization and says when to compact.
#[derive(Debug, Clone, Copy, PartialEq, Eq)]
pub struct ContextGuard {
    /// Size of the window in tokens.
    pub context_window: usize,
    /// Tokens that went in last.
    pub last_input_tokens: usize,
    /// Tokens that came out last.
    pub last_output_tokens: usize,
    /// Compactions that failed since the last one that succeeded.
    pub consecutive_compaction_failures: usize,
    /// Failures in a row at which the circuit breaks.
    pub max_failures: usize,
}

/// What the guard says of the window.
#[derive(Debug, Clone, Copy, PartialEq, Eq, Structural)]
pub enum ContextCheckResult {
    /// There is room.
    Room,
    /// The window is at least 90 % full.
    CompactionNeeded,
    /// The window is at least 95 % full.
    ContextExhausted,
}

/// How much of a window is used, in percent, in double precision: the bit pattern
/// of `used / window * 100.0`, with each of the numbers and both results rounded.
pub open spec fn utilization(used: nat, window: nat) -> int {
    if window == 0 {
        0
    } else {
        product(quotient(double_of(used), double_of(window)), double_of(100)).pattern()
    }
}

/// What the guard says of a window of which `used` tokens are taken.
pub open spec fn window_state(used: nat, window: nat) -> ContextCheckResult {
    if utilization(used, window) >= NINETY_FIVE {
        ContextCheckResult::ContextExhausted
    } else if utilization(used, window) >= NINETY {
        ContextCheckResult::CompactionNeeded
    } else {
        ContextCheckResult::Room
    }
}

/// A tool message that is long enough to be cleared.
pub open spec fn clearable(m: MessageView) -> bool {
    m.role == "tool"@ && byte_len(m.content) > TOOL_RESULT_LIMIT
}

/// The message after clearing.
pub open spec fn cleared(m: MessageView) -> MessageView {
    if clearable(m) {
        MessageView { content: "[Old tool result content cleared]"@, ..m }
    } else {
        m
    }
}

/// How many messages are old: all but the `keep_recent` last ones.
pub open spec fn old_count(len: nat, keep_recent: nat) -> nat {
    if len <= keep_recent {
        0
    } else {
        (len - keep_recent) as nat
    }
}

/// The history after clearing its old tool output.
pub open spec fn microcompacted(history: Seq<MessageView>, keep_recent: nat) -> Seq<MessageView> {
    Seq::new(
        history.len(),
        |i: int|
            if i < old_count(history.len(), keep_recent) {
                cleared(history[i])
            } else {
                history[i]
            },
    )
}

/// The old messages that are cleared.
pub open spec fn to_clear(history: Seq<MessageView>, keep_recent: nat) -> Seq<MessageView> {
    history.take(old_count(history.len(), keep_recent) as int).filter(
        |m: MessageView| clearable(m),
    )
}

impl ContextGuard {
    /// A guard of a window, with nothing used yet.
    pub open spec fn fresh(context_window: usize) -> ContextGuard {
        ContextGuard {
            context_window,
            last_input_tokens: 0,
            last_output_tokens: 0,
            consecutive_compaction_failures: 0,
            max_failures: MAX_COMPACTION_FAILURES,
        }
    }

    /// A guard of a window, with nothing used yet.
    pub fn new(context_window: usize) -> (g: ContextGuard)
        ensures
            g == ContextGuard::fresh(context_window),
    {
        ContextGuard {
            context_window,
            last_input_tokens: 0,
            last_output_tokens: 0,
            consecutive_compaction_failures: 0,
            max_failures: MAX_COMPACTION_FAILURES,
        }
    }

    /// Notes what the last exchange used.
    pub fn update_usage(&mut self, input_tokens: usize, output_tokens: usize)
        ensures
            *final(self) == (ContextGuard {
                last_input_tokens: input_tokens,
                last_output_tokens: output_tokens,
                ..*old(self)
            }),
    {
        self.last_input_tokens = input_tokens;
        self.last_output_tokens = output_tokens;
    }

    /// The tokens that the last exchange used.
    pub open spec fn used(self) -> nat {
        (self.last_input_tokens + self.last_output_tokens) as nat
    }

    /// How much of the window is used, in percent, as the bit pattern of a
    /// double.
    pub fn utilization_pct(&self) -> (bits: u64)
        requires
            self.used() <= usize::MAX,
        ensures
            bits == utilization(self.used(), self.context_window as nat),
    {
        if self.context_window == 0 {
            return 0;
        }
        let used: usize = self.last_input_tokens + self.last_output_tokens;
        let share = Double::of(used as u64).over(Double::of(self.context_window as u64));
        share.times(Double::of(100)).bits()
    }

    /// How full the window is.
    pub fn check(&self) -> (r: ContextCheckResult)
        requires
            self.used() <= usize::MAX,
        ensures
            r == window_state(self.used(), self.context_window as nat),
    {
        let util: u64 = self.utilization_pct();
        if util >= NINETY_FIVE {
            ContextCheckResult::ContextExhausted
        } else if util >= NINETY {
            ContextCheckResult::CompactionNeeded
        } else {
            ContextCheckResult::Room
        }
    }

    /// The guard after a compaction that succeeded.
    pub open spec fn after_success(self) -> ContextGuard {
        ContextGuard { consecutive_compaction_failures: 0, ..self }
    }

    /// The guard after a compaction that failed.
    pub open spec fn after_failure(self) -> ContextGuard {
        ContextGuard {
            consecutive_compaction_failures: (self.consecutive_compaction_failures + 1) as usize,
            ..self
        }
    }

    /// The guard after a number of compactions that failed in a row.
    pub open spec fn after_failures(self, n: nat) -> ContextGuard
        decreases n,
    {
        if n == 0 {
            self
        } else {
            self.after_failures((n - 1) as nat).after_failure()
        }
    }

    /// Too many compactions failed in a row.
    pub open spec fn broken(self) -> bool {
        self.consecutive_compaction_failures >= self.max_failures
    }

    /// Notes a compaction that succeeded.
    pub fn record_compaction_success(&mut self)
        ensures
            *final(self) == old(self).after_success(),
    {
        self.consecutive_compaction_failures = 0;
    }

    /// Notes a compaction that failed.
    pub fn record_compaction_failure(&mut self)
        requires
            old(self).consecutive_compaction_failures < usize::MAX,
        ensures
            *final(self) == old(self).after_failure(),
    {
        self.consecutive_compaction_failures += 1;
    }

    /// Too many compactions failed in a row.
    pub fn is_circuit_broken(&self) -> (r: bool)
        ensures
            r == self.broken(),
    {
        self.consecutive_compaction_failures >= self.max_failures
    }

    /// Clears the bodies of old, long tool results and keeps the messages
    /// themselves; returns how many were cleared.
    pub fn microcompact(&self, history: &mut Vec<ChatMessage>, keep_recent: usize) -> (count: usize)
        ensures
            messages(final(history)@) == microcompacted(
                messages(old(history)@),
                keep_recent as nat,
            ),
            count == to_clear(messages(old(history)@), keep_recent as nat).len(),
    {
        let ghost before = messages(history@);
        let len: usize = history.len();
        if len <= keep_recent {
            proof {
                assert(microcompacted(before, keep_recent as nat) =~= before);
                assert(before.take(0) =~= Seq::<MessageView>::empty());
                reveal(Seq::filter);
            }
            return 0;
        }
        let old_len: usize = len - keep_recent;
        let mut count: usize = 0;
        let mut i: usize = 0;
        proof {
            assert(before.take(0) =~= Seq::<MessageView>::empty());
            reveal(Seq::filter);
        }
        while i < old_len
            invariant
                i <= old_len <= len,
                history@.len() == len == before.len(),
                count <= i,
                count == before.take(i as int).filter(|m: MessageView| clearable(m)).len(),
                forall|j: int| 0 <= j < i ==> (#[trigger] history@[j])@ == cleared(before[j]),
                forall|j: int| i <= j < len ==> (#[trigger] history@[j])@ == before[j],
            decreases old_len - i,
        {
            proof {
                reveal(Seq::filter);
                assert(before.take(i + 1).drop_last() =~= before.take(i as int));
                assert(before.take(i + 1).last() == before[i as int]);
                assert(history@[i as int]@ == before[i as int]);
            }
            if same_text(history[i].role.as_str(), "tool") && text_bytes(
                history[i].content.as_str(),
            ) > TOOL_RESULT_LIMIT {
                history[i].content = "[Old tool result content cleared]".to_owned();
                count += 1;
            }
            i += 1;
        }
        proof {
            assert(messages(history@) =~= microcompacted(before, keep_recent as nat));
        }
        count
    }
}

/// A window of which nothing is used has room, whatever its size.
pub proof fn law_unused_window_has_room(window: nat)
    ensures
        utilization(0, window) == ZERO,
        window_state(0, window) == ContextCheckResult::Room,
{
    assert(0 * double_of(100).significand == 0) by (nonlinear_arith);
}

/// Up to a full window the utilization is at most 100.0, and of a full one it is
/// just that, whatever the size of the window.
pub proof fn law_utilization_up_to_full(used: nat, window: nat)
    ensures
        used <= window ==> utilization(used, window) <= HUNDRED,
        used == window && window > 0 ==> utilization(used, window) == HUNDRED,
{
    if used == 0 {
        law_unused_window_has_room(window);
    } else if used <= window {
        let q = quotient(double_of(used), double_of(window));
        lemma_share(used, window);
        lemma_hundredfold(q);
        let n = 100 * q.significand;
        if n < 64 * BEYOND {
            lemma_half_even_between(n, 64, LEAST as nat, BEYOND as nat);
        } else {
            lemma_half_even_between(n, 128, LEAST as nat, 100 * 0x4000_0000_0000);
        }
    }
}

/// A window of at most 2^48 tokens is judged exactly, in spite of rounding: it
/// counts as exhausted from 95 % on, and as in need of compaction from 90 % on.
pub proof fn law_percent_thresholds(used: nat, window: nat)
    requires
        0 < window <= 0x1_0000_0000_0000,
    ensures
        window_state(used, window) == (if 100 * used >= 95 * window {
            ContextCheckResult::ContextExhausted
        } else if 100 * used >= 90 * window {
            ContextCheckResult::CompactionNeeded
        } else {
            ContextCheckResult::Room
        }),
{
    if used == 0 {
        law_unused_window_has_room(window);
    } else if used >= window {
        lemma_full_window(used, window);
    } else if 2 * used < window {
        lemma_half_empty_window(used, window);
    } else {
        lemma_filling_window(used, window);
    }
}

proof fn lemma_full_window(used: nat, window: nat)
    requires
        0 < window <= 0x1_0000_0000_0000,
        used >= window,
    ensures
        utilization(used, window) >= NINETY_FIVE,
{
    let x = double_of(used);
    let q = quotient(x, double_of(window));
    lemma2_to64();
    lemma2_to64_rest();
    lemma_nearest_significand(used, 1, 0);
    lemma_quotient_by_integer(x, window);
    lemma_nearest_significand(x.significand, window, x.exponent);
    if used < BEYOND {
        lemma_quotient_of_integers(used, window);
        lemma_nearest_scaled(used, window, 0, 52, 0);
        lemma_exponent_at_least(used * pow2(52), window, -52);
    } else {
        lemma_exponent_at_least(used, 1, 0);
        lemma_nearest_scaled(x.significand, window, x.exponent, 52, 0);
        lemma_exponent_at_least(x.significand * pow2(52), window, x.exponent - 52);
    }
    lemma_hundredfold(q);
    if 100 * q.significand < 64 * BEYOND {
        lemma_half_even_between(100 * q.significand, 64, 100 * 0x4000_0000_0000, BEYOND as nat);
    } else {
        lemma_half_even_between(100 * q.significand, 128, LEAST as nat, BEYOND as nat);
    }
}

proof fn lemma_half_empty_window(used: nat, window: nat)
    requires
        0 < window <= 0x1_0000_0000_0000,
        0 < used,
        2 * used < window,
    ensures
        utilization(used, window) < NINETY,
{
    let q = quotient(double_of(used), double_of(window));
    lemma2_to64();
    lemma2_to64_rest();
    lemma_quotient_of_integers(used, window);
    lemma_nearest_significand(used, window, 0);
    lemma_nearest_scaled(used, window, 0, 54, 0);
    lemma_exponent_at_most(used * pow2(54), window, -54);
    lemma_hundredfold(q);
    if 100 * q.significand < 64 * BEYOND {
        lemma_half_even_between(100 * q.significand, 64, 0, BEYOND as nat);
    } else {
        lemma_half_even_between(100 * q.significand, 128, 0, BEYOND as nat);
    }
}

proof fn lemma_filling_window(used: nat, window: nat)
    requires
        0 < window <= 0x1_0000_0000_0000,
        used < window <= 2 * used,
    ensures
        utilization(used, window) >= NINETY_FIVE <==> 100 * used >= 95 * window,
        utilization(used, window) >= NINETY <==> 100 * used >= 90 * window,
{
    let q = quotient(double_of(used), double_of(window));
    let n = used * (BEYOND as nat);
    lemma2_to64();
    lemma2_to64_rest();
    lemma_quotient_of_integers(used, window);
    lemma_nearest_significand(used, window, 0);
    lemma_nearest_scaled(used, window, 0, 53, 0);
    assert(q.exponent == -53 && q.significand == half_even(n, window));
    lemma_hundredfold(q);
    if 100 * used >= 95 * window {
        lemma_half_even_between(n, window, 8556839292003942, BEYOND as nat);
    } else {
        lemma_half_even_between(n, window, 0, 8556839292003941);
    }
    if 100 * used >= 90 * window {
        lemma_fundamental_div_mod(n as int, window as int);
        let low = n / window;
        let rest = n % window;
        assert(low >= 8106479329266892) by (nonlinear_arith)
            requires
                n == window * low + rest,
                0 <= rest < window,
                n >= 8106479329266892 * window,
        ;
        if low == 8106479329266892 {
            assert(window * low == 8106479329266892 * window) by (nonlinear_arith)
                requires
                    low == 8106479329266892,
            ;
            assert(2 * rest > window);
        }
    } else {
        lemma_half_even_between(n, window, 0, 8106479329266891);
    }
}

/// After a success the circuit breaks exactly when the failures since then have
/// reached the limit, and everything else of the guard stays as it was.
pub proof fn law_circuit_breaks(guard: ContextGuard, failures: nat)
    requires
        failures <= usize::MAX,
    ensures
        guard.after_success().after_failures(failures).broken() <==> failures
            >= guard.max_failures,
        guard.after_success().after_failures(failures) == (ContextGuard {
            consecutive_compaction_failures: failures as usize,
            ..guard
        }),
    decreases failures,
{
    if failures > 0 {
        law_circuit_breaks(guard, (failures - 1) as nat);
    }
}

/// Clearing keeps the number of messages and who spoke them, and does not touch
/// the most recent ones.
pub proof fn law_microcompact_keeps_envelopes(history: Seq<MessageView>, keep_recent: nat, i: int)
    requires
        0 <= i < history.len(),
    ensures
        microcompacted(history, keep_recent).len() == history.len(),
        microcompacted(history, keep_recent)[i].role == history[i].role,
        i + keep_recent >= history.len() ==> microcompacted(history, keep_recent)[i] == history[i],
        history[i].role != "tool"@ ==> microcompacted(history, keep_recent)[i] == history[i],
{
}

/// Clearing a second time, with the same number of recent messages or more,
/// finds nothing to clear.
pub proof fn law_microcompact_settles(history: Seq<MessageView>, first: nat, second: nat)
    requires
        first <= second,
    ensures
        microcompacted(microcompacted(history, first), second) == microcompacted(history, first),
        to_clear(microcompacted(history, first), second).len() == 0,
{
    let once = microcompacted(history, first);
    reveal_strlit("[Old tool result content cleared]");
    is_ascii_chars_encode_utf8("[Old tool result content cleared]"@);
    assert(byte_len("[Old tool result content cleared]"@) <= TOOL_RESULT_LIMIT);
    assert forall|i: int| 0 <= i < old_count(once.len(), second) implies !clearable(
        #[trigger] once[i],
    ) by {}
    assert(microcompacted(once, second) =~= once);
    let old_part = once.take(old_count(once.len(), second) as int);
    assert forall|i: int| 0 <= i < old_part.len() implies !clearable(#[trigger] old_part[i]) by {
        assert(old_part[i] == once[i]);
    }
    lemma_nothing_clearable(old_part);
}

proof fn lemma_nothing_clearable(list: Seq<MessageView>)
    requires
        forall|i: int| 0 <= i < list.len() ==> !clearable(#[trigger] list[i]),
    ensures
        list.filter(|m: MessageView| clearable(m)).len() == 0,
    decreases list.len(),
{
    reveal(Seq::filter);
    if list.len() > 0 {
        assert forall|i: int| 0 <= i < list.drop_last().len() implies !clearable(
            #[trigger] list.drop_last()[i],
        ) by {
            assert(list.drop_last()[i] == list[i]);
        }
        lemma_nothing_clearable(list.drop_last());
        assert(!clearable(list[list.len() - 1]));
    }
}

/// The utilization is `used / window * 100.0` in double precision: both counts and
/// the hundred are rounded to doubles, so is their quotient, and so is the product,
/// whose pattern it is.
pub proof fn law_utilization_is_rounded_percentage(used: nat, window: nat)
    requires
        used > 0,
        window > 0,
    ensures
        exists|
            x: DoubleView,
            y: DoubleView,
            hundred: DoubleView,
            q: DoubleView,
            p: DoubleView,
        |
            {
                &&& #[trigger] rounds(x, used, 1, 0)
                &&& #[trigger] rounds(y, window, 1, 0)
                &&& #[trigger] rounds(hundred, 100, 1, 0)
                &&& #[trigger] rounds(q, x.significand, y.significand, x.exponent - y.exponent)
                &&& #[trigger] rounds(
                    p,
                    q.significand * hundred.significand,
                    1,
                    q.exponent + hundred.exponent,
                )
                &&& utilization(used, window) == (p.exponent + 1074) * 0x10_0000_0000_0000
                    + p.significand
            },
{
    let x = double_of(used);
    let y = double_of(window);
    let hundred = double_of(100);
    let q = quotient(x, y);
    let p = product(q, hundred);
    lemma_nearest_significand(used, 1, 0);
    lemma_nearest_significand(window, 1, 0);
    lemma_nearest_significand(100, 1, 0);
    lemma_nearest_significand(x.significand, y.significand, x.exponent - y.exponent);
    law_arithmetic_is_rounded(used, x, y);
    law_arithmetic_is_rounded(window, q, hundred);
    law_arithmetic_is_rounded(100, q, hundred);
    let n = q.significand * hundred.significand;
    assert(n > 0) by (nonlinear_arith)
        requires
            n == q.significand * hundred.significand,
            q.significand > 0,
            hundred.significand > 0,
    ;
    lemma_nearest_significand(n, 1, q.exponent + hundred.exponent);
}

/// Nothing used, or no window, is no utilization; from the patterns of 95.0 and 90.0
/// on a window is exhausted or in need of compaction.
pub proof fn law_state_follows_utilization(used: nat, window: nat)
    ensures
        utilization(0, window) == 0,
        utilization(used, 0) == 0,
        window_state(used, window) == ContextCheckResult::ContextExhausted <==> utilization(
            used,
            window,
        ) >= 0x4057_c000_0000_0000,
        window_state(used, window) == ContextCheckResult::CompactionNeeded <==> {
            0x4056_8000_0000_0000 <= utilization(used, window) < 0x4057_c000_0000_0000
        },
{
    law_unused_window_has_room(window);
}

/// What becomes of each message: an old one of a tool with more than 500 bytes has
/// its content replaced, and every other one stays as it is. Old are all but the
/// last `keep_recent`.
pub proof fn law_old_tool_output_is_cleared(history: Seq<MessageView>, keep_recent: nat, i: int)
    requires
        0 <= i < history.len(),
    ensures
        microcompacted(history, keep_recent).len() == history.len(),
        i + keep_recent < history.len() && history[i].role == "tool"@ && encode_utf8(
            history[i].content,
        ).len() > 500 ==> {
            &&& microcompacted(history, keep_recent)[i].role == "tool"@
            &&& microcompacted(history, keep_recent)[i].content
                == "[Old tool result content cleared]"@
        },
        i + keep_recent >= history.len() || history[i].role != "tool"@ || encode_utf8(
            history[i].content,
        ).len() <= 500 ==> microcompacted(history, keep_recent)[i] == history[i],
{
}

/// After microcompaction no old tool message has more than 500 bytes.
pub proof fn law_no_long_tool_output_is_left(history: Seq<MessageView>, keep_recent: nat, i: int)
    requires
        0 <= i,
        i + keep_recent < history.len(),
        microcompacted(history, keep_recent)[i].role == "tool"@,
    ensures
        encode_utf8(microcompacted(history, keep_recent)[i].content).len() <= 500,
{
    reveal_strlit("[Old tool result content cleared]");
    is_ascii_chars_encode_utf8("[Old tool result content cleared]"@);
}

/// How many messages are cleared: none of a history with nothing old; and with one
/// more message in front, one more if that is an old one of a tool with more than
/// 500 bytes, else as many as without it.
pub proof fn law_cleared_messages_are_counted(
    history: Seq<MessageView>,
    message: MessageView,
    keep_recent: nat,
)
    ensures
        history.len() <= keep_recent ==> to_clear(history, keep_recent).len() == 0,
        history.len() >= keep_recent ==> to_clear(seq![message] + history, keep_recent).len()
            == to_clear(history, keep_recent).len() + (if message.role == "tool"@ && encode_utf8(
            message.content,
        ).len() > 500 {
            1nat
        } else {
            0
        }),
{
    if history.len() <= keep_recent {
        reveal(Seq::filter);
        assert(history.take(0) =~= Seq::<MessageView>::empty());
    }
    if history.len() >= keep_recent {
        let old = (history.len() - keep_recent) as int;
        let longer = seq![message] + history;
        assert(longer.take(old + 1) =~= seq![message] + history.take(old));
        lemma_filter_in_front(message, history.take(old));
    }
}

proof fn lemma_filter_in_front(message: MessageView, list: Seq<MessageView>)
    ensures
        (seq![message] + list).filter(|m: MessageView| clearable(m)).len() == list.filter(
            |m: MessageView| clearable(m),
        ).len() + (if clearable(message) {
            1nat
        } else {
            0
        }),
    decreases list.len(),
{
    reveal(Seq::filter);
    if list.len() == 0 {
        assert((seq![message] + list).drop_last() =~= Seq::<MessageView>::empty());
        assert((seq![message] + list).last() == message);
        assert(list.filter(|m: MessageView| clearable(m)).len() == 0);
        assert((seq![message] + list).drop_last().filter(|m: MessageView| clearable(m)).len() == 0);
    } else {
        lemma_filter_in_front(message, list.drop_last());
        assert((seq![message] + list).drop_last() =~= seq![message] + list.drop_last());
        assert((seq![message] + list).last() == list.last());
    }
}

/// A new guard has the window that it is given, nothing used and no failure, and
/// allows three; what is used is the sum of what went in and what came out.
pub proof fn law_guard_of_a_window(guard: ContextGuard, window: usize)
    ensures
        ContextGuard::fresh(window).context_window == window,
        ContextGuard::fresh(window).last_input_tokens == 0,
        ContextGuard::fresh(window).last_output_tokens == 0,
        ContextGuard::fresh(window).consecutive_compaction_failures == 0,
        ContextGuard::fresh(window).max_failures == 3,
        guard.used() == guard.last_input_tokens + guard.last_output_tokens,
{
}

/// A success forgets the failures, a failure counts one, and nothing else changes;
/// the circuit is broken when the failures have reached the limit.
pub proof fn law_counting_of_failures(guard: ContextGuard)
    ensures
        guard.after_success() == (ContextGuard { consecutive_compaction_failures: 0, ..guard }),
        guard.consecutive_compaction_failures < usize::MAX ==> guard.after_failure() == (
        ContextGuard {
            consecutive_compaction_failures: (guard.consecutive_compaction_failures + 1) as usize,
            ..guard
        }),
        guard.broken() <==> guard.consecutive_compaction_failures >= guard.max_failures,
{
}

} // verus!
