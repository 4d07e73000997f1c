//! Chat messages and the conversation history.

use crate::text::same_text;
use vstd::prelude::*;
use vstd::utf8::encode_utf8;

verus! {

/// One message of the conversation.
#[derive(Debug, PartialEq, Eq)]
pub struct ChatMessage {
    /// Who speaks: `system`, `user`, `assistant` or `tool`.
    pub role: String,
    /// What is said.
    pub content: String,
}

/// A message as text.
pub struct MessageView {
    pub role: Seq<char>,
    pub content: Seq<char>,
}

impl View for ChatMessage {
    type V = MessageView;

    open spec fn view(&self) -> MessageView {
        MessageView { role: self.role@, content: self.content@ }
    }
}

/// The views of a list of messages.
pub open spec fn messages(history: Seq<ChatMessage>) -> Seq<MessageView> {
    Seq::new(history.len(), |i: int| history[i]@)
}

/// A message of the user.
pub open spec fn user_message(content: Seq<char>) -> MessageView {
    MessageView { role: "user"@, content }
}

/// The system prompt as a message.
pub open spec fn system_message(content: Seq<char>) -> MessageView {
    MessageView { role: "system"@, content }
}

/// How many bytes a text takes in UTF-8.
pub open spec fn byte_len(s: Seq<char>) -> nat {
    encode_utf8(s).len()
}

/// The rough token count of a history: a quarter of the bytes of each message,
/// rounded down, summed up.
pub open spec fn token_estimate(history: Seq<MessageView>) -> nat
    decreases history.len(),
{
    if history.len() == 0 {
        0
    } else {
        token_estimate(history.drop_last()) + byte_len(history.last().content) / 4
    }
}

/// Some message carries the system role.
pub open spec fn has_system(history: Seq<MessageView>) -> bool {
    exists|i: int| 0 <= i < history.len() && (#[trigger] history[i]).role == "system"@
}

/// The history that a turn starts from: the system prompt is put first unless
/// it is empty or the history has a system message already.
pub open spec fn with_system_prompt(history: Seq<MessageView>, prompt: Seq<char>) -> Seq<
    MessageView,
> {
    if has_system(history) || prompt.len() == 0 {
        history
    } else {
        seq![system_message(prompt)] + history
    }
}

/// The number of bytes of a text.
pub fn text_bytes(s: &str) -> (n: usize)
    ensures
        n == byte_len(s@),
{
    s.as_bytes().len()
}

impl ChatMessage {
    /// A message of the user.
    pub fn user(content: &str) -> (m: ChatMessage)
        ensures
            m@ == user_message(content@),
    {
        ChatMessage { role: "user".to_owned(), content: content.to_owned() }
    }

    /// The system prompt as a message.
    pub fn system(content: &str) -> (m: ChatMessage)
        ensures
            m@ == system_message(content@),
    {
        ChatMessage { role: "system".to_owned(), content: content.to_owned() }
    }
}

impl Clone for ChatMessage {
    fn clone(&self) -> (m: ChatMessage)
        ensures
            m@ == self@,
    {
        ChatMessage { role: self.role.clone(), content: self.content.clone() }
    }
}

/// Copies a history.
pub fn copy_history(history: &Vec<ChatMessage>) -> (copy: Vec<ChatMessage>)
    ensures
        messages(copy@) == messages(history@),
{
    let mut copy: Vec<ChatMessage> = Vec::new();
    let mut i: usize = 0;
    while i < history.len()
        invariant
            i <= history@.len(),
            copy@.len() == i,
            forall|j: int| 0 <= j < i ==> (#[trigger] copy@[j])@ == history@[j]@,
        decreases history@.len() - i,
    {
        copy.push(history[i].clone());
        i += 1;
    }
    assert(messages(copy@) =~= messages(history@));
    copy
}

/// The rough token count of a history, or nothing if it exceeds `usize`.
pub fn estimate_tokens(history: &Vec<ChatMessage>) -> (r: Option<usize>)
    ensures
        match r {
            Some(n) => n == token_estimate(messages(history@)),
            None => token_estimate(messages(history@)) > usize::MAX,
        },
{
    let ghost all = messages(history@);
    let mut sum: usize = 0;
    let mut i: usize = 0;
    while i < history.len()
        invariant
            i <= history@.len(),
            all == messages(history@),
            sum == token_estimate(all.take(i as int)),
        decreases history@.len() - i,
    {
        let part: usize = text_bytes(history[i].content.as_str()) / 4;
        proof {
            assert(all.take(i + 1).drop_last() =~= all.take(i as int));
            assert(all.take(i + 1).last() == history@[i as int]@);
            lemma_estimate_grows(all, i + 1);
        }
        if part > usize::MAX - sum {
            return None;
        }
        sum += part;
        i += 1;
    }
    assert(all.take(i as int) =~= all);
    Some(sum)
}

proof fn lemma_estimate_grows(history: Seq<MessageView>, n: int)
    requires
        0 <= n <= history.len(),
    ensures
        token_estimate(history.take(n)) <= token_estimate(history),
    decreases history.len() - n,
{
    if n < history.len() {
        assert(history.take(n + 1).drop_last() =~= history.take(n));
        lemma_estimate_grows(history, n + 1);
    } else {
        assert(history.take(n) =~= history);
    }
}

fn any_system(history: &Vec<ChatMessage>) -> (r: bool)
    ensures
        r == has_system(messages(history@)),
{
    let mut i: usize = 0;
    while i < history.len()
        invariant
            i <= history@.len(),
            forall|j: int| 0 <= j < i ==> (#[trigger] messages(history@)[j]).role != "system"@,
        decreases history@.len() - i,
    {
        if same_text(history[i].role.as_str(), "system") {
            assert(messages(history@)[i as int].role == "system"@);
            return true;
        }
        i += 1;
    }
    false
}

/// Puts the system prompt in front of a history that has none.
pub fn ensure_system_prompt(history: &mut Vec<ChatMessage>, prompt: &str)
    ensures
        messages(final(history)@) == with_system_prompt(messages(old(history)@), prompt@),
{
    if !any_system(history) && !prompt.is_empty() {
        history.insert(0, ChatMessage::system(prompt));
        assert(messages(history@) =~= seq![system_message(prompt@)] + messages(old(history)@));
    }
}

/// With a system prompt that is not empty every turn starts from a history that
/// has a system message.
pub proof fn law_turn_has_system_message(history: Seq<MessageView>, prompt: Seq<char>)
    requires
        prompt.len() > 0,
    ensures
        has_system(with_system_prompt(history, prompt)),
{
    if !has_system(history) {
        assert(with_system_prompt(history, prompt)[0].role == "system"@);
    }
}

/// Putting the system prompt in front a second time changes nothing, whatever
/// the second prompt is, as soon as the first one was not empty.
pub proof fn law_system_prompt_stands_once(
    history: Seq<MessageView>,
    first: Seq<char>,
    second: Seq<char>,
)
    requires
        first.len() > 0,
    ensures
        with_system_prompt(with_system_prompt(history, first), second) == with_system_prompt(
            history,
            first,
        ),
{
    law_turn_has_system_message(history, first);
}

/// The messages of the history stay, in order, at the end of what a turn
/// starts from.
pub proof fn law_system_prompt_keeps_history(history: Seq<MessageView>, prompt: Seq<char>)
    ensures
        history.len() <= with_system_prompt(history, prompt).len() <= history.len() + 1,
        with_system_prompt(history, prompt).skip(
            with_system_prompt(history, prompt).len() - history.len(),
        ) == history,
{
    let out = with_system_prompt(history, prompt);
    assert(out.skip(out.len() - history.len()) =~= history);
}

/// Every message counts, whoever speaks: one more message adds a quarter of its
/// bytes, rounded down, and no message counts nothing.
pub proof fn law_every_message_counts(history: Seq<MessageView>, message: MessageView)
    ensures
        token_estimate(Seq::<MessageView>::empty()) == 0,
        token_estimate(history.push(message)) == token_estimate(history) + encode_utf8(
            message.content,
        ).len() / 4,
{
    assert(history.push(message).drop_last() =~= history);
}

/// The estimate of two histories in a row is the sum of both, so no order and no
/// grouping of messages changes it.
pub proof fn law_estimates_add_up(first: Seq<MessageView>, second: Seq<MessageView>)
    ensures
        token_estimate(first + second) == token_estimate(first) + token_estimate(second),
    decreases second.len(),
{
    if second.len() == 0 {
        assert(first + second =~= first);
    } else {
        law_estimates_add_up(first, second.drop_last());
        assert((first + second).drop_last() =~= first + second.drop_last());
    }
}

/// The size of a text is that of its UTF-8 encoding.
pub proof fn law_size_is_in_bytes(s: Seq<char>)
    ensures
        byte_len(s) == encode_utf8(s).len(),
{
}

/// A message shows its role and its content, and a history its messages in order.
pub proof fn law_history_is_seen(history: Seq<ChatMessage>, i: int)
    ensures
        messages(history).len() == history.len(),
        0 <= i < history.len() ==> messages(history)[i].role == history[i].role@
            && messages(history)[i].content == history[i].content@,
{
}

/// A prompt speaks with the role of the user, and the system prompt with that of
/// the system; both say what they were given, whole.
pub proof fn law_prompts_have_their_role(content: Seq<char>)
    ensures
        user_message(content).role == "user"@,
        user_message(content).content == content,
        system_message(content).role == "system"@,
        system_message(content).content == content,
{
}

/// The system prompt is put in front exactly if it is not empty and no message has
/// the system role; all messages stay behind it, one by one.
pub proof fn law_system_prompt_goes_in_front(
    history: Seq<MessageView>,
    prompt: Seq<char>,
    i: int,
)
    requires
        0 <= i < history.len(),
    ensures
        prompt.len() == 0 ==> with_system_prompt(history, prompt) == history,
        history[i].role == "system"@ ==> with_system_prompt(history, prompt) == history,
        prompt.len() > 0 && (forall|k: int|
            0 <= k < history.len() ==> (#[trigger] history[k]).role != "system"@) ==> {
            let out = with_system_prompt(history, prompt);
            &&& out.len() == history.len() + 1
            &&& out[0].role == "system"@
            &&& out[0].content == prompt
            &&& out[i + 1] == history[i]
        },
{
}

/// An empty history gets the system prompt alone, or nothing if that is empty.
pub proof fn law_system_prompt_of_empty_history(prompt: Seq<char>)
    ensures
        prompt.len() == 0 ==> with_system_prompt(Seq::empty(), prompt).len() == 0,
        prompt.len() > 0 ==> {
            let out = with_system_prompt(Seq::empty(), prompt);
            out.len() == 1 && out[0].role == "system"@ && out[0].content == prompt
        },
{
}

} // verus!
