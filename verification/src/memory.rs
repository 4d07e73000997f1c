//! An in-memory conversation store for recall across sessions.

use crate::text::{
    clip, clipped, contains_text, decimal, decimal_text, digit, law_containing_is_having_around,
    lowercase, occurs_at, same_text, text_contains, texts, to_lowercase,
};
use vstd::prelude::*;

verus! {

/// How many entries a new store keeps.
pub const DEFAULT_MAX_ENTRIES: usize = 1000;

/// How many characters of an entry are recalled.
pub const RECALL_CHARS: usize = 200;

/// Simple in-memory conversation store for cross-session recall.
#[derive(Debug)]
pub struct MemoryStore {
    /// The entries, the oldest first.
    pub conversations: Vec<ConversationEntry>,
    /// How many entries are kept.
    pub max_entries: usize,
}

/// One remembered message.
#[derive(Debug, PartialEq, Eq)]
pub struct ConversationEntry {
    pub id: String,
    pub role: String,
    pub content: String,
    /// Whole seconds since the Unix epoch; 0 for a time before it.
    pub timestamp: u64,
    pub session_id: String,
}

/// An entry as text.
pub struct EntryView {
    pub id: Seq<char>,
    pub role: Seq<char>,
    pub content: Seq<char>,
    pub timestamp: u64,
    pub session_id: Seq<char>,
}

/// A store as text.
pub struct MemoryView {
    pub conversations: Seq<EntryView>,
    pub max_entries: usize,
}

impl View for ConversationEntry {
    type V = EntryView;

    open spec fn view(&self) -> EntryView {
        EntryView {
            id: self.id@,
            role: self.role@,
            content: self.content@,
            timestamp: self.timestamp,
            session_id: self.session_id@,
        }
    }
}

impl View for MemoryStore {
    type V = MemoryView;

    open spec fn view(&self) -> MemoryView {
        MemoryView {
            conversations: Seq::new(
                self.conversations@.len(),
                |i: int| self.conversations@[i]@,
            ),
            max_entries: self.max_entries,
        }
    }
}

/// The identifier that an entry gets when it comes behind `n` others.
pub open spec fn entry_id(n: nat) -> Seq<char> {
    "entry_"@ + decimal(n)
}

/// The line in which an entry is recalled: who spoke, when, and the beginning of
/// what was said.
pub open spec fn entry_line(e: EntryView) -> Seq<char> {
    "["@ + e.role + "] "@ + decimal(e.timestamp as nat) + ": "@ + clipped(
        e.content,
        RECALL_CHARS as nat,
    )
}

/// One of the two texts contains the other.
pub open spec fn overlaps(content: Seq<char>, query: Seq<char>) -> bool {
    contains_text(content, query) || contains_text(query, content)
}

/// An entry, given with the lower-case form of its content, that answers a
/// query in lower case from the current session: it is from another session and
/// overlaps with the query.
pub open spec fn answers(
    e: EntryView,
    content_lower: Seq<char>,
    query_lower: Seq<char>,
    current_session: Seq<char>,
) -> bool {
    e.session_id != current_session && overlaps(content_lower, query_lower)
}

/// The lines of the entries that answer a query, the newest first, at most
/// `limit` of them.
pub open spec fn recalled(
    entries: Seq<EntryView>,
    contents_lower: Seq<Seq<char>>,
    query_lower: Seq<char>,
    current_session: Seq<char>,
    limit: nat,
) -> Seq<Seq<char>>
    decreases entries.len(),
{
    if entries.len() == 0 || limit == 0 {
        Seq::empty()
    } else if answers(entries.last(), contents_lower.last(), query_lower, current_session) {
        seq![entry_line(entries.last())] + recalled(
            entries.drop_last(),
            contents_lower.drop_last(),
            query_lower,
            current_session,
            (limit - 1) as nat,
        )
    } else {
        recalled(
            entries.drop_last(),
            contents_lower.drop_last(),
            query_lower,
            current_session,
            limit,
        )
    }
}

/// The entry answers the query, letters compared without regard to case.
pub open spec fn answers_query(
    e: EntryView,
    query: Seq<char>,
    current_session: Seq<char>,
) -> bool {
    answers(e, lowercase(e.content), lowercase(query), current_session)
}

/// The lines of the last `limit` entries of a list, the newest first.
pub open spec fn newest_lines(entries: Seq<EntryView>, limit: nat) -> Seq<Seq<char>> {
    Seq::new(
        if entries.len() < limit {
            entries.len()
        } else {
            limit
        },
        |i: int| entry_line(entries[entries.len() - 1 - i]),
    )
}

impl MemoryView {
    /// The store of a new agent.
    pub open spec fn initial() -> MemoryView {
        MemoryView { conversations: Seq::empty(), max_entries: DEFAULT_MAX_ENTRIES }
    }

    /// The entry that the store would take in.
    pub open spec fn entry(
        self,
        session_id: Seq<char>,
        role: Seq<char>,
        content: Seq<char>,
        now: u64,
    ) -> EntryView {
        EntryView {
            id: entry_id(self.conversations.len()),
            role,
            content,
            timestamp: now,
            session_id,
        }
    }

    /// The store after taking in an entry: the oldest ones go as soon as there
    /// are too many.
    pub open spec fn with_entry(
        self,
        session_id: Seq<char>,
        role: Seq<char>,
        content: Seq<char>,
        now: u64,
    ) -> MemoryView {
        let all = self.conversations.push(self.entry(session_id, role, content, now));
        MemoryView {
            conversations: if all.len() > self.max_entries {
                all.skip(all.len() - self.max_entries)
            } else {
                all
            },
            ..self
        }
    }

    /// The store without its entries.
    pub open spec fn emptied(self) -> MemoryView {
        MemoryView { conversations: Seq::empty(), ..self }
    }

    /// What is recalled for a query: the most recent entries of other sessions
    /// that are relevant to it.
    pub open spec fn recall(
        self,
        query: Seq<char>,
        current_session: Seq<char>,
        limit: nat,
    ) -> Seq<Seq<char>> {
        newest_lines(
            self.conversations.filter(|e: EntryView| answers_query(e, query, current_session)),
            limit,
        )
    }

    /// Every entry has the number of its place as its identifier.
    pub open spec fn numbered(self) -> bool {
        forall|i: int|
            0 <= i < self.conversations.len() ==> (#[trigger] self.conversations[i]).id
                == entry_id(i as nat)
    }
}

impl ConversationEntry {
    /// The line in which the entry is recalled.
    pub fn line(&self) -> (s: String)
        ensures
            s@ == entry_line(self@),
    {
        let mut s = "[".to_owned();
        s.append(self.role.as_str());
        s.append("] ");
        s.append(decimal_text(self.timestamp).as_str());
        s.append(": ");
        s.append(clip(self.content.as_str(), RECALL_CHARS).as_str());
        s
    }
}

impl MemoryStore {
    /// The store of a new agent.
    pub fn new() -> (m: MemoryStore)
        ensures
            m@ == MemoryView::initial(),
    {
        let m = MemoryStore { conversations: Vec::new(), max_entries: DEFAULT_MAX_ENTRIES };
        assert(m@.conversations =~= Seq::<EntryView>::empty());
        m
    }

    /// Takes in an entry, with the time as whole seconds since the Unix epoch.
    pub fn add_entry(&mut self, session_id: &str, role: &str, content: &str, now: u64)
        ensures
            final(self)@ == old(self)@.with_entry(session_id@, role@, content@, now),
    {
        let mut id = "entry_".to_owned();
        id.append(decimal_text(self.conversations.len() as u64).as_str());
        let entry = ConversationEntry {
            id,
            role: role.to_owned(),
            content: content.to_owned(),
            timestamp: now,
            session_id: session_id.to_owned(),
        };
        self.conversations.push(entry);
        let ghost all = old(self)@.conversations.push(
            old(self)@.entry(session_id@, role@, content@, now),
        );
        assert(self@.conversations =~= all);
        if self.conversations.len() > self.max_entries {
            let surplus: usize = self.conversations.len() - self.max_entries;
            self.conversations = self.conversations.split_off(surplus);
            assert(self@.conversations =~= all.skip(surplus as int));
        }
    }

    /// Recalls entries, with the lower-case forms of the query and of the
    /// contents given.
    pub fn recall_lowered(
        &self,
        query_lower: &str,
        contents_lower: &Vec<String>,
        current_session: &str,
        limit: usize,
    ) -> (lines: Vec<String>)
        requires
            contents_lower@.len() == self@.conversations.len(),
        ensures
            texts(lines@) == recalled(
                self@.conversations,
                texts(contents_lower@),
                query_lower@,
                current_session@,
                limit as nat,
            ),
    {
        let ghost entries = self@.conversations;
        let ghost lower = texts(contents_lower@);
        let mut lines: Vec<String> = Vec::new();
        let mut i: usize = self.conversations.len();
        assert(entries.take(i as int) =~= entries);
        assert(lower.take(i as int) =~= lower);
        assert(texts(lines@) =~= Seq::<Seq<char>>::empty());
        assert(texts(lines@) + recalled(
            entries,
            lower,
            query_lower@,
            current_session@,
            limit as nat,
        ) =~= recalled(entries, lower, query_lower@, current_session@, limit as nat));
        while i > 0 && lines.len() < limit
            invariant
                entries == self@.conversations,
                lower == texts(contents_lower@),
                contents_lower@.len() == self.conversations@.len(),
                i <= self.conversations@.len(),
                lines@.len() <= limit,
                texts(lines@) + recalled(
                    entries.take(i as int),
                    lower.take(i as int),
                    query_lower@,
                    current_session@,
                    (limit - lines@.len()) as nat,
                ) == recalled(entries, lower, query_lower@, current_session@, limit as nat),
            decreases i,
        {
            i -= 1;
            proof {
                assert(entries.take(i + 1).drop_last() =~= entries.take(i as int));
                assert(lower.take(i + 1).drop_last() =~= lower.take(i as int));
                assert(entries.take(i + 1).last() == self.conversations@[i as int]@);
                assert(lower.take(i + 1).last() == contents_lower@[i as int]@);
            }
            let ghost before = texts(lines@);
            let ghost room = (limit - lines@.len()) as nat;
            if !same_text(self.conversations[i].session_id.as_str(), current_session) && (
            text_contains(contents_lower[i].as_str(), query_lower) || text_contains(
                query_lower,
                contents_lower[i].as_str(),
            )) {
                lines.push(self.conversations[i].line());
                proof {
                    let line = entry_line(self.conversations@[i as int]@);
                    let rest = recalled(
                        entries.take(i as int),
                        lower.take(i as int),
                        query_lower@,
                        current_session@,
                        (room - 1) as nat,
                    );
                    assert(texts(lines@) =~= before.push(line));
                    assert(before.push(line) + rest =~= before + (seq![line] + rest));
                }
            }
        }
        proof {
            let rest = recalled(
                entries.take(i as int),
                lower.take(i as int),
                query_lower@,
                current_session@,
                (limit - lines@.len()) as nat,
            );
            assert(rest =~= Seq::<Seq<char>>::empty());
            assert(texts(lines@) + rest =~= texts(lines@));
        }
        lines
    }

    /// Recall recent entries from other sessions relevant to a query.
    pub fn recall(&self, query: &str, current_session: &str, limit: usize) -> (lines: Vec<String>)
        ensures
            texts(lines@) == self@.recall(query@, current_session@, limit as nat),
    {
        let query_lower = to_lowercase(query);
        let mut contents_lower: Vec<String> = Vec::new();
        let mut i: usize = 0;
        while i < self.conversations.len()
            invariant
                i <= self.conversations@.len(),
                contents_lower@.len() == i,
                forall|j: int|
                    0 <= j < i ==> (#[trigger] contents_lower@[j])@ == lowercase(
                        self.conversations@[j]@.content,
                    ),
            decreases self.conversations@.len() - i,
        {
            contents_lower.push(to_lowercase(self.conversations[i].content.as_str()));
            i += 1;
        }
        proof {
            lemma_recalled_is_filter(
                self@.conversations,
                texts(contents_lower@),
                query@,
                current_session@,
                limit as nat,
            );
        }
        self.recall_lowered(query_lower.as_str(), &contents_lower, current_session, limit)
    }

    /// Forgets everything.
    pub fn clear(&mut self)
        ensures
            final(self)@ == old(self)@.emptied(),
    {
        self.conversations.clear();
        assert(self@.conversations =~= Seq::<EntryView>::empty());
    }
}

proof fn lemma_recalled_is_filter(
    entries: Seq<EntryView>,
    contents_lower: Seq<Seq<char>>,
    query: Seq<char>,
    current_session: Seq<char>,
    limit: nat,
)
    requires
        contents_lower.len() == entries.len(),
        forall|i: int|
            0 <= i < entries.len() ==> #[trigger] contents_lower[i] == lowercase(
                entries[i].content,
            ),
    ensures
        recalled(entries, contents_lower, lowercase(query), current_session, limit)
            == newest_lines(
            entries.filter(|e: EntryView| answers_query(e, query, current_session)),
            limit,
        ),
    decreases entries.len(),
{
    reveal(Seq::filter);
    let pred = |e: EntryView| answers_query(e, query, current_session);
    let got = recalled(entries, contents_lower, lowercase(query), current_session, limit);
    let kept = entries.filter(pred);
    if entries.len() == 0 || limit == 0 {
        assert(got =~= newest_lines(kept, limit));
    } else {
        let rest = entries.drop_last();
        let last = entries.last();
        assert(contents_lower.last() == lowercase(last.content));
        assert forall|i: int| 0 <= i < rest.len() implies #[trigger] contents_lower.drop_last()[i]
            == lowercase(rest[i].content) by {
            assert(contents_lower.drop_last()[i] == contents_lower[i]);
        }
        if pred(last) {
            lemma_recalled_is_filter(
                rest,
                contents_lower.drop_last(),
                query,
                current_session,
                (limit - 1) as nat,
            );
            assert(kept == rest.filter(pred).push(last));
            assert(got =~= newest_lines(kept, limit));
        } else {
            lemma_recalled_is_filter(
                rest,
                contents_lower.drop_last(),
                query,
                current_session,
                limit,
            );
            assert(kept == rest.filter(pred));
        }
    }
}

/// The store never holds more entries than its limit, whatever is taken in.
pub proof fn law_memory_is_bounded(
    memory: MemoryView,
    session_id: Seq<char>,
    role: Seq<char>,
    content: Seq<char>,
    now: u64,
)
    ensures
        memory.with_entry(session_id, role, content, now).conversations.len()
            <= memory.max_entries,
        memory.with_entry(session_id, role, content, now).max_entries == memory.max_entries,
{
}

/// A new entry comes last, and what stays before it is the newest part of what
/// was there, in order.
pub proof fn law_newest_entries_stay(
    memory: MemoryView,
    session_id: Seq<char>,
    role: Seq<char>,
    content: Seq<char>,
    now: u64,
)
    requires
        memory.max_entries > 0,
    ensures
        memory.with_entry(session_id, role, content, now).conversations.len() > 0,
        memory.with_entry(session_id, role, content, now).conversations.last() == memory.entry(
            session_id,
            role,
            content,
            now,
        ),
        ({
            let kept = memory.with_entry(session_id, role, content, now).conversations.drop_last();
            &&& kept.len() <= memory.conversations.len()
            &&& kept == memory.conversations.skip(memory.conversations.len() - kept.len())
        }),
{
    let kept = memory.with_entry(session_id, role, content, now).conversations.drop_last();
    assert(kept =~= memory.conversations.skip(memory.conversations.len() - kept.len()));
}

/// What was just remembered is recalled first in any other session, by a query
/// with the same words.
pub proof fn law_remembered_is_recalled(
    memory: MemoryView,
    session_id: Seq<char>,
    role: Seq<char>,
    content: Seq<char>,
    now: u64,
    current_session: Seq<char>,
    limit: nat,
)
    requires
        memory.max_entries > 0,
        session_id != current_session,
        limit > 0,
    ensures
        memory.with_entry(session_id, role, content, now).recall(
            content,
            current_session,
            limit,
        ).len() > 0,
        memory.with_entry(session_id, role, content, now).recall(
            content,
            current_session,
            limit,
        )[0] == entry_line(memory.entry(session_id, role, content, now)),
{
    reveal(Seq::filter);
    law_newest_entries_stay(memory, session_id, role, content, now);
    let entries = memory.with_entry(session_id, role, content, now).conversations;
    let lower = lowercase(content);
    assert(lower.subrange(0, lower.len() as int) =~= lower);
    assert(occurs_at(lower, lower, 0));
    let pred = |e: EntryView| answers_query(e, content, current_session);
    assert(pred(entries.last()));
    assert(entries.filter(pred) == entries.drop_last().filter(pred).push(entries.last()));
}

/// Recall gives at most as many lines as asked for, and each is the line of a
/// stored entry of another session that is relevant to the query.
pub proof fn law_recall_is_relevant(
    memory: MemoryView,
    query: Seq<char>,
    current_session: Seq<char>,
    limit: nat,
    i: int,
)
    requires
        0 <= i < memory.recall(query, current_session, limit).len(),
    ensures
        memory.recall(query, current_session, limit).len() <= limit,
        exists|k: int|
            {
                &&& 0 <= k < memory.conversations.len()
                &&& (#[trigger] memory.conversations[k]).session_id != current_session
                &&& answers_query(memory.conversations[k], query, current_session)
                &&& memory.recall(query, current_session, limit)[i] == entry_line(
                    memory.conversations[k],
                )
            },
{
    let pred = |e: EntryView| answers_query(e, query, current_session);
    let kept = memory.conversations.filter(pred);
    let e = kept[kept.len() - 1 - i];
    assert(kept.contains(e));
    memory.conversations.lemma_filter_contains_rev(pred, e);
    memory.conversations.lemma_filter_pred(pred, kept.len() - 1 - i);
    let k = choose|k: int|
        0 <= k < memory.conversations.len() && #[trigger] memory.conversations[k] == e;
    assert(memory.conversations[k] == e);
}

/// An empty store recalls nothing.
pub proof fn law_cleared_recalls_nothing(
    memory: MemoryView,
    query: Seq<char>,
    current_session: Seq<char>,
    limit: nat,
)
    ensures
        memory.emptied().recall(query, current_session, limit) == Seq::<Seq<char>>::empty(),
{
    reveal(Seq::filter);
    assert(memory.emptied().recall(query, current_session, limit) =~= Seq::<Seq<char>>::empty());
}

proof fn lemma_digit_distinct(a: nat, b: nat)
    requires
        a < 10,
        b < 10,
        digit(a) == digit(b),
    ensures
        a == b,
{
}

/// Different numbers have different numerals.
pub proof fn law_decimal_is_unique(a: nat, b: nat)
    requires
        decimal(a) == decimal(b),
    ensures
        a == b,
    decreases a,
{
    assert(decimal(a).last() == digit(a % 10));
    assert(decimal(b).last() == digit(b % 10));
    lemma_digit_distinct(a % 10, b % 10);
    lemma_decimal_len(a);
    lemma_decimal_len(b);
    if a >= 10 && b >= 10 {
        assert(decimal(a).drop_last() =~= decimal(a / 10));
        assert(decimal(b).drop_last() =~= decimal(b / 10));
        law_decimal_is_unique(a / 10, b / 10);
    }
}

proof fn lemma_decimal_len(n: nat)
    ensures
        decimal(n).len() >= 1,
        decimal(n).len() == 1 <==> n < 10,
    decreases n,
{
    if n >= 10 {
        lemma_decimal_len(n / 10);
    }
}

/// Until the store is full for the first time every entry keeps the number of
/// its place, so no two entries have the same identifier.
pub proof fn law_identifiers_are_distinct(
    memory: MemoryView,
    session_id: Seq<char>,
    role: Seq<char>,
    content: Seq<char>,
    now: u64,
)
    requires
        memory.numbered(),
    ensures
        memory.conversations.len() < memory.max_entries ==> memory.with_entry(
            session_id,
            role,
            content,
            now,
        ).numbered(),
        forall|i: int, j: int|
            0 <= i < memory.conversations.len() && 0 <= j < memory.conversations.len() && i != j
                ==> (#[trigger] memory.conversations[i]).id != (
            #[trigger] memory.conversations[j]).id,
{
    assert forall|i: int, j: int|
        0 <= i < memory.conversations.len() && 0 <= j < memory.conversations.len() && i
            != j implies (#[trigger] memory.conversations[i]).id != (
    #[trigger] memory.conversations[j]).id by {
        let a = memory.conversations[i].id;
        let b = memory.conversations[j].id;
        if a == b {
            let n = "entry_"@.len() as int;
            assert(a.skip(n) =~= decimal(i as nat));
            assert(b.skip(n) =~= decimal(j as nat));
            law_decimal_is_unique(i as nat, j as nat);
        }
    }
}

/// Which entries answer a query: those of other sessions whose content has the
/// query in it, anywhere, or stands, anywhere, in the query, both in lower case.
pub proof fn law_what_answers_a_query(e: EntryView, query: Seq<char>, current_session: Seq<char>)
    ensures
        answers_query(e, query, current_session) <==> e.session_id != current_session && ((exists|
            before: Seq<char>,
            after: Seq<char>,
        |
            lowercase(e.content) == #[trigger] (before + lowercase(query) + after)) || (exists|
            before: Seq<char>,
            after: Seq<char>,
        |
            lowercase(query) == #[trigger] (before + lowercase(e.content) + after))),
{
    law_containing_is_having_around(lowercase(e.content), lowercase(query));
    law_containing_is_having_around(lowercase(query), lowercase(e.content));
}

/// The same for lower-case forms that are given.
pub proof fn law_what_answers_in_lower_case(
    e: EntryView,
    content_lower: Seq<char>,
    query_lower: Seq<char>,
    current_session: Seq<char>,
)
    ensures
        answers(e, content_lower, query_lower, current_session) <==> e.session_id
            != current_session && ((exists|before: Seq<char>, after: Seq<char>|
            content_lower == #[trigger] (before + query_lower + after)) || (exists|
            before: Seq<char>,
            after: Seq<char>,
        |
            query_lower == #[trigger] (before + content_lower + after))),
{
    law_containing_is_having_around(content_lower, query_lower);
    law_containing_is_having_around(query_lower, content_lower);
}

/// How recall goes on: with a newer entry that answers, its line comes first and one
/// line less is wanted of the rest; one that does not answer changes nothing. Where
/// nothing is wanted, or nothing is stored, nothing is recalled.
pub proof fn law_recall_goes_back_in_time(
    memory: MemoryView,
    e: EntryView,
    query: Seq<char>,
    current_session: Seq<char>,
    limit: nat,
)
    ensures
        ({
            let more = MemoryView { conversations: memory.conversations.push(e), ..memory };
            more.recall(query, current_session, limit + 1) == (if answers_query(
                e,
                query,
                current_session,
            ) {
                seq![entry_line(e)] + memory.recall(query, current_session, limit)
            } else {
                memory.recall(query, current_session, limit + 1)
            })
        }),
        memory.recall(query, current_session, 0).len() == 0,
        memory.conversations.len() == 0 ==> memory.recall(query, current_session, limit).len()
            == 0,
{
    reveal(Seq::filter);
    let more = MemoryView { conversations: memory.conversations.push(e), ..memory };
    let pred = |x: EntryView| answers_query(x, query, current_session);
    assert(more.conversations.drop_last() =~= memory.conversations);
    assert(more.conversations.last() == e);
    let kept = memory.conversations.filter(pred);
    let got = more.recall(query, current_session, limit + 1);
    if pred(e) {
        assert(more.conversations.filter(pred) == kept.push(e));
        assert(got =~= seq![entry_line(e)] + memory.recall(query, current_session, limit));
    } else {
        assert(more.conversations.filter(pred) == kept);
    }
}

/// The same for lower-case forms that are given.
pub proof fn law_lowered_recall_goes_back_in_time(
    entries: Seq<EntryView>,
    contents_lower: Seq<Seq<char>>,
    e: EntryView,
    content_lower: Seq<char>,
    query_lower: Seq<char>,
    current_session: Seq<char>,
    limit: nat,
)
    ensures
        recalled(
            entries.push(e),
            contents_lower.push(content_lower),
            query_lower,
            current_session,
            limit + 1,
        ) == (if answers(e, content_lower, query_lower, current_session) {
            seq![entry_line(e)] + recalled(
                entries,
                contents_lower,
                query_lower,
                current_session,
                limit,
            )
        } else {
            recalled(entries, contents_lower, query_lower, current_session, limit + 1)
        }),
        recalled(entries, contents_lower, query_lower, current_session, 0).len() == 0,
        entries.len() == 0 ==> recalled(
            entries,
            contents_lower,
            query_lower,
            current_session,
            limit,
        ).len() == 0,
{
    assert(entries.push(e).drop_last() =~= entries);
    assert(contents_lower.push(content_lower).drop_last() =~= contents_lower);
}

/// Recall misses nothing: an entry of another session that has the query in it,
/// anywhere and in whatever case, or stands in the query, is recalled if as many
/// lines are wanted as there are entries.
pub proof fn law_recall_is_complete(
    memory: MemoryView,
    query: Seq<char>,
    current_session: Seq<char>,
    limit: nat,
    k: int,
    before: Seq<char>,
    after: Seq<char>,
)
    requires
        0 <= k < memory.conversations.len(),
        memory.conversations[k].session_id != current_session,
        lowercase(memory.conversations[k].content) == before + lowercase(query) + after
            || lowercase(query) == before + lowercase(memory.conversations[k].content) + after,
        limit >= memory.conversations.len(),
    ensures
        exists|i: int|
            0 <= i < memory.recall(query, current_session, limit).len() && #[trigger] memory.recall(
                query,
                current_session,
                limit,
            )[i] == entry_line(memory.conversations[k]),
{
    let e = memory.conversations[k];
    law_what_answers_a_query(e, query, current_session);
    let pred = |x: EntryView| answers_query(x, query, current_session);
    assert(pred(e));
    let kept = memory.conversations.filter(pred);
    lemma_filter_keeps(memory.conversations, query, current_session, k);
    let j = choose|j: int| 0 <= j < kept.len() && #[trigger] kept[j] == e;
    assert(kept[j] == e);
    let i = kept.len() - 1 - j;
    assert(memory.recall(query, current_session, limit)[i] == entry_line(e));
}

proof fn lemma_filter_keeps(
    entries: Seq<EntryView>,
    query: Seq<char>,
    current_session: Seq<char>,
    k: int,
)
    requires
        0 <= k < entries.len(),
        answers_query(entries[k], query, current_session),
    ensures
        ({
            let kept = entries.filter(|x: EntryView| answers_query(x, query, current_session));
            &&& kept.len() <= entries.len()
            &&& exists|j: int| 0 <= j < kept.len() && #[trigger] kept[j] == entries[k]
        }),
{
    let pred = |x: EntryView| answers_query(x, query, current_session);
    entries.lemma_filter_len(pred);
    entries.lemma_filter_contains(pred, k);
    let kept = entries.filter(pred);
    assert(kept.contains(entries[k]));
    let j = choose|j: int| 0 <= j < kept.len() && kept[j] == entries[k];
    assert(kept[j] == entries[k]);
}

/// A line has the role in brackets, the seconds, and the content, of which the first
/// 200 characters if it has more.
pub proof fn law_line_of_an_entry(e: EntryView, head: Seq<char>)
    requires
        head.len() == (if e.content.len() < 200 {
            e.content.len()
        } else {
            200
        }),
        forall|i: int| 0 <= i < head.len() ==> #[trigger] head[i] == e.content[i],
    ensures
        entry_line(e) == "["@ + e.role + "] "@ + decimal(e.timestamp as nat) + ": "@ + head,
{
    assert(clipped(e.content, 200) =~= head);
}

/// What is taken in: the entry with all that it was given, numbered by the entries
/// before it, as the last one; the oldest go only as far as the limit demands.
pub proof fn law_what_is_taken_in(
    memory: MemoryView,
    session_id: Seq<char>,
    role: Seq<char>,
    content: Seq<char>,
    now: u64,
    i: int,
)
    ensures
        ({
            let after = memory.with_entry(session_id, role, content, now);
            let count = after.conversations.len();
            let dropped = memory.conversations.len() + 1 - count;
            &&& count == (if memory.conversations.len() < memory.max_entries {
                memory.conversations.len() + 1
            } else {
                memory.max_entries as nat
            })
            &&& after.max_entries == memory.max_entries
            &&& 0 <= i < count - 1 ==> after.conversations[i] == memory.conversations[i + dropped]
            &&& count > 0 ==> {
                let last = after.conversations[count - 1];
                &&& last.session_id == session_id
                &&& last.role == role
                &&& last.content == content
                &&& last.timestamp == now
                &&& last.id == "entry_"@ + decimal(memory.conversations.len())
            }
        }),
{
}

/// A new store is empty and keeps 1000 entries; a cleared one is empty and keeps as
/// many as before.
pub proof fn law_empty_stores(memory: MemoryView)
    ensures
        MemoryView::initial().conversations.len() == 0,
        MemoryView::initial().max_entries == 1000,
        memory.emptied().conversations.len() == 0,
        memory.emptied().max_entries == memory.max_entries,
{
}

/// A store shows its entries in order, each with all that it holds.
pub proof fn law_store_is_seen(store: MemoryStore, i: int)
    ensures
        store@.max_entries == store.max_entries,
        store@.conversations.len() == store.conversations@.len(),
        0 <= i < store.conversations@.len() ==> {
            let e = store.conversations@[i];
            &&& store@.conversations[i].id == e.id@
            &&& store@.conversations[i].role == e.role@
            &&& store@.conversations[i].content == e.content@
            &&& store@.conversations[i].timestamp == e.timestamp
            &&& store@.conversations[i].session_id == e.session_id@
        },
{
}

} // verus!
