//! The approval gate for tools with effects outside the agent.

use crate::text::{same_text, texts};
use vstd::prelude::*;

verus! {

/// Approval gate for external-effect tools.
#[derive(Debug)]
pub struct ApprovalGate {
    /// Tools that always bypass approval.
    pub always_allowlist: Vec<String>,
    /// Whether approval is required for external effects.
    pub enabled: bool,
}

/// The answer to a request for approval.
#[derive(Debug, PartialEq, Eq)]
pub enum ApprovalDecision {
    /// Go on.
    Approve,
    /// Do not go on, for this reason.
    Deny(String),
}

/// An approval gate with its list as text.
pub struct GateView {
    pub allowlist: Seq<Seq<char>>,
    pub enabled: bool,
}

impl View for ApprovalGate {
    type V = GateView;

    open spec fn view(&self) -> GateView {
        GateView { allowlist: texts(self.always_allowlist@), enabled: self.enabled }
    }
}

impl GateView {
    /// What a new agent has: nothing needs approval, and three harmless tools
    /// are on the list.
    pub open spec fn initial() -> GateView {
        GateView {
            allowlist: seq!["screenshot"@, "current_time"@, "system_info"@],
            enabled: false,
        }
    }

    /// One more tool is on the list; a tool is listed once.
    pub open spec fn allowing(self, tool: Seq<char>) -> GateView {
        if self.allowlist.contains(tool) {
            self
        } else {
            GateView { allowlist: self.allowlist.push(tool), ..self }
        }
    }

    /// The tool may not run without approval.
    pub open spec fn needs_approval(self, tool: Seq<char>) -> bool {
        self.enabled && !self.allowlist.contains(tool)
    }
}

impl ApprovalGate {
    /// What a new agent has.
    pub fn new() -> (g: ApprovalGate)
        ensures
            g@ == GateView::initial(),
    {
        let mut list: Vec<String> = Vec::new();
        list.push("screenshot".to_owned());
        list.push("current_time".to_owned());
        list.push("system_info".to_owned());
        let g = ApprovalGate { always_allowlist: list, enabled: false };
        assert(g@.allowlist =~= GateView::initial().allowlist);
        g
    }

    /// Requires approval from now on.
    pub fn enable(&mut self)
        ensures
            final(self)@ == (GateView { enabled: true, ..old(self)@ }),
    {
        self.enabled = true;
    }

    /// Requires no approval from now on.
    pub fn disable(&mut self)
        ensures
            final(self)@ == (GateView { enabled: false, ..old(self)@ }),
    {
        self.enabled = false;
    }

    fn lists(&self, tool_name: &str) -> (r: bool)
        ensures
            r == self@.allowlist.contains(tool_name@),
    {
        let mut i: usize = 0;
        while i < self.always_allowlist.len()
            invariant
                i <= self.always_allowlist@.len(),
                forall|j: int| 0 <= j < i ==> #[trigger] self@.allowlist[j] != tool_name@,
            decreases self.always_allowlist@.len() - i,
        {
            if same_text(self.always_allowlist[i].as_str(), tool_name) {
                assert(self@.allowlist[i as int] == tool_name@);
                return true;
            }
            i += 1;
        }
        false
    }

    /// Puts a tool on the list.
    pub fn add_to_allowlist(&mut self, tool_name: &str)
        ensures
            final(self)@ == old(self)@.allowing(tool_name@),
    {
        if !self.lists(tool_name) {
            self.always_allowlist.push(tool_name.to_owned());
            assert(self@.allowlist =~= old(self)@.allowlist.push(tool_name@));
        }
    }

    /// Whether a tool may not run without approval.
    pub fn needs_approval(&self, tool_name: &str) -> (r: bool)
        ensures
            r == self@.needs_approval(tool_name@),
    {
        if !self.enabled {
            return false;
        }
        !self.lists(tool_name)
    }

    /// Decides on a tool call. A tool that needs no approval goes on; there is
    /// nobody here to ask about the others, so they go on too.
    pub fn intercept(&mut self, tool_name: &str, _args: &serde_json::Value) -> (d: ApprovalDecision)
        ensures
            d is Approve,
            *final(self) == *old(self),
    {
        if !self.needs_approval(tool_name) {
            return ApprovalDecision::Approve;
        }
        ApprovalDecision::Approve
    }
}

/// The tools that are listed from the start are three different ones.
pub(crate) proof fn lemma_initial_list()
    ensures
        GateView::initial().allowlist.no_duplicates(),
{
    reveal_strlit("screenshot");
    reveal_strlit("current_time");
    reveal_strlit("system_info");
    assert("screenshot"@.len() == 10);
    assert("current_time"@.len() == 12);
    assert("system_info"@.len() == 11);
}

/// A listed tool never needs approval, whatever is listed besides and whether
/// or not approval is required.
pub proof fn law_listed_tool_passes(gate: GateView, tool: Seq<char>, other: Seq<char>)
    ensures
        !gate.allowing(tool).needs_approval(tool),
        !gate.allowing(tool).allowing(other).needs_approval(tool),
{
    let listed = gate.allowing(tool);
    assert(listed.allowlist.contains(tool)) by {
        if !gate.allowlist.contains(tool) {
            assert(listed.allowlist[gate.allowlist.len() as int] == tool);
        }
    }
    let more = listed.allowing(other);
    assert(more.allowlist.contains(tool)) by {
        let i = choose|i: int| 0 <= i < listed.allowlist.len() && listed.allowlist[i] == tool;
        assert(more.allowlist[i] == tool);
    }
}

/// Listing a tool changes nothing for other tools.
pub proof fn law_listing_is_local(gate: GateView, tool: Seq<char>, other: Seq<char>)
    requires
        tool != other,
    ensures
        gate.allowing(tool).needs_approval(other) == gate.needs_approval(other),
{
    let listed = gate.allowing(tool);
    if gate.allowlist.contains(other) {
        let i = choose|i: int| 0 <= i < gate.allowlist.len() && gate.allowlist[i] == other;
        assert(listed.allowlist[i] == other);
    }
    if listed.allowlist.contains(other) {
        let i = choose|i: int| 0 <= i < listed.allowlist.len() && listed.allowlist[i] == other;
        assert(gate.allowlist[i] == other);
    }
}

/// Listing a tool twice is listing it once, and a list without duplicates stays
/// so.
pub proof fn law_listed_once(gate: GateView, tool: Seq<char>)
    ensures
        gate.allowing(tool).allowing(tool) == gate.allowing(tool),
        gate.allowlist.no_duplicates() ==> gate.allowing(tool).allowlist.no_duplicates(),
{
    law_listed_tool_passes(gate, tool, tool);
    let listed = gate.allowing(tool);
    if !gate.allowlist.contains(tool) {
        assert(listed.allowlist[gate.allowlist.len() as int] == tool);
    }
}

/// While approval is not required no tool needs it.
pub proof fn law_disabled_gate_passes(gate: GateView, tool: Seq<char>)
    ensures
        !(GateView { enabled: false, ..gate }).needs_approval(tool),
{
}

/// Approval is needed exactly if it is required and the tool is not on the list.
pub proof fn law_when_approval_is_needed(gate: GateView, tool: Seq<char>)
    ensures
        gate.needs_approval(tool) <==> gate.enabled && forall|i: int|
            0 <= i < gate.allowlist.len() ==> #[trigger] gate.allowlist[i] != tool,
{
}

/// Listing a tool puts exactly that tool on the list, keeps the others in their
/// places and does not touch whether approval is required.
pub proof fn law_listing_adds_the_tool(gate: GateView, tool: Seq<char>, other: Seq<char>, i: int)
    ensures
        gate.allowing(tool).allowlist.contains(tool),
        gate.allowing(tool).allowlist.contains(other) <==> gate.allowlist.contains(other) || other
            == tool,
        gate.allowing(tool).enabled == gate.enabled,
        0 <= i < gate.allowlist.len() ==> gate.allowing(tool).allowlist[i] == gate.allowlist[i],
{
    law_listed_tool_passes(GateView { enabled: true, ..gate }, tool, other);
    let listed = gate.allowing(tool);
    if !gate.allowlist.contains(tool) {
        assert(listed.allowlist[gate.allowlist.len() as int] == tool);
    }
    if gate.allowlist.contains(other) {
        let k = choose|k: int| 0 <= k < gate.allowlist.len() && gate.allowlist[k] == other;
        assert(listed.allowlist[k] == other);
    }
    if listed.allowlist.contains(other) && other != tool {
        let k = choose|k: int| 0 <= k < listed.allowlist.len() && listed.allowlist[k] == other;
        assert(gate.allowlist[k] == other);
    }
}

/// The list of a new agent has three tools, and approval is not required; a gate
/// shows its list and its switch.
pub proof fn law_gate_is_seen(gate: ApprovalGate, i: int)
    ensures
        gate@.enabled == gate.enabled,
        gate@.allowlist.len() == gate.always_allowlist@.len(),
        0 <= i < gate.always_allowlist@.len() ==> gate@.allowlist[i]
            == gate.always_allowlist@[i]@,
        GateView::initial().allowlist == seq!["screenshot"@, "current_time"@, "system_info"@],
        !GateView::initial().enabled,
{
}

} // verus!
