//! Permission levels of tools.

use crate::text::same_text;
use vstd::prelude::*;

verus! {

/// Tool scope/permission levels for filtering.
#[derive(Debug, Clone, Copy, PartialEq, Eq, Structural)]
pub enum ToolScope {
    Read,
    Write,
    Admin,
}

/// The scope with a given name.
pub open spec fn scope_named(name: Seq<char>) -> Option<ToolScope> {
    if name == "read"@ {
        Some(ToolScope::Read)
    } else if name == "write"@ {
        Some(ToolScope::Write)
    } else if name == "admin"@ {
        Some(ToolScope::Admin)
    } else {
        None
    }
}

/// The scopes in order: read, write, admin.
pub open spec fn rank(scope: ToolScope) -> i32 {
    match scope {
        ToolScope::Read => 0,
        ToolScope::Write => 1,
        ToolScope::Admin => 2,
    }
}

/// A tool of this scope, if it has one, may run where at most `limit` is
/// permitted. A tool without a scope may always run.
pub open spec fn permitted(scope: Option<ToolScope>, limit: ToolScope) -> bool {
    match scope {
        Some(s) => rank(s) <= rank(limit),
        None => true,
    }
}

impl ToolScope {
    /// The scope with a given name.
    pub fn from_str(s: &str) -> (r: Option<ToolScope>)
        ensures
            r == scope_named(s@),
    {
        if same_text(s, "read") {
            Some(ToolScope::Read)
        } else if same_text(s, "write") {
            Some(ToolScope::Write)
        } else if same_text(s, "admin") {
            Some(ToolScope::Admin)
        } else {
            None
        }
    }

    /// The place of the scope in the order: 0 for read, 1 for write, 2 for
    /// admin.
    pub fn code(&self) -> (r: i32)
        ensures
            r == rank(*self),
    {
        match self {
            ToolScope::Read => 0,
            ToolScope::Write => 1,
            ToolScope::Admin => 2,
        }
    }

    /// Whether a tool of this scope may run where at most `limit` is permitted.
    pub fn allowed_under(&self, limit: ToolScope) -> (r: bool)
        ensures
            r == permitted(Some(*self), limit),
    {
        match (*self, limit) {
            (ToolScope::Read, _) => true,
            (ToolScope::Write, ToolScope::Write) => true,
            (ToolScope::Write, ToolScope::Admin) => true,
            (ToolScope::Admin, ToolScope::Admin) => true,
            _ => false,
        }
    }
}

/// Every scope has a name, and only one.
pub proof fn law_scope_has_one_name(scope: ToolScope, name: Seq<char>, other: Seq<char>)
    ensures
        exists|own: Seq<char>| scope_named(own) == Some(scope),
        scope_named(name) == Some(scope) && scope_named(other) == Some(scope) ==> name == other,
{
    reveal_strlit("read");
    reveal_strlit("write");
    reveal_strlit("admin");
    assert("read"@.len() != "write"@.len());
    assert("read"@.len() != "admin"@.len());
    assert("write"@[0] != "admin"@[0]);
    assert(scope_named("read"@) == Some(ToolScope::Read));
    assert(scope_named("write"@) == Some(ToolScope::Write));
    assert(scope_named("admin"@) == Some(ToolScope::Admin));
}

/// What is permitted under a limit is permitted under every wider one, and
/// admin permits everything.
pub proof fn law_wider_limit_permits_more(
    scope: Option<ToolScope>,
    narrow: ToolScope,
    wide: ToolScope,
)
    requires
        rank(narrow) <= rank(wide),
    ensures
        permitted(scope, narrow) ==> permitted(scope, wide),
        permitted(scope, ToolScope::Admin),
{
}

/// A tool is permitted under exactly the limits that reach its own scope.
pub proof fn law_own_scope_permits(scope: ToolScope, limit: ToolScope)
    ensures
        permitted(Some(scope), scope),
        permitted(Some(scope), limit) && permitted(Some(limit), scope) ==> scope == limit,
{
}

/// Which names stand for which scope, and that no other name stands for any.
pub proof fn law_scopes_go_by_their_names(name: Seq<char>)
    ensures
        scope_named(name) == Some(ToolScope::Read) <==> name == "read"@,
        scope_named(name) == Some(ToolScope::Write) <==> name == "write"@,
        scope_named(name) == Some(ToolScope::Admin) <==> name == "admin"@,
        scope_named(name) is None <==> name != "read"@ && name != "write"@ && name != "admin"@,
{
    reveal_strlit("read");
    reveal_strlit("write");
    reveal_strlit("admin");
    assert("read"@.len() != "write"@.len());
    assert("read"@.len() != "admin"@.len());
    assert("write"@[0] != "admin"@[0]);
}

/// Reading is permitted under every limit, everything is permitted under admin,
/// and writing under write; nothing else is permitted to a tool with a scope. A
/// tool without one may always run.
pub proof fn law_what_is_permitted(scope: ToolScope, limit: ToolScope)
    ensures
        permitted(Some(scope), limit) <==> scope is Read || limit is Admin || (scope is Write
            && limit is Write),
        permitted(None, limit),
        rank(ToolScope::Read) == 0 && rank(ToolScope::Write) == 1 && rank(ToolScope::Admin) == 2,
{
}

} // verus!
