use benito_core::approval::{ApprovalDecision, ApprovalGate};
use benito_core::provider::{create_provider, AuthStyle, OpenAiCompatibleProvider, ProviderError};
use benito_core::scope::ToolScope;

#[test]
fn a_new_gate_is_open() {
    let g = ApprovalGate::new();
    assert!(!g.enabled);
    assert_eq!(g.always_allowlist, vec!["screenshot", "current_time", "system_info"]);
    assert!(!g.needs_approval("delete_file"));
}

#[test]
fn an_enabled_gate_holds_unlisted_tools() {
    let mut g = ApprovalGate::new();
    g.enable();
    assert!(g.needs_approval("delete_file"));
    assert!(!g.needs_approval("screenshot"));
    g.add_to_allowlist("delete_file");
    assert!(!g.needs_approval("delete_file"));
    assert!(g.needs_approval("delete"));
    g.disable();
    assert!(!g.needs_approval("delete"));
}

#[test]
fn a_tool_is_listed_once() {
    let mut g = ApprovalGate::new();
    g.add_to_allowlist("shell");
    g.add_to_allowlist("shell");
    g.add_to_allowlist("screenshot");
    assert_eq!(g.always_allowlist, vec!["screenshot", "current_time", "system_info", "shell"]);
}

#[test]
fn every_call_is_approved() {
    let mut g = ApprovalGate::new();
    assert_eq!(g.intercept("shell", &serde_json::Value::Null), ApprovalDecision::Approve);
    g.enable();
    assert_eq!(g.intercept("shell", &serde_json::Value::Null), ApprovalDecision::Approve);
    assert_eq!(g.intercept("screenshot", &serde_json::Value::Null), ApprovalDecision::Approve);
}

#[test]
fn scopes_are_read_by_name() {
    assert_eq!(ToolScope::from_str("read"), Some(ToolScope::Read));
    assert_eq!(ToolScope::from_str("write"), Some(ToolScope::Write));
    assert_eq!(ToolScope::from_str("admin"), Some(ToolScope::Admin));
    assert_eq!(ToolScope::from_str("Admin"), None);
    assert_eq!(ToolScope::from_str(""), None);
    assert_eq!(ToolScope::Read.code(), 0);
    assert_eq!(ToolScope::Write.code(), 1);
    assert_eq!(ToolScope::Admin.code(), 2);
}

#[test]
fn scopes_are_ordered() {
    let all = [ToolScope::Read, ToolScope::Write, ToolScope::Admin];
    for (i, scope) in all.iter().enumerate() {
        for (j, limit) in all.iter().enumerate() {
            assert_eq!(scope.allowed_under(*limit), i <= j);
        }
    }
}

fn provider(name: &str, base_url: &str, credential: Option<&str>) -> OpenAiCompatibleProvider {
    OpenAiCompatibleProvider {
        name: name.to_string(),
        base_url: base_url.to_string(),
        credential: credential.map(|s| s.to_string()),
        auth_style: AuthStyle::Bearer,
    }
}

#[test]
fn providers_are_chosen_by_name() {
    let xai = provider("xAI", "https://api.x.ai/v1", Some("k"));
    assert_eq!(create_provider("xai", "k"), Ok(xai.clone()));
    assert_eq!(create_provider("grok", "k"), Ok(xai));
    assert_eq!(
        create_provider("openai", "k"),
        Ok(provider("OpenAI", "https://api.openai.com/v1", Some("k")))
    );
    assert_eq!(
        create_provider("ollama", "k"),
        Ok(provider("Ollama", "http://localhost:11434/v1", None))
    );
}

#[test]
fn other_providers_are_refused() {
    assert_eq!(create_provider("anthropic", "k"), Err(ProviderError::NotImplemented));
    assert_eq!(create_provider("XAI", "k"), Err(ProviderError::Unknown("XAI".to_string())));
    assert_eq!(
        ProviderError::NotImplemented.message(),
        "Anthropic provider not yet implemented in FFI"
    );
    assert_eq!(
        ProviderError::Unknown("acme".to_string()).message(),
        "Unknown provider: acme"
    );
}
