//! The choice of a language model provider.

use crate::text::{optional_text, same_text, str_text};
use vstd::prelude::*;

verus! {

/// How a provider is authenticated to.
#[derive(Debug, Clone, Copy, PartialEq, Eq, Structural)]
pub enum AuthStyle {
    /// With a bearer token.
    Bearer,
}

/// A provider that speaks the OpenAI chat protocol.
#[derive(Debug, PartialEq, Eq)]
pub struct OpenAiCompatibleProvider {
    /// Display name.
    pub name: String,
    /// Where its endpoints lie.
    pub base_url: String,
    /// The API key, if one is sent.
    pub credential: Option<String>,
    /// How the key is sent.
    pub auth_style: AuthStyle,
}

/// Why there is no provider of a given name.
#[derive(Debug, PartialEq, Eq)]
pub enum ProviderError {
    /// The provider is known but cannot be used yet.
    NotImplemented,
    /// No provider has this name.
    Unknown(String),
}

/// A provider as text.
pub struct ProviderView {
    pub name: Seq<char>,
    pub base_url: Seq<char>,
    pub credential: Option<Seq<char>>,
    pub auth_style: AuthStyle,
}

/// An error as text.
pub enum ProviderErrorView {
    NotImplemented,
    Unknown(Seq<char>),
}

impl View for OpenAiCompatibleProvider {
    type V = ProviderView;

    open spec fn view(&self) -> ProviderView {
        ProviderView {
            name: self.name@,
            base_url: self.base_url@,
            credential: optional_text(self.credential),
            auth_style: self.auth_style,
        }
    }
}

impl View for ProviderError {
    type V = ProviderErrorView;

    open spec fn view(&self) -> ProviderErrorView {
        match self {
            ProviderError::NotImplemented => ProviderErrorView::NotImplemented,
            ProviderError::Unknown(name) => ProviderErrorView::Unknown(name@),
        }
    }
}

/// The provider of a given name, or why there is none.
pub open spec fn provider_named(name: Seq<char>, api_key: Seq<char>) -> Result<
    ProviderView,
    ProviderErrorView,
> {
    if name == "xai"@ || name == "grok"@ {
        Ok(
            ProviderView {
                name: "xAI"@,
                base_url: "https://api.x.ai/v1"@,
                credential: Some(api_key),
                auth_style: AuthStyle::Bearer,
            },
        )
    } else if name == "anthropic"@ {
        Err(ProviderErrorView::NotImplemented)
    } else if name == "openai"@ {
        Ok(
            ProviderView {
                name: "OpenAI"@,
                base_url: "https://api.openai.com/v1"@,
                credential: Some(api_key),
                auth_style: AuthStyle::Bearer,
            },
        )
    } else if name == "ollama"@ {
        Ok(
            ProviderView {
                name: "Ollama"@,
                base_url: "http://localhost:11434/v1"@,
                credential: None,
                auth_style: AuthStyle::Bearer,
            },
        )
    } else {
        Err(ProviderErrorView::Unknown(name))
    }
}

impl Clone for OpenAiCompatibleProvider {
    fn clone(&self) -> (p: OpenAiCompatibleProvider)
        ensures
            p@ == self@,
    {
        OpenAiCompatibleProvider {
            name: self.name.clone(),
            base_url: self.base_url.clone(),
            credential: match &self.credential {
                Some(key) => Some(key.clone()),
                None => None,
            },
            auth_style: self.auth_style,
        }
    }
}

impl ProviderError {
    /// The error in words.
    pub fn message(&self) -> (s: String)
        ensures
            s@ == (match self@ {
                ProviderErrorView::NotImplemented =>
                    "Anthropic provider not yet implemented in FFI"@,
                ProviderErrorView::Unknown(name) => "Unknown provider: "@ + name,
            }),
    {
        match self {
            ProviderError::NotImplemented =>
                "Anthropic provider not yet implemented in FFI".to_owned(),
            ProviderError::Unknown(name) => "Unknown provider: ".to_owned().concat(name.as_str()),
        }
    }
}

fn bearer(name: &str, base_url: &str, credential: Option<&str>) -> (p: OpenAiCompatibleProvider)
    ensures
        p@ == (ProviderView {
            name: name@,
            base_url: base_url@,
            credential: str_text(credential),
            auth_style: AuthStyle::Bearer,
        }),
{
    OpenAiCompatibleProvider {
        name: name.to_owned(),
        base_url: base_url.to_owned(),
        credential: match credential {
            Some(key) => Some(key.to_owned()),
            None => None,
        },
        auth_style: AuthStyle::Bearer,
    }
}

/// The provider of a given name, set up with an API key.
pub fn create_provider(name: &str, api_key: &str) -> (r: Result<
    OpenAiCompatibleProvider,
    ProviderError,
>)
    ensures
        match r {
            Ok(p) => provider_named(name@, api_key@) == Ok::<ProviderView, ProviderErrorView>(p@),
            Err(e) => provider_named(name@, api_key@) == Err::<ProviderView, ProviderErrorView>(
                e@,
            ),
        },
{
    if same_text(name, "xai") || same_text(name, "grok") {
        Ok(bearer("xAI", "https://api.x.ai/v1", Some(api_key)))
    } else if same_text(name, "anthropic") {
        Err(ProviderError::NotImplemented)
    } else if same_text(name, "openai") {
        Ok(bearer("OpenAI", "https://api.openai.com/v1", Some(api_key)))
    } else if same_text(name, "ollama") {
        Ok(bearer("Ollama", "http://localhost:11434/v1", None))
    } else {
        Err(ProviderError::Unknown(name.to_owned()))
    }
}

/// Whether there is a provider depends on the name alone, and so do its display
/// name and its address.
pub proof fn law_name_decides_provider(name: Seq<char>, key: Seq<char>, other_key: Seq<char>)
    ensures
        provider_named(name, key) is Ok == provider_named(name, other_key) is Ok,
        provider_named(name, key) is Ok ==> {
            &&& provider_named(name, key)->Ok_0.name == provider_named(name, other_key)->Ok_0.name
            &&& provider_named(name, key)->Ok_0.base_url == provider_named(
                name,
                other_key,
            )->Ok_0.base_url
        },
        provider_named(name, key) is Err ==> provider_named(name, key) == provider_named(
            name,
            other_key,
        ),
{
}

/// The key is sent as it was given or not at all.
pub proof fn law_key_is_passed_on(name: Seq<char>, key: Seq<char>)
    requires
        provider_named(name, key) is Ok,
    ensures
        provider_named(name, key)->Ok_0.credential is None
            || provider_named(name, key)->Ok_0.credential == Some(key),
{
}

/// Which names there are, and what each stands for: every other name is unknown,
/// and is told back.
pub proof fn law_providers_go_by_their_names(name: Seq<char>, key: Seq<char>)
    ensures
        (name == "xai"@ || name == "grok"@) ==> {
            &&& provider_named(name, key) is Ok
            &&& provider_named(name, key)->Ok_0.name == "xAI"@
            &&& provider_named(name, key)->Ok_0.base_url == "https://api.x.ai/v1"@
            &&& provider_named(name, key)->Ok_0.credential == Some(key)
        },
        name == "openai"@ ==> {
            &&& provider_named(name, key) is Ok
            &&& provider_named(name, key)->Ok_0.name == "OpenAI"@
            &&& provider_named(name, key)->Ok_0.base_url == "https://api.openai.com/v1"@
            &&& provider_named(name, key)->Ok_0.credential == Some(key)
        },
        name == "ollama"@ ==> {
            &&& provider_named(name, key) is Ok
            &&& provider_named(name, key)->Ok_0.name == "Ollama"@
            &&& provider_named(name, key)->Ok_0.base_url == "http://localhost:11434/v1"@
            &&& provider_named(name, key)->Ok_0.credential is None
        },
        name == "anthropic"@ ==> provider_named(name, key) is Err && provider_named(
            name,
            key,
        )->Err_0 is NotImplemented,
        name != "xai"@ && name != "grok"@ && name != "openai"@ && name != "ollama"@ && name
            != "anthropic"@ ==> provider_named(name, key) is Err && provider_named(name, key)->Err_0
            == ProviderErrorView::Unknown(name),
{
    reveal_strlit("xai");
    reveal_strlit("grok");
    reveal_strlit("openai");
    reveal_strlit("ollama");
    reveal_strlit("anthropic");
    assert("xai"@.len() == 3 && "grok"@.len() == 4 && "anthropic"@.len() == 9);
    assert("openai"@.len() == 6 && "ollama"@.len() == 6);
    assert("openai"@[1] != "ollama"@[1]);
}

/// A provider shows all that it was set up with, and an error the name that it is
/// about.
pub proof fn law_provider_is_seen(provider: OpenAiCompatibleProvider, error: ProviderError)
    ensures
        provider@.name == provider.name@,
        provider@.base_url == provider.base_url@,
        provider@.auth_style == provider.auth_style,
        provider.credential is None ==> provider@.credential is None,
        provider.credential is Some ==> provider@.credential == Some(provider.credential->0@),
        error is NotImplemented ==> error@ is NotImplemented,
        error matches ProviderError::Unknown(name) ==> error@ == ProviderErrorView::Unknown(
            name@,
        ),
{
}

} // verus!
