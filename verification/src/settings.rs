//! The settings that requests are handled under.

use crate::action::{Agent, AgentText};
use crate::number::{parse_number, parsed_number};
use vstd::prelude::*;

verus! {

/// The settings as the platform holds them: the token, and what may be set
/// beside it.
#[derive(Debug, Clone, PartialEq, Eq)]
pub struct Variables {
    pub token: String,
    pub timeout: Option<String>,
    pub add_header_rule_ids: Option<String>,
    pub version: Option<String>,
    pub instance_name: Option<String>,
    pub agent_host: Option<String>,
    pub cache_time: Option<String>,
}

/// The settings that a request is handled under.
#[derive(Debug, Clone, PartialEq, Eq)]
pub struct Settings {
    pub agent: Agent,
    /// Whether the response gets a header that lists the rules applied.
    pub add_rule_ids_header: bool,
}

/// What `Variables` hold, as texts.
pub struct VariablesText {
    pub token: Seq<char>,
    pub timeout: Option<Seq<char>>,
    pub add_header_rule_ids: Option<Seq<char>>,
    pub version: Option<Seq<char>>,
    pub instance_name: Option<Seq<char>>,
    pub agent_host: Option<Seq<char>>,
    pub cache_time: Option<Seq<char>>,
}

/// What `Settings` hold, as texts.
pub struct SettingsText {
    pub agent: AgentText,
    pub add_rule_ids_header: bool,
}

impl DeepView for Variables {
    type V = VariablesText;

    open spec fn deep_view(&self) -> VariablesText {
        VariablesText {
            token: self.token@,
            timeout: self.timeout.deep_view(),
            add_header_rule_ids: self.add_header_rule_ids.deep_view(),
            version: self.version.deep_view(),
            instance_name: self.instance_name.deep_view(),
            agent_host: self.agent_host.deep_view(),
            cache_time: self.cache_time.deep_view(),
        }
    }
}

impl DeepView for Settings {
    type V = SettingsText;

    open spec fn deep_view(&self) -> SettingsText {
        SettingsText {
            agent: self.agent.deep_view(),
            add_rule_ids_header: self.add_rule_ids_header,
        }
    }
}

/// The number that a variable sets: the number it reads as, and `fallback`
/// where it is not set or does not read as one.
pub open spec fn number_or(variable: Option<Seq<char>>, fallback: u64) -> u64 {
    match variable {
        Some(text) => match parsed_number(text) {
            Some(n) => n,
            None => fallback,
        },
        None => fallback,
    }
}

/// The text that a variable sets, and `fallback` where it is not set.
pub open spec fn text_or(variable: Option<Seq<char>>, fallback: Seq<char>) -> Seq<char> {
    match variable {
        Some(text) => text,
        None => fallback,
    }
}

/// The settings that `variables` stand for. The engine is waited for 5000
/// milliseconds and nothing is cached, unless set otherwise; the header
/// that lists the rules is added only where its variable reads `true`.
pub open spec fn resolved(variables: VariablesText) -> SettingsText {
    SettingsText {
        agent: AgentText {
            host: text_or(variables.agent_host, "https://agent.redirection.io"@),
            token: variables.token,
            instance_name: text_or(variables.instance_name, "undefined"@),
            version: text_or(variables.version, "redirection-io-cloudflare/dev"@),
            cache_time: number_or(variables.cache_time, 0),
            timeout: number_or(variables.timeout, 5000),
        },
        add_rule_ids_header: variables.add_header_rule_ids == Some("true"@),
    }
}

fn or_number(variable: Option<String>, fallback: u64) -> (n: u64)
    ensures
        n == number_or(variable.deep_view(), fallback),
{
    match variable {
        Some(text) => match parse_number(text.as_str()) {
            Some(n) => n,
            None => fallback,
        },
        None => fallback,
    }
}

fn or_text(variable: Option<String>, fallback: &str) -> (text: String)
    ensures
        text@ == text_or(variable.deep_view(), fallback@),
{
    match variable {
        Some(text) => text,
        None => fallback.to_owned(),
    }
}

/// Resolves the settings from what the platform holds.
pub fn resolve(variables: Variables) -> (settings: Settings)
    ensures
        settings.deep_view() == resolved(variables.deep_view()),
{
    let Variables {
        token,
        timeout,
        add_header_rule_ids,
        version,
        instance_name,
        agent_host,
        cache_time,
    } = variables;
    let add_rule_ids_header = match add_header_rule_ids {
        Some(text) => text == "true".to_owned(),
        None => false,
    };
    Settings {
        agent: Agent {
            host: or_text(agent_host, "https://agent.redirection.io"),
            token,
            instance_name: or_text(instance_name, "undefined"),
            version: or_text(version, "redirection-io-cloudflare/dev"),
            cache_time: or_number(cache_time, 0),
            timeout: or_number(timeout, 5000),
        },
        add_rule_ids_header,
    }
}

} // verus!
