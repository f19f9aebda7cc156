//! Records that the settings store keeps and hands to the session core.

use vstd::prelude::*;

verus! {

/// The direction name of a rule that forwards a port of this machine.
pub open spec fn local_rule_type() -> Seq<char> {
    seq!['L', 'o', 'c', 'a', 'l']
}

/// One configured port forwarding of a server.
#[derive(Debug, Clone)]
pub struct PortForwardingRule {
    pub rule_type: String,
    pub source_port: u16,
    pub destination_host: Option<String>,
    pub destination_port: Option<u16>,
}

/// A saved server: where to connect and with which credentials.
#[derive(Debug, Clone)]
pub struct Server {
    pub id: Option<i64>,
    pub name: String,
    pub host: String,
    pub port: i32,
    pub username: String,
    pub password: Option<String>,
    pub private_key_path: Option<String>,
    pub group: Option<String>,
    pub tags: Option<Vec<String>>,
    pub color: Option<String>,
    pub created_at: i64,
    pub updated_at: i64,
    pub forwarding_rules: Option<Vec<PortForwardingRule>>,
    pub jump_host_id: Option<i64>,
}

/// One command that was run, with the server it ran on.
#[derive(Debug, Clone)]
pub struct CommandHistory {
    pub id: Option<i64>,
    pub server_id: Option<i64>,
    pub command: String,
    pub executed_at: i64,
}

/// The application's settings.
#[derive(Debug, Clone)]
pub struct AppSettings {
    pub history_limit: i32,
    pub theme: String,
    pub app_theme: String,
    pub ai_provider: String,
    pub ai_api_key: Option<String>,
    pub ai_model: Option<String>,
    pub ai_base_url: Option<String>,
}

/// The number of history records kept when nothing else is configured.
pub const DEFAULT_HISTORY_LIMIT: i32 = 10000;

impl Default for AppSettings {
    /// The settings of a fresh installation.
    fn default() -> (s: AppSettings)
        ensures
            s.history_limit == DEFAULT_HISTORY_LIMIT,
            s.theme@ == "default"@,
            s.app_theme@ == "system"@,
            s.ai_provider@ == "openai"@,
            s.ai_api_key is None,
            s.ai_model is None,
            s.ai_base_url is None,
    {
        AppSettings {
            history_limit: DEFAULT_HISTORY_LIMIT,
            theme: String::from_str("default"),
            app_theme: String::from_str("system"),
            ai_provider: String::from_str("openai"),
            ai_api_key: None,
            ai_model: None,
            ai_base_url: None,
        }
    }
}

} // verus!
