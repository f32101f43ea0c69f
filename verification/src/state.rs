//! The server's settings, as read from its environment.
use vstd::prelude::*;
use crate::text::owned;

verus! {

/// Whether refill notifications go to the real Salesforce or to the mock.
#[derive(Clone, Copy, Debug, PartialEq, Eq, Structural)]
pub enum SalesforceMode {
    Mock,
    Live,
}

/// The mode a `SALESFORCE_MODE` setting selects: only `live` is live.
pub open spec fn mode_named(setting: Seq<char>) -> SalesforceMode {
    if setting == "live"@ {
        SalesforceMode::Live
    } else {
        SalesforceMode::Mock
    }
}

impl SalesforceMode {
    /// The mode a `SALESFORCE_MODE` setting selects; anything but `live`
    /// (an unset variable among it) is the mock.
    pub fn from_setting(setting: Option<&str>) -> (m: SalesforceMode)
        ensures
            m == match setting {
                Some(s) => mode_named(s@),
                None => SalesforceMode::Mock,
            },
    {
        match setting {
            Some(s) => if crate::text::text_eq(s, "live") {
                SalesforceMode::Live
            } else {
                SalesforceMode::Mock
            },
            None => SalesforceMode::Mock,
        }
    }
}

/// The server's settings.
#[derive(Clone, Debug)]
pub struct AppConfig {
    pub db_path: String,
    pub session_secret: String,
    pub salesforce_mode: SalesforceMode,
    /// Network drive path for the daily chat log files.
    pub chat_log_path: String,
    pub backup_dir: String,
}

/// A setting's value, or its default when unset.
pub open spec fn setting_or(value: Option<String>, default: Seq<char>) -> Seq<char> {
    match value {
        Some(v) => v@,
        None => default,
    }
}

/// A setting's value, or its default when unset.
fn setting_or_default(value: Option<String>, default: &str) -> (s: String)
    ensures
        s@ == setting_or(value, default@),
{
    match value {
        Some(v) => v,
        None => owned(default),
    }
}

impl AppConfig {
    /// The settings from the values of `DB_PATH`, `SESSION_SECRET`,
    /// `SALESFORCE_MODE`, `CHAT_LOG_PATH` and `BACKUP_DIR` (`None` where a
    /// variable is unset). Every setting has a default but the session
    /// secret: without it there are no settings.
    pub fn from_settings(
        db_path: Option<String>,
        session_secret: Option<String>,
        salesforce_mode: Option<String>,
        chat_log_path: Option<String>,
        backup_dir: Option<String>,
    ) -> (c: Option<AppConfig>)
        ensures
            session_secret is None ==> c is None,
            session_secret matches Some(secret) ==> (c matches Some(cfg) && {
                &&& cfg.db_path@ == setting_or(db_path, "./inventorix.db"@)
                &&& cfg.session_secret@ == secret@
                &&& cfg.salesforce_mode == match salesforce_mode {
                    Some(m) => mode_named(m@),
                    None => SalesforceMode::Mock,
                }
                &&& cfg.chat_log_path@ == setting_or(chat_log_path, "./chat-logs-placeholder"@)
                &&& cfg.backup_dir@ == setting_or(backup_dir, "./backups"@)
            }),
    {
        let secret = match session_secret {
            Some(s) => s,
            None => return None,
        };
        let mode = match &salesforce_mode {
            Some(m) => SalesforceMode::from_setting(Some(m.as_str())),
            None => SalesforceMode::from_setting(None),
        };
        Some(
            AppConfig {
                db_path: setting_or_default(db_path, "./inventorix.db"),
                session_secret: secret,
                salesforce_mode: mode,
                chat_log_path: setting_or_default(chat_log_path, "./chat-logs-placeholder"),
                backup_dir: setting_or_default(backup_dir, "./backups"),
            },
        )
    }
}

/// The address the server listens on: `BIND_ADDR` when set, else the
/// loopback address with `PORT` (3000 when unset).
pub open spec fn bind_address_text(bind_addr: Option<String>, port: Option<String>) -> Seq<char> {
    match bind_addr {
        Some(a) => a@,
        None => "127.0.0.1:"@ + setting_or(port, "3000"@),
    }
}

/// The address the server listens on, from `BIND_ADDR` and `PORT`.
pub fn bind_address(bind_addr: Option<String>, port: Option<String>) -> (a: String)
    ensures
        a@ == bind_address_text(bind_addr, port),
{
    match bind_addr {
        Some(a) => a,
        None => {
            let p = setting_or_default(port, "3000");
            let mut a = owned("127.0.0.1:");
            a.append(p.as_str());
            a
        },
    }
}

} // verus!
