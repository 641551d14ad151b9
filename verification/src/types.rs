//! Plain data exchanged with the gateway and with the settings store.

use vstd::prelude::*;
use vstd::string::StringExecFns;

verus! {

/// An audio input device that the user can pick as microphone.
#[derive(Debug, Clone)]
pub struct AudioDevice {
    pub name: String,
    pub id: String,
    pub is_default: bool,
}

/// The application's settings.
#[derive(Debug, Clone)]
pub struct AppSettings {
    pub gateway_url: String,
    pub token: String,
    pub profile_name: String,
    pub session_key: Option<String>,
    pub microphone_device_id: Option<String>,
    pub push_to_talk_hotkey: Option<String>,
}

/// The gateway that a fresh installation talks to.
pub open spec fn default_gateway_url() -> Seq<char> {
    "http://127.0.0.1:18790/voice-client"@
}

impl Default for AppSettings {
    fn default() -> (r: Self)
        ensures
            r.gateway_url@ == default_gateway_url(),
            r.token@.len() == 0,
            r.profile_name@.len() == 0,
            r.session_key is None,
            r.microphone_device_id is None,
            r.push_to_talk_hotkey is None,
    {
        AppSettings {
            gateway_url: String::from_str("http://127.0.0.1:18790/voice-client"),
            token: String::new(),
            profile_name: String::new(),
            session_key: None,
            microphone_device_id: None,
            push_to_talk_hotkey: None,
        }
    }
}

/// The view of an optional string.
pub open spec fn text_of(value: Option<String>) -> Option<Seq<char>> {
    match value {
        Some(s) => Some(s@),
        None => None,
    }
}

/// A stored value as a setting: a value that is absent or empty is no
/// setting.
pub open spec fn setting_of(stored: Option<Seq<char>>) -> Option<Seq<char>> {
    match stored {
        Some(s) if s.len() > 0 => Some(s),
        _ => None,
    }
}

/// Drops a stored value that is empty.
pub fn non_empty(stored: Option<String>) -> (r: Option<String>)
    ensures
        text_of(r) == setting_of(text_of(stored)),
{
    match stored {
        Some(s) => if s.as_str().is_empty() {
            None
        } else {
            Some(s)
        },
        None => None,
    }
}

impl AppSettings {
    /// The settings that the stored values stand for. A gateway address that
    /// is absent falls back to the default, a profile name that is absent is
    /// empty, and the three optional settings are dropped where empty.
    pub fn from_stored(
        gateway_url: Option<String>,
        profile_name: Option<String>,
        session_key: Option<String>,
        microphone_device_id: Option<String>,
        push_to_talk_hotkey: Option<String>,
        token: String,
    ) -> (r: Self)
        ensures
            r.gateway_url@ == match gateway_url {
                Some(url) => url@,
                None => default_gateway_url(),
            },
            r.profile_name@ == match profile_name {
                Some(name) => name@,
                None => Seq::<char>::empty(),
            },
            r.token@ == token@,
            text_of(r.session_key) == setting_of(text_of(session_key)),
            text_of(r.microphone_device_id) == setting_of(text_of(microphone_device_id)),
            text_of(r.push_to_talk_hotkey) == setting_of(text_of(push_to_talk_hotkey)),
    {
        AppSettings {
            gateway_url: match gateway_url {
                Some(url) => url,
                None => String::from_str("http://127.0.0.1:18790/voice-client"),
            },
            token,
            profile_name: match profile_name {
                Some(name) => name,
                None => String::new(),
            },
            session_key: non_empty(session_key),
            microphone_device_id: non_empty(microphone_device_id),
            push_to_talk_hotkey: non_empty(push_to_talk_hotkey),
        }
    }
}

/// The gateway's answer to a request for a new session.
#[derive(Debug, Clone)]
pub struct SessionResponse {
    pub session_id: String,
    pub created_at: String,
    pub profile_name: String,
}

/// The assistant's answer within a transcription response.
#[derive(Debug, Clone)]
pub struct AgentResponse {
    pub text: String,
}

/// The outcome of a connection test.
#[derive(Debug, Clone)]
pub struct ConnectionResult {
    pub success: bool,
    pub error: Option<String>,
}

/// The body of a request for a new session.
#[derive(Debug, Clone)]
pub struct CreateSessionRequest {
    pub profile_name: String,
}

} // verus!
