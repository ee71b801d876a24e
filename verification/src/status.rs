//! What the shell's status surfaces show: the status line, the connection
//! dot, whether the empty state or the thinking curtain is up, and what the
//! server's version probe is warned about.
use vstd::prelude::*;
use crate::chat::ChatData;
use crate::lines::{starts_with, starts_with_exec};
use crate::text::{chars_of, push_str, string_of, vec_eq};

verus! {

/// The status line: the profile when one is selected.
pub open spec fn status_line_spec(profile: Option<Seq<char>>) -> Seq<char> {
    match profile {
        Some(p) => "Connected \u{b7} profile="@ + p,
        None => "Initializing..."@,
    }
}

/// The status line for the selected profile.
pub fn status_line(profile: Option<&str>) -> (r: String)
    ensures
        r@ == status_line_spec(match profile {
            Some(p) => Some(p@),
            None => None,
        }),
{
    match profile {
        Some(p) => {
            let mut out = chars_of("Connected \u{b7} profile=");
            push_str(&mut out, p);
            string_of(&out)
        },
        None => {
            let out = chars_of("Initializing...");
            string_of(&out)
        },
    }
}

/// The transport's connection as the store mirrors it.
#[derive(Clone, Copy, Debug, PartialEq, Eq, Structural)]
pub enum ConnectionState {
    Connected,
    Reconnecting,
    Offline,
}

/// The connection indicator: its label and its dot's colour.
pub fn connection_indicator(cs: ConnectionState) -> (r: (&'static str, &'static str))
    ensures
        r.0@ == (match cs {
            ConnectionState::Connected => "Live"@,
            ConnectionState::Reconnecting => "Reconnecting"@,
            ConnectionState::Offline => "Offline"@,
        }),
        r.1@ == (match cs {
            ConnectionState::Connected => "#x4FCB6E"@,
            ConnectionState::Reconnecting => "#xF6BE63"@,
            ConnectionState::Offline => "#xE36363"@,
        }),
{
    match cs {
        ConnectionState::Connected => ("Live", "#x4FCB6E"),
        ConnectionState::Reconnecting => ("Reconnecting", "#xF6BE63"),
        ConnectionState::Offline => ("Offline", "#xE36363"),
    }
}

/// Whether the empty state shows (no messages, nothing streaming) and
/// whether the thinking curtain covers the screen (a turn is streaming).
pub fn surface_visibility(data: &ChatData) -> (r: (bool, bool))
    ensures
        r == (data.messages@.len() == 0 && !data.is_streaming, data.is_streaming),
{
    (data.messages.len() == 0 && !data.is_streaming, data.is_streaming)
}

/// What the version probe warns about: a version that is not `0.x` or
/// `1.x`, and a service other than `octos`. Unknown values raise nothing.
pub open spec fn probe_warnings_spec(version: Option<Seq<char>>, service: Option<Seq<char>>) -> (bool, bool) {
    (
        match version {
            Some(v) => !starts_with(v, "0."@) && !starts_with(v, "1."@),
            None => false,
        },
        match service {
            Some(s) => s != "octos"@,
            None => false,
        },
    )
}

/// The warnings a server's version probe raises.
pub fn probe_warnings(version: Option<&str>, service: Option<&str>) -> (r: (bool, bool))
    ensures
        r == probe_warnings_spec(
            match version {
                Some(v) => Some(v@),
                None => None,
            },
            match service {
                Some(s) => Some(s@),
                None => None,
            },
        ),
{
    let bad_version = match version {
        Some(v) => {
            let t = chars_of(v);
            !starts_with_exec(&t, "0.") && !starts_with_exec(&t, "1.")
        },
        None => false,
    };
    let bad_service = match service {
        Some(s) => {
            let t = chars_of(s);
            !vec_eq(&t, &chars_of("octos"))
        },
        None => false,
    };
    (bad_version, bad_service)
}

} // verus!
