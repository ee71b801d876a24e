//! The decisions of the password-free sign-in against a server that runs in
//! solo mode: what each answer leads to, the body that creates the solo
//! owner, and whose identity the bearer is stored under. The requests, the
//! reading of the token reply and the keychain stay with the caller.
use vstd::prelude::*;
use crate::json::{
    json_line_text, json_quote, opt_bytes, quote_json_str, render_json_line, JsonDoc, JsonEntry,
    JsonEntryView,
};
use crate::scan::opt_view;
use crate::text::{chars_of, decimal, decimal_vec, push_str, string_of};

verus! {

/// A token reply of the solo sign-in endpoints: the bearer, the owner a
/// re-login names (`user.id`) and the profile a creation made
/// (`result.profile_id`).
pub struct SoloReply {
    pub token: String,
    pub user_id: Option<String>,
    pub created_profile_id: Option<String>,
}

/// What the sign-in does next.
pub enum SoloAction {
    /// POST this JSON body to `api/auth/solo/create`.
    Create(Vec<u8>),
    /// Read the answer's body as a token reply; a body that does not read
    /// fails with this context, `": "` and the reader's error.
    ReadReply(String),
    /// Stop with this error.
    Fail(String),
}

pub enum SoloActionView {
    Create(Seq<u8>),
    ReadReply(Seq<char>),
    Fail(Seq<char>),
}

impl View for SoloAction {
    type V = SoloActionView;

    open spec fn view(&self) -> SoloActionView {
        match self {
            SoloAction::Create(b) => SoloActionView::Create(b@),
            SoloAction::ReadReply(c) => SoloActionView::ReadReply(c@),
            SoloAction::Fail(e) => SoloActionView::Fail(e@),
        }
    }
}

/// The object that creates the solo owner for profile `pid`: its name and
/// user name are `pid`, its e-mail `pid@octos.local`.
pub open spec fn solo_create_doc(pid: Seq<char>) -> Seq<(Seq<char>, JsonEntryView)> {
    seq![
        ("name"@, JsonEntryView::Other(json_quote(pid))),
        ("username"@, JsonEntryView::Other(json_quote(pid))),
        ("email"@, JsonEntryView::Other(json_quote(pid + "@octos.local"@))),
    ]
}

/// The JSON body that creates the solo owner for profile `pid`, on one line
/// as serde_json writes it.
pub fn solo_create_body(pid: &str) -> (r: Option<Vec<u8>>)
    ensures
        opt_bytes(r) == json_line_text(solo_create_doc(pid@)),
{
    let mut mail = chars_of(pid);
    push_str(&mut mail, "@octos.local");
    let mail = string_of(&mail);
    let mut entries: Vec<(String, JsonEntry)> = Vec::new();
    entries.push(("name".to_string(), JsonEntry::Other(quote_json_str(pid))));
    entries.push(("username".to_string(), JsonEntry::Other(quote_json_str(pid))));
    entries.push(("email".to_string(), JsonEntry::Other(quote_json_str(mail.as_str()))));
    let doc = JsonDoc { entries };
    assert(doc@ =~= solo_create_doc(pid@));
    render_json_line(&doc)
}

/// What the answer to `POST api/auth/solo` leads to: `200` gives the token
/// reply; `404` (no solo owner yet) creates the owner; `403` means solo
/// sign-in is off; any other status is an error that names it.
pub open spec fn solo_login_spec(status: u16, pid: Seq<char>) -> SoloActionView {
    if status == 200 {
        SoloActionView::ReadReply("solo response"@)
    } else if status == 404 {
        match json_line_text(solo_create_doc(pid)) {
            Some(b) => SoloActionView::Create(b),
            None => SoloActionView::Fail("solo create: the request body could not be written"@),
        }
    } else if status == 403 {
        SoloActionView::Fail("Solo sign-in is disabled on this server"@)
    } else {
        SoloActionView::Fail("solo sign-in: HTTP "@ + decimal(status as nat))
    }
}

/// The next step after `POST api/auth/solo` answered `status`, for profile
/// `pid`.
pub fn solo_login_step(status: u16, pid: &str) -> (r: SoloAction)
    ensures
        r@ == solo_login_spec(status, pid@),
{
    if status == 200 {
        SoloAction::ReadReply("solo response".to_string())
    } else if status == 404 {
        match solo_create_body(pid) {
            Some(b) => SoloAction::Create(b),
            None => SoloAction::Fail("solo create: the request body could not be written".to_string()),
        }
    } else if status == 403 {
        SoloAction::Fail("Solo sign-in is disabled on this server".to_string())
    } else {
        let mut msg = chars_of("solo sign-in: HTTP ");
        let mut digits = decimal_vec(status as u64);
        msg.append(&mut digits);
        assert(msg@ =~= "solo sign-in: HTTP "@ + decimal(status as nat));
        SoloAction::Fail(string_of(&msg))
    }
}

/// What the answer to `POST api/auth/solo/create` leads to: a success
/// status (`2xx`) gives the token reply; any other is an error that names
/// the status as `status_text` writes it.
pub open spec fn solo_create_spec(status: u16, status_text: Seq<char>) -> SoloActionView {
    if 200 <= status < 300 {
        SoloActionView::ReadReply("solo create response"@)
    } else {
        SoloActionView::Fail("solo create: HTTP "@ + status_text)
    }
}

/// The next step after `POST api/auth/solo/create` answered `status`
/// (written `status_text`).
pub fn solo_create_step(status: u16, status_text: &str) -> (r: SoloAction)
    ensures
        r@ == solo_create_spec(status, status_text@),
{
    if 200 <= status && status < 300 {
        SoloAction::ReadReply("solo create response".to_string())
    } else {
        let mut msg = chars_of("solo create: HTTP ");
        push_str(&mut msg, status_text);
        SoloAction::Fail(string_of(&msg))
    }
}

/// The identity the bearer is stored under: the owner a re-login names,
/// else the profile a creation made, else the local profile `pid`.
pub open spec fn solo_owner_spec(
    user_id: Option<Seq<char>>,
    created: Option<Seq<char>>,
    pid: Seq<char>,
) -> Seq<char> {
    match user_id {
        Some(u) => u,
        None => match created {
            Some(p) => p,
            None => pid,
        },
    }
}

/// The owner whose identity a token reply makes the sign-in adopt.
pub fn solo_owner(reply: &SoloReply, pid: &str) -> (r: String)
    ensures
        r@ == solo_owner_spec(opt_view(reply.user_id), opt_view(reply.created_profile_id), pid@),
{
    match &reply.user_id {
        Some(u) => u.clone(),
        None => match &reply.created_profile_id {
            Some(p) => p.clone(),
            None => pid.to_string(),
        },
    }
}

} // verus!
