//! A conversation as the chat keeps it: its messages, the reply streaming in,
//! and the state of each card it shows.
use vstd::prelude::*;
use std::collections::BTreeMap;
use crate::text::{chars_of, string_of, trim, trim_vec};
use crate::events::{apply_card_event, card_event_spec, opt_str};
use crate::keyed::KeyedMap;
use crate::tokens::CardState;

verus! {

/// Who wrote a message.
#[derive(Clone, Copy, Debug, PartialEq, Eq, Structural)]
pub enum ChatRole {
    User,
    Assistant,
}

/// One message of a conversation.
pub struct ChatMessage {
    pub role: ChatRole,
    pub text: String,
}

/// The foreground conversation.
pub struct ChatData {
    pub messages: Vec<ChatMessage>,
    /// The reply as its deltas arrived.
    pub streaming_text: String,
    /// The reply as the kernel durably stored it, when it sent a copy (empty
    /// otherwise).
    pub authoritative_text: String,
    pub thinking_text: String,
    pub is_streaming: bool,
    /// Each card's own state, by the index of the message that holds it.
    pub a2app_state: BTreeMap<usize, CardState>,
    /// The cards already saved during the current turn.
    pub saved_stream_cards: Vec<String>,
}

/// The state a card holds in `states`, or none yet.
pub open spec fn card_state_of(states: Map<usize, CardState>, c: usize) -> Map<Seq<char>, Seq<char>> {
    if states.contains_key(c) {
        states[c]@
    } else {
        Map::empty()
    }
}

impl ChatData {
    /// Conversations are not written to local storage: the server's session
    /// ledger is their record, so there is nothing to do here.
    pub fn save_to_disk(&self) {
    }

    /// Empties the shared surface: no messages, nothing streaming or
    /// thinking, no card state. The cards saved this turn are kept.
    pub fn wipe_surface(&mut self)
        ensures
            final(self).messages@.len() == 0,
            final(self).streaming_text@.len() == 0,
            final(self).authoritative_text@.len() == 0,
            final(self).thinking_text@.len() == 0,
            !final(self).is_streaming,
            final(self).a2app_state@ == Map::<usize, CardState>::empty(),
            final(self).saved_stream_cards == old(self).saved_stream_cards,
    {
        self.messages = Vec::new();
        self.streaming_text = String::new();
        self.authoritative_text = String::new();
        self.thinking_text = String::new();
        self.is_streaming = false;
        self.a2app_state = BTreeMap::new();
        self.save_to_disk();
    }

    /// Takes the finished turn's text (`turn_text`: the stored copy when the
    /// kernel sent one, else what streamed in), leaving the streamed, stored
    /// and thinking texts empty.
    pub fn take_turn_text(&mut self) -> (r: String)
        ensures
            r@ == (if old(self).authoritative_text@.len() == 0 {
                old(self).streaming_text@
            } else {
                old(self).authoritative_text@
            }),
            final(self).streaming_text@.len() == 0,
            final(self).authoritative_text@.len() == 0,
            final(self).thinking_text@.len() == 0,
            final(self).messages == old(self).messages,
            final(self).is_streaming == old(self).is_streaming,
            final(self).a2app_state == old(self).a2app_state,
            final(self).saved_stream_cards == old(self).saved_stream_cards,
    {
        let r = turn_text(self.streaming_text.as_str(), self.authoritative_text.as_str());
        self.streaming_text = String::new();
        self.authoritative_text = String::new();
        self.thinking_text = String::new();
        r
    }

    /// Applies a card's `Notify` event to the state of the card at
    /// `card_id` (`apply_card_event`). The card gets a state entry first if it
    /// had none, whether or not the event changes it; without a card nothing
    /// happens. Returns whether the state changed.
    pub fn apply_notify(&mut self, card_id: Option<usize>, ev: &str, key: &str, value: Option<&str>) -> (changed: bool)
        ensures
            match card_id {
                None => !changed && final(self).a2app_state@ == old(self).a2app_state@,
                Some(c) => {
                    let before = card_state_of(old(self).a2app_state@, c);
                    &&& final(self).a2app_state@.dom() == old(self).a2app_state@.dom().insert(c)
                    &&& forall|k: usize|
                        k != c && #[trigger] old(self).a2app_state@.contains_key(k)
                            ==> final(self).a2app_state@[k] == old(self).a2app_state@[k]
                    &&& match card_event_spec(before, ev@, key@, opt_str(value)) {
                        Some(m) => changed && final(self).a2app_state@[c]@ == m,
                        None => !changed && final(self).a2app_state@[c]@ == before,
                    }
                },
            },
            final(self).messages == old(self).messages,
            final(self).streaming_text == old(self).streaming_text,
            final(self).authoritative_text == old(self).authoritative_text,
            final(self).thinking_text == old(self).thinking_text,
            final(self).is_streaming == old(self).is_streaming,
            final(self).saved_stream_cards == old(self).saved_stream_cards,
    {
        broadcast use vstd::laws_cmp::group_laws_cmp;

        match card_id {
            None => false,
            Some(c) => {
                let mut card: CardState = match self.a2app_state.remove(&c) {
                    Some(s) => s,
                    None => KeyedMap::new(),
                };
                assert(card@ == card_state_of(old(self).a2app_state@, c));
                let changed = apply_card_event(&mut card, ev, key, value);
                self.a2app_state.insert(c, card);
                assert(self.a2app_state@.dom() =~= old(self).a2app_state@.dom().insert(c));
                changed
            },
        }
    }

    /// Conversations are hydrated from the server, so the local store holds
    /// no messages.
    pub fn load_from_disk() -> (r: Vec<ChatMessage>)
        ensures
            r@.len() == 0,
    {
        Vec::new()
    }
}

/// The text a finished turn keeps: the copy the kernel stored when it sent
/// one (a delta lost in transit leaves the streamed text short), else what
/// streamed in.
pub fn turn_text(streamed: &str, authoritative: &str) -> (r: String)
    ensures
        r@ == (if authoritative@.len() == 0 {
            streamed@
        } else {
            authoritative@
        }),
{
    let a = chars_of(authoritative);
    if a.len() == 0 {
        let s = chars_of(streamed);
        string_of(&s)
    } else {
        string_of(&a)
    }
}

/// The text of the last message in `ms[..k]` written by the user.
pub open spec fn last_user_below(ms: Seq<ChatMessage>, k: int) -> Option<Seq<char>>
    decreases k,
{
    if k <= 0 {
        None
    } else if ms[k - 1].role == ChatRole::User {
        Some(ms[k - 1].text@)
    } else {
        last_user_below(ms, k - 1)
    }
}

/// The request behind the current card: the last message the user wrote.
pub fn last_user_prompt(messages: &Vec<ChatMessage>) -> (r: Option<String>)
    ensures
        match r {
            Some(t) => last_user_below(messages@, messages@.len() as int) == Some(t@),
            None => last_user_below(messages@, messages@.len() as int) is None,
        },
{
    let mut k = messages.len();
    while k > 0
        invariant
            k <= messages.len(),
            last_user_below(messages@, messages@.len() as int) == last_user_below(messages@, k as int),
        decreases k,
    {
        if messages[k - 1].role == ChatRole::User {
            let t = chars_of(messages[k - 1].text.as_str());
            return Some(string_of(&t));
        }
        k -= 1;
    }
    None
}

/// Whether a typed request is sent: it holds more than whitespace and no turn
/// is in flight (a second submit would overwrite the one streaming surface).
pub fn accepts_submit(text: &str, turn_in_flight: bool) -> (r: bool)
    ensures
        r == (trim(text@).len() > 0 && !turn_in_flight),
{
    if turn_in_flight {
        return false;
    }
    let t = chars_of(text);
    let tr = trim_vec(&t);
    tr.len() > 0
}

/// Starts a turn: the request joins the conversation; the streamed, stored
/// and thinking texts and the turn's saved cards are cleared; the reply is
/// marked streaming. Returns the number of list items (the messages and the
/// reply on its way).
pub fn begin_turn(data: &mut ChatData, text: String) -> (items: usize)
    requires
        old(data).messages@.len() + 2 <= usize::MAX,
    ensures
        final(data).messages@ == old(data).messages@.push(ChatMessage { role: ChatRole::User, text }),
        final(data).streaming_text@.len() == 0,
        final(data).authoritative_text@.len() == 0,
        final(data).thinking_text@.len() == 0,
        final(data).saved_stream_cards@.len() == 0,
        final(data).is_streaming,
        final(data).a2app_state == old(data).a2app_state,
        items == final(data).messages@.len() + 1,
{
    data.messages.push(ChatMessage { role: ChatRole::User, text });
    data.streaming_text = String::new();
    data.authoritative_text = String::new();
    data.thinking_text = String::new();
    data.saved_stream_cards = Vec::new();
    data.is_streaming = true;
    data.messages.len() + 1
}

} // verus!
