//! The open apps: one agent session per app, one of them in the foreground.
//! The foreground app's conversation lives in the shared `ChatData`; an app
//! in the background keeps a snapshot of its own, restored when it returns.
//! Sessions and prompts are known by the integer ids the transport gives.
use vstd::prelude::*;
use std::collections::BTreeMap;
use crate::chat::{ChatData, ChatMessage, ChatRole};
use crate::routing::{ama_decision_spec, app_title, app_title_spec, parse_ama_decision};
use crate::text::{
    chars_of, contains, decimal, decimal_vec, find, find_from, find_str, is_ascii_alnum, lemma_find_from, push_all,
    push_str, slice_vec, string_of, trim, trim_vec, vec_eq,
};
use crate::saves::{l0_repair_prompt, l0_repair_spec, security_repair, security_repair_spec, string_views};
use crate::tokens::CardState;
use vstd::arithmetic::div_mod::{
    lemma_add_mod_noop, lemma_mod_bound, lemma_mod_self_0, lemma_small_mod,
};

verus! {

/// One open app: its agent session, the request its card is for, its domain
/// (for apps the router can activate) and, while in the background, its
/// saved conversation.
pub struct AppRecord {
    pub session_id: u64,
    pub title: String,
    /// The request the current card answers (restated by a repair turn).
    pub last_request: Option<String>,
    pub domain: Option<String>,
    /// The app's turn in flight.
    pub current_prompt: Option<u64>,
    /// Output arrived while the app was in the background.
    pub has_updates: bool,
    pub saved_messages: Vec<ChatMessage>,
    pub saved_a2app: BTreeMap<usize, CardState>,
    /// The one lint or security repair turn of the current request is spent.
    pub repair_attempted: bool,
    /// Repair turns spent on L0 refusals of the current request.
    pub l0_repair_attempts: u8,
}

/// A record as `AppRecord::new` makes it.
pub open spec fn is_fresh_record(r: AppRecord, session_id: u64, title: Seq<char>) -> bool {
    &&& r.session_id == session_id
    &&& r.title@ == title
    &&& r.last_request is None
    &&& r.domain is None
    &&& r.current_prompt is None
    &&& !r.has_updates
    &&& r.saved_messages@.len() == 0
    &&& r.saved_a2app@ == Map::<usize, CardState>::empty()
    &&& !r.repair_attempted
    &&& r.l0_repair_attempts == 0
}

/// A record of the domain app `domain`.
pub open spec fn is_domain_record(r: AppRecord, session_id: u64, title: Seq<char>, domain: Seq<char>) -> bool {
    &&& is_fresh_record(
        AppRecord { domain: None, ..r },
        session_id,
        title,
    )
    &&& r.domain matches Some(d) && d@ == domain
}

impl AppRecord {
    /// A new app on session `session_id`, with nothing in it yet.
    pub fn new(session_id: u64, title: String) -> (r: Self)
        ensures
            is_fresh_record(r, session_id, title@),
    {
        AppRecord {
            session_id,
            title,
            last_request: None,
            domain: None,
            current_prompt: None,
            has_updates: false,
            saved_messages: Vec::new(),
            saved_a2app: BTreeMap::new(),
            repair_attempted: false,
            l0_repair_attempts: 0,
        }
    }

    /// A domain app (weather, stock, …) the router can activate.
    pub fn with_domain(session_id: u64, title: String, domain: &str) -> (r: Self)
        ensures
            is_domain_record(r, session_id, title@, domain@),
    {
        let mut r = AppRecord::new(session_id, title);
        let d = chars_of(domain);
        r.domain = Some(string_of(&d));
        r
    }
}

/// A copy of a conversation's messages.
pub fn copy_messages(ms: &Vec<ChatMessage>) -> (r: Vec<ChatMessage>)
    ensures
        r@ == ms@,
{
    let mut r: Vec<ChatMessage> = Vec::new();
    let mut i: usize = 0;
    while i < ms.len()
        invariant
            i <= ms.len(),
            r@ == ms@.take(i as int),
        decreases ms.len() - i,
    {
        let m = ChatMessage { role: ms[i].role, text: ms[i].text.clone() };
        r.push(m);
        i += 1;
        assert(r@ =~= ms@.take(i as int));
    }
    assert(ms@.take(ms.len() as int) =~= ms@);
    r
}

/// The open apps and which of them is in the foreground.
pub struct AppDeck {
    pub apps: Vec<AppRecord>,
    pub foreground: usize,
}

/// The first app from `k` on whose turn in flight is `pid`.
pub open spec fn prompt_owner_from(apps: Seq<AppRecord>, pid: u64, k: int) -> Option<int>
    decreases apps.len() - k,
{
    if k < 0 || k >= apps.len() {
        None
    } else if apps[k].current_prompt == Some(pid) {
        Some(k)
    } else {
        prompt_owner_from(apps, pid, k + 1)
    }
}

proof fn lemma_prompt_owner_from(apps: Seq<AppRecord>, pid: u64, k: int)
    ensures
        prompt_owner_from(apps, pid, k) matches Some(i) ==> k <= i < apps.len()
            && apps[i].current_prompt == Some(pid),
    decreases apps.len() - k,
{
    if 0 <= k < apps.len() && apps[k].current_prompt != Some(pid) {
        lemma_prompt_owner_from(apps, pid, k + 1);
    }
}

/// The first app whose turn in flight is `pid`.
pub open spec fn prompt_owner(apps: Seq<AppRecord>, pid: u64) -> Option<int> {
    prompt_owner_from(apps, pid, 0)
}

/// Whether app `a` is the domain app `domain`.
pub open spec fn serves_domain(a: AppRecord, domain: Seq<char>) -> bool {
    a.domain matches Some(d) && d@ == domain
}

/// The first app from `k` on that serves `domain`.
pub open spec fn domain_app_from(apps: Seq<AppRecord>, domain: Seq<char>, k: int) -> Option<int>
    decreases apps.len() - k,
{
    if k < 0 || k >= apps.len() {
        None
    } else if serves_domain(apps[k], domain) {
        Some(k)
    } else {
        domain_app_from(apps, domain, k + 1)
    }
}

proof fn lemma_domain_app_from(apps: Seq<AppRecord>, domain: Seq<char>, k: int)
    ensures
        domain_app_from(apps, domain, k) matches Some(i) ==> k <= i < apps.len() && serves_domain(
            apps[i],
            domain,
        ),
    decreases apps.len() - k,
{
    if 0 <= k < apps.len() && !serves_domain(apps[k], domain) {
        lemma_domain_app_from(apps, domain, k + 1);
    }
}

/// The first app that serves `domain`.
pub open spec fn domain_app(apps: Seq<AppRecord>, domain: Seq<char>) -> Option<int> {
    domain_app_from(apps, domain, 0)
}

/// The first app from `k` on with session `sid`.
pub open spec fn session_app_from(apps: Seq<AppRecord>, sid: u64, k: int) -> Option<int>
    decreases apps.len() - k,
{
    if k < 0 || k >= apps.len() {
        None
    } else if apps[k].session_id == sid {
        Some(k)
    } else {
        session_app_from(apps, sid, k + 1)
    }
}

impl AppDeck {
    /// The foreground app's position, when it is open.
    pub open spec fn fg(self) -> Option<int> {
        if self.foreground < self.apps@.len() {
            Some(self.foreground as int)
        } else {
            None
        }
    }

    /// The foreground app's session.
    pub fn fg_session(&self) -> (r: Option<u64>)
        ensures
            r == (match self.fg() {
                Some(i) => Some(self.apps@[i].session_id),
                None => None,
            }),
    {
        if self.foreground < self.apps.len() {
            Some(self.apps[self.foreground].session_id)
        } else {
            None
        }
    }

    /// The position of the app whose turn in flight is `pid`; `None` for a
    /// prompt no app tracks (cancelled or stale).
    pub fn app_of_prompt(&self, pid: u64) -> (r: Option<usize>)
        ensures
            match r {
                Some(i) => prompt_owner(self.apps@, pid) == Some(i as int) && i < self.apps@.len(),
                None => prompt_owner(self.apps@, pid) is None,
            },
    {
        proof {
            lemma_prompt_owner_from(self.apps@, pid, 0);
        }
        let mut k: usize = 0;
        while k < self.apps.len()
            invariant
                k <= self.apps.len(),
                prompt_owner(self.apps@, pid) == prompt_owner_from(self.apps@, pid, k as int),
            decreases self.apps.len() - k,
        {
            if self.apps[k].current_prompt == Some(pid) {
                return Some(k);
            }
            k += 1;
        }
        None
    }

    /// The position of the app that serves `domain`.
    pub fn app_for_domain(&self, domain: &str) -> (r: Option<usize>)
        ensures
            match r {
                Some(i) => domain_app(self.apps@, domain@) == Some(i as int),
                None => domain_app(self.apps@, domain@) is None,
            },
    {
        let want = chars_of(domain);
        let mut k: usize = 0;
        while k < self.apps.len()
            invariant
                k <= self.apps.len(),
                want@ == domain@,
                domain_app(self.apps@, domain@) == domain_app_from(self.apps@, domain@, k as int),
            decreases self.apps.len() - k,
        {
            match &self.apps[k].domain {
                Some(d) => {
                    let dc = chars_of(d.as_str());
                    if vec_eq(&dc, &want) {
                        return Some(k);
                    }
                },
                None => {},
            }
            k += 1;
        }
        None
    }
}

impl AppDeck {
    /// Sets the foreground app's turn in flight.
    pub fn set_fg_prompt(&mut self, p: Option<u64>)
        ensures
            final(self).foreground == old(self).foreground,
            final(self).apps@ == (match old(self).fg() {
                Some(i) => old(self).apps@.update(i, AppRecord { current_prompt: p, ..old(self).apps@[i] }),
                None => old(self).apps@,
            }),
    {
        let i = self.foreground;
        if i < self.apps.len() {
            self.apps[i].current_prompt = p;
        }
    }
}

/// `r2` is `r` with the conversation `data` saved into it.
pub open spec fn snapshotted(r: AppRecord, r2: AppRecord, data: ChatData) -> bool {
    &&& r2 == AppRecord { saved_messages: r2.saved_messages, saved_a2app: r2.saved_a2app, ..r }
    &&& r2.saved_messages@ == data.messages@
    &&& r2.saved_a2app@ == data.a2app_state@
}

/// `data2` is `data` with the conversation saved in `rec` restored: its
/// messages and card states, nothing streaming.
pub open spec fn restored(data: ChatData, rec: AppRecord, data2: ChatData) -> bool {
    &&& data2.messages@ == rec.saved_messages@
    &&& data2.a2app_state@ == rec.saved_a2app@
    &&& data2.streaming_text@.len() == 0
    &&& data2.authoritative_text@.len() == 0
    &&& data2.thinking_text@.len() == 0
    &&& !data2.is_streaming
    &&& data2.saved_stream_cards == data.saved_stream_cards
}

/// `data2` is `data` with its surface wiped (`ChatData::wipe_surface`).
pub open spec fn wiped(data: ChatData, data2: ChatData) -> bool {
    &&& data2.messages@.len() == 0
    &&& data2.streaming_text@.len() == 0
    &&& data2.authoritative_text@.len() == 0
    &&& data2.thinking_text@.len() == 0
    &&& !data2.is_streaming
    &&& data2.a2app_state@ == Map::<usize, CardState>::empty()
    &&& data2.saved_stream_cards == data.saved_stream_cards
}

/// What switching to app `i` does to the deck `d` and the conversation `c`:
/// nothing for a position past the end; for the foreground app, only its
/// badge is cleared; otherwise the app left keeps a snapshot of `c`, app `i`
/// comes forward with its badge cleared and its own snapshot restored.
pub open spec fn switched(d: AppDeck, c: ChatData, i: int, d2: AppDeck, c2: ChatData) -> bool {
    let n = d.apps@.len();
    let fg = d.foreground as int;
    if i < 0 || i >= n {
        d2.apps@ == d.apps@ && d2.foreground == d.foreground && c2 == c
    } else if i == fg {
        &&& d2.apps@ == d.apps@.update(i, AppRecord { has_updates: false, ..d.apps@[i] })
        &&& d2.foreground == d.foreground
        &&& c2 == c
    } else {
        &&& d2.foreground == i
        &&& d2.apps@.len() == n
        &&& forall|j: int| 0 <= j < n && j != i && j != fg ==> #[trigger] d2.apps@[j] == d.apps@[j]
        &&& fg < n ==> snapshotted(d.apps@[fg], d2.apps@[fg], c)
        &&& d2.apps@[i] == AppRecord { has_updates: false, ..d.apps@[i] }
        &&& restored(c, d.apps@[i], c2)
    }
}

impl AppDeck {
    /// Takes the foreground app's turn in flight (to cancel it).
    pub fn fg_prompt_take(&mut self) -> (r: Option<u64>)
        ensures
            final(self).foreground == old(self).foreground,
            match old(self).fg() {
                Some(i) => r == old(self).apps@[i].current_prompt && final(self).apps@ == old(self).apps@.update(i, AppRecord { current_prompt: None, ..old(self).apps@[i] }),
                None => r is None && final(self).apps@ == old(self).apps@,
            },
    {
        let i = self.foreground;
        if i < self.apps.len() {
            let p = self.apps[i].current_prompt;
            self.apps[i].current_prompt = None;
            p
        } else {
            None
        }
    }

    /// Brings the app on session `sid` to the foreground, opening a record
    /// titled `title` when no app has that session yet; its badge is cleared.
    pub fn focus_session(&mut self, sid: u64, title: String)
        requires
            old(self).apps@.len() < usize::MAX,
        ensures
            match session_app_from(old(self).apps@, sid, 0) {
                Some(i) => final(self).foreground == i && final(self).apps@ == old(self).apps@.update(
                    i,
                    AppRecord { has_updates: false, ..old(self).apps@[i] },
                ),
                None => {
                    &&& final(self).apps@.len() == old(self).apps@.len() + 1
                    &&& final(self).apps@.take(old(self).apps@.len() as int) == old(self).apps@
                    &&& is_fresh_record(final(self).apps@.last(), sid, title@)
                    &&& final(self).foreground == old(self).apps@.len()
                },
            },
    {
        let mut k: usize = 0;
        while k < self.apps.len()
            invariant
                k <= self.apps.len(),
                self.apps@ == old(self).apps@,
                session_app_from(old(self).apps@, sid, 0) == session_app_from(old(self).apps@, sid, k as int),
            decreases self.apps.len() - k,
        {
            if self.apps[k].session_id == sid {
                self.foreground = k;
                self.apps[k].has_updates = false;
                return;
            }
            k += 1;
        }
        let r = AppRecord::new(sid, title);
        self.apps.push(r);
        self.foreground = self.apps.len() - 1;
        assert(self.apps@.take(old(self).apps@.len() as int) =~= old(self).apps@);
    }

    /// Saves the conversation `data` into app `i` (before it leaves the
    /// foreground).
    pub fn snapshot_into(&mut self, i: usize, data: &ChatData)
        ensures
            final(self).foreground == old(self).foreground,
            final(self).apps@.len() == old(self).apps@.len(),
            forall|j: int|
                0 <= j < old(self).apps@.len() && j != i ==> #[trigger] final(self).apps@[j] == old(self).apps@[j],
            i < old(self).apps@.len() ==> snapshotted(old(self).apps@[i as int], final(self).apps@[i as int], *data),
    {
        if i < self.apps.len() {
            self.apps[i].saved_messages = copy_messages(&data.messages);
            self.apps[i].saved_a2app = data.a2app_state.clone();
        }
    }

    /// Restores app `i`'s saved conversation into `data` (once it is in the
    /// foreground).
    pub fn restore_from(&self, i: usize, data: &mut ChatData)
        ensures
            i < self.apps@.len() ==> restored(*old(data), self.apps@[i as int], *final(data)),
            i >= self.apps@.len() ==> *final(data) == *old(data),
    {
        if i < self.apps.len() {
            data.messages = copy_messages(&self.apps[i].saved_messages);
            data.a2app_state = self.apps[i].saved_a2app.clone();
            data.streaming_text = String::new();
            data.authoritative_text = String::new();
            data.thinking_text = String::new();
            data.is_streaming = false;
            data.save_to_disk();
        }
    }

    /// Switches the foreground to app `i`: the app left keeps a snapshot of
    /// the conversation, app `i`'s own is restored, its badge is cleared.
    pub fn switch_to_app(&mut self, i: usize, data: &mut ChatData)
        ensures
            switched(*old(self), *old(data), i as int, *final(self), *final(data)),
    {
        if i >= self.apps.len() {
            return;
        }
        if i == self.foreground {
            self.apps[i].has_updates = false;
            return;
        }
        let prev = self.foreground;
        self.snapshot_into(prev, data);
        self.foreground = i;
        self.apps[i].has_updates = false;
        self.restore_from(i, data);
    }

    /// Opens a new, empty app on session `sid`, titled by its position
    /// (`App <n>`), and brings it forward over a wiped surface; the app left
    /// keeps a snapshot of the conversation.
    pub fn open_new_app(&mut self, sid: u64, data: &mut ChatData)
        requires
            old(self).apps@.len() + 1 < usize::MAX,
        ensures
            final(self).apps@.len() == old(self).apps@.len() + 1,
            forall|j: int|
                0 <= j < old(self).apps@.len() && j != old(self).foreground ==> #[trigger] final(self).apps@[j] == old(self).apps@[j],
            old(self).foreground < old(self).apps@.len() ==> snapshotted(
                old(self).apps@[old(self).foreground as int],
                final(self).apps@[old(self).foreground as int],
                *old(data),
            ),
            is_fresh_record(
                final(self).apps@[old(self).apps@.len() as int],
                sid,
                "App "@ + decimal((old(self).apps@.len() + 1) as nat),
            ),
            final(self).foreground == old(self).apps@.len(),
            wiped(*old(data), *final(data)),
    {
        if self.apps.len() > 0 {
            let prev = self.foreground;
            self.snapshot_into(prev, data);
        }
        let n = self.apps.len() + 1;
        let mut t: Vec<char> = Vec::new();
        push_str(&mut t, "App ");
        let digits = decimal_vec(n as u64);
        push_all(&mut t, &digits);
        let r = AppRecord::new(sid, string_of(&t));
        self.apps.push(r);
        self.foreground = self.apps.len() - 1;
        data.wipe_surface();
    }
}

/// The domain apps every fresh chat opens with, in tab order: (title, domain).
pub open spec fn roster(k: int) -> (Seq<char>, Seq<char>) {
    if k == 0 {
        ("Weather"@, "weather"@)
    } else if k == 1 {
        ("Stock"@, "stock"@)
    } else if k == 2 {
        ("News"@, "news"@)
    } else if k == 3 {
        ("Web"@, "web"@)
    } else if k == 4 {
        ("YouTube"@, "youtube"@)
    } else {
        ("Nav"@, "nav"@)
    }
}

fn roster_record(session_id: u64, title: &str, domain: &str) -> (r: AppRecord)
    ensures
        is_domain_record(r, session_id, title@, domain@),
{
    let t = chars_of(title);
    AppRecord::with_domain(session_id, string_of(&t), domain)
}

impl AppDeck {
    /// The deck of a fresh chat: one app per domain (weather, stock, news,
    /// web, youtube, nav, on the sessions given), the first in front.
    pub fn domain_deck(sessions: [u64; 6]) -> (d: Self)
        ensures
            d.apps@.len() == 6,
            d.foreground == 0,
            forall|k: int|
                0 <= k < 6 ==> is_domain_record(#[trigger] d.apps@[k], sessions@[k], roster(k).0, roster(k).1),
    {
        let mut apps: Vec<AppRecord> = Vec::new();
        apps.push(roster_record(sessions[0], "Weather", "weather"));
        apps.push(roster_record(sessions[1], "Stock", "stock"));
        apps.push(roster_record(sessions[2], "News", "news"));
        apps.push(roster_record(sessions[3], "Web", "web"));
        apps.push(roster_record(sessions[4], "YouTube", "youtube"));
        apps.push(roster_record(sessions[5], "Nav", "nav"));
        AppDeck { apps, foreground: 0 }
    }
}

/// Law: switching to another app and back gives the first app its
/// conversation again: the same messages and the same card states, and it is
/// in the foreground once more.
pub proof fn lemma_switch_back_restores(
    d0: AppDeck,
    c0: ChatData,
    i: int,
    d1: AppDeck,
    c1: ChatData,
    d2: AppDeck,
    c2: ChatData,
)
    requires
        d0.foreground < d0.apps@.len(),
        0 <= i < d0.apps@.len(),
        i != d0.foreground,
        switched(d0, c0, i, d1, c1),
        switched(d1, c1, d0.foreground as int, d2, c2),
    ensures
        c2.messages@ == c0.messages@,
        c2.a2app_state@ == c0.a2app_state@,
        d2.foreground == d0.foreground,
        d2.apps@.len() == d0.apps@.len(),
{
}

// ---------------------------------------------------------------------------
// Turns in flight and the events they produce
// ---------------------------------------------------------------------------

/// The turns besides the apps' own: the router's (which classifies a
/// request before any app sees it), a router turn cancelled whose events may
/// still arrive, and a development harness turn; plus the router's reply so
/// far, the request it holds, and the harness's reply so far.
pub struct TurnSlots {
    pub ama_prompt: Option<u64>,
    pub cancelled_ama: Option<u64>,
    pub dev_prompt: Option<u64>,
    pub ama_text: String,
    pub pending_intent: Option<String>,
    pub dev_text: String,
}

/// What the agent reports about a turn.
#[derive(Clone, Copy, Debug, PartialEq, Eq, Structural)]
pub enum TurnEvent {
    TextDelta,
    TextAuthoritative,
    ThinkingDelta,
    TurnComplete,
    PromptError,
}

/// Whose turn an event belongs to, which decides where it goes: the
/// harness, nowhere (a cancelled router turn), the router, a background app
/// (badged, never shown), or the foreground conversation.
#[derive(Clone, Copy, Debug, PartialEq, Eq, Structural)]
pub enum EventOwner {
    Dev,
    Stale,
    Router,
    Background(usize),
    Foreground,
}

/// The owner of an event of kind `ev` for prompt `pid`. Each kind checks
/// the special turns it cares about, in this order, before the apps.
pub open spec fn event_owner(apps: Seq<AppRecord>, fg: int, slots: TurnSlots, ev: TurnEvent, pid: u64) -> EventOwner {
    let dev = slots.dev_prompt == Some(pid);
    let stale = slots.cancelled_ama == Some(pid);
    let router = slots.ama_prompt == Some(pid);
    let app = match prompt_owner(apps, pid) {
        Some(i) => if i != fg {
            EventOwner::Background(i as usize)
        } else {
            EventOwner::Foreground
        },
        None => EventOwner::Foreground,
    };
    match ev {
        TurnEvent::TextDelta | TurnEvent::TurnComplete => if dev {
            EventOwner::Dev
        } else if stale {
            EventOwner::Stale
        } else if router {
            EventOwner::Router
        } else {
            app
        },
        TurnEvent::TextAuthoritative => if stale {
            EventOwner::Stale
        } else if router {
            EventOwner::Router
        } else {
            app
        },
        TurnEvent::ThinkingDelta | TurnEvent::PromptError => if router {
            EventOwner::Router
        } else {
            app
        },
    }
}

/// A background app's record after an event of kind `ev`: output badges it,
/// and the end of its turn (completed or failed) clears its prompt.
pub open spec fn badged(ev: TurnEvent, r: AppRecord) -> AppRecord {
    match ev {
        TurnEvent::TextAuthoritative => r,
        TurnEvent::TextDelta | TurnEvent::ThinkingDelta => AppRecord { has_updates: true, ..r },
        TurnEvent::TurnComplete | TurnEvent::PromptError => AppRecord {
            has_updates: true,
            current_prompt: None,
            ..r
        },
    }
}

/// The special turns after an event: a finished harness, cancelled or
/// router turn is forgotten; a failed router turn too.
pub open spec fn slots_after(s: TurnSlots, ev: TurnEvent, o: EventOwner) -> TurnSlots {
    match (ev, o) {
        (TurnEvent::TurnComplete, EventOwner::Dev) => TurnSlots { dev_prompt: None, ..s },
        (TurnEvent::TurnComplete, EventOwner::Stale) => TurnSlots { cancelled_ama: None, ..s },
        (TurnEvent::TurnComplete, EventOwner::Router) => TurnSlots { ama_prompt: None, ..s },
        (TurnEvent::PromptError, EventOwner::Router) => TurnSlots { ama_prompt: None, ..s },
        _ => s,
    }
}

fn appended(s: &String, t: &str) -> (r: String)
    ensures
        r@ == s@ + t@,
{
    let mut v = chars_of(s.as_str());
    push_str(&mut v, t);
    string_of(&v)
}

impl AppDeck {
    /// Decides where an event for prompt `pid` (carrying `text`, empty for
    /// events without any) goes and does the
    /// bookkeeping that goes with it (badges, finished prompts).
    pub fn route_event(&mut self, slots: &mut TurnSlots, ev: TurnEvent, pid: u64, text: &str) -> (r: EventOwner)
        ensures
            r == event_owner(old(self).apps@, old(self).foreground as int, *old(slots), ev, pid),
            final(self).foreground == old(self).foreground,
            final(self).apps@ == (match r {
                EventOwner::Background(i) => old(self).apps@.update(i as int, badged(ev, old(self).apps@[i as int])),
                _ => old(self).apps@,
            }),
            *final(slots) == (TurnSlots {
                ama_text: final(slots).ama_text,
                dev_text: final(slots).dev_text,
                ..slots_after(*old(slots), ev, r)
            }),
            // The router's and the harness's streamed text is collected.
            final(slots).ama_text@ == (if ev == TurnEvent::TextDelta && r == EventOwner::Router {
                old(slots).ama_text@ + text@
            } else {
                old(slots).ama_text@
            }),
            final(slots).dev_text@ == (if ev == TurnEvent::TextDelta && r == EventOwner::Dev {
                old(slots).dev_text@ + text@
            } else {
                old(slots).dev_text@
            }),
            // Neither a background app's turn nor the router's ever reaches
            // the shared conversation.
            r == EventOwner::Foreground ==> !(prompt_owner(old(self).apps@, pid) matches Some(i) && i
                != old(self).foreground),
            old(slots).ama_prompt == Some(pid) ==> r != EventOwner::Foreground,
    {
        let dev = slots.dev_prompt == Some(pid);
        let stale = slots.cancelled_ama == Some(pid);
        let router = slots.ama_prompt == Some(pid);
        let app = match self.app_of_prompt(pid) {
            Some(i) => if i != self.foreground {
                EventOwner::Background(i)
            } else {
                EventOwner::Foreground
            },
            None => EventOwner::Foreground,
        };
        let r = match ev {
            TurnEvent::TextDelta | TurnEvent::TurnComplete => if dev {
                EventOwner::Dev
            } else if stale {
                EventOwner::Stale
            } else if router {
                EventOwner::Router
            } else {
                app
            },
            TurnEvent::TextAuthoritative => if stale {
                EventOwner::Stale
            } else if router {
                EventOwner::Router
            } else {
                app
            },
            TurnEvent::ThinkingDelta | TurnEvent::PromptError => if router {
                EventOwner::Router
            } else {
                app
            },
        };
        match r {
            EventOwner::Background(i) => {
                match ev {
                    TurnEvent::TextAuthoritative => {},
                    TurnEvent::TextDelta | TurnEvent::ThinkingDelta => {
                        self.apps[i].has_updates = true;
                    },
                    TurnEvent::TurnComplete | TurnEvent::PromptError => {
                        self.apps[i].has_updates = true;
                        self.apps[i].current_prompt = None;
                    },
                }
            },
            EventOwner::Dev => {
                if ev == TurnEvent::TurnComplete {
                    slots.dev_prompt = None;
                } else if ev == TurnEvent::TextDelta {
                    slots.dev_text = appended(&slots.dev_text, text);
                }
            },
            EventOwner::Stale => {
                if ev == TurnEvent::TurnComplete {
                    slots.cancelled_ama = None;
                }
            },
            EventOwner::Router => {
                if ev == TurnEvent::TurnComplete || ev == TurnEvent::PromptError {
                    slots.ama_prompt = None;
                } else if ev == TurnEvent::TextDelta {
                    slots.ama_text = appended(&slots.ama_text, text);
                }
            },
            EventOwner::Foreground => {},
        }
        r
    }
}

// ---------------------------------------------------------------------------
// Routing a request to its app
// ---------------------------------------------------------------------------

/// Every character of `s` is an ASCII letter, digit or `-`.
pub open spec fn is_plain_id(s: Seq<char>) -> bool {
    forall|k: int| 0 <= k < s.len() ==> is_ascii_alnum(#[trigger] s[k]) || s[k] == '-'
}

/// What the router's reply asks for: `(true, id)` to compose the app `id`,
/// `(false, id)` to route to `id`. A compose line without an id routes to
/// `none`; a plain id no open app serves (other than `none`) is composed on
/// demand, so an app declared in the tree gets its agent.
pub open spec fn ama_route_spec(apps: Seq<AppRecord>, decision: Seq<char>) -> (bool, Seq<char>) {
    let (compose, id) = ama_decision_spec(trim(decision));
    if compose {
        if id.len() == 0 {
            (false, "none"@)
        } else {
            (true, id)
        }
    } else if domain_app(apps, id) is None && id != "none"@ && id.len() > 0 && is_plain_id(id) {
        (true, id)
    } else {
        (false, id)
    }
}

/// The router's verdict on a request.
#[derive(Debug, PartialEq, Eq)]
pub enum AmaRoute {
    /// Open a new app with this id (its spec was just written).
    Compose(String),
    /// Hand the request to the app serving this domain (`none`: no app).
    Route(String),
}

/// How a compose request is met.
#[derive(Clone, Copy, Debug, PartialEq, Eq, Structural)]
pub enum ComposeStep {
    /// An app already serves the id: route to it.
    Activate,
    /// No spec exists for the id: the request goes to the weather app.
    FallBack,
    /// Open a new agent session for the id, then route to it.
    CreatePeer,
}

pub open spec fn compose_step_spec(apps: Seq<AppRecord>, app_id: Seq<char>, spec_exists: bool) -> ComposeStep {
    if domain_app(apps, app_id) is Some {
        ComposeStep::Activate
    } else if spec_exists {
        ComposeStep::CreatePeer
    } else {
        ComposeStep::FallBack
    }
}

fn is_plain_id_vec(v: &Vec<char>) -> (r: bool)
    ensures
        r == is_plain_id(v@),
{
    let mut k: usize = 0;
    while k < v.len()
        invariant
            k <= v.len(),
            forall|j: int| 0 <= j < k ==> is_ascii_alnum(#[trigger] v@[j]) || v@[j] == '-',
        decreases v.len() - k,
    {
        let c = v[k];
        let ok = ('a' <= c && c <= 'z') || ('A' <= c && c <= 'Z') || ('0' <= c && c <= '9') || c == '-';
        if !ok {
            return false;
        }
        k += 1;
    }
    true
}

/// What activating the app for `domain` with the held request `held` does
/// (`AppDeck::activate_domain`).
pub open spec fn activated(
    d: AppDeck,
    held: Option<String>,
    domain: Seq<char>,
    c: ChatData,
    r: Option<(usize, String)>,
    d2: AppDeck,
    c2: ChatData,
) -> bool {
    match held {
        None => r is None && d2.apps@ == d.apps@ && d2.foreground == d.foreground && c2 == c,
        Some(intent) => match domain_app(d.apps@, domain) {
            None => {
                &&& r is None
                &&& d2.apps@ == d.apps@
                &&& d2.foreground == d.foreground
                &&& c2 == ChatData { is_streaming: false, ..c }
            },
            Some(i) => {
                &&& r == Some((i as usize, intent))
                &&& d2.foreground == i
                &&& d2.apps@ == d.apps@.update(i, AppRecord { last_request: Some(intent), ..d.apps@[i] })
                &&& c2 == c
            },
        },
    }
}

impl AppDeck {
    /// Reads the router's reply (`<app-id> — <reason>`, `compose <id> —
    /// <reason>` or `none`) into what to do with the held request.
    pub fn ama_route(&self, decision: &str) -> (r: AmaRoute)
        ensures
            match r {
                AmaRoute::Compose(id) => ama_route_spec(self.apps@, decision@) == (true, id@),
                AmaRoute::Route(id) => ama_route_spec(self.apps@, decision@) == (false, id@),
            },
    {
        let t = chars_of(decision);
        let tt = trim_vec(&t);
        let (compose, id) = parse_ama_decision(string_of(&tt).as_str());
        let idc = chars_of(id.as_str());
        if compose {
            if idc.len() == 0 {
                let none = chars_of("none");
                return AmaRoute::Route(string_of(&none));
            }
            return AmaRoute::Compose(id);
        }
        let none = chars_of("none");
        if self.app_for_domain(id.as_str()).is_none() && !vec_eq(&idc, &none) && idc.len() > 0
            && is_plain_id_vec(&idc) {
            AmaRoute::Compose(id)
        } else {
            AmaRoute::Route(id)
        }
    }

    /// How a compose request for `app_id` is met, given whether its spec
    /// exists in the tree.
    pub fn compose_step(&self, app_id: &str, spec_exists: bool) -> (r: ComposeStep)
        ensures
            r == compose_step_spec(self.apps@, app_id@, spec_exists),
    {
        if self.app_for_domain(app_id).is_some() {
            ComposeStep::Activate
        } else if spec_exists {
            ComposeStep::CreatePeer
        } else {
            ComposeStep::FallBack
        }
    }

    /// Adds the app composed for `app_id` on its new session `sid`, titled
    /// from the id (`weather-activity` → `Weather Activity`).
    pub fn add_composed_app(&mut self, sid: u64, app_id: &str)
        ensures
            final(self).foreground == old(self).foreground,
            final(self).apps@.len() == old(self).apps@.len() + 1,
            final(self).apps@.take(old(self).apps@.len() as int) == old(self).apps@,
            is_domain_record(final(self).apps@.last(), sid, app_title_spec(app_id@), app_id@),
    {
        let title = app_title(app_id);
        let r = AppRecord::with_domain(sid, title, app_id);
        self.apps.push(r);
        assert(self.apps@.take(old(self).apps@.len() as int) =~= old(self).apps@);
    }

    /// Hands the held request to the app serving `domain`: that app comes to
    /// the foreground and remembers the request, which is returned with the
    /// app's position. With no app for the domain the request is dropped and
    /// the conversation stops streaming; with no request held nothing
    /// happens.
    pub fn activate_domain(&mut self, slots: &mut TurnSlots, domain: &str, data: &mut ChatData) -> (r: Option<(usize, String)>)
        ensures
            *final(slots) == (TurnSlots { pending_intent: None, ..*old(slots) }),
            activated(*old(self), old(slots).pending_intent, domain@, *old(data), r, *final(self), *final(data)),
    {
        let intent = match slots.pending_intent.take() {
            Some(t) => t,
            None => return None,
        };
        match self.app_for_domain(domain) {
            None => {
                data.is_streaming = false;
                None
            },
            Some(i) => {
                proof {
                    lemma_domain_app_from(self.apps@, domain@, 0);
                }
                self.apps[i].last_request = Some(intent.clone());
                self.foreground = i;
                Some((i, intent))
            },
        }
    }

    /// Records the generation turn `pid` just sent to app `i`; the new
    /// request gets fresh repair budgets.
    pub fn start_turn(&mut self, i: usize, pid: u64)
        ensures
            final(self).foreground == old(self).foreground,
            final(self).apps@ == (if i < old(self).apps@.len() {
                old(self).apps@.update(
                    i as int,
                    AppRecord {
                        current_prompt: Some(pid),
                        repair_attempted: false,
                        l0_repair_attempts: 0,
                        ..old(self).apps@[i as int]
                    },
                )
            } else {
                old(self).apps@
            }),
    {
        if i < self.apps.len() {
            self.apps[i].current_prompt = Some(pid);
            self.apps[i].repair_attempted = false;
            self.apps[i].l0_repair_attempts = 0;
        }
    }
}

// ---------------------------------------------------------------------------
// Submitting and cancelling
// ---------------------------------------------------------------------------

impl TurnSlots {
    /// Nothing in flight, nothing held.
    pub fn new() -> (s: Self)
        ensures
            s.ama_prompt is None,
            s.cancelled_ama is None,
            s.dev_prompt is None,
            s.ama_text@.len() == 0,
            s.pending_intent is None,
            s.dev_text@.len() == 0,
    {
        TurnSlots {
            ama_prompt: None,
            cancelled_ama: None,
            dev_prompt: None,
            ama_text: String::new(),
            pending_intent: None,
            dev_text: String::new(),
        }
    }

    /// A harness round finished: its reply is taken (leaving none) and read
    /// for the card and the `DONE` flag (`dev_round_result`).
    pub fn finish_dev_round(&mut self) -> (r: (String, bool))
        ensures
            (r.0@, r.1) == dev_round_spec(old(self).dev_text@),
            final(self).dev_text@.len() == 0,
            *final(self) == (TurnSlots { dev_text: final(self).dev_text, ..*old(self) }),
    {
        let r = dev_round_result(self.dev_text.as_str());
        self.dev_text = String::new();
        r
    }

    /// Holds `request` while the router's turn `pid` classifies it.
    pub fn start_routing(&mut self, pid: u64, request: String)
        ensures
            final(self).ama_prompt == Some(pid),
            final(self).ama_text@.len() == 0,
            final(self).pending_intent == Some(request),
            final(self).cancelled_ama == old(self).cancelled_ama,
            final(self).dev_prompt == old(self).dev_prompt,
            final(self).dev_text == old(self).dev_text,
    {
        self.ama_prompt = Some(pid);
        self.ama_text = String::new();
        self.pending_intent = Some(request);
    }
}

/// What a cancel stopped.
#[derive(Clone, Copy, Debug, PartialEq, Eq, Structural)]
pub enum Cancelled {
    /// The router's turn: its late events are dropped, the request released.
    Routing(u64),
    /// The foreground app's turn: what streamed so far stays as a message.
    Turn(u64),
    Nothing,
}

/// What cancelling does (`AppDeck::cancel_request`). A router turn in flight
/// is cancelled first: it is remembered as cancelled, its reply and the held
/// request are dropped and the surface stops streaming. Otherwise the
/// foreground app's turn is taken: the text streamed so far becomes an
/// assistant message (when there is any) and the surface stops streaming.
pub open spec fn cancel_post(
    d: AppDeck,
    s: TurnSlots,
    c: ChatData,
    r: Cancelled,
    d2: AppDeck,
    s2: TurnSlots,
    c2: ChatData,
) -> bool {
    match s.ama_prompt {
        Some(p) => {
            &&& r == Cancelled::Routing(p)
            &&& d2.apps@ == d.apps@ && d2.foreground == d.foreground
            &&& s2.ama_prompt is None && s2.cancelled_ama == Some(p) && s2.dev_prompt == s.dev_prompt
            &&& s2.ama_text@.len() == 0 && s2.pending_intent is None && s2.dev_text == s.dev_text
            &&& c2.messages == c.messages && c2.a2app_state == c.a2app_state
            &&& c2.saved_stream_cards == c.saved_stream_cards
            &&& c2.streaming_text@.len() == 0 && c2.authoritative_text@.len() == 0
            &&& c2.thinking_text@.len() == 0 && !c2.is_streaming
        },
        None => {
            &&& s2 == s
            &&& d2.foreground == d.foreground
            &&& match d.fg() {
                Some(i) => d2.apps@ == d.apps@.update(i, AppRecord { current_prompt: None, ..d.apps@[i] }),
                None => d2.apps@ == d.apps@,
            }
            &&& match (if d.foreground < d.apps@.len() { d.apps@[d.foreground as int].current_prompt } else { None }) {
                Some(p) => {
                    &&& r == Cancelled::Turn(p)
                    &&& c2.messages@ == (if c.streaming_text@.len() > 0 {
                        c.messages@.push(ChatMessage { role: ChatRole::Assistant, text: c.streaming_text })
                    } else {
                        c.messages@
                    })
                    &&& c2.streaming_text@.len() == 0 && c2.thinking_text@.len() == 0 && !c2.is_streaming
                    &&& c2.authoritative_text == c.authoritative_text && c2.a2app_state == c.a2app_state
                    &&& c2.saved_stream_cards == c.saved_stream_cards
                },
                None => r == Cancelled::Nothing && c2 == c,
            }
        },
    }
}

impl AppDeck {
    /// Cancels what is in flight: the router's turn if there is one, else the
    /// foreground app's. The caller tells the agent to stop the returned
    /// prompt.
    pub fn cancel_request(&mut self, slots: &mut TurnSlots, data: &mut ChatData) -> (r: Cancelled)
        ensures
            cancel_post(*old(self), *old(slots), *old(data), r, *final(self), *final(slots), *final(data)),
    {
        match slots.ama_prompt {
            Some(p) => {
                slots.ama_prompt = None;
                slots.cancelled_ama = Some(p);
                slots.ama_text = String::new();
                slots.pending_intent = None;
                data.streaming_text = String::new();
                data.authoritative_text = String::new();
                data.thinking_text = String::new();
                data.is_streaming = false;
                return Cancelled::Routing(p);
            },
            None => {},
        }
        match self.fg_prompt_take() {
            Some(p) => {
                let text = data.streaming_text.clone();
                data.streaming_text = String::new();
                data.thinking_text = String::new();
                let tc = chars_of(text.as_str());
                if tc.len() > 0 {
                    data.messages.push(ChatMessage { role: ChatRole::Assistant, text });
                }
                data.is_streaming = false;
                Cancelled::Turn(p)
            },
            None => Cancelled::Nothing,
        }
    }
}

impl AppDeck {
    /// The foreground turn failed: the error joins the conversation as an
    /// assistant message (`Error: <error>`), the surface stops streaming and
    /// thinking, and the foreground app's turn is over.
    pub fn fail_turn(&mut self, data: &mut ChatData, error: &str)
        ensures
            final(self).foreground == old(self).foreground,
            final(self).apps@ == (match old(self).fg() {
                Some(i) => old(self).apps@.update(i, AppRecord { current_prompt: None, ..old(self).apps@[i] }),
                None => old(self).apps@,
            }),
            final(data).messages@.len() == old(data).messages@.len() + 1,
            final(data).messages@.drop_last() == old(data).messages@,
            final(data).messages@.last().role == ChatRole::Assistant,
            final(data).messages@.last().text@ == "Error: "@ + error@,
            !final(data).is_streaming,
            final(data).thinking_text@.len() == 0,
            final(data).streaming_text == old(data).streaming_text,
            final(data).authoritative_text == old(data).authoritative_text,
            final(data).a2app_state == old(data).a2app_state,
            final(data).saved_stream_cards == old(data).saved_stream_cards,
    {
        let mut t: Vec<char> = Vec::new();
        push_str(&mut t, "Error: ");
        push_str(&mut t, error);
        data.messages.push(ChatMessage { role: ChatRole::Assistant, text: string_of(&t) });
        data.is_streaming = false;
        data.thinking_text = String::new();
        data.save_to_disk();
        self.set_fg_prompt(None);
        assert(data.messages@.drop_last() =~= old(data).messages@);
    }
}

// ---------------------------------------------------------------------------
// Resuming sessions and cycling apps
// ---------------------------------------------------------------------------

/// The chat messages of a session's history rows `(role, content)`:
/// `user` and `assistant` rows in order; tool and system rows are not chat.
pub open spec fn history_messages(rows: Seq<(Seq<char>, Seq<char>)>) -> Seq<(ChatRole, Seq<char>)>
    decreases rows.len(),
{
    if rows.len() == 0 {
        seq![]
    } else {
        let rest = history_messages(rows.drop_last());
        let (role, content) = rows.last();
        if role == "user"@ {
            rest.push((ChatRole::User, content))
        } else if role == "assistant"@ {
            rest.push((ChatRole::Assistant, content))
        } else {
            rest
        }
    }
}

/// A conversation's messages as (role, text) pairs.
pub open spec fn message_pairs(ms: Seq<ChatMessage>) -> Seq<(ChatRole, Seq<char>)> {
    ms.map_values(|m: ChatMessage| (m.role, m.text@))
}

/// History rows as plain character sequences.
pub open spec fn row_views(rows: Seq<(String, String)>) -> Seq<(Seq<char>, Seq<char>)> {
    rows.map_values(|r: (String, String)| (r.0@, r.1@))
}

impl AppDeck {
    /// A session's history arrived: when that session is in the foreground,
    /// its user and assistant rows become the conversation, which stops
    /// streaming (`true`); otherwise nothing changes (`false`).
    pub fn hydrate_session(&self, sid: u64, rows: &Vec<(String, String)>, data: &mut ChatData) -> (r: bool)
        ensures
            r == (self.fg() matches Some(i) && self.apps@[i].session_id == sid),
            r ==> message_pairs(final(data).messages@) == history_messages(row_views(rows@)),
            r ==> *final(data) == (ChatData { messages: final(data).messages, is_streaming: false, ..*old(data) }),
            !r ==> *final(data) == *old(data),
    {
        if !(self.foreground < self.apps.len() && self.apps[self.foreground].session_id == sid) {
            return false;
        }
        let mut out: Vec<ChatMessage> = Vec::new();
        let mut k: usize = 0;
        while k < rows.len()
            invariant
                k <= rows.len(),
                message_pairs(out@) == history_messages(row_views(rows@).take(k as int)),
            decreases rows.len() - k,
        {
            let role = chars_of(rows[k].0.as_str());
            let ghost before = out@;
            proof {
                reveal_strlit("user");
                reveal_strlit("assistant");
                assert(row_views(rows@).take(k + 1).drop_last() =~= row_views(rows@).take(k as int));
            }
            if vec_eq(&role, &chars_of("user")) {
                out.push(ChatMessage { role: ChatRole::User, text: rows[k].1.clone() });
                assert(message_pairs(out@) =~= message_pairs(before).push((ChatRole::User, rows@[k as int].1@)));
            } else if vec_eq(&role, &chars_of("assistant")) {
                out.push(ChatMessage { role: ChatRole::Assistant, text: rows[k].1.clone() });
                assert(message_pairs(out@) =~= message_pairs(before).push((ChatRole::Assistant, rows@[k as int].1@)));
            }
            k += 1;
        }
        assert(row_views(rows@).take(rows.len() as int) =~= row_views(rows@));
        data.messages = out;
        data.is_streaming = false;
        true
    }

    /// A session picked from the list was resumed as `sid`: its app comes
    /// forward (opened as `Session` when it is not one yet) over a wiped
    /// surface, until its history arrives.
    pub fn resume_session(&mut self, sid: u64, data: &mut ChatData)
        requires
            old(self).apps@.len() < usize::MAX,
        ensures
            match session_app_from(old(self).apps@, sid, 0) {
                Some(i) => final(self).foreground == i && final(self).apps@ == old(self).apps@.update(
                    i,
                    AppRecord { has_updates: false, ..old(self).apps@[i] },
                ),
                None => {
                    &&& final(self).apps@.len() == old(self).apps@.len() + 1
                    &&& final(self).apps@.take(old(self).apps@.len() as int) == old(self).apps@
                    &&& is_fresh_record(final(self).apps@.last(), sid, "Session"@)
                    &&& final(self).foreground == old(self).apps@.len()
                },
            },
            wiped(*old(data), *final(data)),
    {
        let t = chars_of("Session");
        self.focus_session(sid, string_of(&t));
        data.wipe_surface();
    }

    /// The app after the foreground one, round the deck (when there are at
    /// least two).
    pub fn next_app(&self) -> (r: Option<usize>)
        ensures
            r == (if self.apps@.len() > 1 {
                Some(((self.foreground + 1) % (self.apps@.len() as int)) as usize)
            } else {
                None
            }),
    {
        let n = self.apps.len();
        if n > 1 {
            let f = self.foreground % n;
            proof {
                lemma_add_mod_noop(self.foreground as int, 1, n as int);
                lemma_small_mod(1, n as nat);
                lemma_mod_bound(self.foreground as int, n as int);
            }
            let nx = if f + 1 == n {
                0
            } else {
                f + 1
            };
            proof {
                if f + 1 == n {
                    lemma_mod_self_0(n as int);
                } else {
                    lemma_small_mod((f + 1) as nat, n as nat);
                }
            }
            Some(nx)
        } else {
            None
        }
    }
}

// ---------------------------------------------------------------------------
// Finishing a turn, and repair turns
// ---------------------------------------------------------------------------

/// Repair turns one request may spend on L0 refusals (a refused card is a blank
/// screen, and one retry is not always enough). Lint and security repairs
/// keep a single turn each request.
pub const L0_REPAIR_BUDGET: u8 = 3;

/// Which budget a repair turn draws from.
#[derive(Clone, Copy, Debug, PartialEq, Eq, Structural)]
pub enum RepairKind {
    /// The lint or security repair: one per request.
    OneShot,
    /// A repair for a card the L0 language refused: up to `L0_REPAIR_BUDGET`.
    Refusal,
}

/// App `i`'s record once the repair turn `pid` of kind `kind` is sent.
pub open spec fn repairing(kind: RepairKind, pid: u64, r: AppRecord) -> AppRecord {
    match kind {
        RepairKind::OneShot => AppRecord { current_prompt: Some(pid), repair_attempted: true, ..r },
        RepairKind::Refusal => AppRecord {
            current_prompt: Some(pid),
            l0_repair_attempts: if r.l0_repair_attempts == u8::MAX {
                u8::MAX
            } else {
                (r.l0_repair_attempts + 1) as u8
            },
            ..r
        },
    }
}

/// The apps with the foreground app's turn set to `p`.
pub open spec fn with_fg_prompt(apps: Seq<AppRecord>, fg: int, p: Option<u64>) -> Seq<AppRecord> {
    if 0 <= fg < apps.len() {
        apps.update(fg, AppRecord { current_prompt: p, ..apps[fg] })
    } else {
        apps
    }
}

/// Whether a repair turn of kind `kind` may still be sent to `r`.
pub open spec fn repair_allowed(r: AppRecord, kind: RepairKind) -> bool {
    match kind {
        RepairKind::OneShot => !r.repair_attempted,
        RepairKind::Refusal => r.l0_repair_attempts < L0_REPAIR_BUDGET,
    }
}

/// How many repair turns of kind `kind` are sent to `r` over the attempts
/// `steps`, each sent only while its budget allows (`may_repair`) and then
/// drawing it down (`start_repair`).
pub open spec fn repairs_sent(r: AppRecord, steps: Seq<(RepairKind, u64)>, kind: RepairKind) -> nat
    decreases steps.len(),
{
    if steps.len() == 0 {
        0
    } else {
        let (k, pid) = steps[0];
        let ok = repair_allowed(r, k);
        let r2 = if ok {
            repairing(k, pid, r)
        } else {
            r
        };
        (if ok && k == kind {
            1nat
        } else {
            0nat
        }) + repairs_sent(r2, steps.skip(1), kind)
    }
}

/// `r` after the repair attempts `steps`.
pub open spec fn after_repairs(r: AppRecord, steps: Seq<(RepairKind, u64)>) -> AppRecord
    decreases steps.len(),
{
    if steps.len() == 0 {
        r
    } else {
        let (k, pid) = steps[0];
        let r2 = if repair_allowed(r, k) {
            repairing(k, pid, r)
        } else {
            r
        };
        after_repairs(r2, steps.skip(1))
    }
}

proof fn lemma_repairs_bounded(r: AppRecord, steps: Seq<(RepairKind, u64)>)
    requires
        r.l0_repair_attempts <= L0_REPAIR_BUDGET,
    ensures
        repairs_sent(r, steps, RepairKind::OneShot) <= (if r.repair_attempted {
            0int
        } else {
            1int
        }),
        repairs_sent(r, steps, RepairKind::Refusal) <= L0_REPAIR_BUDGET - r.l0_repair_attempts,
        after_repairs(r, steps).l0_repair_attempts <= L0_REPAIR_BUDGET,
        r.repair_attempted ==> after_repairs(r, steps).repair_attempted,
    decreases steps.len(),
{
    if steps.len() > 0 {
        let (k, pid) = steps[0];
        let ok = repair_allowed(r, k);
        let r2 = if ok {
            repairing(k, pid, r)
        } else {
            r
        };
        lemma_repairs_bounded(r2, steps.skip(1));
    }
}

/// Law: each routed request gets at most one lint or security repair turn
/// and at most `L0_REPAIR_BUDGET` repair turns for L0 refusals, however the
/// repair attempts come: once `start_turn` has given the app fresh budgets,
/// repairs sent only while `may_repair` allows (and recorded by
/// `start_repair`) never exceed them, and the refusal count never passes
/// the budget.
pub proof fn lemma_repair_budget(d: AppDeck, i: int, pid: u64, steps: Seq<(RepairKind, u64)>)
    requires
        0 <= i < d.apps@.len(),
    ensures
        ({
            let fresh = AppRecord {
                current_prompt: Some(pid),
                repair_attempted: false,
                l0_repair_attempts: 0,
                ..d.apps@[i]
            };
            &&& repairs_sent(fresh, steps, RepairKind::OneShot) <= 1
            &&& repairs_sent(fresh, steps, RepairKind::Refusal) <= L0_REPAIR_BUDGET
            &&& after_repairs(fresh, steps).l0_repair_attempts <= L0_REPAIR_BUDGET
        }),
{
    let fresh = AppRecord {
        current_prompt: Some(pid),
        repair_attempted: false,
        l0_repair_attempts: 0,
        ..d.apps@[i]
    };
    lemma_repairs_bounded(fresh, steps);
}

impl AppDeck {
    /// Whether app `i` may still be sent a repair turn of kind `kind` for
    /// its current request.
    pub fn may_repair(&self, i: usize, kind: RepairKind) -> (r: bool)
        ensures
            r == (i < self.apps@.len() && match kind {
                RepairKind::OneShot => !self.apps@[i as int].repair_attempted,
                RepairKind::Refusal => self.apps@[i as int].l0_repair_attempts < L0_REPAIR_BUDGET,
            }),
    {
        if i >= self.apps.len() {
            return false;
        }
        match kind {
            RepairKind::OneShot => !self.apps[i].repair_attempted,
            RepairKind::Refusal => self.apps[i].l0_repair_attempts < L0_REPAIR_BUDGET,
        }
    }

    /// The foreground turn completed: the text to keep (already made safe to
    /// store) joins the conversation as an assistant message, the surface
    /// stops streaming, and the foreground app's turn is over.
    pub fn end_turn(&mut self, data: &mut ChatData, stored: Option<String>)
        ensures
            final(self).foreground == old(self).foreground,
            final(self).apps@ == with_fg_prompt(old(self).apps@, old(self).foreground as int, None),
            final(data).messages@ == (match stored {
                Some(t) => old(data).messages@.push(ChatMessage { role: ChatRole::Assistant, text: t }),
                None => old(data).messages@,
            }),
            !final(data).is_streaming,
            final(data).streaming_text == old(data).streaming_text,
            final(data).authoritative_text == old(data).authoritative_text,
            final(data).thinking_text == old(data).thinking_text,
            final(data).a2app_state == old(data).a2app_state,
            final(data).saved_stream_cards == old(data).saved_stream_cards,
    {
        match stored {
            Some(t) => data.messages.push(ChatMessage { role: ChatRole::Assistant, text: t }),
            None => {},
        }
        data.is_streaming = false;
        data.save_to_disk();
        self.set_fg_prompt(None);
    }

    /// Records the repair turn `pid` sent to app `i`: it is the app's (and
    /// the foreground's) turn in flight, the budget of `kind` is drawn down,
    /// and the surface streams again.
    pub fn start_repair(&mut self, i: usize, pid: u64, kind: RepairKind, data: &mut ChatData)
        ensures
            final(self).foreground == old(self).foreground,
            final(self).apps@ == with_fg_prompt(
                if i < old(self).apps@.len() {
                    old(self).apps@.update(i as int, repairing(kind, pid, old(self).apps@[i as int]))
                } else {
                    old(self).apps@
                },
                old(self).foreground as int,
                Some(pid),
            ),
            *final(data) == (ChatData { is_streaming: true, ..*old(data) }),
    {
        if i < self.apps.len() {
            self.apps[i].current_prompt = Some(pid);
            match kind {
                RepairKind::OneShot => {
                    self.apps[i].repair_attempted = true;
                },
                RepairKind::Refusal => {
                    let n = self.apps[i].l0_repair_attempts;
                    self.apps[i].l0_repair_attempts = if n == u8::MAX {
                        u8::MAX
                    } else {
                        n + 1
                    };
                },
            }
        }
        self.set_fg_prompt(Some(pid));
        data.is_streaming = true;
    }
}

// ---------------------------------------------------------------------------
// The development harness
// ---------------------------------------------------------------------------

/// `t` up to the first `p` (all of it when there is none).
pub open spec fn before_first(t: Seq<char>, p: Seq<char>) -> Seq<char> {
    match find(t, p) {
        Some(k) => t.take(k),
        None => t,
    }
}

/// What a finished harness round reports: the card between the first
/// `BEGIN_CARD` and the next `END_CARD` (or the next `BEGIN_CARD`),
/// trimmed, empty when there is no marker; and whether it says `DONE`.
pub open spec fn dev_round_spec(text: Seq<char>) -> (Seq<char>, bool) {
    let card = match find(text, "BEGIN_CARD"@) {
        None => seq![],
        Some(p) => {
            let piece = before_first(text.skip(p + "BEGIN_CARD"@.len()), "BEGIN_CARD"@);
            trim(before_first(piece, "END_CARD"@))
        },
    };
    (card, contains(text, "DONE"@))
}

fn before_first_vec(t: &Vec<char>, p: &str) -> (r: Vec<char>)
    ensures
        r@ == before_first(t@, p@),
{
    match find_str(t, p, 0) {
        Some(k) => {
            proof {
                lemma_find_from(t@, p@, 0);
            }
            let r = slice_vec(t, 0, k);
            assert(r@ =~= t@.take(k as int));
            r
        },
        None => slice_vec(t, 0, t.len()),
    }
}

/// The card and the `DONE` flag of a finished harness round.
pub fn dev_round_result(text: &str) -> (r: (String, bool))
    ensures
        (r.0@, r.1) == dev_round_spec(text@),
{
    let t = chars_of(text);
    let done = find_str(&t, "DONE", 0).is_some();
    let found = find_str(&t, "BEGIN_CARD", 0);
    let card = match found {
        None => Vec::new(),
        Some(p) => {
            proof {
                assert(find_from(t@, "BEGIN_CARD"@, 0) == Some(p as int));
                lemma_find_from(t@, "BEGIN_CARD"@, 0);
                reveal_strlit("BEGIN_CARD");
                assert("BEGIN_CARD"@.len() == 10);
                assert(p + "BEGIN_CARD"@.len() <= t@.len());
                assert(p + 10 <= t.len());
            }
            let rest = slice_vec(&t, p + 10, t.len());
            assert(rest@ =~= t@.skip(p + "BEGIN_CARD"@.len()));
            let piece = before_first_vec(&rest, "BEGIN_CARD");
            let inner = before_first_vec(&piece, "END_CARD");
            trim_vec(&inner)
        },
    };
    (string_of(&card), done)
}

// ---------------------------------------------------------------------------
// The repair after a finished turn
// ---------------------------------------------------------------------------

/// The request app `r` last answered, as text (empty when none is known).
pub open spec fn asked_of(r: AppRecord) -> Seq<char> {
    match r.last_request {
        Some(t) => t@,
        None => seq![],
    }
}

/// The repair turn a finished turn asks for, and which budget it draws on,
/// given the app `owner` whose turn it was, the turn's text, whether it
/// carries a card, the lint's repair prompt for that card (`None` when the
/// card meets its app's rules) and the L0 refusal reasons. The card's own
/// one-shot repair comes first: a forbidden card asks for the security
/// repair, else a card that fails its lint for the lint repair. Only when
/// neither is asked does an L0 refusal ask for its repair, while its budget
/// lasts. A turn no app owns asks for none.
pub open spec fn repair_choice_spec(
    apps: Seq<AppRecord>,
    owner: Option<usize>,
    text: Seq<char>,
    has_card: bool,
    lint: Option<Seq<char>>,
    why: Seq<Seq<char>>,
) -> Option<(Seq<char>, RepairKind)> {
    match owner {
        None => None,
        Some(i) => if i >= apps.len() {
            None
        } else {
            let r = apps[i as int];
            let one_shot = if has_card && !r.repair_attempted {
                match security_repair_spec(text, false) {
                    Some(p) => Some((p, RepairKind::OneShot)),
                    None => match lint {
                        Some(p) => Some((p, RepairKind::OneShot)),
                        None => None,
                    },
                }
            } else {
                None
            };
            match one_shot {
                Some(x) => Some(x),
                None => if r.l0_repair_attempts < L0_REPAIR_BUDGET && why.len() > 0 {
                    Some((l0_repair_spec(why, asked_of(r)), RepairKind::Refusal))
                } else {
                    None
                },
            }
        },
    }
}

pub open spec fn opt_repair_view(o: Option<(String, RepairKind)>) -> Option<(Seq<char>, RepairKind)> {
    match o {
        Some((p, k)) => Some((p@, k)),
        None => None,
    }
}

impl AppDeck {
    /// The repair turn to send after a finished turn (`repair_choice_spec`);
    /// the caller sends it to the owner and records it with `start_repair`.
    pub fn choose_repair(
        &self,
        owner: Option<usize>,
        text: &str,
        has_card: bool,
        lint: Option<String>,
        why: &Vec<String>,
    ) -> (r: Option<(String, RepairKind)>)
        ensures
            opt_repair_view(r) == repair_choice_spec(
                self.apps@,
                owner,
                text@,
                has_card,
                opt_seq_of(lint),
                string_views(why@),
            ),
    {
        let i = match owner {
            None => return None,
            Some(i) => i,
        };
        if i >= self.apps.len() {
            return None;
        }
        if has_card && !self.apps[i].repair_attempted {
            match security_repair(text, false) {
                Some(p) => return Some((p, RepairKind::OneShot)),
                None => match lint {
                    Some(p) => return Some((p, RepairKind::OneShot)),
                    None => {},
                },
            }
        }
        if self.apps[i].l0_repair_attempts < L0_REPAIR_BUDGET && why.len() > 0 {
            let asked = match &self.apps[i].last_request {
                Some(t) => string_of(&chars_of(t.as_str())),
                None => String::new(),
            };
            return Some((l0_repair_prompt(why, asked.as_str()), RepairKind::Refusal));
        }
        None
    }
}

pub open spec fn opt_seq_of(o: Option<String>) -> Option<Seq<char>> {
    match o {
        Some(s) => Some(s@),
        None => None,
    }
}

} // verus!
