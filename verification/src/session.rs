//! Session bookkeeping: the bounded history of logged actions, where the
//! session log files go, and when a new screen description is news.
//!
//! The events, the log file and the locks are left to the caller.

use vstd::prelude::*;
use std::collections::VecDeque;
use crate::text::{join_path, join_path_exec, push_str};

verus! {

/// How many actions a session keeps in memory.
pub const MAX_ACTION_LOG_SIZE: usize = 1000;

/// The last `n` members of `s` (all of them when there are fewer).
pub open spec fn keep_last<T>(s: Seq<T>, n: nat) -> Seq<T> {
    if s.len() <= n {
        s
    } else {
        s.subrange(s.len() - n, s.len() as int)
    }
}

/// The action history of a session: the most recent
/// [`MAX_ACTION_LOG_SIZE`] entries, oldest first.
pub struct ActionHistory<T> {
    entries: VecDeque<T>,
}

impl<T> ActionHistory<T> {
    /// The entries, oldest first.
    pub closed spec fn view(&self) -> Seq<T> {
        self.entries@
    }

    #[verifier::type_invariant]
    spec fn bounded(&self) -> bool {
        self.entries@.len() <= MAX_ACTION_LOG_SIZE
    }

    /// An empty history.
    pub fn new() -> (r: Self)
        ensures
            r.view() == Seq::<T>::empty(),
    {
        ActionHistory { entries: VecDeque::new() }
    }

    /// Records an entry; when the history is full, the oldest entry leaves.
    pub fn push(&mut self, entry: T)
        ensures
            final(self).view() == keep_last(old(self).view().push(entry), MAX_ACTION_LOG_SIZE as nat),
    {
        proof {
            use_type_invariant(&*self);
        }
        let mut entries = VecDeque::new();
        std::mem::swap(&mut entries, &mut self.entries);
        let ghost before = entries@;
        if entries.len() >= MAX_ACTION_LOG_SIZE {
            let _ = entries.pop_front();
        }
        entries.push_back(entry);
        proof {
            let pushed = before.push(entry);
            if before.len() >= MAX_ACTION_LOG_SIZE {
                assert(entries@ =~= pushed.subrange(
                    pushed.len() - MAX_ACTION_LOG_SIZE,
                    pushed.len() as int,
                ));
            } else {
                assert(entries@ =~= pushed);
            }
        }
        self.entries = entries;
    }

    /// The number of entries.
    pub fn len(&self) -> (r: usize)
        ensures
            r == self.view().len(),
            r <= MAX_ACTION_LOG_SIZE,
    {
        proof {
            use_type_invariant(self);
        }
        self.entries.len()
    }

    /// The entry at position `i`, counting from the oldest.
    pub fn get(&self, i: usize) -> (r: &T)
        requires
            i < self.view().len(),
        ensures
            *r == self.view()[i as int],
    {
        &self.entries[i]
    }
}

/// The history holds at most [`MAX_ACTION_LOG_SIZE`] entries, and a
/// recorded entry is always the newest one kept.
pub proof fn lemma_history_push<T>(s: Seq<T>, x: T)
    requires
        s.len() <= MAX_ACTION_LOG_SIZE,
    ensures
        keep_last(s.push(x), MAX_ACTION_LOG_SIZE as nat).len() <= MAX_ACTION_LOG_SIZE,
        keep_last(s.push(x), MAX_ACTION_LOG_SIZE as nat).last() == x,
        s.len() < MAX_ACTION_LOG_SIZE ==> keep_last(s.push(x), MAX_ACTION_LOG_SIZE as nat) == s.push(x),
        s.len() == MAX_ACTION_LOG_SIZE ==> keep_last(s.push(x), MAX_ACTION_LOG_SIZE as nat)
            == s.drop_first().push(x),
{
    if s.len() == MAX_ACTION_LOG_SIZE {
        assert(s.push(x).subrange(1, s.len() + 1 as int) =~= s.drop_first().push(x));
    }
}

/// The directory for session logs: the configured one when set and
/// non-empty, else `logs` inside the qorvex directory.
pub fn logs_dir_choice(configured: Option<String>, qorvex_dir: &str) -> (r: String)
    ensures
        match configured {
            Some(c) if c@.len() > 0 => r@ == c@,
            _ => r@ == join_path(qorvex_dir@, "logs"@),
        },
{
    match configured {
        Some(c) => {
            if c.unicode_len() > 0 {
                return c;
            }
        },
        None => {},
    }
    join_path_exec(qorvex_dir, "logs")
}

/// The log file of a session started at `stamp` (`%Y%m%d_%H%M%S`):
/// `<session>_<stamp>.jsonl`.
pub fn log_file_name(session_name: &str, stamp: &str) -> (r: String)
    ensures
        r@ == session_name@ + "_"@ + stamp@ + ".jsonl"@,
{
    let mut s = String::new();
    push_str(&mut s, session_name);
    push_str(&mut s, "_");
    push_str(&mut s, stamp);
    push_str(&mut s, ".jsonl");
    s
}

/// Whether a screen description with hash `new_hash` is news against the
/// last hash seen.
pub fn screen_changed(last_hash: u64, new_hash: u64) -> (r: bool)
    ensures
        r == (last_hash != new_hash),
{
    last_hash != new_hash
}

/// What a session announces to its watchers after a change.
#[derive(Debug, Clone, Copy)]
pub enum SessionNotice {
    /// The latest screenshot changed.
    ScreenshotUpdated,
    /// An action was logged.
    ActionLogged,
}

/// The mathematical form of a [`SessionState`].
pub struct SessionSnapshot<T, E> {
    /// The action history, oldest first.
    pub log: Seq<T>,
    /// The latest screenshot.
    pub screenshot: Option<Seq<char>>,
    /// The hash of the last screen description stored (0 before any).
    pub screen_hash: u64,
    /// The last screen description stored.
    pub elements: Option<E>,
}

/// The state after logging `entry` with an optional screenshot: the entry
/// joins the bounded history, a screenshot replaces the latest one, and the
/// screen description is untouched.
pub open spec fn logged<T, E>(
    s: SessionSnapshot<T, E>,
    entry: T,
    screenshot: Option<Seq<char>>,
) -> SessionSnapshot<T, E> {
    SessionSnapshot {
        log: keep_last(s.log.push(entry), MAX_ACTION_LOG_SIZE as nat),
        screenshot: if screenshot is Some {
            screenshot
        } else {
            s.screenshot
        },
        screen_hash: s.screen_hash,
        elements: s.elements,
    }
}

/// The announcements after logging an action: the screenshot first (when
/// there is one), then the action.
pub open spec fn logged_notices(has_screenshot: bool) -> Seq<SessionNotice> {
    if has_screenshot {
        seq![SessionNotice::ScreenshotUpdated, SessionNotice::ActionLogged]
    } else {
        seq![SessionNotice::ActionLogged]
    }
}

/// The state after offering a screen description with hash `h`, and whether
/// it was news: a new hash is stored with the description, a known one
/// changes nothing.
pub open spec fn screen_offered<T, E>(s: SessionSnapshot<T, E>, elements: E, h: u64) -> (
    SessionSnapshot<T, E>,
    bool,
) {
    if s.screen_hash != h {
        (
            SessionSnapshot {
                log: s.log,
                screenshot: s.screenshot,
                screen_hash: h,
                elements: Some(elements),
            },
            true,
        )
    } else {
        (s, false)
    }
}

/// The in-memory state of a session: its action history, its latest
/// screenshot, and the last screen description with its hash.
pub struct SessionState<T, E> {
    history: ActionHistory<T>,
    screenshot: Option<String>,
    screen_hash: u64,
    elements: Option<E>,
}

impl<T, E> SessionState<T, E> {
    /// The state's mathematical form.
    pub closed spec fn view(&self) -> SessionSnapshot<T, E> {
        SessionSnapshot {
            log: self.history.view(),
            screenshot: match self.screenshot {
                Some(x) => Some(x@),
                None => None,
            },
            screen_hash: self.screen_hash,
            elements: self.elements,
        }
    }

    /// A fresh session: nothing logged, no screenshot, no screen seen.
    pub fn new() -> (r: Self)
        ensures
            r.view().log == Seq::<T>::empty(),
            r.view().screenshot is None,
            r.view().screen_hash == 0,
            r.view().elements is None,
    {
        SessionState { history: ActionHistory::new(), screenshot: None, screen_hash: 0, elements: None }
    }

    /// Logs an action with the screenshot taken after it, and says what to
    /// announce, in order.
    pub fn record_action(&mut self, entry: T, screenshot: Option<String>) -> (notices: Vec<
        SessionNotice,
    >)
        ensures
            final(self).view() == logged(
                old(self).view(),
                entry,
                match screenshot {
                    Some(x) => Some(x@),
                    None => None,
                },
            ),
            notices@ == logged_notices(screenshot is Some),
    {
        self.history.push(entry);
        let mut notices = Vec::new();
        match screenshot {
            Some(x) => {
                self.screenshot = Some(x);
                notices.push(SessionNotice::ScreenshotUpdated);
            },
            None => {},
        }
        notices.push(SessionNotice::ActionLogged);
        proof {
            if notices@.len() == 2 {
                assert(notices@ =~= seq![SessionNotice::ScreenshotUpdated, SessionNotice::ActionLogged]);
            } else {
                assert(notices@ =~= seq![SessionNotice::ActionLogged]);
            }
        }
        notices
    }

    /// Replaces the latest screenshot.
    pub fn set_screenshot(&mut self, screenshot: String)
        ensures
            final(self).view() == (SessionSnapshot {
                screenshot: Some(screenshot@),
                ..old(self).view()
            }),
    {
        self.screenshot = Some(screenshot);
    }

    /// Offers a screen description with its hash; stores it and returns
    /// `true` only when the hash differs from the last one stored.
    pub fn offer_screen_info(&mut self, elements: E, hash: u64) -> (changed: bool)
        ensures
            (final(self).view(), changed) == screen_offered(old(self).view(), elements, hash),
    {
        if !screen_changed(self.screen_hash, hash) {
            return false;
        }
        self.screen_hash = hash;
        self.elements = Some(elements);
        true
    }

    /// The action history.
    pub fn history(&self) -> (r: &ActionHistory<T>)
        ensures
            r.view() == self.view().log,
    {
        &self.history
    }

    /// The latest screenshot.
    pub fn screenshot(&self) -> (r: Option<&String>)
        ensures
            match r {
                Some(x) => self.view().screenshot == Some(x@),
                None => self.view().screenshot is None,
            },
    {
        self.screenshot.as_ref()
    }

    /// The hash of the last screen description stored.
    pub fn screen_hash(&self) -> (r: u64)
        ensures
            r == self.view().screen_hash,
    {
        self.screen_hash
    }

    /// The last screen description stored.
    pub fn elements(&self) -> (r: Option<&E>)
        ensures
            match r {
                Some(x) => self.view().elements == Some(*x),
                None => self.view().elements is None,
            },
    {
        self.elements.as_ref()
    }
}

/// Logging an action keeps at most [`MAX_ACTION_LOG_SIZE`] entries with the
/// new one last, keeps the latest screenshot when none comes with it, and
/// leaves the screen description alone.
pub proof fn lemma_logging_bounded<T, E>(s: SessionSnapshot<T, E>, entry: T)
    requires
        s.log.len() <= MAX_ACTION_LOG_SIZE,
    ensures
        logged(s, entry, None).log.len() <= MAX_ACTION_LOG_SIZE,
        logged(s, entry, None).log.last() == entry,
        logged(s, entry, None).screenshot == s.screenshot,
        logged(s, entry, None).screen_hash == s.screen_hash,
        logged(s, entry, None).elements == s.elements,
{
    lemma_history_push(s.log, entry);
}

/// Offering the same screen hash twice in a row: the second offer is no
/// news and changes nothing.
pub proof fn lemma_screen_offer_settles<T, E>(s: SessionSnapshot<T, E>, e1: E, e2: E, h: u64)
    ensures
        screen_offered(s, e1, h).0.screen_hash == h,
        screen_offered(screen_offered(s, e1, h).0, e2, h) == (screen_offered(s, e1, h).0, false),
{
}

} // verus!
