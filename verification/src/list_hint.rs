//! Quick add's list suggestion: while a task typed in the `a` modal is
//! headed for the inbox, the daemon is asked which list it might belong
//! in, once typing has paused, never per key, and one request at a time.
//! A likely list shows as a hint for the title it answered.

use vstd::prelude::*;

use crate::text::{str_eq, trim, trim_spec};

verus! {

/// Ticks (250 ms each) of no typing before asking: 250–500 ms after the
/// last key.
pub const QUIET_TICKS: u32 = 2;

/// A title shorter than this says too little to suggest from.
pub const MIN_TITLE_CHARS: usize = 3;

/// The list the daemon suggests.
#[derive(Clone, Debug, PartialEq, Eq)]
pub struct ListSuggestion {
    pub list_id: String,
    pub list_name: String,
}

/// The suggestion's state for the quick add modal.
#[derive(Clone, Debug, PartialEq, Eq)]
pub struct ListHint {
    /// Suggestions aren't available this session: turned off, or a
    /// daemon without them.
    pub off: bool,
    /// Ticks since the text last changed, until it's asked about.
    pub quiet: Option<u32>,
    /// The title asked about, while its answer is on the way.
    pub asking: Option<String>,
    /// The last answer, and the title it answers: `None` inside when no
    /// list was likely enough.
    pub answer: Option<(String, Option<ListSuggestion>)>,
}

pub open spec fn opt_view(o: Option<String>) -> Option<Seq<char>> {
    match o {
        Some(s) => Some(s@),
        None => None,
    }
}

/// The title a task typed now would have, if it's headed for the inbox:
/// none when it's added from another list than the inbox, when quick add
/// read a `#List` in it, or when it says too little. `parsed` is quick
/// add's reading, `(whether it names a list, the title)`; without one the
/// text as typed, trimmed, is the title.
pub open spec fn inbox_title_spec(from_other_list: bool, parsed: Option<(bool, Seq<char>)>, typed: Seq<char>) -> Option<Seq<char>> {
    if from_other_list {
        None
    } else {
        match parsed {
            Some((true, _)) => None,
            _ => {
                let title = match parsed {
                    Some((_, t)) => t,
                    None => trim_spec(typed),
                };
                if title.len() >= MIN_TITLE_CHARS {
                    Some(title)
                } else {
                    None
                }
            },
        }
    }
}

/// The title a task typed now would have, if it's headed for the inbox.
pub fn inbox_title(from_other_list: bool, parsed: Option<(bool, String)>, typed: &str) -> (t: Option<String>)
    ensures
        opt_view(t) == inbox_title_spec(
            from_other_list,
            match parsed {
                Some((l, s)) => Some((l, s@)),
                None => None,
            },
            typed@,
        ),
{
    if from_other_list {
        return None;
    }
    let title = match parsed {
        Some((true, _)) => return None,
        Some((false, t)) => t,
        None => trim(typed),
    };
    if title.unicode_len() >= MIN_TITLE_CHARS {
        Some(title)
    } else {
        None
    }
}

/// Whether a tick with the title `title` takes `before` to `after`,
/// asking about `ask`: after a pause of `QUIET_TICKS` ticks since the text
/// changed, the title is asked about, unless suggestions are off, a
/// request is out, there's no title, or it was answered already.
pub open spec fn ticked(before: ListHint, title: Option<String>, after: ListHint, ask: Option<String>) -> bool {
    &&& after.off == before.off
    &&& after.answer == before.answer
    &&& match before.quiet {
        None => after == before && ask is None,
        Some(q) => {
            let q1: u32 = if q < u32::MAX { (q + 1) as u32 } else { q };
            if before.off || before.asking is Some || q1 < QUIET_TICKS {
                after.quiet == Some(q1) && after.asking == before.asking && ask is None
            } else {
                &&& after.quiet is None
                &&& match title {
                    None => ask is None && after.asking is None,
                    Some(t) => if (before.answer matches Some((a, _)) && a@ == t@) {
                        ask is None && after.asking is None
                    } else {
                        ask == Some(t) && after.asking == Some(t)
                    },
                }
            }
        },
    }
}

impl ListHint {
    /// Nothing asked or answered, and on.
    pub fn new() -> (h: ListHint)
        ensures
            !h.off,
            h.quiet is None,
            h.asking is None,
            h.answer is None,
    {
        ListHint { off: false, quiet: None, asking: None, answer: None }
    }

    /// The text changed: ask again once typing pauses.
    pub fn typed(&mut self)
        ensures
            final(self).quiet == Some(0u32),
            final(self).off == old(self).off,
            final(self).asking == old(self).asking,
            final(self).answer == old(self).answer,
    {
        self.quiet = Some(0);
    }

    /// On each tick, with the title a task typed now would have: once
    /// typing has paused, ask about it, unless suggestions are off, a
    /// request is out, or it has been answered already. The title to ask
    /// about, if any.
    pub fn tick(&mut self, title: Option<String>) -> (ask: Option<String>)
        ensures
            ticked(*old(self), title, *final(self), ask),
    {
        let q = match self.quiet {
            Some(q) => q,
            None => {
                return None;
            },
        };
        let q1: u32 = if q < u32::MAX { q + 1 } else { q };
        self.quiet = Some(q1);
        if self.off || self.asking.is_some() || q1 < QUIET_TICKS {
            return None;
        }
        self.quiet = None;
        let title = match title {
            Some(t) => t,
            None => {
                return None;
            },
        };
        let answered = match &self.answer {
            Some((a, _)) => str_eq(a.as_str(), title.as_str()),
            None => false,
        };
        if answered {
            return None;
        }
        let asked = title.clone();
        self.asking = Some(title);
        Some(asked)
    }

    /// The daemon answered: a suggestion (or none) for the title asked
    /// about, or an error of `kind`. Off, or a daemon that doesn't know
    /// the request, isn't asked again this session; a lost connection is
    /// only this answer. Either way the text as it is now is asked about
    /// once typing pauses.
    pub fn answered(&mut self, result: Result<Option<ListSuggestion>, String>)
        ensures
            match old(self).asking {
                None => *final(self) == *old(self),
                Some(title) => {
                    &&& final(self).asking is None
                    &&& final(self).quiet == Some(QUIET_TICKS)
                    &&& match result {
                        Ok(s) => final(self).answer == Some((title, s)) && final(self).off == old(self).off,
                        Err(kind) => final(self).answer == old(self).answer && final(self).off == (old(self).off
                            || kind@ != "daemon_unavailable"@),
                    }
                },
            },
    {
        let title = match self.asking.take() {
            Some(t) => t,
            None => {
                return;
            },
        };
        match result {
            Ok(s) => {
                self.answer = Some((title, s));
            },
            Err(kind) => {
                if !str_eq(kind.as_str(), "daemon_unavailable") {
                    self.off = true;
                }
            },
        }
        self.quiet = Some(QUIET_TICKS);
    }

    /// The list to show as a hint: the answer for the title as it is now.
    pub fn hint(&self, title: &Option<String>) -> (s: Option<&ListSuggestion>)
        ensures
            match s {
                Some(x) => self.answer matches Some((a, Some(y))) && y == *x && opt_view(*title) == Some(a@),
                None => !(self.answer matches Some((a, Some(_))) && opt_view(*title) == Some(a@)),
            },
    {
        match &self.answer {
            Some((a, Some(list))) => match title {
                Some(t) => if str_eq(a.as_str(), t.as_str()) {
                    Some(list)
                } else {
                    None
                },
                None => None,
            },
            _ => None,
        }
    }
}

/// One request at a time: after a tick that asks, the next tick asks
/// nothing, whatever the title.
pub proof fn law_one_request_at_a_time(
    h0: ListHint,
    t0: Option<String>,
    h1: ListHint,
    asked: String,
    t1: Option<String>,
    h2: ListHint,
    ask: Option<String>,
)
    requires
        ticked(h0, t0, h1, Some(asked)),
        ticked(h1, t1, h2, ask),
    ensures
        ask is None,
{
}

/// Once suggestions are off, no tick asks, and they stay off.
pub proof fn law_off_is_never_asked_again(h0: ListHint, t: Option<String>, h1: ListHint, ask: Option<String>)
    requires
        h0.off,
        ticked(h0, t, h1, ask),
    ensures
        ask is None,
        h1.off,
{
}

/// Never per key: right after the text changes, a tick asks nothing.
pub proof fn law_never_asked_per_key(h0: ListHint, t: Option<String>, h1: ListHint, ask: Option<String>)
    requires
        h0.quiet == Some(0u32),
        ticked(h0, t, h1, ask),
    ensures
        ask is None,
{
}

} // verus!
