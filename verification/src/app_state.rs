//! The TUI's small pieces of state: which pane has focus and where keys
//! go, the cursor's moves, the link to the daemon, the banner and which
//! write an answer belongs to.

use vstd::prelude::*;

use crate::action::Action;
use crate::keybindings::Context;
use crate::text::str_eq;

verus! {

/// How long a banner stays, in ticks (the runner ticks every 250 ms).
pub const BANNER_TICKS: u32 = 24;

#[derive(Clone, Copy, Debug, PartialEq, Eq, Structural)]
pub enum Pane {
    Sidebar,
    Tasks,
    Detail,
}

#[derive(Clone, Debug, PartialEq, Eq)]
pub enum Connection {
    Connecting,
    Connected,
    Lost(String),
}

#[derive(Clone, Copy, Debug, PartialEq, Eq, Structural)]
pub enum Level {
    Info,
    Error,
}

#[derive(Clone, Debug, PartialEq, Eq)]
pub struct Banner {
    pub text: String,
    pub level: Level,
    pub ticks_left: u32,
}

/// Which write an answer belongs to.
#[derive(Clone, Copy, Debug, PartialEq, Eq, Hash, Structural)]
pub enum Write {
    Add,
    Complete,
    Reopen,
    Edit,
    Delete,
    Move,
    /// Into My Day, or out of it.
    MyDay,
}

impl Pane {
    /// `h`: the pane to the left; the sidebar stays.
    pub fn left(self) -> (p: Pane)
        ensures
            p == (if self == Pane::Detail { Pane::Tasks } else { Pane::Sidebar }),
    {
        match self {
            Pane::Detail => Pane::Tasks,
            _ => Pane::Sidebar,
        }
    }

    /// `l`: the pane to the right; the detail pane stays.
    pub fn right(self) -> (p: Pane)
        ensures
            p == (if self == Pane::Sidebar { Pane::Tasks } else { Pane::Detail }),
    {
        match self {
            Pane::Sidebar => Pane::Tasks,
            _ => Pane::Detail,
        }
    }

    /// Tab: the next pane, round to the first.
    pub fn next(self) -> (p: Pane)
        ensures
            p == (match self {
                Pane::Sidebar => Pane::Tasks,
                Pane::Tasks => Pane::Detail,
                Pane::Detail => Pane::Sidebar,
            }),
    {
        match self {
            Pane::Sidebar => Pane::Tasks,
            Pane::Tasks => Pane::Detail,
            Pane::Detail => Pane::Sidebar,
        }
    }
}

/// Where `j`, `k`, `g` and `G` take a cursor at `index` over `len` rows:
/// one down but no further than the last, one up but no further than the
/// first, the first, or the last; any other action leaves it where it is.
pub open spec fn moved_spec(index: int, len: int, action: Action) -> int {
    let last = if len == 0 { 0 } else { len - 1 };
    match action {
        Action::MoveDown => if index + 1 < last { index + 1 } else { last },
        Action::MoveUp => if index == 0 { 0 } else { index - 1 },
        Action::JumpTop => 0,
        Action::JumpBottom => last,
        _ => index,
    }
}

/// Where a cursor at `index` over `len` rows goes on `action`.
pub fn moved_index(index: usize, len: usize, action: Action) -> (moved: usize)
    ensures
        moved == moved_spec(index as int, len as int, action),
        action is MoveDown || action is MoveUp || action is JumpTop || action is JumpBottom ==> (
            len > 0 && index < len ==> moved < len),
{
    let last = if len == 0 { 0 } else { len - 1 };
    match action {
        Action::MoveDown => if index < last { index + 1 } else { last },
        Action::MoveUp => if index == 0 { 0 } else { index - 1 },
        Action::JumpTop => 0,
        Action::JumpBottom => last,
        _ => index,
    }
}

impl Banner {
    /// A banner saying `text`, for its full time.
    pub fn show(level: Level, text: &str) -> (b: Banner)
        ensures
            b.text@ == text@,
            b.level == level,
            b.ticks_left == BANNER_TICKS,
    {
        Banner { text: text.to_owned(), level, ticks_left: BANNER_TICKS }
    }
}

/// The banner after one more tick: one tick less of it, and gone when
/// none is left.
pub open spec fn tick_spec(banner: Option<Banner>) -> Option<Banner> {
    match banner {
        Some(b) => {
            let left = if b.ticks_left == 0 {
                0
            } else {
                (b.ticks_left - 1) as u32
            };
            if left == 0 {
                None
            } else {
                Some(Banner { ticks_left: left, ..b })
            }
        },
        None => None,
    }
}

/// A tick, for the banner.
pub fn tick(banner: Option<Banner>) -> (after: Option<Banner>)
    ensures
        after == tick_spec(banner),
{
    match banner {
        Some(mut b) => {
            b.ticks_left = b.ticks_left.saturating_sub(1);
            if b.ticks_left == 0 {
                None
            } else {
                Some(b)
            }
        },
        None => None,
    }
}

/// The banner after `n` ticks.
pub open spec fn ticks_spec(banner: Option<Banner>, n: nat) -> Option<Banner>
    decreases n,
{
    if n == 0 {
        banner
    } else {
        tick_spec(ticks_spec(banner, (n - 1) as nat))
    }
}

/// A banner with `left` ticks to go is still up, with `left - n` to go,
/// after `n < left` ticks.
proof fn lemma_ticks(b: Banner, n: nat)
    requires
        n < b.ticks_left,
    ensures
        ticks_spec(Some(b), n) == Some(Banner { ticks_left: (b.ticks_left - n) as u32, ..b }),
    decreases n,
{
    if n > 0 {
        lemma_ticks(b, (n - 1) as nat);
    }
}

/// A banner that has just been shown stays for exactly `BANNER_TICKS`
/// ticks: it is up after each of the first `BANNER_TICKS - 1`, and gone
/// after the last.
pub proof fn law_banner_lasts(level: Level, text: String, n: nat)
    ensures
        ({
            let b = Banner { text, level, ticks_left: BANNER_TICKS };
            &&& n < BANNER_TICKS ==> ticks_spec(Some(b), n) is Some
            &&& ticks_spec(Some(b), BANNER_TICKS as nat) is None
        }),
{
    let b = Banner { text, level, ticks_left: BANNER_TICKS };
    if n < BANNER_TICKS {
        lemma_ticks(b, n);
    }
    lemma_ticks(b, (BANNER_TICKS - 1) as nat);
}

} // verus!

verus! {

/// What the TUI is doing, as the keys read it: browsing, or one of its
/// prompts, pickers and pages.
#[derive(Clone, Copy, Debug, PartialEq, Eq, Structural)]
pub enum ModeKind {
    Normal,
    /// Quick add's modal.
    Adding,
    Filtering,
    /// Editing a field of a task.
    Editing(crate::action::Field),
    EditingChild,
    Attaching,
    SettingDue,
    Assigning,
    NamingList,
    ChoosingField,
    MovingList,
    ChoosingImportance,
    ConfirmDelete,
    ConfirmDeleteChild,
    ConfirmDeleteList,
    Picker,
    Palette,
    MovingTasks,
    Diagnostics,
    Help,
    Themes,
    Links,
}

pub open spec fn context_spec(mode: ModeKind, focus: Pane, on_child_row: bool) -> Context {
    match mode {
        ModeKind::Editing(crate::action::Field::Notes) => Context::Notes,
        ModeKind::Adding => Context::Adding,
        ModeKind::Filtering | ModeKind::Editing(_) | ModeKind::EditingChild | ModeKind::Attaching
        | ModeKind::SettingDue | ModeKind::Assigning | ModeKind::NamingList => Context::Prompt,
        ModeKind::ChoosingField => Context::Fields,
        ModeKind::MovingList => Context::Folder,
        ModeKind::ChoosingImportance => Context::Importance,
        ModeKind::ConfirmDelete | ModeKind::ConfirmDeleteChild | ModeKind::ConfirmDeleteList => Context::Confirm,
        ModeKind::Picker => Context::Picker,
        ModeKind::Palette => Context::Palette,
        ModeKind::MovingTasks => Context::MoveTo,
        ModeKind::Diagnostics => Context::Diagnostics,
        ModeKind::Help => Context::Help,
        ModeKind::Themes => Context::Themes,
        ModeKind::Links => Context::Links,
        ModeKind::Normal => match focus {
            Pane::Sidebar => Context::Sidebar,
            Pane::Tasks => Context::Tasks,
            Pane::Detail => if on_child_row {
                Context::Steps
            } else {
                Context::Detail
            },
        },
    }
}

/// Where keys go now: each prompt, picker and page has its own keys; when
/// browsing, the pane with focus, the detail pane's steps and link apart.
pub fn context(mode: ModeKind, focus: Pane, on_child_row: bool) -> (c: Context)
    ensures
        c == context_spec(mode, focus, on_child_row),
{
    match mode {
        ModeKind::Editing(crate::action::Field::Notes) => Context::Notes,
        ModeKind::Adding => Context::Adding,
        ModeKind::Filtering | ModeKind::Editing(_) | ModeKind::EditingChild | ModeKind::Attaching
        | ModeKind::SettingDue | ModeKind::Assigning | ModeKind::NamingList => Context::Prompt,
        ModeKind::ChoosingField => Context::Fields,
        ModeKind::MovingList => Context::Folder,
        ModeKind::ChoosingImportance => Context::Importance,
        ModeKind::ConfirmDelete | ModeKind::ConfirmDeleteChild | ModeKind::ConfirmDeleteList => Context::Confirm,
        ModeKind::Picker => Context::Picker,
        ModeKind::Palette => Context::Palette,
        ModeKind::MovingTasks => Context::MoveTo,
        ModeKind::Diagnostics => Context::Diagnostics,
        ModeKind::Help => Context::Help,
        ModeKind::Themes => Context::Themes,
        ModeKind::Links => Context::Links,
        ModeKind::Normal => match focus {
            Pane::Sidebar => Context::Sidebar,
            Pane::Tasks => Context::Tasks,
            Pane::Detail => if on_child_row {
                Context::Steps
            } else {
                Context::Detail
            },
        },
    }
}

} // verus!

verus! {

/// Where the first of `ids` that is `id` is, or -1.
pub open spec fn first_index(ids: Seq<String>, id: Seq<char>) -> int
    decreases ids.len(),
{
    if ids.len() == 0 {
        -1
    } else {
        let before = first_index(ids.drop_last(), id);
        if before >= 0 {
            before
        } else if ids.last()@ == id {
            ids.len() - 1
        } else {
            -1
        }
    }
}

/// Where the task cursor goes when new rows (their IDs `ids`) arrive: on
/// the task it was on (`kept`), found by its ID, if the scope is the same;
/// where it was if that task is gone; the top for another scope; always
/// within the rows.
pub open spec fn reseeded_cursor_spec(kept: Option<Seq<char>>, same_scope: bool, ids: Seq<String>, current: int) -> int {
    let at = match kept {
        Some(id) => if same_scope {
            let found = first_index(ids, id);
            if found >= 0 { found } else { current }
        } else {
            0
        },
        None => 0,
    };
    let last = if ids.len() == 0 { 0 } else { ids.len() - 1 };
    if at < last { at } else { last }
}

/// Where the task cursor goes when new rows arrive.
pub fn reseeded_cursor(kept: Option<&str>, same_scope: bool, ids: &Vec<String>, current: usize) -> (at: usize)
    ensures
        at as int == reseeded_cursor_spec(
            match kept {
                Some(k) => Some(k@),
                None => None,
            },
            same_scope,
            ids@,
            current as int,
        ),
{
    let mut at: usize = 0;
    if let Some(id) = kept {
        if same_scope {
            let mut found: Option<usize> = None;
            let mut i: usize = 0;
            while i < ids.len()
                invariant
                    i <= ids@.len(),
                    match found {
                        Some(f) => f as int == first_index(ids@.subrange(0, i as int), id@),
                        None => first_index(ids@.subrange(0, i as int), id@) == -1,
                    },
                decreases ids.len() - i,
            {
                assert(ids@.subrange(0, i + 1).drop_last() =~= ids@.subrange(0, i as int));
                if found.is_none() && str_eq(ids[i].as_str(), id) {
                    found = Some(i);
                }
                i = i + 1;
            }
            assert(ids@.subrange(0, ids@.len() as int) =~= ids@);
            at = match found {
                Some(f) => f,
                None => current,
            };
        }
    }
    let last = if ids.len() == 0 { 0 } else { ids.len() - 1 };
    if at < last { at } else { last }
}

} // verus!
