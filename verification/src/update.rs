//! The TUI's state and `update`: what a key, or the daemon's answer to a
//! request, does to the state, and which requests go out. Each is a
//! function of the state and the message alone; the runner performs the
//! requests and hands the answers back.
//!
//! The state here is the part these decisions read and write: the pane
//! with focus, the mode, the scope asked for and the one on screen, its
//! rows, the detail cursor, the selection, the seed sequence, the banner,
//! the filter, the help screen's size, the diagnostics page, the
//! sidebar's lists, collapsed folders and cursor, and the prompts for the
//! palette and for moving a list to a folder.
//!
//! Not held here: the open-task counts the sidebar draws, the scope
//! cache's rows, quick add
//! and the field editor (their dates are read by a parser this library
//! does not have), the link picker, moving tasks, My Day,
//! the steps and the link of a task (the rows hold only how
//! many steps it has) and the list order of a changed task (it needs the
//! completion instant, which the rows keep as Graph wrote it). A key or an
//! answer that needs them gives `None`, the state unchanged: the library
//! does not do that work.

use vstd::prelude::*;

use crate::action::{Action, Field};
use crate::app_state::{ModeKind, Banner, Level, Pane, Write, BANNER_TICKS, moved_index, moved_spec, reseeded_cursor, reseeded_cursor_spec};
use crate::attachments::{DownloadAnswer, Downloaded, downloaded};
use crate::batch::{what, what_spec};
use crate::help::Page;
use crate::scope::{
    Entry, EntryV, Scope, ScopeV, SidebarList, collapsed_set, entry_view, entries_view, scope_view, sidebar_entries,
    sidebar_spec, total, views, views_spec,
};
use crate::palette::{
    CommandV, Command, Item, candidates_spec, entry_scope, items_view, law_ranked_order_is_unique, palette_items,
    places_spec, ranked, texts_of,
};
use crate::keybindings::commands_spec;
use crate::text::lowercase_of;
use crate::folders::{folder_moved, folder_moved_text, move_to_folder, moved_to_folder, opt_view, find_scope, first_where, showing, cursor_spec, folder_of, folder_of_spec, folder_suggestions, sidebar_cursor, suggestions_spec};
use crate::attachments::in_dir_spec;
use crate::search::{join, join_spec, strings_view};
use crate::search::{search_query, search_query_spec};
use crate::selection::{Selection, id_set, toggled};
use crate::task::{Importance, Task, next_importance, next_importance_spec, text_at, text_of};
use crate::json::{JsonV, Members, members_model};
use crate::steps::{ChildTarget, DetailRow, detail_moved_spec};
use crate::detail_cursor::StepKey;
use crate::diagnostics::{Diagnostics, Part, PartData, diagnosed_spec, opened_spec, refreshed_spec, scrolled_page};
use crate::text::{concat, str_eq, trim, trim_spec};

verus! {

/// The seed requests: the number of the latest, whether it is in flight,
/// and whether a change came while it was, so the cache is read again
/// once it lands.
#[derive(Clone, Copy, Debug, PartialEq, Eq, Structural)]
pub struct Seeds {
    pub latest: u64,
    pub in_flight: bool,
    pub again: bool,
}

/// What the task panes are doing.
#[derive(Debug)]
pub enum Mode {
    Normal,
    /// The help screen, scrolled this many rows.
    Help { scroll: u16 },
    /// The filter prompt is open, holding `input`.
    Filtering { input: String },
    /// `d` asked before deleting these tasks, named `what`.
    ConfirmDelete { ids: Vec<String>, what: String },
    /// An undo of a recurring completion asks which copy to delete.
    Picker { target: String, candidates: Vec<String>, index: usize },
    /// A step or link of the task `id` is being typed; `error` says why
    /// the last Enter sent nothing.
    EditingChild { id: String, target: ChildTarget, error: Option<String> },
    /// The diagnostics page.
    Diagnostics,
    /// The folder to move the list `list_id` into is being typed.
    MovingList { list_id: String, input: String },
    /// The command palette, `query` typed and its `index`th match chosen.
    Palette { query: String, index: usize },
}

pub enum ChildTargetV {
    NewStep,
    Step(Seq<char>),
    Link(Option<Seq<char>>),
}

pub open spec fn child_target_view(t: ChildTarget) -> ChildTargetV {
    match t {
        ChildTarget::NewStep => ChildTargetV::NewStep,
        ChildTarget::Step(s) => ChildTargetV::Step(s@),
        ChildTarget::Link(l) => ChildTargetV::Link(opt_str(l)),
    }
}

pub enum ModeV {
    Normal,
    Help(u16),
    Filtering(Seq<char>),
    ConfirmDelete(Seq<Seq<char>>, Seq<char>),
    Picker(Seq<char>, Seq<Seq<char>>, int),
    EditingChild(Seq<char>, ChildTargetV, Option<Seq<char>>),
    Diagnostics,
    MovingList(Seq<char>, Seq<char>),
    Palette(Seq<char>, int),
}

pub open spec fn strs(v: Seq<String>) -> Seq<Seq<char>> {
    v.map_values(|s: String| s@)
}

pub open spec fn mode_view(m: Mode) -> ModeV {
    match m {
        Mode::Normal => ModeV::Normal,
        Mode::Help { scroll } => ModeV::Help(scroll),
        Mode::Filtering { input } => ModeV::Filtering(input@),
        Mode::ConfirmDelete { ids, what } => ModeV::ConfirmDelete(strs(ids@), what@),
        Mode::Picker { target, candidates, index } => ModeV::Picker(target@, strs(candidates@), index as int),
        Mode::EditingChild { id, target, error } => ModeV::EditingChild(id@, child_target_view(target), opt_str(error)),
        Mode::Diagnostics => ModeV::Diagnostics,
        Mode::MovingList { list_id, input } => ModeV::MovingList(list_id@, input@),
        Mode::Palette { query, index } => ModeV::Palette(query@, index as int),
    }
}

/// A request to the daemon.
#[derive(Debug)]
pub enum Request {
    /// The rows of `scope` (the default list for `None`), searched when
    /// `search` is given.
    Seed { scope: Option<Scope>, search: Option<String> },
    /// Undo the last change, or, with `target` and `copy`, delete that
    /// copy of a recurring task's completion.
    Undo { target: Option<String>, copy: Option<String> },
    /// Sync now.
    Sync,
    /// Delete these tasks.
    DeleteTasks { ids: Vec<String> },
    /// Change a step or the link of the task `id`.
    ChangeChild { id: String, change: ChildChange },
    /// Complete these tasks.
    Complete { ids: Vec<String> },
    /// Reopen these tasks.
    Reopen { ids: Vec<String> },
    /// The daemon's status: sign-in and the daemon.
    Status,
    /// The doctor's report: the database, each scope's sync and the
    /// outbox.
    Doctor,
    /// The outbox operations in the unknown state.
    UnknownOps,
    /// Move these lists into `folder`, or out of their folder for `None`.
    MoveLists { lists: Vec<String>, folder: Option<String> },
    /// Set these tasks' importance.
    SetImportance { ids: Vec<String>, importance: Importance },
}

/// A change to a task's steps or link.
#[derive(Debug)]
pub enum ChildChange {
    AddStep(String),
    EditStep { step: String, text: String },
    AddLink(String),
    EditLink { link: String, url: String },
}

pub enum ChildChangeV {
    AddStep(Seq<char>),
    EditStep(Seq<char>, Seq<char>),
    AddLink(Seq<char>),
    EditLink(Seq<char>, Seq<char>),
}

pub open spec fn child_change_view(c: ChildChange) -> ChildChangeV {
    match c {
        ChildChange::AddStep(t) => ChildChangeV::AddStep(t@),
        ChildChange::EditStep { step, text } => ChildChangeV::EditStep(step@, text@),
        ChildChange::AddLink(u) => ChildChangeV::AddLink(u@),
        ChildChange::EditLink { link, url } => ChildChangeV::EditLink(link@, url@),
    }
}

pub enum RequestV {
    Seed(Option<ScopeV>, Option<Seq<char>>),
    Undo(Option<Seq<char>>, Option<Seq<char>>),
    Sync,
    DeleteTasks(Seq<Seq<char>>),
    ChangeChild(Seq<char>, ChildChangeV),
    Complete(Seq<Seq<char>>),
    Reopen(Seq<Seq<char>>),
    Status,
    Doctor,
    UnknownOps,
    MoveLists(Seq<Seq<char>>, Option<Seq<char>>),
    SetImportance(Seq<Seq<char>>, Importance),
}

/// Which request an answer belongs to.
#[derive(Clone, Copy, Debug, PartialEq, Eq, Structural)]
pub enum Tag {
    /// The seed request of this number.
    Seed(u64),
    /// A view read ahead.
    Prefetch,
    Undo,
    Sync,
    Download,
    Write(Write),
    /// A part of the diagnostics page.
    Diagnostics(Part),
    /// A list moved into or out of a folder.
    Folders,
}

/// A request and what its answer is for.
#[derive(Debug)]
pub struct Effect {
    pub tag: Tag,
    pub request: Request,
}

pub open spec fn pairs(v: Seq<(String, String)>) -> Seq<(Seq<char>, Seq<char>)> {
    v.map_values(|p: (String, String)| (p.0@, p.1@))
}

pub open spec fn opt_str(o: Option<String>) -> Option<Seq<char>> {
    match o {
        Some(s) => Some(s@),
        None => None,
    }
}

pub open spec fn opt_scope(o: Option<Scope>) -> Option<ScopeV> {
    match o {
        Some(s) => Some(scope_view(s)),
        None => None,
    }
}

pub open spec fn effect_view(e: Effect) -> (Tag, RequestV) {
    (e.tag, match e.request {
        Request::Seed { scope, search } => RequestV::Seed(opt_scope(scope), opt_str(search)),
        Request::Undo { target, copy } => RequestV::Undo(opt_str(target), opt_str(copy)),
        Request::Sync => RequestV::Sync,
        Request::DeleteTasks { ids } => RequestV::DeleteTasks(strs(ids@)),
        Request::ChangeChild { id, change } => RequestV::ChangeChild(id@, child_change_view(change)),
        Request::Complete { ids } => RequestV::Complete(strs(ids@)),
        Request::Reopen { ids } => RequestV::Reopen(strs(ids@)),
        Request::Status => RequestV::Status,
        Request::Doctor => RequestV::Doctor,
        Request::UnknownOps => RequestV::UnknownOps,
        Request::MoveLists { lists, folder } => RequestV::MoveLists(strs(lists@), opt_str(folder)),
        Request::SetImportance { ids, importance } => RequestV::SetImportance(strs(ids@), importance),
    })
}

pub open spec fn effects_view(effects: Seq<Effect>) -> Seq<(Tag, RequestV)> {
    effects.map_values(|e: Effect| effect_view(e))
}

/// What the daemon sent for a seed: the scope it read (`None` for the
/// default list before it is known), its rows in the order they show,
/// and whether the lists and the scope's tasks have synced.
#[derive(Debug)]
pub struct SeedAnswer {
    pub scope: Option<Scope>,
    pub tasks: Vec<Task>,
    /// The lists, in the daemon's order.
    pub lists: Vec<SidebarList>,
    pub lists_ready: bool,
    pub tasks_ready: bool,
}

/// An answer's data.
#[derive(Debug)]
pub enum ResponseData {
    Seed(SeedAnswer),
    /// A change was applied to the tasks `items` (as the daemon sends
    /// them); `refused` are the titles of the tasks an
    /// undo left alone because they changed since.
    Applied { items: Vec<Members>, refused: Vec<String> },
    /// The path of the first file a download saved, if any.
    Downloaded(Option<String>),
    /// The data of a part of the diagnostics page.
    Diagnosis(PartData),
    Other,
}

/// An error answer: its kind and message and, for an undo that needs a
/// choice, what it undoes and the copies to pick from.
#[derive(Debug)]
pub struct ErrorPayload {
    pub kind: String,
    pub message: String,
    pub undo_target: Option<String>,
    pub candidates: Vec<String>,
}

/// The state the decisions here read and write.
#[derive(Debug)]
pub struct App {
    pub focus: Pane,
    /// The detail pane's cursor.
    pub detail_row: DetailRow,
    pub mode: Mode,
    /// The scope asked for; `None` for the default list.
    pub wanted: Option<Scope>,
    /// The scope the rows came from.
    pub shown: Option<Scope>,
    pub tasks: Vec<Task>,
    pub task_index: usize,
    pub selection: Selection,
    pub seeds: Seeds,
    pub banner: Option<Banner>,
    pub filter: Option<String>,
    /// Why the filter typed can't be searched yet.
    pub filter_error: Option<String>,
    pub lists_ready: bool,
    /// Whether the scope's tasks have synced.
    pub tasks_ready: bool,
    /// Whether a sync is running.
    pub syncing: bool,
    /// Why Microsoft To Do rejected a change, by task.
    pub rejections: Vec<(String, String)>,
    /// Whether a seed has landed yet.
    pub seeded: bool,
    pub should_quit: bool,
    /// The help screen as the terminal fits it.
    pub help: Page,
    /// The diagnostics page's data.
    pub diagnostics: Diagnostics,
    /// The scopes read once unfiltered: the views not among them are read
    /// ahead after the first seed.
    pub cached: Vec<Scope>,
    /// Where downloads go.
    pub download_dir: String,
    /// A file to open with the system's opener after this frame.
    pub to_open: Option<String>,
    /// The lists, in the daemon's order.
    pub lists: Vec<SidebarList>,
    /// The folders collapsed in the sidebar.
    pub collapsed: Vec<String>,
    /// The sidebar's cursor.
    pub sidebar_index: usize,
}

#[verifier::ext_equal]
pub struct AppV {
    pub focus: Pane,
    pub detail_row: DetailRow,
    pub mode: ModeV,
    pub wanted: Option<ScopeV>,
    pub shown: Option<ScopeV>,
    pub tasks: Seq<Task>,
    pub task_index: int,
    pub selection: Set<Seq<char>>,
    pub seeds: Seeds,
    pub banner: Option<(Level, Seq<char>, u32)>,
    pub filter: Option<Seq<char>>,
    pub filter_error: Option<Seq<char>>,
    pub lists_ready: bool,
    pub tasks_ready: bool,
    pub syncing: bool,
    pub rejections: Seq<(Seq<char>, Seq<char>)>,
    pub seeded: bool,
    pub should_quit: bool,
    pub help_max: int,
    pub help_step: int,
    pub cached: Seq<ScopeV>,
    pub download_dir: Seq<char>,
    pub to_open: Option<Seq<char>>,
    pub lists: Seq<SidebarList>,
    pub collapsed: Set<Seq<char>>,
    pub sidebar_index: int,
}

pub open spec fn banner_view(b: Option<Banner>) -> Option<(Level, Seq<char>, u32)> {
    match b {
        Some(x) => Some((x.level, x.text@, x.ticks_left)),
        None => None,
    }
}

impl View for App {
    type V = AppV;

    open spec fn view(&self) -> AppV {
        AppV {
            focus: self.focus,
            detail_row: self.detail_row,
            mode: mode_view(self.mode),
            wanted: opt_scope(self.wanted),
            shown: opt_scope(self.shown),
            tasks: self.tasks@,
            task_index: self.task_index as int,
            selection: self.selection@,
            seeds: self.seeds,
            banner: banner_view(self.banner),
            filter: opt_str(self.filter),
            filter_error: opt_str(self.filter_error),
            lists_ready: self.lists_ready,
            tasks_ready: self.tasks_ready,
            syncing: self.syncing,
            rejections: pairs(self.rejections@),
            seeded: self.seeded,
            should_quit: self.should_quit,
            help_max: self.help.max_scroll_spec(),
            help_step: if self.help.visible >= 2 { self.help.visible - 1 } else { 1 },
            cached: self.cached@.map_values(|s: Scope| scope_view(s)),
            download_dir: self.download_dir@,
            to_open: opt_str(self.to_open),
            lists: self.lists@,
            collapsed: collapsed_set(self.collapsed@),
            sidebar_index: self.sidebar_index as int,
        }
    }
}

/// The state with `text` in the banner, for its full time.
pub open spec fn show(v: AppV, level: Level, text: Seq<char>) -> AppV {
    AppV { banner: Some((level, text, BANNER_TICKS)), ..v }
}

/// The search a filter asks for.
pub open spec fn search_of(filter: Option<Seq<char>>) -> Option<Seq<char>> {
    match filter {
        Some(f) => Some(search_query_spec(f)),
        None => None,
    }
}

/// Ask for the scope's seed now, superseding any in flight.
pub open spec fn seed_now_spec(v: AppV) -> (AppV, (Tag, RequestV)) {
    let n = (v.seeds.latest + 1) as u64;
    (
        AppV { seeds: Seeds { latest: n, in_flight: true, again: false }, ..v },
        (Tag::Seed(n), RequestV::Seed(v.wanted, search_of(v.filter))),
    )
}

/// The cache changed: read it again, once the seed in flight lands.
pub open spec fn reseed_spec(v: AppV) -> (AppV, Seq<(Tag, RequestV)>) {
    if v.seeds.in_flight {
        (AppV { seeds: Seeds { again: true, ..v.seeds }, ..v }, Seq::empty())
    } else {
        (seed_now_spec(v).0, seq![seed_now_spec(v).1])
    }
}

/// The sidebar's rows, as their order and the scopes they open go (the
/// counts drawn beside them aside).
pub open spec fn sidebar_rows(v: AppV) -> Seq<EntryV> {
    sidebar_spec(v.lists, v.collapsed, Seq::empty())
}

/// The row at `i` if it is a folder's heading.
pub open spec fn folder_row(rows: Seq<EntryV>, i: int) -> Option<EntryV> {
    if 0 <= i < rows.len() && rows[i] is Folder {
        Some(rows[i])
    } else {
        None
    }
}

/// Whether the scope asked for hasn't reached the screen yet.
pub open spec fn loading(v: AppV) -> bool {
    v.wanted is Some && v.shown != v.wanted
}

proof fn lemma_no_counts(lists: Seq<SidebarList>)
    ensures
        total(lists, Seq::empty()) == 0,
    decreases lists.len(),
{
    if lists.len() > 0 {
        lemma_no_counts(lists.drop_last());
    }
}

fn copy_entry(e: &Entry) -> (c: Entry)
    ensures
        entry_view(c) == entry_view(*e),
{
    match e {
        Entry::View(s) => Entry::View(s.copy()),
        Entry::Folder { name, collapsed, count } => Entry::Folder { name: name.clone(), collapsed: *collapsed, count: *count },
        Entry::List { id, name, in_folder } => Entry::List { id: id.clone(), name: name.clone(), in_folder: *in_folder },
    }
}

proof fn lemma_collapsed_set(v: Seq<String>, f: Seq<char>)
    ensures
        collapsed_set(v).contains(f) <==> strs(v).contains(f),
{
    if collapsed_set(v).contains(f) {
        let k = choose|k: int| 0 <= k < v.len() && #[trigger] v[k]@ == f;
        assert(strs(v)[k] == f);
    }
    if strs(v).contains(f) {
        let k = choose|k: int| 0 <= k < strs(v).len() && strs(v)[k] == f;
        assert(v[k]@ == f);
    }
}

/// `names` with `name` taken out if it is in, else put in.
fn toggle_name(names: &mut Vec<String>, name: &str)
    ensures
        collapsed_set(final(names)@) == toggled(collapsed_set(old(names)@), name@),
{
    let ghost before = strs(names@);
    let ghost other = |x: Seq<char>| x != name@;
    let mut kept: Vec<String> = Vec::new();
    let mut found = false;
    let mut i: usize = 0;
    assert(before.take(0).filter(other) =~= Seq::<Seq<char>>::empty()) by {
        reveal(Seq::filter);
    }
    assert(strs(kept@) =~= Seq::<Seq<char>>::empty());
    while i < names.len()
        invariant
            i <= names@.len(),
            before == strs(names@),
            other == (|x: Seq<char>| x != name@),
            strs(kept@) == before.take(i as int).filter(other),
            found == before.take(i as int).contains(name@),
        decreases names@.len() - i,
    {
        let ghost taken = before.take(i as int);
        assert(before.take(i + 1).drop_last() =~= taken);
        assert(before.take(i + 1) =~= taken.push(before[i as int]));
        assert(before[i as int] == names@[i as int]@);
        proof {
            reveal(Seq::filter);
        }
        if str_eq(names[i].as_str(), name) {
            found = true;
            assert(before.take(i + 1).filter(other) == taken.filter(other));
        } else {
            let c = names[i].clone();
            let ghost old_kept = kept@;
            kept.push(c);
            assert(strs(kept@) =~= strs(old_kept).push(c@));
            assert(before.take(i + 1).filter(other) == taken.filter(other).push(before[i as int]));
            proof {
                if taken.contains(name@) {
                    let k = choose|k: int| 0 <= k < taken.len() && taken[k] == name@;
                    assert(before.take(i + 1)[k] == name@);
                }
            }
        }
        proof {
            if found && !taken.contains(name@) {
                assert(before.take(i + 1)[i as int] == name@);
            }
            let next = before.take(i + 1);
            if next.contains(name@) {
                let k = choose|k: int| 0 <= k < next.len() && next[k] == name@;
                if k < i {
                    assert(taken[k] == name@);
                }
            }
        }
        i = i + 1;
    }
    assert(before.take(names@.len() as int) =~= before);
    let ghost old_set = collapsed_set(names@);
    let ghost old_names = names@;
    broadcast use vstd::seq_lib::group_filter_ensures;
    if found {
        *names = kept;
        assert forall|f: Seq<char>| #[trigger] collapsed_set(names@).contains(f) == old_set.remove(name@).contains(f) by {
            lemma_collapsed_set(names@, f);
            lemma_collapsed_set(old_names, f);
            if strs(names@).contains(f) {
                before.lemma_filter_contains_rev(other, f);
                let k = choose|k: int| 0 <= k < strs(names@).len() && strs(names@)[k] == f;
                assert(other(before.filter(other)[k]));
            }
            if before.contains(f) && f != name@ {
                let j = choose|j: int| 0 <= j < before.len() && before[j] == f;
                assert(other(before[j]));
            }
        }
        assert(collapsed_set(names@) =~= old_set.remove(name@));
        proof {
            lemma_collapsed_set(old_names, name@);
        }
    } else {
        let added = name.to_owned();
        names.push(added);
        assert(strs(names@) =~= before.push(name@));
        assert forall|f: Seq<char>| #[trigger] collapsed_set(names@).contains(f) == old_set.insert(name@).contains(f) by {
            lemma_collapsed_set(names@, f);
            lemma_collapsed_set(old_names, f);
            if strs(names@).contains(f) && f != name@ {
                let k = choose|k: int| 0 <= k < strs(names@).len() && strs(names@)[k] == f;
                assert(before[k] == f);
            }
            if f == name@ {
                assert(strs(names@)[before.len() as int] == f);
            } else if before.contains(f) {
                let j = choose|j: int| 0 <= j < before.len() && before[j] == f;
                assert(strs(names@)[j] == f);
            }
        }
        assert(collapsed_set(names@) =~= old_set.insert(name@));
        proof {
            lemma_collapsed_set(old_names, name@);
        }
    }
}

impl App {
    /// The sidebar's rows.
    fn rows(&self) -> (rows: Vec<Entry>)
        ensures
            entries_view(rows@) == sidebar_rows(self@),
    {
        let no_counts: Vec<(String, u64)> = Vec::new();
        proof {
            assert forall|f: Seq<char>| #[trigger] total(crate::scope::in_folder(self.lists@, f), no_counts@) <= u64::MAX by {
                assert(no_counts@ =~= Seq::<(String, u64)>::empty());
                lemma_no_counts(crate::scope::in_folder(self.lists@, f));
            }
        }
        let rows = sidebar_entries(self.lists.as_slice(), self.collapsed.as_slice(), no_counts.as_slice());
        assert(no_counts@ =~= Seq::<(String, u64)>::empty());
        rows
    }

    /// The sidebar's row under its cursor, if it is a folder's heading.
    fn folder_row(&self) -> (r: Option<Entry>)
        ensures
            match r {
                Some(e) => folder_row(sidebar_rows(self@), self@.sidebar_index) == Some(entry_view(e)),
                None => folder_row(sidebar_rows(self@), self@.sidebar_index) is None,
            },
    {
        let rows = self.rows();
        if self.sidebar_index < rows.len() {
            match &rows[self.sidebar_index] {
                Entry::Folder { .. } => {
                    let e = copy_entry(&rows[self.sidebar_index]);
                    assert(entries_view(rows@)[self.sidebar_index as int] == entry_view(rows@[self.sidebar_index as int]));
                    Some(e)
                },
                _ => {
                    assert(entries_view(rows@)[self.sidebar_index as int] == entry_view(rows@[self.sidebar_index as int]));
                    None
                },
            }
        } else {
            None
        }
    }

    fn show(&mut self, level: Level, text: &str)
        ensures
            final(self).help == old(self).help,
            final(self).diagnostics == old(self).diagnostics,
            final(self)@ == show(old(self)@, level, text@),
    {
        self.banner = Some(Banner::show(level, text));
    }

    /// Ask for the scope's seed now.
    fn seed_now(&mut self) -> (e: Effect)
        requires
            old(self).seeds.latest < u64::MAX,
        ensures
            final(self).help == old(self).help,
            final(self).diagnostics == old(self).diagnostics,
            (final(self)@, effect_view(e)) == seed_now_spec(old(self)@),
    {
        self.seeds.latest = self.seeds.latest + 1;
        self.seeds.in_flight = true;
        self.seeds.again = false;
        let search = match &self.filter {
            Some(f) => Some(search_query(f.as_str())),
            None => None,
        };
        let scope = match &self.wanted {
            Some(s) => Some(s.copy()),
            None => None,
        };
        Effect { tag: Tag::Seed(self.seeds.latest), request: Request::Seed { scope, search } }
    }

    /// Read the cache again, now or once the seed in flight lands.
    pub fn reseed(&mut self) -> (effects: Vec<Effect>)
        requires
            old(self).seeds.latest < u64::MAX,
        ensures
            final(self).help == old(self).help,
            final(self).diagnostics == old(self).diagnostics,
            (final(self)@, effects_view(effects@)) == reseed_spec(old(self)@),
    {
        if self.seeds.in_flight {
            self.seeds.again = true;
            let none: Vec<Effect> = Vec::new();
            assert(effects_view(none@) =~= Seq::empty());
            none
        } else {
            let e = self.seed_now();
            let v = vec![e];
            assert(effects_view(v@) =~= seq![effect_view(e)]);
            v
        }
    }

    /// Whether the scope asked for hasn't reached the screen yet.
    pub fn loading(&self) -> (b: bool)
        ensures
            b == loading(self@),
    {
        match (&self.wanted, &self.shown) {
            (Some(w), Some(s)) => !w.same(s),
            (Some(_), None) => true,
            (None, _) => false,
        }
    }
}

/// An answer as the decisions read it.
pub enum AnswerV {
    Seed(Option<ScopeV>, Seq<Task>, Seq<SidebarList>, bool, bool),
    Applied(Seq<Option<Seq<char>>>, Seq<Seq<char>>),
    Downloaded(Option<Seq<char>>),
    Other,
    /// Its kind, message, undo target and copies to pick from.
    Failed(Seq<char>, Seq<char>, Option<Seq<char>>, Seq<Seq<char>>),
}

pub open spec fn answer_view(r: Result<ResponseData, ErrorPayload>) -> AnswerV {
    match r {
        Ok(ResponseData::Seed(s)) => AnswerV::Seed(opt_scope(s.scope), s.tasks@, s.lists@, s.lists_ready, s.tasks_ready),
        Ok(ResponseData::Applied { items, refused }) => AnswerV::Applied(item_ids(items@), strs(refused@)),
        Ok(ResponseData::Downloaded(p)) => AnswerV::Downloaded(opt_str(p)),
        Ok(ResponseData::Diagnosis(_)) | Ok(ResponseData::Other) => AnswerV::Other,
        Err(e) => AnswerV::Failed(e.kind@, e.message@, opt_str(e.undo_target), strs(e.candidates@)),
    }
}

/// The ID of the task under the cursor; none while loading.
pub open spec fn selected_id(v: AppV) -> Option<Seq<char>> {
    if loading(v) || v.task_index >= v.tasks.len() {
        None
    } else {
        Some(v.tasks[v.task_index].id@)
    }
}

pub open spec fn task_ids(tasks: Seq<Task>) -> Seq<String> {
    tasks.map_values(|t: Task| t.id)
}

/// `cached` with `scope` in it.
pub open spec fn with_cached(cached: Seq<ScopeV>, scope: ScopeV) -> Seq<ScopeV> {
    if cached.contains(scope) {
        cached
    } else {
        cached.push(scope)
    }
}

/// A seed's rows on screen: the scope it read is the one shown (and asked
/// for, when it names one), the selection keeps only rows still shown and
/// is dropped for another scope, and the cursor stays on the same task
/// in the same scope, else goes to the top.
pub open spec fn apply_seed_spec(
    v: AppV,
    scope: Option<ScopeV>,
    tasks: Seq<Task>,
    lists: Seq<SidebarList>,
    lists_ready: bool,
    tasks_ready: bool,
) -> AppV {
    let changed = v.shown != scope;
    let selection = if changed { Set::empty() } else { v.selection };
    let wanted = if scope is Some { scope } else { v.wanted };
    AppV {
        lists,
        sidebar_index: cursor_spec(
            sidebar_spec(lists, v.collapsed, Seq::empty()),
            folder_row(sidebar_rows(v), v.sidebar_index),
            wanted,
            lists,
            v.sidebar_index,
        ),
        lists_ready,
        tasks_ready,
        seeded: true,
        wanted: if scope is Some { scope } else { v.wanted },
        selection: selection.intersect(id_set(task_ids(tasks))),
        tasks,
        shown: scope,
        cached: match scope {
            Some(sc) => if v.filter is None { with_cached(v.cached, sc) } else { v.cached },
            None => v.cached,
        },
        task_index: reseeded_cursor_spec(selected_id(v), !changed, task_ids(tasks), v.task_index),
        ..v
    }
}

/// The views not kept yet, each read ahead.
pub open spec fn prefetch_of(views: Seq<ScopeV>, cached: Seq<ScopeV>) -> Seq<(Tag, RequestV)>
    decreases views.len(),
{
    if views.len() == 0 {
        Seq::empty()
    } else {
        let before = prefetch_of(views.drop_last(), cached);
        if cached.contains(views.last()) {
            before
        } else {
            before.push((Tag::Prefetch, RequestV::Seed(Some(views.last()), None)))
        }
    }
}

/// A seed that failed: a filter mid-typing keeps the last rows, a list
/// deleted elsewhere falls back to the default one, anything else is said.
pub open spec fn seed_failed_spec(v: AppV, kind: Seq<char>, message: Seq<char>) -> (AppV, Seq<(Tag, RequestV)>) {
    if v.filter is Some && kind == "invalid_input"@ {
        (AppV { filter_error: Some(message), ..v }, Seq::empty())
    } else if kind == "not_found"@ && (v.wanted matches Some(ScopeV::List(_))) {
        let w = AppV { wanted: None, ..show(v, Level::Info, "That list is gone; showing Tasks"@) };
        (seed_now_spec(w).0, seq![seed_now_spec(w).1])
    } else {
        (show(v, Level::Error, message), Seq::empty())
    }
}

pub open spec fn quoted(titles: Seq<Seq<char>>) -> Seq<Seq<char>> {
    titles.map_values(|t: Seq<char>| "\""@ + t + "\""@)
}

/// What the banner says once an undo is done.
pub open spec fn undone_text(refused: Seq<Seq<char>>) -> Seq<char> {
    if refused.len() == 0 {
        "Undone"@
    } else {
        "Undone, except "@ + join_spec(quoted(refused), ", "@) + ": changed since, so left alone"@
    }
}

/// What a download's answer does: the file opens only when it was saved
/// in the download directory.
pub open spec fn downloaded_answer_spec(v: AppV, a: AnswerV) -> AppV {
    match a {
        AnswerV::Downloaded(Some(p)) => if in_dir_spec(p, v.download_dir) {
            AppV { to_open: Some(p), ..show(v, Level::Info, "Saved "@ + p) }
        } else {
            show(v, Level::Error, "Saved "@ + p + ", but not opening it: it isn't in the download directory"@)
        },
        AnswerV::Failed(_, m, _, _) => show(v, Level::Error, "Couldn't download it: "@ + m),
        _ => show(v, Level::Error, "The daemon sent an unexpected answer"@),
    }
}

/// What the latest seed's answer does: its rows go on screen (the views
/// read ahead after the first), or its failure is handled.
#[verifier::opaque]
pub open spec fn seed_outcome(v1: AppV, a: AnswerV) -> (AppV, Seq<(Tag, RequestV)>) {
    match a {
        AnswerV::Seed(scope, tasks, lists, lists_ready, tasks_ready) => {
            let after = apply_seed_spec(v1, scope, tasks, lists, lists_ready, tasks_ready);
            (after, if !v1.seeded && after.lists_ready { prefetch_of(views_spec(), after.cached) } else { Seq::empty() })
        },
        AnswerV::Failed(kind, message, _, _) => seed_failed_spec(v1, kind, message),
        _ => (show(v1, Level::Error, "The daemon sent an unexpected answer"@), Seq::empty()),
    }
}

/// What the answer to the seed numbered `n` does: one that is no longer
/// the latest is dropped; the latest lands, and a change that came while
/// it was in flight reads the cache again unless it asked for more.
pub open spec fn seed_answered_spec(v: AppV, n: u64, a: AnswerV) -> (AppV, Seq<(Tag, RequestV)>) {
    if n != v.seeds.latest {
        (v, Seq::empty())
    } else {
        let v1 = AppV { seeds: Seeds { in_flight: false, ..v.seeds }, ..v };
        let (v2, e) = seed_outcome(v1, a);
        let v3 = AppV { seeds: Seeds { again: false, ..v2.seeds }, ..v2 };
        if v2.seeds.again && e.len() == 0 {
            (seed_now_spec(v3).0, seq![seed_now_spec(v3).1])
        } else {
            (v3, e)
        }
    }
}

/// The IDs of the tasks the daemon sent.
pub open spec fn item_ids(items: Seq<Members>) -> Seq<Option<Seq<char>>> {
    items.map_values(|m: Members| text_at(JsonV::Object(members_model(m@)), "id"@))
}

/// `tasks` without the first one whose ID is `id`.
pub open spec fn remove_first(tasks: Seq<Task>, id: Seq<char>) -> Seq<Task>
    decreases tasks.len(),
{
    if tasks.len() == 0 {
        tasks
    } else if tasks[0].id@ == id {
        tasks.drop_first()
    } else {
        seq![tasks[0]] + remove_first(tasks.drop_first(), id)
    }
}

/// `tasks` with a row taken out for each of `ids`, in turn.
pub open spec fn delete_rows(tasks: Seq<Task>, ids: Seq<Option<Seq<char>>>) -> Seq<Task>
    decreases ids.len(),
{
    if ids.len() == 0 {
        tasks
    } else {
        let rest = match ids.last() {
            Some(id) => remove_first(delete_rows(tasks, ids.drop_last()), id),
            None => delete_rows(tasks, ids.drop_last()),
        };
        rest
    }
}

/// A delete's answer drawn at once, before the change's event: the
/// deleted rows go, the cursor stays within the rows and the selection
/// keeps only rows still shown. Nothing is drawn before the first seed.
pub open spec fn deleted_spec(v: AppV, ids: Seq<Option<Seq<char>>>) -> AppV {
    if v.shown is None {
        v
    } else {
        let t = delete_rows(v.tasks, ids);
        let last = if t.len() == 0 { 0 } else { t.len() - 1 };
        AppV {
            tasks: t,
            task_index: if v.task_index < last { v.task_index } else { last },
            selection: v.selection.intersect(id_set(task_ids(t))),
            ..v
        }
    }
}

/// What the answer to the request tagged `tag` does; `None` for a
/// write's applied rows other than a delete's, which need the list order
/// of the changed tasks, and for a folder change's applied lists, which
/// `list_write_spec` says (the folder names are strings the answer holds).
pub open spec fn answered_spec(v: AppV, tag: Tag, a: AnswerV) -> Option<(AppV, Seq<(Tag, RequestV)>)> {
    match tag {
        Tag::Seed(n) => Some(seed_answered_spec(v, n, a)),
        Tag::Prefetch => match a {
            AnswerV::Seed(Some(scope), _, _, _, _) => Some((AppV { cached: with_cached(v.cached, scope), ..v }, Seq::empty())),
            _ => Some((v, Seq::empty())),
        },
        Tag::Download => Some((downloaded_answer_spec(v, a), Seq::empty())),
        Tag::Undo => match a {
            AnswerV::Applied(_, refused) => Some(reseed_spec(show(v, Level::Info, undone_text(refused)))),
            AnswerV::Failed(_, message, target, candidates) => if target is Some && candidates.len() > 0 {
                Some((AppV { mode: ModeV::Picker(target->Some_0, candidates, 0), ..v }, Seq::empty()))
            } else {
                Some((show(v, Level::Error, message), Seq::empty()))
            },
            _ => Some((v, Seq::empty())),
        },
        Tag::Sync | Tag::Write(_) => match a {
            AnswerV::Failed(_, message, _, _) => Some((show(v, Level::Error, message), Seq::empty())),
            AnswerV::Applied(ids, _) => if tag == Tag::Write(Write::Delete) {
                Some((deleted_spec(v, ids), Seq::empty()))
            } else if tag is Write {
                None
            } else {
                Some((v, Seq::empty()))
            },
            _ => Some((v, Seq::empty())),
        },
        Tag::Diagnostics(_) => Some((v, Seq::empty())),
        Tag::Folders => match a {
            AnswerV::Failed(_, message, _, _) => Some((show(v, Level::Error, message), Seq::empty())),
            AnswerV::Applied(_, _) => None,
            _ => Some((v, Seq::empty())),
        },
    }
}

/// The items of a folder change's applied answer.
pub open spec fn folder_items(tag: Tag, result: Result<ResponseData, ErrorPayload>) -> Option<Seq<Members>> {
    match (tag, result) {
        (Tag::Folders, Ok(ResponseData::Applied { items, .. })) => Some(items@),
        _ => None,
    }
}

/// A text field of an item.
pub open spec fn item_text(item: Members, key: Seq<char>) -> Option<Seq<char>> {
    text_at(JsonV::Object(members_model(item@)), key)
}

/// Whether `folders` are the items' folders, string for string.
pub open spec fn folders_read(items: Seq<Members>, folders: Seq<Option<String>>) -> bool {
    &&& folders.len() == items.len()
    &&& forall|k: int| 0 <= k < items.len() ==> opt_view(#[trigger] folders[k]) == item_text(items[k], "folder"@)
}

/// The lists once each item of a folder change is drawn, in turn: the
/// list with its ID moves to its folder; an item with no ID is skipped.
pub open spec fn lists_after(lists: Seq<SidebarList>, items: Seq<Members>, folders: Seq<Option<String>>) -> Seq<SidebarList>
    decreases items.len(),
{
    if items.len() == 0 || folders.len() != items.len() {
        lists
    } else {
        let before = lists_after(lists, items.drop_last(), folders.drop_last());
        match item_text(items.last(), "id"@) {
            Some(id) => moved_to_folder(before, id, folders.last()),
            None => before,
        }
    }
}

/// A folder change's applied answer, drawn at once before the seed that
/// follows: each list moves to its folder; for one list the banner says
/// where it went; the sidebar's cursor goes back to its row.
pub open spec fn list_write_spec(v: AppV, items: Seq<Members>, folders: Seq<Option<String>>) -> AppV {
    let lists = lists_after(v.lists, items, folders);
    let rows = sidebar_rows(v);
    let row = if 0 <= v.sidebar_index < rows.len() { Some(rows[v.sidebar_index]) } else { None };
    let w = AppV {
        lists,
        sidebar_index: cursor_spec(sidebar_spec(lists, v.collapsed, Seq::empty()), row, v.wanted, lists, v.sidebar_index),
        ..v
    };
    if items.len() == 1 {
        let name = match item_text(items[0], "displayName"@) {
            Some(n) => n,
            None => "The list"@,
        };
        show(w, Level::Info, folder_moved_text(name, item_text(items[0], "folder"@)))
    } else {
        w
    }
}

/// Whether `after` is `before` with a folder change's applied `items`
/// drawn, each folder the string its item holds.
pub open spec fn folders_answered(before: AppV, after: AppV, items: Seq<Members>) -> bool {
    exists|folders: Seq<Option<String>>| folders_read(items, folders) && after == list_write_spec(before, items, folders)
}

/// The diagnostics page's data an answer is read as: the part's data, the
/// daemon's message for an error.
pub open spec fn part_data_spec(result: Result<ResponseData, ErrorPayload>) -> Result<PartData, String> {
    match result {
        Ok(ResponseData::Diagnosis(d)) => Ok(d),
        Ok(_) => Ok(PartData::Other),
        Err(e) => Err(e.message),
    }
}

fn part_data(result: Result<ResponseData, ErrorPayload>) -> (r: Result<PartData, String>)
    ensures
        r == part_data_spec(result),
{
    match result {
        Ok(ResponseData::Diagnosis(d)) => Ok(d),
        Ok(_) => Ok(PartData::Other),
        Err(e) => Err(e.message),
    }
}

/// The diagnostics page's three requests, each tagged with its part.
pub open spec fn diagnose_effects() -> Seq<(Tag, RequestV)> {
    seq![
        (Tag::Diagnostics(Part::Status), RequestV::Status),
        (Tag::Diagnostics(Part::Doctor), RequestV::Doctor),
        (Tag::Diagnostics(Part::Unknown), RequestV::UnknownOps),
    ]
}

fn diagnose_requests() -> (effects: Vec<Effect>)
    ensures
        effects_view(effects@) == diagnose_effects(),
{
    let effects = vec![
        Effect { tag: Tag::Diagnostics(Part::Status), request: Request::Status },
        Effect { tag: Tag::Diagnostics(Part::Doctor), request: Request::Doctor },
        Effect { tag: Tag::Diagnostics(Part::Unknown), request: Request::UnknownOps },
    ];
    assert(effects_view(effects@) =~= diagnose_effects());
    effects
}

/// The diagnostics page's data once a key is handled in mode `m`: `D`
/// opens the page from its top and asks again; on the page, `r` asks
/// again and `j` and `k` scroll it.
pub open spec fn diagnostics_after(d: Diagnostics, v: AppV, action: Action) -> Diagnostics {
    match (v.mode, action) {
        (ModeV::Normal, Action::Diagnostics) => opened_spec(d),
        (ModeV::Palette(q, i), Action::Submit) => if palette_choice(v, q, i) == Some(CommandV::Run(Action::Diagnostics)) {
            opened_spec(d)
        } else {
            d
        },
        (ModeV::Diagnostics, Action::Refresh) => refreshed_spec(d),
        (ModeV::Diagnostics, Action::MoveDown) => scrolled_page(d, true),
        (ModeV::Diagnostics, Action::MoveUp) => scrolled_page(d, false),
        _ => d,
    }
}

/// An answer to a seed that is no longer the latest changes nothing and
/// asks for nothing: a scope left behind never paints over the new one.
pub proof fn law_a_stale_seed_changes_nothing(v: AppV, n: u64, a: AnswerV)
    requires
        n != v.seeds.latest,
    ensures
        answered_spec(v, Tag::Seed(n), a) == Some((v, Seq::<(Tag, RequestV)>::empty())),
{
}

/// A burst of changes costs one read: while a seed is in flight, asking
/// again sends nothing and marks it to be asked once that one lands; and
/// when it lands with nothing else asked, exactly one seed goes out.
pub proof fn law_a_burst_costs_one_read(v: AppV, a: AnswerV)
    requires
        v.seeds.in_flight,
        !(a is Seed),
        !(a matches AnswerV::Failed(kind, _, _, _) && (kind == "invalid_input"@ || kind == "not_found"@)),
    ensures
        reseed_spec(v).1.len() == 0,
        reseed_spec(v).0.seeds.again,
        ({
            let w = reseed_spec(v).0;
            let r = answered_spec(w, Tag::Seed(w.seeds.latest), a);
            &&& r is Some
            &&& r->Some_0.1.len() == 1
            &&& r->Some_0.1[0].0 == Tag::Seed((w.seeds.latest + 1) as u64)
            &&& !r->Some_0.0.seeds.again
        }),
{
    reveal(seed_outcome);
}

impl App {
    fn selected_id(&self) -> (r: Option<String>)
        ensures
            opt_str(r) == selected_id(self@),
    {
        if self.loading() || self.task_index >= self.tasks.len() {
            None
        } else {
            Some(self.tasks[self.task_index].id.clone())
        }
    }

    fn is_cached(&self, scope: &Scope) -> (b: bool)
        ensures
            b == self@.cached.contains(scope_view(*scope)),
    {
        let ghost c = self@.cached;
        let mut i: usize = 0;
        while i < self.cached.len()
            invariant
                i <= self.cached.len(),
                c == self.cached@.map_values(|s: Scope| scope_view(s)),
                forall|j: int| 0 <= j < i ==> c[j] != scope_view(*scope),
            decreases self.cached.len() - i,
        {
            if self.cached[i].same(scope) {
                assert(c[i as int] == scope_view(*scope));
                return true;
            }
            i = i + 1;
        }
        false
    }

    fn cache_scope(&mut self, scope: &Scope)
        ensures
            final(self).help == old(self).help,
            final(self).diagnostics == old(self).diagnostics,
            final(self)@ == (AppV { cached: with_cached(old(self)@.cached, scope_view(*scope)), ..old(self)@ }),
    {
        if !self.is_cached(scope) {
            let ghost before = self.cached@;
            self.cached.push(scope.copy());
            assert(self.cached@.map_values(|s: Scope| scope_view(s)) =~= before.map_values(|s: Scope| scope_view(s)).push(scope_view(*scope)));
        }
        assert(self@ =~= AppV { cached: with_cached(old(self)@.cached, scope_view(*scope)), ..old(self)@ });
    }
}

fn ids_of(tasks: &Vec<Task>) -> (ids: Vec<String>)
    ensures
        ids@ == task_ids(tasks@),
{
    let mut ids: Vec<String> = Vec::new();
    let mut i: usize = 0;
    while i < tasks.len()
        invariant
            i <= tasks.len(),
            ids@ == task_ids(tasks@.subrange(0, i as int)),
        decreases tasks.len() - i,
    {
        ids.push(tasks[i].id.clone());
        assert(ids@ =~= task_ids(tasks@.subrange(0, i + 1)));
        i = i + 1;
    }
    assert(tasks@.subrange(0, tasks.len() as int) =~= tasks@);
    ids
}

impl App {
    /// A seed's rows on screen.
    fn apply_seed(&mut self, seed: SeedAnswer)
        ensures
            final(self).help == old(self).help,
            final(self).diagnostics == old(self).diagnostics,
            final(self)@ == apply_seed_spec(
                old(self)@,
                opt_scope(seed.scope),
                seed.tasks@,
                seed.lists@,
                seed.lists_ready,
                seed.tasks_ready,
            ),
    {
        let ghost v = self@;
        let row = self.folder_row();
        let kept = self.selected_id();
        let changed = match (&self.shown, &seed.scope) {
            (Some(a), Some(b)) => !a.same(b),
            (None, None) => false,
            _ => true,
        };
        assert(changed == (v.shown != opt_scope(seed.scope)));
        let ids = ids_of(&seed.tasks);
        let at = match &kept {
            Some(id) => reseeded_cursor(Some(id.as_str()), !changed, &ids, self.task_index),
            None => reseeded_cursor(None, !changed, &ids, self.task_index),
        };
        self.lists_ready = seed.lists_ready;
        self.tasks_ready = seed.tasks_ready;
        self.seeded = true;
        if let Some(scope) = &seed.scope {
            self.wanted = Some(scope.copy());
        }
        if changed {
            self.selection.clear();
        }
        self.selection.prune(&ids);
        if let Some(scope) = &seed.scope {
            if self.filter.is_none() {
                self.cache_scope(scope);
            }
        }
        self.lists = seed.lists;
        let wanted = match &self.wanted {
            Some(w) => Some(w.copy()),
            None => None,
        };
        let rows = self.rows();
        self.sidebar_index = sidebar_cursor(rows.as_slice(), row, wanted, self.lists.as_slice(), self.sidebar_index);
        self.tasks = seed.tasks;
        self.shown = seed.scope;
        self.task_index = at;
        assert(self@ =~= apply_seed_spec(v, opt_scope(seed.scope), seed.tasks@, seed.lists@, seed.lists_ready, seed.tasks_ready));
    }

    /// Read ahead every view not kept yet.
    fn prefetch_views(&self) -> (effects: Vec<Effect>)
        ensures
            effects_view(effects@) == prefetch_of(views_spec(), self@.cached),
    {
        let all = views();
        let ghost vs = views_spec();
        let mut effects: Vec<Effect> = Vec::new();
        let mut i: usize = 0;
        while i < all.len()
            invariant
                i <= all.len(),
                all@.map_values(|s: Scope| scope_view(s)) == vs,
                vs == views_spec(),
                effects_view(effects@) == prefetch_of(vs.subrange(0, i as int), self@.cached),
            decreases all.len() - i,
        {
            assert(vs.subrange(0, i + 1).drop_last() =~= vs.subrange(0, i as int));
            assert(vs[i as int] == scope_view(all@[i as int]));
            if !self.is_cached(&all[i]) {
                let e = Effect { tag: Tag::Prefetch, request: Request::Seed { scope: Some(all[i].copy()), search: None } };
                let ghost before = effects@;
                effects.push(e);
                assert(effects_view(effects@) =~= effects_view(before).push(effect_view(e)));
            }
            i = i + 1;
        }
        assert(vs.subrange(0, all.len() as int) =~= vs);
        effects
    }

    /// A seed that failed.
    fn seed_failed(&mut self, error: ErrorPayload) -> (effects: Vec<Effect>)
        requires
            old(self).seeds.latest < u64::MAX,
        ensures
            final(self).help == old(self).help,
            final(self).diagnostics == old(self).diagnostics,
            (final(self)@, effects_view(effects@)) == seed_failed_spec(old(self)@, error.kind@, error.message@),
    {
        let ghost v = self@;
        let none: Vec<Effect> = Vec::new();
        assert(effects_view(none@) =~= Seq::empty());
        if self.filter.is_some() && str_eq(error.kind.as_str(), "invalid_input") {
            self.filter_error = Some(error.message);
            return none;
        }
        let on_list = match &self.wanted {
            Some(Scope::List { .. }) => true,
            _ => false,
        };
        if str_eq(error.kind.as_str(), "not_found") && on_list {
            self.show(Level::Info, "That list is gone; showing Tasks");
            self.wanted = None;
            let e = self.seed_now();
            let effects = vec![e];
            assert(effects_view(effects@) =~= seq![effect_view(e)]);
            return effects;
        }
        self.show(Level::Error, error.message.as_str());
        none
    }
}

/// What the banner says once an undo is done.
fn undone(refused: &Vec<String>) -> (text: String)
    ensures
        text@ == undone_text(strs(refused@)),
{
    if refused.len() == 0 {
        return "Undone".to_string();
    }
    let mut titles: Vec<String> = Vec::new();
    let mut i: usize = 0;
    while i < refused.len()
        invariant
            i <= refused.len(),
            strings_view(titles@) == quoted(strs(refused@.subrange(0, i as int))),
        decreases refused.len() - i,
    {
        let a = concat("\"", refused[i].as_str());
        let q = concat(a.as_str(), "\"");
        let ghost before = titles@;
        titles.push(q);
        assert(strings_view(titles@) =~= strings_view(before).push(q@));
        assert(strs(refused@.subrange(0, i + 1)) =~= strs(refused@.subrange(0, i as int)).push(refused@[i as int]@));
        assert(quoted(strs(refused@.subrange(0, i + 1))) =~= quoted(strs(refused@.subrange(0, i as int))).push(q@));
        i = i + 1;
    }
    assert(refused@.subrange(0, refused.len() as int) =~= refused@);
    let joined = join(&titles, ", ");
    let a = concat("Undone, except ", joined.as_str());
    concat(a.as_str(), ": changed since, so left alone")
}

impl App {
    /// What the latest seed's answer does.
    fn seed_landed(&mut self, result: Result<ResponseData, ErrorPayload>) -> (effects: Vec<Effect>)
        requires
            old(self).seeds.latest < u64::MAX,
        ensures
            final(self).help == old(self).help,
            final(self).diagnostics == old(self).diagnostics,
            seed_outcome(old(self)@, answer_view(result)) == (final(self)@, effects_view(effects@)),
            final(self).seeds.latest <= old(self).seeds.latest + 1,
    {
        reveal(seed_outcome);
        let none: Vec<Effect> = Vec::new();
        assert(effects_view(none@) =~= Seq::empty());
        match result {
            Ok(ResponseData::Seed(seed)) => {
                let first = !self.seeded;
                self.apply_seed(seed);
                if first && self.lists_ready {
                    self.prefetch_views()
                } else {
                    none
                }
            },
            Err(error) => self.seed_failed(error),
            Ok(_) => {
                self.show(Level::Error, "The daemon sent an unexpected answer");
                none
            },
        }
    }

    /// The answer to the seed request numbered `n`.
    #[verifier::spinoff_prover]
    fn answer_seed(&mut self, n: u64, result: Result<ResponseData, ErrorPayload>) -> (effects: Vec<Effect>)
        requires
            old(self).seeds.latest < u64::MAX - 1,
        ensures
            final(self).help == old(self).help,
            final(self).diagnostics == old(self).diagnostics,
            seed_answered_spec(old(self)@, n, answer_view(result)) == (final(self)@, effects_view(effects@)),
    {
        let none: Vec<Effect> = Vec::new();
        assert(effects_view(none@) =~= Seq::empty());
        if n != self.seeds.latest {
            return none;
        }
        let ghost v = self@;
        let ghost a = answer_view(result);
        self.seeds.in_flight = false;
        let ghost v1 = self@;
        assert(v1 == AppV { seeds: Seeds { in_flight: false, ..v.seeds }, ..v });
        let mut effects = self.seed_landed(result);
        let ghost v2 = self@;
        let ghost e2 = effects_view(effects@);
        assert((v2, e2) == seed_outcome(v1, a));
        let again = self.seeds.again;
        self.seeds.again = false;
        let ghost v3 = self@;
        assert(v3 == AppV { seeds: Seeds { again: false, ..v2.seeds }, ..v2 });
        if again && effects.len() == 0 {
            let e = self.seed_now();
            effects = vec![e];
            assert(effects_view(effects@) =~= seq![effect_view(e)]);
        }
        effects
    }

    /// The answer to a download.
    fn answer_download(&mut self, result: Result<ResponseData, ErrorPayload>)
        ensures
            final(self).help == old(self).help,
            final(self).diagnostics == old(self).diagnostics,
            final(self)@ == downloaded_answer_spec(old(self)@, answer_view(result)),
    {
        let answer = match result {
            Ok(ResponseData::Downloaded(p)) => DownloadAnswer::Saved(p),
            Err(error) => DownloadAnswer::Failed(error.message),
            Ok(_) => DownloadAnswer::Saved(None),
        };
        match downloaded(answer, self.download_dir.as_str()) {
            Downloaded::Open { path, banner } => {
                self.show(Level::Info, banner.as_str());
                self.to_open = Some(path);
            },
            Downloaded::Error(text) => self.show(Level::Error, text.as_str()),
        }
    }

    /// The answer to an undo.
    fn answer_undo(&mut self, result: Result<ResponseData, ErrorPayload>) -> (effects: Vec<Effect>)
        requires
            old(self).seeds.latest < u64::MAX,
        ensures
            final(self).help == old(self).help,
            final(self).diagnostics == old(self).diagnostics,
            answered_spec(old(self)@, Tag::Undo, answer_view(result)) == Some((final(self)@, effects_view(effects@))),
    {
        let none: Vec<Effect> = Vec::new();
        assert(effects_view(none@) =~= Seq::empty());
        match result {
            Ok(ResponseData::Applied { refused, .. }) => {
                let text = undone(&refused);
                self.show(Level::Info, text.as_str());
                self.reseed()
            },
            Err(error) => {
                match error.undo_target {
                    Some(target) => if error.candidates.len() > 0 {
                        self.mode = Mode::Picker { target, candidates: error.candidates, index: 0 };
                    } else {
                        self.show(Level::Error, error.message.as_str());
                    },
                    None => self.show(Level::Error, error.message.as_str()),
                }
                none
            },
            Ok(_) => none,
        }
    }

    /// The daemon's answer to the request tagged `tag`: `None` for a
    /// write's applied rows other than a delete's, which this library does
    /// not draw, the state then unchanged.
    pub fn answered(&mut self, tag: Tag, result: Result<ResponseData, ErrorPayload>) -> (r: Option<Vec<Effect>>)
        requires
            old(self).seeds.latest < u64::MAX - 1,
        ensures
            final(self).help == old(self).help,
            match tag {
                Tag::Diagnostics(part) => diagnosed_spec(
                    old(self).diagnostics,
                    final(self).diagnostics,
                    part,
                    part_data_spec(result),
                ),
                _ => final(self).diagnostics == old(self).diagnostics,
            },
            folder_items(tag, result) is None ==> match answered_spec(old(self)@, tag, answer_view(result)) {
                Some((after, effects)) => r is Some && final(self)@ == after && effects_view(r->Some_0@) == effects,
                None => r is None && final(self)@ == old(self)@,
            },
            folder_items(tag, result) is Some ==> r is Some && r->Some_0@.len() == 0 && folders_answered(
                old(self)@,
                final(self)@,
                folder_items(tag, result)->Some_0,
            ),
    {
        let none: Vec<Effect> = Vec::new();
        assert(effects_view(none@) =~= Seq::empty());
        match tag {
            Tag::Seed(n) => Some(self.answer_seed(n, result)),
            Tag::Prefetch => {
                if let Ok(ResponseData::Seed(seed)) = result {
                    if let Some(scope) = &seed.scope {
                        self.cache_scope(scope);
                    }
                }
                Some(none)
            },
            Tag::Download => {
                self.answer_download(result);
                Some(none)
            },
            Tag::Undo => Some(self.answer_undo(result)),
            Tag::Diagnostics(part) => {
                let data = part_data(result);
                self.diagnostics.diagnosed(part, data);
                Some(none)
            },
            Tag::Folders => match result {
                Err(error) => {
                    self.show(Level::Error, error.message.as_str());
                    Some(none)
                },
                Ok(ResponseData::Applied { items, .. }) => {
                    self.apply_list_write(&items);
                    Some(none)
                },
                Ok(_) => Some(none),
            },
            Tag::Sync | Tag::Write(_) => match result {
                Err(error) => {
                    self.show(Level::Error, error.message.as_str());
                    Some(none)
                },
                Ok(ResponseData::Applied { items, .. }) => {
                    if let Tag::Write(Write::Delete) = tag {
                        self.apply_delete(&items);
                        Some(none)
                    } else if let Tag::Write(_) = tag {
                        None
                    } else {
                        Some(none)
                    }
                },
                Ok(_) => Some(none),
            },
        }
    }
}

/// The tasks among `tasks` that are selected, in the order shown.
pub open spec fn chosen(tasks: Seq<Task>, selection: Set<Seq<char>>) -> Seq<Task>
    decreases tasks.len(),
{
    if tasks.len() == 0 {
        Seq::empty()
    } else {
        let before = chosen(tasks.drop_last(), selection);
        if selection.contains(tasks.last().id@) {
            before.push(tasks.last())
        } else {
            before
        }
    }
}

/// The tasks an action takes: the selection, in the order shown, or else
/// the task under the cursor; none while loading.
pub open spec fn targets_spec(v: AppV) -> Seq<Task> {
    if loading(v) {
        Seq::empty()
    } else if v.selection == Set::<Seq<char>>::empty() {
        if v.task_index < v.tasks.len() {
            seq![v.tasks[v.task_index]]
        } else {
            Seq::empty()
        }
    } else {
        chosen(v.tasks, v.selection)
    }
}

pub open spec fn ids_spec(tasks: Seq<Task>) -> Seq<Seq<char>> {
    tasks.map_values(|t: Task| t.id@)
}

pub open spec fn done_spec(tasks: Seq<Task>) -> Seq<bool> {
    tasks.map_values(|t: Task| t.completed)
}

/// The IDs of the open tasks among `ids`, `done` saying which are
/// completed.
pub open spec fn open_ids(ids: Seq<Seq<char>>, done: Seq<bool>) -> Seq<Seq<char>>
    decreases ids.len(),
{
    if ids.len() == 0 {
        Seq::empty()
    } else {
        let before = open_ids(ids.drop_last(), done.take(ids.len() - 1));
        if done[ids.len() - 1] {
            before
        } else {
            before.push(ids.last())
        }
    }
}

/// `x` on the targets: completes the open ones; when all are completed,
/// reopens them all.
pub open spec fn toggle_complete_spec(v: AppV) -> (AppV, Seq<(Tag, RequestV)>) {
    let t = targets_spec(v);
    let open = open_ids(ids_spec(t), done_spec(t));
    if t.len() == 0 {
        (v, Seq::empty())
    } else {
        let cleared = AppV { selection: Set::empty(), ..v };
        if open.len() == 0 {
            (cleared, seq![(Tag::Write(Write::Reopen), RequestV::Reopen(ids_spec(t)))])
        } else {
            (cleared, seq![(Tag::Write(Write::Complete), RequestV::Complete(open))])
        }
    }
}

/// Whether a task is still open.
pub open spec fn is_open(t: Task) -> bool {
    !t.completed
}

proof fn lemma_open_ids(t: Seq<Task>)
    ensures
        open_ids(ids_spec(t), done_spec(t)) == ids_spec(t.filter(|x: Task| is_open(x))),
    decreases t.len(),
{
    reveal(Seq::filter);
    if t.len() > 0 {
        let rest = t.drop_last();
        lemma_open_ids(rest);
        assert(ids_spec(t).drop_last() =~= ids_spec(rest));
        assert(done_spec(t).take(t.len() - 1) =~= done_spec(rest));
        let f = |x: Task| is_open(x);
        if is_open(t.last()) {
            assert(ids_spec(rest.filter(f).push(t.last())) =~= ids_spec(rest.filter(f)).push(t.last().id@));
        }
    }
}

/// `x` on targets: one write, the selection cleared and nothing else
/// changed; it completes exactly the open targets, in the order shown,
/// and only when every target is completed does it reopen them all.
pub proof fn law_toggle_complete(v: AppV)
    requires
        targets_spec(v).len() > 0,
    ensures
        toggle_complete_spec(v).1.len() == 1,
        toggle_complete_spec(v).0 == (AppV { selection: Set::empty(), ..v }),
        targets_spec(v).filter(|x: Task| is_open(x)).len() == 0 <==> forall|i: int|
            0 <= i < targets_spec(v).len() ==> (#[trigger] targets_spec(v)[i]).completed,
        targets_spec(v).filter(|x: Task| is_open(x)).len() > 0 ==> toggle_complete_spec(v).1[0] == (
            Tag::Write(Write::Complete),
            RequestV::Complete(ids_spec(targets_spec(v).filter(|x: Task| is_open(x)))),
        ),
        targets_spec(v).filter(|x: Task| is_open(x)).len() == 0 ==> toggle_complete_spec(v).1[0] == (
            Tag::Write(Write::Reopen),
            RequestV::Reopen(ids_spec(targets_spec(v))),
        ),
{
    let t = targets_spec(v);
    let f = |x: Task| is_open(x);
    lemma_open_ids(t);
    broadcast use vstd::seq_lib::group_filter_ensures;
    if t.filter(f).len() > 0 {
        assert(f(t.filter(f)[0]));
    }
    assert((forall|i: int| 0 <= i < t.len() ==> (#[trigger] t[i]).completed) ==> t.filter(f).len() == 0) by {
        if t.filter(f).len() > 0 {
            let x = t.filter(f)[0];
            assert(t.filter(f).contains(x));
            t.lemma_filter_contains_rev(f, x);
            assert(is_open(x));
        }
    }
    assert(t.filter(f).len() == 0 ==> forall|i: int| 0 <= i < t.len() ==> (#[trigger] t[i]).completed) by {
        if t.filter(f).len() == 0 {
            assert forall|i: int| 0 <= i < t.len() implies (#[trigger] t[i]).completed by {
                if !t[i].completed {
                    assert(f(t[i]));
                    assert(t.filter(f).contains(t[i]));
                }
            }
        }
    }
}

pub open spec fn titles_spec(tasks: Seq<Task>) -> Seq<Seq<char>> {
    tasks.map_values(|t: Task| t.title@)
}

/// Esc with nothing selected: the filter goes, and the scope is read
/// again without it.
pub open spec fn clear_filter_spec(v: AppV) -> (AppV, Seq<(Tag, RequestV)>) {
    if v.filter is None {
        (v, Seq::empty())
    } else {
        let w = AppV { filter: None, filter_error: None, ..v };
        (seed_now_spec(w).0, seq![seed_now_spec(w).1])
    }
}

pub open spec fn still_loading_text() -> Seq<char> {
    "Still loading this list; try again in a moment"@
}

pub open spec fn pane_left(p: Pane) -> Pane {
    if p == Pane::Detail { Pane::Tasks } else { Pane::Sidebar }
}

pub open spec fn pane_right(p: Pane) -> Pane {
    if p == Pane::Sidebar { Pane::Tasks } else { Pane::Detail }
}

pub open spec fn pane_next(p: Pane) -> Pane {
    match p {
        Pane::Sidebar => Pane::Tasks,
        Pane::Tasks => Pane::Detail,
        Pane::Detail => Pane::Sidebar,
    }
}

/// How many steps a task has.
pub open spec fn steps_of(task: Task) -> nat {
    match task.steps {
        Some((_, total)) => total as nat,
        None => 0,
    }
}

/// The task under the cursor; none while loading.
pub open spec fn selected_task(v: AppV) -> Option<Task> {
    if loading(v) || v.task_index >= v.tasks.len() {
        None
    } else {
        Some(v.tasks[v.task_index])
    }
}

/// Whether the detail pane has focus with its cursor on the steps or the
/// link of the task under the cursor.
pub open spec fn on_child_row(v: AppV) -> bool {
    v.focus == Pane::Detail && match selected_task(v) {
        Some(t) => {
            let row = match v.detail_row {
                DetailRow::Step(at) => if at >= steps_of(t) {
                    if steps_of(t) == 0 { DetailRow::Steps } else { DetailRow::Step((steps_of(t) - 1) as usize) }
                } else {
                    v.detail_row
                },
                _ => v.detail_row,
            };
            row is Steps || row is Step || row is Link
        },
        None => false,
    }
}

/// The sidebar's cursor moved to row `i`: a list or a view is asked for at
/// once, without the filter or the selection of the old one; a folder's
/// heading shows nothing of its own, so the tasks on screen stay.
pub open spec fn open_entry_spec(v: AppV, i: int) -> (AppV, Seq<(Tag, RequestV)>) {
    let v1 = AppV { sidebar_index: i, ..v };
    let rows = sidebar_rows(v);
    if 0 <= i < rows.len() && entry_scope(rows[i]) is Some {
        let v2 = AppV {
            filter: None,
            filter_error: None,
            selection: Set::empty(),
            wanted: entry_scope(rows[i]),
            ..v1
        };
        (seed_now_spec(v2).0, seq![seed_now_spec(v2).1])
    } else {
        (v1, Seq::empty())
    }
}

/// Enter or Space: in the sidebar, a folder's heading collapses or
/// expands, the cursor staying on it, and any other row moves to the task
/// list; elsewhere nothing.
pub open spec fn open_row_spec(v: AppV) -> (AppV, Seq<(Tag, RequestV)>) {
    let none = Seq::<(Tag, RequestV)>::empty();
    let rows = sidebar_rows(v);
    let i = v.sidebar_index;
    if v.focus != Pane::Sidebar || !(0 <= i < rows.len()) {
        (v, none)
    } else {
        match rows[i] {
            EntryV::Folder(name, _, _) => {
                let c = toggled(v.collapsed, name);
                (
                    AppV {
                        collapsed: c,
                        sidebar_index: cursor_spec(sidebar_spec(v.lists, c, Seq::empty()), Some(rows[i]), v.wanted, v.lists, i),
                        ..v
                    },
                    none,
                )
            },
            _ => (AppV { focus: Pane::Tasks, ..v }, none),
        }
    }
}

/// Moving the sidebar's cursor onto a list or a view asks for exactly
/// that scope's rows, unfiltered, as the newest seed, and drops the old
/// scope's filter and selection; onto a folder's heading, it asks for
/// nothing and leaves the tasks on screen.
pub proof fn law_a_sidebar_row_asks_for_its_scope(v: AppV, i: int)
    requires
        0 <= i < sidebar_rows(v).len(),
    ensures
        entry_scope(sidebar_rows(v)[i]) is Some ==> {
            let (w, effects) = open_entry_spec(v, i);
            &&& effects == seq![(Tag::Seed((v.seeds.latest + 1) as u64), RequestV::Seed(entry_scope(sidebar_rows(v)[i]), None))]
            &&& w.wanted == entry_scope(sidebar_rows(v)[i])
            &&& w.filter is None && w.selection == Set::<Seq<char>>::empty()
            &&& w.sidebar_index == i
            &&& w.tasks == v.tasks && w.shown == v.shown
        },
        entry_scope(sidebar_rows(v)[i]) is None ==> open_entry_spec(v, i) == (
            AppV { sidebar_index: i, ..v },
            Seq::<(Tag, RequestV)>::empty(),
        ),
{
}

/// `i`: the task under the cursor goes to the next importance, Low to
/// Normal to High and round, the detail cursor on its importance;
/// refused while loading, saying why.
pub open spec fn cycle_importance_spec(v: AppV) -> (AppV, Seq<(Tag, RequestV)>) {
    if loading(v) {
        (show(v, Level::Info, still_loading_text()), Seq::empty())
    } else {
        match selected_task(v) {
            None => (v, Seq::empty()),
            Some(t) => (
                AppV { detail_row: DetailRow::Field(Field::Importance), ..v },
                seq![(Tag::Write(Write::Edit), RequestV::SetImportance(seq![t.id@], next_importance_spec(t.importance)))],
            ),
        }
    }
}

/// Everything the palette offers, unranked: the registry's commands, then
/// a "Go to" for each sidebar row that shows something.
pub open spec fn palette_candidates(v: AppV) -> Seq<(Seq<char>, Seq<char>, CommandV)> {
    commands_spec().map_values(|c: (Seq<char>, Seq<char>, Action)| (c.1, c.0, CommandV::Run(c.2))) + places_spec(
        sidebar_rows(v),
        v.lists,
    )
}

/// The palette's entries for `query`, best match first (the order that
/// ranks them, which is unique).
pub open spec fn palette_list(v: AppV, query: Seq<char>) -> Seq<(Seq<char>, Seq<char>, CommandV)> {
    let o = choose|o: Seq<int>| ranked(texts_of(palette_candidates(v)), lowercase_of(trim_spec(query)), o);
    o.map_values(|i: int| palette_candidates(v)[i])
}

/// What the palette's `i`th entry for `query` does, if there is one.
pub open spec fn palette_choice(v: AppV, query: Seq<char>, i: int) -> Option<CommandV> {
    let items = palette_list(v, query);
    if 0 <= i < items.len() {
        Some(items[i].2)
    } else {
        None
    }
}

/// Up and Down in the palette, within its matches.
pub open spec fn palette_moved(v: AppV, query: Seq<char>, i: int, down: bool) -> int {
    let n = palette_list(v, query).len();
    let last = if n == 0 { 0 } else { n - 1 };
    if down {
        if i + 1 < last { i + 1 } else { last }
    } else if i == 0 {
        0
    } else {
        i - 1
    }
}

/// Enter in the palette: its chosen command runs as if its key had been
/// pressed in the task list, or its place opens; `None` where that key is
/// one the library does not handle.
pub open spec fn run_palette_spec(v: AppV, query: Seq<char>, i: int) -> Option<(AppV, Seq<(Tag, RequestV)>)> {
    let v0 = AppV { mode: ModeV::Normal, ..v };
    match palette_choice(v, query, i) {
        None => Some((v0, Seq::empty())),
        Some(CommandV::Run(a)) => browse_spec(if v0.focus == Pane::Sidebar { AppV { focus: Pane::Tasks, ..v0 } } else { v0 }, a),
        Some(CommandV::Go(scope)) => {
            let v1 = AppV { focus: Pane::Tasks, ..v0 };
            let p = first_where(sidebar_rows(v1), showing(scope));
            if p >= 0 {
                Some(open_entry_spec(v1, p))
            } else {
                Some((v1, Seq::empty()))
            }
        },
    }
}

/// The palette's text is now `text`: a change goes back to the best match.
pub open spec fn palette_typed_spec(v: AppV, text: Seq<char>) -> AppV {
    match v.mode {
        ModeV::Palette(q, _) => if q == text { v } else { AppV { mode: ModeV::Palette(text, 0), ..v } },
        _ => v,
    }
}

/// The list "Move list to folder" acts on: the one under the sidebar's
/// cursor, else the one shown.
pub open spec fn list_to_move_spec(v: AppV) -> Option<Seq<char>> {
    let rows = sidebar_rows(v);
    let i = v.sidebar_index;
    if 0 <= i < rows.len() && rows[i] is List {
        Some(rows[i]->List_0)
    } else {
        match v.shown {
            Some(ScopeV::List(id)) => Some(id),
            _ => None,
        }
    }
}

/// `m`: the prompt for the folder to move the list into, its folder filled
/// in; with no list at hand, says so.
pub open spec fn start_move_spec(v: AppV) -> (AppV, Seq<(Tag, RequestV)>) {
    match list_to_move_spec(v) {
        None => (show(v, Level::Info, "Choose a list first; a view isn't in a folder"@), Seq::empty()),
        Some(id) => (
            AppV {
                mode: ModeV::MovingList(
                    id,
                    match folder_of_spec(v.lists, id) {
                        Some(f) => f,
                        None => Seq::empty(),
                    },
                ),
                ..v
            },
            Seq::empty(),
        ),
    }
}

/// Enter in the move prompt: move the list to the folder typed (trimmed);
/// nothing typed takes it out of its folder.
pub open spec fn submit_move_spec(v: AppV, id: Seq<char>, typed: Seq<char>) -> (AppV, Seq<(Tag, RequestV)>) {
    let folder = if trim_spec(typed).len() == 0 { None } else { Some(trim_spec(typed)) };
    (AppV { mode: ModeV::Normal, ..v }, seq![(Tag::Folders, RequestV::MoveLists(seq![id], folder))])
}

/// Tab in the move prompt: the first folder suggested replaces what's
/// typed; with none, nothing changes.
pub open spec fn complete_folder_spec(v: AppV, id: Seq<char>, typed: Seq<char>) -> AppV {
    let found = suggestions_spec(v.lists, typed);
    if found.len() == 0 {
        v
    } else {
        AppV { mode: ModeV::MovingList(id, found[0]), ..v }
    }
}

/// `j`, `k`, `g` and `G`: through the rows of the task list, of the detail
/// pane, or of the sidebar, where a new row opens its scope.
pub open spec fn navigate_spec(v: AppV, action: Action) -> Option<(AppV, Seq<(Tag, RequestV)>)> {
    let none = Seq::<(Tag, RequestV)>::empty();
    match v.focus {
        Pane::Tasks => Some((AppV { task_index: moved_spec(v.task_index, v.tasks.len() as int, action), ..v }, none)),
        Pane::Detail => match selected_task(v) {
            Some(t) => Some((AppV { detail_row: detail_moved_spec(v.detail_row, steps_of(t), action), ..v }, none)),
            None => Some((v, none)),
        },
        Pane::Sidebar => {
            let moved = moved_spec(v.sidebar_index, sidebar_rows(v).len() as int, action);
            if moved == v.sidebar_index {
                Some((v, none))
            } else {
                Some(open_entry_spec(v, moved))
            }
        },
    }
}

/// What a key that takes tasks does: refused while loading, saying why;
/// else `x` completes or reopens, `d` asks before deleting, `v` and `V`
/// select; `None` for quick add, setting a due date, rescheduling,
/// moving and My Day, whose prompts and pickers are not held here.
pub open spec fn task_action_spec(v: AppV, action: Action) -> Option<(AppV, Seq<(Tag, RequestV)>)> {
    let none = Seq::<(Tag, RequestV)>::empty();
    if loading(v) {
        Some((show(v, Level::Info, still_loading_text()), none))
    } else {
        match action {
            Action::Add => if v.lists_ready {
                None
            } else {
                Some((show(v, Level::Info, "Still syncing your lists; try again in a moment"@), none))
            },
            Action::ToggleComplete => Some(toggle_complete_spec(v)),
            Action::Delete => {
                let t = targets_spec(v);
                if t.len() == 0 {
                    Some((v, none))
                } else {
                    Some((AppV { mode: ModeV::ConfirmDelete(ids_spec(t), what_spec(titles_spec(t))->Some_0), ..v }, none))
                }
            },
            Action::ToggleSelect => match selected_id(v) {
                Some(id) => Some((AppV { selection: toggled(v.selection, id), ..v }, none)),
                None => Some((v, none)),
            },
            Action::SelectAll => Some((AppV { selection: id_set(task_ids(v.tasks)), ..v }, none)),
            _ => None,
        }
    }
}

/// Whether `action` takes the tasks on screen.
pub open spec fn takes_tasks(action: Action) -> bool {
    action is Add || action is ToggleComplete || action is Delete || action is ToggleSelect || action is SelectAll
        || action is SetDue || action is RescheduleOverdue || action is MoveTasks || action is ToggleMyDay
}

/// What a key does with nothing open. The same keys do the same from the
/// task list and the detail pane, but for adding, editing and deleting
/// with the detail cursor on a step or the link, whose prompts need the
/// task's steps and link, which the rows don't hold: those, and keys
/// whose prompts and pickers are not held here (quick add, editing a
/// field, the link picker), give
/// `None`, the state unchanged.
pub open spec fn browse_spec(v: AppV, action: Action) -> Option<(AppV, Seq<(Tag, RequestV)>)> {
    let none = Seq::<(Tag, RequestV)>::empty();
    if on_child_row(v) && (action is Add || action is Edit || action is EditHere || action is Delete) {
        None
    } else if action is MoveDown || action is MoveUp || action is JumpTop || action is JumpBottom {
        navigate_spec(v, action)
    } else if takes_tasks(action) {
        task_action_spec(v, action)
    } else {
        match action {
            Action::FocusLeft => Some((AppV { focus: pane_left(v.focus), ..v }, none)),
            Action::FocusRight => Some((AppV { focus: pane_right(v.focus), ..v }, none)),
            Action::FocusNext => Some((AppV { focus: pane_next(v.focus), ..v }, none)),
            Action::Edit | Action::EditHere | Action::EditField(_) | Action::OpenLink | Action::CopyLink => None,
            Action::CycleImportance => Some(cycle_importance_spec(v)),
            Action::Palette => Some((AppV { mode: ModeV::Palette(Seq::empty(), 0), ..v }, none)),
            Action::MoveToFolder => Some(start_move_spec(v)),
            Action::Open => Some(open_row_spec(v)),
            Action::Diagnostics => Some((AppV { mode: ModeV::Diagnostics, ..v }, diagnose_effects())),
            Action::Undo => Some((v, seq![(Tag::Undo, RequestV::Undo(None, None))])),
            Action::Filter => Some((AppV { mode: ModeV::Filtering(match v.filter { Some(f) => f, None => Seq::empty() }), ..v }, none)),
            Action::Clear => if v.selection != Set::<Seq<char>>::empty() {
                Some((AppV { selection: Set::empty(), ..v }, none))
            } else {
                Some(clear_filter_spec(v))
            },
            Action::Sync => Some((v, seq![(Tag::Sync, RequestV::Sync)])),
            Action::Help => Some((AppV { mode: ModeV::Help(0), ..v }, none)),
            Action::Quit => Some((AppV { should_quit: true, ..v }, none)),
            _ => Some((v, none)),
        }
    }
}

/// Where PgDn (`down`) or PgUp takes help scrolled to `scroll`: a step of
/// `step` rows, no further than `max`.
pub open spec fn paged_spec(scroll: u16, down: bool, step: int, max: int) -> int {
    let to: int = if down {
        if scroll + step <= u16::MAX { scroll + step } else { u16::MAX as int }
    } else if scroll >= step {
        scroll - step
    } else {
        0
    };
    if to <= max { to } else { max }
}

/// Where help scrolled to `scroll` goes on `action`, no further than
/// `max`.
pub open spec fn scrolled_spec(scroll: u16, action: Action, max: int) -> int {
    let to: int = match action {
        Action::MoveDown => if scroll + 1 <= u16::MAX { scroll + 1 } else { u16::MAX as int },
        Action::MoveUp => if scroll >= 1 { scroll - 1 } else { 0 },
        Action::JumpTop => 0,
        Action::JumpBottom => u16::MAX as int,
        _ => scroll as int,
    };
    if to <= max { to } else { max }
}

/// What a key does in the mode the state is in; `None`, the state
/// unchanged, for what this library does not do: an edit of the filter's
/// text (its line editor's; `filter_typed` takes the text it gives),
/// Enter in a step or link prompt (`submit_child`, which takes the task's
/// steps and link), and what `browse` leaves.
pub open spec fn act_spec(v: AppV, action: Action) -> Option<(AppV, Seq<(Tag, RequestV)>)> {
    let none = Seq::<(Tag, RequestV)>::empty();
    let normal = AppV { mode: ModeV::Normal, ..v };
    match (v.mode, action) {
        (ModeV::Picker(t, c, i), Action::MoveDown) => {
            let last = if c.len() == 0 { 0 } else { c.len() - 1 };
            Some((AppV { mode: ModeV::Picker(t, c, if i + 1 < last { i + 1 } else { last }), ..v }, none))
        },
        (ModeV::Picker(t, c, i), Action::MoveUp) => Some(
            (AppV { mode: ModeV::Picker(t, c, if i == 0 { 0 } else { i - 1 }), ..v }, none),
        ),
        (ModeV::Picker(t, c, i), Action::Submit) => Some(
            (normal, if 0 <= i < c.len() { seq![(Tag::Undo, RequestV::Undo(Some(t), Some(c[i])))] } else { none }),
        ),
        (ModeV::Filtering(_), Action::Backspace) => None,
        (ModeV::MovingList(_, _), Action::Backspace) => None,
        (ModeV::Palette(_, _), Action::Backspace) => None,
        (ModeV::Palette(q, i), Action::MoveDown) => Some((AppV { mode: ModeV::Palette(q, palette_moved(v, q, i, true)), ..v }, none)),
        (ModeV::Palette(q, i), Action::MoveUp) => Some((AppV { mode: ModeV::Palette(q, palette_moved(v, q, i, false)), ..v }, none)),
        (ModeV::Palette(q, i), Action::Submit) => run_palette_spec(v, q, i),
        (ModeV::MovingList(id, typed), Action::Submit) => Some(submit_move_spec(v, id, typed)),
        (ModeV::MovingList(id, typed), Action::Complete) => Some((complete_folder_spec(v, id, typed), none)),
        (ModeV::EditingChild(_, _, _), Action::Submit) => None,
        (_, Action::Backspace) => Some((v, none)),
        (ModeV::Help(scroll), Action::MoveDown) | (ModeV::Help(scroll), Action::MoveUp)
        | (ModeV::Help(scroll), Action::JumpTop) | (ModeV::Help(scroll), Action::JumpBottom) => Some(
            (AppV { mode: ModeV::Help(scrolled_spec(scroll, action, v.help_max) as u16), ..v }, none),
        ),
        (ModeV::Help(scroll), Action::PageDown) | (ModeV::Help(scroll), Action::PageUp) => Some(
            (AppV { mode: ModeV::Help(paged_spec(scroll, action is PageDown, v.help_step, v.help_max) as u16), ..v }, none),
        ),
        (ModeV::Diagnostics, Action::MoveDown) | (ModeV::Diagnostics, Action::MoveUp) => Some((v, none)),
        (ModeV::Diagnostics, Action::Refresh) => Some((v, diagnose_effects())),
        (ModeV::Filtering(_), Action::Submit) => Some((AppV { focus: Pane::Tasks, ..normal }, none)),
        (ModeV::Filtering(_), Action::Cancel) => Some(clear_filter_spec(normal)),
        (ModeV::ConfirmDelete(ids, _), Action::Confirm) => Some(
            (AppV { selection: Set::empty(), ..normal }, seq![(Tag::Write(Write::Delete), RequestV::DeleteTasks(ids))]),
        ),
        (_, Action::Cancel) => Some((normal, none)),
        (ModeV::Normal, _) => browse_spec(v, action),
        _ => Some((v, none)),
    }
}

impl App {
    /// The IDs and titles of the tasks an action takes.
    fn targets(&self) -> (r: (Vec<String>, Vec<String>, Vec<bool>))
        ensures
            strs(r.0@) == ids_spec(targets_spec(self@)),
            strs(r.1@) == titles_spec(targets_spec(self@)),
            r.2@ == done_spec(targets_spec(self@)),
            r.0.len() == targets_spec(self@).len(),
    {
        let mut ids: Vec<String> = Vec::new();
        let mut titles: Vec<String> = Vec::new();
        let mut done: Vec<bool> = Vec::new();
        if self.loading() {
            assert(strs(ids@) =~= Seq::empty());
            assert(ids_spec(targets_spec(self@)) =~= Seq::empty());
            assert(titles_spec(targets_spec(self@)) =~= Seq::empty());
            assert(done_spec(targets_spec(self@)) =~= Seq::empty());
            return (ids, titles, done);
        }
        if self.selection.is_empty() {
            if self.task_index < self.tasks.len() {
                ids.push(self.tasks[self.task_index].id.clone());
                titles.push(self.tasks[self.task_index].title.clone());
                done.push(self.tasks[self.task_index].completed);
            }
            assert(strs(ids@) =~= ids_spec(targets_spec(self@)));
            assert(strs(titles@) =~= titles_spec(targets_spec(self@)));
            assert(done@ =~= done_spec(targets_spec(self@)));
            return (ids, titles, done);
        }
        let ghost tasks = self.tasks@;
        let mut i: usize = 0;
        while i < self.tasks.len()
            invariant
                i <= self.tasks.len(),
                tasks == self.tasks@,
                strs(ids@) == ids_spec(chosen(tasks.subrange(0, i as int), self@.selection)),
                strs(titles@) == titles_spec(chosen(tasks.subrange(0, i as int), self@.selection)),
                done@ == done_spec(chosen(tasks.subrange(0, i as int), self@.selection)),
                ids.len() == chosen(tasks.subrange(0, i as int), self@.selection).len(),
            decreases self.tasks.len() - i,
        {
            assert(tasks.subrange(0, i + 1).drop_last() =~= tasks.subrange(0, i as int));
            let ghost before = chosen(tasks.subrange(0, i as int), self@.selection);
            if self.selection.contains(self.tasks[i].id.as_str()) {
                let ghost pi = ids@;
                let ghost pt = titles@;
                let ghost pd = done@;
                ids.push(self.tasks[i].id.clone());
                titles.push(self.tasks[i].title.clone());
                done.push(self.tasks[i].completed);
                assert(strs(ids@) =~= strs(pi).push(tasks[i as int].id@));
                assert(strs(titles@) =~= strs(pt).push(tasks[i as int].title@));
                assert(ids_spec(before.push(tasks[i as int])) =~= ids_spec(before).push(tasks[i as int].id@));
                assert(titles_spec(before.push(tasks[i as int])) =~= titles_spec(before).push(tasks[i as int].title@));
                assert(done_spec(before.push(tasks[i as int])) =~= done_spec(before).push(tasks[i as int].completed));
                assert(done@ =~= pd.push(tasks[i as int].completed));
            }
            i = i + 1;
        }
        assert(tasks.subrange(0, tasks.len() as int) =~= tasks);
        (ids, titles, done)
    }

    /// `x`: complete the open targets, or reopen them all when all are
    /// completed.
    fn toggle_complete(&mut self) -> (effects: Vec<Effect>)
        ensures
            final(self).help == old(self).help,
            final(self).diagnostics == old(self).diagnostics,
            (final(self)@, effects_view(effects@)) == toggle_complete_spec(old(self)@),
    {
        let (ids, _, done) = self.targets();
        let ghost iv = strs(ids@);
        if ids.len() == 0 {
            let none: Vec<Effect> = Vec::new();
            assert(effects_view(none@) =~= Seq::empty());
            return none;
        }
        let mut open: Vec<String> = Vec::new();
        let mut k: usize = 0;
        while k < ids.len()
            invariant
                k <= ids.len(),
                ids.len() == done.len(),
                iv == strs(ids@),
                strs(open@) == open_ids(iv.take(k as int), done@.take(k as int)),
            decreases ids.len() - k,
        {
            assert(iv.take(k + 1).drop_last() =~= iv.take(k as int));
            assert(done@.take(k + 1).take(k as int) =~= done@.take(k as int));
            if !done[k] {
                let ghost before = open@;
                open.push(ids[k].clone());
                assert(strs(open@) =~= strs(before).push(iv[k as int]));
            }
            k = k + 1;
        }
        assert(iv.take(ids.len() as int) =~= iv);
        assert(done@.take(ids.len() as int) =~= done@);
        self.selection.clear();
        let e = if open.len() == 0 {
            Effect { tag: Tag::Write(Write::Reopen), request: Request::Reopen { ids } }
        } else {
            Effect { tag: Tag::Write(Write::Complete), request: Request::Complete { ids: open } }
        };
        let effects = vec![e];
        assert(effects_view(effects@) =~= seq![effect_view(e)]);
        effects
    }

    /// Refuse a task action while loading, saying why. True when refused.
    fn still_loading(&mut self) -> (b: bool)
        ensures
            final(self).help == old(self).help,
            final(self).diagnostics == old(self).diagnostics,
            b == loading(old(self)@),
            final(self)@ == (if b { show(old(self)@, Level::Info, still_loading_text()) } else { old(self)@ }),
    {
        if self.loading() {
            self.show(Level::Info, "Still loading this list; try again in a moment");
            true
        } else {
            false
        }
    }

    /// Esc with nothing selected: drop the filter.
    fn clear_filter(&mut self) -> (effects: Vec<Effect>)
        requires
            old(self).seeds.latest < u64::MAX,
        ensures
            final(self).help == old(self).help,
            final(self).diagnostics == old(self).diagnostics,
            (final(self)@, effects_view(effects@)) == clear_filter_spec(old(self)@),
    {
        if self.filter.is_none() {
            let none: Vec<Effect> = Vec::new();
            assert(effects_view(none@) =~= Seq::empty());
            return none;
        }
        self.filter = None;
        self.filter_error = None;
        let e = self.seed_now();
        let effects = vec![e];
        assert(effects_view(effects@) =~= seq![effect_view(e)]);
        effects
    }

    fn selected_steps(&self) -> (r: Option<usize>)
        ensures
            match selected_task(self@) {
                Some(t) => r == Some(steps_of(t) as usize),
                None => r is None,
            },
    {
        if self.loading() || self.task_index >= self.tasks.len() {
            return None;
        }
        match self.tasks[self.task_index].steps {
            Some((_, total)) => Some(total),
            None => Some(0),
        }
    }

    fn on_child_row(&self) -> (b: bool)
        ensures
            b == on_child_row(self@),
    {
        if self.focus != Pane::Detail {
            return false;
        }
        match self.selected_steps() {
            Some(n) => self.detail_row.on(n).is_child(),
            None => false,
        }
    }

    /// `j`, `k`, `g` and `G`.
    fn navigate(&mut self, action: Action) -> (r: Option<Vec<Effect>>)
        requires
            old(self).seeds.latest < u64::MAX,
        ensures
            final(self).help == old(self).help,
            final(self).diagnostics == old(self).diagnostics,
            match navigate_spec(old(self)@, action) {
                Some((after, effects)) => r is Some && final(self)@ == after && effects_view(r->Some_0@) == effects,
                None => r is None && final(self)@ == old(self)@,
            },
    {
        let none: Vec<Effect> = Vec::new();
        assert(effects_view(none@) =~= Seq::empty());
        match self.focus {
            Pane::Tasks => {
                self.task_index = moved_index(self.task_index, self.tasks.len(), action);
                Some(none)
            },
            Pane::Detail => {
                if let Some(n) = self.selected_steps() {
                    self.detail_row = self.detail_row.moved(n, action);
                }
                Some(none)
            },
            Pane::Sidebar => {
                let rows = self.rows();
                let moved = moved_index(self.sidebar_index, rows.len(), action);
                if moved == self.sidebar_index {
                    Some(none)
                } else {
                    Some(self.open_entry(moved, &rows))
                }
            },
        }
    }

    /// Move the sidebar's cursor to row `i` of `rows`, opening it.
    fn open_entry(&mut self, i: usize, rows: &Vec<Entry>) -> (effects: Vec<Effect>)
        requires
            old(self).seeds.latest < u64::MAX,
            entries_view(rows@) == sidebar_rows(old(self)@),
        ensures
            final(self).help == old(self).help,
            final(self).diagnostics == old(self).diagnostics,
            (final(self)@, effects_view(effects@)) == open_entry_spec(old(self)@, i as int),
    {
        let ghost v = self@;
        self.sidebar_index = i;
        let none: Vec<Effect> = Vec::new();
        assert(effects_view(none@) =~= Seq::empty());
        if i < rows.len() {
            assert(entries_view(rows@)[i as int] == entry_view(rows@[i as int]));
            match rows[i].scope() {
                Some(scope) => {
                    self.filter = None;
                    self.filter_error = None;
                    self.selection.clear();
                    self.wanted = Some(scope);
                    let e = self.seed_now();
                    let effects = vec![e];
                    assert(effects_view(effects@) =~= seq![effect_view(e)]);
                    effects
                },
                None => none,
            }
        } else {
            none
        }
    }

    /// Enter or Space: a folder's heading collapses or expands; another
    /// sidebar row moves to the task list.
    fn open_row(&mut self) -> (effects: Vec<Effect>)
        ensures
            final(self).help == old(self).help,
            final(self).diagnostics == old(self).diagnostics,
            (final(self)@, effects_view(effects@)) == open_row_spec(old(self)@),
    {
        let none: Vec<Effect> = Vec::new();
        assert(effects_view(none@) =~= Seq::empty());
        if self.focus != Pane::Sidebar {
            return none;
        }
        let rows = self.rows();
        let i = self.sidebar_index;
        if i >= rows.len() {
            return none;
        }
        assert(entries_view(rows@)[i as int] == entry_view(rows@[i as int]));
        match &rows[i] {
            Entry::Folder { name, .. } => {
                let row = copy_entry(&rows[i]);
                toggle_name(&mut self.collapsed, name.as_str());
                let wanted = match &self.wanted {
                    Some(w) => Some(w.copy()),
                    None => None,
                };
                let after = self.rows();
                self.sidebar_index = sidebar_cursor(after.as_slice(), Some(row), wanted, self.lists.as_slice(), i);
                none
            },
            _ => {
                self.focus = Pane::Tasks;
                none
            },
        }
    }

    /// A key that takes the tasks on screen.
    #[verifier::spinoff_prover]
    fn task_action(&mut self, action: Action) -> (r: Option<Vec<Effect>>)
        requires
            takes_tasks(action),
        ensures
            final(self).help == old(self).help,
            final(self).diagnostics == old(self).diagnostics,
            match task_action_spec(old(self)@, action) {
                Some((after, effects)) => r is Some && final(self)@ == after && effects_view(r->Some_0@) == effects,
                None => r is None && final(self)@ == old(self)@,
            },
    {
        let none: Vec<Effect> = Vec::new();
        assert(effects_view(none@) =~= Seq::empty());
        if self.still_loading() {
            return Some(none);
        }
        match action {
            Action::Add => {
                if self.lists_ready {
                    None
                } else {
                    self.show(Level::Info, "Still syncing your lists; try again in a moment");
                    Some(none)
                }
            },
            Action::ToggleComplete => Some(self.toggle_complete()),
            Action::Delete => {
                let (ids, titles, _) = self.targets();
                match what(&titles) {
                    None => Some(none),
                    Some(w) => {
                        self.mode = Mode::ConfirmDelete { ids, what: w };
                        Some(none)
                    },
                }
            },
            Action::ToggleSelect => {
                match self.selected_id() {
                    Some(id) => {
                        self.selection.toggle(id.as_str());
                        Some(none)
                    },
                    None => Some(none),
                }
            },
            Action::SelectAll => {
                let ids = ids_of(&self.tasks);
                self.selection.select_all(&ids);
                Some(none)
            },
            _ => None,
        }
    }

    /// A key with nothing open.
    pub fn browse(&mut self, action: Action) -> (r: Option<Vec<Effect>>)
        requires
            old(self).seeds.latest < u64::MAX,
        ensures
            match browse_spec(old(self)@, action) {
                Some((after, effects)) => r is Some && final(self)@ == after && effects_view(r->Some_0@) == effects,
                None => r is None && final(self)@ == old(self)@,
            },
            final(self).help == old(self).help,
            final(self).diagnostics == diagnostics_after(old(self).diagnostics, AppV { mode: ModeV::Normal, ..old(self)@ }, action),
    {
        let none: Vec<Effect> = Vec::new();
        assert(effects_view(none@) =~= Seq::empty());
        let child_key = match action {
            Action::Add | Action::Edit | Action::EditHere | Action::Delete => true,
            _ => false,
        };
        if child_key && self.on_child_row() {
            return None;
        }
        match action {
            Action::MoveDown | Action::MoveUp | Action::JumpTop | Action::JumpBottom => self.navigate(action),
            Action::Add | Action::ToggleComplete | Action::Delete | Action::ToggleSelect | Action::SelectAll
            | Action::SetDue | Action::RescheduleOverdue | Action::MoveTasks | Action::ToggleMyDay => self.task_action(action),
            Action::FocusLeft => {
                self.focus = self.focus.left();
                Some(none)
            },
            Action::FocusRight => {
                self.focus = self.focus.right();
                Some(none)
            },
            Action::FocusNext => {
                self.focus = self.focus.next();
                Some(none)
            },
            Action::Edit | Action::EditHere | Action::EditField(_) | Action::OpenLink | Action::CopyLink => None,
            Action::CycleImportance => Some(self.cycle_importance()),
            Action::Palette => {
                self.mode = Mode::Palette { query: String::new(), index: 0 };
                Some(none)
            },
            Action::MoveToFolder => Some(self.start_move()),
            Action::Open => Some(self.open_row()),
            Action::Diagnostics => {
                self.mode = Mode::Diagnostics;
                let _parts = self.diagnostics.open();
                Some(diagnose_requests())
            },
            Action::Undo => {
                let e = Effect { tag: Tag::Undo, request: Request::Undo { target: None, copy: None } };
                let effects = vec![e];
                assert(effects_view(effects@) =~= seq![effect_view(e)]);
                Some(effects)
            },
            Action::Filter => {
                let input = match &self.filter {
                    Some(f) => f.clone(),
                    None => String::new(),
                };
                self.mode = Mode::Filtering { input };
                Some(none)
            },
            Action::Clear => {
                if !self.selection.is_empty() {
                    self.selection.clear();
                    Some(none)
                } else {
                    Some(self.clear_filter())
                }
            },
            Action::Sync => {
                let e = Effect { tag: Tag::Sync, request: Request::Sync };
                let effects = vec![e];
                assert(effects_view(effects@) =~= seq![effect_view(e)]);
                Some(effects)
            },
            Action::Help => {
                self.mode = Mode::Help { scroll: 0 };
                Some(none)
            },
            Action::Quit => {
                self.should_quit = true;
                Some(none)
            },
            _ => Some(none),
        }
    }
}

impl App {
    /// A key in the recurring-completion picker.
    fn act_picker(&mut self, action: Action) -> (r: Option<Vec<Effect>>)
        requires
            old(self).mode is Picker,
            old(self).seeds.latest < u64::MAX,
        ensures
            final(self).help == old(self).help,
            final(self).diagnostics == old(self).diagnostics,
            act_spec(old(self)@, action) == Some((final(self)@, effects_view(r->Some_0@))) && r is Some,
    {
        let none: Vec<Effect> = Vec::new();
        assert(effects_view(none@) =~= Seq::empty());
        match action {
            Action::MoveDown => {
                if let Mode::Picker { candidates, index, .. } = &mut self.mode {
                    let last = if candidates.len() == 0 { 0 } else { candidates.len() - 1 };
                    *index = if *index < last { *index + 1 } else { last };
                }
                Some(none)
            },
            Action::MoveUp => {
                if let Mode::Picker { index, .. } = &mut self.mode {
                    *index = if *index == 0 { 0 } else { *index - 1 };
                }
                Some(none)
            },
            Action::Submit => {
                let mut mode = Mode::Normal;
                std::mem::swap(&mut mode, &mut self.mode);
                if let Mode::Picker { target, candidates, index } = mode {
                    if index < candidates.len() {
                        let copy = candidates[index].clone();
                        let e = Effect { tag: Tag::Undo, request: Request::Undo { target: Some(target), copy: Some(copy) } };
                        let effects = vec![e];
                        assert(effects_view(effects@) =~= seq![effect_view(e)]);
                        return Some(effects);
                    }
                }
                Some(none)
            },
            Action::Cancel => {
                self.mode = Mode::Normal;
                Some(none)
            },
            _ => Some(none),
        }
    }

    /// A key on the help page.
    fn act_help(&mut self, action: Action) -> (r: Option<Vec<Effect>>)
        requires
            old(self).mode is Help,
        ensures
            final(self).help == old(self).help,
            final(self).diagnostics == old(self).diagnostics,
            act_spec(old(self)@, action) == Some((final(self)@, effects_view(r->Some_0@))) && r is Some,
    {
        let none: Vec<Effect> = Vec::new();
        assert(effects_view(none@) =~= Seq::empty());
        match action {
            Action::MoveDown | Action::MoveUp | Action::JumpTop | Action::JumpBottom => {
                if let Mode::Help { scroll } = &self.mode {
                    let n = self.help.scrolled(*scroll, action);
                    self.mode = Mode::Help { scroll: n };
                }
                Some(none)
            },
            Action::PageDown | Action::PageUp => {
                if let Mode::Help { scroll } = &self.mode {
                    let down = match action {
                        Action::PageDown => true,
                        _ => false,
                    };
                    let n = self.help.paged(*scroll, down);
                    self.mode = Mode::Help { scroll: n };
                }
                Some(none)
            },
            Action::Cancel => {
                self.mode = Mode::Normal;
                Some(none)
            },
            _ => Some(none),
        }
    }

    /// A key in the filter prompt; `None` for one its line editor takes.
    fn act_filtering(&mut self, action: Action) -> (r: Option<Vec<Effect>>)
        requires
            old(self).mode is Filtering,
            old(self).seeds.latest < u64::MAX,
        ensures
            final(self).help == old(self).help,
            final(self).diagnostics == old(self).diagnostics,
            match act_spec(old(self)@, action) {
                Some((after, effects)) => r is Some && final(self)@ == after && effects_view(r->Some_0@) == effects,
                None => r is None && final(self)@ == old(self)@,
            },
    {
        let none: Vec<Effect> = Vec::new();
        assert(effects_view(none@) =~= Seq::empty());
        match action {
            Action::Backspace => None,
            Action::Submit => {
                self.mode = Mode::Normal;
                self.focus = Pane::Tasks;
                Some(none)
            },
            Action::Cancel => {
                self.mode = Mode::Normal;
                Some(self.clear_filter())
            },
            _ => Some(none),
        }
    }

    /// A key in the delete confirmation, or in a step or link prompt.
    fn act_asking(&mut self, action: Action) -> (r: Option<Vec<Effect>>)
        requires
            old(self).mode is ConfirmDelete || old(self).mode is EditingChild,
        ensures
            final(self).help == old(self).help,
            final(self).diagnostics == old(self).diagnostics,
            match act_spec(old(self)@, action) {
                Some((after, effects)) => r is Some && final(self)@ == after && effects_view(r->Some_0@) == effects,
                None => r is None && final(self)@ == old(self)@,
            },
    {
        let none: Vec<Effect> = Vec::new();
        assert(effects_view(none@) =~= Seq::empty());
        if let Action::Submit = action {
            if let Mode::EditingChild { .. } = &self.mode {
                return None;
            }
        }
        match action {
            Action::Confirm => {
                if let Mode::ConfirmDelete { .. } = &self.mode {
                    let mut mode = Mode::Normal;
                    std::mem::swap(&mut mode, &mut self.mode);
                    if let Mode::ConfirmDelete { ids, .. } = mode {
                        self.selection.clear();
                        let e = Effect { tag: Tag::Write(Write::Delete), request: Request::DeleteTasks { ids } };
                        let effects = vec![e];
                        assert(effects_view(effects@) =~= seq![effect_view(e)]);
                        return Some(effects);
                    }
                }
                Some(none)
            },
            Action::Cancel => {
                self.mode = Mode::Normal;
                Some(none)
            },
            _ => Some(none),
        }
    }

    /// A key, in the mode the state is in: `None`, the state unchanged,
    /// for one this library does not handle.
    #[verifier::spinoff_prover]
    pub fn act(&mut self, action: Action) -> (r: Option<Vec<Effect>>)
        requires
            old(self).seeds.latest < u64::MAX,
        ensures
            final(self).help == old(self).help,
            final(self).diagnostics == diagnostics_after(old(self).diagnostics, old(self)@, action),
            match act_spec(old(self)@, action) {
                Some((after, effects)) => r is Some && final(self)@ == after && effects_view(r->Some_0@) == effects,
                None => r is None && final(self)@ == old(self)@,
            },
    {
        match &self.mode {
            Mode::Normal => {
                if let Action::Backspace = action {
                    let none: Vec<Effect> = Vec::new();
                    assert(effects_view(none@) =~= Seq::empty());
                    return Some(none);
                }
                if let Action::Cancel = action {
                    let none: Vec<Effect> = Vec::new();
                    assert(effects_view(none@) =~= Seq::empty());
                    return Some(none);
                }
                self.browse(action)
            },
            Mode::Picker { .. } => self.act_picker(action),
            Mode::Help { .. } => self.act_help(action),
            Mode::Filtering { .. } => self.act_filtering(action),
            Mode::ConfirmDelete { .. } | Mode::EditingChild { .. } => self.act_asking(action),
            Mode::Diagnostics => self.act_diagnostics(action),
            Mode::MovingList { .. } => self.act_moving(action),
            Mode::Palette { .. } => self.act_palette(action),
        }
    }

    /// `i`: the next importance for the task under the cursor.
    fn cycle_importance(&mut self) -> (effects: Vec<Effect>)
        ensures
            final(self).help == old(self).help,
            final(self).diagnostics == old(self).diagnostics,
            (final(self)@, effects_view(effects@)) == cycle_importance_spec(old(self)@),
    {
        let none: Vec<Effect> = Vec::new();
        assert(effects_view(none@) =~= Seq::empty());
        if self.still_loading() {
            return none;
        }
        if self.task_index >= self.tasks.len() {
            return none;
        }
        let id = self.tasks[self.task_index].id.clone();
        let next = next_importance(self.tasks[self.task_index].importance);
        self.detail_row = DetailRow::Field(Field::Importance);
        let ids = vec![id];
        assert(strs(ids@) =~= seq![ids@[0]@]);
        let e = Effect { tag: Tag::Write(Write::Edit), request: Request::SetImportance { ids, importance: next } };
        let effects = vec![e];
        assert(effects_view(effects@) =~= seq![effect_view(e)]);
        effects
    }

    /// The palette's entries for `query`, best match first.
    fn palette_now(&self, query: &str) -> (items: Vec<Item>)
        ensures
            items_view(items@) == palette_list(self@, query@),
    {
        let rows = self.rows();
        let items = palette_items(&rows, &self.lists, query);
        proof {
            let texts = texts_of(palette_candidates(self@));
            let lq = lowercase_of(trim_spec(query@));
            assert(candidates_spec(rows@, self.lists@) == palette_candidates(self@));
            let o = choose|o: Seq<int>|
                ranked(texts_of(candidates_spec(rows@, self.lists@)), lq, o) && items_view(items@) == o.map_values(
                    |i: int| candidates_spec(rows@, self.lists@)[i],
                );
            let o2 = choose|o: Seq<int>| ranked(texts, lq, o);
            law_ranked_order_is_unique(texts, lq, o, o2);
        }
        items
    }

    /// A key in the palette; `None` for one its line editor takes, or a
    /// command the library does not handle.
    fn act_palette(&mut self, action: Action) -> (r: Option<Vec<Effect>>)
        requires
            old(self).mode is Palette,
            old(self).seeds.latest < u64::MAX,
        ensures
            final(self).help == old(self).help,
            final(self).diagnostics == diagnostics_after(old(self).diagnostics, old(self)@, action),
            match act_spec(old(self)@, action) {
                Some((after, effects)) => r is Some && final(self)@ == after && effects_view(r->Some_0@) == effects,
                None => r is None && final(self)@ == old(self)@,
            },
    {
        let none: Vec<Effect> = Vec::new();
        assert(effects_view(none@) =~= Seq::empty());
        match action {
            Action::Backspace => None,
            Action::MoveDown | Action::MoveUp => {
                let down = match action {
                    Action::MoveDown => true,
                    _ => false,
                };
                if let Mode::Palette { query, index } = &self.mode {
                    let n = self.palette_now(query.as_str()).len();
                    let last = if n == 0 { 0 } else { n - 1 };
                    let to = if down {
                        if *index < last && *index + 1 < last { *index + 1 } else { last }
                    } else if *index == 0 {
                        0
                    } else {
                        *index - 1
                    };
                    let q = query.clone();
                    self.mode = Mode::Palette { query: q, index: to };
                }
                Some(none)
            },
            Action::Submit => self.run_palette(),
            Action::Cancel => {
                self.mode = Mode::Normal;
                Some(none)
            },
            _ => Some(none),
        }
    }

    /// Enter in the palette.
    fn run_palette(&mut self) -> (r: Option<Vec<Effect>>)
        requires
            old(self).mode is Palette,
            old(self).seeds.latest < u64::MAX,
        ensures
            final(self).help == old(self).help,
            final(self).diagnostics == diagnostics_after(old(self).diagnostics, old(self)@, Action::Submit),
            match run_palette_spec(old(self)@, old(self)@.mode->Palette_0, old(self)@.mode->Palette_1) {
                Some((after, effects)) => r is Some && final(self)@ == after && effects_view(r->Some_0@) == effects,
                None => r is None && final(self)@ == old(self)@,
            },
    {
        let none: Vec<Effect> = Vec::new();
        assert(effects_view(none@) =~= Seq::empty());
        let ghost v = self@;
        let mut mode = Mode::Normal;
        std::mem::swap(&mut mode, &mut self.mode);
        let (query, index) = match mode {
            Mode::Palette { query, index } => (query, index),
            _ => (String::new(), 0),
        };
        let items = self.palette_now(query.as_str());
        assert(items_view(items@) == palette_list(v, query@)) by {
            assert(self@ == AppV { mode: ModeV::Normal, ..v });
            assert(sidebar_rows(self@) == sidebar_rows(v));
            assert(palette_candidates(self@) == palette_candidates(v));
        }
        if index >= items.len() {
            return Some(none);
        }
        assert(items_view(items@)[index as int] == crate::palette::item_view(items@[index as int]));
        match &items[index].command {
            Command::Run(a) => {
                let a = *a;
                let focus = self.focus;
                if let Pane::Sidebar = self.focus {
                    self.focus = Pane::Tasks;
                }
                let r = self.browse(a);
                if r.is_none() {
                    self.mode = Mode::Palette { query, index };
                    self.focus = focus;
                }
                r
            },
            Command::Go(scope) => {
                self.focus = Pane::Tasks;
                let rows = self.rows();
                match find_scope(rows.as_slice(), scope) {
                    Some(p) => Some(self.open_entry(p, &rows)),
                    None => Some(none),
                }
            },
        }
    }

    /// The palette's text is now `text`.
    pub fn palette_typed(&mut self, text: &str)
        ensures
            final(self).help == old(self).help,
            final(self).diagnostics == old(self).diagnostics,
            final(self)@ == palette_typed_spec(old(self)@, text@),
    {
        if let Mode::Palette { query, .. } = &self.mode {
            if !str_eq(query.as_str(), text) {
                self.mode = Mode::Palette { query: text.to_owned(), index: 0 };
            }
        }
    }

    /// A key in the move prompt; `None` for one its line editor takes.
    fn act_moving(&mut self, action: Action) -> (r: Option<Vec<Effect>>)
        requires
            old(self).mode is MovingList,
        ensures
            final(self).help == old(self).help,
            final(self).diagnostics == old(self).diagnostics,
            match act_spec(old(self)@, action) {
                Some((after, effects)) => r is Some && final(self)@ == after && effects_view(r->Some_0@) == effects,
                None => r is None && final(self)@ == old(self)@,
            },
    {
        let none: Vec<Effect> = Vec::new();
        assert(effects_view(none@) =~= Seq::empty());
        match action {
            Action::Backspace => None,
            Action::Submit => {
                let mut mode = Mode::Normal;
                std::mem::swap(&mut mode, &mut self.mode);
                if let Mode::MovingList { list_id, input } = mode {
                    let typed = trim(input.as_str());
                    let folder = if typed.unicode_len() == 0 { None } else { Some(typed) };
                    let lists = vec![list_id];
                    assert(strs(lists@) =~= seq![lists@[0]@]);
                    let e = Effect { tag: Tag::Folders, request: Request::MoveLists { lists, folder } };
                    let effects = vec![e];
                    assert(effects_view(effects@) =~= seq![effect_view(e)]);
                    Some(effects)
                } else {
                    Some(none)
                }
            },
            Action::Complete => {
                if let Mode::MovingList { list_id, input } = &self.mode {
                    let found = folder_suggestions(self.lists.as_slice(), input.as_str());
                    if found.len() > 0 {
                        assert(found@.map_values(|s: String| s@)[0] == found@[0]@);
                        let first = found[0].clone();
                        let id = list_id.clone();
                        self.mode = Mode::MovingList { list_id: id, input: first };
                    }
                }
                Some(none)
            },
            Action::Cancel => {
                self.mode = Mode::Normal;
                Some(none)
            },
            _ => Some(none),
        }
    }

    /// The list "Move list to folder" acts on.
    fn list_to_move(&self) -> (r: Option<String>)
        ensures
            opt_str(r) == list_to_move_spec(self@),
    {
        let rows = self.rows();
        let i = self.sidebar_index;
        if i < rows.len() {
            assert(entries_view(rows@)[i as int] == entry_view(rows@[i as int]));
            if let Entry::List { id, .. } = &rows[i] {
                return Some(id.clone());
            }
        }
        match &self.shown {
            Some(Scope::List { id }) => Some(id.clone()),
            _ => None,
        }
    }

    /// `m`: open the move prompt for the list at hand.
    fn start_move(&mut self) -> (effects: Vec<Effect>)
        ensures
            final(self).help == old(self).help,
            final(self).diagnostics == old(self).diagnostics,
            (final(self)@, effects_view(effects@)) == start_move_spec(old(self)@),
    {
        let none: Vec<Effect> = Vec::new();
        assert(effects_view(none@) =~= Seq::empty());
        match self.list_to_move() {
            None => {
                self.show(Level::Info, "Choose a list first; a view isn't in a folder");
                none
            },
            Some(list_id) => {
                let input = match folder_of(self.lists.as_slice(), list_id.as_str()) {
                    Some(f) => f.to_owned(),
                    None => String::new(),
                };
                self.mode = Mode::MovingList { list_id, input };
                none
            },
        }
    }

    /// A folder change's applied answer, drawn at once.
    fn apply_list_write(&mut self, items: &Vec<Members>)
        ensures
            final(self).help == old(self).help,
            final(self).diagnostics == old(self).diagnostics,
            folders_answered(old(self)@, final(self)@, items@),
    {
        let ghost v = self@;
        let rows = self.rows();
        let row = if self.sidebar_index < rows.len() {
            assert(entries_view(rows@)[self.sidebar_index as int] == entry_view(rows@[self.sidebar_index as int]));
            Some(copy_entry(&rows[self.sidebar_index]))
        } else {
            None
        };
        let ghost mut folders: Seq<Option<String>> = Seq::empty();
        let mut i: usize = 0;
        while i < items.len()
            invariant
                i <= items@.len(),
                folders_read(items@.take(i as int), folders),
                self.lists@ == lists_after(v.lists, items@.take(i as int), folders),
                self@ == (AppV { lists: self.lists@, ..v }),
                self.help == old(self).help,
                self.diagnostics == old(self).diagnostics,
            decreases items@.len() - i,
        {
            let item = &items[i];
            let folder = match text_of(item, "folder") {
                Some(f) => Some(f.to_owned()),
                None => None,
            };
            let ghost fs = folders.push(folder);
            assert(items@.take(i + 1).drop_last() =~= items@.take(i as int));
            assert(fs.drop_last() =~= folders);
            assert(items@.take(i + 1).last() == items@[i as int]);
            match text_of(item, "id") {
                Some(id) => move_to_folder(&mut self.lists, id, folder),
                None => {},
            }
            proof {
                folders = fs;
                assert forall|k: int| 0 <= k < items@.take(i + 1).len() implies opt_view(#[trigger] folders[k])
                    == item_text(items@.take(i + 1)[k], "folder"@) by {
                    if k < i {
                        assert(items@.take(i + 1)[k] == items@.take(i as int)[k]);
                    }
                }
            }
            assert(self@ =~= AppV { lists: self.lists@, ..v });
            i = i + 1;
        }
        assert(items@.take(items@.len() as int) =~= items@);
        let wanted = match &self.wanted {
            Some(w) => Some(w.copy()),
            None => None,
        };
        let after = self.rows();
        self.sidebar_index = sidebar_cursor(after.as_slice(), row, wanted, self.lists.as_slice(), self.sidebar_index);
        if items.len() == 1 {
            let name = match text_of(&items[0], "displayName") {
                Some(n) => n,
                None => "The list",
            };
            proof {
                reveal_strlit("The list");
            }
            let text = folder_moved(name, text_of(&items[0], "folder"));
            self.show(Level::Info, text.as_str());
        }
        assert(self@ =~= list_write_spec(v, items@, folders));
    }

    /// The move prompt's text is now `text`.
    pub fn folder_typed(&mut self, text: &str)
        ensures
            final(self).help == old(self).help,
            final(self).diagnostics == old(self).diagnostics,
            final(self)@ == match old(self)@.mode {
                ModeV::MovingList(id, _) => AppV { mode: ModeV::MovingList(id, text@), ..old(self)@ },
                _ => old(self)@,
            },
    {
        if let Mode::MovingList { list_id, .. } = &self.mode {
            let id = list_id.clone();
            self.mode = Mode::MovingList { list_id: id, input: text.to_owned() };
        }
    }

    /// A key on the diagnostics page.
    fn act_diagnostics(&mut self, action: Action) -> (r: Option<Vec<Effect>>)
        requires
            old(self).mode is Diagnostics,
        ensures
            final(self).help == old(self).help,
            final(self).diagnostics == diagnostics_after(old(self).diagnostics, old(self)@, action),
            act_spec(old(self)@, action) == Some((final(self)@, effects_view(r->Some_0@))) && r is Some,
    {
        let none: Vec<Effect> = Vec::new();
        assert(effects_view(none@) =~= Seq::empty());
        match action {
            Action::MoveDown => {
                self.diagnostics.scroll(true);
                Some(none)
            },
            Action::MoveUp => {
                self.diagnostics.scroll(false);
                Some(none)
            },
            Action::Refresh => {
                let _parts = self.diagnostics.refresh();
                Some(diagnose_requests())
            },
            Action::Cancel => {
                self.mode = Mode::Normal;
                Some(none)
            },
            _ => Some(none),
        }
    }
}

/// What the links library says of a typed URL: whether it can be kept
/// (and why not), and whether it opens.
pub struct LinkCheck {
    pub storable: Result<(), String>,
    pub openable: bool,
}

/// Whether the task `id` is among the rows of the scope on screen.
pub open spec fn in_scope(v: AppV, id: Seq<char>) -> bool {
    !loading(v) && exists|k: int| 0 <= k < v.tasks.len() && #[trigger] v.tasks[k].id@ == id
}

pub open spec fn steps_view(steps: Seq<StepKey>) -> Seq<(Seq<char>, Seq<char>)> {
    steps.map_values(|s: StepKey| (s.id@, s.name@))
}

/// Sending `change` to the task `id`.
pub open spec fn send_spec(id: Seq<char>, change: ChildChangeV) -> Seq<(Tag, RequestV)> {
    seq![(Tag::Write(Write::Edit), RequestV::ChangeChild(id, change))]
}

fn has_step(steps: &Vec<StepKey>, step: &str, text: &str) -> (b: bool)
    ensures
        b == steps_view(steps@).contains((step@, text@)),
{
    let ghost sv = steps_view(steps@);
    let mut k: usize = 0;
    while k < steps.len()
        invariant
            k <= steps.len(),
            sv == steps_view(steps@),
            forall|j: int| 0 <= j < k ==> #[trigger] sv[j] != (step@, text@),
        decreases steps.len() - k,
    {
        if str_eq(steps[k].id.as_str(), step) && str_eq(steps[k].name.as_str(), text) {
            assert(sv[k as int] == (step@, text@));
            return true;
        }
        k = k + 1;
    }
    false
}

/// Refusing an Enter in the prompt: it stays open, saying why.
pub open spec fn refuse_spec(v: AppV, why: Seq<char>) -> AppV {
    match v.mode {
        ModeV::EditingChild(id, target, _) => AppV { mode: ModeV::EditingChild(id, target, Some(why)), ..v },
        _ => v,
    }
}

/// Enter in a step or link prompt with `typed` in it, `steps` and
/// `link_url` being the task's, `check` what the links library says of
/// the text: send it, or say why it can't be sent. A new step leaves the
/// prompt open for the next one; a value the task has already sends
/// nothing.
pub open spec fn submit_child_spec(
    v: AppV,
    typed: Seq<char>,
    steps: Seq<(Seq<char>, Seq<char>)>,
    link_url: Option<Seq<char>>,
    storable: Result<(), Seq<char>>,
    openable: bool,
) -> (AppV, Seq<(Tag, RequestV)>) {
    let none = Seq::<(Tag, RequestV)>::empty();
    let normal = AppV { mode: ModeV::Normal, ..v };
    let text = trim_spec(typed);
    match v.mode {
        ModeV::EditingChild(id, target, _) => if !in_scope(v, id) {
            (show(normal, Level::Info, "That task is gone; nothing was changed"@), none)
        } else {
            match target {
                ChildTargetV::NewStep => if text.len() == 0 {
                    (normal, none)
                } else {
                    (AppV { mode: ModeV::EditingChild(id, ChildTargetV::NewStep, None), ..v }, send_spec(id, ChildChangeV::AddStep(text)))
                },
                ChildTargetV::Step(step) => if text.len() == 0 {
                    (refuse_spec(v, "A step can't be empty; d deletes it"@), none)
                } else if steps.contains((step, text)) {
                    (normal, none)
                } else {
                    (normal, send_spec(id, ChildChangeV::EditStep(step, text)))
                },
                ChildTargetV::Link(link) => if text.len() == 0 {
                    (refuse_spec(v, "Type a URL; d deletes the link"@), none)
                } else {
                    match storable {
                        Err(why) => (refuse_spec(v, "Not a link: "@ + why), none),
                        Ok(_) => {
                            let said = if openable {
                                normal
                            } else {
                                show(normal, Level::Info, "Kept, but only http, https and mailto links open"@)
                            };
                            match link {
                                None => (said, send_spec(id, ChildChangeV::AddLink(text))),
                                Some(l) => if link_url == Some(text) {
                                    (said, none)
                                } else {
                                    (said, send_spec(id, ChildChangeV::EditLink(l, text)))
                                },
                            }
                        },
                    }
                },
            }
        },
        _ => (v, none),
    }
}

fn copy_target(t: &ChildTarget) -> (c: ChildTarget)
    ensures
        child_target_view(c) == child_target_view(*t),
{
    match t {
        ChildTarget::NewStep => ChildTarget::NewStep,
        ChildTarget::Step(s) => ChildTarget::Step(s.clone()),
        ChildTarget::Link(l) => ChildTarget::Link(
            match l {
                Some(x) => Some(x.clone()),
                None => None,
            },
        ),
    }
}

impl App {
    fn in_scope(&self, id: &str) -> (b: bool)
        ensures
            b == in_scope(self@, id@),
    {
        if self.loading() {
            return false;
        }
        let mut k: usize = 0;
        while k < self.tasks.len()
            invariant
                k <= self.tasks.len(),
                !loading(self@),
                forall|j: int| 0 <= j < k ==> (#[trigger] self.tasks@[j]).id@ != id@,
            decreases self.tasks.len() - k,
        {
            if str_eq(self.tasks[k].id.as_str(), id) {
                assert(self@.tasks[k as int].id@ == id@);
                return true;
            }
            k = k + 1;
        }
        false
    }

    fn refuse(&mut self, why: String) -> (effects: Vec<Effect>)
        ensures
            final(self).help == old(self).help,
            final(self).diagnostics == old(self).diagnostics,
            final(self)@ == refuse_spec(old(self)@, why@),
            effects@.len() == 0,
    {
        if let Mode::EditingChild { error, .. } = &mut self.mode {
            *error = Some(why);
        }
        Vec::new()
    }

    fn send_child(id: String, change: ChildChange) -> (effects: Vec<Effect>)
        ensures
            effects_view(effects@) == send_spec(id@, child_change_view(change)),
    {
        let e = Effect { tag: Tag::Write(Write::Edit), request: Request::ChangeChild { id, change } };
        let effects = vec![e];
        assert(effects_view(effects@) =~= seq![effect_view(e)]);
        effects
    }

    /// Enter in a step or link prompt, `typed` being its text, `steps` and
    /// `link_url` the task's, and `check` what the links library says of
    /// the text.
    pub fn submit_child(&mut self, typed: &str, steps: &Vec<StepKey>, link_url: Option<&str>, check: LinkCheck) -> (effects: Vec<Effect>)
        ensures
            final(self).help == old(self).help,
            final(self).diagnostics == old(self).diagnostics,
            (final(self)@, effects_view(effects@)) == submit_child_spec(
                old(self)@,
                typed@,
                steps_view(steps@),
                match link_url {
                    Some(u) => Some(u@),
                    None => None,
                },
                match check.storable {
                    Ok(_) => Ok(()),
                    Err(why) => Err(why@),
                },
                check.openable,
            ),
    {
        let ghost v = self@;
        let none: Vec<Effect> = Vec::new();
        assert(effects_view(none@) =~= Seq::empty());
        let (id, target) = match &self.mode {
            Mode::EditingChild { id, target, .. } => (id.clone(), copy_target(target)),
            _ => return none,
        };
        let text = trim(typed);
        if !self.in_scope(id.as_str()) {
            self.mode = Mode::Normal;
            self.show(Level::Info, "That task is gone; nothing was changed");
            return none;
        }
        let empty = text.unicode_len() == 0;
        match target {
            ChildTarget::NewStep => {
                if empty {
                    self.mode = Mode::Normal;
                    return none;
                }
                self.mode = Mode::EditingChild { id: id.clone(), target: ChildTarget::NewStep, error: None };
                Self::send_child(id, ChildChange::AddStep(text))
            },
            ChildTarget::Step(step) => {
                if empty {
                    return self.refuse("A step can't be empty; d deletes it".to_string());
                }
                if has_step(steps, step.as_str(), text.as_str()) {
                    self.mode = Mode::Normal;
                    return none;
                }
                self.mode = Mode::Normal;
                Self::send_child(id, ChildChange::EditStep { step, text })
            },
            ChildTarget::Link(link) => {
                if empty {
                    return self.refuse("Type a URL; d deletes the link".to_string());
                }
                if let Err(why) = check.storable {
                    return self.refuse(concat("Not a link: ", why.as_str()));
                }
                self.mode = Mode::Normal;
                if !check.openable {
                    self.show(Level::Info, "Kept, but only http, https and mailto links open");
                }
                match link {
                    None => Self::send_child(id, ChildChange::AddLink(text)),
                    Some(l) => {
                        let same = match link_url {
                            Some(u) => str_eq(u, text.as_str()),
                            None => false,
                        };
                        if same {
                            none
                        } else {
                            Self::send_child(id, ChildChange::EditLink { link: l, url: text })
                        }
                    },
                }
            },
        }
    }
}

/// A new step leaves the prompt open for the next one: Enter with text
/// in a new step's prompt, on a task still on screen, sends exactly that
/// step and keeps the prompt, empty and without an error.
pub proof fn law_a_new_step_keeps_the_prompt_open(v: AppV, typed: Seq<char>, steps: Seq<(Seq<char>, Seq<char>)>, link_url: Option<Seq<char>>, storable: Result<(), Seq<char>>, openable: bool)
    requires
        v.mode matches ModeV::EditingChild(id, ChildTargetV::NewStep, _) && in_scope(v, id),
        trim_spec(typed).len() > 0,
    ensures
        ({
            let (after, effects) = submit_child_spec(v, typed, steps, link_url, storable, openable);
            let id = v.mode->EditingChild_0;
            &&& after.mode == ModeV::EditingChild(id, ChildTargetV::NewStep, None)
            &&& effects == send_spec(id, ChildChangeV::AddStep(trim_spec(typed)))
        }),
{
}

/// Esc closes whatever is open: in any mode but the plain one, it is
/// handled and leaves the plain mode.
pub proof fn law_escape_closes_what_is_open(v: AppV)
    requires
        !(v.mode is Normal),
    ensures
        act_spec(v, Action::Cancel) matches Some((after, _)) && after.mode is Normal,
{
}

/// The kind of mode the keys read.
pub open spec fn mode_kind_spec(m: ModeV) -> ModeKind {
    match m {
        ModeV::Normal => ModeKind::Normal,
        ModeV::Help(_) => ModeKind::Help,
        ModeV::Filtering(_) => ModeKind::Filtering,
        ModeV::ConfirmDelete(_, _) => ModeKind::ConfirmDelete,
        ModeV::Picker(_, _, _) => ModeKind::Picker,
        ModeV::EditingChild(_, _, _) => ModeKind::EditingChild,
        ModeV::Diagnostics => ModeKind::Diagnostics,
        ModeV::MovingList(_, _) => ModeKind::MovingList,
        ModeV::Palette(_, _) => ModeKind::Palette,
    }
}

impl App {
    /// The kind of mode the keys read, for `context`.
    pub fn mode_kind(&self) -> (k: ModeKind)
        ensures
            k == mode_kind_spec(self@.mode),
    {
        match &self.mode {
            Mode::Normal => ModeKind::Normal,
            Mode::Help { .. } => ModeKind::Help,
            Mode::Filtering { .. } => ModeKind::Filtering,
            Mode::ConfirmDelete { .. } => ModeKind::ConfirmDelete,
            Mode::Picker { .. } => ModeKind::Picker,
            Mode::EditingChild { .. } => ModeKind::EditingChild,
            Mode::Diagnostics => ModeKind::Diagnostics,
            Mode::MovingList { .. } => ModeKind::MovingList,
            Mode::Palette { .. } => ModeKind::Palette,
        }
    }
}

/// What the daemon says happened, unasked.
pub enum Event {
    /// The cache changed, or must be read again.
    Changed,
    /// Microsoft To Do rejected a change to the task `task_id`, which was
    /// rolled back, saying `message`.
    Rejected { task_id: String, message: String },
    /// A sync started (`true`) or finished.
    Syncing(bool),
    /// Progress, or what this version doesn't know.
    Other,
}

pub enum EventV {
    Changed,
    Rejected(Seq<char>, Seq<char>),
    Syncing(bool),
    Other,
}

pub open spec fn event_view(e: Event) -> EventV {
    match e {
        Event::Changed => EventV::Changed,
        Event::Rejected { task_id, message } => EventV::Rejected(task_id@, message@),
        Event::Syncing(b) => EventV::Syncing(b),
        Event::Other => EventV::Other,
    }
}

/// `rejections` with the task `id`'s reason set to `why`, in place of any
/// it had.
pub open spec fn with_rejection(rejections: Seq<(Seq<char>, Seq<char>)>, id: Seq<char>, why: Seq<char>) -> Seq<(Seq<char>, Seq<char>)> {
    rejections.filter(|r: (Seq<char>, Seq<char>)| r.0 != id).push((id, why))
}

/// What an event does: a change reads the cache again (once, if a read is
/// in flight); a rejected write says so, is kept by its task, and reads
/// the cache again; a finished sync reads again while the lists or the
/// tasks weren't ready.
pub open spec fn event_spec(v: AppV, e: EventV) -> (AppV, Seq<(Tag, RequestV)>) {
    match e {
        EventV::Changed => reseed_spec(v),
        EventV::Rejected(id, message) => reseed_spec(
            AppV {
                rejections: with_rejection(v.rejections, id, message),
                ..show(v, Level::Error, "Microsoft To Do rejected a change, which was undone here: "@ + message)
            },
        ),
        EventV::Syncing(running) => {
            let w = AppV { syncing: running, ..v };
            if !running && (!v.lists_ready || !v.tasks_ready) {
                reseed_spec(w)
            } else {
                (w, Seq::empty())
            }
        },
        EventV::Other => (v, Seq::empty()),
    }
}

impl App {
    /// What the daemon says happened.
    pub fn event(&mut self, event: Event) -> (effects: Vec<Effect>)
        requires
            old(self).seeds.latest < u64::MAX,
        ensures
            final(self).help == old(self).help,
            final(self).diagnostics == old(self).diagnostics,
            (final(self)@, effects_view(effects@)) == event_spec(old(self)@, event_view(event)),
    {
        match event {
            Event::Changed => self.reseed(),
            Event::Rejected { task_id, message } => {
                let text = concat("Microsoft To Do rejected a change, which was undone here: ", message.as_str());
                self.show(Level::Error, text.as_str());
                let ghost before = pairs(self.rejections@);
                let mut kept: Vec<(String, String)> = Vec::new();
                let mut i: usize = 0;
                while i < self.rejections.len()
                    invariant
                        i <= self.rejections.len(),
                        before == pairs(self.rejections@),
                        pairs(kept@) == before.take(i as int).filter(|r: (Seq<char>, Seq<char>)| r.0 != task_id@),
                    decreases self.rejections.len() - i,
                {
                    proof {
                        reveal(Seq::filter);
                        assert(before.take(i + 1).drop_last() =~= before.take(i as int));
                    }
                    if !str_eq(self.rejections[i].0.as_str(), task_id.as_str()) {
                        let ghost prior = kept@;
                        kept.push((self.rejections[i].0.clone(), self.rejections[i].1.clone()));
                        assert(pairs(kept@) =~= pairs(prior).push(before[i as int]));
                    }
                    i = i + 1;
                }
                assert(before.take(self.rejections.len() as int) =~= before);
                let ghost prior = kept@;
                kept.push((task_id, message));
                assert(pairs(kept@) =~= pairs(prior).push((kept@.last().0@, kept@.last().1@)));
                self.rejections = kept;
                self.reseed()
            },
            Event::Syncing(running) => {
                self.syncing = running;
                if !running && (!self.lists_ready || !self.tasks_ready) {
                    self.reseed()
                } else {
                    let none: Vec<Effect> = Vec::new();
                    assert(effects_view(none@) =~= Seq::empty());
                    none
                }
            },
            Event::Other => {
                let none: Vec<Effect> = Vec::new();
                assert(effects_view(none@) =~= Seq::empty());
                none
            },
        }
    }
}

/// The help screen's scroll for a terminal whose help has `max` rows to
/// scroll: no further than its last row.
pub open spec fn resized_spec(v: AppV, max: int, step: int) -> AppV {
    AppV {
        help_max: max,
        help_step: step,
        mode: match v.mode {
            ModeV::Help(scroll) => ModeV::Help(if scroll <= max { scroll } else { max as u16 }),
            m => m,
        },
        ..v
    }
}

impl App {
    /// The terminal is now `width` by `height`: help is laid out for it,
    /// and a help screen open keeps its scroll within its rows.
    pub fn resize(&mut self, width: u16, height: u16)
        ensures
            crate::layout::page_view(final(self).help) == crate::layout::layout_spec(width, height),
            final(self)@ == resized_spec(
                old(self)@,
                final(self).help.max_scroll_spec(),
                if final(self).help.visible >= 2 { final(self).help.visible - 1 } else { 1 },
            ),
    {
        self.help = crate::layout::layout(width, height);
        let max = self.help.max_scroll();
        if let Mode::Help { scroll } = &self.mode {
            let n = if *scroll <= max { *scroll } else { max };
            self.mode = Mode::Help { scroll: n };
        }
    }
}

/// The filter after `text` is typed: nothing but spaces is no filter;
/// a change drops the last error and searches again.
pub open spec fn filter_typed_spec(v: AppV, text: Seq<char>) -> (AppV, Seq<(Tag, RequestV)>) {
    match v.mode {
        ModeV::Filtering(_) => {
            let typed = AppV { mode: ModeV::Filtering(text), ..v };
            let f = if trim_spec(text).len() == 0 { None } else { Some(text) };
            if f == v.filter {
                (typed, Seq::empty())
            } else {
                let w = AppV { filter: f, filter_error: None, ..typed };
                (seed_now_spec(w).0, seq![seed_now_spec(w).1])
            }
        },
        _ => (v, Seq::empty()),
    }
}

impl App {
    /// The filter prompt's text is now `text`: the scope is searched for
    /// it as it is typed.
    pub fn filter_typed(&mut self, text: &str) -> (effects: Vec<Effect>)
        requires
            old(self).seeds.latest < u64::MAX,
        ensures
            final(self).help == old(self).help,
            final(self).diagnostics == old(self).diagnostics,
            (final(self)@, effects_view(effects@)) == filter_typed_spec(old(self)@, text@),
    {
        let none: Vec<Effect> = Vec::new();
        assert(effects_view(none@) =~= Seq::empty());
        if let Mode::Filtering { .. } = &self.mode {
            self.mode = Mode::Filtering { input: text.to_string() };
            let blank = trim(text).unicode_len() == 0;
            let same = match &self.filter {
                Some(f) => !blank && str_eq(f.as_str(), text),
                None => blank,
            };
            if same {
                return none;
            }
            self.filter = if blank { None } else { Some(text.to_string()) };
            self.filter_error = None;
            let e = self.seed_now();
            let effects = vec![e];
            assert(effects_view(effects@) =~= seq![effect_view(e)]);
            effects
        } else {
            none
        }
    }
}

proof fn lemma_remove_first(tasks: Seq<Task>, id: Seq<char>, k: int)
    requires
        0 <= k <= tasks.len(),
        forall|j: int| 0 <= j < k ==> (#[trigger] tasks[j]).id@ != id,
        k < tasks.len() ==> tasks[k].id@ == id,
    ensures
        remove_first(tasks, id) == (if k < tasks.len() { tasks.remove(k) } else { tasks }),
    decreases k,
{
    if tasks.len() > 0 {
        if k == 0 {
            assert(tasks.drop_first() =~= tasks.remove(0));
        } else {
            let rest = tasks.drop_first();
            assert forall|j: int| 0 <= j < k - 1 implies (#[trigger] rest[j]).id@ != id by {
                assert(rest[j] == tasks[j + 1]);
            }
            if k < tasks.len() {
                assert(rest[k - 1] == tasks[k]);
            }
            lemma_remove_first(rest, id, k - 1);
            if k < tasks.len() {
                assert(seq![tasks[0]] + rest.remove(k - 1) =~= tasks.remove(k));
            } else {
                assert(seq![tasks[0]] + rest =~= tasks);
            }
        }
    }
}

impl App {
    /// Take out the first row whose ID is `id`.
    fn remove_row(&mut self, id: &str)
        ensures
            final(self)@ == (AppV { tasks: remove_first(old(self)@.tasks, id@), ..old(self)@ }),
            final(self).help == old(self).help,
            final(self).diagnostics == old(self).diagnostics,
    {
        let mut k: usize = 0;
        while k < self.tasks.len() && !str_eq(self.tasks[k].id.as_str(), id)
            invariant
                k <= self.tasks.len(),
                forall|j: int| 0 <= j < k ==> (#[trigger] self.tasks@[j]).id@ != id@,
            decreases self.tasks.len() - k,
        {
            k = k + 1;
        }
        proof {
            lemma_remove_first(self.tasks@, id@, k as int);
        }
        if k < self.tasks.len() {
            self.tasks.remove(k);
        }
        assert(self@ =~= AppV { tasks: remove_first(old(self)@.tasks, id@), ..old(self)@ });
    }

    /// A delete's answer: its rows go at once.
    fn apply_delete(&mut self, items: &Vec<Members>)
        ensures
            final(self)@ == deleted_spec(old(self)@, item_ids(items@)),
            final(self).help == old(self).help,
            final(self).diagnostics == old(self).diagnostics,
    {
        if self.shown.is_none() {
            return;
        }
        let ghost v = self@;
        let mut i: usize = 0;
        while i < items.len()
            invariant
                i <= items.len(),
                self.shown is Some,
                self@ == (AppV { tasks: delete_rows(v.tasks, item_ids(items@).take(i as int)), ..v }),
                self.help == old(self).help,
                self.diagnostics == old(self).diagnostics,
            decreases items.len() - i,
        {
            assert(item_ids(items@).take(i + 1).drop_last() =~= item_ids(items@).take(i as int));
            match Task::from_entity(&items[i]) {
                Some(task) => self.remove_row(task.id.as_str()),
                None => {},
            }
            i = i + 1;
        }
        assert(item_ids(items@).take(items.len() as int) =~= item_ids(items@));
        let n = self.tasks.len();
        let last = if n == 0 { 0 } else { n - 1 };
        if self.task_index > last {
            self.task_index = last;
        }
        let ids = ids_of(&self.tasks);
        self.selection.prune(&ids);
    }
}

} // verus!
