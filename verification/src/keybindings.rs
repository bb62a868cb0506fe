//! The one keybinding registry: every key the TUI answers is in its
//! table, and the hint bar, the help screen and the command palette are
//! read from it, so they can't drift from what the keys do.

use vstd::prelude::*;
use vstd::string::*;

use crate::action::{Action, Field, ImportanceWord};
use crate::text::{
    chars_of, debug_quoted, debug_str, is_uppercase, push_char, str_eq, string_of_range, concat,
    uppercase_char,
};

verus! {

/// Where a key is pressed. Each has its own bindings.
#[derive(Clone, Copy, Debug, PartialEq, Eq, Hash, Structural)]
pub enum Context {
    /// The sidebar.
    Sidebar,
    /// The task list.
    Tasks,
    /// The detail pane, where j and k move between the fields.
    Detail,
    /// The detail pane's steps and link.
    Steps,
    /// Typing a filter or a field's new value on one line.
    Prompt,
    /// Quick add's modal: a new task, read as it's typed.
    Adding,
    /// Typing notes, where Enter is a new line.
    Notes,
    /// Typing the folder to move a list into, with suggestions.
    Folder,
    /// Picking which field of a task to edit.
    Fields,
    /// Picking an importance level.
    Importance,
    /// The command palette.
    Palette,
    /// The diagnostics page.
    Diagnostics,
    /// The inline delete confirmation.
    Confirm,
    /// The recurring-completion candidate picker.
    Picker,
    /// The theme picker, previewing each theme.
    Themes,
    /// A task's links, to open or copy one.
    Links,
    /// Picking the list to move tasks to.
    MoveTo,
    Help,
}

/// The sets of contexts the table binds keys in.
#[derive(Clone, Copy, Debug, PartialEq, Eq, Structural)]
pub enum Contexts {
    /// Every place with a list the cursor moves through.
    Lists,
    /// The three panes.
    Browse,
    /// The task list and the detail pane.
    Tasks,
    /// The sidebar.
    Sidebar,
    /// The command palette.
    Palette,
    /// Every prompt that takes a line or lines of text.
    Prompts,
    /// Quick add.
    Adding,
    /// The notes editor.
    Notes,
    /// The field picker.
    Fields,
    /// The folder prompt.
    Folder,
    /// The importance picker.
    Levels,
    /// The diagnostics page.
    Diagnostics,
    /// The list picker of a move.
    MoveTo,
    /// The detail pane alone.
    DetailRow,
    /// The detail pane and its steps.
    DetailSteps,
    /// The one-line prompt.
    Prompt,
    /// The delete confirmation.
    Confirm,
    /// The recurring-completion picker.
    Picker,
    /// The link picker.
    Links,
    /// The theme picker.
    Themes,
    /// The help screen.
    Help,
}

/// The contexts of each set, in order.
pub open spec fn contexts_of(group: Contexts) -> Seq<Context> {
    match group {
        Contexts::Lists => seq![Context::Sidebar, Context::Tasks, Context::Detail, Context::Picker, Context::Themes, Context::Links, Context::Diagnostics],
        Contexts::Browse => seq![Context::Sidebar, Context::Tasks, Context::Detail],
        Contexts::Tasks => seq![Context::Tasks, Context::Detail],
        Contexts::Sidebar => seq![Context::Sidebar],
        Contexts::Palette => seq![Context::Palette],
        Contexts::Prompts => seq![Context::Prompt, Context::Adding, Context::Notes, Context::Folder],
        Contexts::Adding => seq![Context::Adding],
        Contexts::Notes => seq![Context::Notes],
        Contexts::Fields => seq![Context::Fields],
        Contexts::Folder => seq![Context::Folder],
        Contexts::Levels => seq![Context::Importance],
        Contexts::Diagnostics => seq![Context::Diagnostics],
        Contexts::MoveTo => seq![Context::MoveTo],
        Contexts::DetailRow => seq![Context::Detail],
        Contexts::DetailSteps => seq![Context::Detail, Context::Steps],
        Contexts::Prompt => seq![Context::Prompt],
        Contexts::Confirm => seq![Context::Confirm],
        Contexts::Picker => seq![Context::Picker],
        Contexts::Links => seq![Context::Links],
        Contexts::Themes => seq![Context::Themes],
        Contexts::Help => seq![Context::Help],
    }
}

impl Contexts {
    /// The contexts of this set, in order.
    pub fn contexts(self) -> (v: Vec<Context>)
        ensures
            v@ == contexts_of(self),
    {
        let v = match self {
            Contexts::Lists => vec![Context::Sidebar, Context::Tasks, Context::Detail, Context::Picker, Context::Themes, Context::Links, Context::Diagnostics],
            Contexts::Browse => vec![Context::Sidebar, Context::Tasks, Context::Detail],
            Contexts::Tasks => vec![Context::Tasks, Context::Detail],
            Contexts::Sidebar => vec![Context::Sidebar],
            Contexts::Palette => vec![Context::Palette],
            Contexts::Prompts => vec![Context::Prompt, Context::Adding, Context::Notes, Context::Folder],
            Contexts::Adding => vec![Context::Adding],
            Contexts::Notes => vec![Context::Notes],
            Contexts::Fields => vec![Context::Fields],
            Contexts::Folder => vec![Context::Folder],
            Contexts::Levels => vec![Context::Importance],
            Contexts::Diagnostics => vec![Context::Diagnostics],
            Contexts::MoveTo => vec![Context::MoveTo],
            Contexts::DetailRow => vec![Context::Detail],
            Contexts::DetailSteps => vec![Context::Detail, Context::Steps],
            Contexts::Prompt => vec![Context::Prompt],
            Contexts::Confirm => vec![Context::Confirm],
            Contexts::Picker => vec![Context::Picker],
            Contexts::Links => vec![Context::Links],
            Contexts::Themes => vec![Context::Themes],
            Contexts::Help => vec![Context::Help],
        };
        assert(v@ =~= contexts_of(self));
        v
    }

    /// Whether `context` is one of this set's.
    pub fn has(self, context: Context) -> (b: bool)
        ensures
            b == contexts_of(self).contains(context),
    {
        let all = self.contexts();
        let mut i: usize = 0;
        while i < all.len()
            invariant
                all@ == contexts_of(self),
                i <= all@.len(),
                forall|j: int| 0 <= j < i ==> all@[j] != context,
            decreases all@.len() - i,
        {
            if all[i] == context {
                return true;
            }
            i = i + 1;
        }
        false
    }
}

/// A key, in a set of contexts, doing an action, under a label.
#[derive(Clone, Copy)]
pub struct Binding {
    pub contexts: Contexts,
    pub key: &'static str,
    pub action: Action,
    pub label: &'static str,
    /// Shown in the hint bar in these contexts.
    pub hint: bool,
}

/// A binding as the contracts read it.
pub struct BindingView {
    pub contexts: Contexts,
    pub key: Seq<char>,
    pub action: Action,
    pub label: Seq<char>,
    pub hint: bool,
}

impl View for Binding {
    type V = BindingView;

    open spec fn view(&self) -> BindingView {
        BindingView {
            contexts: self.contexts,
            key: self.key@,
            action: self.action,
            label: self.label@,
            hint: self.hint,
        }
    }
}

/// How many bindings the table holds.
pub const BINDING_COUNT: usize = 100;

/// Every binding, in the order help shows them.
pub open spec fn table_at(i: usize) -> BindingView {
    match i {
        0 => BindingView { contexts: Contexts::Lists, key: "j"@, action: Action::MoveDown, label: "Down"@, hint: false },
        1 => BindingView { contexts: Contexts::Lists, key: "Down"@, action: Action::MoveDown, label: "Down"@, hint: false },
        2 => BindingView { contexts: Contexts::Lists, key: "k"@, action: Action::MoveUp, label: "Up"@, hint: false },
        3 => BindingView { contexts: Contexts::Lists, key: "Up"@, action: Action::MoveUp, label: "Up"@, hint: false },
        4 => BindingView { contexts: Contexts::Browse, key: "g"@, action: Action::JumpTop, label: "Top"@, hint: false },
        5 => BindingView { contexts: Contexts::Browse, key: "G"@, action: Action::JumpBottom, label: "Bottom"@, hint: false },
        6 => BindingView { contexts: Contexts::Browse, key: "h"@, action: Action::FocusLeft, label: "Left pane"@, hint: false },
        7 => BindingView { contexts: Contexts::Browse, key: "l"@, action: Action::FocusRight, label: "Right pane"@, hint: false },
        8 => BindingView { contexts: Contexts::Sidebar, key: "Enter"@, action: Action::Open, label: "Open or fold"@, hint: true },
        9 => BindingView { contexts: Contexts::Sidebar, key: "Space"@, action: Action::Open, label: "Open or fold"@, hint: false },
        10 => BindingView { contexts: Contexts::Browse, key: "Tab"@, action: Action::FocusNext, label: "Next pane"@, hint: false },
        11 => BindingView { contexts: Contexts::Browse, key: "a"@, action: Action::Add, label: "Add"@, hint: true },
        12 => BindingView { contexts: Contexts::Tasks, key: "x"@, action: Action::ToggleComplete, label: "Done"@, hint: true },
        13 => BindingView { contexts: Contexts::Tasks, key: "e"@, action: Action::Edit, label: "Edit"@, hint: true },
        14 => BindingView { contexts: Contexts::DetailRow, key: "Enter"@, action: Action::EditHere, label: "Edit this field"@, hint: false },
        15 => BindingView { contexts: Contexts::DetailSteps, key: "e"@, action: Action::Edit, label: "Edit field"@, hint: false },
        16 => BindingView { contexts: Contexts::Tasks, key: "d"@, action: Action::Delete, label: "Delete"@, hint: true },
        17 => BindingView { contexts: Contexts::Tasks, key: "S"@, action: Action::SetDue, label: "Set due date\u{2026}"@, hint: false },
        18 => BindingView { contexts: Contexts::Tasks, key: "R"@, action: Action::RescheduleOverdue, label: "Reschedule overdue to\u{2026}"@, hint: false },
        19 => BindingView { contexts: Contexts::Tasks, key: "m"@, action: Action::MoveTasks, label: "Move to list\u{2026}"@, hint: false },
        20 => BindingView { contexts: Contexts::Tasks, key: "t"@, action: Action::ToggleMyDay, label: "My Day"@, hint: true },
        21 => BindingView { contexts: Contexts::Tasks, key: "v"@, action: Action::ToggleSelect, label: "Select"@, hint: true },
        22 => BindingView { contexts: Contexts::Tasks, key: "V"@, action: Action::SelectAll, label: "Select all"@, hint: false },
        23 => BindingView { contexts: Contexts::Browse, key: "u"@, action: Action::Undo, label: "Undo"@, hint: true },
        24 => BindingView { contexts: Contexts::Browse, key: "/"@, action: Action::Filter, label: "Filter"@, hint: true },
        25 => BindingView { contexts: Contexts::Tasks, key: "Esc"@, action: Action::Clear, label: "Clear selection or filter"@, hint: false },
        26 => BindingView { contexts: Contexts::Browse, key: ":"@, action: Action::Palette, label: "Palette"@, hint: true },
        27 => BindingView { contexts: Contexts::Browse, key: "r"@, action: Action::Sync, label: "Sync"@, hint: true },
        28 => BindingView { contexts: Contexts::Browse, key: "D"@, action: Action::Diagnostics, label: "Diagnostics"@, hint: false },
        29 => BindingView { contexts: Contexts::Browse, key: "M"@, action: Action::MoveToFolder, label: "Move list to folder\u{2026}"@, hint: false },
        30 => BindingView { contexts: Contexts::Browse, key: "?"@, action: Action::Help, label: "Help"@, hint: true },
        31 => BindingView { contexts: Contexts::Browse, key: "q"@, action: Action::Quit, label: "Quit"@, hint: true },
        32 => BindingView { contexts: Contexts::Browse, key: "Ctrl-c"@, action: Action::Quit, label: "Quit"@, hint: false },
        33 => BindingView { contexts: Contexts::Tasks, key: "o"@, action: Action::OpenLink, label: "Open link"@, hint: true },
        34 => BindingView { contexts: Contexts::Tasks, key: "y"@, action: Action::CopyLink, label: "Copy link"@, hint: true },
        35 => BindingView { contexts: Contexts::Prompt, key: "Enter"@, action: Action::Submit, label: "Done"@, hint: true },
        36 => BindingView { contexts: Contexts::Adding, key: "Enter"@, action: Action::Submit, label: "Add"@, hint: true },
        37 => BindingView { contexts: Contexts::Adding, key: "Tab"@, action: Action::Complete, label: "Complete"@, hint: true },
        38 => BindingView { contexts: Contexts::Adding, key: "Ctrl-r"@, action: Action::ToggleParse, label: "Literal"@, hint: true },
        39 => BindingView { contexts: Contexts::Notes, key: "Ctrl-s"@, action: Action::Submit, label: "Save"@, hint: true },
        40 => BindingView { contexts: Contexts::Notes, key: "Alt-Enter"@, action: Action::Submit, label: "Save"@, hint: false },
        41 => BindingView { contexts: Contexts::Notes, key: "Enter"@, action: Action::Newline, label: "New line"@, hint: true },
        42 => BindingView { contexts: Contexts::Folder, key: "Enter"@, action: Action::Submit, label: "Move"@, hint: true },
        43 => BindingView { contexts: Contexts::Folder, key: "Tab"@, action: Action::Complete, label: "Complete"@, hint: true },
        44 => BindingView { contexts: Contexts::Prompts, key: "Esc"@, action: Action::Cancel, label: "Cancel"@, hint: true },
        45 => BindingView { contexts: Contexts::Prompts, key: "Backspace"@, action: Action::Backspace, label: "Erase"@, hint: false },
        46 => BindingView { contexts: Contexts::Prompts, key: "Ctrl-c"@, action: Action::Cancel, label: "Cancel"@, hint: false },
        47 => BindingView { contexts: Contexts::Fields, key: "t"@, action: Action::EditField(Field::Title), label: "Edit title"@, hint: false },
        48 => BindingView { contexts: Contexts::Fields, key: "d"@, action: Action::EditField(Field::Due), label: "Edit due date"@, hint: false },
        49 => BindingView { contexts: Contexts::Fields, key: "r"@, action: Action::EditField(Field::Reminder), label: "Edit reminder"@, hint: false },
        50 => BindingView { contexts: Contexts::Fields, key: "i"@, action: Action::EditField(Field::Importance), label: "Set importance"@, hint: false },
        51 => BindingView { contexts: Contexts::Fields, key: "n"@, action: Action::EditField(Field::Notes), label: "Edit notes"@, hint: false },
        52 => BindingView { contexts: Contexts::Fields, key: "I"@, action: Action::CycleImportance, label: "Cycle importance"@, hint: true },
        53 => BindingView { contexts: Contexts::Fields, key: "Esc"@, action: Action::Cancel, label: "Cancel"@, hint: true },
        54 => BindingView { contexts: Contexts::Fields, key: "Ctrl-c"@, action: Action::Cancel, label: "Cancel"@, hint: false },
        55 => BindingView { contexts: Contexts::Levels, key: "1"@, action: Action::SetImportance(ImportanceWord::One), label: "High"@, hint: true },
        56 => BindingView { contexts: Contexts::Levels, key: "2"@, action: Action::SetImportance(ImportanceWord::Two), label: "Normal"@, hint: true },
        57 => BindingView { contexts: Contexts::Levels, key: "3"@, action: Action::SetImportance(ImportanceWord::Three), label: "Normal"@, hint: true },
        58 => BindingView { contexts: Contexts::Levels, key: "4"@, action: Action::SetImportance(ImportanceWord::Four), label: "Low"@, hint: true },
        59 => BindingView { contexts: Contexts::Levels, key: "h"@, action: Action::SetImportance(ImportanceWord::High), label: "High"@, hint: true },
        60 => BindingView { contexts: Contexts::Levels, key: "n"@, action: Action::SetImportance(ImportanceWord::Normal), label: "Normal"@, hint: true },
        61 => BindingView { contexts: Contexts::Levels, key: "l"@, action: Action::SetImportance(ImportanceWord::Low), label: "Low"@, hint: true },
        62 => BindingView { contexts: Contexts::Levels, key: "Esc"@, action: Action::Cancel, label: "Cancel"@, hint: true },
        63 => BindingView { contexts: Contexts::Levels, key: "Ctrl-c"@, action: Action::Cancel, label: "Cancel"@, hint: false },
        64 => BindingView { contexts: Contexts::Confirm, key: "y"@, action: Action::Confirm, label: "Delete"@, hint: true },
        65 => BindingView { contexts: Contexts::Confirm, key: "n"@, action: Action::Cancel, label: "Keep"@, hint: true },
        66 => BindingView { contexts: Contexts::Confirm, key: "Esc"@, action: Action::Cancel, label: "Keep"@, hint: false },
        67 => BindingView { contexts: Contexts::Picker, key: "Enter"@, action: Action::Submit, label: "Delete this copy"@, hint: true },
        68 => BindingView { contexts: Contexts::Picker, key: "Esc"@, action: Action::Cancel, label: "Cancel"@, hint: true },
        69 => BindingView { contexts: Contexts::Links, key: "Enter"@, action: Action::Submit, label: "Open"@, hint: true },
        70 => BindingView { contexts: Contexts::Links, key: "o"@, action: Action::OpenLink, label: "Open"@, hint: false },
        71 => BindingView { contexts: Contexts::Links, key: "y"@, action: Action::CopyLink, label: "Copy"@, hint: true },
        72 => BindingView { contexts: Contexts::Links, key: "Esc"@, action: Action::Cancel, label: "Cancel"@, hint: true },
        73 => BindingView { contexts: Contexts::Links, key: "Ctrl-c"@, action: Action::Cancel, label: "Cancel"@, hint: false },
        74 => BindingView { contexts: Contexts::Themes, key: "Enter"@, action: Action::Submit, label: "Keep"@, hint: true },
        75 => BindingView { contexts: Contexts::Themes, key: "Esc"@, action: Action::Cancel, label: "Revert"@, hint: true },
        76 => BindingView { contexts: Contexts::Themes, key: "Ctrl-c"@, action: Action::Cancel, label: "Revert"@, hint: false },
        77 => BindingView { contexts: Contexts::Palette, key: "Enter"@, action: Action::Submit, label: "Run"@, hint: true },
        78 => BindingView { contexts: Contexts::Palette, key: "Esc"@, action: Action::Cancel, label: "Close"@, hint: true },
        79 => BindingView { contexts: Contexts::Palette, key: "Backspace"@, action: Action::Backspace, label: "Erase"@, hint: false },
        80 => BindingView { contexts: Contexts::Palette, key: "Down"@, action: Action::MoveDown, label: "Down"@, hint: false },
        81 => BindingView { contexts: Contexts::Palette, key: "Up"@, action: Action::MoveUp, label: "Up"@, hint: false },
        82 => BindingView { contexts: Contexts::Palette, key: "Ctrl-n"@, action: Action::MoveDown, label: "Down"@, hint: false },
        83 => BindingView { contexts: Contexts::Palette, key: "Ctrl-p"@, action: Action::MoveUp, label: "Up"@, hint: false },
        84 => BindingView { contexts: Contexts::Palette, key: "Ctrl-c"@, action: Action::Cancel, label: "Close"@, hint: false },
        85 => BindingView { contexts: Contexts::MoveTo, key: "Enter"@, action: Action::Submit, label: "Move here"@, hint: true },
        86 => BindingView { contexts: Contexts::MoveTo, key: "Esc"@, action: Action::Cancel, label: "Cancel"@, hint: true },
        87 => BindingView { contexts: Contexts::MoveTo, key: "Backspace"@, action: Action::Backspace, label: "Erase"@, hint: false },
        88 => BindingView { contexts: Contexts::MoveTo, key: "Down"@, action: Action::MoveDown, label: "Down"@, hint: true },
        89 => BindingView { contexts: Contexts::MoveTo, key: "Up"@, action: Action::MoveUp, label: "Up"@, hint: false },
        90 => BindingView { contexts: Contexts::MoveTo, key: "Ctrl-n"@, action: Action::MoveDown, label: "Down"@, hint: false },
        91 => BindingView { contexts: Contexts::MoveTo, key: "Ctrl-p"@, action: Action::MoveUp, label: "Up"@, hint: false },
        92 => BindingView { contexts: Contexts::MoveTo, key: "Ctrl-c"@, action: Action::Cancel, label: "Cancel"@, hint: false },
        93 => BindingView { contexts: Contexts::Diagnostics, key: "r"@, action: Action::Refresh, label: "Refresh"@, hint: true },
        94 => BindingView { contexts: Contexts::Diagnostics, key: "Esc"@, action: Action::Cancel, label: "Back"@, hint: true },
        95 => BindingView { contexts: Contexts::Diagnostics, key: "q"@, action: Action::Cancel, label: "Back"@, hint: false },
        96 => BindingView { contexts: Contexts::Diagnostics, key: "D"@, action: Action::Cancel, label: "Back"@, hint: false },
        97 => BindingView { contexts: Contexts::Help, key: "Esc"@, action: Action::Cancel, label: "Close"@, hint: true },
        98 => BindingView { contexts: Contexts::Help, key: "?"@, action: Action::Cancel, label: "Close"@, hint: false },
        _ => BindingView { contexts: Contexts::Help, key: "q"@, action: Action::Cancel, label: "Close"@, hint: false },
    }
}

/// The binding at `i` in the table.
pub fn binding_at(i: usize) -> (b: Binding)
    requires
        i < BINDING_COUNT,
    ensures
        b@ == table_at(i),
{
    match i {
        0 => Binding { contexts: Contexts::Lists, key: "j", action: Action::MoveDown, label: "Down", hint: false },
        1 => Binding { contexts: Contexts::Lists, key: "Down", action: Action::MoveDown, label: "Down", hint: false },
        2 => Binding { contexts: Contexts::Lists, key: "k", action: Action::MoveUp, label: "Up", hint: false },
        3 => Binding { contexts: Contexts::Lists, key: "Up", action: Action::MoveUp, label: "Up", hint: false },
        4 => Binding { contexts: Contexts::Browse, key: "g", action: Action::JumpTop, label: "Top", hint: false },
        5 => Binding { contexts: Contexts::Browse, key: "G", action: Action::JumpBottom, label: "Bottom", hint: false },
        6 => Binding { contexts: Contexts::Browse, key: "h", action: Action::FocusLeft, label: "Left pane", hint: false },
        7 => Binding { contexts: Contexts::Browse, key: "l", action: Action::FocusRight, label: "Right pane", hint: false },
        8 => Binding { contexts: Contexts::Sidebar, key: "Enter", action: Action::Open, label: "Open or fold", hint: true },
        9 => Binding { contexts: Contexts::Sidebar, key: "Space", action: Action::Open, label: "Open or fold", hint: false },
        10 => Binding { contexts: Contexts::Browse, key: "Tab", action: Action::FocusNext, label: "Next pane", hint: false },
        11 => Binding { contexts: Contexts::Browse, key: "a", action: Action::Add, label: "Add", hint: true },
        12 => Binding { contexts: Contexts::Tasks, key: "x", action: Action::ToggleComplete, label: "Done", hint: true },
        13 => Binding { contexts: Contexts::Tasks, key: "e", action: Action::Edit, label: "Edit", hint: true },
        14 => Binding { contexts: Contexts::DetailRow, key: "Enter", action: Action::EditHere, label: "Edit this field", hint: false },
        15 => Binding { contexts: Contexts::DetailSteps, key: "e", action: Action::Edit, label: "Edit field", hint: false },
        16 => Binding { contexts: Contexts::Tasks, key: "d", action: Action::Delete, label: "Delete", hint: true },
        17 => Binding { contexts: Contexts::Tasks, key: "S", action: Action::SetDue, label: "Set due date\u{2026}", hint: false },
        18 => Binding { contexts: Contexts::Tasks, key: "R", action: Action::RescheduleOverdue, label: "Reschedule overdue to\u{2026}", hint: false },
        19 => Binding { contexts: Contexts::Tasks, key: "m", action: Action::MoveTasks, label: "Move to list\u{2026}", hint: false },
        20 => Binding { contexts: Contexts::Tasks, key: "t", action: Action::ToggleMyDay, label: "My Day", hint: true },
        21 => Binding { contexts: Contexts::Tasks, key: "v", action: Action::ToggleSelect, label: "Select", hint: true },
        22 => Binding { contexts: Contexts::Tasks, key: "V", action: Action::SelectAll, label: "Select all", hint: false },
        23 => Binding { contexts: Contexts::Browse, key: "u", action: Action::Undo, label: "Undo", hint: true },
        24 => Binding { contexts: Contexts::Browse, key: "/", action: Action::Filter, label: "Filter", hint: true },
        25 => Binding { contexts: Contexts::Tasks, key: "Esc", action: Action::Clear, label: "Clear selection or filter", hint: false },
        26 => Binding { contexts: Contexts::Browse, key: ":", action: Action::Palette, label: "Palette", hint: true },
        27 => Binding { contexts: Contexts::Browse, key: "r", action: Action::Sync, label: "Sync", hint: true },
        28 => Binding { contexts: Contexts::Browse, key: "D", action: Action::Diagnostics, label: "Diagnostics", hint: false },
        29 => Binding { contexts: Contexts::Browse, key: "M", action: Action::MoveToFolder, label: "Move list to folder\u{2026}", hint: false },
        30 => Binding { contexts: Contexts::Browse, key: "?", action: Action::Help, label: "Help", hint: true },
        31 => Binding { contexts: Contexts::Browse, key: "q", action: Action::Quit, label: "Quit", hint: true },
        32 => Binding { contexts: Contexts::Browse, key: "Ctrl-c", action: Action::Quit, label: "Quit", hint: false },
        33 => Binding { contexts: Contexts::Tasks, key: "o", action: Action::OpenLink, label: "Open link", hint: true },
        34 => Binding { contexts: Contexts::Tasks, key: "y", action: Action::CopyLink, label: "Copy link", hint: true },
        35 => Binding { contexts: Contexts::Prompt, key: "Enter", action: Action::Submit, label: "Done", hint: true },
        36 => Binding { contexts: Contexts::Adding, key: "Enter", action: Action::Submit, label: "Add", hint: true },
        37 => Binding { contexts: Contexts::Adding, key: "Tab", action: Action::Complete, label: "Complete", hint: true },
        38 => Binding { contexts: Contexts::Adding, key: "Ctrl-r", action: Action::ToggleParse, label: "Literal", hint: true },
        39 => Binding { contexts: Contexts::Notes, key: "Ctrl-s", action: Action::Submit, label: "Save", hint: true },
        40 => Binding { contexts: Contexts::Notes, key: "Alt-Enter", action: Action::Submit, label: "Save", hint: false },
        41 => Binding { contexts: Contexts::Notes, key: "Enter", action: Action::Newline, label: "New line", hint: true },
        42 => Binding { contexts: Contexts::Folder, key: "Enter", action: Action::Submit, label: "Move", hint: true },
        43 => Binding { contexts: Contexts::Folder, key: "Tab", action: Action::Complete, label: "Complete", hint: true },
        44 => Binding { contexts: Contexts::Prompts, key: "Esc", action: Action::Cancel, label: "Cancel", hint: true },
        45 => Binding { contexts: Contexts::Prompts, key: "Backspace", action: Action::Backspace, label: "Erase", hint: false },
        46 => Binding { contexts: Contexts::Prompts, key: "Ctrl-c", action: Action::Cancel, label: "Cancel", hint: false },
        47 => Binding { contexts: Contexts::Fields, key: "t", action: Action::EditField(Field::Title), label: "Edit title", hint: false },
        48 => Binding { contexts: Contexts::Fields, key: "d", action: Action::EditField(Field::Due), label: "Edit due date", hint: false },
        49 => Binding { contexts: Contexts::Fields, key: "r", action: Action::EditField(Field::Reminder), label: "Edit reminder", hint: false },
        50 => Binding { contexts: Contexts::Fields, key: "i", action: Action::EditField(Field::Importance), label: "Set importance", hint: false },
        51 => Binding { contexts: Contexts::Fields, key: "n", action: Action::EditField(Field::Notes), label: "Edit notes", hint: false },
        52 => Binding { contexts: Contexts::Fields, key: "I", action: Action::CycleImportance, label: "Cycle importance", hint: true },
        53 => Binding { contexts: Contexts::Fields, key: "Esc", action: Action::Cancel, label: "Cancel", hint: true },
        54 => Binding { contexts: Contexts::Fields, key: "Ctrl-c", action: Action::Cancel, label: "Cancel", hint: false },
        55 => Binding { contexts: Contexts::Levels, key: "1", action: Action::SetImportance(ImportanceWord::One), label: "High", hint: true },
        56 => Binding { contexts: Contexts::Levels, key: "2", action: Action::SetImportance(ImportanceWord::Two), label: "Normal", hint: true },
        57 => Binding { contexts: Contexts::Levels, key: "3", action: Action::SetImportance(ImportanceWord::Three), label: "Normal", hint: true },
        58 => Binding { contexts: Contexts::Levels, key: "4", action: Action::SetImportance(ImportanceWord::Four), label: "Low", hint: true },
        59 => Binding { contexts: Contexts::Levels, key: "h", action: Action::SetImportance(ImportanceWord::High), label: "High", hint: true },
        60 => Binding { contexts: Contexts::Levels, key: "n", action: Action::SetImportance(ImportanceWord::Normal), label: "Normal", hint: true },
        61 => Binding { contexts: Contexts::Levels, key: "l", action: Action::SetImportance(ImportanceWord::Low), label: "Low", hint: true },
        62 => Binding { contexts: Contexts::Levels, key: "Esc", action: Action::Cancel, label: "Cancel", hint: true },
        63 => Binding { contexts: Contexts::Levels, key: "Ctrl-c", action: Action::Cancel, label: "Cancel", hint: false },
        64 => Binding { contexts: Contexts::Confirm, key: "y", action: Action::Confirm, label: "Delete", hint: true },
        65 => Binding { contexts: Contexts::Confirm, key: "n", action: Action::Cancel, label: "Keep", hint: true },
        66 => Binding { contexts: Contexts::Confirm, key: "Esc", action: Action::Cancel, label: "Keep", hint: false },
        67 => Binding { contexts: Contexts::Picker, key: "Enter", action: Action::Submit, label: "Delete this copy", hint: true },
        68 => Binding { contexts: Contexts::Picker, key: "Esc", action: Action::Cancel, label: "Cancel", hint: true },
        69 => Binding { contexts: Contexts::Links, key: "Enter", action: Action::Submit, label: "Open", hint: true },
        70 => Binding { contexts: Contexts::Links, key: "o", action: Action::OpenLink, label: "Open", hint: false },
        71 => Binding { contexts: Contexts::Links, key: "y", action: Action::CopyLink, label: "Copy", hint: true },
        72 => Binding { contexts: Contexts::Links, key: "Esc", action: Action::Cancel, label: "Cancel", hint: true },
        73 => Binding { contexts: Contexts::Links, key: "Ctrl-c", action: Action::Cancel, label: "Cancel", hint: false },
        74 => Binding { contexts: Contexts::Themes, key: "Enter", action: Action::Submit, label: "Keep", hint: true },
        75 => Binding { contexts: Contexts::Themes, key: "Esc", action: Action::Cancel, label: "Revert", hint: true },
        76 => Binding { contexts: Contexts::Themes, key: "Ctrl-c", action: Action::Cancel, label: "Revert", hint: false },
        77 => Binding { contexts: Contexts::Palette, key: "Enter", action: Action::Submit, label: "Run", hint: true },
        78 => Binding { contexts: Contexts::Palette, key: "Esc", action: Action::Cancel, label: "Close", hint: true },
        79 => Binding { contexts: Contexts::Palette, key: "Backspace", action: Action::Backspace, label: "Erase", hint: false },
        80 => Binding { contexts: Contexts::Palette, key: "Down", action: Action::MoveDown, label: "Down", hint: false },
        81 => Binding { contexts: Contexts::Palette, key: "Up", action: Action::MoveUp, label: "Up", hint: false },
        82 => Binding { contexts: Contexts::Palette, key: "Ctrl-n", action: Action::MoveDown, label: "Down", hint: false },
        83 => Binding { contexts: Contexts::Palette, key: "Ctrl-p", action: Action::MoveUp, label: "Up", hint: false },
        84 => Binding { contexts: Contexts::Palette, key: "Ctrl-c", action: Action::Cancel, label: "Close", hint: false },
        85 => Binding { contexts: Contexts::MoveTo, key: "Enter", action: Action::Submit, label: "Move here", hint: true },
        86 => Binding { contexts: Contexts::MoveTo, key: "Esc", action: Action::Cancel, label: "Cancel", hint: true },
        87 => Binding { contexts: Contexts::MoveTo, key: "Backspace", action: Action::Backspace, label: "Erase", hint: false },
        88 => Binding { contexts: Contexts::MoveTo, key: "Down", action: Action::MoveDown, label: "Down", hint: true },
        89 => Binding { contexts: Contexts::MoveTo, key: "Up", action: Action::MoveUp, label: "Up", hint: false },
        90 => Binding { contexts: Contexts::MoveTo, key: "Ctrl-n", action: Action::MoveDown, label: "Down", hint: false },
        91 => Binding { contexts: Contexts::MoveTo, key: "Ctrl-p", action: Action::MoveUp, label: "Up", hint: false },
        92 => Binding { contexts: Contexts::MoveTo, key: "Ctrl-c", action: Action::Cancel, label: "Cancel", hint: false },
        93 => Binding { contexts: Contexts::Diagnostics, key: "r", action: Action::Refresh, label: "Refresh", hint: true },
        94 => Binding { contexts: Contexts::Diagnostics, key: "Esc", action: Action::Cancel, label: "Back", hint: true },
        95 => Binding { contexts: Contexts::Diagnostics, key: "q", action: Action::Cancel, label: "Back", hint: false },
        96 => Binding { contexts: Contexts::Diagnostics, key: "D", action: Action::Cancel, label: "Back", hint: false },
        97 => Binding { contexts: Contexts::Help, key: "Esc", action: Action::Cancel, label: "Close", hint: true },
        98 => Binding { contexts: Contexts::Help, key: "?", action: Action::Cancel, label: "Close", hint: false },
        _ => Binding { contexts: Contexts::Help, key: "q", action: Action::Cancel, label: "Close", hint: false },
    }
}

/// The first binding from `from` on that `wanted` picks.
pub open spec fn first_where(wanted: spec_fn(BindingView) -> bool, from: int) -> Option<int>
    decreases BINDING_COUNT - from,
{
    if from < 0 || from >= BINDING_COUNT {
        None
    } else if wanted(table_at(from as usize)) {
        Some(from)
    } else {
        first_where(wanted, from + 1)
    }
}

/// Whether a binding binds `action` in `context`.
pub open spec fn binds(context: Context, action: Action) -> spec_fn(BindingView) -> bool {
    |b: BindingView| contexts_of(b.contexts).contains(context) && b.action == action
}

/// The first key bound to `action` in `context`.
pub open spec fn key_for_spec(context: Context, action: Action) -> Option<Seq<char>> {
    match first_where(binds(context, action), 0) {
        Some(i) => Some(table_at(i as usize).key),
        None => None,
    }
}

proof fn lemma_first_where(wanted: spec_fn(BindingView) -> bool, from: int)
    requires
        0 <= from,
    ensures
        match first_where(wanted, from) {
            Some(i) => from <= i < BINDING_COUNT && wanted(table_at(i as usize))
                && forall|j: int| from <= j < i ==> !wanted(#[trigger] table_at(j as usize)),
            None => forall|j: int| from <= j < BINDING_COUNT ==> !wanted(#[trigger] table_at(j as usize)),
        },
    decreases BINDING_COUNT - from,
{
    if from < BINDING_COUNT && !wanted(table_at(from as usize)) {
        lemma_first_where(wanted, from + 1);
    }
}

/// `key_for` gives the key of the first binding in the table that binds
/// the action in the context, and nothing when none does.
pub proof fn law_key_for_is_the_first_binding(context: Context, action: Action)
    ensures
        match key_for_spec(context, action) {
            Some(k) => exists|i: int| 0 <= i < BINDING_COUNT && #[trigger] table_at(i as usize).key == k
                && contexts_of(table_at(i as usize).contexts).contains(context) && table_at(i as usize).action == action
                && forall|j: int| 0 <= j < i ==> !(contexts_of(#[trigger] table_at(j as usize).contexts).contains(context)
                    && table_at(j as usize).action == action),
            None => forall|j: int| 0 <= j < BINDING_COUNT ==> !(contexts_of(#[trigger] table_at(j as usize).contexts).contains(context)
                && table_at(j as usize).action == action),
        },
{
    let wanted = binds(context, action);
    lemma_first_where(wanted, 0);
    match first_where(wanted, 0) {
        Some(i) => {
            assert(wanted(table_at(i as usize)));
            assert forall|j: int| 0 <= j < i implies !(contexts_of(#[trigger] table_at(j as usize).contexts).contains(context)
                && table_at(j as usize).action == action) by {
                assert(!wanted(table_at(j as usize)));
            }
        },
        None => {
            assert forall|j: int| 0 <= j < BINDING_COUNT implies !(contexts_of(#[trigger] table_at(j as usize).contexts).contains(context)
                && table_at(j as usize).action == action) by {
                assert(!wanted(table_at(j as usize)));
            }
        },
    }
}

/// The first key bound to `action` in `context`.
pub fn key_for(context: Context, action: Action) -> (k: Option<&'static str>)
    ensures
        match k {
            Some(key) => key_for_spec(context, action) == Some(key@),
            None => key_for_spec(context, action) is None,
        },
{
    let ghost wanted = binds(context, action);
    let mut i: usize = 0;
    while i < BINDING_COUNT
        invariant
            i <= BINDING_COUNT,
            wanted == binds(context, action),
            first_where(wanted, i as int) == first_where(wanted, 0),
        decreases BINDING_COUNT - i,
    {
        let b = binding_at(i);
        if b.contexts.has(context) && b.action == action {
            return Some(b.key);
        }
        i = i + 1;
    }
    None
}

/// Which bindings a list of rows is made of.
#[derive(Clone, Copy, Debug, PartialEq, Eq, Structural)]
pub enum Selection {
    /// Those the hint bar shows in a context.
    Hints(Context),
    /// Every binding of a browsing pane.
    Browsing,
    /// The browsing actions the palette offers: not moving around, nor
    /// the palette itself, nor the detail pane's own editing of a field.
    PaletteActions,
    /// The fields the picker edits, not its Cancel.
    PickerFields,
}

/// Whether `context` is one of the three browsing panes.
pub open spec fn is_browse_context(context: Context) -> bool {
    context == Context::Sidebar || context == Context::Tasks || context == Context::Detail
}

/// Whether a set of contexts takes in a browsing pane.
pub open spec fn touches_browsing(group: Contexts) -> bool {
    exists|i: int| 0 <= i < contexts_of(group).len() && is_browse_context(#[trigger] contexts_of(group)[i])
}

/// The browsing actions the palette leaves out: moving around, opening a
/// sidebar row (the palette covers it), the palette itself, and editing
/// the field under the cursor (the palette names each field instead).
pub open spec fn palette_skips(action: Action) -> bool {
    matches!(
        action,
        Action::MoveDown | Action::MoveUp | Action::JumpTop | Action::JumpBottom | Action::FocusLeft
            | Action::FocusRight | Action::FocusNext | Action::Open | Action::Palette
            | Action::EditHere
    )
}

/// Whether `selection` takes the binding `b`.
pub open spec fn selects(selection: Selection, b: BindingView) -> bool {
    match selection {
        Selection::Hints(context) => b.hint && contexts_of(b.contexts).contains(context),
        Selection::Browsing => touches_browsing(b.contexts),
        Selection::PaletteActions => touches_browsing(b.contexts) && !palette_skips(b.action),
        Selection::PickerFields => b.contexts == Contexts::Fields && b.action != Action::Cancel,
    }
}

fn touches_browsing_exec(group: Contexts) -> (b: bool)
    ensures
        b == touches_browsing(group),
{
    let all = group.contexts();
    let mut i: usize = 0;
    while i < all.len()
        invariant
            all@ == contexts_of(group),
            i <= all@.len(),
            forall|j: int| 0 <= j < i ==> !is_browse_context(#[trigger] all@[j]),
        decreases all@.len() - i,
    {
        let c = all[i];
        if c == Context::Sidebar || c == Context::Tasks || c == Context::Detail {
            return true;
        }
        i = i + 1;
    }
    false
}

fn selects_exec(selection: Selection, b: &Binding) -> (r: bool)
    ensures
        r == selects(selection, b@),
{
    match selection {
        Selection::Hints(context) => b.hint && b.contexts.has(context),
        Selection::Browsing => touches_browsing_exec(b.contexts),
        Selection::PaletteActions => touches_browsing_exec(b.contexts) && !matches!(
            b.action,
            Action::MoveDown | Action::MoveUp | Action::JumpTop | Action::JumpBottom
                | Action::FocusLeft | Action::FocusRight | Action::FocusNext | Action::Open
                | Action::Palette | Action::EditHere
        ),
        Selection::PickerFields => b.contexts == Contexts::Fields && b.action != Action::Cancel,
    }
}

/// The first row from `from` on whose binding has `label`.
pub open spec fn find_label(rows: Seq<(Seq<char>, BindingView)>, label: Seq<char>, from: int) -> Option<int>
    decreases rows.len() - from,
{
    if from < 0 || from >= rows.len() {
        None
    } else if rows[from].1.label == label {
        Some(from)
    } else {
        find_label(rows, label, from + 1)
    }
}

/// `rows` with the binding `b` in: its key after the keys of the row with
/// its label, as `j/Down`, or a new row of its own.
pub open spec fn add_row(rows: Seq<(Seq<char>, BindingView)>, b: BindingView) -> Seq<(Seq<char>, BindingView)> {
    match find_label(rows, b.label, 0) {
        Some(k) => rows.update(k, (rows[k].0 + seq!['/'] + b.key, rows[k].1)),
        None => rows.push((b.key, b)),
    }
}

/// The rows the first `n` bindings make for `selection`: one per label
/// with its keys joined as `j/Down` and the first binding of that label,
/// in table order.
pub open spec fn group_upto(selection: Selection, n: int) -> Seq<(Seq<char>, BindingView)>
    decreases n,
{
    if n <= 0 {
        Seq::empty()
    } else {
        let rows = group_upto(selection, n - 1);
        let b = table_at((n - 1) as usize);
        if selects(selection, b) {
            add_row(rows, b)
        } else {
            rows
        }
    }
}

proof fn lemma_find_label(rows: Seq<(Seq<char>, BindingView)>, label: Seq<char>, from: int)
    requires
        0 <= from,
    ensures
        match find_label(rows, label, from) {
            Some(k) => from <= k < rows.len() && rows[k].1.label == label,
            None => forall|k: int| from <= k < rows.len() ==> (#[trigger] rows[k]).1.label != label,
        },
    decreases rows.len() - from,
{
    if from < rows.len() && rows[from].1.label != label {
        lemma_find_label(rows, label, from + 1);
    }
}

pub open spec fn distinct_labels(rows: Seq<(Seq<char>, BindingView)>) -> bool {
    forall|a: int, b: int| 0 <= a < b < rows.len() ==> (#[trigger] rows[a]).1.label != (#[trigger] rows[b]).1.label
}

pub open spec fn covers(selection: Selection, n: int, rows: Seq<(Seq<char>, BindingView)>) -> bool {
    forall|i: int| 0 <= i < n && selects(selection, #[trigger] table_at(i as usize)) ==> exists|k: int|
        0 <= k < rows.len() && (#[trigger] rows[k]).1.label == table_at(i as usize).label
}

pub open spec fn from_table(selection: Selection, n: int, rows: Seq<(Seq<char>, BindingView)>) -> bool {
    forall|k: int| 0 <= k < rows.len() ==> exists|i: int|
        0 <= i < n && selects(selection, #[trigger] table_at(i as usize)) && table_at(i as usize) == (#[trigger] rows[k]).1
}

#[verifier::spinoff_prover]
proof fn lemma_grouped_distinct(selection: Selection, n: int)
    requires
        0 <= n <= BINDING_COUNT,
    ensures
        distinct_labels(group_upto(selection, n)),
    decreases n,
{
    if n > 0 {
        lemma_grouped_distinct(selection, n - 1);
        let before = group_upto(selection, n - 1);
        let b = table_at((n - 1) as usize);
        let rows = group_upto(selection, n);
        if selects(selection, b) {
            lemma_find_label(before, b.label, 0);
            match find_label(before, b.label, 0) {
                Some(k0) => {
                    assert forall|a: int, c: int| 0 <= a < c < rows.len() implies (#[trigger] rows[a]).1.label != (#[trigger] rows[c]).1.label by {
                        assert(rows[a].1 == before[a].1 && rows[c].1 == before[c].1);
                    }
                },
                None => {
                    assert forall|a: int, c: int| 0 <= a < c < rows.len() implies (#[trigger] rows[a]).1.label != (#[trigger] rows[c]).1.label by {
                        assert(rows[a] == before[a]);
                        if c < before.len() {
                            assert(rows[c] == before[c]);
                        }
                    }
                },
            }
        }
    }
}

#[verifier::spinoff_prover]
proof fn lemma_grouped_covers(selection: Selection, n: int)
    requires
        0 <= n <= BINDING_COUNT,
    ensures
        covers(selection, n, group_upto(selection, n)),
    decreases n,
{
    if n > 0 {
        lemma_grouped_covers(selection, n - 1);
        let before = group_upto(selection, n - 1);
        let b = table_at((n - 1) as usize);
        let rows = group_upto(selection, n);
        if selects(selection, b) {
            lemma_find_label(before, b.label, 0);
        }
        assert forall|i: int| 0 <= i < n && selects(selection, #[trigger] table_at(i as usize)) implies exists|k: int|
            0 <= k < rows.len() && (#[trigger] rows[k]).1.label == table_at(i as usize).label by {
            if i < n - 1 {
                let k = choose|k: int| 0 <= k < before.len() && (#[trigger] before[k]).1.label == table_at(i as usize).label;
                assert(rows[k].1 == before[k].1);
            } else {
                match find_label(before, b.label, 0) {
                    Some(k0) => assert(rows[k0].1 == before[k0].1),
                    None => assert(rows[before.len() as int].1 == b),
                }
            }
        }
    }
}

#[verifier::spinoff_prover]
proof fn lemma_grouped_from_table(selection: Selection, n: int)
    requires
        0 <= n <= BINDING_COUNT,
    ensures
        from_table(selection, n, group_upto(selection, n)),
    decreases n,
{
    if n > 0 {
        lemma_grouped_from_table(selection, n - 1);
        let before = group_upto(selection, n - 1);
        let b = table_at((n - 1) as usize);
        let rows = group_upto(selection, n);
        if selects(selection, b) {
            lemma_find_label(before, b.label, 0);
        }
        assert forall|k: int| 0 <= k < rows.len() implies exists|i: int|
            0 <= i < n && selects(selection, #[trigger] table_at(i as usize)) && table_at(i as usize) == (#[trigger] rows[k]).1 by {
            if k < before.len() {
                if selects(selection, b) {
                    match find_label(before, b.label, 0) {
                        Some(k0) => assert(rows[k].1 == before[k].1),
                        None => assert(rows[k] == before[k]),
                    }
                }
                assert(rows[k].1 == before[k].1);
                let i = choose|i: int| 0 <= i < n - 1 && selects(selection, #[trigger] table_at(i as usize)) && table_at(i as usize) == before[k].1;
                assert(0 <= i < n);
            } else {
                assert(selects(selection, b));
                assert(find_label(before, b.label, 0) is None);
                assert(rows[k].1 == b);
            }
        }
    }
}

/// The rows `grouped` makes have one label each, every wanted binding's
/// label among them, and each row's binding a wanted one from the table.
pub proof fn law_grouped_rows_have_distinct_labels(selection: Selection)
    ensures
        distinct_labels(group_upto(selection, BINDING_COUNT as int)),
        covers(selection, BINDING_COUNT as int, group_upto(selection, BINDING_COUNT as int)),
        from_table(selection, BINDING_COUNT as int, group_upto(selection, BINDING_COUNT as int)),
{
    lemma_grouped_distinct(selection, BINDING_COUNT as int);
    lemma_grouped_covers(selection, BINDING_COUNT as int);
    lemma_grouped_from_table(selection, BINDING_COUNT as int);
}

/// The index of the first of the first `n` bindings that `selection`
/// takes with `label`.
pub open spec fn first_of(selection: Selection, n: int, label: Seq<char>) -> Option<int>
    decreases n,
{
    if n <= 0 {
        None
    } else {
        match first_of(selection, n - 1, label) {
            Some(i) => Some(i),
            None => if selects(selection, table_at((n - 1) as usize)) && table_at((n - 1) as usize).label == label {
                Some(n - 1)
            } else {
                None
            },
        }
    }
}

/// The keys of the first `n` bindings that `selection` takes with `label`,
/// in table order, joined by `/`; `None` where there are none.
pub open spec fn keys_of(selection: Selection, n: int, label: Seq<char>) -> Option<Seq<char>>
    decreases n,
{
    if n <= 0 {
        None
    } else {
        let b = table_at((n - 1) as usize);
        let before = keys_of(selection, n - 1, label);
        if selects(selection, b) && b.label == label {
            match before {
                Some(s) => Some(s + seq!['/'] + b.key),
                None => Some(b.key),
            }
        } else {
            before
        }
    }
}

proof fn lemma_first_of(selection: Selection, n: int, label: Seq<char>)
    ensures
        match first_of(selection, n, label) {
            Some(i) => 0 <= i < n && selects(selection, table_at(i as usize)) && table_at(i as usize).label == label,
            None => forall|i: int| 0 <= i < n ==> !(selects(selection, #[trigger] table_at(i as usize)) && table_at(i as usize).label == label),
        },
        first_of(selection, n, label) is Some <==> keys_of(selection, n, label) is Some,
    decreases n,
{
    if n > 0 {
        lemma_first_of(selection, n - 1, label);
    }
}

/// What a row says of the first `n` bindings: its binding is the first
/// one taken with its label, and its keys are theirs, joined.
pub open spec fn row_ok(selection: Selection, n: int, row: (Seq<char>, BindingView)) -> bool {
    &&& first_of(selection, n, row.1.label) is Some
    &&& table_at(first_of(selection, n, row.1.label)->Some_0 as usize) == row.1
    &&& keys_of(selection, n, row.1.label) == Some(row.0)
}

pub open spec fn rows_ok(selection: Selection, n: int, rows: Seq<(Seq<char>, BindingView)>) -> bool {
    forall|k: int| 0 <= k < rows.len() ==> row_ok(selection, n, #[trigger] rows[k])
}

/// Rows come in the order of their first bindings.
pub open spec fn rows_ordered(selection: Selection, n: int, rows: Seq<(Seq<char>, BindingView)>) -> bool {
    forall|a: int, c: int|
        0 <= a < c < rows.len() ==> first_of(selection, n, (#[trigger] rows[a]).1.label)->Some_0
            < first_of(selection, n, (#[trigger] rows[c]).1.label)->Some_0
}

/// A binding that is not taken, or has another label, changes nothing of
/// what is said of `label`.
proof fn lemma_other_label(selection: Selection, n: int, label: Seq<char>)
    requires
        n > 0,
        !(selects(selection, table_at((n - 1) as usize)) && table_at((n - 1) as usize).label == label),
    ensures
        first_of(selection, n, label) == first_of(selection, n - 1, label),
        keys_of(selection, n, label) == keys_of(selection, n - 1, label),
{
}

#[verifier::spinoff_prover]
proof fn lemma_step_skip(selection: Selection, n: int)
    requires
        n > 0,
        !selects(selection, table_at((n - 1) as usize)),
        rows_ok(selection, n - 1, group_upto(selection, n - 1)),
        rows_ordered(selection, n - 1, group_upto(selection, n - 1)),
    ensures
        rows_ok(selection, n, group_upto(selection, n)),
        rows_ordered(selection, n, group_upto(selection, n)),
{
    let rows = group_upto(selection, n);
    assert(rows == group_upto(selection, n - 1));
    assert forall|k: int| 0 <= k < rows.len() implies row_ok(selection, n, #[trigger] rows[k]) by {
        lemma_other_label(selection, n, rows[k].1.label);
    }
    assert forall|a: int, c: int| 0 <= a < c < rows.len() implies first_of(selection, n, (#[trigger] rows[a]).1.label)->Some_0
        < first_of(selection, n, (#[trigger] rows[c]).1.label)->Some_0 by {
        lemma_other_label(selection, n, rows[a].1.label);
        lemma_other_label(selection, n, rows[c].1.label);
    }
}

#[verifier::spinoff_prover]
proof fn lemma_step_join(selection: Selection, n: int, k0: int)
    requires
        0 < n <= BINDING_COUNT,
        selects(selection, table_at((n - 1) as usize)),
        find_label(group_upto(selection, n - 1), table_at((n - 1) as usize).label, 0) == Some(k0),
        0 <= k0 < group_upto(selection, n - 1).len(),
        group_upto(selection, n - 1)[k0].1.label == table_at((n - 1) as usize).label,
        rows_ok(selection, n - 1, group_upto(selection, n - 1)),
        rows_ordered(selection, n - 1, group_upto(selection, n - 1)),
    ensures
        rows_ok(selection, n, group_upto(selection, n)),
        rows_ordered(selection, n, group_upto(selection, n)),
{
    let before = group_upto(selection, n - 1);
    let b = table_at((n - 1) as usize);
    let rows = group_upto(selection, n);
    assert(rows == before.update(k0, (before[k0].0 + seq!['/'] + b.key, before[k0].1)));
    assert(row_ok(selection, n - 1, before[k0]));
    assert(first_of(selection, n, b.label) == first_of(selection, n - 1, b.label));
    assert(keys_of(selection, n, b.label) == Some(before[k0].0 + seq!['/'] + b.key));
    assert forall|k: int| 0 <= k < rows.len() implies row_ok(selection, n, #[trigger] rows[k]) by {
        assert(row_ok(selection, n - 1, before[k]));
        assert(rows[k].1 == before[k].1);
        if rows[k].1.label != b.label {
            lemma_other_label(selection, n, rows[k].1.label);
            assert(rows[k] == before[k]);
        } else if k != k0 {
            assert(rows[k] == before[k]);
        }
    }
    assert forall|a: int, c: int| 0 <= a < c < rows.len() implies first_of(selection, n, (#[trigger] rows[a]).1.label)->Some_0
        < first_of(selection, n, (#[trigger] rows[c]).1.label)->Some_0 by {
        assert(rows[a].1 == before[a].1 && rows[c].1 == before[c].1);
        assert(first_of(selection, n - 1, before[a].1.label)->Some_0 < first_of(selection, n - 1, before[c].1.label)->Some_0);
        if rows[a].1.label != b.label {
            lemma_other_label(selection, n, rows[a].1.label);
        }
        if rows[c].1.label != b.label {
            lemma_other_label(selection, n, rows[c].1.label);
        }
    }
}

#[verifier::spinoff_prover]
proof fn lemma_step_new(selection: Selection, n: int)
    requires
        0 < n <= BINDING_COUNT,
        selects(selection, table_at((n - 1) as usize)),
        find_label(group_upto(selection, n - 1), table_at((n - 1) as usize).label, 0) is None,
        forall|k: int| 0 <= k < group_upto(selection, n - 1).len()
            ==> (#[trigger] group_upto(selection, n - 1)[k]).1.label != table_at((n - 1) as usize).label,
        covers(selection, n - 1, group_upto(selection, n - 1)),
        rows_ok(selection, n - 1, group_upto(selection, n - 1)),
        rows_ordered(selection, n - 1, group_upto(selection, n - 1)),
    ensures
        rows_ok(selection, n, group_upto(selection, n)),
        rows_ordered(selection, n, group_upto(selection, n)),
{
    let before = group_upto(selection, n - 1);
    let b = table_at((n - 1) as usize);
    let rows = group_upto(selection, n);
    assert(rows == before.push((b.key, b)));
    lemma_first_of(selection, n - 1, b.label);
    if first_of(selection, n - 1, b.label) is Some {
        let i = first_of(selection, n - 1, b.label)->Some_0;
        assert(selects(selection, table_at(i as usize)));
    }
    assert(first_of(selection, n - 1, b.label) is None);
    assert(keys_of(selection, n - 1, b.label) is None);
    assert(first_of(selection, n, b.label) == Some(n - 1));
    assert(keys_of(selection, n, b.label) == Some(b.key));
    assert forall|k: int| 0 <= k < rows.len() implies row_ok(selection, n, #[trigger] rows[k]) by {
        if k < before.len() {
            assert(rows[k] == before[k]);
            assert(row_ok(selection, n - 1, before[k]));
            lemma_other_label(selection, n, before[k].1.label);
        } else {
            assert(rows[k] == (b.key, b));
        }
    }
    assert forall|a: int, c: int| 0 <= a < c < rows.len() implies first_of(selection, n, (#[trigger] rows[a]).1.label)->Some_0
        < first_of(selection, n, (#[trigger] rows[c]).1.label)->Some_0 by {
        assert(rows[a] == before[a]);
        assert(row_ok(selection, n - 1, before[a]));
        lemma_other_label(selection, n, before[a].1.label);
        lemma_first_of(selection, n - 1, before[a].1.label);
        if c < before.len() {
            assert(rows[c] == before[c]);
            lemma_other_label(selection, n, before[c].1.label);
        } else {
            assert(rows[c] == (b.key, b));
        }
    }
}

proof fn lemma_grouped_order(selection: Selection, n: int)
    requires
        0 <= n <= BINDING_COUNT,
    ensures
        rows_ok(selection, n, group_upto(selection, n)),
        rows_ordered(selection, n, group_upto(selection, n)),
    decreases n,
{
    if n > 0 {
        lemma_grouped_order(selection, n - 1);
        let before = group_upto(selection, n - 1);
        let b = table_at((n - 1) as usize);
        if selects(selection, b) {
            lemma_find_label(before, b.label, 0);
            match find_label(before, b.label, 0) {
                Some(k0) => lemma_step_join(selection, n, k0),
                None => {
                    lemma_grouped_covers(selection, n - 1);
                    lemma_step_new(selection, n);
                },
            }
        } else {
            lemma_step_skip(selection, n);
        }
    }
}

/// Each row of `grouped` holds the first wanted binding of its label and
/// the keys of all wanted bindings with that label, in table order,
/// joined by `/`; and the rows come in the order of those first bindings.
pub proof fn law_grouped_rows_in_table_order(selection: Selection)
    ensures
        rows_ok(selection, BINDING_COUNT as int, group_upto(selection, BINDING_COUNT as int)),
        rows_ordered(selection, BINDING_COUNT as int, group_upto(selection, BINDING_COUNT as int)),
{
    lemma_grouped_order(selection, BINDING_COUNT as int);
}

/// The rows as the contracts read them.
pub open spec fn rows_view(rows: Seq<(String, Binding)>) -> Seq<(Seq<char>, BindingView)> {
    rows.map_values(|r: (String, Binding)| (r.0@, r.1@))
}

/// The bindings `selection` picks, one row per label with its keys joined
/// as `j/Down` and the first binding of that label, in table order.
pub fn grouped(selection: Selection) -> (rows: Vec<(String, Binding)>)
    ensures
        rows_view(rows@) == group_upto(selection, BINDING_COUNT as int),
{
    let mut rows: Vec<(String, Binding)> = Vec::new();
    let mut i: usize = 0;
    assert(rows_view(rows@) =~= Seq::<(Seq<char>, BindingView)>::empty());
    while i < BINDING_COUNT
        invariant
            i <= BINDING_COUNT,
            rows_view(rows@) == group_upto(selection, i as int),
        decreases BINDING_COUNT - i,
    {
        let b = binding_at(i);
        if selects_exec(selection, &b) {
            let ghost before = rows_view(rows@);
            match find_row(&rows, b.label) {
                Some(k) => {
                    let mut keys = rows[k].0.clone();
                    push_char(&mut keys, '/');
                    keys.append(b.key);
                    let first = rows[k].1;
                    assert(keys@ =~= before[k as int].0 + seq!['/'] + b@.key);
                    assert(first@ == before[k as int].1);
                    rows.set(k, (keys, first));
                    assert(rows_view(rows@) =~= add_row(before, b@));
                },
                None => {
                    rows.push((b.key.to_owned(), b));
                    assert(rows_view(rows@) =~= add_row(before, b@));
                },
            }
        }
        i = i + 1;
    }
    rows
}

/// The first row whose binding has `label`.
fn find_row(rows: &Vec<(String, Binding)>, label: &str) -> (k: Option<usize>)
    ensures
        match k {
            Some(k) => find_label(rows_view(rows@), label@, 0) == Some(k as int) && k < rows@.len(),
            None => find_label(rows_view(rows@), label@, 0) is None,
        },
{
    let ghost view = rows_view(rows@);
    let mut k: usize = 0;
    while k < rows.len()
        invariant
            k <= rows@.len(),
            view == rows_view(rows@),
            find_label(view, label@, k as int) == find_label(view, label@, 0),
        decreases rows@.len() - k,
    {
        if str_eq(rows[k].1.label, label) {
            return Some(k);
        }
        k = k + 1;
    }
    None
}

/// `(keys, label)` for each row.
pub open spec fn labelled_spec(rows: Seq<(Seq<char>, BindingView)>) -> Seq<(Seq<char>, Seq<char>)> {
    rows.map_values(|r: (Seq<char>, BindingView)| (r.0, r.1.label))
}

/// The views of `(keys, label)` pairs.
pub open spec fn pairs_view(rows: Seq<(String, &'static str)>) -> Seq<(Seq<char>, Seq<char>)> {
    rows.map_values(|r: (String, &'static str)| (r.0@, r.1@))
}

/// `(keys, label)` for each row.
pub fn labelled(rows: Vec<(String, Binding)>) -> (out: Vec<(String, &'static str)>)
    ensures
        pairs_view(out@) == labelled_spec(rows_view(rows@)),
{
    let mut out: Vec<(String, &'static str)> = Vec::new();
    let mut i: usize = 0;
    while i < rows.len()
        invariant
            i <= rows@.len(),
            out@.len() == i,
            forall|k: int| 0 <= k < i ==> #[trigger] out@[k] == (rows@[k].0, rows@[k].1.label),
        decreases rows@.len() - i,
    {
        let keys = rows[i].0.clone();
        let label = rows[i].1.label;
        out.push((keys, label));
        i = i + 1;
    }
    assert(pairs_view(out@) =~= labelled_spec(rows_view(rows@)));
    out
}

/// The hint bar's `(keys, label)` pairs for `context`.
pub fn hints(context: Context) -> (out: Vec<(String, &'static str)>)
    ensures
        pairs_view(out@) == labelled_spec(group_upto(Selection::Hints(context), BINDING_COUNT as int)),
{
    labelled(grouped(Selection::Hints(context)))
}

/// Every browsing binding, for the help screen.
pub fn help_rows() -> (out: Vec<(String, &'static str)>)
    ensures
        pairs_view(out@) == labelled_spec(group_upto(Selection::Browsing, BINDING_COUNT as int)),
{
    labelled(grouped(Selection::Browsing))
}

/// What the palette offers, as `(keys, label, action)`: the browsing
/// actions but moving around and the palette itself, then each field the
/// picker edits, with its keys after the picker's, as `e t`.
pub open spec fn commands_spec() -> Seq<(Seq<char>, Seq<char>, Action)> {
    let picker = match key_for_spec(Context::Tasks, Action::Edit) {
        Some(k) => k,
        None => Seq::empty(),
    };
    group_upto(Selection::PaletteActions, BINDING_COUNT as int).map_values(
        |r: (Seq<char>, BindingView)| (r.0, r.1.label, r.1.action),
    ) + group_upto(Selection::PickerFields, BINDING_COUNT as int).map_values(
        |r: (Seq<char>, BindingView)| (picker + " "@ + r.0, r.1.label, r.1.action),
    )
}

/// The views of `(keys, label, action)` triples.
pub open spec fn commands_view(rows: Seq<(String, &'static str, Action)>) -> Seq<(Seq<char>, Seq<char>, Action)> {
    rows.map_values(|r: (String, &'static str, Action)| (r.0@, r.1@, r.2))
}

/// What the command palette offers: every browsing action but moving
/// around and the palette itself, then each field the picker edits, with
/// its keys after the picker's, as `e t`; as `(keys, label, action)`.
pub fn commands() -> (out: Vec<(String, &'static str, Action)>)
    ensures
        commands_view(out@) == commands_spec(),
{
    let browsing = grouped(Selection::PaletteActions);
    let fields = grouped(Selection::PickerFields);
    let picker = match key_for(Context::Tasks, Action::Edit) {
        Some(k) => k,
        None => "",
    };
    let ghost pk = match key_for_spec(Context::Tasks, Action::Edit) {
        Some(k) => k,
        None => Seq::<char>::empty(),
    };
    proof {
        reveal_strlit("");
    }
    assert(picker@ == pk);
    let mut out: Vec<(String, &'static str, Action)> = Vec::new();
    let mut i: usize = 0;
    while i < browsing.len()
        invariant
            i <= browsing@.len(),
            out@.len() == i,
            forall|k: int| 0 <= k < i ==> #[trigger] out@[k] == (browsing@[k].0, browsing@[k].1.label, browsing@[k].1.action),
        decreases browsing@.len() - i,
    {
        out.push((browsing[i].0.clone(), browsing[i].1.label, browsing[i].1.action));
        i = i + 1;
    }
    let nb = browsing.len();
    let mut j: usize = 0;
    while j < fields.len()
        invariant
            j <= fields@.len(),
            nb == browsing@.len(),
            picker@ == pk,
            out@.len() == nb + j,
            forall|k: int| 0 <= k < nb ==> #[trigger] out@[k] == (browsing@[k].0, browsing@[k].1.label, browsing@[k].1.action),
            forall|k: int| 0 <= k < j ==> (#[trigger] out@[nb + k]).0@ == pk + " "@ + fields@[k].0@
                && out@[nb + k].1 == fields@[k].1.label && out@[nb + k].2 == fields@[k].1.action,
        decreases fields@.len() - j,
    {
        let mut keys = picker.to_owned();
        push_char(&mut keys, ' ');
        keys.append(fields[j].0.as_str());
        assert(keys@ =~= pk + " "@ + fields@[j as int].0@) by {
            reveal_strlit(" ");
        }
        out.push((keys, fields[j].1.label, fields[j].1.action));
        assert(out@[nb + j] == out@.last());
        j = j + 1;
    }
    assert forall|k: int| 0 <= k < out@.len() implies #[trigger] commands_view(out@)[k] == commands_spec()[k] by {
        if k >= nb {
            assert(out@[nb + (k - nb)] == out@[k]);
        }
    }
    assert(commands_view(out@) =~= commands_spec());
    out
}

/// A key on the keyboard, as the bindings name them.
#[derive(Clone, Copy, Debug, PartialEq, Eq, Hash, Structural)]
pub enum KeyCode {
    Char(char),
    Enter,
    Esc,
    Tab,
    BackTab,
    Backspace,
    Delete,
    Insert,
    Up,
    Down,
    Left,
    Right,
    Home,
    End,
    PageUp,
    PageDown,
    F(u8),
    /// Any other key: no binding names it.
    Other,
}

/// The modifiers a binding can ask for.
#[derive(Clone, Copy, Debug, PartialEq, Eq, Hash, Structural)]
pub struct Modifiers {
    pub control: bool,
    pub shift: bool,
    pub alt: bool,
}

/// No modifier.
pub open spec fn no_modifiers() -> Modifiers {
    Modifiers { control: false, shift: false, alt: false }
}

impl Modifiers {
    pub fn none() -> (m: Modifiers)
        ensures
            m == no_modifiers(),
    {
        Modifiers { control: false, shift: false, alt: false }
    }
}

/// A single key with its modifiers.
#[derive(Clone, Copy, Debug, PartialEq, Eq, Hash, Structural)]
pub struct KeyPress {
    pub code: KeyCode,
    pub modifiers: Modifiers,
}

/// A key as pressed: its code, its modifiers, and whether this is its
/// release.
#[derive(Clone, Copy, Debug, PartialEq, Eq, Structural)]
pub struct KeyEvent {
    pub code: KeyCode,
    pub modifiers: Modifiers,
    pub release: bool,
}

/// A key with no modifier.
pub open spec fn named(code: KeyCode) -> KeyPress {
    KeyPress { code, modifiers: no_modifiers() }
}

/// The name a key string gives a key that isn't a character: its own
/// name (Space for the space bar); none for other keys.
pub open spec fn key_name(code: KeyCode) -> Option<Seq<char>> {
    match code {
        KeyCode::Enter => Some("Enter"@),
        KeyCode::Esc => Some("Esc"@),
        KeyCode::Tab => Some("Tab"@),
        KeyCode::Backspace => Some("Backspace"@),
        KeyCode::Up => Some("Up"@),
        KeyCode::Down => Some("Down"@),
        KeyCode::Char(' ') => Some("Space"@),
        _ => None,
    }
}

/// Each key with a name parses from its name as that key, with no
/// modifier: "Up" is the Up arrow and "Down" the Down arrow, and so on.
pub proof fn law_a_named_key_parses_as_itself(code: KeyCode)
    ensures
        key_name(code) matches Some(name) ==> parse_key_spec(name) == Ok::<KeyPress, Seq<char>>(named(code)),
{
    reveal_strlit("Alt-");
    reveal_strlit("Ctrl-");
    reveal_strlit("Enter");
    reveal_strlit("Esc");
    reveal_strlit("Escape");
    reveal_strlit("Tab");
    reveal_strlit("Space");
    reveal_strlit("Backspace");
    reveal_strlit("Up");
    reveal_strlit("Down");
    if let Some(name) = key_name(code) {
        assert(!(name.len() >= 4 && name.subrange(0, 4) == "Alt-"@)) by {
            if name.len() >= 4 && name.subrange(0, 4) == "Alt-"@ {
                assert(name.subrange(0, 4)[3] == '-');
            }
        }
        assert(!(name.len() >= 5 && name.subrange(0, 5) == "Ctrl-"@)) by {
            if name.len() >= 5 && name.subrange(0, 5) == "Ctrl-"@ {
                assert(name.subrange(0, 5)[4] == '-');
            }
        }
        match code {
            KeyCode::Enter => {},
            KeyCode::Esc => {},
            KeyCode::Tab => {
                assert(name != "Enter"@ && name != "Esc"@ && name != "Escape"@);
            },
            KeyCode::Char(_) => {
                assert(name != "Enter"@ && name != "Esc"@ && name != "Escape"@ && name != "Tab"@);
            },
            KeyCode::Backspace => {
                assert(name != "Enter"@ && name != "Esc"@ && name != "Escape"@ && name != "Tab"@ && name != "Space"@);
            },
            KeyCode::Up => {
                assert(name != "Enter"@ && name != "Esc"@ && name != "Escape"@ && name != "Tab"@ && name != "Space"@
                    && name != "Backspace"@);
            },
            KeyCode::Down => {
                assert(name != "Enter"@ && name != "Esc"@ && name != "Escape"@ && name != "Tab"@ && name != "Space"@
                    && name != "Backspace"@ && name != "Up"@);
            },
            _ => {},
        }
    }
}

/// A single character is that character's key, shifted when it is an
/// uppercase letter; `Ctrl-` and a character is that character with
/// Control; `Alt-` before any key string is that key with Alt.
pub proof fn law_key_strings_compose(c: char, key: Seq<char>)
    ensures
        parse_key_spec(seq![c]) == Ok::<KeyPress, Seq<char>>(
            KeyPress { code: KeyCode::Char(c), modifiers: Modifiers { control: false, shift: uppercase_char(c), alt: false } },
        ),
        parse_key_spec("Ctrl-"@ + seq![c]) == Ok::<KeyPress, Seq<char>>(
            KeyPress { code: KeyCode::Char(c), modifiers: Modifiers { control: true, shift: false, alt: false } },
        ),
        parse_key_spec("Alt-"@ + key) == match parse_key_spec(key) {
            Ok(press) => Ok::<KeyPress, Seq<char>>(
                KeyPress { code: press.code, modifiers: Modifiers { alt: true, ..press.modifiers } },
            ),
            Err(why) => Err(why),
        },
{
    reveal_strlit("Alt-");
    reveal_strlit("Ctrl-");
    reveal_strlit("Enter");
    reveal_strlit("Esc");
    reveal_strlit("Escape");
    reveal_strlit("Tab");
    reveal_strlit("Space");
    reveal_strlit("Backspace");
    reveal_strlit("Up");
    reveal_strlit("Down");
    let one = seq![c];
    assert(one != "Enter"@ && one != "Esc"@ && one != "Escape"@ && one != "Tab"@ && one != "Space"@
        && one != "Backspace"@ && one != "Up"@ && one != "Down"@);
    let ctrl = "Ctrl-"@ + seq![c];
    assert(ctrl.subrange(0, 5) =~= "Ctrl-"@);
    assert(ctrl.subrange(0, 4) != "Alt-"@) by {
        assert(ctrl.subrange(0, 4)[0] == 'C');
    }
    assert(ctrl[5] == c);
    let alt = "Alt-"@ + key;
    assert(alt.subrange(0, 4) =~= "Alt-"@);
    assert(alt.subrange(4, alt.len() as int) =~= key);
}

/// The key a key string like "j", "G", "Ctrl-c", "Alt-Enter" or "Down"
/// names, or why it names none.
pub open spec fn parse_key_spec(key: Seq<char>) -> Result<KeyPress, Seq<char>>
    decreases key.len(),
{
    if key.len() >= 4 && key.subrange(0, 4) == "Alt-"@ {
        match parse_key_spec(key.subrange(4, key.len() as int)) {
            Ok(press) => Ok(
                KeyPress {
                    code: press.code,
                    modifiers: Modifiers { alt: true, ..press.modifiers },
                },
            ),
            Err(why) => Err(why),
        }
    } else if key.len() >= 5 && key.subrange(0, 5) == "Ctrl-"@ {
        if key.len() == 5 {
            Err("missing a key after Ctrl-"@)
        } else {
            Ok(
                KeyPress {
                    code: KeyCode::Char(key[5]),
                    modifiers: Modifiers { control: true, shift: false, alt: false },
                },
            )
        }
    } else if key == "Enter"@ {
        Ok(named(KeyCode::Enter))
    } else if key == "Esc"@ || key == "Escape"@ {
        Ok(named(KeyCode::Esc))
    } else if key == "Tab"@ {
        Ok(named(KeyCode::Tab))
    } else if key == "Space"@ {
        Ok(named(KeyCode::Char(' ')))
    } else if key == "Backspace"@ {
        Ok(named(KeyCode::Backspace))
    } else if key == "Up"@ {
        Ok(named(KeyCode::Up))
    } else if key == "Down"@ {
        Ok(named(KeyCode::Down))
    } else if key.len() == 1 {
        Ok(
            KeyPress {
                code: KeyCode::Char(key[0]),
                modifiers: Modifiers { control: false, shift: uppercase_char(key[0]), alt: false },
            },
        )
    } else {
        Err(debug_quoted(key) + " isn't one key"@)
    }
}

/// Whether `chars` starts with the characters of `prefix`.
fn starts_with(chars: &Vec<char>, prefix: &str) -> (b: bool)
    ensures
        b == (prefix@.len() <= chars@.len() && chars@.subrange(0, prefix@.len() as int) == prefix@),
{
    let p = chars_of(prefix);
    if p.len() > chars.len() {
        return false;
    }
    let mut i: usize = 0;
    while i < p.len()
        invariant
            p@ == prefix@,
            p@.len() <= chars@.len(),
            i <= p@.len(),
            forall|j: int| 0 <= j < i ==> chars@[j] == p@[j],
        decreases p@.len() - i,
    {
        if chars[i] != p[i] {
            assert(chars@.subrange(0, p@.len() as int)[i as int] != p@[i as int]);
            return false;
        }
        i = i + 1;
    }
    assert(chars@.subrange(0, p@.len() as int) =~= p@);
    true
}

/// Parse a key string like "j", "G", "Ctrl-c", "Alt-Enter" or "Down".
pub fn parse_key_string(key: &str) -> (r: Result<KeyPress, String>)
    ensures
        match r {
            Ok(press) => parse_key_spec(key@) == Ok::<KeyPress, Seq<char>>(press),
            Err(why) => parse_key_spec(key@) == Err::<KeyPress, Seq<char>>(why@),
        },
    decreases key@.len(),
{
    let chars = chars_of(key);
    if starts_with(&chars, "Alt-") {
        proof {
            reveal_strlit("Alt-");
        }
        let rest = string_of_range(&chars, 4, chars.len());
        return match parse_key_string(rest.as_str()) {
            Ok(press) => Ok(
                KeyPress {
                    code: press.code,
                    modifiers: Modifiers {
                        control: press.modifiers.control,
                        shift: press.modifiers.shift,
                        alt: true,
                    },
                },
            ),
            Err(why) => Err(why),
        };
    }
    proof {
        reveal_strlit("Alt-");
        reveal_strlit("Ctrl-");
    }
    if starts_with(&chars, "Ctrl-") {
        if chars.len() == 5 {
            return Err(String::from_str("missing a key after Ctrl-"));
        }
        return Ok(
            KeyPress {
                code: KeyCode::Char(chars[5]),
                modifiers: Modifiers { control: true, shift: false, alt: false },
            },
        );
    }
    if str_eq(key, "Enter") {
        Ok(KeyPress { code: KeyCode::Enter, modifiers: Modifiers::none() })
    } else if str_eq(key, "Esc") || str_eq(key, "Escape") {
        Ok(KeyPress { code: KeyCode::Esc, modifiers: Modifiers::none() })
    } else if str_eq(key, "Tab") {
        Ok(KeyPress { code: KeyCode::Tab, modifiers: Modifiers::none() })
    } else if str_eq(key, "Space") {
        Ok(KeyPress { code: KeyCode::Char(' '), modifiers: Modifiers::none() })
    } else if str_eq(key, "Backspace") {
        Ok(KeyPress { code: KeyCode::Backspace, modifiers: Modifiers::none() })
    } else if str_eq(key, "Up") {
        Ok(KeyPress { code: KeyCode::Up, modifiers: Modifiers::none() })
    } else if str_eq(key, "Down") {
        Ok(KeyPress { code: KeyCode::Down, modifiers: Modifiers::none() })
    } else if chars.len() == 1 {
        let ch = chars[0];
        Ok(
            KeyPress {
                code: KeyCode::Char(ch),
                modifiers: Modifiers { control: false, shift: is_uppercase(ch), alt: false },
            },
        )
    } else {
        Err(concat(&debug_str(key), " isn't one key"))
    }
}

/// The key pressed as the bindings read it: only Control, Shift and Alt
/// count, and for a character without Control, Shift is whether it's an
/// uppercase letter, since terminals disagree on whether "G" arrives with
/// Shift.
pub open spec fn normalize_spec(key: KeyEvent) -> KeyPress {
    match key.code {
        KeyCode::Char(ch) => if !key.modifiers.control {
            KeyPress { code: key.code, modifiers: Modifiers { control: false, shift: uppercase_char(ch), alt: false } }
        } else {
            KeyPress { code: key.code, modifiers: key.modifiers }
        },
        _ => KeyPress { code: key.code, modifiers: key.modifiers },
    }
}

fn normalize(key: &KeyEvent) -> (press: KeyPress)
    ensures
        press == normalize_spec(*key),
{
    match key.code {
        KeyCode::Char(ch) => if !key.modifiers.control {
            KeyPress {
                code: key.code,
                modifiers: Modifiers { control: false, shift: is_uppercase(ch), alt: false },
            }
        } else {
            KeyPress { code: key.code, modifiers: key.modifiers }
        },
        _ => KeyPress { code: key.code, modifiers: key.modifiers },
    }
}

/// Whether a binding in `context` is bound to `pressed`.
pub open spec fn bound_to(context: Context, pressed: KeyPress) -> spec_fn(BindingView) -> bool {
    |b: BindingView| contexts_of(b.contexts).contains(context) && parse_key_spec(b.key) == Ok::<KeyPress, Seq<char>>(pressed)
}

/// What `key` does in `context`, if anything.
pub open spec fn resolve_spec(context: Context, key: KeyEvent) -> Option<Action> {
    if key.release {
        None
    } else {
        match first_where(bound_to(context, normalize_spec(key)), 0) {
            Some(i) => Some(table_at(i as usize).action),
            None => None,
        }
    }
}

/// What `key` does in `context`, if anything. Key releases are ignored; a
/// shifted letter matches its binding whether or not the terminal reports
/// Shift.
pub fn resolve(context: Context, key: &KeyEvent) -> (a: Option<Action>)
    ensures
        a == resolve_spec(context, *key),
{
    if key.release {
        return None;
    }
    let pressed = normalize(key);
    let ghost wanted = bound_to(context, pressed);
    let mut i: usize = 0;
    while i < BINDING_COUNT
        invariant
            i <= BINDING_COUNT,
            wanted == bound_to(context, pressed),
            pressed == normalize_spec(*key),
            !key.release,
            first_where(wanted, i as int) == first_where(wanted, 0),
        decreases BINDING_COUNT - i,
    {
        let b = binding_at(i);
        if b.contexts.has(context) {
            match parse_key_string(b.key) {
                Ok(bound) => {
                    if bound == pressed {
                        return Some(b.action);
                    }
                },
                Err(_) => {},
            }
        }
        i = i + 1;
    }
    None
}

/// What the line editor in every prompt does with the keys the table
/// doesn't bind, for help.
pub open spec fn editor_keys() -> Seq<(Seq<char>, Seq<char>)> {
    seq![
        ("Left/Right"@, "Move (Home/End, Ctrl-a/e: line start/end)"@),
        ("Alt-b/Alt-f"@, "Word back/forward (also Ctrl-Left/Right)"@),
        ("Ctrl-w/u/k"@, "Delete word back, to line start, to end"@),
    ]
}

/// What the line editor in every prompt does with the keys the table
/// doesn't bind, for help, as `(keys, what they do)`.
pub fn editor_key_list() -> (v: Vec<(&'static str, &'static str)>)
    ensures
        v@.map_values(|p: (&'static str, &'static str)| (p.0@, p.1@)) == editor_keys(),
{
    let v = vec![
        ("Left/Right", "Move (Home/End, Ctrl-a/e: line start/end)"),
        ("Alt-b/Alt-f", "Word back/forward (also Ctrl-Left/Right)"),
        ("Ctrl-w/u/k", "Delete word back, to line start, to end"),
    ];
    assert(v@.map_values(|p: (&'static str, &'static str)| (p.0@, p.1@)) =~= editor_keys());
    v
}

} // verus!

verus! {

/// What a key does once its context is known: nothing, an action, a
/// character typed into a prompt, or a key for the prompt's line editor.
#[derive(Clone, Copy, Debug, PartialEq, Eq, Structural)]
pub enum KeyInput {
    Ignored,
    Action(Action),
    Char(char),
    Edit(KeyEvent),
}

/// Whether text is typed in `context`.
pub open spec fn takes_text(context: Context) -> bool {
    context == Context::Prompt || context == Context::Adding || context == Context::Notes
        || context == Context::Palette || context == Context::Folder || context == Context::MoveTo
}

/// What a key does in `context`: a release nothing; a bound key its
/// action; in a prompt, a character without Control or Alt is typed and
/// any other key goes to the line editor; elsewhere an unbound key does
/// nothing.
pub open spec fn key_input_spec(context: Context, key: KeyEvent) -> KeyInput {
    if key.release {
        KeyInput::Ignored
    } else {
        match resolve_spec(context, key) {
            Some(action) => KeyInput::Action(action),
            None => if !takes_text(context) {
                KeyInput::Ignored
            } else {
                match key.code {
                    KeyCode::Char(c) => if !key.modifiers.control && !key.modifiers.alt {
                        KeyInput::Char(c)
                    } else {
                        KeyInput::Edit(key)
                    },
                    _ => KeyInput::Edit(key),
                }
            },
        }
    }
}

/// What a key does in `context`.
pub fn key_input(context: Context, key: &KeyEvent) -> (r: KeyInput)
    ensures
        r == key_input_spec(context, *key),
{
    if key.release {
        return KeyInput::Ignored;
    }
    match resolve(context, key) {
        Some(action) => KeyInput::Action(action),
        None => {
            let text = match context {
                Context::Prompt | Context::Adding | Context::Notes | Context::Palette
                | Context::Folder | Context::MoveTo => true,
                _ => false,
            };
            if !text {
                KeyInput::Ignored
            } else {
                match key.code {
                    KeyCode::Char(c) => if !key.modifiers.control && !key.modifiers.alt {
                        KeyInput::Char(c)
                    } else {
                        KeyInput::Edit(*key)
                    },
                    _ => KeyInput::Edit(*key),
                }
            }
        },
    }
}

} // verus!
