//! What a key asks for, and the fields of a task the detail pane edits.

use vstd::prelude::*;

verus! {

/// A field the detail pane edits, in the order it shows them: j and k
/// move through them in this order.
#[derive(Clone, Copy, Debug, PartialEq, Eq, Hash, Structural)]
pub enum Field {
    Title,
    Due,
    Reminder,
    Importance,
    /// Who the task waits on.
    Assignee,
    Notes,
}

/// A level typed in the importance picker, as the reader of importance
/// reads it: `1`–`4`, `high`, `normal`, `low`.
#[derive(Clone, Copy, Debug, PartialEq, Eq, Hash, Structural)]
pub enum ImportanceWord {
    One,
    Two,
    Three,
    Four,
    High,
    Normal,
    Low,
}

/// The word each level is typed as.
pub open spec fn importance_word_text(word: ImportanceWord) -> Seq<char> {
    match word {
        ImportanceWord::One => "1"@,
        ImportanceWord::Two => "2"@,
        ImportanceWord::Three => "3"@,
        ImportanceWord::Four => "4"@,
        ImportanceWord::High => "high"@,
        ImportanceWord::Normal => "normal"@,
        ImportanceWord::Low => "low"@,
    }
}

impl ImportanceWord {
    /// The word as typed.
    pub fn as_str(self) -> (s: &'static str)
        ensures
            s@ == importance_word_text(self),
    {
        match self {
            ImportanceWord::One => "1",
            ImportanceWord::Two => "2",
            ImportanceWord::Three => "3",
            ImportanceWord::Four => "4",
            ImportanceWord::High => "high",
            ImportanceWord::Normal => "normal",
            ImportanceWord::Low => "low",
        }
    }
}

/// What a key asks for. The keybinding registry maps keys to these.
#[derive(Clone, Copy, Debug, PartialEq, Eq, Hash, Structural)]
pub enum Action {
    MoveDown,
    MoveUp,
    /// A page down, on the help screen.
    PageDown,
    /// A page up, on the help screen.
    PageUp,
    JumpTop,
    JumpBottom,
    /// Enter or Space in the sidebar: collapse or expand a folder, or
    /// open a list or view.
    Open,
    /// "Move list to folder…": ask for a folder for the current list.
    MoveToFolder,
    /// Tab in the folder prompt: take the first suggestion; in quick add,
    /// finish a `#List` or `@label`.
    Complete,
    /// `h`: the pane to the left.
    FocusLeft,
    /// `l`, and Enter in the sidebar: the pane to the right.
    FocusRight,
    /// Tab: the next pane, round to the first.
    FocusNext,
    /// Quick add: a task typed the way it's said, read as it's typed.
    Add,
    /// `Ctrl-r` in quick add: take the text literally, or read it again.
    ToggleParse,
    /// `Ctrl-l` in quick add: type the suggested list in as `#List`.
    AcceptList,
    /// Complete an open task, or reopen a completed one.
    ToggleComplete,
    /// `t`: put the task in My Day, or take it out.
    ToggleMyDay,
    /// Delete, after an inline confirmation.
    Delete,
    Undo,
    /// Filter the current scope by search.
    Filter,
    /// Esc in the list: drop the selection, else the filter.
    Clear,
    /// `e`: pick which field of the task to edit.
    Edit,
    /// Enter in the detail pane: edit the field under its cursor.
    EditHere,
    /// A field picked, in the picker or the palette.
    EditField(Field),
    /// `I` in the picker: low, normal, high, low, saved at once.
    CycleImportance,
    /// A level typed in the importance picker.
    SetImportance(ImportanceWord),
    /// `S`: one due date for the selection, or the task under the cursor.
    SetDue,
    /// `R`: a new due date for every overdue open task on screen.
    RescheduleOverdue,
    /// `m`: move the selection, or the task under the cursor, to a list
    /// picked by name.
    MoveTasks,
    /// `v`: add the task to the selection, or take it out.
    ToggleSelect,
    /// `V`: select every task in the view.
    SelectAll,
    /// `:`: the command palette.
    Palette,
    /// `D`: the diagnostics page.
    Diagnostics,
    /// `r` on the diagnostics page: ask the daemon again.
    Refresh,
    Sync,
    Help,
    Quit,
    /// Enter in a prompt or the picker.
    Submit,
    /// Esc in a prompt, the confirmation, the picker or help.
    Cancel,
    /// `y` in the delete confirmation.
    Confirm,
    Backspace,
    /// Enter in the notes editor.
    Newline,
    /// `o`: open the task's link, or pick one of its links.
    OpenLink,
    /// `y`: copy the task's link, or pick one of its links to copy.
    CopyLink,
}

/// Each field's name, as the detail pane shows it.
pub open spec fn field_name(field: Field) -> Seq<char> {
    match field {
        Field::Title => "Title"@,
        Field::Due => "Due"@,
        Field::Importance => "Importance"@,
        Field::Reminder => "Reminder"@,
        Field::Assignee => "Assignee"@,
        Field::Notes => "Notes"@,
    }
}

/// What to type in each field.
pub open spec fn field_format_hint(field: Field) -> Seq<char> {
    match field {
        Field::Title => "the new title"@,
        Field::Due => "today, fri, next mon, +3d, 12 oct or 2026-10-02; empty clears"@,
        Field::Importance => "1 high, 2 or 3 normal, 4 low"@,
        Field::Reminder => "17:30, tomorrow 9am or fri 5:30pm; empty clears"@,
        Field::Assignee => "who it waits on, a name or an email; empty clears"@,
        Field::Notes => "plain text, or empty to clear"@,
    }
}

/// The fields in the order the detail pane shows them.
pub open spec fn all_fields() -> Seq<Field> {
    seq![Field::Title, Field::Due, Field::Reminder, Field::Importance, Field::Assignee, Field::Notes]
}

impl Field {
    /// The first field, where the detail cursor starts.
    pub fn first() -> (f: Field)
        ensures
            f == Field::Title,
    {
        Field::Title
    }

    /// Every field, in the order the detail pane shows them.
    pub fn all() -> (v: Vec<Field>)
        ensures
            v@ == all_fields(),
    {
        let v = vec![Field::Title, Field::Due, Field::Reminder, Field::Importance, Field::Assignee, Field::Notes];
        assert(v@ =~= all_fields());
        v
    }

    pub fn name(self) -> (s: &'static str)
        ensures
            s@ == field_name(self),
    {
        match self {
            Field::Title => "Title",
            Field::Due => "Due",
            Field::Importance => "Importance",
            Field::Reminder => "Reminder",
            Field::Assignee => "Assignee",
            Field::Notes => "Notes",
        }
    }

    /// What to type, shown under the field while it's edited and nothing
    /// better can be said.
    pub fn format_hint(self) -> (s: &'static str)
        ensures
            s@ == field_format_hint(self),
    {
        match self {
            Field::Title => "the new title",
            Field::Due => "today, fri, next mon, +3d, 12 oct or 2026-10-02; empty clears",
            Field::Importance => "1 high, 2 or 3 normal, 4 low",
            Field::Reminder => "17:30, tomorrow 9am or fri 5:30pm; empty clears",
            Field::Assignee => "who it waits on, a name or an email; empty clears",
            Field::Notes => "plain text, or empty to clear",
        }
    }
}

} // verus!
