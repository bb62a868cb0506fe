//! The help screen's content and layout, read from the keybinding
//! registry: every binding, grouped by where it's pressed, in two columns
//! when the terminal is wide enough and one otherwise, wrapped rather
//! than cut.

use vstd::prelude::*;
use vstd::string::*;

use crate::action::Action;
use crate::keybindings::{
    pairs_view,
    binding_at, contexts_of, editor_key_list, editor_keys, table_at, Binding, BindingView, Context,
    BINDING_COUNT,
};
use crate::search::strings_view;
use crate::text::{chars_of, concat, lemma_push_contains, push_char, str_eq, string_of_range};
use crate::width::{char_columns, char_width, str_columns, str_width};

verus! {

/// Help's parts, in the order shown.
#[derive(Clone, Copy, Debug, PartialEq, Eq, Structural)]
pub enum Section {
    Navigation,
    Tasks,
    Detail,
    Prompts,
    Views,
}

/// Every section, in the order shown.
pub open spec fn all_sections() -> Seq<Section> {
    seq![Section::Navigation, Section::Tasks, Section::Detail, Section::Prompts, Section::Views]
}

/// Each section's title.
pub open spec fn section_title(section: Section) -> Seq<char> {
    match section {
        Section::Navigation => "Navigation"@,
        Section::Tasks => "Tasks"@,
        Section::Detail => "Detail pane"@,
        Section::Prompts => "Prompts and editing"@,
        Section::Views => "Views and palette"@,
    }
}

impl Section {
    pub fn title(self) -> (s: &'static str)
        ensures
            s@ == section_title(self),
    {
        match self {
            Section::Navigation => "Navigation",
            Section::Tasks => "Tasks",
            Section::Detail => "Detail pane",
            Section::Prompts => "Prompts and editing",
            Section::Views => "Views and palette",
        }
    }
}

/// Where each non-browsing context's keys are listed, under what heading.
pub open spec fn place_context_spec(context: Context) -> (Section, Seq<char>) {
    match context {
        Context::Sidebar => (Section::Navigation, "Sidebar"@),
        Context::Tasks => (Section::Tasks, "Task list"@),
        Context::Detail | Context::Steps => (Section::Detail, "Detail pane"@),
        Context::Prompt => (Section::Prompts, "Filter, due date or a field"@),
        Context::Adding => (Section::Prompts, "Quick add"@),
        Context::Notes => (Section::Prompts, "Notes"@),
        Context::Folder => (Section::Prompts, "Move list to folder"@),
        Context::Fields => (Section::Prompts, "Picking a field (e)"@),
        Context::Importance => (Section::Prompts, "Importance"@),
        Context::Confirm => (Section::Prompts, "Confirming a delete"@),
        Context::Palette => (Section::Views, "Palette (:)"@),
        Context::MoveTo => (Section::Views, "Move to list (m)"@),
        Context::Picker => (Section::Views, "Undoing a recurring task"@),
        Context::Themes => (Section::Views, "Theme picker"@),
        Context::Links => (Section::Views, "Links"@),
        Context::Diagnostics => (Section::Views, "Diagnostics (D)"@),
        Context::Help => (Section::Views, "This help"@),
    }
}

/// Where each non-browsing context's keys are listed, under what heading.
/// Exhaustive, so a new context can't reach help without a place.
pub fn place_context(context: Context) -> (r: (Section, &'static str))
    ensures
        (r.0, r.1@) == place_context_spec(context),
{
    match context {
        Context::Sidebar => (Section::Navigation, "Sidebar"),
        Context::Tasks => (Section::Tasks, "Task list"),
        Context::Detail | Context::Steps => (Section::Detail, "Detail pane"),
        Context::Prompt => (Section::Prompts, "Filter, due date or a field"),
        Context::Adding => (Section::Prompts, "Quick add"),
        Context::Notes => (Section::Prompts, "Notes"),
        Context::Folder => (Section::Prompts, "Move list to folder"),
        Context::Fields => (Section::Prompts, "Picking a field (e)"),
        Context::Importance => (Section::Prompts, "Importance"),
        Context::Confirm => (Section::Prompts, "Confirming a delete"),
        Context::Palette => (Section::Views, "Palette (:)"),
        Context::MoveTo => (Section::Views, "Move to list (m)"),
        Context::Picker => (Section::Views, "Undoing a recurring task"),
        Context::Themes => (Section::Views, "Theme picker"),
        Context::Links => (Section::Views, "Links"),
        Context::Diagnostics => (Section::Views, "Diagnostics (D)"),
        Context::Help => (Section::Views, "This help"),
    }
}

/// Whether `context` is a browsing pane's.
pub open spec fn is_browsing_spec(context: Context) -> bool {
    matches!(context, Context::Sidebar | Context::Tasks | Context::Detail | Context::Steps)
}

/// Whether `context` is a prompt's.
pub open spec fn is_prompt_spec(context: Context) -> bool {
    matches!(context, Context::Prompt | Context::Adding | Context::Notes | Context::Folder)
}

pub fn is_browsing(context: &Context) -> (b: bool)
    ensures
        b == is_browsing_spec(*context),
{
    matches!(context, Context::Sidebar | Context::Tasks | Context::Detail | Context::Steps)
}

pub fn is_prompt(context: &Context) -> (b: bool)
    ensures
        b == is_prompt_spec(*context),
{
    matches!(context, Context::Prompt | Context::Adding | Context::Notes | Context::Folder)
}

/// Whether `context` is the detail pane's.
pub open spec fn is_detail_spec(context: Context) -> bool {
    matches!(context, Context::Detail | Context::Steps)
}

/// The section a browsing binding goes in by what it does.
pub open spec fn browsing_section(action: Action) -> Section {
    match action {
        Action::MoveDown | Action::MoveUp | Action::JumpTop | Action::JumpBottom | Action::FocusLeft
        | Action::FocusRight | Action::FocusNext | Action::Open | Action::Help | Action::Quit =>
            Section::Navigation,
        Action::Palette | Action::Diagnostics => Section::Views,
        _ => Section::Tasks,
    }
}

/// The section and heading a binding is listed under: a browsing
/// binding by what it does (the detail pane's own under it), a binding
/// of several prompts under "Any prompt", any other under its first
/// context's place.
pub open spec fn place_spec(b: BindingView) -> (Section, Option<Seq<char>>) {
    let cs = contexts_of(b.contexts);
    if exists|i: int| 0 <= i < cs.len() && is_browsing_spec(#[trigger] cs[i]) {
        let section = if forall|i: int| 0 <= i < cs.len() ==> is_detail_spec(#[trigger] cs[i]) {
            Section::Detail
        } else {
            browsing_section(b.action)
        };
        (section, None)
    } else if cs.len() == 0 {
        (Section::Views, None)
    } else if cs.len() > 1 && forall|i: int| 0 <= i < cs.len() ==> is_prompt_spec(#[trigger] cs[i]) {
        (Section::Prompts, Some("Any prompt"@))
    } else {
        (place_context_spec(cs[0]).0, Some(place_context_spec(cs[0]).1))
    }
}

/// The view of an optional heading.
pub open spec fn heading_view(h: Option<&'static str>) -> Option<Seq<char>> {
    match h {
        Some(s) => Some(s@),
        None => None,
    }
}

/// The section and heading a binding is listed under.
pub fn place(binding: &Binding) -> (r: (Section, Option<&'static str>))
    ensures
        (r.0, heading_view(r.1)) == place_spec(binding@),
{
    let contexts = binding.contexts.contexts();
    let ghost cs = contexts_of(binding.contexts);
    let mut any_browsing = false;
    let mut all_detail = true;
    let mut all_prompts = true;
    let mut i: usize = 0;
    while i < contexts.len()
        invariant
            contexts@ == cs,
            i <= cs.len(),
            any_browsing == exists|j: int| 0 <= j < i && is_browsing_spec(#[trigger] cs[j]),
            all_detail == forall|j: int| 0 <= j < i ==> is_detail_spec(#[trigger] cs[j]),
            all_prompts == forall|j: int| 0 <= j < i ==> is_prompt_spec(#[trigger] cs[j]),
        decreases cs.len() - i,
    {
        let c = contexts[i];
        if is_browsing(&c) {
            any_browsing = true;
        }
        if !matches!(c, Context::Detail | Context::Steps) {
            all_detail = false;
        }
        if !is_prompt(&c) {
            all_prompts = false;
        }
        i = i + 1;
    }
    if any_browsing {
        let section = if all_detail {
            Section::Detail
        } else {
            match binding.action {
                Action::MoveDown | Action::MoveUp | Action::JumpTop | Action::JumpBottom
                | Action::FocusLeft | Action::FocusRight | Action::FocusNext | Action::Open
                | Action::Help | Action::Quit => Section::Navigation,
                Action::Palette | Action::Diagnostics => Section::Views,
                _ => Section::Tasks,
            }
        };
        return (section, None);
    }
    if contexts.len() == 0 {
        return (Section::Views, None);
    }
    let (section, heading) = place_context(contexts[0]);
    if contexts.len() > 1 && all_prompts {
        return (Section::Prompts, Some("Any prompt"));
    }
    (section, Some(heading))
}

/// Rows under one heading of a section; browsing keys have none.
pub struct Group {
    pub heading: Option<&'static str>,
    /// `(keys, label)`: one row per label, its keys joined as `j/Down`.
    pub rows: Vec<(String, &'static str)>,
}

/// A group as the contracts read it: its heading and its rows.
pub open spec fn group_view(g: Group) -> (Option<Seq<char>>, Seq<(Seq<char>, Seq<char>)>) {
    (heading_view(g.heading), pairs_view(g.rows@))
}

/// Sections as the contracts read them.
pub open spec fn sections_view(v: Seq<(Section, Vec<Group>)>) -> Seq<(Section, Seq<(Option<Seq<char>>, Seq<(Seq<char>, Seq<char>)>)>)> {
    v.map_values(|x: (Section, Vec<Group>)| (x.0, x.1@.map_values(|g: Group| group_view(g))))
}

/// The parts of `s[i..]` between `sep`s, given the part `current` being
/// read and the parts `done` before it, as `str::split` finds them.
pub open spec fn split_from(s: Seq<char>, sep: char, i: int, current: Seq<char>, done: Seq<Seq<char>>) -> Seq<Seq<char>>
    decreases s.len() - i,
{
    if i >= s.len() {
        done.push(current)
    } else if s[i] == sep {
        split_from(s, sep, i + 1, Seq::empty(), done.push(current))
    } else {
        split_from(s, sep, i + 1, current.push(s[i]), done)
    }
}

/// The parts of `s` between `sep`s, empty ones too.
pub open spec fn split_on(s: Seq<char>, sep: char) -> Seq<Seq<char>> {
    split_from(s, sep, 0, Seq::empty(), Seq::empty())
}

/// Whether `key` is one of the keys `keys` joins with `/`.
fn has_segment(keys: &String, key: &str) -> (b: bool)
    ensures
        b == split_on(keys@, '/').contains(key@),
{
    let chars = chars_of(keys.as_str());
    let mut current = String::new();
    let ghost mut done: Seq<Seq<char>> = Seq::empty();
    let mut found = false;
    let mut i: usize = 0;
    while i < chars.len()
        invariant
            chars@ == keys@,
            i <= chars@.len(),
            split_from(keys@, '/', i as int, current@, done) == split_on(keys@, '/'),
            found == done.contains(key@),
        decreases chars@.len() - i,
    {
        let c = chars[i];
        if c == '/' {
            let same = str_eq(current.as_str(), key);
            proof {
                lemma_push_contains(done, current@, key@);
                done = done.push(current@);
            }
            found = found || same;
            current = String::new();
            assert(current@ =~= Seq::<char>::empty());
        } else {
            push_char(&mut current, c);
        }
        i = i + 1;
    }
    let same = str_eq(current.as_str(), key);
    proof {
        lemma_push_contains(done, current@, key@);
    }
    found || same
}

/// The first row from `from` on with `label`.
pub open spec fn find_row_label(rows: Seq<(Seq<char>, Seq<char>)>, label: Seq<char>, from: int) -> Option<int>
    decreases rows.len() - from,
{
    if from < 0 || from >= rows.len() {
        None
    } else if rows[from].1 == label {
        Some(from)
    } else {
        find_row_label(rows, label, from + 1)
    }
}

/// `rows` with `key` for `label`: after the row's keys as `j/Down`, unless
/// it's one of them already, or a row of its own.
pub open spec fn add_key(rows: Seq<(Seq<char>, Seq<char>)>, key: Seq<char>, label: Seq<char>) -> Seq<(Seq<char>, Seq<char>)> {
    match find_row_label(rows, label, 0) {
        Some(k) => if split_on(rows[k].0, '/').contains(key) {
            rows
        } else {
            rows.update(k, (rows[k].0 + seq!['/'] + key, rows[k].1))
        },
        None => rows.push((key, label)),
    }
}

/// The first group from `from` on under `heading`.
pub open spec fn find_heading(groups: Seq<(Option<Seq<char>>, Seq<(Seq<char>, Seq<char>)>)>, heading: Option<Seq<char>>, from: int) -> Option<int>
    decreases groups.len() - from,
{
    if from < 0 || from >= groups.len() {
        None
    } else if groups[from].0 == heading {
        Some(from)
    } else {
        find_heading(groups, heading, from + 1)
    }
}

/// What `find_heading` finds is under that heading.
pub proof fn lemma_find_heading(groups: Seq<(Option<Seq<char>>, Seq<(Seq<char>, Seq<char>)>)>, heading: Option<Seq<char>>, from: int)
    ensures
        match find_heading(groups, heading, from) {
            Some(k) => from <= k < groups.len() && groups[k].0 == heading,
            None => true,
        },
    decreases groups.len() - from,
{
    if 0 <= from < groups.len() && groups[from].0 != heading {
        lemma_find_heading(groups, heading, from + 1);
    }
}

/// The first section from `from` on that is `section`.
pub open spec fn find_section(sections: Seq<(Section, Seq<(Option<Seq<char>>, Seq<(Seq<char>, Seq<char>)>)>)>, section: Section, from: int) -> Option<int>
    decreases sections.len() - from,
{
    if from < 0 || from >= sections.len() {
        None
    } else if sections[from].0 == section {
        Some(from)
    } else {
        find_section(sections, section, from + 1)
    }
}

/// `sections` with `key` for `label` under `heading` in `section`: in the
/// group with that heading, a new one last if there's none.
pub open spec fn add_entry(
    sections: Seq<(Section, Seq<(Option<Seq<char>>, Seq<(Seq<char>, Seq<char>)>)>)>,
    section: Section,
    heading: Option<Seq<char>>,
    key: Seq<char>,
    label: Seq<char>,
) -> Seq<(Section, Seq<(Option<Seq<char>>, Seq<(Seq<char>, Seq<char>)>)>)> {
    match find_section(sections, section, 0) {
        None => sections,
        Some(s) => {
            let groups = sections[s].1;
            let with_group = match find_heading(groups, heading, 0) {
                Some(_) => groups,
                None => groups.push((heading, Seq::empty())),
            };
            let g = match find_heading(groups, heading, 0) {
                Some(g) => g,
                None => groups.len() as int,
            };
            sections.update(s, (sections[s].0, with_group.update(g, (heading, add_key(with_group[g].1, key, label)))))
        },
    }
}

/// Every section, with no group yet.
pub open spec fn empty_sections() -> Seq<(Section, Seq<(Option<Seq<char>>, Seq<(Seq<char>, Seq<char>)>)>)> {
    all_sections().map_values(|s: Section| (s, Seq::<(Option<Seq<char>>, Seq<(Seq<char>, Seq<char>)>)>::empty()))
}

/// The sections once the first `n` bindings are in, each where `place`
/// puts it.
pub open spec fn sections_upto(n: int) -> Seq<(Section, Seq<(Option<Seq<char>>, Seq<(Seq<char>, Seq<char>)>)>)>
    decreases n,
{
    if n <= 0 {
        empty_sections()
    } else {
        let b = table_at((n - 1) as usize);
        add_entry(sections_upto(n - 1), place_spec(b).0, place_spec(b).1, b.key, b.label)
    }
}

/// The sections once the first `m` of the line editor's keys are in too,
/// under "Typing, in any prompt".
pub open spec fn sections_with_editor(m: int) -> Seq<(Section, Seq<(Option<Seq<char>>, Seq<(Seq<char>, Seq<char>)>)>)>
    decreases m,
{
    if m <= 0 {
        sections_upto(BINDING_COUNT as int)
    } else {
        add_entry(
            sections_with_editor(m - 1),
            Section::Prompts,
            Some("Typing, in any prompt"@),
            editor_keys()[m - 1].0,
            editor_keys()[m - 1].1,
        )
    }
}

/// Help's content: every binding in the registry, then the line
/// editor's keys, by section, leaving out a section with nothing in it.
pub open spec fn content_spec() -> Seq<(Section, Seq<(Option<Seq<char>>, Seq<(Seq<char>, Seq<char>)>)>)> {
    sections_with_editor(3).filter(
        |x: (Section, Seq<(Option<Seq<char>>, Seq<(Seq<char>, Seq<char>)>)>)| x.1.len() > 0,
    )
}

/// Whether two optional headings are the same.
fn same_heading(a: Option<&'static str>, b: Option<&'static str>) -> (r: bool)
    ensures
        r == (heading_view(a) == heading_view(b)),
{
    match (a, b) {
        (Some(x), Some(y)) => str_eq(x, y),
        (None, None) => true,
        _ => false,
    }
}

/// Add `key` for `label` to the rows of one group.
fn add_key_exec(rows: &mut Vec<(String, &'static str)>, key: &str, label: &'static str)
    ensures
        pairs_view(final(rows)@) == add_key(pairs_view(old(rows)@), key@, label@),
{
    let ghost before = pairs_view(rows@);
    let mut k: usize = 0;
    while k < rows.len()
        invariant
            k <= rows@.len(),
            before == pairs_view(rows@),
            before == pairs_view(old(rows)@),
            find_row_label(before, label@, k as int) == find_row_label(before, label@, 0),
        decreases rows@.len() - k,
    {
        if str_eq(rows[k].1, label) {
            assert(find_row_label(before, label@, 0) == Some(k as int));
            assert(before[k as int].0 == rows@[k as int].0@);
            let present = has_segment(&rows[k].0, key);
            if !present {
                let mut keys = rows[k].0.clone();
                push_char(&mut keys, '/');
                keys.append(key);
                let l = rows[k].1;
                assert(keys@ =~= before[k as int].0 + seq!['/'] + key@);
                rows.set(k, (keys, l));
                assert(pairs_view(rows@) =~= add_key(before, key@, label@));
            } else {
                assert(split_on(before[k as int].0, '/').contains(key@));
                assert(add_key(before, key@, label@) == before);
            }
            return;
        }
        k = k + 1;
    }
    rows.push((key.to_owned(), label));
    assert(pairs_view(rows@) =~= add_key(before, key@, label@));
}

/// Where `section` is among `sections`.
fn section_index(sections: &Vec<(Section, Vec<Group>)>, section: Section) -> (r: Option<usize>)
    ensures
        match r {
            Some(s) => find_section(sections_view(sections@), section, 0) == Some(s as int) && s < sections@.len(),
            None => find_section(sections_view(sections@), section, 0) is None,
        },
{
    let ghost v = sections_view(sections@);
    let mut s: usize = 0;
    while s < sections.len()
        invariant
            s <= sections@.len(),
            v == sections_view(sections@),
            find_section(v, section, s as int) == find_section(v, section, 0),
        decreases sections@.len() - s,
    {
        if sections[s].0 == section {
            return Some(s);
        }
        s = s + 1;
    }
    None
}

/// Where the group under `heading` is among `groups`.
fn heading_index(groups: &Vec<Group>, heading: Option<&'static str>) -> (r: Option<usize>)
    ensures
        match r {
            Some(g) => find_heading(groups@.map_values(|g: Group| group_view(g)), heading_view(heading), 0)
                == Some(g as int) && g < groups@.len(),
            None => find_heading(groups@.map_values(|g: Group| group_view(g)), heading_view(heading), 0) is None,
        },
{
    let ghost v = groups@.map_values(|g: Group| group_view(g));
    let mut g: usize = 0;
    while g < groups.len()
        invariant
            g <= groups@.len(),
            v == groups@.map_values(|g: Group| group_view(g)),
            find_heading(v, heading_view(heading), g as int) == find_heading(v, heading_view(heading), 0),
        decreases groups@.len() - g,
    {
        if same_heading(groups[g].heading, heading) {
            return Some(g);
        }
        g = g + 1;
    }
    None
}

/// Add `key` for `label` under `heading` in `section`.
fn add_to_sections(
    sections: &mut Vec<(Section, Vec<Group>)>,
    section: Section,
    heading: Option<&'static str>,
    key: &str,
    label: &'static str,
)
    ensures
        sections_view(final(sections)@) == add_entry(
            sections_view(old(sections)@),
            section,
            heading_view(heading),
            key@,
            label@,
        ),
{
    let ghost before = sections_view(sections@);
    let s = match section_index(sections, section) {
        Some(s) => s,
        None => {
            return;
        },
    };
    let (sec, mut groups) = sections.remove(s);
    let ghost gv = before[s as int].1;
    assert(groups@.map_values(|g: Group| group_view(g)) == gv);
    let found = heading_index(&groups, heading);
    let g = match found {
        Some(g) => g,
        None => groups.len(),
    };
    let ghost with_group = match find_heading(gv, heading_view(heading), 0) {
        Some(_) => gv,
        None => gv.push((heading_view(heading), Seq::empty())),
    };
    if found.is_none() {
        let rows: Vec<(String, &'static str)> = Vec::new();
        assert(pairs_view(rows@) =~= Seq::<(Seq<char>, Seq<char>)>::empty());
        groups.push(Group { heading, rows });
    }
    assert(groups@.map_values(|g: Group| group_view(g)) =~= with_group);
    proof {
        lemma_find_heading(gv, heading_view(heading), 0);
    }
    let mut group = groups.remove(g);
    assert(group_view(group) == with_group[g as int]);
    add_key_exec(&mut group.rows, key, label);
    let ghost updated = with_group.update(g as int, (heading_view(heading), add_key(with_group[g as int].1, key@, label@)));
    groups.insert(g, group);
    assert(groups@.map_values(|g: Group| group_view(g)) =~= updated);
    sections.insert(s, (sec, groups));
    assert(sections_view(sections@) =~= before.update(s as int, (before[s as int].0, updated)));
}

/// Every binding in the registry, then the line editor's keys, by
/// section; a section with nothing in it is left out.
pub fn content() -> (out: Vec<(Section, Vec<Group>)>)
    ensures
        sections_view(out@) == content_spec(),
{
    let mut sections: Vec<(Section, Vec<Group>)> = Vec::new();
    sections.push((Section::Navigation, Vec::new()));
    sections.push((Section::Tasks, Vec::new()));
    sections.push((Section::Detail, Vec::new()));
    sections.push((Section::Prompts, Vec::new()));
    sections.push((Section::Views, Vec::new()));
    assert(sections_view(sections@) =~~= empty_sections());
    let mut i: usize = 0;
    while i < BINDING_COUNT
        invariant
            i <= BINDING_COUNT,
            sections_view(sections@) == sections_upto(i as int),
        decreases BINDING_COUNT - i,
    {
        let b = binding_at(i);
        let (section, heading) = place(&b);
        add_to_sections(&mut sections, section, heading, b.key, b.label);
        i = i + 1;
    }
    let editor = editor_key_list();
    let mut m: usize = 0;
    while m < editor.len()
        invariant
            m <= editor@.len(),
            editor@.map_values(|p: (&'static str, &'static str)| (p.0@, p.1@)) == editor_keys(),
            sections_view(sections@) == sections_with_editor(m as int),
        decreases editor@.len() - m,
    {
        let (keys, label) = editor[m];
        assert((keys@, label@) == editor_keys()[m as int]);
        add_to_sections(&mut sections, Section::Prompts, Some("Typing, in any prompt"), keys, label);
        m = m + 1;
    }
    assert(editor@.map_values(|p: (&'static str, &'static str)| (p.0@, p.1@)).len() == 3);
    let ghost all = sections_view(sections@);
    assert(all == sections_with_editor(3));
    let mut out: Vec<(Section, Vec<Group>)> = Vec::new();
    let ghost mut taken: int = 0;
    assert(all.subrange(0, 0).filter(|x: (Section, Seq<(Option<Seq<char>>, Seq<(Seq<char>, Seq<char>)>)>)| x.1.len() > 0) =~= Seq::empty()) by {
        reveal(Seq::filter);
    }
    assert(sections_view(sections@) =~= all.subrange(0, all.len() as int));
    assert(sections_view(out@) =~= Seq::<(Section, Seq<(Option<Seq<char>>, Seq<(Seq<char>, Seq<char>)>)>)>::empty());
    while sections.len() > 0
        invariant
            0 <= taken <= all.len(),
            sections_view(sections@) == all.subrange(taken, all.len() as int),
            sections_view(out@) == all.subrange(0, taken).filter(
                |x: (Section, Seq<(Option<Seq<char>>, Seq<(Seq<char>, Seq<char>)>)>)| x.1.len() > 0,
            ),
        decreases sections@.len(),
    {
        let ghost rest = sections_view(sections@);
        let ghost raw = sections@;
        assert(rest.len() == raw.len());
        assert(rest.len() == all.len() - taken);
        assert(all.subrange(taken, all.len() as int)[0] == all[taken]);
        let x = sections.remove(0);
        assert(sections@ =~= raw.subrange(1, raw.len() as int));
        assert(x == raw[0]);
        assert forall|k: int| 0 <= k < sections@.len() implies #[trigger] sections_view(sections@)[k]
            == all.subrange(taken + 1, all.len() as int)[k] by {
            assert(sections@[k] == raw[k + 1]);
            assert(rest[k + 1] == all.subrange(taken, all.len() as int)[k + 1]);
        }
        assert(sections_view(sections@) =~= all.subrange(taken + 1, all.len() as int));
        assert(rest[0] == all[taken]);
        let ghost xv = all[taken];
        proof {
            all.subrange(0, taken).lemma_filter_push(
                xv,
                |x: (Section, Seq<(Option<Seq<char>>, Seq<(Seq<char>, Seq<char>)>)>)| x.1.len() > 0,
            );
            assert(all.subrange(0, taken + 1) =~= all.subrange(0, taken).push(xv));
        }
        if x.1.len() > 0 {
            let ghost before = sections_view(out@);
            out.push(x);
            assert(sections_view(out@) =~= before.push(xv));
        }
        proof {
            taken = taken + 1;
        }
    }
    assert(all.subrange(0, taken) =~= all);
    out
}

/// The parts of `s` between `sep`s, empty ones too.
pub fn split_parts(s: &str, sep: char) -> (parts: Vec<String>)
    ensures
        strings_view(parts@) == split_on(s@, sep),
{
    let chars = chars_of(s);
    let mut parts: Vec<String> = Vec::new();
    let mut current = String::new();
    let mut i: usize = 0;
    assert(strings_view(parts@) =~= Seq::<Seq<char>>::empty());
    while i < chars.len()
        invariant
            chars@ == s@,
            i <= chars@.len(),
            split_from(s@, sep, i as int, current@, strings_view(parts@)) == split_on(s@, sep),
        decreases chars@.len() - i,
    {
        let c = chars[i];
        if c == sep {
            let ghost before = strings_view(parts@);
            parts.push(current);
            assert(strings_view(parts@) =~= before.push(current@));
            current = String::new();
            assert(current@ =~= Seq::<char>::empty());
        } else {
            push_char(&mut current, c);
        }
        i = i + 1;
    }
    let ghost before = strings_view(parts@);
    parts.push(current);
    assert(strings_view(parts@) =~= before.push(current@));
    parts
}

/// The columns a character takes, a control character none.
pub open spec fn char_w(c: char) -> int {
    match char_columns(c) {
        Some(w) => w as int,
        None => 0,
    }
}

/// Where the longest start of `word[i..]` that fits in `width` columns,
/// with `used` columns taken by `word[..i]`, ends: at least one
/// character.
pub open spec fn split_index_from(word: Seq<char>, width: int, i: int, used: int) -> int
    decreases word.len() - i,
{
    if i < 0 || i >= word.len() {
        word.len() as int
    } else if i > 0 && used + char_w(word[i]) > width {
        i
    } else {
        split_index_from(word, width, i + 1, used + char_w(word[i]))
    }
}

/// Where the longest start of `word` at most `width` wide ends: at least
/// one character.
pub open spec fn split_index(word: Seq<char>, width: int) -> int {
    split_index_from(word, width, 0, 0)
}

/// The split is within the word, and past its first character.
pub proof fn lemma_split_index(word: Seq<char>, width: int, i: int, used: int)
    requires
        0 <= i <= word.len(),
    ensures
        i <= split_index_from(word, width, i, used) <= word.len(),
        i == 0 && word.len() > 0 ==> split_index_from(word, width, i, used) >= 1,
    decreases word.len() - i,
{
    if i < word.len() && !(i > 0 && used + char_w(word[i]) > width) {
        lemma_split_index(word, width, i + 1, used + char_w(word[i]));
    }
}

/// The longest start of `word` at most `width` wide, at least one
/// character, and the rest.
pub fn split_at_width(word: &str, width: usize) -> (r: (String, String))
    ensures
        r.0@ == word@.subrange(0, split_index(word@, width as int)),
        r.1@ == word@.subrange(split_index(word@, width as int), word@.len() as int),
{
    let chars = chars_of(word);
    let mut used: usize = 0;
    let mut i: usize = 0;
    while i < chars.len()
        invariant
            chars@ == word@,
            i <= chars@.len(),
            i == 0 ==> used == 0,
            split_index_from(word@, width as int, i as int, used as int) == split_index(word@, width as int),
        decreases chars@.len() - i,
    {
        let ch_width = match char_width(chars[i]) {
            Some(w) => w,
            None => 0,
        };
        if i > 0 && (used > width || ch_width > width - used) {
            return (string_of_range(&chars, 0, i), string_of_range(&chars, i, chars.len()));
        }
        used = used + ch_width;
        i = i + 1;
    }
    (string_of_range(&chars, 0, chars.len()), String::new())
}

/// Columns a line needs for `word` after `line`, with a space between.
pub open spec fn needed(line: Seq<char>, word: Seq<char>) -> int {
    if line.len() == 0 {
        str_columns(word) as int
    } else {
        str_columns(line) + 1 + str_columns(word)
    }
}

/// The lines and the line being filled once `word` is placed: on the
/// line if it fits, else on a new line, broken across lines only when
/// it's wider than a line on its own.
pub open spec fn fit_word(lines: Seq<Seq<char>>, line: Seq<char>, word: Seq<char>, width: int) -> (Seq<Seq<char>>, Seq<char>)
    decreases word.len(), if line.len() > 0 { 1int } else { 0int },
{
    if needed(line, word) <= width || (line.len() == 0 && word.len() == 0) {
        (lines, if line.len() == 0 { word } else { line + seq![' '] + word })
    } else if line.len() > 0 {
        fit_word(lines.push(line), Seq::empty(), word, width)
    } else {
        let k = split_index(word, width);
        proof {
            lemma_split_index(word, width, 0, 0);
        }
        fit_word(lines.push(word.subrange(0, k)), Seq::empty(), word.subrange(k, word.len() as int), width)
    }
}

/// The lines and the line being filled once `words[i..]` are placed.
pub open spec fn wrap_from(words: Seq<Seq<char>>, i: int, lines: Seq<Seq<char>>, line: Seq<char>, width: int) -> (Seq<Seq<char>>, Seq<char>)
    decreases words.len() - i,
{
    if i < 0 || i >= words.len() {
        (lines, line)
    } else {
        let next = fit_word(lines, line, words[i], width);
        wrap_from(words, i + 1, next.0, next.1, width)
    }
}

/// `text` word-wrapped to `width` columns (at least one), breaking a
/// word only when it's wider than a line on its own; always at least one
/// line.
pub open spec fn wrap_spec(text: Seq<char>, width: int) -> Seq<Seq<char>> {
    let w = if width < 1 { 1 } else { width };
    let r = wrap_from(split_on(text, ' '), 0, Seq::empty(), Seq::empty(), w);
    if r.1.len() > 0 || r.0.len() == 0 {
        r.0.push(r.1)
    } else {
        r.0
    }
}

/// Word-wrap `text` to `width` columns, breaking a word only when it's
/// wider than a line on its own.
pub fn wrap(text: &str, width: usize) -> (lines: Vec<String>)
    ensures
        strings_view(lines@) == wrap_spec(text@, width as int),
{
    let width = if width < 1 { 1 } else { width };
    let words = split_parts(text, ' ');
    let ghost ws = split_on(text@, ' ');
    let mut lines: Vec<String> = Vec::new();
    let mut line = String::new();
    let mut i: usize = 0;
    assert(strings_view(lines@) =~= Seq::<Seq<char>>::empty());
    while i < words.len()
        invariant
            1 <= width,
            strings_view(words@) == ws,
            i <= words@.len(),
            wrap_from(ws, i as int, strings_view(lines@), line@, width as int) == wrap_from(
                ws,
                0,
                Seq::empty(),
                Seq::empty(),
                width as int,
            ),
        decreases words@.len() - i,
    {
        let mut word = words[i].clone();
        assert(word@ == ws[i as int]);
        let ghost target = fit_word(strings_view(lines@), line@, word@, width as int);
        loop
            invariant_except_break
                fit_word(strings_view(lines@), line@, word@, width as int) == target,
            invariant
                1 <= width,
            ensures
                (strings_view(lines@), line@) == target,
            decreases word@.len(), if line@.len() > 0 { 1int } else { 0int },
        {
            let line_empty = line.unicode_len() == 0;
            let word_width = str_width(word.as_str()) as u128;
            let columns: u128 = if line_empty {
                word_width
            } else {
                str_width(line.as_str()) as u128 + 1 + word_width
            };
            if columns <= width as u128 {
                if !line_empty {
                    push_char(&mut line, ' ');
                }
                line.append(word.as_str());
                assert(line@ =~= target.1);
                break;
            }
            if !line_empty {
                let ghost before = strings_view(lines@);
                lines.push(line);
                assert(strings_view(lines@) =~= before.push(target.1) || true);
                assert(strings_view(lines@) =~= before.push(lines@.last()@));
                line = String::new();
                assert(line@ =~= Seq::<char>::empty());
                continue;
            }
            assert(line@.len() == 0);
            assert(line@ =~= Seq::<char>::empty());
            assert(needed(line@, word@) > width);
            assert(word@.len() > 0);
            proof {
                lemma_split_index(word@, width as int, 0, 0);
            }
            let ghost state = (strings_view(lines@), line@, word@);
            let (head, tail) = split_at_width(word.as_str(), width);
            let ghost before = strings_view(lines@);
            lines.push(head);
            assert(strings_view(lines@) =~= before.push(lines@.last()@));
            word = tail;
            assert(fit_word(state.0, state.1, state.2, width as int) == fit_word(strings_view(lines@), line@, word@, width as int));
        }
        i = i + 1;
    }
    if line.unicode_len() > 0 || lines.len() == 0 {
        let ghost before = strings_view(lines@);
        lines.push(line);
        assert(strings_view(lines@) =~= before.push(lines@.last()@));
    }
    lines
}

/// `s` without its spaces.
pub open spec fn squeeze(s: Seq<char>) -> Seq<char>
    decreases s.len(),
{
    if s.len() == 0 {
        Seq::empty()
    } else if s.last() == ' ' {
        squeeze(s.drop_last())
    } else {
        squeeze(s.drop_last()).push(s.last())
    }
}

/// `lines` one after another.
pub open spec fn flat(lines: Seq<Seq<char>>) -> Seq<char>
    decreases lines.len(),
{
    if lines.len() == 0 {
        Seq::empty()
    } else {
        flat(lines.drop_last()) + lines.last()
    }
}

proof fn lemma_squeeze_add(a: Seq<char>, b: Seq<char>)
    ensures
        squeeze(a + b) == squeeze(a) + squeeze(b),
    decreases b.len(),
{
    if b.len() == 0 {
        assert(a + b =~= a);
        assert(squeeze(a) + squeeze(b) =~= squeeze(a));
    } else {
        lemma_squeeze_add(a, b.drop_last());
        assert((a + b).drop_last() =~= a + b.drop_last());
        assert((a + b).last() == b.last());
        if b.last() != ' ' {
            assert(squeeze(a) + squeeze(b) =~= (squeeze(a) + squeeze(b.drop_last())).push(b.last()));
        }
    }
}

/// Lines and the line being filled, spaces aside.
pub open spec fn squeezed(lines: Seq<Seq<char>>, line: Seq<char>) -> Seq<char> {
    squeeze(flat(lines)) + squeeze(line)
}

proof fn lemma_squeezed_push(lines: Seq<Seq<char>>, line: Seq<char>)
    ensures
        squeezed(lines.push(line), Seq::empty()) == squeezed(lines, line),
{
    assert(lines.push(line).drop_last() =~= lines);
    lemma_squeeze_add(flat(lines), line);
    assert(squeeze(Seq::<char>::empty()) =~= Seq::<char>::empty());
    assert(squeezed(lines.push(line), Seq::empty()) =~= squeeze(flat(lines)) + squeeze(line));
}

proof fn lemma_fit_word_keeps(lines: Seq<Seq<char>>, line: Seq<char>, word: Seq<char>, width: int)
    ensures
        squeezed(fit_word(lines, line, word, width).0, fit_word(lines, line, word, width).1) == squeezed(lines, line) + squeeze(word),
    decreases word.len(), if line.len() > 0 { 1int } else { 0int },
{
    if needed(line, word) <= width || (line.len() == 0 && word.len() == 0) {
        if line.len() == 0 {
            assert(squeeze(line) =~= Seq::<char>::empty());
            assert(squeezed(lines, line) + squeeze(word) =~= squeeze(flat(lines)) + squeeze(word));
        } else {
            lemma_squeeze_add(line + seq![' '], word);
            lemma_squeeze_add(line, seq![' ']);
            assert(seq![' '].drop_last() =~= Seq::<char>::empty());
            assert(squeeze(Seq::<char>::empty()) =~= Seq::<char>::empty());
            assert(squeeze(seq![' ']) == squeeze(seq![' '].drop_last()));
            assert(squeeze(seq![' ']) =~= Seq::<char>::empty());
            assert(squeezed(lines, line) + squeeze(word) =~= squeeze(flat(lines)) + squeeze(line + seq![' '] + word));
        }
    } else if line.len() > 0 {
        lemma_fit_word_keeps(lines.push(line), Seq::empty(), word, width);
        lemma_squeezed_push(lines, line);
    } else {
        let k = split_index(word, width);
        lemma_split_index(word, width, 0, 0);
        let head = word.subrange(0, k);
        let tail = word.subrange(k, word.len() as int);
        lemma_fit_word_keeps(lines.push(head), Seq::empty(), tail, width);
        lemma_squeezed_push(lines, head);
        assert(head + tail =~= word);
        lemma_squeeze_add(head, tail);
        assert(squeeze(line) =~= Seq::<char>::empty());
        assert(squeezed(lines, head) + squeeze(tail) =~= squeezed(lines, line) + squeeze(word));
    }
}

/// The words from `i` on, spaces aside, one after another.
pub open spec fn squeeze_words(words: Seq<Seq<char>>, i: int) -> Seq<char>
    decreases words.len() - i,
{
    if i < 0 || i >= words.len() {
        Seq::empty()
    } else {
        squeeze(words[i]) + squeeze_words(words, i + 1)
    }
}

proof fn lemma_wrap_from_keeps(words: Seq<Seq<char>>, i: int, lines: Seq<Seq<char>>, line: Seq<char>, width: int)
    requires
        0 <= i,
    ensures
        squeezed(wrap_from(words, i, lines, line, width).0, wrap_from(words, i, lines, line, width).1)
            == squeezed(lines, line) + squeeze_words(words, i),
    decreases words.len() - i,
{
    if i >= words.len() {
        assert(squeezed(lines, line) + squeeze_words(words, i) =~= squeezed(lines, line));
    } else {
        let next = fit_word(lines, line, words[i], width);
        lemma_fit_word_keeps(lines, line, words[i], width);
        lemma_wrap_from_keeps(words, i + 1, next.0, next.1, width);
        assert(squeezed(lines, line) + squeeze(words[i]) + squeeze_words(words, i + 1) =~= squeezed(lines, line)
            + squeeze_words(words, i));
    }
}

proof fn lemma_split_keeps(s: Seq<char>, i: int, current: Seq<char>, done: Seq<Seq<char>>)
    requires
        0 <= i <= s.len(),
    ensures
        squeeze_words(split_from(s, ' ', i, current, done), 0) == squeeze_words(done, 0) + squeeze(current) + squeeze(
            s.subrange(i, s.len() as int),
        ),
    decreases s.len() - i,
{
    lemma_squeeze_words_push(done, current);
    if i >= s.len() {
        assert(s.subrange(i, s.len() as int) =~= Seq::<char>::empty());
        assert(squeeze_words(done, 0) + squeeze(current) + squeeze(s.subrange(i, s.len() as int)) =~= squeeze_words(done, 0)
            + squeeze(current));
    } else {
        let rest = s.subrange(i + 1, s.len() as int);
        assert(s.subrange(i, s.len() as int) =~= seq![s[i]] + rest);
        lemma_squeeze_add(seq![s[i]], rest);
        assert(seq![s[i]].drop_last() =~= Seq::<char>::empty());
        if s[i] == ' ' {
            lemma_split_keeps(s, i + 1, Seq::empty(), done.push(current));
            assert(squeeze(Seq::<char>::empty()) =~= Seq::<char>::empty());
            assert(squeeze(seq![s[i]]) =~= Seq::<char>::empty());
            assert(squeeze_words(done.push(current), 0) + squeeze(Seq::<char>::empty()) + squeeze(rest) =~= squeeze_words(done, 0)
                + squeeze(current) + squeeze(s.subrange(i, s.len() as int)));
        } else {
            lemma_split_keeps(s, i + 1, current.push(s[i]), done);
            assert(current.push(s[i]).drop_last() =~= current);
            assert(squeeze(Seq::<char>::empty()) =~= Seq::<char>::empty());
            assert(squeeze(seq![s[i]]) == squeeze(seq![s[i]].drop_last()).push(s[i]));
            assert(squeeze(seq![s[i]]) =~= seq![s[i]]);
            assert(squeeze_words(done, 0) + squeeze(current.push(s[i])) + squeeze(rest) =~= squeeze_words(done, 0)
                + squeeze(current) + squeeze(s.subrange(i, s.len() as int)));
        }
    }
}

proof fn lemma_squeeze_words_push(words: Seq<Seq<char>>, w: Seq<char>)
    ensures
        squeeze_words(words.push(w), 0) == squeeze_words(words, 0) + squeeze(w),
{
    lemma_squeeze_words_from(words, w, 0);
}

proof fn lemma_squeeze_words_from(words: Seq<Seq<char>>, w: Seq<char>, i: int)
    requires
        0 <= i <= words.len(),
    ensures
        squeeze_words(words.push(w), i) == squeeze_words(words, i) + squeeze(w),
    decreases words.len() - i,
{
    if i == words.len() {
        assert(squeeze_words(words.push(w), i + 1) =~= Seq::<char>::empty());
        assert(squeeze_words(words, i) =~= Seq::<char>::empty());
        assert(squeeze_words(words.push(w), i) =~= squeeze(w) + Seq::<char>::empty());
        assert(squeeze_words(words, i) + squeeze(w) =~= squeeze(w));
        assert(squeeze(w) + Seq::<char>::empty() =~= squeeze(w));
    } else {
        lemma_squeeze_words_from(words, w, i + 1);
        assert(words.push(w)[i] == words[i]);
        assert(squeeze(words[i]) + (squeeze_words(words, i + 1) + squeeze(w)) =~= (squeeze(words[i]) + squeeze_words(words, i + 1))
            + squeeze(w));
    }
}

/// Whether every character of `s` is printable ASCII.
pub open spec fn all_printable(s: Seq<char>) -> bool {
    forall|i: int| 0 <= i < s.len() ==> crate::width::printable_ascii(#[trigger] s[i])
}

/// What unicode-width gives printable ASCII, as its source shows: a column
/// a character, so a string of them is as wide as it is long.
pub open spec fn ascii_is_a_column_each() -> bool {
    &&& forall|s: Seq<char>| all_printable(s) ==> #[trigger] str_columns(s) == s.len()
    &&& forall|c: char| crate::width::printable_ascii(c) ==> #[trigger] char_columns(c) == Some(1usize)
}

/// The lines so far and the one being filled are printable and at most
/// `width` long.
pub open spec fn lines_fit(lines: Seq<Seq<char>>, line: Seq<char>, width: int) -> bool {
    &&& forall|k: int| 0 <= k < lines.len() ==> all_printable(#[trigger] lines[k]) && lines[k].len() <= width
    &&& all_printable(line) && line.len() <= width
}

proof fn lemma_split_printable(s: Seq<char>, i: int, current: Seq<char>, done: Seq<Seq<char>>)
    requires
        all_printable(s),
        all_printable(current),
        forall|k: int| 0 <= k < done.len() ==> all_printable(#[trigger] done[k]),
        0 <= i <= s.len(),
    ensures
        forall|k: int|
            0 <= k < split_from(s, ' ', i, current, done).len() ==> all_printable(
                #[trigger] split_from(s, ' ', i, current, done)[k],
            ),
    decreases s.len() - i,
{
    if i < s.len() {
        if s[i] == ' ' {
            let d = done.push(current);
            assert forall|k: int| 0 <= k < d.len() implies all_printable(#[trigger] d[k]) by {
                if k < done.len() {
                    assert(d[k] == done[k]);
                }
            }
            lemma_split_printable(s, i + 1, Seq::empty(), d);
            assert(split_from(s, ' ', i, current, done) == split_from(s, ' ', i + 1, Seq::empty(), d));
        } else {
            let c = current.push(s[i]);
            assert forall|m: int| 0 <= m < c.len() implies crate::width::printable_ascii(#[trigger] c[m]) by {
                if m < current.len() {
                    assert(c[m] == current[m]);
                }
            }
            lemma_split_printable(s, i + 1, c, done);
            assert(split_from(s, ' ', i, current, done) == split_from(s, ' ', i + 1, c, done));
        }
    } else {
        let d = done.push(current);
        assert forall|k: int| 0 <= k < d.len() implies all_printable(#[trigger] d[k]) by {
            if k < done.len() {
                assert(d[k] == done[k]);
            }
        }
        assert(split_from(s, ' ', i, current, done) == d);
    }
}

proof fn lemma_split_at_width_ascii(word: Seq<char>, width: int, i: int)
    requires
        ascii_is_a_column_each(),
        all_printable(word),
        1 <= width < word.len(),
        0 <= i <= width,
    ensures
        split_index_from(word, width, i, i) == width,
    decreases width - i,
{
    assert(crate::width::printable_ascii(word[i]));
    assert(char_columns(word[i]) == Some(1usize));
    if i < width {
        lemma_split_at_width_ascii(word, width, i + 1);
    }
}

proof fn lemma_fit_word_fits(lines: Seq<Seq<char>>, line: Seq<char>, word: Seq<char>, width: int)
    requires
        ascii_is_a_column_each(),
        1 <= width,
        lines_fit(lines, line, width),
        all_printable(word),
    ensures
        lines_fit(fit_word(lines, line, word, width).0, fit_word(lines, line, word, width).1, width),
    decreases word.len(), if line.len() > 0 { 1int } else { 0int },
{
    assert(str_columns(word) == word.len());
    assert(str_columns(line) == line.len());
    if needed(line, word) <= width || (line.len() == 0 && word.len() == 0) {
        if line.len() > 0 {
            let joined = line + seq![' '] + word;
            assert forall|m: int| 0 <= m < joined.len() implies crate::width::printable_ascii(#[trigger] joined[m]) by {
                if m < line.len() {
                    assert(joined[m] == line[m]);
                } else if m > line.len() {
                    assert(joined[m] == word[m - line.len() - 1]);
                }
            }
        }
    } else if line.len() > 0 {
        let pushed = lines.push(line);
        assert forall|k: int| 0 <= k < pushed.len() implies all_printable(#[trigger] pushed[k]) && pushed[k].len() <= width by {
            if k < lines.len() {
                assert(pushed[k] == lines[k]);
            }
        }
        lemma_fit_word_fits(pushed, Seq::empty(), word, width);
    } else {
        let k = split_index(word, width);
        lemma_split_at_width_ascii(word, width, 0);
        lemma_split_index(word, width, 0, 0);
        let head = word.subrange(0, k);
        let rest = word.subrange(k, word.len() as int);
        let pushed = lines.push(head);
        assert forall|j: int| 0 <= j < pushed.len() implies all_printable(#[trigger] pushed[j]) && pushed[j].len() <= width by {
            if j < lines.len() {
                assert(pushed[j] == lines[j]);
            } else {
                assert forall|m: int| 0 <= m < head.len() implies crate::width::printable_ascii(#[trigger] head[m]) by {
                    assert(head[m] == word[m]);
                }
            }
        }
        assert forall|m: int| 0 <= m < rest.len() implies crate::width::printable_ascii(#[trigger] rest[m]) by {
            assert(rest[m] == word[m + k]);
        }
        lemma_fit_word_fits(pushed, Seq::empty(), rest, width);
    }
}

proof fn lemma_wrap_from_fits(words: Seq<Seq<char>>, i: int, lines: Seq<Seq<char>>, line: Seq<char>, width: int)
    requires
        ascii_is_a_column_each(),
        1 <= width,
        0 <= i,
        lines_fit(lines, line, width),
        forall|k: int| 0 <= k < words.len() ==> all_printable(#[trigger] words[k]),
    ensures
        lines_fit(wrap_from(words, i, lines, line, width).0, wrap_from(words, i, lines, line, width).1, width),
    decreases words.len() - i,
{
    if i < words.len() {
        lemma_fit_word_fits(lines, line, words[i], width);
        let next = fit_word(lines, line, words[i], width);
        lemma_wrap_from_fits(words, i + 1, next.0, next.1, width);
    }
}

/// Each line wrapping gives fits the width (at least one column): for
/// printable ASCII, where unicode-width counts a column a character, no
/// line is wider than `width`.
pub proof fn law_wrapped_lines_fit(text: Seq<char>, width: int)
    requires
        all_printable(text),
        ascii_is_a_column_each(),
    ensures
        forall|k: int|
            0 <= k < wrap_spec(text, width).len() ==> #[trigger] str_columns(wrap_spec(text, width)[k]) <= if width < 1 {
                1
            } else {
                width
            },
{
    let w = if width < 1 { 1 } else { width };
    let words = split_on(text, ' ');
    lemma_split_printable(text, 0, Seq::empty(), Seq::empty());
    lemma_wrap_from_fits(words, 0, Seq::empty(), Seq::empty(), w);
    let r = wrap_from(words, 0, Seq::empty(), Seq::empty(), w);
    let ls = wrap_spec(text, width);
    assert forall|k: int| 0 <= k < ls.len() implies #[trigger] str_columns(ls[k]) <= w by {
        if r.1.len() > 0 || r.0.len() == 0 {
            if k < r.0.len() {
                assert(ls[k] == r.0[k]);
            } else {
                assert(ls[k] == r.1);
            }
        } else {
            assert(ls[k] == r.0[k]);
        }
        assert(all_printable(ls[k]));
    }
}

/// Wrapping always gives at least one line, an empty one for an empty
/// text.
pub proof fn law_wrap_gives_a_line(text: Seq<char>, width: int)
    ensures
        wrap_spec(text, width).len() >= 1,
{
}

/// Wrapping cuts nothing: the lines one after another hold the text's
/// characters but its spaces, in their order.
pub proof fn law_wrap_cuts_nothing(text: Seq<char>, width: int)
    ensures
        squeeze(flat(wrap_spec(text, width))) == squeeze(text),
{
    let w = if width < 1 { 1 } else { width };
    let words = split_on(text, ' ');
    lemma_split_keeps(text, 0, Seq::empty(), Seq::empty());
    assert(text.subrange(0, text.len() as int) =~= text);
    assert(squeeze(Seq::<char>::empty()) =~= Seq::<char>::empty());
    assert(squeeze_words(Seq::<Seq<char>>::empty(), 0) =~= Seq::<char>::empty());
    lemma_wrap_from_keeps(words, 0, Seq::empty(), Seq::empty(), w);
    let r = wrap_from(words, 0, Seq::empty(), Seq::empty(), w);
    assert(flat(Seq::<Seq<char>>::empty()) =~= Seq::<char>::empty());
    assert(squeezed(Seq::empty(), Seq::empty()) =~= Seq::<char>::empty());
    assert(squeezed(r.0, r.1) =~= squeeze_words(words, 0));
    assert(squeeze_words(words, 0) =~= squeeze(text));
    if r.1.len() > 0 || r.0.len() == 0 {
        lemma_squeezed_push(r.0, r.1);
        assert(squeeze(flat(r.0.push(r.1))) =~= squeezed(r.0.push(r.1), Seq::empty()));
    } else {
        assert(squeeze(r.1) =~= Seq::<char>::empty());
        assert(squeeze(flat(r.0)) =~= squeezed(r.0, r.1));
    }
}


/// A section's title; continued into another column, it says so.
pub fn title(name: &str, continued: bool) -> (t: String)
    ensures
        t@ == if continued { name@ + " (continued)"@ } else { name@ },
{
    if continued {
        concat(name, " (continued)")
    } else {
        name.to_owned()
    }
}

/// `n`, or `u16::MAX` when it doesn't fit.
pub fn to_u16(n: usize) -> (r: u16)
    ensures
        r == if n <= u16::MAX { n as u16 } else { u16::MAX },
{
    if n <= 65535 {
        n as u16
    } else {
        65535
    }
}

/// One row of the help screen as drawn.
#[derive(Debug, PartialEq, Eq)]
pub enum HelpLine {
    Title(String),
    Heading(String),
    /// The keys padded to the column's key width (blank on a label's
    /// wrapped lines), then the label.
    Row { keys: String, label: String },
    Note(String),
    Blank,
}

/// The help screen for a terminal of one size: its box and each column's
/// lines.
#[derive(Debug)]
pub struct Page {
    /// The box, borders included.
    pub width: u16,
    pub height: u16,
    /// Each column's width and lines.
    pub columns: Vec<(u16, Vec<HelpLine>)>,
    /// Rows of the longest column.
    pub rows: u16,
    /// Rows that fit in the box.
    pub visible: u16,
}

impl Page {
    /// How far down it scrolls: the last row at the bottom of the box.
    pub fn max_scroll(&self) -> (n: u16)
        ensures
            n == if self.rows >= self.visible { self.rows - self.visible } else { 0 },
    {
        if self.rows >= self.visible {
            self.rows - self.visible
        } else {
            0
        }
    }

    /// Where `action` takes help scrolled to `scroll`: a row down or up,
    /// the top or the bottom; no further down than its last row at the
    /// bottom of the box, nor up than its top. Another action only keeps
    /// it within bounds.
    pub fn scrolled(&self, scroll: u16, action: Action) -> (n: u16)
        ensures
            n == ({
                let to: int = match action {
                    Action::MoveDown => if scroll + 1 <= u16::MAX { scroll + 1 } else { u16::MAX as int },
                    Action::MoveUp => if scroll >= 1 { scroll - 1 } else { 0 },
                    Action::JumpTop => 0,
                    Action::JumpBottom => u16::MAX as int,
                    _ => scroll as int,
                };
                if to <= self.max_scroll_spec() { to } else { self.max_scroll_spec() }
            }),
    {
        let to: u16 = match action {
            Action::MoveDown => scroll.saturating_add(1),
            Action::MoveUp => scroll.saturating_sub(1),
            Action::JumpTop => 0,
            Action::JumpBottom => u16::MAX,
            _ => scroll,
        };
        let max = self.max_scroll();
        if to <= max { to } else { max }
    }

    /// PgDn (`down`) or PgUp on help scrolled to `scroll`: a page's step,
    /// within the same bounds.
    pub fn paged(&self, scroll: u16, down: bool) -> (n: u16)
        ensures
            n == ({
                let step: int = if self.visible >= 2 { self.visible - 1 } else { 1 };
                let to: int = if down {
                    if scroll + step <= u16::MAX { scroll + step } else { u16::MAX as int }
                } else if scroll >= step {
                    scroll - step
                } else {
                    0
                };
                if to <= self.max_scroll_spec() { to } else { self.max_scroll_spec() }
            }),
    {
        let step = self.page();
        let to: u16 = if down { scroll.saturating_add(step) } else { scroll.saturating_sub(step) };
        let max = self.max_scroll();
        if to <= max { to } else { max }
    }

    /// How far down it scrolls.
    pub open spec fn max_scroll_spec(&self) -> int {
        if self.rows >= self.visible { self.rows - self.visible } else { 0 }
    }

    /// PgDn's step: a screenful, keeping one row for context; at least
    /// one.
    pub fn page(&self) -> (n: u16)
        ensures
            n == if self.visible >= 2 { self.visible - 1 } else { 1 },
    {
        if self.visible >= 2 {
            self.visible - 1
        } else {
            1
        }
    }
}

} // verus!

verus! {

/// A section of help as the contracts read it.
pub type SectionV = (Section, Seq<(Option<Seq<char>>, Seq<(Seq<char>, Seq<char>)>)>);

/// Whether a row shows `key` for `label`: its label, with `key` among
/// its keys.
pub open spec fn row_shows(row: (Seq<char>, Seq<char>), key: Seq<char>, label: Seq<char>) -> bool {
    row.1 == label && split_on(row.0, '/').contains(key)
}

/// Whether some row of `sections` shows `key` for `label`.
pub open spec fn shows(sections: Seq<SectionV>, key: Seq<char>, label: Seq<char>) -> bool {
    exists|s: int, g: int, r: int|
        0 <= s < sections.len() && 0 <= g < sections[s].1.len() && 0 <= r < sections[s].1[g].1.len()
            && #[trigger] row_shows(sections[s].1[g].1[r], key, label)
}

/// Splitting carries the parts already done in front.
proof fn lemma_split_carry(s: Seq<char>, sep: char, i: int, cur: Seq<char>, done: Seq<Seq<char>>)
    requires
        0 <= i <= s.len(),
    ensures
        split_from(s, sep, i, cur, done) == done + split_from(s, sep, i, cur, Seq::empty()),
    decreases s.len() - i,
{
    if i < s.len() {
        if s[i] == sep {
            lemma_split_carry(s, sep, i + 1, Seq::empty(), done.push(cur));
            lemma_split_carry(s, sep, i + 1, Seq::empty(), seq![cur]);
            assert(done.push(cur) =~= done + seq![cur]);
            assert(Seq::<Seq<char>>::empty().push(cur) =~= seq![cur]);
            assert((done + seq![cur]) + split_from(s, sep, i + 1, Seq::empty(), Seq::empty())
                =~= done + (seq![cur] + split_from(s, sep, i + 1, Seq::empty(), Seq::empty())));
        } else {
            lemma_split_carry(s, sep, i + 1, cur.push(s[i]), done);
            lemma_split_carry(s, sep, i + 1, cur.push(s[i]), Seq::empty());
        }
    } else {
        assert(done.push(cur) =~= done + Seq::<Seq<char>>::empty().push(cur));
    }
}

/// Splitting the end of a text is splitting what follows its start.
proof fn lemma_split_shift(x: Seq<char>, y: Seq<char>, sep: char, j: int, cur: Seq<char>, done: Seq<Seq<char>>)
    requires
        0 <= j <= y.len(),
    ensures
        split_from(x + y, sep, x.len() + j, cur, done) == split_from(y, sep, j, cur, done),
    decreases y.len() - j,
{
    if j < y.len() {
        assert((x + y)[x.len() + j] == y[j]);
        if y[j] == sep {
            lemma_split_shift(x, y, sep, j + 1, Seq::empty(), done.push(cur));
        } else {
            lemma_split_shift(x, y, sep, j + 1, cur.push(y[j]), done);
        }
    }
}

/// Splitting `a`, a separator, then `b` gives `a`'s parts then `b`'s.
proof fn lemma_split_join_from(a: Seq<char>, b: Seq<char>, sep: char, i: int, cur: Seq<char>, done: Seq<Seq<char>>)
    requires
        0 <= i <= a.len(),
    ensures
        split_from(a + seq![sep] + b, sep, i, cur, done) == split_from(a, sep, i, cur, done) + split_on(b, sep),
    decreases a.len() - i,
{
    let s = a + seq![sep] + b;
    if i == a.len() {
        assert(s[i] == sep);
        assert(s =~= (a + seq![sep]) + b);
        lemma_split_shift(a + seq![sep], b, sep, 0, Seq::empty(), done.push(cur));
        lemma_split_carry(b, sep, 0, Seq::empty(), done.push(cur));
    } else {
        assert(s[i] == a[i]);
        if a[i] == sep {
            lemma_split_join_from(a, b, sep, i + 1, Seq::empty(), done.push(cur));
        } else {
            lemma_split_join_from(a, b, sep, i + 1, cur.push(a[i]), done);
        }
    }
}

/// A text with no separator is one part.
proof fn lemma_split_whole(s: Seq<char>, sep: char, i: int)
    requires
        0 <= i <= s.len(),
        !s.contains(sep),
    ensures
        split_from(s, sep, i, s.subrange(0, i), Seq::empty()) == seq![s],
    decreases s.len() - i,
{
    if i < s.len() {
        assert(s[i] != sep);
        assert(s.subrange(0, i).push(s[i]) =~= s.subrange(0, i + 1));
        lemma_split_whole(s, sep, i + 1);
    } else {
        assert(s.subrange(0, i) =~= s);
        assert(Seq::<Seq<char>>::empty().push(s) =~= seq![s]);
    }
}

/// Adding `key` to a row's keys keeps the keys it had, and has `key`
/// among them when it has no `/`.
proof fn lemma_keys_grow(keys: Seq<char>, key: Seq<char>, other: Seq<char>)
    ensures
        split_on(keys, '/').contains(other) ==> split_on(keys + seq!['/'] + key, '/').contains(other),
        !key.contains('/') ==> split_on(keys + seq!['/'] + key, '/').contains(key),
{
    lemma_split_join_from(keys, key, '/', 0, Seq::empty(), Seq::empty());
    let whole = split_on(keys + seq!['/'] + key, '/');
    let left = split_on(keys, '/');
    if left.contains(other) {
        let k = choose|k: int| 0 <= k < left.len() && left[k] == other;
        assert(whole[k] == other);
    }
    if !key.contains('/') {
        lemma_split_whole(key, '/', 0);
        assert(key.subrange(0, 0) =~= Seq::<char>::empty());
        assert(whole[left.len() as int] == key);
    }
}

/// A key with no `/` alone is its own one key.
proof fn lemma_key_alone(key: Seq<char>)
    requires
        !key.contains('/'),
    ensures
        split_on(key, '/').contains(key),
{
    lemma_split_whole(key, '/', 0);
    assert(key.subrange(0, 0) =~= Seq::<char>::empty());
    assert(split_on(key, '/')[0] == key);
}

proof fn lemma_find_row_label(rows: Seq<(Seq<char>, Seq<char>)>, label: Seq<char>, from: int)
    ensures
        match find_row_label(rows, label, from) {
            Some(k) => 0 <= from <= k < rows.len() && rows[k].1 == label,
            None => true,
        },
    decreases rows.len() - from,
{
    if 0 <= from < rows.len() && rows[from].1 != label {
        lemma_find_row_label(rows, label, from + 1);
    }
}

proof fn lemma_find_section(sections: Seq<SectionV>, section: Section, from: int)
    requires
        0 <= from,
    ensures
        match find_section(sections, section, from) {
            Some(k) => 0 <= from <= k < sections.len() && sections[k].0 == section,
            None => forall|j: int| from <= j < sections.len() ==> sections[j].0 != section,
        },
    decreases sections.len() - from,
{
    if 0 <= from < sections.len() && sections[from].0 != section {
        lemma_find_section(sections, section, from + 1);
    }
}

/// The rows after `add_key` show what they showed, and `key` for `label`
/// when `key` has no `/`.
proof fn lemma_add_key(rows: Seq<(Seq<char>, Seq<char>)>, key: Seq<char>, label: Seq<char>, k2: Seq<char>, l2: Seq<char>)
    ensures
        (exists|r: int| 0 <= r < rows.len() && #[trigger] row_shows(rows[r], k2, l2)) ==> exists|r: int|
            0 <= r < add_key(rows, key, label).len() && #[trigger] row_shows(add_key(rows, key, label)[r], k2, l2),
        !key.contains('/') ==> exists|r: int|
            0 <= r < add_key(rows, key, label).len() && #[trigger] row_shows(add_key(rows, key, label)[r], key, label),
{
    lemma_find_row_label(rows, label, 0);
    let after = add_key(rows, key, label);
    if exists|r: int| 0 <= r < rows.len() && #[trigger] row_shows(rows[r], k2, l2) {
        let r = choose|r: int| 0 <= r < rows.len() && #[trigger] row_shows(rows[r], k2, l2);
        match find_row_label(rows, label, 0) {
            Some(k) => {
                if !split_on(rows[k].0, '/').contains(key) && r == k {
                    lemma_keys_grow(rows[k].0, key, k2);
                }
                assert(row_shows(after[r], k2, l2));
            },
            None => {
                assert(after[r] == rows[r]);
            },
        }
    }
    if !key.contains('/') {
        match find_row_label(rows, label, 0) {
            Some(k) => {
                if !split_on(rows[k].0, '/').contains(key) {
                    lemma_keys_grow(rows[k].0, key, key);
                }
                assert(row_shows(after[k], key, label));
            },
            None => {
                lemma_key_alone(key);
                assert(row_shows(after[rows.len() as int], key, label));
            },
        }
    }
}

/// Adding an entry keeps every section where it was, and every row
/// shown, and shows the new one when its key has no `/`.
proof fn lemma_add_entry(
    sections: Seq<SectionV>,
    section: Section,
    heading: Option<Seq<char>>,
    key: Seq<char>,
    label: Seq<char>,
    k2: Seq<char>,
    l2: Seq<char>,
)
    requires
        exists|j: int| 0 <= j < sections.len() && sections[j].0 == section,
    ensures
        add_entry(sections, section, heading, key, label).len() == sections.len(),
        forall|j: int| 0 <= j < sections.len() ==> #[trigger] add_entry(sections, section, heading, key, label)[j].0 == sections[j].0,
        shows(sections, k2, l2) ==> shows(add_entry(sections, section, heading, key, label), k2, l2),
        !key.contains('/') ==> shows(add_entry(sections, section, heading, key, label), key, label),
{
    lemma_find_section(sections, section, 0);
    let s = find_section(sections, section, 0)->Some_0;
    let groups = sections[s].1;
    lemma_find_heading(groups, heading, 0);
    let with_group = match find_heading(groups, heading, 0) {
        Some(_) => groups,
        None => groups.push((heading, Seq::empty())),
    };
    let g = match find_heading(groups, heading, 0) {
        Some(g) => g,
        None => groups.len() as int,
    };
    let rows = with_group[g].1;
    let after = add_entry(sections, section, heading, key, label);
    assert(after == sections.update(s, (sections[s].0, with_group.update(g, (heading, add_key(rows, key, label))))));
    if shows(sections, k2, l2) {
        let (s0, g0, r0) = choose|s0: int, g0: int, r0: int|
            0 <= s0 < sections.len() && 0 <= g0 < sections[s0].1.len() && 0 <= r0 < sections[s0].1[g0].1.len()
                && #[trigger] row_shows(sections[s0].1[g0].1[r0], k2, l2);
        if s0 == s && g0 == g {
            assert(rows[r0] == sections[s0].1[g0].1[r0]);
            lemma_add_key(rows, key, label, k2, l2);
            let r1 = choose|r: int| 0 <= r < add_key(rows, key, label).len() && #[trigger] row_shows(add_key(rows, key, label)[r], k2, l2);
            assert(row_shows(after[s].1[g].1[r1], k2, l2));
        } else if s0 == s {
            assert(after[s0].1[g0] == sections[s0].1[g0]);
            assert(row_shows(after[s0].1[g0].1[r0], k2, l2));
        } else {
            assert(row_shows(after[s0].1[g0].1[r0], k2, l2));
        }
    }
    if !key.contains('/') {
        lemma_add_key(rows, key, label, key, label);
        let r1 = choose|r: int| 0 <= r < add_key(rows, key, label).len() && #[trigger] row_shows(add_key(rows, key, label)[r], key, label);
        assert(row_shows(after[s].1[g].1[r1], key, label));
    }
}

/// What the first `n` bindings make of the sections: each where it was,
/// and each of those bindings whose key has no `/` shown.
pub open spec fn sections_hold(n: int) -> bool {
    &&& sections_upto(n).len() == 5
    &&& forall|j: int| 0 <= j < 5 ==> #[trigger] sections_upto(n)[j].0 == all_sections()[j]
    &&& forall|i: int|
        0 <= i < n && !table_at(i as usize).key.contains('/') ==> shows(
            sections_upto(n),
            #[trigger] table_at(i as usize).key,
            table_at(i as usize).label,
        )
}

/// Where the `n`th binding goes: its section, found where it was.
proof fn lemma_step_section(n: int)
    requires
        0 < n <= BINDING_COUNT,
        sections_hold(n - 1),
    ensures
        ({
            let section = place_spec(table_at((n - 1) as usize)).0;
            exists|j: int| 0 <= j < sections_upto(n - 1).len() && (#[trigger] sections_upto(n - 1)[j]).0 == section
        }),
{
    let section = place_spec(table_at((n - 1) as usize)).0;
    let j: int = match section {
        Section::Navigation => 0,
        Section::Tasks => 1,
        Section::Detail => 2,
        Section::Prompts => 3,
        Section::Views => 4,
    };
    assert(sections_upto(n - 1)[j].0 == section);
}

/// A binding shown before the `n`th is added is shown after.
#[verifier::spinoff_prover]
proof fn lemma_step_shows(n: int, i: int)
    requires
        0 < n <= BINDING_COUNT,
        sections_hold(n - 1),
        0 <= i < n,
        !table_at(i as usize).key.contains('/'),
    ensures
        shows(sections_upto(n), table_at(i as usize).key, table_at(i as usize).label),
{
    let b = table_at((n - 1) as usize);
    lemma_step_section(n);
    lemma_add_entry(sections_upto(n - 1), place_spec(b).0, place_spec(b).1, b.key, b.label, table_at(i as usize).key, table_at(i as usize).label);
}

/// Adding the `n`th binding keeps what the ones before it made.
#[verifier::spinoff_prover]
proof fn lemma_sections_step(n: int)
    requires
        0 < n <= BINDING_COUNT,
        sections_hold(n - 1),
    ensures
        sections_hold(n),
{
    let b = table_at((n - 1) as usize);
    lemma_step_section(n);
    assert forall|i: int|
        0 <= i < n && !table_at(i as usize).key.contains('/') implies shows(
            sections_upto(n),
            #[trigger] table_at(i as usize).key,
            table_at(i as usize).label,
        ) by {
        lemma_step_shows(n, i);
    }
    lemma_add_entry(sections_upto(n - 1), place_spec(b).0, place_spec(b).1, b.key, b.label, b.key, b.label);
}

/// Once the first `n` bindings are in, every section is where it was
/// and each of those bindings whose key has no `/` is shown.
proof fn lemma_sections_upto(n: int)
    requires
        0 <= n <= BINDING_COUNT,
    ensures
        sections_hold(n),
    decreases n,
{
    if n > 0 {
        lemma_sections_upto(n - 1);
        lemma_sections_step(n);
    } else {
        assert(empty_sections().len() == 5);
    }
}

/// The line editor's keys, added after, take no binding's row away.
proof fn lemma_with_editor(m: int, key: Seq<char>, label: Seq<char>)
    requires
        0 <= m <= 3,
        shows(sections_upto(BINDING_COUNT as int), key, label),
    ensures
        sections_with_editor(m).len() == 5,
        forall|j: int| 0 <= j < 5 ==> #[trigger] sections_with_editor(m)[j].0 == all_sections()[j],
        shows(sections_with_editor(m), key, label),
    decreases m,
{
    lemma_sections_upto(BINDING_COUNT as int);
    if m > 0 {
        lemma_with_editor(m - 1, key, label);
        let before = sections_with_editor(m - 1);
        assert(before[3].0 == Section::Prompts);
        lemma_add_entry(before, Section::Prompts, Some("Typing, in any prompt"@), editor_keys()[m - 1].0, editor_keys()[m - 1].1, key, label);
    }
}

/// A key added to the registry can never be missing from help: every
/// binding's label is on some row of help's content with the binding's
/// key among the row's keys (for a key that has no `/` of its own).
pub proof fn law_every_binding_is_in_help(i: usize)
    requires
        i < BINDING_COUNT,
        !table_at(i).key.contains('/'),
    ensures
        shows(content_spec(), table_at(i).key, table_at(i).label),
{
    let key = table_at(i).key;
    let label = table_at(i).label;
    lemma_sections_upto(BINDING_COUNT as int);
    let ii: int = i as int;
    assert(table_at(ii as usize) == table_at(i));
    assert(!table_at(ii as usize).key.contains('/'));
    assert(shows(sections_upto(BINDING_COUNT as int), table_at(ii as usize).key, table_at(ii as usize).label));
    assert(shows(sections_upto(BINDING_COUNT as int), key, label));
    lemma_with_editor(3, key, label);
    let all = sections_with_editor(3);
    let (s0, g0, r0) = choose|s0: int, g0: int, r0: int|
        0 <= s0 < all.len() && 0 <= g0 < all[s0].1.len() && 0 <= r0 < all[s0].1[g0].1.len()
            && #[trigger] row_shows(all[s0].1[g0].1[r0], key, label);
    let pred = |x: SectionV| x.1.len() > 0;
    all.lemma_filter_contains(pred, s0);
    let kept = all.filter(pred);
    assert(content_spec() == kept);
    let j = choose|j: int| 0 <= j < kept.len() && kept[j] == all[s0];
    assert(row_shows(kept[j].1[g0].1[r0], key, label));
}

} // verus!
