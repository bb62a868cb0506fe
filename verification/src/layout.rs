//! Laying the help screen out for a terminal: its content broken into
//! parts (one heading's rows each), the parts split into two columns so
//! the taller is as short as it can be, and each column fitted to a width,
//! wrapping what's wider.

use vstd::prelude::*;

use crate::help::{
    content, content_spec, section_title, wrap, wrap_spec, Group, HelpLine, Page, Section,
    sections_view,
};
use crate::keybindings::pairs_view;
use crate::search::strings_view;
use crate::text::{concat, push_char};
use crate::width::{str_columns, str_width};

verus! {

/// The note under the last section.
pub const NOTE: &'static str = "Scripts and agents: use the `ms-todo` commands.";

/// Between the two columns.
pub const GAP: u16 = 2;

/// Before a heading.
pub const HEADING_INDENT: usize = 2;

/// Before a row's keys.
pub const INDENT: usize = 3;

/// Between a row's keys and its label.
pub const SPACER: usize = 2;

/// What a column is made of before it's fitted to a width.
pub enum Item {
    /// A section's title; `true` when it's carried on into the next
    /// column.
    Title(&'static str, bool),
    Heading(&'static str),
    Row(String, &'static str),
    Note(&'static str),
    Blank,
}

/// An item as the contracts read it.
pub enum ItemV {
    Title(Seq<char>, bool),
    Heading(Seq<char>),
    Row(Seq<char>, Seq<char>),
    Note(Seq<char>),
    Blank,
}

impl Item {
    pub open spec fn item_view(self) -> ItemV {
        match self {
            Item::Title(t, c) => ItemV::Title(t@, c),
            Item::Heading(h) => ItemV::Heading(h@),
            Item::Row(k, l) => ItemV::Row(k@, l@),
            Item::Note(n) => ItemV::Note(n@),
            Item::Blank => ItemV::Blank,
        }
    }

    /// A copy of the item.
    pub fn copy(&self) -> (c: Item)
        ensures
            c.item_view() == self.item_view(),
    {
        match self {
            Item::Title(t, c) => Item::Title(t, *c),
            Item::Heading(h) => Item::Heading(h),
            Item::Row(k, l) => Item::Row(k.clone(), l),
            Item::Note(n) => Item::Note(n),
            Item::Blank => Item::Blank,
        }
    }
}

/// Items as the contracts read them.
pub open spec fn items_view(items: Seq<Item>) -> Seq<ItemV> {
    items.map_values(|i: Item| i.item_view())
}

/// One heading's rows, the unit the columns are split at.
pub struct Part {
    pub section: Section,
    /// The section's first part, under its title.
    pub first: bool,
    pub items: Vec<Item>,
}

/// A part as the contracts read it.
pub open spec fn part_view(p: Part) -> (Section, bool, Seq<ItemV>) {
    (p.section, p.first, items_view(p.items@))
}

/// Parts as the contracts read them.
pub open spec fn parts_view(parts: Seq<Part>) -> Seq<(Section, bool, Seq<ItemV>)> {
    parts.map_values(|p: Part| part_view(p))
}

/// A group's items: its heading, then a row for each of its rows.
pub open spec fn group_items(g: (Option<Seq<char>>, Seq<(Seq<char>, Seq<char>)>)) -> Seq<ItemV> {
    (match g.0 {
        Some(h) => seq![ItemV::Heading(h)],
        None => Seq::empty(),
    }) + g.1.map_values(|r: (Seq<char>, Seq<char>)| ItemV::Row(r.0, r.1))
}

/// A section's parts: one per group, the first under the title.
pub open spec fn section_parts(
    section: Section,
    groups: Seq<(Option<Seq<char>>, Seq<(Seq<char>, Seq<char>)>)>,
) -> Seq<(Section, bool, Seq<ItemV>)> {
    Seq::new(groups.len(), |i: int| (section, i == 0, group_items(groups[i])))
}

/// Every section's parts, in order.
pub open spec fn all_parts(
    sections: Seq<(Section, Seq<(Option<Seq<char>>, Seq<(Seq<char>, Seq<char>)>)>)>,
) -> Seq<(Section, bool, Seq<ItemV>)>
    decreases sections.len(),
{
    if sections.len() == 0 {
        Seq::empty()
    } else {
        all_parts(sections.drop_last()) + section_parts(sections.last().0, sections.last().1)
    }
}

/// The parts with the note, after a blank row, at the end of the last.
pub open spec fn noted(parts: Seq<(Section, bool, Seq<ItemV>)>) -> Seq<(Section, bool, Seq<ItemV>)> {
    if parts.len() == 0 {
        parts
    } else {
        let last = parts.last();
        parts.update(
            parts.len() - 1,
            (last.0, last.1, last.2 + seq![ItemV::Blank, ItemV::Note(NOTE@)]),
        )
    }
}

/// What comes before the part at `index` of a column: its section's
/// title (continued, when the part isn't the section's first) if it
/// starts a section or the column, with a blank row before it unless it
/// is the column's first.
pub open spec fn header(part: (Section, bool, Seq<ItemV>), index: int) -> Seq<ItemV> {
    if part.1 || index == 0 {
        (if index > 0 {
            seq![ItemV::Blank]
        } else {
            Seq::empty()
        }) + seq![ItemV::Title(section_title(part.0), !part.1)]
    } else {
        Seq::empty()
    }
}

/// Parts one after another, each section under its title.
pub open spec fn join_items(parts: Seq<(Section, bool, Seq<ItemV>)>) -> Seq<ItemV>
    decreases parts.len(),
{
    if parts.len() == 0 {
        Seq::empty()
    } else {
        join_items(parts.drop_last()) + header(parts.last(), parts.len() - 1) + parts.last().2
    }
}

/// How tall the taller column is when the parts are split at `at`.
pub open spec fn split_cost(parts: Seq<(Section, bool, Seq<ItemV>)>, at: int) -> int {
    let left = join_items(parts.subrange(0, at)).len() as int;
    let right = join_items(parts.subrange(at, parts.len() as int)).len() as int;
    if left >= right {
        left
    } else {
        right
    }
}

/// The first split at or after `at` that is cheaper than `best`, and so on.
pub open spec fn best_from(parts: Seq<(Section, bool, Seq<ItemV>)>, at: int, best: int) -> int
    decreases parts.len() - at,
{
    if at < 1 || at >= parts.len() {
        best
    } else if split_cost(parts, at) < split_cost(parts, best) {
        best_from(parts, at + 1, at)
    } else {
        best_from(parts, at + 1, best)
    }
}

/// Where to break the parts into two columns, keeping their order: the
/// first place where the taller column is shortest; all of them in one
/// column when there are fewer than two.
pub open spec fn best_split_spec(parts: Seq<(Section, bool, Seq<ItemV>)>) -> int {
    if parts.len() <= 1 {
        parts.len() as int
    } else {
        best_from(parts, 2, 1)
    }
}

/// The widest keys among the rows.
pub open spec fn key_width_spec(items: Seq<ItemV>) -> int
    decreases items.len(),
{
    if items.len() == 0 {
        0
    } else {
        let before = key_width_spec(items.drop_last());
        let here = match items.last() {
            ItemV::Row(k, _) => str_columns(k) as int,
            _ => 0,
        };
        if here > before {
            here
        } else {
            before
        }
    }
}

/// A section's title as shown.
pub open spec fn title_text(name: Seq<char>, continued: bool) -> Seq<char> {
    if continued {
        name + " (continued)"@
    } else {
        name
    }
}

/// The width an item needs on one line, with `keys` columns of keys.
pub open spec fn item_width(item: ItemV, keys: int) -> int {
    match item {
        ItemV::Title(t, c) => 1 + str_columns(title_text(t, c)),
        ItemV::Note(t) => 1 + str_columns(t),
        ItemV::Heading(t) => 2 + str_columns(t),
        ItemV::Row(_, l) => 3 + keys + 2 + str_columns(l),
        ItemV::Blank => 0,
    }
}

/// The widest of the items, none for no items.
pub open spec fn widest(items: Seq<ItemV>, keys: int) -> int
    decreases items.len(),
{
    if items.len() == 0 {
        0
    } else {
        let before = widest(items.drop_last(), keys);
        let here = item_width(items.last(), keys);
        if here > before {
            here
        } else {
            before
        }
    }
}

/// The width a column needs to show every item on one line, with a
/// column of space on the right.
pub open spec fn natural_width_spec(items: Seq<ItemV>) -> int {
    widest(items, key_width_spec(items)) + 1
}

/// A help line as the contracts read it.
pub enum HelpLineV {
    Title(Seq<char>),
    Heading(Seq<char>),
    Row(Seq<char>, Seq<char>),
    Note(Seq<char>),
    Blank,
}

/// A help line as the contracts read it.
pub open spec fn line_view(line: HelpLine) -> HelpLineV {
    match line {
        HelpLine::Title(t) => HelpLineV::Title(t@),
        HelpLine::Heading(h) => HelpLineV::Heading(h@),
        HelpLine::Row { keys, label } => HelpLineV::Row(keys@, label@),
        HelpLine::Note(n) => HelpLineV::Note(n@),
        HelpLine::Blank => HelpLineV::Blank,
    }
}

/// Help lines as the contracts read them.
pub open spec fn lines_view(lines: Seq<HelpLine>) -> Seq<HelpLineV> {
    lines.map_values(|l: HelpLine| line_view(l))
}

/// The width left for text `indent` columns in, with a column of space
/// on the right, as `width.saturating_sub(indent + 1)` gives it.
pub open spec fn room(width: int, indent: int) -> int {
    if width > indent + 1 {
        width - indent - 1
    } else {
        0
    }
}

/// `n` spaces.
pub open spec fn spaces(n: int) -> Seq<char> {
    Seq::new(if n > 0 { n as nat } else { 0 }, |i: int| ' ')
}

/// A row's lines: its label wrapped after the keys' column, the keys on
/// the first line and blank under it, padded to the keys' width.
pub open spec fn row_lines(keys: Seq<char>, label: Seq<char>, key_width: int, width: int) -> Seq<HelpLineV> {
    let wrapped = wrap_spec(label, room(width, 3 + key_width + 2));
    Seq::new(
        wrapped.len(),
        |i: int|
            {
                let k = if i == 0 {
                    keys
                } else {
                    Seq::empty()
                };
                HelpLineV::Row(k + spaces(key_width - str_columns(k)), wrapped[i])
            },
    )
}

/// An item's lines in a column `width` wide whose keys are `key_width`
/// wide.
pub open spec fn item_lines(item: ItemV, key_width: int, width: int) -> Seq<HelpLineV> {
    match item {
        ItemV::Title(t, c) => wrap_spec(title_text(t, c), room(width, 1)).map_values(
            |l: Seq<char>| HelpLineV::Title(l),
        ),
        ItemV::Heading(h) => wrap_spec(h, room(width, 2)).map_values(
            |l: Seq<char>| HelpLineV::Heading(l),
        ),
        ItemV::Note(n) => wrap_spec(n, room(width, 1)).map_values(|l: Seq<char>| HelpLineV::Note(l)),
        ItemV::Blank => seq![HelpLineV::Blank],
        ItemV::Row(k, l) => row_lines(k, l, key_width, width),
    }
}

/// The lines of `items[..n]` in a column `width` wide whose keys are
/// `key_width` wide.
pub open spec fn lines_upto(items: Seq<ItemV>, n: int, key_width: int, width: int) -> Seq<HelpLineV>
    decreases n,
{
    if n <= 0 || n > items.len() {
        Seq::empty()
    } else {
        lines_upto(items, n - 1, key_width, width) + item_lines(items[n - 1], key_width, width)
    }
}

/// The items as lines `width` wide, wrapping what's wider.
pub open spec fn lines_spec(items: Seq<ItemV>, width: int) -> Seq<HelpLineV> {
    lines_upto(items, items.len() as int, key_width_spec(items), width)
}

/// A group's items.
fn group_to_items(group: &Group) -> (items: Vec<Item>)
    ensures
        items_view(items@) == group_items(crate::help::group_view(*group)),
{
    let mut items: Vec<Item> = Vec::new();
    match group.heading {
        Some(h) => {
            items.push(Item::Heading(h));
        },
        None => {},
    }
    let ghost head = items_view(items@);
    let mut i: usize = 0;
    while i < group.rows.len()
        invariant
            i <= group.rows.len(),
            head == (match crate::help::heading_view(group.heading) {
                Some(h) => seq![ItemV::Heading(h)],
                None => Seq::<ItemV>::empty(),
            }),
            items_view(items@) == head + pairs_view(group.rows@).subrange(0, i as int).map_values(
                |r: (Seq<char>, Seq<char>)| ItemV::Row(r.0, r.1),
            ),
        decreases group.rows.len() - i,
    {
        let (keys, label) = (&group.rows[i].0, group.rows[i].1);
        let ghost before = items_view(items@);
        items.push(Item::Row(keys.clone(), label));
        assert(pairs_view(group.rows@)[i as int] == (keys@, label@));
        assert(items_view(items@) =~= before.push(ItemV::Row(keys@, label@)));
        assert(pairs_view(group.rows@).subrange(0, i + 1).map_values(|r: (Seq<char>, Seq<char>)| ItemV::Row(r.0, r.1))
            =~= pairs_view(group.rows@).subrange(0, i as int).map_values(|r: (Seq<char>, Seq<char>)| ItemV::Row(r.0, r.1)).push(ItemV::Row(keys@, label@)));
        i = i + 1;
    }
    assert(pairs_view(group.rows@).subrange(0, group.rows.len() as int) =~= pairs_view(group.rows@));
    items
}

/// The content's parts, one per heading, with the note at the end.
pub fn parts_of(sections: &Vec<(Section, Vec<Group>)>) -> (parts: Vec<Part>)
    ensures
        parts_view(parts@) == noted(all_parts(sections_view(sections@))),
{
    let ghost sv = sections_view(sections@);
    let mut parts: Vec<Part> = Vec::new();
    let mut s: usize = 0;
    while s < sections.len()
        invariant
            s <= sections.len(),
            sv == sections_view(sections@),
            parts_view(parts@) == all_parts(sv.subrange(0, s as int)),
        decreases sections.len() - s,
    {
        let section = sections[s].0;
        let groups = &sections[s].1;
        let ghost gv = sv[s as int].1;
        assert(gv == groups@.map_values(|g: Group| crate::help::group_view(g)));
        let ghost start = parts_view(parts@);
        let mut g: usize = 0;
        while g < groups.len()
            invariant
                g <= groups.len(),
                gv == groups@.map_values(|g: Group| crate::help::group_view(g)),
                parts_view(parts@) == start + section_parts(section, gv.subrange(0, g as int)),
            decreases groups.len() - g,
        {
            let items = group_to_items(&groups[g]);
            let ghost before = parts_view(parts@);
            parts.push(Part { section, first: g == 0, items });
            assert(parts_view(parts@) =~= before.push((section, g == 0, group_items(gv[g as int]))));
            assert(section_parts(section, gv.subrange(0, g + 1)) =~= section_parts(section, gv.subrange(0, g as int)).push((section, g == 0, group_items(gv[g as int]))));
            g = g + 1;
        }
        assert(gv.subrange(0, groups.len() as int) =~= gv);
        assert(sv.subrange(0, s + 1).drop_last() =~= sv.subrange(0, s as int));
        assert(sv.subrange(0, s + 1).last() == sv[s as int]);
        assert(sv[s as int].0 == section);
        s = s + 1;
    }
    assert(sv.subrange(0, sections.len() as int) =~= sv);
    if parts.len() > 0 {
        let ghost all = parts_view(parts@);
        let mut last = parts.pop().unwrap();
        last.items.push(Item::Blank);
        last.items.push(Item::Note(NOTE));
        let ghost lv = part_view(last);
        parts.push(last);
        assert(items_view(last.items@) =~= all.last().2 + seq![ItemV::Blank, ItemV::Note(NOTE@)]);
        assert(parts_view(parts@) =~= noted(all));
    }
    parts
}

/// The parts `parts[from..to]` one after another as a column shows them.
pub fn join_range(parts: &Vec<Part>, from: usize, to: usize) -> (items: Vec<Item>)
    requires
        from <= to <= parts.len(),
    ensures
        items_view(items@) == join_items(parts_view(parts@).subrange(from as int, to as int)),
{
    let ghost pv = parts_view(parts@);
    let mut items: Vec<Item> = Vec::new();
    let mut i: usize = from;
    assert(pv.subrange(from as int, from as int) =~= Seq::<(Section, bool, Seq<ItemV>)>::empty());
    while i < to
        invariant
            from <= i <= to <= parts.len(),
            pv == parts_view(parts@),
            items_view(items@) == join_items(pv.subrange(from as int, i as int)),
        decreases to - i,
    {
        let part = &parts[i];
        let index = i - from;
        let ghost before = items_view(items@);
        if part.first || index == 0 {
            if index > 0 {
                items.push(Item::Blank);
            }
            items.push(Item::Title(part.section.title(), !part.first));
        }
        assert(items_view(items@) =~= before + header(part_view(*part), index as int));
        let ghost mid = items_view(items@);
        let mut k: usize = 0;
        while k < part.items.len()
            invariant
                k <= part.items.len(),
                items_view(items@) == mid + items_view(part.items@).subrange(0, k as int),
            decreases part.items.len() - k,
        {
            let c = part.items[k].copy();
            let ghost b = items_view(items@);
            items.push(c);
            assert(items_view(items@) =~= b.push(c.item_view()));
            assert(items_view(part.items@).subrange(0, k + 1) =~= items_view(part.items@).subrange(0, k as int).push(part.items@[k as int].item_view()));
            k = k + 1;
        }
        assert(items_view(part.items@).subrange(0, part.items.len() as int) =~= items_view(part.items@));
        assert(pv.subrange(from as int, i + 1).drop_last() =~= pv.subrange(from as int, i as int));
        assert(pv.subrange(from as int, i + 1).last() == part_view(*part));
        i = i + 1;
    }
    items
}

/// How tall the taller column is when `parts` are split at `at`.
fn cost(parts: &Vec<Part>, at: usize) -> (c: usize)
    requires
        at <= parts.len(),
    ensures
        c == split_cost(parts_view(parts@), at as int),
{
    let n = parts.len();
    let left = join_range(parts, 0, at).len();
    let right = join_range(parts, at, n).len();
    proof {
        assert(parts_view(parts@).len() == n);
    }
    if left >= right {
        left
    } else {
        right
    }
}

/// Where to break the parts into two columns, keeping their order, so
/// the taller column is as short as it can be.
pub fn best_split(parts: &Vec<Part>) -> (at: usize)
    ensures
        at == best_split_spec(parts_view(parts@)),
{
    let n = parts.len();
    if n <= 1 {
        return n;
    }
    let ghost pv = parts_view(parts@);
    let mut best: usize = 1;
    let mut best_cost = cost(parts, 1);
    let mut at: usize = 2;
    while at < n
        invariant
            n == parts.len(),
            pv == parts_view(parts@),
            pv.len() == n,
            2 <= at <= n,
            1 <= best < at,
            best_cost == split_cost(pv, best as int),
            best_from(pv, at as int, best as int) == best_from(pv, 2, 1),
        decreases n - at,
    {
        let c = cost(parts, at);
        if c < best_cost {
            best = at;
            best_cost = c;
        }
        at = at + 1;
    }
    best
}

/// The widest keys among the rows.
pub fn key_width(items: &Vec<Item>) -> (w: usize)
    ensures
        w == key_width_spec(items_view(items@)),
{
    let mut w: usize = 0;
    let mut i: usize = 0;
    while i < items.len()
        invariant
            i <= items.len(),
            w == key_width_spec(items_view(items@).subrange(0, i as int)),
        decreases items.len() - i,
    {
        assert(items_view(items@).subrange(0, i + 1).drop_last() =~= items_view(items@).subrange(0, i as int));
        match &items[i] {
            Item::Row(keys, _) => {
                let here = str_width(keys.as_str());
                if here > w {
                    w = here;
                }
            },
            _ => {},
        }
        i = i + 1;
    }
    assert(items_view(items@).subrange(0, items.len() as int) =~= items_view(items@));
    w
}

/// The width an item needs on one line, with `keys` columns of keys.
fn width_of(item: &Item, keys: usize) -> (w: u128)
    ensures
        w == item_width(item.item_view(), keys as int),
{
    match item {
        Item::Title(t, c) => 1 + str_width(crate::help::title(t, *c).as_str()) as u128,
        Item::Note(t) => 1 + str_width(t) as u128,
        Item::Heading(t) => 2 + str_width(t) as u128,
        Item::Row(_, l) => 3 + keys as u128 + 2 + str_width(l) as u128,
        Item::Blank => 0,
    }
}

/// The width a column needs to show every item on one line, with a
/// column of space on the right.
pub fn natural_width(items: &Vec<Item>) -> (w: u128)
    ensures
        w == natural_width_spec(items_view(items@)),
        w <= 6 + 2 * (usize::MAX as int),
{
    let keys = key_width(items);
    let mut w: u128 = 0;
    let mut i: usize = 0;
    while i < items.len()
        invariant
            i <= items.len(),
            keys == key_width_spec(items_view(items@)),
            w == widest(items_view(items@).subrange(0, i as int), keys as int),
            w <= 5 + 2 * (usize::MAX as int),
        decreases items.len() - i,
    {
        assert(items_view(items@).subrange(0, i + 1).drop_last() =~= items_view(items@).subrange(0, i as int));
        let here = width_of(&items[i], keys);
        if here > w {
            w = here;
        }
        i = i + 1;
    }
    assert(items_view(items@).subrange(0, items.len() as int) =~= items_view(items@));
    w + 1
}

/// `width.saturating_sub(indent + 1)`, for any `indent`.
fn room_for(width: usize, indent: u128) -> (r: usize)
    ensures
        r == room(width as int, indent as int),
{
    if (width as u128) > indent && (width as u128) - indent > 1 {
        ((width as u128) - indent - 1) as usize
    } else {
        0
    }
}

/// `n` spaces.
fn spaces_of(n: usize) -> (s: String)
    ensures
        s@ == spaces(n as int),
{
    let mut s = String::new();
    let mut i: usize = 0;
    while i < n
        invariant
            i <= n,
            s@ == spaces(i as int),
        decreases n - i,
    {
        push_char(&mut s, ' ');
        i = i + 1;
        assert(s@ =~= spaces(i as int));
    }
    s
}

/// Push each of `texts` as a line made by `kind`.
fn push_lines(lines: &mut Vec<HelpLine>, texts: &Vec<String>, kind: u8)
    requires
        kind < 3,
    ensures
        lines_view(final(lines)@) == lines_view(old(lines)@) + strings_view(texts@).map_values(
            |l: Seq<char>|
                if kind == 0 {
                    HelpLineV::Title(l)
                } else if kind == 1 {
                    HelpLineV::Heading(l)
                } else {
                    HelpLineV::Note(l)
                },
        ),
{
    let ghost start = lines_view(lines@);
    let ghost tv = strings_view(texts@);
    let mut i: usize = 0;
    while i < texts.len()
        invariant
            i <= texts.len(),
            tv == strings_view(texts@),
            kind < 3,
            lines_view(lines@) == start + tv.subrange(0, i as int).map_values(
                |l: Seq<char>|
                    if kind == 0 {
                        HelpLineV::Title(l)
                    } else if kind == 1 {
                        HelpLineV::Heading(l)
                    } else {
                        HelpLineV::Note(l)
                    },
            ),
        decreases texts.len() - i,
    {
        let ghost before = lines_view(lines@);
        let text = texts[i].clone();
        assert(text@ == tv[i as int]);
        let line = if kind == 0 {
            HelpLine::Title(text)
        } else if kind == 1 {
            HelpLine::Heading(text)
        } else {
            HelpLine::Note(text)
        };
        lines.push(line);
        assert(lines_view(lines@) =~= before.push(line_view(line)));
        assert(tv.subrange(0, i + 1).map_values(
                |l: Seq<char>|
                    if kind == 0 {
                        HelpLineV::Title(l)
                    } else if kind == 1 {
                        HelpLineV::Heading(l)
                    } else {
                        HelpLineV::Note(l)
                    },
            ) =~= tv.subrange(0, i as int).map_values(
                |l: Seq<char>|
                    if kind == 0 {
                        HelpLineV::Title(l)
                    } else if kind == 1 {
                        HelpLineV::Heading(l)
                    } else {
                        HelpLineV::Note(l)
                    },
            ).push(line_view(line)));
        i = i + 1;
    }
    assert(tv.subrange(0, texts.len() as int) =~= tv);
}

/// A row's lines: the label wrapped after the keys' column, the keys on
/// the first line and blank under it, padded to `key_width`.
fn push_row(lines: &mut Vec<HelpLine>, keys: &String, label: &str, key_width: usize, width: usize)
    ensures
        lines_view(final(lines)@) == lines_view(old(lines)@) + row_lines(
            keys@,
            label@,
            key_width as int,
            width as int,
        ),
{
    let wrapped = wrap(label, room_for(width, 3 + key_width as u128 + 2));
    let ghost wv = strings_view(wrapped@);
    let ghost target = row_lines(keys@, label@, key_width as int, width as int);
    let ghost start = lines_view(lines@);
    let mut i: usize = 0;
    while i < wrapped.len()
        invariant
            i <= wrapped.len(),
            wv == strings_view(wrapped@),
            target == row_lines(keys@, label@, key_width as int, width as int),
            wv == wrap_spec(label@, room(width as int, 3 + key_width as int + 2)),
            lines_view(lines@) == start + target.subrange(0, i as int),
        decreases wrapped.len() - i,
    {
        let k = if i == 0 {
            keys.clone()
        } else {
            String::new()
        };
        let used = str_width(k.as_str());
        let pad = if key_width > used {
            key_width - used
        } else {
            0
        };
        let mut shown = k.clone();
        shown.append(spaces_of(pad).as_str());
        let ghost before = lines_view(lines@);
        let line = HelpLine::Row { keys: shown, label: wrapped[i].clone() };
        lines.push(line);
        proof {
            let kv: Seq<char> = if i == 0 { keys@ } else { Seq::empty() };
            assert(k@ == kv);
            assert(spaces(pad as int) =~= spaces(key_width - str_columns(kv)));
            assert(target[i as int] == HelpLineV::Row(kv + spaces(key_width - str_columns(kv)), wv[i as int]));
            assert(lines_view(lines@) =~= before.push(target[i as int]));
            assert(target.subrange(0, i + 1) =~= target.subrange(0, i as int).push(target[i as int]));
        }
        i = i + 1;
    }
    assert(target.subrange(0, wrapped.len() as int) =~= target);
}

/// The items as lines `width` wide, wrapping what's wider.
pub fn lines(items: &Vec<Item>, width: usize) -> (out: Vec<HelpLine>)
    ensures
        lines_view(out@) == lines_spec(items_view(items@), width as int),
{
    let keys_width = key_width(items);
    let ghost iv = items_view(items@);
    let mut out: Vec<HelpLine> = Vec::new();
    let mut i: usize = 0;
    while i < items.len()
        invariant
            i <= items.len(),
            iv == items_view(items@),
            keys_width == key_width_spec(iv),
            lines_view(out@) == lines_upto(iv, i as int, keys_width as int, width as int),
        decreases items.len() - i,
    {
        let ghost before = lines_view(out@);
        match &items[i] {
            Item::Title(name, continued) => {
                let t = crate::help::title(name, *continued);
                push_lines(&mut out, &wrap(t.as_str(), room_for(width, 1)), 0);
            },
            Item::Heading(h) => {
                push_lines(&mut out, &wrap(h, room_for(width, 2)), 1);
            },
            Item::Note(n) => {
                push_lines(&mut out, &wrap(n, room_for(width, 1)), 2);
            },
            Item::Blank => {
                out.push(HelpLine::Blank);
                assert(lines_view(out@) =~= before.push(HelpLineV::Blank));
            },
            Item::Row(keys, label) => {
                push_row(&mut out, keys, label, keys_width, width);
            },
        }
        assert(iv[i as int] == items@[i as int].item_view());
        assert(lines_view(out@) =~= before + item_lines(iv[i as int], keys_width as int, width as int));
        i = i + 1;
    }
    out
}

/// A column as the contracts read it: its width and its lines.
pub open spec fn columns_view(columns: Seq<(u16, Vec<HelpLine>)>) -> Seq<(int, Seq<HelpLineV>)> {
    columns.map_values(|c: (u16, Vec<HelpLine>)| (c.0 as int, lines_view(c.1@)))
}

/// A page as the contracts read it: its box's width and height, its
/// columns, its rows and the rows that fit.
pub open spec fn page_view(p: Page) -> (int, int, Seq<(int, Seq<HelpLineV>)>, int, int) {
    (p.width as int, p.height as int, columns_view(p.columns@), p.rows as int, p.visible as int)
}

/// The smaller of two integers.
pub open spec fn min_int(a: int, b: int) -> int {
    if a <= b {
        a
    } else {
        b
    }
}

/// The help screen for a terminal `width` by `height`: two columns if
/// both fit side by side unwrapped, else one, wrapped to the width; the
/// box keeps the title and hint bars in view when there's room.
pub open spec fn layout_spec(width: u16, height: u16) -> (int, int, Seq<(int, Seq<HelpLineV>)>, int, int) {
    let parts = noted(all_parts(content_spec()));
    let max_height: int = if height >= 8 {
        height - 2
    } else {
        height as int
    };
    let split = best_split_spec(parts);
    let left = join_items(parts.subrange(0, split));
    let right = join_items(parts.subrange(split, parts.len() as int));
    let w0 = natural_width_spec(left);
    let w1 = natural_width_spec(right);
    let columns: Seq<(int, Seq<HelpLineV>)> = if right.len() > 0 && w0 + w1 + 2 + 2 <= width {
        seq![(w0, lines_spec(left, w0)), (w1, lines_spec(right, w1))]
    } else {
        let all = join_items(parts);
        let w = min_int(natural_width_spec(all), room(width as int, 1));
        seq![(w, lines_spec(all, w))]
    };
    let tallest = if columns.len() == 2 && columns[1].1.len() > columns[0].1.len() {
        columns[1].1.len() as int
    } else {
        columns[0].1.len() as int
    };
    let rows = min_int(tallest, 65535);
    let visible = min_int(rows, room(max_height, 1));
    let inner = if columns.len() == 2 {
        columns[0].0 + columns[1].0 + 2
    } else {
        columns[0].0
    };
    (min_int(inner + 2, width as int), visible + 2, columns, rows, visible)
}

/// The layout for a terminal `width` by `height`: two columns if both
/// fit side by side unwrapped, else one, wrapped to the width.
pub fn layout(width: u16, height: u16) -> (page: Page)
    ensures
        page_view(page) == layout_spec(width, height),
{
    let sections = content();
    let parts = parts_of(&sections);
    let ghost pv = parts_view(parts@);
    let max_height: u16 = if height >= 8 {
        height - 2
    } else {
        height
    };
    let n = parts.len();
    let split = best_split(&parts);
    proof {
        if n > 1 {
            lemma_best_from_range(pv, 2, 1);
        }
    }
    let left = join_range(&parts, 0, split);
    let right = join_range(&parts, split, n);
    let w0 = natural_width(&left);
    let w1 = natural_width(&right);
    let mut columns: Vec<(u16, Vec<HelpLine>)> = Vec::new();
    if right.len() > 0 && w0 + w1 + 2 + 2 <= width as u128 {
        let l0 = lines(&left, w0 as usize);
        let l1 = lines(&right, w1 as usize);
        columns.push((w0 as u16, l0));
        columns.push((w1 as u16, l1));
    } else {
        let all = join_range(&parts, 0, n);
        proof {
            assert(pv.subrange(0, n as int) =~= pv);
        }
        let fit: u128 = if width >= 2 {
            (width - 2) as u128
        } else {
            0
        };
        let w = natural_width(&all);
        let w = if w <= fit {
            w
        } else {
            fit
        };
        let l = lines(&all, w as usize);
        columns.push((w as u16, l));
    }
    let tallest: usize = if columns.len() == 2 && columns[1].1.len() > columns[0].1.len() {
        columns[1].1.len()
    } else {
        columns[0].1.len()
    };
    let rows = crate::help::to_u16(tallest);
    let room_rows: u16 = if max_height >= 2 {
        max_height - 2
    } else {
        0
    };
    let visible = if rows <= room_rows {
        rows
    } else {
        room_rows
    };
    let inner: u16 = if columns.len() == 2 {
        columns[0].0 + columns[1].0 + 2
    } else {
        columns[0].0
    };
    let boxed: u16 = if (inner as u32) + 2 <= width as u32 {
        inner + 2
    } else {
        width
    };
    proof {
        assert(columns_view(columns@).len() == columns@.len());
        assert(lines_view(columns@[0].1@).len() == columns@[0].1@.len());
        if columns@.len() == 2 {
            assert(lines_view(columns@[1].1@).len() == columns@[1].1@.len());
        }
    }
    let page = Page { width: boxed, height: visible + 2, columns, rows, visible };
    assert(page_view(page).2 =~= layout_spec(width, height).2);
    page
}

/// The best split is within the parts.
proof fn lemma_best_from_range(parts: Seq<(Section, bool, Seq<ItemV>)>, at: int, best: int)
    requires
        1 <= best < parts.len(),
    ensures
        1 <= best_from(parts, at, best) < parts.len(),
    decreases parts.len() - at,
{
    if at >= 1 && at < parts.len() {
        if split_cost(parts, at) < split_cost(parts, best) {
            lemma_best_from_range(parts, at + 1, at);
        } else {
            lemma_best_from_range(parts, at + 1, best);
        }
    }
}

/// Scanning on from `at` with the first cheapest split so far keeps the
/// first cheapest split of all.
proof fn lemma_best_from_is_first_cheapest(parts: Seq<(Section, bool, Seq<ItemV>)>, at: int, best: int)
    requires
        1 <= best < at <= parts.len(),
        forall|a: int| 1 <= a < at ==> split_cost(parts, best) <= #[trigger] split_cost(parts, a),
        forall|a: int| 1 <= a < best ==> split_cost(parts, best) < #[trigger] split_cost(parts, a),
    ensures
        ({
            let r = best_from(parts, at, best);
            &&& 1 <= r < parts.len()
            &&& forall|a: int| 1 <= a < parts.len() ==> split_cost(parts, r) <= #[trigger] split_cost(parts, a)
            &&& forall|a: int| 1 <= a < r ==> split_cost(parts, r) < #[trigger] split_cost(parts, a)
        }),
    decreases parts.len() - at,
{
    if at < parts.len() {
        if split_cost(parts, at) < split_cost(parts, best) {
            lemma_best_from_is_first_cheapest(parts, at + 1, at);
        } else {
            lemma_best_from_is_first_cheapest(parts, at + 1, best);
        }
    }
}

/// The help's two columns are split where the taller of them is as short
/// as it can be, at the first such place: no other split of the parts, in
/// their order, makes a shorter taller column.
pub proof fn law_best_split_is_shortest(parts: Seq<(Section, bool, Seq<ItemV>)>)
    requires
        parts.len() >= 2,
    ensures
        ({
            let at = best_split_spec(parts);
            &&& 1 <= at < parts.len()
            &&& forall|a: int| 1 <= a < parts.len() ==> split_cost(parts, at) <= #[trigger] split_cost(parts, a)
            &&& forall|a: int| 1 <= a < at ==> split_cost(parts, at) < #[trigger] split_cost(parts, a)
        }),
{
    lemma_best_from_is_first_cheapest(parts, 2, 1);
}

} // verus!
