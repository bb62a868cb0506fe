use mstodo::action::Action;
use mstodo::help::{content, title, to_u16, wrap, Group, HelpLine, Section};
use mstodo::layout::{layout, HEADING_INDENT, INDENT, SPACER};
use unicode_width::UnicodeWidthStr;
use mstodo::keybindings::{binding_at, editor_key_list, BINDING_COUNT};

fn rows() -> Vec<(String, &'static str)> {
    content()
        .into_iter()
        .flat_map(|(_, groups)| groups)
        .flat_map(|group| group.rows)
        .collect()
}

fn group(sections: &[(Section, Vec<Group>)], section: Section, heading: Option<&str>) -> Vec<(String, &'static str)> {
    sections
        .iter()
        .find(|(s, _)| *s == section)
        .and_then(|(_, groups)| groups.iter().find(|g| g.heading == heading))
        .map(|g| g.rows.clone())
        .unwrap_or_default()
}

/// A key added to the registry can never be missing from help.
#[test]
fn every_binding_is_in_help() {
    let rows = rows();
    for i in 0..BINDING_COUNT {
        let binding = binding_at(i);
        assert!(
            rows.iter().any(|(keys, label)| *label == binding.label
                && (keys == binding.key || keys.split('/').any(|key| key == binding.key))),
            "{} ({}) isn't in help",
            binding.key,
            binding.label
        );
    }
    for (keys, label) in editor_key_list() {
        assert!(rows.contains(&(keys.to_owned(), label)), "{keys}");
    }
}

#[test]
fn keys_are_grouped_by_where_they_are_pressed() {
    let sections = content();
    let titles: Vec<_> = sections.iter().map(|(s, _)| s.title()).collect();
    assert_eq!(
        titles,
        [
            "Navigation",
            "Tasks",
            "Detail pane",
            "Prompts and editing",
            "Views and palette"
        ]
    );
    let navigation = group(&sections, Section::Navigation, None);
    assert!(navigation.contains(&("j/Down".into(), "Down")));
    assert!(navigation.contains(&("q/Ctrl-c".into(), "Quit")));
    assert!(group(&sections, Section::Tasks, None).contains(&("t".into(), "My Day")));
    assert!(group(&sections, Section::Tasks, None).contains(&("e".into(), "Edit")));
    assert!(group(&sections, Section::Detail, None).contains(&("e".into(), "Edit field")));
    assert!(group(&sections, Section::Detail, None).contains(&("Enter".into(), "Edit this field")));
    // Esc and Ctrl-c cancel every prompt: one row, not four.
    assert_eq!(
        group(&sections, Section::Prompts, Some("Any prompt"))
            .iter()
            .filter(|(_, label)| *label == "Cancel")
            .count(),
        1
    );
    assert!(group(&sections, Section::Views, Some("This help")).contains(&("Esc/?/q".into(), "Close")));
}

#[test]
fn wrap_breaks_between_words() {
    assert_eq!(wrap("one two three", 7), ["one two", "three"]);
    assert_eq!(wrap("abcdefgh", 3), ["abc", "def", "gh"]);
    assert_eq!(wrap("", 5), [""]);
}

#[test]
fn a_wide_character_is_never_split_and_a_zero_width_is_a_line() {
    assert_eq!(wrap("日本語", 4), ["日本", "語"]);
    assert_eq!(wrap("a b", 0), ["a", "b"]);
}

#[test]
fn a_continued_title_says_so() {
    assert_eq!(title("Tasks", true), "Tasks (continued)");
    assert_eq!(title("Tasks", false), "Tasks");
    assert_eq!(to_u16(70_000), u16::MAX);
    assert_eq!(to_u16(12), 12);
}

#[test]
fn one_column_when_narrow_and_two_when_wide() {
    let narrow = layout(80, 24);
    assert_eq!(narrow.columns.len(), 1);
    assert_eq!(narrow.height, 22, "the whole height but the two bars");
    assert!(narrow.max_scroll() > 0, "help is taller than 24 rows");
    let wide = layout(140, 40);
    assert_eq!(wide.columns.len(), 2);
    assert!(wide.width <= 140);
}

/// However small the terminal, every label is on some line, whole:
/// wrapped, never cut.
#[test]
fn nothing_is_cut_off_at_any_width() {
    for width in [30, 50, 80, 100, 140, 200] {
        let page = layout(width, 24);
        let text: String = page
            .columns
            .iter()
            .flat_map(|(_, lines)| lines)
            .map(|line| match line {
                HelpLine::Row { label, .. } | HelpLine::Title(label) | HelpLine::Heading(label) | HelpLine::Note(label) => {
                    format!("{label} ")
                }
                HelpLine::Blank => String::new(),
            })
            .collect();
        // A word too long for a narrow column is broken, not dropped.
        let squeezed = |s: &str| s.split_whitespace().collect::<String>();
        let all = squeezed(&text);
        for (_, label) in rows() {
            assert!(all.contains(&squeezed(label)), "{label} at {width}");
        }
        for (column_width, lines) in &page.columns {
            for line in lines {
                let drawn = match line {
                    HelpLine::Row { keys, label } => INDENT + keys.width() + SPACER + label.width(),
                    HelpLine::Title(t) | HelpLine::Note(t) => 1 + t.width(),
                    HelpLine::Heading(t) => HEADING_INDENT + t.width(),
                    HelpLine::Blank => 0,
                };
                assert!(drawn <= usize::from(*column_width), "{line:?} at {width}");
            }
        }
    }
}

#[test]
fn a_tiny_terminal_still_gets_a_box() {
    let page = layout(1, 1);
    assert_eq!(page.columns.len(), 1);
    assert_eq!(page.visible, 0);
    assert_eq!(page.height, 2);
    assert!(page.width <= 1);
    assert_eq!(page.max_scroll(), page.rows);
    assert_eq!(page.page(), 1);
}

#[test]
fn wrapping_cuts_nothing_but_spaces() {
    for (text, width) in [("pay the rent", 3), ("a verylongword here", 4), ("", 5), ("one  two", 1)] {
        let lines = wrap(text, width);
        let joined: String = lines.concat().chars().filter(|c| *c != ' ').collect();
        let expected: String = text.chars().filter(|c| *c != ' ').collect();
        assert_eq!(joined, expected, "{text:?} at {width}");
        assert!(!lines.is_empty());
    }
}

#[test]
fn every_wrapped_line_fits_the_width() {
    for width in 1..12 {
        for line in wrap("one two three, and a longword-that-splits", width) {
            assert!(line.chars().count() <= width, "{line:?} at {width}");
        }
    }
    assert_eq!(wrap("abcdefghij", 4), ["abcd", "efgh", "ij"]);
}
