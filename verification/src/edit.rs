//! Editing a task's fields: what the editor writes back, and the edit
//! what is typed makes to a task's title, assignee or notes. Nothing is
//! sent for a value the task has already.

use vstd::prelude::*;

use crate::text::{char_uppercase, str_eq, to_uppercase_char, trim, trim_spec};

verus! {

/// `text` with its first character made uppercase, as
/// `char::to_uppercase` makes it (which may be more than one character).
pub open spec fn capitalised_spec(text: Seq<char>) -> Seq<char> {
    if text.len() == 0 {
        Seq::empty()
    } else {
        char_uppercase(text[0]) + text.drop_first()
    }
}

/// `text` with its first character made uppercase.
pub fn capitalised(text: &str) -> (s: String)
    ensures
        s@ == capitalised_spec(text@),
{
    let n = text.unicode_len();
    if n == 0 {
        return String::new();
    }
    let mut s = to_uppercase_char(text.get_char(0));
    let rest = text.substring_char(1, n);
    s.append(rest);
    assert(rest@ =~= text@.drop_first());
    s
}

/// Why a title can't be sent.
pub open spec fn empty_title_text() -> Seq<char> {
    "A title can't be empty"@
}

/// The edit typing `typed` over the title `current` makes: the title
/// without the spaces around it, nothing when that is the title already,
/// and an error when it leaves nothing.
pub open spec fn title_edit_spec(typed: Seq<char>, current: Seq<char>) -> Result<Option<Seq<char>>, Seq<char>> {
    let t = trim_spec(typed);
    if t.len() == 0 {
        Err(empty_title_text())
    } else if t == current {
        Ok(None)
    } else {
        Ok(Some(t))
    }
}

/// The title to send for `typed`, `None` when it is `current` already.
pub fn title_edit(typed: &str, current: &str) -> (r: Result<Option<String>, String>)
    ensures
        match r {
            Ok(Some(t)) => title_edit_spec(typed@, current@) == Ok::<Option<Seq<char>>, Seq<char>>(Some(t@)),
            Ok(None) => title_edit_spec(typed@, current@) == Ok::<Option<Seq<char>>, Seq<char>>(None),
            Err(why) => title_edit_spec(typed@, current@) == Err::<Option<Seq<char>>, Seq<char>>(why@),
        },
{
    let t = trim(typed);
    if t.unicode_len() == 0 {
        Err("A title can't be empty".to_string())
    } else if str_eq(t.as_str(), current) {
        Ok(None)
    } else {
        Ok(Some(t))
    }
}

/// What an assignee edit sends: `Some(None)` clears the assignee,
/// `Some(Some(name))` sets it, `None` sends nothing.
pub open spec fn assignee_edit_spec(typed: Seq<char>, current: Option<Seq<char>>) -> Option<Option<Seq<char>>> {
    let t = trim_spec(typed);
    if t.len() == 0 {
        match current {
            None => None,
            Some(_) => Some(None),
        }
    } else if current == Some(t) {
        None
    } else {
        Some(Some(t))
    }
}

pub open spec fn edit_view(e: Option<Option<String>>) -> Option<Option<Seq<char>>> {
    match e {
        None => None,
        Some(None) => Some(None),
        Some(Some(s)) => Some(Some(s@)),
    }
}

/// Assigning to `typed`, or clearing the assignee when it's empty;
/// nothing when that's what the task has.
pub fn assignee_edit(typed: &str, current: Option<&str>) -> (e: Option<Option<String>>)
    ensures
        edit_view(e) == assignee_edit_spec(
            typed@,
            match current {
                Some(c) => Some(c@),
                None => None,
            },
        ),
{
    let t = trim(typed);
    if t.unicode_len() == 0 {
        match current {
            None => None,
            Some(_) => Some(None),
        }
    } else {
        match current {
            Some(c) => if str_eq(t.as_str(), c) {
                None
            } else {
                Some(Some(t))
            },
            None => Some(Some(t)),
        }
    }
}

/// The notes to send for `typed` over the notes the task shows: the text
/// without the spaces around it, nothing when that is what it shows.
/// Notes left as they show are not sent, so html notes stay html.
pub open spec fn notes_edit_spec(typed: Seq<char>, shown: Seq<char>) -> Option<Seq<char>> {
    if trim_spec(typed) == shown {
        None
    } else {
        Some(trim_spec(typed))
    }
}

/// The notes to send, `None` when they are what the task shows.
pub fn notes_edit(typed: &str, shown: &str) -> (e: Option<String>)
    ensures
        match e {
            Some(t) => notes_edit_spec(typed@, shown@) == Some(t@),
            None => notes_edit_spec(typed@, shown@) is None,
        },
{
    let t = trim(typed);
    if str_eq(t.as_str(), shown) {
        None
    } else {
        Some(t)
    }
}

} // verus!
