//! Where the TUI saves attachments: `[attachments] download_dir` in
//! config.toml, `~/Downloads` when it isn't set. A `~` at its start is
//! the home directory; anything else must be an absolute path.

use vstd::prelude::*;

use crate::attachments::{expand_home, expand_home_spec, is_absolute, opt_str};
use crate::text::{concat, str_eq};

verus! {

/// A config file that can't be read, and why.
#[derive(Debug)]
pub struct DownloadsError {
    pub path: String,
    pub message: String,
}

impl DownloadsError {
    /// The error as it is shown: the file, then what is wrong with it.
    pub fn describe(&self) -> (s: String)
        ensures
            s@ == self.path@ + ": "@ + self.message@,
    {
        let head = concat(self.path.as_str(), ": ");
        concat(head.as_str(), self.message.as_str())
    }
}

/// The directory a configured setting names, or why it can't be used.
pub open spec fn download_dir_spec(configured: Option<Seq<char>>, home: Option<Seq<char>>) -> Result<
    Seq<char>,
    Seq<char>,
> {
    let setting = match configured {
        Some(c) => c,
        None => "~/Downloads"@,
    };
    match expand_home_spec(setting, home) {
        None => Err("attachments.download_dir starts with ~, but HOME isn't set"@),
        Some(path) => if is_absolute(path) {
            Ok(path)
        } else {
            Err(
                "attachments.download_dir = \""@ + setting
                    + "\" must be an absolute path or start with ~/"@,
            )
        },
    }
}

/// The directory `configured` names, or `~/Downloads`.
pub fn download_dir(configured: Option<&str>, home: Option<&str>) -> (r: Result<String, String>)
    ensures
        match r {
            Ok(p) => download_dir_spec(opt_str(configured), opt_str(home)) == Ok::<
                Seq<char>,
                Seq<char>,
            >(p@),
            Err(e) => download_dir_spec(opt_str(configured), opt_str(home)) == Err::<
                Seq<char>,
                Seq<char>,
            >(e@),
        },
{
    let setting = match configured {
        Some(c) => c,
        None => "~/Downloads",
    };
    let path = match expand_home(setting, home) {
        Some(p) => p,
        None => return Err("attachments.download_dir starts with ~, but HOME isn't set".to_owned()),
    };
    let p = path.as_str();
    if !(p.unicode_len() > 0 && p.get_char(0) == '/') {
        let a = concat("attachments.download_dir = \"", setting);
        return Err(concat(a.as_str(), "\" must be an absolute path or start with ~/"));
    }
    Ok(path)
}

/// The `[attachments]` table of a config file, as far as the setting
/// reader looks at it.
#[derive(Debug)]
pub enum AttachmentsTable {
    /// The file has no `attachments` key.
    Absent,
    /// `attachments` is there but is not a table.
    NotATable,
    /// The table's keys in order, each with its value when that is a
    /// string.
    Entries(Vec<(String, Option<String>)>),
}

/// What a config file's text says of its table `key`: the table as
/// `toml_edit` reads the text, or the parse error's message. Named, not
/// spelled out.
pub uninterp spec fn toml_table(raw: Seq<char>, key: Seq<char>) -> Result<
    Option<Option<Seq<(Seq<char>, Option<Seq<char>>)>>>,
    Seq<char>,
>;

/// The plain values a read table stands for.
pub open spec fn table_view(table: AttachmentsTable) -> Option<
    Option<Seq<(Seq<char>, Option<Seq<char>>)>>,
> {
    match table {
        AttachmentsTable::Absent => None,
        AttachmentsTable::NotATable => Some(None),
        AttachmentsTable::Entries(entries) => Some(
            Some(
                Seq::new(
                    entries@.len(),
                    |i: int| (entries@[i].0@, opt_string_view(entries@[i].1)),
                ),
            ),
        ),
    }
}

/// The text of an optional owned string.
pub open spec fn opt_string_view(o: Option<String>) -> Option<Seq<char>> {
    match o {
        Some(s) => Some(s@),
        None => None,
    }
}

/// `toml_edit`'s `DocumentMut` parsed from `raw`, and its item `key`
/// read as a table-like: its keys in the table's order, each with
/// `Item::as_str` of its value. The contract says that the outcome is the
/// named [`toml_table`] of the text and the key, and nothing of how TOML
/// is read.
#[verifier::external_body]
fn parse_table(raw: &str, key: &str) -> (r: Result<AttachmentsTable, String>)
    ensures
        match r {
            Ok(table) => toml_table(raw@, key@) == Ok::<_, Seq<char>>(table_view(table)),
            Err(message) => toml_table(raw@, key@) == Err::<
                Option<Option<Seq<(Seq<char>, Option<Seq<char>>)>>>,
                _,
            >(message@),
        },
{
    let document: toml_edit::DocumentMut = match raw.parse() {
        Ok(document) => document,
        Err(error) => return Err(format!("{error}")),
    };
    let Some(item) = document.get(key) else { return Ok(AttachmentsTable::Absent) };
    let Some(table) = item.as_table_like() else { return Ok(AttachmentsTable::NotATable) };
    Ok(AttachmentsTable::Entries(
        table.iter().map(|(key, item)| (key.to_owned(), item.as_str().map(str::to_owned))).collect(),
    ))
}

/// The setting a table's entries give, or the first entry's fault: a
/// `download_dir` that isn't a string, or a key that isn't a setting.
pub open spec fn entries_setting(entries: Seq<(Seq<char>, Option<Seq<char>>)>) -> Result<
    Option<Seq<char>>,
    Seq<char>,
>
    decreases entries.len(),
{
    if entries.len() == 0 {
        Ok(None)
    } else {
        match entries_setting(entries.drop_last()) {
            Err(e) => Err(e),
            Ok(dir) => {
                let (key, value) = entries.last();
                if key == "download_dir"@ {
                    match value {
                        Some(v) => Ok(Some(v)),
                        None => Err(
                            "attachments.download_dir must be a string, such as \"~/Downloads\""@,
                        ),
                    }
                } else {
                    Err(
                        "attachments."@ + key
                            + " is not a setting; [attachments] takes download_dir"@,
                    )
                }
            },
        }
    }
}

/// What a config file's `[attachments]` sets, given what it says of the
/// table: nothing when there's no table, an error when it isn't one.
pub open spec fn setting_spec(
    table: Result<Option<Option<Seq<(Seq<char>, Option<Seq<char>>)>>>, Seq<char>>,
) -> Result<Option<Seq<char>>, Seq<char>> {
    match table {
        Err(e) => Err(e),
        Ok(None) => Ok(None),
        Ok(Some(None)) => Err("attachments must be a table: [attachments]"@),
        Ok(Some(Some(entries))) => entries_setting(entries),
    }
}

/// `[attachments] download_dir`, if set, from a read table.
pub fn setting_of(table: Result<AttachmentsTable, String>) -> (r: Result<Option<String>, String>)
    ensures
        match (r, table) {
            (_, Err(e)) => r == Err::<Option<String>, String>(e),
            (Ok(dir), Ok(t)) => setting_spec(Ok(table_view(t))) == Ok::<_, Seq<char>>(opt_string_view(dir)),
            (Err(e), Ok(t)) => setting_spec(Ok(table_view(t))) == Err::<Option<Seq<char>>, _>(e@),
        },
{
    let entries = match table {
        Err(e) => return Err(e),
        Ok(AttachmentsTable::Absent) => return Ok(None),
        Ok(AttachmentsTable::NotATable) => return Err("attachments must be a table: [attachments]".to_owned()),
        Ok(AttachmentsTable::Entries(entries)) => entries,
    };
    let ghost view = Seq::new(entries@.len(), |i: int| (entries@[i].0@, opt_string_view(entries@[i].1)));
    let mut dir: Option<String> = None;
    let mut i: usize = 0;
    while i < entries.len()
        invariant
            i <= entries.len(),
            table == Ok::<AttachmentsTable, String>(AttachmentsTable::Entries(entries)),
            view == Seq::new(entries@.len(), |i: int| (entries@[i].0@, opt_string_view(entries@[i].1))),
            entries_setting(view.subrange(0, i as int)) == Ok::<_, Seq<char>>(opt_string_view(dir)),
        decreases entries.len() - i,
    {
        assert(view.subrange(0, i + 1).drop_last() =~= view.subrange(0, i as int));
        let key = entries[i].0.as_str();
        assert(view.subrange(0, i + 1).last() == (key@, opt_string_view(entries@[i as int].1)));
        if str_eq(key, "download_dir") {
            match &entries[i].1 {
                Some(value) => {
                    dir = Some(value.clone());
                },
                None => {
                    proof {
                        assert(entries_setting(view.subrange(0, i + 1)) == Err::<Option<Seq<char>>, Seq<char>>(
                            "attachments.download_dir must be a string, such as \"~/Downloads\""@));
                        lemma_setting_stops(view, i as int + 1);
                    }
                    return Err("attachments.download_dir must be a string, such as \"~/Downloads\"".to_owned());
                },
            }
        } else {
            let a = concat("attachments.", key);
            let message = concat(a.as_str(), " is not a setting; [attachments] takes download_dir");
            proof {
                assert(entries_setting(view.subrange(0, i + 1)) == Err::<Option<Seq<char>>, Seq<char>>(message@));
                lemma_setting_stops(view, i as int + 1);
            }
            return Err(message);
        }
        i = i + 1;
    }
    assert(view.subrange(0, entries.len() as int) =~= view);
    Ok(dir)
}

/// Once an entry is at fault, the whole table is, with that fault.
proof fn lemma_setting_stops(entries: Seq<(Seq<char>, Option<Seq<char>>)>, n: int)
    requires
        0 <= n <= entries.len(),
        entries_setting(entries.subrange(0, n)) is Err,
    ensures
        entries_setting(entries) == entries_setting(entries.subrange(0, n)),
    decreases entries.len() - n,
{
    if n < entries.len() {
        assert(entries.subrange(0, n + 1).drop_last() =~= entries.subrange(0, n));
        lemma_setting_stops(entries, n + 1);
    } else {
        assert(entries.subrange(0, n) =~= entries);
    }
}

/// `[attachments] download_dir` in a config file's text, if set; the
/// message says what is wrong with the file otherwise.
pub fn read_setting(raw: &str) -> (r: Result<Option<String>, String>)
    ensures
        match r {
            Ok(dir) => setting_spec(toml_table(raw@, "attachments"@)) == Ok::<_, Seq<char>>(opt_string_view(dir)),
            Err(e) => setting_spec(toml_table(raw@, "attachments"@)) == Err::<Option<Seq<char>>, _>(e@),
        },
{
    setting_of(parse_table(raw, "attachments"))
}

} // verus!
