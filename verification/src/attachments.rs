//! Where attachments go and how a typed path is read. The TUI sends the
//! daemon paths, never bytes, so a path typed relative to where the TUI
//! started, or from `~`, is made absolute first.
//!
//! Paths are Unix paths, held as text: a path is absolute when it starts
//! with `/`, and adding a part to one works as `PathBuf::push` does.

use vstd::prelude::*;

use crate::text::{concat, push_char, str_eq};

verus! {

/// Where files go and how typed paths are read, fixed when the TUI
/// starts, so reading a key does no I/O for them.
#[derive(Clone, Debug, PartialEq, Eq)]
pub struct Places {
    /// The download directory, as its real path.
    pub download_dir: String,
    /// Where the TUI was started: a relative path is read from here.
    pub cwd: String,
    /// `~` in a typed path.
    pub home: Option<String>,
}

/// The text of an optional string.
pub open spec fn opt_str(o: Option<&str>) -> Option<Seq<char>> {
    match o {
        Some(s) => Some(s@),
        None => None,
    }
}

/// The text of an optional owned string.
pub open spec fn opt_string(o: Option<String>) -> Option<Seq<char>> {
    match o {
        Some(s) => Some(s@),
        None => None,
    }
}

/// Whether a path is absolute.
pub open spec fn is_absolute(path: Seq<char>) -> bool {
    path.len() > 0 && path[0] == '/'
}

/// `base` with `part` added, as `PathBuf::push` adds it: an absolute part
/// replaces the path; otherwise a `/` goes between them unless `base` is
/// empty or already ends with one.
pub open spec fn push_path_spec(base: Seq<char>, part: Seq<char>) -> Seq<char> {
    if is_absolute(part) {
        part
    } else if base.len() == 0 || base.last() == '/' {
        base + part
    } else {
        base + "/"@ + part
    }
}

/// `path` split at each `/`, as `str::split('/')` splits it.
pub open spec fn split_slash(path: Seq<char>) -> Seq<Seq<char>>
    decreases path.len(),
{
    if path.len() == 0 {
        seq![Seq::empty()]
    } else {
        let before = split_slash(path.drop_last());
        if path.last() == '/' {
            before.push(Seq::empty())
        } else {
            before.update(before.len() - 1, before.last().push(path.last()))
        }
    }
}

/// Whether a piece of a path names something: not empty, and not `.`.
pub open spec fn names_something(piece: Seq<char>) -> bool {
    piece.len() > 0 && piece != "."@
}

/// `start` with each piece of `pieces` that names something added.
pub open spec fn push_pieces(start: Seq<char>, pieces: Seq<Seq<char>>) -> Seq<char>
    decreases pieces.len(),
{
    if pieces.len() == 0 {
        start
    } else {
        let before = push_pieces(start, pieces.drop_last());
        if names_something(pieces.last()) {
            push_path_spec(before, pieces.last())
        } else {
            before
        }
    }
}

/// `base` then `relative`, with `.` dropped, so a path reads plainly: each
/// part of `relative` is added in turn (from `/` when `relative` is
/// absolute).
pub open spec fn join_clean_spec(base: Seq<char>, relative: Seq<char>) -> Seq<char> {
    push_pieces(
        if is_absolute(relative) {
            "/"@
        } else {
            base
        },
        split_slash(relative),
    )
}

/// `s` without its leading `/`s.
pub open spec fn trim_slashes(s: Seq<char>) -> Seq<char>
    decreases s.len(),
{
    if s.len() > 0 && s[0] == '/' {
        trim_slashes(s.drop_first())
    } else {
        s
    }
}

/// `path` with a leading `~` (alone, or `~/…`) as `home`; `None` when it
/// has one and there's no home. `~user` is left as it is.
pub open spec fn expand_home_spec(path: Seq<char>, home: Option<Seq<char>>) -> Option<Seq<char>> {
    let rest = path.drop_first();
    if path.len() > 0 && path[0] == '~' && (rest.len() == 0 || rest[0] == '/') {
        match home {
            Some(h) => Some(push_path_spec(h, trim_slashes(rest))),
            None => None,
        }
    } else {
        Some(path)
    }
}

/// Add `part` to `base`, as `PathBuf::push` does.
pub fn push_path(base: &mut String, part: &str)
    ensures
        final(base)@ == push_path_spec(old(base)@, part@),
{
    let n = base.as_str().unicode_len();
    if part.unicode_len() > 0 && part.get_char(0) == '/' {
        *base = part.to_owned();
    } else if n == 0 || base.as_str().get_char(n - 1) == '/' {
        base.append(part);
    } else {
        push_char(base, '/');
        base.append(part);
        assert(base@ =~= old(base)@ + "/"@ + part@) by {
            reveal_strlit("/");
        }
    }
}

/// `s` without its leading `/`s.
fn trim_leading_slashes(s: &str) -> (t: &str)
    ensures
        t@ == trim_slashes(s@),
{
    let n = s.unicode_len();
    let mut i: usize = 0;
    assert(s@.subrange(0, n as int) =~= s@);
    while i < n && s.get_char(i) == '/'
        invariant
            n == s@.len(),
            i <= n,
            trim_slashes(s@) == trim_slashes(s@.subrange(i as int, n as int)),
        decreases n - i,
    {
        assert(s@.subrange(i + 1, n as int) =~= s@.subrange(i as int, n as int).drop_first());
        i = i + 1;
    }
    s.substring_char(i, n)
}

/// `path` with a leading `~` (alone, or `~/…`) as `home`; `None` when it
/// has one and there's no home. `~user` is left as it is.
pub fn expand_home(path: &str, home: Option<&str>) -> (r: Option<String>)
    ensures
        match r {
            Some(p) => expand_home_spec(path@, opt_str(home)) == Some(p@),
            None => expand_home_spec(path@, opt_str(home)) is None,
        },
{
    let n = path.unicode_len();
    if n > 0 && path.get_char(0) == '~' {
        let rest = path.substring_char(1, n);
        assert(rest@ =~= path@.drop_first());
        if rest.unicode_len() == 0 || rest.get_char(0) == '/' {
            return match home {
                Some(h) => {
                    let mut joined = h.to_owned();
                    push_path(&mut joined, trim_leading_slashes(rest));
                    Some(joined)
                },
                None => None,
            };
        }
    }
    Some(path.to_owned())
}

/// `base` then `relative`, with `.` dropped, so a path reads plainly.
pub fn join_clean(base: &str, relative: &str) -> (joined: String)
    ensures
        joined@ == join_clean_spec(base@, relative@),
{
    let n = relative.unicode_len();
    let absolute = n > 0 && relative.get_char(0) == '/';
    let mut joined = if absolute {
        "/".to_owned()
    } else {
        base.to_owned()
    };
    let ghost start = joined@;
    let mut piece = String::new();
    let mut i: usize = 0;
    while i < n
        invariant
            n == relative@.len(),
            i <= n,
            split_slash(relative@.take(i as int)).len() > 0,
            joined@ == push_pieces(start, split_slash(relative@.take(i as int)).drop_last()),
            piece@ == split_slash(relative@.take(i as int)).last(),
        decreases n - i,
    {
        let c = relative.get_char(i);
        let ghost pieces = split_slash(relative@.take(i as int));
        assert(relative@.take(i + 1).drop_last() =~= relative@.take(i as int));
        if c == '/' {
            if piece.as_str().unicode_len() > 0 && !str_eq(piece.as_str(), ".") {
                push_path(&mut joined, piece.as_str());
            }
            piece = String::new();
            assert(split_slash(relative@.take(i + 1)).drop_last() =~= pieces);
            assert(piece@ =~= Seq::<char>::empty());
        } else {
            push_char(&mut piece, c);
            assert(split_slash(relative@.take(i + 1)).drop_last() =~= pieces.drop_last());
        }
        i = i + 1;
    }
    let ghost pieces = split_slash(relative@.take(n as int));
    if piece.as_str().unicode_len() > 0 && !str_eq(piece.as_str(), ".") {
        push_path(&mut joined, piece.as_str());
    }
    assert(relative@.take(n as int) =~= relative@);
    assert(pieces.drop_last().push(pieces.last()) =~= pieces);
    joined
}

/// What reading a typed path gives: the absolute path, or why it can't
/// be read.
pub open spec fn resolve_path_spec(typed: Seq<char>, places: Places) -> Result<
    Seq<char>,
    Seq<char>,
> {
    match expand_home_spec(typed, opt_string(places.home)) {
        None => Err("~ can't be read: HOME isn't set"@),
        Some(expanded) => if is_absolute(expanded) {
            Ok(expanded)
        } else if !is_absolute(places.cwd@) {
            Err("give the full path: the TUI's directory isn't known"@)
        } else {
            Ok(join_clean_spec(places.cwd@, expanded))
        },
    }
}

/// A typed path as an absolute one: `~` is the home directory, and a
/// relative path is read from where the TUI started.
pub fn resolve_path(typed: &str, places: &Places) -> (r: Result<String, String>)
    ensures
        match r {
            Ok(p) => resolve_path_spec(typed@, *places) == Ok::<Seq<char>, Seq<char>>(p@),
            Err(e) => resolve_path_spec(typed@, *places) == Err::<Seq<char>, Seq<char>>(e@),
        },
{
    let home = match &places.home {
        Some(h) => Some(h.as_str()),
        None => None,
    };
    let expanded = match expand_home(typed, home) {
        Some(p) => p,
        None => return Err("~ can't be read: HOME isn't set".to_owned()),
    };
    let e = expanded.as_str();
    if e.unicode_len() > 0 && e.get_char(0) == '/' {
        return Ok(expanded);
    }
    let cwd = places.cwd.as_str();
    if !(cwd.unicode_len() > 0 && cwd.get_char(0) == '/') {
        return Err("give the full path: the TUI's directory isn't known".to_owned());
    }
    Ok(join_clean(cwd, e))
}

/// Adding names to an absolute path keeps it absolute.
proof fn lemma_push_pieces_absolute(start: Seq<char>, pieces: Seq<Seq<char>>)
    requires
        is_absolute(start),
    ensures
        is_absolute(push_pieces(start, pieces)),
    decreases pieces.len(),
{
    if pieces.len() > 0 {
        lemma_push_pieces_absolute(start, pieces.drop_last());
        let before = push_pieces(start, pieces.drop_last());
        let part = pieces.last();
        if !is_absolute(part) {
            if before.len() == 0 || before.last() == '/' {
                assert((before + part)[0] == before[0]);
            } else {
                assert((before + "/"@ + part)[0] == before[0]);
            }
        }
    }
}

/// A typed path that can be read is read as an absolute one.
pub proof fn law_resolved_path_is_absolute(typed: Seq<char>, places: Places)
    ensures
        resolve_path_spec(typed, places) matches Ok(p) ==> is_absolute(p),
{
    if let Some(expanded) = expand_home_spec(typed, opt_string(places.home)) {
        if !is_absolute(expanded) && is_absolute(places.cwd@) {
            lemma_push_pieces_absolute(places.cwd@, split_slash(expanded));
        }
    }
}

/// The pieces of `pieces` that name something, in order.
pub open spec fn named_pieces(pieces: Seq<Seq<char>>) -> Seq<Seq<char>>
    decreases pieces.len(),
{
    if pieces.len() == 0 {
        Seq::empty()
    } else {
        let before = named_pieces(pieces.drop_last());
        if names_something(pieces.last()) {
            before.push(pieces.last())
        } else {
            before
        }
    }
}

/// The names a path is made of, as `Path::components` reads an absolute
/// Unix path after its root: repeated `/`s and `.` name nothing.
pub open spec fn names_of(path: Seq<char>) -> Seq<Seq<char>> {
    named_pieces(split_slash(path))
}

/// The names `path` is made of.
pub fn path_names(path: &str) -> (names: Vec<String>)
    ensures
        names@.map_values(|n: String| n@) == names_of(path@),
{
    let n = path.unicode_len();
    let mut names: Vec<String> = Vec::new();
    let mut piece = String::new();
    let mut i: usize = 0;
    while i < n
        invariant
            n == path@.len(),
            i <= n,
            split_slash(path@.take(i as int)).len() > 0,
            names@.map_values(|n: String| n@) == named_pieces(split_slash(path@.take(i as int)).drop_last()),
            piece@ == split_slash(path@.take(i as int)).last(),
        decreases n - i,
    {
        let c = path.get_char(i);
        let ghost pieces = split_slash(path@.take(i as int));
        assert(path@.take(i + 1).drop_last() =~= path@.take(i as int));
        if c == '/' {
            if piece.as_str().unicode_len() > 0 && !str_eq(piece.as_str(), ".") {
                let ghost before = names@;
                names.push(piece);
                assert(names@.map_values(|n: String| n@) =~= before.map_values(|n: String| n@).push(pieces.last()));
            }
            piece = String::new();
            assert(split_slash(path@.take(i + 1)).drop_last() =~= pieces);
            assert(piece@ =~= Seq::<char>::empty());
        } else {
            push_char(&mut piece, c);
            assert(split_slash(path@.take(i + 1)).drop_last() =~= pieces.drop_last());
        }
        i = i + 1;
    }
    let ghost pieces = split_slash(path@.take(n as int));
    assert(path@.take(n as int) =~= path@);
    assert(pieces.drop_last().push(pieces.last()) =~= pieces);
    if piece.as_str().unicode_len() > 0 && !str_eq(piece.as_str(), ".") {
        let ghost before = names@;
        names.push(piece);
        assert(names@.map_values(|n: String| n@) =~= before.map_values(|n: String| n@).push(pieces.last()));
    }
    names
}

/// Whether the file at `file` is directly in the directory `dir`: both
/// absolute, and `file` names one thing more than `dir` after the same
/// names, as `file`'s parent equals `dir` for `Path`.
pub open spec fn in_dir_spec(file: Seq<char>, dir: Seq<char>) -> bool {
    &&& is_absolute(file)
    &&& is_absolute(dir)
    &&& names_of(file).len() > 0
    &&& names_of(file).drop_last() == names_of(dir)
}

/// Whether `file` is directly in `dir`.
pub fn in_dir(file: &str, dir: &str) -> (b: bool)
    ensures
        b == in_dir_spec(file@, dir@),
{
    let absolute = file.unicode_len() > 0 && file.get_char(0) == '/' && dir.unicode_len() > 0
        && dir.get_char(0) == '/';
    if !absolute {
        return false;
    }
    let names = path_names(file);
    let wanted = path_names(dir);
    let ghost fv = names@.map_values(|n: String| n@);
    let ghost dv = wanted@.map_values(|n: String| n@);
    if names.len() == 0 || names.len() - 1 != wanted.len() {
        proof {
            if names.len() > 0 {
                assert(fv.drop_last().len() != dv.len());
            }
        }
        return false;
    }
    let mut i: usize = 0;
    while i < wanted.len()
        invariant
            i <= wanted.len(),
            names.len() == wanted.len() + 1,
            fv == names@.map_values(|n: String| n@),
            dv == wanted@.map_values(|n: String| n@),
            fv == names_of(file@),
            dv == names_of(dir@),
            is_absolute(file@) && is_absolute(dir@),
            forall|j: int| 0 <= j < i ==> fv[j] == #[trigger] dv[j],
        decreases wanted.len() - i,
    {
        if !str_eq(names[i].as_str(), wanted[i].as_str()) {
            assert(fv.drop_last()[i as int] != dv[i as int]);
            return false;
        }
        i = i + 1;
    }
    assert(fv.drop_last() =~= dv);
    true
}

/// What the daemon answered a download with: the path of the first file
/// it saved (`None` for an answer with no file), or why it couldn't.
pub enum DownloadAnswer {
    Saved(Option<String>),
    Failed(String),
}

/// What the TUI does with a download's answer.
#[derive(Debug, PartialEq, Eq)]
pub enum Downloaded {
    /// Say `banner`, and open the file at `path` with the system's opener.
    Open { path: String, banner: String },
    /// Say what went wrong, and open nothing.
    Error(String),
}

pub open spec fn downloaded_spec(answer: DownloadAnswer, dir: Seq<char>) -> (Option<Seq<char>>, Seq<char>) {
    match answer {
        DownloadAnswer::Failed(why) => (None, "Couldn't download it: "@ + why@),
        DownloadAnswer::Saved(None) => (None, "The daemon sent an unexpected answer"@),
        DownloadAnswer::Saved(Some(p)) => if in_dir_spec(p@, dir) {
            (Some(p@), "Saved "@ + p@)
        } else {
            (None, "Saved "@ + p@ + ", but not opening it: it isn't in the download directory"@)
        },
    }
}

pub open spec fn downloaded_view(d: Downloaded) -> (Option<Seq<char>>, Seq<char>) {
    match d {
        Downloaded::Open { path, banner } => (Some(path@), banner@),
        Downloaded::Error(text) => (None, text@),
    }
}

/// The answer to a download: the file opens only when the daemon says it
/// wrote it in the download directory; anything else is said, not opened.
pub fn downloaded(answer: DownloadAnswer, download_dir: &str) -> (d: Downloaded)
    ensures
        downloaded_view(d) == downloaded_spec(answer, download_dir@),
{
    match answer {
        DownloadAnswer::Failed(why) => Downloaded::Error(concat("Couldn't download it: ", why.as_str())),
        DownloadAnswer::Saved(None) => Downloaded::Error("The daemon sent an unexpected answer".to_string()),
        DownloadAnswer::Saved(Some(path)) => {
            let saved = concat("Saved ", path.as_str());
            if in_dir(path.as_str(), download_dir) {
                Downloaded::Open { path, banner: saved }
            } else {
                Downloaded::Error(concat(saved.as_str(), ", but not opening it: it isn't in the download directory"))
            }
        },
    }
}

/// What Enter in the path prompt does.
#[derive(Debug, PartialEq, Eq)]
pub enum AttachTyped {
    /// Nothing was typed: the prompt closes.
    Close,
    /// The path can't be read: the prompt stays, saying why.
    Unreadable(String),
    /// Attach the file at this absolute path.
    Attach(String),
}

/// Enter in the path prompt with `typed` in it: nothing typed closes it,
/// else the path is read as `resolve_path` reads it.
pub fn attach_typed(typed: &str, places: &Places) -> (r: AttachTyped)
    ensures
        ({
            let t = crate::text::trim_spec(typed@);
            match r {
                AttachTyped::Close => t.len() == 0,
                AttachTyped::Unreadable(why) => t.len() > 0
                    && resolve_path_spec(t, *places) == Err::<Seq<char>, Seq<char>>(why@),
                AttachTyped::Attach(path) => t.len() > 0
                    && resolve_path_spec(t, *places) == Ok::<Seq<char>, Seq<char>>(path@),
            }
        }),
{
    let t = crate::text::trim(typed);
    if t.unicode_len() == 0 {
        return AttachTyped::Close;
    }
    match resolve_path(t.as_str(), places) {
        Ok(path) => AttachTyped::Attach(path),
        Err(why) => AttachTyped::Unreadable(why),
    }
}

} // verus!
