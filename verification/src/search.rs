//! Finding tasks by the words in them: the FTS5 expression a user's query
//! becomes, and the one-line snippet a match is shown with.
//!
//! Queries use FTS5's syntax (words, `"phrases"`, `prefix*`, `AND`, `OR`,
//! `NOT`, parentheses), but every word is quoted before FTS5 sees it, so
//! punctuation in a word (`e-mail`, `don't`, `v1.2`) is searched for as
//! text instead of failing as syntax. A query with no operators is all its
//! words ANDed.

use vstd::prelude::*;
use vstd::string::*;

use crate::ops::StoreError;
use crate::views::condition_spec;
use crate::text::{
    alphanumeric_char, chars_of, concat, debug_quoted, debug_str, is_alphanumeric, is_whitespace, push_char, str_eq, string_of_range,
    whitespace_char,
};

verus! {

/// Which tasks a search considers by status.
#[derive(Clone, Copy, Debug, PartialEq, Eq, Structural)]
pub enum StatusFilter {
    /// Not completed.
    Open,
    Completed,
    All,
}

impl StatusFilter {
    /// `Open`, the filter a search has unless asked otherwise.
    pub fn default_filter() -> (f: StatusFilter)
        ensures
            f == StatusFilter::Open,
    {
        StatusFilter::Open
    }
}

/// A search of the cached tasks.
pub struct TaskSearch<'a> {
    /// In FTS5's query syntax; see the module docs.
    pub query: &'a str,
    /// Only this list's tasks.
    pub list_local_id: Option<&'a str>,
    pub status: StatusFilter,
    /// At most this many, best first; `None` is every match.
    pub limit: Option<u32>,
}

/// The condition a status filter adds to the search's SQL.
pub open spec fn status_condition_spec(status: StatusFilter) -> Seq<char> {
    match status {
        StatusFilter::Open => "AND tasks.status <> 'completed'"@,
        StatusFilter::Completed => "AND tasks.status = 'completed'"@,
        StatusFilter::All => ""@,
    }
}

/// The condition `status` adds to the search's SQL.
pub fn status_condition(status: StatusFilter) -> (s: &'static str)
    ensures
        s@ == status_condition_spec(status),
{
    match status {
        StatusFilter::Open => "AND tasks.status <> 'completed'",
        StatusFilter::Completed => "AND tasks.status = 'completed'",
        StatusFilter::All => "",
    }
}

/// The `LIMIT` the search binds: `-1`, SQLite's "no limit", for none.
pub fn limit_bound(limit: Option<u32>) -> (n: i64)
    ensures
        n == match limit {
            Some(l) => l as int,
            None => -1,
        },
{
    match limit {
        Some(l) => l as i64,
        None => -1,
    }
}

// ---------------------------------------------------------------------
// Words of a string.

/// `s` with its trailing whitespace removed, as `str::trim_end` gives.
pub open spec fn trim_end_spec(s: Seq<char>) -> Seq<char>
    decreases s.len(),
{
    if s.len() > 0 && whitespace_char(s.last()) {
        trim_end_spec(s.drop_last())
    } else {
        s
    }
}

/// The words of `s[i..]`, given the word `current` being read and the
/// words `done` before it, as `str::split_whitespace` finds them: the
/// runs of characters between whitespace.
pub open spec fn split_ws_from(s: Seq<char>, i: int, current: Seq<char>, done: Seq<Seq<char>>) -> Seq<Seq<char>>
    decreases s.len() - i,
{
    if i >= s.len() {
        if current.len() > 0 { done.push(current) } else { done }
    } else if whitespace_char(s[i]) {
        split_ws_from(s, i + 1, Seq::empty(), if current.len() > 0 { done.push(current) } else { done })
    } else {
        split_ws_from(s, i + 1, current.push(s[i]), done)
    }
}

/// The words of `s`: its runs of characters between whitespace.
pub open spec fn split_ws(s: Seq<char>) -> Seq<Seq<char>> {
    split_ws_from(s, 0, Seq::empty(), Seq::empty())
}

/// `parts` one after another with `sep` between each two.
pub open spec fn join_spec(parts: Seq<Seq<char>>, sep: Seq<char>) -> Seq<char>
    decreases parts.len(),
{
    if parts.len() == 0 {
        Seq::empty()
    } else if parts.len() == 1 {
        parts[0]
    } else {
        join_spec(parts.drop_last(), sep) + sep + parts.last()
    }
}

/// The views of `v`'s strings.
pub open spec fn strings_view(v: Seq<String>) -> Seq<Seq<char>> {
    v.map_values(|s: String| s@)
}

/// `parts` joined by `sep`.
pub fn join(parts: &Vec<String>, sep: &str) -> (s: String)
    ensures
        s@ == join_spec(strings_view(parts@), sep@),
{
    let mut s = String::new();
    let mut i: usize = 0;
    while i < parts.len()
        invariant
            i <= parts@.len(),
            s@ == join_spec(strings_view(parts@.subrange(0, i as int)), sep@),
        decreases parts@.len() - i,
    {
        let ghost before = strings_view(parts@.subrange(0, i as int));
        if i > 0 {
            s.append(sep);
        }
        s.append(parts[i].as_str());
        let ghost after = strings_view(parts@.subrange(0, i + 1));
        assert(after.drop_last() =~= before);
        assert(after.last() == parts@[i as int]@);
        i = i + 1;
    }
    assert(parts@.subrange(0, parts@.len() as int) =~= parts@);
    s
}

/// The words of `chars`, as strings, and how they relate to its view.
pub fn split_whitespace(chars: &Vec<char>) -> (words: Vec<String>)
    ensures
        strings_view(words@) == split_ws(chars@),
{
    let mut words: Vec<String> = Vec::new();
    let mut current = String::new();
    let mut i: usize = 0;
    assert(strings_view(words@) =~= Seq::<Seq<char>>::empty());
    while i < chars.len()
        invariant
            i <= chars@.len(),
            split_ws_from(chars@, i as int, current@, strings_view(words@)) == split_ws(chars@),
        decreases chars@.len() - i,
    {
        let c = chars[i];
        if is_whitespace(c) {
            if current.unicode_len() > 0 {
                let ghost w = words@;
                words.push(current);
                assert(strings_view(words@) =~= strings_view(w).push(current@));
                current = String::new();
            } else {
                current = String::new();
            }
            assert(current@ =~= Seq::<char>::empty());
        } else {
            push_char(&mut current, c);
        }
        i = i + 1;
    }
    if current.unicode_len() > 0 {
        let ghost w = words@;
        words.push(current);
        assert(strings_view(words@) =~= strings_view(w).push(current@));
    }
    words
}

/// A body's snippet can span lines; a snippet is one: its words joined by
/// single spaces.
pub fn tidy_snippet(raw: &str) -> (s: String)
    ensures
        s@ == join_spec(split_ws(raw@), " "@),
{
    let chars = chars_of(raw);
    let words = split_whitespace(&chars);
    join(&words, " ")
}

/// `text` without its trailing whitespace.
fn trim_end(chars: &Vec<char>) -> (n: usize)
    ensures
        n <= chars@.len(),
        chars@.subrange(0, n as int) == trim_end_spec(chars@),
{
    let mut n = chars.len();
    assert(chars@.subrange(0, n as int) =~= chars@);
    while n > 0 && is_whitespace(chars[n - 1])
        invariant
            n <= chars@.len(),
            trim_end_spec(chars@.subrange(0, n as int)) == trim_end_spec(chars@),
        decreases n,
    {
        assert(chars@.subrange(0, n as int).drop_last() =~= chars@.subrange(0, n - 1));
        n = n - 1;
    }
    n
}

/// Whether `word` is one of FTS5's operators.
pub open spec fn is_operator_word(word: Seq<char>) -> bool {
    word == "AND"@ || word == "OR"@ || word == "NOT"@
}

/// The filter as typed, as a search: the word being typed matches as a
/// prefix, so the list narrows with each key.
pub open spec fn search_query_spec(text: Seq<char>) -> Seq<char> {
    let trimmed = trim_end_spec(text);
    let words = split_ws(trimmed);
    let last = if words.len() > 0 { words.last() } else { Seq::empty() };
    if trimmed.len() == text.len() && !is_operator_word(last) && last.len() > 0
        && alphanumeric_char(last.last()) && last[0] != '"' {
        trimmed.push('*')
    } else {
        trimmed
    }
}

/// Whether `s` is exactly `AND`, `OR` or `NOT`.
fn operator_word(s: &str) -> (b: bool)
    ensures
        b == is_operator_word(s@),
{
    str_eq(s, "AND") || str_eq(s, "OR") || str_eq(s, "NOT")
}

/// The filter as typed, as a search: the word being typed matches as a
/// prefix, so the list narrows with each key. A word already ending in
/// `*` or a closing quote, or an operator, is left as it is.
pub fn search_query(text: &str) -> (q: String)
    ensures
        q@ == search_query_spec(text@),
{
    let chars = chars_of(text);
    let n = trim_end(&chars);
    let trimmed = string_of_range(&chars, 0, n);
    let typing = n == chars.len();
    let trimmed_chars = chars_of(trimmed.as_str());
    let words = split_whitespace(&trimmed_chars);
    let last = if words.len() > 0 { words[words.len() - 1].clone() } else { String::new() };
    proof {
        if words@.len() > 0 {
            assert(strings_view(words@).last() == words@.last()@);
        }
    }
    let is_operator = operator_word(last.as_str());
    let k = last.unicode_len();
    let ends_alnum = k > 0 && is_alphanumeric(last.as_str().get_char(k - 1));
    let quoted = k > 0 && last.as_str().get_char(0) == '"';
    if typing && !is_operator && ends_alnum && !quoted {
        let mut q = trimmed;
        push_char(&mut q, '*');
        q
    } else {
        trimmed
    }
}

// ---------------------------------------------------------------------
// The FTS5 expression.

/// Whether `part` begins an operand: a parenthesis opening or a quoted
/// phrase.
pub open spec fn starts_operand(part: Seq<char>) -> bool {
    part == "("@ || (part.len() > 0 && part[0] == '"')
}

/// Whether `part` ends an operand: a parenthesis closing or a quoted
/// phrase.
pub open spec fn ends_operand(part: Seq<char>) -> bool {
    part == ")"@ || (part.len() > 0 && part[0] == '"')
}

/// `parts` with `part` added, and an explicit `AND` between two operands:
/// FTS5 ANDs adjacent phrases by itself, but not a phrase and a
/// parenthesis, as in `milk (eggs OR bread)`.
pub open spec fn push_part(parts: Seq<Seq<char>>, part: Seq<char>) -> Seq<Seq<char>> {
    if starts_operand(part) && parts.len() > 0 && ends_operand(parts.last()) {
        parts.push("AND"@).push(part)
    } else {
        parts.push(part)
    }
}

/// Whether `c` ends a word of the query.
pub open spec fn breaks_word(c: char) -> bool {
    whitespace_char(c) || c == '(' || c == ')' || c == '"'
}

/// `w` without the `*`s at its end.
pub open spec fn strip_stars(w: Seq<char>) -> Seq<char>
    decreases w.len(),
{
    if w.len() > 0 && w.last() == '*' {
        strip_stars(w.drop_last())
    } else {
        w
    }
}

/// Whether `s` holds a letter or digit.
pub open spec fn has_alphanumeric(s: Seq<char>) -> bool {
    exists|i: int| 0 <= i < s.len() && alphanumeric_char(#[trigger] s[i])
}

/// `s` between double quotes.
pub open spec fn quoted(s: Seq<char>) -> Seq<char> {
    seq!['"'] + s + seq!['"']
}

/// What reading the query has on hand at a point.
pub enum ScanMode {
    /// Between terms.
    Between,
    /// Inside a word, read so far.
    Word(Seq<char>),
    /// Inside a quoted phrase, with what's been read of it (a `""` kept
    /// doubled, a literal quote to FTS5).
    Phrase(Seq<char>),
    /// Just past a phrase's closing quote.
    AfterPhrase(Seq<char>),
}

/// How far a mode is from `Between` without reading a character.
pub open spec fn mode_rank(mode: ScanMode) -> int {
    match mode {
        ScanMode::Between => 0,
        _ => 1,
    }
}

/// A finished word: an operator as it is; a word with no letter or digit
/// dropped, since FTS5's tokenizer would find nothing in it; any other
/// word quoted, with a trailing `*` kept outside the quotes.
pub open spec fn finish_word(w: Seq<char>, parts: Seq<Seq<char>>, terms: nat) -> (Seq<Seq<char>>, nat) {
    if is_operator_word(w) {
        (push_part(parts, w), terms)
    } else if !has_alphanumeric(strip_stars(w)) {
        (parts, terms)
    } else {
        let stem = strip_stars(w);
        let prefix = if stem.len() < w.len() { seq!['*'] } else { Seq::empty() };
        (push_part(parts, quoted(stem) + prefix), terms + 1)
    }
}

/// The parts and term count the query `q` gives from `i` on in `mode`,
/// having given `parts` and `terms` so far; `None` when a quoted phrase
/// isn't closed.
pub open spec fn scan(q: Seq<char>, i: int, mode: ScanMode, parts: Seq<Seq<char>>, terms: nat) -> Option<(Seq<Seq<char>>, nat)>
    decreases q.len() - i, mode_rank(mode),
{
    if i < 0 {
        None
    } else {
        match mode {
            ScanMode::Between => {
                if i >= q.len() {
                    Some((parts, terms))
                } else if whitespace_char(q[i]) {
                    scan(q, i + 1, ScanMode::Between, parts, terms)
                } else if q[i] == '(' || q[i] == ')' {
                    scan(q, i + 1, ScanMode::Between, push_part(parts, seq![q[i]]), terms)
                } else if q[i] == '"' {
                    scan(q, i + 1, ScanMode::Phrase(Seq::empty()), parts, terms)
                } else {
                    scan(q, i + 1, ScanMode::Word(seq![q[i]]), parts, terms)
                }
            },
            ScanMode::Word(w) => {
                if i < q.len() && !breaks_word(q[i]) {
                    scan(q, i + 1, ScanMode::Word(w.push(q[i])), parts, terms)
                } else {
                    let (p, t) = finish_word(w, parts, terms);
                    scan(q, i, ScanMode::Between, p, t)
                }
            },
            ScanMode::Phrase(acc) => {
                if i >= q.len() {
                    None
                } else if q[i] == '"' {
                    if i + 1 < q.len() && q[i + 1] == '"' {
                        scan(q, i + 2, ScanMode::Phrase(acc + seq!['"', '"']), parts, terms)
                    } else {
                        scan(q, i + 1, ScanMode::AfterPhrase(acc), parts, terms)
                    }
                } else {
                    scan(q, i + 1, ScanMode::Phrase(acc.push(q[i])), parts, terms)
                }
            },
            ScanMode::AfterPhrase(acc) => {
                if i < q.len() && q[i] == '*' {
                    scan(q, i + 1, ScanMode::Between, push_part(parts, quoted(acc).push('*')), terms + 1)
                } else {
                    scan(q, i, ScanMode::Between, push_part(parts, quoted(acc)), terms + 1)
                }
            },
        }
    }
}

/// The FTS5 expression for a user's query, or why there is none: each
/// word quoted (a trailing `*` kept outside the quotes), quoted phrases,
/// operators and parentheses as they are, and `AND` between operands
/// with no operator. FTS5 still judges the structure, such as `OR` with
/// nothing before it.
pub open spec fn match_expression_spec(q: Seq<char>) -> Result<Seq<char>, Seq<char>> {
    match scan(q, 0, ScanMode::Between, Seq::empty(), 0) {
        None => Err("a quoted phrase isn't closed: add the closing \""@),
        Some((parts, terms)) => if terms == 0 {
            Err(debug_quoted(q) + " has no words to search for"@)
        } else {
            Ok(join_spec(parts, " "@))
        },
    }
}

/// Whether `s` begins with a double quote.
fn starts_with_quote(s: &String) -> (b: bool)
    ensures
        b == (s@.len() > 0 && s@[0] == '"'),
{
    s.unicode_len() > 0 && s.as_str().get_char(0) == '"'
}

/// Add `part`, with an explicit `AND` between two operands: FTS5 ANDs
/// adjacent phrases by itself, but not a phrase and a parenthesis, as in
/// `milk (eggs OR bread)`.
pub fn push(parts: &mut Vec<String>, part: String)
    ensures
        strings_view(final(parts)@) == push_part(strings_view(old(parts)@), part@),
{
    let ghost before = strings_view(parts@);
    let starts = str_eq(part.as_str(), "(") || starts_with_quote(&part);
    let after = parts.len() > 0 && {
        let last = &parts[parts.len() - 1];
        str_eq(last.as_str(), ")") || starts_with_quote(last)
    };
    proof {
        if parts@.len() > 0 {
            assert(before.last() == parts@.last()@);
        }
    }
    if starts && after {
        parts.push(String::from_str("AND"));
        parts.push(part);
        assert(strings_view(parts@) =~= before.push("AND"@).push(part@));
    } else {
        parts.push(part);
        assert(strings_view(parts@) =~= before.push(part@));
    }
}

/// The characters `chars[from..to]` hold a letter or digit.
fn any_alphanumeric(chars: &Vec<char>, from: usize, to: usize) -> (b: bool)
    requires
        from <= to <= chars@.len(),
    ensures
        b == has_alphanumeric(chars@.subrange(from as int, to as int)),
{
    let mut k = from;
    while k < to
        invariant
            from <= k <= to <= chars@.len(),
            forall|j: int| from <= j < k ==> !alphanumeric_char(#[trigger] chars@[j]),
        decreases to - k,
    {
        if is_alphanumeric(chars[k]) {
            assert(chars@.subrange(from as int, to as int)[k - from] == chars@[k as int]);
            return true;
        }
        k = k + 1;
    }
    assert forall|j: int| 0 <= j < to - from implies !alphanumeric_char(
        #[trigger] chars@.subrange(from as int, to as int)[j],
    ) by {
        assert(chars@.subrange(from as int, to as int)[j] == chars@[from + j]);
    }
    false
}

/// Where the `*`s that end `chars[from..to]` start.
fn stem_end(chars: &Vec<char>, from: usize, to: usize) -> (e: usize)
    requires
        from <= to <= chars@.len(),
    ensures
        from <= e <= to,
        chars@.subrange(from as int, e as int) == strip_stars(chars@.subrange(from as int, to as int)),
{
    let mut e = to;
    while e > from && chars[e - 1] == '*'
        invariant
            from <= e <= to <= chars@.len(),
            strip_stars(chars@.subrange(from as int, e as int)) == strip_stars(
                chars@.subrange(from as int, to as int),
            ),
        decreases e,
    {
        assert(chars@.subrange(from as int, e as int).drop_last() =~= chars@.subrange(
            from as int,
            e - 1,
        ));
        e = e - 1;
    }
    e
}

/// The FTS5 expression for a user's query: each word quoted (a trailing
/// `*` kept outside the quotes), quoted phrases, operators and
/// parentheses as they are, and `AND` between operands with no operator.
/// A phrase left open, or no word to search for, is an invalid query.
pub fn match_expression(query: &str) -> (r: Result<String, StoreError>)
    ensures
        match r {
            Ok(s) => match_expression_spec(query@) == Ok::<Seq<char>, Seq<char>>(s@),
            Err(StoreError::InvalidQuery(m)) => match_expression_spec(query@) == Err::<Seq<char>, Seq<char>>(m@),
            Err(_) => false,
        },
{
    let chars = chars_of(query);
    let n = chars.len();
    let ghost q = chars@;
    let mut parts: Vec<String> = Vec::new();
    let mut terms: usize = 0;
    let mut i: usize = 0;
    assert(strings_view(parts@) =~= Seq::<Seq<char>>::empty());
    while i < n
        invariant
            n == q.len(),
            q == query@,
            chars@ == q,
            i <= n,
            terms <= i,
            scan(q, i as int, ScanMode::Between, strings_view(parts@), terms as nat) == scan(
                q,
                0,
                ScanMode::Between,
                Seq::empty(),
                0,
            ),
        decreases n - i,
    {
        let next = chars[i];
        if is_whitespace(next) {
            i = i + 1;
        } else if next == '(' || next == ')' {
            let mut part = String::new();
            push_char(&mut part, next);
            assert(part@ =~= seq![q[i as int]]);
            push(&mut parts, part);
            i = i + 1;
        } else if next == '"' {
            let start = i;
            i = i + 1;
            let mut phrase = String::new();
            push_char(&mut phrase, '"');
            let ghost mut acc: Seq<char> = Seq::empty();
            assert(phrase@ =~= seq!['"'] + acc);
            // Inside the phrase, up to its closing quote.
            loop
                invariant_except_break
                    scan(q, i as int, ScanMode::Phrase(acc), strings_view(parts@), terms as nat)
                        == scan(q, 0, ScanMode::Between, Seq::empty(), 0),
                invariant
                    n == q.len(),
                    q == query@,
                    chars@ == q,
                    start < i <= n,
                    terms <= start,
                    phrase@ == seq!['"'] + acc,
                ensures
                    scan(q, i as int, ScanMode::AfterPhrase(acc), strings_view(parts@), terms as nat)
                        == scan(q, 0, ScanMode::Between, Seq::empty(), 0),
                decreases n - i,
            {
                if i >= n {
                    return Err(
                        StoreError::InvalidQuery(
                            String::from_str("a quoted phrase isn't closed: add the closing \""),
                        ),
                    );
                }
                let c = chars[i];
                if c == '"' {
                    if i + 1 < n && chars[i + 1] == '"' {
                        push_char(&mut phrase, '"');
                        push_char(&mut phrase, '"');
                        proof {
                            acc = acc + seq!['"', '"'];
                        }
                        assert(phrase@ =~= seq!['"'] + acc);
                        i = i + 2;
                    } else {
                        i = i + 1;
                        break;
                    }
                } else {
                    push_char(&mut phrase, c);
                    proof {
                        acc = acc.push(c);
                    }
                    assert(phrase@ =~= seq!['"'] + acc);
                    i = i + 1;
                }
            }
            push_char(&mut phrase, '"');
            assert(phrase@ =~= quoted(acc));
            if i < n && chars[i] == '*' {
                push_char(&mut phrase, '*');
                i = i + 1;
            }
            push(&mut parts, phrase);
            terms = terms + 1;
        } else {
            let start = i;
            i = i + 1;
            assert(q.subrange(start as int, i as int) =~= seq![q[start as int]]);
            // The rest of the word.
            while i < n && !(is_whitespace(chars[i]) || chars[i] == '(' || chars[i] == ')' || chars[i] == '"')
                invariant
                    n == q.len(),
                    q == query@,
                    chars@ == q,
                    start < i <= n,
                    terms <= start,
                    scan(q, i as int, ScanMode::Word(q.subrange(start as int, i as int)), strings_view(parts@), terms as nat)
                        == scan(q, 0, ScanMode::Between, Seq::empty(), 0),
                decreases n - i,
            {
                assert(q.subrange(start as int, i + 1) =~= q.subrange(start as int, i as int).push(q[i as int]));
                i = i + 1;
            }
            let ghost w = q.subrange(start as int, i as int);
            let word = string_of_range(&chars, start, i);
            if str_eq(word.as_str(), "AND") || str_eq(word.as_str(), "OR") || str_eq(word.as_str(), "NOT") {
                push(&mut parts, word);
            } else {
                let e = stem_end(&chars, start, i);
                if any_alphanumeric(&chars, start, e) {
                    let mut part = String::new();
                    push_char(&mut part, '"');
                    part.append(string_of_range(&chars, start, e).as_str());
                    push_char(&mut part, '"');
                    if e < i {
                        push_char(&mut part, '*');
                    }
                    assert(part@ =~= quoted(strip_stars(w)) + (if strip_stars(w).len() < w.len() {
                        seq!['*']
                    } else {
                        Seq::<char>::empty()
                    }));
                    push(&mut parts, part);
                    terms = terms + 1;
                }
            }
        }
    }
    if terms == 0 {
        return Err(StoreError::InvalidQuery(concat(&debug_str(query), " has no words to search for")));
    }
    Ok(join(&parts, " "))
}

/// A part the expression is made of: a parenthesis, an operator, or a
/// quoted term (a `*` maybe after its closing quote).
pub open spec fn is_part(p: Seq<char>) -> bool {
    p == "("@ || p == ")"@ || is_operator_word(p) || (p.len() > 0 && p[0] == '"')
}

/// Parts that make a well-shaped expression: each a parenthesis, an
/// operator or a quoted term, and no operand directly followed by another
/// one without an operator between them.
pub open spec fn well_shaped(parts: Seq<Seq<char>>) -> bool {
    &&& forall|k: int| 0 <= k < parts.len() ==> is_part(#[trigger] parts[k])
    &&& forall|k: int| 0 <= k < parts.len() - 1 ==> !(ends_operand(#[trigger] parts[k]) && starts_operand(parts[k + 1]))
}

proof fn lemma_push_part_shaped(parts: Seq<Seq<char>>, part: Seq<char>)
    requires
        well_shaped(parts),
        is_part(part),
    ensures
        well_shaped(push_part(parts, part)),
{
    reveal_strlit("AND");
    reveal_strlit("(");
    reveal_strlit(")");
    reveal_strlit("OR");
    reveal_strlit("NOT");
    let and = "AND"@;
    assert(and.len() == 3 && and[0] == 'A');
    assert(is_operator_word(and));
    assert(!ends_operand(and)) by {
        assert(and != ")"@);
    }
    assert(!starts_operand(and)) by {
        assert(and != "("@);
    }
    let after = push_part(parts, part);
    if starts_operand(part) && parts.len() > 0 && ends_operand(parts.last()) {
        assert forall|k: int| 0 <= k < after.len() implies is_part(#[trigger] after[k]) by {
            if k < parts.len() {
                assert(after[k] == parts[k]);
            }
        }
        assert forall|k: int| 0 <= k < after.len() - 1 implies !(ends_operand(#[trigger] after[k]) && starts_operand(after[k + 1])) by {
            if k < parts.len() - 1 {
                assert(after[k] == parts[k] && after[k + 1] == parts[k + 1]);
            } else if k == parts.len() - 1 {
                assert(after[k + 1] == and);
            } else {
                assert(after[k] == and);
            }
        }
    } else {
        assert forall|k: int| 0 <= k < after.len() implies is_part(#[trigger] after[k]) by {
            if k < parts.len() {
                assert(after[k] == parts[k]);
            }
        }
        assert forall|k: int| 0 <= k < after.len() - 1 implies !(ends_operand(#[trigger] after[k]) && starts_operand(after[k + 1])) by {
            if k < parts.len() - 1 {
                assert(after[k] == parts[k] && after[k + 1] == parts[k + 1]);
            } else {
                assert(after[k] == parts.last() && after[k + 1] == part);
            }
        }
    }
}

proof fn lemma_finish_word_shaped(w: Seq<char>, parts: Seq<Seq<char>>, terms: nat)
    requires
        well_shaped(parts),
    ensures
        well_shaped(finish_word(w, parts, terms).0),
{
    if is_operator_word(w) {
        lemma_push_part_shaped(parts, w);
    } else if has_alphanumeric(strip_stars(w)) {
        let stem = strip_stars(w);
        let prefix = if stem.len() < w.len() { seq!['*'] } else { Seq::<char>::empty() };
        assert((quoted(stem) + prefix)[0] == '"');
        lemma_push_part_shaped(parts, quoted(stem) + prefix);
    }
}

proof fn lemma_scan_shaped(q: Seq<char>, i: int, mode: ScanMode, parts: Seq<Seq<char>>, terms: nat)
    requires
        well_shaped(parts),
    ensures
        scan(q, i, mode, parts, terms) matches Some((p, _)) ==> well_shaped(p),
    decreases q.len() - i, mode_rank(mode),
{
    reveal_strlit("(");
    reveal_strlit(")");
    if i >= 0 {
        match mode {
            ScanMode::Between => {
                if i >= q.len() {
                } else if whitespace_char(q[i]) {
                    lemma_scan_shaped(q, i + 1, ScanMode::Between, parts, terms);
                } else if q[i] == '(' || q[i] == ')' {
                    if q[i] == '(' {
                        assert(seq![q[i]] =~= "("@);
                    } else {
                        assert(seq![q[i]] =~= ")"@);
                    }
                    lemma_push_part_shaped(parts, seq![q[i]]);
                    lemma_scan_shaped(q, i + 1, ScanMode::Between, push_part(parts, seq![q[i]]), terms);
                } else if q[i] == '"' {
                    lemma_scan_shaped(q, i + 1, ScanMode::Phrase(Seq::empty()), parts, terms);
                } else {
                    lemma_scan_shaped(q, i + 1, ScanMode::Word(seq![q[i]]), parts, terms);
                }
            },
            ScanMode::Word(w) => {
                if i < q.len() && !breaks_word(q[i]) {
                    lemma_scan_shaped(q, i + 1, ScanMode::Word(w.push(q[i])), parts, terms);
                } else {
                    lemma_finish_word_shaped(w, parts, terms);
                    let (p, t) = finish_word(w, parts, terms);
                    lemma_scan_shaped(q, i, ScanMode::Between, p, t);
                }
            },
            ScanMode::Phrase(acc) => {
                if i >= q.len() {
                } else if q[i] == '"' {
                    if i + 1 < q.len() && q[i + 1] == '"' {
                        lemma_scan_shaped(q, i + 2, ScanMode::Phrase(acc + seq!['"', '"']), parts, terms);
                    } else {
                        lemma_scan_shaped(q, i + 1, ScanMode::AfterPhrase(acc), parts, terms);
                    }
                } else {
                    lemma_scan_shaped(q, i + 1, ScanMode::Phrase(acc.push(q[i])), parts, terms);
                }
            },
            ScanMode::AfterPhrase(acc) => {
                if i < q.len() && q[i] == '*' {
                    assert(quoted(acc).push('*')[0] == '"');
                    lemma_push_part_shaped(parts, quoted(acc).push('*'));
                    lemma_scan_shaped(q, i + 1, ScanMode::Between, push_part(parts, quoted(acc).push('*')), terms + 1);
                } else {
                    assert(quoted(acc)[0] == '"');
                    lemma_push_part_shaped(parts, quoted(acc));
                    lemma_scan_shaped(q, i, ScanMode::Between, push_part(parts, quoted(acc)), terms + 1);
                }
            },
        }
    }
}

/// The expression given for a query is well shaped: its parts, one space
/// between each, are parentheses, operators and quoted terms, and an
/// operator (`AND` when the query has none) stands between any two
/// operands.
pub proof fn law_match_expression_is_well_shaped(q: Seq<char>)
    ensures
        match_expression_spec(q) matches Ok(s) ==> exists|parts: Seq<Seq<char>>|
            well_shaped(parts) && #[trigger] join_spec(parts, " "@) == s,
{
    lemma_scan_shaped(q, 0, ScanMode::Between, Seq::empty(), 0);
    if let Some((parts, terms)) = scan(q, 0, ScanMode::Between, Seq::empty(), 0) {
        if terms > 0 {
            assert(well_shaped(parts));
            assert(join_spec(parts, " "@) == join_spec(parts, " "@));
        }
    }
}

/// Whether every quoted phrase of `q` from `i` on closes, reading inside
/// a phrase when `inside` holds; in a phrase, `""` is a literal quote.
pub open spec fn closes_from(q: Seq<char>, i: int, inside: bool) -> bool
    decreases q.len() - i,
{
    if i < 0 || i >= q.len() {
        !inside
    } else if q[i] == '"' {
        if inside && i + 1 < q.len() && q[i + 1] == '"' {
            closes_from(q, i + 2, true)
        } else {
            closes_from(q, i + 1, !inside)
        }
    } else {
        closes_from(q, i + 1, inside)
    }
}

/// Whether every quoted phrase of `q` has its closing quote.
pub open spec fn phrases_closed(q: Seq<char>) -> bool {
    closes_from(q, 0, false)
}

proof fn lemma_scan_closes(q: Seq<char>, i: int, mode: ScanMode, parts: Seq<Seq<char>>, terms: nat)
    requires
        0 <= i <= q.len(),
    ensures
        scan(q, i, mode, parts, terms) is None <==> !closes_from(q, i, mode is Phrase),
        scan(q, i, mode, parts, terms) matches Some((_, t)) ==> t >= terms,
        scan(q, i, mode, parts, terms) matches Some((_, t)) ==> (mode is Phrase || mode is AfterPhrase
            || exists|j: int| i <= j < q.len() && #[trigger] q[j] == '"') ==> t > terms,
    decreases q.len() - i, mode_rank(mode),
{
    match mode {
        ScanMode::Between => {
            if i >= q.len() {
            } else if whitespace_char(q[i]) {
                lemma_scan_closes(q, i + 1, ScanMode::Between, parts, terms);
                assert(q[i] != '"');
            } else if q[i] == '(' || q[i] == ')' {
                lemma_scan_closes(q, i + 1, ScanMode::Between, push_part(parts, seq![q[i]]), terms);
            } else if q[i] == '"' {
                lemma_scan_closes(q, i + 1, ScanMode::Phrase(Seq::empty()), parts, terms);
            } else {
                lemma_scan_closes(q, i + 1, ScanMode::Word(seq![q[i]]), parts, terms);
            }
        },
        ScanMode::Word(w) => {
            if i < q.len() && !breaks_word(q[i]) {
                lemma_scan_closes(q, i + 1, ScanMode::Word(w.push(q[i])), parts, terms);
            } else {
                let (p, t) = finish_word(w, parts, terms);
                lemma_scan_closes(q, i, ScanMode::Between, p, t);
            }
        },
        ScanMode::Phrase(acc) => {
            if i >= q.len() {
            } else if q[i] == '"' {
                if i + 1 < q.len() && q[i + 1] == '"' {
                    lemma_scan_closes(q, i + 2, ScanMode::Phrase(acc + seq!['"', '"']), parts, terms);
                } else {
                    lemma_scan_closes(q, i + 1, ScanMode::AfterPhrase(acc), parts, terms);
                }
            } else {
                lemma_scan_closes(q, i + 1, ScanMode::Phrase(acc.push(q[i])), parts, terms);
            }
        },
        ScanMode::AfterPhrase(acc) => {
            if i < q.len() && q[i] == '*' {
                lemma_scan_closes(q, i + 1, ScanMode::Between, push_part(parts, quoted(acc).push('*')), terms + 1);
            } else {
                lemma_scan_closes(q, i, ScanMode::Between, push_part(parts, quoted(acc)), terms + 1);
            }
        },
    }
}

/// When a query is refused: exactly when a quoted phrase has no closing
/// quote, with the message that says so; otherwise only for having no
/// word to search for, and never when it holds a (closed) quoted phrase.
pub proof fn law_match_expression_errors(q: Seq<char>)
    ensures
        !phrases_closed(q) ==> match_expression_spec(q) == Err::<Seq<char>, Seq<char>>(
            "a quoted phrase isn't closed: add the closing \""@,
        ),
        phrases_closed(q) ==> match_expression_spec(q) is Ok || match_expression_spec(q) == Err::<Seq<char>, Seq<char>>(
            debug_quoted(q) + " has no words to search for"@,
        ),
        phrases_closed(q) && q.contains('"') ==> match_expression_spec(q) is Ok,
{
    lemma_scan_closes(q, 0, ScanMode::Between, Seq::empty(), 0);
    if q.contains('"') {
        let j = choose|j: int| 0 <= j < q.len() && q[j] == '"';
        assert(q[j] == '"');
    }
}

proof fn lemma_strip_stars(w: Seq<char>)
    ensures
        strip_stars(w).len() <= w.len(),
        strip_stars(w) =~= w.subrange(0, strip_stars(w).len() as int),
        forall|k: int| strip_stars(w).len() <= k < w.len() ==> #[trigger] w[k] == '*',
        !(strip_stars(w).len() > 0 && strip_stars(w).last() == '*'),
        strip_stars(w).len() < w.len() <==> (w.len() > 0 && w.last() == '*'),
    decreases w.len(),
{
    if w.len() > 0 && w.last() == '*' {
        let rest = w.drop_last();
        lemma_strip_stars(rest);
        assert forall|k: int| strip_stars(w).len() <= k < w.len() implies #[trigger] w[k] == '*' by {
            if k < w.len() - 1 {
                assert(w[k] == rest[k]);
            }
        }
    }
}

/// A kept word of the query (not an operator, with a letter or digit once
/// its trailing `*`s are off) counts as a term and is added quoted: its
/// stem, the word without its trailing `*`s, between double quotes, and
/// one `*` after them exactly when the word ended in `*`.
pub proof fn law_kept_word_is_quoted(w: Seq<char>, parts: Seq<Seq<char>>, terms: nat)
    requires
        !is_operator_word(w),
        has_alphanumeric(strip_stars(w)),
    ensures
        finish_word(w, parts, terms).1 == terms + 1,
        finish_word(w, parts, terms).0.last() == quoted(strip_stars(w)) + (if w.len() > 0 && w.last() == '*' {
            seq!['*']
        } else {
            Seq::empty()
        }),
        w =~= strip_stars(w) + w.subrange(strip_stars(w).len() as int, w.len() as int),
        forall|k: int| strip_stars(w).len() <= k < w.len() ==> #[trigger] w[k] == '*',
        !(strip_stars(w).len() > 0 && strip_stars(w).last() == '*'),
{
    lemma_strip_stars(w);
    let stem = strip_stars(w);
    let prefix = if stem.len() < w.len() { seq!['*'] } else { Seq::<char>::empty() };
    let part = quoted(stem) + prefix;
    if starts_operand(part) && parts.len() > 0 && ends_operand(parts.last()) {
        assert(push_part(parts, part) == parts.push("AND"@).push(part));
    } else {
        assert(push_part(parts, part) == parts.push(part));
    }
}

/// Whether position `i` of `q` is inside a quoted phrase, reading from
/// `k` inside one when `inside` holds (the second quote of a `""` inside
/// a phrase counts as inside).
pub open spec fn inside_from(q: Seq<char>, k: int, inside: bool, i: int) -> bool
    decreases i - k,
{
    if k >= i || k < 0 || k >= q.len() {
        inside
    } else if q[k] == '"' {
        if inside && k + 1 < q.len() && q[k + 1] == '"' {
            if k + 1 == i {
                true
            } else {
                inside_from(q, k + 2, true, i)
            }
        } else {
            inside_from(q, k + 1, !inside, i)
        }
    } else {
        inside_from(q, k + 1, inside, i)
    }
}

/// Whether position `i` of `q` is inside a quoted phrase.
pub open spec fn inside_at(q: Seq<char>, i: int) -> bool {
    inside_from(q, 0, false, i)
}

/// Whether `q[i..j]` is a whole word of the query (a maximal run of
/// characters that aren't space, parentheses or quotes) that is searched
/// for: not an operator, with a letter or digit before its trailing `*`s.
pub open spec fn kept_word_at(q: Seq<char>, i: int, j: int) -> bool {
    &&& 0 <= i < j <= q.len()
    &&& forall|m: int| i <= m < j ==> !breaks_word(#[trigger] q[m])
    &&& (i == 0 || breaks_word(q[i - 1]))
    &&& (j == q.len() || breaks_word(q[j]))
    &&& !is_operator_word(q.subrange(i, j))
    &&& has_alphanumeric(strip_stars(q.subrange(i, j)))
}

/// Whether `q` has a word searched for outside its phrases.
pub open spec fn has_kept_word(q: Seq<char>) -> bool {
    exists|i: int, j: int| kept_word_at(q, i, j) && !inside_at(q, i)
}

proof fn lemma_word_finishes(q: Seq<char>, k: int, w: Seq<char>, parts: Seq<Seq<char>>, terms: nat, i: int, j: int)
    requires
        kept_word_at(q, i, j),
        i < k <= j,
        w == q.subrange(i, k),
    ensures
        scan(q, k, ScanMode::Word(w), parts, terms) matches Some((_, t)) ==> t > terms,
    decreases j - k,
{
    if k < j {
        assert(!breaks_word(q[k]));
        assert(w.push(q[k]) =~= q.subrange(i, k + 1));
        lemma_word_finishes(q, k + 1, w.push(q[k]), parts, terms, i, j);
    } else {
        law_kept_word_is_quoted(w, parts, terms);
        let (p, t) = finish_word(w, parts, terms);
        lemma_scan_closes(q, k, ScanMode::Between, p, t);
    }
}

proof fn lemma_kept_word_counts(q: Seq<char>, k: int, mode: ScanMode, parts: Seq<Seq<char>>, terms: nat, i: int, j: int)
    requires
        kept_word_at(q, i, j),
        0 <= k <= i,
        !inside_from(q, k, mode is Phrase, i),
        mode is Word ==> k < i,
    ensures
        scan(q, k, mode, parts, terms) matches Some((_, t)) ==> t > terms,
    decreases q.len() - k, mode_rank(mode),
{
    match mode {
        ScanMode::Between => {
            if k == i {
                assert(!breaks_word(q[k]));
                assert(seq![q[k]] =~= q.subrange(i, k + 1));
                lemma_word_finishes(q, k + 1, seq![q[k]], parts, terms, i, j);
            } else if whitespace_char(q[k]) {
                lemma_kept_word_counts(q, k + 1, ScanMode::Between, parts, terms, i, j);
            } else if q[k] == '(' || q[k] == ')' {
                lemma_kept_word_counts(q, k + 1, ScanMode::Between, push_part(parts, seq![q[k]]), terms, i, j);
            } else if q[k] == '"' {
                lemma_kept_word_counts(q, k + 1, ScanMode::Phrase(Seq::empty()), parts, terms, i, j);
            } else {
                if k + 1 == i {
                    assert(!breaks_word(q[i - 1]));
                }
                lemma_kept_word_counts(q, k + 1, ScanMode::Word(seq![q[k]]), parts, terms, i, j);
            }
        },
        ScanMode::Word(w) => {
            if k < q.len() && !breaks_word(q[k]) {
                if k + 1 == i {
                    assert(!breaks_word(q[i - 1]));
                }
                lemma_kept_word_counts(q, k + 1, ScanMode::Word(w.push(q[k])), parts, terms, i, j);
            } else {
                let (p, t) = finish_word(w, parts, terms);
                lemma_kept_word_counts(q, k, ScanMode::Between, p, t, i, j);
            }
        },
        ScanMode::Phrase(acc) => {
            if k < q.len() {
                if q[k] == '"' {
                    if k + 1 < q.len() && q[k + 1] == '"' {
                        if k + 2 <= i {
                            lemma_kept_word_counts(q, k + 2, ScanMode::Phrase(acc + seq!['"', '"']), parts, terms, i, j);
                        }
                    } else {
                        lemma_scan_closes(q, k + 1, ScanMode::AfterPhrase(acc), parts, terms);
                    }
                } else {
                    lemma_kept_word_counts(q, k + 1, ScanMode::Phrase(acc.push(q[k])), parts, terms, i, j);
                }
            }
        },
        ScanMode::AfterPhrase(acc) => {
            lemma_scan_closes(q, k, mode, parts, terms);
        },
    }
}

/// A query whose phrases all close and that has a word searched for,
/// outside its phrases, always gives an expression.
pub proof fn law_a_kept_word_gives_an_expression(q: Seq<char>, i: int, j: int)
    requires
        phrases_closed(q),
        kept_word_at(q, i, j),
        !inside_at(q, i),
    ensures
        match_expression_spec(q) is Ok,
{
    lemma_scan_closes(q, 0, ScanMode::Between, Seq::empty(), 0);
    lemma_kept_word_counts(q, 0, ScanMode::Between, Seq::empty(), 0, i, j);
}

proof fn lemma_no_quotes_outside(q: Seq<char>, k: int, i: int)
    requires
        !q.contains('"'),
    ensures
        !inside_from(q, k, false, i),
    decreases i - k,
{
    if !(k >= i || k < 0 || k >= q.len()) {
        assert(q[k] != '"');
        lemma_no_quotes_outside(q, k + 1, i);
    }
}

proof fn lemma_no_quotes_close(q: Seq<char>, k: int)
    requires
        !q.contains('"'),
        0 <= k,
    ensures
        closes_from(q, k, false),
    decreases q.len() - k,
{
    if k < q.len() {
        assert(q[k] != '"');
        lemma_no_quotes_close(q, k + 1);
    }
}

proof fn lemma_no_kept_word(q: Seq<char>, k: int, mode: ScanMode, parts: Seq<Seq<char>>, terms: nat, i0: int)
    requires
        !q.contains('"'),
        forall|i: int, j: int| !kept_word_at(q, i, j),
        0 <= k <= q.len(),
        mode is Between ==> (k == 0 || breaks_word(q[k - 1]) || k == q.len() || breaks_word(q[k])),
        mode is Word ==> {
            &&& 0 <= i0 < k
            &&& mode->Word_0 == q.subrange(i0, k)
            &&& (i0 == 0 || breaks_word(q[i0 - 1]))
            &&& forall|m: int| i0 <= m < k ==> !breaks_word(#[trigger] q[m])
        },
        mode is Between || mode is Word,
    ensures
        scan(q, k, mode, parts, terms) matches Some((_, t)) ==> t == terms,
    decreases q.len() - k, mode_rank(mode),
{
    match mode {
        ScanMode::Between => {
            if k < q.len() {
                assert(q[k] != '"');
                if whitespace_char(q[k]) {
                    lemma_no_kept_word(q, k + 1, ScanMode::Between, parts, terms, i0);
                } else if q[k] == '(' || q[k] == ')' {
                    lemma_no_kept_word(q, k + 1, ScanMode::Between, push_part(parts, seq![q[k]]), terms, i0);
                } else {
                    assert(seq![q[k]] =~= q.subrange(k, k + 1));
                    lemma_no_kept_word(q, k + 1, ScanMode::Word(seq![q[k]]), parts, terms, k);
                }
            }
        },
        ScanMode::Word(w) => {
            if k < q.len() && !breaks_word(q[k]) {
                assert(w.push(q[k]) =~= q.subrange(i0, k + 1));
                lemma_no_kept_word(q, k + 1, ScanMode::Word(w.push(q[k])), parts, terms, i0);
            } else {
                assert(!kept_word_at(q, i0, k));
                let (p, t) = finish_word(w, parts, terms);
                assert(t == terms);
                lemma_no_kept_word(q, k, ScanMode::Between, p, t, i0);
            }
        },
        _ => {},
    }
}

/// When a query is refused: exactly when a quoted phrase isn't closed, or
/// when it has no phrase and no word searched for outside phrases (every
/// word an operator or without a letter or digit).
pub proof fn law_when_a_query_is_refused(q: Seq<char>)
    ensures
        match_expression_spec(q) is Err <==> (!phrases_closed(q) || (!q.contains('"') && !has_kept_word(q))),
{
    law_match_expression_errors(q);
    if match_expression_spec(q) is Err && phrases_closed(q) && has_kept_word(q) {
        let (i, j) = choose|i: int, j: int| kept_word_at(q, i, j) && !inside_at(q, i);
        law_a_kept_word_gives_an_expression(q, i, j);
    }
    if !q.contains('"') && !has_kept_word(q) {
        assert forall|i: int, j: int| !kept_word_at(q, i, j) by {
            lemma_no_quotes_outside(q, 0, i);
        }
        lemma_no_kept_word(q, 0, ScanMode::Between, Seq::empty(), 0, 0);
        lemma_scan_closes(q, 0, ScanMode::Between, Seq::empty(), 0);
        lemma_no_quotes_close(q, 0);
    }
}

/// A search's status filters keep what the views keep: Open the tasks of
/// the All view (none completed), Completed those of the Completed view,
/// and All adds no condition.
pub proof fn law_status_filters_are_the_views()
    ensures
        status_condition_spec(StatusFilter::Open) == "AND "@ + condition_spec(crate::views::View::All),
        status_condition_spec(StatusFilter::Completed) == "AND "@ + condition_spec(crate::views::View::Completed),
        status_condition_spec(StatusFilter::All).len() == 0,
{
    reveal_strlit("AND ");
    reveal_strlit("AND tasks.status <> 'completed'");
    reveal_strlit("AND tasks.status = 'completed'");
    reveal_strlit("tasks.status <> 'completed'");
    reveal_strlit("tasks.status = 'completed'");
    reveal_strlit("");
    assert(status_condition_spec(StatusFilter::Open) =~= "AND "@ + condition_spec(crate::views::View::All));
    assert(status_condition_spec(StatusFilter::Completed) =~= "AND "@ + condition_spec(crate::views::View::Completed));
}

} // verus!
