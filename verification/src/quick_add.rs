//! Quick add: the labels `@` completes, and Tab's completion of a `#List`
//! or an `@label` to the longest start the candidates share.

use vstd::prelude::*;

use crate::text::{
    char_lowercase, chars_of, concat, has_prefix, has_prefix_spec, is_whitespace, lowercase_of, push_char, str_eq,
    string_of, string_of_range, to_lowercase, to_lowercase_char, whitespace_char,
};

verus! {

/// The categories `@` knows: asked for once, on the first `a`.
#[derive(Clone, Debug, PartialEq, Eq)]
pub enum Categories {
    Unasked,
    Asking,
    /// Read, or `None` when Graph couldn't be asked: then no label is
    /// called unknown.
    Known(Option<Vec<String>>),
}

impl Default for Categories {
    fn default() -> (c: Categories)
        ensures
            c is Unasked,
    {
        Categories::Unasked
    }
}

/// How many characters `a` and `b` share from `i` on, comparing each
/// pair as `char::to_lowercase` makes them.
pub open spec fn common_from(a: Seq<char>, b: Seq<char>, i: int) -> int
    decreases a.len() - i,
{
    if 0 <= i < a.len() && i < b.len() && char_lowercase(a[i]) == char_lowercase(b[i]) {
        common_from(a, b, i + 1)
    } else {
        i
    }
}

/// How many characters of `first` every one of `rest` starts with, case
/// aside.
pub open spec fn shared_len(first: Seq<char>, rest: Seq<Seq<char>>) -> int
    decreases rest.len(),
{
    if rest.len() == 0 {
        first.len() as int
    } else {
        let before = shared_len(first, rest.drop_last());
        let here = common_from(first, rest.last(), 0);
        if here < before {
            here
        } else {
            before
        }
    }
}

/// The longest start every name shares, keeping the first name's case.
pub open spec fn shared_prefix_spec(names: Seq<Seq<char>>) -> Option<Seq<char>> {
    if names.len() == 0 {
        None
    } else {
        Some(names[0].take(shared_len(names[0], names.drop_first())))
    }
}

proof fn lemma_common_bounds(a: Seq<char>, b: Seq<char>, i: int)
    requires
        0 <= i <= a.len(),
    ensures
        i <= common_from(a, b, i) <= a.len(),
    decreases a.len() - i,
{
    if 0 <= i < a.len() && i < b.len() && char_lowercase(a[i]) == char_lowercase(b[i]) {
        lemma_common_bounds(a, b, i + 1);
    }
}

proof fn lemma_shared_bounds(first: Seq<char>, rest: Seq<Seq<char>>)
    ensures
        0 <= shared_len(first, rest) <= first.len(),
    decreases rest.len(),
{
    if rest.len() > 0 {
        lemma_shared_bounds(first, rest.drop_last());
        lemma_common_bounds(first, rest.last(), 0);
    }
}

/// Whether `b` has, at `j`, `a`'s character there, case aside.
pub open spec fn match_at(a: Seq<char>, b: Seq<char>, j: int) -> bool {
    0 <= j < a.len() && j < b.len() && char_lowercase(a[j]) == char_lowercase(b[j])
}

/// Whether `b` starts with the first `n` characters of `a`, case aside.
pub open spec fn shares_start(a: Seq<char>, b: Seq<char>, n: int) -> bool {
    forall|j: int| 0 <= j < n ==> #[trigger] match_at(a, b, j)
}

/// Whether `b` cannot share one character more of `a`'s start than `n`.
pub open spec fn stops_at(a: Seq<char>, b: Seq<char>, n: int) -> bool {
    n == a.len() || !match_at(a, b, n)
}

proof fn lemma_common(a: Seq<char>, b: Seq<char>, i: int)
    requires
        0 <= i <= a.len(),
    ensures
        forall|j: int| i <= j < common_from(a, b, i) ==> #[trigger] match_at(a, b, j),
        stops_at(a, b, common_from(a, b, i)),
    decreases a.len() - i,
{
    if 0 <= i < a.len() && i < b.len() && char_lowercase(a[i]) == char_lowercase(b[i]) {
        lemma_common(a, b, i + 1);
        assert(match_at(a, b, i));
    }
}

/// The shared start is the longest: every other name starts with it
/// (case aside), and it is the whole first name or some name can't
/// share one character more.
pub proof fn law_shared_prefix_is_the_longest(first: Seq<char>, rest: Seq<Seq<char>>)
    ensures
        ({
            let n = shared_len(first, rest);
            &&& 0 <= n <= first.len()
            &&& forall|k: int| 0 <= k < rest.len() ==> shares_start(first, #[trigger] rest[k], n)
            &&& (n == first.len() || exists|k: int| 0 <= k < rest.len() && stops_at(first, #[trigger] rest[k], n))
        }),
    decreases rest.len(),
{
    lemma_shared_bounds(first, rest);
    if rest.len() > 0 {
        let init = rest.drop_last();
        law_shared_prefix_is_the_longest(first, init);
        lemma_common(first, rest.last(), 0);
        lemma_common_bounds(first, rest.last(), 0);
        let n = shared_len(first, rest);
        let before = shared_len(first, init);
        let here = common_from(first, rest.last(), 0);
        assert(n <= before && n <= here);
        assert forall|k: int| 0 <= k < rest.len() implies shares_start(first, #[trigger] rest[k], n) by {
            if k < rest.len() - 1 {
                assert(rest[k] == init[k]);
                assert(shares_start(first, init[k], before));
            }
        }
        if n == here {
            if n != first.len() {
                assert(stops_at(first, rest[rest.len() - 1], n));
            }
        } else {
            if n != first.len() {
                let k = choose|k: int| 0 <= k < init.len() && stops_at(first, #[trigger] init[k], before);
                assert(rest[k] == init[k]);
            }
        }
    }
}

/// How many characters `a` and `b` share from the start, case aside.
fn common_start(a: &Vec<char>, b: &Vec<char>) -> (n: usize)
    ensures
        n == common_from(a@, b@, 0),
{
    let mut i: usize = 0;
    while i < a.len() && i < b.len()
        invariant
            i <= a.len(),
            common_from(a@, b@, 0) == common_from(a@, b@, i as int),
        decreases a.len() - i,
    {
        let x = to_lowercase_char(a[i]);
        let y = to_lowercase_char(b[i]);
        if !str_eq(x.as_str(), y.as_str()) {
            return i;
        }
        i = i + 1;
    }
    i
}

/// The longest start every name shares, keeping the first name's case;
/// `None` for no names.
pub fn shared_prefix(names: &[&String]) -> (r: Option<String>)
    ensures
        match r {
            Some(s) => shared_prefix_spec(Seq::new(names@.len(), |i: int| names@[i]@)) == Some(s@),
            None => shared_prefix_spec(Seq::new(names@.len(), |i: int| names@[i]@)) is None,
        },
{
    let ghost all = Seq::new(names@.len(), |i: int| names@[i]@);
    if names.len() == 0 {
        return None;
    }
    let first = chars_of(names[0].as_str());
    let ghost rest = all.drop_first();
    let mut length: usize = first.len();
    let mut k: usize = 1;
    while k < names.len()
        invariant
            1 <= k <= names@.len(),
            all == Seq::new(names@.len(), |i: int| names@[i]@),
            rest == all.drop_first(),
            first@ == all[0],
            length == shared_len(first@, rest.subrange(0, k - 1)),
        decreases names.len() - k,
    {
        let other = chars_of(names[k].as_str());
        let here = common_start(&first, &other);
        assert(rest.subrange(0, k as int).drop_last() =~= rest.subrange(0, k - 1));
        assert(rest.subrange(0, k as int).last() == other@);
        if here < length {
            length = here;
        }
        k = k + 1;
    }
    assert(rest.subrange(0, names.len() - 1) =~= rest);
    proof {
        lemma_shared_bounds(first@, rest);
    }
    let s = string_of_range(&first, 0, length);
    assert(first@.subrange(0, length as int) =~= first@.take(length as int));
    Some(s)
}

} // verus!

verus! {

/// Where the word ending at the end of `before` starts: just after its
/// last whitespace, or at 0.
pub open spec fn word_start(before: Seq<char>) -> int
    decreases before.len(),
{
    if before.len() == 0 {
        0
    } else if whitespace_char(before.last()) {
        before.len() as int
    } else {
        word_start(before.drop_last())
    }
}

proof fn lemma_word_start(before: Seq<char>)
    ensures
        0 <= word_start(before) <= before.len(),
    decreases before.len(),
{
    if before.len() > 0 && !whitespace_char(before.last()) {
        lemma_word_start(before.drop_last());
    }
}

/// `s` without the `"`s it starts with.
pub open spec fn without_quotes(s: Seq<char>) -> Seq<char>
    decreases s.len(),
{
    if s.len() > 0 && s[0] == '"' {
        without_quotes(s.drop_first())
    } else {
        s
    }
}

/// The names among `names` that start with `typed`, case aside, in order.
pub open spec fn starting_with(names: Seq<Seq<char>>, typed: Seq<char>) -> Seq<Seq<char>>
    decreases names.len(),
{
    if names.len() == 0 {
        names
    } else if has_prefix_spec(lowercase_of(names.last()), lowercase_of(typed)) {
        starting_with(names.drop_last(), typed).push(names.last())
    } else {
        starting_with(names.drop_last(), typed)
    }
}

/// Whether `s` holds whitespace.
pub open spec fn has_space(s: Seq<char>) -> bool {
    exists|i: int| 0 <= i < s.len() && whitespace_char(#[trigger] s[i])
}

/// What Tab makes of a quick add's text `text` with the cursor at column
/// `cursor`, given the lists' names and the labels: the `#List` or
/// `@label` the cursor is at the end of, finished to the longest text
/// every match shares (a name with a space in it, or one whose quote was
/// typed, quoted), with a space after a whole one; the new text and the
/// cursor's new column. `None` when there's no such word or no match.
pub open spec fn complete_spec(
    text: Seq<char>,
    cursor: int,
    lists: Seq<Seq<char>>,
    labels: Seq<Seq<char>>,
) -> Option<(Seq<char>, int)> {
    let at = if cursor < text.len() { cursor } else { text.len() as int };
    let before = text.take(at);
    let start = word_start(before);
    let word = before.subrange(start, at);
    if word.len() == 0 || !(word[0] == '#' || word[0] == '@') {
        None
    } else {
        let sigil = word[0];
        let rest = word.drop_first();
        let typed = without_quotes(rest);
        let matching = starting_with(if sigil == '#' { lists } else { labels }, typed);
        match shared_prefix_spec(matching) {
            None => None,
            Some(shared) => {
                let whole = matching.len() == 1;
                let completed = if has_space(shared) || (rest.len() > 0 && rest[0] == '"') {
                    seq![sigil, '"'] + shared + (if whole { "\" "@ } else { Seq::empty() })
                } else {
                    seq![sigil] + shared + (if whole { " "@ } else { Seq::empty() })
                };
                Some((text.take(start) + completed + text.skip(at), start + completed.len()))
            },
        }
    }
}

fn quotes_end(rest: &Vec<char>, from: usize) -> (end: usize)
    requires
        from <= rest@.len(),
    ensures
        from <= end <= rest@.len(),
        without_quotes(rest@.skip(from as int)) == rest@.skip(end as int),
{
    let mut end = from;
    while end < rest.len() && rest[end] == '"'
        invariant
            from <= end <= rest@.len(),
            without_quotes(rest@.skip(from as int)) == without_quotes(rest@.skip(end as int)),
        decreases rest.len() - end,
    {
        assert(rest@.skip(end as int).drop_first() =~= rest@.skip(end + 1));
        end = end + 1;
    }
    if end < rest.len() {
        assert(rest@.skip(end as int)[0] == rest@[end as int]);
    }
    end
}

/// The names among `names` that start with `typed`, case aside.
fn names_starting_with<'a>(names: &'a Vec<String>, typed: &str) -> (m: Vec<&'a String>)
    ensures
        Seq::new(m@.len(), |i: int| m@[i]@) == starting_with(names@.map_values(|s: String| s@), typed@),
{
    let want = to_lowercase(typed);
    let ghost all = names@.map_values(|s: String| s@);
    let mut m: Vec<&String> = Vec::new();
    let mut i: usize = 0;
    while i < names.len()
        invariant
            i <= names@.len(),
            all == names@.map_values(|s: String| s@),
            want@ == lowercase_of(typed@),
            Seq::new(m@.len(), |k: int| m@[k]@) == starting_with(all.subrange(0, i as int), typed@),
        decreases names.len() - i,
    {
        assert(all.subrange(0, i + 1).drop_last() =~= all.subrange(0, i as int));
        assert(all.subrange(0, i + 1).last() == names@[i as int]@);
        let lowered = to_lowercase(names[i].as_str());
        if has_prefix(lowered.as_str(), want.as_str()) {
            let ghost prior = Seq::new(m@.len(), |k: int| m@[k]@);
            m.push(&names[i]);
            assert(Seq::new(m@.len(), |k: int| m@[k]@) =~= prior.push(names@[i as int]@));
        }
        i = i + 1;
    }
    assert(all.subrange(0, names@.len() as int) =~= all);
    m
}

fn holds_space(s: &str) -> (b: bool)
    ensures
        b == has_space(s@),
{
    let chars = chars_of(s);
    let mut i: usize = 0;
    while i < chars.len()
        invariant
            chars@ == s@,
            i <= chars@.len(),
            forall|k: int| 0 <= k < i ==> !whitespace_char(#[trigger] s@[k]),
        decreases chars.len() - i,
    {
        if is_whitespace(chars[i]) {
            return true;
        }
        i = i + 1;
    }
    false
}

/// Tab in quick add: finish the `#List` or `@label` the cursor is at the
/// end of; the new text and the cursor's column, or `None` for nothing
/// to finish.
pub fn complete_word(text: &str, cursor: usize, lists: &Vec<String>, labels: &Vec<String>) -> (r: Option<(String, usize)>)
    ensures
        match r {
            Some((t, c)) => complete_spec(
                text@,
                cursor as int,
                lists@.map_values(|s: String| s@),
                labels@.map_values(|s: String| s@),
            ) == Some((t@, c as int)),
            None => complete_spec(
                text@,
                cursor as int,
                lists@.map_values(|s: String| s@),
                labels@.map_values(|s: String| s@),
            ) is None,
        },
{
    let chars = chars_of(text);
    let n = chars.len();
    let at = if cursor < n { cursor } else { n };
    let ghost before = text@.take(at as int);
    let mut start = at;
    assert(text@.take(at as int) =~= before);
    assert(before.take(at as int) =~= before);
    while start > 0 && !is_whitespace(chars[start - 1])
        invariant
            chars@ == text@,
            at <= n == text@.len(),
            start <= at,
            before == text@.take(at as int),
            word_start(before) == word_start(before.take(start as int)),
        decreases start,
    {
        assert(before.take(start as int).drop_last() =~= before.take(start - 1));
        start = start - 1;
    }
    if start > 0 {
        assert(before.take(start as int).last() == chars@[start - 1]);
    }
    assert(word_start(before.take(start as int)) == start);
    if start >= at {
        return None;
    }
    let sigil = chars[start];
    assert(before.subrange(start as int, at as int)[0] == sigil);
    if !(sigil == '#' || sigil == '@') {
        return None;
    }
    let ghost word = before.subrange(start as int, at as int);
    let ghost rest = word.drop_first();
    let word_chars = {
        let mut w: Vec<char> = Vec::new();
        let mut k = start + 1;
        while k < at
            invariant
                chars@ == text@,
                start < at <= n == text@.len(),
                start + 1 <= k <= at,
                w@ == chars@.subrange(start + 1, k as int),
            decreases at - k,
        {
            w.push(chars[k]);
            k = k + 1;
            assert(w@ =~= chars@.subrange(start + 1, k as int));
        }
        w
    };
    assert(word_chars@ =~= rest);
    let end = quotes_end(&word_chars, 0);
    assert(word_chars@.skip(0) =~= word_chars@);
    let typed = string_of_range(&word_chars, end, word_chars.len());
    assert(word_chars@.subrange(end as int, word_chars@.len() as int) =~= word_chars@.skip(end as int));
    let names = if sigil == '#' { lists } else { labels };
    let matching = names_starting_with(names, typed.as_str());
    let shared = match shared_prefix(matching.as_slice()) {
        Some(s) => s,
        None => {
            return None;
        },
    };
    let whole = matching.len() == 1;
    let quoted = holds_space(shared.as_str()) || (word_chars.len() > 0 && word_chars[0] == '"');
    let mut completed = String::new();
    push_char(&mut completed, sigil);
    if quoted {
        push_char(&mut completed, '"');
    }
    let completed = concat(completed.as_str(), shared.as_str());
    let completed = if whole {
        if quoted {
            concat(completed.as_str(), "\" ")
        } else {
            concat(completed.as_str(), " ")
        }
    } else {
        completed
    };
    proof {
        reveal_strlit("\" ");
        reveal_strlit(" ");
        assert(completed@ =~= (if quoted {
            seq![sigil, '"'] + shared@ + (if whole { "\" "@ } else { Seq::empty() })
        } else {
            seq![sigil] + shared@ + (if whole { " "@ } else { Seq::empty() })
        }));
    }
    let head = string_of_range(&chars, 0, start);
    let tail = string_of_range(&chars, at, n);
    let joined = concat(head.as_str(), completed.as_str());
    let new_text = concat(joined.as_str(), tail.as_str());
    assert(chars@.subrange(0, start as int) =~= text@.take(start as int));
    assert(chars@.subrange(at as int, n as int) =~= text@.skip(at as int));
    let column = new_text.unicode_len() - (n - at);
    Some((new_text, column))
}

} // verus!

verus! {

/// Whether `a` comes before `b` as strings order: by their characters'
/// code points, in turn, a shorter one first when it starts the other.
pub open spec fn lex_less(a: Seq<char>, b: Seq<char>) -> bool
    decreases a.len(),
{
    if a.len() == 0 {
        b.len() > 0
    } else if b.len() == 0 {
        false
    } else if (a[0] as int) < (b[0] as int) {
        true
    } else if a[0] == b[0] {
        lex_less(a.drop_first(), b.drop_first())
    } else {
        false
    }
}

proof fn lemma_lex_irreflexive(a: Seq<char>)
    ensures
        !lex_less(a, a),
    decreases a.len(),
{
    if a.len() > 0 {
        lemma_lex_irreflexive(a.drop_first());
    }
}

proof fn lemma_lex_transitive(a: Seq<char>, b: Seq<char>, c: Seq<char>)
    requires
        lex_less(a, b),
        lex_less(b, c),
    ensures
        lex_less(a, c),
    decreases a.len(),
{
    if a.len() > 0 && b.len() > 0 && c.len() > 0 && a[0] == b[0] && b[0] == c[0] {
        lemma_lex_transitive(a.drop_first(), b.drop_first(), c.drop_first());
    }
}

proof fn lemma_lex_total(a: Seq<char>, b: Seq<char>)
    ensures
        lex_less(a, b) || lex_less(b, a) || a == b,
    decreases a.len(),
{
    if a.len() > 0 && b.len() > 0 {
        if a[0] == b[0] {
            lemma_lex_total(a.drop_first(), b.drop_first());
            if a.drop_first() == b.drop_first() {
                assert(a =~= seq![a[0]] + a.drop_first());
                assert(b =~= seq![b[0]] + b.drop_first());
            }
        } else {
            assert((a[0] as int) != (b[0] as int));
        }
    } else if a.len() == 0 && b.len() == 0 {
        assert(a =~= b);
    }
}

/// Whether `a` comes before `b` as strings order.
fn less(a: &Vec<char>, b: &Vec<char>) -> (r: bool)
    ensures
        r == lex_less(a@, b@),
{
    let mut i: usize = 0;
    assert(a@.skip(0) =~= a@);
    assert(b@.skip(0) =~= b@);
    while i < a.len() && i < b.len() && a[i] == b[i]
        invariant
            i <= a@.len(),
            i <= b@.len(),
            lex_less(a@, b@) == lex_less(a@.skip(i as int), b@.skip(i as int)),
        decreases a.len() - i,
    {
        assert(a@.skip(i as int).drop_first() =~= a@.skip(i + 1));
        assert(b@.skip(i as int).drop_first() =~= b@.skip(i + 1));
        i = i + 1;
    }
    if i == a.len() {
        assert(a@.skip(i as int).len() == 0);
        i < b.len()
    } else if i == b.len() {
        false
    } else {
        assert(a@.skip(i as int)[0] == a@[i as int]);
        assert(b@.skip(i as int)[0] == b@[i as int]);
        a[i] < b[i]
    }
}

/// The characters of each of `v`.
pub open spec fn views_of(v: Seq<Vec<char>>) -> Seq<Seq<char>> {
    v.map_values(|x: Vec<char>| x@)
}

/// Whether `s` is in order, each once.
pub open spec fn strictly_sorted(s: Seq<Seq<char>>) -> bool {
    forall|i: int, j: int| 0 <= i < j < s.len() ==> lex_less(#[trigger] s[i], #[trigger] s[j])
}

/// Every label on `tasks` (each task's categories), as a set.
pub open spec fn labels_on(tasks: Seq<Vec<String>>) -> Set<Seq<char>> {
    Set::new(|x: Seq<char>| exists|t: int, k: int| 0 <= t < tasks.len() && 0 <= k < tasks[t]@.len() && #[trigger] tasks[t]@[k]@ == x)
}

/// The labels Tab offers: the user's categories when they're known, else
/// those on the tasks read so far, in order, each once.
pub fn known_labels(categories: &Categories, tasks: &Vec<Vec<String>>) -> (labels: Vec<String>)
    ensures
        match categories {
            Categories::Known(Some(known)) => labels@.map_values(|s: String| s@) == known@.map_values(|s: String| s@),
            _ => strictly_sorted(labels@.map_values(|s: String| s@)) && labels@.map_values(|s: String| s@).to_set()
                == labels_on(tasks@),
        },
{
    if let Categories::Known(Some(known)) = categories {
        let mut out: Vec<String> = Vec::new();
        let mut i: usize = 0;
        while i < known.len()
            invariant
                i <= known@.len(),
                out@.len() == i,
                forall|k: int| 0 <= k < i ==> (#[trigger] out@[k])@ == known@[k]@,
            decreases known.len() - i,
        {
            out.push(known[i].clone());
            i = i + 1;
        }
        assert(out@.map_values(|s: String| s@) =~= known@.map_values(|s: String| s@));
        return out;
    }
    let mut sorted: Vec<Vec<char>> = Vec::new();
    let mut t: usize = 0;
    while t < tasks.len()
        invariant
            t <= tasks@.len(),
            strictly_sorted(views_of(sorted@)),
            forall|x: Seq<char>| #[trigger] views_of(sorted@).contains(x) <==> exists|t2: int, k: int|
                0 <= t2 < t && 0 <= k < tasks@[t2]@.len() && #[trigger] tasks@[t2]@[k]@ == x,
        decreases tasks.len() - t,
    {
        let mut k: usize = 0;
        while k < tasks[t].len()
            invariant
                t < tasks@.len(),
                k <= tasks@[t as int]@.len(),
                strictly_sorted(views_of(sorted@)),
                forall|x: Seq<char>| #[trigger] views_of(sorted@).contains(x) <==> (exists|t2: int, k2: int|
                    0 <= t2 < t && 0 <= k2 < tasks@[t2]@.len() && #[trigger] tasks@[t2]@[k2]@ == x) || (exists|k2: int|
                    0 <= k2 < k && #[trigger] tasks@[t as int]@[k2]@ == x),
            decreases tasks@[t as int]@.len() - k,
        {
            let label = chars_of(tasks[t][k].as_str());
            insert_sorted(&mut sorted, label);
            k = k + 1;
        }
        t = t + 1;
    }
    let mut labels: Vec<String> = Vec::new();
    let mut i: usize = 0;
    while i < sorted.len()
        invariant
            i <= sorted@.len(),
            labels@.len() == i,
            forall|k: int| 0 <= k < i ==> (#[trigger] labels@[k])@ == sorted@[k]@,
        decreases sorted.len() - i,
    {
        labels.push(string_of(&sorted[i]));
        i = i + 1;
    }
    let ghost lv = labels@.map_values(|s: String| s@);
    assert(lv =~= views_of(sorted@));
    assert(lv.to_set() =~= labels_on(tasks@)) by {
        assert forall|x: Seq<char>| lv.to_set().contains(x) <==> labels_on(tasks@).contains(x) by {
            assert(lv.to_set().contains(x) == lv.contains(x));
        }
    }
    labels
}

/// Put `label` in `sorted`, in order, unless it's there.
fn insert_sorted(sorted: &mut Vec<Vec<char>>, label: Vec<char>)
    requires
        strictly_sorted(views_of(old(sorted)@)),
    ensures
        strictly_sorted(views_of(final(sorted)@)),
        forall|x: Seq<char>| #[trigger] views_of(final(sorted)@).contains(x) <==> (views_of(old(sorted)@).contains(x) || x == label@),
{
    let ghost before = views_of(sorted@);
    let mut p: usize = 0;
    while p < sorted.len() && less(&sorted[p], &label)
        invariant
            p <= sorted@.len(),
            before == views_of(sorted@),
            forall|j: int| 0 <= j < p ==> lex_less(#[trigger] before[j], label@),
        decreases sorted.len() - p,
    {
        p = p + 1;
    }
    if p < sorted.len() {
        proof {
            lemma_lex_total(before[p as int], label@);
        }
        if !less(&label, &sorted[p]) {
            // Not before it, nor after: it's there already.
            assert(before[p as int] == label@);
            assert(before.contains(label@));
            return;
        }
    }
    sorted.insert(p, label);
    proof {
        let after = views_of(sorted@);
        assert(after =~= before.insert(p as int, label@));
        assert forall|i: int, j: int| 0 <= i < j < after.len() implies lex_less(#[trigger] after[i], #[trigger] after[j]) by {
            if j < p {
                assert(after[i] == before[i] && after[j] == before[j]);
            } else if j == p {
                assert(after[j] == label@);
                assert(after[i] == before[i]);
            } else if i == p {
                assert(after[i] == label@);
                assert(after[j] == before[j - 1]);
                if j - 1 > p {
                    assert(lex_less(before[p as int], before[j - 1]));
                    lemma_lex_transitive(label@, before[p as int], before[j - 1]);
                }
            } else if i < p {
                assert(after[i] == before[i]);
                assert(after[j] == before[j - 1]);
                assert(lex_less(before[i], label@));
                if j - 1 >= p {
                    if j - 1 > p {
                        assert(lex_less(before[p as int], before[j - 1]));
                        lemma_lex_transitive(label@, before[p as int], before[j - 1]);
                    }
                    lemma_lex_transitive(before[i], label@, before[j - 1]);
                }
            } else {
                assert(after[i] == before[i - 1]);
                assert(after[j] == before[j - 1]);
            }
        }
        assert forall|x: Seq<char>| after.contains(x) <==> (before.contains(x) || x == label@) by {
            if after.contains(x) {
                let k = choose|k: int| 0 <= k < after.len() && after[k] == x;
                if k < p {
                    assert(before[k] == x);
                } else if k > p {
                    assert(before[k - 1] == x);
                }
            }
            if before.contains(x) {
                let k = choose|k: int| 0 <= k < before.len() && before[k] == x;
                if k < p {
                    assert(after[k] == x);
                } else {
                    assert(after[k + 1] == x);
                }
            }
            if x == label@ {
                assert(after[p as int] == x);
            }
        }
    }
}

} // verus!
