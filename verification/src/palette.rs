//! The command palette's ranking: every action in the keybinding registry
//! and every list and view is found by typing part of its name. An exact
//! name first, then a name's start, then a word's start, then anywhere in
//! it, then a key that does the same, then the query's letters in order,
//! so "gtgr" finds "Go to Groceries".

use vstd::prelude::*;

use crate::action::Action;
use crate::attachments::split_slash;
use crate::cascade::{count_marked, lemma_count_bound, lemma_count_mark};
use crate::folders::{scope_name, scope_name_spec};
use crate::keybindings::{commands, commands_spec, commands_view};
use crate::scope::{entries_view, entry_view, scope_view, Entry, EntryV, Scope, ScopeV, SidebarList};
use crate::search::{split_whitespace, split_ws, strings_view};
use crate::text::{
    chars_of, concat, contains_spec, contains_str, has_prefix, has_prefix_spec, is_whitespace,
    lowercase_of, push_char, str_eq, to_lowercase, trim, trim_spec, whitespace_char,
};

verus! {

/// `q` without its whitespace.
pub open spec fn without_spaces(q: Seq<char>) -> Seq<char>
    decreases q.len(),
{
    if q.len() == 0 {
        q
    } else if whitespace_char(q.last()) {
        without_spaces(q.drop_last())
    } else {
        without_spaces(q.drop_last()).push(q.last())
    }
}

/// The first place at or after `from` where `label` has `c`, or -1.
pub open spec fn next_index(label: Seq<char>, c: char, from: int) -> int
    decreases label.len() - from,
{
    if from < 0 || from >= label.len() {
        -1
    } else if label[from] == c {
        from
    } else {
        next_index(label, c, from + 1)
    }
}

/// Where the last of `wanted`'s letters is found when each is looked for
/// in `label` after the one before it, starting at `from`; `None` when
/// one isn't there.
pub open spec fn last_match(label: Seq<char>, wanted: Seq<char>, from: int) -> Option<int>
    decreases wanted.len(),
{
    if wanted.len() == 0 {
        None
    } else {
        let at = next_index(label, wanted[0], from);
        if at < 0 {
            None
        } else if wanted.len() == 1 {
            Some(at)
        } else {
            last_match(label, wanted.drop_first(), at + 1)
        }
    }
}

/// How many characters of `label` it takes to find `query`'s letters in
/// order, ignoring its spaces: from the first letter found to the last.
/// With no letters to find, none of the label is needed.
pub open spec fn spread_spec(label: Seq<char>, query: Seq<char>) -> Option<nat> {
    let wanted = without_spaces(query);
    if wanted.len() == 0 {
        Some(0)
    } else {
        match last_match(label, wanted, 0) {
            Some(end) => Some((end + 1 - next_index(label, wanted[0], 0)) as nat),
            None => None,
        }
    }
}

/// `q`'s characters without whitespace.
fn letters(q: &str) -> (w: Vec<char>)
    ensures
        w@ == without_spaces(q@),
{
    let chars = chars_of(q);
    let mut w: Vec<char> = Vec::new();
    let mut i: usize = 0;
    while i < chars.len()
        invariant
            chars@ == q@,
            i <= chars.len(),
            w@ == without_spaces(q@.subrange(0, i as int)),
        decreases chars.len() - i,
    {
        assert(q@.subrange(0, i + 1).drop_last() =~= q@.subrange(0, i as int));
        if !is_whitespace(chars[i]) {
            w.push(chars[i]);
        }
        i = i + 1;
    }
    assert(q@.subrange(0, chars.len() as int) =~= q@);
    w
}

/// Looking on from a place that doesn't have the letter looks on from
/// the next.
proof fn lemma_skip(label: Seq<char>, wanted: Seq<char>, i: int)
    requires
        0 <= i < label.len(),
        wanted.len() > 0,
        label[i] != wanted[0],
    ensures
        last_match(label, wanted, i) == last_match(label, wanted, i + 1),
        next_index(label, wanted[0], i) == next_index(label, wanted[0], i + 1),
{
}

/// Finding the letter where one looks finds it there.
proof fn lemma_take(label: Seq<char>, wanted: Seq<char>, i: int)
    requires
        0 <= i < label.len(),
        wanted.len() > 0,
        label[i] == wanted[0],
    ensures
        next_index(label, wanted[0], i) == i,
        last_match(label, wanted, i) == if wanted.len() == 1 {
            Some(i)
        } else {
            last_match(label, wanted.drop_first(), i + 1)
        },
{
}

/// How many characters of `label` it takes to find `query`'s letters in
/// order, ignoring its spaces; `None` when they aren't all there. With no
/// letters to find, none of the label is needed.
pub fn spread(label: &str, query: &str) -> (r: Option<usize>)
    ensures
        match r {
            Some(n) => spread_spec(label@, query@) == Some(n as nat),
            None => spread_spec(label@, query@) is None,
        },
{
    let wanted = letters(query);
    if wanted.len() == 0 {
        return Some(0);
    }
    let chars = chars_of(label);
    let ghost w = wanted@;
    let ghost l = label@;
    let mut k: usize = 0;
    let mut first: usize = 0;
    let mut at: usize = 0;
    while at < chars.len()
        invariant
            chars@ == l,
            l == label@,
            w == wanted@,
            w == without_spaces(query@),
            at <= chars.len(),
            k == 0 || k < w.len(),
            k == 0 ==> last_match(l, w, 0) == last_match(l, w, at as int),
            k == 0 && w.len() > 0 ==> next_index(l, w[0], 0) == next_index(l, w[0], at as int),
            k > 0 ==> last_match(l, w, 0) == last_match(l, w.subrange(k as int, w.len() as int), at as int),
            k > 0 ==> first == next_index(l, w[0], 0) && first < at,
        decreases chars.len() - at,
    {
        let ch = chars[at];
        if k < wanted.len() && wanted[k] == ch {
            let ghost rest = w.subrange(k as int, w.len() as int);
            proof {
                lemma_take(l, rest, at as int);
                if k == 0 {
                    assert(rest =~= w);
                }
                assert(last_match(l, w, 0) == last_match(l, rest, at as int));
            }
            if k == 0 {
                first = at;
            }
            if k + 1 == wanted.len() {
                proof {
                    assert(rest.len() == 1);
                    assert(last_match(l, rest, at as int) == Some(at as int));
                    assert(last_match(l, w, 0) == Some(at as int));
                    assert(first == next_index(l, w[0], 0));
                }
                return Some(at + 1 - first);
            }
            proof {
                assert(rest.len() > 1);
                assert(rest.drop_first() =~= w.subrange(k + 1, w.len() as int));
                assert(last_match(l, w, 0) == last_match(l, w.subrange(k + 1, w.len() as int), at + 1));
            }
            k = k + 1;
        } else {
            proof {
                if w.len() > 0 {
                    let rest = w.subrange(k as int, w.len() as int);
                    lemma_skip(l, rest, at as int);
                    if k == 0 {
                        assert(rest =~= w);
                    }
                }
            }
        }
        at = at + 1;
    }
    proof {
        if w.len() > 0 {
            assert(w.subrange(k as int, w.len() as int).len() > 0);
        }
    }
    None
}

/// The pieces of `s` between its `/`s.
fn split_on_slash(s: &str) -> (pieces: Vec<String>)
    ensures
        strings_view(pieces@) == split_slash(s@),
{
    let n = s.unicode_len();
    let mut pieces: Vec<String> = Vec::new();
    let mut piece = String::new();
    let mut i: usize = 0;
    assert(s@.take(0) =~= Seq::<char>::empty());
    while i < n
        invariant
            n == s@.len(),
            i <= n,
            split_slash(s@.take(i as int)).len() > 0,
            strings_view(pieces@) == split_slash(s@.take(i as int)).drop_last(),
            piece@ == split_slash(s@.take(i as int)).last(),
        decreases n - i,
    {
        let c = s.get_char(i);
        let ghost before = split_slash(s@.take(i as int));
        assert(s@.take(i + 1).drop_last() =~= s@.take(i as int));
        if c == '/' {
            let ghost prior = pieces@;
            pieces.push(piece);
            piece = String::new();
            assert(strings_view(pieces@) =~= strings_view(prior).push(before.last()));
            assert(strings_view(pieces@) =~= split_slash(s@.take(i + 1)).drop_last());
            assert(piece@ =~= Seq::<char>::empty());
        } else {
            push_char(&mut piece, c);
            assert(split_slash(s@.take(i + 1)).drop_last() =~= before.drop_last());
        }
        i = i + 1;
    }
    let ghost all = split_slash(s@.take(n as int));
    let ghost prior = pieces@;
    pieces.push(piece);
    assert(s@.take(n as int) =~= s@);
    assert(strings_view(pieces@) =~= strings_view(prior).push(all.last()));
    assert(strings_view(pieces@) =~= all);
    pieces
}

/// How well an entry labelled `label`, done by `keys` (`/` between two
/// keys), matches `query` (trimmed and lowercase), lower first: exact,
/// the label's start, a word's start, anywhere, a key, then the letters
/// in order, ordered among themselves by how spread out they are. `None`
/// when it doesn't match.
pub open spec fn score_spec(label: Seq<char>, keys: Seq<char>, query: Seq<char>) -> Option<(u8, nat)> {
    let l = lowercase_of(label);
    let words = split_ws(l);
    let key_list = split_slash(lowercase_of(keys));
    if query.len() == 0 || l == query {
        Some((0, 0))
    } else if has_prefix_spec(l, query) {
        Some((1, 0))
    } else if exists|i: int| 0 <= i < words.len() && has_prefix_spec(#[trigger] words[i], query) {
        Some((2, 0))
    } else if contains_spec(l, query) {
        Some((3, 0))
    } else if exists|i: int| 0 <= i < key_list.len() && #[trigger] key_list[i] == query {
        Some((4, 0))
    } else {
        match spread_spec(l, query) {
            Some(n) => Some((5, n)),
            None => None,
        }
    }
}

/// How well an entry labelled `label`, done by `keys`, matches `query`
/// (trimmed and lowercase), lower first; `None` when it doesn't.
pub fn score(label: &str, keys: &str, query: &str) -> (r: Option<(u8, usize)>)
    ensures
        match r {
            Some((tier, n)) => score_spec(label@, keys@, query@) == Some((tier, n as nat)),
            None => score_spec(label@, keys@, query@) is None,
        },
{
    if query.unicode_len() == 0 {
        return Some((0, 0));
    }
    let lowered = to_lowercase(label);
    let l = lowered.as_str();
    if str_eq(l, query) {
        return Some((0, 0));
    }
    if has_prefix(l, query) {
        return Some((1, 0));
    }
    let words = split_whitespace(&chars_of(l));
    let mut i: usize = 0;
    while i < words.len()
        invariant
            i <= words.len(),
            strings_view(words@) == split_ws(lowercase_of(label@)),
            query@.len() > 0,
            l@ == lowercase_of(label@),
            l@ != query@,
            !has_prefix_spec(l@, query@),
            forall|j: int| 0 <= j < i ==> !has_prefix_spec(#[trigger] strings_view(words@)[j], query@),
        decreases words.len() - i,
    {
        if has_prefix(words[i].as_str(), query) {
            assert(strings_view(words@)[i as int] == words@[i as int]@);
            assert(has_prefix_spec(split_ws(lowercase_of(label@))[i as int], query@));
            return Some((2, 0));
        }
        i = i + 1;
    }
    assert(forall|j: int| 0 <= j < split_ws(l@).len() ==> !has_prefix_spec(#[trigger] split_ws(l@)[j], query@));
    if contains_str(l, query) {
        return Some((3, 0));
    }
    let lowered_keys = to_lowercase(keys);
    let pieces = split_on_slash(lowered_keys.as_str());
    let mut k: usize = 0;
    while k < pieces.len()
        invariant
            k <= pieces.len(),
            strings_view(pieces@) == split_slash(lowercase_of(keys@)),
            query@.len() > 0,
            l@ == lowercase_of(label@),
            l@ != query@,
            !has_prefix_spec(l@, query@),
            !contains_spec(l@, query@),
            forall|j: int| 0 <= j < split_ws(l@).len() ==> !has_prefix_spec(#[trigger] split_ws(l@)[j], query@),
            forall|j: int| 0 <= j < k ==> #[trigger] strings_view(pieces@)[j] != query@,
        decreases pieces.len() - k,
    {
        if str_eq(pieces[k].as_str(), query) {
            assert(strings_view(pieces@)[k as int] == pieces@[k as int]@);
            assert(split_slash(lowercase_of(keys@))[k as int] == query@);
            return Some((4, 0));
        }
        k = k + 1;
    }
    match spread(l, query) {
        Some(n) => Some((5, n)),
        None => None,
    }
}

} // verus!

verus! {

/// What a palette entry does.
#[derive(Clone, Debug, PartialEq, Eq)]
pub enum Command {
    Run(Action),
    Go(Scope),
}

/// A palette entry.
#[derive(Clone, Debug, PartialEq, Eq)]
pub struct Item {
    pub label: String,
    /// The keys that do the same, empty for "Go to".
    pub keys: String,
    pub command: Command,
}

/// A command as the contracts read it.
pub enum CommandV {
    Run(Action),
    Go(ScopeV),
}

pub open spec fn item_view(item: Item) -> (Seq<char>, Seq<char>, CommandV) {
    (
        item.label@,
        item.keys@,
        match item.command {
            Command::Run(a) => CommandV::Run(a),
            Command::Go(s) => CommandV::Go(scope_view(s)),
        },
    )
}

pub open spec fn items_view(items: Seq<Item>) -> Seq<(Seq<char>, Seq<char>, CommandV)> {
    items.map_values(|i: Item| item_view(i))
}

impl Item {
    /// A copy of the entry.
    pub fn copy(&self) -> (c: Item)
        ensures
            item_view(c) == item_view(*self),
    {
        let command = match &self.command {
            Command::Run(a) => Command::Run(*a),
            Command::Go(s) => Command::Go(s.copy()),
        };
        Item { label: self.label.clone(), keys: self.keys.clone(), command }
    }
}

/// The label and keys of each entry.
pub open spec fn texts_of(items: Seq<(Seq<char>, Seq<char>, CommandV)>) -> Seq<(Seq<char>, Seq<char>)> {
    items.map_values(|x: (Seq<char>, Seq<char>, CommandV)| (x.0, x.1))
}

pub open spec fn texts_view(texts: Seq<(String, String)>) -> Seq<(Seq<char>, Seq<char>)> {
    texts.map_values(|t: (String, String)| (t.0@, t.1@))
}

/// The score of entry `i` of `texts` (`(label, keys)`) for `query`.
pub open spec fn score_of(texts: Seq<(Seq<char>, Seq<char>)>, i: int, query: Seq<char>) -> Option<(u8, nat)> {
    score_spec(texts[i].0, texts[i].1, query)
}

/// Whether entry `i` ranks before entry `j`: a better score, or the same
/// and earlier.
pub open spec fn ranks_before(texts: Seq<(Seq<char>, Seq<char>)>, query: Seq<char>, i: int, j: int) -> bool {
    match (score_of(texts, i, query), score_of(texts, j, query)) {
        (Some(a), Some(b)) => a.0 < b.0 || (a.0 == b.0 && (a.1 < b.1 || (a.1 == b.1 && i < j))),
        _ => false,
    }
}

/// Whether `order` lists the entries of `texts` that match `query`, each
/// once, best first: by score, then in the order given.
pub open spec fn ranked(texts: Seq<(Seq<char>, Seq<char>)>, query: Seq<char>, order: Seq<int>) -> bool {
    &&& forall|k: int| 0 <= k < order.len() ==> 0 <= #[trigger] order[k] < texts.len() && score_of(texts, order[k], query) is Some
    &&& forall|a: int, b: int| 0 <= a < b < order.len() ==> ranks_before(texts, query, #[trigger] order[a], #[trigger] order[b])
    &&& forall|i: int| 0 <= i < texts.len() && #[trigger] score_of(texts, i, query) is Some ==> exists|k: int| 0 <= k < order.len() && order[k] == i
}

/// The palette's order is determined: two orders that both rank the
/// entries matching a query are the same.
pub proof fn law_ranked_order_is_unique(
    texts: Seq<(Seq<char>, Seq<char>)>,
    query: Seq<char>,
    o1: Seq<int>,
    o2: Seq<int>,
)
    requires
        ranked(texts, query, o1),
        ranked(texts, query, o2),
    ensures
        o1 == o2,
{
    assert forall|k: int| 0 <= k < o1.len() implies k < o2.len() && o1[k] == o2[k] by {
        lemma_ranked_agree(texts, query, o1, o2, k);
    }
    if o2.len() > o1.len() {
        lemma_ranked_agree(texts, query, o2, o1, o1.len() as int);
    }
    if o1.len() > 0 {
        lemma_ranked_agree(texts, query, o1, o2, o1.len() - 1);
    }
    assert(o1.len() == o2.len());
    assert forall|k: int| 0 <= k < o1.len() implies o1[k] == o2[k] by {
        lemma_ranked_agree(texts, query, o1, o2, k);
    }
    assert(o1 =~= o2);
}

proof fn lemma_ranked_agree(texts: Seq<(Seq<char>, Seq<char>)>, query: Seq<char>, o1: Seq<int>, o2: Seq<int>, k: int)
    requires
        ranked(texts, query, o1),
        ranked(texts, query, o2),
        0 <= k < o1.len(),
    ensures
        k < o2.len(),
        o1[k] == o2[k],
    decreases k,
{
    if k > 0 {
        lemma_ranked_agree(texts, query, o1, o2, k - 1);
    }
    assert forall|j: int| 0 <= j < k implies o1[j] == o2[j] by {
        lemma_ranked_agree(texts, query, o1, o2, j);
    }
    let x = o1[k];
    assert(score_of(texts, x, query) is Some);
    let p = choose|p: int| 0 <= p < o2.len() && o2[p] == x;
    if p < k {
        assert(o1[p] == o2[p]);
        assert(ranks_before(texts, query, o1[p], o1[k]));
    }
    assert(p >= k);
    let y = o2[k];
    assert(score_of(texts, y, query) is Some);
    let q = choose|q: int| 0 <= q < o1.len() && o1[q] == y;
    if q < k {
        assert(o1[q] == o2[q]);
        assert(ranks_before(texts, query, o2[q], o2[k]));
    }
    assert(q >= k);
    if p > k && q > k {
        assert(ranks_before(texts, query, o2[k], o2[p]));
        assert(ranks_before(texts, query, o1[k], o1[q]));
    }
}

/// Whether score `a` at `i` comes before score `b` at `j`.
fn before(a: (u8, usize), i: usize, b: (u8, usize), j: usize) -> (r: bool)
    ensures
        r == (a.0 < b.0 || (a.0 == b.0 && (a.1 < b.1 || (a.1 == b.1 && i < j)))),
{
    a.0 < b.0 || (a.0 == b.0 && (a.1 < b.1 || (a.1 == b.1 && i < j)))
}

pub open spec fn as_ints(order: Seq<usize>) -> Seq<int> {
    order.map_values(|i: usize| i as int)
}

/// Where the entries of `texts` (`(label, keys)`) that match `query`
/// (trimmed, any case) are, best first: by score, then in the order given.
pub fn rank_order(texts: &Vec<(String, String)>, query: &str) -> (order: Vec<usize>)
    ensures
        ranked(texts_view(texts@), lowercase_of(trim_spec(query@)), as_ints(order@)),
{
    let trimmed = trim(query);
    let q = to_lowercase(trimmed.as_str());
    let ghost view = texts_view(texts@);
    let ghost qv = lowercase_of(trim_spec(query@));
    let n = texts.len();
    let mut scores: Vec<Option<(u8, usize)>> = Vec::new();
    let mut i: usize = 0;
    while i < n
        invariant
            n == texts@.len(),
            view == texts_view(texts@),
            q@ == qv,
            i <= n,
            scores@.len() == i,
            forall|k: int| 0 <= k < i ==> match #[trigger] scores@[k] {
                Some((t, s)) => score_of(view, k, qv) == Some((t, s as nat)),
                None => score_of(view, k, qv) is None,
            },
        decreases n - i,
    {
        let s = score(texts[i].0.as_str(), texts[i].1.as_str(), q.as_str());
        scores.push(s);
        i = i + 1;
    }
    let mut picked: Vec<bool> = Vec::new();
    let mut k: usize = 0;
    while k < n
        invariant
            k <= n,
            picked@.len() == k,
            forall|m: int| 0 <= m < k ==> !picked@[m],
            count_marked(picked@) == 0,
        decreases n - k,
    {
        let ghost prior = picked@;
        picked.push(false);
        assert(picked@.drop_last() =~= prior);
        k = k + 1;
    }
    let mut out: Vec<usize> = Vec::new();
    loop
        invariant
            n == texts@.len(),
            view == texts_view(texts@),
            scores@.len() == n,
            picked@.len() == n,
            forall|m: int| 0 <= m < n ==> match #[trigger] scores@[m] {
                Some((t, s)) => score_of(view, m, qv) == Some((t, s as nat)),
                None => score_of(view, m, qv) is None,
            },
            forall|k: int| 0 <= k < out@.len() ==> 0 <= #[trigger] out@[k] < n && score_of(view, out@[k] as int, qv) is Some,
            forall|a: int, b: int| 0 <= a < b < out@.len() ==> ranks_before(view, qv, #[trigger] out@[a] as int, #[trigger] out@[b] as int),
            forall|m: int| 0 <= m < n ==> (#[trigger] picked@[m] <==> exists|k: int| 0 <= k < out@.len() && out@[k] == m),
            forall|k: int, m: int|
                0 <= k < out@.len() && 0 <= m < n && !picked@[m] && score_of(view, m, qv) is Some ==> #[trigger] ranks_before(
                    view,
                    qv,
                    out@[k] as int,
                    m,
                ),
            count_marked(picked@) == out@.len(),
        ensures
            ranked(view, qv, as_ints(out@)),
        decreases n - count_marked(picked@),
    {
        let mut best: Option<usize> = None;
        let mut j: usize = 0;
        while j < n
            invariant
                n == texts@.len(),
                scores@.len() == n,
                picked@.len() == n,
                j <= n,
                forall|m: int| 0 <= m < n ==> match #[trigger] scores@[m] {
                    Some((t, s)) => score_of(view, m, qv) == Some((t, s as nat)),
                    None => score_of(view, m, qv) is None,
                },
                match best {
                    Some(b) => b < j && !picked@[b as int] && score_of(view, b as int, qv) is Some && forall|m: int|
                        0 <= m < j && m != b && !picked@[m] && score_of(view, m, qv) is Some ==> ranks_before(
                            view,
                            qv,
                            b as int,
                            m,
                        ),
                    None => forall|m: int| 0 <= m < j ==> picked@[m] || score_of(view, m, qv) is None,
                },
            decreases n - j,
        {
            if !picked[j] {
                if let Some(s) = scores[j] {
                    let better = match best {
                        None => true,
                        Some(b) => match scores[b] {
                            Some(t) => before(s, j, t, b),
                            None => false,
                        },
                    };
                    if better {
                        best = Some(j);
                    }
                }
            }
            j = j + 1;
        }
        let b = match best {
            Some(b) => b,
            None => {
                assert forall|m: int| 0 <= m < view.len() && #[trigger] score_of(view, m, qv) is Some implies exists|k: int|
                    0 <= k < as_ints(out@).len() && as_ints(out@)[k] == m by {
                    assert(picked@[m]);
                    let k = choose|k: int| 0 <= k < out@.len() && out@[k] == m;
                    assert(as_ints(out@)[k] == m);
                }
                break;
            },
        };
        proof {
            lemma_count_mark(picked@, b as int);
            lemma_count_bound(picked@.update(b as int, true));
        }
        let ghost old_out = out@;
        let ghost old_picked = picked@;
        out.push(b);
        picked.set(b, true);
        proof {
            assert forall|m: int| 0 <= m < n implies (#[trigger] picked@[m] <==> exists|k: int| 0 <= k < out@.len() && out@[k] == m) by {
                if m == b {
                    assert(out@[out@.len() - 1] == m);
                } else {
                    assert(picked@[m] == old_picked[m]);
                    if exists|k: int| 0 <= k < old_out.len() && old_out[k] == m {
                        let k = choose|k: int| 0 <= k < old_out.len() && old_out[k] == m;
                        assert(out@[k] == m);
                    }
                    if exists|k: int| 0 <= k < out@.len() && out@[k] == m {
                        let k = choose|k: int| 0 <= k < out@.len() && out@[k] == m;
                        assert(k < old_out.len());
                        assert(old_out[k] == m);
                    }
                }
            }
        }
    }
    out
}

/// The label and keys of each item.
fn texts_from(items: &Vec<Item>) -> (texts: Vec<(String, String)>)
    ensures
        texts_view(texts@) == texts_of(items_view(items@)),
{
    let mut texts: Vec<(String, String)> = Vec::new();
    let mut i: usize = 0;
    while i < items.len()
        invariant
            i <= items@.len(),
            texts_view(texts@) == texts_of(items_view(items@)).subrange(0, i as int),
        decreases items.len() - i,
    {
        let ghost prior = texts_view(texts@);
        texts.push((items[i].label.clone(), items[i].keys.clone()));
        assert(texts_view(texts@) =~= prior.push((items@[i as int].label@, items@[i as int].keys@)));
        assert(texts_of(items_view(items@)).subrange(0, i + 1) =~= texts_of(items_view(items@)).subrange(0, i as int).push(
            (items@[i as int].label@, items@[i as int].keys@),
        ));
        i = i + 1;
    }
    assert(texts_of(items_view(items@)).subrange(0, items@.len() as int) =~= texts_of(items_view(items@)));
    texts
}

/// The entries of `items` that match `query` (trimmed, any case), best
/// first: by score, then in the order given.
pub fn rank(items: &Vec<Item>, query: &str) -> (out: Vec<Item>)
    ensures
        exists|order: Seq<int>|
            ranked(texts_of(items_view(items@)), lowercase_of(trim_spec(query@)), order) && items_view(out@)
                == order.map_values(|i: int| items_view(items@)[i]),
{
    let texts = texts_from(items);
    let order = rank_order(&texts, query);
    let ghost view = items_view(items@);
    let ghost ord = as_ints(order@);
    let mut out: Vec<Item> = Vec::new();
    let mut k: usize = 0;
    while k < order.len()
        invariant
            view == items_view(items@),
            ord == as_ints(order@),
            ranked(texts_of(view), lowercase_of(trim_spec(query@)), ord),
            texts_of(view).len() == items@.len(),
            k <= order@.len(),
            items_view(out@) == ord.subrange(0, k as int).map_values(|i: int| view[i]),
        decreases order.len() - k,
    {
        assert(ord[k as int] == order@[k as int] as int);
        let c = items[order[k]].copy();
        let ghost prior = items_view(out@);
        out.push(c);
        assert(items_view(out@) =~= prior.push(item_view(c)));
        assert(ord.subrange(0, k + 1).map_values(|i: int| view[i]) =~= ord.subrange(0, k as int).map_values(
            |i: int| view[i],
        ).push(view[ord[k as int]]));
        k = k + 1;
    }
    assert(ord.subrange(0, order@.len() as int) =~= ord);
    out
}

} // verus!

verus! {

/// What choosing a sidebar row shows; a folder's heading shows nothing.
pub open spec fn entry_scope(e: EntryV) -> Option<ScopeV> {
    match e {
        EntryV::View(s) => Some(s),
        EntryV::Folder(..) => None,
        EntryV::List(id, _, _) => Some(ScopeV::List(id)),
    }
}

/// A "Go to" entry for each sidebar row that shows something, in order.
pub open spec fn places_spec(entries: Seq<EntryV>, lists: Seq<SidebarList>) -> Seq<(Seq<char>, Seq<char>, CommandV)>
    decreases entries.len(),
{
    if entries.len() == 0 {
        Seq::empty()
    } else {
        let before = places_spec(entries.drop_last(), lists);
        match entry_scope(entries.last()) {
            Some(s) => before.push(("Go to "@ + scope_name_spec(lists, Some(s)), Seq::empty(), CommandV::Go(s))),
            None => before,
        }
    }
}

/// Everything the palette offers, unranked: the registry's commands, each
/// with its keys, then a "Go to" for each sidebar row.
pub open spec fn candidates_spec(entries: Seq<Entry>, lists: Seq<SidebarList>) -> Seq<(Seq<char>, Seq<char>, CommandV)> {
    commands_spec().map_values(|c: (Seq<char>, Seq<char>, Action)| (c.1, c.0, CommandV::Run(c.2))) + places_spec(
        entries_view(entries),
        lists,
    )
}

/// Everything the palette offers for the sidebar's rows `entries` (its
/// lists `lists`), best match for `query` first.
pub fn palette_items(entries: &Vec<Entry>, lists: &Vec<SidebarList>, query: &str) -> (out: Vec<Item>)
    ensures
        exists|order: Seq<int>|
            ranked(texts_of(candidates_spec(entries@, lists@)), lowercase_of(trim_spec(query@)), order) && items_view(out@)
                == order.map_values(|i: int| candidates_spec(entries@, lists@)[i]),
{
    let commands = commands();
    let ghost cs = commands_spec().map_values(|c: (Seq<char>, Seq<char>, Action)| (c.1, c.0, CommandV::Run(c.2)));
    let mut items: Vec<Item> = Vec::new();
    let mut i: usize = 0;
    while i < commands.len()
        invariant
            commands_view(commands@) == commands_spec(),
            cs == commands_spec().map_values(|c: (Seq<char>, Seq<char>, Action)| (c.1, c.0, CommandV::Run(c.2))),
            i <= commands@.len(),
            items_view(items@) == cs.subrange(0, i as int),
        decreases commands.len() - i,
    {
        let ghost prior = items_view(items@);
        let item = Item {
            label: commands[i].1.to_owned(),
            keys: commands[i].0.clone(),
            command: Command::Run(commands[i].2),
        };
        items.push(item);
        assert(commands_view(commands@)[i as int] == (commands@[i as int].0@, commands@[i as int].1@, commands@[i as int].2));
        assert(items_view(items@) =~= prior.push(item_view(item)));
        assert(commands_view(commands@).len() == commands@.len());
        assert(cs[i as int] == item_view(item));
        assert(cs.subrange(0, i + 1) =~= cs.subrange(0, i as int).push(cs[i as int]));
        i = i + 1;
    }
    assert(commands_view(commands@).len() == commands@.len());
    assert(cs.subrange(0, commands@.len() as int) =~= cs);
    let ghost ev = entries_view(entries@);
    let mut k: usize = 0;
    while k < entries.len()
        invariant
            ev == entries_view(entries@),
            k <= entries@.len(),
            items_view(items@) == cs + places_spec(ev.subrange(0, k as int), lists@),
        decreases entries.len() - k,
    {
        assert(ev.subrange(0, k + 1).drop_last() =~= ev.subrange(0, k as int));
        assert(ev.subrange(0, k + 1).last() == entry_view(entries@[k as int]));
        match entries[k].scope() {
            Some(s) => {
                let name = scope_name(lists.as_slice(), Some(&s));
                let label = concat("Go to ", name.as_str());
                let ghost prior = items_view(items@);
                let item = Item { label, keys: String::new(), command: Command::Go(s) };
                items.push(item);
                assert(items_view(items@) =~= prior.push(item_view(item)));
            },
            None => {},
        }
        k = k + 1;
    }
    assert(ev.subrange(0, entries@.len() as int) =~= ev);
    assert(items_view(items@) == candidates_spec(entries@, lists@));
    rank(&items, query)
}

} // verus!
