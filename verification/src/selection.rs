//! Multi-select: which tasks `x` and `d` act on. The selection holds task
//! IDs of the scope on screen only: an ID whose row goes drops out, so a
//! bulk action never reaches a task that isn't shown.

use vstd::prelude::*;

use crate::text::str_eq;

verus! {

/// The IDs of the selected tasks.
#[derive(Clone, Debug, PartialEq, Eq)]
pub struct Selection {
    ids: Vec<String>,
}

/// The IDs among `ids`, as a set.
pub open spec fn id_set(ids: Seq<String>) -> Set<Seq<char>> {
    Set::new(|x: Seq<char>| exists|i: int| 0 <= i < ids.len() && #[trigger] ids[i]@ == x)
}

impl View for Selection {
    type V = Set<Seq<char>>;

    closed spec fn view(&self) -> Set<Seq<char>> {
        id_set(self.ids@)
    }
}

/// `v` on the task `id`: in, or out if it was in.
pub open spec fn toggled(s: Set<Seq<char>>, id: Seq<char>) -> Set<Seq<char>> {
    if s.contains(id) {
        s.remove(id)
    } else {
        s.insert(id)
    }
}

fn holds(ids: &Vec<String>, id: &str) -> (b: bool)
    ensures
        b == id_set(ids@).contains(id@),
{
    let mut i: usize = 0;
    while i < ids.len()
        invariant
            i <= ids@.len(),
            forall|k: int| 0 <= k < i ==> (#[trigger] ids@[k])@ != id@,
        decreases ids.len() - i,
    {
        if str_eq(ids[i].as_str(), id) {
            assert(ids@[i as int]@ == id@);
            return true;
        }
        i = i + 1;
    }
    false
}

impl Selection {
    /// Nothing selected.
    pub fn new() -> (s: Selection)
        ensures
            s@ == Set::<Seq<char>>::empty(),
    {
        let s = Selection { ids: Vec::new() };
        proof {
            assert(s@ =~= Set::<Seq<char>>::empty());
        }
        s
    }

    /// Whether nothing is selected.
    pub fn is_empty(&self) -> (b: bool)
        ensures
            b == (self@ == Set::<Seq<char>>::empty()),
    {
        proof {
            if self.ids@.len() > 0 {
                assert(self@.contains(self.ids@[0]@));
            } else {
                assert(self@ =~= Set::<Seq<char>>::empty());
            }
        }
        self.ids.len() == 0
    }

    /// Whether the task `id` is selected.
    pub fn contains(&self, id: &str) -> (b: bool)
        ensures
            b == self@.contains(id@),
    {
        holds(&self.ids, id)
    }

    /// `v`: add the task `id` to the selection, or take it out.
    pub fn toggle(&mut self, id: &str)
        ensures
            final(self)@ == toggled(old(self)@, id@),
    {
        if holds(&self.ids, id) {
            let mut kept: Vec<String> = Vec::new();
            let mut i: usize = 0;
            while i < self.ids.len()
                invariant
                    i <= self.ids@.len(),
                    forall|x: Seq<char>| #[trigger] id_set(kept@).contains(x) <==> (x != id@ && exists|k: int|
                        0 <= k < i && self.ids@[k]@ == x),
                decreases self.ids.len() - i,
            {
                if !str_eq(self.ids[i].as_str(), id) {
                    let ghost prior = kept@;
                    kept.push(self.ids[i].clone());
                    assert forall|x: Seq<char>| #[trigger] id_set(kept@).contains(x) <==> (x != id@ && exists|k: int|
                        0 <= k < i + 1 && self.ids@[k]@ == x) by {
                        if id_set(kept@).contains(x) {
                            let m = choose|m: int| 0 <= m < kept@.len() && #[trigger] kept@[m]@ == x;
                            if m < prior.len() {
                                assert(prior[m] == kept@[m]);
                                assert(id_set(prior).contains(x));
                            }
                        }
                        if x != id@ && exists|k: int| 0 <= k < i + 1 && self.ids@[k]@ == x {
                            let k = choose|k: int| 0 <= k < i + 1 && self.ids@[k]@ == x;
                            if k < i {
                                assert(exists|k2: int| 0 <= k2 < i && self.ids@[k2]@ == x);
                                assert(id_set(prior).contains(x));
                                let m = choose|m: int| 0 <= m < prior.len() && #[trigger] prior[m]@ == x;
                                assert(kept@[m] == prior[m]);
                            } else {
                                assert(kept@[prior.len() as int]@ == x);
                            }
                        }
                    }
                }
                i = i + 1;
            }
            let ghost before = self@;
            self.ids = kept;
            proof {
                assert(self@ =~= toggled(before, id@));
            }
        } else {
            let ghost before = self@;
            let ghost prior = self.ids@;
            self.ids.push(id.to_owned());
            proof {
                assert forall|x: Seq<char>| self@.contains(x) <==> toggled(before, id@).contains(x) by {
                    if x == id@ {
                        assert(self.ids@[prior.len() as int]@ == x);
                    } else if before.contains(x) {
                        let k = choose|k: int| 0 <= k < prior.len() && #[trigger] prior[k]@ == x;
                        assert(self.ids@[k] == prior[k]);
                    } else if self@.contains(x) {
                        let k = choose|k: int| 0 <= k < self.ids@.len() && #[trigger] self.ids@[k]@ == x;
                        assert(k < prior.len());
                        assert(prior[k] == self.ids@[k]);
                    }
                }
                assert(self@ =~= toggled(before, id@));
            }
        }
    }

    /// `V`: select every task in the view, `shown`.
    pub fn select_all(&mut self, shown: &Vec<String>)
        ensures
            final(self)@ == id_set(shown@),
    {
        let mut ids: Vec<String> = Vec::new();
        let mut i: usize = 0;
        while i < shown.len()
            invariant
                i <= shown@.len(),
                ids@.len() == i,
                forall|k: int| 0 <= k < i ==> (#[trigger] ids@[k])@ == shown@[k]@,
            decreases shown.len() - i,
        {
            ids.push(shown[i].clone());
            i = i + 1;
        }
        self.ids = ids;
        proof {
            assert forall|x: Seq<char>| self@.contains(x) <==> id_set(shown@).contains(x) by {
                if self@.contains(x) {
                    let k = choose|k: int| 0 <= k < self.ids@.len() && #[trigger] self.ids@[k]@ == x;
                    assert(shown@[k]@ == x);
                }
                if id_set(shown@).contains(x) {
                    let k = choose|k: int| 0 <= k < shown@.len() && #[trigger] shown@[k]@ == x;
                    assert(self.ids@[k]@ == x);
                }
            }
            assert(self@ =~= id_set(shown@));
        }
    }

    /// Esc: nothing selected.
    pub fn clear(&mut self)
        ensures
            final(self)@ == Set::<Seq<char>>::empty(),
    {
        self.ids = Vec::new();
        proof {
            assert(self@ =~= Set::<Seq<char>>::empty());
        }
    }

    /// Drop the IDs whose rows are gone: those not among `shown`.
    pub fn prune(&mut self, shown: &Vec<String>)
        ensures
            final(self)@ == old(self)@.intersect(id_set(shown@)),
    {
        let mut kept: Vec<String> = Vec::new();
        let mut i: usize = 0;
        while i < self.ids.len()
            invariant
                i <= self.ids@.len(),
                forall|x: Seq<char>| #[trigger] id_set(kept@).contains(x) <==> (id_set(shown@).contains(x) && exists|k: int|
                    0 <= k < i && self.ids@[k]@ == x),
            decreases self.ids.len() - i,
        {
            if holds(shown, self.ids[i].as_str()) {
                let ghost prior = kept@;
                kept.push(self.ids[i].clone());
                assert forall|x: Seq<char>| #[trigger] id_set(kept@).contains(x) <==> (id_set(shown@).contains(x) && exists|k: int|
                    0 <= k < i + 1 && self.ids@[k]@ == x) by {
                    if id_set(kept@).contains(x) {
                        let m = choose|m: int| 0 <= m < kept@.len() && #[trigger] kept@[m]@ == x;
                        if m < prior.len() {
                            assert(prior[m] == kept@[m]);
                            assert(id_set(prior).contains(x));
                        }
                    }
                    if id_set(shown@).contains(x) && exists|k: int| 0 <= k < i + 1 && self.ids@[k]@ == x {
                        let k = choose|k: int| 0 <= k < i + 1 && self.ids@[k]@ == x;
                        if k < i {
                            assert(exists|k2: int| 0 <= k2 < i && self.ids@[k2]@ == x);
                            assert(id_set(prior).contains(x));
                            let m = choose|m: int| 0 <= m < prior.len() && #[trigger] prior[m]@ == x;
                            assert(kept@[m] == prior[m]);
                        } else {
                            assert(kept@[prior.len() as int]@ == x);
                        }
                    }
                }
            }
            i = i + 1;
        }
        let ghost before = self@;
        self.ids = kept;
        proof {
            assert(self@ =~= before.intersect(id_set(shown@)));
        }
    }

    /// The tasks an action takes, as indexes into the tasks shown
    /// (`shown`, their IDs): the selected ones, in the order shown, or
    /// else the task under the cursor, if there's one there.
    pub fn targets(&self, shown: &Vec<String>, cursor: usize) -> (t: Vec<usize>)
        ensures
            forall|k: int| 0 <= k < t@.len() ==> #[trigger] t@[k] < shown@.len(),
            forall|a: int, b: int| 0 <= a < b < t@.len() ==> #[trigger] t@[a] < #[trigger] t@[b],
            self@ == Set::<Seq<char>>::empty() ==> t@ == (if cursor < shown@.len() {
                seq![cursor]
            } else {
                Seq::<usize>::empty()
            }),
            self@ != Set::<Seq<char>>::empty() ==> forall|i: int|
                0 <= i < shown@.len() ==> (self@.contains(#[trigger] shown@[i]@) <==> t@.contains(i as usize)),
    {
        let mut t: Vec<usize> = Vec::new();
        if self.is_empty() {
            if cursor < shown.len() {
                t.push(cursor);
            }
            return t;
        }
        let mut i: usize = 0;
        while i < shown.len()
            invariant
                i <= shown@.len(),
                forall|k: int| 0 <= k < t@.len() ==> #[trigger] t@[k] < i,
                forall|a: int, b: int| 0 <= a < b < t@.len() ==> #[trigger] t@[a] < #[trigger] t@[b],
                forall|m: int| 0 <= m < i ==> (self@.contains(#[trigger] shown@[m]@) <==> t@.contains(m as usize)),
            decreases shown.len() - i,
        {
            let ghost prior = t@;
            if self.contains(shown[i].as_str()) {
                t.push(i);
                assert forall|m: int| 0 <= m < i + 1 implies (self@.contains(#[trigger] shown@[m]@) <==> t@.contains(
                    m as usize,
                )) by {
                    if m < i {
                        if prior.contains(m as usize) {
                            let k = choose|k: int| 0 <= k < prior.len() && prior[k] == m as usize;
                            assert(t@[k] == m as usize);
                        }
                        if t@.contains(m as usize) {
                            let k = choose|k: int| 0 <= k < t@.len() && t@[k] == m as usize;
                            assert(k < prior.len());
                        }
                    } else {
                        assert(t@[prior.len() as int] == i);
                    }
                }
            } else {
                assert forall|m: int| 0 <= m < i + 1 implies (self@.contains(#[trigger] shown@[m]@) <==> t@.contains(
                    m as usize,
                )) by {
                    if m == i && t@.contains(m as usize) {
                        let k = choose|k: int| 0 <= k < t@.len() && t@[k] == m as usize;
                        assert(t@[k] < i);
                    }
                }
            }
            i = i + 1;
        }
        t
    }
}

/// `v` twice on the same task leaves the selection as it was.
pub proof fn law_toggle_twice(s: Set<Seq<char>>, id: Seq<char>)
    ensures
        toggled(toggled(s, id), id) == s,
{
    if s.contains(id) {
        assert(s.remove(id).insert(id) =~= s);
    } else {
        assert(s.insert(id).remove(id) =~= s);
    }
}

/// After a prune, every selected task is one shown.
pub proof fn law_prune_keeps_only_shown(s: Set<Seq<char>>, shown: Seq<String>, x: Seq<char>)
    requires
        s.intersect(id_set(shown)).contains(x),
    ensures
        exists|i: int| 0 <= i < shown.len() && shown[i]@ == x,
{
}

} // verus!
