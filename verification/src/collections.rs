//! Maps with keys that can be reasoned about.
use crate::text;
use vstd::prelude::*;

verus! {

/// A map from message ids, kept in the order of the ids.
#[derive(Debug)]
pub struct IdMap<T> {
    pub entries: Vec<(u32, T)>,
}

/// The entries as a map.
pub open spec fn id_map<T>(entries: Seq<(u32, T)>) -> Map<u32, T>
    decreases entries.len(),
{
    if entries.len() == 0 {
        Map::empty()
    } else {
        id_map(entries.drop_last()).insert(entries.last().0, entries.last().1)
    }
}

impl<T> View for IdMap<T> {
    type V = Map<u32, T>;

    open spec fn view(&self) -> Map<u32, T> {
        id_map(self.entries@)
    }
}

/// The ids of the entries grow.
pub open spec fn ids_grow<T>(entries: Seq<(u32, T)>) -> bool {
    forall|i: int, j: int|
        0 <= i < j < entries.len() ==> (#[trigger] entries[i]).0 < (#[trigger] entries[j]).0
}

proof fn lemma_id_map<T>(entries: Seq<(u32, T)>)
    requires
        ids_grow(entries),
    ensures
        forall|i: int|
            0 <= i < entries.len() ==> id_map(entries).contains_key((#[trigger] entries[i]).0)
                && id_map(entries)[entries[i].0] == entries[i].1,
        forall|id: u32| #[trigger]
            id_map(entries).contains_key(id) ==> exists|i: int|
                0 <= i < entries.len() && (#[trigger] entries[i]).0 == id,
    decreases entries.len(),
{
    if entries.len() > 0 {
        let rest = entries.drop_last();
        assert forall|i: int, j: int| 0 <= i < j < rest.len() implies (#[trigger] rest[i]).0 < (
        #[trigger] rest[j]).0 by {
            assert(rest[i] == entries[i] && rest[j] == entries[j]);
        }
        lemma_id_map(rest);
        assert forall|i: int| 0 <= i < entries.len() implies id_map(entries).contains_key(
            (#[trigger] entries[i]).0,
        ) && id_map(entries)[entries[i].0] == entries[i].1 by {
            if i < rest.len() {
                assert(rest[i] == entries[i]);
                assert(entries[i].0 < entries[entries.len() - 1].0);
            }
        }
        assert forall|id: u32| #[trigger] id_map(entries).contains_key(id) implies exists|i: int|
            0 <= i < entries.len() && (#[trigger] entries[i]).0 == id by {
            if id == entries.last().0 {
                assert(entries[entries.len() - 1].0 == id);
            } else {
                assert(id_map(rest).contains_key(id));
                let k = choose|k: int| 0 <= k < rest.len() && (#[trigger] rest[k]).0 == id;
                assert(entries[k].0 == id);
            }
        }
    }
}

proof fn lemma_id_map_insert<T>(entries: Seq<(u32, T)>, at: int, id: u32, value: T)
    requires
        ids_grow(entries),
        0 <= at <= entries.len(),
        forall|i: int| 0 <= i < at ==> (#[trigger] entries[i]).0 < id,
        forall|i: int| at <= i < entries.len() ==> (#[trigger] entries[i]).0 > id,
    ensures
        ids_grow(entries.insert(at, (id, value))),
        id_map(entries.insert(at, (id, value))) == id_map(entries).insert(id, value),
    decreases entries.len(),
{
    let after = entries.insert(at, (id, value));
    assert forall|i: int, j: int| 0 <= i < j < after.len() implies (#[trigger] after[i]).0 < (
    #[trigger] after[j]).0 by {
        let a = if i < at {
            i
        } else {
            i - 1
        };
        let b = if j < at {
            j
        } else {
            j - 1
        };
        if i != at {
            assert(after[i] == entries[a]);
        }
        if j != at {
            assert(after[j] == entries[b]);
        }
    }
    if at == entries.len() {
        assert(after.drop_last() =~= entries);
    } else {
        let rest = entries.drop_last();
        assert forall|i: int, j: int| 0 <= i < j < rest.len() implies (#[trigger] rest[i]).0 < (
        #[trigger] rest[j]).0 by {
            assert(rest[i] == entries[i] && rest[j] == entries[j]);
        }
        assert forall|i: int| 0 <= i < at implies (#[trigger] rest[i]).0 < id by {
            assert(rest[i] == entries[i]);
        }
        assert forall|i: int| at <= i < rest.len() implies (#[trigger] rest[i]).0 > id by {
            assert(rest[i] == entries[i]);
        }
        lemma_id_map_insert(rest, at, id, value);
        assert(after.drop_last() =~= rest.insert(at, (id, value)));
        assert(after.last() == entries[entries.len() - 1]);
        assert(id_map(after) =~= id_map(entries).insert(id, value));
    }
}

proof fn lemma_id_map_remove<T>(entries: Seq<(u32, T)>, at: int)
    requires
        ids_grow(entries),
        0 <= at < entries.len(),
    ensures
        ids_grow(entries.remove(at)),
        id_map(entries.remove(at)) == id_map(entries).remove(entries[at].0),
    decreases entries.len(),
{
    let after = entries.remove(at);
    assert forall|i: int, j: int| 0 <= i < j < after.len() implies (#[trigger] after[i]).0 < (
    #[trigger] after[j]).0 by {
        let a = if i < at {
            i
        } else {
            i + 1
        };
        let b = if j < at {
            j
        } else {
            j + 1
        };
        assert(after[i] == entries[a] && after[j] == entries[b]);
    }
    let rest = entries.drop_last();
    assert forall|i: int, j: int| 0 <= i < j < rest.len() implies (#[trigger] rest[i]).0 < (
    #[trigger] rest[j]).0 by {
        assert(rest[i] == entries[i] && rest[j] == entries[j]);
    }
    if at == entries.len() - 1 {
        assert(after =~= rest);
        lemma_id_map(rest);
        let id = entries[at].0;
        assert(!id_map(rest).contains_key(id)) by {
            if id_map(rest).contains_key(id) {
                let k = choose|k: int| 0 <= k < rest.len() && (#[trigger] rest[k]).0 == id;
                assert(entries[k].0 < entries[at].0);
            }
        }
        assert(id_map(after) =~= id_map(entries).remove(id));
    } else {
        lemma_id_map_remove(rest, at);
        assert(after.drop_last() =~= rest.remove(at));
        assert(after.last() == entries[entries.len() - 1]);
        assert(entries[at].0 < entries[entries.len() - 1].0);
        assert(id_map(after) =~= id_map(entries).remove(entries[at].0));
    }
}

impl<T> IdMap<T> {
    /// The ids of the entries grow.
    pub open spec fn wf(self) -> bool {
        ids_grow(self.entries@)
    }

    /// A map without entries.
    pub fn new() -> (r: Self)
        ensures
            r.wf(),
            r@ == Map::<u32, T>::empty(),
    {
        IdMap { entries: Vec::new() }
    }

    /// Position of the first entry whose id is not below `id`.
    fn position(&self, id: u32) -> (r: usize)
        requires
            self.wf(),
        ensures
            r <= self.entries@.len(),
            forall|i: int| 0 <= i < r ==> (#[trigger] self.entries@[i]).0 < id,
            forall|i: int| r <= i < self.entries@.len() ==> (#[trigger] self.entries@[i]).0 >= id,
            (r < self.entries@.len() && self.entries@[r as int].0 == id) == self@.contains_key(id),
            self@.contains_key(id) ==> self@[id] == self.entries@[r as int].1,
    {
        let mut at: usize = 0;
        while at < self.entries.len() && self.entries[at].0 < id
            invariant
                at <= self.entries@.len(),
                forall|i: int| 0 <= i < at ==> (#[trigger] self.entries@[i]).0 < id,
            decreases self.entries@.len() - at,
        {
            at += 1;
        }
        proof {
            lemma_id_map(self.entries@);
            assert forall|i: int| at <= i < self.entries@.len() implies (
            #[trigger] self.entries@[i]).0 >= id by {
                if i > at {
                    assert(self.entries@[at as int].0 < self.entries@[i].0);
                }
            }
        }
        at
    }

    /// The value of an id.
    pub fn get(&self, id: u32) -> (r: Option<&T>)
        requires
            self.wf(),
        ensures
            match r {
                Some(value) => self@.contains_key(id) && *value == self@[id],
                None => !self@.contains_key(id),
            },
    {
        let at = self.position(id);
        if at < self.entries.len() && self.entries[at].0 == id {
            Some(&self.entries[at].1)
        } else {
            None
        }
    }

    /// Whether an id has a value.
    pub fn contains(&self, id: u32) -> (r: bool)
        requires
            self.wf(),
        ensures
            r == self@.contains_key(id),
    {
        let at = self.position(id);
        at < self.entries.len() && self.entries[at].0 == id
    }

    /// Takes the value of an id out.
    pub fn remove(&mut self, id: u32) -> (r: Option<T>)
        requires
            old(self).wf(),
        ensures
            final(self).wf(),
            final(self)@ == old(self)@.remove(id),
            match r {
                Some(value) => old(self)@.contains_key(id) && value == old(self)@[id],
                None => !old(self)@.contains_key(id),
            },
    {
        let at = self.position(id);
        let ghost before = self.entries@;
        if at < self.entries.len() && self.entries[at].0 == id {
            proof {
                lemma_id_map_remove(before, at as int);
            }
            let (_, value) = self.entries.remove(at);
            Some(value)
        } else {
            assert(self@ =~= self@.remove(id));
            None
        }
    }

    /// Gives an id a value, in place of the one it had.
    pub fn insert(&mut self, id: u32, value: T)
        requires
            old(self).wf(),
        ensures
            final(self).wf(),
            final(self)@ == old(self)@.insert(id, value),
    {
        let _ = self.remove(id);
        let at = self.position(id);
        proof {
            lemma_id_map_insert(self.entries@, at as int, id, value);
        }
        self.entries.insert(at, (id, value));
        assert(self@ =~= old(self)@.insert(id, value));
    }

    /// The ids, in order.
    pub fn ids(&self) -> (r: Vec<u32>)
        requires
            self.wf(),
        ensures
            forall|i: int, j: int| 0 <= i < j < r@.len() ==> r@[i] < r@[j],
            forall|id: u32| #[trigger] r@.contains(id) <==> self@.contains_key(id),
    {
        let mut out: Vec<u32> = Vec::new();
        let mut k: usize = 0;
        while k < self.entries.len()
            invariant
                k <= self.entries@.len(),
                out@.len() == k,
                forall|i: int| 0 <= i < k ==> out@[i] == (#[trigger] self.entries@[i]).0,
            decreases self.entries@.len() - k,
        {
            out.push(self.entries[k].0);
            k += 1;
        }
        proof {
            lemma_id_map(self.entries@);
            assert forall|i: int, j: int| 0 <= i < j < out@.len() implies out@[i] < out@[j] by {
                assert(self.entries@[i].0 < self.entries@[j].0);
            }
            assert forall|id: u32| #[trigger] out@.contains(id) <==> self@.contains_key(id) by {
                if out@.contains(id) {
                    let i = choose|i: int| 0 <= i < out@.len() && out@[i] == id;
                    assert(self.entries@[i].0 == id);
                }
                if self@.contains_key(id) {
                    let i = choose|i: int|
                        0 <= i < self.entries@.len() && (#[trigger] self.entries@[i]).0 == id;
                    assert(out@[i] == id);
                }
            }
        }
        out
    }
}

/// A map from names.
#[derive(Debug)]
pub struct NameMap<T> {
    pub entries: Vec<(String, T)>,
}

/// The value of the last entry with this name.
pub open spec fn named<T>(entries: Seq<(String, T)>, name: Seq<char>) -> Option<T>
    decreases entries.len(),
{
    if entries.len() == 0 {
        None
    } else if entries.last().0@ == name {
        Some(entries.last().1)
    } else {
        named(entries.drop_last(), name)
    }
}

impl<T> View for NameMap<T> {
    type V = Map<Seq<char>, T>;

    open spec fn view(&self) -> Map<Seq<char>, T> {
        Map::new(
            |name: Seq<char>| named(self.entries@, name) is Some,
            |name: Seq<char>| named(self.entries@, name)->0,
        )
    }
}

impl<T> NameMap<T> {
    /// The value of a name.
    pub open spec fn at(self, name: Seq<char>) -> Option<T> {
        named(self.entries@, name)
    }

    /// A map without entries.
    pub fn new() -> (r: Self)
        ensures
            forall|name: Seq<char>| r.at(name) is None,
            r@ == Map::<Seq<char>, T>::empty(),
    {
        NameMap { entries: Vec::new() }
    }

    /// The value of a name.
    pub fn get(&self, name: &str) -> (r: Option<&T>)
        ensures
            match r {
                Some(value) => self.at(name@) == Some(*value) && self@.contains_key(name@)
                    && self@[name@] == *value,
                None => self.at(name@) is None && !self@.contains_key(name@),
            },
    {
        let ghost all = self.entries@;
        let mut end: usize = self.entries.len();
        assert(all.take(end as int) =~= all);
        while end > 0
            invariant
                end <= self.entries@.len(),
                all == self.entries@,
                named(all, name@) == named(all.take(end as int), name@),
            decreases end,
        {
            assert(all.take(end as int).last() == all[end - 1]);
            assert(all.take(end as int).drop_last() =~= all.take(end - 1));
            if text::same(self.entries[end - 1].0.as_str(), name) {
                return Some(&self.entries[end - 1].1);
            }
            end -= 1;
        }
        None
    }

    /// Takes the value of a name out.
    pub fn remove(&mut self, name: &str) -> (r: Option<T>)
        ensures
            r == old(self).at(name@),
            final(self).at(name@) is None,
            forall|other: Seq<char>|
                other != name@ ==> #[trigger] final(self).at(other) == old(self).at(other),
            final(self)@ == old(self)@.remove(name@),
            match r {
                Some(value) => old(self)@.contains_key(name@) && value == old(self)@[name@],
                None => !old(self)@.contains_key(name@),
            },
    {
        let mut kept: Vec<(String, T)> = Vec::new();
        let mut found: Option<T> = None;
        let ghost all = self.entries@;
        let mut rest: Vec<(String, T)> = Vec::new();
        core::mem::swap(&mut rest, &mut self.entries);
        let ghost mut done: Seq<(String, T)> = Seq::empty();
        rest = reversed(rest);
        assert(all =~= done + rest@.reverse()) by {
            assert(rest@.reverse() =~= all);
        }
        while rest.len() > 0
            invariant
                all == done + rest@.reverse(),
                found == named(done, name@),
                named(kept@, name@) is None,
                forall|other: Seq<char>|
                    other != name@ ==> #[trigger] named(kept@, other) == named(done, other),
            decreases rest@.len(),
        {
            let ghost before_rest = rest@;
            let ghost before_kept = kept@;
            let ghost before_done = done;
            match rest.pop() {
                Some((key, value)) => {
                    proof {
                        done = done.push((key, value));
                        assert(done.drop_last() =~= before_done);
                        assert(all =~= done + rest@.reverse()) by {
                            assert(before_rest.reverse() =~= seq![before_rest.last()]
                                + rest@.reverse());
                        }
                    }
                    if text::same(key.as_str(), name) {
                        found = Some(value);
                    } else {
                        kept.push((key, value));
                        assert(kept@.drop_last() =~= before_kept);
                    }
                    proof {
                        assert forall|other: Seq<char>| other != name@ implies #[trigger] named(
                            kept@,
                            other,
                        ) == named(done, other) by {
                            assert(named(before_kept, other) == named(before_done, other));
                        }
                    }
                },
                None => {},
            }
        }
        assert(done =~= all);
        self.entries = kept;
        assert forall|other: Seq<char>| #[trigger] self@.contains_key(other) == old(self)@.remove(
            name@,
        ).contains_key(other) by {
            assert(self.at(other) == self.at(other));
        }
        assert(self@ =~= old(self)@.remove(name@));
        found
    }

    /// Gives a name a value, in place of the one it had.
    pub fn insert(&mut self, name: String, value: T)
        ensures
            final(self).at(name@) == Some(value),
            forall|other: Seq<char>|
                other != name@ ==> #[trigger] final(self).at(other) == old(self).at(other),
            final(self)@ == old(self)@.insert(name@, value),
    {
        let _ = self.remove(name.as_str());
        let ghost before = *self;
        self.entries.push((name, value));
        proof {
            assert(self.entries@.drop_last() =~= before.entries@);
            assert forall|other: Seq<char>| other != name@ implies #[trigger] self.at(other) == old(
                self).at(other) by {
                assert(before.at(other) == old(self).at(other));
            }
            assert forall|other: Seq<char>| #[trigger]
                self@.contains_key(other) == old(self)@.insert(name@, value).contains_key(other) by {
                assert(self.at(other) == self.at(other));
            }
            assert forall|other: Seq<char>| #[trigger] self@.contains_key(other) implies self@[other]
                == old(self)@.insert(name@, value)[other] by {
                if other != name@ {
                    assert(self.at(other) == old(self).at(other));
                }
            }
            assert(self@ =~= old(self)@.insert(name@, value));
        }
    }
}

fn reversed<T>(items: Vec<T>) -> (r: Vec<T>)
    ensures
        r@ == items@.reverse(),
{
    let mut rest = items;
    let mut out: Vec<T> = Vec::new();
    let ghost all = rest@;
    while rest.len() > 0
        invariant
            out@ + rest@.reverse() == all.reverse(),
        decreases rest@.len(),
    {
        let ghost before = rest@;
        let ghost before_out = out@;
        match rest.pop() {
            Some(item) => {
                out.push(item);
                proof {
                    assert(before.reverse() =~= seq![item] + rest@.reverse());
                    assert(out@ + rest@.reverse() =~= before_out + before.reverse());
                }
            },
            None => {},
        }
    }
    assert(out@ =~= all.reverse());
    out
}

} // verus!
