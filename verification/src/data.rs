//! Views of collections, and copies that keep them.
use crate::text;
use vstd::prelude::*;

verus! {

/// The views of the items of a sequence.
pub open spec fn views<T: View>(items: Seq<T>) -> Seq<T::V> {
    items.map_values(|t: T| t@)
}

/// The view of the value in an option.
pub open spec fn option_view<T: View>(item: Option<T>) -> Option<T::V> {
    match item {
        Some(t) => Some(t@),
        None => None,
    }
}

/// A type whose values can be copied without changing what they denote.
pub trait Duplicate: View + Sized {
    /// A copy that denotes the same.
    fn duplicate(&self) -> (r: Self)
        ensures
            r@ == self@,
    ;
}

impl Duplicate for String {
    fn duplicate(&self) -> (r: Self) {
        self.clone()
    }
}

impl Duplicate for u8 {
    fn duplicate(&self) -> (r: Self) {
        *self
    }
}

/// Copies every item.
pub fn duplicate_all<T: Duplicate>(items: &Vec<T>) -> (r: Vec<T>)
    ensures
        views(r@) == views(items@),
{
    let mut out: Vec<T> = Vec::new();
    let mut i: usize = 0;
    while i < items.len()
        invariant
            i <= items@.len(),
            views(out@) == views(items@).take(i as int),
        decreases items@.len() - i,
    {
        let ghost before = views(out@);
        out.push(items[i].duplicate());
        assert(views(out@) =~= before.push(items@[i as int]@));
        i += 1;
        assert(views(items@).take(i as int) =~= before.push(items@[i - 1]@));
    }
    assert(views(items@).take(i as int) =~= views(items@));
    out
}

/// Copies the value in an option.
pub fn duplicate_option<T: Duplicate>(item: &Option<T>) -> (r: Option<T>)
    ensures
        option_view(r) == option_view(*item),
{
    match item {
        Some(t) => Some(t.duplicate()),
        None => None,
    }
}

/// A type whose values can be held against each other by what they denote.
pub trait Same: View + Sized {
    /// Whether two values denote the same.
    fn is_same(&self, other: &Self) -> (r: bool)
        ensures
            r == (self@ == other@),
    ;
}

impl Same for String {
    fn is_same(&self, other: &Self) -> (r: bool) {
        crate::text::same(self.as_str(), other.as_str())
    }
}

impl Same for u8 {
    fn is_same(&self, other: &Self) -> (r: bool) {
        *self == *other
    }
}

/// Whether two lists denote the same, item for item.
pub fn same_all<T: Same>(a: &Vec<T>, b: &Vec<T>) -> (r: bool)
    ensures
        r == (views(a@) == views(b@)),
{
    assert(views(a@).len() == a@.len() && views(b@).len() == b@.len());
    if a.len() != b.len() {
        return false;
    }
    let mut i: usize = 0;
    while i < a.len()
        invariant
            i <= a@.len(),
            a@.len() == b@.len(),
            forall|k: int| 0 <= k < i ==> views(a@)[k] == views(b@)[k],
        decreases a@.len() - i,
    {
        assert(views(a@)[i as int] == a@[i as int]@);
        assert(views(b@)[i as int] == b@[i as int]@);
        if !a[i].is_same(&b[i]) {
            return false;
        }
        i += 1;
    }
    assert(views(a@) =~= views(b@));
    true
}

/// Whether two options denote the same.
pub fn same_option<T: Same>(a: &Option<T>, b: &Option<T>) -> (r: bool)
    ensures
        r == (option_view(*a) == option_view(*b)),
{
    match (a, b) {
        (Some(a), Some(b)) => a.is_same(b),
        (None, None) => true,
        _ => false,
    }
}

/// Pushing an item pushes its view.
pub broadcast proof fn lemma_views_push<T: View>(items: Seq<T>, item: T)
    ensures
        #[trigger] views(items.push(item)) == views(items).push(item@),
{
    assert(views(items.push(item)) =~= views(items).push(item@));
}

/// Whether a text stands in a list.
pub fn lists(items: &Vec<String>, item: &str) -> (r: bool)
    ensures
        r == views(items@).contains(item@),
{
    let ghost all = views(items@);
    let mut i: usize = 0;
    while i < items.len()
        invariant
            i <= items@.len(),
            all == views(items@),
            forall|k: int| 0 <= k < i ==> #[trigger] all[k] != item@,
        decreases items@.len() - i,
    {
        assert(all[i as int] == items@[i as int]@);
        if text::same(items[i].as_str(), item) {
            return true;
        }
        i += 1;
    }
    false
}

/// Taking a part of a sequence takes the views of that part.
pub broadcast proof fn lemma_views_subrange<T: View>(items: Seq<T>, from: int, to: int)
    requires
        0 <= from <= to <= items.len(),
    ensures
        #[trigger] views(items.subrange(from, to)) == views(items).subrange(from, to),
{
    assert(views(items.subrange(from, to)) =~= views(items).subrange(from, to));
}

/// The views of two sequences one after the other.
pub broadcast proof fn lemma_views_add<T: View>(a: Seq<T>, b: Seq<T>)
    ensures
        #[trigger] views(a + b) == views(a) + views(b),
{
    assert(views(a + b) =~= views(a) + views(b));
}

pub broadcast group group_views {
    lemma_views_push,
    lemma_views_subrange,
    lemma_views_add,
}

/// The views of the values of a map.
pub open spec fn map_views<K, T: View>(m: Map<K, T>) -> Map<K, T::V> {
    m.map_values(|t: T| t@)
}

/// Setting a key sets its view.
pub broadcast proof fn lemma_map_views_insert<K, T: View>(m: Map<K, T>, key: K, value: T)
    ensures
        #[trigger] map_views(m.insert(key, value)) == map_views(m).insert(key, value@),
{
    assert(map_views(m.insert(key, value)) =~= map_views(m).insert(key, value@));
}

/// Taking a key out takes its view out.
pub broadcast proof fn lemma_map_views_remove<K, T: View>(m: Map<K, T>, key: K)
    ensures
        #[trigger] map_views(m.remove(key)) == map_views(m).remove(key),
{
    assert(map_views(m.remove(key)) =~= map_views(m).remove(key));
}

/// The view of a map without entries.
pub broadcast proof fn lemma_map_views_empty<K, T: View>()
    ensures
        #[trigger] map_views(Map::<K, T>::empty()) == Map::<K, T::V>::empty(),
{
    assert(map_views(Map::<K, T>::empty()) =~= Map::<K, T::V>::empty());
}

pub broadcast group group_map_views {
    lemma_map_views_insert,
    lemma_map_views_remove,
    lemma_map_views_empty,
}

} // verus!
