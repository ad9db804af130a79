//! Restores the order of messages that carry sequence numbers.
use std::collections::BTreeMap;
use vstd::prelude::*;

verus! {

/// Messages that wait for those before them.
pub struct OrderedInbox<T> {
    pub next: i64,
    pub pending: BTreeMap<i64, T>,
}

/// The sequence number after `n`. The last one has no successor but itself.
pub open spec fn successor(n: i64) -> i64 {
    if n < i64::MAX {
        (n + 1) as i64
    } else {
        n
    }
}

/// The messages that follow each other without a gap from `next` on.
pub open spec fn ready_run<T>(pending: Map<i64, T>, next: i64) -> Seq<(i64, T)>
    decreases pending.len(),
    when pending.dom().finite()
{
    if pending.contains_key(next) {
        seq![(next, pending[next])] + ready_run(pending.remove(next), successor(next))
    } else {
        Seq::empty()
    }
}

/// The messages that wait behind a gap.
pub open spec fn waiting_after<T>(pending: Map<i64, T>, next: i64) -> Map<i64, T>
    decreases pending.len(),
    when pending.dom().finite()
{
    if pending.contains_key(next) {
        waiting_after(pending.remove(next), successor(next))
    } else {
        pending
    }
}

/// The sequence number that is awaited after the run from `next` on.
pub open spec fn next_after<T>(pending: Map<i64, T>, next: i64) -> i64
    decreases pending.len(),
    when pending.dom().finite()
{
    if pending.contains_key(next) {
        next_after(pending.remove(next), successor(next))
    } else {
        next
    }
}

/// Whether a message is refused: it comes too late, or one with its number is waiting.
pub open spec fn refused<T>(pending: Map<i64, T>, next: i64, seqno: i64) -> bool {
    seqno < next || pending.contains_key(seqno)
}

/// An inbox as it stands: the number that is awaited, the messages that wait, and all that were
/// handed out.
#[verifier::ext_equal]
pub struct InboxState<T> {
    pub next: i64,
    pub pending: Map<i64, T>,
    pub handed: Seq<(i64, T)>,
}

/// The inbox after one message more.
pub open spec fn after_push<T>(inbox: InboxState<T>, seqno: i64, value: T) -> InboxState<T> {
    if refused(inbox.pending, inbox.next, seqno) {
        inbox
    } else {
        let pending = inbox.pending.insert(seqno, value);
        InboxState {
            next: next_after(pending, inbox.next),
            pending: waiting_after(pending, inbox.next),
            handed: inbox.handed + ready_run(pending, inbox.next),
        }
    }
}

/// An inbox that waited for the message `start`, after these messages.
pub open spec fn after_pushes<T>(start: i64, pushes: Seq<(i64, T)>) -> InboxState<T>
    decreases pushes.len(),
{
    if pushes.len() == 0 {
        InboxState { next: start, pending: Map::empty(), handed: Seq::empty() }
    } else {
        after_push(after_pushes(start, pushes.drop_last()), pushes.last().0, pushes.last().1)
    }
}

/// The message that came first under a number.
pub open spec fn first_under<T>(pushes: Seq<(i64, T)>, seqno: i64) -> Option<T>
    decreases pushes.len(),
{
    if pushes.len() == 0 {
        None
    } else {
        match first_under(pushes.drop_last(), seqno) {
            Some(value) => Some(value),
            None => if pushes.last().0 == seqno {
                Some(pushes.last().1)
            } else {
                None
            },
        }
    }
}

impl<T> OrderedInbox<T> {
    /// Only finitely many messages wait.
    pub open spec fn wf(self) -> bool {
        self.pending@.dom().finite()
    }

    /// An inbox that waits for the message `next`.
    pub fn starting_at(next: i64) -> (r: Self)
        ensures
            r.wf(),
            r.next == next,
            r.pending@ == Map::<i64, T>::empty(),
    {
        OrderedInbox { next, pending: BTreeMap::new() }
    }

    /// Takes a message, and hands out those that are in order now.
    pub fn push(&mut self, seqno: i64, value: T) -> (r: Vec<(i64, T)>)
        requires
            old(self).wf(),
        ensures
            final(self).wf(),
            (InboxState {
                next: final(self).next,
                pending: final(self).pending@,
                handed: r@,
            }) == after_push(
                InboxState {
                    next: old(self).next,
                    pending: old(self).pending@,
                    handed: Seq::empty(),
                },
                seqno,
                value,
            ),
    {
        broadcast use vstd::laws_cmp::group_laws_cmp;

        if seqno < self.next || self.pending.contains_key(&seqno) {
            return Vec::new();
        }
        let _ = self.pending.insert(seqno, value);
        let ghost pending = self.pending@;
        let ghost first = self.next;
        let mut ready: Vec<(i64, T)> = Vec::new();
        assert(ready@ + ready_run(pending, first) =~= ready_run(pending, first));
        while self.pending.contains_key(&self.next)
            invariant
                self.pending@.dom().finite(),
                ready@ + ready_run(self.pending@, self.next) == ready_run(pending, first),
                next_after(self.pending@, self.next) == next_after(pending, first),
                waiting_after(self.pending@, self.next) == waiting_after(pending, first),
            decreases self.pending@.len(),
        {
            let ghost before = self.pending@;
            let number = self.next;
            let ghost handed = ready@;
            if let Some(value) = self.pending.remove(&number) {
                ready.push((number, value));
            }
            if self.next < i64::MAX {
                self.next = self.next + 1;
            }
            proof {
                let rest = ready_run(self.pending@, self.next);
                assert(handed + (seq![(number, before[number])] + rest) =~= ready@ + rest);
            }
        }
        assert(ready@ + Seq::<(i64, T)>::empty() =~= ready@);
        assert(Seq::<(i64, T)>::empty() + ready@ =~= ready@);
        ready
    }
}

impl<T> Default for OrderedInbox<T> {
    fn default() -> (r: Self)
        ensures
            r.wf(),
            r.next == 0,
            r.pending@ == Map::<i64, T>::empty(),
    {
        OrderedInbox::starting_at(0)
    }
}

/// Messages are handed out under consecutive numbers, beginning with the one that was awaited, and
/// the next one awaited is the one behind them.
pub proof fn law_run_has_no_gap<T>(pending: Map<i64, T>, next: i64, i: int)
    requires
        pending.dom().finite(),
        next + ready_run(pending, next).len() <= i64::MAX,
        0 <= i < ready_run(pending, next).len(),
    ensures
        ready_run(pending, next)[i].0 == next + i,
        pending.contains_key((next + i) as i64),
        ready_run(pending, next)[i].1 == pending[(next + i) as i64],
        next_after(pending, next) == next + ready_run(pending, next).len(),
    decreases pending.len(),
{
    reveal_with_fuel(ready_run, 2);
    reveal_with_fuel(next_after, 2);
    let rest = pending.remove(next);
    let run = ready_run(pending, next);
    assert(run.len() == 1 + ready_run(rest, successor(next)).len());
    if i > 0 {
        law_run_has_no_gap(rest, successor(next), i - 1);
    } else if ready_run(rest, successor(next)).len() > 0 {
        law_run_has_no_gap(rest, successor(next), 0);
    }
}

/// A message is neither lost nor handed out while one before it is missing: every message that waits
/// is handed out now or goes on waiting, and what goes on waiting does not include the next one.
pub proof fn law_nothing_is_lost<T>(pending: Map<i64, T>, next: i64, seqno: i64)
    requires
        pending.dom().finite(),
        pending.contains_key(seqno),
    ensures
        waiting_after(pending, next).contains_key(seqno) && waiting_after(pending, next)[seqno]
            == pending[seqno] || ready_run(pending, next).contains((seqno, pending[seqno])),
        !waiting_after(pending, next).contains_key(next_after(pending, next)),
    decreases pending.len(),
{
    if pending.contains_key(next) {
        let rest = pending.remove(next);
        let tail = ready_run(rest, successor(next));
        let run = ready_run(pending, next);
        assert(run[0] == (next, pending[next]));
        if seqno != next {
            law_nothing_is_lost(rest, successor(next), seqno);
            if tail.contains((seqno, pending[seqno])) {
                let k = choose|k: int| 0 <= k < tail.len() && tail[k] == (seqno, pending[seqno]);
                assert(run[k + 1] == tail[k]);
            }
        } else {
            lemma_next_is_missing(rest, successor(next));
        }
    }
}

proof fn lemma_next_is_missing<T>(pending: Map<i64, T>, next: i64)
    requires
        pending.dom().finite(),
    ensures
        !waiting_after(pending, next).contains_key(next_after(pending, next)),
    decreases pending.len(),
{
    if pending.contains_key(next) {
        lemma_next_is_missing(pending.remove(next), successor(next));
    }
}

proof fn lemma_run<T>(pending: Map<i64, T>, next: i64)
    requires
        pending.dom().finite(),
        forall|k: i64| #[trigger] pending.contains_key(k) ==> next <= k < i64::MAX,
    ensures
        next_after(pending, next) == next + ready_run(pending, next).len(),
        forall|i: int|
            0 <= i < ready_run(pending, next).len() ==> (#[trigger] ready_run(pending, next)[i]).0
                == next + i && pending.contains_key(ready_run(pending, next)[i].0)
                && ready_run(pending, next)[i].1 == pending[ready_run(pending, next)[i].0],
        !pending.contains_key(next_after(pending, next)),
        waiting_after(pending, next).dom().finite(),
        forall|k: i64| #[trigger]
            waiting_after(pending, next).contains_key(k) <==> pending.contains_key(k) && k
                > next_after(pending, next),
        forall|k: i64| #[trigger]
            waiting_after(pending, next).contains_key(k) ==> waiting_after(pending, next)[k]
                == pending[k],
    decreases pending.len(),
{
    if pending.contains_key(next) {
        let rest = pending.remove(next);
        let after = successor(next);
        assert forall|k: i64| #[trigger] rest.contains_key(k) implies after <= k < i64::MAX by {
            assert(pending.contains_key(k));
        }
        lemma_run(rest, after);
        let run = ready_run(pending, next);
        let tail = ready_run(rest, after);
        assert forall|i: int| 0 <= i < run.len() implies (#[trigger] run[i]).0 == next + i
            && pending.contains_key(run[i].0) && run[i].1 == pending[run[i].0] by {
            if i > 0 {
                assert(run[i] == tail[i - 1]);
            }
        }
    }
}

/// What a whole sequence of messages comes to, in whatever order they arrive: the messages that are
/// handed out, all together, stand under consecutive numbers from the first awaited one up to the
/// first number under which none came, each as it came first; the later ones wait. A message that
/// is late or repeated changes nothing.
pub proof fn law_messages_come_out_in_order<T>(start: i64, pushes: Seq<(i64, T)>)
    requires
        forall|i: int| 0 <= i < pushes.len() ==> (#[trigger] pushes[i]).0 < i64::MAX,
    ensures
        after_pushes(start, pushes).next == start + after_pushes(start, pushes).handed.len(),
        forall|i: int|
            0 <= i < after_pushes(start, pushes).handed.len() ==> (#[trigger] after_pushes(
                start,
                pushes,
            ).handed[i]).0 == start + i && first_under(
                pushes,
                after_pushes(start, pushes).handed[i].0,
            ) == Some(after_pushes(start, pushes).handed[i].1),
        first_under(pushes, after_pushes(start, pushes).next) is None,
        after_pushes(start, pushes).pending.dom().finite(),
        forall|k: i64| #[trigger]
            after_pushes(start, pushes).pending.contains_key(k) <==> k > after_pushes(
                start,
                pushes,
            ).next && first_under(pushes, k) is Some,
        forall|k: i64| #[trigger]
            after_pushes(start, pushes).pending.contains_key(k) ==> first_under(pushes, k) == Some(
                after_pushes(start, pushes).pending[k],
            ),
    decreases pushes.len(),
{
    if pushes.len() > 0 {
        let before = pushes.drop_last();
        let (seqno, value) = pushes.last();
        assert forall|i: int| 0 <= i < before.len() implies (#[trigger] before[i]).0 < i64::MAX by {
            assert(before[i] == pushes[i]);
        }
        law_messages_come_out_in_order(start, before);
        let inbox = after_pushes(start, before);
        let now = after_pushes(start, pushes);
        assert(pushes[pushes.len() - 1].0 < i64::MAX);
        assert(now == after_push(inbox, seqno, value));
        if refused(inbox.pending, inbox.next, seqno) {
            if start <= seqno < inbox.next {
                assert(inbox.handed[seqno - start].0 == seqno);
            }
        } else {
            let pending = inbox.pending.insert(seqno, value);
            assert(first_under(before, seqno) is None);
            assert forall|k: i64| #[trigger] pending.contains_key(k) implies inbox.next <= k
                < i64::MAX && first_under(pushes, k) == Some(pending[k]) by {
                if k != seqno {
                    assert(inbox.pending.contains_key(k));
                    lemma_numbers_are_pushed(before, k);
                }
            }
            lemma_run(pending, inbox.next);
            let run = ready_run(pending, inbox.next);
            assert forall|i: int| 0 <= i < now.handed.len() implies (#[trigger] now.handed[i]).0
                == start + i && first_under(pushes, now.handed[i].0) == Some(now.handed[i].1) by {
                if i < inbox.handed.len() {
                    assert(now.handed[i] == inbox.handed[i]);
                } else {
                    assert(now.handed[i] == run[i - inbox.handed.len()]);
                }
            }
            assert(!pending.contains_key(now.next));
            assert forall|k: i64| #[trigger] now.pending.contains_key(k) <==> k > now.next
                && first_under(pushes, k) is Some by {
                if k > now.next && first_under(pushes, k) is Some && k != seqno {
                    assert(inbox.pending.contains_key(k));
                }
            }
        }
    }
}

proof fn lemma_numbers_are_pushed<T>(pushes: Seq<(i64, T)>, seqno: i64)
    requires
        forall|i: int| 0 <= i < pushes.len() ==> (#[trigger] pushes[i]).0 < i64::MAX,
        first_under(pushes, seqno) is Some,
    ensures
        seqno < i64::MAX,
    decreases pushes.len(),
{
    let before = pushes.drop_last();
    assert forall|i: int| 0 <= i < before.len() implies (#[trigger] before[i]).0 < i64::MAX by {
        assert(before[i] == pushes[i]);
    }
    if first_under(before, seqno) is Some {
        lemma_numbers_are_pushed(before, seqno);
    } else {
        assert(pushes[pushes.len() - 1].0 < i64::MAX);
    }
}

} // verus!
