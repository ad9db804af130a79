//! Which run holds which conversation.
use crate::text;
use vstd::prelude::*;

verus! {

/// A run that holds a conversation. The handle names its command channel and its cancellation.
#[derive(Debug)]
pub struct ActiveRun {
    pub conversation_id: String,
    pub run_id: String,
    pub handle: u64,
}

/// What the registry keeps of a conversation: the run that holds it, and that run's handle.
#[verifier::ext_equal]
pub struct HolderView {
    pub run_id: Seq<char>,
    pub handle: u64,
}

/// The runs in progress, at most one for each conversation.
#[derive(Debug)]
pub struct RunRegistry {
    pub active: Vec<ActiveRun>,
}

/// What a sequence of entries keeps of a conversation.
pub open spec fn holder(active: Seq<ActiveRun>, conversation_id: Seq<char>) -> Option<HolderView>
    decreases active.len(),
{
    if active.len() == 0 {
        None
    } else if active.last().conversation_id@ == conversation_id {
        Some(HolderView { run_id: active.last().run_id@, handle: active.last().handle })
    } else {
        holder(active.drop_last(), conversation_id)
    }
}

impl RunRegistry {
    /// Which run holds a conversation.
    pub open spec fn holds(self, conversation_id: Seq<char>) -> Option<HolderView> {
        holder(self.active@, conversation_id)
    }

    /// No conversation is held twice.
    pub open spec fn wf(self) -> bool {
        forall|i: int, j: int|
            0 <= i < j < self.active@.len() ==> (#[trigger] self.active@[i]).conversation_id@ != (
            #[trigger] self.active@[j]).conversation_id@
    }
}

proof fn lemma_holder_at(active: Seq<ActiveRun>, i: int)
    requires
        0 <= i < active.len(),
        forall|a: int, b: int|
            0 <= a < b < active.len() ==> (#[trigger] active[a]).conversation_id@ != (
            #[trigger] active[b]).conversation_id@,
    ensures
        holder(active, active[i].conversation_id@) == Some(
            HolderView { run_id: active[i].run_id@, handle: active[i].handle },
        ),
    decreases active.len(),
{
    if i < active.len() - 1 {
        let rest = active.drop_last();
        assert forall|a: int, b: int| 0 <= a < b < rest.len() implies (
        #[trigger] rest[a]).conversation_id@ != (#[trigger] rest[b]).conversation_id@ by {
            assert(rest[a] == active[a] && rest[b] == active[b]);
        }
        assert(rest[i] == active[i]);
        lemma_holder_at(rest, i);
        assert(active[i].conversation_id@ != active[active.len() - 1].conversation_id@);
    }
}

proof fn lemma_holder_none(active: Seq<ActiveRun>, conversation_id: Seq<char>)
    requires
        forall|i: int| 0 <= i < active.len() ==> (#[trigger] active[i]).conversation_id@
            != conversation_id,
    ensures
        holder(active, conversation_id) is None,
    decreases active.len(),
{
    if active.len() > 0 {
        let rest = active.drop_last();
        assert forall|i: int| 0 <= i < rest.len() implies (#[trigger] rest[i]).conversation_id@
            != conversation_id by {
            assert(rest[i] == active[i]);
        }
        lemma_holder_none(rest, conversation_id);
        assert(active[active.len() - 1].conversation_id@ != conversation_id);
    }
}

/// Taking an entry out leaves what is kept of the other conversations.
proof fn lemma_holder_remove(active: Seq<ActiveRun>, at: int, other: Seq<char>)
    requires
        0 <= at < active.len(),
        other != active[at].conversation_id@,
    ensures
        holder(active.remove(at), other) == holder(active, other),
    decreases active.len(),
{
    let out = active.remove(at);
    if at < active.len() - 1 {
        assert(out.last() == active.last());
        assert(out.drop_last() =~= active.drop_last().remove(at));
        assert(active.drop_last()[at] == active[at]);
        lemma_holder_remove(active.drop_last(), at, other);
    } else {
        assert(out =~= active.drop_last());
    }
}

impl RunRegistry {
    /// A registry that holds nothing.
    pub fn new() -> (r: Self)
        ensures
            r.wf(),
            forall|id: Seq<char>| r.holds(id) is None,
    {
        RunRegistry { active: Vec::new() }
    }

    /// Where the entry of a conversation stands.
    fn find(&self, conversation_id: &str) -> (r: Option<usize>)
        requires
            self.wf(),
        ensures
            match r {
                Some(i) => i < self.active@.len() && self.active@[i as int].conversation_id@
                    == conversation_id@ && self.holds(conversation_id@) == Some(
                    HolderView {
                        run_id: self.active@[i as int].run_id@,
                        handle: self.active@[i as int].handle,
                    },
                ),
                None => self.holds(conversation_id@) is None && (forall|i: int|
                    0 <= i < self.active@.len() ==> (#[trigger] self.active@[i]).conversation_id@
                        != conversation_id@),
            },
    {
        let mut i: usize = 0;
        while i < self.active.len()
            invariant
                i <= self.active@.len(),
                self.wf(),
                forall|k: int|
                    0 <= k < i ==> (#[trigger] self.active@[k]).conversation_id@
                        != conversation_id@,
            decreases self.active@.len() - i,
        {
            if text::same(self.active[i].conversation_id.as_str(), conversation_id) {
                proof {
                    lemma_holder_at(self.active@, i as int);
                }
                return Some(i);
            }
            i += 1;
        }
        proof {
            lemma_holder_none(self.active@, conversation_id@);
        }
        None
    }

    /// Takes the entry at `at` out.
    fn take(&mut self, at: usize)
        requires
            old(self).wf(),
            at < old(self).active@.len(),
        ensures
            final(self).wf(),
            final(self).active@ == old(self).active@.remove(at as int),
            final(self).holds(old(self).active@[at as int].conversation_id@) is None,
            forall|other: Seq<char>|
                other != old(self).active@[at as int].conversation_id@ ==> #[trigger] final(self).holds(other) == old(self).holds(other),
    {
        let ghost before = self.active@;
        let _ = self.active.remove(at);
        proof {
            assert forall|i: int, j: int| 0 <= i < j < self.active@.len() implies (
            #[trigger] self.active@[i]).conversation_id@ != (
            #[trigger] self.active@[j]).conversation_id@ by {
                let a = if i < at {
                    i
                } else {
                    i + 1
                };
                let b = if j < at {
                    j
                } else {
                    j + 1
                };
                assert(self.active@[i] == before[a] && self.active@[j] == before[b]);
            }
            assert forall|i: int| 0 <= i < self.active@.len() implies (
            #[trigger] self.active@[i]).conversation_id@ != before[at as int].conversation_id@ by {
                let a = if i < at {
                    i
                } else {
                    i + 1
                };
                assert(self.active@[i] == before[a]);
            }
            lemma_holder_none(self.active@, before[at as int].conversation_id@);
            assert forall|other: Seq<char>|
                other != before[at as int].conversation_id@ implies #[trigger] self.holds(other)
                == holder(before, other) by {
                lemma_holder_remove(before, at as int, other);
            }
        }
    }

    /// Gives a conversation to a run. The handle of another run that held it is returned: that run
    /// is to be cancelled.
    pub fn activate(&mut self, conversation_id: &str, run_id: &str, handle: u64) -> (r: Option<u64>)
        requires
            old(self).wf(),
        ensures
            final(self).wf(),
            final(self).holds(conversation_id@) == Some(HolderView { run_id: run_id@, handle }),
            forall|other: Seq<char>|
                other != conversation_id@ ==> #[trigger] final(self).holds(other) == old(self).holds(other),
            r == (match old(self).holds(conversation_id@) {
                Some(previous) => if previous.run_id != run_id@ {
                    Some(previous.handle)
                } else {
                    None
                },
                None => None,
            }),
    {
        let displaced = match self.find(conversation_id) {
            Some(at) => {
                let other = !text::same(self.active[at].run_id.as_str(), run_id);
                let previous = self.active[at].handle;
                self.take(at);
                if other {
                    Some(previous)
                } else {
                    None
                }
            },
            None => None,
        };
        let ghost before = self.active@;
        let ghost emptied = *self;
        proof {
            assert forall|i: int| 0 <= i < before.len() implies (
            #[trigger] before[i]).conversation_id@ != conversation_id@ by {
                lemma_holder_at(before, i);
            }
        }
        self.active.push(
            ActiveRun {
                conversation_id: conversation_id.to_owned(),
                run_id: run_id.to_owned(),
                handle,
            },
        );
        proof {
            assert(self.active@.drop_last() =~= before);
            assert forall|other: Seq<char>|
                other != conversation_id@ implies #[trigger] self.holds(other) == old(self).holds(
                other,
            ) by {
                assert(emptied.holds(other) == old(self).holds(other));
            }
            assert forall|i: int, j: int| 0 <= i < j < self.active@.len() implies (
            #[trigger] self.active@[i]).conversation_id@ != (
            #[trigger] self.active@[j]).conversation_id@ by {
                assert(self.active@[i] == before[i]);
                if j < before.len() {
                    assert(self.active@[j] == before[j]);
                }
            }
        }
        displaced
    }

    /// The handle of the run that holds a conversation. Messages for the conversation go to it.
    pub fn handle_of(&self, conversation_id: &str) -> (r: Option<u64>)
        requires
            self.wf(),
        ensures
            r == (match self.holds(conversation_id@) {
                Some(current) => Some(current.handle),
                None => None,
            }),
    {
        match self.find(conversation_id) {
            Some(at) => Some(self.active[at].handle),
            None => None,
        }
    }

    /// Takes a conversation from a run that has ended. One that another run holds by now stays with
    /// that run.
    pub fn release(&mut self, conversation_id: &str, run_id: &str)
        requires
            old(self).wf(),
        ensures
            final(self).wf(),
            final(self).holds(conversation_id@) == (match old(self).holds(conversation_id@) {
                Some(current) if current.run_id == run_id@ => None,
                kept => kept,
            }),
            forall|other: Seq<char>|
                other != conversation_id@ ==> #[trigger] final(self).holds(other) == old(self).holds(other),
    {
        if let Some(at) = self.find(conversation_id) {
            if text::same(self.active[at].run_id.as_str(), run_id) {
                self.take(at);
            }
        }
    }

    /// Takes every conversation from its run. The handles of all runs are returned: they are to be
    /// cancelled.
    pub fn shutdown(&mut self) -> (r: Vec<u64>)
        ensures
            final(self).wf(),
            forall|id: Seq<char>| final(self).holds(id) is None,
            r@ == old(self).active@.map_values(|run: ActiveRun| run.handle),
    {
        let mut handles: Vec<u64> = Vec::new();
        let ghost wanted = self.active@.map_values(|run: ActiveRun| run.handle);
        let mut i: usize = 0;
        while i < self.active.len()
            invariant
                i <= self.active@.len(),
                wanted == self.active@.map_values(|run: ActiveRun| run.handle),
                handles@ == wanted.take(i as int),
            decreases self.active@.len() - i,
        {
            handles.push(self.active[i].handle);
            i += 1;
            assert(handles@ =~= wanted.take(i as int));
        }
        assert(wanted.take(i as int) =~= wanted);
        self.active = Vec::new();
        handles
    }
}

/// What becomes of messages for a conversation.
#[derive(Clone, Copy, Debug, PartialEq, Eq, Structural)]
pub enum Delivery {
    /// There are none: they count as delivered.
    Nothing,
    /// No run holds the conversation: they are not delivered.
    Refused,
    /// They go to the run with this handle, and are delivered when it says so.
    Send(u64),
}

impl RunRegistry {
    /// What becomes of so many messages for a conversation.
    pub fn insert_messages(&self, conversation_id: &str, message_count: usize) -> (r: Delivery)
        requires
            self.wf(),
        ensures
            r == (if message_count == 0 {
                Delivery::Nothing
            } else {
                match self.holds(conversation_id@) {
                    Some(current) => Delivery::Send(current.handle),
                    None => Delivery::Refused,
                }
            }),
    {
        if message_count == 0 {
            return Delivery::Nothing;
        }
        match self.handle_of(conversation_id) {
            Some(handle) => Delivery::Send(handle),
            None => Delivery::Refused,
        }
    }
}

/// A run that was displaced cannot take the conversation from the run that displaced it.
pub proof fn law_release_spares_the_successor(
    before: RunRegistry,
    after: RunRegistry,
    conversation_id: Seq<char>,
    displaced: Seq<char>,
    successor: HolderView,
)
    requires
        before.holds(conversation_id) == Some(successor),
        successor.run_id != displaced,
        after.holds(conversation_id) == (match before.holds(conversation_id) {
            Some(current) if current.run_id == displaced => None,
            kept => kept,
        }),
    ensures
        after.holds(conversation_id) == Some(successor),
{
}

} // verus!
