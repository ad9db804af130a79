//! How a conversation grows: states that build on each other, each known by a digest of all of its
//! messages.
use crate::data;
use crate::data::{Duplicate, Same};
use crate::digest;
use crate::error::{Error, ErrorView};
use crate::model::ids::{RevisionId, RunId};
use crate::model::message;
use crate::model::message::{CanonicalMessage, CanonicalMessageView};
use crate::text;
use vstd::prelude::*;

verus! {

/// A number as bytes, the most significant first.
pub open spec fn be_bytes(n: nat, count: nat) -> Seq<u8>
    decreases count,
{
    if count == 0 {
        Seq::empty()
    } else {
        be_bytes(n / 256, (count - 1) as nat).push((n % 256) as u8)
    }
}

/// How many numbers a count of bytes can tell apart.
pub open spec fn byte_range(count: nat) -> nat
    decreases count,
{
    if count == 0 {
        1
    } else {
        256 * byte_range((count - 1) as nat)
    }
}

/// A number has as many bytes as were asked for, and two numbers that fit have different bytes.
proof fn lemma_be_bytes(a: nat, b: nat, count: nat)
    ensures
        be_bytes(a, count).len() == count,
        a < byte_range(count) && b < byte_range(count) && be_bytes(a, count) == be_bytes(b, count)
            ==> a == b,
    decreases count,
{
    if count > 0 {
        let less = (count - 1) as nat;
        lemma_be_bytes(a / 256, b / 256, less);
        lemma_be_bytes(b / 256, a / 256, less);
        if a < byte_range(count) && b < byte_range(count) && be_bytes(a, count) == be_bytes(
            b,
            count,
        ) {
            assert(be_bytes(a, count).drop_last() =~= be_bytes(a / 256, less));
            assert(be_bytes(b, count).drop_last() =~= be_bytes(b / 256, less));
            assert(be_bytes(a, count).last() == be_bytes(b, count).last());
            assert((a % 256) as u8 as nat == a % 256 && (b % 256) as u8 as nat == b % 256);
        }
    }
}

/// Writes a number as bytes, the most significant first.
fn push_be(out: &mut Vec<u8>, n: u64, count: usize)
    ensures
        final(out)@ == old(out)@ + be_bytes(n as nat, count as nat),
    decreases count,
{
    if count > 0 {
        push_be(out, n / 256, count - 1);
        out.push((n % 256) as u8);
    }
    assert(out@ =~= old(out)@ + be_bytes(n as nat, count as nat));
}

/// What is digested of a message: how long it is, in eight bytes, and then its bytes.
pub open spec fn framed(message: Seq<u8>) -> Seq<u8> {
    be_bytes(message.len(), 8) + message
}

/// What is digested of messages, one after the other.
pub open spec fn frames(messages: Seq<Seq<u8>>) -> Seq<u8>
    decreases messages.len(),
{
    if messages.len() == 0 {
        Seq::empty()
    } else {
        frames(messages.drop_last()) + framed(messages.last())
    }
}

/// The digest of a state of a conversation, from its messages as they are written down.
pub open spec fn state_digest(messages: Seq<Seq<u8>>) -> Seq<u8> {
    digest::sha256(frames(messages))
}

/// The digest of a state of a conversation, from its messages as they are written down.
pub fn message_digest(messages: &Vec<Vec<u8>>) -> (r: Vec<u8>)
    ensures
        r@ == state_digest(data::views(messages@)),
        r@.len() == 32,
{
    let ghost all = data::views(messages@);
    let mut bytes: Vec<u8> = Vec::new();
    let mut i: usize = 0;
    assert(all.take(0) =~= Seq::empty());
    while i < messages.len()
        invariant
            i <= messages@.len(),
            all == data::views(messages@),
            bytes@ == frames(all.take(i as int)),
        decreases messages@.len() - i,
    {
        let message = &messages[i];
        let ghost before = bytes@;
        push_be(&mut bytes, message.len() as u64, 8);
        let mut k: usize = 0;
        assert(message@.take(0) =~= Seq::empty());
        while k < message.len()
            invariant
                k <= message@.len(),
                bytes@ =~= before + be_bytes(message@.len(), 8) + message@.take(k as int),
            decreases message@.len() - k,
        {
            bytes.push(message[k]);
            k += 1;
            assert(message@.take(k as int) =~= message@.take(k - 1).push(message@[k - 1]));
        }
        assert(message@.take(k as int) =~= message@);
        i += 1;
        assert(all.take(i as int).drop_last() =~= all.take(i - 1));
        assert(all.take(i as int).last() == messages@[i - 1]@);
        assert(bytes@ =~= frames(all.take(i - 1)) + framed(messages@[i - 1]@));
    }
    assert(all.take(i as int) =~= all);
    digest::sha256_digest(bytes.as_slice())
}

/// The first frame of some that stand before others.
proof fn lemma_frames_front(messages: Seq<Seq<u8>>)
    requires
        messages.len() > 0,
    ensures
        frames(messages) == framed(messages[0]) + frames(messages.drop_first()),
    decreases messages.len(),
{
    if messages.len() == 1 {
        assert(messages.drop_last() =~= Seq::empty());
        assert(messages.drop_first() =~= Seq::empty());
        assert(frames(messages) =~= framed(messages[0]) + frames(messages.drop_first()));
    } else {
        lemma_frames_front(messages.drop_last());
        assert(messages.drop_last().drop_first() =~= messages.drop_first().drop_last());
        assert(messages.drop_first().last() == messages.last());
        assert(frames(messages) =~= framed(messages[0]) + frames(messages.drop_first()));
    }
}

/// Different messages, or messages that are divided differently, are digested from different
/// bytes.
pub proof fn law_frames_tell_messages_apart(a: Seq<Seq<u8>>, b: Seq<Seq<u8>>)
    requires
        forall|i: int| 0 <= i < a.len() ==> (#[trigger] a[i]).len() <= u64::MAX,
        forall|i: int| 0 <= i < b.len() ==> (#[trigger] b[i]).len() <= u64::MAX,
        frames(a) == frames(b),
    ensures
        a == b,
    decreases a.len() + b.len(),
{
    assert(byte_range(8) == 0x1_0000_0000_0000_0000) by {
        reveal_with_fuel(byte_range, 9);
    }
    if a.len() == 0 && b.len() == 0 {
        assert(a =~= b);
    } else if a.len() == 0 {
        lemma_frames_front(b);
        lemma_be_bytes(b[0].len(), 0, 8);
        assert(frames(b).len() == 0);
    } else if b.len() == 0 {
        lemma_frames_front(a);
        lemma_be_bytes(a[0].len(), 0, 8);
        assert(frames(a).len() == 0);
    } else {
        lemma_frames_front(a);
        lemma_frames_front(b);
        let whole = frames(a);
        let x = a[0];
        let y = b[0];
        lemma_be_bytes(x.len(), y.len(), 8);
        lemma_be_bytes(y.len(), x.len(), 8);
        assert(whole.take(8) =~= be_bytes(x.len(), 8));
        assert(whole.take(8) =~= be_bytes(y.len(), 8));
        let end = 8 + x.len() as int;
        assert(whole.subrange(8, end) =~= x);
        assert(whole.subrange(8, end) =~= y);
        assert(whole.skip(end) =~= frames(a.drop_first()));
        assert(whole.skip(end) =~= frames(b.drop_first()));
        let ta = a.drop_first();
        let tb = b.drop_first();
        assert forall|i: int| 0 <= i < ta.len() implies (#[trigger] ta[i]).len() <= u64::MAX by {
            assert(ta[i] == a[i + 1]);
        }
        assert forall|i: int| 0 <= i < tb.len() implies (#[trigger] tb[i]).len() <= u64::MAX by {
            assert(tb[i] == b[i + 1]);
        }
        law_frames_tell_messages_apart(ta, tb);
        assert(a =~= seq![x] + ta);
        assert(b =~= seq![y] + tb);
    }
}

/// Whether a message of a conversation stands in the way of another one: it has the same name, or
/// tells of the same event.
pub open spec fn occupies(existing: CanonicalMessageView, message: CanonicalMessageView) -> bool {
    existing.message_id == message.message_id || (message.runtime_event_id is Some
        && existing.runtime_event_id == message.runtime_event_id)
}

/// The first message of a conversation that stands in the way of another one.
pub open spec fn occupant(
    existing: Seq<CanonicalMessageView>,
    message: CanonicalMessageView,
) -> Option<CanonicalMessageView>
    decreases existing.len(),
{
    if existing.len() == 0 {
        None
    } else if occupies(existing[0], message) {
        Some(existing[0])
    } else {
        occupant(existing.drop_first(), message)
    }
}

/// Whether a message is to be added to a conversation: not where it is there already, and with an
/// error where another one stands in its place.
pub open spec fn append_once(
    existing: Seq<CanonicalMessageView>,
    message: CanonicalMessageView,
) -> Result<bool, ErrorView> {
    match occupant(existing, message) {
        Some(found) => if found.same(message) {
            Ok(false)
        } else {
            Err(
                ErrorView::Store(
                    "message id or runtime event reused with different content: "@
                        + message.message_id,
                ),
            )
        },
        None => Ok(true),
    }
}

/// Whether a message is to be added to a conversation.
pub fn append_message_once(existing: &Vec<CanonicalMessage>, message: &CanonicalMessage) -> (r:
    Result<bool, Error>)
    ensures
        (match r {
            Ok(added) => Ok(added),
            Err(e) => Err(e@),
        }) == append_once(data::views(existing@), message@),
{
    let ghost all = data::views(existing@);
    let mut i: usize = 0;
    assert(all.skip(0) =~= all);
    assert(all.len() == existing@.len());
    while i < existing.len()
        invariant
            i <= existing@.len(),
            all == data::views(existing@),
            all.len() == existing@.len(),
            occupant(all, message@) == occupant(all.skip(i as int), message@),
        decreases existing@.len() - i,
    {
        let found = &existing[i];
        assert(all.skip(i as int)[0] == found@);
        assert(all.skip(i as int).drop_first() =~= all.skip(i + 1));
        if found.message_id.is_same(&message.message_id) || (message.runtime_event_id.is_some()
            && data::same_option(&found.runtime_event_id, &message.runtime_event_id)) {
            return if found.is_same(message) {
                Ok(false)
            } else {
                Err(
                    Error::Store(
                        text::concat(
                            "message id or runtime event reused with different content: ",
                            message.message_id.as_str(),
                        ),
                    ),
                )
            };
        }
        i += 1;
    }
    Ok(true)
}

/// What stands in the way of a message is found in the same place with more messages behind.
proof fn lemma_occupant_push(
    existing: Seq<CanonicalMessageView>,
    last: CanonicalMessageView,
    message: CanonicalMessageView,
)
    ensures
        occupant(existing.push(last), message) == (match occupant(existing, message) {
            Some(found) => Some(found),
            None => if occupies(last, message) {
                Some(last)
            } else {
                None
            },
        }),
    decreases existing.len(),
{
    reveal_with_fuel(occupant, 2);
    if existing.len() == 0 {
        assert(existing.push(last).drop_first() =~= Seq::empty());
    } else {
        lemma_occupant_push(existing.drop_first(), last, message);
        assert(existing.push(last).drop_first() =~= existing.drop_first().push(last));
    }
}

/// A message that was added is not added a second time, whatever came behind it.
pub proof fn law_message_is_added_once(
    existing: Seq<CanonicalMessageView>,
    message: CanonicalMessageView,
    later: Seq<CanonicalMessageView>,
)
    requires
        append_once(existing, message) == Ok::<bool, ErrorView>(true),
    ensures
        append_once(existing.push(message) + later, message) == Ok::<bool, ErrorView>(false),
    decreases later.len(),
{
    message::law_sameness_is_an_equivalence(message, message, message);
    if later.len() == 0 {
        lemma_occupant_push(existing, message, message);
        assert(existing.push(message) + later =~= existing.push(message));
    } else {
        law_message_is_added_once(existing, message, later.drop_last());
        let shorter = existing.push(message) + later.drop_last();
        assert(existing.push(message) + later =~= shorter.push(later.last()));
        lemma_occupant_push(shorter, later.last(), message);
    }
}

/// Where a state that is brought in from outside goes.
#[derive(Clone, Copy, Debug, PartialEq, Eq, Structural)]
pub enum ImportPlan {
    /// It is there already.
    Existing(RevisionId),
    /// It becomes a child of `parent`, which lacks the messages from `from` on.
    Child { parent: RevisionId, from: usize },
}

/// Whether messages start with others.
pub open spec fn begins_with(
    messages: Seq<CanonicalMessageView>,
    start: Seq<CanonicalMessageView>,
) -> bool {
    start.len() <= messages.len() && message::same_messages(messages.take(start.len() as int), start)
}

/// Where a state goes: where its digest is, behind the current one where it continues that, and else
/// behind the root.
pub open spec fn import_of(
    existing: Option<RevisionId>,
    current: RevisionId,
    current_messages: Seq<CanonicalMessageView>,
    root: RevisionId,
    messages: Seq<CanonicalMessageView>,
) -> ImportPlan {
    match existing {
        Some(id) => ImportPlan::Existing(id),
        None => if begins_with(messages, current_messages) {
            ImportPlan::Child { parent: current, from: current_messages.len() as usize }
        } else {
            ImportPlan::Child { parent: root, from: 0 }
        },
    }
}

/// Where a state that is brought in from outside goes.
pub fn import_revision(
    existing: Option<RevisionId>,
    current: RevisionId,
    current_messages: &Vec<CanonicalMessage>,
    root: RevisionId,
    messages: &Vec<CanonicalMessage>,
) -> (r: ImportPlan)
    ensures
        r == import_of(
            existing,
            current,
            data::views(current_messages@),
            root,
            data::views(messages@),
        ),
{
    match existing {
        Some(id) => {
            return ImportPlan::Existing(id);
        },
        None => {},
    }
    let ghost all = data::views(messages@);
    let ghost start = data::views(current_messages@);
    assert(all.len() == messages@.len() && start.len() == current_messages@.len());
    if current_messages.len() > messages.len() {
        return ImportPlan::Child { parent: root, from: 0 };
    }
    let mut i: usize = 0;
    while i < current_messages.len()
        invariant
            i <= current_messages@.len() <= messages@.len(),
            all == data::views(messages@),
            start == data::views(current_messages@),
            all.len() == messages@.len(),
            start.len() == current_messages@.len(),
            existing is None,
            forall|k: int| 0 <= k < i ==> (#[trigger] all[k]).same(start[k]),
        decreases current_messages@.len() - i,
    {
        assert(all[i as int] == messages@[i as int]@);
        assert(start[i as int] == current_messages@[i as int]@);
        if !messages[i].is_same(&current_messages[i]) {
            assert(!all.take(start.len() as int)[i as int].same(start[i as int]));
            return ImportPlan::Child { parent: root, from: 0 };
        }
        i += 1;
    }
    assert forall|k: int| 0 <= k < start.len() implies (#[trigger] all.take(
        start.len() as int,
    )[k]).same(start[k]) by {
        assert(all[k].same(start[k]));
    }
    ImportPlan::Child { parent: current, from: current_messages.len() }
}

/// A state that is brought in becomes a child that, with what its parent holds, holds all of its
/// messages: the same ones, and those that the child adds as they are. The root holds none.
pub proof fn law_imported_state_is_complete(
    current: RevisionId,
    current_messages: Seq<CanonicalMessageView>,
    root: RevisionId,
    messages: Seq<CanonicalMessageView>,
)
    requires
        messages.len() <= usize::MAX,
    ensures
        ({
            let plan = import_of(None, current, current_messages, root, messages);
            plan matches ImportPlan::Child { parent, from } && (if begins_with(
                messages,
                current_messages,
            ) {
                parent == current && message::same_messages(
                    current_messages + messages.skip(from as int),
                    messages,
                )
            } else {
                parent == root && Seq::<CanonicalMessageView>::empty() + messages.skip(from as int)
                    == messages
            })
        }),
{
    if begins_with(messages, current_messages) {
        let n = current_messages.len() as int;
        let whole = current_messages + messages.skip(n);
        assert forall|i: int| 0 <= i < whole.len() implies (#[trigger] whole[i]).same(
            messages[i],
        ) by {
            message::law_sameness_is_an_equivalence(messages[i], messages[i], messages[i]);
            if i < n {
                assert(messages.take(n)[i].same(current_messages[i]));
                message::law_sameness_is_an_equivalence(messages[i], current_messages[i], messages[i]);
            }
        }
    } else {
        assert(Seq::<CanonicalMessageView>::empty() + messages.skip(0) =~= messages);
    }
}

/// A search for the longest run of new messages that the store already holds behind a state.
#[derive(Debug)]
pub struct PrefixMatch {
    revision: RevisionId,
    messages: Vec<CanonicalMessage>,
    additions: Vec<CanonicalMessage>,
    index: usize,
    stopped: bool,
}

#[verifier::ext_equal]
pub struct PrefixMatchView {
    /// The state that was reached.
    pub revision: RevisionId,
    /// The base and the additions that were found so far: the same messages as that state holds.
    pub messages: Seq<CanonicalMessageView>,
    pub additions: Seq<CanonicalMessageView>,
    /// How many of the additions that state holds.
    pub index: int,
    pub stopped: bool,
}

impl View for PrefixMatch {
    type V = PrefixMatchView;

    closed spec fn view(&self) -> PrefixMatchView {
        PrefixMatchView {
            revision: self.revision,
            messages: data::views(self.messages@),
            additions: data::views(self.additions@),
            index: self.index as int,
            stopped: self.stopped,
        }
    }
}

impl PrefixMatchView {
    /// What the search holds from its start on: it is at some message of the additions, and it has
    /// found what the base held and the additions before it.
    pub open spec fn wf(self, base: Seq<CanonicalMessageView>) -> bool {
        &&& 0 <= self.index <= self.additions.len()
        &&& self.messages == base + self.additions.take(self.index)
    }

    /// Whether a child of the state that was reached is looked for.
    pub open spec fn searches(self) -> bool {
        !self.stopped && self.index < self.additions.len()
    }

    /// What a child has to hold to be the next state.
    pub open spec fn wanted(self) -> Seq<CanonicalMessageView> {
        self.messages.push(self.additions[self.index])
    }

    /// The search after a child was looked for.
    pub open spec fn after(
        self,
        child: Option<(RevisionId, Seq<CanonicalMessageView>)>,
    ) -> PrefixMatchView {
        if !self.searches() {
            self
        } else {
            match child {
                Some((id, messages)) => if message::same_messages(messages, self.wanted()) {
                    PrefixMatchView {
                        revision: id,
                        messages: self.wanted(),
                        index: self.index + 1,
                        ..self
                    }
                } else {
                    PrefixMatchView { stopped: true, ..self }
                },
                None => PrefixMatchView { stopped: true, ..self },
            }
        }
    }
}

impl PrefixMatch {
    /// What the search relies on.
    pub closed spec fn wf(self) -> bool {
        self.index <= self.additions@.len()
    }

    /// A search that starts at a state, with what that state holds.
    pub fn new(
        base: RevisionId,
        messages: Vec<CanonicalMessage>,
        additions: Vec<CanonicalMessage>,
    ) -> (r: Self)
        ensures
            r.wf(),
            r@ == (PrefixMatchView {
                revision: base,
                messages: data::views(messages@),
                additions: data::views(additions@),
                index: 0,
                stopped: false,
            }),
            r@.wf(data::views(messages@)),
    {
        let r = PrefixMatch { revision: base, messages, additions, index: 0, stopped: false };
        assert(data::views(messages@) + data::views(additions@).take(0) =~= data::views(messages@));
        r
    }

    /// What the next state has to hold; none where the search is over. The store is asked for a
    /// child of [`PrefixMatch::reached`] with the digest of these messages.
    pub fn wanted(&self) -> (r: Option<Vec<CanonicalMessage>>)
        requires
            self.wf(),
        ensures
            match r {
                Some(messages) => self@.searches() && data::views(messages@) == self@.wanted(),
                None => !self@.searches(),
            },
    {
        assert(data::views(self.additions@).len() == self.additions@.len());
        if self.stopped || self.index >= self.additions.len() {
            return None;
        }
        let mut messages = data::duplicate_all(&self.messages);
        let ghost before = data::views(messages@);
        let next = self.additions[self.index].duplicate();
        messages.push(next);
        assert(data::views(messages@) =~= before.push(next@));
        Some(messages)
    }

    /// A child was looked for: the one with the wanted digest, and what it holds.
    pub fn on_child(&mut self, child: Option<(RevisionId, Vec<CanonicalMessage>)>)
        requires
            old(self).wf(),
        ensures
            final(self).wf(),
            final(self)@ == old(self)@.after(
                match child {
                    Some((id, messages)) => Some((id, data::views(messages@))),
                    None => None,
                },
            ),
    {
        let total = self.additions.len();
        assert(data::views(self.additions@).len() == total);
        match self.wanted() {
            None => {},
            Some(wanted) => match child {
                Some((id, messages)) => {
                    if message::are_same_messages(&messages, &wanted) {
                        self.revision = id;
                        self.messages = wanted;
                        self.index += 1;
                    } else {
                        self.stopped = true;
                    }
                },
                None => {
                    self.stopped = true;
                },
            },
        }
    }

    /// The state that was reached, and how many of the additions it holds.
    pub fn reached(&self) -> (r: (RevisionId, usize))
        ensures
            r.0 == self@.revision,
            r.1 == self@.index,
    {
        (self.revision, self.index)
    }
}

/// A search has always found exactly the base and the additions that are counted. Every answer
/// either ends it or moves it on by one message, to a state that holds the same messages.
pub proof fn law_matched_prefix_is_stored(
    search: PrefixMatchView,
    base: Seq<CanonicalMessageView>,
    child: Option<(RevisionId, Seq<CanonicalMessageView>)>,
)
    requires
        search.wf(base),
    ensures
        search.after(child).wf(base),
        search.searches() ==> search.after(child).index == search.index + 1 || !search.after(
            child,
        ).searches(),
        search.after(child).index != search.index ==> {
            &&& child matches Some((id, messages))
            &&& search.after(child).revision == id
            &&& message::same_messages(messages, base + search.additions.take(search.index + 1))
        },
{
    if search.searches() {
        assert(search.additions.take(search.index + 1) =~= search.additions.take(search.index).push(
            search.additions[search.index],
        ));
        assert(base + search.additions.take(search.index + 1) =~= (base + search.additions.take(
            search.index,
        )).push(search.additions[search.index]));
    }
}

/// How a run writes a new state of its conversation.
#[derive(Clone, Copy, Debug, PartialEq, Eq, Structural)]
pub enum RevisionWrite {
    /// The new messages follow those of the state that the run expects.
    Append,
    /// The new messages take the place of all others.
    Replace,
}

/// What has to be done next while a state is written.
#[derive(Debug)]
pub enum WriteStep {
    /// Check that the run is active and that the conversation is at the expected state.
    RequireHead,
    /// Look for a state with the digest of the new one.
    FindState,
    /// Look for the state without messages that all others build on.
    FindRoot,
    /// Insert the state as a child.
    Insert { parent: RevisionId },
    /// Make it the current one, where the conversation still is at the expected state and the run
    /// still active.
    MoveHead { revision: RevisionId },
    /// Note it as the head of the run, and commit.
    UpdateRun { revision: RevisionId },
    /// The run goes on from this state.
    Done { revision: RevisionId },
    /// Nothing was written.
    Failed(Error),
}

#[verifier::ext_equal]
pub enum WriteStepView {
    RequireHead,
    FindState,
    FindRoot,
    Insert { parent: RevisionId },
    MoveHead { revision: RevisionId },
    UpdateRun { revision: RevisionId },
    Done { revision: RevisionId },
    Failed(ErrorView),
}

impl View for WriteStep {
    type V = WriteStepView;

    open spec fn view(&self) -> WriteStepView {
        match self {
            WriteStep::RequireHead => WriteStepView::RequireHead,
            WriteStep::FindState => WriteStepView::FindState,
            WriteStep::FindRoot => WriteStepView::FindRoot,
            WriteStep::Insert { parent } => WriteStepView::Insert { parent: *parent },
            WriteStep::MoveHead { revision } => WriteStepView::MoveHead { revision: *revision },
            WriteStep::UpdateRun { revision } => WriteStepView::UpdateRun { revision: *revision },
            WriteStep::Done { revision } => WriteStepView::Done { revision: *revision },
            WriteStep::Failed(error) => WriteStepView::Failed(error@),
        }
    }
}

/// How a write starts: one without new messages has nothing to do.
pub open spec fn write_start(
    kind: RevisionWrite,
    expected: RevisionId,
    additions: nat,
) -> WriteStepView {
    if kind == RevisionWrite::Append && additions == 0 {
        WriteStepView::Done { revision: expected }
    } else {
        WriteStepView::RequireHead
    }
}

/// How a write starts.
pub fn start_write(kind: RevisionWrite, expected: RevisionId, additions: usize) -> (r: WriteStep)
    ensures
        r@ == write_start(kind, expected, additions as nat),
{
    if kind == RevisionWrite::Append && additions == 0 {
        WriteStep::Done { revision: expected }
    } else {
        WriteStep::RequireHead
    }
}

/// The run is active and the conversation at the expected state.
pub fn on_head(kind: RevisionWrite) -> (r: WriteStep)
    ensures
        r@ == (match kind {
            RevisionWrite::Append => WriteStepView::FindState,
            RevisionWrite::Replace => WriteStepView::FindRoot,
        }),
{
    match kind {
        RevisionWrite::Append => WriteStep::FindState,
        RevisionWrite::Replace => WriteStep::FindRoot,
    }
}

/// What follows from a state with the digest of the new one having been looked for.
pub open spec fn after_state(existing: Option<RevisionId>, expected: RevisionId) -> WriteStepView {
    match existing {
        Some(_) => WriteStepView::Failed(
            ErrorView::Store(
                "active append would reuse an existing revision instead of creating a child"@,
            ),
        ),
        None => WriteStepView::Insert { parent: expected },
    }
}

/// A state with the digest of the new one was looked for.
pub fn on_state(existing: Option<RevisionId>, expected: RevisionId) -> (r: WriteStep)
    ensures
        r@ == after_state(existing, expected),
{
    match existing {
        Some(_) => WriteStep::Failed(
            Error::Store(
                "active append would reuse an existing revision instead of creating a child".to_owned(),
            ),
        ),
        None => WriteStep::Insert { parent: expected },
    }
}

/// The state without messages was found.
pub fn on_root(root: RevisionId) -> (r: WriteStep)
    ensures
        r@ == (WriteStepView::Insert { parent: root }),
{
    WriteStep::Insert { parent: root }
}

/// The state was inserted.
pub fn on_inserted(revision: RevisionId) -> (r: WriteStep)
    ensures
        r@ == (WriteStepView::MoveHead { revision }),
{
    WriteStep::MoveHead { revision }
}

/// What follows from an attempt to make a state the current one.
pub open spec fn after_move(
    kind: RevisionWrite,
    revision: RevisionId,
    moved: nat,
    run_id: Seq<char>,
) -> WriteStepView {
    if moved == 1 {
        WriteStepView::UpdateRun { revision }
    } else {
        WriteStepView::Failed(
            ErrorView::Store(
                "lost active ownership while "@ + (match kind {
                    RevisionWrite::Append => "appending"@,
                    RevisionWrite::Replace => "replacing"@,
                }) + " revision for run "@ + run_id,
            ),
        )
    }
}

/// The conversation was to be moved to the new state, and so many conversations were.
pub fn on_moved(kind: RevisionWrite, revision: RevisionId, moved: u64, run_id: &RunId) -> (r:
    WriteStep)
    ensures
        r@ == after_move(kind, revision, moved as nat, run_id@),
{
    if moved == 1 {
        return WriteStep::UpdateRun { revision };
    }
    let verb = match kind {
        RevisionWrite::Append => "appending",
        RevisionWrite::Replace => "replacing",
    };
    let start = text::concat3("lost active ownership while ", verb, " revision for run ");
    WriteStep::Failed(Error::Store(text::concat(start.as_str(), run_id.0.as_str())))
}

/// The run has its new head.
pub fn on_run_updated(revision: RevisionId) -> (r: WriteStep)
    ensures
        r@ == (WriteStepView::Done { revision }),
{
    WriteStep::Done { revision }
}

/// A run that has lost its conversation writes nothing: only where exactly one conversation was
/// moved is the new state noted as the head of the run.
pub proof fn law_lost_run_writes_nothing(
    kind: RevisionWrite,
    revision: RevisionId,
    moved: nat,
    run_id: Seq<char>,
)
    ensures
        (after_move(kind, revision, moved, run_id) == WriteStepView::UpdateRun { revision }) <==> (
        moved == 1),
        moved != 1 ==> after_move(kind, revision, moved, run_id) is Failed,
{
}

/// A message is added where no message has its id and none tells of its event. Where one does, it is
/// not added: without an error if that message says the same, and with one if it says something else.
pub proof fn law_messages_are_added_where_there_is_room(
    existing: Seq<CanonicalMessageView>,
    message: CanonicalMessageView,
)
    ensures
        (forall|i: int|
            0 <= i < existing.len() ==> (#[trigger] existing[i]).message_id != message.message_id
                && (message.runtime_event_id is Some ==> existing[i].runtime_event_id
                != message.runtime_event_id)) ==> append_once(existing, message) == Ok::<
            bool,
            ErrorView,
        >(true),
        forall|i: int|
            0 <= i < existing.len() && ((#[trigger] existing[i]).message_id == message.message_id
                || (message.runtime_event_id is Some && existing[i].runtime_event_id
                == message.runtime_event_id)) && (forall|k: int|
                0 <= k < i ==> (#[trigger] existing[k]).message_id != message.message_id && (
                message.runtime_event_id is Some ==> existing[k].runtime_event_id
                    != message.runtime_event_id)) ==> {
                &&& existing[i].same(message) ==> append_once(existing, message) == Ok::<
                    bool,
                    ErrorView,
                >(false)
                &&& !existing[i].same(message) ==> append_once(existing, message) is Err
            },
    decreases existing.len(),
{
    lemma_first_occupant(existing, message);
}

proof fn lemma_first_occupant(existing: Seq<CanonicalMessageView>, message: CanonicalMessageView)
    ensures
        occupant(existing, message) is None <==> forall|i: int|
            0 <= i < existing.len() ==> !occupies(#[trigger] existing[i], message),
        forall|i: int|
            0 <= i < existing.len() && occupies(#[trigger] existing[i], message) && (forall|k: int|
                0 <= k < i ==> !occupies(#[trigger] existing[k], message)) ==> occupant(
                existing,
                message,
            ) == Some(existing[i]),
    decreases existing.len(),
{
    if existing.len() > 0 && !occupies(existing[0], message) {
        let rest = existing.drop_first();
        lemma_first_occupant(rest, message);
        assert forall|i: int| 0 < i < existing.len() implies rest[i - 1] == #[trigger] existing[i] by {}
        if forall|i: int| 0 <= i < rest.len() ==> !occupies(#[trigger] rest[i], message) {
            assert forall|i: int| 0 <= i < existing.len() implies !occupies(
                #[trigger] existing[i],
                message,
            ) by {
                if i > 0 {
                    assert(!occupies(rest[i - 1], message));
                }
            }
        } else {
            let i = choose|i: int|
                0 <= i < rest.len() && occupies(#[trigger] rest[i], message);
            assert(occupies(existing[i + 1], message));
        }
        assert forall|i: int|
            0 <= i < existing.len() && occupies(#[trigger] existing[i], message) && (forall|k: int|
                0 <= k < i ==> !occupies(
                    #[trigger] existing[k],
                    message,
                )) implies occupant(existing, message) == Some(existing[i]) by {
            assert(occupies(rest[i - 1], message));
            assert forall|k: int| 0 <= k < i - 1 implies !occupies(
                #[trigger] rest[k],
                message,
            ) by {
                assert(!occupies(existing[k + 1], message));
            }
        }
    }
}

/// A state that the store has is not stored again.
pub proof fn law_known_state_is_reused(
    id: RevisionId,
    current: RevisionId,
    current_messages: Seq<CanonicalMessageView>,
    root: RevisionId,
    messages: Seq<CanonicalMessageView>,
)
    ensures
        import_of(Some(id), current, current_messages, root, messages) == ImportPlan::Existing(id),
{
}

/// A run that has nothing to append stays where it is; every other write begins by making sure that
/// the run still has its conversation. A new state becomes a child of the one that the run expects,
/// unless the store already has it.
pub proof fn law_writes_build_on_what_is_expected(
    kind: RevisionWrite,
    expected: RevisionId,
    additions: nat,
    existing: Option<RevisionId>,
)
    ensures
        kind == RevisionWrite::Append && additions == 0 ==> write_start(kind, expected, additions)
            == (WriteStepView::Done { revision: expected }),
        kind == RevisionWrite::Replace || additions > 0 ==> write_start(
            kind,
            expected,
            additions,
        ) is RequireHead,
        existing is None ==> after_state(existing, expected) == (WriteStepView::Insert {
            parent: expected,
        }),
        existing is Some ==> after_state(existing, expected) is Failed,
{
}

/// A run goes on if and only if exactly its conversation was moved to the new state.
pub proof fn law_only_one_conversation_is_moved(
    kind: RevisionWrite,
    revision: RevisionId,
    moved: nat,
    run_id: Seq<char>,
)
    ensures
        moved == 1 ==> after_move(kind, revision, moved, run_id) == (WriteStepView::UpdateRun {
            revision,
        }),
        moved != 1 ==> (after_move(kind, revision, moved, run_id) matches WriteStepView::Failed(
            ErrorView::Store(told),
        ) && crate::text::ends(told, run_id)),
{
    let start = "lost active ownership while "@ + (match kind {
        RevisionWrite::Append => "appending"@,
        RevisionWrite::Replace => "replacing"@,
    }) + " revision for run "@;
    let told = start + run_id;
    assert(told.subrange(told.len() - run_id.len(), told.len() as int) =~= run_id);
}

} // verus!
