//! Edits of the same file run one after the other.
use crate::data;
use crate::model::tool::{ToolCall, ToolCallView};
use crate::text;
use vstd::prelude::*;

verus! {

/// A call of a batch that is to be started: the step that it is shown as, and whether its start is
/// still to be announced.
#[derive(Debug)]
pub struct DispatchedTool {
    pub call: ToolCall,
    pub message_index: usize,
    pub publish_started: bool,
}

#[verifier::ext_equal]
pub struct DispatchedToolView {
    pub call: ToolCallView,
    pub message_index: int,
    pub publish_started: bool,
}

impl View for DispatchedTool {
    type V = DispatchedToolView;

    open spec fn view(&self) -> DispatchedToolView {
        DispatchedToolView {
            call: self.call@,
            message_index: self.message_index as int,
            publish_started: self.publish_started,
        }
    }
}

/// A file that is being edited: the call that runs, and those that wait for it.
#[derive(Debug)]
pub struct EditLane {
    path: String,
    running: String,
    waiting: Vec<DispatchedTool>,
}

#[verifier::ext_equal]
pub struct EditLaneView {
    pub path: Seq<char>,
    /// The call that runs.
    pub running: Seq<char>,
    /// The calls that wait, in the order in which they came.
    pub waiting: Seq<DispatchedToolView>,
}

impl View for EditLane {
    type V = EditLaneView;

    closed spec fn view(&self) -> EditLaneView {
        EditLaneView {
            path: self.path@,
            running: self.running@,
            waiting: data::views(self.waiting@),
        }
    }
}

/// The place of the first file with this path; the number of files where there is none.
pub open spec fn lane_of(lanes: Seq<EditLaneView>, path: Seq<char>) -> int
    decreases lanes.len(),
{
    if lanes.len() == 0 {
        0
    } else if lanes[0].path == path {
        0
    } else {
        1 + lane_of(lanes.drop_first(), path)
    }
}

/// The place of the first file that this call edits; the number of files where there is none.
pub open spec fn running_lane(lanes: Seq<EditLaneView>, call_id: Seq<char>) -> int
    decreases lanes.len(),
{
    if lanes.len() == 0 {
        0
    } else if lanes[0].running == call_id {
        0
    } else {
        1 + running_lane(lanes.drop_first(), call_id)
    }
}

/// No file stands there twice: at most one edit of it runs.
pub open spec fn one_per_path(lanes: Seq<EditLaneView>) -> bool {
    forall|i: int, k: int|
        0 <= i < k < lanes.len() ==> #[trigger] lanes[i].path != #[trigger] lanes[k].path
}

/// What comes of an edit that is to start: it starts where no other one of its path runs, and waits
/// otherwise.
pub open spec fn start_or_defer(
    lanes: Seq<EditLaneView>,
    path: Seq<char>,
    tool: DispatchedToolView,
) -> (Option<DispatchedToolView>, Seq<EditLaneView>) {
    let at = lane_of(lanes, path);
    if at < lanes.len() {
        (
            None,
            lanes.update(
                at,
                EditLaneView { waiting: lanes[at].waiting.push(tool), ..lanes[at] },
            ),
        )
    } else {
        (
            Some(tool),
            lanes.push(EditLaneView { path, running: tool.call.call_id, waiting: Seq::empty() }),
        )
    }
}

/// What comes of an edit that was completed: the first one that waited for it starts.
pub open spec fn completed(lanes: Seq<EditLaneView>, call_id: Seq<char>) -> (
    Option<DispatchedToolView>,
    Seq<EditLaneView>,
) {
    let at = running_lane(lanes, call_id);
    if at >= lanes.len() {
        (None, lanes)
    } else if lanes[at].waiting.len() == 0 {
        (None, lanes.remove(at))
    } else {
        let next = lanes[at].waiting[0];
        (
            Some(next),
            lanes.update(
                at,
                EditLaneView {
                    running: next.call.call_id,
                    waiting: lanes[at].waiting.drop_first(),
                    ..lanes[at]
                },
            ),
        )
    }
}

/// The place that is found is one of the path, and no earlier one is.
proof fn lemma_lane_of(lanes: Seq<EditLaneView>, path: Seq<char>, at: int)
    requires
        0 <= at <= lanes.len(),
        forall|i: int| 0 <= i < at ==> (#[trigger] lanes[i]).path != path,
        at < lanes.len() ==> lanes[at].path == path,
    ensures
        lane_of(lanes, path) == at,
    decreases lanes.len(),
{
    if at > 0 {
        let rest = lanes.drop_first();
        assert forall|i: int| 0 <= i < at - 1 implies (#[trigger] rest[i]).path != path by {
            assert(rest[i] == lanes[i + 1]);
        }
        assert(lanes[0].path != path);
        lemma_lane_of(rest, path, at - 1);
    }
}

/// The place that is found is one of the call, and no earlier one is.
proof fn lemma_running_lane(lanes: Seq<EditLaneView>, call_id: Seq<char>, at: int)
    requires
        0 <= at <= lanes.len(),
        forall|i: int| 0 <= i < at ==> (#[trigger] lanes[i]).running != call_id,
        at < lanes.len() ==> lanes[at].running == call_id,
    ensures
        running_lane(lanes, call_id) == at,
    decreases lanes.len(),
{
    if at > 0 {
        let rest = lanes.drop_first();
        assert forall|i: int| 0 <= i < at - 1 implies (#[trigger] rest[i]).running != call_id by {
            assert(rest[i] == lanes[i + 1]);
        }
        assert(lanes[0].running != call_id);
        lemma_running_lane(rest, call_id, at - 1);
    }
}

/// The files that are being edited.
#[derive(Debug)]
pub struct EditSchedule {
    lanes: Vec<EditLane>,
}

impl View for EditSchedule {
    type V = Seq<EditLaneView>;

    closed spec fn view(&self) -> Seq<EditLaneView> {
        data::views(self.lanes@)
    }
}

impl Default for EditSchedule {
    fn default() -> (r: Self)
        ensures
            r.wf(),
            r@ == Seq::<EditLaneView>::empty(),
    {
        let r = EditSchedule { lanes: Vec::new() };
        assert(r@ =~= Seq::<EditLaneView>::empty());
        r
    }
}

impl EditSchedule {
    /// At most one edit of each file runs.
    pub open spec fn wf(self) -> bool {
        one_per_path(self@)
    }

    /// An edit is to start: it is given back where it may, and waits otherwise.
    pub fn start_or_defer(&mut self, path: &str, tool: DispatchedTool) -> (r: Option<DispatchedTool>)
        requires
            old(self).wf(),
        ensures
            final(self).wf(),
            (data::option_view(r), final(self)@) == start_or_defer(old(self)@, path@, tool@),
    {
        let ghost lanes = self@;
        assert(lanes.len() == self.lanes@.len());
        let mut at: usize = 0;
        while at < self.lanes.len() && !text::same(self.lanes[at].path.as_str(), path)
            invariant
                at <= self.lanes@.len() == lanes.len(),
                *self == *old(self),
                lanes == self@,
                forall|i: int| 0 <= i < at ==> (#[trigger] lanes[i]).path != path@,
            decreases self.lanes@.len() - at,
        {
            assert(lanes[at as int] == self.lanes@[at as int]@);
            at += 1;
        }
        proof {
            if at < lanes.len() {
                assert(lanes[at as int] == self.lanes@[at as int]@);
            }
            lemma_lane_of(lanes, path@, at as int);
        }
        if at < self.lanes.len() {
            let mut lane = self.lanes.remove(at);
            let ghost before = data::views(lane.waiting@);
            lane.waiting.push(tool);
            assert(data::views(lane.waiting@) =~= before.push(tool@));
            self.lanes.insert(at, lane);
            assert(self@ =~= start_or_defer(lanes, path@, tool@).1);
            None
        } else {
            let waiting: Vec<DispatchedTool> = Vec::new();
            assert(data::views(waiting@) =~= Seq::<DispatchedToolView>::empty());
            self.lanes.push(
                EditLane { path: path.to_owned(), running: tool.call.call_id.clone(), waiting },
            );
            assert(self@ =~= start_or_defer(lanes, path@, tool@).1);
            Some(tool)
        }
    }

    /// A call was completed: the edit that waited for it first is given back, and starts.
    pub fn complete(&mut self, call_id: &str) -> (r: Option<DispatchedTool>)
        requires
            old(self).wf(),
        ensures
            final(self).wf(),
            (data::option_view(r), final(self)@) == completed(old(self)@, call_id@),
    {
        let ghost lanes = self@;
        assert(lanes.len() == self.lanes@.len());
        let mut at: usize = 0;
        while at < self.lanes.len() && !text::same(self.lanes[at].running.as_str(), call_id)
            invariant
                at <= self.lanes@.len() == lanes.len(),
                *self == *old(self),
                lanes == self@,
                forall|i: int| 0 <= i < at ==> (#[trigger] lanes[i]).running != call_id@,
            decreases self.lanes@.len() - at,
        {
            assert(lanes[at as int] == self.lanes@[at as int]@);
            at += 1;
        }
        proof {
            if at < lanes.len() {
                assert(lanes[at as int] == self.lanes@[at as int]@);
            }
            lemma_running_lane(lanes, call_id@, at as int);
        }
        if at >= self.lanes.len() {
            return None;
        }
        let mut lane = self.lanes.remove(at);
        assert(data::views(lane.waiting@).len() == lane.waiting@.len());
        if lane.waiting.len() == 0 {
            assert(self@ =~= lanes.remove(at as int));
            return None;
        }
        let ghost before = data::views(lane.waiting@);
        let next = lane.waiting.remove(0);
        assert(next@ == before[0]);
        assert(data::views(lane.waiting@) =~= before.drop_first());
        lane.running = next.call.call_id.clone();
        self.lanes.insert(at, lane);
        assert(self@ =~= completed(lanes, call_id@).1);
        Some(next)
    }
}

/// An edit that is to start while another one of its path runs, and none waits yet, waits for it and
/// is the one that starts when it is done.
pub proof fn law_edits_of_a_path_take_turns(
    lanes: Seq<EditLaneView>,
    path: Seq<char>,
    tool: DispatchedToolView,
)
    requires
        one_per_path(lanes),
        lane_of(lanes, path) < lanes.len(),
        lanes[lane_of(lanes, path)].waiting.len() == 0,
        running_lane(lanes, lanes[lane_of(lanes, path)].running) == lane_of(lanes, path),
    ensures
        ({
            let at = lane_of(lanes, path);
            let (now, later) = start_or_defer(lanes, path, tool);
            &&& now is None
            &&& completed(later, lanes[at].running).0 == Some(tool)
            &&& completed(later, lanes[at].running).1[at].running == tool.call.call_id
        }),
{
    let at = lane_of(lanes, path);
    let later = start_or_defer(lanes, path, tool).1;
    lemma_running_before(lanes, lanes[at].running);
    assert forall|i: int| 0 <= i < at implies (#[trigger] later[i]).running
        != lanes[at].running by {
        assert(later[i] == lanes[i]);
    }
    lemma_running_lane(later, lanes[at].running, at);
}

/// No file before the one that is found is edited by the call.
proof fn lemma_running_before(lanes: Seq<EditLaneView>, call_id: Seq<char>)
    ensures
        0 <= running_lane(lanes, call_id) <= lanes.len(),
        forall|i: int|
            0 <= i < running_lane(lanes, call_id) ==> (#[trigger] lanes[i]).running != call_id,
    decreases lanes.len(),
{
    if lanes.len() > 0 && lanes[0].running != call_id {
        let rest = lanes.drop_first();
        lemma_running_before(rest, call_id);
        assert forall|i: int| 0 <= i < running_lane(lanes, call_id) implies (
        #[trigger] lanes[i]).running != call_id by {
            if i > 0 {
                assert(rest[i - 1] == lanes[i]);
            }
        }
    }
}

/// An edit starts if and only if no edit of its path runs. One that starts runs; one that does not waits
/// behind those that wait already. Edits of other paths are left alone.
pub proof fn law_edit_starts_where_none_runs(
    lanes: Seq<EditLaneView>,
    path: Seq<char>,
    tool: DispatchedToolView,
)
    ensures
        ({
            let (started, after) = start_or_defer(lanes, path, tool);
            let busy = exists|i: int| 0 <= i < lanes.len() && (#[trigger] lanes[i]).path == path;
            &&& started is Some <==> !busy
            &&& started is Some ==> started == Some(tool)
            &&& !busy ==> after.len() == lanes.len() + 1 && after.last().path == path
                && after.last().running == tool.call.call_id && after.last().waiting.len() == 0
            &&& busy ==> after.len() == lanes.len()
            &&& forall|i: int|
                0 <= i < lanes.len() ==> {
                    &&& (#[trigger] after[i]).path == lanes[i].path
                    &&& after[i].running == lanes[i].running
                    &&& lanes[i].path != path ==> after[i] == lanes[i]
                    &&& one_per_path(lanes) && lanes[i].path == path ==> after[i].waiting
                        == lanes[i].waiting.push(tool)
                }
        }),
{
    lemma_first_lane(lanes, path);
    let at = lane_of(lanes, path);
    if at < lanes.len() {
        assert(lanes[at].path == path);
    }
}

proof fn lemma_first_lane(lanes: Seq<EditLaneView>, path: Seq<char>)
    ensures
        0 <= lane_of(lanes, path) <= lanes.len(),
        lane_of(lanes, path) < lanes.len() ==> lanes[lane_of(lanes, path)].path == path,
        forall|i: int| 0 <= i < lane_of(lanes, path) ==> (#[trigger] lanes[i]).path != path,
    decreases lanes.len(),
{
    if lanes.len() > 0 && lanes[0].path != path {
        let rest = lanes.drop_first();
        lemma_first_lane(rest, path);
        assert forall|i: int| 0 <= i < lane_of(lanes, path) implies (#[trigger] lanes[i]).path
            != path by {
            if i > 0 {
                assert(lanes[i] == rest[i - 1]);
            }
        }
    }
}

proof fn lemma_first_running(lanes: Seq<EditLaneView>, call_id: Seq<char>)
    ensures
        0 <= running_lane(lanes, call_id) <= lanes.len(),
        running_lane(lanes, call_id) < lanes.len() ==> lanes[running_lane(lanes, call_id)].running
            == call_id,
        forall|i: int| 0 <= i < running_lane(lanes, call_id) ==> (#[trigger] lanes[i]).running
            != call_id,
    decreases lanes.len(),
{
    if lanes.len() > 0 && lanes[0].running != call_id {
        let rest = lanes.drop_first();
        lemma_first_running(rest, call_id);
        assert forall|i: int| 0 <= i < running_lane(lanes, call_id) implies (
        #[trigger] lanes[i]).running != call_id by {
            if i > 0 {
                assert(lanes[i] == rest[i - 1]);
            }
        }
    }
}

/// When an edit is done, the one that waited for it longest runs, and the others go on waiting in their
/// order; where none waited, the path is free again. A call that edits nothing changes nothing.
pub proof fn law_longest_waiting_edit_is_next(
    lanes: Seq<EditLaneView>,
    at: int,
    call_id: Seq<char>,
)
    requires
        0 <= at < lanes.len(),
        lanes[at].running == call_id,
        forall|i: int|
            0 <= i < lanes.len() && i != at ==> (#[trigger] lanes[i]).running != call_id,
    ensures
        ({
            let (next, after) = completed(lanes, call_id);
            &&& next is Some <==> lanes[at].waiting.len() > 0
            &&& next is None ==> after == lanes.take(at) + lanes.skip(at + 1)
            &&& next matches Some(tool) ==> {
                &&& tool == lanes[at].waiting[0]
                &&& after.len() == lanes.len()
                &&& after[at].path == lanes[at].path
                &&& after[at].running == tool.call.call_id
                &&& seq![tool] + after[at].waiting == lanes[at].waiting
                &&& forall|i: int|
                    0 <= i < lanes.len() && i != at ==> #[trigger] after[i] == lanes[i]
            }
        }),
{
    lemma_first_running(lanes, call_id);
    assert(running_lane(lanes, call_id) == at);
    if lanes[at].waiting.len() > 0 {
        let w = lanes[at].waiting;
        assert(seq![w[0]] + w.drop_first() =~= w);
    } else {
        assert(lanes.remove(at) =~= lanes.take(at) + lanes.skip(at + 1));
    }
}

/// A call that edits nothing changes nothing when it is done.
pub proof fn law_other_calls_wake_nobody(lanes: Seq<EditLaneView>, call_id: Seq<char>)
    requires
        forall|i: int| 0 <= i < lanes.len() ==> (#[trigger] lanes[i]).running != call_id,
    ensures
        completed(lanes, call_id).0 is None,
        completed(lanes, call_id).1 == lanes,
{
    lemma_first_running(lanes, call_id);
    if running_lane(lanes, call_id) < lanes.len() {
        assert(lanes[running_lane(lanes, call_id)].running != call_id);
    }
}

} // verus!
