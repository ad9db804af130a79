//! Canonical messages: what a conversation holds, independent of any provider.
use crate::data;
use crate::data::{Duplicate, Same};
use crate::json;
use crate::json::Json;
use vstd::prelude::*;

verus! {

#[derive(Clone, Copy, Debug, PartialEq, Eq, Structural)]
pub enum Role {
    User,
    Assistant,
    System,
    Tool,
}

#[derive(Clone, Copy, Debug, PartialEq, Eq, Structural)]
pub enum Origin {
    User,
    Assistant,
    Tool,
    Runtime,
}

/// State that a provider wants handed back on the next call, kept as it came.
#[derive(Debug)]
pub struct ProviderReplayState {
    pub value: Json,
}

impl View for ProviderReplayState {
    type V = crate::json::JsonView;

    open spec fn view(&self) -> Self::V {
        self.value@
    }
}

impl Duplicate for ProviderReplayState {
    fn duplicate(&self) -> (r: Self) {
        ProviderReplayState { value: self.value.duplicate() }
    }
}

/// A piece of what a message shows.
#[derive(Debug)]
pub enum ContentPart {
    Text { text: String },
    Image { mime_type: String, data: Vec<u8> },
}

#[verifier::ext_equal]
pub enum ContentPartView {
    Text { text: Seq<char> },
    Image { mime_type: Seq<char>, data: Seq<u8> },
}

impl View for ContentPart {
    type V = ContentPartView;

    open spec fn view(&self) -> ContentPartView {
        match self {
            ContentPart::Text { text } => ContentPartView::Text { text: text@ },
            ContentPart::Image { mime_type, data } => ContentPartView::Image {
                mime_type: mime_type@,
                data: data@,
            },
        }
    }
}

impl Duplicate for ContentPart {
    fn duplicate(&self) -> (r: Self) {
        match self {
            ContentPart::Text { text } => ContentPart::Text { text: text.clone() },
            ContentPart::Image { mime_type, data } => {
                let copied = data::duplicate_all(data);
                assert(copied@ =~= data::views(copied@));
                assert(data@ =~= data::views(data@));
                ContentPart::Image { mime_type: mime_type.clone(), data: copied }
            },
        }
    }
}

impl Same for ContentPart {
    fn is_same(&self, other: &Self) -> (r: bool) {
        match (self, other) {
            (ContentPart::Text { text: a }, ContentPart::Text { text: b }) => a.is_same(b),
            (
                ContentPart::Image { mime_type: a, data: x },
                ContentPart::Image { mime_type: b, data: y },
            ) => {
                assert(x@ =~= data::views(x@));
                assert(y@ =~= data::views(y@));
                a.is_same(b) && data::same_all(x, y)
            },
            _ => false,
        }
    }
}

/// A tool call as an assistant message records it.
#[derive(Debug)]
pub struct ToolCallContent {
    pub index: usize,
    pub call_id: String,
    pub name: String,
    pub arguments: Json,
}

#[verifier::ext_equal]
pub struct ToolCallContentView {
    pub index: usize,
    pub call_id: Seq<char>,
    pub name: Seq<char>,
    pub arguments: crate::json::JsonView,
}

impl View for ToolCallContent {
    type V = ToolCallContentView;

    open spec fn view(&self) -> ToolCallContentView {
        ToolCallContentView {
            index: self.index,
            call_id: self.call_id@,
            name: self.name@,
            arguments: self.arguments@,
        }
    }
}

impl Duplicate for ToolCallContent {
    fn duplicate(&self) -> (r: Self) {
        ToolCallContent {
            index: self.index,
            call_id: self.call_id.clone(),
            name: self.name.clone(),
            arguments: self.arguments.duplicate(),
        }
    }
}

impl ToolCallContentView {
    /// Whether two calls are the same, with arguments that say the same.
    pub open spec fn same(self, other: ToolCallContentView) -> bool {
        &&& self == ToolCallContentView { arguments: self.arguments, ..other }
        &&& json::same(self.arguments, other.arguments)
    }
}

impl ToolCallContent {
    /// Whether two calls are the same, with arguments that say the same.
    pub fn is_same(&self, other: &Self) -> (r: bool)
        ensures
            r == self@.same(other@),
    {
        self.index == other.index && self.call_id.is_same(&other.call_id) && self.name.is_same(
            &other.name,
        ) && self.arguments.equals(&other.arguments)
    }
}

/// Whether two lists of calls are the same, call for call.
pub open spec fn same_calls(a: Seq<ToolCallContentView>, b: Seq<ToolCallContentView>) -> bool {
    a.len() == b.len() && forall|i: int| 0 <= i < a.len() ==> (#[trigger] a[i]).same(b[i])
}

fn are_same_calls(a: &Vec<ToolCallContent>, b: &Vec<ToolCallContent>) -> (r: bool)
    ensures
        r == same_calls(data::views(a@), data::views(b@)),
{
    let ghost x = data::views(a@);
    let ghost y = data::views(b@);
    assert(x.len() == a@.len() && y.len() == b@.len());
    if a.len() != b.len() {
        return false;
    }
    let mut i: usize = 0;
    while i < a.len()
        invariant
            i <= a@.len(),
            a@.len() == b@.len(),
            x == data::views(a@),
            y == data::views(b@),
            x.len() == a@.len(),
            y.len() == b@.len(),
            forall|k: int| 0 <= k < i ==> (#[trigger] x[k]).same(y[k]),
        decreases a@.len() - i,
    {
        assert(x[i as int] == a@[i as int]@);
        assert(y[i as int] == b@[i as int]@);
        if !a[i].is_same(&b[i]) {
            return false;
        }
        i += 1;
    }
    true
}

/// Whether two replay states say the same, or there is none twice.
pub open spec fn same_replay(a: Option<json::JsonView>, b: Option<json::JsonView>) -> bool {
    match (a, b) {
        (Some(a), Some(b)) => json::same(a, b),
        (None, None) => true,
        _ => false,
    }
}

fn is_same_replay(a: &Option<ProviderReplayState>, b: &Option<ProviderReplayState>) -> (r: bool)
    ensures
        r == same_replay(data::option_view(*a), data::option_view(*b)),
{
    match (a, b) {
        (Some(a), Some(b)) => a.value.equals(&b.value),
        (None, None) => true,
        _ => false,
    }
}

/// Where the image of a tool result is stored.
#[derive(Debug)]
pub struct ToolResultImage {
    pub blob_id: String,
    pub mime_type: String,
}

#[verifier::ext_equal]
pub struct ToolResultImageView {
    pub blob_id: Seq<char>,
    pub mime_type: Seq<char>,
}

impl View for ToolResultImage {
    type V = ToolResultImageView;

    open spec fn view(&self) -> ToolResultImageView {
        ToolResultImageView { blob_id: self.blob_id@, mime_type: self.mime_type@ }
    }
}

impl Duplicate for ToolResultImage {
    fn duplicate(&self) -> (r: Self) {
        ToolResultImage { blob_id: self.blob_id.clone(), mime_type: self.mime_type.clone() }
    }
}

impl Same for ToolResultImage {
    fn is_same(&self, other: &Self) -> (r: bool) {
        self.blob_id.is_same(&other.blob_id) && self.mime_type.is_same(&other.mime_type)
    }
}

/// What a tool call came to.
#[derive(Debug)]
pub struct ToolResultContent {
    pub call_id: String,
    pub name: String,
    pub content: String,
    pub is_error: bool,
    pub image: Option<ToolResultImage>,
    pub provider_parts: Vec<ContentPart>,
}

#[verifier::ext_equal]
pub struct ToolResultContentView {
    pub call_id: Seq<char>,
    pub name: Seq<char>,
    pub content: Seq<char>,
    pub is_error: bool,
    pub image: Option<ToolResultImageView>,
    pub provider_parts: Seq<ContentPartView>,
}

impl View for ToolResultContent {
    type V = ToolResultContentView;

    open spec fn view(&self) -> ToolResultContentView {
        ToolResultContentView {
            call_id: self.call_id@,
            name: self.name@,
            content: self.content@,
            is_error: self.is_error,
            image: data::option_view(self.image),
            provider_parts: data::views(self.provider_parts@),
        }
    }
}

impl Duplicate for ToolResultContent {
    fn duplicate(&self) -> (r: Self) {
        ToolResultContent {
            call_id: self.call_id.clone(),
            name: self.name.clone(),
            content: self.content.clone(),
            is_error: self.is_error,
            image: data::duplicate_option(&self.image),
            provider_parts: data::duplicate_all(&self.provider_parts),
        }
    }
}

impl Same for ToolResultContent {
    fn is_same(&self, other: &Self) -> (r: bool) {
        self.call_id.is_same(&other.call_id) && self.name.is_same(&other.name)
            && self.content.is_same(&other.content) && self.is_error == other.is_error
            && data::same_option(&self.image, &other.image) && data::same_all(
            &self.provider_parts,
            &other.provider_parts,
        )
    }
}

/// What a message says.
#[derive(Debug)]
pub enum MessageContent {
    Parts { parts: Vec<ContentPart> },
    Assistant {
        text: String,
        thinking: String,
        tool_round_id: Option<String>,
        replay_state: Option<ProviderReplayState>,
        tool_calls: Vec<ToolCallContent>,
    },
    ToolResult(ToolResultContent),
}

#[verifier::ext_equal]
pub enum MessageContentView {
    Parts { parts: Seq<ContentPartView> },
    Assistant {
        text: Seq<char>,
        thinking: Seq<char>,
        tool_round_id: Option<Seq<char>>,
        replay_state: Option<crate::json::JsonView>,
        tool_calls: Seq<ToolCallContentView>,
    },
    ToolResult(ToolResultContentView),
}

impl View for MessageContent {
    type V = MessageContentView;

    open spec fn view(&self) -> MessageContentView {
        match self {
            MessageContent::Parts { parts } => MessageContentView::Parts {
                parts: data::views(parts@),
            },
            MessageContent::Assistant {
                text,
                thinking,
                tool_round_id,
                replay_state,
                tool_calls,
            } => MessageContentView::Assistant {
                text: text@,
                thinking: thinking@,
                tool_round_id: data::option_view(*tool_round_id),
                replay_state: data::option_view(*replay_state),
                tool_calls: data::views(tool_calls@),
            },
            MessageContent::ToolResult(result) => MessageContentView::ToolResult(result@),
        }
    }
}

impl Duplicate for MessageContent {
    fn duplicate(&self) -> (r: Self) {
        match self {
            MessageContent::Parts { parts } => MessageContent::Parts {
                parts: data::duplicate_all(parts),
            },
            MessageContent::Assistant {
                text,
                thinking,
                tool_round_id,
                replay_state,
                tool_calls,
            } => MessageContent::Assistant {
                text: text.clone(),
                thinking: thinking.clone(),
                tool_round_id: data::duplicate_option(tool_round_id),
                replay_state: data::duplicate_option(replay_state),
                tool_calls: data::duplicate_all(tool_calls),
            },
            MessageContent::ToolResult(result) => MessageContent::ToolResult(result.duplicate()),
        }
    }
}

impl MessageContentView {
    /// Whether two messages say the same. JSON in them is held against each other by what it says,
    /// everything else as it stands.
    pub open spec fn same(self, other: MessageContentView) -> bool {
        match (self, other) {
            (
                MessageContentView::Assistant {
                    text,
                    thinking,
                    tool_round_id,
                    replay_state,
                    tool_calls,
                },
                MessageContentView::Assistant {
                    text: other_text,
                    thinking: other_thinking,
                    tool_round_id: other_round,
                    replay_state: other_state,
                    tool_calls: other_calls,
                },
            ) => {
                &&& text == other_text
                &&& thinking == other_thinking
                &&& tool_round_id == other_round
                &&& same_replay(replay_state, other_state)
                &&& same_calls(tool_calls, other_calls)
            },
            _ => self == other,
        }
    }
}

impl MessageContent {
    /// Whether two messages say the same.
    pub fn is_same(&self, other: &Self) -> (r: bool)
        ensures
            r == self@.same(other@),
    {
        match (self, other) {
            (
                MessageContent::Parts { parts: a },
                MessageContent::Parts { parts: b },
            ) => data::same_all(a, b),
            (
                MessageContent::Assistant {
                    text: text_a,
                    thinking: thinking_a,
                    tool_round_id: round_a,
                    replay_state: state_a,
                    tool_calls: calls_a,
                },
                MessageContent::Assistant {
                    text: text_b,
                    thinking: thinking_b,
                    tool_round_id: round_b,
                    replay_state: state_b,
                    tool_calls: calls_b,
                },
            ) => text_a.is_same(text_b) && thinking_a.is_same(thinking_b) && data::same_option(
                round_a,
                round_b,
            ) && is_same_replay(state_a, state_b) && are_same_calls(calls_a, calls_b),
            (MessageContent::ToolResult(a), MessageContent::ToolResult(b)) => a.is_same(b),
            _ => false,
        }
    }
}

/// One message of a conversation.
#[derive(Debug)]
pub struct CanonicalMessage {
    pub message_id: String,
    pub role: Role,
    pub origin: Origin,
    pub content: MessageContent,
    pub runtime_event_id: Option<String>,
}

#[verifier::ext_equal]
pub struct CanonicalMessageView {
    pub message_id: Seq<char>,
    pub role: Role,
    pub origin: Origin,
    pub content: MessageContentView,
    pub runtime_event_id: Option<Seq<char>>,
}

impl View for CanonicalMessage {
    type V = CanonicalMessageView;

    open spec fn view(&self) -> CanonicalMessageView {
        CanonicalMessageView {
            message_id: self.message_id@,
            role: self.role,
            origin: self.origin,
            content: self.content@,
            runtime_event_id: data::option_view(self.runtime_event_id),
        }
    }
}

impl Duplicate for CanonicalMessage {
    fn duplicate(&self) -> (r: Self) {
        CanonicalMessage {
            message_id: self.message_id.clone(),
            role: self.role,
            origin: self.origin,
            content: self.content.duplicate(),
            runtime_event_id: data::duplicate_option(&self.runtime_event_id),
        }
    }
}

impl CanonicalMessageView {
    /// Whether two messages are the same, with contents that say the same.
    pub open spec fn same(self, other: CanonicalMessageView) -> bool {
        &&& self == CanonicalMessageView { content: self.content, ..other }
        &&& self.content.same(other.content)
    }
}

impl CanonicalMessage {
    /// Whether two messages are the same, with contents that say the same.
    pub fn is_same(&self, other: &Self) -> (r: bool)
        ensures
            r == self@.same(other@),
    {
        self.message_id.is_same(&other.message_id) && self.role == other.role && self.origin
            == other.origin && self.content.is_same(&other.content) && data::same_option(
            &self.runtime_event_id,
            &other.runtime_event_id,
        )
    }
}

/// Whether two runs of messages are the same, message for message.
pub open spec fn same_messages(a: Seq<CanonicalMessageView>, b: Seq<CanonicalMessageView>) -> bool {
    a.len() == b.len() && forall|i: int| 0 <= i < a.len() ==> (#[trigger] a[i]).same(b[i])
}

/// Whether two runs of messages are the same, message for message.
pub fn are_same_messages(a: &Vec<CanonicalMessage>, b: &Vec<CanonicalMessage>) -> (r: bool)
    ensures
        r == same_messages(data::views(a@), data::views(b@)),
{
    let ghost x = data::views(a@);
    let ghost y = data::views(b@);
    assert(x.len() == a@.len() && y.len() == b@.len());
    if a.len() != b.len() {
        return false;
    }
    let mut i: usize = 0;
    while i < a.len()
        invariant
            i <= a@.len(),
            a@.len() == b@.len(),
            x == data::views(a@),
            y == data::views(b@),
            x.len() == a@.len(),
            y.len() == b@.len(),
            forall|k: int| 0 <= k < i ==> (#[trigger] x[k]).same(y[k]),
        decreases a@.len() - i,
    {
        assert(x[i as int] == a@[i as int]@);
        assert(y[i as int] == b@[i as int]@);
        if !a[i].is_same(&b[i]) {
            return false;
        }
        i += 1;
    }
    true
}

/// Being the same does not depend on which of two messages comes first, passes on from one to the
/// next, and holds of a message and itself.
pub proof fn law_sameness_is_an_equivalence(
    a: CanonicalMessageView,
    b: CanonicalMessageView,
    c: CanonicalMessageView,
)
    ensures
        a.same(a),
        a.same(b) ==> b.same(a),
        a.same(b) && b.same(c) ==> a.same(c),
{
    let calls = |m: CanonicalMessageView| m.content->Assistant_tool_calls;
    if a.same(b) && a.content is Assistant {
        assert forall|i: int| 0 <= i < calls(b).len() implies (#[trigger] calls(b)[i]).same(
            calls(a)[i],
        ) by {
            assert(calls(a)[i].same(calls(b)[i]));
        }
        if b.same(c) {
            assert forall|i: int| 0 <= i < calls(a).len() implies (#[trigger] calls(a)[i]).same(
                calls(c)[i],
            ) by {
                assert(calls(a)[i].same(calls(b)[i]));
                assert(calls(b)[i].same(calls(c)[i]));
            }
        }
    }
}

/// A message that holds one piece of text.
pub open spec fn text_message(
    message_id: Seq<char>,
    role: Role,
    origin: Origin,
    text: Seq<char>,
) -> CanonicalMessageView {
    CanonicalMessageView {
        message_id,
        role,
        origin,
        content: MessageContentView::Parts { parts: seq![ContentPartView::Text { text }] },
        runtime_event_id: None,
    }
}

/// The content of a message that is one piece of text.
pub fn text_content(text: String) -> (r: MessageContent)
    ensures
        r@ == (MessageContentView::Parts { parts: seq![ContentPartView::Text { text: text@ }] }),
{
    let mut parts: Vec<ContentPart> = Vec::new();
    parts.push(ContentPart::Text { text });
    assert(data::views(parts@) =~= seq![ContentPartView::Text { text: text@ }]);
    MessageContent::Parts { parts }
}

impl CanonicalMessage {
    /// A message that holds one piece of text.
    pub fn text(message_id: &str, role: Role, origin: Origin, text: &str) -> (r: Self)
        ensures
            r@ == text_message(message_id@, role, origin, text@),
    {
        CanonicalMessage {
            message_id: message_id.to_owned(),
            role,
            origin,
            content: text_content(text.to_owned()),
            runtime_event_id: None,
        }
    }
}

/// The text parts of a message, one after the other.
pub open spec fn parts_text(parts: Seq<ContentPartView>) -> Seq<char>
    decreases parts.len(),
{
    if parts.len() == 0 {
        Seq::empty()
    } else {
        match parts.last() {
            ContentPartView::Text { text } => parts_text(parts.drop_last()) + text,
            ContentPartView::Image { .. } => parts_text(parts.drop_last()),
        }
    }
}

/// The text parts of a message, one after the other.
pub fn concat_parts(parts: &Vec<ContentPart>) -> (r: String)
    ensures
        r@ == parts_text(data::views(parts@)),
{
    let ghost all = data::views(parts@);
    let mut out = String::new();
    let mut i: usize = 0;
    assert(all.take(0) =~= Seq::empty());
    while i < parts.len()
        invariant
            i <= parts@.len(),
            all == data::views(parts@),
            out@ == parts_text(all.take(i as int)),
        decreases parts@.len() - i,
    {
        if let ContentPart::Text { text } = &parts[i] {
            out.append(text.as_str());
        }
        i += 1;
        assert(all.take(i as int).drop_last() =~= all.take(i - 1));
        assert(all.take(i as int).last() == parts@[i - 1]@);
    }
    assert(all.take(i as int) =~= all);
    out
}

impl CanonicalMessageView {
    /// The text of the message, if it has any.
    pub open spec fn shown_text(self) -> Option<Seq<char>> {
        let text = match self.content {
            MessageContentView::Parts { parts } => parts_text(parts),
            MessageContentView::Assistant { text, .. } => text,
            MessageContentView::ToolResult(result) => result.content,
        };
        if text.len() == 0 {
            None
        } else {
            Some(text)
        }
    }
}

impl CanonicalMessage {
    /// The text of the message, if it has any.
    pub fn extract_text(&self) -> (r: Option<String>)
        ensures
            data::option_view(r) == self@.shown_text(),
    {
        let text = match &self.content {
            MessageContent::Parts { parts } => concat_parts(parts),
            MessageContent::Assistant { text, .. } => text.clone(),
            MessageContent::ToolResult(result) => result.content.clone(),
        };
        if text.as_str().is_empty() {
            None
        } else {
            Some(text)
        }
    }
}

/// Messages that are the same differ at most in how JSON in them is written: their ids, roles, origins
/// and texts are equal.
pub proof fn law_same_messages_say_the_same(a: CanonicalMessageView, b: CanonicalMessageView)
    requires
        a.same(b),
    ensures
        a.message_id == b.message_id,
        a.role == b.role,
        a.origin == b.origin,
        a.runtime_event_id == b.runtime_event_id,
        a.content is Assistant <==> b.content is Assistant,
        !(a.content is Assistant) ==> a.content == b.content,
        a.content is Assistant ==> {
            &&& a.content->Assistant_text == b.content->Assistant_text
            &&& a.content->Assistant_thinking == b.content->Assistant_thinking
            &&& a.content->tool_round_id == b.content->tool_round_id
            &&& a.content->tool_calls.len() == b.content->tool_calls.len()
            &&& forall|i: int|
                0 <= i < a.content->tool_calls.len() ==> {
                    &&& (#[trigger] a.content->tool_calls[i]).call_id
                        == b.content->tool_calls[i].call_id
                    &&& a.content->tool_calls[i].name == b.content->tool_calls[i].name
                    &&& a.content->tool_calls[i].index == b.content->tool_calls[i].index
                    &&& json::same(
                        a.content->tool_calls[i].arguments,
                        b.content->tool_calls[i].arguments,
                    )
                }
        },
{
    if a.content is Assistant {
        let x = a.content->tool_calls;
        let y = b.content->tool_calls;
        assert forall|i: int| 0 <= i < x.len() implies {
            &&& (#[trigger] x[i]).call_id == y[i].call_id
            &&& x[i].name == y[i].name
            &&& x[i].index == y[i].index
            &&& json::same(x[i].arguments, y[i].arguments)
        } by {
            assert(x[i].same(y[i]));
        }
    }
}

/// The text of a message is what its text parts say, in their order; images add nothing to it.
pub proof fn law_text_parts_make_up_the_text(parts: Seq<ContentPartView>, part: ContentPartView)
    ensures
        part matches ContentPartView::Text { text } ==> parts_text(parts.push(part)) == parts_text(
            parts,
        ) + text,
        part is Image ==> parts_text(parts.push(part)) == parts_text(parts),
        parts_text(Seq::empty()).len() == 0,
{
    assert(parts.push(part).drop_last() =~= parts);
}

/// A message of one text says that text, under the id, the role and the origin that it was made with.
pub proof fn law_text_message_says_its_text(
    message_id: Seq<char>,
    role: Role,
    origin: Origin,
    said: Seq<char>,
)
    ensures
        ({
            let message = text_message(message_id, role, origin, said);
            &&& message.message_id == message_id
            &&& message.role == role
            &&& message.origin == origin
            &&& message.runtime_event_id is None
            &&& said.len() > 0 ==> message.shown_text() == Some(said)
            &&& said.len() == 0 ==> message.shown_text() is None
        }),
{
    let parts = seq![ContentPartView::Text { text: said }];
    law_text_parts_make_up_the_text(Seq::empty(), ContentPartView::Text { text: said });
    assert(Seq::<ContentPartView>::empty().push(ContentPartView::Text { text: said }) =~= parts);
    assert(parts_text(Seq::<ContentPartView>::empty()) + said =~= said);
}

/// The text of an answer is what the model said, not what it thought; that of a result is its content.
pub proof fn law_answers_show_what_was_said(message: CanonicalMessageView)
    ensures
        message.content is Assistant && message.content->Assistant_text.len() > 0
            ==> message.shown_text() == Some(message.content->Assistant_text),
        message.content is Assistant && message.content->Assistant_text.len() == 0
            ==> message.shown_text() is None,
        message.content matches MessageContentView::ToolResult(result) ==> (result.content.len() > 0
            ==> message.shown_text() == Some(result.content)),
{
}

} // verus!
