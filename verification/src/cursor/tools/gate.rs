//! Tool results within limits, before they are stored and shown to the model.
use crate::cursor::tools::gate_grep;
use crate::cursor::tools::grep_result::{GrepSuccess, GrepSuccessView};
use crate::cursor::tools::truncation;
use crate::data;
use crate::json;
use crate::json::{Json, JsonView};
use crate::text;
use vstd::prelude::*;

verus! {

pub const READ_CONTENT_LIMIT: usize = 65_536;

pub const READ_BINARY_LIMIT: usize = 32_768;

pub const SHELL_STREAM_LIMIT: usize = 16_384;

pub const SHELL_INTERLEAVED_LIMIT: usize = 32_768;

pub const SHELL_RESULT_LIMIT: usize = 131_072;

pub const GLOB_FILE_LIMIT: usize = 200;

pub const EDIT_RESULT_LIMIT: usize = 32_768;

pub const PATCH_EDIT_RESULT_LIMIT: usize = 4_096;

pub const MCP_TEXT_LIMIT: usize = 32_768;

pub const MCP_CONTENT_ITEM_LIMIT: usize = 20;

pub const MCP_STRUCTURED_LIMIT: usize = 32_768;

pub const MCP_BINARY_LIMIT: usize = 32_768;

pub const MCP_RESOURCE_LIMIT: usize = 200;

pub const MCP_RESOURCE_DESCRIPTION_LIMIT: usize = 1_024;

pub const WEB_FETCH_LIMIT: usize = 32_768;

pub const WEB_SEARCH_LIMIT: usize = 16_384;

pub const WEB_SEARCH_TITLE_LIMIT: usize = 512;

pub const WEB_SEARCH_SNIPPET_LIMIT: usize = 2_048;

/// What a command printed.
#[derive(Debug)]
pub struct ShellStreams {
    pub stdout: String,
    pub stderr: String,
    pub interleaved_output: Option<String>,
}

#[verifier::ext_equal]
pub struct ShellStreamsView {
    pub stdout: Seq<char>,
    pub stderr: Seq<char>,
    pub interleaved_output: Option<Seq<char>>,
}

impl View for ShellStreams {
    type V = ShellStreamsView;

    open spec fn view(&self) -> ShellStreamsView {
        ShellStreamsView {
            stdout: self.stdout@,
            stderr: self.stderr@,
            interleaved_output: data::option_view(self.interleaved_output),
        }
    }
}

impl ShellStreamsView {
    /// What a command printed, with both ends of each stream.
    pub open spec fn gated(self) -> ShellStreamsView {
        ShellStreamsView {
            stdout: truncation::truncated_middle(
                "Shell stdout"@,
                self.stdout,
                SHELL_STREAM_LIMIT as nat,
            ),
            stderr: truncation::truncated_middle(
                "Shell stderr"@,
                self.stderr,
                SHELL_STREAM_LIMIT as nat,
            ),
            interleaved_output: match self.interleaved_output {
                Some(output) => Some(
                    truncation::truncated_middle(
                        "Shell interleaved output"@,
                        output,
                        SHELL_INTERLEAVED_LIMIT as nat,
                    ),
                ),
                None => None,
            },
        }
    }
}

/// Keeps both ends of what a command printed.
pub fn gate_shell_result(streams: &mut ShellStreams)
    ensures
        final(streams)@ == old(streams)@.gated(),
{
    streams.stdout = truncation::truncate_edges(
        "Shell stdout",
        streams.stdout.as_str(),
        SHELL_STREAM_LIMIT,
    );
    streams.stderr = truncation::truncate_edges(
        "Shell stderr",
        streams.stderr.as_str(),
        SHELL_STREAM_LIMIT,
    );
    streams.interleaved_output = match &streams.interleaved_output {
        Some(output) => Some(
            truncation::truncate_edges(
                "Shell interleaved output",
                output.as_str(),
                SHELL_INTERLEAVED_LIMIT,
            ),
        ),
        None => None,
    };
}

/// The directories and files in a directory, each by a handle.
#[derive(Debug)]
pub struct LsListing {
    pub children_dirs: Vec<u64>,
    pub children_files: Vec<u64>,
    pub children_were_processed: bool,
}

#[verifier::ext_equal]
pub struct LsListingView {
    pub children_dirs: Seq<u64>,
    pub children_files: Seq<u64>,
    pub children_were_processed: bool,
}

impl View for LsListing {
    type V = LsListingView;

    open spec fn view(&self) -> LsListingView {
        LsListingView {
            children_dirs: self.children_dirs@,
            children_files: self.children_files@,
            children_were_processed: self.children_were_processed,
        }
    }
}

/// The first items of a list.
pub open spec fn first_items<T>(items: Seq<T>, count: int) -> Seq<T> {
    if items.len() > count {
        items.take(count)
    } else {
        items
    }
}

impl LsListingView {
    /// A listing of at most half the files of a search in each of its lists.
    pub open spec fn gated(self) -> LsListingView {
        let most = GLOB_FILE_LIMIT as int / 2;
        LsListingView {
            children_dirs: first_items(self.children_dirs, most),
            children_files: first_items(self.children_files, most),
            children_were_processed: self.children_were_processed && self.children_dirs.len()
                <= most && self.children_files.len() <= most,
        }
    }
}

/// Keeps a listing within its limit, and marks it where something was left out.
pub fn gate_ls_result(listing: &mut LsListing)
    ensures
        final(listing)@ == old(listing)@.gated(),
{
    let most: usize = GLOB_FILE_LIMIT / 2;
    let mut truncated = false;
    if listing.children_dirs.len() > most {
        listing.children_dirs.truncate(most);
        truncated = true;
    }
    if listing.children_files.len() > most {
        listing.children_files.truncate(most);
        truncated = true;
    }
    if truncated {
        listing.children_were_processed = false;
    }
    assert(listing@ =~= old(listing)@.gated());
}

/// What was read from a file.
#[derive(Debug)]
pub enum ReadOutput {
    Content(String),
    Data(Vec<u8>),
}

#[verifier::ext_equal]
pub enum ReadOutputView {
    Content(Seq<char>),
    Data(Seq<u8>),
}

impl View for ReadOutput {
    type V = ReadOutputView;

    open spec fn view(&self) -> ReadOutputView {
        match self {
            ReadOutput::Content(content) => ReadOutputView::Content(content@),
            ReadOutput::Data(bytes) => ReadOutputView::Data(bytes@),
        }
    }
}

/// A file that was read.
#[derive(Debug)]
pub struct ReadSuccess {
    pub output: Option<ReadOutput>,
    pub exceeded_limit: bool,
}

#[verifier::ext_equal]
pub struct ReadSuccessView {
    pub output: Option<ReadOutputView>,
    pub exceeded_limit: bool,
}

impl View for ReadSuccess {
    type V = ReadSuccessView;

    open spec fn view(&self) -> ReadSuccessView {
        ReadSuccessView {
            output: data::option_view(self.output),
            exceeded_limit: self.exceeded_limit,
        }
    }
}

impl ReadSuccessView {
    /// A file within its limit: text is cut, other data is left out.
    pub open spec fn gated(self) -> ReadSuccessView {
        match self.output {
            Some(ReadOutputView::Content(content)) => {
                let kept = truncation::truncated("Read"@, content, READ_CONTENT_LIMIT as nat);
                ReadSuccessView {
                    output: Some(ReadOutputView::Content(kept)),
                    exceeded_limit: self.exceeded_limit || kept != content,
                }
            },
            Some(ReadOutputView::Data(bytes)) => if bytes.len() > READ_BINARY_LIMIT {
                ReadSuccessView {
                    output: Some(
                        ReadOutputView::Content(
                            truncation::notice_of(
                                "Read binary data"@,
                                READ_BINARY_LIMIT as nat,
                                0,
                                bytes.len(),
                            ),
                        ),
                    ),
                    exceeded_limit: true,
                }
            } else {
                self
            },
            None => self,
        }
    }
}

/// Keeps what was read from a file within its limit.
pub fn gate_read(success: &mut ReadSuccess)
    ensures
        final(success)@ == old(success)@.gated(),
{
    match &success.output {
        Some(ReadOutput::Content(content)) => {
            let kept = truncation::truncate_text("Read", content.as_str(), READ_CONTENT_LIMIT);
            if !text::same(kept.as_str(), content.as_str()) {
                success.output = Some(ReadOutput::Content(kept));
                success.exceeded_limit = true;
            }
        },
        Some(ReadOutput::Data(bytes)) => {
            let size: usize = bytes.len();
            if size > READ_BINARY_LIMIT {
                let notice = truncation::truncation_notice(
                    "Read binary data",
                    READ_BINARY_LIMIT,
                    0,
                    size,
                );
                success.output = Some(ReadOutput::Content(notice));
                success.exceeded_limit = true;
            }
        },
        None => {},
    }
}

/// Files that were found by their names.
#[derive(Debug)]
pub struct GlobSuccess {
    pub files: Vec<String>,
    pub total_files: i32,
    pub client_truncated: bool,
}

#[verifier::ext_equal]
pub struct GlobSuccessView {
    pub files: Seq<Seq<char>>,
    pub total_files: i32,
    pub client_truncated: bool,
}

impl View for GlobSuccess {
    type V = GlobSuccessView;

    open spec fn view(&self) -> GlobSuccessView {
        GlobSuccessView {
            files: data::views(self.files@),
            total_files: self.total_files,
            client_truncated: self.client_truncated,
        }
    }
}

/// A length as it is told.
pub open spec fn told_length(count: nat) -> i32 {
    (count as usize) as i32
}

impl GlobSuccessView {
    /// The files within their limit, with their number filled in where it is not known.
    pub open spec fn gated(self) -> GlobSuccessView {
        let count = told_length(self.files.len());
        if self.files.len() <= GLOB_FILE_LIMIT {
            GlobSuccessView {
                total_files: if self.total_files <= 0 {
                    count
                } else {
                    self.total_files
                },
                ..self
            }
        } else {
            GlobSuccessView {
                files: self.files.take(GLOB_FILE_LIMIT as int),
                total_files: if self.total_files >= count {
                    self.total_files
                } else {
                    count
                },
                client_truncated: true,
            }
        }
    }
}

/// Keeps the files within their limit.
pub fn gate_glob(success: &mut GlobSuccess)
    ensures
        final(success)@ == old(success)@.gated(),
{
    let ghost all = data::views(success.files@);
    let original: usize = success.files.len();
    assert(all.len() == original);
    let count: i32 = original as i32;
    if original <= GLOB_FILE_LIMIT {
        if success.total_files <= 0 {
            success.total_files = count;
        }
        return ;
    }
    success.files.truncate(GLOB_FILE_LIMIT);
    assert(data::views(success.files@) =~= all.take(GLOB_FILE_LIMIT as int));
    if success.total_files < count {
        success.total_files = count;
    }
    success.client_truncated = true;
}

/// A file that was edited.
#[derive(Debug)]
pub struct EditSuccess {
    pub diff_string: Option<String>,
    pub before_full_file_content: Option<String>,
    pub after_full_file_content: String,
}

#[verifier::ext_equal]
pub struct EditSuccessView {
    pub diff_string: Option<Seq<char>>,
    pub before_full_file_content: Option<Seq<char>>,
    pub after_full_file_content: Seq<char>,
}

impl View for EditSuccess {
    type V = EditSuccessView;

    open spec fn view(&self) -> EditSuccessView {
        EditSuccessView {
            diff_string: data::option_view(self.diff_string),
            before_full_file_content: data::option_view(self.before_full_file_content),
            after_full_file_content: self.after_full_file_content@,
        }
    }
}

/// Whether a tool edits a file by a small patch.
pub open spec fn patches(tool_name: Seq<char>) -> bool {
    let name = text::trimmed(tool_name);
    name == "PatchEdit"@ || name == "PatchEditLines"@ || name == "PatchEditSpan"@ || name
        == "StrReplace"@
}

fn is_patch(tool_name: &str) -> (r: bool)
    ensures
        r == patches(tool_name@),
{
    let trimmed = text::trim(tool_name);
    let name = trimmed.as_str();
    text::same(name, "PatchEdit") || text::same(name, "PatchEditLines") || text::same(
        name,
        "PatchEditSpan",
    ) || text::same(name, "StrReplace")
}

impl EditSuccessView {
    /// An edit within its limit: only the difference stays, or the new content where there is none.
    pub open spec fn gated(self, tool_name: Seq<char>) -> EditSuccessView {
        let limit = if patches(tool_name) {
            PATCH_EDIT_RESULT_LIMIT as nat
        } else {
            EDIT_RESULT_LIMIT as nat
        };
        match self.diff_string {
            Some(diff) => EditSuccessView {
                diff_string: Some(truncation::truncated(tool_name, diff, limit)),
                before_full_file_content: None,
                after_full_file_content: Seq::empty(),
            },
            None => EditSuccessView {
                diff_string: None,
                before_full_file_content: None,
                after_full_file_content: truncation::truncated(
                    tool_name,
                    self.after_full_file_content,
                    limit,
                ),
            },
        }
    }
}

/// Keeps an edit within its limit.
pub fn gate_edit(tool_name: &str, success: &mut EditSuccess)
    ensures
        final(success)@ == old(success)@.gated(tool_name@),
{
    let limit: usize = if is_patch(tool_name) {
        PATCH_EDIT_RESULT_LIMIT
    } else {
        EDIT_RESULT_LIMIT
    };
    success.before_full_file_content = None;
    match &success.diff_string {
        Some(diff) => {
            let kept = truncation::truncate_text(tool_name, diff.as_str(), limit);
            success.diff_string = Some(kept);
            success.after_full_file_content = String::new();
        },
        None => {
            success.after_full_file_content = truncation::truncate_text(
                tool_name,
                success.after_full_file_content.as_str(),
                limit,
            );
        },
    }
    assert(success@ =~= old(success)@.gated(tool_name@));
}

/// An item of what an MCP tool answered: text, or something else that is known by a handle.
#[derive(Debug)]
pub enum McpItem {
    Text(String),
    Other(u64),
}

#[verifier::ext_equal]
pub enum McpItemView {
    Text(Seq<char>),
    Other(u64),
}

impl View for McpItem {
    type V = McpItemView;

    open spec fn view(&self) -> McpItemView {
        match self {
            McpItem::Text(content) => McpItemView::Text(content@),
            McpItem::Other(handle) => McpItemView::Other(*handle),
        }
    }
}

/// What an MCP tool answered.
#[derive(Debug)]
pub struct McpSuccess {
    pub content: Vec<McpItem>,
    pub structured_content: Option<Json>,
}

#[verifier::ext_equal]
pub struct McpSuccessView {
    pub content: Seq<McpItemView>,
    pub structured_content: Option<JsonView>,
}

impl View for McpSuccess {
    type V = McpSuccessView;

    open spec fn view(&self) -> McpSuccessView {
        McpSuccessView {
            content: data::views(self.content@),
            structured_content: data::option_view(self.structured_content),
        }
    }
}

/// Whether an item is a notice that something was cut.
pub open spec fn mcp_notice(item: McpItemView) -> bool {
    match item {
        McpItemView::Text(content) => text::starts(content, "[truncated:"@),
        McpItemView::Other(_) => false,
    }
}

/// Whether some item is a notice that something was cut.
pub open spec fn has_mcp_notice(items: Seq<McpItemView>) -> bool {
    exists|i: int| 0 <= i < items.len() && mcp_notice(#[trigger] items[i])
}

/// What stands for structured content that is too long.
pub open spec fn cut_structure(original: nat) -> JsonView {
    JsonView::Object(
        seq![
            ("_truncated"@, JsonView::Bool(true)),
            ("original_json_bytes"@, json::count(original)),
            ("limit_bytes"@, json::count(MCP_STRUCTURED_LIMIT as nat)),
        ],
    )
}

/// The items that were kept, the notices, and how many bytes of text may still be kept.
#[verifier::ext_equal]
pub struct McpGate {
    pub content: Seq<McpItemView>,
    pub notices: Seq<Seq<char>>,
    pub left: nat,
}

/// The items with another one. Text that comes when no bytes are left is told in a notice.
pub open spec fn with_item(gate: McpGate, item: McpItemView) -> McpGate {
    match item {
        McpItemView::Text(content) => if gate.left == 0 {
            McpGate {
                notices: gate.notices.push(
                    truncation::notice_of(
                        "MCP text"@,
                        MCP_TEXT_LIMIT as nat,
                        MCP_TEXT_LIMIT as nat,
                        gate_grep::capped(MCP_TEXT_LIMIT + text::utf8_len(content)) as nat,
                    ),
                ),
                ..gate
            }
        } else {
            let line = truncation::truncated(
                "MCP content item"@,
                content,
                MCP_TEXT_LIMIT as nat,
            );
            let kept = truncation::truncated("MCP text"@, line, gate.left);
            McpGate {
                content: gate.content.push(McpItemView::Text(kept)),
                left: truncation::room(gate.left, text::utf8_len(kept)),
                ..gate
            }
        },
        McpItemView::Other(_) => McpGate { content: gate.content.push(item), ..gate },
    }
}

/// The items that are kept.
pub open spec fn with_items(gate: McpGate, items: Seq<McpItemView>) -> McpGate
    decreases items.len(),
{
    if items.len() == 0 {
        gate
    } else {
        with_item(with_items(gate, items.drop_last()), items.last())
    }
}

/// Notices as items.
pub open spec fn notice_items(notices: Seq<Seq<char>>) -> Seq<McpItemView> {
    notices.map_values(|n: Seq<char>| McpItemView::Text(n))
}

impl McpSuccessView {
    /// The notices that come before the items are looked at.
    pub open spec fn first_notices(self) -> Seq<Seq<char>> {
        let bytes = structure_bytes(self.structured_content);
        let structure = if bytes > MCP_STRUCTURED_LIMIT {
            seq![
                truncation::notice_of(
                    "MCP structured_content"@,
                    MCP_STRUCTURED_LIMIT as nat,
                    0,
                    bytes,
                ),
            ]
        } else {
            Seq::empty()
        };
        if self.content.len() > MCP_CONTENT_ITEM_LIMIT {
            structure.push(
                "[truncated: MCP content items exceeded 20 items; showing 20 of "@ + text::decimal(
                    self.content.len(),
                ) + " items]"@,
            )
        } else {
            structure
        }
    }

    /// The answer within its limits. One that was cut before stays as it is.
    pub open spec fn gated(self) -> McpSuccessView {
        if has_mcp_notice(self.content) {
            self
        } else {
            let bytes = structure_bytes(self.structured_content);
            let gate = with_items(
                McpGate {
                    content: Seq::empty(),
                    notices: self.first_notices(),
                    left: MCP_TEXT_LIMIT as nat,
                },
                first_items(self.content, MCP_CONTENT_ITEM_LIMIT as int),
            );
            McpSuccessView {
                content: gate.content + notice_items(gate.notices),
                structured_content: if bytes > MCP_STRUCTURED_LIMIT {
                    Some(cut_structure(bytes))
                } else {
                    self.structured_content
                },
            }
        }
    }
}

/// The bytes of structured content as JSON.
pub open spec fn structure_bytes(value: Option<JsonView>) -> nat {
    match value {
        Some(value) => text::utf8_len(json::compact_text(value)),
        None => 0,
    }
}

fn structured_json_len(value: &Option<Json>) -> (r: usize)
    ensures
        r == structure_bytes(data::option_view(*value)),
{
    match value {
        Some(value) => {
            let written = json::to_compact(value);
            text::byte_len(written.as_str())
        },
        None => 0,
    }
}

fn truncated_struct(original: usize) -> (r: Json)
    ensures
        r@ == cut_structure(original as nat),
{
    let mut members: Vec<(String, Json)> = Vec::new();
    json::put(&mut members, "_truncated", Json::Bool(true));
    json::put(&mut members, "original_json_bytes", json::from_count(original));
    json::put(&mut members, "limit_bytes", json::from_count(MCP_STRUCTURED_LIMIT));
    assert(json::member_views(members@) =~= cut_structure(original as nat)->Object_0);
    json::object(members)
}

/// Whether an item is a notice that something was cut.
pub fn is_mcp_notice(item: &McpItem) -> (r: bool)
    ensures
        r == mcp_notice(item@),
{
    match item {
        McpItem::Text(content) => text::starts_with(content.as_str(), "[truncated:"),
        McpItem::Other(_) => false,
    }
}

fn find_mcp_notice(items: &Vec<McpItem>) -> (r: bool)
    ensures
        r == has_mcp_notice(data::views(items@)),
{
    let ghost all = data::views(items@);
    assert(all.len() == items@.len());
    let mut i: usize = 0;
    while i < items.len()
        invariant
            i <= items@.len(),
            all == data::views(items@),
            all.len() == items@.len(),
            forall|k: int| 0 <= k < i ==> !mcp_notice(#[trigger] all[k]),
        decreases items@.len() - i,
    {
        assert(all[i as int] == items@[i as int]@);
        if is_mcp_notice(&items[i]) {
            return true;
        }
        i += 1;
    }
    false
}

fn push_text(items: &mut Vec<String>, item: String)
    ensures
        data::views(final(items)@) == data::views(old(items)@).push(item@),
{
    items.push(item);
    assert(data::views(items@) =~= data::views(old(items)@).push(item@));
}

fn push_item(items: &mut Vec<McpItem>, item: McpItem)
    ensures
        data::views(final(items)@) == data::views(old(items)@).push(item@),
{
    items.push(item);
    assert(data::views(items@) =~= data::views(old(items)@).push(item@));
}

fn gate_item(
    item: &McpItem,
    content: &mut Vec<McpItem>,
    notices: &mut Vec<String>,
    left: usize,
) -> (r: usize)
    ensures
        (McpGate {
            content: data::views(final(content)@),
            notices: data::views(final(notices)@),
            left: r as nat,
        }) == with_item(
            McpGate {
                content: data::views(old(content)@),
                notices: data::views(old(notices)@),
                left: left as nat,
            },
            item@,
        ),
{
    match item {
        McpItem::Text(whole) => {
            if left == 0 {
                let bytes = text::byte_len(whole.as_str());
                let original: usize = MCP_TEXT_LIMIT.saturating_add(bytes);
                push_text(
                    notices,
                    truncation::truncation_notice(
                        "MCP text",
                        MCP_TEXT_LIMIT,
                        MCP_TEXT_LIMIT,
                        original,
                    ),
                );
                return left;
            }
            let line = truncation::truncate_text(
                "MCP content item",
                whole.as_str(),
                MCP_TEXT_LIMIT,
            );
            let kept = truncation::truncate_text("MCP text", line.as_str(), left);
            let bytes = text::byte_len(kept.as_str());
            push_item(content, McpItem::Text(kept));
            left.saturating_sub(bytes)
        },
        McpItem::Other(handle) => {
            push_item(content, McpItem::Other(*handle));
            left
        },
    }
}

/// Keeps what an MCP tool answered within its limits.
pub fn gate_mcp(success: &mut McpSuccess)
    ensures
        final(success)@ == old(success)@.gated(),
{
    if find_mcp_notice(&success.content) {
        return ;
    }
    let ghost start = success@;
    let ghost all = data::views(success.content@);
    assert(all.len() == success.content@.len());
    let mut notices: Vec<String> = Vec::new();
    assert(data::views(notices@) =~= Seq::empty());
    let bytes = structured_json_len(&success.structured_content);
    if bytes > MCP_STRUCTURED_LIMIT {
        success.structured_content = Some(truncated_struct(bytes));
        push_text(
            &mut notices,
            truncation::truncation_notice(
                "MCP structured_content",
                MCP_STRUCTURED_LIMIT,
                0,
                bytes,
            ),
        );
        assert(data::views(notices@) =~= seq![
            truncation::notice_of(
                "MCP structured_content"@,
                MCP_STRUCTURED_LIMIT as nat,
                0,
                bytes as nat,
            ),
        ]);
    }
    let original: usize = success.content.len();
    let shown: usize = if original > MCP_CONTENT_ITEM_LIMIT {
        let number = text::decimal_u64(original as u64);
        push_text(
            &mut notices,
            text::concat3(
                "[truncated: MCP content items exceeded 20 items; showing 20 of ",
                number.as_str(),
                " items]",
            ),
        );
        MCP_CONTENT_ITEM_LIMIT
    } else {
        original
    };
    assert(data::views(notices@) =~= start.first_notices());
    let ghost gate = McpGate {
        content: Seq::empty(),
        notices: start.first_notices(),
        left: MCP_TEXT_LIMIT as nat,
    };
    let mut left: usize = MCP_TEXT_LIMIT;
    let mut content: Vec<McpItem> = Vec::new();
    let mut i: usize = 0;
    assert(data::views(content@) =~= Seq::empty());
    assert(all.take(0) =~= Seq::empty());
    while i < shown
        invariant
            i <= shown <= success.content@.len(),
            all == data::views(success.content@),
            (McpGate {
                content: data::views(content@),
                notices: data::views(notices@),
                left: left as nat,
            }) == with_items(gate, all.take(i as int)),
        decreases shown - i,
    {
        left = gate_item(&success.content[i], &mut content, &mut notices, left);
        i += 1;
        assert(all.take(i as int).drop_last() =~= all.take(i - 1));
        assert(all.take(i as int).last() == success.content@[i - 1]@);
    }
    assert(all.take(i as int) =~= first_items(all, MCP_CONTENT_ITEM_LIMIT as int));
    let ghost kept = data::views(content@);
    let ghost told = data::views(notices@);
    assert(told.len() == notices@.len());
    let mut k: usize = 0;
    assert(kept + notice_items(told).take(0) =~= kept);
    while k < notices.len()
        invariant
            k <= notices@.len(),
            told == data::views(notices@),
            told.len() == notices@.len(),
            data::views(content@) == kept + notice_items(told).take(k as int),
        decreases notices@.len() - k,
    {
        let item = McpItem::Text(notices[k].clone());
        let ghost shown_item = item@;
        push_item(&mut content, item);
        k += 1;
        assert(notice_items(told).take(k as int) =~= notice_items(told).take(k - 1).push(
            shown_item,
        ));
        assert((kept + notice_items(told).take(k - 1)).push(shown_item) =~= kept + notice_items(
            told,
        ).take(k as int));
    }
    assert(notice_items(told).take(k as int) =~= notice_items(told));
    success.content = content;
    assert(success@ =~= start.gated());
}

/// A resource that an MCP server offers.
#[derive(Debug)]
pub struct McpResource {
    pub uri: String,
    pub name: Option<String>,
    pub description: Option<String>,
}

#[verifier::ext_equal]
pub struct McpResourceView {
    pub uri: Seq<char>,
    pub name: Option<Seq<char>>,
    pub description: Option<Seq<char>>,
}

impl View for McpResource {
    type V = McpResourceView;

    open spec fn view(&self) -> McpResourceView {
        McpResourceView {
            uri: self.uri@,
            name: data::option_view(self.name),
            description: data::option_view(self.description),
        }
    }
}

/// A resource with a description within its limit.
pub open spec fn shortened(resource: McpResourceView) -> McpResourceView {
    McpResourceView {
        description: match resource.description {
            Some(description) => Some(
                truncation::truncated(
                    "MCP resource description"@,
                    description,
                    MCP_RESOURCE_DESCRIPTION_LIMIT as nat,
                ),
            ),
            None => None,
        },
        ..resource
    }
}

/// Whether the resources were cut before.
pub open spec fn resources_cut(resources: Seq<McpResourceView>) -> bool {
    exists|i: int|
        0 <= i < resources.len() && (#[trigger] resources[i]).uri == "truncated:list-mcp-resources"@
}

/// The resources within their limits. Those that were cut before stay as they are.
pub open spec fn gated_resources(resources: Seq<McpResourceView>) -> Seq<McpResourceView> {
    if resources_cut(resources) {
        resources
    } else {
        let kept = first_items(resources, MCP_RESOURCE_LIMIT as int).map_values(
            |r: McpResourceView| shortened(r),
        );
        if resources.len() > MCP_RESOURCE_LIMIT {
            kept.push(
                McpResourceView {
                    uri: "truncated:list-mcp-resources"@,
                    name: Some("truncated"@),
                    description: Some(
                        truncation::notice_of(
                            "ListMcpResources"@,
                            MCP_TEXT_LIMIT as nat,
                            MCP_RESOURCE_LIMIT as nat,
                            resources.len(),
                        ),
                    ),
                },
            )
        } else {
            kept
        }
    }
}

fn find_cut(resources: &Vec<McpResource>) -> (r: bool)
    ensures
        r == resources_cut(data::views(resources@)),
{
    let ghost all = data::views(resources@);
    assert(all.len() == resources@.len());
    let mut i: usize = 0;
    while i < resources.len()
        invariant
            i <= resources@.len(),
            all == data::views(resources@),
            all.len() == resources@.len(),
            forall|k: int|
                0 <= k < i ==> (#[trigger] all[k]).uri != "truncated:list-mcp-resources"@,
        decreases resources@.len() - i,
    {
        assert(all[i as int] == resources@[i as int]@);
        if text::same(resources[i].uri.as_str(), "truncated:list-mcp-resources") {
            return true;
        }
        i += 1;
    }
    false
}

/// Keeps the resources that MCP servers offer within their limits.
pub fn gate_mcp_resources(resources: &mut Vec<McpResource>)
    ensures
        data::views(final(resources)@) == gated_resources(data::views(old(resources)@)),
{
    if find_cut(resources) {
        return ;
    }
    let ghost all = data::views(resources@);
    let original: usize = resources.len();
    assert(all.len() == original);
    resources.truncate(MCP_RESOURCE_LIMIT);
    let ghost listed = first_items(all, MCP_RESOURCE_LIMIT as int);
    assert(data::views(resources@) =~= listed);
    let ghost shown = listed.map_values(|r: McpResourceView| shortened(r));
    let n: usize = resources.len();
    let mut i: usize = 0;
    while i < n
        invariant
            i <= n,
            n == resources@.len(),
            n == listed.len(),
            shown == listed.map_values(|r: McpResourceView| shortened(r)),
            forall|k: int| 0 <= k < i ==> (#[trigger] resources@[k])@ == shown[k],
            forall|k: int| i <= k < n ==> (#[trigger] resources@[k])@ == listed[k],
        decreases n - i,
    {
        let short = match &resources[i].description {
            Some(description) => Some(
                truncation::truncate_text(
                    "MCP resource description",
                    description.as_str(),
                    MCP_RESOURCE_DESCRIPTION_LIMIT,
                ),
            ),
            None => None,
        };
        resources[i].description = short;
        assert(resources@[i as int]@ == shortened(listed[i as int]));
        i += 1;
    }
    assert(data::views(resources@) =~= shown);
    if n < original {
        let notice = truncation::truncation_notice(
            "ListMcpResources",
            MCP_TEXT_LIMIT,
            n,
            original,
        );
        let last = McpResource {
            uri: "truncated:list-mcp-resources".to_owned(),
            name: Some("truncated".to_owned()),
            description: Some(notice),
        };
        resources.push(last);
        assert(data::views(resources@) =~= shown.push(last@));
    }
}

/// What an MCP resource holds.
#[derive(Debug)]
pub enum ResourceContent {
    Text(String),
    Blob(Vec<u8>),
}

#[verifier::ext_equal]
pub enum ResourceContentView {
    Text(Seq<char>),
    Blob(Seq<u8>),
}

impl View for ResourceContent {
    type V = ResourceContentView;

    open spec fn view(&self) -> ResourceContentView {
        match self {
            ResourceContent::Text(content) => ResourceContentView::Text(content@),
            ResourceContent::Blob(bytes) => ResourceContentView::Blob(bytes@),
        }
    }
}

impl ResourceContentView {
    /// A resource within its limit: text is cut, other data is left out.
    pub open spec fn gated(self) -> ResourceContentView {
        match self {
            ResourceContentView::Text(content) => ResourceContentView::Text(
                truncation::truncated("FetchMcpResource"@, content, MCP_TEXT_LIMIT as nat),
            ),
            ResourceContentView::Blob(bytes) => if bytes.len() > MCP_BINARY_LIMIT {
                ResourceContentView::Text(
                    truncation::notice_of(
                        "FetchMcpResource blob"@,
                        MCP_BINARY_LIMIT as nat,
                        0,
                        bytes.len(),
                    ),
                )
            } else {
                self
            },
        }
    }
}

/// Keeps an MCP resource within its limit.
pub fn gate_mcp_resource(content: &mut ResourceContent)
    ensures
        final(content)@ == old(content)@.gated(),
{
    match &*content {
        ResourceContent::Text(whole) => {
            let kept = truncation::truncate_text(
                "FetchMcpResource",
                whole.as_str(),
                MCP_TEXT_LIMIT,
            );
            *content = ResourceContent::Text(kept);
        },
        ResourceContent::Blob(bytes) => {
            let size: usize = bytes.len();
            if size > MCP_BINARY_LIMIT {
                let notice = truncation::truncation_notice(
                    "FetchMcpResource blob",
                    MCP_BINARY_LIMIT,
                    0,
                    size,
                );
                *content = ResourceContent::Text(notice);
            }
        },
    }
}

/// A page that a web search found.
#[derive(Debug)]
pub struct WebReference {
    pub title: String,
    pub url: String,
    pub chunk: String,
}

#[verifier::ext_equal]
pub struct WebReferenceView {
    pub title: Seq<char>,
    pub url: Seq<char>,
    pub chunk: Seq<char>,
}

impl View for WebReference {
    type V = WebReferenceView;

    open spec fn view(&self) -> WebReferenceView {
        WebReferenceView { title: self.title@, url: self.url@, chunk: self.chunk@ }
    }
}

/// The bytes of a page.
pub open spec fn reference_bytes(reference: WebReferenceView) -> nat {
    text::utf8_len(reference.title) + text::utf8_len(reference.url) + text::utf8_len(
        reference.chunk,
    )
}

/// The bytes of pages.
pub open spec fn references_bytes(references: Seq<WebReferenceView>) -> int
    decreases references.len(),
{
    if references.len() == 0 {
        0
    } else {
        references_bytes(references.drop_last()) + reference_bytes(references.last())
    }
}

/// A page with a title and a snippet within their limits.
pub open spec fn shortened_reference(reference: WebReferenceView) -> WebReferenceView {
    WebReferenceView {
        title: truncation::truncated(
            "WebSearch title"@,
            reference.title,
            WEB_SEARCH_TITLE_LIMIT as nat,
        ),
        url: reference.url,
        chunk: truncation::truncated(
            "WebSearch snippet"@,
            reference.chunk,
            WEB_SEARCH_SNIPPET_LIMIT as nat,
        ),
    }
}

/// The first pages that fit, and at least one.
pub open spec fn fitting_references(references: Seq<WebReferenceView>) -> Seq<WebReferenceView>
    decreases references.len(),
{
    if references.len() > 1 && gate_grep::capped(references_bytes(references)) > WEB_SEARCH_LIMIT {
        fitting_references(references.drop_last())
    } else {
        references
    }
}

/// The last page with a notice in its snippet, which makes room for it.
pub open spec fn noted_reference(
    reference: WebReferenceView,
    total: int,
    original: int,
) -> WebReferenceView {
    let other = truncation::room(total as nat, text::utf8_len(reference.chunk));
    let notice = truncation::notice_of(
        "WebSearch"@,
        WEB_SEARCH_LIMIT as nat,
        truncation::room(WEB_SEARCH_LIMIT as nat, other),
        original as nat,
    );
    let available = truncation::room(WEB_SEARCH_LIMIT as nat, other + text::utf8_len(notice) + 2);
    WebReferenceView {
        chunk: truncation::without_feeds(text::prefix_within(reference.chunk, available)) + "\n\n"@
            + notice,
        ..reference
    }
}

/// The pages of a search within their limits.
pub open spec fn gated_references(references: Seq<WebReferenceView>) -> Seq<WebReferenceView> {
    let short = references.map_values(|r: WebReferenceView| shortened_reference(r));
    let original = gate_grep::capped(references_bytes(short));
    let kept = fitting_references(short);
    if original > WEB_SEARCH_LIMIT && kept.len() > 0 {
        kept.drop_last().push(
            noted_reference(kept.last(), gate_grep::capped(references_bytes(kept)), original),
        )
    } else {
        kept
    }
}

proof fn lemma_references_bytes(references: Seq<WebReferenceView>)
    ensures
        references_bytes(references) >= 0,
    decreases references.len(),
{
    if references.len() > 0 {
        lemma_references_bytes(references.drop_last());
    }
}

/// The bytes of pages, or the largest length where they are more.
pub fn web_search_bytes(references: &Vec<WebReference>) -> (r: usize)
    ensures
        r == gate_grep::capped(references_bytes(data::views(references@))),
{
    let ghost all = data::views(references@);
    let mut total: usize = 0;
    let mut i: usize = 0;
    assert(all.take(0) =~= Seq::empty());
    while i < references.len()
        invariant
            i <= references@.len(),
            all == data::views(references@),
            total == gate_grep::capped(references_bytes(all.take(i as int))),
        decreases references@.len() - i,
    {
        proof {
            lemma_references_bytes(all.take(i as int));
        }
        total = total.saturating_add(text::byte_len(references[i].title.as_str()));
        total = total.saturating_add(text::byte_len(references[i].url.as_str()));
        total = total.saturating_add(text::byte_len(references[i].chunk.as_str()));
        i += 1;
        assert(all.take(i as int).drop_last() =~= all.take(i - 1));
        assert(all.take(i as int).last() == references@[i - 1]@);
    }
    assert(all.take(i as int) =~= all);
    total
}

/// Keeps the pages of a search within their limits.
pub fn gate_web_search(references: &mut Vec<WebReference>)
    ensures
        data::views(final(references)@) == gated_references(data::views(old(references)@)),
{
    let ghost all = data::views(references@);
    let ghost short = all.map_values(|r: WebReferenceView| shortened_reference(r));
    let n: usize = references.len();
    let mut i: usize = 0;
    assert(all.len() == n);
    while i < n
        invariant
            i <= n,
            n == references@.len(),
            n == all.len(),
            short == all.map_values(|r: WebReferenceView| shortened_reference(r)),
            forall|k: int| 0 <= k < i ==> (#[trigger] references@[k])@ == short[k],
            forall|k: int| i <= k < n ==> (#[trigger] references@[k])@ == all[k],
        decreases n - i,
    {
        let title = truncation::truncate_text(
            "WebSearch title",
            references[i].title.as_str(),
            WEB_SEARCH_TITLE_LIMIT,
        );
        let chunk = truncation::truncate_text(
            "WebSearch snippet",
            references[i].chunk.as_str(),
            WEB_SEARCH_SNIPPET_LIMIT,
        );
        references[i].title = title;
        references[i].chunk = chunk;
        assert(references@[i as int]@ == shortened_reference(all[i as int]));
        i += 1;
    }
    assert(data::views(references@) =~= short);
    let original = web_search_bytes(references);
    while references.len() > 1 && web_search_bytes(references) > WEB_SEARCH_LIMIT
        invariant
            fitting_references(short) == fitting_references(data::views(references@)),
        decreases references@.len(),
    {
        let ghost before = data::views(references@);
        assert(before.len() == references@.len());
        let _ = references.pop();
        assert(data::views(references@) =~= before.drop_last());
    }
    let ghost kept = data::views(references@);
    assert(kept.len() == references@.len());
    assert(kept == fitting_references(short));
    if original > WEB_SEARCH_LIMIT && references.len() > 0 {
        let total = web_search_bytes(references);
        let last: usize = references.len() - 1;
        assert(kept.last() == references@[last as int]@);
        let other: usize = total.saturating_sub(
            text::byte_len(references[last].chunk.as_str()),
        );
        let notice = truncation::truncation_notice(
            "WebSearch",
            WEB_SEARCH_LIMIT,
            WEB_SEARCH_LIMIT.saturating_sub(other),
            original,
        );
        let taken: usize = other.saturating_add(text::byte_len(notice.as_str())).saturating_add(2);
        let available: usize = WEB_SEARCH_LIMIT.saturating_sub(taken);
        let prefix = truncation::utf8_prefix(references[last].chunk.as_str(), available);
        let head = truncation::trim_feeds(prefix.as_str());
        let chunk = text::concat3(head.as_str(), "\n\n", notice.as_str());
        references[last].chunk = chunk;
        proof {
            lemma_references_bytes(kept);
            assert(references@[last as int]@ == noted_reference(
                kept.last(),
                total as int,
                original as int,
            ));
            assert(data::views(references@) =~= kept.drop_last().push(
                references@[last as int]@,
            ));
        }
    }
}

/// Image data, or a note that stands for it.
pub open spec fn image_note(image_data: Seq<char>) -> Seq<char> {
    if text::blank(image_data) || text::starts(
        image_data,
        "[base64 image data omitted from replay; bytes="@,
    ) {
        image_data
    } else {
        "[base64 image data omitted from replay; bytes="@ + text::decimal(
            text::utf8_len(text::trimmed(image_data)),
        ) + "]"@
    }
}

/// Puts a note in the place of image data.
pub fn gate_generate_image(image_data: &mut String)
    ensures
        final(image_data)@ == image_note(old(image_data)@),
{
    if !text::is_blank(image_data.as_str()) && !text::starts_with(
        image_data.as_str(),
        "[base64 image data omitted from replay; bytes=",
    ) {
        let shown = text::trim(image_data.as_str());
        let number = text::decimal_u64(text::byte_len(shown.as_str()) as u64);
        *image_data = text::concat3(
            "[base64 image data omitted from replay; bytes=",
            number.as_str(),
            "]",
        );
    }
}

/// How long the text of a result may be, where a limit is set for the tool.
pub open spec fn content_limit(tool_name: Seq<char>) -> Option<nat> {
    if tool_name == "Shell"@ {
        Some(SHELL_RESULT_LIMIT as nat)
    } else if tool_name == "Grep"@ {
        Some(gate_grep::GREP_CONTENT_LIMIT as nat)
    } else if tool_name == "Read"@ {
        Some(READ_CONTENT_LIMIT as nat)
    } else if tool_name == "CallMcpTool"@ {
        Some(MCP_TEXT_LIMIT as nat)
    } else if patches(tool_name) {
        Some(PATCH_EDIT_RESULT_LIMIT as nat)
    } else {
        None
    }
}

/// The text of a result within the limit of its tool. What a command printed keeps both its ends.
pub open spec fn limited_text(tool_name: Seq<char>, content: Seq<char>) -> Seq<char> {
    match content_limit(tool_name) {
        Some(limit) => if tool_name == "Shell"@ {
            truncation::truncated_middle(tool_name, content, limit)
        } else {
            truncation::truncated(tool_name, content, limit)
        },
        None => content,
    }
}

/// The text of a result within the limit of its tool. What a command printed keeps both its ends.
pub fn limit_tool_result_text(tool_name: &str, content: &str) -> (r: String)
    ensures
        r@ == limited_text(tool_name@, content@),
{
    if text::same(tool_name, "Shell") {
        return truncation::truncate_edges(tool_name, content, SHELL_RESULT_LIMIT);
    }
    let limit: usize = if text::same(tool_name, "Grep") {
        gate_grep::GREP_CONTENT_LIMIT
    } else if text::same(tool_name, "Read") {
        READ_CONTENT_LIMIT
    } else if text::same(tool_name, "CallMcpTool") {
        MCP_TEXT_LIMIT
    } else if is_patch(tool_name) {
        PATCH_EDIT_RESULT_LIMIT
    } else {
        return content.to_owned();
    };
    truncation::truncate_text(tool_name, content, limit)
}

/// The result of a tool that succeeded, as far as limits are set for it. A tool without such a result
/// is `Other`.
#[derive(Debug)]
pub enum GatedTool {
    Shell(ShellStreams),
    Grep(GrepSuccess),
    Glob(GlobSuccess),
    Ls(LsListing),
    Read(ReadSuccess),
    Edit(EditSuccess),
    Mcp(McpSuccess),
    ListMcpResources(Vec<McpResource>),
    ReadMcpResource(ResourceContent),
    GetMcpTools(String),
    WebFetch(String),
    WebSearch(Vec<WebReference>),
    GenerateImage(String),
    Other,
}

#[verifier::ext_equal]
pub enum GatedToolView {
    Shell(ShellStreamsView),
    Grep(GrepSuccessView),
    Glob(GlobSuccessView),
    Ls(LsListingView),
    Read(ReadSuccessView),
    Edit(EditSuccessView),
    Mcp(McpSuccessView),
    ListMcpResources(Seq<McpResourceView>),
    ReadMcpResource(ResourceContentView),
    GetMcpTools(Seq<char>),
    WebFetch(Seq<char>),
    WebSearch(Seq<WebReferenceView>),
    GenerateImage(Seq<char>),
    Other,
}

impl View for GatedTool {
    type V = GatedToolView;

    open spec fn view(&self) -> GatedToolView {
        match self {
            GatedTool::Shell(x) => GatedToolView::Shell(x@),
            GatedTool::Grep(x) => GatedToolView::Grep(x@),
            GatedTool::Glob(x) => GatedToolView::Glob(x@),
            GatedTool::Ls(x) => GatedToolView::Ls(x@),
            GatedTool::Read(x) => GatedToolView::Read(x@),
            GatedTool::Edit(x) => GatedToolView::Edit(x@),
            GatedTool::Mcp(x) => GatedToolView::Mcp(x@),
            GatedTool::ListMcpResources(x) => GatedToolView::ListMcpResources(data::views(x@)),
            GatedTool::ReadMcpResource(x) => GatedToolView::ReadMcpResource(x@),
            GatedTool::GetMcpTools(x) => GatedToolView::GetMcpTools(x@),
            GatedTool::WebFetch(x) => GatedToolView::WebFetch(x@),
            GatedTool::WebSearch(x) => GatedToolView::WebSearch(data::views(x@)),
            GatedTool::GenerateImage(x) => GatedToolView::GenerateImage(x@),
            GatedTool::Other => GatedToolView::Other,
        }
    }
}

impl GatedToolView {
    /// The results of a search stand in the order of the workspaces.
    pub open spec fn wf(self) -> bool {
        self matches GatedToolView::Grep(x) ==> x.wf()
    }

    /// A result within the limits of its tool.
    pub open spec fn gated(self, tool_name: Seq<char>) -> GatedToolView {
        match self {
            GatedToolView::Shell(x) => GatedToolView::Shell(x.gated()),
            GatedToolView::Grep(x) => GatedToolView::Grep(gate_grep::gated_grep(x)),
            GatedToolView::Glob(x) => GatedToolView::Glob(x.gated()),
            GatedToolView::Ls(x) => GatedToolView::Ls(x.gated()),
            GatedToolView::Read(x) => GatedToolView::Read(x.gated()),
            GatedToolView::Edit(x) => GatedToolView::Edit(x.gated(tool_name)),
            GatedToolView::Mcp(x) => GatedToolView::Mcp(x.gated()),
            GatedToolView::ListMcpResources(x) => GatedToolView::ListMcpResources(
                gated_resources(x),
            ),
            GatedToolView::ReadMcpResource(x) => GatedToolView::ReadMcpResource(x.gated()),
            GatedToolView::GetMcpTools(x) => GatedToolView::GetMcpTools(
                truncation::truncated("GetMcpTools"@, x, MCP_TEXT_LIMIT as nat),
            ),
            GatedToolView::WebFetch(x) => GatedToolView::WebFetch(
                truncation::truncated("WebFetch"@, x, WEB_FETCH_LIMIT as nat),
            ),
            GatedToolView::WebSearch(x) => GatedToolView::WebSearch(gated_references(x)),
            GatedToolView::GenerateImage(x) => GatedToolView::GenerateImage(image_note(x)),
            GatedToolView::Other => GatedToolView::Other,
        }
    }
}

/// Keeps the result of a tool and its text within the limits of the tool.
pub fn tool_completion(tool_name: &str, tool: &mut GatedTool, content: &mut String)
    requires
        old(tool)@.wf(),
    ensures
        final(tool)@.wf(),
        final(tool)@ == old(tool)@.gated(tool_name@),
        final(content)@ == limited_text(tool_name@, old(content)@),
{
    match tool {
        GatedTool::Shell(x) => gate_shell_result(x),
        GatedTool::Grep(x) => gate_grep::gate_grep(x),
        GatedTool::Glob(x) => gate_glob(x),
        GatedTool::Ls(x) => gate_ls_result(x),
        GatedTool::Read(x) => gate_read(x),
        GatedTool::Edit(x) => gate_edit(tool_name, x),
        GatedTool::Mcp(x) => gate_mcp(x),
        GatedTool::ListMcpResources(x) => gate_mcp_resources(x),
        GatedTool::ReadMcpResource(x) => gate_mcp_resource(x),
        GatedTool::GetMcpTools(x) => {
            *x = truncation::truncate_text("GetMcpTools", x.as_str(), MCP_TEXT_LIMIT);
        },
        GatedTool::WebFetch(x) => {
            *x = truncation::truncate_text("WebFetch", x.as_str(), WEB_FETCH_LIMIT);
        },
        GatedTool::WebSearch(x) => gate_web_search(x),
        GatedTool::GenerateImage(x) => gate_generate_image(x),
        GatedTool::Other => {},
    }
    *content = limit_tool_result_text(tool_name, content.as_str());
}

/// Keeps what a client reports of a command or a listing within its limits, before it is rendered.
pub fn exec_message(message: &mut GatedTool)
    ensures
        final(message)@ == (match old(message)@ {
            GatedToolView::Shell(x) => GatedToolView::Shell(x.gated()),
            GatedToolView::Ls(x) => GatedToolView::Ls(x.gated()),
            other => other,
        }),
{
    match message {
        GatedTool::Shell(x) => gate_shell_result(x),
        GatedTool::Ls(x) => gate_ls_result(x),
        _ => {},
    }
}

/// Whatever a command prints, each of its streams is kept within its limit.
pub proof fn law_shell_streams_fit(streams: ShellStreamsView)
    requires
        text::utf8_len(streams.stdout) <= u64::MAX,
        text::utf8_len(streams.stderr) <= u64::MAX,
        streams.interleaved_output matches Some(output) ==> text::utf8_len(output) <= u64::MAX,
    ensures
        text::utf8_len(streams.gated().stdout) <= SHELL_STREAM_LIMIT,
        text::utf8_len(streams.gated().stderr) <= SHELL_STREAM_LIMIT,
        streams.gated().interleaved_output matches Some(output) ==> text::utf8_len(output)
            <= SHELL_INTERLEAVED_LIMIT,
{
    reveal_strlit("Shell stdout");
    reveal_strlit("Shell stderr");
    reveal_strlit("Shell interleaved output");
    text::lemma_ascii_len("Shell stdout"@);
    text::lemma_ascii_len("Shell stderr"@);
    text::lemma_ascii_len("Shell interleaved output"@);
    truncation::law_truncated_middle_fits(
        "Shell stdout"@,
        streams.stdout,
        SHELL_STREAM_LIMIT as nat,
    );
    truncation::law_truncated_middle_fits(
        "Shell stderr"@,
        streams.stderr,
        SHELL_STREAM_LIMIT as nat,
    );
    if let Some(output) = streams.interleaved_output {
        truncation::law_truncated_middle_fits(
            "Shell interleaved output"@,
            output,
            SHELL_INTERLEAVED_LIMIT as nat,
        );
    }
}

/// The text of a result keeps the limit of its tool, and is not cut again.
pub proof fn law_result_text_fits(tool_name: Seq<char>, content: Seq<char>)
    requires
        text::utf8_len(tool_name) <= 3_000,
        text::utf8_len(content) <= u64::MAX,
    ensures
        content_limit(tool_name) matches Some(limit) ==> text::utf8_len(
            limited_text(tool_name, content),
        ) <= limit,
        limited_text(tool_name, limited_text(tool_name, content)) == limited_text(
            tool_name,
            content,
        ),
{
    if let Some(limit) = content_limit(tool_name) {
        if tool_name == "Shell"@ {
            truncation::law_truncated_middle_fits(tool_name, content, limit);
        } else {
            truncation::law_truncated_fits(tool_name, content, limit);
        }
    }
}

/// A note in the place of image data is not replaced again.
pub proof fn law_image_note_stays(image_data: Seq<char>)
    ensures
        image_note(image_note(image_data)) == image_note(image_data),
{
    let start = "[base64 image data omitted from replay; bytes="@;
    let note = image_note(image_data);
    if note != image_data {
        assert(note.subrange(0, start.len() as int) =~= start);
    }
}

/// Images and other data that is not text go through unchanged.
pub proof fn law_other_items_pass(gate: McpGate, handle: u64)
    ensures
        with_item(gate, McpItemView::Other(handle)).content == gate.content.push(
            McpItemView::Other(handle),
        ),
        with_item(gate, McpItemView::Other(handle)).left == gate.left,
{
}

/// What keeps its limits passes as it is: what a command printed, what was read, files that were
/// found, directories, resources.
pub proof fn law_small_results_pass(
    streams: ShellStreamsView,
    read: ReadSuccessView,
    found: GlobSuccessView,
    listing: LsListingView,
    resource: ResourceContentView,
    tool_name: Seq<char>,
)
    ensures
        text::utf8_len(streams.stdout) <= 16_384 ==> streams.gated().stdout == streams.stdout,
        text::utf8_len(streams.stderr) <= 16_384 ==> streams.gated().stderr == streams.stderr,
        streams.interleaved_output matches Some(output) ==> (text::utf8_len(output) <= 32_768
            ==> streams.gated().interleaved_output == Some(output)),
        read.output matches Some(ReadOutputView::Content(content)) ==> (text::utf8_len(content)
            <= 65_536 ==> read.gated() == read),
        read.output matches Some(ReadOutputView::Data(bytes)) ==> (bytes.len() <= 32_768
            ==> read.gated() == read),
        found.files.len() <= 200 ==> found.gated().files == found.files
            && found.gated().client_truncated == found.client_truncated,
        found.files.len() <= 200 && found.total_files > 0 ==> found.gated() == found,
        found.files.len() <= 200 && found.total_files <= 0 ==> found.gated().total_files
            == found.files.len(),
        listing.children_dirs.len() <= 100 && listing.children_files.len() <= 100
            ==> listing.gated() == listing,
        resource matches ResourceContentView::Text(content) ==> (text::utf8_len(content) <= 32_768
            ==> resource.gated() == resource),
        resource matches ResourceContentView::Blob(bytes) ==> (bytes.len() <= 32_768
            ==> resource.gated() == resource),
        GatedToolView::Other.gated(tool_name) is Other,
{
}

/// What goes beyond its limits is cut, from the front of a list, and marked.
pub proof fn law_large_results_are_marked(
    read: ReadSuccessView,
    found: GlobSuccessView,
    listing: LsListingView,
)
    requires
        found.files.len() <= i32::MAX,
    ensures
        found.files.len() > 200 ==> found.gated().files == found.files.take(200)
            && found.gated().client_truncated && found.gated().total_files >= found.files.len(),
        listing.children_dirs.len() > 100 ==> listing.gated().children_dirs
            == listing.children_dirs.take(100) && !listing.gated().children_were_processed,
        listing.children_files.len() > 100 ==> listing.gated().children_files
            == listing.children_files.take(100) && !listing.gated().children_were_processed,
        read.output matches Some(ReadOutputView::Data(bytes)) ==> (bytes.len() > 32_768
            ==> read.gated().exceeded_limit && read.gated().output->0 is Content),
        read.output matches Some(ReadOutputView::Content(content)) ==> (read.gated().output
            != read.output ==> read.gated().exceeded_limit),
{
}

/// Of an edit only the difference stays, or, where there is none, the new content; either whole where
/// it keeps its limit, which is smaller for a patch.
pub proof fn law_edit_keeps_its_difference(edit: EditSuccessView, tool_name: Seq<char>)
    ensures
        ({
            let kept = edit.gated(tool_name);
            &&& kept.before_full_file_content is None
            &&& edit.diff_string matches Some(diff) ==> {
                &&& kept.diff_string is Some
                &&& kept.after_full_file_content.len() == 0
                &&& text::utf8_len(diff) <= 4_096 ==> kept.diff_string == Some(diff)
                &&& !patches(tool_name) && text::utf8_len(diff) <= 32_768 ==> kept.diff_string
                    == Some(diff)
            }
            &&& edit.diff_string is None ==> {
                &&& kept.diff_string is None
                &&& text::utf8_len(edit.after_full_file_content) <= 4_096
                    ==> kept.after_full_file_content == edit.after_full_file_content
            }
        }),
{
}

/// The text of a result stays whole where it keeps the limit of its tool; without a limit it stays
/// whole in any case.
pub proof fn law_short_text_stays(tool_name: Seq<char>, content: Seq<char>)
    ensures
        content_limit(tool_name) is None ==> limited_text(tool_name, content) == content,
        content_limit(tool_name) matches Some(limit) ==> (text::utf8_len(content) <= limit
            ==> limited_text(tool_name, content) == content),
        text::utf8_len(content) <= 4_096 ==> limited_text(tool_name, content) == content,
{
}

/// An answer of an MCP tool within all its limits passes as it is.
pub proof fn law_small_mcp_answer_passes(answer: McpSuccessView)
    requires
        answer.content.len() <= 20,
        mcp_text_bytes(answer.content) < 32_768,
        structure_bytes(answer.structured_content) <= 32_768,
    ensures
        answer.gated() == answer,
{
    if !has_mcp_notice(answer.content) {
        let gate = McpGate {
            content: Seq::empty(),
            notices: Seq::empty(),
            left: MCP_TEXT_LIMIT as nat,
        };
        assert(answer.first_notices() =~= Seq::empty());
        lemma_small_items_pass(gate, answer.content);
        let after = with_items(gate, answer.content);
        assert(notice_items(after.notices) =~= Seq::empty());
        assert(after.content + notice_items(after.notices) =~= answer.content);
    }
}

/// The bytes of the texts among items.
pub open spec fn mcp_text_bytes(items: Seq<McpItemView>) -> nat
    decreases items.len(),
{
    if items.len() == 0 {
        0
    } else {
        mcp_text_bytes(items.drop_last()) + (match items.last() {
            McpItemView::Text(content) => text::utf8_len(content),
            McpItemView::Other(_) => 0,
        })
    }
}

proof fn lemma_small_items_pass(gate: McpGate, items: Seq<McpItemView>)
    requires
        gate.left == MCP_TEXT_LIMIT,
        mcp_text_bytes(items) < MCP_TEXT_LIMIT,
    ensures
        with_items(gate, items).content == gate.content + items,
        with_items(gate, items).notices == gate.notices,
        with_items(gate, items).left == MCP_TEXT_LIMIT - mcp_text_bytes(items),
    decreases items.len(),
{
    if items.len() > 0 {
        lemma_small_items_pass(gate, items.drop_last());
        assert(gate.content + items.drop_last().push(items.last()) =~= (gate.content
            + items.drop_last()).push(items.last()));
        assert(items.drop_last().push(items.last()) =~= items);
    } else {
        assert(gate.content + items =~= gate.content);
    }
}

/// Of the resources that servers offer the first two hundred stay, each with its address and its name;
/// a description stays whole where it is short. Where there are more, one more entry says so.
pub proof fn law_resources_stay(resources: Seq<McpResourceView>)
    requires
        !resources_cut(resources),
    ensures
        ({
            let kept = gated_resources(resources);
            let count = if resources.len() > 200 {
                200
            } else {
                resources.len() as int
            };
            &&& kept.len() == (if resources.len() > 200 {
                201
            } else {
                resources.len() as int
            })
            &&& forall|i: int|
                0 <= i < count ==> {
                    &&& (#[trigger] kept[i]).uri == resources[i].uri
                    &&& kept[i].name == resources[i].name
                    &&& resources[i].description matches Some(description) ==> (text::utf8_len(
                        description,
                    ) <= 1_024 ==> kept[i].description == Some(description))
                    &&& resources[i].description is None ==> kept[i].description is None
                }
            &&& resources.len() > 200 ==> kept.last().uri == "truncated:list-mcp-resources"@
        }),
{
}

/// Pages of a search that are short and together keep the limit pass as they are.
pub proof fn law_short_references_pass(references: Seq<WebReferenceView>)
    requires
        forall|i: int|
            0 <= i < references.len() ==> text::utf8_len((#[trigger] references[i]).title) <= 512
                && text::utf8_len(references[i].chunk) <= 2_048,
        references_bytes(references) <= 16_384,
    ensures
        gated_references(references) == references,
{
    let short = references.map_values(|r: WebReferenceView| shortened_reference(r));
    assert forall|i: int| 0 <= i < references.len() implies short[i] == #[trigger] references[i] by {
        assert(shortened_reference(references[i]) == references[i]);
    }
    assert(short =~= references);
}

/// Pages of a search keep their order and their addresses; the last ones are left out where they do not
/// fit, and at least one stays.
pub proof fn law_references_stay_in_order(references: Seq<WebReferenceView>)
    ensures
        gated_references(references).len() <= references.len(),
        references.len() > 0 ==> gated_references(references).len() > 0,
        forall|i: int|
            0 <= i < gated_references(references).len() ==> (#[trigger] gated_references(
                references,
            )[i]).url == references[i].url,
{
    let short = references.map_values(|r: WebReferenceView| shortened_reference(r));
    lemma_fitting_is_a_beginning(short);
}

proof fn lemma_fitting_is_a_beginning(references: Seq<WebReferenceView>)
    ensures
        fitting_references(references).is_prefix_of(references),
        references.len() > 0 ==> fitting_references(references).len() > 0,
    decreases references.len(),
{
    if references.len() > 1 && gate_grep::capped(references_bytes(references)) > WEB_SEARCH_LIMIT {
        lemma_fitting_is_a_beginning(references.drop_last());
    }
}

} // verus!
