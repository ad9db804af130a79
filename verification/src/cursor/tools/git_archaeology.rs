//! Questions on the history of a repository: what git is asked, and what its answers say.
use crate::cursor::tools::inspect_changes::GitText;
use crate::data;
use crate::json;
use crate::json::{Json, JsonView, Number};
use crate::text;
use vstd::prelude::*;

verus! {

/// How many commits are listed at most.
pub const MAX_RECORDS: usize = 30;

/// How many commits are listed where no number is asked for.
pub const DEFAULT_RECORDS: usize = 20;

/// How many bytes of evidence are kept.
pub const MAX_EVIDENCE_BYTES: usize = 16_000;

/// A question on the history, as a tool call asks it.
#[derive(Debug)]
pub struct HistoryRequest {
    pub repository: String,
    pub operation: String,
    pub path: Option<String>,
    pub start_line: Option<u32>,
    pub end_line: Option<u32>,
    pub query: Option<String>,
    pub regex: bool,
    pub limit: Option<usize>,
    pub commit: Option<String>,
}

#[verifier::ext_equal]
pub struct HistoryRequestView {
    pub repository: Seq<char>,
    pub operation: Seq<char>,
    pub path: Option<Seq<char>>,
    pub start_line: Option<u32>,
    pub end_line: Option<u32>,
    pub query: Option<Seq<char>>,
    pub regex: bool,
    pub limit: Option<usize>,
    pub commit: Option<Seq<char>>,
}

impl View for HistoryRequest {
    type V = HistoryRequestView;

    open spec fn view(&self) -> HistoryRequestView {
        HistoryRequestView {
            repository: self.repository@,
            operation: self.operation@,
            path: data::option_view(self.path),
            start_line: self.start_line,
            end_line: self.end_line,
            query: data::option_view(self.query),
            regex: self.regex,
            limit: self.limit,
            commit: data::option_view(self.commit),
        }
    }
}

/// The kinds of questions.
#[derive(Clone, Copy, Debug, PartialEq, Eq, Structural)]
pub enum HistoryOperation {
    Lineage,
    Pickaxe,
    FileBiography,
    CommitContext,
}

/// The name of a kind of question, without regard to case and surrounding space.
pub open spec fn operation_name(given: Seq<char>) -> Seq<char> {
    text::lowercase(text::trimmed(given))
}

/// The kind of question that a name asks for.
pub open spec fn operation_named(name: Seq<char>) -> Option<HistoryOperation> {
    if name == "lineage"@ {
        Some(HistoryOperation::Lineage)
    } else if name == "pickaxe"@ {
        Some(HistoryOperation::Pickaxe)
    } else if name == "file_biography"@ {
        Some(HistoryOperation::FileBiography)
    } else if name == "commit_context"@ {
        Some(HistoryOperation::CommitContext)
    } else {
        None
    }
}

impl HistoryOperation {
    /// The kind of question that a request asks, and its name.
    pub fn of(given: &str) -> (r: Result<(HistoryOperation, String), String>)
        ensures
            match r {
                Ok((operation, name)) => name@ == operation_name(given@) && operation_named(name@)
                    == Some(operation),
                Err(e) => operation_named(operation_name(given@)) is None && e@
                    == "`operation` must be one of: lineage, pickaxe, file_biography, commit_context."@,
            },
    {
        let shown = text::trim(given);
        let name = text::to_lowercase(shown.as_str());
        if text::same(name.as_str(), "lineage") {
            Ok((HistoryOperation::Lineage, name))
        } else if text::same(name.as_str(), "pickaxe") {
            Ok((HistoryOperation::Pickaxe, name))
        } else if text::same(name.as_str(), "file_biography") {
            Ok((HistoryOperation::FileBiography, name))
        } else if text::same(name.as_str(), "commit_context") {
            Ok((HistoryOperation::CommitContext, name))
        } else {
            Err(
                "`operation` must be one of: lineage, pickaxe, file_biography, commit_context.".to_owned(),
            )
        }
    }
}

/// A text that was given and is not blank, without surrounding space.
pub open spec fn given_text(given: Option<Seq<char>>) -> Option<Seq<char>> {
    match given {
        Some(value) => if text::blank(value) {
            None
        } else {
            Some(text::trimmed(value))
        },
        None => None,
    }
}

fn given(value: &Option<String>) -> (r: Option<String>)
    ensures
        data::option_view(r) == given_text(data::option_view(*value)),
{
    match value {
        Some(value) => if text::is_blank(value.as_str()) {
            None
        } else {
            Some(text::trim(value.as_str()))
        },
        None => None,
    }
}

impl HistoryRequest {
    /// The directory in which git is asked.
    pub fn requested_repository(&self) -> (r: Result<String, String>)
        ensures
            match r {
                Ok(path) => !text::blank(self@.repository) && path@ == text::trimmed(
                    self@.repository,
                ),
                Err(e) => text::blank(self@.repository) && e@
                    == "`repository` must be a non-empty repository path."@,
            },
    {
        if text::is_blank(self.repository.as_str()) {
            Err("`repository` must be a non-empty repository path.".to_owned())
        } else {
            Ok(text::trim(self.repository.as_str()))
        }
    }

    /// How many commits are listed.
    pub fn record_limit(&self) -> (r: usize)
        ensures
            1 <= r <= MAX_RECORDS,
            r == (match self@.limit {
                None => DEFAULT_RECORDS,
                Some(n) => if n < 1 {
                    1
                } else if n > MAX_RECORDS {
                    MAX_RECORDS
                } else {
                    n
                },
            }),
    {
        match self.limit {
            None => DEFAULT_RECORDS,
            Some(n) => if n < 1 {
                1
            } else if n > MAX_RECORDS {
                MAX_RECORDS
            } else {
                n
            },
        }
    }

    /// The path that a question is about.
    pub fn required_path(&self) -> (r: Result<String, String>)
        ensures
            match r {
                Ok(path) => given_text(self@.path) == Some(path@),
                Err(e) => given_text(self@.path) is None && e@
                    == "`path` is required for this operation."@,
            },
    {
        match given(&self.path) {
            Some(path) => Ok(path),
            None => Err("`path` is required for this operation.".to_owned()),
        }
    }
}

/// The root of the repository that git found for a directory.
pub fn opened_repository(directory: &str, toplevel: Result<String, String>) -> (r: Result<
    String,
    String,
>)
    ensures
        match toplevel {
            Err(reason) => r matches Err(e) && e@ == reason@,
            Ok(printed) => match r {
                Ok(root) => !text::blank(printed@) && root@ == text::trimmed(printed@),
                Err(e) => text::blank(printed@) && e@ == "`"@ + directory@
                    + "` is not inside a Git repository."@,
            },
        },
{
    match toplevel {
        Err(reason) => Err(reason),
        Ok(printed) => if text::is_blank(printed.as_str()) {
            Err(text::concat3("`", directory, "` is not inside a Git repository."))
        } else {
            Ok(text::trim(printed.as_str()))
        },
    }
}

/// Why a git command failed: what it printed on its error output, or else how it exited.
pub open spec fn failure_of(command: Seq<char>, stderr: Seq<char>, status: Seq<char>) -> Seq<char> {
    if text::blank(stderr) {
        command + " exited with "@ + status
    } else {
        command + " failed: "@ + text::trimmed(stderr)
    }
}

/// Why a git command failed.
pub fn git_failure(command: &str, stderr: &str, status: &str) -> (r: String)
    ensures
        r@ == failure_of(command@, stderr@, status@),
{
    if text::is_blank(stderr) {
        text::concat3(command, " exited with ", status)
    } else {
        let shown = text::trim(stderr);
        text::concat3(command, " failed: ", shown.as_str())
    }
}

/// What a git command printed, or why there is nothing: it failed, or it could not be started.
pub fn git_output(
    command: &str,
    task: &str,
    outcome: Result<GitText, String>,
    status: &str,
) -> (r: Result<String, String>)
    ensures
        match outcome {
            Ok(output) => if output.success {
                r matches Ok(printed) && printed@ == output.stdout@
            } else {
                r matches Err(e) && e@ == failure_of(task@, output.stderr@, status@)
            },
            Err(reason) => r matches Err(e) && e@ == "failed to spawn "@ + command@ + ": "@
                + reason@,
        },
{
    match outcome {
        Ok(output) => if output.success {
            Ok(output.stdout)
        } else {
            Err(git_failure(task, output.stderr.as_str(), status))
        },
        Err(reason) => {
            let mut message = "failed to spawn ".to_owned();
            message.append(command);
            message.append(": ");
            message.append(reason.as_str());
            Err(message)
        },
    }
}

/// Evidence, cut where it is too long.
pub open spec fn bounded_text(value: Seq<char>) -> Seq<char> {
    if text::utf8_len(value) <= MAX_EVIDENCE_BYTES {
        text::trimmed(value)
    } else {
        text::trimmed(text::prefix_within(value, MAX_EVIDENCE_BYTES as nat))
            + "\n\n[output truncated to 16000 characters]"@
    }
}

/// Evidence, cut where it is too long.
pub fn bounded(value: &str) -> (r: String)
    ensures
        r@ == bounded_text(value@),
{
    if text::byte_len(value) <= MAX_EVIDENCE_BYTES {
        text::trim(value)
    } else {
        let chars = text::to_chars(value);
        let end = text::prefix_end(&chars, MAX_EVIDENCE_BYTES);
        let kept = text::slice(&chars, 0, end);
        assert(kept@ =~= text::prefix_within(value@, MAX_EVIDENCE_BYTES as nat));
        let shown = text::trim(kept.as_str());
        text::concat(shown.as_str(), "\n\n[output truncated to 16000 characters]")
    }
}

/// A commit as JSON.
pub open spec fn commit_members(
    commit: Seq<char>,
    date: Seq<char>,
    author: Seq<char>,
    subject: Seq<char>,
) -> Seq<(Seq<char>, JsonView)> {
    seq![
        ("commit"@, JsonView::String(commit)),
        ("date"@, JsonView::String(date)),
        ("author"@, JsonView::String(author)),
        ("subject"@, JsonView::String(subject)),
    ]
}

/// A field, or nothing where there are fewer.
pub open spec fn field_or_empty(fields: Seq<Seq<char>>, i: int) -> Seq<char> {
    if i < fields.len() {
        fields[i]
    } else {
        Seq::empty()
    }
}

/// A commit from fields of which some may be missing.
pub open spec fn lenient_commit(fields: Seq<Seq<char>>) -> Seq<(Seq<char>, JsonView)> {
    commit_members(
        field_or_empty(fields, 0),
        field_or_empty(fields, 1),
        field_or_empty(fields, 2),
        field_or_empty(fields, 3),
    )
}

/// The commits of a log, one in each line with at least four fields.
pub open spec fn log_records(lines: Seq<Seq<char>>) -> Seq<JsonView>
    decreases lines.len(),
{
    if lines.len() == 0 {
        Seq::empty()
    } else {
        let before = log_records(lines.drop_last());
        let fields = text::split_of(lines.last(), '\u{1f}');
        if fields.len() >= 4 {
            before.push(JsonView::Object(lenient_commit(fields)))
        } else {
            before
        }
    }
}

fn commit_from(fields: &Vec<String>) -> (r: Vec<(String, Json)>)
    ensures
        json::member_views(r@) == lenient_commit(data::views(fields@)),
{
    let ghost all = data::views(fields@);
    assert(all.len() == fields@.len());
    assert(forall|i: int| 0 <= i < all.len() ==> all[i] == fields@[i]@);
    let mut members: Vec<(String, Json)> = Vec::new();
    let commit = field(fields, 0);
    let date = field(fields, 1);
    let author = field(fields, 2);
    let subject = field(fields, 3);
    json::put(&mut members, "commit", Json::String(commit));
    json::put(&mut members, "date", Json::String(date));
    json::put(&mut members, "author", Json::String(author));
    json::put(&mut members, "subject", Json::String(subject));
    assert(json::member_views(members@) =~= lenient_commit(all));
    members
}

fn field(fields: &Vec<String>, i: usize) -> (r: String)
    ensures
        r@ == field_or_empty(data::views(fields@), i as int),
{
    assert(data::views(fields@).len() == fields@.len());
    if i < fields.len() {
        assert(data::views(fields@)[i as int] == fields@[i as int]@);
        fields[i].clone()
    } else {
        String::new()
    }
}

/// The commits of a log.
pub fn parse_log_records(value: &str) -> (r: Vec<Json>)
    ensures
        data::views(r@) == log_records(text::lines_of(value@)),
{
    broadcast use json::lemma_view;

    let lines = text::lines(value);
    let ghost all = data::views(lines@);
    let mut out: Vec<Json> = Vec::new();
    let mut i: usize = 0;
    assert(all.take(0) =~= Seq::empty());
    assert(data::views(out@) =~= Seq::empty());
    while i < lines.len()
        invariant
            i <= lines@.len(),
            all == data::views(lines@),
            data::views(out@) == log_records(all.take(i as int)),
        decreases lines@.len() - i,
    {
        let ghost before = data::views(out@);
        let fields = text::split(lines[i].as_str(), '\u{1f}');
        assert(data::views(fields@).len() == fields@.len());
        if fields.len() >= 4 {
            let record = json::object(commit_from(&fields));
            out.push(record);
            assert(data::views(out@) =~= before.push(record@));
        }
        i += 1;
        assert(all.take(i as int).drop_last() =~= all.take(i - 1));
        assert(all.take(i as int).last() == lines@[i - 1]@);
    }
    assert(all.take(i as int) =~= all);
    out
}

/// Renames found so far, and the commit that the next ones belong to.
#[verifier::ext_equal]
pub struct RenameScan {
    pub renames: Seq<JsonView>,
    pub commit: JsonView,
}

/// What a line of `git log --name-status --diff-filter=R` adds to the renames.
pub open spec fn with_rename_line(scan: RenameScan, line: Seq<char>) -> RenameScan {
    let shown = text::trimmed(line);
    match text::after_prefix(shown, "COMMIT\u{1f}"@) {
        Some(rest) => RenameScan {
            commit: JsonView::Object(lenient_commit(text::split_of(rest, '\u{1f}'))),
            ..scan
        },
        None => {
            let parts = text::split_of(shown, '\t');
            if shown.len() > 0 && (shown[0] == 'R' || shown[0] == 'r') && parts.len() >= 3 {
                RenameScan {
                    renames: scan.renames.push(
                        JsonView::Object(
                            seq![
                                ("from"@, JsonView::String(parts[1])),
                                ("to"@, JsonView::String(parts[2])),
                                ("commit"@, scan.commit),
                            ],
                        ),
                    ),
                    ..scan
                }
            } else {
                scan
            }
        },
    }
}

/// The renames of a log.
pub open spec fn rename_scan(lines: Seq<Seq<char>>) -> RenameScan
    decreases lines.len(),
{
    if lines.len() == 0 {
        RenameScan { renames: Seq::empty(), commit: JsonView::Null }
    } else {
        with_rename_line(rename_scan(lines.drop_last()), lines.last())
    }
}

fn begins_with_r(s: &str) -> (r: bool)
    ensures
        r == (s@.len() > 0 && (s@[0] == 'R' || s@[0] == 'r')),
{
    let chars = text::to_chars(s);
    chars.len() > 0 && (chars[0] == 'R' || chars[0] == 'r')
}

/// The renames that `git log --name-status --diff-filter=R` printed.
pub fn parse_renames(value: &str) -> (r: Vec<Json>)
    ensures
        data::views(r@) == rename_scan(text::lines_of(value@)).renames,
{
    broadcast use json::lemma_view;

    let lines = text::lines(value);
    let ghost all = data::views(lines@);
    let mut renames: Vec<Json> = Vec::new();
    let mut commit = Json::Null;
    let mut i: usize = 0;
    assert(all.take(0) =~= Seq::empty());
    assert(data::views(renames@) =~= Seq::empty());
    while i < lines.len()
        invariant
            i <= lines@.len(),
            all == data::views(lines@),
            data::views(renames@) == rename_scan(all.take(i as int)).renames,
            commit@ == rename_scan(all.take(i as int)).commit,
        decreases lines@.len() - i,
    {
        let ghost before = data::views(renames@);
        assert(all.take(i + 1).drop_last() =~= all.take(i as int));
        assert(all.take(i + 1).last() == lines@[i as int]@);
        let shown = text::trim(lines[i].as_str());
        match text::strip_prefix(shown.as_str(), "COMMIT\u{1f}") {
            Some(rest) => {
                let fields = text::split(rest.as_str(), '\u{1f}');
                commit = json::object(commit_from(&fields));
            },
            None => {
                let parts = text::split(shown.as_str(), '\t');
                assert(data::views(parts@).len() == parts@.len());
                if begins_with_r(shown.as_str()) && parts.len() >= 3 {
                    assert(data::views(parts@)[1] == parts@[1]@);
                    assert(data::views(parts@)[2] == parts@[2]@);
                    let mut members: Vec<(String, Json)> = Vec::new();
                    json::put(&mut members, "from", Json::String(parts[1].clone()));
                    json::put(&mut members, "to", Json::String(parts[2].clone()));
                    json::put(&mut members, "commit", commit.copy());
                    assert(json::member_views(members@) =~= seq![
                        ("from"@, JsonView::String(parts@[1]@)),
                        ("to"@, JsonView::String(parts@[2]@)),
                        ("commit"@, commit@),
                    ]);
                    let rename = json::object(members);
                    renames.push(rename);
                    assert(data::views(renames@) =~= before.push(rename@));
                }
            },
        }
        i += 1;
    }
    assert(all.take(i as int) =~= all);
    renames
}

/// Commits found so far, and the one whose counts may follow.
#[verifier::ext_equal]
pub struct TimelineScan {
    pub timeline: Seq<JsonView>,
    pub pending: Option<Seq<(Seq<char>, JsonView)>>,
}

/// The commits with the pending one, which has no counts.
pub open spec fn settled(scan: TimelineScan) -> Seq<JsonView> {
    match scan.pending {
        Some(commit) => scan.timeline.push(
            JsonView::Object(commit.push(("stat"@, JsonView::String(Seq::empty())))),
        ),
        None => scan.timeline,
    }
}

/// What a line of `git log --shortstat` adds to the commits: a commit, or the counts of the one before.
pub open spec fn with_timeline_line(scan: TimelineScan, line: Seq<char>) -> TimelineScan {
    let shown = text::trimmed(line);
    let fields = text::split_of(shown, '\u{1f}');
    if shown.len() == 0 {
        scan
    } else if fields.len() >= 2 {
        TimelineScan { timeline: settled(scan), pending: Some(lenient_commit(fields)) }
    } else {
        match scan.pending {
            Some(commit) => TimelineScan {
                timeline: scan.timeline.push(
                    JsonView::Object(commit.push(("stat"@, JsonView::String(shown)))),
                ),
                pending: None,
            },
            None => scan,
        }
    }
}

/// The commits of a log with counts.
pub open spec fn timeline_scan(lines: Seq<Seq<char>>) -> TimelineScan
    decreases lines.len(),
{
    if lines.len() == 0 {
        TimelineScan { timeline: Seq::empty(), pending: None }
    } else {
        with_timeline_line(timeline_scan(lines.drop_last()), lines.last())
    }
}

fn push_commit(timeline: &mut Vec<Json>, commit: Vec<(String, Json)>, stat: &str)
    ensures
        data::views(final(timeline)@) == data::views(old(timeline)@).push(
            JsonView::Object(
                json::member_views(commit@).push(("stat"@, JsonView::String(stat@))),
            ),
        ),
{
    broadcast use json::lemma_view;

    let ghost before = data::views(timeline@);
    let mut members = commit;
    json::put(&mut members, "stat", Json::String(stat.to_owned()));
    let value = Json::Object(members);
    timeline.push(value);
    assert(data::views(timeline@) =~= before.push(value@));
}

/// What the pending commit denotes.
spec fn pending_view(pending: Option<Vec<(String, Json)>>) -> Option<Seq<(Seq<char>, JsonView)>> {
    match pending {
        Some(members) => Some(json::member_views(members@)),
        None => None,
    }
}

/// The commits that `git log --shortstat` printed, with their counts.
pub fn parse_timeline(value: &str) -> (r: Vec<Json>)
    ensures
        data::views(r@) == settled(timeline_scan(text::lines_of(value@))),
{
    let lines = text::lines(value);
    let ghost all = data::views(lines@);
    let mut timeline: Vec<Json> = Vec::new();
    let mut pending: Option<Vec<(String, Json)>> = None;
    let mut i: usize = 0;
    assert(all.take(0) =~= Seq::empty());
    assert(data::views(timeline@) =~= Seq::empty());
    proof {
        reveal_strlit("");
        assert(""@ =~= Seq::<char>::empty());
    }
    while i < lines.len()
        invariant
            i <= lines@.len(),
            all == data::views(lines@),
            data::views(timeline@) == timeline_scan(all.take(i as int)).timeline,
            pending_view(pending) == timeline_scan(all.take(i as int)).pending,
            ""@ == Seq::<char>::empty(),
        decreases lines@.len() - i,
    {
        assert(all.take(i + 1).drop_last() =~= all.take(i as int));
        assert(all.take(i + 1).last() == lines@[i as int]@);
        let shown = text::trim(lines[i].as_str());
        if !shown.as_str().is_empty() {
            let fields = text::split(shown.as_str(), '\u{1f}');
            assert(data::views(fields@).len() == fields@.len());
            if fields.len() >= 2 {
                if let Some(commit) = pending {
                    push_commit(&mut timeline, commit, "");
                }
                pending = Some(commit_from(&fields));
            } else {
                if let Some(commit) = pending {
                    push_commit(&mut timeline, commit, shown.as_str());
                }
                pending = None;
            }
        }
        i += 1;
    }
    assert(all.take(i as int) =~= all);
    if let Some(commit) = pending {
        push_commit(&mut timeline, commit, "");
    }
    timeline
}

fn push_text(items: &mut Vec<String>, item: &str)
    ensures
        data::views(final(items)@) == data::views(old(items)@).push(item@),
{
    items.push(item.to_owned());
    assert(data::views(items@) =~= data::views(old(items)@).push(item@));
}

/// The lines whose origin is asked for.
#[derive(Debug)]
pub struct LineageQuery {
    pub path: String,
    pub start: u32,
    pub end: u32,
}

/// The lines that a request asks for: from the first line, or the given one, to the given one or
/// that line alone.
pub open spec fn lineage_range(request: HistoryRequestView) -> (u32, u32) {
    let start = match request.start_line {
        Some(n) => n,
        None => 1,
    };
    (
        start,
        match request.end_line {
            Some(n) => n,
            None => start,
        },
    )
}

/// The lines whose origin a request asks for.
pub fn lineage_query(request: &HistoryRequest) -> (r: Result<LineageQuery, String>)
    ensures
        ({
            let range = lineage_range(request@);
            match r {
                Ok(query) => given_text(request@.path) == Some(query.path@) && range == (
                    query.start,
                    query.end,
                ) && range.0 <= range.1,
                Err(e) => if given_text(request@.path) is None {
                    e@ == "`path` is required for this operation."@
                } else {
                    range.1 < range.0 && e@
                        == "`end_line` must be greater than or equal to `start_line`."@
                },
            }
        }),
{
    let path = match request.required_path() {
        Ok(path) => path,
        Err(e) => {
            return Err(e);
        },
    };
    let start: u32 = match request.start_line {
        Some(n) => n,
        None => 1,
    };
    let end: u32 = match request.end_line {
        Some(n) => n,
        None => start,
    };
    if end < start {
        return Err("`end_line` must be greater than or equal to `start_line`.".to_owned());
    }
    Ok(LineageQuery { path, start, end })
}

/// The arguments with which git is asked where lines came from.
pub fn lineage_arguments(query: &LineageQuery) -> (r: Vec<String>)
    ensures
        data::views(r@) == seq![
            "blame"@,
            "-w"@,
            "-M"@,
            "-C"@,
            "--date=short"@,
            "-L"@,
            text::decimal(query.start as nat) + ","@ + text::decimal(query.end as nat),
            "--"@,
            query.path@,
        ],
{
    let mut range = text::decimal_u64(query.start as u64);
    range.append(",");
    range.append(text::decimal_u64(query.end as u64).as_str());
    let mut arguments: Vec<String> = Vec::new();
    push_text(&mut arguments, "blame");
    push_text(&mut arguments, "-w");
    push_text(&mut arguments, "-M");
    push_text(&mut arguments, "-C");
    push_text(&mut arguments, "--date=short");
    push_text(&mut arguments, "-L");
    push_text(&mut arguments, range.as_str());
    push_text(&mut arguments, "--");
    push_text(&mut arguments, query.path.as_str());
    assert(data::views(arguments@) =~= seq![
        "blame"@,
        "-w"@,
        "-M"@,
        "-C"@,
        "--date=short"@,
        "-L"@,
        range@,
        "--"@,
        query.path@,
    ]);
    arguments
}

/// The lines that are not empty once space at their end is taken off.
pub open spec fn kept_lines(lines: Seq<Seq<char>>) -> Seq<Seq<char>>
    decreases lines.len(),
{
    if lines.len() == 0 {
        Seq::empty()
    } else {
        let before = kept_lines(lines.drop_last());
        let line = text::trim_end(lines.last());
        if line.len() == 0 {
            before
        } else {
            before.push(line)
        }
    }
}

fn keep_lines(output: &str) -> (r: Vec<String>)
    ensures
        data::views(r@) == kept_lines(text::lines_of(output@)),
{
    let lines = text::lines(output);
    let ghost all = data::views(lines@);
    let mut out: Vec<String> = Vec::new();
    let mut i: usize = 0;
    assert(all.take(0) =~= Seq::empty());
    assert(data::views(out@) =~= Seq::empty());
    while i < lines.len()
        invariant
            i <= lines@.len(),
            all == data::views(lines@),
            data::views(out@) == kept_lines(all.take(i as int)),
        decreases lines@.len() - i,
    {
        let ghost before = data::views(out@);
        let line = text::trim_right(lines[i].as_str());
        if !line.as_str().is_empty() {
            out.push(line);
            assert(data::views(out@) =~= before.push(line@));
        }
        i += 1;
        assert(all.take(i as int).drop_last() =~= all.take(i - 1));
        assert(all.take(i as int).last() == lines@[i - 1]@);
    }
    assert(all.take(i as int) =~= all);
    out
}

/// The answer to where lines came from.
pub open spec fn lineage_result(
    path: Seq<char>,
    start: u32,
    end: u32,
    output: Seq<char>,
) -> JsonView {
    JsonView::Object(
        seq![
            ("path"@, JsonView::String(path)),
            (
                "line_range"@,
                JsonView::Object(
                    seq![
                        ("start"@, JsonView::Number(Number::PosInt(start as u64))),
                        ("end"@, JsonView::Number(Number::PosInt(end as u64))),
                    ],
                ),
            ),
            ("blame_lines"@, json::texts(kept_lines(text::lines_of(output)))),
            ("evidence"@, JsonView::String(bounded_text(output))),
            (
                "method"@,
                JsonView::String(
                    "git blame -w -M -C follows formatting-only changes and detects moved/copied lines where Git can establish them."@,
                ),
            ),
        ],
    )
}

/// The answer to where lines came from, from what git printed.
pub fn lineage_answer(query: &LineageQuery, output: &str) -> (r: Json)
    ensures
        r@ == lineage_result(query.path@, query.start, query.end, output@),
{
    broadcast use json::lemma_view;

    let mut range: Vec<(String, Json)> = Vec::new();
    json::put(&mut range, "start", Json::Number(Number::PosInt(query.start as u64)));
    json::put(&mut range, "end", Json::Number(Number::PosInt(query.end as u64)));
    assert(json::member_views(range@) =~= seq![
        ("start"@, JsonView::Number(Number::PosInt(query.start as u64))),
        ("end"@, JsonView::Number(Number::PosInt(query.end as u64))),
    ]);
    let mut members: Vec<(String, Json)> = Vec::new();
    json::put(&mut members, "path", Json::String(query.path.clone()));
    json::put(&mut members, "line_range", Json::Object(range));
    json::put(&mut members, "blame_lines", json::from_texts(keep_lines(output)));
    json::put(&mut members, "evidence", Json::String(bounded(output)));
    json::put(
        &mut members,
        "method",
        Json::String(
            "git blame -w -M -C follows formatting-only changes and detects moved/copied lines where Git can establish them.".to_owned(),
        ),
    );
    assert(json::member_views(members@) =~= lineage_result(
        query.path@,
        query.start,
        query.end,
        output@,
    )->Object_0);
    Json::Object(members)
}

/// The text that the history is searched for.
pub fn pickaxe_query(request: &HistoryRequest) -> (r: Result<String, String>)
    ensures
        match r {
            Ok(query) => given_text(request@.query) == Some(query@),
            Err(e) => given_text(request@.query) is None && e@
                == "`query` is required for the pickaxe operation."@,
        },
{
    match given(&request.query) {
        Some(query) => Ok(query),
        None => Err("`query` is required for the pickaxe operation.".to_owned()),
    }
}

/// The arguments with which git is asked to search the history.
pub open spec fn pickaxe_arguments_of(
    request: HistoryRequestView,
    query: Seq<char>,
    limit: nat,
) -> Seq<Seq<char>> {
    let start = seq![
        "log"@,
        "--all"@,
        "-"@ + text::decimal(limit),
        "--date=short"@,
        "--format=%H%x1f%ad%x1f%an%x1f%s"@,
        if request.regex {
            "-G"@
        } else {
            "-S"@
        },
        query,
    ];
    match given_text(request.path) {
        Some(path) => start.push("--"@).push(path),
        None => start,
    }
}

/// The arguments with which git is asked to search the history.
pub fn pickaxe_arguments(request: &HistoryRequest, query: &str, limit: usize) -> (r: Vec<String>)
    ensures
        data::views(r@) == pickaxe_arguments_of(request@, query@, limit as nat),
{
    let number = text::decimal_u64(limit as u64);
    let count = text::concat("-", number.as_str());
    let mut arguments: Vec<String> = Vec::new();
    push_text(&mut arguments, "log");
    push_text(&mut arguments, "--all");
    push_text(&mut arguments, count.as_str());
    push_text(&mut arguments, "--date=short");
    push_text(&mut arguments, "--format=%H%x1f%ad%x1f%an%x1f%s");
    push_text(
        &mut arguments,
        if request.regex {
            "-G"
        } else {
            "-S"
        },
    );
    push_text(&mut arguments, query);
    assert(data::views(arguments@) =~= seq![
        "log"@,
        "--all"@,
        count@,
        "--date=short"@,
        "--format=%H%x1f%ad%x1f%an%x1f%s"@,
        if request.regex {
            "-G"@
        } else {
            "-S"@
        },
        query@,
    ]);
    if let Some(path) = given(&request.path) {
        push_text(&mut arguments, "--");
        push_text(&mut arguments, path.as_str());
    }
    arguments
}

/// The answer to a search of the history.
pub open spec fn pickaxe_result(
    request: HistoryRequestView,
    query: Seq<char>,
    output: Seq<char>,
) -> JsonView {
    JsonView::Object(
        seq![
            ("query"@, JsonView::String(query)),
            (
                "query_mode"@,
                JsonView::String(
                    if request.regex {
                        "regex_diff"@
                    } else {
                        "occurrence_change"@
                    },
                ),
            ),
            ("path"@, json::optional_text(request.path)),
            ("commits"@, JsonView::Array(log_records(text::lines_of(output)))),
            (
                "interpretation"@,
                JsonView::String(
                    "A pickaxe hit means the query occurrence count or matching diff changed. Inspect each commit diff to determine whether it introduced or removed the behavior."@,
                ),
            ),
        ],
    )
}

/// The answer to a search of the history, from what git printed.
pub fn pickaxe_answer(request: &HistoryRequest, query: &str, output: &str) -> (r: Json)
    ensures
        r@ == pickaxe_result(request@, query@, output@),
{
    broadcast use json::lemma_view;

    let mode = if request.regex {
        "regex_diff"
    } else {
        "occurrence_change"
    };
    let mut members: Vec<(String, Json)> = Vec::new();
    json::put(&mut members, "query", Json::String(query.to_owned()));
    json::put(&mut members, "query_mode", Json::String(mode.to_owned()));
    json::put(&mut members, "path", json::from_optional(&request.path));
    json::put(&mut members, "commits", Json::Array(parse_log_records(output)));
    json::put(
        &mut members,
        "interpretation",
        Json::String(
            "A pickaxe hit means the query occurrence count or matching diff changed. Inspect each commit diff to determine whether it introduced or removed the behavior.".to_owned(),
        ),
    );
    assert(json::member_views(members@) =~= pickaxe_result(
        request@,
        query@,
        output@,
    )->Object_0);
    Json::Object(members)
}

/// What git is asked about the life of a file.
#[derive(Clone, Copy, Debug, PartialEq, Eq, Structural)]
pub enum BiographyQuery {
    Creation,
    Renames,
    Timeline,
}

/// The arguments with which git is asked about the life of a file.
pub open spec fn biography_arguments_of(
    query: BiographyQuery,
    path: Seq<char>,
    limit: nat,
) -> Seq<Seq<char>> {
    match query {
        BiographyQuery::Creation => seq![
            "log"@,
            "--follow"@,
            "--diff-filter=A"@,
            "--date=short"@,
            "--format=%H%x1f%ad%x1f%an%x1f%s"@,
            "--"@,
            path,
        ],
        BiographyQuery::Renames => seq![
            "log"@,
            "--follow"@,
            "--name-status"@,
            "--diff-filter=R"@,
            "--date=short"@,
            "--format=COMMIT%x1f%H%x1f%ad%x1f%an%x1f%s"@,
            "--"@,
            path,
        ],
        BiographyQuery::Timeline => seq![
            "log"@,
            "--follow"@,
            "--date=short"@,
            "--shortstat"@,
            "-"@ + text::decimal(limit),
            "--format=%H%x1f%ad%x1f%an%x1f%s"@,
            "--"@,
            path,
        ],
    }
}

/// The arguments with which git is asked about the life of a file.
pub fn biography_arguments(query: BiographyQuery, path: &str, limit: usize) -> (r: Vec<String>)
    ensures
        data::views(r@) == biography_arguments_of(query, path@, limit as nat),
{
    let mut arguments: Vec<String> = Vec::new();
    push_text(&mut arguments, "log");
    push_text(&mut arguments, "--follow");
    match query {
        BiographyQuery::Creation => {
            push_text(&mut arguments, "--diff-filter=A");
            push_text(&mut arguments, "--date=short");
            push_text(&mut arguments, "--format=%H%x1f%ad%x1f%an%x1f%s");
        },
        BiographyQuery::Renames => {
            push_text(&mut arguments, "--name-status");
            push_text(&mut arguments, "--diff-filter=R");
            push_text(&mut arguments, "--date=short");
            push_text(&mut arguments, "--format=COMMIT%x1f%H%x1f%ad%x1f%an%x1f%s");
        },
        BiographyQuery::Timeline => {
            let number = text::decimal_u64(limit as u64);
            let count = text::concat("-", number.as_str());
            push_text(&mut arguments, "--date=short");
            push_text(&mut arguments, "--shortstat");
            push_text(&mut arguments, count.as_str());
            push_text(&mut arguments, "--format=%H%x1f%ad%x1f%an%x1f%s");
        },
    }
    push_text(&mut arguments, "--");
    push_text(&mut arguments, path);
    assert(data::views(arguments@) =~= biography_arguments_of(query, path@, limit as nat));
    arguments
}

/// The commit that made a file: the earliest that added it, which the log lists last.
pub open spec fn creation_of(output: Seq<char>) -> JsonView {
    let records = log_records(text::lines_of(output));
    if records.len() == 0 {
        JsonView::Null
    } else {
        records.last()
    }
}

/// The answer to how a file came to be.
pub open spec fn biography_result(
    path: Seq<char>,
    creation: Seq<char>,
    renames: Seq<char>,
    timeline: Seq<char>,
) -> JsonView {
    let commits = settled(timeline_scan(text::lines_of(timeline)));
    JsonView::Object(
        seq![
            ("path"@, JsonView::String(path)),
            ("creation"@, creation_of(creation)),
            ("renames"@, JsonView::Array(rename_scan(text::lines_of(renames)).renames)),
            ("timeline"@, JsonView::Array(commits)),
            ("total_commits"@, json::count(commits.len())),
            (
                "method"@,
                JsonView::String(
                    "git log --follow --find-renames traces the file's recorded rename history."@,
                ),
            ),
        ],
    )
}

/// What an answer says that may be missing.
pub open spec fn text_or_empty(answer: Result<String, String>) -> Seq<char> {
    match answer {
        Ok(printed) => printed@,
        Err(_) => Seq::empty(),
    }
}

/// The answer to how a file came to be. Only its timeline has to be known.
pub fn file_biography(
    path: &str,
    creation: &Result<String, String>,
    renames: &Result<String, String>,
    timeline: &Result<String, String>,
) -> (r: Result<Json, String>)
    ensures
        match timeline {
            Ok(printed) => r matches Ok(answer) && answer@ == biography_result(
                path@,
                text_or_empty(*creation),
                text_or_empty(*renames),
                printed@,
            ),
            Err(reason) => r matches Err(e) && e@ == reason@,
        },
{
    broadcast use json::lemma_view;

    let timeline_text = match timeline {
        Ok(printed) => printed.as_str(),
        Err(reason) => {
            return Err(reason.clone());
        },
    };
    proof {
        reveal_strlit("");
        assert(""@ =~= Seq::<char>::empty());
    }
    let creation_text = match creation {
        Ok(printed) => printed.as_str(),
        Err(_) => "",
    };
    let renames_text = match renames {
        Ok(printed) => printed.as_str(),
        Err(_) => "",
    };
    let mut created = parse_log_records(creation_text);
    let ghost records = data::views(created@);
    assert(records.len() == created@.len());
    let creation_value = match created.pop() {
        Some(record) => {
            assert(records.last() == record@);
            record
        },
        None => Json::Null,
    };
    let commits = parse_timeline(timeline_text);
    let total = commits.len();
    assert(data::views(commits@).len() == total);
    let mut members: Vec<(String, Json)> = Vec::new();
    json::put(&mut members, "path", Json::String(path.to_owned()));
    json::put(&mut members, "creation", creation_value);
    json::put(&mut members, "renames", Json::Array(parse_renames(renames_text)));
    json::put(&mut members, "timeline", Json::Array(commits));
    json::put(&mut members, "total_commits", json::from_count(total));
    json::put(
        &mut members,
        "method",
        Json::String(
            "git log --follow --find-renames traces the file's recorded rename history.".to_owned(),
        ),
    );
    assert(json::member_views(members@) =~= biography_result(
        path@,
        text_or_empty(*creation),
        text_or_empty(*renames),
        timeline_text@,
    )->Object_0);
    Ok(Json::Object(members))
}

/// The commit that a request asks about.
pub fn commit_query(request: &HistoryRequest) -> (r: Result<String, String>)
    ensures
        match r {
            Ok(commit) => given_text(request@.commit) == Some(commit@),
            Err(e) => given_text(request@.commit) is None && e@
                == "`commit` is required for the commit_context operation."@,
        },
{
    match given(&request.commit) {
        Some(commit) => Ok(commit),
        None => Err("`commit` is required for the commit_context operation.".to_owned()),
    }
}

/// The arguments with which git is asked about a commit.
pub fn commit_arguments(commit: &str) -> (r: Vec<String>)
    ensures
        data::views(r@) == seq![
            "show"@,
            "--no-ext-diff"@,
            "--date=short"@,
            "--format=fuller"@,
            "--stat"@,
            "--summary"@,
            commit@,
        ],
{
    let mut arguments: Vec<String> = Vec::new();
    push_text(&mut arguments, "show");
    push_text(&mut arguments, "--no-ext-diff");
    push_text(&mut arguments, "--date=short");
    push_text(&mut arguments, "--format=fuller");
    push_text(&mut arguments, "--stat");
    push_text(&mut arguments, "--summary");
    push_text(&mut arguments, commit);
    assert(data::views(arguments@) =~= seq![
        "show"@,
        "--no-ext-diff"@,
        "--date=short"@,
        "--format=fuller"@,
        "--stat"@,
        "--summary"@,
        commit@,
    ]);
    arguments
}

/// The answer to what a commit changed.
pub open spec fn commit_result(commit: Seq<char>, output: Seq<char>) -> JsonView {
    JsonView::Object(
        seq![
            ("commit"@, JsonView::String(commit)),
            ("evidence"@, JsonView::String(bounded_text(output))),
            (
                "note"@,
                JsonView::String(
                    "This is read-only commit metadata and change statistics. Use a focused Git show only after selecting a relevant commit."@,
                ),
            ),
        ],
    )
}

/// The answer to what a commit changed, from what git printed.
pub fn commit_context(commit: &str, output: &str) -> (r: Json)
    ensures
        r@ == commit_result(commit@, output@),
{
    broadcast use json::lemma_view;

    let mut members: Vec<(String, Json)> = Vec::new();
    json::put(&mut members, "commit", Json::String(commit.to_owned()));
    json::put(&mut members, "evidence", Json::String(bounded(output)));
    json::put(
        &mut members,
        "note",
        Json::String(
            "This is read-only commit metadata and change statistics. Use a focused Git show only after selecting a relevant commit.".to_owned(),
        ),
    );
    assert(json::member_views(members@) =~= commit_result(commit@, output@)->Object_0);
    Json::Object(members)
}

/// The answer of the tool.
pub open spec fn history_answer_of(
    repository: Seq<char>,
    operation: Seq<char>,
    result: JsonView,
) -> JsonView {
    JsonView::Object(
        seq![
            ("repository"@, JsonView::String(repository)),
            ("operation"@, JsonView::String(operation)),
            ("result"@, result),
            (
                "evidence_policy"@,
                JsonView::String(
                    "Every historical claim must be verified against the listed Git commit evidence. Git history alone cannot establish undocumented intent."@,
                ),
            ),
            (
                "still_unknown"@,
                JsonView::String(
                    "Commit messages and diffs may not record the full product or engineering rationale. Do not present unsupported intent as fact."@,
                ),
            ),
        ],
    )
}

/// The answer of the tool, with the answer to the question in it.
pub fn history_answer(repository: String, operation: String, result: Json) -> (r: Json)
    ensures
        r@ == history_answer_of(repository@, operation@, result@),
{
    broadcast use json::lemma_view;

    let mut members: Vec<(String, Json)> = Vec::new();
    json::put(&mut members, "repository", Json::String(repository));
    json::put(&mut members, "operation", Json::String(operation));
    json::put(&mut members, "result", result);
    json::put(
        &mut members,
        "evidence_policy",
        Json::String(
            "Every historical claim must be verified against the listed Git commit evidence. Git history alone cannot establish undocumented intent.".to_owned(),
        ),
    );
    json::put(
        &mut members,
        "still_unknown",
        Json::String(
            "Commit messages and diffs may not record the full product or engineering rationale. Do not present unsupported intent as fact.".to_owned(),
        ),
    );
    assert(json::member_views(members@) =~= history_answer_of(
        repository@,
        operation@,
        result@,
    )->Object_0);
    Json::Object(members)
}

/// Every line with fields in a log with counts is one commit of the timeline, so there are as many
/// commits as such lines.
pub proof fn law_timeline_keeps_every_commit(lines: Seq<Seq<char>>)
    ensures
        settled(timeline_scan(lines)).len() == commit_line_count(lines),
    decreases lines.len(),
{
    if lines.len() > 0 {
        law_timeline_keeps_every_commit(lines.drop_last());
    }
}

/// How many lines hold a commit.
pub open spec fn commit_line_count(lines: Seq<Seq<char>>) -> nat
    decreases lines.len(),
{
    if lines.len() == 0 {
        0
    } else {
        commit_line_count(lines.drop_last()) + (if text::trimmed(lines.last()).len() > 0
            && text::split_of(text::trimmed(lines.last()), '\u{1f}').len() >= 2 {
            1nat
        } else {
            0nat
        })
    }
}

/// Whether a commit is told of by these four texts, under their names.
pub open spec fn tells_commit(
    record: JsonView,
    commit: Seq<char>,
    date: Seq<char>,
    author: Seq<char>,
    subject: Seq<char>,
) -> bool {
    &&& record.at("commit"@) == Some(JsonView::String(commit))
    &&& record.at("date"@) == Some(JsonView::String(date))
    &&& record.at("author"@) == Some(JsonView::String(author))
    &&& record.at("subject"@) == Some(JsonView::String(subject))
}

proof fn lemma_lenient_commit_tells(fields: Seq<Seq<char>>, more: Seq<(Seq<char>, JsonView)>)
    requires
        fields.len() >= 4,
    ensures
        tells_commit(
            JsonView::Object(lenient_commit(fields) + more),
            fields[0],
            fields[1],
            fields[2],
            fields[3],
        ),
{
    let members = lenient_commit(fields) + more;
    lemma_member_names_differ();
    reveal_with_fuel(json::member, 5);
    let second = members.drop_first();
    let third = second.drop_first();
    let fourth = third.drop_first();
    assert(members[0].0 == "commit"@);
    assert(second[0] == members[1]);
    assert(third[0] == members[2]);
    assert(fourth[0] == members[3]);
}

proof fn lemma_member_names_differ()
    ensures
        "commit"@ != "date"@,
        "commit"@ != "author"@,
        "commit"@ != "subject"@,
        "commit"@ != "stat"@,
        "date"@ != "author"@,
        "date"@ != "subject"@,
        "date"@ != "stat"@,
        "author"@ != "subject"@,
        "author"@ != "stat"@,
        "subject"@ != "stat"@,
        "from"@ != "to"@,
        "from"@ != "commit"@,
        "to"@ != "commit"@,
{
    reveal_strlit("commit");
    reveal_strlit("date");
    reveal_strlit("author");
    reveal_strlit("subject");
    reveal_strlit("stat");
    reveal_strlit("from");
    reveal_strlit("to");
    assert("commit"@[0] == 'c');
    assert("date"@[0] == 'd');
    assert("author"@[0] == 'a');
    assert("subject"@[1] == 'u');
    assert("stat"@[1] == 't');
    assert("subject"@[0] == 's');
    assert("stat"@[0] == 's');
    assert("from"@[0] == 'f');
    assert("to"@[0] == 't');
}

/// Where every line of a log has at least four fields there is one record for each line, in the order
/// of the lines, and it tells the first four fields as commit, date, author and subject.
pub proof fn law_each_line_of_a_log_is_a_commit(lines: Seq<Seq<char>>)
    requires
        forall|i: int|
            0 <= i < lines.len() ==> text::split_of(#[trigger] lines[i], '\u{1f}').len() >= 4,
    ensures
        log_records(lines).len() == lines.len(),
        forall|i: int|
            0 <= i < lines.len() ==> {
                let fields = text::split_of(lines[i], '\u{1f}');
                tells_commit(
                    #[trigger] log_records(lines)[i],
                    fields[0],
                    fields[1],
                    fields[2],
                    fields[3],
                )
            },
    decreases lines.len(),
{
    if lines.len() > 0 {
        let earlier = lines.drop_last();
        assert forall|i: int| 0 <= i < earlier.len() implies text::split_of(
            #[trigger] earlier[i],
            '\u{1f}',
        ).len() >= 4 by {
            assert(earlier[i] == lines[i]);
        }
        law_each_line_of_a_log_is_a_commit(earlier);
        let fields = text::split_of(lines.last(), '\u{1f}');
        assert(lines[lines.len() - 1] == lines.last());
        lemma_lenient_commit_tells(fields, Seq::empty());
        assert(lenient_commit(fields) + Seq::empty() =~= lenient_commit(fields));
        let out = log_records(lines);
        assert forall|i: int| 0 <= i < lines.len() implies ({
            let fields = text::split_of(lines[i], '\u{1f}');
            tells_commit(#[trigger] out[i], fields[0], fields[1], fields[2], fields[3])
        }) by {
            if i < earlier.len() {
                assert(out[i] == log_records(earlier)[i]);
                assert(earlier[i] == lines[i]);
            }
        }
    }
}

/// A line with fewer fields is passed over, wherever it stands; the commits before and behind it are
/// the same as without it.
pub proof fn law_other_lines_are_passed_over(
    before: Seq<Seq<char>>,
    line: Seq<char>,
    after: Seq<Seq<char>>,
)
    requires
        text::split_of(line, '\u{1f}').len() < 4,
    ensures
        log_records(before.push(line) + after) == log_records(before) + log_records(after),
    decreases after.len(),
{
    if after.len() == 0 {
        assert(before.push(line) + after =~= before.push(line));
        assert(before.push(line).drop_last() =~= before);
        assert(log_records(before) + log_records(after) =~= log_records(before));
    } else {
        law_other_lines_are_passed_over(before, line, after.drop_last());
        let all = before.push(line) + after;
        assert(all.drop_last() =~= before.push(line) + after.drop_last());
        assert(all.last() == after.last());
        assert(log_records(all) =~= log_records(before) + log_records(after));
    }
}

/// A commit as git prints it for a log: its four texts with a separator between each two.
pub open spec fn printed_commit(
    commit: Seq<char>,
    date: Seq<char>,
    author: Seq<char>,
    subject: Seq<char>,
) -> Seq<char> {
    text::joined(seq![commit, date, author, subject], seq!['\u{1f}'])
}

/// A log that git printed is read back: each commit that was printed is listed, in the order in which
/// it was printed, with its own date, author and subject.
pub proof fn law_printed_log_is_read_back(rows: Seq<(Seq<char>, Seq<char>, Seq<char>, Seq<char>)>)
    requires
        forall|i: int|
            0 <= i < rows.len() ==> is_field((#[trigger] rows[i]).0) && is_field(rows[i].1)
                && is_field(rows[i].2) && is_field(rows[i].3),
    ensures
        ({
            let printed = rows.map_values(
                |row: (Seq<char>, Seq<char>, Seq<char>, Seq<char>)|
                    printed_commit(row.0, row.1, row.2, row.3).push('\n'),
            ).flatten();
            let records = log_records(text::lines_of(printed));
            &&& records.len() == rows.len()
            &&& forall|i: int|
                0 <= i < rows.len() ==> tells_commit(
                    #[trigger] records[i],
                    rows[i].0,
                    rows[i].1,
                    rows[i].2,
                    rows[i].3,
                )
        }),
{
    let lines = rows.map_values(
        |row: (Seq<char>, Seq<char>, Seq<char>, Seq<char>)|
            printed_commit(row.0, row.1, row.2, row.3),
    );
    assert forall|i: int| 0 <= i < lines.len() implies !(#[trigger] lines[i]).contains('\n') && !(
    lines[i].len() > 0 && lines[i].last() == '\r') && text::split_of(lines[i], '\u{1f}') == seq![
        rows[i].0,
        rows[i].1,
        rows[i].2,
        rows[i].3,
    ] by {
        lemma_printed_commit(rows[i].0, rows[i].1, rows[i].2, rows[i].3);
    }
    text::law_written_lines_are_read_back(lines);
    assert(lines.map_values(|line: Seq<char>| line.push('\n')) =~= rows.map_values(
        |row: (Seq<char>, Seq<char>, Seq<char>, Seq<char>)|
            printed_commit(row.0, row.1, row.2, row.3).push('\n'),
    ));
    law_each_line_of_a_log_is_a_commit(lines);
}

/// Whether git can print a text as a field: it holds neither the separator nor a line's end.
pub open spec fn is_field(value: Seq<char>) -> bool {
    !value.contains('\u{1f}') && !value.contains('\n') && !value.contains('\r')
}

proof fn lemma_printed_commit(a: Seq<char>, b: Seq<char>, c: Seq<char>, d: Seq<char>)
    requires
        is_field(a),
        is_field(b),
        is_field(c),
        is_field(d),
    ensures
        !printed_commit(a, b, c, d).contains('\n'),
        !printed_commit(a, b, c, d).contains('\r'),
        text::split_of(printed_commit(a, b, c, d), '\u{1f}') == seq![a, b, c, d],
{
    let pieces = seq![a, b, c, d];
    let sep = seq!['\u{1f}'];
    assert forall|i: int| 0 <= i < pieces.len() implies !(#[trigger] pieces[i]).contains(
        '\u{1f}',
    ) by {
        assert(pieces[0] == a && pieces[1] == b && pieces[2] == c && pieces[3] == d);
    }
    text::law_joined_pieces_are_split(pieces, '\u{1f}');
    let s = printed_commit(a, b, c, d);
    reveal_with_fuel(text::joined, 5);
    let three = pieces.drop_last();
    let two = three.drop_last();
    let one = two.drop_last();
    assert(s =~= a + sep + b + sep + c + sep + d);
    assert forall|i: int| 0 <= i < s.len() implies s[i] != '\n' && s[i] != '\r' by {
        lemma_no_line_end(a, b, c, d, i);
    }
}

proof fn lemma_no_line_end(
    a: Seq<char>,
    b: Seq<char>,
    c: Seq<char>,
    d: Seq<char>,
    i: int,
)
    requires
        is_field(a),
        is_field(b),
        is_field(c),
        is_field(d),
        0 <= i < a.len() + b.len() + c.len() + d.len() + 3,
    ensures
        ({
            let sep = seq!['\u{1f}'];
            let at = (a + sep + b + sep + c + sep + d)[i];
            at != '\n' && at != '\r'
        }),
{
    let sep = seq!['\u{1f}'];
    let s = a + sep + b + sep + c + sep + d;
    let x = a.len() as int;
    let y = x + 1 + b.len();
    let z = y + 1 + c.len();
    if i < x {
        assert(s[i] == a[i]);
        assert(a.contains(a[i]));
    } else if i == x {
        assert(s[i] == '\u{1f}');
    } else if i < y {
        assert(s[i] == b[i - x - 1]);
        assert(b.contains(b[i - x - 1]));
    } else if i == y {
        assert(s[i] == '\u{1f}');
    } else if i < z {
        assert(s[i] == c[i - y - 1]);
        assert(c.contains(c[i - y - 1]));
    } else if i == z {
        assert(s[i] == '\u{1f}');
    } else {
        assert(s[i] == d[i - z - 1]);
        assert(d.contains(d[i - z - 1]));
    }
}

/// A line of the timeline that tells a commit adds it behind those before; the counts that follow it
/// are told with it, and with it alone.
pub proof fn law_counts_go_with_their_commit(
    lines: Seq<Seq<char>>,
    commit: Seq<char>,
    counts: Seq<char>,
)
    requires
        text::trimmed(commit).len() > 0,
        text::split_of(text::trimmed(commit), '\u{1f}').len() >= 4,
        text::trimmed(counts).len() > 0,
        text::split_of(text::trimmed(counts), '\u{1f}').len() < 2,
    ensures
        ({
            let before = settled(timeline_scan(lines));
            let bare = settled(timeline_scan(lines.push(commit)));
            let counted = settled(timeline_scan(lines.push(commit).push(counts)));
            let fields = text::split_of(text::trimmed(commit), '\u{1f}');
            &&& bare.len() == before.len() + 1
            &&& counted.len() == before.len() + 1
            &&& before.is_prefix_of(bare)
            &&& before.is_prefix_of(counted)
            &&& tells_commit(bare.last(), fields[0], fields[1], fields[2], fields[3])
            &&& tells_commit(counted.last(), fields[0], fields[1], fields[2], fields[3])
            &&& bare.last().at("stat"@) == Some(JsonView::String(Seq::empty()))
            &&& counted.last().at("stat"@) == Some(JsonView::String(text::trimmed(counts)))
        }),
{
    let one = lines.push(commit);
    let two = one.push(counts);
    assert(one.drop_last() =~= lines);
    assert(two.drop_last() =~= one);
    let fields = text::split_of(text::trimmed(commit), '\u{1f}');
    lemma_stat_is_told(fields, Seq::empty());
    lemma_stat_is_told(fields, text::trimmed(counts));
}

proof fn lemma_stat_is_told(fields: Seq<Seq<char>>, stat: Seq<char>)
    requires
        fields.len() >= 4,
    ensures
        ({
            let value = JsonView::Object(
                lenient_commit(fields).push(("stat"@, JsonView::String(stat))),
            );
            &&& tells_commit(value, fields[0], fields[1], fields[2], fields[3])
            &&& value.at("stat"@) == Some(JsonView::String(stat))
        }),
{
    let more = seq![("stat"@, JsonView::String(stat))];
    let members = lenient_commit(fields).push(("stat"@, JsonView::String(stat)));
    assert(lenient_commit(fields) + more =~= members);
    lemma_lenient_commit_tells(fields, more);
    lemma_member_names_differ();
    reveal_with_fuel(json::member, 6);
    let second = members.drop_first();
    let third = second.drop_first();
    let fourth = third.drop_first();
    let fifth = fourth.drop_first();
    assert(second[0] == members[1]);
    assert(third[0] == members[2]);
    assert(fourth[0] == members[3]);
    assert(fifth[0] == members[4]);
}

/// A rename that the log tells is listed behind those before, from the old path to the new one, with
/// the commit that was told last.
pub proof fn law_renames_go_with_their_commit(
    lines: Seq<Seq<char>>,
    commit: Seq<char>,
    rename: Seq<char>,
)
    requires
        text::after_prefix(text::trimmed(commit), "COMMIT\u{1f}"@) is Some,
        text::split_of(
            text::after_prefix(text::trimmed(commit), "COMMIT\u{1f}"@)->0,
            '\u{1f}',
        ).len() >= 4,
        text::after_prefix(text::trimmed(rename), "COMMIT\u{1f}"@) is None,
        text::trimmed(rename).len() > 0,
        text::trimmed(rename)[0] == 'R',
        text::split_of(text::trimmed(rename), '\t').len() >= 3,
    ensures
        ({
            let before = rename_scan(lines).renames;
            let after = rename_scan(lines.push(commit).push(rename)).renames;
            let fields = text::split_of(
                text::after_prefix(text::trimmed(commit), "COMMIT\u{1f}"@)->0,
                '\u{1f}',
            );
            let paths = text::split_of(text::trimmed(rename), '\t');
            let told = after.last();
            &&& after.len() == before.len() + 1
            &&& before.is_prefix_of(after)
            &&& told.at("from"@) == Some(JsonView::String(paths[1]))
            &&& told.at("to"@) == Some(JsonView::String(paths[2]))
            &&& told.at("commit"@) is Some
            &&& tells_commit(told.at("commit"@)->0, fields[0], fields[1], fields[2], fields[3])
        }),
{
    let one = lines.push(commit);
    let two = one.push(rename);
    assert(one.drop_last() =~= lines);
    assert(two.drop_last() =~= one);
    let fields = text::split_of(
        text::after_prefix(text::trimmed(commit), "COMMIT\u{1f}"@)->0,
        '\u{1f}',
    );
    lemma_lenient_commit_tells(fields, Seq::empty());
    assert(lenient_commit(fields) + Seq::empty() =~= lenient_commit(fields));
    let paths = text::split_of(text::trimmed(rename), '\t');
    assert(one.last() == commit);
    assert(two.last() == rename);
    let first = rename_scan(one);
    assert(first.renames == rename_scan(lines).renames);
    assert(first.commit == JsonView::Object(lenient_commit(fields)));
    let told = JsonView::Object(
        seq![
            ("from"@, JsonView::String(paths[1])),
            ("to"@, JsonView::String(paths[2])),
            ("commit"@, first.commit),
        ],
    );
    assert(rename_scan(two).renames == first.renames.push(told));
    lemma_member_names_differ();
    reveal_with_fuel(json::member, 4);
    let members = told->Object_0;
    assert(members.drop_first()[0] == members[1]);
    assert(members.drop_first().drop_first()[0] == members[2]);
}

/// Evidence of up to sixteen thousand bytes is given whole but for white space around it; of more its
/// beginning is, as much as fits, and it is said that it was cut.
pub proof fn law_long_evidence_is_cut(value: Seq<char>)
    ensures
        text::utf8_len(value) <= 16_000 ==> bounded_text(value) == text::trimmed(value),
        text::utf8_len(value) > 16_000 ==> exists|kept: Seq<char>|
            {
                &&& kept.is_prefix_of(value)
                &&& text::utf8_len(kept) <= 16_000
                &&& kept.len() < value.len() ==> text::utf8_len(value.take(kept.len() as int + 1))
                    > 16_000
                &&& bounded_text(value) == #[trigger] text::trimmed(kept)
                    + "\n\n[output truncated to 16000 characters]"@
            },
{
    if text::utf8_len(value) > 16_000 {
        text::law_longest_parts_fit(value, 16_000);
        let kept = text::prefix_within(value, 16_000);
        assert(bounded_text(value) == text::trimmed(kept)
            + "\n\n[output truncated to 16000 characters]"@);
    }
}

/// A request for the origin of lines is for the lines that it gives; with one of them missing for the
/// other alone, and with both for the first.
pub proof fn law_lines_are_those_asked_for(request: HistoryRequestView)
    ensures
        request.start_line matches Some(start) ==> lineage_range(request).0 == start,
        request.start_line is None ==> lineage_range(request).0 == 1,
        request.end_line matches Some(end) ==> lineage_range(request).1 == end,
        request.end_line is None ==> lineage_range(request).1 == lineage_range(request).0,
{
}

/// The answer to where lines came from tells the file, the lines, each line that git printed and the
/// evidence.
pub proof fn law_lineage_is_answered(path: Seq<char>, start: u32, end: u32, output: Seq<char>)
    ensures
        ({
            let answer = lineage_result(path, start, end, output);
            &&& answer.at("path"@) == Some(JsonView::String(path))
            &&& answer.at("line_range"@) matches Some(range) && range.at("start"@) == Some(
                JsonView::Number(Number::PosInt(start as u64)),
            ) && range.at("end"@) == Some(JsonView::Number(Number::PosInt(end as u64)))
            &&& answer.at("evidence"@) == Some(JsonView::String(bounded_text(output)))
            &&& answer.at("blame_lines"@) == Some(json::texts(kept_lines(text::lines_of(output))))
        }),
{
    reveal_strlit("path");
    assert("path"@.len() == 4);
    reveal_strlit("line_range");
    assert("line_range"@.len() == 10);
    reveal_strlit("blame_lines");
    assert("blame_lines"@.len() == 11);
    reveal_strlit("evidence");
    assert("evidence"@.len() == 8);
    reveal_strlit("method");
    assert("method"@.len() == 6);
    reveal_strlit("start");
    assert("start"@.len() == 5);
    reveal_strlit("end");
    assert("end"@.len() == 3);
    let members = lineage_result(path, start, end, output)->Object_0;
    let range = members[1].1->Object_0;
    json::lemma_member_at(members, 0);
    json::lemma_member_at(members, 1);
    json::lemma_member_at(members, 2);
    json::lemma_member_at(members, 3);
    json::lemma_member_at(range, 0);
    json::lemma_member_at(range, 1);
}

/// Lines are kept in their order, without the white space at their end; lines of nothing else are not.
pub proof fn law_lines_are_kept_in_order(lines: Seq<Seq<char>>, line: Seq<char>)
    ensures
        text::trim_end(line).len() > 0 ==> kept_lines(lines.push(line)) == kept_lines(lines).push(
            text::trim_end(line),
        ),
        text::trim_end(line).len() == 0 ==> kept_lines(lines.push(line)) == kept_lines(lines),
{
    assert(lines.push(line).drop_last() =~= lines);
}

/// Git is asked for the text of a search, as an expression where the user says so, for so many commits
/// and for the path alone where one is given.
pub proof fn law_git_is_asked_for_the_text(
    request: HistoryRequestView,
    query: Seq<char>,
    limit: nat,
)
    ensures
        ({
            let asked = pickaxe_arguments_of(request, query, limit);
            &&& asked[0] == "log"@
            &&& asked[2] == "-"@ + text::decimal(limit)
            &&& request.regex ==> asked[5] == "-G"@
            &&& !request.regex ==> asked[5] == "-S"@
            &&& asked[6] == query
            &&& given_text(request.path) matches Some(path) ==> asked.len() == 9 && asked[7]
                == "--"@ && asked[8] == path
            &&& given_text(request.path) is None ==> asked.len() == 7
        }),
{
}

/// The answer to a search of the history tells what was searched for, how, where, and the commits that
/// git listed.
pub proof fn law_search_of_the_history_is_answered(
    request: HistoryRequestView,
    query: Seq<char>,
    output: Seq<char>,
)
    ensures
        ({
            let answer = pickaxe_result(request, query, output);
            &&& answer.at("query"@) == Some(JsonView::String(query))
            &&& request.regex ==> answer.at("query_mode"@) == Some(JsonView::String("regex_diff"@))
            &&& !request.regex ==> answer.at("query_mode"@) == Some(
                JsonView::String("occurrence_change"@),
            )
            &&& answer.at("path"@) == Some(json::optional_text(request.path))
            &&& answer.at("commits"@) == Some(
                JsonView::Array(log_records(text::lines_of(output))),
            )
        }),
{
    reveal_strlit("query");
    assert("query"@.len() == 5);
    reveal_strlit("query_mode");
    assert("query_mode"@.len() == 10);
    reveal_strlit("path");
    assert("path"@.len() == 4);
    reveal_strlit("commits");
    assert("commits"@.len() == 7);
    reveal_strlit("interpretation");
    assert("interpretation"@.len() == 14);
    let members = pickaxe_result(request, query, output)->Object_0;
    json::lemma_member_at(members, 0);
    json::lemma_member_at(members, 1);
    json::lemma_member_at(members, 2);
    json::lemma_member_at(members, 3);
}

/// Whatever is asked about the life of a file, git is asked to follow it, and for its path last; the
/// timeline is limited.
pub proof fn law_git_is_asked_to_follow_the_file(
    query: BiographyQuery,
    path: Seq<char>,
    limit: nat,
)
    ensures
        ({
            let asked = biography_arguments_of(query, path, limit);
            &&& asked.len() >= 7
            &&& asked[0] == "log"@
            &&& asked[1] == "--follow"@
            &&& asked[asked.len() - 2] == "--"@
            &&& asked.last() == path
            &&& query is Creation ==> asked[2] == "--diff-filter=A"@
            &&& query is Renames ==> asked[3] == "--diff-filter=R"@
            &&& query is Timeline ==> asked[4] == "-"@ + text::decimal(limit)
        }),
{
}

/// The commit that made a file is the last one that the log of additions lists, whatever stands before
/// it.
pub proof fn law_earliest_commit_made_the_file(output: Seq<char>)
    ensures
        ({
            let records = log_records(text::lines_of(output));
            &&& records.len() > 0 ==> creation_of(output) == records[records.len() - 1]
            &&& records.len() == 0 ==> creation_of(output) is Null
        }),
{
}

/// The answer to how a file came to be tells the commit that made it, its renames, its commits and how
/// many those are, each from what git printed for it.
pub proof fn law_life_of_a_file_is_answered(
    path: Seq<char>,
    creation: Seq<char>,
    renames: Seq<char>,
    timeline: Seq<char>,
)
    ensures
        ({
            let answer = biography_result(path, creation, renames, timeline);
            let commits = settled(timeline_scan(text::lines_of(timeline)));
            &&& answer.at("path"@) == Some(JsonView::String(path))
            &&& answer.at("creation"@) == Some(creation_of(creation))
            &&& answer.at("renames"@) == Some(
                JsonView::Array(rename_scan(text::lines_of(renames)).renames),
            )
            &&& answer.at("timeline"@) == Some(JsonView::Array(commits))
            &&& answer.at("total_commits"@) == Some(json::count(commits.len()))
        }),
{
    reveal_strlit("path");
    assert("path"@.len() == 4);
    reveal_strlit("creation");
    assert("creation"@.len() == 8);
    reveal_strlit("renames");
    assert("renames"@.len() == 7);
    reveal_strlit("timeline");
    assert("timeline"@.len() == 8);
    reveal_strlit("total_commits");
    assert("total_commits"@.len() == 13);
    reveal_strlit("method");
    assert("method"@.len() == 6);
    assert("timeline"@[0] != "creation"@[0]);
    let members = biography_result(path, creation, renames, timeline)->Object_0;
    json::lemma_member_at(members, 0);
    json::lemma_member_at(members, 1);
    json::lemma_member_at(members, 2);
    json::lemma_member_at(members, 3);
    json::lemma_member_at(members, 4);
}

/// The answer to what a commit changed tells the commit and the evidence; the answer of the tool tells
/// the repository, the question and the answer to it.
pub proof fn law_answers_name_their_question(
    commit: Seq<char>,
    output: Seq<char>,
    repository: Seq<char>,
    operation: Seq<char>,
    result: JsonView,
)
    ensures
        commit_result(commit, output).at("commit"@) == Some(JsonView::String(commit)),
        commit_result(commit, output).at("evidence"@) == Some(
            JsonView::String(bounded_text(output)),
        ),
        history_answer_of(repository, operation, result).at("repository"@) == Some(
            JsonView::String(repository),
        ),
        history_answer_of(repository, operation, result).at("operation"@) == Some(
            JsonView::String(operation),
        ),
        history_answer_of(repository, operation, result).at("result"@) == Some(result),
{
    reveal_strlit("commit");
    assert("commit"@.len() == 6);
    reveal_strlit("evidence");
    assert("evidence"@.len() == 8);
    reveal_strlit("note");
    assert("note"@.len() == 4);
    reveal_strlit("repository");
    assert("repository"@.len() == 10);
    reveal_strlit("operation");
    assert("operation"@.len() == 9);
    reveal_strlit("result");
    assert("result"@.len() == 6);
    assert("result"@[0] != "commit"@[0]);
    let told = commit_result(commit, output)->Object_0;
    let answer = history_answer_of(repository, operation, result)->Object_0;
    json::lemma_member_at(told, 0);
    json::lemma_member_at(told, 1);
    json::lemma_member_at(answer, 0);
    json::lemma_member_at(answer, 1);
    json::lemma_member_at(answer, 2);
}

} // verus!
