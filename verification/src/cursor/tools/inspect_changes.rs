//! What changed in a repository since its last commit, within a budget of characters.
use crate::collections::NameMap;
use crate::data;
use crate::json;
use crate::json::{Json, JsonView};
use crate::text;
use vstd::prelude::*;

verus! {

/// How many characters of differences are shown.
pub const MAX_OUTPUT_CHARS: usize = 8_000;

/// How many lines of a new file are shown where it is asked for.
pub const MAX_UNTRACKED_FILE_LINES: usize = 40;

/// How many lines of a new file are shown among other changes.
pub const MAX_PREVIEW_LINES: usize = 20;

/// How large a file may be to be read.
pub const MAX_FILE_READ_BYTES: u64 = 5_000_000;

/// How many changed files are listed.
pub const MAX_CHANGED_FILES_SUMMARY: usize = 100;

/// What a git command printed, and whether it succeeded.
#[derive(Debug)]
pub struct GitText {
    pub success: bool,
    pub stdout: String,
    pub stderr: String,
}

#[verifier::ext_equal]
pub struct GitTextView {
    pub success: bool,
    pub stdout: Seq<char>,
    pub stderr: Seq<char>,
}

impl View for GitText {
    type V = GitTextView;

    open spec fn view(&self) -> GitTextView {
        GitTextView { success: self.success, stdout: self.stdout@, stderr: self.stderr@ }
    }
}

impl GitText {
    /// What a git command printed, from its bytes.
    pub fn read(success: bool, stdout: &[u8], stderr: &[u8]) -> (r: Self)
        ensures
            r@ == (GitTextView {
                success,
                stdout: text::lenient(stdout@),
                stderr: text::lenient(stderr@),
            }),
    {
        GitText { success, stdout: text::lossy_text(stdout), stderr: text::lossy_text(stderr) }
    }
}

/// Whether the differences of a file are of no use to a reader.
pub open spec fn noise(path: Seq<char>) -> bool {
    let lower = text::lowercase(path);
    ||| text::ends(lower, ".lock"@)
    ||| text::ends(lower, "package-lock.json"@)
    ||| text::ends(lower, "pnpm-lock.yaml"@)
    ||| text::ends(lower, "yarn.lock"@)
    ||| text::ends(lower, ".png"@)
    ||| text::ends(lower, ".jpg"@)
    ||| text::ends(lower, ".jpeg"@)
    ||| text::ends(lower, ".ico"@)
    ||| text::ends(lower, ".pdf"@)
    ||| text::ends(lower, ".wasm"@)
    ||| text::ends(lower, ".exe"@)
    ||| text::ends(lower, ".dll"@)
    ||| text::ends(lower, ".so"@)
}

/// Whether the differences of a file are of no use to a reader: lock files, images and binaries.
pub fn is_noise_file(path: &str) -> (r: bool)
    ensures
        r == noise(path@),
{
    let lowered = text::to_lowercase(path);
    let lower = lowered.as_str();
    text::ends_with(lower, ".lock") || text::ends_with(lower, "package-lock.json")
        || text::ends_with(lower, "pnpm-lock.yaml") || text::ends_with(lower, "yarn.lock")
        || text::ends_with(lower, ".png") || text::ends_with(lower, ".jpg") || text::ends_with(
        lower,
        ".jpeg",
    ) || text::ends_with(lower, ".ico") || text::ends_with(lower, ".pdf") || text::ends_with(
        lower,
        ".wasm",
    ) || text::ends_with(lower, ".exe") || text::ends_with(lower, ".dll") || text::ends_with(
        lower,
        ".so",
    )
}

/// The path that an inspection is asked for.
pub fn inspected_path(path: &str) -> (r: Result<String, String>)
    ensures
        match r {
            Ok(p) => !text::blank(path@) && p@ == text::trimmed(path@),
            Err(e) => text::blank(path@) && e@ == "The `path` parameter must not be empty."@,
        },
{
    if text::is_blank(path) {
        Err("The `path` parameter must not be empty.".to_owned())
    } else {
        Ok(text::trim(path))
    }
}

/// The directory in which git is asked, and the file, if the inspection is of one.
#[derive(Debug)]
pub struct InspectTarget {
    pub directory: String,
    pub file: Option<String>,
}

#[verifier::ext_equal]
pub struct InspectTargetView {
    pub directory: Seq<char>,
    pub file: Option<Seq<char>>,
}

impl View for InspectTarget {
    type V = InspectTargetView;

    open spec fn view(&self) -> InspectTargetView {
        InspectTargetView { directory: self.directory@, file: data::option_view(self.file) }
    }
}

/// The target of an inspection: a directory is inspected whole; anything else that is a file or has
/// a parent is inspected as a file in that parent.
pub open spec fn target_of(
    path: Seq<char>,
    is_dir: bool,
    is_file: bool,
    has_parent: bool,
    parent: Option<Seq<char>>,
) -> InspectTargetView {
    if !is_dir && (is_file || has_parent) {
        InspectTargetView {
            directory: match parent {
                Some(parent) => if parent.len() == 0 {
                    "."@
                } else {
                    parent
                },
                None => "."@,
            },
            file: Some(path),
        }
    } else {
        InspectTargetView { directory: path, file: None }
    }
}

/// The target of an inspection, from what the file system says of its path.
pub fn inspect_target(
    path: &str,
    is_dir: bool,
    is_file: bool,
    has_parent: bool,
    parent: Option<&str>,
) -> (r: InspectTarget)
    ensures
        r@ == target_of(
            path@,
            is_dir,
            is_file,
            has_parent,
            match parent {
                Some(parent) => Some(parent@),
                None => None,
            },
        ),
{
    if !is_dir && (is_file || has_parent) {
        let directory = match parent {
            Some(parent) => if parent.is_empty() {
                ".".to_owned()
            } else {
                parent.to_owned()
            },
            None => ".".to_owned(),
        };
        InspectTarget { directory, file: Some(path.to_owned()) }
    } else {
        InspectTarget { directory: path.to_owned(), file: None }
    }
}

/// The root of the repository, from what `git rev-parse --show-toplevel` printed.
pub open spec fn root_of(output: Option<GitTextView>) -> Option<Seq<char>> {
    match output {
        Some(output) => if output.success && !text::blank(output.stdout) {
            Some(text::trimmed(output.stdout))
        } else {
            None
        },
        None => None,
    }
}

/// The root of the repository, from what `git rev-parse --show-toplevel` printed, if it ran.
pub fn repository_root(output: &Option<GitText>) -> (r: Option<String>)
    ensures
        data::option_view(r) == root_of(data::option_view(*output)),
{
    match output {
        Some(output) => if output.success && !text::is_blank(output.stdout.as_str()) {
            Some(text::trim(output.stdout.as_str()))
        } else {
            None
        },
        None => None,
    }
}

/// The answer for a path outside any repository.
pub open spec fn outside_repository(path: Seq<char>) -> JsonView {
    JsonView::Object(
        seq![
            ("is_git_repo"@, JsonView::Bool(false)),
            ("path"@, JsonView::String(path)),
            (
                "message"@,
                JsonView::String(
                    "The path `"@ + path
                        + "` is not a git repository or not inside a git repository."@,
                ),
            ),
        ],
    )
}

/// The answer for a path outside any repository.
pub fn not_a_repository(path: &str) -> (r: Json)
    ensures
        r@ == outside_repository(path@),
{
    broadcast use json::lemma_view;

    let mut members: Vec<(String, Json)> = Vec::new();
    let message = text::concat3(
        "The path `",
        path,
        "` is not a git repository or not inside a git repository.",
    );
    json::put(&mut members, "is_git_repo", Json::Bool(false));
    json::put(&mut members, "path", Json::String(path.to_owned()));
    json::put(&mut members, "message", Json::String(message));
    assert(json::member_views(members@) =~= outside_repository(path@)->Object_0);
    Json::Object(members)
}

/// What is known of the branch after asking for the current one.
#[derive(Debug)]
pub enum BranchStep {
    Known(Option<String>),
    AskCommit,
}

#[verifier::ext_equal]
pub enum BranchStepView {
    Known(Option<Seq<char>>),
    AskCommit,
}

impl View for BranchStep {
    type V = BranchStepView;

    open spec fn view(&self) -> BranchStepView {
        match self {
            BranchStep::Known(name) => BranchStepView::Known(data::option_view(*name)),
            BranchStep::AskCommit => BranchStepView::AskCommit,
        }
    }
}

/// The branch, from what `git branch --show-current` printed, if it ran: with nothing printed no
/// branch is checked out, and the commit is asked for.
pub fn branch_name(current: &Option<GitText>) -> (r: BranchStep)
    ensures
        r@ == (match data::option_view(*current) {
            Some(output) => if !output.success {
                BranchStepView::Known(None)
            } else if text::blank(output.stdout) {
                BranchStepView::AskCommit
            } else {
                BranchStepView::Known(Some(text::trimmed(output.stdout)))
            },
            None => BranchStepView::Known(None),
        }),
{
    match current {
        Some(output) => if !output.success {
            BranchStep::Known(None)
        } else if text::is_blank(output.stdout.as_str()) {
            BranchStep::AskCommit
        } else {
            BranchStep::Known(Some(text::trim(output.stdout.as_str())))
        },
        None => BranchStep::Known(None),
    }
}

/// What stands for the branch where none is checked out, from what
/// `git rev-parse --short HEAD` printed, if it ran.
pub fn detached_name(commit: &Option<GitText>) -> (r: Option<String>)
    ensures
        data::option_view(r) == (match data::option_view(*commit) {
            Some(output) => if output.success {
                Some("HEAD ("@ + text::trimmed(output.stdout) + ")"@)
            } else {
                None
            },
            None => None,
        }),
{
    match commit {
        Some(output) => if output.success {
            let commit = text::trim(output.stdout.as_str());
            Some(text::concat3("HEAD (", commit.as_str(), ")"))
        } else {
            None
        },
        None => None,
    }
}

/// The path of a file inside its repository, with slashes: a relative path as it is, an absolute one
/// without the root, if the root leads to it as written or once links are followed.
pub open spec fn relative_path(
    target: Seq<char>,
    is_relative: bool,
    stripped: Option<Seq<char>>,
    stripped_canonical: Option<Seq<char>>,
) -> Seq<char> {
    if is_relative {
        text::replaced(target, '\\', '/')
    } else {
        match stripped {
            Some(inner) => text::replaced(inner, '\\', '/'),
            None => match stripped_canonical {
                Some(inner) => text::replaced(
                    text::without_prefixes(inner, "\\\\?\\"@),
                    '\\',
                    '/',
                ),
                None => text::replaced(target, '\\', '/'),
            },
        }
    }
}

/// The path of a file inside its repository, from what the paths say of each other.
pub fn to_repo_relative_path(
    target: &str,
    is_relative: bool,
    stripped: Option<&str>,
    stripped_canonical: Option<&str>,
) -> (r: String)
    ensures
        r@ == relative_path(
            target@,
            is_relative,
            match stripped {
                Some(s) => Some(s@),
                None => None,
            },
            match stripped_canonical {
                Some(s) => Some(s@),
                None => None,
            },
        ),
{
    if is_relative {
        return text::replace(target, '\\', '/');
    }
    match stripped {
        Some(inner) => text::replace(inner, '\\', '/'),
        None => match stripped_canonical {
            Some(inner) => {
                proof {
                    reveal_strlit("\\\\?\\");
                }
                let shorter = text::strip_prefixes(inner, "\\\\?\\");
                text::replace(shorter.as_str(), '\\', '/')
            },
            None => text::replace(target, '\\', '/'),
        },
    }
}

/// What git is asked to compare.
#[derive(Clone, Copy, Debug, PartialEq, Eq, Structural)]
pub enum DiffQuery {
    /// The working tree with the last commit.
    Head,
    /// The working tree with the index.
    Unstaged,
    /// The index with the last commit.
    Cached,
}

/// How far the search for the differences has come.
#[derive(Debug)]
pub enum DiffPhase {
    Head,
    AfterHead { stderr: String },
    Cached,
    AfterCached { cached: String },
}

#[verifier::ext_equal]
pub enum DiffPhaseView {
    Head,
    AfterHead { stderr: Seq<char> },
    Cached,
    AfterCached { cached: Seq<char> },
}

impl View for DiffPhase {
    type V = DiffPhaseView;

    open spec fn view(&self) -> DiffPhaseView {
        match self {
            DiffPhase::Head => DiffPhaseView::Head,
            DiffPhase::AfterHead { stderr } => DiffPhaseView::AfterHead { stderr: stderr@ },
            DiffPhase::Cached => DiffPhaseView::Cached,
            DiffPhase::AfterCached { cached } => DiffPhaseView::AfterCached { cached: cached@ },
        }
    }
}

impl DiffPhaseView {
    /// What git is asked for in this phase.
    pub open spec fn asks(self) -> DiffQuery {
        match self {
            DiffPhaseView::Head => DiffQuery::Head,
            DiffPhaseView::AfterHead { .. } => DiffQuery::Unstaged,
            DiffPhaseView::Cached => DiffQuery::Cached,
            DiffPhaseView::AfterCached { .. } => DiffQuery::Unstaged,
        }
    }
}

/// What follows an answer of git.
#[derive(Debug)]
pub enum DiffStep {
    Ask(DiffPhase),
    Done(Result<String, String>),
}

#[verifier::ext_equal]
pub enum DiffStepView {
    Ask(DiffPhaseView),
    Done(Result<Seq<char>, Seq<char>>),
}

impl View for DiffStep {
    type V = DiffStepView;

    open spec fn view(&self) -> DiffStepView {
        match self {
            DiffStep::Ask(phase) => DiffStepView::Ask(phase@),
            DiffStep::Done(result) => DiffStepView::Done(crate::error::result_view(*result)),
        }
    }
}

/// What follows where the comparison with the last commit failed: a repository without commits has
/// its index and its working tree compared instead.
pub open spec fn without_head(stderr: Seq<char>) -> DiffStepView {
    if text::contains_text(stderr, "bad revision 'HEAD'"@) || text::contains_text(
        stderr,
        "unknown revision"@,
    ) {
        DiffStepView::Ask(DiffPhaseView::Cached)
    } else {
        DiffStepView::Done(Err("git diff error: "@ + stderr))
    }
}

/// What a command printed, if it succeeded, else nothing.
pub open spec fn printed(output: GitTextView) -> Seq<char> {
    if output.success {
        output.stdout
    } else {
        Seq::empty()
    }
}

/// What follows an answer of git, or the reason why it could not be asked.
pub open spec fn diff_step(
    phase: DiffPhaseView,
    outcome: Result<GitTextView, Seq<char>>,
) -> DiffStepView {
    match outcome {
        Err(reason) => DiffStepView::Done(
            Err(
                (if phase is Cached {
                    "failed to spawn git diff --cached: "@
                } else {
                    "failed to spawn git diff: "@
                }) + reason,
            ),
        ),
        Ok(output) => match phase {
            DiffPhaseView::Head => if !output.success {
                without_head(output.stderr)
            } else if output.stdout.len() > 0 {
                DiffStepView::Done(Ok(output.stdout))
            } else {
                DiffStepView::Ask(DiffPhaseView::AfterHead { stderr: output.stderr })
            },
            DiffPhaseView::AfterHead { stderr } => if output.success {
                DiffStepView::Done(Ok(output.stdout))
            } else {
                without_head(stderr)
            },
            DiffPhaseView::Cached => DiffStepView::Ask(
                DiffPhaseView::AfterCached { cached: printed(output) },
            ),
            DiffPhaseView::AfterCached { cached } => DiffStepView::Done(
                Ok(cached + printed(output)),
            ),
        },
    }
}

fn after_head_failed(stderr: String) -> (r: DiffStep)
    ensures
        r@ == without_head(stderr@),
{
    if text::contains(stderr.as_str(), "bad revision 'HEAD'") || text::contains(
        stderr.as_str(),
        "unknown revision",
    ) {
        DiffStep::Ask(DiffPhase::Cached)
    } else {
        DiffStep::Done(Err(text::concat("git diff error: ", stderr.as_str())))
    }
}

impl DiffPhase {
    /// What git is asked for in this phase.
    pub fn query(&self) -> (r: DiffQuery)
        ensures
            r == self@.asks(),
    {
        match self {
            DiffPhase::Head => DiffQuery::Head,
            DiffPhase::AfterHead { .. } => DiffQuery::Unstaged,
            DiffPhase::Cached => DiffQuery::Cached,
            DiffPhase::AfterCached { .. } => DiffQuery::Unstaged,
        }
    }

    /// What follows an answer of git, or the reason why it could not be asked.
    pub fn on_output(self, outcome: Result<GitText, String>) -> (r: DiffStep)
        ensures
            r@ == diff_step(self@, crate::error::result_view(outcome)),
    {
        let output = match outcome {
            Ok(output) => output,
            Err(reason) => {
                let prefix = match self {
                    DiffPhase::Cached => "failed to spawn git diff --cached: ",
                    _ => "failed to spawn git diff: ",
                };
                return DiffStep::Done(Err(text::concat(prefix, reason.as_str())));
            },
        };
        match self {
            DiffPhase::Head => if !output.success {
                after_head_failed(output.stderr)
            } else if !output.stdout.as_str().is_empty() {
                DiffStep::Done(Ok(output.stdout))
            } else {
                DiffStep::Ask(DiffPhase::AfterHead { stderr: output.stderr })
            },
            DiffPhase::AfterHead { stderr } => if output.success {
                DiffStep::Done(Ok(output.stdout))
            } else {
                after_head_failed(stderr)
            },
            DiffPhase::Cached => if output.success {
                DiffStep::Ask(DiffPhase::AfterCached { cached: output.stdout })
            } else {
                DiffStep::Ask(DiffPhase::AfterCached { cached: String::new() })
            },
            DiffPhase::AfterCached { cached } => if output.success {
                DiffStep::Done(Ok(text::concat(cached.as_str(), output.stdout.as_str())))
            } else {
                assert(cached@ + Seq::<char>::empty() =~= cached@);
                DiffStep::Done(Ok(cached))
            },
        }
    }
}

/// The number of answers that a phase can still take.
pub open spec fn diff_questions_left(phase: DiffPhaseView) -> int {
    match phase {
        DiffPhaseView::Head => 4,
        DiffPhaseView::AfterHead { .. } => 3,
        DiffPhaseView::Cached => 2,
        DiffPhaseView::AfterCached { .. } => 1,
    }
}

/// The search for the differences ends after at most four questions, whatever git answers.
pub proof fn law_diff_search_ends(phase: DiffPhaseView, outcome: Result<GitTextView, Seq<char>>)
    ensures
        match diff_step(phase, outcome) {
            DiffStepView::Ask(next) => 0 < diff_questions_left(next) < diff_questions_left(phase),
            DiffStepView::Done(_) => true,
        },
        diff_questions_left(DiffPhaseView::Head) == 4,
{
}

/// The arguments with which git is asked for differences.
pub open spec fn diff_arguments_of(
    workspace: Seq<char>,
    query: DiffQuery,
    file: Option<Seq<char>>,
) -> Seq<Seq<char>> {
    let start = seq!["-C"@, workspace, "diff"@];
    let compared = match query {
        DiffQuery::Head => start.push("HEAD"@),
        DiffQuery::Unstaged => start,
        DiffQuery::Cached => start.push("--cached"@),
    };
    let options = compared.push("--ignore-space-at-eol"@).push("--ignore-cr-at-eol"@).push("-U3"@);
    match file {
        Some(file) => options.push("--"@).push(file),
        None => options,
    }
}

fn push_text(items: &mut Vec<String>, item: &str)
    ensures
        data::views(final(items)@) == data::views(old(items)@).push(item@),
{
    items.push(item.to_owned());
    assert(data::views(items@) =~= data::views(old(items)@).push(item@));
}

/// The arguments with which git is asked for differences.
pub fn diff_arguments(workspace: &str, query: DiffQuery, file: Option<&str>) -> (r: Vec<String>)
    ensures
        data::views(r@) == diff_arguments_of(
            workspace@,
            query,
            match file {
                Some(file) => Some(file@),
                None => None,
            },
        ),
{
    let mut arguments: Vec<String> = Vec::new();
    push_text(&mut arguments, "-C");
    push_text(&mut arguments, workspace);
    push_text(&mut arguments, "diff");
    assert(data::views(arguments@) =~= seq!["-C"@, workspace@, "diff"@]);
    match query {
        DiffQuery::Head => push_text(&mut arguments, "HEAD"),
        DiffQuery::Unstaged => {},
        DiffQuery::Cached => push_text(&mut arguments, "--cached"),
    }
    push_text(&mut arguments, "--ignore-space-at-eol");
    push_text(&mut arguments, "--ignore-cr-at-eol");
    push_text(&mut arguments, "-U3");
    if let Some(file) = file {
        push_text(&mut arguments, "--");
        push_text(&mut arguments, file);
    }
    arguments
}

/// Whether a file is one whose content is shown.
pub fn is_previewable(is_regular_file: bool, length: u64) -> (r: bool)
    ensures
        r == (is_regular_file && length <= MAX_FILE_READ_BYTES),
{
    is_regular_file && length <= MAX_FILE_READ_BYTES
}

/// An inspection of one file.
#[derive(Debug)]
pub struct SingleFile {
    pub workspace: String,
    pub target: String,
    pub branch: Option<String>,
}

#[verifier::ext_equal]
pub struct SingleFileView {
    pub workspace: Seq<char>,
    pub target: Seq<char>,
    pub branch: Option<Seq<char>>,
}

impl View for SingleFile {
    type V = SingleFileView;

    open spec fn view(&self) -> SingleFileView {
        SingleFileView {
            workspace: self.workspace@,
            target: self.target@,
            branch: data::option_view(self.branch),
        }
    }
}

/// What the inspection of a file does next.
#[derive(Debug)]
pub enum FileStep {
    Done(Json),
    AskStatus,
    ReadFile,
}

#[verifier::ext_equal]
pub enum FileStepView {
    Done(JsonView),
    AskStatus,
    ReadFile,
}

impl View for FileStep {
    type V = FileStepView;

    open spec fn view(&self) -> FileStepView {
        match self {
            FileStep::Done(value) => FileStepView::Done(value@),
            FileStep::AskStatus => FileStepView::AskStatus,
            FileStep::ReadFile => FileStepView::ReadFile,
        }
    }
}

/// The first lines of a text, at most `count` of them.
pub open spec fn first_lines(s: Seq<char>, count: int) -> Seq<Seq<char>> {
    let lines = text::lines_of(s);
    if lines.len() <= count {
        lines
    } else {
        lines.take(count)
    }
}

impl SingleFileView {
    /// What every answer on a file begins with.
    pub open spec fn head(self) -> Seq<(Seq<char>, JsonView)> {
        seq![
            ("is_git_repo"@, JsonView::Bool(true)),
            ("branch"@, json::optional_text(self.branch)),
            ("path"@, JsonView::String(self.workspace)),
            ("target_file"@, JsonView::String(self.target)),
        ]
    }

    /// The answer for a file with changes.
    pub open spec fn changed(
        self,
        status: Option<Seq<char>>,
        diff: Seq<char>,
        truncated: bool,
    ) -> JsonView {
        let flagged = self.head().push(("has_changes"@, JsonView::Bool(true)));
        let described = match status {
            Some(status) => flagged.push(("status"@, JsonView::String(status))),
            None => flagged,
        };
        JsonView::Object(
            described.push(("diff"@, JsonView::String(diff))).push(
                ("truncated"@, JsonView::Bool(truncated)),
            ),
        )
    }

    /// The answer for a file without changes.
    pub open spec fn unchanged(self) -> JsonView {
        JsonView::Object(
            self.head().push(("has_changes"@, JsonView::Bool(false))).push(
                ("message"@, JsonView::String("No changes found for this file."@)),
            ),
        )
    }

    /// What follows the differences of the file.
    pub open spec fn after_diff(self, diff: Seq<char>) -> FileStepView {
        if diff.len() == 0 {
            FileStepView::AskStatus
        } else if noise(self.target) {
            FileStepView::Done(
                self.changed(
                    Some("Modified (Noise/Binary file)"@),
                    "+++ "@ + self.target
                        + " (Noise or binary file changed, full diff suppressed)"@,
                    false,
                ),
            )
        } else {
            FileStepView::Done(
                self.changed(
                    None,
                    text::first_chars(diff, MAX_OUTPUT_CHARS as int),
                    diff.len() > MAX_OUTPUT_CHARS,
                ),
            )
        }
    }

    /// What follows the status of the file: nothing was printed for a file without changes, a new
    /// file is read, and of any other the status is told.
    pub open spec fn after_status(self, printed_nothing: bool, code: Seq<char>) -> FileStepView {
        if printed_nothing {
            FileStepView::Done(self.unchanged())
        } else if text::starts(code, "??"@) {
            if noise(self.target) {
                FileStepView::Done(
                    self.changed(
                        Some("Untracked (Noise/Binary file)"@),
                        "+++ "@ + self.target + " (Untracked binary or lockfile)"@,
                        false,
                    ),
                )
            } else {
                FileStepView::ReadFile
            }
        } else {
            FileStepView::Done(
                self.changed(
                    Some(described_status(code)),
                    "=== "@ + self.target + " ("@ + described_status(code) + ") ==="@,
                    false,
                ),
            )
        }
    }

    /// The answer for a new file, with its content if it could be read.
    pub open spec fn after_read(self, content: Option<Seq<char>>) -> JsonView {
        match content {
            Some(content) => {
                let lines = first_lines(content, MAX_UNTRACKED_FILE_LINES as int);
                self.changed(
                    Some("Untracked (New file)"@),
                    "+++ "@ + self.target + "\n@@ -0,0 +1,"@ + text::decimal(lines.len())
                        + " @@\n"@ + text::joined(lines, "\n"@),
                    text::lines_of(content).len() > MAX_UNTRACKED_FILE_LINES,
                )
            },
            None => self.changed(
                Some("Untracked"@),
                "+++ "@ + self.target + " (Untracked file)"@,
                false,
            ),
        }
    }
}

/// What a status code of two letters says.
pub open spec fn described_status(code: Seq<char>) -> Seq<char> {
    if code == "A "@ || code == " A"@ || code == "AM"@ || code == "AD"@ {
        "Added"@
    } else if code == "D "@ || code == " D"@ {
        "Deleted"@
    } else if code == "R "@ || code == " R"@ || code == "RM"@ || code == "RD"@ {
        "Renamed"@
    } else if code == "M "@ || code == " M"@ || code == "MM"@ {
        "Modified"@
    } else {
        "Changed"@
    }
}

fn describe_status(code: &str) -> (r: &'static str)
    ensures
        r@ == described_status(code@),
{
    if text::same(code, "A ") || text::same(code, " A") || text::same(code, "AM") || text::same(
        code,
        "AD",
    ) {
        "Added"
    } else if text::same(code, "D ") || text::same(code, " D") {
        "Deleted"
    } else if text::same(code, "R ") || text::same(code, " R") || text::same(code, "RM")
        || text::same(code, "RD") {
        "Renamed"
    } else if text::same(code, "M ") || text::same(code, " M") || text::same(code, "MM") {
        "Modified"
    } else {
        "Changed"
    }
}

fn take_lines(content: &str, count: usize) -> (r: (Vec<String>, bool))
    ensures
        data::views(r.0@) == first_lines(content@, count as int),
        r.1 == (text::lines_of(content@).len() > count),
{
    let mut lines = text::lines(content);
    let ghost all = data::views(lines@);
    assert(all.len() == lines@.len());
    if lines.len() <= count {
        (lines, false)
    } else {
        lines.truncate(count);
        assert(data::views(lines@) =~= all.take(count as int));
        (lines, true)
    }
}

/// The first two bytes of what `git status` printed.
pub open spec fn status_code(stdout: Seq<u8>) -> Seq<char> {
    if stdout.len() >= 2 {
        text::lenient(stdout.take(2))
    } else {
        Seq::empty()
    }
}

/// The output of a git command in bytes, and whether it succeeded.
#[derive(Debug)]
pub struct GitBytes {
    pub success: bool,
    pub stdout: Vec<u8>,
    pub stderr: Vec<u8>,
}

/// The output of `git status`, or the reason why there is none.
pub open spec fn status_output(outcome: Result<GitBytes, String>) -> Result<Seq<u8>, Seq<char>> {
    match outcome {
        Ok(output) => if output.success {
            Ok(output.stdout@)
        } else {
            Err("git status error: "@ + text::lenient(output.stderr@))
        },
        Err(reason) => Err("git status failed: "@ + reason@),
    }
}

/// The output of `git status`, or the reason why there is none.
pub fn read_status(outcome: Result<GitBytes, String>) -> (r: Result<Vec<u8>, String>)
    ensures
        match r {
            Ok(stdout) => status_output(outcome) == Ok::<Seq<u8>, Seq<char>>(stdout@),
            Err(e) => status_output(outcome) == Err::<Seq<u8>, Seq<char>>(e@),
        },
{
    match outcome {
        Ok(output) => if output.success {
            Ok(output.stdout)
        } else {
            let stderr = text::lossy_text(output.stderr.as_slice());
            Err(text::concat("git status error: ", stderr.as_str()))
        },
        Err(reason) => Err(text::concat("git status failed: ", reason.as_str())),
    }
}

impl SingleFile {
    fn head(&self) -> (r: Vec<(String, Json)>)
        ensures
            json::member_views(r@) == self@.head(),
    {
        let mut members: Vec<(String, Json)> = Vec::new();
        json::put(&mut members, "is_git_repo", Json::Bool(true));
        json::put(&mut members, "branch", json::from_optional(&self.branch));
        json::put(&mut members, "path", Json::String(self.workspace.clone()));
        json::put(&mut members, "target_file", Json::String(self.target.clone()));
        assert(json::member_views(members@) =~= self@.head());
        members
    }

    fn changed(&self, status: Option<&str>, diff: String, truncated: bool) -> (r: Json)
        ensures
            r@ == self@.changed(
                match status {
                    Some(s) => Some(s@),
                    None => None,
                },
                diff@,
                truncated,
            ),
    {
        broadcast use json::lemma_view;

        let mut members = self.head();
        json::put(&mut members, "has_changes", Json::Bool(true));
        if let Some(status) = status {
            json::put(&mut members, "status", Json::String(status.to_owned()));
        }
        json::put(&mut members, "diff", Json::String(diff));
        json::put(&mut members, "truncated", Json::Bool(truncated));
        Json::Object(members)
    }

    /// What follows the differences of the file.
    pub fn on_diff(&self, diff: &str) -> (r: FileStep)
        ensures
            r@ == self@.after_diff(diff@),
    {
        if diff.is_empty() {
            return FileStep::AskStatus;
        }
        if is_noise_file(self.target.as_str()) {
            let shown = text::concat3(
                "+++ ",
                self.target.as_str(),
                " (Noise or binary file changed, full diff suppressed)",
            );
            return FileStep::Done(
                self.changed(Some("Modified (Noise/Binary file)"), shown, false),
            );
        }
        let truncated = text::char_count(diff) > MAX_OUTPUT_CHARS;
        let shown = text::take_chars(diff, MAX_OUTPUT_CHARS);
        FileStep::Done(self.changed(None, shown, truncated))
    }

    /// What follows the status of the file, given by the code of two letters that begins it.
    pub fn on_status_code(&self, printed_nothing: bool, code: &str) -> (r: FileStep)
        ensures
            r@ == self@.after_status(printed_nothing, code@),
    {
        broadcast use json::lemma_view;

        if printed_nothing {
            let mut members = self.head();
            json::put(&mut members, "has_changes", Json::Bool(false));
            json::put(
                &mut members,
                "message",
                Json::String("No changes found for this file.".to_owned()),
            );
            return FileStep::Done(Json::Object(members));
        }
        if text::starts_with(code, "??") {
            if is_noise_file(self.target.as_str()) {
                let shown = text::concat3(
                    "+++ ",
                    self.target.as_str(),
                    " (Untracked binary or lockfile)",
                );
                return FileStep::Done(
                    self.changed(Some("Untracked (Noise/Binary file)"), shown, false),
                );
            }
            return FileStep::ReadFile;
        }
        let status = describe_status(code);
        let mut shown = "=== ".to_owned();
        shown.append(self.target.as_str());
        shown.append(" (");
        shown.append(status);
        shown.append(") ===");
        FileStep::Done(self.changed(Some(status), shown, false))
    }

    /// What follows the status of the file.
    pub fn on_status(&self, stdout: &Vec<u8>) -> (r: FileStep)
        ensures
            r@ == self@.after_status(stdout@.len() == 0, status_code(stdout@)),
    {
        let code = if stdout.len() >= 2 {
            let mut letters: Vec<u8> = Vec::new();
            letters.push(stdout[0]);
            letters.push(stdout[1]);
            assert(letters@ =~= stdout@.take(2));
            text::lossy_text(letters.as_slice())
        } else {
            String::new()
        };
        self.on_status_code(stdout.len() == 0, code.as_str())
    }

    /// The answer for a new file, with its content if it could be read.
    pub fn on_content(&self, content: Option<&str>) -> (r: Json)
        ensures
            r@ == self@.after_read(
                match content {
                    Some(c) => Some(c@),
                    None => None,
                },
            ),
    {
        match content {
            Some(content) => {
                let (lines, truncated) = take_lines(content, MAX_UNTRACKED_FILE_LINES);
                let mut shown = "+++ ".to_owned();
                shown.append(self.target.as_str());
                shown.append("\n@@ -0,0 +1,");
                assert(data::views(lines@).len() == lines@.len());
                shown.append(text::decimal_u64(lines.len() as u64).as_str());
                shown.append(" @@\n");
                shown.append(text::join(&lines, "\n").as_str());
                self.changed(Some("Untracked (New file)"), shown, truncated)
            },
            None => {
                let shown = text::concat3("+++ ", self.target.as_str(), " (Untracked file)");
                self.changed(Some("Untracked"), shown, false)
            },
        }
    }
}

/// The lines that were added to and deleted from a file.
pub type FileStat = (usize, usize);

/// The number that a field denotes, or zero.
pub open spec fn stat_number(field: Seq<char>) -> usize {
    match text::unsigned_of(text::trimmed(field), usize::MAX as nat) {
        Some(n) => n as usize,
        None => 0,
    }
}

/// The larger of two numbers.
pub open spec fn larger(a: usize, b: usize) -> usize {
    if a >= b {
        a
    } else {
        b
    }
}

/// The counts with those of a line of `git diff --numstat -z`: of two counts of one file the larger
/// stays.
pub open spec fn with_stat(
    stats: Map<Seq<char>, FileStat>,
    line: Seq<char>,
) -> Map<Seq<char>, FileStat> {
    let fields = text::split_of(line, '\t');
    if line.len() == 0 || fields.len() < 3 {
        stats
    } else {
        let path = text::trimmed(fields[2]);
        let known: FileStat = if stats.contains_key(path) {
            stats[path]
        } else {
            (0usize, 0usize)
        };
        stats.insert(
            path,
            (larger(known.0, stat_number(fields[0])), larger(known.1, stat_number(fields[1]))),
        )
    }
}

/// The counts with those of some lines.
pub open spec fn with_stats(
    stats: Map<Seq<char>, FileStat>,
    lines: Seq<Seq<char>>,
) -> Map<Seq<char>, FileStat>
    decreases lines.len(),
{
    if lines.len() == 0 {
        stats
    } else {
        with_stat(with_stats(stats, lines.drop_last()), lines.last())
    }
}

fn read_number(field: &str) -> (r: usize)
    ensures
        r == stat_number(field@),
{
    let shown = text::trim(field);
    match text::parse_usize(shown.as_str()) {
        Some(n) => n,
        None => 0,
    }
}

fn add_stat(line: &str, stats: &mut NameMap<FileStat>)
    ensures
        final(stats)@ == with_stat(old(stats)@, line@),
{
    if line.is_empty() {
        return ;
    }
    let fields = text::split(line, '\t');
    assert(data::views(fields@).len() == fields@.len());
    if fields.len() >= 3 {
        assert(data::views(fields@)[0] == fields@[0]@);
        assert(data::views(fields@)[1] == fields@[1]@);
        assert(data::views(fields@)[2] == fields@[2]@);
        let added = read_number(fields[0].as_str());
        let deleted = read_number(fields[1].as_str());
        let path = text::trim(fields[2].as_str());
        let known: FileStat = match stats.get(path.as_str()) {
            Some(known) => *known,
            None => (0usize, 0usize),
        };
        let most_added: usize = if known.0 >= added {
            known.0
        } else {
            added
        };
        let most_deleted: usize = if known.1 >= deleted {
            known.1
        } else {
            deleted
        };
        stats.insert(path, (most_added, most_deleted));
    }
}

/// Adds the counts that `git diff --numstat -z` printed.
pub fn parse_numstat(output: &str, stats: &mut NameMap<FileStat>)
    ensures
        final(stats)@ == with_stats(old(stats)@, text::split_of(output@, '\0')),
{
    let lines = text::split(output, '\0');
    let ghost all = data::views(lines@);
    let ghost start = stats@;
    let mut i: usize = 0;
    assert(all.take(0) =~= Seq::empty());
    while i < lines.len()
        invariant
            i <= lines@.len(),
            all == data::views(lines@),
            stats@ == with_stats(start, all.take(i as int)),
        decreases lines@.len() - i,
    {
        add_stat(lines[i].as_str(), stats);
        i += 1;
        assert(all.take(i as int).drop_last() =~= all.take(i - 1));
        assert(all.take(i as int).last() == lines@[i - 1]@);
    }
    assert(all.take(i as int) =~= all);
}

/// Adds the counts that `git diff --numstat -z` printed, from its bytes.
pub fn parse_numstat_z(raw: &[u8], stats: &mut NameMap<FileStat>)
    ensures
        final(stats)@ == with_stats(old(stats)@, text::split_of(text::lenient(raw@), '\0')),
{
    let output = text::lossy_text(raw);
    parse_numstat(output.as_str(), stats);
}

/// The counts with those of an output, if there is one.
pub open spec fn with_output(
    stats: Map<Seq<char>, FileStat>,
    output: Option<Vec<u8>>,
) -> Map<Seq<char>, FileStat> {
    match output {
        Some(raw) => with_stats(stats, text::split_of(text::lenient(raw@), '\0')),
        None => stats,
    }
}

/// The lines added to and deleted from each file: compared with the last commit where that works,
/// else between it and the index, and in both cases in the working tree. An output is given where
/// the command succeeded.
pub fn get_diff_numstat(
    head: &Option<Vec<u8>>,
    cached: &Option<Vec<u8>>,
    unstaged: &Option<Vec<u8>>,
) -> (r: NameMap<FileStat>)
    ensures
        r@ == with_output(
            with_output(
                Map::empty(),
                if head is Some {
                    *head
                } else {
                    *cached
                },
            ),
            *unstaged,
        ),
{
    let mut stats: NameMap<FileStat> = NameMap::new();
    match head {
        Some(raw) => parse_numstat_z(raw.as_slice(), &mut stats),
        None => match cached {
            Some(raw) => parse_numstat_z(raw.as_slice(), &mut stats),
            None => {},
        },
    }
    match unstaged {
        Some(raw) => parse_numstat_z(raw.as_slice(), &mut stats),
        None => {},
    }
    stats
}

/// A file with changes.
#[derive(Debug)]
pub struct ChangedFile {
    pub path: String,
    pub status: String,
    pub staged: bool,
    pub added: Option<usize>,
    pub deleted: Option<usize>,
}

#[verifier::ext_equal]
pub struct ChangedFileView {
    pub path: Seq<char>,
    pub status: Seq<char>,
    pub staged: bool,
    pub added: Option<usize>,
    pub deleted: Option<usize>,
}

impl View for ChangedFile {
    type V = ChangedFileView;

    open spec fn view(&self) -> ChangedFileView {
        ChangedFileView {
            path: self.path@,
            status: self.status@,
            staged: self.staged,
            added: self.added,
            deleted: self.deleted,
        }
    }
}

/// The pieces of bytes between zero bytes.
pub open spec fn zero_split(raw: Seq<u8>) -> Seq<Seq<u8>>
    decreases raw.len(),
{
    if raw.len() == 0 {
        seq![Seq::empty()]
    } else {
        let before = zero_split(raw.drop_last());
        if raw.last() == 0 {
            before.push(Seq::empty())
        } else {
            before.drop_last().push(before.last().push(raw.last()))
        }
    }
}

/// The letters of a status.
pub open spec fn is_letter(byte: u8, letter: char) -> bool {
    byte as int == letter as int
}

/// Whether an entry is of a file that is not in the index.
pub open spec fn untracked_entry(chunk: Seq<u8>) -> bool {
    is_letter(chunk[0], '?') && is_letter(chunk[1], '?')
}

/// Whether an entry is followed by the path that the file had before.
pub open spec fn renamed_entry(chunk: Seq<u8>) -> bool {
    is_letter(chunk[0], 'R') || is_letter(chunk[0], 'C') || is_letter(chunk[1], 'R') || is_letter(
        chunk[1],
        'C',
    )
}

/// Whether one of the letters of a status is this one.
pub open spec fn has_letter(chunk: Seq<u8>, letter: char) -> bool {
    is_letter(chunk[0], letter) || is_letter(chunk[1], letter)
}

/// The file of an entry: two letters for the status, a space, and the path.
pub open spec fn entry_file(
    chunk: Seq<u8>,
    path: Seq<char>,
    stats: Map<Seq<char>, FileStat>,
) -> ChangedFileView {
    if untracked_entry(chunk) {
        ChangedFileView { path, status: "Untracked"@, staged: false, added: None, deleted: None }
    } else {
        ChangedFileView {
            path,
            status: if has_letter(chunk, 'M') {
                "Modified"@
            } else if has_letter(chunk, 'A') {
                "Added"@
            } else if has_letter(chunk, 'D') {
                "Deleted"@
            } else if has_letter(chunk, 'R') {
                "Renamed"@
            } else {
                "Changed"@
            },
            staged: !is_letter(chunk[0], ' ') && !is_letter(chunk[0], '?'),
            added: if stats.contains_key(path) {
                Some(stats[path].0)
            } else {
                None
            },
            deleted: if stats.contains_key(path) {
                Some(stats[path].1)
            } else {
                None
            },
        }
    }
}

/// The files of the entries from `i` on.
pub open spec fn entry_files(
    chunks: Seq<Seq<u8>>,
    i: int,
    stats: Map<Seq<char>, FileStat>,
) -> Seq<ChangedFileView>
    decreases chunks.len() - i,
{
    if i < 0 || i >= chunks.len() {
        Seq::empty()
    } else if chunks[i].len() < 3 {
        entry_files(chunks, i + 1, stats)
    } else {
        let file = entry_file(chunks[i], text::lenient(chunks[i].skip(3)), stats);
        if !untracked_entry(chunks[i]) && renamed_entry(chunks[i]) && i + 1 < chunks.len() {
            seq![file] + entry_files(chunks, i + 2, stats)
        } else {
            seq![file] + entry_files(chunks, i + 1, stats)
        }
    }
}

/// The paths of the files that are not in the index.
pub open spec fn untracked_paths(files: Seq<ChangedFileView>) -> Seq<Seq<char>>
    decreases files.len(),
{
    if files.len() == 0 {
        Seq::empty()
    } else if files.last().status == "Untracked"@ {
        untracked_paths(files.drop_last()).push(files.last().path)
    } else {
        untracked_paths(files.drop_last())
    }
}

fn split_zero(raw: &Vec<u8>) -> (r: Vec<Vec<u8>>)
    ensures
        data::views(r@) == zero_split(raw@),
{
    let mut out: Vec<Vec<u8>> = Vec::new();
    let mut current: Vec<u8> = Vec::new();
    let mut i: usize = 0;
    assert(raw@.take(0) =~= Seq::empty());
    assert(data::views(out@).push(current@) =~= zero_split(raw@.take(0)));
    while i < raw.len()
        invariant
            i <= raw@.len(),
            data::views(out@).push(current@) == zero_split(raw@.take(i as int)),
        decreases raw@.len() - i,
    {
        let ghost before = data::views(out@);
        let ghost piece = current@;
        let byte = raw[i];
        if byte == 0 {
            out.push(current);
            current = Vec::new();
            assert(data::views(out@) =~= before.push(piece));
        } else {
            current.push(byte);
        }
        i += 1;
        proof {
            let now = raw@.take(i as int);
            assert(now.drop_last() =~= raw@.take(i - 1));
            assert(now.last() == byte);
            let split = before.push(piece);
            assert(split.drop_last() =~= before);
            assert(split.last() == piece);
            if byte == 0 {
                assert(data::views(out@).push(current@) =~= split.push(Seq::empty()));
            }
        }
    }
    let ghost before = data::views(out@);
    out.push(current);
    assert(data::views(out@) =~= before.push(current@));
    assert(raw@.take(i as int) =~= raw@);
    out
}

fn byte_is(byte: u8, letter: char) -> (r: bool)
    ensures
        r == is_letter(byte, letter),
{
    byte as u32 == letter as u32
}

fn read_entry(chunk: &Vec<u8>, stats: &NameMap<FileStat>) -> (r: ChangedFile)
    requires
        chunk@.len() >= 3,
    ensures
        r@ == entry_file(chunk@, text::lenient(chunk@.skip(3)), stats@),
{
    let mut rest: Vec<u8> = Vec::new();
    let mut i: usize = 3;
    assert(rest@ =~= chunk@.skip(3).take(0));
    while i < chunk.len()
        invariant
            3 <= i <= chunk@.len(),
            rest@ == chunk@.skip(3).take(i - 3),
        decreases chunk@.len() - i,
    {
        rest.push(chunk[i]);
        i += 1;
        assert(chunk@.skip(3).take(i - 3) =~= chunk@.skip(3).take(i - 4).push(chunk@[i - 1]));
    }
    assert(rest@ =~= chunk@.skip(3));
    let path = text::lossy_text(rest.as_slice());
    let index = chunk[0];
    let worktree = chunk[1];
    if byte_is(index, '?') && byte_is(worktree, '?') {
        return ChangedFile {
            path,
            status: "Untracked".to_owned(),
            staged: false,
            added: None,
            deleted: None,
        };
    }
    let status = if byte_is(index, 'M') || byte_is(worktree, 'M') {
        "Modified"
    } else if byte_is(index, 'A') || byte_is(worktree, 'A') {
        "Added"
    } else if byte_is(index, 'D') || byte_is(worktree, 'D') {
        "Deleted"
    } else if byte_is(index, 'R') || byte_is(worktree, 'R') {
        "Renamed"
    } else {
        "Changed"
    };
    let staged = !byte_is(index, ' ') && !byte_is(index, '?');
    let (added, deleted) = match stats.get(path.as_str()) {
        Some(stat) => (Some(stat.0), Some(stat.1)),
        None => (None, None),
    };
    ChangedFile { path, status: status.to_owned(), staged, added, deleted }
}

/// The changed files that `git status --porcelain=v1 -z` printed, and the paths of those that are
/// not in the index.
pub fn parse_porcelain_z(raw: &Vec<u8>, stats: &NameMap<FileStat>) -> (r: (
    Vec<ChangedFile>,
    Vec<String>,
))
    ensures
        data::views(r.0@) == entry_files(zero_split(raw@), 0, stats@),
        data::views(r.1@) == untracked_paths(data::views(r.0@)),
{
    let chunks = split_zero(raw);
    let ghost all = data::views(chunks@);
    assert(all.len() == chunks@.len());
    let mut files: Vec<ChangedFile> = Vec::new();
    let mut untracked: Vec<String> = Vec::new();
    let mut i: usize = 0;
    assert(data::views(files@) =~= Seq::empty());
    assert(data::views(untracked@) =~= Seq::empty());
    assert(data::views(files@) + entry_files(all, 0, stats@) =~= entry_files(all, 0, stats@));
    proof {
        reveal_strlit("Untracked");
        reveal_strlit("Modified");
        reveal_strlit("Added");
        reveal_strlit("Deleted");
        reveal_strlit("Renamed");
        reveal_strlit("Changed");
    }
    while i < chunks.len()
        invariant
            i <= chunks@.len(),
            all == data::views(chunks@),
            all.len() == chunks@.len(),
            data::views(files@) + entry_files(all, i as int, stats@) == entry_files(
                all,
                0,
                stats@,
            ),
            data::views(untracked@) == untracked_paths(data::views(files@)),
            "Untracked"@.len() == 9,
            "Modified"@.len() == 8,
            "Added"@.len() == 5,
            "Deleted"@.len() == 7,
            "Renamed"@.len() == 7,
            "Changed"@.len() == 7,
        decreases chunks@.len() - i,
    {
        assert(all[i as int] == chunks@[i as int]@);
        if chunks[i].len() < 3 {
            i += 1;
            continue ;
        }
        let ghost before = data::views(files@);
        let ghost before_untracked = data::views(untracked@);
        let new_file = byte_is(chunks[i][0], '?') && byte_is(chunks[i][1], '?');
        let renamed = byte_is(chunks[i][0], 'R') || byte_is(chunks[i][0], 'C') || byte_is(
            chunks[i][1],
            'R',
        ) || byte_is(chunks[i][1], 'C');
        let file = read_entry(&chunks[i], stats);
        let ghost shown = file@;
        if new_file {
            untracked.push(file.path.clone());
            assert(data::views(untracked@) =~= before_untracked.push(shown.path));
        }
        files.push(file);
        assert(data::views(files@) =~= before.push(shown));
        assert(before.push(shown).drop_last() =~= before);
        assert(new_file == (shown.status == "Untracked"@));
        if !new_file && renamed && i + 1 < chunks.len() {
            i += 2;
        } else {
            i += 1;
        }
        proof {
            let rest = entry_files(all, i as int, stats@);
            assert(before + (seq![shown] + rest) =~= before.push(shown) + rest);
        }
    }
    assert(data::views(files@) + Seq::<ChangedFileView>::empty() =~= data::views(files@));
    (files, untracked)
}

/// A changed file as JSON; counts that are not known are left out.
pub open spec fn file_members(file: ChangedFileView) -> Seq<(Seq<char>, JsonView)> {
    let start = seq![
        ("path"@, JsonView::String(file.path)),
        ("status"@, JsonView::String(file.status)),
        ("staged"@, JsonView::Bool(file.staged)),
    ];
    let more = match file.added {
        Some(n) => start.push(("added"@, json::count(n as nat))),
        None => start,
    };
    match file.deleted {
        Some(n) => more.push(("deleted"@, json::count(n as nat))),
        None => more,
    }
}

/// Changed files as JSON.
pub open spec fn files_json(files: Seq<ChangedFileView>) -> JsonView {
    JsonView::Array(files.map_values(|f: ChangedFileView| JsonView::Object(file_members(f))))
}

fn file_json(file: &ChangedFile) -> (r: Json)
    ensures
        r@ == JsonView::Object(file_members(file@)),
{
    broadcast use json::lemma_view;

    let mut members: Vec<(String, Json)> = Vec::new();
    json::put(&mut members, "path", Json::String(file.path.clone()));
    json::put(&mut members, "status", Json::String(file.status.clone()));
    json::put(&mut members, "staged", Json::Bool(file.staged));
    assert(json::member_views(members@) =~= seq![
        ("path"@, JsonView::String(file@.path)),
        ("status"@, JsonView::String(file@.status)),
        ("staged"@, JsonView::Bool(file@.staged)),
    ]);
    if let Some(n) = file.added {
        json::put(&mut members, "added", json::from_count(n));
    }
    if let Some(n) = file.deleted {
        json::put(&mut members, "deleted", json::from_count(n));
    }
    Json::Object(members)
}

/// The shown differences with another piece: what does not fit into the budget is cut off, and
/// nothing follows it.
pub open spec fn with_piece(shown: (Seq<char>, bool), piece: Seq<char>) -> (Seq<char>, bool) {
    if shown.1 {
        shown
    } else if shown.0.len() + piece.len() > MAX_OUTPUT_CHARS {
        (shown.0 + text::first_chars(piece, MAX_OUTPUT_CHARS - shown.0.len()), true)
    } else {
        (shown.0 + piece, false)
    }
}

/// The first line of a text, or nothing.
pub open spec fn first_line(s: Seq<char>) -> Seq<char> {
    if text::lines_of(s).len() == 0 {
        Seq::empty()
    } else {
        text::lines_of(s)[0]
    }
}

/// The differences of the files that are not noise, file by file, within the budget.
pub open spec fn shown_hunks(hunks: Seq<Seq<char>>) -> (Seq<char>, bool)
    decreases hunks.len(),
{
    if hunks.len() == 0 {
        (Seq::empty(), false)
    } else {
        let before = shown_hunks(hunks.drop_last());
        let hunk = hunks.last();
        if text::blank(hunk) || noise(first_line(hunk)) {
            before
        } else {
            with_piece(before, "diff --git "@ + hunk)
        }
    }
}

/// What is shown of a new file among other changes.
pub open spec fn preview(path: Seq<char>, content: Seq<char>) -> Seq<char> {
    let lines = first_lines(content, MAX_PREVIEW_LINES as int);
    "\n--- /dev/null\n+++ b/"@ + path + "\n@@ -0,0 +1,"@ + text::decimal(lines.len()) + " @@\n"@
        + text::joined(lines, "\n"@) + "\n"@
}

fn add_piece(diff: &mut String, truncated: bool, piece: &str) -> (r: bool)
    requires
        old(diff)@.len() <= MAX_OUTPUT_CHARS,
    ensures
        (final(diff)@, r) == with_piece((old(diff)@, truncated), piece@),
        final(diff)@.len() <= MAX_OUTPUT_CHARS,
{
    if truncated {
        return true;
    }
    let used = text::char_count(diff.as_str());
    let size = text::char_count(piece);
    if size > MAX_OUTPUT_CHARS - used {
        let part = text::take_chars(piece, MAX_OUTPUT_CHARS - used);
        diff.append(part.as_str());
        true
    } else {
        diff.append(piece);
        false
    }
}

/// The differences of the files that are not noise, within the budget, and whether some were cut.
pub fn show_hunks(diff: &str) -> (r: (String, bool))
    ensures
        (r.0@, r.1) == shown_hunks(text::split_at_text(diff@, "diff --git "@)),
        r.0@.len() <= MAX_OUTPUT_CHARS,
{
    proof {
        reveal_strlit("diff --git ");
    }
    let hunks = text::split_text(diff, "diff --git ");
    let ghost all = data::views(hunks@);
    let mut shown = String::new();
    let mut truncated = false;
    let mut i: usize = 0;
    assert(all.take(0) =~= Seq::empty());
    while i < hunks.len()
        invariant
            i <= hunks@.len(),
            all == data::views(hunks@),
            shown@.len() <= MAX_OUTPUT_CHARS,
            (shown@, truncated) == shown_hunks(all.take(i as int)),
        decreases hunks@.len() - i,
    {
        let hunk = hunks[i].as_str();
        assert(all.take(i + 1).drop_last() =~= all.take(i as int));
        assert(all.take(i + 1).last() == hunk@);
        if !text::is_blank(hunk) {
            let lines = text::lines(hunk);
            assert(data::views(lines@).len() == lines@.len());
            let skipped = if lines.len() == 0 {
                proof {
                    reveal_strlit("");
                    assert(""@ =~= first_line(hunk@));
                }
                is_noise_file("")
            } else {
                assert(data::views(lines@)[0] == lines@[0]@);
                is_noise_file(lines[0].as_str())
            };
            if !skipped {
                let piece = text::concat("diff --git ", hunk);
                truncated = add_piece(&mut shown, truncated, piece.as_str());
            }
        }
        i += 1;
    }
    assert(all.take(i as int) =~= all);
    (shown, truncated)
}

/// An inspection of everything that changed. The new files are shown one after the other.
#[derive(Debug)]
pub struct ChangeSummary {
    pub workspace: String,
    pub branch: Option<String>,
    pub files: Vec<ChangedFile>,
    pub untracked: Vec<String>,
    pub next: usize,
    pub diff: String,
    pub truncated: bool,
}

#[verifier::ext_equal]
pub struct ChangeSummaryView {
    pub workspace: Seq<char>,
    pub branch: Option<Seq<char>>,
    pub files: Seq<ChangedFileView>,
    pub untracked: Seq<Seq<char>>,
    pub next: int,
    pub diff: Seq<char>,
    pub truncated: bool,
}

impl View for ChangeSummary {
    type V = ChangeSummaryView;

    open spec fn view(&self) -> ChangeSummaryView {
        ChangeSummaryView {
            workspace: self.workspace@,
            branch: data::option_view(self.branch),
            files: data::views(self.files@),
            untracked: data::views(self.untracked@),
            next: self.next as int,
            diff: self.diff@,
            truncated: self.truncated,
        }
    }
}

/// The first path from `i` on that is not noise, or the end.
pub open spec fn next_shown(paths: Seq<Seq<char>>, i: int) -> int
    decreases paths.len() - i,
{
    if i < 0 || i >= paths.len() {
        paths.len() as int
    } else if noise(paths[i]) {
        next_shown(paths, i + 1)
    } else {
        i
    }
}

/// The answer for a working tree without changes.
pub open spec fn clean_summary(workspace: Seq<char>, branch: Option<Seq<char>>) -> JsonView {
    JsonView::Object(
        seq![
            ("is_git_repo"@, JsonView::Bool(true)),
            ("branch"@, json::optional_text(branch)),
            ("path"@, JsonView::String(workspace)),
            ("has_changes"@, JsonView::Bool(false)),
            ("changed_files_count"@, json::count(0)),
            ("message"@, JsonView::String("Working tree is clean, no uncommitted changes."@)),
        ],
    )
}

/// The hint where something was left out.
pub open spec fn truncation_hint() -> Seq<char> {
    "Diff or file list was truncated due to large size. Call `InspectChanges(path=\"<path>\")` to inspect the detailed diff of a specific file."@
}

impl ChangeSummaryView {
    /// The invariant: the budget is kept, and the next new file is one that is shown.
    pub open spec fn wf(self) -> bool {
        &&& self.diff.len() <= MAX_OUTPUT_CHARS
        &&& 0 <= self.next <= self.untracked.len()
        &&& self.next < self.untracked.len() ==> !noise(self.untracked[self.next])
    }

    /// The new file that is to be read next.
    pub open spec fn wanted(self) -> Option<Seq<char>> {
        if !self.truncated && self.next < self.untracked.len() {
            Some(self.untracked[self.next])
        } else {
            None
        }
    }

    /// The inspection once the next new file was read, if it could be.
    pub open spec fn after_content(self, content: Option<Seq<char>>) -> ChangeSummaryView {
        let shown = match content {
            Some(content) => with_piece(
                (self.diff, self.truncated),
                preview(self.untracked[self.next], content),
            ),
            None => (self.diff, self.truncated),
        };
        ChangeSummaryView {
            next: next_shown(self.untracked, self.next + 1),
            diff: shown.0,
            truncated: shown.1,
            ..self
        }
    }

    /// Whether more files changed than are listed.
    pub open spec fn files_truncated(self) -> bool {
        self.files.len() > MAX_CHANGED_FILES_SUMMARY
    }

    /// The answer.
    pub open spec fn answer(self) -> JsonView {
        let listed = if self.files_truncated() {
            self.files.take(MAX_CHANGED_FILES_SUMMARY as int)
        } else {
            self.files
        };
        let start = seq![
            ("is_git_repo"@, JsonView::Bool(true)),
            ("branch"@, json::optional_text(self.branch)),
            ("path"@, JsonView::String(self.workspace)),
            ("has_changes"@, JsonView::Bool(true)),
            ("changed_files_count"@, json::count(self.files.len())),
            ("files"@, files_json(listed)),
            ("diff"@, JsonView::String(self.diff)),
            ("truncated"@, JsonView::Bool(self.truncated || self.files_truncated())),
        ];
        let more = if self.files_truncated() {
            start.push(("files_truncated"@, JsonView::Bool(true)))
        } else {
            start
        };
        JsonView::Object(
            if self.truncated || self.files_truncated() {
                more.push(("hint"@, JsonView::String(truncation_hint())))
            } else {
                more
            },
        )
    }
}

fn skip_noise(paths: &Vec<String>, from: usize) -> (r: usize)
    requires
        from <= paths@.len(),
    ensures
        r == next_shown(data::views(paths@), from as int),
        from <= r <= paths@.len(),
        r < paths@.len() ==> !noise(paths@[r as int]@),
{
    let ghost all = data::views(paths@);
    let mut i: usize = from;
    while i < paths.len()
        invariant
            from <= i <= paths@.len(),
            all == data::views(paths@),
            next_shown(all, from as int) == next_shown(all, i as int),
        decreases paths@.len() - i,
    {
        assert(all[i as int] == paths@[i as int]@);
        if !is_noise_file(paths[i].as_str()) {
            return i;
        }
        i += 1;
    }
    i
}

/// The answer for a working tree without changes.
pub fn clean_answer(workspace: &str, branch: &Option<String>) -> (r: Json)
    ensures
        r@ == clean_summary(workspace@, data::option_view(*branch)),
{
    broadcast use json::lemma_view;

    let mut members: Vec<(String, Json)> = Vec::new();
    json::put(&mut members, "is_git_repo", Json::Bool(true));
    json::put(&mut members, "branch", json::from_optional(branch));
    json::put(&mut members, "path", Json::String(workspace.to_owned()));
    json::put(&mut members, "has_changes", Json::Bool(false));
    json::put(&mut members, "changed_files_count", json::from_count(0));
    json::put(
        &mut members,
        "message",
        Json::String("Working tree is clean, no uncommitted changes.".to_owned()),
    );
    assert(json::member_views(members@) =~= clean_summary(
        workspace@,
        data::option_view(*branch),
    )->Object_0);
    Json::Object(members)
}

impl ChangeSummary {
    /// An inspection of the files that changed, with their differences.
    pub fn new(
        workspace: String,
        branch: Option<String>,
        files: Vec<ChangedFile>,
        untracked: Vec<String>,
        diff: &str,
    ) -> (r: Self)
        ensures
            r@.wf(),
            r@ == ({
                let shown = shown_hunks(text::split_at_text(diff@, "diff --git "@));
                ChangeSummaryView {
                    workspace: workspace@,
                    branch: data::option_view(branch),
                    files: data::views(files@),
                    untracked: data::views(untracked@),
                    next: next_shown(data::views(untracked@), 0),
                    diff: shown.0,
                    truncated: shown.1,
                }
            }),
    {
        let (shown, truncated) = show_hunks(diff);
        let next = skip_noise(&untracked, 0);
        assert(data::views(untracked@).len() == untracked@.len());
        ChangeSummary { workspace, branch, files, untracked, next, diff: shown, truncated }
    }

    /// The new file that is to be read next, relative to the workspace.
    pub fn wanted(&self) -> (r: Option<&str>)
        requires
            self@.wf(),
        ensures
            match r {
                Some(path) => self@.wanted() == Some(path@),
                None => self@.wanted() is None,
            },
    {
        assert(data::views(self.untracked@).len() == self.untracked@.len());
        if !self.truncated && self.next < self.untracked.len() {
            Some(self.untracked[self.next].as_str())
        } else {
            None
        }
    }

    /// Shows the next new file, if it could be read.
    pub fn on_content(&mut self, content: Option<&str>)
        requires
            old(self)@.wf(),
            old(self)@.wanted() is Some,
        ensures
            final(self)@.wf(),
            final(self)@ == old(self)@.after_content(
                match content {
                    Some(c) => Some(c@),
                    None => None,
                },
            ),
    {
        assert(data::views(self.untracked@).len() == self.untracked@.len());
        let ghost before = self@;
        assert(self.next < self.untracked.len());
        assert(before.untracked[self.next as int] == self.untracked@[self.next as int]@);
        if let Some(content) = content {
            let (lines, _) = take_lines(content, MAX_PREVIEW_LINES);
            assert(data::views(lines@).len() == lines@.len());
            let mut piece = "\n--- /dev/null\n+++ b/".to_owned();
            piece.append(self.untracked[self.next].as_str());
            piece.append("\n@@ -0,0 +1,");
            piece.append(text::decimal_u64(lines.len() as u64).as_str());
            piece.append(" @@\n");
            piece.append(text::join(&lines, "\n").as_str());
            piece.append("\n");
            assert(piece@ == preview(before.untracked[before.next], content@));
            self.truncated = add_piece(&mut self.diff, self.truncated, piece.as_str());
        }
        self.next = skip_noise(&self.untracked, self.next + 1);
        assert(self@ =~= before.after_content(
            match content {
                Some(c) => Some(c@),
                None => None,
            },
        ));
    }

    /// The answer.
    pub fn answer(&self) -> (r: Json)
        ensures
            r@ == self@.answer(),
    {
        broadcast use json::lemma_view;

        assert(data::views(self.files@).len() == self.files@.len());
        let files_truncated = self.files.len() > MAX_CHANGED_FILES_SUMMARY;
        let shown: usize = if files_truncated {
            MAX_CHANGED_FILES_SUMMARY
        } else {
            self.files.len()
        };
        let ghost listed = data::views(self.files@).take(shown as int);
        assert(!files_truncated ==> listed =~= data::views(self.files@));
        let ghost all = listed.map_values(
            |f: ChangedFileView| JsonView::Object(file_members(f)),
        );
        let mut files: Vec<Json> = Vec::new();
        let mut i: usize = 0;
        assert(data::views(files@) =~= all.take(0));
        while i < shown
            invariant
                i <= shown <= self.files@.len(),
                listed == data::views(self.files@).take(shown as int),
                all == listed.map_values(|f: ChangedFileView| JsonView::Object(file_members(f))),
                data::views(files@) == all.take(i as int),
            decreases shown - i,
        {
            let ghost before = data::views(files@);
            let value = file_json(&self.files[i]);
            files.push(value);
            assert(data::views(files@) =~= before.push(value@));
            i += 1;
            assert(listed[i - 1] == self.files@[i - 1]@);
            assert(all.take(i as int) =~= all.take(i - 1).push(all[i - 1]));
        }
        assert(all.take(i as int) =~= all);
        let truncated = self.truncated || files_truncated;
        let mut members: Vec<(String, Json)> = Vec::new();
        json::put(&mut members, "is_git_repo", Json::Bool(true));
        json::put(&mut members, "branch", json::from_optional(&self.branch));
        json::put(&mut members, "path", Json::String(self.workspace.clone()));
        json::put(&mut members, "has_changes", Json::Bool(true));
        json::put(&mut members, "changed_files_count", json::from_count(self.files.len()));
        json::put(&mut members, "files", Json::Array(files));
        json::put(&mut members, "diff", Json::String(self.diff.clone()));
        json::put(&mut members, "truncated", Json::Bool(truncated));
        assert(json::member_views(members@) =~= seq![
            ("is_git_repo"@, JsonView::Bool(true)),
            ("branch"@, json::optional_text(self@.branch)),
            ("path"@, JsonView::String(self@.workspace)),
            ("has_changes"@, JsonView::Bool(true)),
            ("changed_files_count"@, json::count(self@.files.len())),
            ("files"@, files_json(listed)),
            ("diff"@, JsonView::String(self@.diff)),
            ("truncated"@, JsonView::Bool(self@.truncated || self@.files_truncated())),
        ]);
        if files_truncated {
            json::put(&mut members, "files_truncated", Json::Bool(true));
        }
        if truncated {
            json::put(
                &mut members,
                "hint",
                Json::String(
                    "Diff or file list was truncated due to large size. Call `InspectChanges(path=\"<path>\")` to inspect the detailed diff of a specific file.".to_owned(),
                ),
            );
        }
        Json::Object(members)
    }
}

/// Whatever the differences and the new files are, no more than the budget is shown, a cut is told,
/// and once something was cut no further file is read.
pub proof fn law_budget_is_kept(summary: ChangeSummaryView, content: Option<Seq<char>>)
    requires
        summary.wf(),
        summary.wanted() is Some,
    ensures
        ({
            let next = summary.after_content(content);
            &&& next.diff.len() <= MAX_OUTPUT_CHARS
            &&& summary.diff.is_prefix_of(next.diff)
            &&& next.truncated ==> next.wanted() is None && next.diff.len() == MAX_OUTPUT_CHARS
        }),
{
    if let Some(c) = content {
        let piece = preview(summary.untracked[summary.next], c);
        let shown = with_piece((summary.diff, summary.truncated), piece);
        assert(summary.diff =~= shown.0.take(summary.diff.len() as int));
    } else {
        assert(summary.diff =~= summary.diff.take(summary.diff.len() as int));
    }
}

/// Every new file that can be shown is read in turn until the budget is spent: each step moves to a
/// later path and passes over noise only.
pub proof fn law_previews_advance(summary: ChangeSummaryView, content: Option<Seq<char>>, i: int)
    requires
        summary.wf(),
        summary.wanted() is Some,
    ensures
        ({
            let next = summary.after_content(content);
            &&& summary.next < next.next <= summary.untracked.len()
            &&& summary.next < i < next.next ==> noise(summary.untracked[i])
        }),
{
    lemma_next_shown(summary.untracked, summary.next + 1, i);
}

proof fn lemma_next_shown(paths: Seq<Seq<char>>, from: int, i: int)
    requires
        0 <= from <= paths.len(),
    ensures
        from <= next_shown(paths, from) <= paths.len(),
        from <= i < next_shown(paths, from) ==> noise(paths[i]),
    decreases paths.len() - from,
{
    if from < paths.len() && noise(paths[from]) {
        lemma_next_shown(paths, from + 1, i);
    }
}

proof fn lemma_answer_names_differ()
    ensures
        "is_git_repo"@ != "has_changes"@,
        "is_git_repo"@ != "target_file"@,
        "target_file"@ != "has_changes"@,
        "branch"@ != "status"@,
        "path"@ != "diff"@,
        "path"@ != "hint"@,
        "diff"@ != "hint"@,
        "is_git_repo"@.len() == 11,
        "branch"@.len() == 6,
        "path"@.len() == 4,
        "target_file"@.len() == 11,
        "has_changes"@.len() == 11,
        "status"@.len() == 6,
        "diff"@.len() == 4,
        "truncated"@.len() == 9,
        "message"@.len() == 7,
        "changed_files_count"@.len() == 19,
        "files"@.len() == 5,
        "files_truncated"@.len() == 15,
        "hint"@.len() == 4,
{
    reveal_strlit("is_git_repo");
    reveal_strlit("branch");
    reveal_strlit("path");
    reveal_strlit("target_file");
    reveal_strlit("has_changes");
    reveal_strlit("status");
    reveal_strlit("diff");
    reveal_strlit("truncated");
    reveal_strlit("message");
    reveal_strlit("changed_files_count");
    reveal_strlit("files");
    reveal_strlit("files_truncated");
    reveal_strlit("hint");
    assert("is_git_repo"@[0] == 'i');
    assert("has_changes"@[0] == 'h');
    assert("target_file"@[0] == 't');
    assert("branch"@[0] == 'b');
    assert("status"@[0] == 's');
    assert("path"@[0] == 'p');
    assert("diff"@[0] == 'd');
    assert("hint"@[0] == 'h');
}

proof fn lemma_changed_tells(
    file: SingleFileView,
    status: Option<Seq<char>>,
    diff: Seq<char>,
    truncated: bool,
)
    ensures
        ({
            let answer = file.changed(status, diff, truncated);
            &&& answer.at("path"@) == Some(JsonView::String(file.workspace))
            &&& answer.at("target_file"@) == Some(JsonView::String(file.target))
            &&& answer.at("has_changes"@) == Some(JsonView::Bool(true))
            &&& answer.at("diff"@) == Some(JsonView::String(diff))
            &&& answer.at("truncated"@) == Some(JsonView::Bool(truncated))
            &&& status matches Some(status) ==> answer.at("status"@) == Some(
                JsonView::String(status),
            )
        }),
{
    lemma_answer_names_differ();
    let members = file.changed(status, diff, truncated)->Object_0;
    let n = members.len() as int;
    json::lemma_member_at(members, 2);
    json::lemma_member_at(members, 3);
    json::lemma_member_at(members, 4);
    json::lemma_member_at(members, n - 2);
    json::lemma_member_at(members, n - 1);
    if status is Some {
        json::lemma_member_at(members, 5);
    }
}

/// The differences of a file are shown, up to eight thousand characters of them, and it is told
/// whether there are more. Where git prints none its status is asked for.
pub proof fn law_differences_of_a_file_are_shown(file: SingleFileView, diff: Seq<char>)
    ensures
        ({
            let step = file.after_diff(diff);
            &&& diff.len() == 0 <==> step is AskStatus
            &&& diff.len() > 0 ==> {
                let answer = step->Done_0;
                &&& step is Done
                &&& answer.at("target_file"@) == Some(JsonView::String(file.target))
                &&& answer.at("has_changes"@) == Some(JsonView::Bool(true))
                &&& !noise(file.target) && diff.len() <= 8_000 ==> answer.at("diff"@) == Some(
                    JsonView::String(diff),
                ) && answer.at("truncated"@) == Some(JsonView::Bool(false))
                &&& !noise(file.target) && diff.len() > 8_000 ==> answer.at("diff"@) == Some(
                    JsonView::String(diff.take(8_000)),
                ) && answer.at("truncated"@) == Some(JsonView::Bool(true))
            }
        }),
{
    lemma_changed_tells(
        file,
        None,
        text::first_chars(diff, MAX_OUTPUT_CHARS as int),
        diff.len() > MAX_OUTPUT_CHARS,
    );
    lemma_changed_tells(
        file,
        Some("Modified (Noise/Binary file)"@),
        "+++ "@ + file.target + " (Noise or binary file changed, full diff suppressed)"@,
        false,
    );
}

/// A file that git says nothing of has no changes. One that git does not know is read, unless its
/// content is of no use; of any other it is told what happened to it.
pub proof fn law_status_of_a_file_is_told(
    file: SingleFileView,
    printed_nothing: bool,
    code: Seq<char>,
)
    ensures
        ({
            let step = file.after_status(printed_nothing, code);
            &&& printed_nothing ==> step is Done && step->Done_0.at("has_changes"@) == Some(
                JsonView::Bool(false),
            )
            &&& !printed_nothing && text::starts(code, "??"@) ==> (step is ReadFile <==> !noise(
                file.target,
            ))
            &&& !printed_nothing && !text::starts(code, "??"@) ==> {
                &&& step is Done
                &&& step->Done_0.at("has_changes"@) == Some(JsonView::Bool(true))
                &&& step->Done_0.at("status"@) == Some(JsonView::String(described_status(code)))
            }
        }),
{
    lemma_answer_names_differ();
    json::lemma_member_at(file.unchanged()->Object_0, 4);
    lemma_changed_tells(
        file,
        Some(described_status(code)),
        "=== "@ + file.target + " ("@ + described_status(code) + ") ==="@,
        false,
    );
}

/// What a status says is what its letters stand for.
pub proof fn law_status_letters_are_read()
    ensures
        described_status("A "@) == "Added"@,
        described_status(" A"@) == "Added"@,
        described_status("AM"@) == "Added"@,
        described_status("D "@) == "Deleted"@,
        described_status(" D"@) == "Deleted"@,
        described_status("R "@) == "Renamed"@,
        described_status("RM"@) == "Renamed"@,
        described_status("M "@) == "Modified"@,
        described_status(" M"@) == "Modified"@,
        described_status("MM"@) == "Modified"@,
{
    reveal_strlit("A ");
    reveal_strlit(" A");
    reveal_strlit("AM");
    reveal_strlit("AD");
    reveal_strlit("D ");
    reveal_strlit(" D");
    reveal_strlit("R ");
    reveal_strlit(" R");
    reveal_strlit("RM");
    reveal_strlit("RD");
    reveal_strlit("M ");
    reveal_strlit(" M");
    reveal_strlit("MM");
    assert("A "@[0] == 'A' && " A"@[0] == ' ' && " A"@[1] == 'A' && "AM"@[0] == 'A' && "AD"@[0]
        == 'A');
    assert("D "@[0] == 'D' && " D"@[0] == ' ' && " D"@[1] == 'D');
    assert("R "@[0] == 'R' && " R"@[0] == ' ' && " R"@[1] == 'R' && "RM"@[0] == 'R' && "RD"@[0]
        == 'R');
    assert("M "@[0] == 'M' && " M"@[0] == ' ' && " M"@[1] == 'M' && "MM"@[0] == 'M');
}

/// A new file that could be read is shown with its first forty lines, and it is told whether there are
/// more.
pub proof fn law_new_file_is_shown(file: SingleFileView, content: Seq<char>)
    ensures
        ({
            let answer = file.after_read(Some(content));
            let lines = text::lines_of(content);
            let diff = answer.at("diff"@)->0->String_0;
            &&& answer.at("has_changes"@) == Some(JsonView::Bool(true))
            &&& answer.at("truncated"@) == Some(JsonView::Bool(lines.len() > 40))
            &&& answer.at("diff"@) is Some
            &&& answer.at("diff"@)->0 is String
            &&& lines.len() <= 40 ==> text::ends(diff, text::joined(lines, "\n"@))
            &&& lines.len() > 40 ==> text::ends(diff, text::joined(lines.take(40), "\n"@))
        }),
{
    let lines = first_lines(content, MAX_UNTRACKED_FILE_LINES as int);
    let body = text::joined(lines, "\n"@);
    let diff = "+++ "@ + file.target + "\n@@ -0,0 +1,"@ + text::decimal(lines.len()) + " @@\n"@
        + body;
    lemma_changed_tells(
        file,
        Some("Untracked (New file)"@),
        diff,
        text::lines_of(content).len() > MAX_UNTRACKED_FILE_LINES,
    );
    let at = diff.len() - body.len();
    assert(diff.subrange(at, at + body.len()) =~= body);
}

/// The differences are those that git printed: with the last commit, or, where there are none, in the
/// working tree; in a repository without commits those of the index and of the working tree, one
/// behind the other. What fails otherwise is told.
pub proof fn law_differences_are_what_git_printed(
    first: GitTextView,
    second: GitTextView,
    reason: Seq<char>,
)
    ensures
        first.success && first.stdout.len() > 0 ==> diff_step(DiffPhaseView::Head, Ok(first))
            == DiffStepView::Done(Ok(first.stdout)),
        first.success && first.stdout.len() == 0 && second.success ==> ({
            let step = diff_step(DiffPhaseView::Head, Ok(first));
            &&& step is Ask
            &&& step->Ask_0.asks() == DiffQuery::Unstaged
            &&& diff_step(step->Ask_0, Ok(second)) == DiffStepView::Done(Ok(second.stdout))
        }),
        !first.success && text::contains_text(first.stderr, "unknown revision"@) ==> diff_step(
            DiffPhaseView::Head,
            Ok(first),
        ) == DiffStepView::Ask(DiffPhaseView::Cached),
        !first.success && !text::contains_text(first.stderr, "unknown revision"@)
            && !text::contains_text(first.stderr, "bad revision 'HEAD'"@) ==> ({
            let step = diff_step(DiffPhaseView::Head, Ok(first));
            step is Done && step->Done_0 is Err
        }),
        first.success && second.success ==> ({
            let step = diff_step(DiffPhaseView::Cached, Ok(first));
            &&& DiffPhaseView::Cached.asks() == DiffQuery::Cached
            &&& step is Ask
            &&& step->Ask_0.asks() == DiffQuery::Unstaged
            &&& diff_step(step->Ask_0, Ok(second)) == DiffStepView::Done(
                Ok(first.stdout + second.stdout),
            )
        }),
        ({
            let step = diff_step(DiffPhaseView::Head, Err(reason));
            step is Done && step->Done_0 is Err
        }),
{
}

/// Git is asked in the workspace, for what is to be compared, and about the file if it is one.
pub proof fn law_git_is_asked_about_the_file(
    workspace: Seq<char>,
    query: DiffQuery,
    file: Option<Seq<char>>,
)
    ensures
        ({
            let arguments = diff_arguments_of(workspace, query, file);
            &&& arguments[0] == "-C"@
            &&& arguments[1] == workspace
            &&& arguments[2] == "diff"@
            &&& query == DiffQuery::Head ==> arguments[3] == "HEAD"@
            &&& query == DiffQuery::Cached ==> arguments[3] == "--cached"@
            &&& query == DiffQuery::Unstaged ==> arguments.len() == (if file is Some {
                8int
            } else {
                6int
            })
            &&& file matches Some(file) ==> arguments.last() == file && arguments[arguments.len()
                - 2] == "--"@
        }),
{
}

/// A count that git printed for a file is kept for that file: the larger one where it is counted
/// twice. Other files keep theirs.
pub proof fn law_counts_are_kept_by_path(
    stats: Map<Seq<char>, FileStat>,
    lines: Seq<Seq<char>>,
    line: Seq<char>,
)
    ensures
        ({
            let before = with_stats(stats, lines);
            let after = with_stats(stats, lines.push(line));
            let fields = text::split_of(line, '\t');
            let path = text::trimmed(fields[2]);
            let added = stat_number(fields[0]);
            let deleted = stat_number(fields[1]);
            &&& line.len() > 0 && fields.len() >= 3 ==> {
                &&& after.contains_key(path)
                &&& !before.contains_key(path) ==> after[path] == (added, deleted)
                &&& before.contains_key(path) ==> after[path].0 >= before[path].0 && after[path].0
                    >= added && (after[path].0 == before[path].0 || after[path].0 == added)
                    && after[path].1 >= before[path].1 && after[path].1 >= deleted && (
                after[path].1 == before[path].1 || after[path].1 == deleted)
                &&& forall|other: Seq<char>|
                    other != path ==> after.contains_key(other) == before.contains_key(other)
                        && #[trigger] after[other] == before[other]
            }
            &&& line.len() == 0 || fields.len() < 3 ==> after == before
        }),
{
    assert(lines.push(line).drop_last() =~= lines);
    assert(lines.push(line).last() == line);
}

/// Whether an entry tells of a file, and is not followed by the path that the file had before.
pub open spec fn plain_entry(chunk: Seq<u8>) -> bool {
    &&& chunk.len() >= 3
    &&& chunk[0] != 82 && chunk[0] != 67
    &&& chunk[1] != 82 && chunk[1] != 67
}

/// Each entry of the status is one changed file, in the order of the entries: with its path, with what
/// its letters say, and with the counts of its path. It is staged where its first letter says so.
pub proof fn law_each_entry_is_a_file(
    chunks: Seq<Seq<u8>>,
    i: int,
    stats: Map<Seq<char>, FileStat>,
)
    requires
        0 <= i <= chunks.len(),
        forall|k: int| i <= k < chunks.len() ==> plain_entry(#[trigger] chunks[k]),
    ensures
        entry_files(chunks, i, stats).len() == chunks.len() - i,
        forall|k: int|
            i <= k < chunks.len() ==> {
                let file = entry_files(chunks, i, stats)[k - i];
                let chunk = #[trigger] chunks[k];
                let x = chunk[0];
                let y = chunk[1];
                let path = text::lenient(chunk.skip(3));
                let untracked = x == 63 && y == 63;
                &&& file.path == path
                &&& untracked ==> file.status == "Untracked"@ && !file.staged && file.added is None
                    && file.deleted is None
                &&& !untracked ==> {
                    &&& file.staged <==> x != 32 && x != 63
                    &&& x == 77 || y == 77 ==> file.status == "Modified"@
                    &&& (x == 65 || y == 65) && x != 77 && y != 77 ==> file.status == "Added"@
                    &&& (x == 68 || y == 68) && x != 77 && y != 77 && x != 65 && y != 65
                        ==> file.status == "Deleted"@
                    &&& stats.contains_key(path) ==> file.added == Some(stats[path].0)
                        && file.deleted == Some(stats[path].1)
                    &&& !stats.contains_key(path) ==> file.added is None && file.deleted is None
                }
            },
    decreases chunks.len() - i,
{
    if i < chunks.len() {
        assert(plain_entry(chunks[i]));
        law_each_entry_is_a_file(chunks, i + 1, stats);
        let rest = entry_files(chunks, i + 1, stats);
        let all = entry_files(chunks, i, stats);
        assert forall|k: int| i < k < chunks.len() && plain_entry(#[trigger] chunks[k]) implies all[k
            - i] == rest[k - (i + 1)] by {}
    }
}

/// A file that was renamed is one changed file under its new path; the old path that follows its entry
/// is none.
pub proof fn law_renamed_file_is_listed_once(
    chunks: Seq<Seq<u8>>,
    i: int,
    stats: Map<Seq<char>, FileStat>,
)
    requires
        0 <= i,
        i + 1 < chunks.len(),
        chunks[i].len() >= 3,
        chunks[i][0] == 82,
        chunks[i][1] == 32,
    ensures
        ({
            let all = entry_files(chunks, i, stats);
            &&& all.len() == 1 + entry_files(chunks, i + 2, stats).len()
            &&& all[0].path == text::lenient(chunks[i].skip(3))
            &&& all[0].status == "Renamed"@
            &&& all[0].staged
            &&& all.drop_first() == entry_files(chunks, i + 2, stats)
        }),
{
    let all = entry_files(chunks, i, stats);
    assert(all.drop_first() =~= entry_files(chunks, i + 2, stats));
}

/// Bytes are cut at the zero bytes among them, and nowhere else.
pub proof fn law_bytes_are_cut_at_zeros(a: Seq<u8>, b: Seq<u8>)
    ensures
        !a.contains(0u8) ==> zero_split(a) == seq![a],
        zero_split(a.push(0u8) + b) == zero_split(a) + zero_split(b),
    decreases a.len() + b.len(),
{
    if !a.contains(0u8) {
        lemma_uncut(a);
    }
    let all = a.push(0u8) + b;
    if b.len() == 0 {
        assert(all =~= a.push(0u8));
        assert(a.push(0u8).drop_last() =~= a);
        assert(zero_split(all) =~= zero_split(a) + zero_split(b));
    } else {
        let rest = b.drop_last();
        law_bytes_are_cut_at_zeros(a, rest);
        assert(all.drop_last() =~= a.push(0u8) + rest);
        assert(all.last() == b.last());
        lemma_some_piece(rest);
        let before = zero_split(a) + zero_split(rest);
        assert(before.last() == zero_split(rest).last());
        assert(before.drop_last() =~= zero_split(a) + zero_split(rest).drop_last());
        assert(zero_split(all) =~= zero_split(a) + zero_split(b));
    }
}

proof fn lemma_some_piece(raw: Seq<u8>)
    ensures
        zero_split(raw).len() > 0,
    decreases raw.len(),
{
    if raw.len() > 0 {
        lemma_some_piece(raw.drop_last());
    }
}

proof fn lemma_uncut(raw: Seq<u8>)
    requires
        !raw.contains(0u8),
    ensures
        zero_split(raw) == seq![raw],
    decreases raw.len(),
{
    if raw.len() > 0 {
        let rest = raw.drop_last();
        assert forall|i: int| 0 <= i < rest.len() implies rest[i] != 0u8 by {
            assert(rest[i] == raw[i]);
            assert(raw.contains(raw[i]));
        }
        lemma_uncut(rest);
        assert(raw.contains(raw[raw.len() - 1]));
        assert(rest.push(raw.last()) =~= raw);
        assert(zero_split(raw) =~= seq![raw]);
    } else {
        assert(raw =~= Seq::<u8>::empty());
    }
}

/// The paths that git does not know are those of the files that are told to be untracked, in their
/// order.
pub proof fn law_untracked_paths_are_told(files: Seq<ChangedFileView>, file: ChangedFileView)
    ensures
        file.status == "Untracked"@ ==> untracked_paths(files.push(file)) == untracked_paths(
            files,
        ).push(file.path),
        file.status != "Untracked"@ ==> untracked_paths(files.push(file)) == untracked_paths(files),
        untracked_paths(Seq::empty()).len() == 0,
{
    assert(files.push(file).drop_last() =~= files);
}

/// The differences that a reader can use are shown one behind the other, as git printed them, until
/// eight thousand characters are reached; it is told whether some were cut.
pub proof fn law_useful_differences_are_shown(hunks: Seq<Seq<char>>)
    requires
        forall|i: int|
            0 <= i < hunks.len() ==> !text::blank(#[trigger] hunks[i]) && !noise(
                first_line(hunks[i]),
            ),
    ensures
        ({
            let all = hunks.map_values(|hunk: Seq<char>| "diff --git "@ + hunk).flatten();
            let shown = shown_hunks(hunks);
            &&& all.len() <= 8_000 ==> shown == (all, false)
            &&& all.len() > 8_000 ==> shown == (all.take(8_000), true)
        }),
    decreases hunks.len(),
{
    let pieces = hunks.map_values(|hunk: Seq<char>| "diff --git "@ + hunk);
    if hunks.len() > 0 {
        let rest = hunks.drop_last();
        assert forall|i: int| 0 <= i < rest.len() implies !text::blank(#[trigger] rest[i]) && !noise(
            first_line(rest[i]),
        ) by {
            assert(rest[i] == hunks[i]);
        }
        law_useful_differences_are_shown(rest);
        let before = rest.map_values(|hunk: Seq<char>| "diff --git "@ + hunk);
        let piece = "diff --git "@ + hunks.last();
        assert(pieces =~= before.push(piece));
        before.lemma_flatten_push(piece);
        assert(hunks[hunks.len() - 1] == hunks.last());
        let all = pieces.flatten();
        let shown = before.flatten();
        if shown.len() > 8_000 {
            assert(all.take(8_000) =~= shown.take(8_000));
        } else if all.len() > 8_000 {
            assert(all.take(8_000) =~= shown + piece.take(8_000 - shown.len()));
        } else {
            assert(all =~= shown + piece);
        }
    } else {
        assert(pieces =~= Seq::empty());
    }
}

/// Differences of no use to a reader are passed over.
pub proof fn law_noise_is_passed_over(hunks: Seq<Seq<char>>, hunk: Seq<char>)
    requires
        text::blank(hunk) || noise(first_line(hunk)),
    ensures
        shown_hunks(hunks.push(hunk)) == shown_hunks(hunks),
{
    assert(hunks.push(hunk).drop_last() =~= hunks);
}

/// The answer on everything that changed counts all files and lists the first hundred of them; it
/// shows the differences, and says whether anything was left out.
pub proof fn law_summary_tells_all_changes(summary: ChangeSummaryView)
    ensures
        ({
            let answer = summary.answer();
            let listed = answer.at("files"@)->0->Array_0;
            let cut = summary.truncated || summary.files.len() > 100;
            &&& answer.at("has_changes"@) == Some(JsonView::Bool(true))
            &&& answer.at("changed_files_count"@) == Some(json::count(summary.files.len()))
            &&& answer.at("diff"@) == Some(JsonView::String(summary.diff))
            &&& answer.at("truncated"@) == Some(JsonView::Bool(cut))
            &&& answer.at("files"@) is Some
            &&& answer.at("files"@)->0 is Array
            &&& listed.len() == (if summary.files.len() > 100 {
                100
            } else {
                summary.files.len()
            })
            &&& forall|i: int|
                0 <= i < listed.len() ==> {
                    &&& (#[trigger] listed[i]).at("path"@) == Some(
                        JsonView::String(summary.files[i].path),
                    )
                    &&& listed[i].at("status"@) == Some(
                        JsonView::String(summary.files[i].status),
                    )
                    &&& listed[i].at("staged"@) == Some(JsonView::Bool(summary.files[i].staged))
                    &&& summary.files[i].added matches Some(n) ==> listed[i].at("added"@) == Some(
                        json::count(n as nat),
                    )
                    &&& summary.files[i].deleted matches Some(n) ==> listed[i].at("deleted"@)
                        == Some(json::count(n as nat))
                }
        }),
{
    lemma_answer_names_differ();
    let members = summary.answer()->Object_0;
    json::lemma_member_at(members, 3);
    json::lemma_member_at(members, 4);
    json::lemma_member_at(members, 5);
    json::lemma_member_at(members, 6);
    json::lemma_member_at(members, 7);
    let listed = summary.answer().at("files"@)->0->Array_0;
    assert forall|i: int| 0 <= i < listed.len() implies {
        &&& (#[trigger] listed[i]).at("path"@) == Some(JsonView::String(summary.files[i].path))
        &&& listed[i].at("status"@) == Some(JsonView::String(summary.files[i].status))
        &&& listed[i].at("staged"@) == Some(JsonView::Bool(summary.files[i].staged))
        &&& summary.files[i].added matches Some(n) ==> listed[i].at("added"@) == Some(
            json::count(n as nat),
        )
        &&& summary.files[i].deleted matches Some(n) ==> listed[i].at("deleted"@) == Some(
            json::count(n as nat),
        )
    } by {
        lemma_file_is_told(summary.files[i]);
    }
}

proof fn lemma_file_is_told(file: ChangedFileView)
    ensures
        ({
            let told = JsonView::Object(file_members(file));
            &&& told.at("path"@) == Some(JsonView::String(file.path))
            &&& told.at("status"@) == Some(JsonView::String(file.status))
            &&& told.at("staged"@) == Some(JsonView::Bool(file.staged))
            &&& file.added matches Some(n) ==> told.at("added"@) == Some(json::count(n as nat))
            &&& file.deleted matches Some(n) ==> told.at("deleted"@) == Some(json::count(n as nat))
        }),
{
    reveal_strlit("path");
    reveal_strlit("status");
    reveal_strlit("staged");
    reveal_strlit("added");
    reveal_strlit("deleted");
    assert("path"@.len() == 4 && "status"@.len() == 6 && "staged"@.len() == 6 && "added"@.len() == 5
        && "deleted"@.len() == 7);
    assert("status"@[3] == 't');
    assert("staged"@[3] == 'g');
    let members = file_members(file);
    json::lemma_member_at(members, 0);
    json::lemma_member_at(members, 1);
    json::lemma_member_at(members, 2);
    if file.added is Some {
        json::lemma_member_at(members, 3);
    }
    if file.deleted is Some {
        json::lemma_member_at(members, members.len() - 1);
    }
}

/// A new file is shown behind the differences with its first twenty lines, as far as there is room.
pub proof fn law_new_files_follow_the_differences(summary: ChangeSummaryView, content: Seq<char>)
    requires
        summary.wf(),
        summary.wanted() is Some,
    ensures
        ({
            let next = summary.after_content(Some(content));
            let lines = text::lines_of(content);
            let body = text::joined(
                if lines.len() > 20 {
                    lines.take(20)
                } else {
                    lines
                },
                "\n"@,
            );
            &&& next.files == summary.files
            &&& !next.truncated ==> text::ends(next.diff, body + "\n"@) && text::contains_text(
                next.diff.skip(summary.diff.len() as int),
                summary.untracked[summary.next],
            )
        }),
        summary.after_content(None).diff == summary.diff,
        summary.after_content(None).truncated == summary.truncated,
{
    let path = summary.untracked[summary.next];
    let lines = first_lines(content, MAX_PREVIEW_LINES as int);
    let body = text::joined(lines, "\n"@) + "\n"@;
    let piece = preview(path, content);
    let next = summary.after_content(Some(content));
    if !next.truncated {
        assert(next.diff == summary.diff + piece);
        let at = next.diff.len() - body.len();
        assert(next.diff.subrange(at, at + body.len()) =~= body);
        assert(next.diff.skip(summary.diff.len() as int) =~= piece);
        let head = "\n--- /dev/null\n+++ b/"@;
        assert(piece.subrange(head.len() as int, (head.len() + path.len()) as int) =~= path);
        assert(text::occurs_at(piece, path, head.len() as int));
    }
}

/// A path inside the repository is told with slashes; a relative one as it is, an absolute one without
/// the root.
pub proof fn law_paths_are_told_inside_the_repository(
    target: Seq<char>,
    inner: Seq<char>,
    other: Option<Seq<char>>,
)
    requires
        !target.contains('\\'),
        !inner.contains('\\'),
    ensures
        relative_path(target, true, other, other) == target,
        relative_path(target, false, Some(inner), other) == inner,
        relative_path(target, false, None, None) == target,
{
    assert forall|i: int| 0 <= i < target.len() implies target[i] != '\\' by {
        assert(target.contains(target[i]));
    }
    assert forall|i: int| 0 <= i < inner.len() implies inner[i] != '\\' by {
        assert(inner.contains(inner[i]));
    }
    assert(text::replaced(target, '\\', '/') =~= target);
    assert(text::replaced(inner, '\\', '/') =~= inner);
}

/// A directory is inspected whole; a file is inspected in the directory that it is in.
pub proof fn law_target_is_found(path: Seq<char>, parent: Seq<char>)
    requires
        parent.len() > 0,
    ensures
        target_of(path, true, false, true, Some(parent)).directory == path,
        target_of(path, true, false, true, Some(parent)).file is None,
        target_of(path, false, true, true, Some(parent)).directory == parent,
        target_of(path, false, true, true, Some(parent)).file == Some(path),
        target_of(path, false, true, false, None).directory == "."@,
{
}

} // verus!
