//! Indexed searches: which are accepted, how the search program is asked, and what it answered.
use crate::data;
use crate::json::{Json, JsonView};
use crate::search::outcome::{TgrepFailure, TgrepFailureView, TgrepOutcome, TgrepOutcomeView};
use crate::text;
use vstd::prelude::*;

verus! {

/// Whether a character is a letter or a number in any script.
pub uninterp spec fn alphanumeric(c: char) -> bool;

/// Tells letters and numbers through `char::is_alphanumeric`. The answer is a function of the
/// character alone; of ASCII characters the letters and the digits are.
#[verifier::external_body]
pub(crate) fn char_is_alphanumeric(c: char) -> (r: bool)
    ensures
        r == alphanumeric(c),
        c as u32 <= 0x7F ==> r == text::ascii_alphanumeric(c),
{
    c.is_alphanumeric()
}

/// Whether a character can stand in the name of a file type, given whether it is a letter or number.
pub open spec fn type_char(c: char, letter: bool) -> bool {
    letter || c == '_' || c == '-' || c == '+'
}

/// Whether every character can stand in the name of a file type.
pub open spec fn file_kind(s: Seq<char>) -> bool {
    forall|i: int| 0 <= i < s.len() ==> type_char(#[trigger] s[i], alphanumeric(s[i]))
}

fn is_file_kind(s: &str) -> (r: bool)
    ensures
        r == file_kind(s@),
{
    let chars = text::to_chars(s);
    let mut i: usize = 0;
    while i < chars.len()
        invariant
            i <= chars@.len(),
            chars@ == s@,
            forall|k: int| 0 <= k < i ==> type_char(#[trigger] s@[k], alphanumeric(s@[k])),
        decreases chars@.len() - i,
    {
        let c = chars[i];
        assert(s@[i as int] == c);
        if !(char_is_alphanumeric(c) || c == '_' || c == '-' || c == '+') {
            return false;
        }
        i += 1;
    }
    true
}

/// A request that is wrong.
pub open spec fn invalid(reason: Seq<char>) -> Result<(), TgrepFailureView> {
    Err(TgrepFailureView::InvalidRequest { reason })
}

/// Whether a member is there and is not a number that can be counted to.
pub open spec fn bad_count(arguments: JsonView, key: Seq<char>) -> bool {
    arguments.at(key) matches Some(value) && value.unsigned() is None
}

/// What is wrong with the type of a request, if anything.
pub open spec fn type_fault(
    value: Option<JsonView>,
    named: spec_fn(Seq<char>) -> bool,
) -> Option<Seq<char>> {
    match value {
        None => None,
        Some(JsonView::Null) => None,
        Some(JsonView::String(given)) => if text::blank(given) || named(text::trimmed(given)) {
            None
        } else {
            Some("type must be a valid file type identifier (e.g. js, py, rust)"@)
        },
        Some(_) => Some("type must be a string if provided"@),
    }
}

/// Whether a request is one that the search program can answer, and else what is wrong with it.
/// `named` tells the names of file types.
pub open spec fn accepted(
    arguments: JsonView,
    named: spec_fn(Seq<char>) -> bool,
) -> Result<(), TgrepFailureView> {
    let pattern = arguments.text_at("pattern"@);
    let fault = type_fault(arguments.at("type"@), named);
    if !(pattern matches Some(pattern) && pattern.len() > 0) {
        invalid("pattern must be non-empty"@)
    } else if fault is Some {
        invalid(fault->0)
    } else if arguments.at("offset"@) matches Some(offset) && offset.unsigned() matches Some(n) && n
        > 0 {
        Err(
            TgrepFailureView::UnsupportedRequest { reason: "offset is not supported by tgrep"@ },
        )
    } else if arguments.at("sort"@) is Some || arguments.at("sort_ascending"@) is Some {
        Err(
            TgrepFailureView::UnsupportedRequest {
                reason: "sort options are not supported by tgrep"@,
            },
        )
    } else if bad_count(arguments, "-A"@) {
        invalid("-A must be a non-negative integer"@)
    } else if bad_count(arguments, "-B"@) {
        invalid("-B must be a non-negative integer"@)
    } else if bad_count(arguments, "-C"@) {
        invalid("-C must be a non-negative integer"@)
    } else if bad_count(arguments, "head_limit"@) {
        invalid("head_limit must be a non-negative integer"@)
    } else if bad_count(arguments, "offset"@) {
        invalid("offset must be a non-negative integer"@)
    } else {
        Ok(())
    }
}

fn refuse(reason: &str) -> (r: Result<(), TgrepFailure>)
    ensures
        r matches Err(e) && e@ == (TgrepFailureView::InvalidRequest { reason: reason@ }),
{
    Err(TgrepFailure::InvalidRequest { reason: reason.to_owned() })
}

fn has_bad_count(arguments: &Json, key: &str) -> (r: bool)
    ensures
        r == bad_count(arguments@, key@),
{
    match arguments.get(key) {
        Some(value) => match value.as_u64() {
            Some(_) => false,
            None => true,
        },
        None => false,
    }
}

/// Whether a request is accepted, given whether its type is the name of a file type.
pub fn validate_with_type(arguments: &Json, type_is_name: bool) -> (r: Result<(), TgrepFailure>)
    ensures
        ({
            let expected = accepted(arguments@, |s: Seq<char>| type_is_name);
            match r {
                Ok(()) => expected is Ok,
                Err(e) => expected == Err::<(), TgrepFailureView>(e@),
            }
        }),
{
    let pattern_given = match arguments.get_str("pattern") {
        Some(pattern) => !pattern.is_empty(),
        None => false,
    };
    if !pattern_given {
        return refuse("pattern must be non-empty");
    }
    if let Some(value) = arguments.get("type") {
        match value {
            Json::Null => {},
            Json::String(given) => {
                if !text::is_blank(given.as_str()) && !type_is_name {
                    return refuse("type must be a valid file type identifier (e.g. js, py, rust)");
                }
            },
            _ => {
                return refuse("type must be a string if provided");
            },
        }
    }
    if let Some(offset) = arguments.get("offset") {
        if let Some(n) = offset.as_u64() {
            if n > 0 {
                return Err(
                    TgrepFailure::UnsupportedRequest {
                        reason: "offset is not supported by tgrep".to_owned(),
                    },
                );
            }
        }
    }
    if arguments.get("sort").is_some() || arguments.get("sort_ascending").is_some() {
        return Err(
            TgrepFailure::UnsupportedRequest {
                reason: "sort options are not supported by tgrep".to_owned(),
            },
        );
    }
    if has_bad_count(arguments, "-A") {
        return refuse("-A must be a non-negative integer");
    }
    if has_bad_count(arguments, "-B") {
        return refuse("-B must be a non-negative integer");
    }
    if has_bad_count(arguments, "-C") {
        return refuse("-C must be a non-negative integer");
    }
    if has_bad_count(arguments, "head_limit") {
        return refuse("head_limit must be a non-negative integer");
    }
    if has_bad_count(arguments, "offset") {
        return refuse("offset must be a non-negative integer");
    }
    Ok(())
}

/// Whether a request is one that the search program can answer, and else what is wrong with it.
pub fn validate_tgrep_arguments(arguments: &Json) -> (r: Result<(), TgrepFailure>)
    ensures
        ({
            let expected = accepted(arguments@, |s: Seq<char>| file_kind(s));
            match r {
                Ok(()) => expected is Ok,
                Err(e) => expected == Err::<(), TgrepFailureView>(e@),
            }
        }),
{
    let type_is_name = match arguments.get_str("type") {
        Some(given) => {
            let shown = text::trim(given);
            is_file_kind(shown.as_str())
        },
        None => false,
    };
    validate_with_type(arguments, type_is_name)
}

/// Whether a search can be made: the request is accepted and the search program was found.
pub fn prepare_search(arguments: &Json, binary_found: bool) -> (r: Result<(), TgrepFailure>)
    ensures
        ({
            let expected = accepted(arguments@, |s: Seq<char>| file_kind(s));
            match r {
                Ok(()) => expected is Ok && binary_found,
                Err(e) => if expected is Err {
                    expected == Err::<(), TgrepFailureView>(e@)
                } else {
                    !binary_found && e@ is Unavailable
                },
            }
        }),
{
    match validate_tgrep_arguments(arguments) {
        Err(failure) => Err(failure),
        Ok(()) => if binary_found {
            Ok(())
        } else {
            Err(TgrepFailure::Unavailable)
        },
    }
}

/// The path that a request searches, as it is written.
pub open spec fn written_path(arguments: JsonView) -> Seq<char> {
    let named = match arguments.at("path"@) {
        Some(value) => Some(value),
        None => arguments.at("target_directory"@),
    };
    match named {
        Some(value) => match value.text() {
            Some(path) => if text::blank(path) {
                "."@
            } else {
                text::trimmed(path)
            },
            None => "."@,
        },
        None => "."@,
    }
}

/// The path that a request searches, as it is written.
pub fn search_path(arguments: &Json) -> (r: String)
    ensures
        r@ == written_path(arguments@),
{
    let named = match arguments.get("path") {
        Some(value) => Some(value),
        None => arguments.get("target_directory"),
    };
    match named {
        Some(value) => match value.as_str() {
            Some(path) => if text::is_blank(path) {
                ".".to_owned()
            } else {
                text::trim(path)
            },
            None => ".".to_owned(),
        },
        None => ".".to_owned(),
    }
}

/// The path that is searched: an absolute path as it is, any other inside the current directory, if
/// that is known.
pub fn tgrep_workspace_path(written: &str, is_absolute: bool, in_current: Option<&str>) -> (r:
    String)
    ensures
        r@ == (match in_current {
            Some(joined) => if is_absolute {
                written@
            } else {
                joined@
            },
            None => written@,
        }),
{
    match in_current {
        Some(joined) => if is_absolute {
            written.to_owned()
        } else {
            joined.to_owned()
        },
        None => written.to_owned(),
    }
}

/// Which index a search uses.
#[derive(Debug)]
pub enum IndexUse {
    Unindexed,
    At(String),
    Default,
}

#[verifier::ext_equal]
pub enum IndexUseView {
    Unindexed,
    At(Seq<char>),
    Default,
}

impl View for IndexUse {
    type V = IndexUseView;

    open spec fn view(&self) -> IndexUseView {
        match self {
            IndexUse::Unindexed => IndexUseView::Unindexed,
            IndexUse::At(path) => IndexUseView::At(path@),
            IndexUse::Default => IndexUseView::Default,
        }
    }
}

/// Which index a search uses: none where it must not or where the root is not one to index, else
/// the one at the root, if it is there.
pub fn index_use(force_no_index: bool, indexable: bool, index_dir: Option<&str>) -> (r: IndexUse)
    ensures
        r@ == (if force_no_index || !indexable {
            IndexUseView::Unindexed
        } else {
            match index_dir {
                Some(path) => IndexUseView::At(path@),
                None => IndexUseView::Default,
            }
        }),
{
    if force_no_index || !indexable {
        IndexUse::Unindexed
    } else {
        match index_dir {
            Some(path) => IndexUse::At(path.to_owned()),
            None => IndexUse::Default,
        }
    }
}

/// The number of a member, if it is one.
pub open spec fn count_at(arguments: JsonView, key: Seq<char>) -> Option<u64> {
    match arguments.at(key) {
        Some(value) => value.unsigned(),
        None => None,
    }
}

/// Whether a member is true.
pub open spec fn flag_at(arguments: JsonView, key: Seq<char>) -> bool {
    match arguments.at(key) {
        Some(value) => value.boolean() == Some(true),
        None => false,
    }
}

/// The arguments with an option and its number, if the number is given.
pub open spec fn with_count(out: Seq<Seq<char>>, flag: Seq<char>, value: Option<u64>) -> Seq<
    Seq<char>,
> {
    match value {
        Some(n) => out.push(flag).push(text::decimal(n as nat)),
        None => out,
    }
}

/// The arguments with an option and its text, if the text is given.
pub open spec fn with_option(
    out: Seq<Seq<char>>,
    flag: Seq<char>,
    value: Option<Seq<char>>,
) -> Seq<Seq<char>> {
    match value {
        Some(s) => out.push(flag).push(s),
        None => out,
    }
}

/// The arguments with a flag, if it is set.
pub open spec fn with_flag(out: Seq<Seq<char>>, flag: Seq<char>, set: bool) -> Seq<Seq<char>> {
    if set {
        out.push(flag)
    } else {
        out
    }
}

/// The mode that a request asks for.
pub open spec fn mode_of(arguments: JsonView) -> Seq<char> {
    match arguments.text_at("output_mode"@) {
        Some(mode) => mode,
        None => "content"@,
    }
}

/// The pattern that a request searches for.
pub open spec fn pattern_of(arguments: JsonView) -> Seq<char> {
    match arguments.text_at("pattern"@) {
        Some(pattern) => pattern,
        None => Seq::empty(),
    }
}

/// The names of files that a request is limited to.
pub open spec fn glob_of(arguments: JsonView) -> Option<Seq<char>> {
    let named = match arguments.at("glob"@) {
        Some(value) => Some(value),
        None => arguments.at("glob_pattern"@),
    };
    match named {
        Some(value) => value.text(),
        None => None,
    }
}

/// The type of files that a request is limited to.
pub open spec fn type_of(arguments: JsonView) -> Option<Seq<char>> {
    match arguments.text_at("type"@) {
        Some(given) => if text::blank(given) {
            None
        } else {
            Some(text::trimmed(given))
        },
        None => None,
    }
}

/// The arguments with which the search program is asked.
pub open spec fn command_of(
    arguments: JsonView,
    index: IndexUseView,
    target: Seq<char>,
) -> Seq<Seq<char>> {
    let mode = mode_of(arguments);
    let pattern = pattern_of(arguments);
    let start = seq!["--color"@, "never"@, "--no-heading"@];
    let indexed = match index {
        IndexUseView::Unindexed => start.push("--no-index"@),
        IndexUseView::At(path) => start.push("--index-path"@).push(path),
        IndexUseView::Default => start,
    };
    let shown = if mode == "files_with_matches"@ {
        indexed.push("-l"@)
    } else if mode == "count"@ {
        indexed.push("-c"@)
    } else {
        indexed.push("-n"@).push("-H"@)
    };
    let cased = with_flag(shown, "-i"@, flag_at(arguments, "-i"@));
    let before = with_count(cased, "-B"@, count_at(arguments, "-B"@));
    let after = with_count(before, "-A"@, count_at(arguments, "-A"@));
    let around = with_count(after, "-C"@, count_at(arguments, "-C"@));
    let globbed = with_option(around, "-g"@, glob_of(arguments));
    let multiline = with_flag(globbed, "-U"@, flag_at(arguments, "multiline"@));
    let typed = with_option(multiline, "-t"@, type_of(arguments));
    let limited = with_count(typed, "-m"@, count_at(arguments, "head_limit"@));
    let asked = if pattern.len() > 0 {
        limited.push(pattern)
    } else if mode == "files_with_matches"@ {
        limited.push(".*"@)
    } else {
        limited
    };
    asked.push(target)
}

fn push_text(items: &mut Vec<String>, item: &str)
    ensures
        data::views(final(items)@) == data::views(old(items)@).push(item@),
{
    items.push(item.to_owned());
    assert(data::views(items@) =~= data::views(old(items)@).push(item@));
}

fn push_count(items: &mut Vec<String>, flag: &str, arguments: &Json, key: &str)
    ensures
        data::views(final(items)@) == with_count(
            data::views(old(items)@),
            flag@,
            count_at(arguments@, key@),
        ),
{
    if let Some(value) = arguments.get(key) {
        if let Some(n) = value.as_u64() {
            push_text(items, flag);
            let number = text::decimal_u64(n);
            push_text(items, number.as_str());
        }
    }
}

fn push_flag(items: &mut Vec<String>, flag: &str, arguments: &Json, key: &str)
    ensures
        data::views(final(items)@) == with_flag(
            data::views(old(items)@),
            flag@,
            flag_at(arguments@, key@),
        ),
{
    if let Some(value) = arguments.get(key) {
        if let Some(set) = value.as_bool() {
            if set {
                push_text(items, flag);
            }
        }
    }
}

/// The arguments with which the search program is asked.
pub fn tgrep_arguments(arguments: &Json, index: &IndexUse, target: &str) -> (r: Vec<String>)
    ensures
        data::views(r@) == command_of(arguments@, index@, target@),
{
    let mode = match arguments.get_str("output_mode") {
        Some(mode) => mode,
        None => "content",
    };
    let mut args: Vec<String> = Vec::new();
    push_text(&mut args, "--color");
    push_text(&mut args, "never");
    push_text(&mut args, "--no-heading");
    assert(data::views(args@) =~= seq!["--color"@, "never"@, "--no-heading"@]);
    match index {
        IndexUse::Unindexed => push_text(&mut args, "--no-index"),
        IndexUse::At(path) => {
            push_text(&mut args, "--index-path");
            push_text(&mut args, path.as_str());
        },
        IndexUse::Default => {},
    }
    let list_files = text::same(mode, "files_with_matches");
    if list_files {
        push_text(&mut args, "-l");
    } else if text::same(mode, "count") {
        push_text(&mut args, "-c");
    } else {
        push_text(&mut args, "-n");
        push_text(&mut args, "-H");
    }
    push_flag(&mut args, "-i", arguments, "-i");
    push_count(&mut args, "-B", arguments, "-B");
    push_count(&mut args, "-A", arguments, "-A");
    push_count(&mut args, "-C", arguments, "-C");
    let glob = match arguments.get("glob") {
        Some(value) => Some(value),
        None => arguments.get("glob_pattern"),
    };
    if let Some(value) = glob {
        if let Some(glob) = value.as_str() {
            push_text(&mut args, "-g");
            push_text(&mut args, glob);
        }
    }
    push_flag(&mut args, "-U", arguments, "multiline");
    if let Some(given) = arguments.get_str("type") {
        if !text::is_blank(given) {
            let shown = text::trim(given);
            push_text(&mut args, "-t");
            push_text(&mut args, shown.as_str());
        }
    }
    push_count(&mut args, "-m", arguments, "head_limit");
    let pattern = match arguments.get_str("pattern") {
        Some(pattern) => pattern,
        None => {
            proof {
                reveal_strlit("");
                assert(""@ =~= Seq::<char>::empty());
            }
            ""
        },
    };
    if !pattern.is_empty() {
        push_text(&mut args, pattern);
    } else if list_files {
        push_text(&mut args, ".*");
    }
    push_text(&mut args, target);
    args
}

/// A search program that ran: its exit code, if it exited, and what it printed.
#[derive(Debug)]
pub struct TgrepRun {
    pub code: Option<i32>,
    pub stdout: String,
    pub stderr: String,
}

impl TgrepRun {
    /// A search program that ran, from the bytes that it printed.
    pub fn read(code: Option<i32>, stdout: &[u8], stderr: &[u8]) -> (r: Self)
        ensures
            r.code == code,
            r.stdout@ == text::lenient(stdout@),
            r.stderr@ == text::lenient(stderr@),
    {
        TgrepRun { code, stdout: text::lossy_text(stdout), stderr: text::lossy_text(stderr) }
    }
}

/// An exit code as it is told.
pub open spec fn shown_code(code: Option<i32>) -> Seq<char> {
    match code {
        Some(n) => "Some("@ + text::decimal_int(n as int) + ")"@,
        None => "None"@,
    }
}

/// What a search came to: nothing found is told by exit code 1 or by printing nothing, and any other
/// exit is a failure.
pub open spec fn outcome_of(code: Option<i32>, stdout: Seq<char>, stderr: Seq<char>) ->
    TgrepOutcomeView {
    if code == Some(0i32) {
        if text::blank(stdout) {
            TgrepOutcomeView::NoMatch
        } else {
            TgrepOutcomeView::Match(text::trimmed(stdout))
        }
    } else if code == Some(1i32) {
        TgrepOutcomeView::NoMatch
    } else {
        TgrepOutcomeView::Failure(
            TgrepFailureView::Infrastructure {
                reason: if text::blank(stderr) {
                    "tgrep exited with code "@ + shown_code(code)
                } else {
                    "tgrep error: "@ + text::trimmed(stderr)
                },
            },
        )
    }
}

/// What a search came to, from the search program or the reason why it could not be started.
pub fn tgrep_outcome(run: Result<TgrepRun, String>) -> (r: TgrepOutcome)
    ensures
        r@ == (match run {
            Ok(run) => outcome_of(run.code, run.stdout@, run.stderr@),
            Err(reason) => TgrepOutcomeView::Failure(
                TgrepFailureView::Infrastructure { reason: "failed to spawn tgrep: "@ + reason@ },
            ),
        }),
{
    let run = match run {
        Ok(run) => run,
        Err(reason) => {
            return TgrepOutcome::Failure(
                TgrepFailure::Infrastructure {
                    reason: text::concat("failed to spawn tgrep: ", reason.as_str()),
                },
            );
        },
    };
    match run.code {
        Some(0) => {
            if text::is_blank(run.stdout.as_str()) {
                return TgrepOutcome::NoMatch;
            }
            return TgrepOutcome::Match(text::trim(run.stdout.as_str()));
        },
        Some(1) => {
            return TgrepOutcome::NoMatch;
        },
        _ => {},
    }
    let reason = if text::is_blank(run.stderr.as_str()) {
        match run.code {
            Some(n) => {
                let mut shown = "Some(".to_owned();
                shown.append(text::decimal_i64(n as i64).as_str());
                shown.append(")");
                text::concat("tgrep exited with code ", shown.as_str())
            },
            None => text::concat("tgrep exited with code ", "None"),
        }
    } else {
        let shown = text::trim(run.stderr.as_str());
        text::concat("tgrep error: ", shown.as_str())
    };
    TgrepOutcome::Failure(TgrepFailure::Infrastructure { reason })
}

/// What is said where nothing was found.
pub open spec fn nothing_found(arguments: JsonView) -> Seq<char> {
    "No matches found for pattern `"@ + pattern_of(arguments) + "` in "@ + (
    match arguments.text_at("path"@) {
        Some(path) => path,
        None => "."@,
    })
}

/// The answer of a search.
pub open spec fn answer_of(arguments: JsonView, outcome: TgrepOutcomeView) -> Result<
    Seq<char>,
    Seq<char>,
> {
    match outcome {
        TgrepOutcomeView::Match(output) => Ok(output),
        TgrepOutcomeView::NoMatch => Ok(nothing_found(arguments)),
        TgrepOutcomeView::Failure(failure) => Err(failure.message()),
    }
}

/// The answer of a search.
pub fn tgrep_answer(arguments: &Json, outcome: TgrepOutcome) -> (r: Result<String, String>)
    ensures
        crate::error::result_view(r) == answer_of(arguments@, outcome@),
{
    match outcome {
        TgrepOutcome::Match(output) => Ok(output),
        TgrepOutcome::NoMatch => {
            let pattern = match arguments.get_str("pattern") {
                Some(pattern) => pattern,
                None => {
                    proof {
                        reveal_strlit("");
                        assert(""@ =~= Seq::<char>::empty());
                    }
                    ""
                },
            };
            let path = match arguments.get_str("path") {
                Some(path) => path,
                None => ".",
            };
            let mut message = "No matches found for pattern `".to_owned();
            message.append(pattern);
            message.append("` in ");
            message.append(path);
            Ok(message)
        },
        TgrepOutcome::Failure(failure) => Err(failure.message()),
    }
}

/// A search that found nothing is answered and not failed.
pub proof fn law_no_match_is_an_answer(arguments: JsonView, stderr: Seq<char>)
    ensures
        outcome_of(Some(1), Seq::empty(), stderr) is NoMatch,
        answer_of(arguments, outcome_of(Some(1), Seq::empty(), stderr)) is Ok,
{
}

/// A search program that exits with zero found what it printed, one that exits with one found nothing,
/// and any other has failed, for the reason that it printed where it printed one.
pub proof fn law_exit_code_tells_the_outcome(
    code: Option<i32>,
    stdout: Seq<char>,
    stderr: Seq<char>,
)
    ensures
        code == Some(0i32) && !text::blank(stdout) ==> outcome_of(code, stdout, stderr)
            == TgrepOutcomeView::Match(text::trimmed(stdout)),
        code == Some(0i32) && text::blank(stdout) ==> outcome_of(code, stdout, stderr) is NoMatch,
        code == Some(1i32) ==> outcome_of(code, stdout, stderr) is NoMatch,
        code != Some(0i32) && code != Some(1i32) ==> outcome_of(code, stdout, stderr) is Failure,
        code != Some(0i32) && code != Some(1i32) && !text::blank(stderr) ==> (outcome_of(
            code,
            stdout,
            stderr,
        )->Failure_0 matches TgrepFailureView::Infrastructure { reason } && text::ends(
            reason,
            text::trimmed(stderr),
        )),
{
    let told = text::trimmed(stderr);
    let reason = "tgrep error: "@ + told;
    assert(reason.subrange(reason.len() - told.len(), reason.len() as int) =~= told);
}

/// Whether an option and its value stand next to each other.
pub open spec fn asks_with(command: Seq<Seq<char>>, flag: Seq<char>, value: Seq<char>) -> bool {
    exists|i: int|
        0 <= i < command.len() - 1 && #[trigger] command[i] == flag && command[i + 1] == value
}

#[verifier::opaque]
spec fn extends(more: Seq<Seq<char>>, out: Seq<Seq<char>>) -> bool {
    &&& out.len() <= more.len()
    &&& forall|i: int| 0 <= i < out.len() ==> #[trigger] more[i] == out[i]
}

proof fn lemma_extended_further(most: Seq<Seq<char>>, more: Seq<Seq<char>>, out: Seq<Seq<char>>)
    requires
        extends(most, more),
        extends(more, out),
    ensures
        extends(most, out),
{
    reveal(extends);
    assert forall|i: int| 0 <= i < out.len() implies #[trigger] most[i] == out[i] by {
        assert(more[i] == out[i]);
    }
}

proof fn lemma_more_extends(
    out: Seq<Seq<char>>,
    flag: Seq<char>,
    value: Seq<char>,
    set: bool,
    count: Option<u64>,
    option: Option<Seq<char>>,
)
    ensures
        extends(out, out),
        extends(out.push(flag), out),
        extends(out.push(flag).push(value), out),
        extends(with_flag(out, flag, set), out),
        extends(with_count(out, flag, count), out),
        extends(with_option(out, flag, option), out),
{
    reveal(extends);
}

proof fn lemma_option_is_there(
    command: Seq<Seq<char>>,
    out: Seq<Seq<char>>,
    flag: Seq<char>,
    value: Seq<char>,
)
    requires
        extends(command, out.push(flag).push(value)),
    ensures
        asks_with(command, flag, value),
{
    reveal(extends);
    let more = out.push(flag).push(value);
    let i = out.len() as int;
    assert(more[i] == flag);
    assert(more[i + 1] == value);
    assert(command[i] == more[i]);
    assert(command[i + 1] == more[i + 1]);
}

/// The search program is asked with every number, every limit on files and every flag that the request
/// gives, and last of all for the target.
pub proof fn law_request_is_passed_on(arguments: JsonView, index: IndexUseView, target: Seq<char>)
    ensures
        ({
            let command = command_of(arguments, index, target);
            &&& command.len() > 0
            &&& command.last() == target
            &&& index matches IndexUseView::At(path) ==> asks_with(command, "--index-path"@, path)
            &&& count_at(arguments, "-B"@) matches Some(n) ==> asks_with(
                command,
                "-B"@,
                text::decimal(n as nat),
            )
            &&& count_at(arguments, "-A"@) matches Some(n) ==> asks_with(
                command,
                "-A"@,
                text::decimal(n as nat),
            )
            &&& count_at(arguments, "-C"@) matches Some(n) ==> asks_with(
                command,
                "-C"@,
                text::decimal(n as nat),
            )
            &&& glob_of(arguments) matches Some(glob) ==> asks_with(command, "-g"@, glob)
            &&& type_of(arguments) matches Some(kind) ==> asks_with(command, "-t"@, kind)
            &&& count_at(arguments, "head_limit"@) matches Some(n) ==> asks_with(
                command,
                "-m"@,
                text::decimal(n as nat),
            )
            &&& pattern_of(arguments).len() > 0 ==> command.len() > 1 && command[command.len() - 2]
                == pattern_of(arguments)
        }),
{
    let command = command_of(arguments, index, target);
    let mode = mode_of(arguments);
    let pattern = pattern_of(arguments);
    let start = seq!["--color"@, "never"@, "--no-heading"@];
    let indexed = match index {
        IndexUseView::Unindexed => start.push("--no-index"@),
        IndexUseView::At(path) => start.push("--index-path"@).push(path),
        IndexUseView::Default => start,
    };
    let shown = if mode == "files_with_matches"@ {
        indexed.push("-l"@)
    } else if mode == "count"@ {
        indexed.push("-c"@)
    } else {
        indexed.push("-n"@).push("-H"@)
    };
    let cased = with_flag(shown, "-i"@, flag_at(arguments, "-i"@));
    let before = with_count(cased, "-B"@, count_at(arguments, "-B"@));
    let after = with_count(before, "-A"@, count_at(arguments, "-A"@));
    let around = with_count(after, "-C"@, count_at(arguments, "-C"@));
    let globbed = with_option(around, "-g"@, glob_of(arguments));
    let multiline = with_flag(globbed, "-U"@, flag_at(arguments, "multiline"@));
    let typed = with_option(multiline, "-t"@, type_of(arguments));
    let limited = with_count(typed, "-m"@, count_at(arguments, "head_limit"@));
    let asked = if pattern.len() > 0 {
        limited.push(pattern)
    } else if mode == "files_with_matches"@ {
        limited.push(".*"@)
    } else {
        limited
    };
    assert(command == asked.push(target));
    lemma_more_extends(asked, target, target, false, None, None);
    lemma_more_extends(limited, pattern, target, false, None, None);
    lemma_more_extends(limited, ".*"@, target, false, None, None);
    assert(extends(asked, limited));
    lemma_extended_further(command, asked, limited);
    lemma_more_extends(typed, "-m"@, target, false, count_at(arguments, "head_limit"@), None);
    lemma_extended_further(command, limited, typed);
    lemma_more_extends(multiline, "-t"@, target, false, None, type_of(arguments));
    lemma_extended_further(command, typed, multiline);
    lemma_more_extends(globbed, "-U"@, target, flag_at(arguments, "multiline"@), None, None);
    lemma_extended_further(command, multiline, globbed);
    lemma_more_extends(around, "-g"@, target, false, None, glob_of(arguments));
    lemma_extended_further(command, globbed, around);
    lemma_more_extends(after, "-C"@, target, false, count_at(arguments, "-C"@), None);
    lemma_extended_further(command, around, after);
    lemma_more_extends(before, "-A"@, target, false, count_at(arguments, "-A"@), None);
    lemma_extended_further(command, after, before);
    lemma_more_extends(cased, "-B"@, target, false, count_at(arguments, "-B"@), None);
    lemma_extended_further(command, before, cased);
    lemma_more_extends(shown, "-i"@, target, flag_at(arguments, "-i"@), None, None);
    lemma_extended_further(command, cased, shown);
    lemma_more_extends(indexed, "-l"@, target, false, None, None);
    lemma_more_extends(indexed, "-c"@, target, false, None, None);
    lemma_more_extends(indexed, "-n"@, "-H"@, false, None, None);
    assert(extends(shown, indexed));
    lemma_extended_further(command, shown, indexed);
    match index {
        IndexUseView::At(path) => lemma_option_is_there(command, start, "--index-path"@, path),
        _ => {},
    }
    lemma_count_is_there(command, cased, "-B"@, count_at(arguments, "-B"@));
    lemma_count_is_there(command, before, "-A"@, count_at(arguments, "-A"@));
    lemma_count_is_there(command, after, "-C"@, count_at(arguments, "-C"@));
    lemma_count_is_there(command, typed, "-m"@, count_at(arguments, "head_limit"@));
    match glob_of(arguments) {
        Some(glob) => lemma_option_is_there(command, around, "-g"@, glob),
        None => {},
    }
    match type_of(arguments) {
        Some(kind) => lemma_option_is_there(command, multiline, "-t"@, kind),
        None => {},
    }
}

proof fn lemma_count_is_there(
    command: Seq<Seq<char>>,
    out: Seq<Seq<char>>,
    flag: Seq<char>,
    value: Option<u64>,
)
    requires
        extends(command, with_count(out, flag, value)),
    ensures
        value matches Some(n) ==> asks_with(command, flag, text::decimal(n as nat)),
{
    match value {
        Some(n) => lemma_option_is_there(command, out, flag, text::decimal(n as nat)),
        None => {},
    }
}

/// A request that names a pattern, a path and a type is read as naming these.
pub proof fn law_request_is_read(arguments: JsonView, given: Seq<char>)
    ensures
        arguments.text_at("pattern"@) == Some(given) ==> pattern_of(arguments) == given,
        arguments.text_at("output_mode"@) == Some(given) ==> mode_of(arguments) == given,
        arguments.text_at("output_mode"@) is None ==> mode_of(arguments) == "content"@,
        arguments.text_at("type"@) == Some(given) && !text::blank(given) ==> type_of(arguments)
            == Some(text::trimmed(given)),
        arguments.at("path"@) == Some(JsonView::String(given)) && !text::blank(given)
            ==> written_path(arguments) == text::trimmed(given),
        arguments.at("path"@) is None && arguments.at("target_directory"@) == Some(
            JsonView::String(given),
        ) && !text::blank(given) ==> written_path(arguments) == text::trimmed(given),
        arguments.at("path"@) is None && arguments.at("target_directory"@) is None ==> written_path(
            arguments,
        ) == "."@,
        arguments.at("glob"@) == Some(JsonView::String(given)) ==> glob_of(arguments) == Some(
            given,
        ),
        arguments.at("glob"@) is None && arguments.at("glob_pattern"@) == Some(
            JsonView::String(given),
        ) ==> glob_of(arguments) == Some(given),
{
}

/// What a search found is its answer; where it found nothing, the answer says so in the words by which
/// an output that found nothing is known, and names the pattern.
pub proof fn law_answer_tells_what_was_found(arguments: JsonView, output: Seq<char>)
    ensures
        answer_of(arguments, TgrepOutcomeView::Match(output)) == Ok::<Seq<char>, Seq<char>>(output),
        text::starts(nothing_found(arguments), "No matches found"@),
        text::contains_text(nothing_found(arguments), pattern_of(arguments)),
{
    reveal_strlit("No matches found for pattern `");
    reveal_strlit("No matches found");
    let told = nothing_found(arguments);
    let start = "No matches found for pattern `"@;
    let pattern = pattern_of(arguments);
    assert(told.subrange(0, "No matches found"@.len() as int) =~= "No matches found"@);
    assert(told.subrange(start.len() as int, (start.len() + pattern.len()) as int) =~= pattern);
    assert(text::occurs_at(told, pattern, start.len() as int));
}

/// A request is accepted if and only if it has a pattern, its type is the name of one, it skips nothing,
/// asks for no order, and its numbers can be counted to.
pub proof fn law_requests_that_can_be_answered(
    arguments: JsonView,
    named: spec_fn(Seq<char>) -> bool,
)
    ensures
        accepted(arguments, named) is Ok <==> {
            &&& arguments.text_at("pattern"@) matches Some(pattern) && pattern.len() > 0
            &&& type_fault(arguments.at("type"@), named) is None
            &&& arguments.at("offset"@) matches Some(offset) ==> offset.unsigned() == Some(0u64)
            &&& arguments.at("sort"@) is None && arguments.at("sort_ascending"@) is None
            &&& arguments.at("-A"@) matches Some(n) ==> n.unsigned() is Some
            &&& arguments.at("-B"@) matches Some(n) ==> n.unsigned() is Some
            &&& arguments.at("-C"@) matches Some(n) ==> n.unsigned() is Some
            &&& arguments.at("head_limit"@) matches Some(n) ==> n.unsigned() is Some
        },
        accepted(arguments, named) matches Err(failure) ==> failure is InvalidRequest
            || failure is UnsupportedRequest,
{
}

/// A type that is missing, blank or a name is accepted, and no other.
pub proof fn law_types_are_names(given: Seq<char>, named: spec_fn(Seq<char>) -> bool)
    ensures
        type_fault(None, named) is None,
        type_fault(Some(JsonView::Null), named) is None,
        type_fault(Some(JsonView::String(given)), named) is None <==> text::blank(given) || named(
            text::trimmed(given),
        ),
        type_fault(Some(JsonView::Bool(true)), named) is Some,
{
}

} // verus!
