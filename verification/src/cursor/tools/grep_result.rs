//! Reads the output of a text search.
use crate::data;
use crate::model::tool::{ToolCall, ToolCallView};
use crate::text;
use vstd::prelude::*;

verus! {

/// A line that a search found, or that stands next to one.
#[derive(Debug)]
pub struct GrepContentMatch {
    pub line_number: i32,
    pub content: String,
    pub content_truncated: bool,
    pub is_context_line: bool,
}

#[verifier::ext_equal]
pub struct GrepContentMatchView {
    pub line_number: i32,
    pub content: Seq<char>,
    pub content_truncated: bool,
    pub is_context_line: bool,
}

impl View for GrepContentMatch {
    type V = GrepContentMatchView;

    open spec fn view(&self) -> GrepContentMatchView {
        GrepContentMatchView {
            line_number: self.line_number,
            content: self.content@,
            content_truncated: self.content_truncated,
            is_context_line: self.is_context_line,
        }
    }
}

/// The lines of one file.
#[derive(Debug)]
pub struct GrepFileMatch {
    pub file: String,
    pub matches: Vec<GrepContentMatch>,
}

#[verifier::ext_equal]
pub struct GrepFileMatchView {
    pub file: Seq<char>,
    pub matches: Seq<GrepContentMatchView>,
}

impl View for GrepFileMatch {
    type V = GrepFileMatchView;

    open spec fn view(&self) -> GrepFileMatchView {
        GrepFileMatchView { file: self.file@, matches: data::views(self.matches@) }
    }
}

/// How often a search found something in a file.
#[derive(Debug)]
pub struct GrepFileCount {
    pub file: String,
    pub count: i32,
}

#[verifier::ext_equal]
pub struct GrepFileCountView {
    pub file: Seq<char>,
    pub count: i32,
}

impl View for GrepFileCount {
    type V = GrepFileCountView;

    open spec fn view(&self) -> GrepFileCountView {
        GrepFileCountView { file: self.file@, count: self.count }
    }
}

/// What a search found.
#[derive(Debug)]
pub enum GrepUnionResult {
    Files { files: Vec<String>, total_files: i32, client_truncated: bool },
    Count {
        counts: Vec<GrepFileCount>,
        total_files: i32,
        total_matches: i32,
        client_truncated: bool,
    },
    Content {
        matches: Vec<GrepFileMatch>,
        total_lines: i32,
        total_matched_lines: i32,
        client_truncated: bool,
    },
}

#[verifier::ext_equal]
pub enum GrepUnionResultView {
    Files { files: Seq<Seq<char>>, total_files: i32, client_truncated: bool },
    Count {
        counts: Seq<GrepFileCountView>,
        total_files: i32,
        total_matches: i32,
        client_truncated: bool,
    },
    Content {
        matches: Seq<GrepFileMatchView>,
        total_lines: i32,
        total_matched_lines: i32,
        client_truncated: bool,
    },
}

impl View for GrepUnionResult {
    type V = GrepUnionResultView;

    open spec fn view(&self) -> GrepUnionResultView {
        match self {
            GrepUnionResult::Files {
                files,
                total_files,
                client_truncated,
            } => GrepUnionResultView::Files {
                files: data::views(files@),
                total_files: *total_files,
                client_truncated: *client_truncated,
            },
            GrepUnionResult::Count {
                counts,
                total_files,
                total_matches,
                client_truncated,
            } => GrepUnionResultView::Count {
                counts: data::views(counts@),
                total_files: *total_files,
                total_matches: *total_matches,
                client_truncated: *client_truncated,
            },
            GrepUnionResult::Content {
                matches,
                total_lines,
                total_matched_lines,
                client_truncated,
            } => GrepUnionResultView::Content {
                matches: data::views(matches@),
                total_lines: *total_lines,
                total_matched_lines: *total_matched_lines,
                client_truncated: *client_truncated,
            },
        }
    }
}

/// The name of a workspace and what was found in it.
pub type WorkspaceResult = (String, GrepUnionResult);

/// What was found in each workspace.
pub open spec fn workspace_views(results: Seq<WorkspaceResult>) -> Seq<
    (Seq<char>, GrepUnionResultView),
> {
    results.map_values(|r: WorkspaceResult| (r.0@, r.1@))
}

/// A search that succeeded. The workspaces in which something was found stand in the order of their
/// names.
#[derive(Debug)]
pub struct GrepSuccess {
    pub pattern: String,
    pub path: String,
    pub output_mode: String,
    pub workspace_results: Vec<WorkspaceResult>,
    pub active_editor_result: Option<GrepUnionResult>,
}

#[verifier::ext_equal]
pub struct GrepSuccessView {
    pub pattern: Seq<char>,
    pub path: Seq<char>,
    pub output_mode: Seq<char>,
    pub workspace_results: Seq<(Seq<char>, GrepUnionResultView)>,
    pub active_editor_result: Option<GrepUnionResultView>,
}

/// Whether the names stand in their order.
pub open spec fn names_ascend(results: Seq<(Seq<char>, GrepUnionResultView)>) -> bool {
    forall|i: int, j: int|
        0 <= i < j < results.len() ==> text::precedes(
            (#[trigger] results[i]).0,
            (#[trigger] results[j]).0,
        )
}

impl GrepSuccessView {
    /// Each workspace has one result, and they stand in the order of the names.
    pub open spec fn wf(self) -> bool {
        names_ascend(self.workspace_results)
    }
}

impl View for GrepSuccess {
    type V = GrepSuccessView;

    open spec fn view(&self) -> GrepSuccessView {
        GrepSuccessView {
            pattern: self.pattern@,
            path: self.path@,
            output_mode: self.output_mode@,
            workspace_results: workspace_views(self.workspace_results@),
            active_editor_result: data::option_view(self.active_editor_result),
        }
    }
}

/// A line of output: the file, the number, the content, and whether it only stands next to a match.
#[verifier::ext_equal]
pub struct ContentLineView {
    pub file: Seq<char>,
    pub line: GrepContentMatchView,
}

/// Whether a path begins with a drive letter.
pub open spec fn has_drive(line: Seq<char>) -> bool {
    line.len() >= 2 && line[1] == ':' && ('a' <= line[0] <= 'z' || 'A' <= line[0] <= 'Z')
}

/// What a line says where the file ends at `at`: there stands a colon (or a dash, next to a match),
/// then a line number, then the same mark again, then the content.
pub open spec fn content_line_at(line: Seq<char>, at: int) -> Option<ContentLineView> {
    let mark = line[at];
    let rest = line.skip(at + 1);
    let end = text::index_of_char(rest, mark);
    let number = rest.take(end);
    if (mark == ':' || mark == '-') && end < rest.len() && number.len() > 0 && text::all_digits(
        number,
    ) && text::digits_value(number) <= i32::MAX {
        Some(
            ContentLineView {
                file: line.take(at),
                line: GrepContentMatchView {
                    line_number: text::digits_value(number) as i32,
                    content: rest.skip(end + 1),
                    content_truncated: false,
                    is_context_line: mark == '-',
                },
            },
        )
    } else {
        None
    }
}

/// What a line says, with the file ending at `from` or later, as early as possible.
pub open spec fn content_line_from(line: Seq<char>, from: int) -> Option<ContentLineView>
    decreases line.len() - from,
{
    if from < 0 || from >= line.len() {
        None
    } else {
        match content_line_at(line, from) {
            Some(found) => Some(found),
            None => content_line_from(line, from + 1),
        }
    }
}

/// What a line of output says.
pub open spec fn content_line(line: Seq<char>) -> Option<ContentLineView> {
    content_line_from(
        line,
        if has_drive(line) {
            2
        } else {
            0
        },
    )
}

/// Position of the first character equal to `c` at or after `from`, or the length.
fn find_char(chars: &Vec<char>, c: char, from: usize) -> (r: usize)
    requires
        from <= chars@.len(),
    ensures
        from <= r <= chars@.len(),
        r - from == text::index_of_char(chars@.skip(from as int), c),
{
    let mut i: usize = from;
    while i < chars.len() && chars[i] != c
        invariant
            from <= i <= chars@.len(),
            forall|k: int| from <= k < i ==> chars@[k] != c,
        decreases chars@.len() - i,
    {
        i += 1;
    }
    proof {
        let rest = chars@.skip(from as int);
        assert forall|k: int| 0 <= k < i - from implies rest[k] != c by {
            assert(rest[k] == chars@[from + k]);
        }
        text::lemma_index_of_char_is(rest, c, i - from);
    }
    i
}

/// The file, the line number, the content of a line of output, and whether the line only stands next
/// to a match.
pub fn parse_grep_content_line(line: &str) -> (r: Option<(String, i32, String, bool)>)
    ensures
        match r {
            Some((file, number, content, is_context)) => content_line(line@) == Some(
                ContentLineView {
                    file: file@,
                    line: GrepContentMatchView {
                        line_number: number,
                        content: content@,
                        content_truncated: false,
                        is_context_line: is_context,
                    },
                },
            ),
            None => content_line(line@) is None,
        },
{
    let chars = text::to_chars(line);
    let drive = chars.len() >= 2 && chars[1] == ':' && (('a' <= chars[0] && chars[0] <= 'z') || (
    'A' <= chars[0] && chars[0] <= 'Z'));
    let mut at: usize = if drive {
        2
    } else {
        0
    };
    while at < chars.len()
        invariant
            at <= chars@.len(),
            chars@ == line@,
            content_line(line@) == content_line_from(line@, at as int),
        decreases chars@.len() - at,
    {
        let mark = chars[at];
        if mark == ':' || mark == '-' {
            let end = find_char(&chars, mark, at + 1);
            if end < chars.len() {
                let number = text::slice(&chars, at + 1, end);
                proof {
                    let rest = line@.skip(at + 1);
                    assert(number@ =~= rest.take(end - (at + 1)));
                    assert(line@.skip(end + 1) =~= rest.skip(end - (at + 1) + 1));
                    assert(line@.subrange(0, at as int) =~= line@.take(at as int));
                    assert(line@.subrange(end + 1, line@.len() as int) =~= line@.skip(end + 1));
                }
                if let Some(value) = text::parse_digits(number.as_str()) {
                    if value <= i32::MAX as u64 {
                        let file = text::slice(&chars, 0, at);
                        let content = text::slice(&chars, end + 1, chars.len());
                        return Some((file, value as i32, content, mark == '-'));
                    }
                }
            }
        }
        at += 1;
    }
    None
}

/// The files that an output names, one in each line that is not blank.
pub open spec fn file_lines(lines: Seq<Seq<char>>) -> Seq<Seq<char>>
    decreases lines.len(),
{
    if lines.len() == 0 {
        Seq::empty()
    } else if text::blank(lines.last()) {
        file_lines(lines.drop_last())
    } else {
        file_lines(lines.drop_last()).push(text::trimmed(lines.last()))
    }
}

/// Position of the last character equal to `c`, or -1.
pub open spec fn last_index(s: Seq<char>, c: char) -> int
    decreases s.len(),
{
    if s.len() == 0 {
        -1
    } else if s.last() == c {
        s.len() - 1
    } else {
        last_index(s.drop_last(), c)
    }
}

/// The count that a line gives: a file, a colon and a number.
pub open spec fn line_count(line: Seq<char>) -> Option<GrepFileCountView> {
    let shown = text::trimmed(line);
    let at = last_index(shown, ':');
    if at < 0 {
        None
    } else {
        match text::signed_of(shown.skip(at + 1), i32::MIN as int, i32::MAX as int) {
            Some(count) => Some(GrepFileCountView { file: shown.take(at), count: count as i32 }),
            None => None,
        }
    }
}

/// The counts that an output gives.
pub open spec fn line_counts(lines: Seq<Seq<char>>) -> Seq<GrepFileCountView>
    decreases lines.len(),
{
    if lines.len() == 0 {
        Seq::empty()
    } else {
        match line_count(lines.last()) {
            Some(count) => line_counts(lines.drop_last()).push(count),
            None => line_counts(lines.drop_last()),
        }
    }
}

/// The sum of counts.
pub open spec fn count_sum(counts: Seq<GrepFileCountView>) -> int
    decreases counts.len(),
{
    if counts.len() == 0 {
        0
    } else {
        count_sum(counts.drop_last()) + counts.last().count
    }
}

/// Whether the counts of an output can be added up, in order, in 32 bits.
pub open spec fn counts_fit(lines: Seq<Seq<char>>) -> bool {
    forall|n: int|
        0 <= n <= lines.len() ==> i32::MIN <= #[trigger] count_sum(line_counts(lines.take(n)))
            <= i32::MAX
}

/// The matches with another line: it joins the lines of the last file, if it is of that file.
pub open spec fn with_line(
    matches: Seq<GrepFileMatchView>,
    found: ContentLineView,
) -> Seq<GrepFileMatchView> {
    if matches.len() > 0 && matches.last().file == found.file {
        matches.drop_last().push(
            GrepFileMatchView {
                file: found.file,
                matches: matches.last().matches.push(found.line),
            },
        )
    } else {
        matches.push(GrepFileMatchView { file: found.file, matches: seq![found.line] })
    }
}

/// What a line of an output with content says: nothing where it separates or is blank.
pub open spec fn found_line(line: Seq<char>) -> Option<ContentLineView> {
    if line == "--"@ || text::blank(line) {
        None
    } else {
        content_line(line)
    }
}

/// The lines of an output with content, file by file.
pub open spec fn content_matches(lines: Seq<Seq<char>>) -> Seq<GrepFileMatchView>
    decreases lines.len(),
{
    if lines.len() == 0 {
        Seq::empty()
    } else {
        match found_line(lines.last()) {
            Some(found) => with_line(content_matches(lines.drop_last()), found),
            None => content_matches(lines.drop_last()),
        }
    }
}

/// How many lines of an output say something; with `matched_only`, those that only stand next to a
/// match are left out.
pub open spec fn content_count(lines: Seq<Seq<char>>, matched_only: bool) -> int
    decreases lines.len(),
{
    if lines.len() == 0 {
        0
    } else {
        content_count(lines.drop_last(), matched_only) + (match found_line(lines.last()) {
            Some(found) => if matched_only && found.line.is_context_line {
                0int
            } else {
                1int
            },
            None => 0int,
        })
    }
}

/// What an output says, in the mode that it was asked for in.
pub open spec fn output_result(mode: Seq<char>, output: Seq<char>) -> Option<GrepUnionResultView> {
    let lines = text::lines_of(output);
    if output.len() == 0 || text::starts(output, "No matches found"@) {
        None
    } else if mode == "files_with_matches"@ {
        Some(
            GrepUnionResultView::Files {
                files: file_lines(lines),
                total_files: file_lines(lines).len() as i32,
                client_truncated: false,
            },
        )
    } else if mode == "count"@ {
        Some(
            GrepUnionResultView::Count {
                counts: line_counts(lines),
                total_files: line_counts(lines).len() as i32,
                total_matches: count_sum(line_counts(lines)) as i32,
                client_truncated: false,
            },
        )
    } else {
        Some(
            GrepUnionResultView::Content {
                matches: content_matches(lines),
                total_lines: content_count(lines, false) as i32,
                total_matched_lines: content_count(lines, true) as i32,
                client_truncated: false,
            },
        )
    }
}

/// The results of a search in one workspace.
pub open spec fn workspace_results_of(result: Option<GrepUnionResultView>) -> Seq<
    (Seq<char>, GrepUnionResultView),
> {
    match result {
        Some(found) => seq![("workspace"@, found)],
        None => Seq::empty(),
    }
}

fn read_files(lines: &Vec<String>) -> (r: Vec<String>)
    ensures
        data::views(r@) == file_lines(data::views(lines@)),
        r@.len() <= lines@.len(),
{
    let ghost all = data::views(lines@);
    let mut files: Vec<String> = Vec::new();
    let mut i: usize = 0;
    assert(all.take(0) =~= Seq::empty());
    assert(data::views(files@) =~= Seq::empty());
    while i < lines.len()
        invariant
            i <= lines@.len(),
            all == data::views(lines@),
            files@.len() <= i,
            data::views(files@) == file_lines(all.take(i as int)),
        decreases lines@.len() - i,
    {
        let ghost before = data::views(files@);
        if !text::is_blank(lines[i].as_str()) {
            let file = text::trim(lines[i].as_str());
            files.push(file);
            assert(data::views(files@) =~= before.push(file@));
        }
        i += 1;
        assert(all.take(i as int).drop_last() =~= all.take(i - 1));
        assert(all.take(i as int).last() == lines@[i - 1]@);
    }
    assert(all.take(i as int) =~= all);
    files
}

fn read_count(line: &str) -> (r: Option<GrepFileCount>)
    ensures
        data::option_view(r) == line_count(line@),
{
    let shown = text::trim(line);
    let chars = text::to_chars(shown.as_str());
    let mut end: usize = chars.len();
    assert(chars@.take(end as int) =~= chars@);
    while end > 0
        invariant
            end <= chars@.len(),
            chars@ == text::trimmed(line@),
            last_index(chars@, ':') == last_index(chars@.take(end as int), ':'),
        decreases end,
    {
        assert(chars@.take(end as int).last() == chars@[end - 1]);
        assert(chars@.take(end as int).drop_last() =~= chars@.take(end - 1));
        if chars[end - 1] == ':' {
            let number = text::slice(&chars, end, chars.len());
            assert(number@ =~= chars@.skip(end as int));
            match text::parse_i32(number.as_str()) {
                Some(count) => {
                    let file = text::slice(&chars, 0, end - 1);
                    assert(file@ =~= chars@.take(end - 1));
                    return Some(GrepFileCount { file, count });
                },
                None => {
                    return None;
                },
            }
        }
        end -= 1;
    }
    None
}

/// Whether the counts of an output can be added up, in order, in 32 bits.
pub fn count_totals_fit(output: &str) -> (r: bool)
    ensures
        r == counts_fit(text::lines_of(output@)),
{
    let lines = text::lines(output);
    let ghost all = data::views(lines@);
    let mut total: i64 = 0;
    let mut i: usize = 0;
    assert(all.take(0) =~= Seq::empty());
    assert(line_counts(all.take(0)) =~= Seq::empty());
    while i < lines.len()
        invariant
            i <= lines@.len(),
            all == data::views(lines@),
            all == text::lines_of(output@),
            total == count_sum(line_counts(all.take(i as int))),
            forall|n: int|
                0 <= n <= i ==> i32::MIN <= #[trigger] count_sum(line_counts(all.take(n)))
                    <= i32::MAX,
        decreases lines@.len() - i,
    {
        assert(all.take(i + 1).drop_last() =~= all.take(i as int));
        assert(all.take(i + 1).last() == lines@[i as int]@);
        let ghost before = line_counts(all.take(i as int));
        assert(i32::MIN <= count_sum(line_counts(all.take(i as int))) <= i32::MAX);
        if let Some(count) = read_count(lines[i].as_str()) {
            total = total + count.count as i64;
            assert(before.push(count@).drop_last() =~= before);
        }
        i += 1;
        if total < i32::MIN as i64 || total > i32::MAX as i64 {
            assert(!(i32::MIN <= count_sum(line_counts(all.take(i as int))) <= i32::MAX));
            return false;
        }
    }
    true
}

fn read_counts(lines: &Vec<String>) -> (r: (Vec<GrepFileCount>, i32))
    requires
        counts_fit(data::views(lines@)),
    ensures
        data::views(r.0@) == line_counts(data::views(lines@)),
        r.1 == count_sum(line_counts(data::views(lines@))),
        r.0@.len() <= lines@.len(),
{
    let ghost all = data::views(lines@);
    let mut counts: Vec<GrepFileCount> = Vec::new();
    let mut total: i32 = 0;
    let mut i: usize = 0;
    assert(all.take(0) =~= Seq::empty());
    assert(data::views(counts@) =~= Seq::empty());
    while i < lines.len()
        invariant
            i <= lines@.len(),
            all == data::views(lines@),
            counts_fit(all),
            counts@.len() <= i,
            data::views(counts@) == line_counts(all.take(i as int)),
            total == count_sum(line_counts(all.take(i as int))),
        decreases lines@.len() - i,
    {
        let ghost before = data::views(counts@);
        assert(all.take(i + 1).drop_last() =~= all.take(i as int));
        assert(all.take(i + 1).last() == lines@[i as int]@);
        assert(i32::MIN <= count_sum(line_counts(all.take(i + 1))) <= i32::MAX);
        if let Some(count) = read_count(lines[i].as_str()) {
            assert(before.push(count@).drop_last() =~= before);
            assert(line_counts(all.take(i + 1)) == before.push(count@));
            assert(count_sum(before.push(count@)) == count_sum(before) + count.count);
            total = total + count.count;
            counts.push(count);
            assert(data::views(counts@) =~= before.push(count@));
        }
        i += 1;
    }
    assert(all.take(i as int) =~= all);
    (counts, total)
}

fn add_line(matches: &mut Vec<GrepFileMatch>, file: String, line: GrepContentMatch)
    ensures
        data::views(final(matches)@) == with_line(
            data::views(old(matches)@),
            ContentLineView { file: file@, line: line@ },
        ),
{
    let ghost before = data::views(matches@);
    let n: usize = matches.len();
    if n > 0 && text::same(matches[n - 1].file.as_str(), file.as_str()) {
        assert(before.last() == matches@[n - 1]@);
        let ghost lines = matches@[n - 1].matches@;
        matches[n - 1].matches.push(line);
        proof {
            let last = matches@[n - 1];
            assert(data::views(last.matches@) =~= data::views(lines).push(line@));
            assert(data::views(matches@) =~= before.drop_last().push(last@));
        }
    } else {
        if n > 0 {
            assert(before.last() == matches@[n - 1]@);
        }
        let mut lines: Vec<GrepContentMatch> = Vec::new();
        lines.push(line);
        assert(data::views(lines@) =~= seq![line@]);
        matches.push(GrepFileMatch { file, matches: lines });
        assert(data::views(matches@) =~= before.push(matches@[n as int]@));
    }
}

fn read_content(lines: &Vec<String>) -> (r: (Vec<GrepFileMatch>, i32, i32))
    requires
        lines@.len() <= i32::MAX,
    ensures
        data::views(r.0@) == content_matches(data::views(lines@)),
        r.1 == content_count(data::views(lines@), false),
        r.2 == content_count(data::views(lines@), true),
{
    let ghost all = data::views(lines@);
    let mut matches: Vec<GrepFileMatch> = Vec::new();
    let mut total_lines: i32 = 0;
    let mut total_matched_lines: i32 = 0;
    let mut i: usize = 0;
    assert(all.take(0) =~= Seq::empty());
    assert(data::views(matches@) =~= Seq::empty());
    while i < lines.len()
        invariant
            i <= lines@.len() <= i32::MAX,
            all == data::views(lines@),
            0 <= total_lines <= i,
            0 <= total_matched_lines <= i,
            data::views(matches@) == content_matches(all.take(i as int)),
            total_lines == content_count(all.take(i as int), false),
            total_matched_lines == content_count(all.take(i as int), true),
        decreases lines@.len() - i,
    {
        assert(all.take(i + 1).drop_last() =~= all.take(i as int));
        assert(all.take(i + 1).last() == lines@[i as int]@);
        let line = lines[i].as_str();
        if !text::same(line, "--") && !text::is_blank(line) {
            if let Some((file, line_number, content, is_context_line)) = parse_grep_content_line(
                line,
            ) {
                if !is_context_line {
                    total_matched_lines = total_matched_lines + 1;
                }
                total_lines = total_lines + 1;
                add_line(
                    &mut matches,
                    file,
                    GrepContentMatch {
                        line_number,
                        content,
                        content_truncated: false,
                        is_context_line,
                    },
                );
            }
        }
        i += 1;
    }
    assert(all.take(i as int) =~= all);
    (matches, total_lines, total_matched_lines)
}

/// The mode of a search: one that names none shows the lines.
pub open spec fn mode_of(output_mode: Option<Seq<char>>) -> Seq<char> {
    match output_mode {
        Some(mode) => mode,
        None => "content"@,
    }
}

/// Whether what an output says can be told in 32 bits: its lines, and in the mode that adds counts
/// up, their sums.
pub open spec fn tellable(mode: Seq<char>, output: Seq<char>) -> bool {
    &&& text::lines_of(output).len() <= i32::MAX
    &&& mode == "count"@ && output.len() > 0 && !text::starts(output, "No matches found"@)
        ==> counts_fit(text::lines_of(output))
}

/// Whether what an output says can be told in 32 bits, in the mode that it was asked for in.
pub fn is_tellable(output_mode: Option<&str>, output: &str) -> (r: bool)
    ensures
        r == tellable(mode_of(data::option_view(output_mode)), output@),
{
    let mode = match output_mode {
        Some(mode) => mode,
        None => "content",
    };
    let lines = text::lines(output);
    assert(data::views(lines@).len() == lines@.len());
    if lines.len() > i32::MAX as usize {
        return false;
    }
    !text::same(mode, "count") || output.is_empty() || text::starts_with(output, "No matches found")
        || count_totals_fit(output)
}

/// What a search found, read from its output in the mode that it was asked for in.
pub fn parse_grep_output_to_success(
    pattern: String,
    path: String,
    output_mode: Option<&str>,
    output: &str,
) -> (r: GrepSuccess)
    requires
        tellable(mode_of(data::option_view(output_mode)), output@),
    ensures
        r@.wf(),
        ({
            let mode = mode_of(data::option_view(output_mode));
            r@ == (GrepSuccessView {
                pattern: pattern@,
                path: path@,
                output_mode: mode,
                workspace_results: workspace_results_of(output_result(mode, output@)),
                active_editor_result: None,
            })
        }),
{
    let mode = match output_mode {
        Some(mode) => mode,
        None => "content",
    };
    let found = if output.is_empty() || text::starts_with(output, "No matches found") {
        None
    } else {
        let lines = text::lines(output);
        if text::same(mode, "files_with_matches") {
            let files = read_files(&lines);
            let total_files: i32 = files.len() as i32;
            assert(data::views(files@).len() == files@.len());
            Some(GrepUnionResult::Files { files, total_files, client_truncated: false })
        } else if text::same(mode, "count") {
            let (counts, total_matches) = read_counts(&lines);
            let total_files: i32 = counts.len() as i32;
            assert(data::views(counts@).len() == counts@.len());
            Some(
                GrepUnionResult::Count {
                    counts,
                    total_files,
                    total_matches,
                    client_truncated: false,
                },
            )
        } else {
            let (matches, total_lines, total_matched_lines) = read_content(&lines);
            Some(
                GrepUnionResult::Content {
                    matches,
                    total_lines,
                    total_matched_lines,
                    client_truncated: false,
                },
            )
        }
    };
    let mut workspace_results: Vec<WorkspaceResult> = Vec::new();
    if let Some(result) = found {
        workspace_results.push(("workspace".to_owned(), result));
        assert(workspace_views(workspace_results@) =~= seq![("workspace"@, result@)]);
    } else {
        assert(workspace_views(workspace_results@) =~= Seq::empty());
    }
    GrepSuccess {
        pattern,
        path,
        output_mode: mode.to_owned(),
        workspace_results,
        active_editor_result: None,
    }
}

/// What a search came to.
#[derive(Debug)]
pub enum GrepOutcome {
    Success(GrepSuccess),
    Error(String),
}

/// A search as it is shown and as the model sees it.
#[derive(Debug)]
pub struct GrepCompletion {
    pub call_id: String,
    pub content: String,
    pub is_error: bool,
    pub pattern: String,
    pub path: Option<String>,
    pub glob: Option<String>,
    pub output_mode: Option<String>,
    pub outcome: GrepOutcome,
}

/// The directory that a search covers.
pub open spec fn searched_path(call: ToolCallView) -> Seq<char> {
    let named = match call.arguments.at("path"@) {
        Some(value) => Some(value),
        None => call.arguments.at("target_directory"@),
    };
    match named {
        Some(value) => match value.text() {
            Some(path) => path,
            None => "."@,
        },
        None => "."@,
    }
}

/// The directory that a search covers, whose repository's server is asked.
pub fn search_target(call: &ToolCall) -> (r: String)
    ensures
        r@ == searched_path(call@),
{
    let named = match call.arguments.get("path") {
        Some(value) => Some(value),
        None => call.arguments.get("target_directory"),
    };
    match named {
        Some(value) => match value.as_str() {
            Some(path) => path.to_owned(),
            None => ".".to_owned(),
        },
        None => ".".to_owned(),
    }
}

/// The pattern that a search looks for.
pub open spec fn searched_pattern(call: ToolCallView) -> Seq<char> {
    match call.arguments.text_at("pattern"@) {
        Some(pattern) => pattern,
        None => Seq::empty(),
    }
}

fn optional_argument(call: &ToolCall, name: &str) -> (r: Option<String>)
    ensures
        data::option_view(r) == call@.arguments.text_at(name@),
{
    match call.arguments.get_str(name) {
        Some(value) => Some(value.to_owned()),
        None => None,
    }
}

/// Whether this is a search as it is shown and as the model sees it, from its output or its error.
pub open spec fn completes(
    done: GrepCompletion,
    call: ToolCallView,
    output: Result<Seq<char>, Seq<char>>,
) -> bool {
    &&& done.call_id@ == call.call_id
    &&& done.pattern@ == searched_pattern(call)
    &&& data::option_view(done.path) == call.arguments.text_at("path"@)
    &&& data::option_view(done.glob) == call.arguments.text_at("glob"@)
    &&& data::option_view(done.output_mode) == call.arguments.text_at("output_mode"@)
    &&& done.is_error == output is Err
    &&& match output {
        Ok(found) => {
            let mode = mode_of(call.arguments.text_at("output_mode"@));
            &&& done.content@ == found
            &&& done.outcome matches GrepOutcome::Success(success) && success@ == (
            GrepSuccessView {
                pattern: searched_pattern(call),
                path: searched_path(call),
                output_mode: mode,
                workspace_results: workspace_results_of(output_result(mode, found)),
                active_editor_result: None,
            })
        },
        Err(error) => {
            &&& done.content@ == error
            &&& done.outcome matches GrepOutcome::Error(message) && message@ == error
        },
    }
}

/// A search as it is shown and as the model sees it, from its output or its error.
pub fn grep(call: &ToolCall, output: Result<String, String>) -> (r: GrepCompletion)
    requires
        output matches Ok(found) ==> tellable(
            mode_of(call@.arguments.text_at("output_mode"@)),
            found@,
        ),
    ensures
        completes(r, call@, crate::error::result_view(output)),
{
    let pattern = match call.arguments.get_str("pattern") {
        Some(pattern) => pattern.to_owned(),
        None => String::new(),
    };
    let path = search_target(call);
    let output_mode = optional_argument(call, "output_mode");
    let (content, is_error, outcome) = match output {
        Ok(found) => {
            let mode = match &output_mode {
                Some(mode) => Some(mode.as_str()),
                None => None,
            };
            let success = parse_grep_output_to_success(
                pattern.clone(),
                path,
                mode,
                found.as_str(),
            );
            (found, false, GrepOutcome::Success(success))
        },
        Err(error) => (error.clone(), true, GrepOutcome::Error(error)),
    };
    GrepCompletion {
        call_id: call.call_id.clone(),
        content,
        is_error,
        pattern,
        path: optional_argument(call, "path"),
        glob: optional_argument(call, "glob"),
        output_mode,
        outcome,
    }
}

/// The lines of each file stay in order and none is lost: the matches hold as many lines as the
/// output has lines that say something.
pub proof fn law_every_found_line_is_kept(lines: Seq<Seq<char>>)
    ensures
        line_total(content_matches(lines)) == content_count(lines, false),
        content_count(lines, true) <= content_count(lines, false),
    decreases lines.len(),
{
    if lines.len() > 0 {
        law_every_found_line_is_kept(lines.drop_last());
        if let Some(found) = found_line(lines.last()) {
            let before = content_matches(lines.drop_last());
            let after = with_line(before, found);
            if before.len() > 0 && before.last().file == found.file {
                assert(after.drop_last() =~= before.drop_last());
            } else {
                assert(after.drop_last() =~= before);
            }
        }
    }
}

/// What the lines of an output say, in order.
pub open spec fn found_lines(lines: Seq<Seq<char>>) -> Seq<ContentLineView>
    decreases lines.len(),
{
    if lines.len() == 0 {
        Seq::empty()
    } else {
        match found_line(lines.last()) {
            Some(found) => found_lines(lines.drop_last()).push(found),
            None => found_lines(lines.drop_last()),
        }
    }
}

/// The lines that the matches hold, file after file.
pub open spec fn held_lines(matches: Seq<GrepFileMatchView>) -> Seq<ContentLineView>
    decreases matches.len(),
{
    if matches.len() == 0 {
        Seq::empty()
    } else {
        held_lines(matches.drop_last()) + matches.last().matches.map_values(
            |line: GrepContentMatchView| ContentLineView { file: matches.last().file, line },
        )
    }
}

/// The matches hold what the lines of an output say, in order and nothing else. No file stands there
/// without a line, and none stands next to itself.
pub proof fn law_found_lines_stay_in_order(lines: Seq<Seq<char>>)
    ensures
        held_lines(content_matches(lines)) == found_lines(lines),
        forall|i: int|
            0 <= i < content_matches(lines).len() ==> (#[trigger] content_matches(
                lines,
            )[i]).matches.len() > 0,
        forall|i: int, j: int|
            0 <= i < content_matches(lines).len() && j == i + 1 && j < content_matches(lines).len()
                ==> (#[trigger] content_matches(lines)[i]).file != (#[trigger] content_matches(
                lines,
            )[j]).file,
    decreases lines.len(),
{
    if lines.len() > 0 {
        law_found_lines_stay_in_order(lines.drop_last());
        if let Some(found) = found_line(lines.last()) {
            let before = content_matches(lines.drop_last());
            let after = with_line(before, found);
            let last = after.last();
            let shown = last.matches.map_values(
                |line: GrepContentMatchView| ContentLineView { file: last.file, line },
            );
            if before.len() > 0 && before.last().file == found.file {
                assert(after.drop_last() =~= before.drop_last());
                let earlier = before.last().matches.map_values(
                    |line: GrepContentMatchView| ContentLineView { file: before.last().file, line },
                );
                assert(shown =~= earlier.push(found));
                assert(held_lines(after) =~= held_lines(before).push(found));
            } else {
                assert(after.drop_last() =~= before);
                assert(shown =~= seq![found]);
                assert(held_lines(after) =~= held_lines(before).push(found));
            }
        }
    }
}

/// How many lines the matches hold.
pub open spec fn line_total(matches: Seq<GrepFileMatchView>) -> int
    decreases matches.len(),
{
    if matches.len() == 0 {
        0
    } else {
        line_total(matches.drop_last()) + matches.last().matches.len()
    }
}

/// The results with that of a workspace, in place of the one it had.
pub open spec fn with_workspace(
    results: Seq<(Seq<char>, GrepUnionResultView)>,
    name: Seq<char>,
    result: GrepUnionResultView,
) -> Seq<(Seq<char>, GrepUnionResultView)>
    decreases results.len(),
{
    if results.len() == 0 {
        seq![(name, result)]
    } else if text::precedes(results[0].0, name) {
        seq![results[0]] + with_workspace(results.drop_first(), name, result)
    } else if results[0].0 == name {
        seq![(name, result)] + results.drop_first()
    } else {
        seq![(name, result)] + results
    }
}

impl GrepSuccess {
    /// Gives a workspace a result, in place of the one it had.
    pub fn put_workspace(&mut self, name: String, result: GrepUnionResult)
        requires
            old(self)@.wf(),
        ensures
            final(self)@.wf(),
            final(self)@ == (GrepSuccessView {
                workspace_results: with_workspace(
                    old(self)@.workspace_results,
                    name@,
                    result@,
                ),
                ..old(self)@
            }),
    {
        let ghost all = self@.workspace_results;
        let ghost added = (name@, result@);
        proof {
            law_workspaces_stay_in_order(all, name@, result@);
        }
        assert(all.len() == self.workspace_results@.len());
        let mut i: usize = 0;
        assert(all.skip(0) =~= all);
        assert(all.take(0) + with_workspace(all, name@, result@) =~= with_workspace(
            all,
            name@,
            result@,
        ));
        while i < self.workspace_results.len() && text::is_before(
            self.workspace_results[i].0.as_str(),
            name.as_str(),
        )
            invariant
                i <= self.workspace_results@.len(),
                all == workspace_views(self.workspace_results@),
                all.len() == self.workspace_results@.len(),
                with_workspace(all, name@, result@) == all.take(i as int) + with_workspace(
                    all.skip(i as int),
                    name@,
                    result@,
                ),
                *self == *old(self),
            decreases self.workspace_results@.len() - i,
        {
            proof {
                let rest = all.skip(i as int);
                assert(rest[0] == all[i as int]);
                assert(rest.drop_first() =~= all.skip(i + 1));
                assert(all.take(i + 1) =~= all.take(i as int).push(rest[0]));
                assert(all.take(i as int) + (seq![rest[0]] + with_workspace(
                    all.skip(i + 1),
                    name@,
                    result@,
                )) =~= all.take(i + 1) + with_workspace(all.skip(i + 1), name@, result@));
            }
            i += 1;
        }
        let ghost rest = all.skip(i as int);
        if i < self.workspace_results.len() {
            assert(rest[0] == all[i as int]);
            if text::same(self.workspace_results[i].0.as_str(), name.as_str()) {
                self.workspace_results[i].1 = result;
                assert(workspace_views(self.workspace_results@) =~= all.take(i as int) + (seq![
                    added,
                ] + rest.drop_first()));
                return ;
            }
        }
        self.workspace_results.insert(i, (name, result));
        assert(workspace_views(self.workspace_results@) =~= all.take(i as int) + (seq![added]
            + rest));
        assert(rest.len() == 0 ==> seq![added] + rest =~= seq![added]);
    }
}

/// Giving a workspace a result keeps the names in their order.
pub proof fn law_workspaces_stay_in_order(
    results: Seq<(Seq<char>, GrepUnionResultView)>,
    name: Seq<char>,
    result: GrepUnionResultView,
)
    requires
        names_ascend(results),
    ensures
        names_ascend(with_workspace(results, name, result)),
{
    lemma_with_workspace(results, name, result);
}

proof fn lemma_with_workspace(
    results: Seq<(Seq<char>, GrepUnionResultView)>,
    name: Seq<char>,
    result: GrepUnionResultView,
)
    requires
        names_ascend(results),
    ensures
        names_ascend(with_workspace(results, name, result)),
        forall|k: int|
            0 <= k < with_workspace(results, name, result).len() ==> {
                let n = (#[trigger] with_workspace(results, name, result)[k]).0;
                n == name || exists|j: int| 0 <= j < results.len() && results[j].0 == n
            },
    decreases results.len(),
{
    let out = with_workspace(results, name, result);
    if results.len() > 0 {
        let first = results[0].0;
        text::lemma_precedes_total(first, name);
        if text::precedes(first, name) {
            let rest = results.drop_first();
            assert forall|i: int, j: int| 0 <= i < j < rest.len() implies text::precedes(
                (#[trigger] rest[i]).0,
                (#[trigger] rest[j]).0,
            ) by {
                assert(rest[i] == results[i + 1]);
                assert(rest[j] == results[j + 1]);
            }
            lemma_with_workspace(rest, name, result);
            let inner = with_workspace(rest, name, result);
            assert forall|k: int| 0 <= k < out.len() implies {
                let n = (#[trigger] out[k]).0;
                n == name || exists|j: int| 0 <= j < results.len() && results[j].0 == n
            } by {
                if k > 0 {
                    assert(out[k] == inner[k - 1]);
                    let n = inner[k - 1].0;
                    if n != name {
                        let j = choose|j: int| 0 <= j < rest.len() && rest[j].0 == n;
                        assert(results[j + 1].0 == n);
                    }
                } else {
                    assert(out[0] == results[0]);
                }
            }
            assert forall|i: int, j: int| 0 <= i < j < out.len() implies text::precedes(
                (#[trigger] out[i]).0,
                (#[trigger] out[j]).0,
            ) by {
                assert(out[j] == inner[j - 1]);
                if i == 0 {
                    let n = inner[j - 1].0;
                    if n != name {
                        let k = choose|k: int| 0 <= k < rest.len() && rest[k].0 == n;
                        assert(rest[k] == results[k + 1]);
                    }
                } else {
                    assert(out[i] == inner[i - 1]);
                }
            }
        } else if first == name {
            assert forall|i: int, j: int| 0 <= i < j < out.len() implies text::precedes(
                (#[trigger] out[i]).0,
                (#[trigger] out[j]).0,
            ) by {
                assert(out[j] == results[j]);
                assert(out[i].0 == results[i].0);
            }
            assert forall|k: int| 0 <= k < out.len() implies {
                let n = (#[trigger] out[k]).0;
                n == name || exists|j: int| 0 <= j < results.len() && results[j].0 == n
            } by {
                if k > 0 {
                    assert(results[k].0 == out[k].0);
                }
            }
        } else {
            assert forall|i: int, j: int| 0 <= i < j < out.len() implies text::precedes(
                (#[trigger] out[i]).0,
                (#[trigger] out[j]).0,
            ) by {
                assert(out[j] == results[j - 1]);
                if i == 0 {
                    if j > 1 {
                        text::lemma_precedes_transitive(name, first, results[j - 1].0);
                    }
                } else {
                    assert(out[i] == results[i - 1]);
                }
            }
            assert forall|k: int| 0 <= k < out.len() implies {
                let n = (#[trigger] out[k]).0;
                n == name || exists|j: int| 0 <= j < results.len() && results[j].0 == n
            } by {
                if k > 0 {
                    assert(results[k - 1].0 == out[k].0);
                }
            }
        }
    }
}

/// A line of output that tells a file, a number and a content is read back as these: as a match
/// between colons, as a neighbour of one between dashes.
pub proof fn law_printed_lines_are_read_back(file: Seq<char>, number: nat, content: Seq<char>)
    requires
        file.len() > 1,
        number <= i32::MAX,
        !file.contains(':'),
        !file.contains('-'),
    ensures
        content_line(file.push(':') + text::decimal(number).push(':') + content) == Some(
            ContentLineView {
                file,
                line: GrepContentMatchView {
                    line_number: number as i32,
                    content,
                    content_truncated: false,
                    is_context_line: false,
                },
            },
        ),
        content_line(file.push('-') + text::decimal(number).push('-') + content) == Some(
            ContentLineView {
                file,
                line: GrepContentMatchView {
                    line_number: number as i32,
                    content,
                    content_truncated: false,
                    is_context_line: true,
                },
            },
        ),
{
    lemma_printed_line(file, number, content, ':');
    lemma_printed_line(file, number, content, '-');
}

proof fn lemma_printed_line(file: Seq<char>, number: nat, content: Seq<char>, mark: char)
    requires
        file.len() > 1,
        number <= i32::MAX,
        !file.contains(':'),
        !file.contains('-'),
        mark == ':' || mark == '-',
    ensures
        content_line(file.push(mark) + text::decimal(number).push(mark) + content) == Some(
            ContentLineView {
                file,
                line: GrepContentMatchView {
                    line_number: number as i32,
                    content,
                    content_truncated: false,
                    is_context_line: mark == '-',
                },
            },
        ),
{
    let digits = text::decimal(number);
    let line = file.push(mark) + digits.push(mark) + content;
    let n = file.len() as int;
    text::lemma_decimal_reads_back(number);
    assert forall|k: int| 0 <= k < n implies line[k] != ':' && line[k] != '-' by {
        assert(line[k] == file[k]);
        assert(file.contains(file[k]));
    }
    let rest = line.skip(n + 1);
    assert(rest =~= digits.push(mark) + content);
    assert forall|k: int| 0 <= k < digits.len() implies rest[k] != mark by {
        assert(rest[k] == digits[k]);
        assert(text::is_digit(digits[k]));
    }
    assert(rest[digits.len() as int] == mark);
    text::lemma_index_of_char_is(rest, mark, digits.len() as int);
    assert(rest.take(digits.len() as int) =~= digits);
    assert(rest.skip(digits.len() as int + 1) =~= content);
    assert(line.take(n) =~= file);
    assert(line[n] == mark);
    assert(line[1] != ':') by {
        assert(line[1] == file[1]);
    }
    assert(!has_drive(line));
    lemma_from_mark(line, 0, n);
}

proof fn lemma_from_mark(line: Seq<char>, from: int, at: int)
    requires
        0 <= from <= at < line.len(),
        forall|k: int| from <= k < at ==> line[k] != ':' && line[k] != '-',
        content_line_at(line, at) is Some,
    ensures
        content_line_from(line, from) == content_line_at(line, at),
    decreases at - from,
{
    if from < at {
        assert(content_line_at(line, from) is None);
        lemma_from_mark(line, from + 1, at);
    }
}

/// Every line of a list that is not blank is a file that was found, in the order of the lines; the total
/// is their number.
pub proof fn law_each_line_is_a_file(output: Seq<char>)
    requires
        output.len() > 0,
        !text::starts(output, "No matches found"@),
        text::lines_of(output).len() <= i32::MAX,
        forall|i: int|
            0 <= i < text::lines_of(output).len() ==> !text::blank(
                #[trigger] text::lines_of(output)[i],
            ),
    ensures
        ({
            let found = output_result("files_with_matches"@, output);
            let lines = text::lines_of(output);
            &&& found is Some
            &&& found->0 is Files
            &&& found->0->files.len() == lines.len()
            &&& found->0->Files_total_files == lines.len()
            &&& forall|i: int|
                0 <= i < lines.len() ==> #[trigger] found->0->files[i] == text::trimmed(lines[i])
        }),
{
    lemma_files_are_lines(text::lines_of(output));
}

proof fn lemma_files_are_lines(lines: Seq<Seq<char>>)
    requires
        forall|i: int| 0 <= i < lines.len() ==> !text::blank(#[trigger] lines[i]),
    ensures
        file_lines(lines).len() == lines.len(),
        forall|i: int|
            0 <= i < lines.len() ==> #[trigger] file_lines(lines)[i] == text::trimmed(lines[i]),
    decreases lines.len(),
{
    if lines.len() > 0 {
        let rest = lines.drop_last();
        assert forall|i: int| 0 <= i < rest.len() implies !text::blank(#[trigger] rest[i]) by {
            assert(rest[i] == lines[i]);
        }
        lemma_files_are_lines(rest);
        assert(!text::blank(lines[lines.len() - 1]));
        let out = file_lines(lines);
        assert forall|i: int| 0 <= i < lines.len() implies #[trigger] out[i] == text::trimmed(
            lines[i],
        ) by {
            if i < rest.len() {
                assert(out[i] == file_lines(rest)[i]);
                assert(rest[i] == lines[i]);
            }
        }
    }
}

/// A line of counts tells a file and a number behind its last colon; the counts of an output stand in
/// the order of its lines, and the total is their sum.
pub proof fn law_counts_are_read_and_added(
    lines: Seq<Seq<char>>,
    line: Seq<char>,
    file: Seq<char>,
    count: nat,
)
    requires
        count <= i32::MAX,
        text::trimmed(line) == file.push(':') + text::decimal(count),
    ensures
        ({
            let told = GrepFileCountView { file, count: count as i32 };
            &&& line_count(line) == Some(told)
            &&& line_counts(lines.push(line)) == line_counts(lines).push(told)
            &&& count_sum(line_counts(lines.push(line))) == count_sum(line_counts(lines)) + count
        }),
{
    let digits = text::decimal(count);
    let shown = text::trimmed(line);
    text::lemma_decimal_reads_back(count);
    lemma_last_colon(file, digits);
    let at = file.len() as int;
    assert(shown.skip(at + 1) =~= digits);
    assert(shown.take(at) =~= file);
    assert(text::is_digit(digits[0]));
    assert(digits[0] != '+' && digits[0] != '-');
    assert(lines.push(line).drop_last() =~= lines);
    assert(lines.push(line).last() == line);
    let told = GrepFileCountView { file, count: count as i32 };
    assert(line_counts(lines).push(told).drop_last() =~= line_counts(lines));
}

proof fn lemma_last_colon(file: Seq<char>, digits: Seq<char>)
    requires
        text::all_digits(digits),
    ensures
        last_index(file.push(':') + digits, ':') == file.len(),
    decreases digits.len(),
{
    let all = file.push(':') + digits;
    if digits.len() == 0 {
        assert(all =~= file.push(':'));
    } else {
        let rest = digits.drop_last();
        assert forall|i: int| 0 <= i < rest.len() implies text::is_digit(#[trigger] rest[i]) by {
            assert(rest[i] == digits[i]);
        }
        lemma_last_colon(file, rest);
        assert(all.drop_last() =~= file.push(':') + rest);
        assert(text::is_digit(digits[digits.len() - 1]));
        assert(all.last() == digits.last());
    }
}

/// What an output is read as follows the mode that was asked for; an output that says that nothing was
/// found, and an empty one, is read as nothing.
pub proof fn law_output_is_read_in_its_mode(mode: Seq<char>, output: Seq<char>)
    ensures
        output.len() == 0 ==> output_result(mode, output) is None,
        text::starts(output, "No matches found"@) ==> output_result(mode, output) is None,
        output.len() > 0 && !text::starts(output, "No matches found"@) ==> {
            &&& output_result(mode, output) is Some
            &&& mode == "files_with_matches"@ <==> output_result(mode, output)->0 is Files
            &&& mode == "count"@ <==> output_result(mode, output)->0 is Count
        },
{
    reveal_strlit("files_with_matches");
    reveal_strlit("count");
    assert("files_with_matches"@.len() != "count"@.len());
}

/// A search covers the directory that its call names, under either name, or else the current one; and it
/// looks for the pattern of the call.
pub proof fn law_search_is_that_of_the_call(call: ToolCallView, path: Seq<char>)
    ensures
        call.arguments.at("path"@) == Some(crate::json::JsonView::String(path)) ==> searched_path(
            call,
        ) == path,
        call.arguments.at("path"@) is None && call.arguments.at("target_directory"@) == Some(
            crate::json::JsonView::String(path),
        ) ==> searched_path(call) == path,
        call.arguments.at("path"@) is None && call.arguments.at("target_directory"@) is None
            ==> searched_path(call) == "."@,
        call.arguments.at("pattern"@) == Some(crate::json::JsonView::String(path))
            ==> searched_pattern(call) == path,
{
}

} // verus!
