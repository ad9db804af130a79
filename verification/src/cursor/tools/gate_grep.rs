//! Search results within a budget of matches and bytes.
use crate::cursor::tools::grep_result::{
    GrepContentMatch, GrepContentMatchView, GrepFileMatch, GrepFileMatchView, GrepSuccess,
    GrepUnionResult, GrepUnionResultView, WorkspaceResult,
};
use crate::cursor::tools::grep_result;
use crate::cursor::tools::truncation;
use crate::data;
use crate::text;
use vstd::prelude::*;

verus! {

/// How many bytes of lines are kept.
pub const GREP_CONTENT_LIMIT: usize = 32_768;

/// How many bytes of one line are kept.
pub const GREP_MATCH_LIMIT: usize = 2_048;

/// How many lines of one file are kept.
pub const GREP_MATCHES_PER_FILE: usize = 100;

/// How many lines are kept.
pub const GREP_TOTAL_MATCHES: usize = 300;

/// How many files are listed.
pub const GREP_LIST_LIMIT: usize = 300;

/// What may still be kept.
#[derive(Clone, Copy, Debug, PartialEq, Eq, Structural)]
pub struct GrepBudget {
    pub content_bytes: usize,
    pub matches: usize,
}

impl GrepBudget {
    /// Whether nothing more may be kept.
    pub open spec fn spent(self) -> bool {
        self.matches == 0 || self.content_bytes == 0
    }
}

/// A number that is cut off at the largest length.
pub open spec fn capped(n: int) -> int {
    if n > usize::MAX {
        usize::MAX as int
    } else {
        n
    }
}

/// The bytes of lines.
pub open spec fn match_bytes(matches: Seq<GrepContentMatchView>) -> int
    decreases matches.len(),
{
    if matches.len() == 0 {
        0
    } else {
        match_bytes(matches.drop_last()) + text::utf8_len(matches.last().content)
    }
}

/// The bytes of all lines of some files.
pub open spec fn file_bytes(files: Seq<GrepFileMatchView>) -> int
    decreases files.len(),
{
    if files.len() == 0 {
        0
    } else {
        file_bytes(files.drop_last()) + match_bytes(files.last().matches)
    }
}

fn add_capped(a: usize, b: usize) -> (r: usize)
    ensures
        r == capped(a + b),
{
    if b > usize::MAX - a {
        usize::MAX
    } else {
        a + b
    }
}

proof fn lemma_match_bytes(matches: Seq<GrepContentMatchView>)
    ensures
        match_bytes(matches) >= 0,
    decreases matches.len(),
{
    if matches.len() > 0 {
        lemma_match_bytes(matches.drop_last());
    }
}

proof fn lemma_file_bytes(files: Seq<GrepFileMatchView>)
    ensures
        file_bytes(files) >= 0,
    decreases files.len(),
{
    if files.len() > 0 {
        lemma_file_bytes(files.drop_last());
        lemma_match_bytes(files.last().matches);
    }
}

fn count_match_bytes(matches: &Vec<GrepContentMatch>) -> (r: usize)
    ensures
        r == capped(match_bytes(data::views(matches@))),
{
    let ghost all = data::views(matches@);
    let mut total: usize = 0;
    let mut i: usize = 0;
    assert(all.take(0) =~= Seq::empty());
    while i < matches.len()
        invariant
            i <= matches@.len(),
            all == data::views(matches@),
            total == capped(match_bytes(all.take(i as int))),
        decreases matches@.len() - i,
    {
        proof {
            lemma_match_bytes(all.take(i as int));
        }
        total = add_capped(total, text::byte_len(matches[i].content.as_str()));
        i += 1;
        assert(all.take(i as int).drop_last() =~= all.take(i - 1));
        assert(all.take(i as int).last() == matches@[i - 1]@);
    }
    assert(all.take(i as int) =~= all);
    total
}

/// The bytes of all lines of some files, or the largest length where they are more.
pub fn grep_content_bytes(files: &Vec<GrepFileMatch>) -> (r: usize)
    ensures
        r == capped(file_bytes(data::views(files@))),
{
    let ghost all = data::views(files@);
    let mut total: usize = 0;
    let mut i: usize = 0;
    assert(all.take(0) =~= Seq::empty());
    while i < files.len()
        invariant
            i <= files@.len(),
            all == data::views(files@),
            total == capped(file_bytes(all.take(i as int))),
        decreases files@.len() - i,
    {
        proof {
            lemma_file_bytes(all.take(i as int));
            lemma_match_bytes(all[i as int].matches);
        }
        total = add_capped(total, count_match_bytes(&files[i].matches));
        i += 1;
        assert(all.take(i as int).drop_last() =~= all.take(i - 1));
        assert(all.take(i as int).last() == files@[i - 1]@);
    }
    assert(all.take(i as int) =~= all);
    total
}

/// Whether a line is the notice that a search was cut.
pub open spec fn notice_line(matched: GrepContentMatchView) -> bool {
    matched.line_number == 0 && matched.content_truncated && text::starts(
        matched.content,
        "[truncated: Grep result exceeded"@,
    )
}

/// Whether some line is the notice that a search was cut.
pub open spec fn has_notice(files: Seq<GrepFileMatchView>) -> bool {
    exists|i: int, j: int|
        0 <= i < files.len() && 0 <= j < files[i].matches.len() && notice_line(
            #[trigger] files[i].matches[j],
        )
}

/// Whether a line is the notice that a search was cut.
pub fn is_grep_notice(matched: &GrepContentMatch) -> (r: bool)
    ensures
        r == notice_line(matched@),
{
    matched.line_number == 0 && matched.content_truncated && text::starts_with(
        matched.content.as_str(),
        "[truncated: Grep result exceeded",
    )
}

fn find_notice(files: &Vec<GrepFileMatch>) -> (r: bool)
    ensures
        r == has_notice(data::views(files@)),
{
    let ghost all = data::views(files@);
    assert(all.len() == files@.len());
    let mut i: usize = 0;
    while i < files.len()
        invariant
            i <= files@.len(),
            all == data::views(files@),
            all.len() == files@.len(),
            forall|a: int, b: int|
                0 <= a < i && 0 <= b < all[a].matches.len() ==> !notice_line(
                    #[trigger] all[a].matches[b],
                ),
        decreases files@.len() - i,
    {
        assert(all[i as int] == files@[i as int]@);
        let mut j: usize = 0;
        while j < files[i].matches.len()
            invariant
                i < files@.len(),
                all == data::views(files@),
                all.len() == files@.len(),
                all[i as int] == files@[i as int]@,
                all[i as int].matches == data::views(files@[i as int].matches@),
                j <= files@[i as int].matches@.len(),
                forall|b: int|
                    0 <= b < j ==> !notice_line(#[trigger] all[i as int].matches[b]),
            decreases files@[i as int].matches@.len() - j,
        {
            assert(all[i as int].matches[j as int] == files@[i as int].matches@[j as int]@);
            if is_grep_notice(&files[i].matches[j]) {
                return true;
            }
            j += 1;
        }
        i += 1;
    }
    false
}

/// A line as it is kept, and whether it was cut: to the limit of a line, and then to what is left.
pub open spec fn gated_match(matched: GrepContentMatchView, left: nat) -> (
    GrepContentMatchView,
    bool,
) {
    let line = truncation::truncated("Grep match"@, matched.content, GREP_MATCH_LIMIT as nat);
    let over = text::utf8_len(line) > left;
    let kept = if over {
        truncation::truncated("Grep"@, line, left)
    } else {
        line
    };
    let cut = line != matched.content || over;
    (
        GrepContentMatchView {
            content: kept,
            content_truncated: matched.content_truncated || cut,
            ..matched
        },
        cut,
    )
}

/// The kept lines of a file, what may still be kept, and whether something was left out.
#[verifier::ext_equal]
pub struct FileGate {
    pub kept: Seq<GrepContentMatchView>,
    pub budget: GrepBudget,
    pub truncated: bool,
}

/// What is left of a budget after a line. A notice can be longer than what was left.
pub open spec fn budget_after(budget: GrepBudget, bytes: nat) -> GrepBudget {
    GrepBudget {
        content_bytes: if bytes >= budget.content_bytes {
            0
        } else {
            (budget.content_bytes - bytes) as usize
        },
        matches: (budget.matches - 1) as usize,
    }
}

/// The kept lines of a file, from line `i` on.
pub open spec fn gate_matches(
    matches: Seq<GrepContentMatchView>,
    i: int,
    state: FileGate,
) -> FileGate
    decreases matches.len() - i,
{
    if i < 0 || i >= matches.len() {
        state
    } else if state.kept.len() >= GREP_MATCHES_PER_FILE || state.budget.spent() {
        FileGate { truncated: true, ..state }
    } else {
        let (kept, cut) = gated_match(matches[i], state.budget.content_bytes as nat);
        if text::blank(kept.content) {
            FileGate { truncated: true, ..state }
        } else {
            gate_matches(
                matches,
                i + 1,
                FileGate {
                    kept: state.kept.push(kept),
                    budget: budget_after(state.budget, text::utf8_len(kept.content)),
                    truncated: state.truncated || cut,
                },
            )
        }
    }
}

/// The kept files, what may still be kept, and whether something was left out.
#[verifier::ext_equal]
pub struct ContentGate {
    pub files: Seq<GrepFileMatchView>,
    pub budget: GrepBudget,
    pub truncated: bool,
}

/// The kept files with another one.
pub open spec fn with_file(state: ContentGate, file: GrepFileMatchView) -> ContentGate {
    let gate = gate_matches(
        file.matches,
        0,
        FileGate { kept: Seq::empty(), budget: state.budget, truncated: false },
    );
    ContentGate {
        files: if gate.kept.len() == 0 {
            state.files
        } else {
            state.files.push(GrepFileMatchView { file: file.file, matches: gate.kept })
        },
        budget: gate.budget,
        truncated: state.truncated || gate.truncated || gate.kept.len() < file.matches.len(),
    }
}

/// The kept files, from file `i` on.
pub open spec fn gate_files(
    files: Seq<GrepFileMatchView>,
    i: int,
    state: ContentGate,
) -> ContentGate
    decreases files.len() - i,
{
    if i < 0 || i >= files.len() {
        state
    } else if state.budget.spent() {
        ContentGate { truncated: true, ..state }
    } else {
        gate_files(files, i + 1, with_file(state, files[i]))
    }
}

/// The line that tells that a search was cut.
pub open spec fn notice_match(content: Seq<char>) -> GrepContentMatchView {
    GrepContentMatchView { line_number: 0, content, content_truncated: true, is_context_line: true }
}

/// The files with their last line taken off, and the last file if it has no other.
pub open spec fn without_last_line(files: Seq<GrepFileMatchView>) -> Seq<GrepFileMatchView> {
    let last = files.last();
    if last.matches.len() <= 1 {
        files.drop_last()
    } else {
        files.drop_last().push(
            GrepFileMatchView { file: last.file, matches: last.matches.drop_last() },
        )
    }
}

/// How many files and lines there are.
pub open spec fn file_weight(files: Seq<GrepFileMatchView>) -> nat
    decreases files.len(),
{
    if files.len() == 0 {
        0
    } else {
        file_weight(files.drop_last()) + files.last().matches.len() + 1
    }
}

/// Taking a line off leaves fewer files and lines.
pub proof fn lemma_weight_shrinks(files: Seq<GrepFileMatchView>)
    requires
        files.len() > 0,
    ensures
        file_weight(without_last_line(files)) < file_weight(files),
{
    let out = without_last_line(files);
    if files.last().matches.len() > 1 {
        assert(out.drop_last() =~= files.drop_last());
    }
}

/// The files with a notice at the end; lines make room for it.
pub open spec fn make_room(files: Seq<GrepFileMatchView>, original: nat) -> Seq<GrepFileMatchView>
    decreases file_weight(files),
{
    let used = capped(file_bytes(files));
    let notice = truncation::notice_of("Grep"@, GREP_CONTENT_LIMIT as nat, used as nat, original);
    if used + text::utf8_len(notice) <= GREP_CONTENT_LIMIT {
        if files.len() == 0 {
            seq![
                GrepFileMatchView { file: "[truncated]"@, matches: seq![notice_match(notice)] },
            ]
        } else {
            files.drop_last().push(
                GrepFileMatchView {
                    file: files.last().file,
                    matches: files.last().matches.push(notice_match(notice)),
                },
            )
        }
    } else if files.len() == 0 {
        files
    } else {
        proof {
            lemma_weight_shrinks(files);
        }
        make_room(without_last_line(files), original)
    }
}

/// The files with a notice at the end, if they have none yet.
pub open spec fn with_notice(files: Seq<GrepFileMatchView>, original: nat) -> Seq<
    GrepFileMatchView,
> {
    if has_notice(files) {
        files
    } else {
        make_room(files, original)
    }
}

/// The kept lines of a search, whether it was cut, and what may still be kept. A search that was cut
/// before stays as it is.
pub open spec fn gated_content(
    files: Seq<GrepFileMatchView>,
    client_truncated: bool,
    budget: GrepBudget,
) -> (Seq<GrepFileMatchView>, bool, GrepBudget) {
    if has_notice(files) {
        (files, client_truncated, budget)
    } else {
        let gate = gate_files(
            files,
            0,
            ContentGate { files: Seq::empty(), budget, truncated: false },
        );
        if gate.truncated || gate.files.len() < files.len() {
            (with_notice(gate.files, capped(file_bytes(files)) as nat), true, gate.budget)
        } else {
            (gate.files, client_truncated, gate.budget)
        }
    }
}

fn gate_match(matched: &GrepContentMatch, left: usize) -> (r: (GrepContentMatch, bool))
    ensures
        (r.0@, r.1) == gated_match(matched@, left as nat),
{
    let line = truncation::truncate_text(
        "Grep match",
        matched.content.as_str(),
        GREP_MATCH_LIMIT,
    );
    let mut cut = !text::same(line.as_str(), matched.content.as_str());
    let kept = if text::byte_len(line.as_str()) > left {
        cut = true;
        truncation::truncate_text("Grep", line.as_str(), left)
    } else {
        line
    };
    (
        GrepContentMatch {
            line_number: matched.line_number,
            content: kept,
            content_truncated: matched.content_truncated || cut,
            is_context_line: matched.is_context_line,
        },
        cut,
    )
}

fn gate_file(matches: &Vec<GrepContentMatch>, budget: &mut GrepBudget) -> (r: (
    Vec<GrepContentMatch>,
    bool,
))
    ensures
        ({
            let gate = gate_matches(
                data::views(matches@),
                0,
                FileGate { kept: Seq::empty(), budget: *old(budget), truncated: false },
            );
            &&& data::views(r.0@) == gate.kept
            &&& *final(budget) == gate.budget
            &&& r.1 == gate.truncated
        }),
{
    let ghost all = data::views(matches@);
    assert(all.len() == matches@.len());
    let ghost start = FileGate { kept: Seq::empty(), budget: *budget, truncated: false };
    let mut kept: Vec<GrepContentMatch> = Vec::new();
    let mut truncated = false;
    let mut i: usize = 0;
    assert(data::views(kept@) =~= Seq::empty());
    while i < matches.len()
        invariant
            i <= matches@.len(),
            all == data::views(matches@),
            all.len() == matches@.len(),
            start == (FileGate { kept: Seq::empty(), budget: *old(budget), truncated: false }),
            gate_matches(all, 0, start) == gate_matches(
                all,
                i as int,
                FileGate { kept: data::views(kept@), budget: *budget, truncated },
            ),
        decreases matches@.len() - i,
    {
        let ghost before = data::views(kept@);
        assert(before.len() == kept@.len());
        assert(all[i as int] == matches@[i as int]@);
        if kept.len() >= GREP_MATCHES_PER_FILE || budget.matches == 0 || budget.content_bytes == 0 {
            return (kept, true);
        }
        let (line, cut) = gate_match(&matches[i], budget.content_bytes);
        if text::is_blank(line.content.as_str()) {
            return (kept, true);
        }
        let bytes = text::byte_len(line.content.as_str());
        *budget = GrepBudget {
            content_bytes: budget.content_bytes.saturating_sub(bytes),
            matches: budget.matches - 1,
        };
        truncated = truncated || cut;
        kept.push(line);
        assert(data::views(kept@) =~= before.push(line@));
        i += 1;
    }
    (kept, truncated)
}

fn add_grep_notice(files: &mut Vec<GrepFileMatch>, original: usize)
    ensures
        data::views(final(files)@) == with_notice(data::views(old(files)@), original as nat),
{
    if find_notice(files) {
        return ;
    }
    let ghost start = data::views(files@);
    loop
        invariant_except_break
            make_room(start, original as nat) == make_room(data::views(files@), original as nat),
        ensures
            data::views(files@) == make_room(start, original as nat),
        decreases file_weight(data::views(files@)),
    {
        let ghost before = data::views(files@);
        assert(before.len() == files@.len());
        let used = grep_content_bytes(files);
        let notice = truncation::truncation_notice("Grep", GREP_CONTENT_LIMIT, used, original);
        let size = add_capped(used, text::byte_len(notice.as_str()));
        let n: usize = files.len();
        if size <= GREP_CONTENT_LIMIT {
            let line = GrepContentMatch {
                line_number: 0,
                content: notice,
                content_truncated: true,
                is_context_line: true,
            };
            let ghost shown = line@;
            assert(shown == notice_match(notice@));
            if n > 0 {
                assert(before.last() == files@[n - 1]@);
                let ghost lines = files@[n - 1].matches@;
                files[n - 1].matches.push(line);
                proof {
                    let last = files@[n - 1];
                    assert(data::views(last.matches@) =~= data::views(lines).push(shown));
                    assert(data::views(files@) =~= before.drop_last().push(last@));
                }
            } else {
                let mut lines: Vec<GrepContentMatch> = Vec::new();
                lines.push(line);
                assert(data::views(lines@) =~= seq![shown]);
                files.push(GrepFileMatch { file: "[truncated]".to_owned(), matches: lines });
                assert(data::views(files@) =~= seq![files@[0]@]);
            }
            break ;
        }
        if n == 0 {
            break ;
        }
        proof {
            lemma_weight_shrinks(before);
            assert(before.last() == files@[n - 1]@);
        }
        let ghost lines = files@[n - 1].matches@;
        assert(before.last().matches.len() == lines.len());
        if files[n - 1].matches.len() <= 1 {
            let _ = files.pop();
            assert(data::views(files@) =~= before.drop_last());
        } else {
            let _ = files[n - 1].matches.pop();
            proof {
                let last = files@[n - 1];
                assert(data::views(last.matches@) =~= data::views(lines).drop_last());
                assert(data::views(files@) =~= before.drop_last().push(last@));
            }
        }
        assert(data::views(files@) =~= without_last_line(before));
    }
}

/// Keeps the lines of a search within a budget.
pub fn gate_grep_content(
    matches: &mut Vec<GrepFileMatch>,
    client_truncated: &mut bool,
    budget: &mut GrepBudget,
)
    ensures
        (data::views(final(matches)@), *final(client_truncated), *final(budget)) == gated_content(
            data::views(old(matches)@),
            *old(client_truncated),
            *old(budget),
        ),
{
    if find_notice(matches) {
        return ;
    }
    let ghost all = data::views(matches@);
    assert(all.len() == matches@.len());
    let ghost start = ContentGate { files: Seq::empty(), budget: *budget, truncated: false };
    let original_bytes = grep_content_bytes(matches);
    let mut files: Vec<GrepFileMatch> = Vec::new();
    let mut truncated = false;
    let mut i: usize = 0;
    assert(data::views(files@) =~= Seq::empty());
    while i < matches.len()
        invariant
            i <= matches@.len(),
            all == data::views(matches@),
            all.len() == matches@.len(),
            gate_files(all, 0, start) == gate_files(
                all,
                i as int,
                ContentGate { files: data::views(files@), budget: *budget, truncated },
            ),
        ensures
            all == data::views(matches@),
            all.len() == matches@.len(),
            gate_files(all, 0, start) == (ContentGate {
                files: data::views(files@),
                budget: *budget,
                truncated,
            }),
        decreases matches@.len() - i,
    {
        if budget.matches == 0 || budget.content_bytes == 0 {
            truncated = true;
            break ;
        }
        let ghost before = data::views(files@);
        assert(all[i as int] == matches@[i as int]@);
        let (kept, cut) = gate_file(&matches[i].matches, budget);
        assert(data::views(kept@).len() == kept@.len());
        if cut || kept.len() < matches[i].matches.len() {
            truncated = true;
        }
        if kept.len() > 0 {
            let file = GrepFileMatch { file: matches[i].file.clone(), matches: kept };
            files.push(file);
            assert(data::views(files@) =~= before.push(file@));
        }
        i += 1;
    }
    assert(data::views(files@).len() == files@.len());
    if truncated || files.len() < matches.len() {
        *client_truncated = true;
        add_grep_notice(&mut files, original_bytes);
    }
    *matches = files;
}

/// The first items of a list, at most as many as are listed.
pub open spec fn listed<T>(items: Seq<T>) -> Seq<T> {
    if items.len() > GREP_LIST_LIMIT {
        items.take(GREP_LIST_LIMIT as int)
    } else {
        items
    }
}

/// A number of files that is filled in where it is not known.
pub open spec fn known_total(total: i32, count: nat) -> i32 {
    if total <= 0 {
        (count as usize) as i32
    } else {
        total
    }
}

/// A result within a budget, and what may still be kept.
pub open spec fn gated_union(result: GrepUnionResultView, budget: GrepBudget) -> (
    GrepUnionResultView,
    GrepBudget,
) {
    match result {
        GrepUnionResultView::Content {
            matches,
            total_lines,
            total_matched_lines,
            client_truncated,
        } => {
            let gate = gated_content(matches, client_truncated, budget);
            (
                GrepUnionResultView::Content {
                    matches: gate.0,
                    total_lines,
                    total_matched_lines,
                    client_truncated: gate.1,
                },
                gate.2,
            )
        },
        GrepUnionResultView::Files { files, total_files, client_truncated } => (
            GrepUnionResultView::Files {
                files: listed(files),
                total_files: known_total(total_files, files.len()),
                client_truncated: client_truncated || files.len() > GREP_LIST_LIMIT,
            },
            budget,
        ),
        GrepUnionResultView::Count {
            counts,
            total_files,
            total_matches,
            client_truncated,
        } => (
            GrepUnionResultView::Count {
                counts: listed(counts),
                total_files: known_total(total_files, counts.len()),
                total_matches,
                client_truncated: client_truncated || counts.len() > GREP_LIST_LIMIT,
            },
            budget,
        ),
    }
}

fn list_length(count: usize) -> (r: i32)
    ensures
        r == count as i32,
{
    count as i32
}

/// Keeps a result within a budget.
pub fn gate_grep_union(result: &mut GrepUnionResult, budget: &mut GrepBudget)
    ensures
        (final(result)@, *final(budget)) == gated_union(old(result)@, *old(budget)),
{
    match result {
        GrepUnionResult::Content { matches, client_truncated, .. } => {
            gate_grep_content(matches, client_truncated, budget);
        },
        GrepUnionResult::Files { files, total_files, client_truncated } => {
            let ghost all = data::views(files@);
            let original: usize = files.len();
            assert(all.len() == original);
            if original > GREP_LIST_LIMIT {
                files.truncate(GREP_LIST_LIMIT);
                *client_truncated = true;
            }
            assert(data::views(files@) =~= listed(all));
            if *total_files <= 0 {
                *total_files = list_length(original);
            }
        },
        GrepUnionResult::Count { counts, total_files, client_truncated, .. } => {
            let ghost all = data::views(counts@);
            let original: usize = counts.len();
            assert(all.len() == original);
            if original > GREP_LIST_LIMIT {
                counts.truncate(GREP_LIST_LIMIT);
                *client_truncated = true;
            }
            assert(data::views(counts@) =~= listed(all));
            if *total_files <= 0 {
                *total_files = list_length(original);
            }
        },
    }
}

/// Results within a budget that they share, in their order, and what may still be kept.
pub open spec fn gated_workspaces(
    results: Seq<(Seq<char>, GrepUnionResultView)>,
    budget: GrepBudget,
) -> (Seq<(Seq<char>, GrepUnionResultView)>, GrepBudget)
    decreases results.len(),
{
    if results.len() == 0 {
        (results, budget)
    } else {
        let before = gated_workspaces(results.drop_last(), budget);
        let last = gated_union(results.last().1, before.1);
        (before.0.push((results.last().0, last.0)), last.1)
    }
}

/// The budget of a search.
pub open spec fn full_budget() -> GrepBudget {
    GrepBudget { content_bytes: GREP_CONTENT_LIMIT, matches: GREP_TOTAL_MATCHES }
}

/// A search within its budget.
pub open spec fn gated_grep(success: grep_result::GrepSuccessView) -> grep_result::GrepSuccessView {
    let workspaces = gated_workspaces(success.workspace_results, full_budget());
    grep_result::GrepSuccessView {
        workspace_results: workspaces.0,
        active_editor_result: match success.active_editor_result {
            Some(result) => Some(gated_union(result, workspaces.1).0),
            None => None,
        },
        ..success
    }
}

proof fn lemma_names_stay(results: Seq<(Seq<char>, GrepUnionResultView)>, budget: GrepBudget)
    ensures
        gated_workspaces(results, budget).0.len() == results.len(),
        forall|k: int|
            0 <= k < results.len() ==> (#[trigger] gated_workspaces(results, budget).0[k]).0
                == results[k].0,
    decreases results.len(),
{
    if results.len() > 0 {
        lemma_names_stay(results.drop_last(), budget);
    }
}

/// Keeps a search within its budget. The workspaces share it in the order of their names.
pub fn gate_grep(success: &mut GrepSuccess)
    requires
        old(success)@.wf(),
    ensures
        final(success)@.wf(),
        final(success)@ == gated_grep(old(success)@),
{
    let ghost start = success@;
    let ghost all = grep_result::workspace_views(success.workspace_results@);
    assert(all.len() == success.workspace_results@.len());
    let mut budget = GrepBudget {
        content_bytes: GREP_CONTENT_LIMIT,
        matches: GREP_TOTAL_MATCHES,
    };
    let mut results: Vec<WorkspaceResult> = Vec::new();
    core::mem::swap(&mut results, &mut success.workspace_results);
    let ghost given = results@;
    let n: usize = results.len();
    let mut i: usize = 0;
    assert(all.take(0) =~= Seq::empty());
    assert(grep_result::workspace_views(results@).take(0) =~= gated_workspaces(
        all.take(0),
        full_budget(),
    ).0);
    while i < n
        invariant
            i <= n,
            n == results@.len(),
            n == given.len(),
            all == grep_result::workspace_views(given),
            forall|k: int| i <= k < n ==> results@[k] == given[k],
            (grep_result::workspace_views(results@).take(i as int), budget) == gated_workspaces(
                all.take(i as int),
                full_budget(),
            ),
        decreases n - i,
    {
        let ghost before = grep_result::workspace_views(results@);
        gate_grep_union(&mut results[i].1, &mut budget);
        i += 1;
        proof {
            assert(all.take(i as int).drop_last() =~= all.take(i - 1));
            assert(all.take(i as int).last() == (given[i - 1].0@, given[i - 1].1@));
            let now = grep_result::workspace_views(results@);
            assert(now.take(i as int) =~= before.take(i - 1).push(now[i - 1]));
        }
    }
    assert(all.take(i as int) =~= all);
    assert(grep_result::workspace_views(results@).take(i as int)
        =~= grep_result::workspace_views(results@));
    proof {
        lemma_names_stay(all, full_budget());
        let out = grep_result::workspace_views(results@);
        assert forall|i: int, j: int| 0 <= i < j < out.len() implies text::precedes(
            (#[trigger] out[i]).0,
            (#[trigger] out[j]).0,
        ) by {
            assert(out[i].0 == all[i].0 && out[j].0 == all[j].0);
        }
    }
    success.workspace_results = results;
    if let Some(result) = &mut success.active_editor_result {
        gate_grep_union(result, &mut budget);
    }
}

/// The notice on a search is short and is known as one.
proof fn lemma_notice(used: nat, original: nat)
    requires
        used <= u64::MAX,
        original <= u64::MAX,
    ensures
        ({
            let notice = truncation::notice_of(
                "Grep"@,
                GREP_CONTENT_LIMIT as nat,
                used,
                original,
            );
            notice_line(notice_match(notice)) && text::utf8_len(notice) <= 200
        }),
{
    let notice = truncation::notice_of("Grep"@, GREP_CONTENT_LIMIT as nat, used, original);
    reveal_strlit("[truncated: ");
    reveal_strlit("Grep");
    reveal_strlit(" result exceeded ");
    reveal_strlit("[truncated: Grep result exceeded");
    text::lemma_ascii_len("Grep"@);
    truncation::lemma_notice_bytes("Grep"@, GREP_CONTENT_LIMIT as nat, used, original);
    let start = "[truncated: Grep result exceeded"@;
    assert(notice.subrange(0, start.len() as int) =~= start);
}

/// A search that is told to be cut holds the notice, and its lines keep the limit.
pub proof fn law_notice_keeps_limit(files: Seq<GrepFileMatchView>, original: nat)
    requires
        original <= usize::MAX,
    ensures
        has_notice(make_room(files, original)),
        file_bytes(make_room(files, original)) <= GREP_CONTENT_LIMIT,
    decreases file_weight(files),
{
    let used = capped(file_bytes(files));
    lemma_file_bytes(files);
    lemma_notice(used as nat, original);
    let notice = truncation::notice_of("Grep"@, GREP_CONTENT_LIMIT as nat, used as nat, original);
    let line = notice_match(notice);
    let out = make_room(files, original);
    if used + text::utf8_len(notice) <= GREP_CONTENT_LIMIT {
        if files.len() == 0 {
            assert(out[0].matches[0] == line);
            assert(out.drop_last() =~= Seq::empty());
            assert(out.last().matches.drop_last() =~= Seq::empty());
            reveal_with_fuel(match_bytes, 2);
            reveal_with_fuel(file_bytes, 2);
        } else {
            let lines = files.last().matches;
            assert(out[files.len() - 1].matches[lines.len() as int] == line);
            assert(out.drop_last() =~= files.drop_last());
            assert(out.last().matches.drop_last() =~= lines);
        }
    } else if files.len() > 0 {
        lemma_weight_shrinks(files);
        law_notice_keeps_limit(without_last_line(files), original);
    }
}

/// A search of which something was left out says so, and is not cut again: with the notice in its
/// lines they stay as they are.
pub proof fn law_cut_search_stays(
    files: Seq<GrepFileMatchView>,
    budget: GrepBudget,
    again: GrepBudget,
)
    requires
        gated_content(files, false, budget).1,
    ensures
        ({
            let once = gated_content(files, false, budget);
            let twice = gated_content(once.0, once.1, again);
            has_notice(once.0) && once.0 == twice.0 && once.1 == twice.1
        }),
{
    let gate = gate_files(files, 0, ContentGate { files: Seq::empty(), budget, truncated: false });
    lemma_file_bytes(files);
    law_notice_keeps_limit(gate.files, capped(file_bytes(files)) as nat);
}

/// No file keeps more lines than a file may, whatever is searched.
pub proof fn law_lines_per_file(
    matches: Seq<GrepContentMatchView>,
    i: int,
    state: FileGate,
)
    requires
        0 <= i,
        state.kept.len() <= GREP_MATCHES_PER_FILE,
    ensures
        gate_matches(matches, i, state).kept.len() <= GREP_MATCHES_PER_FILE,
        gate_matches(matches, i, state).budget.matches <= state.budget.matches,
        gate_matches(matches, i, state).budget.content_bytes <= state.budget.content_bytes,
        gate_matches(matches, i, state).kept.len() - state.kept.len() == state.budget.matches
            - gate_matches(matches, i, state).budget.matches,
    decreases matches.len() - i,
{
    if i < matches.len() && !(state.kept.len() >= GREP_MATCHES_PER_FILE || state.budget.spent()) {
        let (kept, cut) = gated_match(matches[i], state.budget.content_bytes as nat);
        if !text::blank(kept.content) {
            law_lines_per_file(
                matches,
                i + 1,
                FileGate {
                    kept: state.kept.push(kept),
                    budget: budget_after(state.budget, text::utf8_len(kept.content)),
                    truncated: state.truncated || cut,
                },
            );
        }
    }
}

/// Whether every line of a file can be kept as it is.
pub open spec fn plain_lines(matches: Seq<GrepContentMatchView>) -> bool {
    forall|i: int|
        0 <= i < matches.len() ==> text::utf8_len((#[trigger] matches[i]).content) <= 2_048
            && !text::blank(matches[i].content)
}

/// How many lines some files have.
pub open spec fn line_count_of(files: Seq<GrepFileMatchView>) -> nat
    decreases files.len(),
{
    if files.len() == 0 {
        0
    } else {
        line_count_of(files.drop_last()) + files.last().matches.len()
    }
}

proof fn lemma_bytes_take(matches: Seq<GrepContentMatchView>, i: int)
    requires
        0 <= i < matches.len(),
        plain_lines(matches),
    ensures
        match_bytes(matches.take(i + 1)) == match_bytes(matches.take(i)) + text::utf8_len(
            matches[i].content,
        ),
        match_bytes(matches.take(i + 1)) <= match_bytes(matches),
        0 <= match_bytes(matches.take(i)) < match_bytes(matches),
    decreases matches.len() - i,
{
    assert(matches.take(i + 1).drop_last() =~= matches.take(i));
    assert(matches.take(i + 1).last() == matches[i]);
    lemma_line_takes_room(matches[i].content);
    lemma_bytes_not_negative(matches.take(i));
    if i + 1 < matches.len() {
        lemma_bytes_take(matches, i + 1);
    } else {
        assert(matches.take(i + 1) =~= matches);
    }
}

proof fn lemma_bytes_not_negative(matches: Seq<GrepContentMatchView>)
    ensures
        0 <= match_bytes(matches),
    decreases matches.len(),
{
    if matches.len() > 0 {
        lemma_bytes_not_negative(matches.drop_last());
    }
}

proof fn lemma_line_takes_room(content: Seq<char>)
    requires
        !text::blank(content),
    ensures
        text::utf8_len(content) > 0,
{
    text::lemma_utf8_len_at_least(content);
    text::law_trimming_takes_off_white_space(content);
}

proof fn lemma_lines_pass(matches: Seq<GrepContentMatchView>, i: int, state: FileGate)
    requires
        plain_lines(matches),
        matches.len() <= 100,
        0 <= i <= matches.len(),
        state.kept == matches.take(i),
        !state.truncated,
        state.budget.matches >= matches.len() - i,
        state.budget.content_bytes >= match_bytes(matches) - match_bytes(matches.take(i)),
    ensures
        ({
            let done = gate_matches(matches, i, state);
            &&& done.kept == matches
            &&& !done.truncated
            &&& done.budget.matches == state.budget.matches - (matches.len() - i)
            &&& done.budget.content_bytes == state.budget.content_bytes - (match_bytes(matches)
                - match_bytes(matches.take(i)))
        }),
    decreases matches.len() - i,
{
    if i < matches.len() {
        lemma_bytes_take(matches, i);
        lemma_line_takes_room(matches[i].content);
        let (kept, cut) = gated_match(matches[i], state.budget.content_bytes as nat);
        assert(kept == matches[i]);
        assert(!cut);
        let next = FileGate {
            kept: state.kept.push(kept),
            budget: budget_after(state.budget, text::utf8_len(kept.content)),
            truncated: false,
        };
        assert(next.kept =~= matches.take(i + 1));
        lemma_lines_pass(matches, i + 1, next);
    } else {
        assert(matches.take(i) =~= matches);
    }
}

proof fn lemma_files_pass(files: Seq<GrepFileMatchView>, i: int, state: ContentGate)
    requires
        forall|k: int|
            0 <= k < files.len() ==> plain_lines((#[trigger] files[k]).matches) && 0
                < files[k].matches.len() <= 100,
        0 <= i <= files.len(),
        state.files == files.take(i),
        !state.truncated,
        state.budget.matches == 300 - line_count_of(files.take(i)),
        state.budget.content_bytes == 32_768 - file_bytes(files.take(i)),
        line_count_of(files) <= 300,
        file_bytes(files) <= 32_768,
    ensures
        ({
            let done = gate_files(files, i, state);
            &&& done.files == files
            &&& !done.truncated
        }),
    decreases files.len() - i,
{
    if i < files.len() {
        lemma_files_take(files, i);
        let file = files[i];
        let fresh = FileGate { kept: Seq::empty(), budget: state.budget, truncated: false };
        assert(file.matches.take(0) =~= Seq::empty());
        assert(match_bytes(file.matches.take(0)) == 0);
        lemma_bytes_take(file.matches, 0);
        lemma_lines_pass(file.matches, 0, fresh);
        let next = with_file(state, file);
        assert(GrepFileMatchView { file: file.file, matches: file.matches } == file);
        assert(next.files =~= files.take(i + 1));
        lemma_files_pass(files, i + 1, next);
    } else {
        assert(files.take(i) =~= files);
    }
}

proof fn lemma_files_take(files: Seq<GrepFileMatchView>, i: int)
    requires
        0 <= i < files.len(),
    ensures
        line_count_of(files.take(i + 1)) == line_count_of(files.take(i)) + files[i].matches.len(),
        file_bytes(files.take(i + 1)) == file_bytes(files.take(i)) + match_bytes(files[i].matches),
        line_count_of(files.take(i + 1)) <= line_count_of(files),
        file_bytes(files.take(i + 1)) <= file_bytes(files),
    decreases files.len() - i,
{
    assert(files.take(i + 1).drop_last() =~= files.take(i));
    assert(files.take(i + 1).last() == files[i]);
    if i + 1 < files.len() {
        lemma_files_take(files, i + 1);
        lemma_bytes_not_negative(files[i + 1].matches);
    } else {
        assert(files.take(i + 1) =~= files);
    }
}

/// Lines of a search that keep every limit are kept as they are, all of them and in their order, and
/// the search is not said to be cut.
pub proof fn law_small_search_passes(files: Seq<GrepFileMatchView>, client_truncated: bool)
    requires
        forall|k: int|
            0 <= k < files.len() ==> plain_lines((#[trigger] files[k]).matches) && 0
                < files[k].matches.len() <= 100,
        line_count_of(files) <= 300,
        file_bytes(files) <= 32_768,
    ensures
        gated_content(files, client_truncated, full_budget()).0 == files,
        gated_content(files, client_truncated, full_budget()).1 == client_truncated,
{
    if !has_notice(files) {
        let state = ContentGate { files: Seq::empty(), budget: full_budget(), truncated: false };
        assert(files.take(0) =~= Seq::empty());
        lemma_files_pass(files, 0, state);
    }
}

/// Lists of up to three hundred files or counts are kept whole; of longer ones the first three hundred
/// stay, and it is said that the list was cut. A number of files that is known stays.
pub proof fn law_lists_keep_their_front(
    files: Seq<Seq<char>>,
    counts: Seq<grep_result::GrepFileCountView>,
    total_files: i32,
    total_matches: i32,
    client_truncated: bool,
    budget: GrepBudget,
)
    requires
        files.len() <= i32::MAX,
    ensures
        ({
            let kept = gated_union(
                GrepUnionResultView::Files { files, total_files, client_truncated },
                budget,
            ).0;
            &&& kept is Files
            &&& files.len() <= 300 ==> kept->files == files && kept->Files_client_truncated
                == client_truncated
            &&& files.len() > 300 ==> kept->files == files.take(300)
                && kept->Files_client_truncated
            &&& total_files > 0 ==> kept->Files_total_files == total_files
            &&& total_files <= 0 ==> kept->Files_total_files == files.len()
        }),
        ({
            let kept = gated_union(
                GrepUnionResultView::Count { counts, total_files, total_matches, client_truncated },
                budget,
            ).0;
            &&& kept is Count
            &&& kept->total_matches == total_matches
            &&& counts.len() <= 300 ==> kept->counts == counts && kept->Count_client_truncated
                == client_truncated
            &&& counts.len() > 300 ==> kept->counts == counts.take(300)
                && kept->Count_client_truncated
        }),
{
}

} // verus!
