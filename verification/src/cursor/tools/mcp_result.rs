//! The results of the tools that answer with JSON, as a card shows them and as the model reads them.
use crate::data;
use crate::json;
use crate::json::{Json, JsonView};
use crate::model::tool::{ToolCall, ToolCallView};
use crate::text;
use vstd::prelude::*;

verus! {

/// The provider that the cards of these tools name.
pub const PROVIDER_IDENTIFIER: &'static str = "builtin-semble";

/// The text of a member, or another text where it has none.
pub open spec fn text_or(value: JsonView, key: Seq<char>, other: Seq<char>) -> Seq<char> {
    match value.text_at(key) {
        Some(found) => found,
        None => other,
    }
}

/// The items of a member, or none.
pub open spec fn items_or_none(value: JsonView, key: Seq<char>) -> Seq<JsonView> {
    match value.at(key) {
        Some(found) => match found.items() {
            Some(items) => items,
            None => Seq::empty(),
        },
        None => Seq::empty(),
    }
}

/// A number inside a member, or another number where it has none.
pub open spec fn number_in(value: JsonView, outer: Seq<char>, inner: Seq<char>, other: u64) -> u64 {
    match value.at(outer) {
        Some(found) => match found.at(inner) {
            Some(n) => match n.unsigned() {
                Some(n) => n,
                None => other,
            },
            None => other,
        },
        None => other,
    }
}

/// The beginning of a commit hash, of at most seven bytes.
pub open spec fn short_hash(hash: Seq<char>) -> Seq<char> {
    text::prefix_within(hash, 7)
}

/// The line of a commit in the answer to a search of the history.
pub open spec fn found_commit_line(index: int, commit: JsonView) -> Seq<char> {
    "  "@ + text::decimal((index + 1) as nat) + ". `"@ + short_hash(
        text_or(commit, "commit"@, "unknown"@),
    ) + "` ("@ + text_or(commit, "date"@, "unknown date"@) + ") by **"@ + text_or(
        commit,
        "author"@,
        "unknown author"@,
    ) + "**: "@ + text_or(commit, "subject"@, "(no subject)"@)
}

/// The lines of the commits in the answer to a search of the history.
pub open spec fn found_commit_lines(commits: Seq<JsonView>) -> Seq<Seq<char>> {
    Seq::new(commits.len(), |i: int| found_commit_line(i, commits[i]))
}

/// The answer to a search of the history.
pub open spec fn pickaxe_lines(result: JsonView) -> Seq<Seq<char>> {
    let query = text_or(result, "query"@, Seq::empty());
    let mode = text_or(result, "query_mode"@, "occurrence_change"@);
    let commits = items_or_none(result, "commits"@);
    let first = seq!["- **Query:** `"@ + query + "` ("@ + mode + ")"@];
    let second = match result.text_at("path"@) {
        Some(path) => first.push("- **Target Path:** `"@ + path + "`"@),
        None => first,
    };
    second.push(
        "- **Matching Commits ("@ + text::decimal(commits.len()) + " found, newest first):**"@,
    ) + found_commit_lines(commits)
}

/// Lines with a piece of evidence in a fence.
pub open spec fn evidence_lines(title: Seq<char>, evidence: Seq<char>) -> Seq<Seq<char>> {
    seq![title, "```text"@, text::trimmed(evidence), "```"@]
}

/// The answer to where lines came from.
pub open spec fn lineage_lines(result: JsonView) -> Seq<Seq<char>> {
    let start = number_in(result, "line_range"@, "start"@, 1);
    let end = number_in(result, "line_range"@, "end"@, start);
    seq![
        "- **File:** `"@ + text_or(result, "path"@, Seq::empty()) + "` (lines "@ + text::decimal(
            start as nat,
        ) + "-"@ + text::decimal(end as nat) + ")"@,
        "- **Method:** `git blame -w -M -C` (detects moved/copied lines across files)"@,
    ] + evidence_lines(
        "- **Lineage Evidence:**"@,
        text_or(result, "evidence"@, "No blame evidence."@),
    )
}

/// The line of the commit that made a file.
pub open spec fn creation_line(creation: JsonView) -> Seq<char> {
    "- **Creation:** `"@ + short_hash(text_or(creation, "commit"@, "unknown"@)) + "` ("@ + text_or(
        creation,
        "date"@,
        Seq::empty(),
    ) + ") by **"@ + text_or(creation, "author"@, Seq::empty()) + "**: "@ + text_or(
        creation,
        "subject"@,
        Seq::empty(),
    )
}

/// The line of a rename.
pub open spec fn rename_line(rename: JsonView) -> Seq<char> {
    "  - `"@ + text_or(rename, "from"@, Seq::empty()) + "` → `"@ + text_or(
        rename,
        "to"@,
        Seq::empty(),
    ) + "`"@
}

/// The line of a commit in a timeline.
pub open spec fn timeline_line(commit: JsonView) -> Seq<char> {
    let stat = text::trimmed(text_or(commit, "stat"@, Seq::empty()));
    let line = "  - `"@ + short_hash(text_or(commit, "commit"@, "unknown"@)) + "` ("@ + text_or(
        commit,
        "date"@,
        Seq::empty(),
    ) + ") **"@ + text_or(commit, "author"@, Seq::empty()) + "**: "@ + text_or(
        commit,
        "subject"@,
        Seq::empty(),
    );
    if stat.len() == 0 {
        line
    } else {
        line + " ("@ + stat + ")"@
    }
}

/// The lines on how a file was renamed.
pub open spec fn rename_lines(renames: Seq<JsonView>) -> Seq<Seq<char>> {
    if renames.len() == 0 {
        seq!["- **Rename Chain:** None recorded"@]
    } else {
        seq!["- **Rename Chain:**"@] + Seq::new(renames.len(), |i: int| rename_line(renames[i]))
    }
}

/// The lines of a timeline.
pub open spec fn timeline_lines(timeline: Seq<JsonView>) -> Seq<Seq<char>> {
    if timeline.len() == 0 {
        Seq::empty()
    } else {
        seq!["- **Timeline (latest "@ + text::decimal(timeline.len()) + " commits):**"@] + Seq::new(
            timeline.len(),
            |i: int| timeline_line(timeline[i]),
        )
    }
}

/// The answer to how a file came to be.
pub open spec fn biography_lines(result: JsonView) -> Seq<Seq<char>> {
    let total = match result.at("total_commits"@) {
        Some(n) => match n.unsigned() {
            Some(n) => n,
            None => 0,
        },
        None => 0,
    };
    let first = seq![
        "- **File:** `"@ + text_or(result, "path"@, Seq::empty()) + "` ("@ + text::decimal(
            total as nat,
        ) + " commits total)"@,
    ];
    let second = match result.at("creation"@) {
        Some(creation) => if creation is Null {
            first
        } else {
            first.push(creation_line(creation))
        },
        None => first,
    };
    second + rename_lines(items_or_none(result, "renames"@)) + timeline_lines(
        items_or_none(result, "timeline"@),
    )
}

/// The answer to what a commit changed.
pub open spec fn commit_lines(result: JsonView) -> Seq<Seq<char>> {
    seq!["- **Commit Target:** `"@ + text_or(result, "commit"@, Seq::empty()) + "`"@]
        + evidence_lines(
        "- **Commit Details:**"@,
        text_or(result, "evidence"@, "No commit details."@),
    )
}

/// The answer to a question on the history, where it is one that is written out in lines.
pub open spec fn history_lines(operation: Seq<char>, result: JsonView) -> Option<Seq<Seq<char>>> {
    if operation == "pickaxe"@ {
        Some(pickaxe_lines(result))
    } else if operation == "lineage"@ {
        Some(lineage_lines(result))
    } else if operation == "file_biography"@ {
        Some(biography_lines(result))
    } else if operation == "commit_context"@ {
        Some(commit_lines(result))
    } else {
        None
    }
}

/// A result as the model reads it: its rendering where it has one, an answer on the history in lines,
/// and any other value as indented JSON.
pub open spec fn shown_output(value: JsonView) -> Seq<char> {
    match value.text_at("rendered"@) {
        Some(rendered) => rendered,
        None => match value.text_at("operation"@) {
            None => json::pretty_text(value),
            Some(operation) => {
                let result = match value.at("result"@) {
                    Some(result) => result,
                    None => value,
                };
                match history_lines(operation, result) {
                    None => json::pretty_text(value),
                    Some(body) => {
                        let head = seq![
                            "### Git Archaeology: `"@ + operation + "`"@,
                            "- **Repository:** `"@ + text_or(
                                value,
                                "repository"@,
                                "unknown repository"@,
                            ) + "`"@,
                        ];
                        let lines = match value.text_at("still_unknown"@) {
                            Some(unknown) => (head + body).push("\n> **Note:** "@ + unknown),
                            None => head + body,
                        };
                        text::joined(lines, "\n"@)
                    },
                }
            },
        },
    }
}

fn get_text_or<'a>(value: &'a Json, key: &str, other: &'a str) -> (r: &'a str)
    ensures
        r@ == text_or(value@, key@, other@),
{
    match value.get_str(key) {
        Some(found) => found,
        None => other,
    }
}

fn get_items<'a>(value: &'a Json, key: &str) -> (r: Option<&'a Vec<Json>>)
    ensures
        match r {
            Some(items) => data::views(items@) == items_or_none(value@, key@),
            None => items_or_none(value@, key@) == Seq::<JsonView>::empty(),
        },
{
    match value.get(key) {
        Some(found) => found.as_array(),
        None => None,
    }
}

fn get_number_in(value: &Json, outer: &str, inner: &str, other: u64) -> (r: u64)
    ensures
        r == number_in(value@, outer@, inner@, other),
{
    match value.get(outer) {
        Some(found) => match found.get(inner) {
            Some(n) => match n.as_u64() {
                Some(n) => n,
                None => other,
            },
            None => other,
        },
        None => other,
    }
}

fn cut_hash(hash: &str) -> (r: String)
    ensures
        r@ == short_hash(hash@),
{
    let chars = text::to_chars(hash);
    let end = text::prefix_end(&chars, 7);
    let short = text::slice(&chars, 0, end);
    assert(short@ =~= short_hash(hash@));
    short
}

fn push_line(lines: &mut Vec<String>, line: String)
    ensures
        data::views(final(lines)@) == data::views(old(lines)@).push(line@),
{
    lines.push(line);
    assert(data::views(lines@) =~= data::views(old(lines)@).push(line@));
}

fn push_pickaxe(lines: &mut Vec<String>, result: &Json)
    ensures
        data::views(final(lines)@) == data::views(old(lines)@) + pickaxe_lines(result@),
{
    let ghost start = data::views(lines@);
    let mut query = "- **Query:** `".to_owned();
    query.append(get_text_or(result, "query", ""));
    query.append("` (");
    query.append(get_text_or(result, "query_mode", "occurrence_change"));
    query.append(")");
    proof {
        reveal_strlit("");
        assert(""@ =~= Seq::<char>::empty());
    }
    push_line(lines, query);
    if let Some(path) = result.get_str("path") {
        push_line(lines, text::concat3("- **Target Path:** `", path, "`"));
    }
    let ghost commits = items_or_none(result@, "commits"@);
    let found = get_items(result, "commits");
    let count: usize = match found {
        Some(items) => items.len(),
        None => 0,
    };
    assert(count == commits.len());
    let number = text::decimal_u64(count as u64);
    push_line(
        lines,
        text::concat3("- **Matching Commits (", number.as_str(), " found, newest first):**"),
    );
    let ghost before = data::views(lines@);
    if let Some(items) = found {
        let mut i: usize = 0;
        assert(before + found_commit_lines(commits).take(0) =~= before);
        while i < items.len()
            invariant
                i <= items@.len(),
                commits == data::views(items@),
                data::views(lines@) == before + found_commit_lines(commits).take(i as int),
            decreases items@.len() - i,
        {
            let commit = &items[i];
            assert(commits[i as int] == commit@);
            let mut line = "  ".to_owned();
            line.append(text::decimal_u64(i as u64 + 1).as_str());
            line.append(". `");
            line.append(cut_hash(get_text_or(commit, "commit", "unknown")).as_str());
            line.append("` (");
            line.append(get_text_or(commit, "date", "unknown date"));
            line.append(") by **");
            line.append(get_text_or(commit, "author", "unknown author"));
            line.append("**: ");
            line.append(get_text_or(commit, "subject", "(no subject)"));
            let ghost written = line@;
            assert(written == found_commit_line(i as int, commits[i as int]));
            push_line(lines, line);
            i += 1;
            assert(found_commit_lines(commits).take(i as int) =~= found_commit_lines(commits).take(
                i - 1,
            ).push(written));
            assert((before + found_commit_lines(commits).take(i - 1)).push(written) =~= before
                + found_commit_lines(commits).take(i as int));
        }
        assert(found_commit_lines(commits).take(i as int) =~= found_commit_lines(commits));
    } else {
        assert(before + found_commit_lines(commits) =~= before);
    }
    assert(data::views(lines@) =~= start + pickaxe_lines(result@));
}

fn push_evidence(lines: &mut Vec<String>, title: &str, evidence: &str)
    ensures
        data::views(final(lines)@) == data::views(old(lines)@) + evidence_lines(title@, evidence@),
{
    let ghost start = data::views(lines@);
    push_line(lines, title.to_owned());
    push_line(lines, "```text".to_owned());
    push_line(lines, text::trim(evidence));
    push_line(lines, "```".to_owned());
    assert(data::views(lines@) =~= start + evidence_lines(title@, evidence@));
}

fn push_lineage(lines: &mut Vec<String>, result: &Json)
    ensures
        data::views(final(lines)@) == data::views(old(lines)@) + lineage_lines(result@),
{
    let ghost before = data::views(lines@);
    proof {
        reveal_strlit("");
        assert(""@ =~= Seq::<char>::empty());
    }
    let start = get_number_in(result, "line_range", "start", 1);
    let end = get_number_in(result, "line_range", "end", start);
    let mut file = "- **File:** `".to_owned();
    file.append(get_text_or(result, "path", ""));
    file.append("` (lines ");
    file.append(text::decimal_u64(start).as_str());
    file.append("-");
    file.append(text::decimal_u64(end).as_str());
    file.append(")");
    push_line(lines, file);
    push_line(
        lines,
        "- **Method:** `git blame -w -M -C` (detects moved/copied lines across files)".to_owned(),
    );
    push_evidence(
        lines,
        "- **Lineage Evidence:**",
        get_text_or(result, "evidence", "No blame evidence."),
    );
    assert(data::views(lines@) =~= before + lineage_lines(result@));
}

fn push_renames(lines: &mut Vec<String>, result: &Json)
    ensures
        data::views(final(lines)@) == data::views(old(lines)@) + rename_lines(
            items_or_none(result@, "renames"@),
        ),
{
    let ghost start = data::views(lines@);
    let ghost renames = items_or_none(result@, "renames"@);
    let ghost all = Seq::new(renames.len(), |i: int| rename_line(renames[i]));
    let found = get_items(result, "renames");
    if let Some(items) = found {
        if items.len() > 0 {
            push_line(lines, "- **Rename Chain:**".to_owned());
            let ghost before = data::views(lines@);
            let mut i: usize = 0;
            assert(before + all.take(0) =~= before);
            while i < items.len()
                invariant
                    i <= items@.len(),
                    renames == data::views(items@),
                    all == Seq::new(renames.len(), |i: int| rename_line(renames[i])),
                    data::views(lines@) == before + all.take(i as int),
                decreases items@.len() - i,
            {
                let rename = &items[i];
                assert(renames[i as int] == rename@);
                proof {
                    reveal_strlit("");
                    assert(""@ =~= Seq::<char>::empty());
                }
                let mut line = "  - `".to_owned();
                line.append(get_text_or(rename, "from", ""));
                line.append("` → `");
                line.append(get_text_or(rename, "to", ""));
                line.append("`");
                let ghost written = line@;
                push_line(lines, line);
                i += 1;
                assert((before + all.take(i - 1)).push(written) =~= before + all.take(i as int));
            }
            assert(all.take(i as int) =~= all);
            assert(data::views(lines@) =~= start + rename_lines(renames));
            return ;
        }
    }
    assert(renames.len() == 0);
    push_line(lines, "- **Rename Chain:** None recorded".to_owned());
    assert(data::views(lines@) =~= start + rename_lines(renames));
}

fn push_timeline(lines: &mut Vec<String>, result: &Json)
    ensures
        data::views(final(lines)@) == data::views(old(lines)@) + timeline_lines(
            items_or_none(result@, "timeline"@),
        ),
{
    let ghost start = data::views(lines@);
    let ghost timeline = items_or_none(result@, "timeline"@);
    let ghost all = Seq::new(timeline.len(), |i: int| timeline_line(timeline[i]));
    let found = get_items(result, "timeline");
    if let Some(items) = found {
        if items.len() > 0 {
            let number = text::decimal_u64(items.len() as u64);
            push_line(
                lines,
                text::concat3("- **Timeline (latest ", number.as_str(), " commits):**"),
            );
            let ghost before = data::views(lines@);
            let mut i: usize = 0;
            assert(before + all.take(0) =~= before);
            while i < items.len()
                invariant
                    i <= items@.len(),
                    timeline == data::views(items@),
                    all == Seq::new(timeline.len(), |i: int| timeline_line(timeline[i])),
                    data::views(lines@) == before + all.take(i as int),
                decreases items@.len() - i,
            {
                let commit = &items[i];
                assert(timeline[i as int] == commit@);
                proof {
                    reveal_strlit("");
                    assert(""@ =~= Seq::<char>::empty());
                }
                let stat = text::trim(get_text_or(commit, "stat", ""));
                let mut line = "  - `".to_owned();
                line.append(cut_hash(get_text_or(commit, "commit", "unknown")).as_str());
                line.append("` (");
                line.append(get_text_or(commit, "date", ""));
                line.append(") **");
                line.append(get_text_or(commit, "author", ""));
                line.append("**: ");
                line.append(get_text_or(commit, "subject", ""));
                if !stat.as_str().is_empty() {
                    line.append(" (");
                    line.append(stat.as_str());
                    line.append(")");
                }
                let ghost written = line@;
                assert(written == timeline_line(timeline[i as int]));
                push_line(lines, line);
                i += 1;
                assert((before + all.take(i - 1)).push(written) =~= before + all.take(i as int));
            }
            assert(all.take(i as int) =~= all);
            assert(data::views(lines@) =~= start + timeline_lines(timeline));
            return ;
        }
    }
    assert(timeline.len() == 0);
    assert(data::views(lines@) =~= start + timeline_lines(timeline));
}

fn push_biography(lines: &mut Vec<String>, result: &Json)
    ensures
        data::views(final(lines)@) == data::views(old(lines)@) + biography_lines(result@),
{
    let ghost start = data::views(lines@);
    proof {
        reveal_strlit("");
        assert(""@ =~= Seq::<char>::empty());
    }
    let total: u64 = match result.get("total_commits") {
        Some(n) => match n.as_u64() {
            Some(n) => n,
            None => 0,
        },
        None => 0,
    };
    let mut file = "- **File:** `".to_owned();
    file.append(get_text_or(result, "path", ""));
    file.append("` (");
    file.append(text::decimal_u64(total).as_str());
    file.append(" commits total)");
    push_line(lines, file);
    if let Some(creation) = result.get("creation") {
        let missing = matches!(creation, Json::Null);
        if !missing {
            let mut line = "- **Creation:** `".to_owned();
            line.append(cut_hash(get_text_or(creation, "commit", "unknown")).as_str());
            line.append("` (");
            line.append(get_text_or(creation, "date", ""));
            line.append(") by **");
            line.append(get_text_or(creation, "author", ""));
            line.append("**: ");
            line.append(get_text_or(creation, "subject", ""));
            push_line(lines, line);
        }
    }
    push_renames(lines, result);
    push_timeline(lines, result);
    assert(data::views(lines@) =~= start + biography_lines(result@));
}

fn push_commit(lines: &mut Vec<String>, result: &Json)
    ensures
        data::views(final(lines)@) == data::views(old(lines)@) + commit_lines(result@),
{
    let ghost start = data::views(lines@);
    proof {
        reveal_strlit("");
        assert(""@ =~= Seq::<char>::empty());
    }
    push_line(
        lines,
        text::concat3("- **Commit Target:** `", get_text_or(result, "commit", ""), "`"),
    );
    push_evidence(
        lines,
        "- **Commit Details:**",
        get_text_or(result, "evidence", "No commit details."),
    );
    assert(data::views(lines@) =~= start + commit_lines(result@));
}

/// A result as the model reads it.
pub fn format_mcp_output(value: &Json) -> (r: String)
    ensures
        r@ == shown_output(value@),
{
    if let Some(rendered) = value.get_str("rendered") {
        return rendered.to_owned();
    }
    let operation = match value.get_str("operation") {
        Some(operation) => operation,
        None => {
            return json::to_pretty(value);
        },
    };
    let result = match value.get("result") {
        Some(result) => result,
        None => value,
    };
    let mut lines: Vec<String> = Vec::new();
    push_line(&mut lines, text::concat3("### Git Archaeology: `", operation, "`"));
    push_line(
        &mut lines,
        text::concat3(
            "- **Repository:** `",
            get_text_or(value, "repository", "unknown repository"),
            "`",
        ),
    );
    let ghost head = data::views(lines@);
    assert(head =~= seq![
        "### Git Archaeology: `"@ + operation@ + "`"@,
        "- **Repository:** `"@ + text_or(value@, "repository"@, "unknown repository"@) + "`"@,
    ]);
    if text::same(operation, "pickaxe") {
        push_pickaxe(&mut lines, result);
    } else if text::same(operation, "lineage") {
        push_lineage(&mut lines, result);
    } else if text::same(operation, "file_biography") {
        push_biography(&mut lines, result);
    } else if text::same(operation, "commit_context") {
        push_commit(&mut lines, result);
    } else {
        return json::to_pretty(value);
    }
    if let Some(unknown) = value.get_str("still_unknown") {
        push_line(&mut lines, text::concat("\n> **Note:** ", unknown));
    }
    text::join(&lines, "\n")
}

/// The name and the fallback description of the card of a tool.
pub open spec fn card_of(name: Seq<char>) -> (Seq<char>, Seq<char>) {
    let plain = text::plain_name(name);
    if plain == "semblesearch"@ {
        ("search"@, "Search the codebase"@)
    } else if plain == "semblefindrelated"@ {
        ("find_related"@, "Find related code"@)
    } else if plain == "inspectchanges"@ {
        ("inspect_changes"@, "Inspect uncommitted git changes"@)
    } else if plain == "gitarchaeology"@ {
        ("git_archaeology"@, "Investigate Git history"@)
    } else if plain == "outline"@ || plain == "filestructure"@ {
        ("outline"@, "Extract symbol structure and outline"@)
    } else {
        (name, "Search the codebase"@)
    }
}

/// The description of a card: the one that the call gives, or the fallback.
pub open spec fn card_description(call: ToolCallView) -> Seq<char> {
    match call.arguments.text_at("description"@) {
        Some(given) => if text::blank(given) {
            card_of(call.name).1
        } else {
            text::trimmed(given)
        },
        None => card_of(call.name).1,
    }
}

/// The members of an object but those with a name.
pub open spec fn members_without(
    members: Seq<(Seq<char>, JsonView)>,
    name: Seq<char>,
) -> Seq<(Seq<char>, JsonView)>
    decreases members.len(),
{
    if members.len() == 0 {
        Seq::empty()
    } else if members.last().0 == name {
        members_without(members.drop_last(), name)
    } else {
        members_without(members.drop_last(), name).push(members.last())
    }
}

/// The arguments of a card: those of the call but the description.
pub open spec fn card_arguments(call: ToolCallView) -> Seq<(Seq<char>, JsonView)> {
    match call.arguments {
        JsonView::Object(members) => members_without(members, "description"@),
        _ => Seq::empty(),
    }
}

/// A finished call of one of the tools that answer with JSON.
#[derive(Debug)]
pub struct McpCompletion {
    pub call_id: String,
    pub content: String,
    pub is_error: bool,
    pub tool_name: String,
    pub arguments: Vec<(String, Json)>,
    pub description: String,
    pub structured_content: Option<Json>,
}

fn copy_without(members: &Vec<(String, Json)>, name: &str) -> (r: Vec<(String, Json)>)
    ensures
        json::member_views(r@) == members_without(json::member_views(members@), name@),
{
    let ghost all = json::member_views(members@);
    let mut out: Vec<(String, Json)> = Vec::new();
    let mut i: usize = 0;
    assert(all.take(0) =~= Seq::empty());
    assert(json::member_views(out@) =~= Seq::empty());
    while i < members.len()
        invariant
            i <= members@.len(),
            all == json::member_views(members@),
            json::member_views(out@) == members_without(all.take(i as int), name@),
        decreases members@.len() - i,
    {
        let ghost before = json::member_views(out@);
        if !text::same(members[i].0.as_str(), name) {
            let key = members[i].0.clone();
            let value = members[i].1.copy();
            out.push((key, value));
            assert(json::member_views(out@) =~= before.push((key@, value@)));
        }
        i += 1;
        assert(all.take(i as int).drop_last() =~= all.take(i - 1));
        assert(all.take(i as int).last() == (members@[i - 1].0@, members@[i - 1].1@));
    }
    assert(all.take(i as int) =~= all);
    out
}

/// The finished call, from the value or the error that the tool answered.
pub fn complete(call: &ToolCall, output: Result<Json, String>) -> (r: McpCompletion)
    ensures
        r.call_id@ == call@.call_id,
        r.tool_name@ == card_of(call@.name).0,
        json::member_views(r.arguments@) == card_arguments(call@),
        r.description@ == card_description(call@),
        match output {
            Ok(value) => {
                &&& r.content@ == shown_output(value@)
                &&& !r.is_error
                &&& data::option_view(r.structured_content) == (if value@ is Object {
                    Some(value@)
                } else {
                    None
                })
            },
            Err(error) => {
                &&& r.content@ == error@
                &&& r.is_error
                &&& r.structured_content is None
            },
        },
{
    broadcast use json::lemma_view;

    let plain = text::normalized(call.name.as_str());
    let (tool_name, fallback) = if text::same(plain.as_str(), "semblesearch") {
        ("search", "Search the codebase")
    } else if text::same(plain.as_str(), "semblefindrelated") {
        ("find_related", "Find related code")
    } else if text::same(plain.as_str(), "inspectchanges") {
        ("inspect_changes", "Inspect uncommitted git changes")
    } else if text::same(plain.as_str(), "gitarchaeology") {
        ("git_archaeology", "Investigate Git history")
    } else if text::same(plain.as_str(), "outline") || text::same(
        plain.as_str(),
        "filestructure",
    ) {
        ("outline", "Extract symbol structure and outline")
    } else {
        (call.name.as_str(), "Search the codebase")
    };
    let description = match call.arguments.get_str("description") {
        Some(given) => if text::is_blank(given) {
            fallback.to_owned()
        } else {
            text::trim(given)
        },
        None => fallback.to_owned(),
    };
    let arguments = match &call.arguments {
        Json::Object(members) => copy_without(members, "description"),
        _ => Vec::new(),
    };
    assert(call@.arguments is Object || json::member_views(arguments@) =~= Seq::empty());
    let (content, is_error, structured_content) = match output {
        Ok(value) => {
            let content = format_mcp_output(&value);
            let is_object = matches!(value, Json::Object(_));
            let structured = if is_object {
                Some(value)
            } else {
                None
            };
            (content, false, structured)
        },
        Err(error) => (error, true, None),
    };
    McpCompletion {
        call_id: call.call_id.clone(),
        content,
        is_error,
        tool_name: tool_name.to_owned(),
        arguments,
        description,
        structured_content,
    }
}

proof fn lemma_holds(before: Seq<char>, part: Seq<char>, after: Seq<char>)
    ensures
        text::contains_text(before + part + after, part),
{
    let s = before + part + after;
    assert(s.subrange(before.len() as int, (before.len() + part.len()) as int) =~= part);
    assert(text::occurs_at(s, part, before.len() as int));
}

/// A hash is shown by its beginning, as much of it as seven bytes hold.
pub proof fn law_hashes_are_cut_short(hash: Seq<char>)
    ensures
        short_hash(hash).is_prefix_of(hash),
        text::utf8_len(short_hash(hash)) <= 7,
        short_hash(hash).len() < hash.len() ==> text::utf8_len(
            hash.take(short_hash(hash).len() as int + 1),
        ) > 7,
{
    text::law_longest_parts_fit(hash, 7);
}

/// The line of a commit that a search of the history found tells its place among those found, counted
/// from one, its hash, when it was made, who made it, and ends with what it is about.
pub proof fn law_found_commit_is_told(
    index: int,
    commit: JsonView,
    hash: Seq<char>,
    date: Seq<char>,
    author: Seq<char>,
    subject: Seq<char>,
)
    requires
        index >= 0,
        commit.text_at("commit"@) == Some(hash),
        commit.text_at("date"@) == Some(date),
        commit.text_at("author"@) == Some(author),
        commit.text_at("subject"@) == Some(subject),
    ensures
        ({
            let line = found_commit_line(index, commit);
            &&& text::starts(line, "  "@ + text::decimal((index + 1) as nat) + ". `"@ + short_hash(
                hash,
            ) + "` ("@)
            &&& text::contains_text(line, "` ("@ + date + ") by **"@)
            &&& text::contains_text(line, ") by **"@ + author + "**: "@)
            &&& text::ends(line, "**: "@ + subject)
        }),
{
    let line = found_commit_line(index, commit);
    let number = text::decimal((index + 1) as nat);
    let start = "  "@ + number + ". `"@ + short_hash(hash);
    let a = "` ("@ + date + ") by **"@;
    let b = ") by **"@ + author + "**: "@;
    assert(line.subrange(0, (start + "` ("@).len() as int) =~= start + "` ("@);
    lemma_holds(start, a, author + "**: "@ + subject);
    assert(line =~= start + a + (author + "**: "@ + subject));
    lemma_holds(start + "` ("@ + date, b, subject);
    assert(line =~= start + "` ("@ + date + b + subject);
    let end = "**: "@ + subject;
    assert(line.subrange(line.len() - end.len(), line.len() as int) =~= end);
}

/// An answer to a search of the history names what was searched for, then the path where there is one,
/// then how many commits were found, and then each of them in its order.
pub proof fn law_search_of_the_history_is_told(result: JsonView)
    ensures
        ({
            let lines = pickaxe_lines(result);
            let commits = items_or_none(result, "commits"@);
            let head = if result.text_at("path"@) is Some {
                3int
            } else {
                2
            };
            &&& lines.len() == head + commits.len()
            &&& result.text_at("query"@) matches Some(query) ==> text::contains_text(
                lines[0],
                "`"@ + query + "` ("@,
            )
            &&& result.text_at("path"@) matches Some(path) ==> text::contains_text(
                lines[1],
                "`"@ + path + "`"@,
            )
            &&& text::contains_text(lines[head - 1], "("@ + text::decimal(commits.len()))
            &&& forall|i: int|
                0 <= i < commits.len() ==> #[trigger] lines[head + i] == found_commit_line(
                    i,
                    commits[i],
                )
        }),
{
    let commits = items_or_none(result, "commits"@);
    lemma_query_is_named(
        text_or(result, "query"@, Seq::empty()),
        text_or(result, "query_mode"@, "occurrence_change"@),
    );
    lemma_path_is_named(text_or(result, "path"@, Seq::empty()));
    lemma_count_is_named(text::decimal(commits.len()));
}

proof fn lemma_mark_and_more(before: Seq<char>, mark: Seq<char>, part: Seq<char>, after: Seq<char>)
    ensures
        text::contains_text(before + mark + part + after, mark + part),
{
    lemma_holds(before, mark + part, after);
    assert(before + mark + part + after =~= before + (mark + part) + after);
}

proof fn lemma_query_is_named(query: Seq<char>, mode: Seq<char>)
    ensures
        text::contains_text("- **Query:** `"@ + query + "` ("@ + mode + ")"@, "`"@ + query + "` ("@),
{
    let (quoted, rest) = (query + "` ("@, mode + ")"@);
    assert("- **Query:** "@ + "`"@ == "- **Query:** `"@) by {
        reveal_strlit("- **Query:** `");
        reveal_strlit("- **Query:** ");
        reveal_strlit("`");
    }
    lemma_mark_and_more("- **Query:** "@, "`"@, quoted, rest);
    assert("`"@ + quoted =~= "`"@ + query + "` ("@);
    assert("- **Query:** `"@ + quoted + rest =~= "- **Query:** `"@ + query + "` ("@ + mode + ")"@);
}

proof fn lemma_path_is_named(path: Seq<char>)
    ensures
        text::contains_text("- **Target Path:** `"@ + path + "`"@, "`"@ + path + "`"@),
{
    let quoted = path + "`"@;
    assert("- **Target Path:** "@ + "`"@ == "- **Target Path:** `"@) by {
        reveal_strlit("- **Target Path:** `");
        reveal_strlit("- **Target Path:** ");
        reveal_strlit("`");
    }
    lemma_mark_and_more("- **Target Path:** "@, "`"@, quoted, Seq::empty());
    assert("`"@ + quoted =~= "`"@ + path + "`"@);
    assert("- **Target Path:** `"@ + quoted + Seq::empty() =~= "- **Target Path:** `"@ + path
        + "`"@);
}

proof fn lemma_count_is_named(count: Seq<char>)
    ensures
        text::contains_text(
            "- **Matching Commits ("@ + count + " found, newest first):**"@,
            "("@ + count,
        ),
{
    assert("- **Matching Commits "@ + "("@ == "- **Matching Commits ("@) by {
        reveal_strlit("- **Matching Commits (");
        reveal_strlit("- **Matching Commits ");
        reveal_strlit("(");
    }
    lemma_mark_and_more("- **Matching Commits "@, "("@, count, " found, newest first):**"@);
}

/// The line of a commit in a timeline tells its hash, when it was made, who made it, what it is about
/// and, at its end, how much it changed where that is known.
pub proof fn law_timeline_commit_is_told(
    commit: JsonView,
    hash: Seq<char>,
    date: Seq<char>,
    author: Seq<char>,
    subject: Seq<char>,
)
    requires
        commit.text_at("commit"@) == Some(hash),
        commit.text_at("date"@) == Some(date),
        commit.text_at("author"@) == Some(author),
        commit.text_at("subject"@) == Some(subject),
    ensures
        ({
            let line = timeline_line(commit);
            &&& text::starts(line, "  - `"@ + short_hash(hash) + "` ("@ + date + ") **"@ + author
                + "**: "@ + subject)
            &&& commit.text_at("stat"@) is None ==> text::ends(line, "**: "@ + subject)
            &&& commit.text_at("stat"@) matches Some(stat) ==> (text::trimmed(stat).len() > 0
                ==> text::ends(line, subject + " ("@ + text::trimmed(stat) + ")"@))
        }),
{
    let line = timeline_line(commit);
    let start = "  - `"@ + short_hash(hash) + "` ("@ + date + ") **"@ + author + "**: "@ + subject;
    assert(line.subrange(0, start.len() as int) =~= start);
    text::law_trimming_takes_off_white_space(Seq::empty());
    assert(text::trimmed(Seq::empty()).len() == 0);
    let end = "**: "@ + subject;
    if commit.text_at("stat"@) is None {
        assert(line.subrange(line.len() - end.len(), line.len() as int) =~= end);
    }
    match commit.text_at("stat"@) {
        Some(stat) => {
            let more = subject + " ("@ + text::trimmed(stat) + ")"@;
            if text::trimmed(stat).len() > 0 {
                assert(line.subrange(line.len() - more.len(), line.len() as int) =~= more);
            }
        },
        None => {},
    }
}

/// A rename is told from the old path to the new one.
pub proof fn law_rename_is_told(rename: JsonView, old_path: Seq<char>, new_path: Seq<char>)
    requires
        rename.text_at("from"@) == Some(old_path),
        rename.text_at("to"@) == Some(new_path),
    ensures
        text::starts(rename_line(rename), "  - `"@ + old_path + "` "@),
        text::ends(rename_line(rename), " `"@ + new_path + "`"@),
{
    reveal_strlit("  - `");
    reveal_strlit("` ");
    reveal_strlit("` → `");
    reveal_strlit(" `");
    let line = rename_line(rename);
    let start = "  - `"@ + old_path + "` "@;
    let end = " `"@ + new_path + "`"@;
    assert("` → `"@.len() == 5);
    assert(line.subrange(0, start.len() as int) =~= start);
    assert(line.subrange(line.len() - end.len(), line.len() as int) =~= end);
}

/// How a file came to be is told with its renames and its commits, each in its order, behind the lines
/// that name the file and the commit that made it.
pub proof fn law_biography_tells_everything(result: JsonView)
    ensures
        ({
            let lines = biography_lines(result);
            let renames = items_or_none(result, "renames"@);
            let timeline = items_or_none(result, "timeline"@);
            let made = result.at("creation"@) matches Some(creation) && !(creation is Null);
            let head = if made {
                2int
            } else {
                1
            };
            &&& lines.len() == head + 1 + renames.len() + (if timeline.len() > 0 {
                timeline.len() + 1
            } else {
                0
            })
            &&& made ==> lines[1] == creation_line(result.at("creation"@)->0)
            &&& forall|i: int|
                0 <= i < renames.len() ==> #[trigger] lines[head + 1 + i] == rename_line(renames[i])
            &&& forall|i: int|
                0 <= i < timeline.len() ==> #[trigger] lines[head + 2 + renames.len() + i]
                    == timeline_line(timeline[i])
        }),
{
}

/// A value that was rendered is shown so; a value that answers no question on the history is shown as
/// JSON.
pub proof fn law_rendered_values_are_shown(value: JsonView)
    ensures
        value.text_at("rendered"@) matches Some(rendered) ==> shown_output(value) == rendered,
        value.text_at("rendered"@) is None && value.text_at("operation"@) is None ==> shown_output(
            value,
        ) == json::pretty_text(value),
{
}

/// The arguments of a card are those of the call, without the description.
pub proof fn law_cards_show_the_arguments(
    members: Seq<(Seq<char>, JsonView)>,
    name: Seq<char>,
    key: Seq<char>,
)
    ensures
        json::member(members_without(members, name), name) is None,
        key != name ==> json::member(members_without(members, name), key) == json::member(
            members,
            key,
        ),
    decreases members.len(),
{
    if members.len() > 0 {
        let rest = members.drop_last();
        law_cards_show_the_arguments(rest, name, key);
        lemma_member_of_push(rest, members.last(), key);
        assert(rest.push(members.last()) =~= members);
        if members.last().0 != name {
            lemma_member_of_push(members_without(rest, name), members.last(), key);
            lemma_member_of_push(members_without(rest, name), members.last(), name);
        }
    }
}

proof fn lemma_member_of_push(
    members: Seq<(Seq<char>, JsonView)>,
    last: (Seq<char>, JsonView),
    key: Seq<char>,
)
    ensures
        json::member(members.push(last), key) == (match json::member(members, key) {
            Some(value) => Some(value),
            None => if last.0 == key {
                Some(last.1)
            } else {
                None
            },
        }),
    decreases members.len(),
{
    if members.len() == 0 {
        assert(members.push(last).drop_first() =~= Seq::<(Seq<char>, JsonView)>::empty());
        assert(members.push(last)[0] == last);
        assert(json::member(Seq::<(Seq<char>, JsonView)>::empty(), key) is None);
    } else {
        lemma_member_of_push(members.drop_first(), last, key);
        assert(members.push(last).drop_first() =~= members.drop_first().push(last));
    }
}

/// A card is described as the call says, and otherwise as its tool is.
pub proof fn law_card_is_described_by_the_call(call: ToolCallView, given: Seq<char>)
    requires
        call.arguments.text_at("description"@) == Some(given),
    ensures
        !text::blank(given) ==> card_description(call) == text::trimmed(given),
        text::blank(given) ==> card_description(call) == card_of(call.name).1,
{
}

} // verus!
