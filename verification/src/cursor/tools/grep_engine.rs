//! Which engine answers a search, and where the search index is asked.
use crate::cursor::tools::grep_result;
use crate::cursor::tools::grep_result::GrepCompletion;
use crate::model::tool::ToolCall;
use crate::search::outcome::{TgrepFailure, TgrepFailureView, TgrepOutcome, TgrepOutcomeView};
use crate::search::registry::ServerReadiness;
use crate::search::tgrep;
use crate::text;
use vstd::prelude::*;

verus! {

/// Which engine the user wants searches to be answered by.
#[derive(Clone, Copy, Debug, PartialEq, Eq, Structural)]
pub enum GrepEngine {
    /// The client's own.
    Ripgrep,
    /// The indexed one.
    Tgrep,
    /// The indexed one, and the client's own where that fails.
    Auto,
}

/// Whether the indexed engine is asked: the tool is the search, and the settings could be read and
/// name that engine.
pub open spec fn indexed(tool: Seq<char>, engine: Option<GrepEngine>) -> bool {
    text::plain_name(tool) == "grep"@ && (engine == Some(GrepEngine::Tgrep) || engine == Some(
        GrepEngine::Auto,
    ))
}

/// Whether the indexed engine is asked.
pub fn asks_index(call: &ToolCall, engine: Option<GrepEngine>) -> (r: bool)
    ensures
        r == indexed(call@.name, engine),
{
    let tool = text::normalized(call.name.as_str());
    text::same(tool.as_str(), "grep") && match engine {
        Some(GrepEngine::Tgrep) => true,
        Some(GrepEngine::Auto) => true,
        _ => false,
    }
}

/// What is done with a search once the server of its repository was looked for.
#[derive(Debug)]
pub enum SearchStart {
    /// The search came to this without being run.
    Settled(TgrepFailure),
    /// It is run, without the index where that is not complete.
    Run { force_no_index: bool },
}

#[verifier::ext_equal]
pub enum SearchStartView {
    Settled(TgrepFailureView),
    Run { force_no_index: bool },
}

impl View for SearchStart {
    type V = SearchStartView;

    open spec fn view(&self) -> SearchStartView {
        match self {
            SearchStart::Settled(failure) => SearchStartView::Settled(failure@),
            SearchStart::Run { force_no_index } => SearchStartView::Run {
                force_no_index: *force_no_index,
            },
        }
    }
}

/// What is done with a search, given how far the server is and whether the program is there at all.
pub open spec fn start_of(readiness: ServerReadiness, available: bool) -> SearchStartView {
    match readiness {
        ServerReadiness::Unhealthy => SearchStartView::Settled(
            if available {
                TgrepFailureView::Infrastructure {
                    reason: "tgrep server process is unhealthy or unreachable"@,
                }
            } else {
                TgrepFailureView::Unavailable
            },
        ),
        ServerReadiness::Starting => SearchStartView::Run { force_no_index: true },
        ServerReadiness::Indexing => SearchStartView::Run { force_no_index: true },
        ServerReadiness::Ready => SearchStartView::Run { force_no_index: false },
    }
}

/// What is done with a search, given how far the server is and whether the program is there at all.
pub fn start_search(readiness: ServerReadiness, available: bool) -> (r: SearchStart)
    ensures
        r@ == start_of(readiness, available),
{
    match readiness {
        ServerReadiness::Unhealthy => SearchStart::Settled(
            if available {
                TgrepFailure::Infrastructure {
                    reason: "tgrep server process is unhealthy or unreachable".to_owned(),
                }
            } else {
                TgrepFailure::Unavailable
            },
        ),
        ServerReadiness::Starting => SearchStart::Run { force_no_index: true },
        ServerReadiness::Indexing => SearchStart::Run { force_no_index: true },
        ServerReadiness::Ready => SearchStart::Run { force_no_index: false },
    }
}

/// Whether what the indexed engine came to is the answer; otherwise the client's own engine is asked.
pub open spec fn settles(engine: GrepEngine, outcome: TgrepOutcomeView) -> bool {
    match engine {
        GrepEngine::Ripgrep => false,
        GrepEngine::Tgrep => true,
        GrepEngine::Auto => !(outcome matches TgrepOutcomeView::Failure(failure) && !(
        failure is InvalidRequest)),
    }
}

/// Whether what the indexed engine came to is the answer.
pub fn is_settled(engine: GrepEngine, outcome: &TgrepOutcome) -> (r: bool)
    ensures
        r == settles(engine, outcome@),
{
    match engine {
        GrepEngine::Ripgrep => false,
        GrepEngine::Tgrep => true,
        GrepEngine::Auto => !outcome.should_auto_fallback(),
    }
}

/// A search that found something, or found nothing, is never run a second time; one that was wrong
/// is not either; and where the user wants the indexed engine alone, no search is.
pub proof fn law_only_broken_searches_fall_back(engine: GrepEngine, outcome: TgrepOutcomeView)
    requires
        engine != GrepEngine::Ripgrep,
        !settles(engine, outcome),
    ensures
        engine == GrepEngine::Auto,
        outcome matches TgrepOutcomeView::Failure(failure) && !(failure is InvalidRequest),
{
}

/// The completion of a search by what the indexed engine came to; none where the output has more
/// lines, or in the mode that adds counts up counts more, than 32 bits can tell.
pub fn local_tgrep_completion(call: &ToolCall, outcome: TgrepOutcome) -> (r: Option<GrepCompletion>)
    ensures
        ({
            let answer = tgrep::answer_of(call@.arguments, outcome@);
            let mode = grep_result::mode_of(call@.arguments.text_at("output_mode"@));
            let fits = answer matches Ok(output) ==> grep_result::tellable(mode, output);
            match r {
                Some(done) => fits && grep_result::completes(done, call@, answer),
                None => !fits,
            }
        }),
{
    let output = tgrep::tgrep_answer(&call.arguments, outcome);
    if let Ok(found) = &output {
        if !grep_result::is_tellable(call.arguments.get_str("output_mode"), found.as_str()) {
            return None;
        }
    }
    Some(grep_result::grep(call, output))
}

/// What a search of the index by meaning looks into.
#[derive(Clone, Copy, Debug, PartialEq, Eq, Structural)]
pub enum ContentType {
    Code,
    Docs,
    Config,
}

/// What a search of the index by meaning is asked to look into.
#[derive(Clone, Copy, Debug, PartialEq, Eq, Structural)]
pub enum ContentSelection {
    Code,
    Docs,
    Config,
    All,
}

impl Default for ContentSelection {
    fn default() -> (r: Self)
        ensures
            r == ContentSelection::Code,
    {
        ContentSelection::Code
    }
}

/// What a search of the index by meaning looks into.
pub open spec fn selected(selection: ContentSelection) -> Seq<ContentType> {
    match selection {
        ContentSelection::Code => seq![ContentType::Code],
        ContentSelection::Docs => seq![ContentType::Docs],
        ContentSelection::Config => seq![ContentType::Config],
        ContentSelection::All => seq![ContentType::Code, ContentType::Docs, ContentType::Config],
    }
}

/// What a search of the index by meaning looks into.
pub fn content(selection: ContentSelection) -> (r: Vec<ContentType>)
    ensures
        r@ == selected(selection),
{
    let r = match selection {
        ContentSelection::Code => vec![ContentType::Code],
        ContentSelection::Docs => vec![ContentType::Docs],
        ContentSelection::Config => vec![ContentType::Config],
        ContentSelection::All => vec![ContentType::Code, ContentType::Docs, ContentType::Config],
    };
    assert(r@ =~= selected(selection));
    r
}

/// How many results a search by meaning gives where no number is asked for.
pub fn default_top_k() -> (r: usize)
    ensures
        r == 5,
{
    5
}

/// How many lines of each result a search by meaning shows where no number is asked for.
pub fn default_snippet_lines() -> (r: Option<usize>)
    ensures
        r == Some(10usize),
{
    Some(10)
}

/// A search of the index by meaning.
#[derive(Clone, Copy, Debug, PartialEq, Eq, Structural)]
pub enum SembleOperation {
    Search,
    FindRelated,
}

/// The search by meaning that a tool is.
pub open spec fn semble_operation(tool: Seq<char>) -> Option<SembleOperation> {
    let tool = text::plain_name(tool);
    if tool == "semblesearch"@ {
        Some(SembleOperation::Search)
    } else if tool == "semblefindrelated"@ {
        Some(SembleOperation::FindRelated)
    } else {
        None
    }
}

/// The search by meaning that a call is, or why it is none.
pub fn operation_of(call: &ToolCall) -> (r: Result<SembleOperation, crate::error::Error>)
    ensures
        match r {
            Ok(operation) => semble_operation(call@.name) == Some(operation),
            Err(error) => semble_operation(call@.name) is None && error@
                == crate::error::ErrorView::Protocol("unsupported Semble tool: "@ + call@.name),
        },
{
    let tool = text::normalized(call.name.as_str());
    if text::same(tool.as_str(), "semblesearch") {
        Ok(SembleOperation::Search)
    } else if text::same(tool.as_str(), "semblefindrelated") {
        Ok(SembleOperation::FindRelated)
    } else {
        Err(
            crate::error::Error::Protocol(
                text::concat("unsupported Semble tool: ", call.name.as_str()),
            ),
        )
    }
}

/// A search is run unless its server is unhealthy, and with the index only where that is complete.
pub proof fn law_index_is_used_when_complete(readiness: ServerReadiness, available: bool)
    ensures
        start_of(readiness, available) is Settled <==> readiness is Unhealthy,
        start_of(readiness, available) matches SearchStartView::Run { force_no_index } ==> (
        !force_no_index <==> readiness is Ready),
        readiness is Unhealthy && !available ==> start_of(readiness, available)
            == SearchStartView::Settled(TgrepFailureView::Unavailable),
        readiness is Unhealthy && available ==> start_of(
            readiness,
            available,
        )->Settled_0 is Infrastructure,
{
}

/// The index is asked where the user wants it and the tool is the search; the client's own engine is
/// asked where the user wants that, or where the index fails and the user leaves the choice open.
pub proof fn law_user_chooses_the_engine(
    tool: Seq<char>,
    engine: Option<GrepEngine>,
    outcome: TgrepOutcomeView,
)
    ensures
        engine is None ==> !indexed(tool, engine),
        engine == Some(GrepEngine::Ripgrep) ==> !indexed(tool, engine),
        engine == Some(GrepEngine::Tgrep) || engine == Some(GrepEngine::Auto) ==> (indexed(
            tool,
            engine,
        ) <==> text::plain_name(tool) == "grep"@),
        !settles(GrepEngine::Ripgrep, outcome),
        settles(GrepEngine::Tgrep, outcome),
        !(outcome is Failure) ==> settles(GrepEngine::Auto, outcome),
        outcome matches TgrepOutcomeView::Failure(failure) ==> (settles(GrepEngine::Auto, outcome)
            <==> failure is InvalidRequest),
{
}

/// A search of one kind of content looks into that kind alone, a search of all into each of them once.
pub proof fn law_selected_content_is_searched(selection: ContentSelection)
    ensures
        selected(selection).contains(ContentType::Code) <==> (selection is Code || selection is All),
        selected(selection).contains(ContentType::Docs) <==> (selection is Docs || selection is All),
        selected(selection).contains(ContentType::Config) <==> (selection is Config
            || selection is All),
        selected(selection).no_duplicates(),
{
    let kinds = selected(selection);
    assert(selection is All ==> kinds[0] is Code && kinds[1] is Docs && kinds[2] is Config);
    assert(!(selection is All) ==> kinds.len() == 1);
    assert(selection is Code ==> kinds[0] is Code);
    assert(selection is Docs ==> kinds[0] is Docs);
    assert(selection is Config ==> kinds[0] is Config);
}

/// The two searches by meaning are told apart by their names, and no other tool is one.
pub proof fn law_searches_by_meaning(tool: Seq<char>)
    ensures
        text::plain_name(tool) == "semblesearch"@ ==> semble_operation(tool) == Some(
            SembleOperation::Search,
        ),
        text::plain_name(tool) == "semblefindrelated"@ ==> semble_operation(tool) == Some(
            SembleOperation::FindRelated,
        ),
        text::plain_name(tool) != "semblesearch"@ && text::plain_name(tool) != "semblefindrelated"@
            ==> semble_operation(tool) is None,
{
    reveal_strlit("semblesearch");
    reveal_strlit("semblefindrelated");
    assert("semblesearch"@.len() == 12 && "semblefindrelated"@.len() == 17);
}

} // verus!
