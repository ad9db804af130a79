//! The outline of a file as it is answered.
use crate::json;
use crate::json::{Json, JsonView, Number};
use crate::text;
use vstd::prelude::*;

verus! {

/// The outline of a file: what was asked, what was found, and the symbols as JSON.
#[derive(Debug)]
pub struct Outline {
    pub file_path: String,
    pub language: Option<String>,
    pub total_lines: u64,
    pub rendered: String,
    pub symbols: Json,
}

/// Whether a file can be outlined, or why not.
pub fn outline_source(path: &str, exists: bool, source: Result<String, String>) -> (r: Result<
    String,
    String,
>)
    ensures
        match r {
            Ok(content) => exists && (source matches Ok(s) && s@ == content@),
            Err(e) => if !exists {
                e@ == "File not found: "@ + path@
            } else {
                source matches Err(reason) && e@ == "Failed to read file "@ + path@ + ": "@
                    + reason@
            },
        },
{
    if !exists {
        return Err(text::concat("File not found: ", path));
    }
    match source {
        Ok(content) => Ok(content),
        Err(reason) => {
            let mut message = "Failed to read file ".to_owned();
            message.append(path);
            message.append(": ");
            message.append(reason.as_str());
            Err(message)
        },
    }
}

/// The language of a file: the one that is asked for, or else the one that was detected.
pub fn outline_language(asked: Option<String>, detected: Option<String>) -> (r: Option<String>)
    ensures
        r == (match asked {
            Some(language) => Some(language),
            None => detected,
        }),
{
    match asked {
        Some(language) => Some(language),
        None => detected,
    }
}

/// The answer with an outline.
pub open spec fn outline_members(outline: Outline) -> Seq<(Seq<char>, JsonView)> {
    seq![
        ("file_path"@, JsonView::String(outline.file_path@)),
        ("language"@, json::optional_text(crate::data::option_view(outline.language))),
        ("total_lines"@, JsonView::Number(Number::PosInt(outline.total_lines))),
        ("rendered"@, JsonView::String(outline.rendered@)),
        ("symbols"@, outline.symbols@),
    ]
}

/// The answer with an outline.
pub fn outline_answer(outline: Outline) -> (r: Json)
    ensures
        r@ == JsonView::Object(outline_members(outline)),
{
    let ghost whole = outline;
    let mut members: Vec<(String, Json)> = Vec::new();
    let language = json::from_optional(&outline.language);
    json::put(&mut members, "file_path", Json::String(outline.file_path));
    json::put(&mut members, "language", language);
    json::put(&mut members, "total_lines", Json::Number(Number::PosInt(outline.total_lines)));
    json::put(&mut members, "rendered", Json::String(outline.rendered));
    json::put(&mut members, "symbols", outline.symbols);
    assert(json::member_views(members@) =~= outline_members(whole));
    json::object(members)
}

/// The answer with an outline tells the file, how many lines it has, its rendering and its symbols, each
/// under its name.
pub proof fn law_outline_is_answered(outline: Outline)
    ensures
        ({
            let answer = JsonView::Object(outline_members(outline));
            &&& answer.at("file_path"@) == Some(JsonView::String(outline.file_path@))
            &&& answer.at("total_lines"@) == Some(
                JsonView::Number(Number::PosInt(outline.total_lines)),
            )
            &&& answer.at("rendered"@) == Some(JsonView::String(outline.rendered@))
            &&& answer.at("symbols"@) == Some(outline.symbols@)
        }),
{
    let members = outline_members(outline);
    reveal_strlit("file_path");
    reveal_strlit("language");
    reveal_strlit("total_lines");
    reveal_strlit("rendered");
    reveal_strlit("symbols");
    assert("file_path"@.len() == 9 && "language"@.len() == 8 && "total_lines"@.len() == 11);
    assert("rendered"@.len() == 8 && "symbols"@.len() == 7);
    assert("rendered"@[0] != "language"@[0]);
    json::lemma_member_at(members, 0);
    json::lemma_member_at(members, 2);
    json::lemma_member_at(members, 3);
    json::lemma_member_at(members, 4);
}

} // verus!
