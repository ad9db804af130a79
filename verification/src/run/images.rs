//! Images of tool results are filled in before a provider is asked.
use crate::data;
use crate::error::{Error, ErrorView};
use crate::model::message::{ContentPart, ContentPartView, ToolResultContentView};
use crate::model::projection::{
    ProjectedContent, ProjectedContentView, ProjectedMessage, ProjectedMessageView,
};
use crate::text;
use vstd::prelude::*;

verus! {

/// The blob that holds the image of a message, where the message is a tool result with one.
pub open spec fn image_of(message: ProjectedMessageView) -> Option<Seq<char>> {
    match message.content {
        ProjectedContentView::ToolResult(result) => match result.image {
            Some(image) => Some(image.blob_id),
            None => None,
        },
        _ => None,
    }
}

/// The blob that holds the image of a message, where the message is a tool result with one.
pub fn wanted_image(message: &ProjectedMessage) -> (r: Option<String>)
    ensures
        data::option_view(r) == image_of(message@),
{
    match &message.content {
        ProjectedContent::ToolResult(result) => match &result.image {
            Some(image) => Some(image.blob_id.clone()),
            None => None,
        },
        _ => None,
    }
}

/// A message with its image filled in: its text, and then the image.
pub open spec fn hydrated(message: ProjectedMessageView, image: Seq<u8>) -> ProjectedMessageView {
    match message.content {
        ProjectedContentView::ToolResult(result) => match result.image {
            Some(found) => ProjectedMessageView {
                content: ProjectedContentView::ToolResult(
                    ToolResultContentView {
                        provider_parts: seq![
                            ContentPartView::Text { text: result.content },
                            ContentPartView::Image { mime_type: found.mime_type, data: image },
                        ],
                        ..result
                    },
                ),
                ..message
            },
            None => message,
        },
        _ => message,
    }
}

/// Fills in the image of a message from the blob that was found for it. A message without an image
/// stays as it is; one whose blob is missing is an error.
pub fn hydrate_tool_image(message: ProjectedMessage, blob: Option<Vec<u8>>) -> (r: Result<
    ProjectedMessage,
    Error,
>)
    ensures
        match (image_of(message@), blob) {
            (Some(_), Some(image)) => r matches Ok(filled) && filled@ == hydrated(
                message@,
                image@,
            ),
            (Some(id), None) => r matches Err(error) && error@ == ErrorView::Protocol(
                "Read image Blob is missing: "@ + id,
            ),
            (None, _) => r matches Ok(same) && same@ == message@,
        },
{
    let mut message = message;
    if let ProjectedContent::ToolResult(result) = message.content {
        let mut result = result;
        if let Some(image) = &result.image {
            match blob {
                None => {
                    return Err(
                        Error::Protocol(
                            text::concat("Read image Blob is missing: ", image.blob_id.as_str()),
                        ),
                    );
                },
                Some(bytes) => {
                    let mut parts: Vec<ContentPart> = Vec::new();
                    parts.push(ContentPart::Text { text: result.content.clone() });
                    parts.push(
                        ContentPart::Image { mime_type: image.mime_type.clone(), data: bytes },
                    );
                    assert(data::views(parts@) =~= seq![
                        ContentPartView::Text { text: result.content@ },
                        ContentPartView::Image { mime_type: image.mime_type@, data: bytes@ },
                    ]);
                    result.provider_parts = parts;
                },
            }
        }
        message.content = ProjectedContent::ToolResult(result);
    }
    Ok(message)
}

/// Filling in an image changes nothing of a message but what a provider is shown of the result.
pub proof fn law_hydration_keeps_the_result(message: ProjectedMessageView, image: Seq<u8>)
    ensures
        hydrated(message, image).message_id == message.message_id,
        hydrated(message, image).role == message.role,
        image_of(hydrated(message, image)) == image_of(message),
        message.content matches ProjectedContentView::ToolResult(result) ==> (hydrated(
            message,
            image,
        ).content matches ProjectedContentView::ToolResult(filled) && filled.content
            == result.content && filled.call_id == result.call_id && filled.is_error
            == result.is_error),
{
}

/// A result with an image is shown as its text and then the image, under the kind that it was stored
/// with; a message without one stays as it is.
pub proof fn law_image_follows_the_text(message: ProjectedMessageView, image: Seq<u8>)
    ensures
        image_of(message) is None ==> hydrated(message, image) == message,
        image_of(message) is Some ==> {
            let result = message.content->ToolResult_0;
            let parts = hydrated(message, image).content->ToolResult_0.provider_parts;
            &&& parts.len() == 2
            &&& parts[0] == ContentPartView::Text { text: result.content }
            &&& parts[1] == ContentPartView::Image {
                mime_type: result.image->0.mime_type,
                data: image,
            }
            &&& image_of(message) == Some(result.image->0.blob_id)
        },
{
}

} // verus!
