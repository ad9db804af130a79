//! Models from the configuration file of version 0.0.49.
use crate::data;
use crate::data::Duplicate;
use crate::error::{result_view, Error, ErrorView};
use crate::json;
use crate::json::{Json, JsonView};
use crate::text;
use crate::web::url;
use crate::web::url::{UrlParts, UrlPartsView};
use vstd::prelude::*;

verus! {

/// The path of the responses protocol.
pub const OPENAI_RESPONSES_ENDPOINT: &'static str = "/v1/responses";

/// The path of the chat protocol.
pub const OPENAI_CHAT_ENDPOINT: &'static str = "/v1/chat/completions";

/// Whose protocols a model speaks.
#[derive(Clone, Copy, Debug, PartialEq, Eq, Structural)]
pub enum ModelType {
    OpenAi,
    Anthropic,
}

/// A model as the file describes it.
#[derive(Debug)]
pub struct LegacyModel {
    pub sort: i64,
    pub display_name: String,
    pub model_type: String,
    pub base_url: String,
    pub api_key: String,
    pub tooltip_data: String,
    pub model_id: String,
    pub reasoning_effort: String,
    pub openai_endpoint: String,
    pub openai_extra_params_enabled: bool,
    pub openai_extra_params_json: String,
    pub custom_headers_enabled: bool,
    pub custom_headers_json: String,
    pub anthropic_extra_params_enabled: bool,
    pub anthropic_extra_params_json: String,
    pub context_window_tokens: u64,
    pub max_completion_tokens: u64,
    pub anthropic_max_tokens: u64,
    pub anthropic_thinking_effort: String,
    pub thinking_budget_tokens: u64,
}

#[verifier::ext_equal]
pub struct LegacyModelView {
    pub sort: i64,
    pub display_name: Seq<char>,
    pub model_type: Seq<char>,
    pub base_url: Seq<char>,
    pub api_key: Seq<char>,
    pub tooltip_data: Seq<char>,
    pub model_id: Seq<char>,
    pub reasoning_effort: Seq<char>,
    pub openai_endpoint: Seq<char>,
    pub openai_extra_params_enabled: bool,
    pub openai_extra_params_json: Seq<char>,
    pub custom_headers_enabled: bool,
    pub custom_headers_json: Seq<char>,
    pub anthropic_extra_params_enabled: bool,
    pub anthropic_extra_params_json: Seq<char>,
    pub context_window_tokens: u64,
    pub max_completion_tokens: u64,
    pub anthropic_max_tokens: u64,
    pub anthropic_thinking_effort: Seq<char>,
    pub thinking_budget_tokens: u64,
}

impl View for LegacyModel {
    type V = LegacyModelView;

    open spec fn view(&self) -> LegacyModelView {
        LegacyModelView {
            sort: self.sort,
            display_name: self.display_name@,
            model_type: self.model_type@,
            base_url: self.base_url@,
            api_key: self.api_key@,
            tooltip_data: self.tooltip_data@,
            model_id: self.model_id@,
            reasoning_effort: self.reasoning_effort@,
            openai_endpoint: self.openai_endpoint@,
            openai_extra_params_enabled: self.openai_extra_params_enabled,
            openai_extra_params_json: self.openai_extra_params_json@,
            custom_headers_enabled: self.custom_headers_enabled,
            custom_headers_json: self.custom_headers_json@,
            anthropic_extra_params_enabled: self.anthropic_extra_params_enabled,
            anthropic_extra_params_json: self.anthropic_extra_params_json@,
            context_window_tokens: self.context_window_tokens,
            max_completion_tokens: self.max_completion_tokens,
            anthropic_max_tokens: self.anthropic_max_tokens,
            anthropic_thinking_effort: self.anthropic_thinking_effort@,
            thinking_budget_tokens: self.thinking_budget_tokens,
        }
    }
}

/// A model as it is configured.
#[derive(Debug)]
pub struct ModelConfigInput {
    pub sort_order: i64,
    pub display_name: String,
    pub model_type: ModelType,
    pub base_url: String,
    pub use_full_url: bool,
    pub api_key: String,
    pub tooltip_data: String,
    pub model_id: String,
    pub reasoning_effort: Option<String>,
    pub openai_endpoint: String,
    pub openai_extra_params_enabled: bool,
    pub openai_extra_params: Json,
    pub custom_headers_enabled: bool,
    pub custom_headers: Json,
    pub anthropic_extra_params_enabled: bool,
    pub anthropic_extra_params: Json,
    pub context_window_tokens: Option<u64>,
    pub max_completion_tokens: Option<u64>,
    pub anthropic_max_tokens: Option<u64>,
    pub anthropic_thinking_effort: Option<String>,
    pub thinking_budget_tokens: Option<u64>,
}

#[verifier::ext_equal]
pub struct ModelConfigInputView {
    pub sort_order: i64,
    pub display_name: Seq<char>,
    pub model_type: ModelType,
    pub base_url: Seq<char>,
    pub use_full_url: bool,
    pub api_key: Seq<char>,
    pub tooltip_data: Seq<char>,
    pub model_id: Seq<char>,
    pub reasoning_effort: Option<Seq<char>>,
    pub openai_endpoint: Seq<char>,
    pub openai_extra_params_enabled: bool,
    pub openai_extra_params: JsonView,
    pub custom_headers_enabled: bool,
    pub custom_headers: JsonView,
    pub anthropic_extra_params_enabled: bool,
    pub anthropic_extra_params: JsonView,
    pub context_window_tokens: Option<u64>,
    pub max_completion_tokens: Option<u64>,
    pub anthropic_max_tokens: Option<u64>,
    pub anthropic_thinking_effort: Option<Seq<char>>,
    pub thinking_budget_tokens: Option<u64>,
}

impl View for ModelConfigInput {
    type V = ModelConfigInputView;

    open spec fn view(&self) -> ModelConfigInputView {
        ModelConfigInputView {
            sort_order: self.sort_order,
            display_name: self.display_name@,
            model_type: self.model_type,
            base_url: self.base_url@,
            use_full_url: self.use_full_url,
            api_key: self.api_key@,
            tooltip_data: self.tooltip_data@,
            model_id: self.model_id@,
            reasoning_effort: data::option_view(self.reasoning_effort),
            openai_endpoint: self.openai_endpoint@,
            openai_extra_params_enabled: self.openai_extra_params_enabled,
            openai_extra_params: self.openai_extra_params@,
            custom_headers_enabled: self.custom_headers_enabled,
            custom_headers: self.custom_headers@,
            anthropic_extra_params_enabled: self.anthropic_extra_params_enabled,
            anthropic_extra_params: self.anthropic_extra_params@,
            context_window_tokens: self.context_window_tokens,
            max_completion_tokens: self.max_completion_tokens,
            anthropic_max_tokens: self.anthropic_max_tokens,
            anthropic_thinking_effort: data::option_view(self.anthropic_thinking_effort),
            thinking_budget_tokens: self.thinking_budget_tokens,
        }
    }
}

impl Duplicate for ModelConfigInput {
    fn duplicate(&self) -> (r: Self) {
        ModelConfigInput {
            sort_order: self.sort_order,
            display_name: self.display_name.clone(),
            model_type: self.model_type,
            base_url: self.base_url.clone(),
            use_full_url: self.use_full_url,
            api_key: self.api_key.clone(),
            tooltip_data: self.tooltip_data.clone(),
            model_id: self.model_id.clone(),
            reasoning_effort: data::duplicate_option(&self.reasoning_effort),
            openai_endpoint: self.openai_endpoint.clone(),
            openai_extra_params_enabled: self.openai_extra_params_enabled,
            openai_extra_params: self.openai_extra_params.copy(),
            custom_headers_enabled: self.custom_headers_enabled,
            custom_headers: self.custom_headers.copy(),
            anthropic_extra_params_enabled: self.anthropic_extra_params_enabled,
            anthropic_extra_params: self.anthropic_extra_params.copy(),
            context_window_tokens: self.context_window_tokens,
            max_completion_tokens: self.max_completion_tokens,
            anthropic_max_tokens: self.anthropic_max_tokens,
            anthropic_thinking_effort: data::duplicate_option(&self.anthropic_thinking_effort),
            thinking_budget_tokens: self.thinking_budget_tokens,
        }
    }
}

/// A path without slashes at its end, in lower case.
pub open spec fn plain_path(path: Seq<char>) -> Seq<char> {
    text::lowercase(text::without_trailing(path, '/'))
}

/// Which protocol the path of an address asks for.
pub open spec fn path_protocol(path: Seq<char>) -> Option<Seq<char>> {
    if text::ends(plain_path(path), "/responses"@) {
        Some(OPENAI_RESPONSES_ENDPOINT@)
    } else if text::ends(plain_path(path), "/chat/completions"@) {
        Some(OPENAI_CHAT_ENDPOINT@)
    } else {
        None
    }
}

/// Which protocol the setting asks for.
pub open spec fn configured_protocol(endpoint: Seq<char>) -> Result<Seq<char>, ErrorView> {
    let value = text::trimmed(endpoint);
    if value.len() == 0 || value == OPENAI_RESPONSES_ENDPOINT@ {
        Ok(OPENAI_RESPONSES_ENDPOINT@)
    } else if value == OPENAI_CHAT_ENDPOINT@ || value == "/custom"@ {
        Ok(OPENAI_CHAT_ENDPOINT@)
    } else {
        Err(ErrorView::Config("unsupported v0.0.49 OpenAI endpoint: "@ + value))
    }
}

/// The path of an address that reads as one.
pub open spec fn path_of(read: Result<UrlPartsView, Seq<char>>) -> Option<Seq<char>> {
    match read {
        Ok(parts) => Some(parts.path),
        Err(_) => None,
    }
}

/// How a model is asked: the protocol, and whether its address is used as it is. The path of the
/// address decides before the setting does.
pub open spec fn request_configuration(
    model_type: ModelType,
    path: Option<Seq<char>>,
    endpoint: Seq<char>,
) -> Result<(Seq<char>, bool), ErrorView> {
    match model_type {
        ModelType::Anthropic => Ok(
            (
                Seq::empty(),
                path matches Some(path) && text::ends(plain_path(path), "/messages"@),
            ),
        ),
        ModelType::OpenAi => match configured_protocol(endpoint) {
            Err(error) => Err(error),
            Ok(configured) => {
                let detected = match path {
                    Some(path) => path_protocol(path),
                    None => None,
                };
                Ok(
                    (
                        match detected {
                            Some(protocol) => protocol,
                            None => configured,
                        },
                        detected is Some || text::trimmed(endpoint) == "/custom"@,
                    ),
                )
            },
        },
    }
}

/// Which protocol the path of an address asks for.
fn openai_protocol_from_path(path: &str) -> (r: Option<&'static str>)
    ensures
        (match r {
            Some(s) => Some(s@),
            None => None,
        }) == path_protocol(path@),
{
    let path = text::to_lowercase(text::strip_trailing(path, '/').as_str());
    if text::ends_with(path.as_str(), "/responses") {
        Some(OPENAI_RESPONSES_ENDPOINT)
    } else if text::ends_with(path.as_str(), "/chat/completions") {
        Some(OPENAI_CHAT_ENDPOINT)
    } else {
        None
    }
}

/// Which protocol the setting asks for.
fn openai_protocol_from_setting(endpoint: &str) -> (r: Result<&'static str, Error>)
    ensures
        (match r {
            Ok(s) => Ok(s@),
            Err(e) => Err(e@),
        }) == configured_protocol(endpoint@),
{
    let value = text::trim(endpoint);
    if value.as_str().is_empty() || text::same(value.as_str(), OPENAI_RESPONSES_ENDPOINT) {
        Ok(OPENAI_RESPONSES_ENDPOINT)
    } else if text::same(value.as_str(), OPENAI_CHAT_ENDPOINT) || text::same(
        value.as_str(),
        "/custom",
    ) {
        Ok(OPENAI_CHAT_ENDPOINT)
    } else {
        Err(
            Error::Config(text::concat("unsupported v0.0.49 OpenAI endpoint: ", value.as_str())),
        )
    }
}

/// How a model is asked, from how its address reads: the protocol, and whether the address is used
/// as it is.
pub fn configure_request(
    model_type: ModelType,
    read: &Result<UrlParts, String>,
    openai_endpoint: &str,
) -> (r: Result<(String, bool), Error>)
    ensures
        (match r {
            Ok((protocol, full)) => Ok((protocol@, full)),
            Err(e) => Err(e@),
        }) == request_configuration(model_type, path_of(result_view(*read)), openai_endpoint@),
{
    match model_type {
        ModelType::Anthropic => {
            let full = match read {
                Ok(parts) => {
                    let path = text::to_lowercase(
                        text::strip_trailing(parts.path.as_str(), '/').as_str(),
                    );
                    text::ends_with(path.as_str(), "/messages")
                },
                Err(_) => false,
            };
            let protocol = String::new();
            assert(protocol@ =~= Seq::<char>::empty());
            Ok((protocol, full))
        },
        ModelType::OpenAi => {
            let configured = match openai_protocol_from_setting(openai_endpoint) {
                Ok(protocol) => protocol,
                Err(error) => {
                    return Err(error);
                },
            };
            let detected = match read {
                Ok(parts) => openai_protocol_from_path(parts.path.as_str()),
                Err(_) => None,
            };
            let custom = text::same(text::trim(openai_endpoint).as_str(), "/custom");
            match detected {
                Some(protocol) => Ok((protocol.to_owned(), true)),
                None => Ok((configured.to_owned(), custom)),
            }
        },
    }
}

/// The address of a model, its protocol, and whether the address is used as it is. The address is
/// one that was normalised already; it is kept as it is.
pub fn legacy_request_configuration(
    model_type: ModelType,
    base_url: &str,
    openai_endpoint: &str,
) -> (r: Result<(String, String, bool), Error>)
    ensures
        (match r {
            Ok((address, protocol, full)) => Ok((address@, protocol@, full)),
            Err(e) => Err(e@),
        }) == (match request_configuration(
            model_type,
            path_of(url::url_parts(base_url@)),
            openai_endpoint@,
        ) {
            Ok((protocol, full)) => Ok((base_url@, protocol, full)),
            Err(e) => Err(e),
        }),
{
    let read = url::read_url(base_url);
    match configure_request(model_type, &read, openai_endpoint) {
        Ok((protocol, full)) => Ok((base_url.to_owned(), protocol, full)),
        Err(error) => Err(error),
    }
}

/// An object that a text describes, or why it describes none. A blank text describes one without
/// members.
pub open spec fn object_of(
    value: Seq<char>,
    read: Result<JsonView, Seq<char>>,
) -> Result<JsonView, ErrorView> {
    if text::blank(value) {
        Ok(JsonView::Object(Seq::empty()))
    } else {
        match read {
            Err(reason) => Err(ErrorView::Json(reason)),
            Ok(value) => if value is Object {
                Ok(value)
            } else {
                Err(ErrorView::Config("v0.0.49 model JSON fields must be objects"@))
            },
        }
    }
}

/// An object without members.
fn empty_object() -> (r: Json)
    ensures
        r@ == JsonView::Object(Seq::empty()),
{
    let members: Vec<(String, Json)> = Vec::new();
    assert(json::member_views(members@) =~= Seq::empty());
    json::object(members)
}

/// The object that was read from a text, or why there is none.
pub fn accept_object(value: &str, read: Result<Json, String>) -> (r: Result<Json, Error>)
    ensures
        result_view(r) == object_of(value@, result_view(read)),
{
    if text::is_blank(value) {
        return Ok(empty_object());
    }
    match read {
        Err(reason) => Err(Error::Json(reason)),
        Ok(value) => match value {
            Json::Object(members) => Ok(Json::Object(members)),
            _ => Err(Error::Config("v0.0.49 model JSON fields must be objects".to_owned())),
        },
    }
}

/// The object that a text describes.
pub fn json_object(value: &str) -> (r: Result<Json, Error>)
    ensures
        result_view(r) == object_of(value@, json::read_text(value@)),
{
    accept_object(value, json::read(value))
}

/// The object that a text describes, where it is looked at; otherwise one without members.
pub open spec fn enabled_object(enabled: bool, value: Seq<char>) -> Result<JsonView, ErrorView> {
    if enabled {
        object_of(value, json::read_text(value))
    } else {
        Ok(JsonView::Object(Seq::empty()))
    }
}

/// The object that a text describes, where it is looked at.
pub fn enabled_json_object(enabled: bool, value: &str) -> (r: Result<Json, Error>)
    ensures
        result_view(r) == enabled_object(enabled, value@),
{
    if enabled {
        json_object(value)
    } else {
        Ok(empty_object())
    }
}

/// A text that is not looked at is no error, whatever it holds.
pub proof fn law_disabled_fields_are_ignored(value: Seq<char>, other: Seq<char>)
    ensures
        enabled_object(false, value) == enabled_object(false, other),
        enabled_object(false, value) is Ok,
{
}

/// A number that is given.
pub open spec fn given_number(value: u64) -> Option<u64> {
    if value > 0 {
        Some(value)
    } else {
        None
    }
}

/// A number that is given.
pub fn positive(value: u64) -> (r: Option<u64>)
    ensures
        r == given_number(value),
{
    if value > 0 {
        Some(value)
    } else {
        None
    }
}

/// A text that is given.
pub open spec fn given_text(value: Seq<char>) -> Option<Seq<char>> {
    if text::blank(value) {
        None
    } else {
        Some(value)
    }
}

/// A text that is given.
pub fn optional_string(value: String) -> (r: Option<String>)
    ensures
        data::option_view(r) == given_text(value@),
{
    if text::is_blank(value.as_str()) {
        None
    } else {
        Some(value)
    }
}

/// Whose protocols a model speaks, by the name of them.
pub open spec fn type_of(name: Seq<char>) -> Result<ModelType, ErrorView> {
    let value = text::lowercase(text::trimmed(name));
    if value == "openai"@ {
        Ok(ModelType::OpenAi)
    } else if value == "anthropic"@ {
        Ok(ModelType::Anthropic)
    } else {
        Err(ErrorView::Config("unsupported v0.0.49 model type: "@ + value))
    }
}

/// Whose protocols a model speaks, by the name of them.
pub fn model_kind(name: &str) -> (r: Result<ModelType, Error>)
    ensures
        (match r {
            Ok(kind) => Ok(kind),
            Err(e) => Err(e@),
        }) == type_of(name@),
{
    let value = text::to_lowercase(text::trim(name).as_str());
    if text::same(value.as_str(), "openai") {
        Ok(ModelType::OpenAi)
    } else if text::same(value.as_str(), "anthropic") {
        Ok(ModelType::Anthropic)
    } else {
        Err(Error::Config(text::concat("unsupported v0.0.49 model type: ", value.as_str())))
    }
}

/// A model of the file as it is configured, given its address as it is kept, how that reads, and
/// what its objects came to.
pub open spec fn configured_model(
    model: LegacyModelView,
    kind: ModelType,
    base_url: Seq<char>,
    protocol: Seq<char>,
    full: bool,
    openai_params: JsonView,
    headers: JsonView,
    anthropic_params: JsonView,
) -> ModelConfigInputView {
    ModelConfigInputView {
        sort_order: model.sort,
        display_name: model.display_name,
        model_type: kind,
        base_url,
        use_full_url: full,
        api_key: model.api_key,
        tooltip_data: if text::blank(model.tooltip_data) {
            model.display_name
        } else {
            model.tooltip_data
        },
        model_id: model.model_id,
        reasoning_effort: given_text(model.reasoning_effort),
        openai_endpoint: protocol,
        openai_extra_params_enabled: model.openai_extra_params_enabled,
        openai_extra_params: openai_params,
        custom_headers_enabled: model.custom_headers_enabled,
        custom_headers: headers,
        anthropic_extra_params_enabled: model.anthropic_extra_params_enabled,
        anthropic_extra_params: anthropic_params,
        context_window_tokens: given_number(model.context_window_tokens),
        max_completion_tokens: given_number(model.max_completion_tokens),
        anthropic_max_tokens: given_number(model.anthropic_max_tokens),
        anthropic_thinking_effort: given_text(model.anthropic_thinking_effort),
        thinking_budget_tokens: given_number(model.thinking_budget_tokens),
    }
}

/// A model of the file as it is configured, or the first thing that is wrong with it: the type, the
/// address, the protocol, the parameters, the headers.
pub open spec fn input_of(
    model: LegacyModelView,
    normalized: Result<Seq<char>, ErrorView>,
) -> Result<ModelConfigInputView, ErrorView> {
    match type_of(model.model_type) {
        Err(error) => Err(error),
        Ok(kind) => match normalized {
            Err(error) => Err(error),
            Ok(base_url) => match request_configuration(
                kind,
                path_of(url::url_parts(base_url)),
                model.openai_endpoint,
            ) {
                Err(error) => Err(error),
                Ok((protocol, full)) => match enabled_object(
                    kind == ModelType::OpenAi && model.openai_extra_params_enabled,
                    model.openai_extra_params_json,
                ) {
                    Err(error) => Err(error),
                    Ok(openai_params) => match enabled_object(
                        model.custom_headers_enabled,
                        model.custom_headers_json,
                    ) {
                        Err(error) => Err(error),
                        Ok(headers) => match enabled_object(
                            kind == ModelType::Anthropic && model.anthropic_extra_params_enabled,
                            model.anthropic_extra_params_json,
                        ) {
                            Err(error) => Err(error),
                            Ok(anthropic_params) => Ok(
                                configured_model(
                                    model,
                                    kind,
                                    base_url,
                                    protocol,
                                    full,
                                    openai_params,
                                    headers,
                                    anthropic_params,
                                ),
                            ),
                        },
                    },
                },
            },
        },
    }
}

/// A model of the file as it is configured. Its address is normalised elsewhere.
pub fn model_input(model: LegacyModel, normalized: Result<String, Error>) -> (r: Result<
    ModelConfigInput,
    Error,
>)
    ensures
        result_view(r) == input_of(model@, result_view(normalized)),
{
    let kind = match model_kind(model.model_type.as_str()) {
        Ok(kind) => kind,
        Err(error) => {
            return Err(error);
        },
    };
    let base_url = match normalized {
        Ok(base_url) => base_url,
        Err(error) => {
            return Err(error);
        },
    };
    let (base_url, openai_endpoint, use_full_url) = match legacy_request_configuration(
        kind,
        base_url.as_str(),
        model.openai_endpoint.as_str(),
    ) {
        Ok(configuration) => configuration,
        Err(error) => {
            return Err(error);
        },
    };
    let openai_extra_params = match enabled_json_object(
        kind == ModelType::OpenAi && model.openai_extra_params_enabled,
        model.openai_extra_params_json.as_str(),
    ) {
        Ok(params) => params,
        Err(error) => {
            return Err(error);
        },
    };
    let custom_headers = match enabled_json_object(
        model.custom_headers_enabled,
        model.custom_headers_json.as_str(),
    ) {
        Ok(headers) => headers,
        Err(error) => {
            return Err(error);
        },
    };
    let anthropic_extra_params = match enabled_json_object(
        kind == ModelType::Anthropic && model.anthropic_extra_params_enabled,
        model.anthropic_extra_params_json.as_str(),
    ) {
        Ok(params) => params,
        Err(error) => {
            return Err(error);
        },
    };
    Ok(
        ModelConfigInput {
            sort_order: model.sort,
            display_name: model.display_name.clone(),
            model_type: kind,
            base_url,
            use_full_url,
            api_key: model.api_key,
            tooltip_data: if text::is_blank(model.tooltip_data.as_str()) {
                model.display_name
            } else {
                model.tooltip_data
            },
            model_id: model.model_id,
            reasoning_effort: optional_string(model.reasoning_effort),
            openai_endpoint,
            openai_extra_params_enabled: model.openai_extra_params_enabled,
            openai_extra_params,
            custom_headers_enabled: model.custom_headers_enabled,
            custom_headers,
            anthropic_extra_params_enabled: model.anthropic_extra_params_enabled,
            anthropic_extra_params,
            context_window_tokens: positive(model.context_window_tokens),
            max_completion_tokens: positive(model.max_completion_tokens),
            anthropic_max_tokens: positive(model.anthropic_max_tokens),
            anthropic_thinking_effort: optional_string(model.anthropic_thinking_effort),
            thinking_budget_tokens: positive(model.thinking_budget_tokens),
        },
    )
}

/// What is wrong with a file, before its models are looked at: there is none, it does not read, or it
/// holds no models. The count is that of its models.
pub open spec fn file_error(
    path: Seq<char>,
    found: bool,
    read: Result<nat, Seq<char>>,
) -> Option<ErrorView> {
    if !found {
        Some(ErrorView::Config("v0.0.49 config not found at "@ + path))
    } else {
        match read {
            Err(reason) => Some(ErrorView::Config("invalid v0.0.49 config: "@ + reason)),
            Ok(count) => if count == 0 {
                Some(ErrorView::Config("v0.0.49 config contains no model adapters"@))
            } else {
                None
            },
        }
    }
}

/// What is wrong with a file, before its models are looked at.
pub fn check_file(path: &str, found: bool, read: &Result<Vec<LegacyModel>, String>) -> (r: Option<
    Error,
>)
    ensures
        data::option_view(r) == file_error(
            path@,
            found,
            match *read {
                Ok(models) => Ok(models@.len()),
                Err(reason) => Err(reason@),
            },
        ),
{
    if !found {
        return Some(Error::Config(text::concat("v0.0.49 config not found at ", path)));
    }
    match read {
        Err(reason) => Some(
            Error::Config(text::concat("invalid v0.0.49 config: ", reason.as_str())),
        ),
        Ok(models) => if models.len() == 0 {
            Some(Error::Config("v0.0.49 config contains no model adapters".to_owned()))
        } else {
            None
        },
    }
}

/// A model that an import would bring, under its digest, and whether it is there already.
#[derive(Debug)]
pub struct LegacyModelImportEntry {
    pub model_hash: String,
    pub input: ModelConfigInput,
    pub existing: bool,
}

#[verifier::ext_equal]
pub struct LegacyModelImportEntryView {
    pub model_hash: Seq<char>,
    pub input: ModelConfigInputView,
    pub existing: bool,
}

impl View for LegacyModelImportEntry {
    type V = LegacyModelImportEntryView;

    open spec fn view(&self) -> LegacyModelImportEntryView {
        LegacyModelImportEntryView {
            model_hash: self.model_hash@,
            input: self.input@,
            existing: self.existing,
        }
    }
}

/// What an import would bring.
#[derive(Debug)]
pub struct LegacyModelImportPlan {
    pub models: Vec<LegacyModelImportEntry>,
}

/// What an import brought.
#[derive(Clone, Copy, Debug, PartialEq, Eq, Structural)]
pub struct LegacyModelImportOutcome {
    pub imported: usize,
    pub skipped: usize,
    pub total: usize,
}

/// Whether an entry of a plan has a digest.
pub open spec fn planned(entries: Seq<LegacyModelImportEntryView>, hash: Seq<char>) -> bool {
    exists|i: int| 0 <= i < entries.len() && #[trigger] entries[i].model_hash == hash
}

/// The entries of a plan: every digest once, with the first model that has it.
pub open spec fn plan_entries(
    hashed: Seq<(Seq<char>, ModelConfigInputView)>,
    existing: Seq<Seq<char>>,
) -> Seq<LegacyModelImportEntryView>
    decreases hashed.len(),
{
    if hashed.len() == 0 {
        Seq::empty()
    } else {
        let rest = plan_entries(hashed.drop_last(), existing);
        let (hash, input) = hashed.last();
        if planned(rest, hash) {
            rest
        } else {
            rest.push(
                LegacyModelImportEntryView {
                    model_hash: hash,
                    input,
                    existing: existing.contains(hash),
                },
            )
        }
    }
}

/// The views of models with their digests.
pub open spec fn hashed_views(hashed: Seq<(String, ModelConfigInput)>) -> Seq<
    (Seq<char>, ModelConfigInputView),
> {
    hashed.map_values(|h: (String, ModelConfigInput)| (h.0@, h.1@))
}

/// Whether an entry of a plan has a digest.
fn is_planned(entries: &Vec<LegacyModelImportEntry>, hash: &str) -> (r: bool)
    ensures
        r == planned(data::views(entries@), hash@),
{
    let ghost all = data::views(entries@);
    let mut i: usize = 0;
    while i < entries.len()
        invariant
            i <= entries@.len(),
            all == data::views(entries@),
            forall|k: int| 0 <= k < i ==> #[trigger] all[k].model_hash != hash@,
        decreases entries@.len() - i,
    {
        assert(all[i as int] == entries@[i as int]@);
        if text::same(entries[i].model_hash.as_str(), hash) {
            assert(all[i as int].model_hash == hash@);
            return true;
        }
        i += 1;
    }
    assert(all.len() == entries@.len());
    false
}

/// What an import would bring, from the models of a file with their digests and the digests that are
/// there already.
pub fn import_plan(hashed: &Vec<(String, ModelConfigInput)>, existing: &Vec<String>) -> (r:
    LegacyModelImportPlan)
    ensures
        data::views(r.models@) == plan_entries(hashed_views(hashed@), data::views(existing@)),
{
    let ghost all = hashed_views(hashed@);
    let ghost there = data::views(existing@);
    let mut models: Vec<LegacyModelImportEntry> = Vec::new();
    let mut i: usize = 0;
    assert(all.take(0) =~= Seq::empty());
    assert(data::views(models@) =~= Seq::<LegacyModelImportEntryView>::empty());
    while i < hashed.len()
        invariant
            i <= hashed@.len(),
            all == hashed_views(hashed@),
            there == data::views(existing@),
            data::views(models@) == plan_entries(all.take(i as int), there),
        decreases hashed@.len() - i,
    {
        let (hash, input) = &hashed[i];
        let ghost before = data::views(models@);
        i += 1;
        assert(all.take(i as int).drop_last() =~= all.take(i - 1));
        assert(all.take(i as int).last() == (hash@, input@));
        if !is_planned(&models, hash.as_str()) {
            let entry = LegacyModelImportEntry {
                model_hash: hash.clone(),
                input: input.duplicate(),
                existing: data::lists(existing, hash.as_str()),
            };
            models.push(entry);
            assert(data::views(models@) =~= before.push(entry@));
        }
    }
    assert(all.take(i as int) =~= all);
    LegacyModelImportPlan { models }
}

/// The models of a plan that are not there yet, in order.
pub open spec fn missing(entries: Seq<LegacyModelImportEntryView>) -> Seq<ModelConfigInputView>
    decreases entries.len(),
{
    if entries.len() == 0 {
        Seq::empty()
    } else {
        let rest = missing(entries.drop_last());
        if entries.last().existing {
            rest
        } else {
            rest.push(entries.last().input)
        }
    }
}

impl LegacyModelImportPlan {
    /// The models of the plan that are not there yet.
    pub fn missing_models(&self) -> (r: Vec<ModelConfigInput>)
        ensures
            data::views(r@) == missing(data::views(self.models@)),
    {
        let ghost all = data::views(self.models@);
        let mut out: Vec<ModelConfigInput> = Vec::new();
        let mut i: usize = 0;
        assert(all.take(0) =~= Seq::empty());
        assert(data::views(out@) =~= Seq::<ModelConfigInputView>::empty());
        while i < self.models.len()
            invariant
                i <= self.models@.len(),
                all == data::views(self.models@),
                data::views(out@) == missing(all.take(i as int)),
            decreases self.models@.len() - i,
        {
            let entry = &self.models[i];
            let ghost before = data::views(out@);
            i += 1;
            assert(all.take(i as int).drop_last() =~= all.take(i - 1));
            assert(all.take(i as int).last() == entry@);
            if !entry.existing {
                let input = entry.input.duplicate();
                out.push(input);
                assert(data::views(out@) =~= before.push(input@));
            }
        }
        assert(all.take(i as int) =~= all);
        out
    }

    /// What the import brought, when so many models were created.
    pub fn outcome(&self, imported: usize) -> (r: LegacyModelImportOutcome)
        requires
            imported <= self.models@.len(),
        ensures
            r == (LegacyModelImportOutcome {
                imported,
                skipped: (self.models@.len() - imported) as usize,
                total: self.models@.len() as usize,
            }),
    {
        let total = self.models.len();
        LegacyModelImportOutcome { imported, skipped: total - imported, total }
    }
}

/// Every model of a file stands in the plan under its digest, and no digest stands there twice.
pub proof fn law_plan_holds_each_digest_once(
    hashed: Seq<(Seq<char>, ModelConfigInputView)>,
    existing: Seq<Seq<char>>,
)
    ensures
        ({
            let entries = plan_entries(hashed, existing);
            &&& forall|i: int|
                0 <= i < hashed.len() ==> planned(entries, #[trigger] hashed[i].0)
            &&& forall|i: int, k: int|
                0 <= k < i < entries.len() ==> #[trigger] entries[k].model_hash
                    != #[trigger] entries[i].model_hash
            &&& forall|i: int|
                0 <= i < entries.len() ==> (#[trigger] entries[i]).existing == existing.contains(
                    entries[i].model_hash,
                )
        }),
    decreases hashed.len(),
{
    if hashed.len() > 0 {
        let shorter = hashed.drop_last();
        law_plan_holds_each_digest_once(shorter, existing);
        let rest = plan_entries(shorter, existing);
        let entries = plan_entries(hashed, existing);
        let last = hashed.last().0;
        assert forall|i: int| 0 <= i < hashed.len() implies planned(
            entries,
            #[trigger] hashed[i].0,
        ) by {
            if i < shorter.len() {
                assert(shorter[i] == hashed[i]);
                assert(planned(rest, shorter[i].0));
                let k = choose|k: int|
                    0 <= k < rest.len() && #[trigger] rest[k].model_hash == hashed[i].0;
                assert(entries[k].model_hash == hashed[i].0);
            } else if !planned(rest, last) {
                assert(entries[rest.len() as int].model_hash == last);
            }
        }
        assert forall|i: int, k: int| 0 <= k < i < entries.len() implies #[trigger]
            entries[k].model_hash != #[trigger] entries[i].model_hash by {
            assert(entries[k] == rest[k]);
            if i < rest.len() {
                assert(entries[i] == rest[i]);
            } else {
                assert(rest[k].model_hash != last);
            }
        }
    }
}

/// An import that is done again brings nothing: with every digest of the file there, no model of the
/// plan is missing.
pub proof fn law_second_import_brings_nothing(
    hashed: Seq<(Seq<char>, ModelConfigInputView)>,
    existing: Seq<Seq<char>>,
)
    requires
        forall|i: int| 0 <= i < hashed.len() ==> existing.contains(#[trigger] hashed[i].0),
    ensures
        missing(plan_entries(hashed, existing)).len() == 0,
    decreases hashed.len(),
{
    if hashed.len() > 0 {
        let shorter = hashed.drop_last();
        assert forall|i: int| 0 <= i < shorter.len() implies existing.contains(
            #[trigger] shorter[i].0,
        ) by {
            assert(shorter[i] == hashed[i]);
        }
        law_second_import_brings_nothing(shorter, existing);
        let rest = plan_entries(shorter, existing);
        let entries = plan_entries(hashed, existing);
        assert(existing.contains(hashed[hashed.len() - 1].0));
        if !planned(rest, hashed.last().0) {
            assert(entries.drop_last() =~= rest);
        }
    }
}

/// A model whose address ends in the path of a protocol is asked there, with that protocol, whatever
/// the setting says as long as it is one that is known.
pub proof fn law_full_address_decides(path: Seq<char>, endpoint: Seq<char>)
    requires
        path_protocol(path) is Some,
        configured_protocol(endpoint) is Ok,
    ensures
        request_configuration(ModelType::OpenAi, Some(path), endpoint) == Ok::<
            (Seq<char>, bool),
            ErrorView,
        >((path_protocol(path)->0, true)),
{
}

/// A model is configured as the file describes it, field by field. A number that is zero and a text
/// that is blank count as not given; where there is no tooltip, the name to show stands in.
pub proof fn law_model_is_configured_as_described(
    model: LegacyModelView,
    normalized: Result<Seq<char>, ErrorView>,
)
    requires
        input_of(model, normalized) is Ok,
    ensures
        ({
            let input = input_of(model, normalized)->Ok_0;
            &&& normalized is Ok
            &&& input.base_url == normalized->Ok_0
            &&& input.sort_order == model.sort
            &&& input.display_name == model.display_name
            &&& input.api_key == model.api_key
            &&& input.model_id == model.model_id
            &&& input.tooltip_data == (if text::trimmed(model.tooltip_data).len() > 0 {
                model.tooltip_data
            } else {
                model.display_name
            })
            &&& input.reasoning_effort == (if text::trimmed(model.reasoning_effort).len() > 0 {
                Some(model.reasoning_effort)
            } else {
                None
            })
            &&& input.anthropic_thinking_effort == (if text::trimmed(
                model.anthropic_thinking_effort,
            ).len() > 0 {
                Some(model.anthropic_thinking_effort)
            } else {
                None
            })
            &&& model.context_window_tokens > 0 ==> input.context_window_tokens == Some(
                model.context_window_tokens,
            )
            &&& model.context_window_tokens == 0 ==> input.context_window_tokens is None
            &&& model.max_completion_tokens > 0 ==> input.max_completion_tokens == Some(
                model.max_completion_tokens,
            )
            &&& model.max_completion_tokens == 0 ==> input.max_completion_tokens is None
            &&& model.anthropic_max_tokens > 0 ==> input.anthropic_max_tokens == Some(
                model.anthropic_max_tokens,
            )
            &&& model.thinking_budget_tokens > 0 ==> input.thinking_budget_tokens == Some(
                model.thinking_budget_tokens,
            )
            &&& input.openai_extra_params_enabled == model.openai_extra_params_enabled
            &&& input.custom_headers_enabled == model.custom_headers_enabled
            &&& input.anthropic_extra_params_enabled == model.anthropic_extra_params_enabled
            &&& input.model_type == ModelType::OpenAi <==> text::lowercase(
                text::trimmed(model.model_type),
            ) == "openai"@
            &&& input.model_type == ModelType::Anthropic <==> text::lowercase(
                text::trimmed(model.model_type),
            ) == "anthropic"@
            &&& input.openai_extra_params is Object
            &&& input.custom_headers is Object
            &&& input.anthropic_extra_params is Object
        }),
{
    reveal_strlit("openai");
    reveal_strlit("anthropic");
    assert("openai"@.len() != "anthropic"@.len());
}

/// Without a path that says so, the setting decides the protocol: the responses protocol where nothing
/// or that is asked for, the chat protocol where that or an address of the user's own is. Any other
/// setting is refused.
pub proof fn law_setting_decides_otherwise(path: Option<Seq<char>>, endpoint: Seq<char>)
    requires
        path matches Some(path) ==> path_protocol(path) is None,
    ensures
        ({
            let asked = text::trimmed(endpoint);
            let found = request_configuration(ModelType::OpenAi, path, endpoint);
            &&& asked.len() == 0 || asked == "/v1/responses"@ ==> found is Ok && found->Ok_0.0
                == "/v1/responses"@ && !found->Ok_0.1
            &&& asked == "/v1/chat/completions"@ ==> found is Ok && found->Ok_0.0
                == "/v1/chat/completions"@ && !found->Ok_0.1
            &&& asked == "/custom"@ ==> found is Ok && found->Ok_0.0 == "/v1/chat/completions"@
                && found->Ok_0.1
            &&& found is Err <==> asked.len() > 0 && asked != "/v1/responses"@ && asked
                != "/v1/chat/completions"@ && asked != "/custom"@
        }),
{
    reveal_strlit("/v1/responses");
    reveal_strlit("/v1/chat/completions");
    reveal_strlit("/custom");
    assert("/v1/responses"@.len() != "/v1/chat/completions"@.len());
    assert("/v1/responses"@.len() != "/custom"@.len());
    assert("/v1/chat/completions"@.len() != "/custom"@.len());
}

/// The path of an address asks for the protocol that it ends in, whatever its case and slashes at its
/// end.
pub proof fn law_path_asks_for_its_protocol(path: Seq<char>)
    ensures
        ({
            let plain = text::lowercase(text::without_trailing(path, '/'));
            &&& text::ends(plain, "/responses"@) ==> path_protocol(path) == Some("/v1/responses"@)
            &&& text::ends(plain, "/chat/completions"@) && !text::ends(plain, "/responses"@)
                ==> path_protocol(path) == Some("/v1/chat/completions"@)
            &&& !text::ends(plain, "/responses"@) && !text::ends(plain, "/chat/completions"@)
                ==> path_protocol(path) is None
        }),
{
}

/// What a plan brings is exactly what is not there yet, in the order of the file.
pub proof fn law_missing_models_are_those_not_there(entries: Seq<LegacyModelImportEntryView>)
    ensures
        missing(entries).len() <= entries.len(),
        forall|i: int|
            0 <= i < entries.len() && !(#[trigger] entries[i]).existing ==> missing(
                entries,
            ).contains(entries[i].input),
        forall|k: int|
            0 <= k < missing(entries).len() ==> exists|i: int|
                0 <= i < entries.len() && !(#[trigger] entries[i]).existing && entries[i].input
                    == #[trigger] missing(entries)[k],
        (forall|i: int| 0 <= i < entries.len() ==> !(#[trigger] entries[i]).existing)
            ==> missing(entries) == entries.map_values(|e: LegacyModelImportEntryView| e.input),
    decreases entries.len(),
{
    let out = missing(entries);
    if entries.len() > 0 {
        let rest = entries.drop_last();
        law_missing_models_are_those_not_there(rest);
        let before = missing(rest);
        assert(entries[entries.len() - 1] == entries.last());
        assert forall|i: int| 0 <= i < entries.len() && !(
        #[trigger] entries[i]).existing implies out.contains(entries[i].input) by {
            if i < rest.len() {
                assert(rest[i] == entries[i]);
                let k = choose|k: int| 0 <= k < before.len() && before[k] == entries[i].input;
                assert(out[k] == entries[i].input);
            } else {
                assert(out[out.len() - 1] == entries[i].input);
            }
        }
        assert forall|k: int| 0 <= k < out.len() implies exists|i: int|
            0 <= i < entries.len() && !(#[trigger] entries[i]).existing && entries[i].input
                == #[trigger] out[k] by {
            if k < before.len() {
                assert(before[k] == out[k]);
                let i = choose|i: int|
                    0 <= i < rest.len() && !(#[trigger] rest[i]).existing && rest[i].input
                        == before[k];
                assert(entries[i].input == out[k]);
            } else {
                assert(entries[entries.len() - 1].input == out[k]);
            }
        }
        if forall|i: int| 0 <= i < entries.len() ==> !(#[trigger] entries[i]).existing {
            assert forall|i: int| 0 <= i < rest.len() implies !(#[trigger] rest[i]).existing by {
                assert(rest[i] == entries[i]);
            }
            assert(!entries.last().existing);
            assert(out =~= entries.map_values(|e: LegacyModelImportEntryView| e.input));
        }
    } else {
        assert(out =~= entries.map_values(|e: LegacyModelImportEntryView| e.input));
    }
}

/// A file is used if and only if it is there, reads and holds a model; what is wrong otherwise names the
/// path or the reason.
pub proof fn law_usable_files(path: Seq<char>, found: bool, read: Result<nat, Seq<char>>)
    ensures
        file_error(path, found, read) is None <==> found && (read matches Ok(count) && count > 0),
        !found ==> (file_error(path, found, read) matches Some(ErrorView::Config(told))
            && text::ends(told, path)),
        found ==> (read matches Err(reason) ==> (file_error(path, found, read) matches Some(
            ErrorView::Config(told),
        ) && text::ends(told, reason))),
{
    let told = "v0.0.49 config not found at "@ + path;
    assert(told.subrange(told.len() - path.len(), told.len() as int) =~= path);
    match read {
        Err(reason) => {
            let told = "invalid v0.0.49 config: "@ + reason;
            assert(told.subrange(told.len() - reason.len(), told.len() as int) =~= reason);
        },
        Ok(_) => {},
    }
}

/// Parameters go to the model from their own text, where they are switched on and meant for its provider,
/// and headers from theirs; what is not looked at has no members.
pub proof fn law_parameters_come_from_their_own_text(
    model: LegacyModelView,
    normalized: Result<Seq<char>, ErrorView>,
)
    requires
        input_of(model, normalized) is Ok,
    ensures
        ({
            let input = input_of(model, normalized)->Ok_0;
            &&& input.model_type == ModelType::OpenAi && model.openai_extra_params_enabled ==> input.openai_extra_params == object_of(
                model.openai_extra_params_json,
                json::read_text(model.openai_extra_params_json),
            )->Ok_0
            &&& !(input.model_type == ModelType::OpenAi && model.openai_extra_params_enabled) ==> input.openai_extra_params == JsonView::Object(Seq::empty())
            &&& model.custom_headers_enabled ==> input.custom_headers == object_of(
                model.custom_headers_json,
                json::read_text(model.custom_headers_json),
            )->Ok_0
            &&& !(model.custom_headers_enabled) ==> input.custom_headers == JsonView::Object(Seq::empty())
            &&& input.model_type == ModelType::Anthropic && model.anthropic_extra_params_enabled ==> input.anthropic_extra_params == object_of(
                model.anthropic_extra_params_json,
                json::read_text(model.anthropic_extra_params_json),
            )->Ok_0
            &&& !(input.model_type == ModelType::Anthropic && model.anthropic_extra_params_enabled) ==> input.anthropic_extra_params == JsonView::Object(Seq::empty())
        }),
{
}

} // verus!
