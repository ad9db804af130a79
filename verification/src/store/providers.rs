//! Providers and their models: what is accepted, what a change keeps, and what is shown.
use crate::data;
use crate::error::{result_view, Error, ErrorView};
use crate::json;
use crate::json::{Json, JsonView};
use crate::model::llm_call::ProviderType;
use crate::text;
use vstd::prelude::*;

verus! {

/// A provider as the user asks for it. A key that is not given stays as it is.
#[derive(Debug)]
pub struct ProviderEndpointInput {
    pub name: String,
    pub provider_type: ProviderType,
    pub base_url: String,
    pub api_key: Option<String>,
    pub custom_headers: Json,
    pub extra_params: Json,
}

#[verifier::ext_equal]
pub struct ProviderEndpointInputView {
    pub name: Seq<char>,
    pub provider_type: ProviderType,
    pub base_url: Seq<char>,
    pub api_key: Option<Seq<char>>,
    pub custom_headers: JsonView,
    pub extra_params: JsonView,
}

impl View for ProviderEndpointInput {
    type V = ProviderEndpointInputView;

    open spec fn view(&self) -> ProviderEndpointInputView {
        ProviderEndpointInputView {
            name: self.name@,
            provider_type: self.provider_type,
            base_url: self.base_url@,
            api_key: data::option_view(self.api_key),
            custom_headers: self.custom_headers@,
            extra_params: self.extra_params@,
        }
    }
}

/// A provider as it is shown.
#[derive(Debug)]
pub struct ProviderEndpoint {
    pub provider_id: i64,
    pub name: String,
    pub provider_type: ProviderType,
    pub base_url: String,
    pub api_key: Option<String>,
    pub has_api_key: bool,
    pub custom_headers: Json,
    pub extra_params: Json,
    pub created_at_ms: i64,
    pub updated_at_ms: i64,
}

#[verifier::ext_equal]
pub struct ProviderEndpointView {
    pub provider_id: i64,
    pub name: Seq<char>,
    pub provider_type: ProviderType,
    pub base_url: Seq<char>,
    pub api_key: Option<Seq<char>>,
    pub has_api_key: bool,
    pub custom_headers: JsonView,
    pub extra_params: JsonView,
    pub created_at_ms: i64,
    pub updated_at_ms: i64,
}

impl View for ProviderEndpoint {
    type V = ProviderEndpointView;

    open spec fn view(&self) -> ProviderEndpointView {
        ProviderEndpointView {
            provider_id: self.provider_id,
            name: self.name@,
            provider_type: self.provider_type,
            base_url: self.base_url@,
            api_key: data::option_view(self.api_key),
            has_api_key: self.has_api_key,
            custom_headers: self.custom_headers@,
            extra_params: self.extra_params@,
            created_at_ms: self.created_at_ms,
            updated_at_ms: self.updated_at_ms,
        }
    }
}

/// A provider as its row holds it.
#[derive(Debug)]
pub struct ProviderRow {
    pub provider_id: i64,
    pub name: String,
    pub provider_type: ProviderType,
    pub base_url: String,
    pub api_key: String,
    pub custom_headers: Json,
    pub extra_params: Json,
    pub created_at_ms: i64,
    pub updated_at_ms: i64,
}

#[verifier::ext_equal]
pub struct ProviderRowView {
    pub provider_id: i64,
    pub name: Seq<char>,
    pub provider_type: ProviderType,
    pub base_url: Seq<char>,
    pub api_key: Seq<char>,
    pub custom_headers: JsonView,
    pub extra_params: JsonView,
    pub created_at_ms: i64,
    pub updated_at_ms: i64,
}

impl View for ProviderRow {
    type V = ProviderRowView;

    open spec fn view(&self) -> ProviderRowView {
        ProviderRowView {
            provider_id: self.provider_id,
            name: self.name@,
            provider_type: self.provider_type,
            base_url: self.base_url@,
            api_key: self.api_key@,
            custom_headers: self.custom_headers@,
            extra_params: self.extra_params@,
            created_at_ms: self.created_at_ms,
            updated_at_ms: self.updated_at_ms,
        }
    }
}

/// A model as the user asks for it.
#[derive(Debug)]
pub struct ProviderModelInput {
    pub model_id: String,
    pub display_name: String,
    pub endpoint_type: ProviderType,
    pub request_url: String,
    pub enabled: bool,
    pub sort_order: i64,
    pub context_window_tokens: Option<u64>,
    pub max_output_tokens: Option<u64>,
    pub reasoning_enabled: bool,
    pub reasoning_effort: Option<String>,
    pub supports_image_generation: bool,
}

#[verifier::ext_equal]
pub struct ProviderModelInputView {
    pub model_id: Seq<char>,
    pub display_name: Seq<char>,
    pub endpoint_type: ProviderType,
    pub request_url: Seq<char>,
    pub enabled: bool,
    pub sort_order: i64,
    pub context_window_tokens: Option<u64>,
    pub max_output_tokens: Option<u64>,
    pub reasoning_enabled: bool,
    pub reasoning_effort: Option<Seq<char>>,
    pub supports_image_generation: bool,
}

impl View for ProviderModelInput {
    type V = ProviderModelInputView;

    open spec fn view(&self) -> ProviderModelInputView {
        ProviderModelInputView {
            model_id: self.model_id@,
            display_name: self.display_name@,
            endpoint_type: self.endpoint_type,
            request_url: self.request_url@,
            enabled: self.enabled,
            sort_order: self.sort_order,
            context_window_tokens: self.context_window_tokens,
            max_output_tokens: self.max_output_tokens,
            reasoning_enabled: self.reasoning_enabled,
            reasoning_effort: data::option_view(self.reasoning_effort),
            supports_image_generation: self.supports_image_generation,
        }
    }
}

/// A model as its row holds it.
#[derive(Debug)]
pub struct ProviderModel {
    pub model_hash: String,
    pub provider_id: i64,
    pub model_id: String,
    pub display_name: String,
    pub endpoint_type: ProviderType,
    pub request_url: String,
    pub enabled: bool,
    pub sort_order: i64,
    pub context_window_tokens: Option<u64>,
    pub max_output_tokens: Option<u64>,
    pub reasoning_enabled: bool,
    pub reasoning_effort: Option<String>,
    pub supports_image_generation: bool,
    pub created_at_ms: i64,
    pub updated_at_ms: i64,
}

#[verifier::ext_equal]
pub struct ProviderModelView {
    pub model_hash: Seq<char>,
    pub provider_id: i64,
    pub model_id: Seq<char>,
    pub display_name: Seq<char>,
    pub endpoint_type: ProviderType,
    pub request_url: Seq<char>,
    pub enabled: bool,
    pub sort_order: i64,
    pub context_window_tokens: Option<u64>,
    pub max_output_tokens: Option<u64>,
    pub reasoning_enabled: bool,
    pub reasoning_effort: Option<Seq<char>>,
    pub supports_image_generation: bool,
    pub created_at_ms: i64,
    pub updated_at_ms: i64,
}

impl View for ProviderModel {
    type V = ProviderModelView;

    open spec fn view(&self) -> ProviderModelView {
        ProviderModelView {
            model_hash: self.model_hash@,
            provider_id: self.provider_id,
            model_id: self.model_id@,
            display_name: self.display_name@,
            endpoint_type: self.endpoint_type,
            request_url: self.request_url@,
            enabled: self.enabled,
            sort_order: self.sort_order,
            context_window_tokens: self.context_window_tokens,
            max_output_tokens: self.max_output_tokens,
            reasoning_enabled: self.reasoning_enabled,
            reasoning_effort: data::option_view(self.reasoning_effort),
            supports_image_generation: self.supports_image_generation,
            created_at_ms: self.created_at_ms,
            updated_at_ms: self.updated_at_ms,
        }
    }
}

/// A count of tokens in a column that holds its 64 bits as a signed number.
pub open spec fn token_column(tokens: u64) -> int {
    if tokens <= i64::MAX {
        tokens as int
    } else {
        tokens - 0x1_0000_0000_0000_0000
    }
}

/// A count of tokens in a column that holds its 64 bits as a signed number.
pub fn tokens_to_column(tokens: u64) -> (r: i64)
    ensures
        r == token_column(tokens),
{
    if tokens <= i64::MAX as u64 {
        tokens as i64
    } else {
        -((u64::MAX - tokens) as i64) - 1
    }
}

/// The count of tokens whose 64 bits a column holds as a signed number.
pub fn tokens_from_column(value: i64) -> (r: u64)
    ensures
        token_column(r) == value,
{
    if value >= 0 {
        value as u64
    } else {
        u64::MAX - ((-(value + 1)) as u64)
    }
}

/// A count of tokens is read as it was written.
pub proof fn law_token_columns_read_back(a: u64, b: u64)
    ensures
        token_column(a) == token_column(b) ==> a == b,
{
}

/// What is wrong with a provider as the user asks for it. The address is normalised elsewhere, and
/// what came of that is looked at last.
pub open spec fn endpoint_error(
    input: ProviderEndpointInputView,
    normalized: Result<Seq<char>, ErrorView>,
) -> Option<ErrorView> {
    if text::blank(input.name) {
        Some(ErrorView::Config("provider name cannot be empty"@))
    } else if !(input.custom_headers is Object) {
        Some(ErrorView::Config("custom headers must be a JSON object"@))
    } else if !(input.extra_params is Object) {
        Some(ErrorView::Config("extra params must be a JSON object"@))
    } else {
        match normalized {
            Ok(_) => None,
            Err(error) => Some(error),
        }
    }
}

/// Whether a value is an object.
fn is_object(value: &Json) -> (r: bool)
    ensures
        r == (value@ is Object),
{
    match value {
        Json::Object(_) => true,
        _ => false,
    }
}

/// The address of a provider that is acceptable as the user asks for it.
pub fn validate_endpoint(input: &ProviderEndpointInput, normalized: Result<String, Error>) -> (r:
    Result<String, Error>)
    ensures
        result_view(r) == (match endpoint_error(input@, result_view(normalized)) {
            Some(error) => Err(error),
            None => result_view(normalized),
        }),
{
    if text::is_blank(input.name.as_str()) {
        return Err(Error::Config("provider name cannot be empty".to_owned()));
    }
    if !is_object(&input.custom_headers) {
        return Err(Error::Config("custom headers must be a JSON object".to_owned()));
    }
    if !is_object(&input.extra_params) {
        return Err(Error::Config("extra params must be a JSON object".to_owned()));
    }
    normalized
}

/// What is wrong with a model as the user asks for it. Its address is resolved elsewhere, and what
/// came of that is looked at last.
pub open spec fn model_error(
    input: ProviderModelInputView,
    address_error: Option<ErrorView>,
) -> Option<ErrorView> {
    if text::blank(input.display_name) {
        Some(ErrorView::Config("model display name cannot be empty"@))
    } else if text::blank(input.model_id) {
        Some(ErrorView::Config("model id cannot be empty"@))
    } else {
        address_error
    }
}

/// What is wrong with a model as the user asks for it.
pub fn validate_model(input: &ProviderModelInput, address_error: &Option<Error>) -> (r: Option<
    Error,
>)
    ensures
        data::option_view(r) == model_error(input@, data::option_view(*address_error)),
{
    if text::is_blank(input.display_name.as_str()) {
        return Some(Error::Config("model display name cannot be empty".to_owned()));
    }
    if text::is_blank(input.model_id.as_str()) {
        return Some(Error::Config("model id cannot be empty".to_owned()));
    }
    data::duplicate_option(address_error)
}

/// Whether a model has the name of one before it.
pub open spec fn repeats(inputs: Seq<ProviderModelInputView>, i: int) -> bool {
    exists|k: int|
        0 <= k < i && #[trigger] text::trimmed(inputs[k].model_id) == text::trimmed(
            inputs[i].model_id,
        )
}

/// What is wrong with a model among others.
pub open spec fn batch_error_at(
    inputs: Seq<ProviderModelInputView>,
    address_errors: Seq<Option<ErrorView>>,
    i: int,
) -> Option<ErrorView> {
    match model_error(inputs[i], address_errors[i]) {
        Some(error) => Some(error),
        None => if repeats(inputs, i) {
            Some(
                ErrorView::Config("duplicate model id: "@ + text::trimmed(inputs[i].model_id)),
            )
        } else {
            None
        },
    }
}

/// The first thing that is wrong with models from one of them on.
pub open spec fn first_batch_error(
    inputs: Seq<ProviderModelInputView>,
    address_errors: Seq<Option<ErrorView>>,
    from: int,
) -> Option<ErrorView>
    decreases inputs.len() - from,
{
    if from < 0 || from >= inputs.len() {
        None
    } else {
        match batch_error_at(inputs, address_errors, from) {
            Some(error) => Some(error),
            None => first_batch_error(inputs, address_errors, from + 1),
        }
    }
}

/// What is wrong with models that are to be saved together.
pub open spec fn batch_error(
    inputs: Seq<ProviderModelInputView>,
    address_errors: Seq<Option<ErrorView>>,
) -> Option<ErrorView> {
    if inputs.len() == 0 {
        Some(ErrorView::Config("at least one model is required"@))
    } else {
        first_batch_error(inputs, address_errors, 0)
    }
}

/// The views of what came of resolving addresses.
pub open spec fn error_views(errors: Seq<Option<Error>>) -> Seq<Option<ErrorView>> {
    errors.map_values(|e: Option<Error>| data::option_view(e))
}

/// What is wrong with models that are to be saved together, with what came of resolving the address
/// of each.
pub fn validate_model_batch(
    inputs: &Vec<ProviderModelInput>,
    address_errors: &Vec<Option<Error>>,
) -> (r: Option<Error>)
    requires
        inputs@.len() == address_errors@.len(),
    ensures
        data::option_view(r) == batch_error(data::views(inputs@), error_views(address_errors@)),
{
    let ghost all = data::views(inputs@);
    let ghost errors = error_views(address_errors@);
    assert(all.len() == inputs@.len() && errors.len() == address_errors@.len());
    if inputs.len() == 0 {
        return Some(Error::Config("at least one model is required".to_owned()));
    }
    let mut i: usize = 0;
    while i < inputs.len()
        invariant
            i <= inputs@.len() == address_errors@.len(),
            all == data::views(inputs@),
            errors == error_views(address_errors@),
            all.len() == inputs@.len() == errors.len(),
            all.len() > 0,
            batch_error(all, errors) == first_batch_error(all, errors, i as int),
        decreases inputs@.len() - i,
    {
        assert(all[i as int] == inputs@[i as int]@);
        assert(errors[i as int] == data::option_view(address_errors@[i as int]));
        match validate_model(&inputs[i], &address_errors[i]) {
            Some(error) => {
                return Some(error);
            },
            None => {},
        }
        let id = text::trim(inputs[i].model_id.as_str());
        let mut k: usize = 0;
        while k < i
            invariant
                k <= i < inputs@.len(),
                all == data::views(inputs@),
                errors == error_views(address_errors@),
                all.len() == inputs@.len() == errors.len(),
                id@ == text::trimmed(all[i as int].model_id),
                model_error(all[i as int], errors[i as int]) is None,
                all.len() > 0,
                batch_error(all, errors) == first_batch_error(all, errors, i as int),
                forall|j: int|
                    0 <= j < k ==> #[trigger] text::trimmed(all[j].model_id) != text::trimmed(
                        all[i as int].model_id,
                    ),
            decreases i - k,
        {
            assert(all[k as int] == inputs@[k as int]@);
            let other = text::trim(inputs[k].model_id.as_str());
            if text::same(other.as_str(), id.as_str()) {
                assert(text::trimmed(all[k as int].model_id) == text::trimmed(
                    all[i as int].model_id,
                ));
                assert(repeats(all, i as int));
                return Some(Error::Config(text::concat("duplicate model id: ", id.as_str())));
            }
            k += 1;
        }
        assert(!repeats(all, i as int));
        i += 1;
    }
    None
}

/// Models that are acceptable together have names of their own, none of them empty.
pub proof fn law_accepted_models_are_distinct(
    inputs: Seq<ProviderModelInputView>,
    address_errors: Seq<Option<ErrorView>>,
    i: int,
    k: int,
)
    requires
        inputs.len() == address_errors.len(),
        batch_error(inputs, address_errors) is None,
        0 <= k < i < inputs.len(),
    ensures
        text::trimmed(inputs[k].model_id) != text::trimmed(inputs[i].model_id),
        !text::blank(inputs[i].model_id),
        !text::blank(inputs[k].model_id),
{
    lemma_no_error_at(inputs, address_errors, 0, i);
    lemma_no_error_at(inputs, address_errors, 0, k);
    if text::trimmed(inputs[k].model_id) == text::trimmed(inputs[i].model_id) {
        assert(repeats(inputs, i));
    }
}

/// Where nothing is wrong from a place on, nothing is wrong at a later one.
proof fn lemma_no_error_at(
    inputs: Seq<ProviderModelInputView>,
    address_errors: Seq<Option<ErrorView>>,
    from: int,
    i: int,
)
    requires
        first_batch_error(inputs, address_errors, from) is None,
        0 <= from <= i < inputs.len(),
    ensures
        batch_error_at(inputs, address_errors, i) is None,
    decreases i - from,
{
    if from < i {
        lemma_no_error_at(inputs, address_errors, from + 1, i);
    }
}

/// The error that two models with the same digest are reported with.
pub open spec fn collision(hash: Seq<char>) -> ErrorView {
    ErrorView::Config("8-character model hash collision: "@ + hash)
}

/// Whether a digest is free for a model, or taken by that model itself.
pub open spec fn is_available(
    existing: Option<(i64, Seq<char>)>,
    provider_id: i64,
    model_id: Seq<char>,
) -> bool {
    match existing {
        Some((provider, model)) => provider == provider_id && model == model_id,
        None => true,
    }
}

/// The model that a digest is taken by.
pub open spec fn taken_by(existing: Option<(i64, String)>) -> Option<(i64, Seq<char>)> {
    match existing {
        Some((provider, model)) => Some((provider, model@)),
        None => None,
    }
}

/// The error that a digest that is taken is reported with.
pub open spec fn taken_error(
    hash: Seq<char>,
    existing: Option<(i64, Seq<char>)>,
    provider_id: i64,
    model_id: Seq<char>,
) -> Option<ErrorView> {
    if is_available(existing, provider_id, model_id) {
        None
    } else {
        Some(collision(hash))
    }
}

/// What is wrong with the digest of a model, given the model that has it already.
pub fn check_hash_available(
    hash: &str,
    existing: &Option<(i64, String)>,
    provider_id: i64,
    model_id: &str,
) -> (r: Option<Error>)
    ensures
        data::option_view(r) == taken_error(hash@, taken_by(*existing), provider_id, model_id@),
{
    match existing {
        Some((provider, model)) => if *provider != provider_id || !text::same(
            model.as_str(),
            model_id,
        ) {
            Some(
                Error::Config(text::concat("8-character model hash collision: ", hash)),
            )
        } else {
            None
        },
        None => None,
    }
}

/// The digests of models that are to be saved together.
#[derive(Debug)]
pub struct HashBatch {
    hashes: Vec<String>,
}

impl View for HashBatch {
    type V = Seq<Seq<char>>;

    closed spec fn view(&self) -> Seq<Seq<char>> {
        data::views(self.hashes@)
    }
}

/// What is wrong with the next digest of a batch: it stands in the batch already, another model of
/// the store has it, or the store has the model under another digest.
pub open spec fn next_hash_error(
    hashes: Seq<Seq<char>>,
    hash: Seq<char>,
    existing: Option<(i64, Seq<char>)>,
    provider_id: i64,
    model_id: Seq<char>,
    current_hash: Option<Seq<char>>,
) -> Option<ErrorView> {
    if hashes.contains(hash) || !is_available(existing, provider_id, model_id) {
        Some(collision(hash))
    } else {
        match current_hash {
            Some(current) => if current != hash {
                Some(
                    ErrorView::Config(
                        "model "@ + model_id
                            + " already exists with a different endpoint type; edit it instead"@,
                    ),
                )
            } else {
                None
            },
            None => None,
        }
    }
}

impl HashBatch {
    /// No digest stands twice.
    pub open spec fn wf(self) -> bool {
        self@.no_duplicates()
    }

    /// A batch without digests.
    pub fn new() -> (r: Self)
        ensures
            r.wf(),
            r@ == Seq::<Seq<char>>::empty(),
    {
        let r = HashBatch { hashes: Vec::new() };
        assert(r@ =~= Seq::<Seq<char>>::empty());
        r
    }

    /// Takes the digest of the next model, whose name is `model_id`, unless something is wrong with
    /// it. `current_hash` is the digest that the store has for a model of that name, where that
    /// matters.
    pub fn accept(
        &mut self,
        hash: String,
        existing: &Option<(i64, String)>,
        provider_id: i64,
        model_id: &str,
        current_hash: &Option<String>,
    ) -> (r: Option<Error>)
        requires
            old(self).wf(),
        ensures
            final(self).wf(),
            data::option_view(r) == next_hash_error(
                old(self)@,
                hash@,
                taken_by(*existing),
                provider_id,
                model_id@,
                data::option_view(*current_hash),
            ),
            final(self)@ == (if r is None {
                old(self)@.push(hash@)
            } else {
                old(self)@
            }),
    {
        let ghost all = self@;
        let mut i: usize = 0;
        while i < self.hashes.len()
            invariant
                i <= self.hashes@.len(),
                *self == *old(self),
                old(self).wf(),
                all == self@,
                forall|k: int| 0 <= k < i ==> #[trigger] all[k] != hash@,
            decreases self.hashes@.len() - i,
        {
            assert(all[i as int] == self.hashes@[i as int]@);
            if text::same(self.hashes[i].as_str(), hash.as_str()) {
                assert(all.contains(hash@));
                return Some(
                    Error::Config(text::concat("8-character model hash collision: ", hash.as_str())),
                );
            }
            i += 1;
        }
        assert(!all.contains(hash@)) by {
            assert(all.len() == self.hashes@.len());
        }
        match check_hash_available(hash.as_str(), existing, provider_id, model_id) {
            Some(error) => {
                return Some(error);
            },
            None => {},
        }
        match current_hash {
            Some(current) => {
                if !text::same(current.as_str(), hash.as_str()) {
                    return Some(
                        Error::Config(
                            text::concat3(
                                "model ",
                                model_id,
                                " already exists with a different endpoint type; edit it instead",
                            ),
                        ),
                    );
                }
            },
            None => {},
        }
        self.hashes.push(hash);
        assert(self@ =~= all.push(hash@));
        None
    }

    /// The digests, in the order of the models.
    pub fn into_hashes(self) -> (r: Vec<String>)
        ensures
            data::views(r@) == self@,
    {
        self.hashes
    }
}

/// What a change of a model does: whether it gets another digest, in which case the calls that were
/// made of it are no longer counted as its own.
pub open spec fn model_change(
    current_hash: Seq<char>,
    next_hash: Seq<char>,
    existing: Option<(i64, Seq<char>)>,
    provider_id: i64,
    model_id: Seq<char>,
) -> Result<bool, ErrorView> {
    if next_hash == current_hash {
        Ok(false)
    } else {
        match taken_error(next_hash, existing, provider_id, model_id) {
            Some(error) => Err(error),
            None => Ok(true),
        }
    }
}

/// What a change of a model does, given its new digest and the model that has that already.
pub fn change_model(
    current_hash: &str,
    next_hash: &str,
    existing: &Option<(i64, String)>,
    provider_id: i64,
    model_id: &str,
) -> (r: Result<bool, Error>)
    ensures
        (match r {
            Ok(changed) => Ok(changed),
            Err(e) => Err(e@),
        }) == model_change(current_hash@, next_hash@, taken_by(*existing), provider_id, model_id@),
{
    if text::same(next_hash, current_hash) {
        return Ok(false);
    }
    match check_hash_available(next_hash, existing, provider_id, model_id) {
        Some(error) => Err(error),
        None => Ok(true),
    }
}

/// The error that something that does not exist is reported with.
pub open spec fn provider_missing(provider_id: int) -> ErrorView {
    ErrorView::RunNotFound("provider "@ + text::decimal_int(provider_id))
}

/// The error that a provider that does not exist is reported with.
pub fn missing_provider(provider_id: i64) -> (r: Error)
    ensures
        r@ == provider_missing(provider_id as int),
{
    Error::RunNotFound(text::concat("provider ", text::decimal_i64(provider_id).as_str()))
}

/// The error that a model that does not exist is reported with.
pub fn missing_model(hash: &str) -> (r: Error)
    ensures
        r@ == ErrorView::RunNotFound("model "@ + hash@),
{
    Error::RunNotFound(text::concat("model ", hash))
}

/// What a deletion of a provider came to, by how many rows it took out.
pub fn check_provider_deleted(provider_id: i64, rows: u64) -> (r: Option<Error>)
    ensures
        data::option_view(r) == (if rows == 0 {
            Some(provider_missing(provider_id as int))
        } else {
            None
        }),
{
    if rows == 0 {
        Some(missing_provider(provider_id))
    } else {
        None
    }
}

/// What a deletion of a model came to, by how many rows it took out.
pub fn check_model_deleted(hash: &str, rows: u64) -> (r: Option<Error>)
    ensures
        data::option_view(r) == (if rows == 0 {
            Some(ErrorView::RunNotFound("model "@ + hash@))
        } else {
            None
        }),
{
    if rows == 0 {
        Some(missing_model(hash))
    } else {
        None
    }
}

/// Headers whose empty values are filled with those that are kept: the first that has none to keep
/// is an error.
pub open spec fn merged_headers(
    current: Seq<(Seq<char>, JsonView)>,
    update: Seq<(Seq<char>, JsonView)>,
) -> Result<Seq<(Seq<char>, JsonView)>, ErrorView>
    decreases update.len(),
{
    if update.len() == 0 {
        Ok(Seq::empty())
    } else {
        let (name, value) = update.last();
        match merged_headers(current, update.drop_last()) {
            Err(error) => Err(error),
            Ok(rest) => if value == JsonView::Null {
                match json::member(current, name) {
                    Some(kept) => Ok(rest.push((name, kept))),
                    None => Err(
                        ErrorView::Config(
                            "custom header "@ + name + " has no existing value to retain"@,
                        ),
                    ),
                }
            } else {
                Ok(rest.push((name, value)))
            },
        }
    }
}

/// The headers of a provider after a change.
pub open spec fn merged(current: JsonView, update: JsonView) -> Result<JsonView, ErrorView> {
    match update {
        JsonView::Object(members) => match merged_headers(current->Object_0, members) {
            Ok(members) => Ok(JsonView::Object(members)),
            Err(error) => Err(error),
        },
        _ => Err(ErrorView::Config("custom headers must be a JSON object"@)),
    }
}

/// Whether a value is null.
fn is_null(value: &Json) -> (r: bool)
    ensures
        r == (value@ == JsonView::Null),
{
    match value {
        Json::Null => true,
        _ => false,
    }
}

/// The headers of a provider after a change: a header without a value keeps the one that it has.
pub fn merge_custom_headers(current: &Json, update: &Json) -> (r: Result<Json, Error>)
    requires
        current@ is Object,
    ensures
        result_view(r) == merged(current@, update@),
{
    broadcast use json::lemma_view;

    let members = match update {
        Json::Object(members) => members,
        _ => {
            return Err(Error::Config("custom headers must be a JSON object".to_owned()));
        },
    };
    let ghost all = json::member_views(members@);
    let ghost kept = current@->Object_0;
    let mut out: Vec<(String, Json)> = Vec::new();
    let mut i: usize = 0;
    assert(all.take(0) =~= Seq::empty());
    assert(json::member_views(out@) =~= Seq::empty());
    assert(all.len() == members@.len());
    while i < members.len()
        invariant
            i <= members@.len(),
            all == json::member_views(members@),
            all.len() == members@.len(),
            current@ == JsonView::Object(kept),
            update@ == JsonView::Object(all),
            merged_headers(kept, all.take(i as int)) == Ok::<Seq<(Seq<char>, JsonView)>, ErrorView>(
                json::member_views(out@),
            ),
        decreases members@.len() - i,
    {
        let (name, value) = &members[i];
        let ghost taken = all.take(i + 1);
        assert(taken.drop_last() =~= all.take(i as int));
        assert(taken.last() == (name@, value@));
        let ghost before = json::member_views(out@);
        if is_null(value) {
            match current.get(name.as_str()) {
                Some(stored) => {
                    let stored = stored.copy();
                    json::put(&mut out, name.as_str(), stored);
                },
                None => {
                    proof {
                        lemma_merge_error_stays(kept, all, i + 1);
                    }
                    return Err(
                        Error::Config(
                            text::concat3(
                                "custom header ",
                                name.as_str(),
                                " has no existing value to retain",
                            ),
                        ),
                    );
                },
            }
        } else {
            json::put(&mut out, name.as_str(), value.copy());
        }
        i += 1;
    }
    assert(all.take(i as int) =~= all);
    Ok(json::object(out))
}

/// An error among the first headers is the error of all.
proof fn lemma_merge_error_stays(
    current: Seq<(Seq<char>, JsonView)>,
    update: Seq<(Seq<char>, JsonView)>,
    n: int,
)
    requires
        0 <= n <= update.len(),
        merged_headers(current, update.take(n)) is Err,
    ensures
        merged_headers(current, update) == merged_headers(current, update.take(n)),
    decreases update.len() - n,
{
    if n < update.len() {
        assert(update.drop_last().take(n) =~= update.take(n));
        lemma_merge_error_stays(current, update.drop_last(), n);
    } else {
        assert(update.take(n) =~= update);
    }
}

/// A member is found in the same place with another one behind.
proof fn lemma_member_push(
    members: Seq<(Seq<char>, JsonView)>,
    last: (Seq<char>, JsonView),
    name: Seq<char>,
)
    ensures
        json::member(members.push(last), name) == (match json::member(members, name) {
            Some(value) => Some(value),
            None => if last.0 == name {
                Some(last.1)
            } else {
                None
            },
        }),
    decreases members.len(),
{
    reveal_with_fuel(json::member, 2);
    if members.len() == 0 {
        assert(members.push(last).drop_first() =~= Seq::empty());
    } else {
        lemma_member_push(members.drop_first(), last, name);
        assert(members.push(last).drop_first() =~= members.drop_first().push(last));
    }
}

/// A change of headers gives each header the value that was sent, and one that was sent without a
/// value the one that it had; headers that were not sent are gone.
pub proof fn law_merged_headers(
    current: Seq<(Seq<char>, JsonView)>,
    update: Seq<(Seq<char>, JsonView)>,
    name: Seq<char>,
)
    requires
        merged_headers(current, update) is Ok,
    ensures
        json::member(merged_headers(current, update)->Ok_0, name) == (match json::member(
            update,
            name,
        ) {
            Some(value) => if value == JsonView::Null {
                json::member(current, name)
            } else {
                Some(value)
            },
            None => None,
        }),
        json::member(update, name) == Some(JsonView::Null) ==> json::member(current, name) is Some,
    decreases update.len(),
{
    if update.len() > 0 {
        law_merged_headers(current, update.drop_last(), name);
        let rest = merged_headers(current, update.drop_last())->Ok_0;
        let (last, value) = update.last();
        let whole = merged_headers(current, update)->Ok_0;
        assert(update =~= update.drop_last().push(update.last()));
        lemma_member_push(update.drop_last(), update.last(), name);
        lemma_member_push(rest, whole.last(), name);
        assert(whole =~= rest.push(whole.last()));
    }
}

/// Headers whose secret values are taken out.
pub open spec fn redacted_headers(
    headers: Seq<(Seq<char>, JsonView)>,
    sensitive: Seq<Seq<char>>,
) -> Seq<(Seq<char>, JsonView)> {
    headers.map_values(
        |m: (Seq<char>, JsonView)|
            if sensitive.contains(m.0) {
                (m.0, JsonView::Null)
            } else {
                m
            },
    )
}

/// A value whose secret members are taken out.
pub open spec fn redacted(headers: JsonView, sensitive: Seq<Seq<char>>) -> JsonView {
    match headers {
        JsonView::Object(members) => JsonView::Object(redacted_headers(members, sensitive)),
        other => other,
    }
}

/// The headers of a provider as they are shown: without the values of those that are secret.
pub fn redact_custom_headers(headers: &Json, sensitive: &Vec<String>) -> (r: Json)
    ensures
        r@ == redacted(headers@, data::views(sensitive@)),
{
    broadcast use json::lemma_view;

    match headers {
        Json::Object(members) => {
            let ghost all = json::member_views(members@);
            let ghost names = data::views(sensitive@);
            let ghost wanted = redacted_headers(all, names);
            let mut out: Vec<(String, Json)> = Vec::new();
            let mut i: usize = 0;
            assert(json::member_views(out@) =~= wanted.take(0));
            while i < members.len()
                invariant
                    i <= members@.len(),
                    all == json::member_views(members@),
                    names == data::views(sensitive@),
                    wanted == redacted_headers(all, names),
                    json::member_views(out@) == wanted.take(i as int),
                decreases members@.len() - i,
            {
                let (name, value) = &members[i];
                assert(all[i as int] == (name@, value@));
                let shown = if data::lists(sensitive, name.as_str()) {
                    Json::Null
                } else {
                    value.copy()
                };
                json::put(&mut out, name.as_str(), shown);
                i += 1;
                assert(wanted.take(i as int) =~= wanted.take(i - 1).push(wanted[i - 1]));
            }
            assert(wanted.take(i as int) =~= wanted);
            json::object(out)
        },
        other => other.copy(),
    }
}

/// The first member of a name is shown, or taken out, as itself.
proof fn lemma_redacted_member(
    headers: Seq<(Seq<char>, JsonView)>,
    sensitive: Seq<Seq<char>>,
    name: Seq<char>,
)
    ensures
        json::member(redacted_headers(headers, sensitive), name) == (match json::member(
            headers,
            name,
        ) {
            Some(value) => Some(
                if sensitive.contains(name) {
                    JsonView::Null
                } else {
                    value
                },
            ),
            None => None,
        }),
    decreases headers.len(),
{
    if headers.len() > 0 {
        lemma_redacted_member(headers.drop_first(), sensitive, name);
        assert(redacted_headers(headers, sensitive).drop_first() =~= redacted_headers(
            headers.drop_first(),
            sensitive,
        ));
    }
}

/// The value of a secret header is never shown.
pub proof fn law_secret_headers_are_not_shown(
    headers: Seq<(Seq<char>, JsonView)>,
    sensitive: Seq<Seq<char>>,
    name: Seq<char>,
)
    requires
        sensitive.contains(name),
    ensures
        ({
            let shown = json::member(redacted_headers(headers, sensitive), name);
            shown is None || shown == Some(JsonView::Null)
        }),
{
    lemma_redacted_member(headers, sensitive, name);
}

/// Headers that are sent back as they were shown are kept as they are, secrets included.
pub proof fn law_shown_headers_merge_back(
    headers: Seq<(Seq<char>, JsonView)>,
    sensitive: Seq<Seq<char>>,
    name: Seq<char>,
)
    ensures
        merged_headers(headers, redacted_headers(headers, sensitive)) is Ok,
        json::member(
            merged_headers(headers, redacted_headers(headers, sensitive))->Ok_0,
            name,
        ) == json::member(headers, name),
{
    lemma_redacted_merges(headers, headers, sensitive);
    law_merged_headers(headers, redacted_headers(headers, sensitive), name);
    lemma_redacted_member(headers, sensitive, name);
}

/// Some headers, as they are shown, can be merged into headers that hold them.
proof fn lemma_redacted_merges(
    current: Seq<(Seq<char>, JsonView)>,
    part: Seq<(Seq<char>, JsonView)>,
    sensitive: Seq<Seq<char>>,
)
    requires
        forall|i: int|
            0 <= i < part.len() ==> json::member(current, #[trigger] part[i].0) is Some || exists|
                k: int,
            |
                0 <= k < current.len() && #[trigger] current[k].0 == part[i].0,
    ensures
        merged_headers(current, redacted_headers(part, sensitive)) is Ok,
    decreases part.len(),
{
    let shown = redacted_headers(part, sensitive);
    if part.len() > 0 {
        let rest = part.drop_last();
        assert forall|i: int| 0 <= i < rest.len() implies json::member(
            current,
            #[trigger] rest[i].0,
        ) is Some || exists|k: int| 0 <= k < current.len() && #[trigger] current[k].0
            == rest[i].0 by {
            assert(rest[i] == part[i]);
        }
        lemma_redacted_merges(current, rest, sensitive);
        assert(shown.drop_last() =~= redacted_headers(rest, sensitive));
        let i = part.len() - 1;
        assert(shown.last().0 == part[i].0);
        if json::member(current, part[i].0) is None {
            let k = choose|k: int| 0 <= k < current.len() && #[trigger] current[k].0 == part[i].0;
            lemma_member_found(current, k);
        }
    }
}

/// A name that some member has is found.
proof fn lemma_member_found(members: Seq<(Seq<char>, JsonView)>, k: int)
    requires
        0 <= k < members.len(),
    ensures
        json::member(members, members[k].0) is Some,
    decreases members.len(),
{
    if k > 0 {
        lemma_member_found(members.drop_first(), k - 1);
    }
}

/// A provider as it is shown, from its row.
pub open spec fn shown_endpoint(
    row: ProviderRowView,
    sensitive: Seq<Seq<char>>,
) -> ProviderEndpointView {
    ProviderEndpointView {
        provider_id: row.provider_id,
        name: row.name,
        provider_type: row.provider_type,
        base_url: row.base_url,
        api_key: if row.api_key.len() > 0 {
            Some(row.api_key)
        } else {
            None
        },
        has_api_key: row.api_key.len() > 0,
        custom_headers: redacted(row.custom_headers, sensitive),
        extra_params: row.extra_params,
        created_at_ms: row.created_at_ms,
        updated_at_ms: row.updated_at_ms,
    }
}

/// A provider as it is shown, from its row. `sensitive` names the headers that are secret.
pub fn endpoint_from_row(row: &ProviderRow, sensitive: &Vec<String>) -> (r: ProviderEndpoint)
    ensures
        r@ == shown_endpoint(row@, data::views(sensitive@)),
{
    let has_api_key = !row.api_key.as_str().is_empty();
    ProviderEndpoint {
        provider_id: row.provider_id,
        name: row.name.clone(),
        provider_type: row.provider_type,
        base_url: row.base_url.clone(),
        api_key: if has_api_key {
            Some(row.api_key.clone())
        } else {
            None
        },
        has_api_key,
        custom_headers: redact_custom_headers(&row.custom_headers, sensitive),
        extra_params: row.extra_params.copy(),
        created_at_ms: row.created_at_ms,
        updated_at_ms: row.updated_at_ms,
    }
}

/// What a change makes of a provider's row, and whether its models need new digests.
#[derive(Debug)]
pub struct ProviderUpdate {
    pub name: String,
    pub provider_type: ProviderType,
    pub base_url: String,
    pub api_key: String,
    pub custom_headers: Json,
    pub extra_params: Json,
    pub identity_changed: bool,
}

#[verifier::ext_equal]
pub struct ProviderUpdateView {
    pub name: Seq<char>,
    pub provider_type: ProviderType,
    pub base_url: Seq<char>,
    pub api_key: Seq<char>,
    pub custom_headers: JsonView,
    pub extra_params: JsonView,
    pub identity_changed: bool,
}

impl View for ProviderUpdate {
    type V = ProviderUpdateView;

    open spec fn view(&self) -> ProviderUpdateView {
        ProviderUpdateView {
            name: self.name@,
            provider_type: self.provider_type,
            base_url: self.base_url@,
            api_key: self.api_key@,
            custom_headers: self.custom_headers@,
            extra_params: self.extra_params@,
            identity_changed: self.identity_changed,
        }
    }
}

/// The key after a change: the one that was sent, or else the one that there is.
pub open spec fn next_key(current: Seq<char>, sent: Option<Seq<char>>) -> Seq<char> {
    match sent {
        Some(key) => key,
        None => current,
    }
}

/// What a change makes of a provider: an address or a key that differs gives its models new
/// digests.
pub open spec fn updated_provider(
    current: ProviderRowView,
    input: ProviderEndpointInputView,
    base_url: Seq<char>,
) -> Result<ProviderUpdateView, ErrorView> {
    let api_key = next_key(current.api_key, input.api_key);
    match merged(current.custom_headers, input.custom_headers) {
        Err(error) => Err(error),
        Ok(custom_headers) => Ok(
            ProviderUpdateView {
                name: text::trimmed(input.name),
                provider_type: input.provider_type,
                base_url,
                api_key,
                custom_headers,
                extra_params: input.extra_params,
                identity_changed: base_url != current.base_url || api_key != current.api_key,
            },
        ),
    }
}

/// What a change makes of a provider, given its address as it is kept.
pub fn update_provider(
    current: &ProviderRow,
    input: &ProviderEndpointInput,
    base_url: String,
) -> (r: Result<ProviderUpdate, Error>)
    requires
        current.custom_headers@ is Object,
    ensures
        result_view(r) == updated_provider(current@, input@, base_url@),
{
    let api_key = match &input.api_key {
        Some(key) => key.clone(),
        None => current.api_key.clone(),
    };
    match merge_custom_headers(&current.custom_headers, &input.custom_headers) {
        Err(error) => Err(error),
        Ok(custom_headers) => {
            let identity_changed = !text::same(base_url.as_str(), current.base_url.as_str())
                || !text::same(api_key.as_str(), current.api_key.as_str());
            Ok(
                ProviderUpdate {
                    name: text::trim(input.name.as_str()),
                    provider_type: input.provider_type,
                    base_url,
                    api_key,
                    custom_headers,
                    extra_params: input.extra_params.copy(),
                    identity_changed,
                },
            )
        },
    }
}

/// A change that sends neither a key nor another address leaves the models of a provider as they
/// are.
pub proof fn law_unchanged_identity_keeps_models(
    current: ProviderRowView,
    input: ProviderEndpointInputView,
)
    requires
        input.api_key is None || input.api_key == Some(current.api_key),
        updated_provider(current, input, current.base_url) is Ok,
    ensures
        !updated_provider(current, input, current.base_url)->Ok_0.identity_changed,
        updated_provider(current, input, current.base_url)->Ok_0.api_key == current.api_key,
{
}

/// A model whose provider changed its identity: it has a new digest, and all else that it had.
pub fn rehashed_model(model: &ProviderModel, hash: String, now_ms: i64) -> (r: ProviderModel)
    ensures
        r@ == (ProviderModelView { model_hash: hash@, updated_at_ms: now_ms, ..model@ }),
{
    ProviderModel {
        model_hash: hash,
        provider_id: model.provider_id,
        model_id: model.model_id.clone(),
        display_name: model.display_name.clone(),
        endpoint_type: model.endpoint_type,
        request_url: model.request_url.clone(),
        enabled: model.enabled,
        sort_order: model.sort_order,
        context_window_tokens: model.context_window_tokens,
        max_output_tokens: model.max_output_tokens,
        reasoning_enabled: model.reasoning_enabled,
        reasoning_effort: data::duplicate_option(&model.reasoning_effort),
        supports_image_generation: model.supports_image_generation,
        created_at_ms: model.created_at_ms,
        updated_at_ms: now_ms,
    }
}

/// A model as the user asks for it, as its row will hold it.
pub open spec fn model_row(
    provider_id: i64,
    hash: Seq<char>,
    input: ProviderModelInputView,
    created_at_ms: i64,
    updated_at_ms: i64,
) -> ProviderModelView {
    ProviderModelView {
        model_hash: hash,
        provider_id,
        model_id: text::trimmed(input.model_id),
        display_name: text::trimmed(input.display_name),
        endpoint_type: input.endpoint_type,
        request_url: text::trimmed(input.request_url),
        enabled: input.enabled,
        sort_order: input.sort_order,
        context_window_tokens: input.context_window_tokens,
        max_output_tokens: input.max_output_tokens,
        reasoning_enabled: input.reasoning_enabled,
        reasoning_effort: input.reasoning_effort,
        supports_image_generation: input.supports_image_generation,
        created_at_ms,
        updated_at_ms,
    }
}

/// A model as the user asks for it, as its row will hold it.
pub fn row_of_model(
    provider_id: i64,
    hash: String,
    input: &ProviderModelInput,
    created_at_ms: i64,
    updated_at_ms: i64,
) -> (r: ProviderModel)
    ensures
        r@ == model_row(provider_id, hash@, input@, created_at_ms, updated_at_ms),
{
    ProviderModel {
        model_hash: hash,
        provider_id,
        model_id: text::trim(input.model_id.as_str()),
        display_name: text::trim(input.display_name.as_str()),
        endpoint_type: input.endpoint_type,
        request_url: text::trim(input.request_url.as_str()),
        enabled: input.enabled,
        sort_order: input.sort_order,
        context_window_tokens: input.context_window_tokens,
        max_output_tokens: input.max_output_tokens,
        reasoning_enabled: input.reasoning_enabled,
        reasoning_effort: data::duplicate_option(&input.reasoning_effort),
        supports_image_generation: input.supports_image_generation,
        created_at_ms,
        updated_at_ms,
    }
}

/// A provider is acceptable where it has a name, its headers and parameters are objects, and its
/// address could be normalised; and only there.
pub proof fn law_acceptable_providers(
    input: ProviderEndpointInputView,
    normalized: Result<Seq<char>, ErrorView>,
)
    ensures
        endpoint_error(input, normalized) is None <==> text::trimmed(input.name).len() > 0
            && input.custom_headers is Object && input.extra_params is Object && normalized is Ok,
        text::trimmed(input.name).len() > 0 && input.custom_headers is Object
            && input.extra_params is Object && normalized is Err ==> endpoint_error(
            input,
            normalized,
        ) == Some(normalized->Err_0),
{
}

/// Models are acceptable together where there are any, each has a name to show and a name of its own
/// to be asked by, and its address is right; and only there.
pub proof fn law_acceptable_models(
    inputs: Seq<ProviderModelInputView>,
    address_errors: Seq<Option<ErrorView>>,
)
    requires
        inputs.len() == address_errors.len(),
    ensures
        batch_error(inputs, address_errors) is None <==> inputs.len() > 0 && (forall|i: int|
            0 <= i < inputs.len() ==> text::trimmed((#[trigger] inputs[i]).display_name).len() > 0
                && text::trimmed(inputs[i].model_id).len() > 0 && address_errors[i] is None) && (
        forall|k: int, i: int|
            0 <= k < i < inputs.len() ==> text::trimmed((#[trigger] inputs[k]).model_id)
                != text::trimmed((#[trigger] inputs[i]).model_id)),
{
    lemma_no_error_from(inputs, address_errors, 0);
    if batch_error(inputs, address_errors) is None {
        assert forall|i: int| 0 <= i < inputs.len() implies text::trimmed(
            (#[trigger] inputs[i]).display_name,
        ).len() > 0 && text::trimmed(inputs[i].model_id).len() > 0 && address_errors[i] is None by {
            assert(batch_error_at(inputs, address_errors, i) is None);
        }
        assert forall|k: int, i: int| 0 <= k < i < inputs.len() implies text::trimmed(
            (#[trigger] inputs[k]).model_id,
        ) != text::trimmed((#[trigger] inputs[i]).model_id) by {
            law_accepted_models_are_distinct(inputs, address_errors, i, k);
        }
    } else if inputs.len() > 0 {
        let i = choose|i: int|
            0 <= i < inputs.len() && #[trigger] batch_error_at(inputs, address_errors, i) is Some;
        if model_error(inputs[i], address_errors[i]) is None {
            let k = choose|k: int|
                0 <= k < i && #[trigger] text::trimmed(inputs[k].model_id) == text::trimmed(
                    inputs[i].model_id,
                );
            assert(text::trimmed(inputs[k].model_id) == text::trimmed(inputs[i].model_id));
        }
    }
}

proof fn lemma_no_error_from(
    inputs: Seq<ProviderModelInputView>,
    address_errors: Seq<Option<ErrorView>>,
    from: int,
)
    requires
        0 <= from <= inputs.len(),
    ensures
        first_batch_error(inputs, address_errors, from) is None <==> forall|i: int|
            from <= i < inputs.len() ==> #[trigger] batch_error_at(
                inputs,
                address_errors,
                i,
            ) is None,
    decreases inputs.len() - from,
{
    if from < inputs.len() {
        lemma_no_error_from(inputs, address_errors, from + 1);
    }
}

/// What is shown of a provider is what its row holds; a key is shown only where there is one.
pub proof fn law_provider_is_shown_as_it_is(row: ProviderRowView, sensitive: Seq<Seq<char>>)
    ensures
        ({
            let shown = shown_endpoint(row, sensitive);
            &&& shown.provider_id == row.provider_id
            &&& shown.name == row.name
            &&& shown.provider_type == row.provider_type
            &&& shown.base_url == row.base_url
            &&& shown.extra_params == row.extra_params
            &&& shown.created_at_ms == row.created_at_ms
            &&& shown.updated_at_ms == row.updated_at_ms
            &&& shown.has_api_key == (row.api_key.len() > 0)
            &&& row.api_key.len() > 0 ==> shown.api_key == Some(row.api_key)
            &&& row.api_key.len() == 0 ==> shown.api_key is None
        }),
{
}

/// A change gives a provider what was sent: the name without space around it, the kind, the address
/// and the parameters. A key that was not sent stays. The models need new digests exactly where the
/// address or the key is another one.
pub proof fn law_provider_becomes_what_was_sent(
    current: ProviderRowView,
    input: ProviderEndpointInputView,
    base_url: Seq<char>,
)
    requires
        updated_provider(current, input, base_url) is Ok,
    ensures
        ({
            let next = updated_provider(current, input, base_url)->Ok_0;
            &&& next.name == text::trimmed(input.name)
            &&& next.provider_type == input.provider_type
            &&& next.base_url == base_url
            &&& next.extra_params == input.extra_params
            &&& input.api_key matches Some(key) ==> next.api_key == key
            &&& input.api_key is None ==> next.api_key == current.api_key
            &&& next.identity_changed <==> next.base_url != current.base_url || next.api_key
                != current.api_key
        }),
{
}

/// A model is kept as it was asked for, its names and its address without space around them.
pub proof fn law_model_is_kept_as_asked(
    provider_id: i64,
    hash: Seq<char>,
    input: ProviderModelInputView,
    created_at_ms: i64,
    updated_at_ms: i64,
)
    ensures
        ({
            let row = model_row(provider_id, hash, input, created_at_ms, updated_at_ms);
            &&& row.model_hash == hash
            &&& row.provider_id == provider_id
            &&& row.model_id == text::trimmed(input.model_id)
            &&& row.display_name == text::trimmed(input.display_name)
            &&& row.request_url == text::trimmed(input.request_url)
            &&& row.endpoint_type == input.endpoint_type
            &&& row.enabled == input.enabled
            &&& row.sort_order == input.sort_order
            &&& row.context_window_tokens == input.context_window_tokens
            &&& row.max_output_tokens == input.max_output_tokens
            &&& row.reasoning_enabled == input.reasoning_enabled
            &&& row.reasoning_effort == input.reasoning_effort
            &&& row.supports_image_generation == input.supports_image_generation
            &&& row.created_at_ms == created_at_ms
            &&& row.updated_at_ms == updated_at_ms
        }),
{
}

/// A digest is taken in where neither this batch nor another model has it, and where the model is not
/// known by another one.
pub proof fn law_digests_stay_unique(
    hashes: Seq<Seq<char>>,
    hash: Seq<char>,
    existing: Option<(i64, Seq<char>)>,
    provider_id: i64,
    model_id: Seq<char>,
    current_hash: Option<Seq<char>>,
)
    ensures
        next_hash_error(hashes, hash, existing, provider_id, model_id, current_hash) is None <==> !(
        exists|i: int| 0 <= i < hashes.len() && hashes[i] == hash) && (existing is None || existing
            == Some((provider_id, model_id))) && (current_hash is None || current_hash == Some(
            hash,
        )),
        model_change(hash, hash, existing, provider_id, model_id) == Ok::<bool, ErrorView>(false),
        current_hash matches Some(current) ==> current != hash ==> {
            &&& existing is None ==> model_change(current, hash, existing, provider_id, model_id)
                == Ok::<bool, ErrorView>(true)
            &&& existing is Some && existing != Some((provider_id, model_id)) ==> model_change(
                current,
                hash,
                existing,
                provider_id,
                model_id,
            ) is Err
        },
{
}

/// A model of a batch is accepted if and only if its digest is new to the batch, no other model of the
/// store has it, and the store has the model under no other digest.
pub proof fn law_batches_hold_no_digest_twice(
    hashes: Seq<Seq<char>>,
    hash: Seq<char>,
    existing: Option<(i64, Seq<char>)>,
    provider_id: i64,
    model_id: Seq<char>,
    current_hash: Option<Seq<char>>,
)
    ensures
        next_hash_error(hashes, hash, existing, provider_id, model_id, current_hash) is None <==> (
        !hashes.contains(hash) && is_available(existing, provider_id, model_id) && (
        current_hash is None || current_hash == Some(hash))),
{
}

} // verus!
