use cursor_server::error::Error;
use cursor_server::harness::proxy::{
    is_cursor_host, is_local_path, relay, retries_other_port, should_route_locally, ProxyRuntime,
    Relay, RequestTarget,
};
use cursor_server::json;
use cursor_server::json::Json;
use cursor_server::model::ids::{RevisionId, RunId};
use cursor_server::model::llm_call::ProviderType;
use cursor_server::model::message::{
    CanonicalMessage, MessageContent, Origin, ProviderReplayState, Role, ToolCallContent,
};
use cursor_server::model::usage::Usage;
use cursor_server::network::{outbound, ClientCache, ClientUse, Outbound};
use cursor_server::provider::event::{FinishReason, ModelEvent};
use cursor_server::provider::recorder::{
    cancelled, completed, error_kind, failed, recorded_headers, CallRecorder, FollowUp,
    RequestHeader, MAX_BUFFER_AGE_NS,
};
use cursor_server::provider::retry::{is_success, AfterRefusal, RetryPolicy, Sending};
use cursor_server::store::legacy_config::{
    check_file, import_plan, legacy_request_configuration, model_input, LegacyModel, ModelType,
    OPENAI_CHAT_ENDPOINT, OPENAI_RESPONSES_ENDPOINT,
};
use cursor_server::store::llm_calls::{
    as_i64, call_limit, shown_chunk, stored_count, usage_anchor, usage_columns,
};
use cursor_server::store::overview::{
    overview_metrics, range_is_shown, recorded_bucket, series_query_start, token_usage_buckets,
    token_usage_series, TokenUsageGranularity, DAY_MS, HOUR_MS, MINUTE_MS, OVERVIEW_DAYS,
};
use cursor_server::store::providers::{
    change_model, check_model_deleted, check_provider_deleted, endpoint_from_row,
    merge_custom_headers, redact_custom_headers, rehashed_model, row_of_model,
    tokens_from_column, tokens_to_column, update_provider, validate_endpoint,
    validate_model_batch, HashBatch, ProviderEndpointInput, ProviderModelInput, ProviderRow,
};
use cursor_server::store::revisions::{
    append_message_once, import_revision, message_digest, on_head, on_moved, on_state, start_write,
    ImportPlan, PrefixMatch, RevisionWrite, WriteStep,
};
use cursor_server::store::settings::{
    check_installation, new_installation, set_proxy_settings, set_tab_settings, DesktopSettings,
    PortSettings, ProxyMode, ProxySettingsInput, ProxySettingsSecret, TabMode, TabSettings,
    PUBLIC_TAB_SERVICE_URL,
};

#[test]
fn limits_interception_to_cursor_hosts_and_local_paths() {
    assert!(is_cursor_host("api2.cursor.sh"));
    assert!(is_cursor_host("repo42.cursor.sh"));
    assert!(!is_cursor_host("example.com"));
    assert!(is_local_path("/agent.v1.AgentService/RunSSE"));
    assert!(is_local_path("/aiserver.v1.AnalyticsService/BootstrapStatsig"));
    assert!(is_local_path("/aiserver.v1.AiService/KnowledgeBaseAdd"));
    assert!(is_local_path("/aiserver.v1.AiService/KnowledgeBaseList"));
    assert!(is_local_path("/aiserver.v1.AiService/KnowledgeBaseUpdate"));
    assert!(is_local_path("/aiserver.v1.AiService/KnowledgeBaseRemove"));
    assert!(!is_local_path("/unrelated"));
    assert!(should_route_locally("/aiserver.v1.AiService/StreamCpp", TabMode::Public));
    assert!(should_route_locally("/aiserver.v1.AiService/StreamCpp", TabMode::Custom));
    assert!(!should_route_locally("/aiserver.v1.AiService/StreamCpp", TabMode::Direct));
}

#[test]
fn hosts_are_known_in_any_case_and_with_dots_behind_them() {
    assert!(is_cursor_host("API3.Cursor.SH.."));
    assert!(!is_cursor_host("cursor.sh.example.com"));
    assert!(!is_cursor_host("cursor.sh"));
}

fn request(host: Option<&str>, path: &str) -> RequestTarget {
    RequestTarget {
        whole: format!("https://{}{path}?a=1", host.unwrap_or_default()),
        host: host.map(str::to_owned),
        path: path.into(),
        path_and_query: Some(format!("{path}?a=1")),
    }
}

#[test]
fn local_requests_of_the_editor_are_sent_to_the_server() {
    let target = request(Some("api2.cursor.sh"), "/auth/full_stripe_profile");
    let Relay::Local { upstream, target } = relay(&target, "127.0.0.1:9", TabMode::Public) else {
        panic!("expected a local relay");
    };
    assert_eq!(upstream, "https://api2.cursor.sh/auth/full_stripe_profile?a=1");
    assert_eq!(target, "http://127.0.0.1:9/auth/full_stripe_profile?a=1");
    let other = request(Some("example.com"), "/auth/full_stripe_profile");
    assert!(matches!(relay(&other, "127.0.0.1:9", TabMode::Public), Relay::Untouched));
    let unnamed = request(None, "/auth/full_stripe_profile");
    assert!(matches!(relay(&unnamed, "127.0.0.1:9", TabMode::Public), Relay::Untouched));
}

#[test]
fn the_proxy_answers_a_second_start_with_the_first() {
    let mut runtime = ProxyRuntime::default();
    assert!(!runtime.running());
    assert_eq!(runtime.started(), None);
    assert_eq!(
        runtime.on_started("127.0.0.1:8080", 8080, 1),
        ("http://127.0.0.1:8080".to_string(), 8080)
    );
    assert_eq!(runtime.started(), Some(("http://127.0.0.1:8080".to_string(), 8080)));
    runtime.on_finished(2);
    assert!(runtime.running());
    runtime.on_finished(1);
    assert_eq!(runtime.url(), None);
    assert_eq!(runtime.stop(), Some(1));
    assert_eq!(runtime.stop(), None);
    assert!(retries_other_port(8080));
    assert!(!retries_other_port(0));
}

#[test]
fn clients_are_kept_by_what_they_are_for() {
    let mut cache = ClientCache::default();
    assert_eq!(cache.get(ClientUse::General), None);
    cache.insert(ClientUse::General, 1);
    cache.insert(ClientUse::Provider { timeout_ms: 10 }, 2);
    assert_eq!(cache.get(ClientUse::General), Some(1));
    assert_eq!(cache.get(ClientUse::Cursor), None);
    assert_eq!(cache.get(ClientUse::Provider { timeout_ms: 10 }), Some(2));
    assert_eq!(cache.get(ClientUse::Provider { timeout_ms: 20 }), None);
    cache.invalidate();
    assert_eq!(cache.get(ClientUse::General), None);
}

#[test]
fn default_settings_are_those_of_a_fresh_installation() {
    assert_eq!(PortSettings::default(), PortSettings { proxy_port: 0, service_port: 0 });
    let ports = PortSettings { proxy_port: 18_080, service_port: 18_081 };
    assert_eq!(ports.set_service_port(1), PortSettings { proxy_port: 18_080, service_port: 1 });
    assert_eq!(ports.set_proxy_port(1), PortSettings { proxy_port: 1, service_port: 18_081 });
    assert_eq!(TabSettings::default().service_url(), Some(PUBLIC_TAB_SERVICE_URL));
    let direct = TabSettings { mode: TabMode::Direct, address: "x".into() };
    assert_eq!(direct.service_url(), None);
    let custom = TabSettings { mode: TabMode::Custom, address: "x".into() };
    assert_eq!(custom.service_url(), Some("x"));
    assert!(!DesktopSettings::default().silent_start);
    assert!(!ProxyMode::default().is_custom());
    assert!(ProxyMode::Custom.is_custom());
}

fn proxy(address: &str, password: Option<&str>) -> ProxySettingsInput {
    ProxySettingsInput {
        mode: ProxyMode::Custom,
        address: address.into(),
        auth_enabled: true,
        username: "user".into(),
        password: password.map(str::to_owned),
    }
}

#[test]
fn proxy_settings_are_write_only_and_preserve_an_unchanged_password() {
    let saved = set_proxy_settings(
        ProxySettingsSecret::default(),
        proxy("socks5h://127.0.0.1:1080", Some("secret")),
    )
    .unwrap();
    assert!(saved.shown().has_password);
    let saved = set_proxy_settings(saved, proxy("http://127.0.0.1:8080", None)).unwrap();
    assert_eq!(saved.password, "secret");
    let Outbound::Custom { address, auth } = outbound(&saved) else {
        panic!("expected a proxy");
    };
    assert_eq!(address, "http://127.0.0.1:8080");
    assert_eq!(auth, Some(("user".to_string(), "secret".to_string())));
    let off = ProxySettingsInput { auth_enabled: false, ..proxy("http://127.0.0.1:8080", None) };
    let saved = set_proxy_settings(saved, off).unwrap();
    assert_eq!(saved.password, "");
    assert!(matches!(outbound(&saved), Outbound::Custom { auth: None, .. }));
}

#[test]
fn proxy_addresses_are_checked() {
    let refused = |address: &str| {
        set_proxy_settings(ProxySettingsSecret::default(), proxy(address, None)).unwrap_err()
    };
    assert_eq!(
        refused("nonsense").message(),
        "invalid proxy address: relative URL without a base"
    );
    assert_eq!(
        refused("ftp://127.0.0.1").message(),
        "proxy address must use http, https, socks5, or socks5h"
    );
    assert!(matches!(refused("socks5:path"), Error::Http(_)));
    let system = ProxySettingsInput { mode: ProxyMode::System, ..proxy(" nonsense ", None) };
    let saved = set_proxy_settings(ProxySettingsSecret::default(), system).unwrap();
    assert_eq!(saved.address, "nonsense");
    assert!(matches!(outbound(&saved), Outbound::System));
}

#[test]
fn tab_settings_default_to_public_and_validate_custom_urls() {
    let default = TabSettings::default();
    assert_eq!(default.mode, TabMode::Public);
    assert_eq!(default.address, "");

    let saved = set_tab_settings(TabSettings {
        mode: TabMode::Custom,
        address: " https://tab.example.com/base/ ".into(),
    })
    .unwrap();
    assert_eq!(saved.address, "https://tab.example.com/base");

    assert!(set_tab_settings(TabSettings {
        mode: TabMode::Custom,
        address: "file:///tmp/tab".into(),
    })
    .is_err());
}

#[test]
fn tab_addresses_are_base_addresses() {
    let refused = |address: &str| {
        let settings = TabSettings { mode: TabMode::Custom, address: address.into() };
        set_tab_settings(settings).unwrap_err().message()
    };
    assert_eq!(
        refused("https://tab.example.com?a=1"),
        "TAB service address must be a base URL without a query or fragment"
    );
    assert_eq!(refused("ftp://tab.example.com"), "TAB service address must use http or https");
    assert_eq!(refused("x"), "invalid TAB service address: relative URL without a base");
    let direct = TabSettings { mode: TabMode::Direct, address: "x//".into() };
    assert_eq!(set_tab_settings(direct).unwrap().address, "x");
}

#[test]
fn installation_ids_are_random_and_read_back() {
    let first = new_installation();
    let second = new_installation();
    assert_ne!(first, second);
    assert_eq!(first.len(), 36);
    assert_eq!(check_installation(first.clone()).unwrap(), first);
    let error = check_installation("not an id".into()).unwrap_err();
    assert!(error.message().starts_with("invalid persisted installation ID: "));
}

#[test]
fn one_hour_range_uses_sixty_minute_buckets() {
    let start_ms = 1_800_000_000_000;
    let (granularity, bucket_ms, series_start_ms, bucket_count) =
        token_usage_buckets(Some(start_ms), Some(start_ms + HOUR_MS));

    assert_eq!(granularity, TokenUsageGranularity::Minute);
    assert_eq!(bucket_ms, MINUTE_MS);
    assert_eq!(series_start_ms, start_ms);
    assert_eq!(bucket_count, 60);
}

#[test]
fn ranges_are_shown_in_hours_or_days_where_they_are_long() {
    let start = 1_800_000_000_000;
    assert!(range_is_shown(start, start + DAY_MS));
    assert!(!range_is_shown(i64::MIN, i64::MAX));
    let (granularity, bucket_ms, _, count) = token_usage_buckets(Some(start), Some(start + DAY_MS));
    assert_eq!(granularity, TokenUsageGranularity::Hour);
    assert_eq!(bucket_ms, HOUR_MS);
    assert_eq!(count, 24);
    let (granularity, _, series_start, count) =
        token_usage_buckets(Some(start), Some(start + 100 * DAY_MS));
    assert_eq!(granularity, TokenUsageGranularity::Day);
    assert_eq!(count, 60);
    assert_eq!(series_start + 59 * DAY_MS, (start + 100 * DAY_MS - 1).div_euclid(DAY_MS) * DAY_MS);
    let (_, _, series_start, count) = token_usage_buckets(Some(-1), Some(0));
    assert_eq!((series_start, count), (-MINUTE_MS, 1));
}

#[test]
fn the_overview_shows_a_year_up_to_today_where_no_range_is_asked_for() {
    let (granularity, bucket_ms, series_start, count) = token_usage_buckets(None, None);
    assert_eq!(granularity, TokenUsageGranularity::Day);
    assert_eq!(bucket_ms, DAY_MS);
    assert_eq!(count, OVERVIEW_DAYS);
    assert_eq!(series_start.rem_euclid(DAY_MS), 0);
    assert!(series_start > 1_700_000_000_000);
    assert_eq!(series_query_start(None, 7), 7);
    assert_eq!(series_query_start(Some(3), 7), 7);
    assert_eq!(series_query_start(Some(9), 7), 9);
}

#[test]
fn the_overview_counts_calls_and_tokens() {
    let metrics = overview_metrics(3, 2, 1, 60, 130, 5, 35);
    assert_eq!(metrics.llm_calls, 3);
    assert_eq!(metrics.prompt_tokens, 195);
    assert_eq!(metrics.token_usage, 230);
    let odd = overview_metrics(0, 0, 0, -5, i64::MAX, 1, 1);
    assert_eq!(odd.input_tokens, 0);
    assert_eq!(odd.prompt_tokens, i64::MAX);
    assert_eq!(odd.token_usage, i64::MAX);
}

#[test]
fn the_series_holds_what_was_recorded_and_nothing_else() {
    let rows = vec![recorded_bucket(20, 50, 130, 5, 30), recorded_bucket(40, 1, -1, 1, 1)];
    let series = token_usage_series(&rows, 0, 20, 3);
    assert_eq!(series.len(), 3);
    assert_eq!(series[0].bucket_start_ms, 0);
    assert_eq!(series[0].total_tokens(), 0);
    assert_eq!(series[1].total_tokens(), 215);
    assert_eq!(series[2].total_tokens(), 3);
    assert!(token_usage_series(&rows, 0, 20, -1).is_empty());
}

#[test]
fn columns_hold_what_fits() {
    assert_eq!(as_i64(Some(u64::MAX)), Some(i64::MAX));
    assert_eq!(as_i64(Some(5)), Some(5));
    assert_eq!(as_i64(None), None);
    let usage = Usage { input_tokens: Some(7), ..Default::default() };
    assert_eq!(usage_columns(usage).input_tokens, Some(7));
    assert_eq!(usage_columns(usage).output_tokens, None);
    assert_eq!(call_limit(0), 1);
    assert_eq!(call_limit(50), 50);
    assert_eq!(call_limit(10_000), 500);
    assert_eq!(stored_count(-1), usize::MAX);
    assert_eq!(stored_count(12), 12);
    let anchor = usage_anchor("openai-responses", usage, 3, 4).unwrap();
    assert_eq!(anchor.request_type, ProviderType::OpenAiResponses);
    assert_eq!((anchor.message_count, anchor.tool_count), (3, 4));
    assert!(usage_anchor("other", usage, 3, 4).is_none());
    assert_eq!(shown_chunk(1, 2, &[b'a', 0xff], 2).data, "a\u{fffd}");
    for kind in [ProviderType::OpenAiChat, ProviderType::OpenAiResponses, ProviderType::Anthropic] {
        assert_eq!(ProviderType::from_name(kind.as_str()), Some(kind));
    }
}

fn endpoint(name: &str, headers: &str) -> ProviderEndpointInput {
    ProviderEndpointInput {
        name: name.into(),
        provider_type: ProviderType::OpenAiResponses,
        base_url: "https://example.com/v1".into(),
        api_key: Some("secret".into()),
        custom_headers: json::parse(headers).unwrap(),
        extra_params: Json::Object(vec![]),
    }
}

fn provider_model(id: &str) -> ProviderModelInput {
    ProviderModelInput {
        model_id: id.into(),
        display_name: id.into(),
        endpoint_type: ProviderType::OpenAiResponses,
        request_url: String::new(),
        enabled: true,
        sort_order: 0,
        context_window_tokens: Some(200_000),
        max_output_tokens: Some(16_000),
        reasoning_enabled: true,
        reasoning_effort: Some("high".into()),
        supports_image_generation: false,
    }
}

#[test]
fn providers_are_checked_before_they_are_kept() {
    let base = || Ok("https://example.com/v1".to_string());
    assert_eq!(validate_endpoint(&endpoint("Test", "{}"), base()).unwrap(), "https://example.com/v1");
    let message = |input: &ProviderEndpointInput| validate_endpoint(input, base()).unwrap_err().message();
    assert_eq!(message(&endpoint("  ", "{}")), "provider name cannot be empty");
    assert_eq!(message(&endpoint("Test", "[]")), "custom headers must be a JSON object");
    let params = ProviderEndpointInput { extra_params: Json::Null, ..endpoint("Test", "{}") };
    assert_eq!(message(&params), "extra params must be a JSON object");
    let bad = validate_endpoint(&endpoint("Test", "{}"), Err(Error::Config("bad".into())));
    assert_eq!(bad.unwrap_err().message(), "bad");
}

#[test]
fn models_are_checked_together() {
    let message = |inputs: Vec<ProviderModelInput>| {
        let addresses = inputs.iter().map(|_| None).collect();
        validate_model_batch(&inputs, &addresses).map(|error| error.message())
    };
    assert_eq!(message(vec![]).unwrap(), "at least one model is required");
    assert_eq!(message(vec![provider_model("a"), provider_model("b")]), None);
    assert_eq!(
        message(vec![provider_model("a"), provider_model(" a ")]).unwrap(),
        "duplicate model id: a"
    );
    let unnamed = ProviderModelInput { display_name: " ".into(), ..provider_model("a") };
    assert_eq!(message(vec![unnamed]).unwrap(), "model display name cannot be empty");
    let no_id = ProviderModelInput { model_id: " ".into(), ..provider_model("a") };
    assert_eq!(message(vec![no_id]).unwrap(), "model id cannot be empty");
    let inputs = vec![provider_model("a")];
    let error = validate_model_batch(&inputs, &vec![Some(Error::Config("address".into()))]);
    assert_eq!(error.unwrap().message(), "address");
}

#[test]
fn digests_are_taken_once() {
    let mut batch = HashBatch::new();
    assert!(batch.accept("h1".into(), &None, 1, "a", &None).is_none());
    let error = batch.accept("h1".into(), &None, 1, "b", &None).unwrap();
    assert_eq!(error.message(), "8-character model hash collision: h1");
    let error = batch.accept("h2".into(), &Some((2, "x".into())), 1, "b", &None).unwrap();
    assert_eq!(error.message(), "8-character model hash collision: h2");
    assert!(batch.accept("h2".into(), &Some((1, "b".into())), 1, "b", &None).is_none());
    let error = batch.accept("h3".into(), &None, 1, "c", &Some("old".into())).unwrap();
    assert_eq!(
        error.message(),
        "model c already exists with a different endpoint type; edit it instead"
    );
    assert_eq!(batch.into_hashes(), vec!["h1", "h2"]);
    assert!(!change_model("h1", "h1", &Some((9, "x".into())), 1, "a").unwrap());
    assert!(change_model("h1", "h2", &None, 1, "a").unwrap());
    assert!(change_model("h1", "h2", &Some((9, "x".into())), 1, "a").is_err());
}

#[test]
fn secret_headers_are_hidden_and_survive_an_edit() {
    let stored = json::parse(r#"{"authorization": "token", "x-client": "cursor"}"#).unwrap();
    let sensitive = vec!["authorization".to_string()];
    let shown = redact_custom_headers(&stored, &sensitive);
    assert!(matches!(shown.get("authorization"), Some(Json::Null)));
    assert_eq!(shown.get_str("x-client"), Some("cursor"));
    let merged = merge_custom_headers(&stored, &shown).unwrap();
    assert!(merged.equals(&stored));
    let other = json::parse(r#"{"x-new": null}"#).unwrap();
    assert_eq!(
        merge_custom_headers(&stored, &other).unwrap_err().message(),
        "custom header x-new has no existing value to retain"
    );
    assert_eq!(
        merge_custom_headers(&stored, &Json::Null).unwrap_err().message(),
        "custom headers must be a JSON object"
    );
}

fn row() -> ProviderRow {
    ProviderRow {
        provider_id: 1,
        name: "Test".into(),
        provider_type: ProviderType::OpenAiResponses,
        base_url: "https://example.com/v1".into(),
        api_key: "secret".into(),
        custom_headers: json::parse(r#"{"authorization": "token"}"#).unwrap(),
        extra_params: Json::Object(vec![]),
        created_at_ms: 1,
        updated_at_ms: 2,
    }
}

#[test]
fn a_change_of_address_or_key_changes_the_identity_of_a_provider() {
    let input = ProviderEndpointInput { api_key: None, ..endpoint(" New ", "{}") };
    let update = update_provider(&row(), &input, "https://example.com/v1".into()).unwrap();
    assert_eq!(update.name, "New");
    assert_eq!(update.api_key, "secret");
    assert!(!update.identity_changed);
    assert!(update_provider(&row(), &input, "https://other".into()).unwrap().identity_changed);
    let other = ProviderEndpointInput { api_key: Some("x".into()), ..input };
    let update = update_provider(&row(), &other, "https://example.com/v1".into()).unwrap();
    assert!(update.identity_changed);
    assert_eq!(update.api_key, "x");
}

#[test]
fn providers_are_shown_with_their_key_and_without_secret_headers() {
    let shown = endpoint_from_row(&row(), &vec!["authorization".into()]);
    assert!(shown.has_api_key);
    assert_eq!(shown.api_key.as_deref(), Some("secret"));
    assert!(matches!(shown.custom_headers.get("authorization"), Some(Json::Null)));
    let bare = ProviderRow { api_key: String::new(), ..row() };
    let shown = endpoint_from_row(&bare, &vec![]);
    assert!(!shown.has_api_key);
    assert_eq!(shown.api_key, None);
}

#[test]
fn models_keep_what_they_have_when_their_digest_changes() {
    let saved = row_of_model(4, "h1".into(), &provider_model(" a "), 10, 11);
    assert_eq!(saved.model_id, "a");
    assert_eq!(saved.provider_id, 4);
    let next = rehashed_model(&saved, "h2".into(), 20);
    assert_eq!(next.model_hash, "h2");
    assert_eq!(next.reasoning_effort.as_deref(), Some("high"));
    assert_eq!((next.created_at_ms, next.updated_at_ms), (10, 20));
    assert_eq!(tokens_to_column(u64::MAX), -1);
    assert_eq!(tokens_from_column(-1), u64::MAX);
    assert_eq!(tokens_from_column(tokens_to_column(200_000)), 200_000);
}

#[test]
fn deleting_what_is_not_there_is_an_error() {
    assert!(check_provider_deleted(7, 1).is_none());
    assert_eq!(check_provider_deleted(-7, 0).unwrap().message(), "provider -7");
    assert!(check_model_deleted("h", 1).is_none());
    assert!(matches!(check_model_deleted("h", 0), Some(Error::RunNotFound(m)) if m == "model h"));
}

fn message(id: &str, text: &str) -> CanonicalMessage {
    CanonicalMessage::text(id, Role::User, Origin::User, text)
}

fn called(arguments: Json, state: Json) -> CanonicalMessage {
    CanonicalMessage {
        message_id: "call".into(),
        role: Role::Assistant,
        origin: Origin::Assistant,
        content: MessageContent::Assistant {
            text: String::new(),
            thinking: String::new(),
            tool_round_id: Some("round".into()),
            replay_state: Some(ProviderReplayState { value: state }),
            tool_calls: vec![ToolCallContent {
                index: 0,
                call_id: "c".into(),
                name: "Read".into(),
                arguments,
            }],
        },
        runtime_event_id: None,
    }
}

#[test]
fn messages_are_compared_by_what_their_json_says() {
    let pair = |first: &str, second: &str| {
        Json::Object(vec![(first.into(), Json::Null), (second.into(), Json::Null)])
    };
    let zero = |text: &str| json::parse(text).unwrap();
    let stored = || vec![called(pair("a", "b"), zero("0.0"))];
    let again = called(pair("b", "a"), zero("-0.0"));
    assert!(!append_message_once(&stored(), &again).unwrap());
    let other = called(pair("a", "c"), zero("0.0"));
    assert!(append_message_once(&stored(), &other).is_err());
    let other = called(pair("a", "b"), zero("1.0"));
    assert!(append_message_once(&stored(), &other).is_err());

    let longer = vec![called(pair("b", "a"), zero("-0.0")), message("d", "four")];
    assert_eq!(
        import_revision(None, RevisionId(2), &stored(), RevisionId(1), &longer),
        ImportPlan::Child { parent: RevisionId(2), from: 1 }
    );
    let mut search = PrefixMatch::new(RevisionId(1), Vec::new(), longer);
    search.on_child(Some((RevisionId(3), stored())));
    assert_eq!(search.reached(), (RevisionId(3), 1));
    let wanted = search.wanted().unwrap();
    let MessageContent::Assistant { tool_calls, .. } = &wanted[0].content else {
        panic!("expected an assistant message");
    };
    let Json::Object(members) = &tool_calls[0].arguments else {
        panic!("expected an object");
    };
    assert_eq!(members[0].0, "b");
}

#[test]
fn states_are_digested_with_their_boundaries() {
    let digest = message_digest(&vec![b"ab".to_vec(), b"c".to_vec()]);
    assert_eq!(digest.len(), 32);
    assert_ne!(digest, message_digest(&vec![b"a".to_vec(), b"bc".to_vec()]));
    let empty: [u8; 4] = [0xe3, 0xb0, 0xc4, 0x42];
    assert_eq!(message_digest(&vec![])[..4], empty);
}

#[test]
fn a_message_is_added_once() {
    let existing = vec![message("a", "one")];
    assert!(append_message_once(&existing, &message("b", "two")).unwrap());
    assert!(!append_message_once(&existing, &message("a", "one")).unwrap());
    let error = append_message_once(&existing, &message("a", "other")).unwrap_err();
    assert_eq!(
        error.message(),
        "message id or runtime event reused with different content: a"
    );
    let mut event = message("c", "one");
    event.runtime_event_id = Some("e".into());
    let mut again = message("d", "one");
    again.runtime_event_id = Some("e".into());
    assert!(append_message_once(&vec![event], &again).is_err());
}

#[test]
fn an_import_continues_the_current_state_or_starts_over() {
    let current = vec![message("a", "one")];
    let longer = vec![message("a", "one"), message("b", "two")];
    let other = vec![message("x", "one")];
    let plan = |existing, messages| {
        import_revision(existing, RevisionId(2), &current, RevisionId(1), messages)
    };
    assert_eq!(plan(Some(RevisionId(9)), &longer), ImportPlan::Existing(RevisionId(9)));
    assert_eq!(plan(None, &longer), ImportPlan::Child { parent: RevisionId(2), from: 1 });
    assert_eq!(plan(None, &other), ImportPlan::Child { parent: RevisionId(1), from: 0 });
}

#[test]
fn a_search_for_stored_messages_stops_where_the_store_differs() {
    let additions = vec![message("b", "two"), message("c", "three")];
    let mut search = PrefixMatch::new(RevisionId(1), vec![message("a", "one")], additions);
    let wanted = search.wanted().unwrap();
    assert_eq!(wanted.len(), 2);
    search.on_child(Some((RevisionId(2), wanted)));
    assert_eq!(search.reached(), (RevisionId(2), 1));
    search.on_child(Some((RevisionId(3), vec![message("z", "else")])));
    assert!(search.wanted().is_none());
    assert_eq!(search.reached(), (RevisionId(2), 1));
}

#[test]
fn a_state_is_written_step_by_step() {
    let start = start_write(RevisionWrite::Append, RevisionId(5), 0);
    assert!(matches!(start, WriteStep::Done { revision: RevisionId(5) }));
    assert!(matches!(start_write(RevisionWrite::Append, RevisionId(5), 1), WriteStep::RequireHead));
    assert!(matches!(on_head(RevisionWrite::Append), WriteStep::FindState));
    assert!(matches!(on_head(RevisionWrite::Replace), WriteStep::FindRoot));
    let WriteStep::Failed(error) = on_state(Some(RevisionId(7)), RevisionId(5)) else {
        panic!("expected a failure");
    };
    assert_eq!(
        error.message(),
        "active append would reuse an existing revision instead of creating a child"
    );
    let run = RunId::new("run-1");
    assert!(matches!(
        on_moved(RevisionWrite::Append, RevisionId(6), 1, &run),
        WriteStep::UpdateRun { revision: RevisionId(6) }
    ));
    let WriteStep::Failed(error) = on_moved(RevisionWrite::Replace, RevisionId(6), 0, &run) else {
        panic!("expected a failure");
    };
    assert_eq!(
        error.message(),
        "lost active ownership while replacing revision for run run-1"
    );
}

#[test]
fn v0049_anthropic_full_request_url_is_not_modified() {
    let (request_url, endpoint, use_full_url) = legacy_request_configuration(
        ModelType::Anthropic,
        "https://example.com/proxy/messages?api-version=2026-01-01",
        "",
    )
    .unwrap();

    assert_eq!(request_url, "https://example.com/proxy/messages?api-version=2026-01-01");
    assert!(endpoint.is_empty());
    assert!(use_full_url);
}

fn legacy(kind: &str, base_url: &str, endpoint: &str) -> LegacyModel {
    LegacyModel {
        sort: 1,
        display_name: "Model A".into(),
        model_type: kind.into(),
        base_url: base_url.into(),
        api_key: "secret".into(),
        tooltip_data: String::new(),
        model_id: "model-a".into(),
        reasoning_effort: "high".into(),
        openai_endpoint: endpoint.into(),
        openai_extra_params_enabled: false,
        openai_extra_params_json: "not-valid-json".into(),
        custom_headers_enabled: true,
        custom_headers_json: r#"{"x-client":"cursor-byok"}"#.into(),
        anthropic_extra_params_enabled: false,
        anthropic_extra_params_json: String::new(),
        context_window_tokens: 200_000,
        max_completion_tokens: 0,
        anthropic_max_tokens: 0,
        anthropic_thinking_effort: String::new(),
        thinking_budget_tokens: 0,
    }
}

#[test]
fn models_of_the_old_file_are_configured() {
    let base = || Ok("https://example.com/v1".to_string());
    let input = model_input(legacy("openai", "", OPENAI_RESPONSES_ENDPOINT), base()).unwrap();
    assert_eq!(input.base_url, "https://example.com/v1");
    assert!(!input.use_full_url);
    assert_eq!(input.openai_endpoint, OPENAI_RESPONSES_ENDPOINT);
    assert_eq!(input.tooltip_data, "Model A");
    assert_eq!(input.reasoning_effort.as_deref(), Some("high"));
    assert_eq!(input.custom_headers.get_str("x-client"), Some("cursor-byok"));
    assert!(input.openai_extra_params.equals(&Json::Object(vec![])));
    assert_eq!(input.context_window_tokens, Some(200_000));
    assert_eq!(input.max_completion_tokens, None);

    let custom = model_input(
        legacy("OpenAI ", "", "/custom"),
        Ok("https://example.com/proxy/generate?api-version=2026-01-01".into()),
    )
    .unwrap();
    assert_eq!(custom.openai_endpoint, OPENAI_CHAT_ENDPOINT);
    assert!(custom.use_full_url);

    let full = model_input(
        legacy("openai", "", ""),
        Ok("https://example.com/v1/Chat/Completions/".into()),
    )
    .unwrap();
    assert_eq!(full.openai_endpoint, OPENAI_CHAT_ENDPOINT);
    assert!(full.use_full_url);

    let claude =
        model_input(legacy("anthropic", "", ""), Ok("https://example.com/anthropic".into())).unwrap();
    assert!(!claude.use_full_url);

    let refused = model_input(legacy("other", "", ""), base()).unwrap_err();
    assert_eq!(refused.message(), "unsupported v0.0.49 model type: other");
    let refused = model_input(legacy("openai", "", "/v2"), base()).unwrap_err();
    assert_eq!(refused.message(), "unsupported v0.0.49 OpenAI endpoint: /v2");
    let mut odd = legacy("openai", "", "");
    odd.openai_extra_params_enabled = true;
    assert!(matches!(model_input(odd, base()), Err(Error::Json(_))));
    let mut list = legacy("openai", "", "");
    list.custom_headers_json = "[]".into();
    let refused = model_input(list, base()).unwrap_err();
    assert_eq!(refused.message(), "v0.0.49 model JSON fields must be objects");
}

#[test]
fn old_files_that_do_not_read_are_refused() {
    let message = |found, read| check_file("/c.yaml", found, &read).map(|error| error.message());
    assert_eq!(message(false, Ok(vec![])).unwrap(), "v0.0.49 config not found at /c.yaml");
    assert_eq!(message(true, Err("bad".into())).unwrap(), "invalid v0.0.49 config: bad");
    assert_eq!(message(true, Ok(vec![])).unwrap(), "v0.0.49 config contains no model adapters");
    assert_eq!(message(true, Ok(vec![legacy("openai", "", "")])), None);
}

#[test]
fn an_import_brings_each_model_once() {
    let input = || {
        model_input(legacy("openai", "", ""), Ok("https://example.com/v1".into())).unwrap()
    };
    let hashed =
        vec![("h1".to_string(), input()), ("h2".to_string(), input()), ("h1".to_string(), input())];
    let plan = import_plan(&hashed, &vec!["h2".into()]);
    assert_eq!(plan.models.len(), 2);
    assert!(!plan.models[0].existing);
    assert!(plan.models[1].existing);
    let missing = plan.missing_models();
    assert_eq!(missing.len(), 1);
    let outcome = plan.outcome(missing.len());
    assert_eq!((outcome.imported, outcome.skipped, outcome.total), (1, 1, 2));
    let again = import_plan(&hashed, &vec!["h1".into(), "h2".into()]);
    assert!(again.missing_models().is_empty());
}

#[test]
fn a_partial_chunk_flushes_after_the_deadline() {
    let mut recorder = CallRecorder::start("timed-flush-call".into(), true, 0);
    let action = recorder.response_chunk(b"chunk".to_vec(), 1_000_000);
    assert!(action.flush.is_none());
    let generation = action.schedule.unwrap();
    let flushed = recorder.flush_generation(generation).unwrap();
    assert_eq!(flushed.len(), 1);
    assert_eq!(flushed[0].byte_count, 5);
    assert_eq!(flushed[0].data.as_deref(), Some(&b"chunk"[..]));
    assert_eq!(flushed[0].elapsed_ms, 1);
    assert!(recorder.flush_generation(generation).is_none());
}

#[test]
fn chunks_are_stored_where_they_are_many_large_or_old() {
    let mut recorder = CallRecorder::start("call".into(), false, 0);
    for _ in 0..31 {
        assert!(recorder.response_chunk(vec![0], 0).flush.is_none());
    }
    let many = recorder.response_chunk(vec![0], 0).flush.unwrap();
    assert_eq!(many.len(), 32);
    assert_eq!(many[31].seq, 31);
    assert!(many[0].data.is_none());
    let large = recorder.response_chunk(vec![0; 256 * 1024], 0);
    assert_eq!(large.flush.unwrap().len(), 1);
    assert!(recorder.response_chunk(vec![0], 0).flush.is_none());
    assert_eq!(recorder.buffered_bytes(), 1);
    let old = recorder.response_chunk(vec![0], MAX_BUFFER_AGE_NS);
    let chunks = old.flush.unwrap();
    assert_eq!(chunks.len(), 2);
    recorder.on_flush_failed(chunks, 5);
    assert_eq!(recorder.buffered_bytes(), 2);
    let left = recorder.finish().unwrap().unwrap();
    assert_eq!(left.len(), 2);
    assert!(recorder.response_chunk(vec![0], 0).schedule.is_none());
}

#[test]
fn first_text_is_persisted_only_once() {
    let mut recorder = CallRecorder::start("first-text-call".into(), false, 0);
    let mut count = 0;
    for text in ["one", "two", "three"] {
        if let FollowUp::FirstText = recorder.follow_up(&ModelEvent::TextDelta(text.into())) {
            count += 1;
        }
    }
    assert_eq!(count, 1);
    recorder.on_first_text_failed();
    assert!(matches!(
        recorder.follow_up(&ModelEvent::TextDelta("four".into())),
        FollowUp::FirstText
    ));
}

#[test]
fn first_valid_response_includes_empty_text_and_reasoning_events() {
    let mut recorder = CallRecorder::start("first-valid-response-call".into(), false, 0);
    let start = ModelEvent::Start { model_call_id: "call".into() };
    assert!(!recorder.first_valid_response(&start));
    assert!(!recorder.first_valid_response(&ModelEvent::TextStart));
    let empty = ModelEvent::TextDelta(String::new());
    assert!(recorder.first_valid_response(&empty));
    assert!(matches!(recorder.follow_up(&empty), FollowUp::Nothing));
    let text = ModelEvent::TextDelta("text".into());
    assert!(!recorder.first_valid_response(&text));
    assert!(matches!(recorder.follow_up(&text), FollowUp::FirstText));
    assert!(!recorder.first_valid_response(&ModelEvent::ThinkingDelta("reasoning".into())));
}

#[test]
fn a_retry_ends_the_attempt_and_starts_another() {
    let mut recorder = CallRecorder::start("retry-call".into(), true, 0);
    let error = Error::Provider("OpenAI Chat 429: rate limited".into());
    assert!(recorder.finish().is_some());
    assert!(recorder.finish().is_none());
    let end = failed(&error);
    assert_eq!(end.status, "error");
    assert_eq!(end.error_kind.as_deref(), Some("provider"));
    assert_eq!(end.error_message.as_deref(), Some(error.message().as_str()));
    let next = recorder.next_attempt();
    assert_eq!(next, "retry-call:retry-1");
    recorder.on_retry_started(next, 3_000_000);
    assert!(!recorder.is_finished());
    assert_eq!(recorder.call_id(), "retry-call:retry-1");
    assert_eq!(recorder.elapsed(5_000_000), 2);
    assert_eq!(recorder.next_attempt(), "retry-call:retry-2");
    assert!(recorder.detailed());
    recorder.finish();
    recorder.on_finish_failed();
    assert!(!recorder.is_finished());
}

#[test]
fn ends_of_calls_are_filed_by_their_kind() {
    assert_eq!(completed(FinishReason::ToolUse).reason.as_deref(), Some("tool_use"));
    assert_eq!(completed(FinishReason::Stop).status, "completed");
    assert_eq!(cancelled().status, "cancelled");
    assert_eq!(error_kind(&Error::Http("x".into())), "provider");
    assert_eq!(error_kind(&Error::Cancelled), "cancelled");
    assert_eq!(error_kind(&Error::Database("x".into())), "store");
    assert_eq!(error_kind(&Error::Config("x".into())), "internal");
    let mut recorder = CallRecorder::start("call".into(), false, 0);
    assert!(matches!(
        recorder.follow_up(&ModelEvent::Done(FinishReason::Length)),
        FollowUp::Complete(FinishReason::Length)
    ));
    assert!(matches!(
        recorder.follow_up(&ModelEvent::Usage(Usage::default())),
        FollowUp::Usage(_)
    ));
}

#[test]
fn secrets_are_not_recorded() {
    let header = |name: &str, value: Option<&str>, sensitive| RequestHeader {
        name: name.into(),
        value: value.map(str::to_owned),
        sensitive,
    };
    let recorded = recorded_headers(&vec![
        header("content-type", Some("application/json"), false),
        header("authorization", Some("token"), true),
        header("x-bytes", None, false),
        header("content-type", Some("text/plain"), false),
    ]);
    assert_eq!(recorded.get_str("content-type"), Some("text/plain"));
    assert!(recorded.get("authorization").is_none());
    assert!(recorded.get("x-bytes").is_none());
}

#[test]
fn a_provider_is_asked_again_until_the_attempts_run_out() {
    assert_eq!(RetryPolicy::default(), RetryPolicy { retries: 5, delay_ms: 5_000 });
    let mut sending = Sending::new(RetryPolicy { retries: 1, delay_ms: 7 });
    let first = sending.on_refusal("OpenAI", "429 Too Many Requests", b"slow down");
    let AfterRefusal::Again { error, failed_attempt, delay_ms } = first else {
        panic!("expected another attempt");
    };
    assert_eq!(error.message(), "OpenAI 429 Too Many Requests: slow down");
    assert_eq!((failed_attempt, delay_ms), (1, 7));
    assert!(matches!(
        sending.on_refusal("OpenAI", "500 Internal Server Error", &[0xff]),
        AfterRefusal::Fail(Error::Provider(m)) if m == "OpenAI 500 Internal Server Error: \u{fffd}"
    ));
    assert!(is_success(204));
    assert!(!is_success(302));
}
