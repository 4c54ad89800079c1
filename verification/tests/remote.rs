use dais::navigation::SlideNavigation;
use dais::remote::preloaded_pages;
use dais::slide_group::{build_slide_groups, SlideGroupMeta};
use dais::remote::{
    action_path, custom_token_is_valid, draw_tool_name, effective_port, endpoint_url,
    generate_token, generated_pairing_code_is_valid, ok_response, pairing_code_text,
    is_authorized, origin_allowed, query_token, remote_timer_state, request_token,
    server_settings_allow_loopback, split_host_port, DrawTool, RemoteConfig, RemoteEndpoint,
    RemoteOverrides, RemoteStatus, ServerSettings,
};
use dais::timer::{TimerMode, TimerState};

fn config(token: &str) -> RemoteConfig {
    RemoteConfig {
        enabled: false,
        host: "0.0.0.0".to_string(),
        port: 4317,
        token: token.to_string(),
        allow_unauthenticated_loopback: true,
    }
}

#[test]
fn custom_token_must_be_alphanumeric() {
    assert!(custom_token_is_valid("abcDEF123"));
    assert!(!custom_token_is_valid(""));
    assert!(!custom_token_is_valid("abc-123"));
    assert!(!custom_token_is_valid("abc_123"));
    assert!(!custom_token_is_valid("abc+123"));
    assert!(!custom_token_is_valid("abc/123"));
    assert!(!custom_token_is_valid("abc&123"));
}

#[test]
fn pairing_codes_have_two_padded_halves() {
    assert_eq!(pairing_code_text(42), "0000-0042");
    assert_eq!(pairing_code_text(12345678), "1234-5678");
    assert!(generated_pairing_code_is_valid("0000-0042"));
    assert!(!generated_pairing_code_is_valid("00000042"));
    assert!(!generated_pairing_code_is_valid("0000+0042"));
    assert!(!generated_pairing_code_is_valid("0a00-0042"));
    for _ in 0..20 {
        let token = generate_token();
        assert!(generated_pairing_code_is_valid(&token), "{token}");
        assert!(!custom_token_is_valid(&token));
    }
}

#[test]
fn settings_prefer_overrides_and_generate_missing_token() {
    let overrides =
        RemoteOverrides { enabled: true, host: Some("127.0.0.1".to_string()), port: Some(9000) };
    let settings = ServerSettings::from_config(&config(""), &overrides);
    assert!(settings.enabled);
    assert_eq!(settings.host, "127.0.0.1");
    assert_eq!(settings.port, 9000);
    assert!(settings.generated_token);
    assert!(generated_pairing_code_is_valid(&settings.token));
    assert_eq!(effective_port(&settings), 9000);

    let settings = ServerSettings::from_config(&config("secret1"), &RemoteOverrides::default());
    assert!(!settings.enabled);
    assert_eq!(settings.host, "0.0.0.0");
    assert_eq!(settings.port, 4317);
    assert_eq!(settings.token, "secret1");
    assert!(!settings.generated_token);
}

#[test]
fn loopback_needs_permission_and_loopback_host() {
    let mut settings = ServerSettings::from_config(&config("t"), &RemoteOverrides::default());
    settings.host = "LocalHost".to_string();
    assert!(server_settings_allow_loopback(&settings, false));
    settings.host = "10.0.0.2".to_string();
    assert!(!server_settings_allow_loopback(&settings, false));
    assert!(server_settings_allow_loopback(&settings, true));
    settings.allow_unauthenticated_loopback = false;
    assert!(!server_settings_allow_loopback(&settings, true));
}

#[test]
fn query_token_finds_first_token_parameter() {
    assert_eq!(query_token(Some("a=1&token=abc&token=def")), Some("abc".to_string()));
    assert_eq!(query_token(Some("token=x=y")), Some("x=y".to_string()));
    assert_eq!(query_token(Some("tokens=1&token")), None);
    assert_eq!(query_token(Some("")), None);
    assert_eq!(query_token(None), None);
}

#[test]
fn host_and_port_split_at_last_colon() {
    assert_eq!(split_host_port(" localhost:4317 "), Some(("localhost".to_string(), 4317)));
    assert_eq!(split_host_port("[::1]:80"), Some(("::1".to_string(), 80)));
    assert_eq!(split_host_port("example.org"), None);
    assert_eq!(split_host_port("example.org:70000"), None);
    assert_eq!(split_host_port("example.org:+8"), Some(("example.org".to_string(), 8)));
}

#[test]
fn endpoint_urls_and_responses() {
    let endpoint = RemoteEndpoint::default();
    assert_eq!(endpoint_url(&endpoint, "/api/v1/state"), "http://127.0.0.1:4317/api/v1/state");
    assert_eq!(action_path("next_slide"), "/api/v1/actions/next_slide");
    let response = ok_response("done");
    assert!(response.ok);
    assert_eq!(response.message, "done");
    assert_eq!(draw_tool_name(DrawTool::Highlighter), "highlighter");
}

#[test]
fn status_counts_event_clients() {
    let mut status = RemoteStatus::default();
    status.remove_event_client();
    assert_eq!(status.active_event_clients, 0);
    status.add_event_client();
    status.add_event_client();
    status.remove_event_client();
    status.set_last_command("next_slide".to_string());
    assert_eq!(status.active_event_clients, 1);
    assert_eq!(status.last_command.as_deref(), Some("next_slide"));
}

#[test]
fn remote_timer_reports_whole_seconds() {
    let timer = TimerState {
        mode: TimerMode::Countdown,
        duration: Some(600_000_000_000),
        elapsed: 90_500_000_000,
        running: true,
        warning_threshold: Some(60_000_000_000),
    };
    let remote = remote_timer_state(&timer);
    assert!(remote.running);
    assert_eq!(remote.elapsed_seconds, 90);
    assert_eq!(remote.display_seconds, 509);
    assert_eq!(remote.phase, "normal");
}

fn secured(allow_loopback: bool) -> ServerSettings {
    ServerSettings {
        enabled: true,
        host: "0.0.0.0".to_string(),
        port: 4317,
        token: "secret".to_string(),
        generated_token: false,
        allow_unauthenticated_loopback: allow_loopback,
    }
}

#[test]
fn request_token_prefers_query_then_authorization_then_header() {
    assert_eq!(
        request_token(Some("a=1&token=q"), Some("Bearer h"), Some("x")),
        Some("q".to_string())
    );
    assert_eq!(request_token(Some("a=1"), Some("Bearer h"), Some("x")), Some("h".to_string()));
    assert_eq!(request_token(None, Some("plain"), None), Some("plain".to_string()));
    assert_eq!(request_token(None, None, Some("x")), Some("x".to_string()));
    assert_eq!(request_token(None, None, None), None);
}

#[test]
fn loopback_exemption_and_tokens_authorize_requests() {
    assert!(is_authorized(None, None, None, true, &secured(true)));
    assert!(!is_authorized(None, None, None, false, &secured(true)));
    assert!(!is_authorized(None, None, None, true, &secured(false)));
    assert!(is_authorized(Some("token=secret"), None, None, false, &secured(false)));
    assert!(is_authorized(None, Some("Bearer secret"), None, false, &secured(false)));
    assert!(!is_authorized(None, Some("Bearer wrong"), Some("secret"), false, &secured(false)));
}

#[test]
fn origin_must_match_host() {
    assert!(origin_allowed(None, None));
    assert!(origin_allowed(Some("http://127.0.0.1:4317"), Some("127.0.0.1:4317")));
    assert!(origin_allowed(Some("https://dais.local:4317"), Some("dais.local:4317")));
    assert!(!origin_allowed(Some("http://evil.example"), Some("127.0.0.1:4317")));
    assert!(!origin_allowed(Some("http://127.0.0.1:4317"), None));
}

#[test]
fn preloads_current_page_and_next_slide() {
    let groups = build_slide_groups(
        5,
        &vec![SlideGroupMeta { start_page: 1, end_page: 3 }],
        &std::collections::HashMap::new(),
    );
    let mut nav = SlideNavigation::new(5, groups);
    assert_eq!(preloaded_pages(&nav), vec![0, 1]);
    nav.next_slide();
    assert_eq!(preloaded_pages(&nav), vec![1, 4]);
    nav.next_slide();
    assert_eq!(preloaded_pages(&nav), vec![2, 4]);
    nav.last_slide();
    assert_eq!(preloaded_pages(&nav), vec![4]);
}

#[test]
fn start_server_rejects_configured_token_that_is_not_alphanumeric() {
    let mut settings = dais::remote::ServerSettings {
        enabled: true,
        host: "127.0.0.1".to_string(),
        port: 0,
        token: "not-a-normal-code".to_string(),
        generated_token: false,
        allow_unauthenticated_loopback: true,
    };
    let error = dais::remote::check_server_token(&settings).unwrap_err();
    assert_eq!(error, dais::remote::TokenError::InvalidCustomToken);
    assert!(error.message().contains("ASCII letters and digits"));

    settings.token = "Abc123".to_string();
    assert_eq!(dais::remote::check_server_token(&settings), Ok(()));

    settings.generated_token = true;
    assert_eq!(
        dais::remote::check_server_token(&settings),
        Err(dais::remote::TokenError::InvalidPairingCode)
    );
    settings.token = dais::remote::pairing_code_text(42);
    assert_eq!(dais::remote::check_server_token(&settings), Ok(()));
}

fn ip(octets: &[u8], is_loopback: bool, is_unspecified: bool) -> dais::remote::IpFacts {
    dais::remote::IpFacts { octets: octets.to_vec(), is_loopback, is_unspecified }
}

#[test]
fn wildcard_bind_urls_do_not_advertise_unspecified_address() {
    let urls = dais::remote::remote_urls("0.0.0.0:4317", 4317, false, true, None);
    assert!(urls.iter().any(|url| url == "http://127.0.0.1:4317/remote"));
    assert!(!urls.iter().any(|url| url.contains("0.0.0.0")));

    let urls = dais::remote::remote_urls("0.0.0.0:4317", 4317, false, true, Some("192.168.1.20"));
    assert_eq!(urls, vec!["http://127.0.0.1:4317/remote", "http://192.168.1.20:4317/remote"]);
}

#[test]
fn bound_address_urls_are_sorted_without_repeats() {
    let urls = dais::remote::remote_urls("127.0.0.1:4317", 4317, true, false, Some("10.0.0.5"));
    assert_eq!(urls, vec!["http://127.0.0.1:4317/remote"]);
    let urls = dais::remote::remote_urls("10.0.0.5:80", 80, false, false, Some("10.0.0.5"));
    assert_eq!(urls, vec!["http://10.0.0.5:80/remote"]);
    let urls = dais::remote::remote_urls("192.168.0.9:80", 80, false, false, Some("10.0.0.5"));
    assert_eq!(urls, vec!["http://10.0.0.5:80/remote", "http://192.168.0.9:80/remote"]);
}

#[test]
fn host_header_rejects_unknown_hostname_even_on_matching_port() {
    let name = dais::remote::host_header_name(Some("attacker.example:4317"), 4317).unwrap();
    assert_eq!(name, "attacker.example");
    let bind = Some(ip(&[127, 0, 0, 1], true, false));
    assert!(!dais::remote::host_name_allowed(&name, &None, &bind));
}

#[test]
fn host_header_allows_loopback_names_on_matching_port() {
    let name = dais::remote::host_header_name(Some("localhost:4317"), 4317).unwrap();
    let bind = Some(ip(&[127, 0, 0, 1], true, false));
    assert!(dais::remote::host_name_allowed(&name, &None, &bind));
    // Another port is refused before the name is looked at.
    assert_eq!(dais::remote::host_header_name(Some("localhost:8080"), 4317), None);
    assert_eq!(dais::remote::host_header_name(None, 4317), None);
}

#[test]
fn wildcard_bind_allows_ip_literal_host_on_matching_port() {
    let name = dais::remote::host_header_name(Some("192.168.50.25:4317"), 4317).unwrap();
    let host = Some(ip(&[192, 168, 50, 25], false, false));
    let bind = Some(ip(&[0, 0, 0, 0], false, true));
    assert!(dais::remote::host_name_allowed(&name, &host, &bind));
    // Bound to one address, another address is refused.
    let other_bind = Some(ip(&[192, 168, 50, 1], false, false));
    assert!(!dais::remote::host_name_allowed(&name, &host, &other_bind));
    let same_bind = Some(ip(&[192, 168, 50, 25], false, false));
    assert!(dais::remote::host_name_allowed(&name, &host, &same_bind));
}
