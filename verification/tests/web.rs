use cursor_server::web::address::{is_public, safe_resolution, Address};
use cursor_server::web::fetch::{
    add_chunk, check_addresses, check_length, endpoint, follow, parse_url, NetworkPolicy, WebFetch,
    FetchClient, MAX_RESPONSE_SIZE,
};
use cursor_server::web::page::{decode, page, readable_markdown};

fn v4(a: u8, b: u8, c: u8, d: u8) -> Address {
    Address::V4(u32::from_be_bytes([a, b, c, d]))
}

#[test]
fn only_globally_routable_addresses_are_public() {
    assert!(is_public(v4(1, 1, 1, 1)));
    assert!(!is_public(v4(127, 0, 0, 1)));
    assert!(!is_public(v4(10, 0, 0, 1)));
    assert!(is_public(Address::V6([0x2606, 0x4700, 0x4700, 0, 0, 0, 0, 0x1111])));
    assert!(!is_public(Address::V6([0, 0, 0, 0, 0, 0, 0, 1])));
    assert!(!is_public(Address::V6([0x2001, 0xdb8, 0, 0, 0, 0, 0, 1])));
    let proxy_ip = v4(198, 18, 1, 1);
    assert!(safe_resolution(proxy_ip, true));
    assert!(!safe_resolution(proxy_ip, false));
}

#[test]
fn decodes_case_insensitive_declared_charset() {
    assert_eq!(decode(&[0xe9], "text/plain; Charset=windows-1252").unwrap(), "é");
}

#[test]
fn preserves_plain_text() {
    let page = page("https://example.com/plain".into(), "text/plain", b"plain response").unwrap();
    assert_eq!(page.markdown, "plain response");
}

#[test]
fn binary_and_empty_answers_are_refused() {
    let binary = page("https://example.com/binary".into(), "image/png", &[0; 4]).unwrap_err();
    assert!(binary.message().contains("unsupported content type"));
    assert!(page("https://example.com/".into(), "text/plain", b"  ").is_err());
}

#[test]
fn only_the_readable_part_of_a_page_is_kept() {
    let html = r#"<!doctype html><html><head><title>Useful article</title></head><body>
        <nav>Site navigation</nav><article><h1>Useful article</h1>
        <p>Readable paragraph with enough useful words to be selected as the main article content for this deterministic test fixture.</p>
        <p>A second meaningful paragraph makes article extraction stable and representative of a real web page.</p>
        </article><script>window.secret = true</script></body></html>"#;
    let markdown = readable_markdown(html, "https://example.com/article").unwrap();
    assert!(markdown.contains("# Useful article"));
    assert!(markdown.contains("Readable paragraph"));
    assert!(!markdown.contains("Site navigation"));
    assert!(!markdown.contains("window.secret"));
}

#[test]
fn bodies_are_read_up_to_a_size() {
    let mut body = Vec::new();
    assert!(add_chunk(&mut body, &vec![0; MAX_RESPONSE_SIZE]).is_ok());
    let error = add_chunk(&mut body, &vec![0]).unwrap_err();
    assert!(error.message().contains("5 MiB"));
    assert!(check_length(Some("5242880")).is_ok());
    assert!(check_length(Some("5242881")).is_err());
    assert!(check_length(None).is_ok());
}

#[test]
fn addresses_are_read_and_followed() {
    let parts = parse_url("https://Example.com/a/b?x=1").unwrap();
    assert_eq!(parts.host.as_deref(), Some("example.com"));
    assert_eq!(parts.path, "/a/b");
    assert_eq!(endpoint(&parts).unwrap(), ("example.com".to_string(), 443));
    assert_eq!(follow(&parts, "../c").unwrap().whole, "https://example.com/c");
    assert!(follow(&parts, "ftp://example.com/").is_err());
    assert_eq!(parse_url("ftp://example.com").unwrap_err().message(), "web fetch failed: URL must use http or https");
    assert_eq!(
        parse_url("https://user@example.com").unwrap_err().message(),
        "web fetch failed: URL credentials are not allowed"
    );
    assert_eq!(
        parse_url("nonsense").unwrap_err().message(),
        "web fetch failed: invalid URL: relative URL without a base"
    );
}

#[test]
fn private_addresses_are_refused_where_only_public_ones_may_be_asked() {
    let private = vec![v4(10, 0, 0, 1)];
    assert!(check_addresses(NetworkPolicy::PublicOnly, &private, true).is_err());
    assert!(check_addresses(NetworkPolicy::Any, &private, true).is_ok());
    assert!(check_addresses(NetworkPolicy::PublicOnly, &vec![v4(1, 1, 1, 1)], true).is_ok());
    assert_eq!(WebFetch::built_in().client, FetchClient::Direct);
    assert_eq!(WebFetch::managed().client, FetchClient::Managed);
}
