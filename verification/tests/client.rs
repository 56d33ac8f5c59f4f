//! URL construction and parameter assembly, checked on concrete values
//! and cross-checked against the `url` and `form_urlencoded` crates.

use shodan_client::add_optional_parameter;
use shodan_client::params::ParameterMap;
use shodan_client::urlenc::{encode_form_component, encode_path};
use shodan_client::ShodanClient;

#[test]
fn end_to_end_url() {
    let client = ShodanClient::new(String::from("ABC123"));
    let url = client.build_request_url("/shodan/host/8.8.8.8", None);
    assert_eq!(url, "https://api.shodan.io/shodan/host/8.8.8.8?key=ABC123");
}

#[test]
fn url_with_parameters() {
    let client = ShodanClient::new(String::from("KEY"));
    let mut params = ParameterMap::new();
    params.insert(String::from("query"), String::from("apache"));
    params.insert(String::from("page"), String::from("2"));
    let url = client.build_request_url("/shodan/host/search", Some(&params));
    assert_eq!(
        url,
        "https://api.shodan.io/shodan/host/search?key=KEY&query=apache&page=2"
    );
}

#[test]
fn url_parse_back() {
    let client = ShodanClient::new(String::from("KEY"));
    let mut params = ParameterMap::new();
    params.insert(String::from("query"), String::from("port:22 country:DE"));
    let built = client.build_request_url("/shodan/host/search", Some(&params));
    let parsed = url::Url::parse(&built).unwrap();
    assert_eq!(parsed.host_str(), Some("api.shodan.io"));
    assert_eq!(parsed.scheme(), "https");
    assert_eq!(parsed.path(), "/shodan/host/search");
    let pairs: Vec<(String, String)> = parsed
        .query_pairs()
        .map(|(k, v)| (k.into_owned(), v.into_owned()))
        .collect();
    assert_eq!(
        pairs,
        vec![
            (String::from("key"), String::from("KEY")),
            (String::from("query"), String::from("port:22 country:DE")),
        ]
    );
}

#[test]
fn url_key_is_form_encoded() {
    let client = ShodanClient::new(String::from("a b&c=d"));
    let url = client.build_request_url("/api-info", None);
    assert_eq!(url, "https://api.shodan.io/api-info?key=a+b%26c%3Dd");
}

#[test]
fn url_path_missing_slash_is_made_absolute() {
    let client = ShodanClient::new(String::from("K"));
    let url = client.build_request_url("shodan/ports", None);
    assert_eq!(url, "https://api.shodan.io/shodan/ports?key=K");
}

#[test]
fn url_path_is_percent_encoded_like_the_url_crate() {
    let endpoint = "/dns/resolve me/a\"b<c>d`e{f}g#h?i";
    let mine = encode_path(endpoint);
    let mut reference = url::Url::parse("https://api.shodan.io").unwrap();
    reference.set_path(endpoint);
    assert_eq!(mine, reference.path());
}

#[test]
fn form_encoding_matches_the_form_urlencoded_crate() {
    let samples = [
        "plain",
        "With Spaces and *-._ kept",
        "reserved &=?/#+%",
        "unicode \u{00e9}\u{4e16}\u{754c}",
        "",
    ];
    for sample in samples {
        let mine = encode_form_component(sample);
        let reference: String = form_urlencoded::byte_serialize(sample.as_bytes()).collect();
        assert_eq!(mine, reference);
    }
}

#[test]
fn concurrent_builds_do_not_interfere() {
    let client = ShodanClient::new(String::from("KEY"));
    let other = client.clone();
    let mut first = ParameterMap::new();
    first.insert(String::from("query"), String::from("nginx"));
    let mut second = ParameterMap::new();
    second.insert(String::from("query"), String::from("apache"));
    let url_first = client.build_request_url("/shodan/host/search", Some(&first));
    let url_second = other.build_request_url("/shodan/host/search", Some(&second));
    assert_eq!(
        url_first,
        "https://api.shodan.io/shodan/host/search?key=KEY&query=nginx"
    );
    assert_eq!(
        url_second,
        "https://api.shodan.io/shodan/host/search?key=KEY&query=apache"
    );
}

#[test]
fn absent_parameter_is_not_added() {
    let mut params = ParameterMap::new();
    add_optional_parameter("page", None::<u32>, &mut params);
    assert_eq!(params.len(), 0);
}

#[test]
fn present_parameter_is_added_once_with_its_text_form() {
    let mut params = ParameterMap::new();
    add_optional_parameter("port", Some(443u32), &mut params);
    add_optional_parameter("minify", Some(true), &mut params);
    assert_eq!(params.len(), 2);
    assert_eq!(params.key_at(0).as_str(), "port");
    assert_eq!(params.value_at(0).as_str(), "443");
    assert_eq!(params.key_at(1).as_str(), "minify");
    assert_eq!(params.value_at(1).as_str(), "true");
}

#[test]
fn inserting_an_existing_key_replaces_its_value_in_place() {
    let mut params = ParameterMap::new();
    params.insert(String::from("page"), String::from("1"));
    params.insert(String::from("query"), String::from("ssh"));
    params.insert(String::from("page"), String::from("2"));
    assert_eq!(params.len(), 2);
    assert_eq!(params.key_at(0).as_str(), "page");
    assert_eq!(params.value_at(0).as_str(), "2");
    assert_eq!(params.key_at(1).as_str(), "query");
    assert_eq!(params.value_at(1).as_str(), "ssh");
}

#[test]
fn an_empty_parameter_map_adds_nothing() {
    let client = ShodanClient::new(String::from("K"));
    let params = ParameterMap::new();
    let with_empty = client.build_request_url("/tools/myip", Some(&params));
    let with_none = client.build_request_url("/tools/myip", None);
    assert_eq!(with_empty, with_none);
    assert_eq!(with_none, "https://api.shodan.io/tools/myip?key=K");
}

#[test]
fn an_empty_endpoint_becomes_the_root_path() {
    let client = ShodanClient::new(String::from("K"));
    let url = client.build_request_url("", None);
    assert_eq!(url, "https://api.shodan.io/?key=K");
}
