use calibre_web_automated_downloader::bypass::{fetch_target, html_get_page_cf, percent_encode};
use calibre_web_automated_downloader::config::Config;
use calibre_web_automated_downloader::fetch::{Action, APP_USER_AGENT};

fn config(use_cf_bypass: bool, cloudflare_proxy: &str) -> Config {
    Config {
        base_dir: String::new(),
        log_dir: "/var/logs".to_string(),
        tmp_dir: "/tmp/cwa-book-downloader".to_string(),
        ingest_dir: "/tmp/cwa-book-ingest".to_string(),
        status_timeout: 3600,
        max_retry: 3,
        default_sleep: 5,
        cloudflare_proxy: cloudflare_proxy.to_string(),
        use_cf_bypass,
        aa_donator_key: String::new(),
        aa_base_url: "https://annas-archive.org".to_string(),
        supported_formats: vec!["epub".to_string()],
        book_language: vec!["en".to_string()],
        flask_host: "0.0.0.0".to_string(),
        flask_port: 5003,
        flask_debug: false,
        log_file: "/var/logs/cwa-bookdownloader.log".to_string(),
        main_loop_sleep_time: 5,
    }
}

#[test]
fn bypass_set_fetches_the_page_itself() {
    let settings = config(true, "http://localhost:8000");
    let url = "https://example.com/search?q=a b&lang=en#top";
    assert_eq!(fetch_target(&settings, url.to_string()), url);
    let fetch = html_get_page_cf(&settings, url.to_string());
    assert_eq!(fetch.url(), url);
    assert_eq!(fetch.action(), Action::Send { url, user_agent: APP_USER_AGENT });
    assert_eq!(fetch.attempt(), 1);
}

#[test]
fn bypass_unset_fetches_through_the_helper() {
    let settings = config(false, "http://localhost:8000");
    let url = "https://example.com/search?q=a b&lang=en#top";
    let expected =
        "http://localhost:8000/html?url=https%3A%2F%2Fexample.com%2Fsearch%3Fq%3Da%20b%26lang%3Den%23top";
    assert_eq!(fetch_target(&settings, url.to_string()), expected);
    let fetch = html_get_page_cf(&settings, url.to_string());
    assert_eq!(fetch.url(), expected);
    assert_eq!(fetch.action(), Action::Send { url: expected, user_agent: APP_USER_AGENT });
}

#[test]
fn helper_url_keeps_the_proxy_as_configured() {
    let settings = config(false, "https://proxy.example:8443/base");
    assert_eq!(
        fetch_target(&settings, "http://a.b/c".to_string()),
        "https://proxy.example:8443/base/html?url=http%3A%2F%2Fa.b%2Fc"
    );
    let settings = config(false, "");
    assert_eq!(fetch_target(&settings, String::new()), "/html?url=");
}

#[test]
fn routed_fetch_keeps_the_retry_bounds() {
    let mut settings = config(false, "http://localhost:8000");
    settings.max_retry = 0;
    let fetch = html_get_page_cf(&settings, "http://a.b/".to_string());
    assert_eq!(fetch.action(), Action::Stop);
    assert_eq!(fetch.url(), "http://localhost:8000/html?url=http%3A%2F%2Fa.b%2F");
}

#[test]
fn unreserved_bytes_stay() {
    let plain = "ABCDEFGHIJKLMNOPQRSTUVWXYZabcdefghijklmnopqrstuvwxyz0123456789-._~";
    assert_eq!(percent_encode(plain), plain);
    assert_eq!(percent_encode(""), "");
}

#[test]
fn other_bytes_become_percent_and_two_upper_case_digits() {
    assert_eq!(percent_encode(" "), "%20");
    assert_eq!(percent_encode("%"), "%25");
    assert_eq!(percent_encode("+"), "%2B");
    assert_eq!(percent_encode("/?#[]@!$&'()*,;=:"), "%2F%3F%23%5B%5D%40%21%24%26%27%28%29%2A%2C%3B%3D%3A");
    assert_eq!(percent_encode("\u{0}\u{1f}\u{7f}"), "%00%1F%7F");
    assert_eq!(percent_encode("\n"), "%0A");
}

#[test]
fn text_is_encoded_by_its_utf8_bytes() {
    assert_eq!(percent_encode("\u{e9}"), "%C3%A9");
    assert_eq!(percent_encode("\u{20ac}"), "%E2%82%AC");
    assert_eq!(percent_encode("\u{1f600}"), "%F0%9F%98%80");
    assert_eq!(percent_encode("a\u{e9}b"), "a%C3%A9b");
}

#[test]
fn helper_finds_the_page_url_in_its_query() {
    let settings = config(false, "http://localhost:8000");
    for page in [
        "https://example.com/",
        "https://example.com/search?q=a b&lang=en#top",
        "https://example.com/a%20b?x=1+2&y=%26",
        "http://user:pw@host:8080/p;a=b?c=d&e=f#g",
        "https://example.com/\u{e9}t\u{e9}/\u{1f600}?q=\u{20ac}",
        "",
        " ",
        "&url=https://evil.example/",
        "a=b&c=d#e",
    ] {
        let target = fetch_target(&settings, page.to_string());
        let parsed = url::Url::parse(&target).unwrap();
        assert_eq!(parsed.path(), "/html");
        assert_eq!(parsed.fragment(), None);
        let pairs: Vec<(String, String)> = parsed
            .query_pairs()
            .map(|(name, value)| (name.into_owned(), value.into_owned()))
            .collect();
        assert_eq!(pairs, vec![("url".to_string(), page.to_string())], "{:?}", page);
    }
}

#[test]
fn every_byte_is_kept_or_escaped() {
    for byte in 0u8..128 {
        let text = (byte as char).to_string();
        let encoded = percent_encode(&text);
        let kept = byte.is_ascii_alphanumeric() || b"-._~".contains(&byte);
        if kept {
            assert_eq!(encoded, text);
        } else {
            assert_eq!(encoded, format!("%{:02X}", byte));
        }
    }
}
