use calibre_web_automated_downloader::download::download_url;
use calibre_web_automated_downloader::error::{status_text, FetchError};

#[test]
fn network_failure_is_worded_with_attempts_and_cause() {
    let error = FetchError::Network { attempts: 3, cause: "builder error".to_string() };
    assert_eq!(error.message(), "Network error after 3 attempts: builder error");
    assert_eq!(error.attempts(), 3);
}

#[test]
fn status_failure_is_worded_with_the_registered_reason() {
    let error = FetchError::Status { code: 500, attempts: 3 };
    assert_eq!(
        error.message(),
        "Server returned non-success status 500 Internal Server Error after 3 attempts"
    );
    let error = FetchError::Status { code: 404, attempts: 12 };
    assert_eq!(
        error.message(),
        "Server returned non-success status 404 Not Found after 12 attempts"
    );
    assert_eq!(error.attempts(), 12);
}

#[test]
fn body_failure_is_worded_with_attempts_and_cause() {
    let error = FetchError::BodyRead { attempts: 1, cause: "error decoding response body".to_string() };
    assert_eq!(
        error.message(),
        "Failed to read response body after 1 attempts: error decoding response body"
    );
    assert_eq!(error.attempts(), 1);
}

#[test]
fn exhaustion_is_worded_with_attempts_and_url() {
    let error = FetchError::RetriesExhausted { attempts: 0, url: "http://t/x".to_string() };
    assert_eq!(error.message(), "Exhausted all retries (0 attempts) for URL: http://t/x");
    assert_eq!(error.attempts(), 0);
}

#[test]
fn status_text_is_number_and_reason() {
    assert_eq!(status_text(200), "200 OK");
    assert_eq!(status_text(418), "418 I'm a teapot");
    assert_eq!(status_text(503), "503 Service Unavailable");
}

#[test]
fn status_without_registered_reason_is_unknown() {
    assert_eq!(status_text(299), "299 <unknown status code>");
    assert_eq!(status_text(999), "999 <unknown status code>");
    assert_eq!(status_text(0), "0 <unknown status code>");
    assert_eq!(status_text(99), "99 <unknown status code>");
    assert_eq!(status_text(1000), "1000 <unknown status code>");
    assert_eq!(status_text(u16::MAX), "65535 <unknown status code>");
}

#[test]
fn download_hands_the_bytes_over() {
    assert_eq!(download_url(Ok(vec![0, 159, 146, 150])), Ok(vec![0, 159, 146, 150]));
    assert_eq!(download_url(Ok(Vec::new())), Ok(Vec::new()));
}

#[test]
fn download_failure_is_a_network_failure_after_one_attempt() {
    assert_eq!(
        download_url(Err("error sending request".to_string())),
        Err(FetchError::Network { attempts: 1, cause: "error sending request".to_string() })
    );
}
