use calibre_web_automated_downloader::config::Config;
use calibre_web_automated_downloader::error::FetchError;
use calibre_web_automated_downloader::fetch::{
    html_get_page, status_is_success, Action, Event, PageFetch, APP_USER_AGENT,
};

fn config(max_retry: u32, default_sleep: u64) -> Config {
    Config {
        base_dir: String::new(),
        log_dir: "/var/logs".to_string(),
        tmp_dir: "/tmp/cwa-book-downloader".to_string(),
        ingest_dir: "/tmp/cwa-book-ingest".to_string(),
        status_timeout: 3600,
        max_retry,
        default_sleep,
        cloudflare_proxy: "http://localhost:8000".to_string(),
        use_cf_bypass: true,
        aa_donator_key: String::new(),
        aa_base_url: "https://annas-archive.org".to_string(),
        supported_formats: vec!["epub".to_string()],
        book_language: vec!["en".to_string()],
        flask_host: "0.0.0.0".to_string(),
        flask_port: 5003,
        flask_debug: false,
        log_file: "/var/logs/cwa-bookdownloader.log".to_string(),
        main_loop_sleep_time: 5,
    }
}

/// What one request meets at a scripted target.
#[derive(Clone)]
enum Reply {
    Unsendable(&'static str),
    Unreachable(&'static str),
    Response(u16, Result<&'static str, &'static str>),
}

/// What a scripted target saw of a fetch.
#[derive(Debug, Default, PartialEq)]
struct Journal {
    requests: Vec<String>,
    bodies_read: usize,
    sleeps: Vec<u64>,
}

/// Drives a fetch against a scripted target that answers the n-th request
/// with the n-th reply, and records what the fetch asked for.
fn play(mut fetch: PageFetch, replies: &[Reply]) -> (Option<Result<String, FetchError>>, Journal) {
    let mut journal = Journal::default();
    let mut pending: Option<Reply> = None;
    loop {
        let event = match fetch.action() {
            Action::Send { url, user_agent } => {
                let Some(reply) = replies.get(journal.requests.len()) else {
                    return (fetch.into_outcome(), journal);
                };
                assert_eq!(user_agent, APP_USER_AGENT);
                journal.requests.push(url.to_string());
                match reply {
                    Reply::Unsendable(cause) => {
                        Event::SendFailed { cause: cause.to_string(), malformed: true }
                    }
                    Reply::Unreachable(cause) => {
                        Event::SendFailed { cause: cause.to_string(), malformed: false }
                    }
                    Reply::Response(code, _) => {
                        pending = Some(reply.clone());
                        Event::Responded { code: *code }
                    }
                }
            }
            Action::ReadBody => {
                journal.bodies_read += 1;
                match pending.take() {
                    Some(Reply::Response(_, Ok(body))) => Event::BodyRead { body: body.to_string() },
                    Some(Reply::Response(_, Err(cause))) => {
                        Event::BodyFailed { cause: cause.to_string() }
                    }
                    _ => panic!("a body was asked for, and no response had come"),
                }
            }
            Action::Sleep { seconds } => {
                journal.sleeps.push(seconds);
                Event::Slept
            }
            Action::Stop => return (fetch.into_outcome(), journal),
        };
        fetch = fetch.advance(event);
    }
}

/// Runs a fetch with reqwest, as the application does.
async fn perform(mut fetch: PageFetch) -> Result<String, FetchError> {
    let client = reqwest::Client::new();
    let mut response = None;
    loop {
        let event = match fetch.action() {
            Action::Send { url, user_agent } => {
                match client.get(url).header("User-Agent", user_agent).send().await {
                    Ok(answer) => {
                        let code = answer.status().as_u16();
                        response = Some(answer);
                        Event::Responded { code }
                    }
                    Err(error) => Event::SendFailed {
                        cause: error.to_string(),
                        malformed: error.is_builder(),
                    },
                }
            }
            Action::ReadBody => match response.take() {
                Some(answer) => match answer.text().await {
                    Ok(body) => Event::BodyRead { body },
                    Err(error) => Event::BodyFailed { cause: error.to_string() },
                },
                None => unreachable!(),
            },
            Action::Sleep { seconds } => {
                tokio::time::sleep(std::time::Duration::from_secs(seconds)).await;
                Event::Slept
            }
            Action::Stop => return fetch.into_outcome().unwrap(),
        };
        fetch = fetch.advance(event);
    }
}

#[test]
fn test_html_get_page_success() {
    // Define the expected response body
    let expected_body = "<html><body>Success</body></html>";

    // The target responds with 200 OK and the expected body
    let replies = [Reply::Response(200, Ok(expected_body))];

    // Construct the URL for the endpoint
    let url = format!("{}/success", "http://127.0.0.1:8080");

    let (result, journal) = play(html_get_page(&config(3, 5), url), &replies);

    // Assert that the result matches the expected body
    assert_eq!(result.unwrap().unwrap(), expected_body);
    assert_eq!(journal.requests, vec!["http://127.0.0.1:8080/success".to_string()]);
    assert_eq!(journal.bodies_read, 1);
    assert_eq!(journal.sleeps, Vec::<u64>::new());
}

#[test]
fn test_html_get_page_retry_exhausted() {
    let settings = config(3, 5);

    // The target always responds with 500 Internal Server Error
    let replies = vec![Reply::Response(500, Ok("")); 10];

    // Construct the URL for the endpoint
    let url = format!("{}/always_fail", "http://127.0.0.1:8080");

    let (result, journal) = play(html_get_page(&settings, url), &replies);
    let result = result.unwrap();

    // Assert that the result is an error
    assert!(result.is_err(), "Expected an error after exhausting retries");
    // We expect exactly `max_retry` attempts
    assert_eq!(journal.requests.len(), settings.max_retry as usize);
    assert_eq!(result, Err(FetchError::Status { code: 500, attempts: 3 }));
    assert_eq!(journal.bodies_read, 0);
    assert_eq!(journal.sleeps, vec![5, 5]);
}

#[test]
fn test_html_get_page_invalid_url() {
    let runtime = tokio::runtime::Builder::new_current_thread().enable_all().build().unwrap();
    runtime.block_on(async {
        // Define an invalid URL
        let invalid_url = "http://".to_string(); // <-- deliberately broken

        let result = perform(html_get_page(&config(3, 5), invalid_url)).await;

        // Assert that the result is an error
        assert!(result.is_err(), "Expected an error for invalid URL");

        // A request that cannot be built is final: it counts one attempt.
        let error = result.unwrap_err();
        let expected_error = format!("Network error after {} attempts: builder error", 1);

        assert_eq!(error.message(), expected_error)
    });
}

#[test]
fn persistent_failure_uses_every_attempt() {
    for max_retry in 1..=6u32 {
        let replies = vec![Reply::Response(500, Ok("ignored")); 20];
        let (result, journal) =
            play(html_get_page(&config(max_retry, 2), "http://t/x".to_string()), &replies);
        assert_eq!(journal.requests.len(), max_retry as usize);
        assert_eq!(journal.sleeps, vec![2; max_retry as usize - 1]);
        assert_eq!(journal.bodies_read, 0);
        assert_eq!(result, Some(Err(FetchError::Status { code: 500, attempts: max_retry })));
    }
}

#[test]
fn last_failure_is_the_one_reported() {
    let replies = [
        Reply::Unreachable("connection refused"),
        Reply::Response(503, Ok("")),
        Reply::Response(200, Err("connection reset")),
    ];
    let (result, journal) = play(html_get_page(&config(3, 1), "http://t/x".to_string()), &replies);
    assert_eq!(
        result,
        Some(Err(FetchError::BodyRead { attempts: 3, cause: "connection reset".to_string() }))
    );
    assert_eq!(journal.requests.len(), 3);
    assert_eq!(journal.bodies_read, 1);
    assert_eq!(journal.sleeps, vec![1, 1]);

    let (result, _) = play(html_get_page(&config(2, 1), "http://t/x".to_string()), &replies);
    assert_eq!(result, Some(Err(FetchError::Status { code: 503, attempts: 2 })));

    let (result, _) = play(html_get_page(&config(1, 1), "http://t/x".to_string()), &replies);
    assert_eq!(
        result,
        Some(Err(FetchError::Network { attempts: 1, cause: "connection refused".to_string() }))
    );
}

#[test]
fn success_after_transient_failures() {
    for max_retry in 1..=5u32 {
        for failures in 0..max_retry {
            let mut replies = vec![Reply::Response(500, Ok("")); failures as usize];
            replies.push(Reply::Response(200, Ok("page")));
            replies.push(Reply::Response(200, Ok("never asked for")));
            let (result, journal) =
                play(html_get_page(&config(max_retry, 7), "http://t/x".to_string()), &replies);
            assert_eq!(result, Some(Ok("page".to_string())));
            assert_eq!(journal.requests.len(), failures as usize + 1);
            assert_eq!(journal.sleeps, vec![7; failures as usize]);
            assert_eq!(journal.bodies_read, 1);
        }
    }
}

#[test]
fn unsendable_request_is_not_tried_again() {
    for max_retry in 1..=4u32 {
        let replies = vec![Reply::Unsendable("builder error"); 5];
        let (result, journal) =
            play(html_get_page(&config(max_retry, 3), "http://".to_string()), &replies);
        assert_eq!(
            result,
            Some(Err(FetchError::Network { attempts: 1, cause: "builder error".to_string() }))
        );
        assert_eq!(journal.requests, vec!["http://".to_string()]);
        assert_eq!(journal.sleeps, Vec::<u64>::new());
    }
}

#[test]
fn no_attempt_allowed_sends_nothing() {
    let replies = vec![Reply::Response(200, Ok("page")); 3];
    let fetch = html_get_page(&config(0, 5), "http://t/x".to_string());
    assert_eq!(fetch.action(), Action::Stop);
    assert_eq!(fetch.attempt(), 0);
    let (result, journal) = play(fetch, &replies);
    assert_eq!(
        result,
        Some(Err(FetchError::RetriesExhausted { attempts: 0, url: "http://t/x".to_string() }))
    );
    assert_eq!(journal, Journal::default());
}

#[test]
fn fetch_without_replies_waits_to_send() {
    let fetch = html_get_page(&config(2, 5), "http://t/x".to_string());
    assert_eq!(fetch.action(), Action::Send { url: "http://t/x", user_agent: APP_USER_AGENT });
    assert_eq!(fetch.attempt(), 1);
    assert_eq!(fetch.url(), "http://t/x");
    let (result, journal) = play(fetch, &[]);
    assert_eq!(result, None);
    assert_eq!(journal, Journal::default());
}

#[test]
fn machine_moves_step_by_step() {
    let fetch = html_get_page(&config(2, 9), "http://t/x".to_string());
    let fetch = fetch.advance(Event::Responded { code: 404 });
    assert_eq!(fetch.action(), Action::Sleep { seconds: 9 });
    assert_eq!(fetch.attempt(), 1);
    let fetch = fetch.advance(Event::Slept);
    assert_eq!(fetch.action(), Action::Send { url: "http://t/x", user_agent: APP_USER_AGENT });
    assert_eq!(fetch.attempt(), 2);
    let fetch = fetch.advance(Event::Responded { code: 204 });
    assert_eq!(fetch.action(), Action::ReadBody);
    let fetch = fetch.advance(Event::BodyRead { body: String::new() });
    assert_eq!(fetch.action(), Action::Stop);
    assert_eq!(fetch.attempt(), 2);
    assert_eq!(fetch.into_outcome(), Some(Ok(String::new())));
}

#[test]
fn report_that_answers_nothing_changes_nothing() {
    let fetch = html_get_page(&config(2, 9), "http://t/x".to_string());
    // A request is due: neither a body nor the end of a wait answers it.
    let fetch = fetch.advance(Event::Slept);
    let fetch = fetch.advance(Event::BodyRead { body: "stray".to_string() });
    let fetch = fetch.advance(Event::BodyFailed { cause: "stray".to_string() });
    assert_eq!(fetch.action(), Action::Send { url: "http://t/x", user_agent: APP_USER_AGENT });
    assert_eq!(fetch.attempt(), 1);
    // A wait is due.
    let fetch = fetch.advance(Event::Responded { code: 500 });
    let fetch = fetch.advance(Event::Responded { code: 200 });
    let fetch = fetch.advance(Event::SendFailed { cause: "stray".to_string(), malformed: true });
    assert_eq!(fetch.action(), Action::Sleep { seconds: 9 });
    // A body is due.
    let fetch = fetch.advance(Event::Slept).advance(Event::Responded { code: 200 });
    let fetch = fetch.advance(Event::Slept);
    let fetch = fetch.advance(Event::Responded { code: 500 });
    assert_eq!(fetch.action(), Action::ReadBody);
    // Over.
    let fetch = fetch.advance(Event::BodyFailed { cause: "cut".to_string() });
    assert_eq!(fetch.action(), Action::Stop);
    let fetch = fetch.advance(Event::Slept).advance(Event::Responded { code: 200 });
    assert_eq!(
        fetch.into_outcome(),
        Some(Err(FetchError::BodyRead { attempts: 2, cause: "cut".to_string() }))
    );
}

#[test]
fn outcome_is_absent_until_the_fetch_is_over() {
    let fetch = html_get_page(&config(1, 0), "http://t/x".to_string());
    assert_eq!(fetch.into_outcome(), None);
    let fetch = html_get_page(&config(1, 0), "http://t/x".to_string())
        .advance(Event::Responded { code: 200 });
    assert_eq!(fetch.into_outcome(), None);
}

#[test]
fn success_is_200_to_299() {
    assert!(!status_is_success(199));
    assert!(status_is_success(200));
    assert!(status_is_success(204));
    assert!(status_is_success(299));
    assert!(!status_is_success(300));
    assert!(!status_is_success(404));
    assert!(!status_is_success(500));
    assert!(!status_is_success(0));
    assert!(!status_is_success(u16::MAX));
}

#[test]
fn user_agent_is_the_fixed_browser_string() {
    assert_eq!(
        APP_USER_AGENT,
        "Mozilla/5.0 (Windows NT 10.0; Win64; x64) AppleWebKit/537.36 (KHTML, like Gecko) Chrome/129.0.0.0 Safari/537.3"
    );
}

#[test]
fn attempt_counter_reaches_the_largest_bound() {
    let mut fetch = html_get_page(&config(u32::MAX, 0), "http://t/x".to_string());
    for _ in 0..1000 {
        fetch = fetch.advance(Event::Responded { code: 500 }).advance(Event::Slept);
    }
    assert_eq!(fetch.attempt(), 1001);
    assert_eq!(fetch.action(), Action::Send { url: "http://t/x", user_agent: APP_USER_AGENT });
}
