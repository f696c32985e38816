use scrapy::channel::Hub;
use scrapy::models::{Event, ScrapeError, ScrapeParams, TokenCounts};
use scrapy::scheduler::Step;
use scrapy::session::{error_message, CrawlConfig, Phase, Session};

fn params(url: &str, scraping: bool, tags: &[&str], pagination: bool) -> ScrapeParams {
    ScrapeParams {
        url: url.to_string(),
        model: "gemini".to_string(),
        enable_scraping: scraping,
        tags: tags.iter().map(|t| t.to_string()).collect(),
        enable_pagination: pagination,
        pagination_details: None,
    }
}

fn config(max_pages: usize) -> CrawlConfig {
    CrawlConfig { delay: 0, max_concurrency: 1, max_pages }
}

#[test]
fn empty_tags_with_scraping_fail_fast() {
    let mut hub = Hub::new();
    let r = Session::start(params("https://a.test/", true, &[], false), vec!["p".to_string()], config(5), &mut hub);
    assert!(matches!(r, Err(ScrapeError::InvalidRequest(_))));
    assert_eq!(hub.log.len(), 1);
    assert!(matches!(&hub.log[0], Event::Error(_)));
}

#[test]
fn empty_url_is_invalid() {
    let mut hub = Hub::new();
    let r = Session::start(params("", false, &[], false), Vec::new(), config(5), &mut hub);
    assert!(matches!(r, Err(ScrapeError::InvalidRequest(_))));
}

#[test]
fn bad_selector_is_invalid() {
    let mut hub = Hub::new();
    let r = Session::start(params("https://a.test/", false, &[], false), vec!["[[".to_string()], config(5), &mut hub);
    assert!(matches!(r, Err(ScrapeError::InvalidRequest(_))));
}

#[test]
fn without_scraping_no_ai_step() {
    let mut hub = Hub::new();
    let mut s = Session::start(params("https://a.test/", false, &[], false), vec!["p".to_string()], config(5), &mut hub)
        .ok()
        .unwrap();
    let url = match s.next_step(0) {
        Step::Dispatch(u) => u,
        _ => panic!("expected a dispatch"),
    };
    assert_eq!(url, "https://a.test/");
    let prompt = s.on_page(&mut hub, &url, Ok("<p>x</p><p>y</p>".to_string()));
    assert!(prompt.is_none());
    assert!(matches!(s.next_step(0), Step::Finished));
    let idx = s.finish(&mut hub);
    assert_eq!(s.phase, Phase::Completed);
    assert!(matches!(&hub.log[idx], Event::Success(items) if items.is_empty()));
    assert!(hub.log.iter().all(|e| matches!(e, Event::Progress(_) | Event::RawItem(_) | Event::Success(_))));
    assert!(matches!(&hub.log[1], Event::RawItem(t) if t == "x"));
    assert!(matches!(&hub.log[2], Event::RawItem(t) if t == "y"));
}

#[test]
fn pagination_follows_links_up_to_cap() {
    let mut hub = Hub::new();
    let mut s = Session::start(params("https://a.test/", false, &[], true), vec!["h1".to_string()], config(2), &mut hub)
        .ok()
        .unwrap();
    let a = match s.next_step(0) {
        Step::Dispatch(u) => u,
        _ => panic!("expected a dispatch"),
    };
    s.on_page(&mut hub, &a, Ok("<h1>A</h1><a href=\"/b\">b</a><a href=\"/c\">c</a>".to_string()));
    let b = match s.next_step(0) {
        Step::Dispatch(u) => u,
        _ => panic!("expected a dispatch"),
    };
    assert_eq!(b, "https://a.test/b");
    s.on_page(&mut hub, &b, Ok("<h1>B</h1><a href=\"/d\">d</a>".to_string()));
    assert!(matches!(s.next_step(0), Step::Finished));
    assert_eq!(s.job.visited, vec!["https://a.test/".to_string(), "https://a.test/b".to_string()]);
}

#[test]
fn scraping_hands_back_prompt_and_merges_items() {
    let mut hub = Hub::new();
    let mut s = Session::start(params("https://a.test/", true, &["title"], false), vec!["h1".to_string()], config(3), &mut hub)
        .ok()
        .unwrap();
    let a = match s.next_step(0) {
        Step::Dispatch(u) => u,
        _ => panic!("expected a dispatch"),
    };
    let prompt = s.on_page(&mut hub, &a, Ok("<h1>T</h1>".to_string())).unwrap();
    assert!(prompt.contains("title"));
    assert!(prompt.contains("<h1>T</h1>"));
    let items: Vec<serde_json::Value> = serde_json::from_str("[{\"title\": \"T\"}]").unwrap();
    s.on_ai_result(Ok(items));
    s.on_ai_result(Err(ScrapeError::AI("bad".to_string())));
    assert_eq!(s.items.len(), 1);
    let idx = s.finish(&mut hub);
    assert!(matches!(&hub.log[idx], Event::Success(items) if items.len() == 1));
    assert!(s.items.is_empty());
}

#[test]
fn fetch_failure_does_not_stop_session() {
    let mut hub = Hub::new();
    let mut s = Session::start(params("https://a.test/", false, &[], false), vec!["p".to_string()], config(3), &mut hub)
        .ok()
        .unwrap();
    let a = match s.next_step(0) {
        Step::Dispatch(u) => u,
        _ => panic!("expected a dispatch"),
    };
    let r = s.on_page(&mut hub, &a, Err(ScrapeError::Fetch("timeout".to_string())));
    assert!(r.is_none());
    assert!(matches!(hub.log.last(), Some(Event::Error(m)) if m == "timeout"));
    assert_eq!(s.phase, Phase::Running);
    assert!(matches!(s.next_step(0), Step::Finished));
}

#[test]
fn fatal_error_stops_dispatch() {
    let mut hub = Hub::new();
    let mut s = Session::start(params("https://a.test/", false, &[], false), vec!["p".to_string()], config(3), &mut hub)
        .ok()
        .unwrap();
    s.fail(&mut hub, "missing API key");
    assert_eq!(s.phase, Phase::Failed);
    assert!(matches!(s.next_step(0), Step::Finished));
    assert!(matches!(hub.log.last(), Some(Event::Error(m)) if m == "missing API key"));
}

#[test]
fn error_messages() {
    assert_eq!(error_message(&ScrapeError::Parse("p".to_string())), "p");
    assert_eq!(error_message(&ScrapeError::ChannelClosed), "subscriber disconnected");
}

#[test]
fn token_counts_saturate() {
    let a = TokenCounts { input_tokens: 10, output_tokens: u32::MAX - 1 };
    let b = TokenCounts { input_tokens: 5, output_tokens: 7 };
    assert_eq!(a.merge(&b), TokenCounts { input_tokens: 15, output_tokens: u32::MAX });
}

#[test]
fn zero_concurrency_is_invalid() {
    let mut hub = Hub::new();
    let cfg = CrawlConfig { delay: 0, max_concurrency: 0, max_pages: 5 };
    let r = Session::start(params("https://a.test/", false, &[], false), Vec::new(), cfg, &mut hub);
    assert!(matches!(r, Err(ScrapeError::InvalidRequest(_))));
}

#[test]
fn page_after_failure_is_discarded() {
    let mut hub = Hub::new();
    let mut s = Session::start(params("https://a.test/", true, &["t"], true), vec!["p".to_string()], config(3), &mut hub)
        .ok()
        .unwrap();
    let a = match s.next_step(0) {
        Step::Dispatch(u) => u,
        _ => panic!("expected a dispatch"),
    };
    s.fail(&mut hub, "fatal");
    let r = s.on_page(&mut hub, &a, Ok("<p>x</p><a href=\"/b\">b</a>".to_string()));
    assert!(r.is_none());
    assert!(matches!(hub.log.last(), Some(Event::Error(m)) if m == "fatal"));
    assert!(s.job.frontier.is_empty());
    assert!(matches!(s.next_step(0), Step::Finished));
}

#[test]
fn missing_key_fails_only_with_scraping() {
    let mut hub = Hub::new();
    let mut s = Session::start(params("https://a.test/", true, &["t"], false), Vec::new(), config(3), &mut hub)
        .ok()
        .unwrap();
    assert!(!s.check_api_key(&mut hub, ""));
    assert_eq!(s.phase, Phase::Failed);
    assert!(matches!(hub.log.last(), Some(Event::Error(m)) if m == "missing API key"));
    let mut quiet = Session::start(params("https://a.test/", false, &[], false), Vec::new(), config(3), &mut hub)
        .ok()
        .unwrap();
    assert!(quiet.check_api_key(&mut hub, ""));
    assert_eq!(quiet.phase, Phase::Running);
}
