use scrapy::ai::{build_prompt, build_system_prompt, join_with_commas, parse_ai_response, AiStream};
use scrapy::channel::Hub;
use scrapy::models::{Event, ScrapeError};

#[test]
fn tags_joined_with_commas() {
    let tags = vec!["name".to_string(), "price".to_string(), "url".to_string()];
    assert_eq!(join_with_commas(&tags), "name, price, url");
    assert_eq!(join_with_commas(&Vec::new()), "");
}

#[test]
fn prompt_names_fields_and_embeds_page() {
    let tags = vec!["title".to_string(), "price".to_string()];
    let p = build_prompt(&tags, "<p>x</p>");
    assert!(p.starts_with("Extract the following information: title, price.\n"));
    assert!(p.ends_with("HTML:\n<p>x</p>\n"));
    assert!(build_system_prompt().contains("pure JSON"));
}

#[test]
fn well_formed_array_parses() {
    let items = parse_ai_response("[{\"name\": \"a\"}, {\"name\": \"b\"}]").ok().unwrap();
    assert_eq!(items[0]["name"], serde_json::Value::String("a".to_string()));
    assert_eq!(items.len(), 2);
    assert_eq!(items[1]["name"], serde_json::Value::String("b".to_string()));
}

#[test]
fn truncated_json_is_ai_error() {
    assert!(matches!(parse_ai_response("[{\"name\": "), Err(ScrapeError::AI(_))));
    assert!(matches!(parse_ai_response(""), Err(ScrapeError::AI(_))));
    assert!(matches!(parse_ai_response("{\"name\": 1}"), Err(ScrapeError::AI(_))));
}

#[test]
fn chunks_forwarded_and_concatenated() {
    let mut hub = Hub::new();
    let mut stream = AiStream::new(&mut hub);
    stream.on_chunk(&mut hub, "[{\"a\":".to_string());
    stream.on_chunk(&mut hub, " 1}]".to_string());
    assert_eq!(stream.buffer, "[{\"a\": 1}]");
    let items = stream.finish(&mut hub).ok().unwrap();
    assert_eq!(items.len(), 1);
    assert_eq!(hub.log.len(), 5);
    assert!(matches!(&hub.log[0], Event::Progress(t) if t == "Starting AI processing..."));
    assert!(matches!(&hub.log[1], Event::ScrapingChunk(t) if t == "[{\"a\":"));
    assert!(matches!(&hub.log[2], Event::ScrapingChunk(t) if t == " 1}]"));
    assert!(matches!(&hub.log[3], Event::Progress(t) if t == "AI processing completed"));
    assert!(matches!(&hub.log[4], Event::Success(v) if *v == items));
}

#[test]
fn same_text_in_other_chunks_gives_same_items() {
    let mut hub = Hub::new();
    let mut one = AiStream::new(&mut hub);
    one.on_chunk(&mut hub, "[1, 2, {\"b\": [3]}]".to_string());
    let mut two = AiStream::new(&mut hub);
    two.on_chunk(&mut hub, "[1, 2, {".to_string());
    two.on_chunk(&mut hub, "\"b\": [3]}]".to_string());
    assert_eq!(one.finish(&mut hub).ok().unwrap(), two.finish(&mut hub).ok().unwrap());
}

#[test]
fn malformed_output_fails_without_items() {
    let mut hub = Hub::new();
    let mut stream = AiStream::new(&mut hub);
    stream.on_chunk(&mut hub, "[{\"a\": 1},".to_string());
    let r = stream.finish(&mut hub);
    let msg = match r {
        Err(ScrapeError::AI(m)) => m,
        _ => panic!("expected an AI error"),
    };
    assert!(!msg.is_empty());
    assert!(matches!(hub.log.last(), Some(Event::Error(t)) if *t == format!("Failed to parse AI response: {}", msg)));
    assert!(!hub.log.iter().any(|e| matches!(e, Event::Success(_))));
}

#[test]
fn empty_stream_fails() {
    let mut hub = Hub::new();
    let r = AiStream::new(&mut hub).finish(&mut hub);
    assert!(r.is_err());
    assert_eq!(hub.log.len(), 2);
}

#[test]
fn transport_failure_is_published() {
    let mut hub = Hub::new();
    let e = AiStream::new(&mut hub).fail(&mut hub, "timed out".to_string());
    assert!(matches!(e, ScrapeError::AI(m) if m == "timed out"));
    assert!(matches!(&hub.log[1], Event::Error(m) if m == "timed out"));
}
