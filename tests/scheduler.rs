use scrapy::scheduler::{contains_url, CrawlJob, Step};

fn s(x: &str) -> String {
    x.to_string()
}

fn dispatched(step: Step) -> String {
    match step {
        Step::Dispatch(u) => u,
        _ => panic!("expected a dispatch"),
    }
}

#[test]
fn cap_of_two_visits_start_and_first_link() {
    let mut job = CrawlJob::new(vec![s("A")], 0, 2, 2);
    assert_eq!(dispatched(job.next_step(0)), "A");
    job.complete(true, &vec![s("B"), s("C")]);
    assert_eq!(dispatched(job.next_step(1)), "B");
    assert!(matches!(job.next_step(2), Step::AwaitResults));
    assert!(job.frontier.is_empty());
    job.complete(true, &vec![s("D")]);
    assert!(matches!(job.next_step(3), Step::Finished));
    assert_eq!(job.visited, vec![s("A"), s("B")]);
    assert_eq!(job.pages_fetched, 2);
}

#[test]
fn each_url_dispatched_once() {
    let mut job = CrawlJob::new(vec![s("A"), s("A")], 0, 1, 10);
    assert_eq!(job.frontier, vec![s("A")]);
    assert_eq!(dispatched(job.next_step(0)), "A");
    job.complete(true, &vec![s("B"), s("A"), s("B"), s("C")]);
    assert_eq!(job.frontier, vec![s("B"), s("C")]);
    assert_eq!(dispatched(job.next_step(0)), "B");
    job.complete(true, &vec![s("C"), s("A")]);
    assert_eq!(dispatched(job.next_step(0)), "C");
    job.complete(true, &vec![s("A"), s("B")]);
    assert!(matches!(job.next_step(0), Step::Finished));
    assert_eq!(job.visited, vec![s("A"), s("B"), s("C")]);
}

#[test]
fn politeness_delay_between_dispatches() {
    let mut job = CrawlJob::new(vec![s("A"), s("B")], 200, 4, 10);
    assert_eq!(dispatched(job.next_step(1000)), "A");
    assert!(matches!(job.next_step(1100), Step::WaitUntil(1200)));
    assert!(matches!(job.next_step(1199), Step::WaitUntil(1200)));
    assert_eq!(dispatched(job.next_step(1200)), "B");
    assert_eq!(job.last_dispatch, Some(1200));
}

#[test]
fn delay_overflow_waits_forever() {
    let mut job = CrawlJob::new(vec![s("A"), s("B")], u64::MAX, 4, 10);
    assert_eq!(dispatched(job.next_step(5)), "A");
    assert!(matches!(job.next_step(u64::MAX), Step::WaitUntil(u64::MAX)));
}

#[test]
fn concurrency_one_never_overlaps() {
    let mut job = CrawlJob::new(vec![s("A"), s("B")], 0, 1, 10);
    assert_eq!(dispatched(job.next_step(0)), "A");
    assert!(matches!(job.next_step(0), Step::AwaitResults));
    job.complete(true, &Vec::new());
    assert_eq!(dispatched(job.next_step(0)), "B");
    assert_eq!(job.in_flight, 1);
}

#[test]
fn failed_page_adds_no_links() {
    let mut job = CrawlJob::new(vec![s("A")], 0, 1, 10);
    dispatched(job.next_step(0));
    job.complete(false, &vec![s("B")]);
    assert!(job.frontier.is_empty());
    assert_eq!(job.pages_fetched, 1);
    assert!(matches!(job.next_step(0), Step::Finished));
}

#[test]
fn zero_page_cap_fetches_nothing() {
    let mut job = CrawlJob::new(vec![s("A")], 0, 1, 0);
    assert!(matches!(job.next_step(0), Step::Finished));
    assert!(job.visited.is_empty());
    assert!(job.frontier.is_empty());
}

#[test]
fn empty_seed_list_finishes() {
    let mut job = CrawlJob::new(Vec::new(), 0, 1, 5);
    assert!(matches!(job.next_step(0), Step::Finished));
}

#[test]
fn membership_of_urls() {
    let v = vec![s("x"), s("y")];
    assert!(contains_url(&v, &s("y")));
    assert!(!contains_url(&v, &s("z")));
}
