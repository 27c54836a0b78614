use websearch::error::{FetchError, NetworkError};
use websearch::fetch::Exchange;
use websearch::orchestrator::{Orchestrator, MAX_WORKERS};

fn answered(body: String) -> Exchange {
    Exchange::Answered { status: 200, body }
}

fn failed(cause: &str) -> Exchange {
    Exchange::Failed {
        cause: cause.to_string(),
    }
}

fn result_page(destinations: &[&str]) -> String {
    let mut page = String::from("<html><body>");
    for destination in destinations {
        let encoded = destination.replace(':', "%3A").replace('/', "%2F");
        page.push_str(&format!(
            "<a class=\"result__a\" href=\"//duckduckgo.com/l/?uddg={}\">hit</a>",
            encoded
        ));
    }
    page.push_str("</body></html>");
    page
}

fn page(paragraphs: &[&str]) -> String {
    let mut page = String::from("<html><body>");
    for paragraph in paragraphs {
        page.push_str(&format!("<p>{}</p>", paragraph));
    }
    page.push_str("</body></html>");
    page
}

fn started(top_k: usize, destinations: &[&str]) -> Orchestrator {
    let mut run = Orchestrator::new(top_k, top_k);
    run.search_finished(answered(result_page(destinations)));
    run
}

const FIVE: [&str; 5] = [
    "https://one.example/",
    "https://duckduckgo.com/ad",
    "https://two.example/",
    "https://three.example/",
    "https://four.example/",
];

#[test]
fn all_three_fetches_fail() {
    let mut run = started(3, &FIVE);
    assert_eq!(run.targets().len(), 3);
    run.page_finished(0, failed("connection refused"));
    run.page_finished(
        1,
        Exchange::Answered {
            status: 500,
            body: page(&["The body of an error page is no content."]),
        },
    );
    run.page_finished(2, Exchange::TimedOut);
    assert!(run.is_complete());
    let result = run.finish().expect("the search succeeded");
    assert!(result.is_empty());
    assert!(result.fragments.is_empty());
    assert_eq!(result.text(), "");
}

#[test]
fn failed_search_is_the_only_error() {
    let mut run = Orchestrator::new(3, 3);
    run.search_finished(failed("dns failure"));
    assert!(run.targets().is_empty());
    assert!(run.is_complete());
    assert_eq!(
        run.finish(),
        Err(NetworkError {
            cause: "dns failure".to_string()
        })
    );
}

#[test]
fn search_answered_without_success_fails_the_run() {
    for status in [199u16, 300, 301, 404, 429, 500, 503] {
        let mut run = Orchestrator::new(3, 3);
        run.search_finished(Exchange::Answered {
            status,
            body: result_page(&FIVE),
        });
        assert!(run.targets().is_empty());
        assert_eq!(
            run.finish(),
            Err(NetworkError {
                cause: "the response status was no success".to_string()
            })
        );
    }
}

#[test]
fn search_that_timed_out_fails_the_run() {
    let mut run = Orchestrator::new(3, 3);
    run.search_finished(Exchange::TimedOut);
    assert_eq!(
        run.finish(),
        Err(NetworkError {
            cause: "timed out".to_string()
        })
    );
}

#[test]
fn failed_search_yields_no_partial_data() {
    let mut run = Orchestrator::new(3, 3);
    run.search_finished(failed("status 503"));
    run.page_finished(0, answered(page(&["This page was never asked for at all."])));
    run.search_finished(answered(result_page(&FIVE)));
    assert!(run.targets().is_empty());
    let error = run.finish().expect_err("the search failed");
    assert_eq!(error.message(), "search request failed: status 503");
}

#[test]
fn targets_are_the_first_top_k_in_rank_order() {
    let run = started(3, &FIVE);
    let listing: Vec<(usize, &str)> = run.targets().iter().map(|t| (t.rank(), t.url())).collect();
    assert_eq!(
        listing,
        vec![
            (0, "https://one.example/"),
            (2, "https://two.example/"),
            (3, "https://three.example/"),
        ]
    );
}

#[test]
fn fewer_results_than_top_k() {
    let run = started(5, &["https://one.example/", "https://duckduckgo.com/x"]);
    assert_eq!(run.targets().len(), 1);
    assert_eq!(run.workers(), 1);
}

#[test]
fn zero_results_is_a_success() {
    let run = started(3, &[]);
    assert!(run.targets().is_empty());
    assert!(run.is_complete());
    assert_eq!(run.workers(), 0);
    let result = run.finish().expect("zero results is no error");
    assert!(result.is_empty());
}

#[test]
fn top_k_of_zero_fetches_nothing() {
    let run = started(0, &FIVE);
    assert!(run.targets().is_empty());
    assert!(run.finish().expect("no error").is_empty());
}

#[test]
fn pages_are_merged_in_rank_order_whatever_the_order_of_arrival() {
    let first = page(&["The first page has this one sentence.", "nav"]);
    let second = page(&["The second page comes with two of them.", "Here is the other one of them!"]);
    let third = page(&["Is the third page the last one here?"]);

    let mut in_order = started(3, &FIVE);
    in_order.page_finished(0, answered(first.clone()));
    in_order.page_finished(1, answered(second.clone()));
    in_order.page_finished(2, answered(third.clone()));

    let mut shuffled = started(3, &FIVE);
    assert!(!shuffled.is_complete());
    shuffled.page_finished(2, answered(third));
    shuffled.page_finished(0, answered(first));
    assert!(!shuffled.is_complete());
    shuffled.page_finished(1, answered(second));
    assert!(shuffled.is_complete());

    let expected = vec![
        "The first page has this one sentence.".to_string(),
        "The second page comes with two of them.".to_string(),
        "Here is the other one of them!".to_string(),
        "Is the third page the last one here?".to_string(),
    ];
    let in_order = in_order.finish().expect("the search succeeded");
    let shuffled = shuffled.finish().expect("the search succeeded");
    assert_eq!(in_order.fragments, expected);
    assert_eq!(shuffled, in_order);
    assert_eq!(
        shuffled.text(),
        "The first page has this one sentence.\nThe second page comes with two of them.\nHere is the other one of them!\nIs the third page the last one here?"
    );
}

#[test]
fn failed_page_is_skipped_and_reported() {
    let mut run = started(3, &FIVE);
    run.page_finished(1, Exchange::TimedOut);
    run.page_finished(2, answered(page(&["Only this page came back in time."])));
    run.page_finished(0, failed("connection reset"));
    assert_eq!(
        run.failures(),
        vec![
            FetchError {
                url: "https://one.example/".to_string(),
                cause: "connection reset".to_string()
            },
            FetchError {
                url: "https://two.example/".to_string(),
                cause: "timed out".to_string()
            },
        ]
    );
    assert_eq!(
        run.failures()[0].message(),
        "failed to fetch https://one.example/: connection reset"
    );
    let result = run.finish().expect("the search succeeded");
    assert_eq!(result.fragments, vec!["Only this page came back in time.".to_string()]);
}

#[test]
fn first_answer_for_a_target_stands() {
    let mut run = started(2, &FIVE);
    run.page_finished(0, failed("timed out"));
    run.page_finished(0, answered(page(&["This answer came too late to count."])));
    run.page_finished(1, answered(page(&["This answer was the first for its target."])));
    run.page_finished(1, failed("late failure"));
    let result = run.finish().expect("the search succeeded");
    assert_eq!(
        result.fragments,
        vec!["This answer was the first for its target.".to_string()]
    );
}

#[test]
fn answer_for_no_target_changes_nothing() {
    let mut run = started(2, &FIVE);
    run.page_finished(2, answered(page(&["There is no third target in this run."])));
    run.page_finished(usize::MAX, failed("nothing"));
    assert!(!run.is_complete());
    assert!(run.failures().is_empty());
    assert!(run.finish().expect("the search succeeded").is_empty());
}

#[test]
fn page_that_is_still_waited_for_adds_nothing() {
    let mut run = started(3, &FIVE);
    run.page_finished(1, answered(page(&["Only the second page made it back."])));
    assert!(!run.is_complete());
    let result = run.finish().expect("the search succeeded");
    assert_eq!(result.fragments, vec!["Only the second page made it back.".to_string()]);
}

#[test]
fn second_search_answer_is_ignored() {
    let mut run = started(3, &["https://one.example/"]);
    run.search_finished(answered(result_page(&FIVE)));
    run.search_finished(failed("late"));
    assert_eq!(run.targets().len(), 1);
    assert!(run.finish().is_ok());
}

#[test]
fn workers_are_bounded() {
    let ten: Vec<String> = (0..10).map(|i| format!("https://site{}.example/", i)).collect();
    let ten: Vec<&str> = ten.iter().map(|s| s.as_str()).collect();
    assert_eq!(MAX_WORKERS, 5);

    let mut run = Orchestrator::new(10, 10);
    run.search_finished(answered(result_page(&ten)));
    assert_eq!(run.targets().len(), 10);
    assert_eq!(run.workers(), 5);

    let mut run = Orchestrator::new(10, 3);
    run.search_finished(answered(result_page(&ten)));
    assert_eq!(run.workers(), 3);

    let mut run = Orchestrator::new(2, 4);
    run.search_finished(answered(result_page(&ten)));
    assert_eq!(run.workers(), 2);

    let mut run = Orchestrator::new(4, 0);
    run.search_finished(answered(result_page(&ten)));
    assert_eq!(run.workers(), 1);

    assert_eq!(Orchestrator::new(4, 4).workers(), 0);
}
