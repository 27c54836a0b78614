use websearch::content::extract_content;
use websearch::orchestrator::{plan_search, DEFAULT_TOP_K};
use websearch::query::{default_identities, search_request};
use websearch::results::extract_results;

const MIXED_PAGE: &str = r#"<html><body>
<a class="result__a" href="//duckduckgo.com/l/?uddg=https%3A%2F%2Fone.example%2F">1</a>
<p>first <i>second</i> third fourth fifth.</p>
<a class="result__a" title="no link">2</a>
<a href="//duckduckgo.com/l/?uddg=https%3A%2F%2Fskipped.example%2F">3</a>
<p></p>
<a class="result__a" href="">4</a>
<a class="other result__a" href="//duckduckgo.com/l/?uddg=https%3A%2F%2Ftwo.example%2F">5</a>
</body></html>"#;

#[test]
fn only_anchors_of_the_result_class_are_ranked() {
    let listing: Vec<(usize, String)> = extract_results(MIXED_PAGE)
        .iter()
        .map(|u| (u.rank(), u.url().to_string()))
        .collect();
    assert_eq!(
        listing,
        vec![
            (0, "https://one.example/".to_string()),
            (3, "https://two.example/".to_string()),
        ]
    );
}

#[test]
fn only_paragraphs_are_read_for_content() {
    assert_eq!(
        extract_content(MIXED_PAGE).fragments,
        vec!["first  second  third fourth fifth.".to_string()]
    );
}

#[test]
fn plan_holds_the_request_and_a_pause_within_bounds() {
    let pool = vec!["Agent/1".to_string()];
    for _ in 0..50 {
        let plan = plan_search("two words", &pool).expect("the pool is not empty");
        assert_eq!(plan.request, search_request("two words", "Agent/1"));
        assert!((2..=5).contains(&plan.delay_secs));
    }
    assert!(plan_search("q", &default_identities()).is_some());
}

#[test]
fn no_plan_without_an_identity() {
    assert_eq!(plan_search("q", &Vec::new()), None);
}

#[test]
fn three_targets_by_default() {
    assert_eq!(DEFAULT_TOP_K, 3);
}
