use websearch::fetch::{into_outcome, Exchange, STATUS_CAUSE, TIMEOUT_CAUSE};

fn answer_with(status: u16) -> Exchange {
    Exchange::Answered {
        status,
        body: "body".to_string(),
    }
}

#[test]
fn status_of_success_brings_the_body() {
    for status in [200u16, 201, 204, 206, 299] {
        assert_eq!(into_outcome(answer_with(status)), Ok("body".to_string()));
    }
}

#[test]
fn any_other_status_is_a_failure() {
    for status in [0u16, 100, 199, 300, 304, 400, 404, 500, 599, u16::MAX] {
        assert_eq!(
            into_outcome(answer_with(status)),
            Err("the response status was no success".to_string())
        );
    }
    assert_eq!(STATUS_CAUSE, "the response status was no success");
}

#[test]
fn failed_exchange_keeps_its_cause() {
    assert_eq!(
        into_outcome(Exchange::Failed {
            cause: "dns error".to_string()
        }),
        Err("dns error".to_string())
    );
}

#[test]
fn deadline_that_passed_is_a_failure() {
    assert_eq!(into_outcome(Exchange::TimedOut), Err("timed out".to_string()));
    assert_eq!(TIMEOUT_CAUSE, "timed out");
}
