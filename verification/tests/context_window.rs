use websearch::conversation::{select_context, CONTEXT_TAIL};

#[test]
fn tail_is_ten_messages() {
    assert_eq!(CONTEXT_TAIL, 10);
}

#[test]
fn empty_conversation_sends_nothing() {
    assert!(select_context(0).is_empty());
}

#[test]
fn short_conversation_is_sent_whole() {
    assert_eq!(select_context(1), vec![0]);
    assert_eq!(select_context(2), vec![0, 1]);
    assert_eq!(select_context(11), (0..11).collect::<Vec<usize>>());
}

#[test]
fn long_conversation_sends_the_first_and_the_last_ten() {
    assert_eq!(
        select_context(12),
        vec![0, 2, 3, 4, 5, 6, 7, 8, 9, 10, 11]
    );
    assert_eq!(
        select_context(100),
        vec![0, 90, 91, 92, 93, 94, 95, 96, 97, 98, 99]
    );
}

#[test]
fn selection_is_the_first_and_the_last_ten_of_the_rest() {
    for len in 0..40usize {
        let all: Vec<usize> = (0..len).collect();
        let mut expected: Vec<usize> = all.first().copied().into_iter().collect();
        let mut tail: Vec<usize> = all.iter().skip(1).rev().take(10).copied().collect();
        tail.reverse();
        expected.extend(tail);
        assert_eq!(select_context(len), expected, "length {}", len);
    }
}
