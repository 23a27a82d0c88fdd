use ox_core::blog::{
    compose_body, cyclic_index, generate_blog_content, next_post, previous_post, title_from,
    ANCHOR, CORPUS,
};

#[test]
fn posts_are_never_empty() {
    let (t1, b1) = generate_blog_content(1);
    let (t2, b2) = generate_blog_content(1);
    assert!(!t1.is_empty());
    assert!(!b1.is_empty());
    assert!(!t2.is_empty());
    assert!(!b2.is_empty());
    assert_eq!(t1, t2);
}

#[test]
fn titles_take_four_words_of_the_sentence() {
    assert_eq!(generate_blog_content(0).0, "Rust is a systems");
    assert_eq!(generate_blog_content(1).0, "Dioxus is a modern");
    assert_eq!(generate_blog_content(19).0, "Documentation helps other developers");
    assert_eq!(generate_blog_content(21).0, "Rust is a systems");
}

#[test]
fn blank_sentence_gives_numbered_title() {
    assert_eq!(generate_blog_content(20).0, "Random Thoughts #20");
    assert_eq!(generate_blog_content(-1).0, "Random Thoughts #-1");
    assert_eq!(generate_blog_content(-2).0, "Documentation helps other developers");
}

#[test]
fn extreme_ids() {
    assert_eq!(generate_blog_content(i32::MIN).0, "Documentation helps other developers");
    assert_eq!(generate_blog_content(i32::MAX).0, "Dioxus is a modern");
    assert_eq!(title_from("", i32::MIN), "Random Thoughts #-2147483648");
}

#[test]
fn short_sentences_keep_all_words() {
    assert_eq!(title_from("one two. three", 0), "one two");
    assert_eq!(title_from("one two. three", 1), "three");
    assert_eq!(title_from("  a   b\tc d e f. x", 0), "a b c d");
}

#[test]
fn index_wraps_both_ways() {
    assert_eq!(cyclic_index(7, 5), 2);
    assert_eq!(cyclic_index(-1, 5), 4);
    assert_eq!(cyclic_index(-5, 5), 0);
    assert_eq!(cyclic_index(-6, 5), 4);
    assert_eq!(cyclic_index(i32::MIN, 21), 19);
}

#[test]
fn body_joins_non_empty_samples() {
    let more = vec!["".to_string(), "c d".to_string()];
    assert_eq!(compose_body(3, "a b", &more), "a b c d");
    assert_eq!(compose_body(3, "", &vec!["x".to_string()]), " x");
}

#[test]
fn body_falls_back_when_samples_are_empty() {
    assert_eq!(
        compose_body(42, "", &vec![String::new(), String::new()]),
        "This is a generated blog post using blog ID 42 as a seed. The content is created using Markov chains to produce pseudo-random but coherent text about Rust and web development."
    );
}

#[test]
fn body_comes_from_the_corpus() {
    let (_, body) = generate_blog_content(5);
    let first = body.split(' ').next().unwrap();
    assert!(CORPUS.split(' ').any(|w| w == first));
}

#[test]
fn body_starts_from_the_anchor() {
    assert!(CORPUS.split(' ').any(|w| w == ANCHOR));
    for id in [0, 1, 7, -3] {
        let (_, body) = generate_blog_content(id);
        assert!(body == ANCHOR || body.starts_with("Rust "));
        for token in body.split(' ') {
            assert!(CORPUS.split(' ').any(|w| w == token));
        }
    }
}

#[test]
fn neighbouring_posts() {
    assert_eq!(previous_post(5), Some(4));
    assert_eq!(previous_post(2), Some(1));
    assert_eq!(previous_post(1), None);
    assert_eq!(previous_post(-4), None);
    assert_eq!(next_post(5), Some(6));
    assert_eq!(next_post(-1), Some(0));
    assert_eq!(next_post(i32::MAX), None);
}
