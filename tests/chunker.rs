use rag_pipeline::chunker::split_into_chunks;

#[test]
fn empty_text_has_no_chunks() {
    assert!(split_into_chunks("", 10).is_empty());
}

#[test]
fn blank_lines_contribute_nothing() {
    assert!(split_into_chunks("  \n\t\n   ", 3).is_empty());
}

#[test]
fn wraps_at_the_limit_across_lines() {
    let r = split_into_chunks("hello\n  world  ", 4);
    assert_eq!(r, vec!["hel", "low", "orl", "d"]);
}

#[test]
fn multibyte_characters_count_by_bytes() {
    let r = split_into_chunks("жж", 4);
    assert_eq!(r, vec!["ж", "ж"]);
}

#[test]
fn a_character_wider_than_the_limit_stands_alone() {
    let r = split_into_chunks("ж", 1);
    assert_eq!(r, vec!["ж"]);
    let r = split_into_chunks("ab", 1);
    assert_eq!(r, vec!["a", "b"]);
}

#[test]
fn inner_space_may_form_its_own_chunk() {
    let r = split_into_chunks("a b", 2);
    assert_eq!(r, vec!["a", " ", "b"]);
}

#[test]
fn short_text_is_one_chunk() {
    let r = split_into_chunks("  one line  \ntwo", 128);
    assert_eq!(r, vec!["one linetwo"]);
}
