use nerva::clean::clean;

#[test]
fn strips_reasoning_block_across_lines() {
    let raw = "<think>abc\ndef</think>visible";
    assert_eq!(clean(raw), "visible");
}

#[test]
fn no_tags_left_unchanged() {
    let raw = "a perfectly ordinary reply";
    assert_eq!(clean(raw), raw);
}

#[test]
fn idempotent_without_block() {
    let raw = "no reasoning here";
    let once = clean(raw);
    assert_eq!(once, raw);
    assert_eq!(clean(&once), once);
}

#[test]
fn only_first_block_removed() {
    let raw = "<think>a</think>x<think>b</think>y";
    assert_eq!(clean(raw), "x<think>b</think>y");
}

#[test]
fn open_without_close_left_unchanged() {
    let raw = "<think>never closed";
    assert_eq!(clean(raw), raw);
}

#[test]
fn close_before_open_left_unchanged() {
    let raw = "</think>a<think>b";
    assert_eq!(clean(raw), raw);
}

#[test]
fn empty_input() {
    assert_eq!(clean(""), "");
}

#[test]
fn block_in_the_middle() {
    let raw = "pre<think>hidden</think>post";
    assert_eq!(clean(raw), "prepost");
}

#[test]
fn block_alone_leaves_nothing() {
    assert_eq!(clean("<think>all hidden</think>"), "");
}
