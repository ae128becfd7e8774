use chat_engine::classify::{classify, RenderCategory};

#[test]
fn single_emoji_is_single_emoji() {
    assert_eq!(classify("\u{1F600}"), RenderCategory::SingleEmoji);
}

#[test]
fn gif_suffix_is_image() {
    assert_eq!(classify("hello.gif"), RenderCategory::Image);
}

#[test]
fn plain_word_is_text() {
    assert_eq!(classify("hi"), RenderCategory::Text);
}

#[test]
fn empty_body_is_text() {
    assert_eq!(classify(""), RenderCategory::Text);
}

#[test]
fn whitespace_around_emoji_is_trimmed() {
    assert_eq!(classify(" \u{1F600} "), RenderCategory::SingleEmoji);
}

#[test]
fn two_characters_are_never_single_emoji() {
    assert_eq!(classify("aa"), RenderCategory::Text);
    assert_eq!(classify("\u{1F600}\u{1F600}"), RenderCategory::Text);
}

#[test]
fn gif_check_runs_before_emoji_check() {
    // A trimmed body ending in .gif is an image even with an emoji inside.
    assert_eq!(classify("\u{1F600}.gif"), RenderCategory::Image);
}

#[test]
fn gif_suffix_is_case_sensitive_and_exact() {
    assert_eq!(classify("hello.GIF"), RenderCategory::Text);
    assert_eq!(classify("hello.gifx"), RenderCategory::Text);
    assert_eq!(classify(".gif"), RenderCategory::Image);
    assert_eq!(classify("gif"), RenderCategory::Text);
}

#[test]
fn gif_suffix_trims_trailing_whitespace() {
    assert_eq!(classify("hello.gif  "), RenderCategory::Image);
}

#[test]
fn emoji_range_bounds() {
    assert_eq!(classify("\u{2600}"), RenderCategory::SingleEmoji);
    assert_eq!(classify("\u{26FF}"), RenderCategory::SingleEmoji);
    assert_eq!(classify("\u{FE00}"), RenderCategory::SingleEmoji);
    assert_eq!(classify("a"), RenderCategory::Text);
}

#[test]
fn whitespace_only_body_is_text() {
    assert_eq!(classify("   "), RenderCategory::Text);
}
