use koe::dict::{DictEntry, MatcherBuildError};
use koe::read::{
    announce, build_author_name, build_read_text, conclude_read_text, content_rules, limit_length,
    normalize_content, remove_url, replace_custom_emojis, replace_pattern, replaced_or_unchanged,
    should_read_author_name, strip_markdown, MessageStamp, ReadContext,
};

fn stamp(author_id: u64, timestamp: i64) -> MessageStamp {
    MessageStamp { author_id, timestamp }
}

fn context(
    current: MessageStamp,
    previous: Option<MessageStamp>,
    speak_user_name: bool,
    speak_length_limit: usize,
) -> ReadContext {
    ReadContext { current, previous, speak_user_name, speak_length_limit }
}

fn entry(word: &str, read_as: &str) -> DictEntry {
    DictEntry { word: word.to_string(), read_as: read_as.to_string() }
}

#[test]
fn custom_emoji_becomes_its_name() {
    assert_eq!(replace_custom_emojis("hello <:smile:12345>!"), "hello smile!");
    assert_eq!(replace_custom_emojis("<:a_1:1><:b:22>"), "a_1b");
    assert_eq!(replace_custom_emojis("<:絵文字:7>"), "絵文字");
}

#[test]
fn text_without_custom_emoji_is_left() {
    assert_eq!(replace_custom_emojis("<:smile:> :smile: <smile:1>"), "<:smile:> :smile: <smile:1>");
    assert_eq!(replace_custom_emojis(""), "");
}

#[test]
fn formatting_marks_are_dropped() {
    assert_eq!(
        strip_markdown("**bold** and *italic* and ~~struck~~ and `code`"),
        "bold and italic and struck and code"
    );
    assert_eq!(strip_markdown("__underline__ _also italic_"), "underline also italic");
    assert_eq!(strip_markdown("plain text"), "plain text");
}

#[test]
fn spoiler_marks_are_dropped_and_the_text_kept() {
    assert_eq!(strip_markdown("the answer is ||42||"), "the answer is 42");
}

#[test]
fn unbalanced_marks_are_plain_text() {
    assert_eq!(strip_markdown("2 * 3 = 6"), "2 * 3 = 6");
    assert_eq!(strip_markdown("**"), "**");
    assert_eq!(strip_markdown(""), "");
}

#[test]
fn url_becomes_a_pause() {
    assert_eq!(remove_url("https://example.com"), "、");
    assert_eq!(remove_url("see http://example.com/a?b=c now"), "see 、 now");
    assert_eq!(remove_url("https://a.example https://b.example"), "、 、");
}

#[test]
fn text_without_url_is_left() {
    assert_eq!(remove_url("https:// example"), "https:// example");
    assert_eq!(remove_url("ftp://example.com"), "ftp://example.com");
}

#[test]
fn pattern_that_does_not_compile_leaves_the_text() {
    assert_eq!(replace_pattern("(", "a(b", "x"), "a(b");
    assert_eq!(replace_pattern("\\(", "a(b", "x"), "axb");
}

#[test]
fn everyone_and_here_stay_as_they_are_written() {
    assert_eq!(normalize_content("@everyone hello @here"), "@everyone hello @here");
}

#[test]
fn content_is_normalized_in_order() {
    assert_eq!(
        normalize_content("**Hello** <:wave:1> https://example.com ||bye||"),
        "Hello wave 、 bye"
    );
}

#[test]
fn same_author_within_ten_seconds_is_not_named_again() {
    assert!(!should_read_author_name(&stamp(1, 5), &Some(stamp(1, 0))));
    assert!(!should_read_author_name(&stamp(1, 10), &Some(stamp(1, 0))));
}

#[test]
fn same_author_after_eleven_seconds_is_named_again() {
    assert!(should_read_author_name(&stamp(1, 11), &Some(stamp(1, 0))));
}

#[test]
fn another_author_is_named() {
    assert!(should_read_author_name(&stamp(2, 1), &Some(stamp(1, 0))));
}

#[test]
fn first_message_is_named() {
    assert!(should_read_author_name(&stamp(1, 0), &None));
}

#[test]
fn timestamps_at_the_ends_of_the_range_do_not_overflow() {
    assert!(should_read_author_name(&stamp(1, i64::MAX), &Some(stamp(1, i64::MIN))));
    assert!(!should_read_author_name(&stamp(1, i64::MIN), &Some(stamp(1, i64::MAX))));
}

#[test]
fn author_name_falls_back_to_the_user_name() {
    assert_eq!(build_author_name(Some("Nick".to_string()), "user".to_string()), "Nick");
    assert_eq!(build_author_name(None, "user".to_string()), "user");
}

#[test]
fn announce_puts_name_and_full_stop_in_front() {
    let named = context(stamp(1, 0), None, true, 60);
    assert_eq!(announce(&named, "Alice", "hello".to_string()), "Alice。hello");
    let burst = context(stamp(1, 5), Some(stamp(1, 0)), true, 60);
    assert_eq!(announce(&burst, "Alice", "hello".to_string()), "hello");
    let silent = context(stamp(1, 0), None, false, 60);
    assert_eq!(announce(&silent, "Alice", "hello".to_string()), "hello");
}

#[test]
fn text_within_the_limit_is_left() {
    assert_eq!(limit_length("abcdef".to_string(), 6), "abcdef");
    assert_eq!(limit_length("こんにちは".to_string(), 5), "こんにちは");
    assert_eq!(limit_length(String::new(), 1), "");
}

#[test]
fn text_over_the_limit_is_cut_and_marked() {
    let cut = limit_length("abcdefghij".to_string(), 6);
    assert_eq!(cut, "ab、以下略");
    assert_eq!(cut.chars().count(), 6);
    assert!(cut.ends_with("、以下略"));
    assert_eq!(limit_length("あいうえおかきくけこ".to_string(), 9), "あいうえお、以下略");
    assert_eq!(limit_length("abcde".to_string(), 4), "、以下略");
}

#[test]
fn limit_below_the_mark_gives_the_mark_alone() {
    assert_eq!(limit_length("abcdefghij".to_string(), 2), "、以下略");
    assert_eq!(limit_length("ab".to_string(), 1), "、以下略");
    assert_eq!(limit_length("a".to_string(), 1), "a");
}

#[test]
fn read_text_runs_the_whole_pipeline() {
    let dict = vec![entry("Hello", "こんにちは"), entry("Alice", "アリス")];
    let first = context(stamp(1, 0), None, true, 60);
    assert_eq!(
        build_read_text("**Hello** <:wave:1> https://example.com", "Alice", &first, &dict).unwrap(),
        "アリス。こんにちは wave 、"
    );
}

#[test]
fn read_text_names_the_author_by_burst() {
    let dict: Vec<DictEntry> = Vec::new();
    let second = context(stamp(1, 5), Some(stamp(1, 0)), true, 60);
    assert_eq!(build_read_text("again", "A", &second, &dict).unwrap(), "again");
    let other = context(stamp(2, 1), Some(stamp(1, 0)), true, 60);
    assert_eq!(build_read_text("hi", "B", &other, &dict).unwrap(), "B。hi");
    let late = context(stamp(1, 11), Some(stamp(1, 0)), true, 60);
    assert_eq!(build_read_text("later", "A", &late, &dict).unwrap(), "A。later");
}

#[test]
fn read_text_never_exceeds_the_limit() {
    let dict = vec![entry("a", "aaaa")];
    let long = "a".repeat(100);
    for limit in 4..40usize {
        let ctx = context(stamp(1, 0), None, true, limit);
        let text = build_read_text(&long, "name", &ctx, &dict).unwrap();
        assert_eq!(text.chars().count(), limit);
        assert!(text.ends_with("、以下略"));
    }
}

#[test]
fn read_text_is_cut_after_substitution() {
    let dict = vec![entry("x", "0123456789")];
    let ctx = context(stamp(1, 0), None, false, 8);
    assert_eq!(build_read_text("x", "n", &ctx, &dict).unwrap(), "0123、以下略");
}

#[test]
fn read_text_takes_any_dictionary() {
    let ctx = context(stamp(1, 0), None, true, 60);
    let empty = vec![entry("", "x")];
    assert_eq!(build_read_text("hi", "A", &ctx, &empty).unwrap(), "A。hi");
    let twice = vec![entry("h", "x"), entry("h", "y")];
    assert_eq!(build_read_text("hi", "A", &ctx, &twice).unwrap(), "A。xi");
}

#[test]
fn author_name_is_substituted_too() {
    let ctx = context(stamp(1, 0), None, true, 60);
    let dict = vec![entry("AB", "x")];
    assert_eq!(build_read_text("hi", "AB", &ctx, &dict).unwrap(), "x。hi");
}

#[test]
fn everyone_and_here_are_not_rewritten() {
    let rules = content_rules();
    assert!(rules.clean_channel && rules.clean_role && rules.clean_user);
    assert!(!rules.show_discriminator);
    assert!(!rules.clean_here);
    assert!(!rules.clean_everyone);
}

#[test]
fn outcome_of_a_replacement_falls_back_to_the_text() {
    assert_eq!(replaced_or_unchanged(Some("new".to_string()), "old"), "new");
    assert_eq!(replaced_or_unchanged(None, "old"), "old");
}

#[test]
fn substituted_text_is_cut_and_a_failure_handed_on() {
    assert_eq!(conclude_read_text(Ok("abcdefghij".to_string()), 6).unwrap(), "ab、以下略");
    assert_eq!(conclude_read_text(Ok("abc".to_string()), 6).unwrap(), "abc");
    match conclude_read_text(Err(MatcherBuildError { reason: "full".to_string() }), 6) {
        Err(MatcherBuildError { reason }) => assert_eq!(reason, "full"),
        other => panic!("unexpected: {:?}", other),
    }
}
