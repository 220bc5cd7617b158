use github_activity::pr_view::{GitHubPullRequestTimelineItem, GitHubPullRequestTimelineItemKind};
use github_activity::sorting::stable_sort;
use github_activity::text::{
    comes_before, contains, is_blank, is_whitespace, lines, number_text, replace, slice, split,
    split_once, strip_prefix, trim, trim_leading, trim_trailing,
};

#[test]
fn whitespace_is_that_of_unicode() {
    for c in '\0'..=char::MAX {
        assert_eq!(is_whitespace(c), c.is_whitespace(), "{c:?}");
    }
}

#[test]
fn texts_are_cut_as_std_cuts_them() {
    for text in ["", " ", " a b ", "a\r\nb\n", "\n\n", "a,b,,c", "\u{3000}é\u{a0}", "a\r"] {
        assert_eq!(trim(text), text.trim());
        assert_eq!(is_blank(text), text.trim().is_empty());
        assert_eq!(lines(text), text.lines().collect::<Vec<_>>());
        assert_eq!(split(text, ','), text.split(',').collect::<Vec<_>>());
        assert_eq!(
            split_once(text, ','),
            text.split_once(',').map(|(a, b)| (a.to_string(), b.to_string()))
        );
        assert_eq!(contains(text, "a"), text.contains('a'));
        assert_eq!(replace(text, "a", "aa"), text.replace("a", "aa"));
        assert_eq!(strip_prefix(text, "a").as_deref(), text.strip_prefix('a'));
        assert_eq!(trim_leading(text, 'a'), text.trim_start_matches('a'));
        assert_eq!(trim_trailing(text, '\n'), text.trim_end_matches('\n'));
    }
    assert_eq!(replace("aaa", "aa", "b"), "ba");
    assert_eq!(slice("aéb", 1, 3), "é");
}

#[test]
fn texts_are_ordered_as_std_orders_them() {
    let texts = ["", "a", "aa", "b", "Z", "é", "\u{ffff}", "\u{10000}"];
    for a in texts {
        for b in texts {
            assert_eq!(comes_before(a, b), a < b);
        }
    }
}

#[test]
fn numbers_are_written_in_decimal() {
    for n in [0, 7, 10, 12345, u64::MAX] {
        assert_eq!(number_text(n), n.to_string());
    }
}

#[test]
fn items_of_one_time_stay_in_order() {
    let item = |timestamp: Option<&str>, title: &str| GitHubPullRequestTimelineItem {
        kind: GitHubPullRequestTimelineItemKind::Commit,
        author: String::new(),
        timestamp: timestamp.map(ToString::to_string),
        title: title.to_string(),
        metadata: None,
        markdown: None,
        url: None,
    };
    let sorted = stable_sort(vec![
        item(Some("2"), "a"),
        item(Some("1"), "b"),
        item(Some("2"), "c"),
        item(None, "d"),
        item(Some("1"), "e"),
    ]);
    let titles: Vec<&str> = sorted.iter().map(|item| item.title.as_str()).collect();
    assert_eq!(titles, vec!["d", "b", "e", "a", "c"]);
}
