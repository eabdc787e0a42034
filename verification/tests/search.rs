use garlaunch::item::{Item, ItemData};
use garlaunch::search::{all_items_scorable, count_words, rank_matches, FuzzyMatcher};

#[test]
fn test_fuzzy_filter() {
    let items = vec![
        Item::new("firefox", "Firefox"),
        Item::new("chrome", "Google Chrome"),
        Item::new("code", "Visual Studio Code"),
        Item::new("term", "Terminal"),
    ];

    let mut matcher = FuzzyMatcher::new();

    let results = matcher.filter(&items, "fire");
    assert!(!results.is_empty());
    assert_eq!(results[0].id, "firefox");

    let results = matcher.filter(&items, "code");
    assert!(!results.is_empty());
    assert_eq!(results[0].id, "code");

    let results = matcher.filter(&items, "");
    assert_eq!(results.len(), items.len());
}

#[test]
fn empty_query_keeps_items_in_order() {
    let items = vec![Item::new("b", "Beta"), Item::new("a", "Alpha")];
    let mut matcher = FuzzyMatcher::new();
    let results = matcher.filter(&items, "");
    let ids: Vec<&str> = results.iter().map(|i| i.id.as_str()).collect();
    assert_eq!(ids, vec!["b", "a"]);
}

#[test]
fn non_matching_items_are_dropped() {
    let items = vec![Item::new("x", "zzz"), Item::new("y", "qqq")];
    let mut matcher = FuzzyMatcher::new();
    assert!(matcher.filter(&items, "firefox").is_empty());
}

#[test]
fn equal_scores_keep_input_order() {
    let items = vec![
        Item::new("one", "same"),
        Item::new("two", "same"),
        Item::new("three", "same"),
    ];
    let mut matcher = FuzzyMatcher::new();
    let results = matcher.filter(&items, "same");
    let ids: Vec<&str> = results.iter().map(|i| i.id.as_str()).collect();
    assert_eq!(ids, vec!["one", "two", "three"]);
}

#[test]
fn description_can_raise_the_score() {
    let plain = Item::new("plain", "xterm");
    let described = Item::new("described", "xterm").with_description("terminal");
    let items = vec![plain, described];
    let mut matcher = FuzzyMatcher::new();
    let results = matcher.filter(&items, "term");
    assert_eq!(results.len(), 2);
    assert_eq!(results[0].id, "described");
}

#[test]
fn description_alone_does_not_match() {
    let item = Item::new("a", "zzz").with_description("firefox");
    let mut matcher = FuzzyMatcher::new();
    assert!(matcher.filter(&[item], "firefox").is_empty());
}

#[test]
fn filtered_items_keep_their_data() {
    let item = Item::new("w", "Window").with_data(ItemData::Window { window_id: 7, workspace: 2, focused: true });
    let mut matcher = FuzzyMatcher::new();
    let results = matcher.filter(&[item], "win");
    assert_eq!(results.len(), 1);
    match &results[0].data {
        ItemData::Window { window_id, workspace, focused } => {
            assert_eq!(*window_id, 7);
            assert_eq!(*workspace, 2);
            assert!(*focused);
        }
        _ => panic!("data lost"),
    }
}

#[test]
fn ranks_scores_best_first_ties_in_order() {
    assert_eq!(rank_matches(&[Some(5), None, Some(7), Some(5)]), vec![2, 0, 3]);
    assert!(rank_matches(&[None, None]).is_empty());
    assert_eq!(rank_matches(&[Some(0), Some(0)]), vec![0, 1]);
}

#[test]
fn counts_space_separated_words() {
    let words = |s: &str| count_words(&s.chars().collect::<Vec<char>>());
    assert_eq!(words(""), 0);
    assert_eq!(words("   "), 0);
    assert_eq!(words("fire fox"), 2);
    assert_eq!(words("  a  b c "), 3);
    assert_eq!(words("a\tb"), 1);
}

#[test]
fn ordinary_items_are_scorable() {
    let items = vec![
        Item::new("a", "Alpha"),
        Item::new("b", "Beta").with_description("second letter"),
    ];
    assert!(all_items_scorable(&items));
    assert!(all_items_scorable(&[]));
}
