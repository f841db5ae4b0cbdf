use prss::feed::{Entry, FeedData};
use prss::list::FeedList;
use prss::readset::ReadSet;

const DAY: i64 = 86400;

fn entry(title: &str, link: &str, published: i64) -> Entry {
    Entry { title: String::from(title), link: Some(String::from(link)), published }
}

fn two_source_list() -> FeedList {
    let one = FeedData {
        title: String::from("one"),
        entries: vec![
            entry("d1", "http://one/1", DAY),
            entry("d2", "http://one/2", 2 * DAY),
            entry("d3", "http://one/3", 3 * DAY),
        ],
    };
    let two = FeedData {
        title: String::from("two"),
        entries: vec![
            entry("d1.5", "http://two/15", DAY + DAY / 2),
            entry("d2.5", "http://two/25", 2 * DAY + DAY / 2),
        ],
    };
    FeedList::new(vec![one, two])
}

#[test]
fn merged_list_is_newest_first() {
    let list = two_source_list();
    let titles: Vec<&str> = list.items.iter().map(|e| e.title.as_str()).collect();
    assert_eq!(titles, vec!["d3 (one)", "d2.5 (two)", "d2 (one)", "d1.5 (two)", "d1 (one)"]);
    for pair in list.items.windows(2) {
        assert!(pair[0].published >= pair[1].published);
    }
    assert_eq!(list.cursor, Some(0));
}

#[test]
fn display_title_carries_feed_title() {
    let feed = FeedData {
        title: String::from("My Feed"),
        entries: vec![entry("Hello", "http://x/1", 5)],
    };
    let shown = feed.list_entries();
    assert_eq!(shown.len(), 1);
    assert_eq!(shown[0].title, "Hello (My Feed)");
    assert_eq!(shown[0].link.as_deref(), Some("http://x/1"));
    assert_eq!(shown[0].published, 5);
}

#[test]
fn next_cycles_back_after_length_steps() {
    for start in 0..5usize {
        let mut list = two_source_list();
        for _ in 0..start {
            list.next();
        }
        let origin = list.cursor;
        for _ in 0..list.items.len() {
            list.next();
        }
        assert_eq!(list.cursor, origin);
    }
}

#[test]
fn previous_then_next_returns_to_origin() {
    for start in 0..5usize {
        let mut list = two_source_list();
        for _ in 0..start {
            list.next();
        }
        let origin = list.cursor;
        list.previous();
        list.next();
        assert_eq!(list.cursor, origin);
        list.next();
        list.previous();
        assert_eq!(list.cursor, origin);
    }
}

#[test]
fn wrap_around_both_ends() {
    let mut list = two_source_list();
    assert_eq!(list.cursor, Some(0));
    list.previous();
    assert_eq!(list.cursor, Some(4));
    list.next();
    assert_eq!(list.cursor, Some(0));
}

#[test]
fn navigation_is_noop_on_empty_list() {
    let mut list = FeedList::new(Vec::new());
    assert_eq!(list.cursor, None);
    list.next();
    assert_eq!(list.cursor, None);
    list.previous();
    assert_eq!(list.cursor, None);
}

#[test]
fn get_returns_selected_entry() {
    let mut list = two_source_list();
    assert_eq!(list.get().title, "d3 (one)");
    list.next();
    assert_eq!(list.get().title, "d2.5 (two)");
}

#[test]
fn marking_read_filters_view_but_keeps_list() {
    let list = two_source_list();
    let mut read = ReadSet::from_lines(Vec::new());
    let newest_link = list.items[0].link.clone().expect("entry has a link");
    read.mark_read(&newest_link);
    let visible = list.visible_indices(&read);
    assert_eq!(visible, vec![1, 2, 3, 4]);
    assert_eq!(list.items.len(), 5);
    let all = list.visible_indices(&ReadSet::from_lines(Vec::new()));
    assert_eq!(all, vec![0, 1, 2, 3, 4]);
}

#[test]
fn equal_timestamps_keep_both_entries() {
    let feed = FeedData {
        title: String::from("f"),
        entries: vec![entry("a", "http://f/a", 7), entry("b", "http://f/b", 7)],
    };
    let list = FeedList::new(vec![feed]);
    assert_eq!(list.items.len(), 2);
    assert_eq!(list.items[0].published, 7);
    assert_eq!(list.items[1].published, 7);
    let mut titles: Vec<&str> = list.items.iter().map(|e| e.title.as_str()).collect();
    titles.sort();
    assert_eq!(titles, vec!["a (f)", "b (f)"]);
}

#[test]
fn entry_without_link_is_always_visible() {
    let feed = FeedData {
        title: String::from("f"),
        entries: vec![Entry { title: String::from("n"), link: None, published: 1 }],
    };
    let list = FeedList::new(vec![feed]);
    let mut read = ReadSet::from_lines(Vec::new());
    read.mark_read(&String::from("http://whatever"));
    assert_eq!(list.visible_indices(&read), vec![0]);
}
