use prss::adapter::{decode, DecodeError};
use prss::cache::{cache_key, CacheStore};
use prss::config::feed_urls;
use prss::feed::{Entry, FeedData};
use prss::fetch::{collect_feeds, ingest_fresh, needs_fetch, FailureKind, SourceFailure};
use prss::readset::ReadSet;

const ATOM_DOC: &str = r#"<?xml version="1.0" encoding="utf-8"?>
<feed xmlns="http://www.w3.org/2005/Atom">
  <title>Example Feed</title>
  <id>urn:uuid:feed-1</id>
  <updated>2003-12-13T18:30:02Z</updated>
  <entry>
    <title>First Post</title>
    <id>urn:uuid:entry-1</id>
    <updated>2003-12-13T18:30:02Z</updated>
    <published>2003-12-13T18:30:02Z</published>
    <link href="http://example.org/first"/>
  </entry>
  <entry>
    <title>Undated Post</title>
    <id>urn:uuid:entry-2</id>
    <updated>2003-12-13T18:30:02Z</updated>
    <link href="http://example.org/undated"/>
  </entry>
</feed>"#;

const RSS_DOC: &str = r#"<?xml version="1.0" encoding="utf-8"?>
<rss version="2.0">
  <channel>
    <title>Example Channel</title>
    <link>http://example.org/</link>
    <description>x</description>
    <item>
      <title>Alpha</title>
      <link>http://example.org/alpha</link>
      <pubDate>Mon, 01 Jan 2018 10:00:00 UTC</pubDate>
    </item>
    <item>
      <link>http://example.org/untitled</link>
      <pubDate>Mon, 01 Jan 2018 11:00:00 +0000</pubDate>
    </item>
    <item>
      <title>Undated</title>
      <link>http://example.org/undated</link>
    </item>
  </channel>
</rss>"#;

#[test]
fn freshness_rule_all_combinations() {
    // cache present, header present: fetch iff the cache is older
    assert_eq!(needs_fetch(Some(100), Some(200)), true);
    assert_eq!(needs_fetch(Some(200), Some(100)), false);
    assert_eq!(needs_fetch(Some(150), Some(150)), false);
    // cache present, no header
    assert_eq!(needs_fetch(Some(100), None), true);
    assert_eq!(needs_fetch(Some(300), None), true);
    // no cache, header present, both older and newer
    assert_eq!(needs_fetch(None, Some(200)), true);
    assert_eq!(needs_fetch(None, Some(0)), true);
    // neither
    assert_eq!(needs_fetch(None, None), true);
}

#[test]
fn cache_round_trip() {
    let mut store = CacheStore::new();
    let key = cache_key("http://example.org/feed");
    store.store(key.clone(), vec![1u8, 2, 3, 255], 42);
    let got = store.load(&key).expect("stored payload must load");
    assert_eq!(got.0, &vec![1u8, 2, 3, 255]);
    assert_eq!(got.1, 42);
}

#[test]
fn cache_overwrites_and_misses() {
    let mut store = CacheStore::new();
    let key = cache_key("http://example.org/feed");
    store.store(key.clone(), vec![1u8], 1);
    store.store(key.clone(), vec![9u8, 9], 2);
    let got = store.load(&key).expect("stored payload must load");
    assert_eq!(got.0, &vec![9u8, 9]);
    assert_eq!(got.1, 2);
    let other = cache_key("http://example.org/other");
    assert!(store.load(&other).is_none());
}

#[test]
fn cache_key_is_md5_hex() {
    assert_eq!(cache_key("abc"), "900150983cd24fb0d6963f7d28e17f72");
    assert_eq!(cache_key("").len(), 32);
}

#[test]
fn atom_payload_preserves_fields_and_drops_undated() {
    let feed = decode(ATOM_DOC.as_bytes()).expect("atom must decode");
    assert_eq!(feed.title, "Example Feed");
    assert_eq!(feed.entries.len(), 1);
    assert_eq!(feed.entries[0].title, "First Post");
    assert_eq!(feed.entries[0].link.as_deref(), Some("http://example.org/first"));
    assert_eq!(feed.entries[0].published, 1071340202);
}

#[test]
fn rss_payload_tolerates_utc_and_defaults_title() {
    let feed = decode(RSS_DOC.as_bytes()).expect("rss must decode");
    assert_eq!(feed.title, "Example Channel");
    assert_eq!(feed.entries.len(), 2);
    assert_eq!(feed.entries[0].title, "Alpha");
    assert_eq!(feed.entries[0].link.as_deref(), Some("http://example.org/alpha"));
    assert_eq!(feed.entries[0].published, 1514800800);
    assert_eq!(feed.entries[1].title, "");
    assert_eq!(feed.entries[1].link.as_deref(), Some("http://example.org/untitled"));
    assert_eq!(feed.entries[1].published, 1514804400);
}

#[test]
fn unrecognized_payload_names_both_formats() {
    let err = match decode(b"this is no feed at all") {
        Ok(_) => panic!("must not decode"),
        Err(e) => e,
    };
    assert_eq!(err, DecodeError::NeitherFormat);
    let msg = err.message();
    assert!(msg.contains("Atom"));
    assert!(msg.contains("RSS"));
}

#[test]
fn ingest_fresh_updates_cache_even_on_decode_failure() {
    let mut store = CacheStore::new();
    let key = cache_key("http://example.org/bad");
    let outcome = ingest_fresh(&mut store, key.clone(), b"garbage".to_vec(), 7);
    assert!(outcome.is_err());
    let got = store.load(&key).expect("fetched bytes must be cached");
    assert_eq!(got.0, &b"garbage".to_vec());
    assert_eq!(got.1, 7);
}

#[test]
fn read_state_within_session_and_after_reload() {
    let mut read = ReadSet::from_lines(Vec::new());
    let link = String::from("http://example.org/first");
    assert!(!read.is_read(&link));
    read.mark_read(&link);
    assert!(read.is_read(&link));
    // a new session reloads the persisted lines, extended by the appended link
    let reloaded = ReadSet::from_lines(vec![link.clone()]);
    assert!(reloaded.is_read(&link));
    assert!(!reloaded.is_read(&String::from("http://example.org/other")));
}

#[test]
fn feed_urls_excludes_comment_lines() {
    let lines = vec![
        String::from("# feeds I follow"),
        String::from("http://example.org/a"),
        String::from(""),
        String::from("#http://example.org/b"),
        String::from("http://example.org/c"),
    ];
    let urls = feed_urls(&lines);
    assert_eq!(
        urls,
        vec![
            String::from("http://example.org/a"),
            String::from(""),
            String::from("http://example.org/c"),
        ]
    );
}

#[test]
fn collect_feeds_is_lenient_and_keeps_order() {
    let f1 = FeedData {
        title: String::from("one"),
        entries: vec![Entry { title: String::from("a"), link: None, published: 1 }],
    };
    let f2 = FeedData { title: String::from("two"), entries: Vec::new() };
    let results = vec![
        Ok(f1),
        Err(SourceFailure { source: String::from("http://bad"), kind: FailureKind::Network }),
        Ok(f2),
        Err(SourceFailure { source: String::from("http://ugly"), kind: FailureKind::Decode }),
    ];
    let (feeds, failures) = collect_feeds(results);
    assert_eq!(feeds.len(), 2);
    assert_eq!(feeds[0].title, "one");
    assert_eq!(feeds[1].title, "two");
    assert_eq!(failures.len(), 2);
    assert_eq!(failures[0].source, "http://bad");
    assert_eq!(failures[0].kind, FailureKind::Network);
    assert_eq!(failures[1].source, "http://ugly");
    assert_eq!(failures[1].kind, FailureKind::Decode);
}
