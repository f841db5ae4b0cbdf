//! The format adapter: raw bytes to normalized entries.
//!
//! Format A (Atom) is tried first, then format B (RSS); if neither decoder
//! recognizes the bytes, decoding fails.  The two wire decoders are outside
//! collaborators consumed as black boxes from bytes to structured records;
//! everything from their records to the normalized entry model is verified.
//!
//! Date policy: an entry whose publication date is absent, or cannot be
//! parsed even after the tolerant fallback, is dropped from the decoded
//! feed; it never aborts the decode of the other entries.

use vstd::prelude::*;
use vstd::string::*;

use crate::feed::{
    clone_opt_str, entry_views, opt_str_view, title_or_empty, Entry, EntryModel, FeedData,
    FeedModel,
};

verus! {

/// Abstract value of one record of the format-A decoder: the entry title,
/// the first link if any, and the publication instant in epoch seconds if
/// the entry carries one.
pub ghost struct AtomEntryModel {
    pub title: Seq<char>,
    pub link: Option<Seq<char>>,
    pub published: Option<i64>,
}

/// Abstract value of a decoded format-A document.
pub ghost struct AtomFeedModel {
    pub title: Seq<char>,
    pub entries: Seq<AtomEntryModel>,
}

/// Abstract value of one record of the format-B decoder: all three fields
/// are optional on the wire, and the date is an unparsed string.
pub ghost struct RssItemModel {
    pub title: Option<Seq<char>>,
    pub link: Option<Seq<char>>,
    pub pub_date: Option<Seq<char>>,
}

/// Abstract value of a decoded format-B document.
pub ghost struct RssFeedModel {
    pub title: Seq<char>,
    pub items: Seq<RssItemModel>,
}

/// What the format-A decoder yields on given bytes: `None` when the bytes
/// are not a well-formed format-A document.  The result depends on the
/// bytes alone.
pub uninterp spec fn atom_parse_of(bytes: Seq<u8>) -> Option<AtomFeedModel>;

/// What the format-B decoder yields on given bytes: `None` when the bytes
/// are not a well-formed format-B document.  The result depends on the
/// bytes alone.
pub uninterp spec fn rss_parse_of(bytes: Seq<u8>) -> Option<RssFeedModel>;

/// What the RFC 2822 date parser yields on given characters, as epoch
/// seconds: `None` when they are not a well-formed RFC 2822 date.  The
/// result depends on the characters alone.
pub uninterp spec fn rfc2822_secs_of(s: Seq<char>) -> Option<i64>;

/// One format-A record, as plain values.
pub struct AtomRawEntry {
    pub title: String,
    pub link: Option<String>,
    pub published: Option<i64>,
}

impl View for AtomRawEntry {
    type V = AtomEntryModel;

    open spec fn view(&self) -> AtomEntryModel {
        AtomEntryModel {
            title: self.title@,
            link: opt_str_view(self.link),
            published: self.published,
        }
    }
}

/// A decoded format-A document, as plain values.
pub struct AtomRawFeed {
    pub title: String,
    pub entries: Vec<AtomRawEntry>,
}

/// Abstract values of a sequence of format-A records.
pub open spec fn atom_entry_views(s: Seq<AtomRawEntry>) -> Seq<AtomEntryModel> {
    s.map_values(|e: AtomRawEntry| e@)
}

impl View for AtomRawFeed {
    type V = AtomFeedModel;

    open spec fn view(&self) -> AtomFeedModel {
        AtomFeedModel { title: self.title@, entries: atom_entry_views(self.entries@) }
    }
}

/// One format-B record, as plain values.
pub struct RssRawItem {
    pub title: Option<String>,
    pub link: Option<String>,
    pub pub_date: Option<String>,
}

impl View for RssRawItem {
    type V = RssItemModel;

    open spec fn view(&self) -> RssItemModel {
        RssItemModel {
            title: opt_str_view(self.title),
            link: opt_str_view(self.link),
            pub_date: opt_str_view(self.pub_date),
        }
    }
}

/// A decoded format-B document, as plain values.
pub struct RssRawFeed {
    pub title: String,
    pub items: Vec<RssRawItem>,
}

/// Abstract values of a sequence of format-B records.
pub open spec fn rss_item_views(s: Seq<RssRawItem>) -> Seq<RssItemModel> {
    s.map_values(|i: RssRawItem| i@)
}

impl View for RssRawFeed {
    type V = RssFeedModel;

    open spec fn view(&self) -> RssFeedModel {
        RssFeedModel { title: self.title@, items: rss_item_views(self.items@) }
    }
}

/// Relies on `atom_syndication::Feed::read_from` to decode an Atom
/// document, on the accessors `Feed::title`, `Entry::title`,
/// `Entry::links` (first link) and `Entry::published`, and on chrono's
/// `DateTime::timestamp` for the epoch seconds of `published`.  The
/// result depends on the bytes alone.
#[verifier::external_body]
fn parse_atom(bytes: &[u8]) -> (r: Option<AtomRawFeed>)
    ensures
        r is Some <==> atom_parse_of(bytes@) is Some,
        r is Some ==> r.unwrap()@ == atom_parse_of(bytes@).unwrap(),
{
    match atom_syndication::Feed::read_from(bytes) {
        Ok(f) => Some(AtomRawFeed {
            title: f.title().to_string(),
            entries: f
                .entries
                .into_iter()
                .map(|e| AtomRawEntry {
                    title: e.title().to_string(),
                    link: e.links().first().map(|l| l.href.clone()),
                    published: e.published().map(|d| d.timestamp()),
                })
                .collect(),
        }),
        Err(_) => None,
    }
}

/// Relies on `rss::Channel::read_from` to decode an RSS document; the
/// record fields `title`, `link` and `pub_date` are moved over one for
/// one.  The result depends on the bytes alone.
#[verifier::external_body]
fn parse_rss(bytes: &[u8]) -> (r: Option<RssRawFeed>)
    ensures
        r is Some <==> rss_parse_of(bytes@) is Some,
        r is Some ==> r.unwrap()@ == rss_parse_of(bytes@).unwrap(),
{
    match rss::Channel::read_from(bytes) {
        Ok(c) => Some(RssRawFeed {
            title: c.title,
            items: c
                .items
                .into_iter()
                .map(|i| RssRawItem { title: i.title, link: i.link, pub_date: i.pub_date })
                .collect(),
        }),
        Err(_) => None,
    }
}

/// Relies on `chrono::DateTime::parse_from_rfc2822`, and on chrono's
/// `DateTime::timestamp` for the epoch seconds of the parsed instant.
/// The result depends on the characters alone.
#[verifier::external_body]
fn parse_rfc2822_secs(s: &str) -> (r: Option<i64>)
    ensures
        r == rfc2822_secs_of(s@),
{
    match chrono::DateTime::parse_from_rfc2822(s) {
        Ok(d) => Some(d.timestamp()),
        Err(_) => None,
    }
}

/// The tolerant date fallback: every occurrence of `UTC` replaced by the
/// numeric offset `+0000`, so that a date with the nonstandard timezone
/// abbreviation still parses as RFC 2822.
pub open spec fn spec_replace_utc(s: Seq<char>) -> Seq<char>
    decreases s.len(),
{
    if s.len() >= 3 && s.subrange(0, 3) == "UTC"@ {
        "+0000"@ + spec_replace_utc(s.skip(3))
    } else if s.len() == 0 {
        s
    } else {
        seq![s[0]] + spec_replace_utc(s.skip(1))
    }
}

/// Replace every occurrence of `UTC` by `+0000`.
pub fn replace_utc(s: &str) -> (r: String)
    ensures
        r@ == spec_replace_utc(s@),
{
    let n = s.unicode_len();
    let mut r = String::new();
    let mut i: usize = 0;
    proof {
        assert(s@.skip(0) =~= s@);
        assert(r@ + spec_replace_utc(s@) =~= spec_replace_utc(s@));
    }
    while i < n
        invariant
            i <= n,
            n == s@.len(),
            spec_replace_utc(s@) == r@ + spec_replace_utc(s@.skip(i as int)),
        decreases n - i,
    {
        proof {
            reveal_strlit("UTC");
            reveal_strlit("+0000");
        }
        let ghost rest = s@.skip(i as int);
        if n - i > 2 && s.get_char(i) == 'U' && s.get_char(i + 1) == 'T' && s.get_char(i + 2)
            == 'C' {
            proof {
                assert(rest.subrange(0, 3) =~= "UTC"@) by {
                    assert(rest.subrange(0, 3)[0] == s@[i as int]);
                    assert(rest.subrange(0, 3)[1] == s@[i as int + 1]);
                    assert(rest.subrange(0, 3)[2] == s@[i as int + 2]);
                }
                assert(rest.skip(3) =~= s@.skip(i as int + 3));
                assert(spec_replace_utc(rest) == "+0000"@ + spec_replace_utc(
                    s@.skip(i as int + 3),
                ));
                assert(r@ + spec_replace_utc(rest) =~= (r@ + "+0000"@) + spec_replace_utc(
                    s@.skip(i as int + 3),
                ));
            }
            r.append("+0000");
            i = i + 3;
        } else {
            let c = s.substring_char(i, i + 1);
            proof {
                if rest.len() >= 3 && rest.subrange(0, 3) == "UTC"@ {
                    assert(s@[i as int] == rest.subrange(0, 3)[0]);
                    assert(s@[i as int + 1] == rest.subrange(0, 3)[1]);
                    assert(s@[i as int + 2] == rest.subrange(0, 3)[2]);
                    assert(s@[i as int] == 'U' && s@[i as int + 1] == 'T' && s@[i as int + 2]
                        == 'C');
                    assert(false);
                }
                assert(rest.len() > 0);
                assert(spec_replace_utc(rest) == seq![rest[0]] + spec_replace_utc(rest.skip(1)));
                assert(c@ =~= seq![s@[i as int]]);
                assert(rest.skip(1) =~= s@.skip(i as int + 1));
                assert(r@ + spec_replace_utc(rest) =~= (r@ + c@) + spec_replace_utc(
                    s@.skip(i as int + 1),
                ));
            }
            r.append(c);
            i = i + 1;
        }
    }
    proof {
        assert(s@.skip(n as int) =~= Seq::<char>::empty());
        assert(r@ + spec_replace_utc(Seq::<char>::empty()) =~= r@);
    }
    r
}

/// Normalization of format-A records: the date policy drops an entry
/// without a publication instant; title and link are kept exactly.
pub open spec fn atom_norm(entries: Seq<AtomEntryModel>) -> Seq<EntryModel>
    decreases entries.len(),
{
    if entries.len() == 0 {
        Seq::empty()
    } else {
        atom_norm(entries.drop_last()) + (match entries.last().published {
            Some(d) => seq![
                EntryModel {
                    title: entries.last().title,
                    link: entries.last().link,
                    published: d,
                },
            ],
            None => Seq::<EntryModel>::empty(),
        })
    }
}

/// The publication instant of a format-B record: its date string, taken
/// through the tolerant fallback and the RFC 2822 parser.
pub open spec fn rss_item_date(it: RssItemModel) -> Option<i64> {
    match it.pub_date {
        Some(d) => rfc2822_secs_of(spec_replace_utc(d)),
        None => None,
    }
}

/// Normalization of format-B records: a missing title defaults to the
/// empty string; the date policy drops an item whose date is absent or
/// unparsable.
pub open spec fn rss_norm(items: Seq<RssItemModel>) -> Seq<EntryModel>
    decreases items.len(),
{
    if items.len() == 0 {
        Seq::empty()
    } else {
        rss_norm(items.drop_last()) + (match rss_item_date(items.last()) {
            Some(d) => seq![
                EntryModel {
                    title: (match items.last().title {
                        Some(t) => t,
                        None => Seq::<char>::empty(),
                    }),
                    link: items.last().link,
                    published: d,
                },
            ],
            None => Seq::<EntryModel>::empty(),
        })
    }
}

/// What decoding yields on given bytes: the normalized format-A document
/// if format A recognizes them, else the normalized format-B document if
/// format B does, else nothing.
pub open spec fn decode_model(bytes: Seq<u8>) -> Option<FeedModel> {
    if atom_parse_of(bytes) is Some {
        let f = atom_parse_of(bytes).unwrap();
        Some(FeedModel { title: f.title, entries: atom_norm(f.entries) })
    } else if rss_parse_of(bytes) is Some {
        let c = rss_parse_of(bytes).unwrap();
        Some(FeedModel { title: c.title, entries: rss_norm(c.items) })
    } else {
        None
    }
}

/// Decode failure: neither format recognized the payload.
#[derive(Clone, Copy, PartialEq, Eq, Structural, Debug)]
pub enum DecodeError {
    NeitherFormat,
}

impl DecodeError {
    /// Diagnostic text, naming both attempted formats.
    pub fn message(&self) -> (r: String)
        ensures
            r@ == "neither Atom nor RSS recognized the payload"@,
    {
        String::from_str("neither Atom nor RSS recognized the payload")
    }
}

proof fn lemma_atom_norm_step(s: Seq<AtomEntryModel>, i: int)
    requires
        0 <= i < s.len(),
    ensures
        atom_norm(s.take(i + 1)) == atom_norm(s.take(i)) + (match s[i].published {
            Some(d) => seq![EntryModel { title: s[i].title, link: s[i].link, published: d }],
            None => Seq::<EntryModel>::empty(),
        }),
{
    assert(s.take(i + 1).drop_last() =~= s.take(i));
    assert(s.take(i + 1).last() == s[i]);
}

proof fn lemma_rss_norm_step(s: Seq<RssItemModel>, i: int)
    requires
        0 <= i < s.len(),
    ensures
        rss_norm(s.take(i + 1)) == rss_norm(s.take(i)) + (match rss_item_date(s[i]) {
            Some(d) => seq![
                EntryModel {
                    title: (match s[i].title {
                        Some(t) => t,
                        None => Seq::<char>::empty(),
                    }),
                    link: s[i].link,
                    published: d,
                },
            ],
            None => Seq::<EntryModel>::empty(),
        }),
{
    assert(s.take(i + 1).drop_last() =~= s.take(i));
    assert(s.take(i + 1).last() == s[i]);
}

fn normalize_atom_entries(entries: &Vec<AtomRawEntry>) -> (out: Vec<Entry>)
    ensures
        entry_views(out@) == atom_norm(atom_entry_views(entries@)),
{
    let ghost m = atom_entry_views(entries@);
    let mut out: Vec<Entry> = Vec::new();
    let mut i: usize = 0;
    while i < entries.len()
        invariant
            i <= entries@.len(),
            m == atom_entry_views(entries@),
            entry_views(out@) == atom_norm(m.take(i as int)),
        decreases entries@.len() - i,
    {
        let e = &entries[i];
        proof {
            lemma_atom_norm_step(m, i as int);
            assert(m[i as int] == entries@[i as int]@);
        }
        match e.published {
            Some(d) => {
                let link = clone_opt_str(&e.link);
                let en = Entry { title: e.title.clone(), link, published: d };
                let ghost prev = out@;
                out.push(en);
                proof {
                    assert(entry_views(prev.push(en)) =~= entry_views(prev).push(en@));
                    assert(entry_views(out@) =~= atom_norm(m.take(i as int + 1)));
                }
            },
            None => {},
        }
        i = i + 1;
    }
    proof {
        assert(m.take(entries@.len() as int) =~= m);
    }
    out
}

fn normalize_rss_items(items: &Vec<RssRawItem>) -> (out: Vec<Entry>)
    ensures
        entry_views(out@) == rss_norm(rss_item_views(items@)),
{
    let ghost m = rss_item_views(items@);
    let mut out: Vec<Entry> = Vec::new();
    let mut i: usize = 0;
    while i < items.len()
        invariant
            i <= items@.len(),
            m == rss_item_views(items@),
            entry_views(out@) == rss_norm(m.take(i as int)),
        decreases items@.len() - i,
    {
        let it = &items[i];
        proof {
            lemma_rss_norm_step(m, i as int);
            assert(m[i as int] == items@[i as int]@);
        }
        match &it.pub_date {
            Some(d) => {
                let fixed = replace_utc(d.as_str());
                match parse_rfc2822_secs(fixed.as_str()) {
                    Some(secs) => {
                        let title = title_or_empty(&it.title);
                        let link = clone_opt_str(&it.link);
                        let en = Entry { title, link, published: secs };
                        let ghost prev = out@;
                        out.push(en);
                        proof {
                            assert(entry_views(prev.push(en)) =~= entry_views(prev).push(en@));
                            assert(entry_views(out@) =~= rss_norm(m.take(i as int + 1)));
                        }
                    },
                    None => {},
                }
            },
            None => {},
        }
        i = i + 1;
    }
    proof {
        assert(m.take(items@.len() as int) =~= m);
    }
    out
}

/// Decode raw bytes into a feed: format A is tried first, then format B;
/// if neither recognizes the bytes, the error names both.  Exactly the
/// entries admitted by the date policy come back, in wire order.
pub fn decode(bytes: &[u8]) -> (r: Result<FeedData, DecodeError>)
    ensures
        match r {
            Ok(f) => decode_model(bytes@) == Some(f@),
            Err(e) => decode_model(bytes@) is None && e == DecodeError::NeitherFormat,
        },
{
    if let Some(raw) = parse_atom(bytes) {
        let entries = normalize_atom_entries(&raw.entries);
        Ok(FeedData { title: raw.title, entries })
    } else if let Some(raw) = parse_rss(bytes) {
        let entries = normalize_rss_items(&raw.items);
        Ok(FeedData { title: raw.title, entries })
    } else {
        Err(DecodeError::NeitherFormat)
    }
}

} // verus!
