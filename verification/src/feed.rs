//! The normalized entry model shared by both wire formats.

use vstd::prelude::*;

verus! {

/// Abstract value of one normalized entry.
pub ghost struct EntryModel {
    pub title: Seq<char>,
    pub link: Option<Seq<char>>,
    pub published: i64,
}

/// One article, normalized from either wire format.  `link` may be absent:
/// such an entry is kept but cannot be opened or marked read.  `published`
/// is the publication instant in seconds of the epoch.
pub struct Entry {
    pub title: String,
    pub link: Option<String>,
    pub published: i64,
}

/// Abstract values of a sequence of strings.
pub open spec fn str_views(lines: Seq<String>) -> Seq<Seq<char>> {
    lines.map_values(|l: String| l@)
}

/// Abstract value of an `Option<String>`.
pub open spec fn opt_str_view(o: Option<String>) -> Option<Seq<char>> {
    match o {
        Some(s) => Some(s@),
        None => None,
    }
}

impl View for Entry {
    type V = EntryModel;

    open spec fn view(&self) -> EntryModel {
        EntryModel {
            title: self.title@,
            link: opt_str_view(self.link),
            published: self.published,
        }
    }
}

/// Abstract values of a sequence of entries.
pub open spec fn entry_views(s: Seq<Entry>) -> Seq<EntryModel> {
    s.map_values(|e: Entry| e@)
}

/// Clone an optional link, keeping its abstract value.
pub fn clone_opt_str(o: &Option<String>) -> (r: Option<String>)
    ensures
        opt_str_view(r) == opt_str_view(*o),
{
    match o {
        Some(s) => Some(s.clone()),
        None => None,
    }
}

/// An absent title defaults to the empty string.
pub fn title_or_empty(o: &Option<String>) -> (r: String)
    ensures
        r@ == (match opt_str_view(*o) {
            Some(t) => t,
            None => Seq::<char>::empty(),
        }),
{
    match o {
        Some(s) => s.clone(),
        None => String::new(),
    }
}

/// Abstract value of one decoded feed.
pub ghost struct FeedModel {
    pub title: Seq<char>,
    pub entries: Seq<EntryModel>,
}

/// One decoded feed: its own title and its normalized entries.
pub struct FeedData {
    pub title: String,
    pub entries: Vec<Entry>,
}

impl View for FeedData {
    type V = FeedModel;

    open spec fn view(&self) -> FeedModel {
        FeedModel {
            title: self.title@,
            entries: entry_views(self.entries@),
        }
    }
}

/// Abstract values of a sequence of feeds.
pub open spec fn feed_views(s: Seq<FeedData>) -> Seq<FeedModel> {
    s.map_values(|f: FeedData| f@)
}

/// Abstract value of one display entry.
pub ghost struct ListEntryModel {
    pub title: Seq<char>,
    pub link: Option<Seq<char>>,
    pub published: i64,
}

/// One entry as shown in the merged list: its title carries the source
/// feed's title in parentheses.
pub struct ListEntry {
    pub title: String,
    pub link: Option<String>,
    pub published: i64,
}

impl View for ListEntry {
    type V = ListEntryModel;

    open spec fn view(&self) -> ListEntryModel {
        ListEntryModel {
            title: self.title@,
            link: opt_str_view(self.link),
            published: self.published,
        }
    }
}

/// Abstract values of a sequence of display entries.
pub open spec fn list_entry_views(s: Seq<ListEntry>) -> Seq<ListEntryModel> {
    s.map_values(|e: ListEntry| e@)
}

/// The display form of one entry of a feed: the entry's own title, a
/// space, and the feed's title in parentheses; link and date unchanged.
pub open spec fn list_entry_of(feed_title: Seq<char>, e: EntryModel) -> ListEntryModel {
    ListEntryModel {
        title: e.title + " ("@ + feed_title + ")"@,
        link: e.link,
        published: e.published,
    }
}

/// The display entries of a whole feed, in feed order.
pub open spec fn list_model_of(f: FeedModel) -> Seq<ListEntryModel> {
    f.entries.map_values(|e: EntryModel| list_entry_of(f.title, e))
}

impl FeedData {
    /// The display entries of this feed, in order: each entry's title
    /// with the feed title appended in parentheses.
    pub fn list_entries(&self) -> (r: Vec<ListEntry>)
        ensures
            list_entry_views(r@) == list_model_of(self@),
    {
        let ghost m = list_model_of(self@);
        let mut r: Vec<ListEntry> = Vec::new();
        let mut i: usize = 0;
        while i < self.entries.len()
            invariant
                i <= self.entries@.len(),
                m == list_model_of(self@),
                m.len() == self.entries@.len(),
                list_entry_views(r@) == m.take(i as int),
            decreases self.entries@.len() - i,
        {
            let e = &self.entries[i];
            let mut t = e.title.clone();
            t.append(" (");
            t.append(self.title.as_str());
            t.append(")");
            let le = ListEntry { title: t, link: clone_opt_str(&e.link), published: e.published };
            let ghost prev = r@;
            r.push(le);
            proof {
                assert(self@.entries[i as int] == self.entries@[i as int]@);
                assert(le@.title =~= list_entry_of(self@.title, self@.entries[i as int]).title);
                assert(le@ == m[i as int]);
                assert(list_entry_views(prev.push(le)) =~= list_entry_views(prev).push(le@));
                assert(m.take(i as int + 1) =~= m.take(i as int).push(m[i as int]));
            }
            i = i + 1;
        }
        proof {
            assert(m.take(self.entries@.len() as int) =~= m);
        }
        r
    }
}

} // verus!
