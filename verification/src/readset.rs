//! The read-state tracker: links the user has marked read, persisted as
//! one link per line in an append-only store.

use vstd::prelude::*;

use crate::feed::str_views;

verus! {

/// The set of links recorded by given persisted lines, one link per line.
pub open spec fn read_set_of(lines: Seq<Seq<char>>) -> Set<Seq<char>> {
    lines.to_set()
}

/// The links the user has marked read.  Append-only during a session;
/// the caller persists each mark by appending the same link as one line
/// to the store the set was loaded from.
pub struct ReadSet {
    pub links: Vec<String>,
}

impl View for ReadSet {
    type V = Set<Seq<char>>;

    open spec fn view(&self) -> Set<Seq<char>> {
        read_set_of(str_views(self.links@))
    }
}

impl ReadSet {
    /// Rebuild the set from the lines of the persisted store; a missing
    /// store hands in no lines and yields the empty set.
    pub fn from_lines(lines: Vec<String>) -> (r: ReadSet)
        ensures
            r@ == read_set_of(str_views(lines@)),
    {
        ReadSet { links: lines }
    }

    /// Whether a link has been marked read.
    pub fn is_read(&self, link: &String) -> (r: bool)
        ensures
            r == self@.contains(link@),
    {
        let ghost lv = str_views(self.links@);
        let mut j: usize = 0;
        while j < self.links.len()
            invariant
                j <= self.links@.len(),
                lv == str_views(self.links@),
                forall|a: int| 0 <= a < j ==> #[trigger] lv[a] != link@,
            decreases self.links@.len() - j,
        {
            if self.links[j] == *link {
                proof {
                    assert(lv[j as int] == link@);
                    assert(lv.contains(link@));
                }
                return true;
            }
            proof {
                assert(lv[j as int] == self.links@[j as int]@);
            }
            j = j + 1;
        }
        proof {
            assert(!lv.to_set().contains(link@)) by {
                if lv.contains(link@) {
                    let a = choose|a: int| 0 <= a < lv.len() && lv[a] == link@;
                    assert(lv[a] != link@);
                }
            }
        }
        false
    }

    /// Mark a link read in this session.  The caller appends the same
    /// link as one line to the persisted store.
    pub fn mark_read(&mut self, link: &String)
        ensures
            final(self)@ == old(self)@.insert(link@),
    {
        let ghost lv = str_views(self.links@);
        self.links.push(link.clone());
        proof {
            assert(str_views(self.links@) =~= lv.push(link@));
            assert(lv.push(link@).to_set() =~= lv.to_set().insert(link@)) by {
                assert forall|x: Seq<char>|
                    lv.push(link@).to_set().contains(x) <==> lv.to_set().insert(link@).contains(
                        x,
                    ) by {
                    if lv.push(link@).contains(x) {
                        let a = choose|a: int|
                            0 <= a < lv.push(link@).len() && lv.push(link@)[a] == x;
                        if a < lv.len() {
                            assert(lv[a] == x);
                            assert(lv.contains(x));
                        } else {
                            assert(x == link@);
                        }
                    }
                    if lv.contains(x) {
                        let a = choose|a: int| 0 <= a < lv.len() && lv[a] == x;
                        assert(lv.push(link@)[a] == x);
                        assert(lv.push(link@).contains(x));
                    }
                    if x == link@ {
                        assert(lv.push(link@)[lv.len() as int] == x);
                        assert(lv.push(link@).contains(x));
                    }
                }
            }
        }
    }
}

/// Law: after a link is appended to the persisted store, the set rebuilt
/// from the extended store contains it, and still contains every link the
/// store held before — a mark survives reloading in a later session.
pub proof fn lemma_mark_read_persists(lines: Seq<Seq<char>>, link: Seq<char>)
    ensures
        read_set_of(lines.push(link)).contains(link),
        forall|x: Seq<char>| read_set_of(lines).contains(x) ==> read_set_of(lines.push(link)).contains(x),
{
    assert(lines.push(link)[lines.len() as int] == link);
    assert(lines.push(link).contains(link));
    assert forall|x: Seq<char>| read_set_of(lines).contains(x) implies read_set_of(
        lines.push(link),
    ).contains(x) by {
        let a = choose|a: int| 0 <= a < lines.len() && lines[a] == x;
        assert(lines.push(link)[a] == x);
        assert(lines.push(link).contains(x));
    }
}

} // verus!
