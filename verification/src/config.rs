//! The configured feed sources: a line-oriented list, comment lines excluded.

use vstd::prelude::*;
use vstd::string::*;

use crate::feed::str_views;

verus! {

/// A comment line: its first character is `#`.
pub open spec fn is_comment(line: Seq<char>) -> bool {
    line.len() > 0 && line[0] == '#'
}

/// The sources kept from given configuration lines: every non-comment
/// line, in file order.
pub open spec fn sources_of(lines: Seq<Seq<char>>) -> Seq<Seq<char>>
    decreases lines.len(),
{
    if lines.len() == 0 {
        Seq::empty()
    } else {
        sources_of(lines.drop_last()) + (if is_comment(lines.last()) {
            Seq::<Seq<char>>::empty()
        } else {
            seq![lines.last()]
        })
    }
}

proof fn lemma_sources_of_step(lines: Seq<Seq<char>>, i: int)
    requires
        0 <= i < lines.len(),
    ensures
        sources_of(lines.take(i + 1)) == sources_of(lines.take(i)) + (if is_comment(lines[i]) {
            Seq::<Seq<char>>::empty()
        } else {
            seq![lines[i]]
        }),
{
    assert(lines.take(i + 1).drop_last() =~= lines.take(i));
    assert(lines.take(i + 1).last() == lines[i]);
}

/// Keep every non-comment line of the configuration as a feed source.
pub fn feed_urls(lines: &Vec<String>) -> (r: Vec<String>)
    ensures
        str_views(r@) == sources_of(str_views(lines@)),
{
    let ghost m = str_views(lines@);
    let mut r: Vec<String> = Vec::new();
    let mut i: usize = 0;
    while i < lines.len()
        invariant
            i <= lines@.len(),
            m == str_views(lines@),
            str_views(r@) == sources_of(m.take(i as int)),
        decreases lines@.len() - i,
    {
        let line = &lines[i];
        proof {
            lemma_sources_of_step(m, i as int);
            assert(m[i as int] == lines@[i as int]@);
        }
        let comment = !line.as_str().is_empty() && line.as_str().get_char(0) == '#';
        if !comment {
            let ghost prev = r@;
            r.push(line.clone());
            proof {
                assert(str_views(prev.push(lines@[i as int])) =~= str_views(prev).push(
                    lines@[i as int]@,
                ));
                assert(str_views(r@) =~= sources_of(m.take(i as int + 1)));
            }
        }
        i = i + 1;
    }
    proof {
        assert(m.take(lines@.len() as int) =~= m);
    }
    r
}

} // verus!
