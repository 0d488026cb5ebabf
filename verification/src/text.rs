//! Text as sequences of characters: decoding a `&str` into its characters,
//! splitting a text into lines on the newline character, and joining lines
//! back into a text with a newline after each line.

use vstd::prelude::*;

verus! {

broadcast use vstd::string::group_string_axioms;

/// The lines of a text, split on the newline character.
///
/// A text always has at least one line; each newline character ends the
/// current line and opens a new one, so a trailing newline yields a final
/// empty line.
pub open spec fn lines_of(s: Seq<char>) -> Seq<Seq<char>>
    decreases s.len(),
{
    if s.len() == 0 {
        seq![Seq::<char>::empty()]
    } else {
        let prev = lines_of(s.drop_last());
        if s.last() == '\n' {
            prev.push(Seq::<char>::empty())
        } else {
            prev.update(prev.len() - 1, prev.last().push(s.last()))
        }
    }
}

/// Lines joined into one text, each line followed by a newline.
pub open spec fn joined(ls: Seq<Seq<char>>) -> Seq<char>
    decreases ls.len(),
{
    if ls.len() == 0 {
        Seq::<char>::empty()
    } else {
        joined(ls.drop_last()) + ls.last() + seq!['\n']
    }
}

/// The characters of a string, in order.
pub fn chars_of(s: &str) -> (v: Vec<char>)
    ensures
        v@ == s@,
{
    let mut v: Vec<char> = Vec::new();
    for c in it: s.chars()
        invariant
            it.seq() == s@,
            v@ == it.seq().take(it.index() as int),
    {
        v.push(c);
    }
    proof {
        assert(v@ =~= s@);
    }
    v
}

/// The view of each vector in a sequence of character vectors.
pub open spec fn views_of(ls: Seq<Vec<char>>) -> Seq<Seq<char>> {
    ls.map_values(|l: Vec<char>| l@)
}

/// Splits a text into its lines.
pub fn split_lines(text: &Vec<char>) -> (lines: Vec<Vec<char>>)
    ensures
        views_of(lines@) == lines_of(text@),
        lines@.len() >= 1,
{
    let mut done: Vec<Vec<char>> = Vec::new();
    let mut cur: Vec<char> = Vec::new();
    let mut i: usize = 0;
    proof {
        assert(views_of(done@).push(cur@) =~~= lines_of(text@.take(0)));
    }
    while i < text.len()
        invariant
            i <= text.len(),
            views_of(done@).push(cur@) == lines_of(text@.take(i as int)),
        decreases text.len() - i,
    {
        let ghost prev = lines_of(text@.take(i as int));
        let c = text[i];
        if c == '\n' {
            done.push(cur);
            cur = Vec::new();
        } else {
            cur.push(c);
        }
        i = i + 1;
        proof {
            assert(text@.take(i as int).drop_last() =~= text@.take(i as int - 1));
            assert(text@.take(i as int).last() == c);
            if c == '\n' {
                assert(views_of(done@).push(cur@) =~~= prev.push(Seq::<char>::empty()));
            } else {
                assert(views_of(done@).push(cur@) =~~= prev.update(
                    prev.len() - 1,
                    prev.last().push(c),
                ));
            }
        }
    }
    done.push(cur);
    proof {
        assert(text@.take(text@.len() as int) =~= text@);
        assert(views_of(done@) =~~= lines_of(text@));
    }
    done
}

/// Relies on std's `FromIterator<char> for String`: collecting the characters
/// of a vector yields the string of exactly those characters, in order.
#[verifier::external_body]
pub fn chars_to_string(v: &Vec<char>) -> (s: String)
    ensures
        s@ == v@,
{
    v.iter().collect()
}

} // verus!
