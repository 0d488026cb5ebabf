//! Locating the frontmatter block of a document.
//!
//! The block opens at the first line that consists exactly of `---` and runs
//! to the next such line, or to the end of the document when no closing
//! delimiter follows. Its body is the lines strictly between the delimiters,
//! joined with a newline after each.

use vstd::prelude::*;
use crate::text::chars_of;
use crate::text::chars_to_string;
use crate::text::joined;
use crate::text::lines_of;
use crate::text::split_lines;
use crate::text::views_of;

verus! {

/// A delimiter line: exactly three dashes.
pub open spec fn is_delim(l: Seq<char>) -> bool {
    l == seq!['-', '-', '-']
}

/// The index of the first delimiter line at or after `from`, if any.
pub open spec fn find_delim(ls: Seq<Seq<char>>, from: int) -> Option<int>
    decreases ls.len() - from,
{
    if from < 0 || from >= ls.len() {
        None
    } else if is_delim(ls[from]) {
        Some(from)
    } else {
        find_delim(ls, from + 1)
    }
}

pub proof fn lemma_find_delim(ls: Seq<Seq<char>>, from: int)
    requires
        0 <= from,
    ensures
        match find_delim(ls, from) {
            Some(i) => from <= i < ls.len() && is_delim(ls[i]) && (forall|j: int|
                from <= j < i ==> !is_delim(#[trigger] ls[j])),
            None => forall|j: int| from <= j < ls.len() ==> !is_delim(#[trigger] ls[j]),
        },
    decreases ls.len() - from,
{
    if from < ls.len() && !is_delim(ls[from]) {
        lemma_find_delim(ls, from + 1);
    }
}

/// The body of the frontmatter block of a text, when the text has one.
pub open spec fn block_text_of(s: Seq<char>) -> Option<Seq<char>> {
    let ls = lines_of(s);
    match find_delim(ls, 0) {
        None => None,
        Some(a) => {
            let b = match find_delim(ls, a + 1) {
                Some(b) => b,
                None => ls.len() as int,
            };
            Some(joined(ls.subrange(a + 1, b)))
        },
    }
}

fn is_delim_line(l: &Vec<char>) -> (r: bool)
    ensures
        r == is_delim(l@),
{
    let r = l.len() == 3 && l[0] == '-' && l[1] == '-' && l[2] == '-';
    proof {
        if r {
            assert(l@ =~= seq!['-', '-', '-']);
        } else {
            if is_delim(l@) {
                assert(l@[0] == '-' && l@[1] == '-' && l@[2] == '-');
            }
        }
    }
    r
}

fn find_delim_line(lines: &Vec<Vec<char>>, from: usize) -> (r: Option<usize>)
    ensures
        match r {
            Some(i) => from <= i < lines@.len() && find_delim(views_of(lines@), from as int)
                == Some(i as int),
            None => find_delim(views_of(lines@), from as int) is None,
        },
{
    let ghost ls = views_of(lines@);
    let mut j: usize = from;
    while j < lines.len()
        invariant
            from <= j,
            ls == views_of(lines@),
            find_delim(ls, from as int) == find_delim(ls, j as int),
        decreases lines@.len() - j,
    {
        if is_delim_line(&lines[j]) {
            return Some(j);
        }
        j = j + 1;
    }
    None
}

/// The body of the frontmatter block of `text`, when `text` has one.
///
/// The body is returned exactly as `block_text_of` describes it: the lines
/// strictly between the first delimiter line and the next one (or the end of
/// the text), each followed by a newline.
pub fn frontmatter_block(text: &str) -> (r: Option<String>)
    ensures
        match r {
            Some(b) => block_text_of(text@) == Some(b@),
            None => block_text_of(text@) is None,
        },
{
    let cs = chars_of(text);
    let lines = split_lines(&cs);
    let ghost ls = views_of(lines@);
    let a = match find_delim_line(&lines, 0) {
        Some(a) => a,
        None => {
            return None;
        },
    };
    let n = lines.len();
    assert(a < n);
    let b = match find_delim_line(&lines, a + 1) {
        Some(b) => b,
        None => lines.len(),
    };
    let mut out: Vec<char> = Vec::new();
    let mut j: usize = a + 1;
    proof {
        assert(ls.subrange(a + 1, a + 1) =~= Seq::<Seq<char>>::empty());
    }
    while j < b
        invariant
            a + 1 <= j <= b <= lines@.len(),
            ls == views_of(lines@),
            out@ == joined(ls.subrange(a as int + 1, j as int)),
        decreases b - j,
    {
        let ghost out0 = out@;
        let line = &lines[j];
        let mut k: usize = 0;
        while k < line.len()
            invariant
                k <= line@.len(),
                line@ == ls[j as int],
                j < ls.len(),
                out@ == out0 + line@.take(k as int),
            decreases line@.len() - k,
        {
            out.push(line[k]);
            k = k + 1;
        }
        out.push('\n');
        j = j + 1;
        proof {
            assert(line@.take(line@.len() as int) =~= line@);
            assert(ls.subrange(a + 1, j as int).drop_last() =~= ls.subrange(a + 1, j - 1));
            assert(out@ =~= joined(ls.subrange(a + 1, j - 1)) + ls[j - 1] + seq!['\n']);
        }
    }
    Some(chars_to_string(&out))
}

/// A document with no delimiter line anywhere has no frontmatter block.
pub proof fn lemma_no_delim_no_block(s: Seq<char>)
    requires
        forall|i: int| 0 <= i < lines_of(s).len() ==> !is_delim(#[trigger] lines_of(s)[i]),
    ensures
        block_text_of(s) is None,
{
    lemma_find_delim(lines_of(s), 0);
}

/// A document with a delimiter line somewhere always has a frontmatter
/// block: extraction reaches the metadata parse.
pub proof fn lemma_delim_gives_block(s: Seq<char>)
    requires
        exists|i: int| 0 <= i < lines_of(s).len() && is_delim(#[trigger] lines_of(s)[i]),
    ensures
        block_text_of(s) is Some,
{
    lemma_find_delim(lines_of(s), 0);
}

/// A well-formed block, opened and closed by delimiter lines, has as body
/// exactly the lines strictly between the two delimiters.
pub proof fn lemma_closed_block(s: Seq<char>, a: int, b: int)
    requires
        find_delim(lines_of(s), 0) == Some(a),
        find_delim(lines_of(s), a + 1) == Some(b),
    ensures
        block_text_of(s) == Some(joined(lines_of(s).subrange(a + 1, b))),
{
}

/// A block opened by a delimiter line but never closed runs to the end of the
/// document: the body consists of every remaining line.
pub proof fn lemma_unclosed_block_runs_to_end(s: Seq<char>, a: int)
    requires
        find_delim(lines_of(s), 0) == Some(a),
        find_delim(lines_of(s), a + 1) is None,
    ensures
        block_text_of(s) == Some(joined(lines_of(s).subrange(a + 1, lines_of(s).len() as int))),
{
}

/// An empty block, the opening delimiter line immediately followed by the
/// closing one, has an empty body.
pub proof fn lemma_empty_block(s: Seq<char>, a: int)
    requires
        find_delim(lines_of(s), 0) == Some(a),
        a + 1 < lines_of(s).len(),
        is_delim(lines_of(s)[a + 1]),
    ensures
        block_text_of(s) == Some(Seq::<char>::empty()),
{
    lemma_find_delim(lines_of(s), 0);
    assert(find_delim(lines_of(s), a + 1) == Some(a + 1));
    assert(lines_of(s).subrange(a + 1, a + 1) =~= Seq::<Seq<char>>::empty());
}

} // verus!
