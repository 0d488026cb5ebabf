//! The rules that admit or refuse a run before any processing: a directory
//! input needs the recursive flag, and a file input must name a Markdown
//! file. The same extension filter selects documents during traversal.

use vstd::prelude::*;
use vstd::string::StringExecFns;
use crate::text::chars_of;

verus! {

/// Why a run was refused before any processing.
#[derive(Clone, Copy, Debug, PartialEq, Eq, Structural)]
pub enum UsageError {
    /// The input is a directory, but the recursive flag was not given.
    DirectoryNotRecursive,
    /// The input is a single file without the Markdown extension.
    NotMarkdown,
}

/// The file name of a path: everything after the last separator.
pub open spec fn file_name_of(s: Seq<char>) -> Seq<char>
    decreases s.len(),
{
    if s.len() == 0 || s.last() == '/' {
        Seq::empty()
    } else {
        file_name_of(s.drop_last()).push(s.last())
    }
}

/// Whether a path names a Markdown file: its file name has a nonempty stem
/// and the `.md` extension.
pub open spec fn md_path(s: Seq<char>) -> bool {
    let f = file_name_of(s);
    f.len() > 3 && f[f.len() - 3] == '.' && f[f.len() - 2] == 'm' && f[f.len() - 1] == 'd'
}

/// Past the last separator, the file name is the remaining suffix.
proof fn lemma_file_name_suffix(s: Seq<char>, p: int)
    requires
        -1 <= p < s.len(),
        p == -1 || s[p] == '/',
        forall|j: int| p < j < s.len() ==> s[j] != '/',
    ensures
        file_name_of(s) == s.subrange(p + 1, s.len() as int),
    decreases s.len(),
{
    if s.len() == 0 {
        assert(file_name_of(s) =~= s.subrange(p + 1, s.len() as int));
    } else if p == s.len() - 1 {
        assert(s.last() == '/');
        assert(file_name_of(s) =~= s.subrange(p + 1, s.len() as int));
    } else {
        assert(s.last() != '/');
        lemma_file_name_suffix(s.drop_last(), p);
        assert(s.subrange(p + 1, s.len() as int) =~= s.drop_last().subrange(
            p + 1,
            s.len() - 1,
        ).push(s.last()));
    }
}

/// Whether a path names a Markdown file.
pub fn is_md_file(path: &str) -> (r: bool)
    ensures
        r == md_path(path@),
{
    let cs = chars_of(path);
    let n = cs.len();
    let mut q: usize = n;
    while q > 0 && cs[q - 1] != '/'
        invariant
            q <= n,
            n == cs@.len(),
            cs@ == path@,
            forall|j: int| q <= j < n ==> cs@[j] != '/',
        decreases q,
    {
        q = q - 1;
    }
    proof {
        lemma_file_name_suffix(path@, q - 1);
        assert(file_name_of(path@) == path@.subrange(q as int, n as int));
    }
    if n - q > 3 {
        let r = cs[n - 3] == '.' && cs[n - 2] == 'm' && cs[n - 1] == 'd';
        proof {
            let f = file_name_of(path@);
            assert(f[f.len() - 3] == path@[n - 3]);
            assert(f[f.len() - 2] == path@[n - 2]);
            assert(f[f.len() - 1] == path@[n - 1]);
        }
        r
    } else {
        false
    }
}

/// Decides whether a run may proceed: a directory input needs the recursive
/// flag, and a file input must name a Markdown file. An admitted run never
/// fails for usage reasons; a refused run names the reason.
pub fn check_usage(path: &str, is_dir: bool, recursive: bool) -> (r: Result<(), UsageError>)
    ensures
        r == Ok::<(), UsageError>(()) <==> ((is_dir ==> recursive) && (is_dir || md_path(path@))),
        r == Err::<(), UsageError>(UsageError::DirectoryNotRecursive) <==> (is_dir && !recursive),
        r == Err::<(), UsageError>(UsageError::NotMarkdown) <==> (!is_dir && !md_path(path@)),
{
    if is_dir {
        if recursive {
            Ok(())
        } else {
            Err(UsageError::DirectoryNotRecursive)
        }
    } else if is_md_file(path) {
        Ok(())
    } else {
        Err(UsageError::NotMarkdown)
    }
}

impl UsageError {
    /// The diagnostic line reported for this error.
    pub fn message(&self) -> (r: String)
        ensures
            *self is DirectoryNotRecursive ==> r@ == "Input is a directory, but --recursive was not specified"@,
            *self is NotMarkdown ==> r@ == "File must have a .md extension"@,
    {
        match self {
            UsageError::DirectoryNotRecursive => String::from_str(
                "Input is a directory, but --recursive was not specified",
            ),
            UsageError::NotMarkdown => String::from_str("File must have a .md extension"),
        }
    }
}

} // verus!
