//! The decision logic of source-file discovery. Walking the directory tree
//! is input/output and happens outside the library; the library decides
//! which entries count as Rust files and whether the walk found any.

use vstd::prelude::*;
use vstd::string::StrSliceExecFns;

use crate::errors::AnalysisError;

verus! {

/// Whether a path names a Rust source file: it ends in `.rs`, and the file
/// name has a nonempty stem before that extension. Only `/` separates path
/// components here; a backslash is an ordinary file-name character, so a
/// file called `a\.rs` has the stem `a\` and counts.
pub open spec fn is_rust_file_path(s: Seq<char>) -> bool {
    s.len() >= 4 && s[s.len() - 1] == 's' && s[s.len() - 2] == 'r' && s[s.len() - 3] == '.' && s[
        s.len() - 4] != '/'
}

/// The paths of a list that name Rust source files, in order.
pub open spec fn rust_files_of(paths: Seq<Seq<char>>) -> Seq<Seq<char>>
    decreases paths,
{
    if paths.len() == 0 {
        Seq::empty()
    } else {
        rust_files_of(paths.drop_last()) + (if is_rust_file_path(paths.last()) {
            seq![paths.last()]
        } else {
            Seq::<Seq<char>>::empty()
        })
    }
}

/// Whether this path names a Rust source file.
pub fn is_rust_file(path: &str) -> (r: bool)
    ensures
        r == is_rust_file_path(path@),
{
    let n = path.unicode_len();
    if n < 4 {
        return false;
    }
    path.get_char(n - 1) == 's' && path.get_char(n - 2) == 'r' && path.get_char(n - 3) == '.'
        && path.get_char(n - 4) != '/'
}

/// Keeps the walked entries that name Rust source files; a walk that found
/// none is the error the caller reports for the directory.
pub fn filter_rust_files(paths: Vec<String>, dir: &str) -> (r: Result<Vec<String>, AnalysisError>)
    ensures
        match r {
            Ok(files) => files@.map_values(|p: String| p@) == rust_files_of(
                paths@.map_values(|p: String| p@),
            ) && files@.len() > 0,
            Err(e) => e matches AnalysisError::NoRustFiles { directory } && directory@ == dir@
                && rust_files_of(paths@.map_values(|p: String| p@)).len() == 0,
        },
{
    let ghost views = paths@.map_values(|p: String| p@);
    let mut files: Vec<String> = Vec::new();
    let n = paths.len();
    let mut i: usize = 0;
    while i < n
        invariant
            i <= n,
            n == paths@.len(),
            views == paths@.map_values(|p: String| p@),
            files@.map_values(|p: String| p@) =~= rust_files_of(views.take(i as int)),
        decreases n - i,
    {
        proof {
            assert(views.take(i + 1).drop_last() =~= views.take(i as int));
            assert(views.take(i + 1).last() == views[i as int]);
            assert(views[i as int] == paths@[i as int]@);
        }
        if is_rust_file(paths[i].as_str()) {
            let p = paths[i].clone();
            proof {
                assert(files@.push(p).map_values(|q: String| q@) =~= files@.map_values(
                    |q: String| q@,
                ).push(p@));
                assert(files@.map_values(|q: String| q@).push(p@) =~= rust_files_of(
                    views.take(i + 1),
                ));
            }
            files.push(p);
        }
        i = i + 1;
    }
    proof {
        assert(views.take(n as int) =~= views);
    }
    if files.len() == 0 {
        Err(AnalysisError::NoRustFiles { directory: dir.to_owned() })
    } else {
        Ok(files)
    }
}

} // verus!
