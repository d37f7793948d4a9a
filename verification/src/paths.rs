//! Filesystem paths, decided by `std::path::Path`. Each wrapper below makes
//! one call and hands the result back as text; what the call returns is named
//! by a spec function of the path's text.
use vstd::prelude::*;

verus! {

/// The text of each component that `Path::components` yields for `p`
/// (`/` for the root, `.` and `..` for the relative ones).
pub uninterp spec fn path_components(p: Seq<char>) -> Seq<Seq<char>>;

/// What `Path::parent` returns for `p`.
pub uninterp spec fn path_parent(p: Seq<char>) -> Option<Seq<char>>;

/// What `Path::extension` returns for `p`.
pub uninterp spec fn path_extension(p: Seq<char>) -> Option<Seq<char>>;

/// What `Path::join` returns for `base` and `rel`.
pub uninterp spec fn path_join(base: Seq<char>, rel: Seq<char>) -> Seq<char>;

/// What `Path::with_extension` returns for `p` and `ext`.
pub uninterp spec fn path_with_extension(p: Seq<char>, ext: Seq<char>) -> Seq<char>;

/// `Path::components`, each component by its text (`Component::as_os_str`).
/// Components of a `str` path are `str` slices, so the text is exact.
#[verifier::external_body]
pub(crate) fn components(p: &str) -> (parts: Vec<String>)
    ensures
        parts@.len() == path_components(p@).len(),
        forall|i: int| 0 <= i < parts@.len() ==> parts@[i]@ == path_components(p@)[i],
{
    std::path::Path::new(p).components().map(|c| c.as_os_str().to_string_lossy().into_owned()).collect()
}

/// `Path::parent`. The parent, when there is one, is a slice of `p` without
/// its final component, so it is shorter than `p`.
#[verifier::external_body]
pub(crate) fn parent(p: &str) -> (q: Option<String>)
    ensures
        q matches Some(q) ==> path_parent(p@) == Some(q@) && q@.len() < p@.len(),
        q is None ==> path_parent(p@) is None,
{
    std::path::Path::new(p).parent().map(|q| q.to_string_lossy().into_owned())
}

/// `Path::extension`: the text after the final `.` of the file name, if any.
#[verifier::external_body]
pub(crate) fn extension(p: &str) -> (ext: Option<String>)
    ensures
        ext matches Some(e) ==> path_extension(p@) == Some(e@),
        ext is None ==> path_extension(p@) is None,
{
    std::path::Path::new(p).extension().map(|e| e.to_string_lossy().into_owned())
}

/// `Path::join` (that is, `PathBuf::push` on a copy): an absolute `rel`
/// replaces `base`; otherwise a separator is added between a non-empty
/// `base` and `rel` unless `base` already ends with one.
#[verifier::external_body]
pub(crate) fn join(base: &str, rel: &str) -> (joined: String)
    ensures
        joined@ == path_join(base@, rel@),
        rel@.len() > 0 && rel@[0] == '/' ==> joined@ == rel@,
        rel@.len() > 0 && rel@[0] != '/' && base@.len() > 0 ==> joined@ == if base@.last() == '/' {
            base@ + rel@
        } else {
            base@ + seq!['/'] + rel@
        },
{
    std::path::Path::new(base).join(rel).to_string_lossy().into_owned()
}

/// `Path::with_extension`, which panics on an extension holding a path
/// separator; such extensions are excluded.
#[verifier::external_body]
pub(crate) fn with_extension(p: &str, ext: &str) -> (q: String)
    requires
        !ext@.contains('/'),
    ensures
        q@ == path_with_extension(p@, ext@),
{
    std::path::Path::new(p).with_extension(ext).to_string_lossy().into_owned()
}

} // verus!
