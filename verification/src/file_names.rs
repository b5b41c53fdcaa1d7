//! What this machine makes of a path.

use vstd::prelude::*;

verus! {

/// Whether a text stands in a path behind a dot.
pub open spec fn stands_behind_dot(path: Seq<char>, text: Seq<char>) -> bool {
    exists|i: int|
        0 < i && i + text.len() <= path.len() && path[i - 1] == '.' && #[trigger] path.subrange(
            i,
            i + text.len(),
        ) == text
}

/// Whether a path has an extension that every machine finds: what follows its
/// last dot, where a name stands before the dot and nothing in the path can be
/// taken for a drive, a share or a separator but single strokes.
pub open spec fn has_plain_extension(path: Seq<char>, extension: Seq<char>) -> bool {
    let dot = path.len() - extension.len() - 1;
    &&& extension.len() > 0
    &&& dot > 0
    &&& path[dot] == '.'
    &&& path[dot - 1] != '/'
    &&& path.skip(dot + 1) == extension
    &&& !extension.contains('.')
    &&& !extension.contains('/')
    &&& !path.contains('\\')
    &&& !path.contains(':')
    &&& !(path[0] == '/' && path[1] == '/')
}

/// Whether some machine may take a path for an absolute one: it starts with a
/// separator, or has a drive or the like in it.
pub open spec fn may_be_absolute(path: Seq<char>) -> bool {
    path.len() > 0 && (path[0] == '/' || path[0] == '\\' || path.contains(':'))
}

/// `std::path::Path::is_absolute`. Trusted: an absolute path starts with a
/// separator or has a drive in it. Which of those paths are absolute differs
/// from machine to machine.
#[verifier::external_body]
pub(crate) fn is_absolute(path: &str) -> (absolute: bool)
    ensures
        absolute ==> may_be_absolute(path@),
{
    std::path::Path::new(path).is_absolute()
}

/// `std::path::Path::extension`. Trusted: an extension is part of the path,
/// behind a dot, and one that every machine finds is found. Of other paths,
/// where the name of the file begins, and with it which dot counts, differs
/// from machine to machine.
#[verifier::external_body]
pub(crate) fn path_extension(path: &str) -> (extension: Option<String>)
    ensures
        extension matches Some(text) ==> stands_behind_dot(path@, text@),
        forall|plain: Seq<char>| #[trigger]
            has_plain_extension(path@, plain) ==> extension is Some && extension->0@ == plain,
{
    std::path::Path::new(path).extension().and_then(|text| text.to_str()).map(|text| text.to_owned())
}

} // verus!
