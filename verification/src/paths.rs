//! File paths, as text.
use vstd::prelude::*;
use crate::antie::payload;
use crate::text;

verus! {

/// A name below a directory. An absolute name stands for itself.
pub open spec fn joined(base: Seq<char>, name: Seq<char>) -> Seq<char> {
    if name.len() > 0 && name[0] == '/' {
        name
    } else if base.len() == 0 || base.last() == '/' {
        base + name
    } else {
        base + "/"@ + name
    }
}

/// A name below a directory.
pub fn join_path(base: &str, name: &str) -> (r: String)
    ensures
        r@ == joined(base@, name@),
{
    let b = text::chars_of(base);
    let n = text::chars_of(name);
    if n.len() > 0 && n[0] == '/' {
        return String::from_str(name);
    }
    let mut out = String::from_str(base);
    if b.len() > 0 && b[b.len() - 1] != '/' {
        out.append("/");
    }
    out.append(name);
    out
}

/// The directory that `std::path::Path::parent` gives for a path.
pub uninterp spec fn parent_text(p: Seq<char>) -> Option<Seq<char>>;

/// `std::path::Path::parent`: the path without its last component, if it has
/// one.
#[verifier::external_body]
pub(crate) fn parent_path(p: &str) -> (r: Option<String>)
    ensures
        payload::opt(r) == parent_text(p@),
{
    std::path::Path::new(p).parent().map(|d| d.to_string_lossy().to_string())
}

/// The last component that `std::path::Path::file_name` gives for a path.
pub uninterp spec fn name_text(p: Seq<char>) -> Option<Seq<char>>;

/// `std::path::Path::file_name`: the last component of the path, if it is a
/// name.
#[verifier::external_body]
pub(crate) fn name_of_path(p: &str) -> (r: Option<String>)
    ensures
        payload::opt(r) == name_text(p@),
{
    std::path::Path::new(p).file_name().map(|d| d.to_string_lossy().to_string())
}

/// How `{:?}` writes a path.
pub uninterp spec fn path_debug_text(p: Seq<char>) -> Seq<char>;

/// The `Debug` form of a `std::path::Path`: in double quotes, with escapes.
#[verifier::external_body]
pub(crate) fn path_debug_string(p: &str) -> (r: String)
    ensures
        r@ == path_debug_text(p@),
{
    format!("{:?}", std::path::Path::new(p))
}


/// A path is joined to another with one slash between them. An absolute path stands alone, and
/// a base that ends in a slash gets no second one.
pub proof fn law_one_slash_between(base: Seq<char>, name: Seq<char>)
    ensures
        joined(base, seq!['/'] + name) == seq!['/'] + name,
        !text::starts_with(name, seq!['/']) ==> {
            &&& joined(base.push('/'), name) == base + seq!['/'] + name
            &&& base.len() > 0 && base.last() != '/' ==> joined(base, name) == base + seq!['/'] + name
            &&& joined(Seq::empty(), name) == name
        },
{
    reveal_strlit("/");
    assert("/"@ =~= seq!['/']);
    assert(base.push('/') + name =~= base + seq!['/'] + name);
    assert(Seq::<char>::empty() + name =~= name);
    if name.len() > 0 && name[0] == '/' {
        assert(name.take(1) =~= seq!['/']);
    }
}

} // verus!
