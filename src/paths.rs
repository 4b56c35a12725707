//! Path handling: home-directory expansion, joining, parents and backups.

use vstd::prelude::*;

verus! {

/// What `Path::join` yields for a base and a pushed path.
pub uninterp spec fn joined_path(base: Seq<char>, rel: Seq<char>) -> Seq<char>;

/// What `Path::parent` yields for a path.
pub uninterp spec fn parent_path(p: Seq<char>) -> Option<Seq<char>>;

/// A path is absolute when it starts at the root.
pub open spec fn is_absolute_spec(p: Seq<char>) -> bool {
    p.len() > 0 && p[0] == '/'
}

/// A path written relative to a home directory.
pub open spec fn is_tilde_spec(p: Seq<char>) -> bool {
    p.len() > 0 && p[0] == '~'
}

/// The literal suffix given to a file moved aside before a link takes its place.
pub open spec fn backup_suffix() -> Seq<char> {
    seq!['.', 'h', 'y', 'p', 'r', 't', 'h', 'e', 'm', 'e', '.', 'b', 'a', 'k']
}

/// Where the file found at `p` is kept while a link stands there.
pub open spec fn backup_of(p: Seq<char>) -> Seq<char> {
    p + backup_suffix()
}

/// A path after home-directory expansion, where `home` is what the
/// expansion gave: a home-relative path becomes that (and stays as written
/// when there was none); any other path stays as written.
pub open spec fn expanded(p: Seq<char>, home: Option<Seq<char>>) -> Seq<char> {
    if is_tilde_spec(p) {
        match home {
            Some(e) => e,
            None => p,
        }
    } else {
        p
    }
}

/// `out` is `p` after expansion, for some outcome of the expansion.
pub open spec fn expands_to(p: Seq<char>, out: Seq<char>) -> bool {
    exists|home: Option<Seq<char>>| out == expanded(p, home)
}

/// How a path written in a manifest is resolved against the manifest's
/// directory: a home-relative path is expanded, an absolute path is kept,
/// anything else is joined to `dir`.
pub open spec fn resolved_path(p: Seq<char>, dir: Seq<char>, home: Option<Seq<char>>) -> Seq<char> {
    if is_tilde_spec(p) {
        expanded(p, home)
    } else if is_absolute_spec(p) {
        p
    } else {
        joined_path(dir, p)
    }
}

/// Relies on `expanduser::expanduser`: `~` and `~user` prefixes are replaced
/// by a home directory found in the environment; any other string comes back
/// as the same path.
#[verifier::external_body]
pub(crate) fn expand_user(s: &str) -> (r: Option<String>)
    ensures
        !is_tilde_spec(s@) ==> r is Some && r->0@ == s@,
{
    match expanduser::expanduser(s) {
        Ok(p) => p.into_os_string().into_string().ok(),
        Err(_) => None,
    }
}

/// Relies on `Path::join`: the result depends on the two paths alone, and an
/// absolute pushed path replaces the base.
#[verifier::external_body]
pub(crate) fn path_join(base: &str, rel: &str) -> (r: String)
    ensures
        r@ == joined_path(base@, rel@),
        is_absolute_spec(rel@) ==> r@ == rel@,
{
    std::path::Path::new(base).join(rel).to_string_lossy().into_owned()
}

/// Relies on `Path::parent`: the parent depends on the path alone; a path
/// that ends in the root, and the empty path, have none.
#[verifier::external_body]
pub(crate) fn path_parent(p: &str) -> (r: Option<String>)
    ensures
        r matches Some(q) ==> parent_path(p@) == Some(q@),
        r is None ==> parent_path(p@) is None,
        p@.len() == 0 ==> r is None,
{
    std::path::Path::new(p).parent().map(|q| q.to_string_lossy().into_owned())
}

/// Whether `p` starts at the root.
pub fn is_absolute(p: &str) -> (r: bool)
    ensures
        r == is_absolute_spec(p@),
{
    p.unicode_len() > 0 && p.get_char(0) == '/'
}

/// Whether `p` starts with the home-directory marker.
pub fn is_tilde(p: &str) -> (r: bool)
    ensures
        r == is_tilde_spec(p@),
{
    p.unicode_len() > 0 && p.get_char(0) == '~'
}

/// The backup location for a file at `p`.
pub fn backup_path(p: &str) -> (r: String)
    ensures
        r@ == backup_of(p@),
{
    let mut r = String::from_str(p);
    let suffix = ".hyprtheme.bak";
    proof {
        reveal_strlit(".hyprtheme.bak");
    }
    r.append(suffix);
    assert(suffix@ =~= backup_suffix());
    r
}

/// `out` is `p` resolved against `dir`, for some outcome of the expansion.
pub open spec fn resolves_to(p: Seq<char>, dir: Seq<char>, out: Seq<char>) -> bool {
    exists|home: Option<Seq<char>>| out == resolved_path(p, dir, home)
}

/// Expands a leading home-directory marker, keeping the path as written
/// when the home directory cannot be found.
pub fn expand_or_keep(p: &str) -> (r: String)
    ensures
        expands_to(p@, r@),
        !is_tilde_spec(p@) ==> r@ == p@,
{
    if is_tilde(p) {
        match expand_user(p) {
            Some(s) => {
                assert(s@ == expanded(p@, Some(s@)));
                s
            },
            None => {
                let r = String::from_str(p);
                assert(r@ == expanded(p@, None));
                r
            },
        }
    } else {
        let r = String::from_str(p);
        assert(r@ == expanded(p@, None));
        r
    }
}

/// Resolves a path written in a manifest against the manifest's directory.
pub fn resolve_path(p: &str, dir: &str) -> (r: String)
    ensures
        resolves_to(p@, dir@, r@),
        !is_tilde_spec(p@) ==> r@ == resolved_path(p@, dir@, None),
{
    if is_tilde(p) {
        let r = expand_or_keep(p);
        proof {
            let home = choose|home: Option<Seq<char>>| r@ == expanded(p@, home);
            assert(r@ == resolved_path(p@, dir@, home));
        }
        r
    } else if is_absolute(p) {
        let r = String::from_str(p);
        assert(r@ == resolved_path(p@, dir@, None));
        r
    } else {
        let r = path_join(dir, p);
        assert(r@ == resolved_path(p@, dir@, None));
        r
    }
}

} // verus!
