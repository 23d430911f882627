//! File-system paths as text: joining in the way `PathBuf::push` does on Unix,
//! and cutting the root off an absolute path.
use vstd::prelude::*;

verus! {

/// Whether `p` is an absolute Unix path, that is, begins with `/`.
pub open spec fn is_absolute(p: Seq<char>) -> bool {
    p.len() > 0 && p[0] == '/'
}

/// `base` extended by `p`: an absolute `p` replaces `base`; otherwise `p` is appended,
/// with one `/` in between unless `base` is empty or already ends in `/`.
pub open spec fn joined(base: Seq<char>, p: Seq<char>) -> Seq<char> {
    if is_absolute(p) {
        p
    } else if base.len() == 0 || base.last() == '/' {
        base + p
    } else {
        base.push('/') + p
    }
}

/// What `std::path::Path::strip_prefix` gives for the prefix `/` on the path `p`.
pub uninterp spec fn stripped_root(p: Seq<char>) -> Option<Seq<char>>;

/// Joins `p` onto `base`.
pub fn path_join(base: &str, p: &str) -> (r: String)
    ensures
        r@ == joined(base@, p@),
{
    let pv = crate::text::chars_of(p);
    if pv.len() > 0 && pv[0] == '/' {
        return p.to_owned();
    }
    let bv = crate::text::chars_of(base);
    let mut r = base.to_owned();
    if bv.len() > 0 && bv[bv.len() - 1] != '/' {
        crate::text::push_char(&mut r, '/');
    }
    r.append(p);
    r
}

/// Cuts the root directory off `p` with `std::path::Path::strip_prefix("/")`.
/// Its documentation says that this succeeds exactly when `/` is a leading whole
/// component of `p`, which for a Unix path means that `p` begins with `/`; what comes
/// back is the rest of the path, relative, with the separators after the root dropped.
/// What text comes back is otherwise left to the name `stripped_root`.
#[verifier::external_body]
pub(crate) fn strip_root(p: &str) -> (r: Option<String>)
    ensures
        r is Some <==> is_absolute(p@),
        r matches Some(t) ==> stripped_root(p@) == Some(t@) && !is_absolute(t@),
        r is None ==> stripped_root(p@) is None,
{
    match std::path::Path::new(p).strip_prefix("/") {
        Ok(rest) => Some(rest.to_string_lossy().into_owned()),
        Err(_) => None,
    }
}

/// Joining `p` onto `base`: an absolute `p` is the result itself; a relative one comes
/// after the whole of `base`, separated from it by one `/` that is added only when
/// `base` is not empty and does not already end in `/`.
pub proof fn lemma_joined_law(base: Seq<char>, p: Seq<char>)
    ensures
        is_absolute(p) ==> joined(base, p) == p,
        !is_absolute(p) ==> {
            let r = joined(base, p);
            let sep: int = if base.len() > 0 && base.last() != '/' {
                1
            } else {
                0
            };
            &&& r.len() == base.len() + sep + p.len()
            &&& r.subrange(0, base.len() as int) == base
            &&& sep == 1 ==> r[base.len() as int] == '/'
            &&& r.subrange(base.len() + sep, r.len() as int) == p
        },
{
    if !is_absolute(p) {
        let r = joined(base, p);
        if base.len() > 0 && base.last() != '/' {
            assert(r.subrange(0, base.len() as int) =~= base);
            assert(r.subrange(base.len() + 1int, r.len() as int) =~= p);
        } else {
            assert(r.subrange(0, base.len() as int) =~= base);
            assert(r.subrange(base.len() as int, r.len() as int) =~= p);
        }
    }
}

} // verus!
