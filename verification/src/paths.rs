//! Filesystem path text: joining and `~/` expansion.
use vstd::prelude::*;
use crate::text::{has_prefix, has_suffix, starts_with, suffix_from, concat, owned};

verus! {

/// `PathBuf::join` on Unix: an absolute `p` replaces the base; otherwise `p`
/// is appended, with a `/` between unless the base is empty or already ends in one.
pub open spec fn join_path(base: Seq<char>, p: Seq<char>) -> Seq<char> {
    if has_prefix(p, "/"@) {
        p
    } else if base.len() == 0 || has_suffix(base, "/"@) {
        base + p
    } else {
        base + "/"@ + p
    }
}

/// Join `p` onto `base`.
pub fn path_join(base: &str, p: &str) -> (r: String)
    ensures
        r@ == join_path(base@, p@),
{
    proof { reveal_strlit("/"); }
    if starts_with(p, "/") {
        owned(p)
    } else if base.unicode_len() == 0 || crate::text::ends_with(base, "/") {
        concat(base, p)
    } else {
        let a = concat(base, "/");
        concat(a.as_str(), p)
    }
}

/// The home directory: `$HOME`, or `/tmp` when it is unset.
pub open spec fn home_or_tmp(env_home: Option<Seq<char>>) -> Seq<char> {
    match env_home {
        Some(h) => h,
        None => "/tmp"@,
    }
}

/// The home directory given the value of `$HOME`, if set.
pub fn home_dir(env_home: Option<&str>) -> (r: String)
    ensures
        r@ == home_or_tmp(crate::auth::opt_str(env_home)),
{
    match env_home {
        Some(h) => owned(h),
        None => owned("/tmp"),
    }
}

/// `~/rest` becomes `rest` under `home`; any other text is unchanged.
pub open spec fn expanded(p: Seq<char>, home: Seq<char>) -> Seq<char> {
    if has_prefix(p, "~/"@) {
        join_path(home, p.subrange(2, p.len() as int))
    } else {
        p
    }
}

/// Expand a leading `~/` to the home directory.
pub fn expand_home(p: &str, home: &str) -> (r: String)
    ensures
        r@ == expanded(p@, home@),
{
    proof { reveal_strlit("~/"); }
    if starts_with(p, "~/") {
        let rest = suffix_from(p, 2);
        path_join(home, rest.as_str())
    } else {
        owned(p)
    }
}

} // verus!
