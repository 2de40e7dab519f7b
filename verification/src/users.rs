//! Local users that can log in.
use vstd::prelude::*;

use crate::text;

verus! {

#[derive(Debug, Clone)]
pub struct LocalUser {
    pub username: String,
    pub display_name: String,
    pub shell: String,
}

/// Whether `Path::starts_with` holds of `path` and `base`.
pub uninterp spec fn path_starts_with(path: Seq<char>, base: Seq<char>) -> bool;

/// Calls `Path::starts_with`, which compares whole path components. The
/// answer is a function of both paths, named `path_starts_with`.
#[verifier::external_body]
fn path_has_prefix(path: &str, base: &str) -> (r: bool)
    ensures
        r == path_starts_with(path@, base@),
{
    std::path::Path::new(path).starts_with(base)
}

/// The name shown for a user: the first comma-separated field of the GECOS
/// entry, trimmed, or the user name when that is empty.
pub open spec fn display_name_of(username: Seq<char>, gecos: Seq<char>) -> Seq<char> {
    let first = match text::find_char(gecos, ',') {
        Some(i) => gecos.take(i),
        None => gecos,
    };
    let t = text::trim_seq(first);
    if t.len() == 0 {
        username
    } else {
        t
    }
}

/// A user listed for login: one whose home lies under `/home/`.
pub fn local_user_from(username: &str, home_dir: &str, gecos: &str, shell: &str) -> (r: Option<
    LocalUser,
>)
    ensures
        match r {
            Some(u) => path_starts_with(home_dir@, "/home/"@) && u.username@ == username@
                && u.display_name@ == display_name_of(username@, gecos@) && u.shell@ == shell@,
            None => !path_starts_with(home_dir@, "/home/"@),
        },
{
    if !path_has_prefix(home_dir, "/home/") {
        return None;
    }
    let x = text::chars_of(gecos);
    let n = x.len();
    let end = match text::find_in_range(x.as_slice(), 0, n, ',') {
        Some(k) => k,
        None => n,
    };
    assert(x@.subrange(0, n as int) == x@);
    assert(x@.take(end as int) =~= x@.subrange(0, end as int));
    let (a, b) = text::trim_bounds(x.as_slice(), 0, end);
    let display_name = if a == b {
        text::str_to_string(username)
    } else {
        text::string_of_range(x.as_slice(), a, b)
    };
    Some(
        LocalUser {
            username: text::str_to_string(username),
            display_name,
            shell: text::str_to_string(shell),
        },
    )
}

} // verus!
