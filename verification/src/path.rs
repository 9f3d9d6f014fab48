//! Paths as text: joining a directory and a component with `/`.

use vstd::prelude::*;
use vstd::string::*;

verus! {

/// The path separator.
pub open spec fn separator() -> char {
    '/'
}

/// The path `base` extended by `part`: an absolute `part` replaces `base`;
/// otherwise `part` is appended, after a separator unless `base` is empty or
/// already ends in one.
pub open spec fn joined(base: Seq<char>, part: Seq<char>) -> Seq<char> {
    if part.len() > 0 && part[0] == separator() {
        part
    } else if base.len() == 0 || base.last() == separator() {
        base + part
    } else {
        base.push(separator()) + part
    }
}

/// Tells whether two texts are the same.
pub fn same_text(a: &str, b: &str) -> (same: bool)
    ensures
        same == (a@ == b@),
{
    String::from_str(a) == String::from_str(b)
}

/// Joins `part` onto `base`.
pub fn join(base: &str, part: &str) -> (path: String)
    ensures
        path@ == joined(base@, part@),
{
    let base_len: usize = base.unicode_len();
    let part_len: usize = part.unicode_len();
    if part_len > 0 && part.get_char(0) == '/' {
        String::from_str(part)
    } else if base_len == 0 || base.get_char(base_len - 1) == '/' {
        String::from_str(base).concat(part)
    } else {
        proof {
            reveal_strlit("/");
            assert("/"@ =~= seq![separator()]);
            assert(base@ + "/"@ =~= base@.push(separator()));
        }
        String::from_str(base).concat("/").concat(part)
    }
}

} // verus!
