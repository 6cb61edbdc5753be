//! Slug derivation: an article's slug is its creation timestamp, a dash,
//! and the slugified title, so that a title change regenerated from the
//! original timestamp is deterministic.

use vstd::prelude::*;
use vstd::string::StringExecFns;
use crate::numtext::int_str;
use crate::numtext::i64_to_string;

verus! {

/// What slug::slugify returns for a title: a function of the characters
/// alone.
pub uninterp spec fn slug_of(title: Seq<char>) -> Seq<char>;

/// Relies on slug::slugify: lower-cases and transliterates `s`, replacing
/// every other character run with a single dash; the result depends on `s`
/// alone.
#[verifier::external_body]
fn slugify_str(s: &str) -> (r: String)
    ensures
        r@ == slug_of(s@),
{
    slug::slugify(s)
}

/// The slug derived from a creation timestamp and a title.
pub open spec fn slug_spec(created_at: int, title: Seq<char>) -> Seq<char> {
    int_str(created_at) + seq!['-'] + slug_of(title)
}

/// Builds the slug for an article created at `created_at` with `title`.
pub fn make_slug(created_at: i64, title: &str) -> (r: String)
    ensures
        r@ == slug_spec(created_at as int, title@),
{
    let mut out = i64_to_string(created_at);
    out.append("-");
    out.append(slugify_str(title).as_str());
    proof {
        reveal_strlit("-");
        assert(("-")@ =~= seq!['-']);
        assert(out@ =~= slug_spec(created_at as int, title@));
    }
    out
}

} // verus!
