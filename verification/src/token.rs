//! Credential plumbing that is the core's own: pulling the bearer token out
//! of an authorization header value.  Verifying the token itself is the
//! external authenticator's business.

use vstd::prelude::*;

verus! {

/// Whether a header value carries the bearer scheme.
pub open spec fn has_bearer_prefix(h: Seq<char>) -> bool {
    h.len() >= 7 && h.subrange(0, 7) == "Bearer "@
}

/// Strips the `"Bearer "` scheme from an authorization header value,
/// returning the raw token, or nothing if the scheme is absent.
pub fn bearer_token(header: &str) -> (r: Option<String>)
    ensures
        match r {
            Some(t) => has_bearer_prefix(header@) && t@ == header@.skip(7),
            None => !has_bearer_prefix(header@),
        },
{
    proof {
        reveal_strlit("Bearer ");
    }
    let n = header.unicode_len();
    if n < 7 {
        return None;
    }
    let mut i: usize = 0;
    while i < 7
        invariant
            i <= 7,
            n >= 7,
            n == header@.len(),
            "Bearer "@.len() == 7,
            forall|j: int| 0 <= j < i ==> header@[j] == "Bearer "@[j],
        decreases 7 - i,
    {
        if header.get_char(i) != "Bearer ".get_char(i) {
            proof {
                if has_bearer_prefix(header@) {
                    assert(header@.subrange(0, 7)[i as int] == "Bearer "@[i as int]);
                    assert(header@.subrange(0, 7)[i as int] == header@[i as int]);
                    assert(false);
                }
            }
            return None;
        }
        i = i + 1;
    }
    proof {
        assert(header@.subrange(0, 7) =~= "Bearer "@);
    }
    let t = header.substring_char(7, n);
    proof {
        assert(t@ =~= header@.skip(7));
    }
    Some(String::from_str(t))
}

} // verus!
