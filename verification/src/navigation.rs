//! The navigation policy for the hosted content: pages on allow-listed
//! hosts and internal schemes stay inside the hosted surface; everything
//! else is redirected to the system browser.

use vstd::prelude::*;
use vstd::string::StrSliceExecFns;

use crate::str_eq;

verus! {

/// `needle` occurs contiguously inside `hay`.
pub open spec fn is_substring(hay: Seq<char>, needle: Seq<char>) -> bool {
    exists|i: int|
        0 <= i <= hay.len() - needle.len() && #[trigger] hay.subrange(i, i + needle.len())
            == needle
}

fn match_at(hay: &str, needle: &str, i: usize) -> (r: bool)
    requires
        i + needle@.len() <= hay@.len(),
    ensures
        r == (hay@.subrange(i as int, i as int + needle@.len()) == needle@),
{
    let m: usize = needle.unicode_len();
    let n: usize = hay.unicode_len();
    let mut k: usize = 0;
    while k < m
        invariant
            m == needle@.len(),
            n == hay@.len(),
            i + m <= n,
            k <= m,
            forall|q: int| 0 <= q < k ==> hay@[i + q] == needle@[q],
        decreases m - k,
    {
        if hay.get_char(i + k) != needle.get_char(k) {
            proof {
                if hay@.subrange(i as int, i as int + m) == needle@ {
                    assert(hay@.subrange(i as int, i as int + m)[k as int] == needle@[k as int]);
                }
            }
            return false;
        }
        k = k + 1;
    }
    proof {
        assert(hay@.subrange(i as int, i as int + m) =~= needle@);
    }
    true
}

/// Character-wise substring search, with its meaning stated.
pub fn contains_sub(hay: &str, needle: &str) -> (r: bool)
    ensures
        r == is_substring(hay@, needle@),
{
    let n: usize = hay.unicode_len();
    let m: usize = needle.unicode_len();
    if m > n {
        proof {
            if is_substring(hay@, needle@) {
                let w = choose|w: int|
                    0 <= w <= hay@.len() - needle@.len() && #[trigger] hay@.subrange(
                        w,
                        w + needle@.len(),
                    ) == needle@;
                assert(false);
            }
        }
        return false;
    }
    if m == 0 {
        proof {
            assert(needle@ =~= Seq::<char>::empty());
            assert(hay@.subrange(0, 0 + needle@.len() as int) =~= needle@);
        }
        return true;
    }
    let mut i: usize = 0;
    while i <= n - m
        invariant
            1 <= m <= n,
            n == hay@.len(),
            m == needle@.len(),
            i <= n - m + 1,
            forall|j: int| 0 <= j < i ==> #[trigger] hay@.subrange(j, j + m) != needle@,
        decreases n - m + 1 - i,
    {
        if match_at(hay, needle, i) {
            proof {
                assert(0 <= i as int <= hay@.len() - needle@.len() && hay@.subrange(
                    i as int,
                    i as int + needle@.len(),
                ) == needle@);
            }
            return true;
        }
        i = i + 1;
    }
    proof {
        if is_substring(hay@, needle@) {
            let w = choose|w: int|
                0 <= w <= hay@.len() - needle@.len() && #[trigger] hay@.subrange(
                    w,
                    w + needle@.len(),
                ) == needle@;
            assert(hay@.subrange(w, w + m) != needle@);
            assert(false);
        }
    }
    false
}

/// Whether a navigation stays inside the hosted surface: the hosted
/// application's hosts, the account and consent hosts it signs in
/// through, the host's own internal pages, an empty host, and the
/// webview-internal schemes are kept; every other target belongs to the
/// system browser.
pub open spec fn spec_navigation_allowed(host: Seq<char>, scheme: Seq<char>) -> bool {
    ||| is_substring(host, "gemini.google.com"@)
    ||| is_substring(host, "accounts.google.com"@)
    ||| is_substring(host, "myaccount.google.com"@)
    ||| is_substring(host, "consent.google.com"@)
    ||| is_substring(host, "gds.google.com"@)
    ||| is_substring(host, "tauri.localhost"@)
    ||| host.len() == 0
    ||| scheme == "tauri"@
    ||| scheme == "about"@
    ||| scheme == "blob"@
    ||| scheme == "data"@
}

pub fn navigation_allowed(host: &str, scheme: &str) -> (r: bool)
    ensures
        r == spec_navigation_allowed(host@, scheme@),
{
    contains_sub(host, "gemini.google.com") || contains_sub(host, "accounts.google.com")
        || contains_sub(host, "myaccount.google.com") || contains_sub(host, "consent.google.com")
        || contains_sub(host, "gds.google.com") || contains_sub(host, "tauri.localhost")
        || host.is_empty() || str_eq(scheme, "tauri") || str_eq(scheme, "about") || str_eq(
        scheme,
        "blob",
    ) || str_eq(scheme, "data")
}

} // verus!
