//! Core logic of a desktop shell that hosts a web application in two
//! alternate surfaces: a slide-out edge panel and a normal resizable window.
//!
//! This crate holds the verified heart of the shell: the persisted settings
//! model with its text codec, the window-visibility state machine, the
//! sliding-animation plan, and the dispatch rules for tray, menu and hotkey
//! events. The operating-system edge (window handles, threads, the tray
//! widget, file I/O) lives outside and drives this crate with plain values.

pub mod animation;
pub mod codec;
pub mod controller;
pub mod dispatch;
pub mod navigation;
pub mod settings;

use vstd::prelude::*;
use vstd::string::StrSliceExecFns;

verus! {

/// Character-wise string comparison, with its meaning stated: equal
/// exactly when the two views are the same character sequence.
pub fn str_eq(a: &str, b: &str) -> (r: bool)
    ensures
        r == (a@ == b@),
{
    let n: usize = a.unicode_len();
    let m: usize = b.unicode_len();
    if n != m {
        proof {
            if a@ == b@ {
                assert(a@.len() == b@.len());
            }
        }
        return false;
    }
    let mut j: usize = 0;
    while j < n
        invariant
            n == a@.len(),
            n == b@.len(),
            j <= n,
            forall|k: int| 0 <= k < j ==> a@[k] == b@[k],
        decreases n - j,
    {
        if a.get_char(j) != b.get_char(j) {
            proof {
                if a@ == b@ {
                    assert(a@[j as int] == b@[j as int]);
                }
            }
            return false;
        }
        j = j + 1;
    }
    proof {
        assert(a@ =~= b@);
    }
    true
}

} // verus!
