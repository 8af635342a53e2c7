//! Fresh names invented by the pass: hoisted action and cache
//! definitions, synthesised default-export bindings, and positional
//! closure-argument placeholders.

use vstd::prelude::*;
use crate::strutil::dec_str;
use crate::strutil::push_dec;

verus! {

/// Name of the `n`-th hoisted action definition.
pub open spec fn action_ident_chars(n: nat) -> Seq<char> {
    "$$RSC_SERVER_ACTION_"@ + dec_str(n)
}

/// Name of the `n`-th hoisted cache definition.
pub open spec fn cache_ident_chars(n: nat) -> Seq<char> {
    "$$RSC_SERVER_CACHE_"@ + dec_str(n)
}

/// Name of the `n`-th synthesised default-export binding.
pub open spec fn attached_ident_chars(n: nat) -> Seq<char> {
    "$$ACTION_"@ + dec_str(n)
}

/// Name of the `i`-th positional closure-argument placeholder.
pub open spec fn action_arg_chars(i: nat) -> Seq<char> {
    "$$ACTION_ARG_"@ + dec_str(i)
}

/// The next value of a reference counter; the counter saturates rather
/// than wrap.
pub open spec fn bump(n: u64) -> u64 {
    if n < u64::MAX {
        (n + 1) as u64
    } else {
        n
    }
}

/// Yields `$$RSC_SERVER_ACTION_<n>` for the current counter value and
/// advances the counter.
pub fn gen_action_ident(cnt: &mut u64) -> (r: String)
    ensures
        r@ == action_ident_chars(*old(cnt) as nat),
        *final(cnt) == bump(*old(cnt)),
{
    let mut s = String::from_str("$$RSC_SERVER_ACTION_");
    push_dec(*cnt, &mut s);
    if *cnt < u64::MAX {
        *cnt = *cnt + 1;
    }
    s
}

/// Yields `$$RSC_SERVER_CACHE_<n>` for the current counter value and
/// advances the counter.
pub fn gen_cache_ident(cnt: &mut u64) -> (r: String)
    ensures
        r@ == cache_ident_chars(*old(cnt) as nat),
        *final(cnt) == bump(*old(cnt)),
{
    let mut s = String::from_str("$$RSC_SERVER_CACHE_");
    push_dec(*cnt, &mut s);
    if *cnt < u64::MAX {
        *cnt = *cnt + 1;
    }
    s
}

/// Yields `$$ACTION_<n>` for the current counter value and advances the
/// counter.
pub fn gen_attached_ident(cnt: &mut u64) -> (r: String)
    ensures
        r@ == attached_ident_chars(*old(cnt) as nat),
        *final(cnt) == bump(*old(cnt)),
{
    let mut s = String::from_str("$$ACTION_");
    push_dec(*cnt, &mut s);
    if *cnt < u64::MAX {
        *cnt = *cnt + 1;
    }
    s
}

/// Yields `$$ACTION_ARG_<i>`.
pub fn gen_arg_ident(i: usize) -> (r: String)
    ensures
        r@ == action_arg_chars(i as nat),
{
    let mut s = String::from_str("$$ACTION_ARG_");
    push_dec(i as u64, &mut s);
    s
}

} // verus!
