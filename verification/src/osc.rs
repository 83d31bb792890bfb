//! How OSC addresses map to livecode variables: a message sent to
//! `/livecode/name` sets the variable `oo_name`.
use vstd::prelude::*;
use crate::derive_rules::starts_with;
use crate::text::{chars_of, concat_str, string_from_chars};

verus! {

/// The address prefix of messages meant for the livecode world.
pub open spec fn osc_prefix() -> Seq<char> {
    "/livecode/"@
}

/// The variable an address sets, if it has the livecode prefix.
pub open spec fn osc_variable(addr: Seq<char>) -> Option<Seq<char>> {
    if addr.len() >= osc_prefix().len() && addr.subrange(0, osc_prefix().len() as int) == osc_prefix() {
        Some("oo_"@ + addr.skip(osc_prefix().len() as int))
    } else {
        None
    }
}

/// The variable a message to `addr` sets: `oo_` and the rest of the
/// address after `/livecode/`; none for other addresses.
pub fn osc_variable_name(addr: &str) -> (r: Option<String>)
    ensures
        match osc_variable(addr@) {
            Some(v) => r matches Some(s) && s@ == v,
            None => r is None,
        },
{
    proof { reveal_strlit("/livecode/"); }
    if starts_with(addr, "/livecode/") {
        let cs = chars_of(addr);
        let mut rest: Vec<char> = Vec::new();
        let mut i: usize = 10;
        while i < cs.len()
            invariant
                10 <= i <= cs@.len(),
                cs@ == addr@,
                rest@ == cs@.subrange(10, i as int),
            decreases cs@.len() - i,
        {
            rest.push(cs[i]);
            proof { assert(cs@.subrange(10, i + 1) =~= cs@.subrange(10, i as int).push(cs@[i as int])); }
            i = i + 1;
        }
        proof { assert(cs@.subrange(10, cs@.len() as int) =~= addr@.skip(10)); }
        let tail = string_from_chars(rest.as_slice());
        Some(concat_str("oo_", tail.as_str()))
    } else {
        None
    }
}

/// The address feedback for the variable `name` is sent to.
pub fn osc_address(name: &str) -> (r: String)
    ensures
        r@ == osc_prefix() + name@,
{
    concat_str("/livecode/", name)
}

/// The name of the smoothed copy of a variable.
pub fn smooth_name(name: &str) -> (r: String)
    ensures
        r@ == name@ + "_smooth"@,
{
    concat_str(name, "_smooth")
}

/// The address built for a name reads back as that name with `oo_` in
/// front.
pub proof fn law_feedback_address_reads_back(name: Seq<char>)
    ensures
        osc_variable(osc_prefix() + name) == Some("oo_"@ + name),
{
    reveal_strlit("/livecode/");
    let a = osc_prefix() + name;
    assert(a.subrange(0, osc_prefix().len() as int) =~= osc_prefix());
    assert(a.skip(osc_prefix().len() as int) =~= name);
}

} // verus!
