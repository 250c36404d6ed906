//! Identifiers and default names shared by the stores.
use vstd::prelude::*;

verus! {

/// The name of the namespace that every store falls back on: `default`.
pub open spec fn default_namespace_name() -> Seq<char> {
    seq!['d', 'e', 'f', 'a', 'u', 'l', 't']
}

/// The default namespace name as a `String`.
pub fn default_namespace() -> (r: String)
    ensures
        r@ == default_namespace_name(),
{
    let s = String::from_str("default");
    proof {
        reveal_strlit("default");
    }
    s
}

/// A fresh random identifier.
pub fn get_default_uuid4() -> (r: String)
    ensures
        crate::external::is_uuid_v4_text(r@),
{
    crate::external::new_uuid_v4_string()
}

} // verus!
