//! The name an iroh link is attached under.

use vstd::prelude::*;

use crate::text::{hex_encode, hex_lower, joined};

verus! {

/// `iroh[<endpoint id in lowercase hex>]`, the way an endpoint id prints.
pub open spec fn attached_name(id: [u8; 32]) -> Seq<char> {
    "iroh["@ + hex_lower(id@) + "]"@
}

pub fn attached_as(id: &[u8; 32]) -> (res: String)
    ensures
        res@ == attached_name(*id),
{
    let hex = hex_encode(id);
    joined(&joined("iroh[", hex.as_str()), "]")
}

} // verus!
