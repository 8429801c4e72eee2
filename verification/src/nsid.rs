//! The outside NSID type and the two of its operations that the registry
//! lookup needs.

use proto_blue_syntax::Nsid;
use vstd::prelude::*;

verus! {

/// `proto_blue_syntax::Nsid`, a validated namespaced identifier; opaque here.
#[verifier::external_type_specification]
#[verifier::external_body]
pub struct ExNsid(Nsid);

/// The text that an `Nsid` holds (the string it was validated from).
pub uninterp spec fn nsid_text(nsid: Nsid) -> Seq<char>;

/// `Nsid::as_str`: hands out the inner string. Claimed: the result is the
/// text the `Nsid` holds, a function of the `Nsid` alone.
#[verifier::external_body]
pub(crate) fn nsid_as_str(nsid: &Nsid) -> (s: &str)
    ensures
        s@ == nsid_text(*nsid),
{
    nsid.as_str()
}

/// `<Nsid as Clone>::clone`, derived on a newtype over `String`. Claimed:
/// the copy holds the same text.
pub assume_specification[ <Nsid as Clone>::clone ](nsid: &Nsid) -> (c: Nsid)
    ensures
        nsid_text(c) == nsid_text(*nsid),
;

} // verus!
