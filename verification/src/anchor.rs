//! The anchorizer that names headings, and what the interpreter relies on.

use comrak::Anchorizer;
use vstd::prelude::*;

verus! {

/// `comrak::Anchorizer`. Nothing inside it is visible here: what it has
/// handed out is spoken of through [`issued`].
#[verifier::external_type_specification]
#[verifier::external_body]
pub struct ExAnchorizer(comrak::Anchorizer);

/// The anchors that an anchorizer has handed out so far.
pub uninterp spec fn issued(anchorizer: Anchorizer) -> Set<Seq<char>>;

/// The anchor that an anchorizer which has handed out `taken` gives to `header`.
pub uninterp spec fn anchor_for(taken: Set<Seq<char>>, header: Seq<char>) -> Seq<char>;

/// `comrak::Anchorizer::new`: a fresh anchorizer has handed out nothing.
pub assume_specification[ Anchorizer::new ]() -> (anchorizer: Anchorizer)
    ensures
        issued(anchorizer) == Set::<Seq<char>>::empty(),
;

/// `comrak::Anchorizer::anchorize`: the anchor depends only on the header and
/// on the anchors handed out before, it is none of those, and it is recorded
/// as handed out. The crate folds the header (lower case, spaces to dashes,
/// other punctuation dropped) and takes the first of the folded header and
/// its numbered variants that it has not handed out; how exactly it folds is
/// not stated here.
pub assume_specification[ Anchorizer::anchorize ](
    anchorizer: &mut Anchorizer,
    header: &str,
) -> (anchor: String)
    ensures
        anchor@ == anchor_for(issued(*old(anchorizer)), header@),
        !issued(*old(anchorizer)).contains(anchor@),
        issued(*final(anchorizer)) == issued(*old(anchorizer)).insert(anchor@),
;

} // verus!
