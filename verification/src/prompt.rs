//! The operator's single-key answers.

use vstd::prelude::*;

verus! {

/// What the operator asks for after a rename was refused for want of permission.
#[derive(Clone, Copy, Debug, PartialEq, Eq, Structural)]
pub enum Directive {
    /// Attempt the same rename once more.
    Retry,
    /// Leave the file as it is and go on with the next one.
    Continue,
    /// Undo every rename made so far and stop.
    Abort,
}

/// The directive that a key stands for, if it stands for one.
pub open spec fn directive_of(key: u8) -> Option<Directive> {
    if key == 0x72 {
        Some(Directive::Retry)
    } else if key == 0x63 {
        Some(Directive::Continue)
    } else if key == 0x61 {
        Some(Directive::Abort)
    } else {
        None
    }
}

/// Reads one key of the operator: `r`, `c` or `a`. Any other key stands for
/// nothing, and the caller asks again.
pub fn get_user_input(key: u8) -> (directive: Option<Directive>)
    ensures
        directive == directive_of(key),
{
    if key == 0x72 {
        Some(Directive::Retry)
    } else if key == 0x63 {
        Some(Directive::Continue)
    } else if key == 0x61 {
        Some(Directive::Abort)
    } else {
        None
    }
}

} // verus!
