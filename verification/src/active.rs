//! Active-low and active-high polarity markers.
//!
//! A two-state input is *active* when it carries the status that triggers an
//! action. Which physical level that is depends on the wiring (a normally
//! closed or normally open contact, pulled up or down), so the debouncer is
//! parameterized by a marker that names the active level. The marker also
//! drives the beginning state of the debouncer: it starts settled on the
//! *inactive* value.

use vstd::prelude::*;

use crate::Sealed;
use crate::status::Status;

verus! {

/// Marker for an input that is active when it reads `Low`.
/// Used for templates; an instance of this type is never made.
pub struct Low;

/// Marker for an input that is active when it reads `High`.
/// Used for templates; an instance of this type is never made.
pub struct High;

/// The [`Status`] on which an input counts as active.
///
/// Implemented only by [`Low`] and [`High`]: a third polarity would be
/// meaningless, so the trait is sealed.
pub trait Active: Sealed {
    /// The status on which an action occurs.
    spec fn active_spec() -> Status;

    /// Returns the status on which an action occurs.
    fn active_value() -> (s: Status)
        ensures
            s == Self::active_spec(),
    ;
}

impl Sealed for Low {}

impl Active for Low {
    open spec fn active_spec() -> Status {
        Status::Low
    }

    fn active_value() -> Status {
        Status::Low
    }
}

impl Sealed for High {}

impl Active for High {
    open spec fn active_spec() -> Status {
        Status::High
    }

    fn active_value() -> Status {
        Status::High
    }
}

} // verus!
