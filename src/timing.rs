//! Wall-clock start marks.

use vstd::prelude::*;

verus! {

#[verifier::external_type_specification]
#[verifier::external_body]
pub struct ExInstant(std::time::Instant);

/// Relies on std::time::Instant::now: the current instant; nothing is known of it.
pub assume_specification[ std::time::Instant::now ]() -> std::time::Instant;

/// Start measuring time: `start` becomes the current instant.
pub fn measure_start(start: &mut std::time::Instant) {
    *start = std::time::Instant::now();
}

} // verus!
