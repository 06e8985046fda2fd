//! The configuration surface the core consumes. The host layer parses the
//! configuration file and hands these values over; temperatures, duties and
//! the smoothing coefficient arrive already converted to the fixed-point
//! working scale.

use vstd::prelude::*;

use crate::profile::Profile;
use crate::smoother::ALPHA_SCALE;

verus! {

/// Which sensor feeds the control loop: a chip name and a feature label, as
/// the external sensor subsystem knows them.
pub struct SensorSettings {
    pub chip: String,
    pub feature: String,
}

/// The pump's control settings: the temperature-to-duty curve and the
/// smoothing coefficient (scaled by `ALPHA_SCALE`) derived from the
/// configured time constant.
pub struct PumpSettings {
    pub curve: Profile,
    pub alpha: i64,
}

impl PumpSettings {
    /// Usable settings: a well-formed curve and a coefficient within scale.
    pub open spec fn wf(&self) -> bool {
        &&& self.curve.wf()
        &&& 0 <= self.alpha <= ALPHA_SCALE
    }
}

} // verus!
