//! The mic-correction status of a frame.
use vstd::prelude::*;

verus! {

/// `none` without a curve, `off` with a bypassed one, `on` with an applied
/// one.
pub open spec fn correction_tag(curve_loaded: bool, enabled: bool) -> Seq<char> {
    if !curve_loaded {
        "none"@
    } else if enabled {
        "on"@
    } else {
        "off"@
    }
}

/// The status stamped on every frame: whether its magnitudes are
/// mic-corrected, have a curve loaded but bypassed, or have none.
pub fn mic_correction_tag(curve_loaded: bool, enabled: bool) -> (r: &'static str)
    ensures
        r@ == correction_tag(curve_loaded, enabled),
{
    if !curve_loaded {
        "none"
    } else if enabled {
        "on"
    } else {
        "off"
    }
}

/// A channel's mic correction for one tick: whether a curve is loaded and
/// whether the global toggle is on.
#[derive(Clone, Copy, Debug, PartialEq, Eq, Structural)]
pub struct MicCorrection {
    pub curve_loaded: bool,
    pub enabled: bool,
}

impl MicCorrection {
    /// Whether the curve runs over the magnitudes.
    pub open spec fn applied(self) -> bool {
        self.curve_loaded && self.enabled
    }

    pub fn applies(self) -> (r: bool)
        ensures
            r == self.applied(),
    {
        self.curve_loaded && self.enabled
    }

    pub fn tag(self) -> (r: &'static str)
        ensures
            r@ == correction_tag(self.curve_loaded, self.enabled),
    {
        mic_correction_tag(self.curve_loaded, self.enabled)
    }
}

/// A frame is tagged `on` exactly when its curve ran: never corrected and
/// tagged `off`, never tagged `on` without the curve.
pub proof fn tag_tells_whether_the_curve_ran(mc: MicCorrection)
    ensures
        correction_tag(mc.curve_loaded, mc.enabled) == "on"@ <==> mc.applied(),
{
    reveal_strlit("on");
    reveal_strlit("off");
    reveal_strlit("none");
    assert("on"@.len() == 2);
    assert("off"@.len() == 3);
    assert("none"@.len() == 4);
}

/// A frame is tagged `none` exactly where no curve is loaded, whatever the
/// toggle says, and `off` exactly where a loaded one is bypassed.
pub proof fn tags_tell_what_became_of_the_curve(loaded: bool, enabled: bool)
    ensures
        correction_tag(loaded, enabled) == "none"@ <==> !loaded,
        correction_tag(loaded, enabled) == "off"@ <==> loaded && !enabled,
        correction_tag(loaded, enabled) == "on"@ <==> loaded && enabled,
        (MicCorrection { curve_loaded: loaded, enabled }).applied() <==> loaded && enabled,
{
    reveal_strlit("on");
    reveal_strlit("off");
    reveal_strlit("none");
    assert("on"@.len() == 2);
    assert("off"@.len() == 3);
    assert("none"@.len() == 4);
}

} // verus!
