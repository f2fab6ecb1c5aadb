//! Which analysis the monitor runs, and which modes set their own cadence.
use vstd::prelude::*;

use crate::text::str_eq;

verus! {

/// The analysis of a monitor tick.
///
/// Everything but `Fft` is ring-buffered: a short self-paced capture per tick
/// fed into a sliding ring. Only `Fft` sleeps to the requested interval.
#[derive(Clone, Copy, Debug, PartialEq, Eq, Structural)]
pub enum Mode {
    Fft,
    Cwt,
    Cqt,
    Reassigned,
}

impl Mode {
    /// The name of the mode on the wire.
    pub open spec fn tag_text(self) -> Seq<char> {
        match self {
            Mode::Fft => "fft"@,
            Mode::Cwt => "cwt"@,
            Mode::Cqt => "cqt"@,
            Mode::Reassigned => "reassigned"@,
        }
    }

    /// The mode of a name; an unrecognised name is the FFT mode.
    pub open spec fn of_tag(tag: Seq<char>) -> Mode {
        if tag == "cwt"@ {
            Mode::Cwt
        } else if tag == "cqt"@ {
            Mode::Cqt
        } else if tag == "reassigned"@ {
            Mode::Reassigned
        } else {
            Mode::Fft
        }
    }

    /// The mode of a name; an unrecognised name falls back to the FFT mode.
    pub fn from_tag(tag: &str) -> (r: Self)
        ensures
            r == Mode::of_tag(tag@),
    {
        if str_eq(tag, "cwt") {
            Mode::Cwt
        } else if str_eq(tag, "cqt") {
            Mode::Cqt
        } else if str_eq(tag, "reassigned") {
            Mode::Reassigned
        } else {
            Mode::Fft
        }
    }

    /// The name of the mode on the wire.
    pub fn tag(self) -> (r: &'static str)
        ensures
            r@ == self.tag_text(),
    {
        match self {
            Mode::Fft => "fft",
            Mode::Cwt => "cwt",
            Mode::Cqt => "cqt",
            Mode::Reassigned => "reassigned",
        }
    }

    /// True when the mode sets its own cadence, so that the end-of-tick sleep
    /// to the interval is not taken.
    pub fn paces_itself(self) -> (r: bool)
        ensures
            r == (self != Mode::Fft),
    {
        match self {
            Mode::Fft => false,
            _ => true,
        }
    }
}

/// Every mode's name reads back as that mode.
pub proof fn tags_round_trip(m: Mode)
    ensures
        Mode::of_tag(m.tag_text()) == m,
{
    reveal_strlit("fft");
    reveal_strlit("cwt");
    reveal_strlit("cqt");
    reveal_strlit("reassigned");
    assert("fft"@[0] == 'f');
    assert("cwt"@[0] == 'c' && "cwt"@[1] == 'w');
    assert("cqt"@[0] == 'c' && "cqt"@[1] == 'q');
    assert("reassigned"@[0] == 'r');
}

/// A name that is no mode's own means the FFT mode, and each other mode is
/// reached by its own name alone.
pub proof fn unknown_names_mean_fft(name: Seq<char>)
    ensures
        Mode::of_tag(name) == Mode::Cwt <==> name == "cwt"@,
        Mode::of_tag(name) == Mode::Cqt <==> name == "cqt"@,
        Mode::of_tag(name) == Mode::Reassigned <==> name == "reassigned"@,
        name != "cwt"@ && name != "cqt"@ && name != "reassigned"@ ==> Mode::of_tag(name)
            == Mode::Fft,
{
    reveal_strlit("cwt");
    reveal_strlit("cqt");
    reveal_strlit("reassigned");
    assert("cwt"@[0] == 'c' && "cwt"@[1] == 'w');
    assert("cqt"@[0] == 'c' && "cqt"@[1] == 'q');
    assert("reassigned"@[0] == 'r');
}

} // verus!
