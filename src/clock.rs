use vstd::prelude::*;
use chrono::{Datelike, Timelike};

verus! {

/// A local wall-clock moment, held as the plain values that the journal reads.
#[derive(Clone, Copy, Debug, PartialEq, Eq)]
pub struct Moment {
    pub year: i32,
    pub month: u32,
    pub day: u32,
    pub hour: u32,
    pub minute: u32,
}

impl Moment {
    /// A calendar month, a day of the month, an hour of the day and a minute of the hour.
    pub open spec fn wf(&self) -> bool {
        &&& 1 <= self.month <= 12
        &&& 1 <= self.day <= 31
        &&& self.hour < 24
        &&& self.minute < 60
    }
}

/// Relies on chrono's `Local::now` for the current local time, and on its
/// `Datelike` and `Timelike` accessors, whose documented ranges are stated here.
#[verifier::external_body]
pub(crate) fn local_now() -> (r: Moment)
    ensures
        r.wf(),
{
    let now = chrono::Local::now();
    Moment {
        year: now.year(),
        month: now.month(),
        day: now.day(),
        hour: now.hour(),
        minute: now.minute(),
    }
}

/// The clock face for a position on the dial: twelve o'clock at 0, then one
/// o'clock to eleven o'clock.
pub open spec fn clock_face(position: nat) -> char {
    if position == 0 { '\u{1F55B}' }
    else if position == 1 { '\u{1F550}' }
    else if position == 2 { '\u{1F551}' }
    else if position == 3 { '\u{1F552}' }
    else if position == 4 { '\u{1F553}' }
    else if position == 5 { '\u{1F554}' }
    else if position == 6 { '\u{1F555}' }
    else if position == 7 { '\u{1F556}' }
    else if position == 8 { '\u{1F557}' }
    else if position == 9 { '\u{1F558}' }
    else if position == 10 { '\u{1F559}' }
    else { '\u{1F55A}' }
}

/// The clock face shown for an hour of the day.
pub open spec fn icon_of_hour(hour: nat) -> Seq<char> {
    seq![clock_face(hour % 12)]
}

/// The clock-face glyph for `hour`, chosen by the hour's place on a twelve-hour dial.
pub fn get_clock_emoji(hour: u32) -> (r: &'static str)
    ensures
        r@ == icon_of_hour(hour as nat),
{
    proof {
        reveal_strlit("\u{1F55B}");
        reveal_strlit("\u{1F550}");
        reveal_strlit("\u{1F551}");
        reveal_strlit("\u{1F552}");
        reveal_strlit("\u{1F553}");
        reveal_strlit("\u{1F554}");
        reveal_strlit("\u{1F555}");
        reveal_strlit("\u{1F556}");
        reveal_strlit("\u{1F557}");
        reveal_strlit("\u{1F558}");
        reveal_strlit("\u{1F559}");
        reveal_strlit("\u{1F55A}");
    }
    let position = hour % 12;
    if position == 0 { "\u{1F55B}" }
    else if position == 1 { "\u{1F550}" }
    else if position == 2 { "\u{1F551}" }
    else if position == 3 { "\u{1F552}" }
    else if position == 4 { "\u{1F553}" }
    else if position == 5 { "\u{1F554}" }
    else if position == 6 { "\u{1F555}" }
    else if position == 7 { "\u{1F556}" }
    else if position == 8 { "\u{1F557}" }
    else if position == 9 { "\u{1F558}" }
    else if position == 10 { "\u{1F559}" }
    else { "\u{1F55A}" }
}

/// The icon depends on the hour only through its place on a twelve-hour dial:
/// hours twelve apart share an icon, midnight shows the same icon as noon, and
/// the twelve places show twelve different icons.
pub proof fn lemma_icon_follows_dial(hour: nat, other: nat)
    ensures
        icon_of_hour(hour) == icon_of_hour(hour % 12),
        icon_of_hour(hour) == icon_of_hour(hour + 12),
        icon_of_hour(0) == icon_of_hour(12),
        hour < 12 && other < 12 && hour != other ==> icon_of_hour(hour) != icon_of_hour(other),
{
    assert((hour % 12) % 12 == hour % 12) by (nonlinear_arith);
    assert((hour + 12) % 12 == hour % 12) by (nonlinear_arith);
    if hour < 12 && other < 12 && hour != other {
        assert(hour % 12 == hour);
        assert(other % 12 == other);
        assert(icon_of_hour(hour)[0] != icon_of_hour(other)[0]);
    }
}

} // verus!
