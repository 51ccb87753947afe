//! How often freed memory is given back.
use vstd::prelude::*;
use crate::text;

verus! {

/// The seconds between two times, where nothing is configured.
pub const DEFAULT_INTERVAL_SECS: u64 = 60;

/// The seconds between two times; `None` for never. A setting that is no number counts as
/// none, and zero switches it off.
pub open spec fn interval(setting: Option<Seq<char>>) -> Option<u64> {
    let secs = match setting {
        Some(s) => match text::numeral(s, u64::MAX as nat) {
            Some(n) => n as u64,
            None => DEFAULT_INTERVAL_SECS,
        },
        None => DEFAULT_INTERVAL_SECS,
    };
    if secs == 0 {
        None
    } else {
        Some(secs)
    }
}

/// The seconds between two times; `None` for never. `setting` is what the environment says.
pub fn spawn_periodic(setting: Option<&str>) -> (r: Option<u64>)
    ensures
        r == interval(
            match setting {
                Some(s) => Some(s@),
                None => None,
            },
        ),
{
    let mut secs: u64 = DEFAULT_INTERVAL_SECS;
    if let Some(s) = setting {
        let v = text::chars_of(s);
        assert(v@.subrange(0, v@.len() as int) == v@);
        if let Some(n) = text::read_numeral(&v, 0, v.len(), u64::MAX) {
            secs = n;
        }
    }
    if secs == 0 {
        None
    } else {
        Some(secs)
    }
}


/// The interval is the number of seconds that is set. Zero stands for never, and what is no
/// number, or nothing, for a minute.
pub proof fn law_interval_is_what_is_set(n: u64, other: Seq<char>)
    requires
        text::numeral(other, u64::MAX as nat) is None,
    ensures
        n > 0 ==> interval(Some(text::dec(n as nat))) == Some(n),
        interval(Some(text::dec(0))) is None,
        interval(Some(other)) == Some(60u64),
        interval(None) == Some(60u64),
{
    text::law_numerals_read_back(n as nat, u64::MAX as nat, other);
    text::law_numerals_read_back(0, u64::MAX as nat, other);
}

} // verus!
