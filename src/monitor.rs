//! Processes and network links.
use vstd::prelude::*;
use crate::protocol::{decimal_u64, parse_u64};
use crate::text::{same_text, chars_of, string_of, text_view, trim, trim_of};
use vstd::utf8::encode_utf8;

verus! {

pub const SIGKILL_NAME: &'static str = "SIGKILL";

pub const SIGKILL: i32 = 9;

pub const SIGTERM: i32 = 15;

#[derive(Clone, Debug, PartialEq, Eq)]
pub struct ProcessAction {
    pub pid: i32,
    pub signal: String,
}

impl ProcessAction {
    /// The signal to send: `SIGKILL` when asked for by name, `SIGTERM`
    /// otherwise.
    pub fn signal_number(&self) -> (r: i32)
        ensures
            r == (if self.signal@ == SIGKILL_NAME@ {
                SIGKILL
            } else {
                SIGTERM
            }),
    {
        if same_text(self.signal.as_str(), SIGKILL_NAME) {
            SIGKILL
        } else {
            SIGTERM
        }
    }
}

/// Bytes per second in one megabit per second.
pub const BYTES_PER_MEGABIT: u64 = 125000;

/// The link speed assumed when it cannot be read: one gigabit per second.
pub const DEFAULT_MEGABITS: u64 = 1000;

/// The speed, in bytes per second, of a link whose sysfs `speed` file holds
/// `content` (in megabits per second). With no interface, no readable file,
/// or a speed that does not read as a number, one gigabit per second is
/// assumed; a speed too large for the result saturates.
pub open spec fn link_speed(has_interface: bool, content: Option<Seq<char>>) -> u64 {
    let mbits = match content {
        Some(c) => match decimal_u64(encode_utf8(trim(c))) {
            Some(v) => v,
            None => DEFAULT_MEGABITS,
        },
        None => DEFAULT_MEGABITS,
    };
    if !has_interface {
        (DEFAULT_MEGABITS * BYTES_PER_MEGABIT) as u64
    } else if mbits * BYTES_PER_MEGABIT > u64::MAX {
        u64::MAX
    } else {
        (mbits * BYTES_PER_MEGABIT) as u64
    }
}

/// Computes the link speed of `iface` from its sysfs `speed` file.
pub fn interface_speed(iface: &str, content: Option<&str>) -> (r: u64)
    ensures
        r == link_speed(iface@.len() > 0, text_view(content)),
{
    if iface.is_empty() {
        return DEFAULT_MEGABITS * BYTES_PER_MEGABIT;
    }
    let mbits = match content {
        Some(c) => {
            let t = string_of(&trim_of(&chars_of(c)));
            match parse_u64(t.as_str().as_bytes()) {
                Some(v) => v,
                None => DEFAULT_MEGABITS,
            }
        },
        None => DEFAULT_MEGABITS,
    };
    if mbits > u64::MAX / BYTES_PER_MEGABIT {
        assert(mbits * BYTES_PER_MEGABIT > u64::MAX) by (nonlinear_arith)
            requires
                mbits > u64::MAX / BYTES_PER_MEGABIT,
                BYTES_PER_MEGABIT == 125000,
        ;
        u64::MAX
    } else {
        assert(mbits * BYTES_PER_MEGABIT <= u64::MAX) by (nonlinear_arith)
            requires
                mbits <= u64::MAX / BYTES_PER_MEGABIT,
                BYTES_PER_MEGABIT == 125000,
        ;
        mbits * BYTES_PER_MEGABIT
    }
}

} // verus!
