//! The projector's power-state machine.

use vstd::prelude::*;

verus! {

/// Nanoseconds in one second; timestamps are nanoseconds since the Unix epoch.
pub const NANOS_PER_SEC: u64 = 1_000_000_000;

/// Power state of the projector. The transient states carry the instant, in
/// nanoseconds since the Unix epoch, at which they were entered.
#[derive(Debug, Clone, Copy, PartialEq, Eq, Structural)]
pub enum PowerState {
    PowerOff,
    Warming(u64),
    Cooling(u64),
    LampOn,
}

/// True when more than `secs` seconds separate `start` from `now`.
pub open spec fn elapsed_beyond(start: u64, now: u64, secs: u64) -> bool {
    now - start > secs * NANOS_PER_SEC
}

/// The edges of the power-state graph, with staying put as the trivial step.
pub open spec fn is_power_step(a: PowerState, b: PowerState) -> bool {
    ||| a == b
    ||| a is PowerOff && b is Warming
    ||| a is Warming && b is LampOn
    ||| a is LampOn && b is Cooling
    ||| a is Cooling && b is PowerOff
}

impl PowerState {
    /// The two-character code that `PWR?` reports.
    pub open spec fn code(self) -> Seq<char> {
        match self {
            PowerState::PowerOff => seq!['0', '0'],
            PowerState::LampOn => seq!['0', '1'],
            PowerState::Warming(_) => seq!['0', '2'],
            PowerState::Cooling(_) => seq!['0', '3'],
        }
    }

    /// A stable state changes only on request, never with time.
    pub open spec fn is_stable(self) -> bool {
        self is PowerOff || self is LampOn
    }

    /// The state after `PWR ON` at `now`.
    pub open spec fn powered_up(self, now: u64) -> PowerState {
        match self {
            PowerState::PowerOff => PowerState::Warming(now),
            _ => self,
        }
    }

    /// The state after `PWR OFF` at `now`.
    pub open spec fn powered_down(self, now: u64) -> PowerState {
        match self {
            PowerState::LampOn => PowerState::Cooling(now),
            _ => self,
        }
    }

    /// The state once the timed transitions due at `now` have been taken.
    pub open spec fn advanced(self, now: u64, warming: u64, cooling: u64) -> PowerState {
        match self {
            PowerState::Warming(start) => if elapsed_beyond(start, now, warming) {
                PowerState::LampOn
            } else {
                self
            },
            PowerState::Cooling(start) => if elapsed_beyond(start, now, cooling) {
                PowerState::PowerOff
            } else {
                self
            },
            _ => self,
        }
    }

    /// Turns the lamp on: PowerOff becomes Warming, every other state stays.
    pub fn power_up(&mut self)
        ensures
            *old(self) is PowerOff ==> *final(self) is Warming,
            !(*old(self) is PowerOff) ==> *final(self) == *old(self),
    {
        if let PowerState::PowerOff = self {
            let now = clock_nanos();
            self.power_up_at(now);
        }
    }

    /// `power_up`, with the current time given.
    pub fn power_up_at(&mut self, now: u64)
        ensures
            *final(self) == old(self).powered_up(now),
    {
        match self {
            PowerState::PowerOff => {
                *self = PowerState::Warming(now);
            },
            _ => {},
        }
    }

    /// Turns the lamp off: LampOn becomes Cooling, every other state stays.
    pub fn power_down(&mut self)
        ensures
            *old(self) is LampOn ==> *final(self) is Cooling,
            !(*old(self) is LampOn) ==> *final(self) == *old(self),
    {
        if let PowerState::LampOn = self {
            let now = clock_nanos();
            self.power_down_at(now);
        }
    }

    /// `power_down`, with the current time given.
    pub fn power_down_at(&mut self, now: u64)
        ensures
            *final(self) == old(self).powered_down(now),
    {
        match self {
            PowerState::LampOn => {
                *self = PowerState::Cooling(now);
            },
            _ => {},
        }
    }

    /// Takes the timed transitions due at `now`, for the given warm-up and
    /// cool-down durations in seconds.
    pub fn advance_at(&mut self, now: u64, warming: u64, cooling: u64)
        ensures
            *final(self) == old(self).advanced(now, warming, cooling),
    {
        match *self {
            PowerState::Warming(start) => {
                if expired(start, now, warming) {
                    *self = PowerState::LampOn;
                }
            },
            PowerState::Cooling(start) => {
                if expired(start, now, cooling) {
                    *self = PowerState::PowerOff;
                }
            },
            _ => {},
        }
    }

    /// The wire code of this state.
    pub fn as_str(&self) -> (r: &'static str)
        ensures
            r@ == self.code(),
    {
        proof {
            reveal_strlit("00");
            reveal_strlit("01");
            reveal_strlit("02");
            reveal_strlit("03");
        }
        match self {
            PowerState::PowerOff => "00",
            PowerState::Warming(_) => "02",
            PowerState::Cooling(_) => "03",
            PowerState::LampOn => "01",
        }
    }
}

fn expired(start: u64, now: u64, secs: u64) -> (r: bool)
    ensures
        r == elapsed_beyond(start, now, secs),
{
    proof {
        assert(secs * NANOS_PER_SEC <= u64::MAX * NANOS_PER_SEC) by (nonlinear_arith)
            requires
                secs <= u64::MAX,
        ;
    }
    now > start && ((now - start) as u128) > (secs as u128) * (NANOS_PER_SEC as u128)
}

/// Relies on std::time::SystemTime::now, read as nanoseconds since the Unix
/// epoch (zero for a clock set before it). Nothing is known of the value.
#[verifier::external_body]
pub(crate) fn clock_nanos() -> (t: u64) {
    match std::time::SystemTime::now().duration_since(std::time::UNIX_EPOCH) {
        Ok(d) => d.as_nanos() as u64,
        Err(_) => 0,
    }
}

/// Every state has a code, and it is one of the four that the wire knows.
pub proof fn lemma_code_total(s: PowerState)
    ensures
        s.code() == seq!['0', '0'] || s.code() == seq!['0', '1'] || s.code() == seq!['0', '2']
            || s.code() == seq!['0', '3'],
{
}

/// Advancing leaves a stable state as it is, and advancing twice at one instant
/// is advancing once.
pub proof fn lemma_advance_idempotent(s: PowerState, now: u64, warming: u64, cooling: u64)
    ensures
        s.is_stable() ==> s.advanced(now, warming, cooling) == s,
        s.advanced(now, warming, cooling).advanced(now, warming, cooling) == s.advanced(
            now,
            warming,
            cooling,
        ),
{
}

/// Powering up in any state but PowerOff changes nothing, and in particular
/// keeps the instant at which a transient state was entered.
pub proof fn lemma_power_up_repeat(s: PowerState, now: u64)
    requires
        !(s is PowerOff),
    ensures
        s.powered_up(now) == s,
{
}

} // verus!
