//! A UUID whose first byte carries the AIT (atomic information transfer)
//! code and time direction, and whose second byte can carry a root port.
use vstd::prelude::*;

use crate::utility::PortNumber;

verus! {

/// Code of every name UUID, including tree ids of normal packets.
pub const NORMAL: u8 = 0b01000000;
pub const AIT: u8 = 0b00000100;
pub const TECK: u8 = 0b00000011;
pub const TACK: u8 = 0b00000010;
pub const TOCK: u8 = 0b00000001;
pub const TICK: u8 = 0b00000000;
/// Forward direction in time for an AIT transfer.
pub const FORWARD: u8 = 0b00000000;
/// Time reversal for an AIT transfer.
pub const REVERSE: u8 = 0b10000000;

#[derive(Debug, Copy, Clone, PartialEq, Eq, Structural, Hash)]
pub enum AitState {
    Normal,
    Ait,
    Teck,
    Tack,
    Tock,
    Tick,
}

#[derive(Debug, Copy, Clone, PartialEq, Eq, Structural, Hash)]
pub enum TimeDirection {
    Forward,
    Reverse,
}

#[derive(Debug, Copy, Clone)]
pub enum UuidError {
    Chain { func_name: &'static str, comment: &'static str },
    AitState { func_name: &'static str, ait_state: AitState },
    Code { func_name: &'static str, code: u8 },
}

/// The state a code byte denotes; unknown codes, and any code with the
/// reverse bit set, count as normal.
pub open spec fn ait_state_of(code: u8) -> AitState {
    if code == TICK {
        AitState::Tick
    } else if code == TOCK {
        AitState::Tock
    } else if code == TACK {
        AitState::Tack
    } else if code == TECK {
        AitState::Teck
    } else if code == AIT {
        AitState::Ait
    } else {
        AitState::Normal
    }
}

pub open spec fn direction_of(code: u8) -> TimeDirection {
    if code & REVERSE == FORWARD {
        TimeDirection::Forward
    } else {
        TimeDirection::Reverse
    }
}

/// The code byte after replacing the code and keeping the direction bit.
pub open spec fn with_code(old_code: u8, code: u8) -> u8 {
    code | (old_code & REVERSE)
}

/// One step forward in time, on a code without its direction bit: the new
/// code and the state reported, or `None` where no step is defined.
pub open spec fn forward_step(base: u8) -> Option<(u8, AitState)> {
    if base == TICK {
        Some((TOCK, AitState::Tock))
    } else if base == TOCK {
        Some((TICK, AitState::Tick))
    } else if base == TACK {
        Some((TOCK, AitState::Tock))
    } else if base == TECK {
        Some((TACK, AitState::Tack))
    } else if base == AIT {
        Some((TECK, AitState::Teck))
    } else if base == NORMAL {
        Some((NORMAL, AitState::Normal))
    } else {
        None
    }
}

/// One step backward in time, on a code without its direction bit.
pub open spec fn backward_step(base: u8) -> Option<(u8, AitState)> {
    if base == TICK {
        Some((TOCK, AitState::Tock))
    } else if base == TOCK {
        Some((TACK, AitState::Tack))
    } else if base == TACK {
        Some((TECK, AitState::Teck))
    } else if base == TECK {
        Some((AIT, AitState::Teck))
    } else if base == NORMAL {
        Some((NORMAL, AitState::Normal))
    } else {
        None
    }
}

proof fn lemma_with_code(old_code: u8, code: u8)
    requires
        code < 128,
    ensures
        with_code(old_code, code) & 0x7f == code,
        with_code(old_code, code) & REVERSE == old_code & REVERSE,
{
    assert((code | (old_code & 0x80u8)) & 0x7f == code) by (bit_vector)
        requires
            code < 128,
    ;
    assert((code | (old_code & 0x80u8)) & 0x80 == old_code & 0x80) by (bit_vector)
        requires
            code < 128,
    ;
}

/// A UUID: the AIT code byte, the root-port byte and the other 112 bits.
#[derive(Debug, Copy, Clone, PartialEq, Eq, Structural, Hash)]
pub struct Uuid {
    code: u8,
    port_no: u8,
    rest: u128,
}

/// A random version 4 UUID, as a 128-bit big-endian number.
#[verifier::external_body]
fn random_uuid_value() -> (v: u128) {
    uuid::Uuid::new_v4().as_u128()
}

impl Uuid {
    pub closed spec fn spec_code(self) -> u8 {
        self.code
    }

    pub closed spec fn spec_port_byte(self) -> u8 {
        self.port_no
    }

    pub closed spec fn spec_rest(self) -> u128 {
        self.rest
    }

    /// The UUID with the given parts.
    pub closed spec fn spec_from_parts(code: u8, port_no: u8, rest: u128) -> Uuid {
        Uuid { code, port_no, rest }
    }

    /// A UUID is determined by its three parts.
    pub proof fn lemma_parts(u: Uuid, code: u8, port_no: u8, rest: u128)
        ensures
            Uuid::spec_from_parts(code, port_no, rest).spec_code() == code,
            Uuid::spec_from_parts(code, port_no, rest).spec_port_byte() == port_no,
            Uuid::spec_from_parts(code, port_no, rest).spec_rest() == rest,
            (u.spec_code() == code && u.spec_port_byte() == port_no && u.spec_rest() == rest)
                <==> u == Uuid::spec_from_parts(code, port_no, rest),
    {
    }

    pub open spec fn spec_ait_state(self) -> AitState {
        ait_state_of(self.spec_code())
    }

    pub open spec fn spec_direction(self) -> TimeDirection {
        direction_of(self.spec_code())
    }

    /// Splits a 128-bit big-endian UUID value into code, port and the rest.
    pub fn from_u128(v: u128) -> (u: Uuid)
        ensures
            u.spec_code() == (v >> 120u128) as u8,
            u.spec_port_byte() == ((v >> 112u128) & 0xffu128) as u8,
            u.spec_rest() == v & 0xffff_ffff_ffff_ffff_ffff_ffff_ffffu128,
    {
        let hi: u128 = v >> 120u128;
        assert(hi < 256) by (bit_vector)
            requires
                hi == v >> 120u128,
        ;
        let code: u8 = hi as u8;
        let port_no: u8 = ((v >> 112u128) & 0xffu128) as u8;
        let rest: u128 = v & 0xffff_ffff_ffff_ffff_ffff_ffff_ffffu128;
        Uuid { code, port_no, rest }
    }

    /// The 128-bit big-endian value of this UUID.
    pub fn to_u128(&self) -> (v: u128)
        ensures
            v == ((self.spec_code() as u128) << 120u128) | ((self.spec_port_byte() as u128) << 112u128)
                | (self.spec_rest() & 0xffff_ffff_ffff_ffff_ffff_ffff_ffffu128),
    {
        ((self.code as u128) << 120u128) | ((self.port_no as u128) << 112u128) | (self.rest
            & 0xffff_ffff_ffff_ffff_ffff_ffff_ffffu128)
    }

    /// A random UUID made normal: forward in time, with no root port.
    pub fn new() -> (u: Uuid)
        ensures
            u.spec_code() == NORMAL,
            u.spec_port_byte() == 0,
            u.spec_ait_state() == AitState::Normal,
            u.spec_direction() == TimeDirection::Forward,
    {
        let mut uuid = Uuid::from_u128(random_uuid_value());
        uuid.make_normal();
        assert(NORMAL & REVERSE == FORWARD) by (bit_vector);
        uuid
    }

    /// A random UUID whose code is AIT; its direction bit is kept from the random value.
    pub fn new_ait() -> (u: Uuid)
        ensures
            u.spec_code() & 0x7f == AIT,
    {
        let mut uuid = Uuid::from_u128(random_uuid_value());
        uuid.make_ait();
        uuid
    }

    /// Builds a UUID from its parts.
    pub fn from_parts(code: u8, port_no: u8, rest: u128) -> (u: Uuid)
        ensures
            u == Uuid::spec_from_parts(code, port_no, rest),
            u.spec_code() == code,
            u.spec_port_byte() == port_no,
            u.spec_rest() == rest,
    {
        Uuid { code, port_no, rest }
    }

    fn get_code(&self) -> (c: u8)
        ensures
            c == self.spec_code(),
    {
        self.code
    }

    fn set_code(&mut self, code: u8)
        ensures
            final(self).spec_code() == with_code(old(self).spec_code(), code),
            final(self).spec_port_byte() == old(self).spec_port_byte(),
            final(self).spec_rest() == old(self).spec_rest(),
    {
        self.code = code | (self.code & REVERSE);
    }

    pub fn get_port_byte(&self) -> (p: u8)
        ensures
            p == self.spec_port_byte(),
    {
        self.port_no
    }

    pub fn is_ait(&self) -> (b: bool)
        ensures
            b == (self.spec_ait_state() == AitState::Ait),
    {
        self.get_ait_state() == AitState::Ait
    }

    pub fn get_ait_state(&self) -> (s: AitState)
        ensures
            s == self.spec_ait_state(),
    {
        let code = self.get_code();
        if code == TICK {
            AitState::Tick
        } else if code == TOCK {
            AitState::Tock
        } else if code == TACK {
            AitState::Tack
        } else if code == TECK {
            AitState::Teck
        } else if code == AIT {
            AitState::Ait
        } else {
            AitState::Normal
        }
    }

    pub fn get_direction(&self) -> (d: TimeDirection)
        ensures
            d == self.spec_direction(),
    {
        if self.get_code() & REVERSE == FORWARD {
            TimeDirection::Forward
        } else {
            TimeDirection::Reverse
        }
    }

    pub fn is_forward(&self) -> (b: bool)
        ensures
            b == (self.spec_direction() == TimeDirection::Forward),
    {
        match self.get_direction() {
            TimeDirection::Forward => true,
            TimeDirection::Reverse => false,
        }
    }

    pub fn is_reverse(&self) -> (b: bool)
        ensures
            b == (self.spec_direction() == TimeDirection::Reverse),
    {
        !self.is_forward()
    }

    /// Makes this a normal UUID: normal code, forward in time, no root port.
    pub fn make_normal(&mut self) -> (s: AitState)
        ensures
            s == AitState::Normal,
            final(self).spec_code() == NORMAL,
            final(self).spec_port_byte() == 0,
            final(self).spec_rest() == old(self).spec_rest(),
    {
        self.code = NORMAL;
        self.port_no = 0;
        AitState::Normal
    }

    /// Sets the AIT code, keeping the direction.
    pub fn make_ait(&mut self) -> (s: AitState)
        ensures
            s == AitState::Ait,
            final(self).spec_code() == with_code(old(self).spec_code(), AIT),
            final(self).spec_code() & 0x7f == AIT,
            final(self).spec_direction() == old(self).spec_direction(),
            final(self).spec_port_byte() == old(self).spec_port_byte(),
            final(self).spec_rest() == old(self).spec_rest(),
    {
        proof {
            lemma_with_code(self.code, AIT);
        }
        self.set_code(AIT);
        AitState::Ait
    }

    /// Records the root port number in the port byte.
    pub fn add_port_no(&mut self, port_number: &PortNumber)
        ensures
            final(self).spec_port_byte() == port_number.port_no.0,
            final(self).spec_code() == old(self).spec_code(),
            final(self).spec_rest() == old(self).spec_rest(),
    {
        self.port_no = port_number.get_port_no().0;
    }

    pub fn remove_port_no(&mut self)
        ensures
            *final(self) == Uuid::spec_from_parts(old(self).spec_code(), 0, old(self).spec_rest()),
            final(self).spec_port_byte() == 0,
            final(self).spec_code() == old(self).spec_code(),
            final(self).spec_rest() == old(self).spec_rest(),
    {
        self.port_no = 0;
    }

    /// Flips the code's direction bit and sets the result, which keeps the
    /// old direction bit too: the UUID always ends up reversed in time.
    pub fn time_reverse(&mut self)
        ensures
            final(self).spec_code() == with_code(old(self).spec_code(), old(self).spec_code() ^ REVERSE),
            final(self).spec_code() & 0x7f == old(self).spec_code() & 0x7f,
            final(self).spec_direction() == TimeDirection::Reverse,
            final(self).spec_port_byte() == old(self).spec_port_byte(),
            final(self).spec_rest() == old(self).spec_rest(),
    {
        let code = self.get_code();
        let c = code;
        assert(((c ^ 0x80u8) | (c & 0x80u8)) & 0x7f == c & 0x7f) by (bit_vector);
        assert(((c ^ 0x80u8) | (c & 0x80u8)) & 0x80 != 0) by (bit_vector);
        self.set_code(code ^ REVERSE);
    }

    /// Steps the AIT state machine in this UUID's direction of time.
    pub fn next(&mut self) -> (r: Result<AitState, UuidError>)
        ensures
            ait_stepped(*old(self), *final(self), r),
    {
        match self.get_direction() {
            TimeDirection::Forward => self.next_state(),
            TimeDirection::Reverse => self.previous_state(),
        }
    }

    fn next_state(&mut self) -> (r: Result<AitState, UuidError>)
        ensures
            ({
                let base = old(self).spec_code() & 0x7f;
                match forward_step(base) {
                    Some((code, state)) => {
                        &&& r == Ok::<AitState, UuidError>(state)
                        &&& final(self).spec_code() == if code == NORMAL {
                            old(self).spec_code()
                        } else {
                            with_code(old(self).spec_code(), code)
                        }
                    },
                    None => {
                        &&& r == Err::<AitState, UuidError>(
                            UuidError::AitState {
                                func_name: "next_state",
                                ait_state: old(self).spec_ait_state(),
                            },
                        )
                        &&& final(self).spec_code() == old(self).spec_code()
                    },
                }
            }),
            final(self).spec_port_byte() == old(self).spec_port_byte(),
            final(self).spec_rest() == old(self).spec_rest(),
    {
        let base = self.get_code() & !REVERSE;
        assert(!REVERSE == 0x7fu8) by (bit_vector);
        if base == TICK {
            self.set_code(TOCK);
            Ok(AitState::Tock)
        } else if base == TOCK {
            self.set_code(TICK);
            Ok(AitState::Tick)
        } else if base == TACK {
            self.set_code(TOCK);
            Ok(AitState::Tock)
        } else if base == TECK {
            self.set_code(TACK);
            Ok(AitState::Tack)
        } else if base == AIT {
            self.set_code(TECK);
            Ok(AitState::Teck)
        } else if base == NORMAL {
            Ok(AitState::Normal)
        } else {
            Err(UuidError::AitState { func_name: "next_state", ait_state: self.get_ait_state() })
        }
    }

    fn previous_state(&mut self) -> (r: Result<AitState, UuidError>)
        ensures
            ({
                let base = old(self).spec_code() & 0x7f;
                match backward_step(base) {
                    Some((code, state)) => {
                        &&& r == Ok::<AitState, UuidError>(state)
                        &&& final(self).spec_code() == if code == NORMAL {
                            old(self).spec_code()
                        } else {
                            with_code(old(self).spec_code(), code)
                        }
                    },
                    None => {
                        &&& r == Err::<AitState, UuidError>(
                            UuidError::AitState {
                                func_name: "previous_stat",
                                ait_state: old(self).spec_ait_state(),
                            },
                        )
                        &&& final(self).spec_code() == old(self).spec_code()
                    },
                }
            }),
            final(self).spec_port_byte() == old(self).spec_port_byte(),
            final(self).spec_rest() == old(self).spec_rest(),
    {
        let base = self.get_code() & !REVERSE;
        assert(!REVERSE == 0x7fu8) by (bit_vector);
        if base == TICK {
            self.set_code(TOCK);
            Ok(AitState::Tock)
        } else if base == TOCK {
            self.set_code(TACK);
            Ok(AitState::Tack)
        } else if base == TACK {
            self.set_code(TECK);
            Ok(AitState::Teck)
        } else if base == TECK {
            self.set_code(AIT);
            Ok(AitState::Teck)
        } else if base == NORMAL {
            Ok(AitState::Normal)
        } else {
            Err(UuidError::AitState { func_name: "previous_stat", ait_state: self.get_ait_state() })
        }
    }
}

/// A step backward in time undoes a step forward from AIT, TECK, TACK or TOCK.
pub proof fn lemma_backward_undoes_forward(base: u8)
    requires
        base == AIT || base == TECK || base == TACK || base == TOCK,
    ensures
        forward_step(base) matches Some((next, _)) && backward_step(next) matches Some((
            back,
            _,
        )) && back == base,
{
}

/// Stepping a UUID keeps its direction of time and, from a known code,
/// lands on a known code.
pub proof fn lemma_step_keeps_direction(old_code: u8, code: u8)
    requires
        code < 128,
    ensures
        direction_of(with_code(old_code, code)) == direction_of(old_code),
        with_code(old_code, code) & 0x7f == code,
{
    lemma_with_code(old_code, code);
}

/// A normal code is a fixed point of the state machine in both directions.
pub proof fn lemma_normal_is_fixed()
    ensures
        forward_step(NORMAL) == Some((NORMAL, AitState::Normal)),
        backward_step(NORMAL) == Some((NORMAL, AitState::Normal)),
{
}

/// One step of the AIT state machine in the UUID's direction of time: the
/// new state, with the code it gives, or the error where the state has no
/// next one (then the code stays); the port byte and the rest are kept.
pub open spec fn ait_stepped(before: Uuid, after: Uuid, r: Result<AitState, UuidError>) -> bool {
    let base = before.spec_code() & 0x7f;
    let forward = before.spec_direction() == TimeDirection::Forward;
    let step = if forward {
        forward_step(base)
    } else {
        backward_step(base)
    };
    let func_name = if forward {
        "next_state"
    } else {
        "previous_stat"
    };
    &&& match step {
        Some((code, state)) => {
            &&& r == Ok::<AitState, UuidError>(state)
            &&& after.spec_code() == if code == NORMAL {
                before.spec_code()
            } else {
                with_code(before.spec_code(), code)
            }
        },
        None => {
            &&& r == Err::<AitState, UuidError>(UuidError::AitState { func_name, ait_state: before.spec_ait_state() })
            &&& after.spec_code() == before.spec_code()
        },
    }
    &&& after.spec_port_byte() == before.spec_port_byte()
    &&& after.spec_rest() == before.spec_rest()
}

/// The code and state that one step of the AIT state machine gives from
/// the UUID, in its direction of time; `None` where its state has no next one.
pub open spec fn ait_step(u: Uuid) -> Option<(u8, AitState)> {
    let base = u.spec_code() & 0x7f;
    if u.spec_direction() == TimeDirection::Forward {
        forward_step(base)
    } else {
        backward_step(base)
    }
}

} // verus!
