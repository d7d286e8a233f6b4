//! Packet identifiers.
use super::wire::{u16_at, u16_bytes};
use super::WritableLen;
use crate::error::Error;
use vstd::prelude::*;

verus! {

/// What a PID carries.
#[derive(Debug, Clone, Copy, PartialEq, Eq, Structural)]
pub enum PidKind {
    /// The program association table.
    Pat,
    /// A program map table.
    Pmt,
    /// A packetized elementary stream.
    Pes,
    /// Nothing that the tables have announced.
    Unknown,
}

/// The PIDs learned from the tables: what each carries, and for each
/// program the elementary streams that its last PMT named.
pub ghost struct PidTable {
    pub pids: Map<u16, PidKind>,
    pub programs: Map<u16, Seq<u16>>,
}

/// What a PID carries, given the PIDs learned so far: PID 0 the PAT, a
/// learned PID what it was learned to carry, any other nothing known.
pub open spec fn kind_in(pids: Map<u16, PidKind>, pid: u16) -> PidKind {
    if pid == Pid::PAT {
        PidKind::Pat
    } else if pids.contains_key(pid) {
        pids[pid]
    } else {
        PidKind::Unknown
    }
}

/// The PIDs known after `keys` were learned to carry `kind`.
pub open spec fn learn(pids: Map<u16, PidKind>, keys: Seq<u16>, kind: PidKind) -> Map<
    u16,
    PidKind,
>
    decreases keys.len(),
{
    if keys.len() == 0 {
        pids
    } else {
        learn(pids, keys.drop_last(), kind).insert(keys.last(), kind)
    }
}

/// The PIDs known after those of `keys` that carry elementary streams were
/// forgotten.
pub open spec fn forget(pids: Map<u16, PidKind>, keys: Seq<u16>) -> Map<u16, PidKind>
    decreases keys.len(),
{
    if keys.len() == 0 {
        pids
    } else {
        let before = forget(pids, keys.drop_last());
        if before.contains_key(keys.last()) && before[keys.last()] == PidKind::Pes {
            before.remove(keys.last())
        } else {
            before
        }
    }
}

/// The elementary streams that the last PMT of a program named: none
/// before its first.
pub open spec fn streams_of(programs: Map<u16, Seq<u16>>, program_num: u16) -> Seq<u16> {
    if programs.contains_key(program_num) {
        programs[program_num]
    } else {
        Seq::empty()
    }
}

/// Packet Identifier: a 13-bit number.
#[derive(Debug, Clone, Copy, PartialEq, Eq, Hash, PartialOrd, Ord)]
pub struct Pid(pub(crate) u16);

impl View for Pid {
    type V = u16;

    closed spec fn view(&self) -> u16 {
        self.0
    }
}

/// The 16-bit field of a PID inside a table: three reserved bits that are
/// set, then the 13 bits of the PID.
pub open spec fn pid_bytes(pid: u16) -> Seq<u8> {
    u16_bytes(0xE000 + pid as int)
}

/// The PID that the 16-bit field at `at` holds. The three bits before it
/// must be set.
pub open spec fn pid_at(d: Seq<u8>, at: int) -> Result<u16, Error> {
    if d.len() < at + 2 || u16_at(d, at) / 0x2000 != 7 {
        Err(Error::TsGeneric)
    } else {
        Ok((u16_at(d, at) % 0x2000) as u16)
    }
}

impl Pid {
    /// Maximum PID value.
    pub const MAX: u16 = 0x1FFF;

    /// PID of the Program Association Table (PAT) packet.
    pub const PAT: u16 = 0;

    /// PID of the null packet.
    pub const NULL: u16 = 0x1FFF;

    #[verifier::type_invariant]
    spec fn in_range(self) -> bool {
        self.0 <= Pid::MAX
    }

    /// Makes a new `Pid`; a value above [`Pid::MAX`] is refused.
    pub fn new(pid: u16) -> (r: Result<Self, Error>)
        ensures
            pid <= Pid::MAX ==> (r matches Ok(p) && p@ == pid),
            pid > Pid::MAX ==> r == Err::<Self, Error>(Error::ValueTooLarge(pid as u64)),
    {
        if pid > Pid::MAX {
            return Err(Error::ValueTooLarge(pid as u64));
        }
        Ok(Pid(pid))
    }

    /// Returns the value of the `Pid`.
    pub fn as_u16(&self) -> (r: u16)
        ensures
            r == self@,
            r <= Pid::MAX,
    {
        proof {
            use_type_invariant(self);
        }
        self.0
    }

    /// Two identifiers with the same value are the same identifier.
    pub proof fn lemma_view_determines(a: Pid, b: Pid)
        requires
            a@ == b@,
        ensures
            a == b,
    {
    }
}

impl From<u8> for Pid {
    fn from(f: u8) -> (r: Self) {
        Pid(f as u16)
    }
}

impl vstd::std_specs::convert::FromSpecImpl<u8> for Pid {
    open spec fn obeys_from_spec() -> bool {
        true
    }

    closed spec fn from_spec(f: u8) -> Self {
        Pid(f as u16)
    }
}

impl Pid {
    /// The PID made from eight bits has their value.
    pub proof fn lemma_from_u8(f: u8)
        ensures
            <Pid as vstd::std_specs::convert::FromSpec<u8>>::from_spec(f)@ == f,
    {
    }
}

impl WritableLen for Pid {
    open spec fn wire_len(&self) -> nat {
        2
    }

    fn writable_len(&self) -> usize {
        2
    }
}

} // verus!
