//! The packet reader and writer.
//!
//! [`Mpeg2tsParser`] writes each structure of the transport stream as the
//! bytes that its model gives, and reads them back. While reading it learns
//! from the tables which PID carries what.
use super::pid::{PidKind, PidTable};
use crate::error::Error;
use std::collections::HashMap;
use vstd::prelude::*;

pub mod adaptation;
pub mod fields;
pub mod kinds;
pub mod packet;
pub mod pes;
pub mod psi;

verus! {

/// Reader and writer of transport stream packets, with the PIDs learned so
/// far.
pub struct Mpeg2tsParser {
    pub(crate) pids: HashMap<u16, PidKind>,
    pub(crate) programs: HashMap<u16, Vec<u16>>,
}

impl View for Mpeg2tsParser {
    type V = PidTable;

    closed spec fn view(&self) -> PidTable {
        PidTable { pids: self.pids@, programs: self.programs@.map_values(|v: Vec<u16>| v@) }
    }
}

/// The table of a parser that has read nothing.
pub open spec fn empty_table() -> PidTable {
    PidTable { pids: Map::empty(), programs: Map::empty() }
}

impl Mpeg2tsParser {
    /// Makes a parser that knows no PID yet.
    pub fn new() -> (r: Self)
        ensures
            r@ == empty_table(),
    {
        let r = Mpeg2tsParser { pids: HashMap::new(), programs: HashMap::new() };
        assert(r.programs@.map_values(|v: Vec<u16>| v@) =~= Map::<u16, Seq<u16>>::empty());
        r
    }
}

/// Reading and writing of one kind of item.
///
/// Each kind has its model: what the bytes say of an item, given the PIDs
/// learned so far; what reading them teaches about PIDs; and the bytes of an
/// item, where it can be written.
pub trait Io<T: View> {
    /// The PIDs learned so far.
    spec fn table(&self) -> PidTable;

    /// What the bytes say of an item, given the PIDs learned so far.
    spec fn read_model(table: PidTable, input: Seq<u8>) -> Result<T::V, Error>;

    /// The PIDs known after an item was read from the bytes.
    spec fn learn_model(table: PidTable, input: Seq<u8>) -> PidTable;

    /// The bytes of an item, where it can be written.
    spec fn write_model(item: T::V) -> Option<Seq<u8>>;

    /// Reads an item. Where the bytes are refused, nothing is learned.
    fn parse(&mut self, input: &[u8]) -> (r: Result<T, Error>)
        ensures
            super::reads_as(r, Self::read_model(old(self).table(), input@)),
            r is Ok ==> final(self).table() == Self::learn_model(old(self).table(), input@),
            r is Err ==> final(self).table() == old(self).table(),
    ;

    /// Writes an item. Where it cannot be written, nothing is written.
    fn serialize(&mut self, item: &T, output: &mut Vec<u8>) -> (r: Result<(), Error>)
        ensures
            final(self).table() == old(self).table(),
            match Self::write_model(item@) {
                Some(bytes) => r is Ok && final(output)@ == old(output)@ + bytes,
                None => r == Err::<(), Error>(Error::TsGeneric) && final(output)@ == old(output)@,
            },
    ;
}

/// One for a flag that is set, zero for one that is clear.
pub fn bit_of(flag: bool) -> (r: u8)
    ensures
        r == super::ts::bit(flag),
{
    if flag {
        1
    } else {
        0
    }
}

} // verus!
