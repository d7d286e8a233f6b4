//! The structures of the transport stream: packets, adaptation fields, PSI
//! sections and PES packets, each with the bytes that encode it.
use super::WritableLen;
use vstd::prelude::*;

pub mod adaptation_field;
pub mod packet;
pub mod pat;
pub mod pes;
pub mod pmt;
pub mod psi;
pub mod section;
pub mod stuffing;

pub use adaptation_field::{AdaptationExtensionField, AdaptationField, AdaptationFieldControl};
pub use packet::{TransportScramblingControl, TsHeader, TsPacket, TsPayload};
pub use pat::{Pat, ProgramAssociation};
pub use pes::{Pes, PesHeader, PACKET_START_CODE_PREFIX};
pub use pmt::{Descriptor, EsInfo, Pmt};
pub use psi::{Psi, PsiTable, PsiTableHeader, PsiTableSyntax, MAX_SYNTAX_SECTION_LEN};
pub use section::Section;
pub use stuffing::Stuffing;

verus! {

/// Payload for null packets.
#[derive(Debug, Clone, Copy, PartialEq, Eq, Structural, Hash)]
pub struct Null;

impl WritableLen for Null {
    open spec fn wire_len(&self) -> nat {
        0
    }

    fn writable_len(&self) -> usize {
        0
    }
}

/// One for a flag that is set, zero for one that is clear.
pub open spec fn bit(flag: bool) -> int {
    if flag {
        1
    } else {
        0
    }
}

} // verus!
