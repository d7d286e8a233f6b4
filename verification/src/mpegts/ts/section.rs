//! Section payloads.
use crate::mpegts::bytes::RawData;
use crate::mpegts::WritableLen;
use vstd::prelude::*;

verus! {

/// Payload for Section Stream packets.
#[derive(Debug, Clone, PartialEq, Eq, Hash)]
pub struct Section {
    pub pointer_field: u8,
    pub data: RawData,
}

/// What a [`Section`] holds.
pub ghost struct SectionView {
    pub pointer_field: u8,
    pub data: Seq<u8>,
}

impl View for Section {
    type V = SectionView;

    open spec fn view(&self) -> SectionView {
        SectionView { pointer_field: self.pointer_field, data: self.data@ }
    }
}

/// The bytes of a section payload: the pointer field, then the data.
pub open spec fn section_bytes(s: SectionView) -> Seq<u8> {
    seq![s.pointer_field] + s.data
}

impl WritableLen for Section {
    open spec fn wire_len(&self) -> nat {
        section_bytes(self@).len()
    }

    fn writable_len(&self) -> usize {
        1 + self.data.len()
    }
}

} // verus!
