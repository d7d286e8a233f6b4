//! The program association table.
use super::psi::{
    psi_bytes, table_writable, PsiTableHeader, PsiTableSyntaxView, PsiTableView, PsiView,
};
use crate::mpegts::pid::{pid_bytes, Pid};
use crate::mpegts::version::VersionNumber;
use super::psi::{last_syntax_spec, lemma_section_inverse};
use crate::mpegts::wire::lemma_read_back_u16;
use crate::error::Error;
use crate::mpegts::wire::{u16_at, u16_bytes};
use crate::mpegts::WritableLen;
use vstd::prelude::*;

verus! {

/// Program association table.
#[derive(Debug, Clone, PartialEq, Eq, Hash)]
pub struct Pat {
    pub transport_stream_id: u16,
    pub version_number: VersionNumber,
    pub table: Vec<ProgramAssociation>,
}

/// An entry of a program association table.
#[derive(Debug, Clone, Copy, PartialEq, Eq, Hash)]
pub struct ProgramAssociation {
    pub program_num: u16,
    /// The packet identifier that contains the associated PMT.
    pub program_map_pid: Pid,
}

/// What a [`ProgramAssociation`] holds.
pub ghost struct ProgramAssociationView {
    pub program_num: u16,
    pub program_map_pid: u16,
}

/// What a [`Pat`] holds.
pub ghost struct PatView {
    pub transport_stream_id: u16,
    pub version_number: u8,
    pub table: Seq<ProgramAssociationView>,
}

impl View for ProgramAssociation {
    type V = ProgramAssociationView;

    open spec fn view(&self) -> ProgramAssociationView {
        ProgramAssociationView {
            program_num: self.program_num,
            program_map_pid: self.program_map_pid@,
        }
    }
}

impl View for Pat {
    type V = PatView;

    open spec fn view(&self) -> PatView {
        PatView {
            transport_stream_id: self.transport_stream_id,
            version_number: self.version_number@,
            table: self.table@.map_values(|a: ProgramAssociation| a@),
        }
    }
}

/// The four bytes of an entry: the program number, then the PID.
pub open spec fn association_bytes(a: ProgramAssociationView) -> Seq<u8> {
    u16_bytes(a.program_num as int) + pid_bytes(a.program_map_pid)
}

/// The bytes of entries, one after the other.
pub open spec fn associations_bytes(s: Seq<ProgramAssociationView>) -> Seq<u8>
    decreases s.len(),
{
    if s.len() == 0 {
        Seq::empty()
    } else {
        associations_bytes(s.drop_last()) + association_bytes(s.last())
    }
}

/// The table that carries a PAT: table id 0, current, a single section.
pub open spec fn pat_table(p: PatView) -> PsiTableView {
    PsiTableView {
        header: PsiTableHeader {
            table_id: Pat::TABLE_ID,
            private_bit: false,
            syntax_section_indicator: true,
        },
        syntax: Some(
            PsiTableSyntaxView {
                table_id_extension: p.transport_stream_id,
                version_number: p.version_number,
                current_next_indicator: true,
                section_number: 0,
                last_section_number: 0,
                table_data: associations_bytes(p.table),
            },
        ),
    }
}

/// Whether a PAT can be written: its entries fit one section.
pub open spec fn pat_writable(p: PatView) -> bool {
    table_writable(pat_table(p))
}

/// The payload bytes of a PAT: a PSI section with its one table.
pub open spec fn pat_bytes(p: PatView) -> Seq<u8> {
    psi_bytes(PsiView { tables: seq![pat_table(p)] })
}

/// Each entry takes four bytes.
pub proof fn lemma_associations_len(s: Seq<ProgramAssociationView>)
    ensures
        associations_bytes(s).len() == 4 * s.len(),
    decreases s.len(),
{
    if s.len() > 0 {
        lemma_associations_len(s.drop_last());
    }
}

/// A PAT takes 13 bytes and four more for each entry.
pub proof fn lemma_pat_bytes_len(p: PatView)
    ensures
        pat_bytes(p).len() == 13 + 4 * p.table.len(),
{
    lemma_associations_len(p.table);
    let tables = seq![pat_table(p)];
    assert(tables.drop_last() =~= Seq::<PsiTableView>::empty());
    reveal_with_fuel(super::psi::tables_bytes, 2);
}

/// The entry that the four bytes at `4 * i` spell.
pub open spec fn association_at(d: Seq<u8>, i: int) -> ProgramAssociationView {
    ProgramAssociationView {
        program_num: u16_at(d, 4 * i) as u16,
        program_map_pid: (u16_at(d, 4 * i + 2) % 0x2000) as u16,
    }
}

/// What the table data of a PAT say: an entry for every four bytes. The
/// three bits before each PID must be set, and no bytes may be left over.
pub open spec fn parse_associations_spec(d: Seq<u8>) -> Result<Seq<ProgramAssociationView>, Error> {
    if d.len() % 4 != 0 || exists|i: int|
        0 <= i < d.len() / 4 && #[trigger] u16_at(d, 4 * i + 2) / 0x2000 != 7 {
        Err(Error::TsGeneric)
    } else {
        Ok(Seq::new(d.len() / 4, |i: int| association_at(d, i)))
    }
}

/// What the payload bytes of a packet say of the PAT in them.
pub open spec fn parse_pat_spec(s: Seq<u8>) -> Result<PatView, Error> {
    match last_syntax_spec(s) {
        Err(e) => Err(e),
        Ok(syntax) => match parse_associations_spec(syntax.table_data) {
            Err(e) => Err(e),
            Ok(table) => Ok(
                PatView {
                    transport_stream_id: syntax.table_id_extension,
                    version_number: syntax.version_number,
                    table,
                },
            ),
        },
    }
}

/// Whether the fields of a PAT fit their bits.
pub open spec fn pat_valid(p: PatView) -> bool {
    &&& p.version_number <= VersionNumber::MAX
    &&& forall|i: int|
        0 <= i < p.table.len() ==> (#[trigger] p.table[i]).program_map_pid <= Pid::MAX
}

/// Entry `i` of the bytes of entries is entry `i`, with its reserved bits
/// set.
proof fn lemma_association_at(s: Seq<ProgramAssociationView>, i: int)
    requires
        0 <= i < s.len(),
        forall|j: int| 0 <= j < s.len() ==> (#[trigger] s[j]).program_map_pid <= Pid::MAX,
    ensures
        associations_bytes(s).len() == 4 * s.len(),
        association_at(associations_bytes(s), i) == s[i],
        u16_at(associations_bytes(s), 4 * i + 2) / 0x2000 == 7,
    decreases s.len(),
{
    lemma_associations_len(s);
    lemma_associations_len(s.drop_last());
    let prefix = associations_bytes(s.drop_last());
    let entry = association_bytes(s.last());
    let all = associations_bytes(s);
    if i < s.len() - 1 {
        lemma_association_at(s.drop_last(), i);
        assert(all[4 * i] == prefix[4 * i] && all[4 * i + 1] == prefix[4 * i + 1] && all[4 * i
            + 2] == prefix[4 * i + 2] && all[4 * i + 3] == prefix[4 * i + 3]);
    } else {
        let a = s.last();
        lemma_read_back_u16(a.program_num as int);
        lemma_read_back_u16(0xE000 + a.program_map_pid as int);
        let num = u16_bytes(a.program_num as int);
        let pid = pid_bytes(a.program_map_pid);
        assert(entry[0] == num[0] && entry[1] == num[1] && entry[2] == pid[0] && entry[3]
            == pid[1]);
        assert(all[4 * i] == entry[0] && all[4 * i + 1] == entry[1] && all[4 * i + 2] == entry[2]
            && all[4 * i + 3] == entry[3]);
    }
}

/// Reading the bytes of entries gives the entries back.
pub proof fn lemma_associations_inverse(s: Seq<ProgramAssociationView>)
    requires
        forall|j: int| 0 <= j < s.len() ==> (#[trigger] s[j]).program_map_pid <= Pid::MAX,
    ensures
        parse_associations_spec(associations_bytes(s)) == Ok::<
            Seq<ProgramAssociationView>,
            Error,
        >(s),
{
    let d = associations_bytes(s);
    lemma_associations_len(s);
    assert forall|i: int| 0 <= i < d.len() / 4 implies #[trigger] u16_at(d, 4 * i + 2) / 0x2000
        == 7 by {
        lemma_association_at(s, i);
    }
    let read = Seq::new(d.len() / 4, |i: int| association_at(d, i));
    assert forall|i: int| 0 <= i < s.len() implies read[i] == s[i] by {
        lemma_association_at(s, i);
    }
    assert(read =~= s);
}

/// Reading the payload bytes of a PAT gives the PAT back.
pub proof fn lemma_pat_inverse(p: PatView)
    requires
        pat_writable(p),
        pat_valid(p),
    ensures
        parse_pat_spec(pat_bytes(p)) == Ok::<PatView, Error>(p),
{
    lemma_section_inverse(pat_table(p));
    lemma_associations_inverse(p.table);
}

impl Pat {
    /// The table id of a PAT.
    pub const TABLE_ID: u8 = 0;
}

impl WritableLen for Pat {
    open spec fn wire_len(&self) -> nat {
        pat_bytes(self@).len()
    }

    fn writable_len(&self) -> usize {
        proof {
            lemma_pat_bytes_len(self@);
        }
        13 + 4 * self.table.len()
    }
}

impl WritableLen for ProgramAssociation {
    open spec fn wire_len(&self) -> nat {
        4
    }

    fn writable_len(&self) -> usize {
        2 + self.program_map_pid.writable_len()
    }
}

} // verus!
