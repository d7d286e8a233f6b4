//! Program-specific information: sections of tables, each table with its
//! header, its syntax section and the checksum over both.
use super::bit;
use crate::mpegts::crc32::crc32_mpeg2;
use crate::mpegts::version::VersionNumber;
use crate::error::Error;
use crate::mpegts::wire::{
    lemma_read_back_u16, lemma_read_back_u32, u16_at, u16_bytes, u32_at, u32_bytes,
};
use vstd::prelude::*;

verus! {

/// The largest length that a table header can declare for its syntax section.
pub const MAX_SYNTAX_SECTION_LEN: usize = 1021;

/// Program-specific information.
#[derive(Debug, Clone, PartialEq, Eq)]
pub struct Psi {
    pub tables: Vec<PsiTable>,
}

/// One table of a PSI section.
#[derive(Debug, Clone, PartialEq, Eq)]
pub struct PsiTable {
    pub header: PsiTableHeader,
    pub syntax: Option<PsiTableSyntax>,
}

/// The header of a table.
#[derive(Debug, Clone, Copy, PartialEq, Eq, Structural)]
pub struct PsiTableHeader {
    pub table_id: u8,
    pub private_bit: bool,
    pub syntax_section_indicator: bool,
}

/// The syntax section of a table.
#[derive(Debug, Clone, PartialEq, Eq)]
pub struct PsiTableSyntax {
    pub table_id_extension: u16,
    pub version_number: VersionNumber,
    pub current_next_indicator: bool,
    pub section_number: u8,
    pub last_section_number: u8,
    pub table_data: Vec<u8>,
}

/// What a [`PsiTableSyntax`] holds.
pub ghost struct PsiTableSyntaxView {
    pub table_id_extension: u16,
    pub version_number: u8,
    pub current_next_indicator: bool,
    pub section_number: u8,
    pub last_section_number: u8,
    pub table_data: Seq<u8>,
}

/// What a [`PsiTable`] holds.
pub ghost struct PsiTableView {
    pub header: PsiTableHeader,
    pub syntax: Option<PsiTableSyntaxView>,
}

/// What a [`Psi`] holds.
pub ghost struct PsiView {
    pub tables: Seq<PsiTableView>,
}

impl View for PsiTableSyntax {
    type V = PsiTableSyntaxView;

    open spec fn view(&self) -> PsiTableSyntaxView {
        PsiTableSyntaxView {
            table_id_extension: self.table_id_extension,
            version_number: self.version_number@,
            current_next_indicator: self.current_next_indicator,
            section_number: self.section_number,
            last_section_number: self.last_section_number,
            table_data: self.table_data@,
        }
    }
}

impl View for PsiTable {
    type V = PsiTableView;

    open spec fn view(&self) -> PsiTableView {
        PsiTableView {
            header: self.header,
            syntax: match self.syntax {
                Some(s) => Some(s@),
                None => None,
            },
        }
    }
}

impl View for Psi {
    type V = PsiView;

    open spec fn view(&self) -> PsiView {
        PsiView { tables: self.tables@.map_values(|t: PsiTable| t@) }
    }
}

/// The number of bytes of a syntax section, its checksum included.
pub open spec fn syntax_size(s: PsiTableSyntaxView) -> nat {
    5 + s.table_data.len() + 4
}

/// The bytes of a syntax section without its checksum: the table id
/// extension, the version with two reserved bits set before it and the
/// current/next bit after it, the two section numbers, then the table data.
pub open spec fn syntax_bytes(s: PsiTableSyntaxView) -> Seq<u8> {
    u16_bytes(s.table_id_extension as int) + seq![
        (0xC0 + s.version_number * 2 + bit(s.current_next_indicator)) as u8,
        s.section_number,
        s.last_section_number,
    ] + s.table_data
}

/// The length that the header of a table declares: that of the syntax
/// section, or zero without one.
pub open spec fn table_section_len(t: PsiTableView) -> nat {
    match t.syntax {
        Some(s) => syntax_size(s),
        None => 0,
    }
}

/// The 16-bit field of a table header: the syntax indicator, the private
/// bit, two reserved bits set, two unused bits clear, and the 10-bit length.
pub open spec fn table_header_word(private_bit: bool, len: nat) -> int {
    bit(len != 0) * 0x8000 + bit(private_bit) * 0x4000 + 0x3000 + len
}

/// The three bytes of a table header.
pub open spec fn table_header_bytes(h: PsiTableHeader, len: nat) -> Seq<u8> {
    seq![h.table_id] + u16_bytes(table_header_word(h.private_bit, len))
}

/// The bytes of a table that its checksum covers: header and syntax section.
pub open spec fn table_covered_bytes(t: PsiTableView) -> Seq<u8> {
    table_header_bytes(t.header, table_section_len(t)) + (match t.syntax {
        Some(s) => syntax_bytes(s),
        None => Seq::empty(),
    })
}

/// The bytes of a table: header, syntax section, and the CRC-32/MPEG-2 of
/// both where there is a syntax section.
pub open spec fn table_bytes(t: PsiTableView) -> Seq<u8> {
    table_covered_bytes(t) + (if t.syntax is Some {
        u32_bytes(crc32_mpeg2(table_covered_bytes(t)) as int)
    } else {
        Seq::empty()
    })
}

/// Whether a table can be written: its syntax section fits the length field.
pub open spec fn table_writable(t: PsiTableView) -> bool {
    table_section_len(t) <= MAX_SYNTAX_SECTION_LEN
}

/// The bytes of tables, one after the other.
pub open spec fn tables_bytes(ts: Seq<PsiTableView>) -> Seq<u8>
    decreases ts.len(),
{
    if ts.len() == 0 {
        Seq::empty()
    } else {
        tables_bytes(ts.drop_last()) + table_bytes(ts.last())
    }
}

/// Whether every one of the tables can be written.
pub open spec fn tables_writable(ts: Seq<PsiTableView>) -> bool {
    forall|i: int| 0 <= i < ts.len() ==> table_writable(#[trigger] ts[i])
}

/// The bytes of a PSI section: a pointer field of zero, then the tables.
pub open spec fn psi_bytes(p: PsiView) -> Seq<u8> {
    seq![0u8] + tables_bytes(p.tables)
}

/// The number of bytes of a table.
pub proof fn lemma_table_bytes_len(t: PsiTableView)
    ensures
        table_bytes(t).len() == 3 + table_section_len(t),
{
}

/// The checksum that ends a table with a syntax section is the
/// CRC-32/MPEG-2 of all the bytes before it.
pub proof fn lemma_table_checksum(t: PsiTableView)
    requires
        t.syntax is Some,
    ensures
        table_bytes(t).len() >= 4,
        table_bytes(t).subrange(table_bytes(t).len() - 4, table_bytes(t).len() as int)
            == u32_bytes(
            crc32_mpeg2(table_bytes(t).subrange(0, table_bytes(t).len() - 4)) as int,
        ),
{
    let covered = table_covered_bytes(t);
    let all = table_bytes(t);
    assert(all.subrange(0, all.len() - 4) =~= covered);
    assert(all.subrange(all.len() - 4, all.len() as int) =~= u32_bytes(
        crc32_mpeg2(covered) as int,
    ));
}

/// What the first three bytes say of a table: its header, and the length
/// that the header declares. The two reserved bits must be set, the two
/// unused bits clear, and the length within its limit.
pub open spec fn parse_table_header_spec(s: Seq<u8>) -> Result<(PsiTableHeader, u16), Error> {
    if s.len() < 3 {
        Err(Error::TsGeneric)
    } else if (u16_at(s, 1) / 0x1000) % 4 != 3 || (u16_at(s, 1) / 0x400) % 4 != 0 || u16_at(s, 1)
        % 0x400 > MAX_SYNTAX_SECTION_LEN {
        Err(Error::TsGeneric)
    } else {
        Ok(
            (
                PsiTableHeader {
                    table_id: s[0],
                    private_bit: (u16_at(s, 1) / 0x4000) % 2 == 1,
                    syntax_section_indicator: u16_at(s, 1) / 0x8000 == 1,
                },
                (u16_at(s, 1) % 0x400) as u16,
            ),
        )
    }
}

/// What the bytes of a syntax section without its checksum say. The two
/// reserved bits before the version must be set.
pub open spec fn parse_syntax_spec(s: Seq<u8>) -> Result<PsiTableSyntaxView, Error> {
    if s.len() < 5 || s[2] / 0x40 != 3 {
        Err(Error::TsGeneric)
    } else {
        Ok(
            PsiTableSyntaxView {
                table_id_extension: u16_at(s, 0) as u16,
                version_number: (s[2] / 2) % 0x20,
                current_next_indicator: s[2] % 2 == 1,
                section_number: s[3],
                last_section_number: s[4],
                table_data: s.skip(5),
            },
        )
    }
}

/// What the bytes say of the table that starts them, and how many bytes the
/// table takes. A table whose header announces a syntax section has one of
/// the declared length, which ends with the CRC-32/MPEG-2 of all the bytes
/// of the table before it; a table whose header announces none declares the
/// length zero.
pub open spec fn parse_table_spec(s: Seq<u8>) -> Result<(PsiTableView, int), Error> {
    match parse_table_header_spec(s) {
        Err(e) => Err(e),
        Ok((header, len)) => if !header.syntax_section_indicator {
            if len != 0 {
                Err(Error::TsGeneric)
            } else {
                Ok((PsiTableView { header, syntax: None }, 3))
            }
        } else if len < 9 || s.len() < 3 + len {
            Err(Error::TsGeneric)
        } else {
            match parse_syntax_spec(s.subrange(3, len - 1)) {
                Err(e) => Err(e),
                Ok(syntax) => if u32_at(s, len - 1) != crc32_mpeg2(s.subrange(0, len - 1)) {
                    Err(Error::TsGeneric)
                } else {
                    Ok((PsiTableView { header, syntax: Some(syntax) }, 3 + len))
                },
            }
        },
    }
}

/// What the bytes say of the tables that they hold, one after the other.
/// After the first table, a byte `0xFF` where a table would start ends the
/// list: what follows is stuffing.
pub open spec fn parse_tables_spec(s: Seq<u8>, first: bool) -> Result<Seq<PsiTableView>, Error>
    decreases s.len(),
{
    if s.len() == 0 || (!first && s[0] == 0xFF) {
        Ok(Seq::empty())
    } else {
        match parse_table_spec(s) {
            Err(e) => Err(e),
            Ok((table, used)) => if used <= 0 || used > s.len() {
                Err(Error::TsGeneric)
            } else {
                match parse_tables_spec(s.skip(used), false) {
                    Err(e) => Err(e),
                    Ok(rest) => Ok(seq![table] + rest),
                }
            },
        }
    }
}

/// What the payload bytes of a packet say of the PSI section in them: a
/// pointer field of zero, then tables.
pub open spec fn parse_psi_spec(s: Seq<u8>) -> Result<PsiView, Error> {
    if s.len() < 1 || s[0] != 0 {
        Err(Error::TsGeneric)
    } else {
        match parse_tables_spec(s.skip(1), true) {
            Err(e) => Err(e),
            Ok(tables) => Ok(PsiView { tables }),
        }
    }
}

/// The syntax section of the last table of a section, which is where PAT
/// and PMT are read from. A section without tables, or a last table without
/// syntax section, is an error.
pub open spec fn last_syntax_spec(s: Seq<u8>) -> Result<PsiTableSyntaxView, Error> {
    match parse_psi_spec(s) {
        Err(e) => Err(e),
        Ok(psi) => if psi.tables.len() < 1 {
            Err(Error::PsiTableCountZero)
        } else {
            match psi.tables.last().syntax {
                None => Err(Error::TsGeneric),
                Some(syntax) => Ok(syntax),
            }
        },
    }
}

/// The table that is read back from the bytes of a table with a syntax
/// section: the same, with the indicator of its header set.
pub open spec fn table_as_read(t: PsiTableView) -> PsiTableView {
    PsiTableView {
        header: PsiTableHeader { syntax_section_indicator: true, ..t.header },
        syntax: t.syntax,
    }
}

/// Reading the header word of a table gives back what it was made of.
proof fn lemma_header_word(private_bit: bool, len: nat)
    requires
        0 < len <= MAX_SYNTAX_SECTION_LEN,
    ensures
        ({
            let w = table_header_word(private_bit, len);
            &&& 0 <= w < 0x1_0000
            &&& w / 0x8000 == 1
            &&& (w / 0x4000) % 2 == bit(private_bit)
            &&& (w / 0x1000) % 4 == 3
            &&& (w / 0x400) % 4 == 0
            &&& w % 0x400 == len
        }),
{
    let p = bit(private_bit);
    let w = 0x8000 + p * 0x4000 + 0x3000 + len;
    assert(w / 0x4000 == 2 + p);
    assert(w / 0x1000 == 8 + p * 4 + 3);
    assert(w / 0x400 == 32 + p * 16 + 12);
}

/// Reading the bytes of a syntax section gives the section back.
pub proof fn lemma_syntax_inverse(s: PsiTableSyntaxView)
    requires
        s.version_number <= VersionNumber::MAX,
    ensures
        parse_syntax_spec(syntax_bytes(s)) == Ok::<PsiTableSyntaxView, Error>(s),
{
    let b = syntax_bytes(s);
    lemma_read_back_u16(s.table_id_extension as int);
    let head = u16_bytes(s.table_id_extension as int);
    assert(b[0] == head[0] && b[1] == head[1]);
    let flags = 0xC0 + s.version_number * 2 + bit(s.current_next_indicator);
    assert(b[2] == flags);
    assert(flags / 0x40 == 3);
    assert((flags / 2) % 0x20 == s.version_number);
    assert(b[3] == s.section_number);
    assert(b[4] == s.last_section_number);
    assert(b.skip(5) =~= s.table_data);
}

/// Reading the bytes of a table with a syntax section gives the table back
/// and tells how many bytes it takes, whatever follows them: the checksum
/// that was written is the one that is found.
pub proof fn lemma_table_inverse(t: PsiTableView, rest: Seq<u8>)
    requires
        table_writable(t),
        t.syntax is Some,
        t.syntax.unwrap().version_number <= VersionNumber::MAX,
    ensures
        parse_table_spec(table_bytes(t) + rest) == Ok::<(PsiTableView, int), Error>(
            (table_as_read(t), 3 + table_section_len(t) as int),
        ),
        table_bytes(t).len() == 3 + table_section_len(t),
{
    let syntax = t.syntax.unwrap();
    let len = table_section_len(t) as int;
    let covered = table_covered_bytes(t);
    let all = table_bytes(t) + rest;
    let w = table_header_word(t.header.private_bit, len as nat);
    lemma_header_word(t.header.private_bit, len as nat);
    lemma_read_back_u16(w);
    let word = u16_bytes(w);
    assert(all[0] == t.header.table_id);
    assert(all[1] == word[0] && all[2] == word[1]);
    assert(u16_at(all, 1) == w);
    assert(all.subrange(3, len - 1) =~= syntax_bytes(syntax));
    lemma_syntax_inverse(syntax);
    assert(all.subrange(0, len - 1) =~= covered);
    let sum = crc32_mpeg2(covered) as int;
    lemma_read_back_u32(sum);
    let tail = u32_bytes(sum);
    assert(all[len - 1] == tail[0] && all[len] == tail[1] && all[len + 1] == tail[2] && all[len
        + 2] == tail[3]);
    assert(u32_at(all, len - 1) == sum);
}

/// Reading the bytes of a PSI section with one table gives the syntax
/// section of that table back.
pub proof fn lemma_section_inverse(t: PsiTableView)
    requires
        table_writable(t),
        t.syntax is Some,
        t.syntax.unwrap().version_number <= VersionNumber::MAX,
    ensures
        parse_psi_spec(psi_bytes(PsiView { tables: seq![t] })) == Ok::<PsiView, Error>(
            PsiView { tables: seq![table_as_read(t)] },
        ),
        last_syntax_spec(psi_bytes(PsiView { tables: seq![t] })) == Ok::<
            PsiTableSyntaxView,
            Error,
        >(t.syntax.unwrap()),
        psi_bytes(PsiView { tables: seq![t] }) == seq![0u8] + table_bytes(t),
{
    let tables = seq![t];
    assert(tables.drop_last() =~= Seq::<PsiTableView>::empty());
    reveal_with_fuel(tables_bytes, 2);
    let section = psi_bytes(PsiView { tables });
    assert(section =~= seq![0u8] + table_bytes(t));
    let body = section.skip(1);
    assert(body =~= table_bytes(t));
    assert(body =~= table_bytes(t) + Seq::<u8>::empty());
    lemma_table_inverse(t, Seq::empty());
    let used = 3 + table_section_len(t);
    assert(body.skip(used as int) =~= Seq::<u8>::empty());
    reveal_with_fuel(parse_tables_spec, 2);
    assert(seq![table_as_read(t)] + Seq::<PsiTableView>::empty() =~= seq![table_as_read(t)]);
    assert(parse_tables_spec(body, true) == Ok::<Seq<PsiTableView>, Error>(
        seq![table_as_read(t)],
    ));
}

/// Whether a place in the bytes of a table is one that the checksum guards
/// without deciding where the table ends: the table id, or a byte of the
/// syntax section before the checksum.
pub open spec fn guarded_place(t: PsiTableView, i: int) -> bool {
    i == 0 || 3 <= i < 3 + table_section_len(t) - 4
}

/// A table with one byte changed, at a place that the checksum guards, is
/// refused, whatever follows it: where the changed byte does not break the
/// syntax section, the checksum that was written is no longer the one that
/// is found.
pub proof fn lemma_damaged_table_refused(t: PsiTableView, i: int, x: u8, rest: Seq<u8>)
    requires
        table_writable(t),
        t.syntax is Some,
        guarded_place(t, i),
        x != table_bytes(t)[i],
    ensures
        parse_table_spec(table_bytes(t).update(i, x) + rest) == Err::<(PsiTableView, int), Error>(
            Error::TsGeneric,
        ),
{
    let len = table_section_len(t) as int;
    let good = table_bytes(t);
    let covered = table_covered_bytes(t);
    let d = good.update(i, x) + rest;
    let w = table_header_word(t.header.private_bit, len as nat);
    lemma_header_word(t.header.private_bit, len as nat);
    lemma_read_back_u16(w);
    let word = u16_bytes(w);
    assert(d[1] == word[0] && d[2] == word[1]);
    assert(u16_at(d, 1) == w);
    assert(good.subrange(0, len - 1) =~= covered);
    assert(d.subrange(0, len - 1) =~= covered.update(i, x));
    crate::mpegts::crc32::lemma_crc32_changed_byte(0xFFFF_FFFF, covered, i, x);
    let sum = crc32_mpeg2(covered) as int;
    lemma_read_back_u32(sum);
    let tail = u32_bytes(sum);
    assert(d[len - 1] == tail[0] && d[len] == tail[1] && d[len + 1] == tail[2] && d[len + 2]
        == tail[3]);
    assert(u32_at(d, len - 1) == sum);
}

/// A PSI section with one table, with one byte of the table changed at a
/// place that the checksum guards, is refused.
pub proof fn lemma_damaged_section_refused(t: PsiTableView, i: int, x: u8)
    requires
        table_writable(t),
        t.syntax is Some,
        guarded_place(t, i),
        x != table_bytes(t)[i],
    ensures
        last_syntax_spec(seq![0u8] + table_bytes(t).update(i, x)) == Err::<
            PsiTableSyntaxView,
            Error,
        >(Error::TsGeneric),
{
    let bad = table_bytes(t).update(i, x);
    let section = seq![0u8] + bad;
    lemma_damaged_table_refused(t, i, x, Seq::empty());
    assert(section.skip(1) =~= bad + Seq::<u8>::empty());
}

impl PsiTableSyntax {
    /// The number of bytes of the syntax section, its checksum included.
    pub fn external_size(&self) -> (r: usize)
        requires
            self.table_data@.len() <= usize::MAX - 9,
        ensures
            r == syntax_size(self@),
    {
        2 + 1 + 1 + 1 + self.table_data.len() + 4
    }
}

} // verus!
