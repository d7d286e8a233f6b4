//! Writing and reading adaptation fields.
use super::{bit_of, Mpeg2tsParser};
use crate::error::Error;
use crate::mpegts::ts::adaptation_field::{
    adaptation_body_bytes, adaptation_field_bytes, adaptation_field_fits, adaptation_flags,
    clock_part, extension_bytes, extension_flags, extension_part, extension_size,
    legal_time_window_part, piecewise_rate_part, private_data_part, seamless_splice_part,
    splice_countdown_part, stuffing_field_bytes,
};
use crate::mpegts::legal_time_window::LegalTimeWindow;
use crate::mpegts::piecewise_rate::PiecewiseRate;
use crate::mpegts::seamless_splice::SeamlessSplice;
use crate::mpegts::timestamp::{Clock, Timestamp, PCR};
use crate::mpegts::ts::adaptation_field::{
    clock_at, countdown_at, extension_at, legal_time_window_at, parse_adaptation_body_spec,
    parse_adaptation_field_spec, parse_extension_body_spec, piecewise_rate_at, private_data_at,
    seamless_splice_at,
};
use crate::mpegts::ts::{AdaptationExtensionField, AdaptationField};
use crate::mpegts::wire::{copy_range, put_bytes, put_slice};
use crate::mpegts::{test_bit, view_of};
use vstd::slice::slice_subrange;
use vstd::prelude::*;

verus! {

impl Mpeg2tsParser {
    /// Writes an adaptation field extension.
    pub fn serialize_adaptation_extension(
        &self,
        item: &AdaptationExtensionField,
        output: &mut Vec<u8>,
    )
        ensures
            final(output)@ == old(output)@ + extension_bytes(item@),
    {
        let size: usize = item.external_size();
        output.push((size - 1) as u8);
        let flags: u8 = bit_of(item.legal_time_window.is_some()) * 0x80 + bit_of(
            item.piecewise_rate.is_some(),
        ) * 0x40 + bit_of(item.seamless_splice.is_some()) * 0x20;
        output.push(flags);
        match item.legal_time_window {
            Some(x) => self.serialize_legal_time_window(&x, output),
            None => {},
        }
        let ghost after_window = output@;
        match item.piecewise_rate {
            Some(x) => self.serialize_piecewise_rate(&x, output),
            None => {},
        }
        let ghost after_rate = output@;
        match item.seamless_splice {
            Some(x) => self.serialize_seamless_splice(&x, output),
            None => {},
        }
        proof {
            let e = item@;
            assert(after_window =~= old(output)@ + seq![
                (extension_size(e) - 1) as u8,
                extension_flags(e) as u8,
            ] + legal_time_window_part(e.legal_time_window));
            assert(after_rate =~= after_window + piecewise_rate_part(e.piecewise_rate));
            assert(output@ =~= after_rate + seamless_splice_part(e.seamless_splice));
            assert(output@ =~= old(output)@ + extension_bytes(e));
        }
    }

    /// Writes the parts of an adaptation field behind its flags.
    fn serialize_adaptation_parts(&self, item: &AdaptationField, output: &mut Vec<u8>)
        requires
            item@.transport_private_data.len() <= 255,
        ensures
            final(output)@ == old(output)@ + clock_part(item@.pcr) + clock_part(item@.opcr)
                + splice_countdown_part(item@.splice_countdown) + private_data_part(
                item@.transport_private_data,
            ) + extension_part(item@.extension),
    {
        match item.pcr {
            Some(x) => self.serialize_pcr(&x, output),
            None => {},
        }
        let ghost after_pcr = output@;
        assert(after_pcr =~= old(output)@ + clock_part(item@.pcr));
        match item.opcr {
            Some(x) => self.serialize_pcr(&x, output),
            None => {},
        }
        let ghost after_opcr = output@;
        assert(after_opcr =~= after_pcr + clock_part(item@.opcr));
        match item.splice_countdown {
            Some(x) => {
                let byte: u8 = if x >= 0 {
                    x as u8
                } else {
                    (x as i16 + 256) as u8
                };
                output.push(byte);
            },
            None => {},
        }
        let ghost after_splice = output@;
        assert(after_splice =~= after_opcr + splice_countdown_part(item@.splice_countdown));
        let private_len: usize = item.transport_private_data.len();
        if private_len > 0 {
            output.push(private_len as u8);
            put_slice(output, item.transport_private_data.as_slice());
        }
        let ghost after_private = output@;
        assert(after_private =~= after_splice + private_data_part(item@.transport_private_data));
        match &item.extension {
            Some(x) => self.serialize_adaptation_extension(x, output),
            None => {},
        }
        assert(output@ =~= after_private + extension_part(item@.extension));
    }

    /// Writes an adaptation field over `total` bytes, its length byte
    /// included, with stuffing behind its parts. Nothing is written where
    /// the field does not fit.
    pub fn serialize_adaptation_field(
        &self,
        item: &AdaptationField,
        total: usize,
        output: &mut Vec<u8>,
    ) -> (r: Result<(), Error>)
        ensures
            adaptation_field_fits(item@, total as int) ==> r is Ok && final(output)@ == old(output)@
                + adaptation_field_bytes(item@, total as int),
            !adaptation_field_fits(item@, total as int) ==> r == Err::<(), Error>(
                Error::TsGeneric,
            ) && final(output)@ == old(output)@,
    {
        let private_len: usize = item.transport_private_data.len();
        if private_len > 255 || total > 256 {
            return Err(Error::TsGeneric);
        }
        let size: usize = item.external_size();
        if size > total {
            return Err(Error::TsGeneric);
        }
        output.push((total - 1) as u8);
        self.serialize_adaptation_body(item, output);
        put_bytes(output, 0xFF, total - size);
        assert(output@ =~= old(output)@ + adaptation_field_bytes(item@, total as int));
        Ok(())
    }

    /// The flags byte of an adaptation field.
    fn adaptation_flags_byte(item: &AdaptationField) -> (r: u8)
        ensures
            r == adaptation_flags(item@),
    {
        bit_of(item.discontinuity_indicator) * 0x80 + bit_of(item.random_access_indicator) * 0x40
            + bit_of(item.es_priority_indicator) * 0x20 + bit_of(item.pcr.is_some()) * 0x10
            + bit_of(item.opcr.is_some()) * 0x08 + bit_of(item.splice_countdown.is_some()) * 0x04
            + bit_of(item.transport_private_data.len() > 0) * 0x02 + bit_of(
            item.extension.is_some(),
        )
    }

    /// Writes the flags and the parts of an adaptation field.
    fn serialize_adaptation_body(&self, item: &AdaptationField, output: &mut Vec<u8>)
        requires
            item@.transport_private_data.len() <= 255,
        ensures
            final(output)@ == old(output)@ + adaptation_body_bytes(item@),
    {
        let flags: u8 = Self::adaptation_flags_byte(item);
        output.push(flags);
        self.serialize_adaptation_parts(item, output);
        assert(output@ =~= old(output)@ + adaptation_body_bytes(item@));
    }

    /// Writes an adaptation field that only fills `total` bytes.
    pub fn serialize_stuffing_field(&self, total: usize, output: &mut Vec<u8>)
        requires
            1 <= total <= 256,
        ensures
            final(output)@ == old(output)@ + stuffing_field_bytes(total as int),
    {
        output.push((total - 1) as u8);
        if total > 1 {
            output.push(0);
            put_bytes(output, 0xFF, total - 2);
        }
        assert(output@ =~= old(output)@ + stuffing_field_bytes(total as int));
    }

    /// Reads the clock reference at `at`, where one is present.
    fn read_clock(&self, input: &[u8], at: usize, present: bool) -> (r: Result<
        (Option<Timestamp<Clock<PCR>>>, usize),
        Error,
    >)
        requires
            at <= input@.len(),
        ensures
            match clock_at(input@, at as int, present) {
                Ok((v, next)) => r matches Ok((t, n)) && view_of(t) == v && n == next && n
                    <= input@.len(),
                Err(e) => r == Err::<(Option<Timestamp<Clock<PCR>>>, usize), Error>(e),
            },
    {
        if !present {
            return Ok((None, at));
        }
        match self.parse_pcr(slice_subrange(input, at, input.len())) {
            Ok(t) => Ok((Some(t), at + 6)),
            Err(e) => Err(e),
        }
    }

    /// Reads the splice countdown at `at`, where one is present.
    fn read_countdown(&self, input: &[u8], at: usize, present: bool) -> (r: Result<
        (Option<i8>, usize),
        Error,
    >)
        requires
            at <= input@.len(),
        ensures
            match countdown_at(input@, at as int, present) {
                Ok((v, next)) => r matches Ok((t, n)) && t == v && n == next && n <= input@.len(),
                Err(e) => r == Err::<(Option<i8>, usize), Error>(e),
            },
    {
        if !present {
            return Ok((None, at));
        }
        if at >= input.len() {
            return Err(Error::TsGeneric);
        }
        let b: u8 = input[at];
        let x: i8 = if b < 128 {
            b as i8
        } else {
            (b as i16 - 256) as i8
        };
        Ok((Some(x), at + 1))
    }

    /// Reads the private data at `at`, where they are present.
    fn read_private_data(&self, input: &[u8], at: usize, present: bool) -> (r: Result<
        (Vec<u8>, usize),
        Error,
    >)
        requires
            at <= input@.len(),
        ensures
            match private_data_at(input@, at as int, present) {
                Ok((v, next)) => r matches Ok((t, n)) && t@ == v && n == next && n
                    <= input@.len(),
                Err(e) => r == Err::<(Vec<u8>, usize), Error>(e),
            },
    {
        if !present {
            return Ok((Vec::new(), at));
        }
        if at >= input.len() {
            return Err(Error::TsGeneric);
        }
        let len: usize = input[at] as usize;
        if len > input.len() - at - 1 {
            return Err(Error::TsGeneric);
        }
        Ok((copy_range(input, at + 1, at + 1 + len), at + 1 + len))
    }

    /// Reads the legal time window at `at`, where one is present.
    fn read_legal_time_window(&self, input: &[u8], at: usize, present: bool) -> (r: Result<
        (Option<LegalTimeWindow>, usize),
        Error,
    >)
        requires
            at <= input@.len(),
        ensures
            match legal_time_window_at(input@, at as int, present) {
                Ok((v, next)) => r matches Ok((t, n)) && view_of(t) == v && n == next && n
                    <= input@.len(),
                Err(e) => r == Err::<(Option<LegalTimeWindow>, usize), Error>(e),
            },
    {
        if !present {
            return Ok((None, at));
        }
        match self.parse_legal_time_window(slice_subrange(input, at, input.len())) {
            Ok(t) => Ok((Some(t), at + 2)),
            Err(e) => Err(e),
        }
    }

    /// Reads the piecewise rate at `at`, where one is present.
    fn read_piecewise_rate(&self, input: &[u8], at: usize, present: bool) -> (r: Result<
        (Option<PiecewiseRate>, usize),
        Error,
    >)
        requires
            at <= input@.len(),
        ensures
            match piecewise_rate_at(input@, at as int, present) {
                Ok((v, next)) => r matches Ok((t, n)) && view_of(t) == v && n == next && n
                    <= input@.len(),
                Err(e) => r == Err::<(Option<PiecewiseRate>, usize), Error>(e),
            },
    {
        if !present {
            return Ok((None, at));
        }
        match self.parse_piecewise_rate(slice_subrange(input, at, input.len())) {
            Ok(t) => Ok((Some(t), at + 3)),
            Err(e) => Err(e),
        }
    }

    /// Reads the seamless splice at `at`, where one is present.
    fn read_seamless_splice(&self, input: &[u8], at: usize, present: bool) -> (r: Result<
        (Option<SeamlessSplice>, usize),
        Error,
    >)
        requires
            at <= input@.len(),
        ensures
            match seamless_splice_at(input@, at as int, present) {
                Ok((v, next)) => r matches Ok((t, n)) && view_of(t) == v && n == next && n
                    <= input@.len(),
                Err(e) => r == Err::<(Option<SeamlessSplice>, usize), Error>(e),
            },
    {
        if !present {
            return Ok((None, at));
        }
        match self.parse_seamless_splice(slice_subrange(input, at, input.len())) {
            Ok(t) => Ok((Some(t), at + 5)),
            Err(e) => Err(e),
        }
    }

    /// Reads an adaptation field extension from the bytes behind its length
    /// byte: the flags, then the parts that the flags announce.
    pub fn parse_adaptation_extension(&self, input: &[u8]) -> (r: Result<
        AdaptationExtensionField,
        Error,
    >)
        ensures
            crate::mpegts::reads_as(r, parse_extension_body_spec(input@)),
    {
        if input.len() < 1 {
            return Err(Error::TsGeneric);
        }
        let b: u8 = input[0];
        let (legal_time_window, o1) = match self.read_legal_time_window(
            input,
            1,
            test_bit(b, 0x80),
        ) {
            Ok(x) => x,
            Err(e) => {
                return Err(e);
            },
        };
        let (piecewise_rate, o2) = match self.read_piecewise_rate(input, o1, test_bit(b, 0x40)) {
            Ok(x) => x,
            Err(e) => {
                return Err(e);
            },
        };
        let (seamless_splice, _) = match self.read_seamless_splice(
            input,
            o2,
            test_bit(b, 0x20),
        ) {
            Ok(x) => x,
            Err(e) => {
                return Err(e);
            },
        };
        Ok(AdaptationExtensionField { legal_time_window, piecewise_rate, seamless_splice })
    }

    /// Reads the extension at `at`, where one is present.
    fn read_extension(&self, input: &[u8], at: usize, present: bool) -> (r: Result<
        (Option<AdaptationExtensionField>, usize),
        Error,
    >)
        requires
            at <= input@.len(),
        ensures
            match extension_at(input@, at as int, present) {
                Ok((v, next)) => r matches Ok((t, n)) && view_of(t) == v && n == next && n
                    <= input@.len(),
                Err(e) => r == Err::<(Option<AdaptationExtensionField>, usize), Error>(e),
            },
    {
        if !present {
            return Ok((None, at));
        }
        if at >= input.len() {
            return Err(Error::TsGeneric);
        }
        let len: usize = input[at] as usize;
        if len > input.len() - at - 1 {
            return Err(Error::TsGeneric);
        }
        match self.parse_adaptation_extension(slice_subrange(input, at + 1, at + 1 + len)) {
            Ok(t) => Ok((Some(t), at + 1 + len)),
            Err(e) => Err(e),
        }
    }

    /// Reads an adaptation field from the bytes behind its length byte: the
    /// flags, then the parts that the flags announce. Stuffing behind the
    /// parts is passed over.
    pub fn parse_adaptation_body(&self, input: &[u8]) -> (r: Result<AdaptationField, Error>)
        ensures
            crate::mpegts::reads_as(r, parse_adaptation_body_spec(input@)),
    {
        if input.len() < 1 {
            return Err(Error::TsGeneric);
        }
        let b: u8 = input[0];
        let (pcr, o1) = match self.read_clock(input, 1, test_bit(b, 0x10)) {
            Ok(x) => x,
            Err(e) => {
                return Err(e);
            },
        };
        let (opcr, o2) = match self.read_clock(input, o1, test_bit(b, 0x08)) {
            Ok(x) => x,
            Err(e) => {
                return Err(e);
            },
        };
        let (splice_countdown, o3) = match self.read_countdown(input, o2, test_bit(b, 0x04)) {
            Ok(x) => x,
            Err(e) => {
                return Err(e);
            },
        };
        let (transport_private_data, o4) = match self.read_private_data(
            input,
            o3,
            test_bit(b, 0x02),
        ) {
            Ok(x) => x,
            Err(e) => {
                return Err(e);
            },
        };
        let (extension, _) = match self.read_extension(input, o4, test_bit(b, 0x01)) {
            Ok(x) => x,
            Err(e) => {
                return Err(e);
            },
        };
        Ok(
            AdaptationField {
                discontinuity_indicator: test_bit(b, 0x80),
                random_access_indicator: test_bit(b, 0x40),
                es_priority_indicator: test_bit(b, 0x20),
                pcr,
                opcr,
                splice_countdown,
                transport_private_data,
                extension,
            },
        )
    }

    /// Reads the adaptation field that starts `input`, and tells how many
    /// bytes it takes, its length byte included. A length byte of zero is a
    /// field that holds nothing.
    pub fn parse_adaptation_field(&self, input: &[u8]) -> (r: Result<
        (Option<AdaptationField>, usize),
        Error,
    >)
        ensures
            match parse_adaptation_field_spec(input@) {
                Ok((v, used)) => r matches Ok((a, n)) && view_of(a) == v && n == used && n
                    <= input@.len(),
                Err(e) => r == Err::<(Option<AdaptationField>, usize), Error>(e),
            },
    {
        if input.len() < 1 {
            return Err(Error::TsGeneric);
        }
        let len: usize = input[0] as usize;
        if len == 0 {
            return Ok((None, 1));
        }
        if input.len() < 1 + len {
            return Err(Error::TsGeneric);
        }
        match self.parse_adaptation_body(slice_subrange(input, 1, 1 + len)) {
            Ok(a) => Ok((Some(a), 1 + len)),
            Err(e) => Err(e),
        }
    }
}

} // verus!
