//! Records: one read each, with its primary fields, its raw signal and its
//! auxiliary values.

use vstd::prelude::*;
use vstd::utf8::valid_utf8;
use crate::auxiliary::{AuxValue, AuxValueView, FieldType, TAG_ENUM, TAG_STRING};
use crate::bytes::{
    copy_slice, copy_vec, find_nul, lemma_valid_up_to, nul_free, nul_position, to_cstring,
    utf8_error_position, valid_up_to,
};
use crate::error::{BuilderError, Slow5Error};
use crate::header::{Header, HeaderView};
use crate::table::{Key, Table};
use crate::writer::FileWriter;

verus! {

/// Largest length of a read id: its length is stored in 16 bits.
pub const MAX_READ_ID_LEN: usize = 65535;

/// What a record holds. The calibration constants are 64-bit floats, held as
/// their IEEE 754 bit patterns.
pub struct RecordView {
    /// The read identifier.
    pub read_id: Seq<u8>,
    /// The read group the record belongs to.
    pub read_group: u32,
    /// Number of quantisation levels of the converter.
    pub digitisation: u64,
    /// Offset added to a raw sample when converting to picoamps.
    pub offset: u64,
    /// Full-scale measurement range in picoamps.
    pub range: u64,
    /// Samples per second.
    pub sampling_rate: u64,
    /// The raw signal, one sample after the other.
    pub raw_signal: Seq<i16>,
    /// Names of the auxiliary fields that have a value, in the order in
    /// which they were first set.
    pub aux_names: Seq<Seq<u8>>,
    /// The auxiliary values, in the order of `aux_names`.
    pub aux_values: Seq<AuxValueView>,
}

impl RecordView {
    /// The read id fits its on-disk form and auxiliary names are unique.
    pub open spec fn wf(self) -> bool {
        &&& nul_free(self.read_id)
        &&& self.read_id.len() <= MAX_READ_ID_LEN
        &&& self.aux_names.no_duplicates()
        &&& self.aux_names.len() == self.aux_values.len()
    }

    /// Whether the record has a value for the auxiliary field `name`.
    pub open spec fn has_aux(self, name: Seq<u8>) -> bool {
        self.aux_names.contains(name)
    }

    /// The value of the auxiliary field `name`.
    pub open spec fn aux_value(self, name: Seq<u8>) -> AuxValueView {
        self.aux_values[self.aux_names.index_of(name)]
    }

    /// What reading the auxiliary field `name` as a value of the type with
    /// tag `want` gives: the stored value, or the reason why there is none.
    /// A name with a NUL byte is no field name; a field without a value is
    /// not found; a value of another type is a mismatch, never converted; a
    /// string must be UTF-8.
    pub open spec fn aux_get(self, name: Seq<u8>, want: u32) -> Result<AuxValueView, Slow5Error> {
        if !nul_free(name) {
            Err(Slow5Error::InteriorNul(nul_position(name) as usize))
        } else if !self.has_aux(name) {
            Err(Slow5Error::AuxLoadFailure)
        } else if self.aux_value(name).tag != want {
            Err(Slow5Error::AuxTypeMismatch)
        } else if want == TAG_STRING && !valid_utf8(self.aux_value(name).bytes()) {
            Err(Slow5Error::Utf8Error(valid_up_to(self.aux_value(name).bytes()) as usize))
        } else {
            Ok(self.aux_value(name))
        }
    }

    /// Why `value` cannot be stored under `name` in a record of a file with
    /// the given header, or `None` if it can. An enum index must fit 8 bits;
    /// neither the name nor a string value may hold a NUL byte; the field
    /// must be in the schema, with the type of the value; an enum index must
    /// name one of the field's labels.
    pub open spec fn aux_set_refusal(header: HeaderView, name: Seq<u8>, value: AuxValueView) -> Option<
        Slow5Error,
    > {
        if value.tag == TAG_ENUM && value.scalar > u8::MAX {
            Some(Slow5Error::EnumOutOfRange)
        } else if !nul_free(name) {
            Some(Slow5Error::InteriorNul(nul_position(name) as usize))
        } else if value.tag == TAG_STRING && !nul_free(value.bytes()) {
            Some(Slow5Error::InteriorNul(nul_position(value.bytes()) as usize))
        } else if !header.has_aux(name) {
            Some(Slow5Error::MissingAttribute)
        } else if header.aux_type(name).tag != value.tag {
            Some(Slow5Error::AuxTypeMismatch)
        } else if value.tag == TAG_ENUM && value.scalar >= header.aux_type(name).labels.len() {
            Some(Slow5Error::EnumOutOfRange)
        } else {
            None
        }
    }

    /// The record with `value` for the auxiliary field `name`: a value
    /// already there is replaced.
    pub open spec fn with_aux(self, name: Seq<u8>, value: AuxValueView) -> RecordView {
        if self.has_aux(name) {
            RecordView { aux_values: self.aux_values.update(self.aux_names.index_of(name), value), ..self }
        } else {
            RecordView {
                aux_names: self.aux_names.push(name),
                aux_values: self.aux_values.push(value),
                ..self
            }
        }
    }
}

/// Represents a SLOW5 record.
#[derive(Debug)]
pub struct Record {
    read_id: Vec<u8>,
    read_group: u32,
    digitisation: u64,
    offset: u64,
    range: u64,
    sampling_rate: u64,
    raw_signal: Vec<i16>,
    aux: Table<Vec<u8>, AuxValue>,
}

impl View for Record {
    type V = RecordView;

    closed spec fn view(&self) -> RecordView {
        RecordView {
            read_id: self.read_id@,
            read_group: self.read_group,
            digitisation: self.digitisation,
            offset: self.offset,
            range: self.range,
            sampling_rate: self.sampling_rate,
            raw_signal: self.raw_signal@,
            aux_names: self.aux.keys(),
            aux_values: self.aux.vals().map_values(|v: AuxValue| v@),
        }
    }
}

/// What a record builder holds: each field that was supplied.
pub struct RecordBuilderView {
    /// The read id, if set.
    pub read_id: Option<Seq<u8>>,
    /// The read group, if set.
    pub read_group: Option<u32>,
    /// The digitisation, if set.
    pub digitisation: Option<u64>,
    /// The offset, if set.
    pub offset: Option<u64>,
    /// The range, if set.
    pub range: Option<u64>,
    /// The sampling rate, if set.
    pub sampling_rate: Option<u64>,
    /// The raw signal, if set.
    pub raw_signal: Option<Seq<i16>>,
}

impl RecordBuilderView {
    /// Whether every required field was supplied.
    pub open spec fn complete(self) -> bool {
        &&& self.read_id.is_some()
        &&& self.read_group.is_some()
        &&& self.digitisation.is_some()
        &&& self.offset.is_some()
        &&& self.range.is_some()
        &&& self.sampling_rate.is_some()
        &&& self.raw_signal.is_some()
    }

    /// Name of the first required field that was not supplied, in the order
    /// read id, read group, digitisation, offset, range, sampling rate, raw
    /// signal. Meaningful when the builder is not complete.
    pub open spec fn first_unset(self) -> Seq<char> {
        if self.read_id.is_none() {
            "read_id"@
        } else if self.read_group.is_none() {
            "read_group"@
        } else if self.digitisation.is_none() {
            "digitisation"@
        } else if self.offset.is_none() {
            "offset"@
        } else if self.range.is_none() {
            "range"@
        } else if self.sampling_rate.is_none() {
            "sampling_rate"@
        } else {
            "raw_signal"@
        }
    }

    /// The record that a complete builder describes: its fields and no
    /// auxiliary values.
    pub open spec fn record(self) -> RecordView {
        RecordView {
            read_id: self.read_id.unwrap(),
            read_group: self.read_group.unwrap(),
            digitisation: self.digitisation.unwrap(),
            offset: self.offset.unwrap(),
            range: self.range.unwrap(),
            sampling_rate: self.sampling_rate.unwrap(),
            raw_signal: self.raw_signal.unwrap(),
            aux_names: Seq::empty(),
            aux_values: Seq::empty(),
        }
    }
}

/// Builder to create a Record, call methods to set parameters and build to
/// convert into a [`Record`].
#[derive(Debug)]
pub struct RecordBuilder {
    read_id: Option<Vec<u8>>,
    read_group: Option<u32>,
    digitisation: Option<u64>,
    offset: Option<u64>,
    range: Option<u64>,
    sampling_rate: Option<u64>,
    raw_signal: Option<Vec<i16>>,
}

impl View for RecordBuilder {
    type V = RecordBuilderView;

    closed spec fn view(&self) -> RecordBuilderView {
        RecordBuilderView {
            read_id: match self.read_id {
                Some(id) => Some(id@),
                None => None,
            },
            read_group: self.read_group,
            digitisation: self.digitisation,
            offset: self.offset,
            range: self.range,
            sampling_rate: self.sampling_rate,
            raw_signal: match self.raw_signal {
                Some(signal) => Some(signal@),
                None => None,
            },
        }
    }
}

impl Default for RecordBuilder {
    fn default() -> (builder: Self)
        ensures
            builder@ == (RecordBuilderView {
                read_id: None,
                read_group: None,
                digitisation: None,
                offset: None,
                range: None,
                sampling_rate: None,
                raw_signal: None,
            }),
    {
        RecordBuilder {
            read_id: None,
            read_group: None,
            digitisation: None,
            offset: None,
            range: None,
            sampling_rate: None,
            raw_signal: None,
        }
    }
}

impl RecordBuilder {
    /// Set the read id of the Record
    pub fn read_id(&mut self, read_id: &[u8]) -> (ret: &mut Self)
        ensures
            ret@ == (RecordBuilderView { read_id: Some(read_id@), ..old(self)@ }),
            *final(self) == *final(ret),
    {
        self.read_id = Some(copy_slice(read_id));
        self
    }

    /// Set the read group of the Record
    pub fn read_group(&mut self, read_group: u32) -> (ret: &mut Self)
        ensures
            ret@ == (RecordBuilderView { read_group: Some(read_group), ..old(self)@ }),
            *final(self) == *final(ret),
    {
        self.read_group = Some(read_group);
        self
    }

    /// Set the digitisation of the Record, as the bit pattern of a 64-bit
    /// float
    pub fn digitisation(&mut self, digitisation: u64) -> (ret: &mut Self)
        ensures
            ret@ == (RecordBuilderView { digitisation: Some(digitisation), ..old(self)@ }),
            *final(self) == *final(ret),
    {
        self.digitisation = Some(digitisation);
        self
    }

    /// Set the offset of the Record, as the bit pattern of a 64-bit float
    pub fn offset(&mut self, offset: u64) -> (ret: &mut Self)
        ensures
            ret@ == (RecordBuilderView { offset: Some(offset), ..old(self)@ }),
            *final(self) == *final(ret),
    {
        self.offset = Some(offset);
        self
    }

    /// Set the range of the Record, as the bit pattern of a 64-bit float
    pub fn range(&mut self, range: u64) -> (ret: &mut Self)
        ensures
            ret@ == (RecordBuilderView { range: Some(range), ..old(self)@ }),
            *final(self) == *final(ret),
    {
        self.range = Some(range);
        self
    }

    /// Set the sampling rate of the Record, as the bit pattern of a 64-bit
    /// float
    pub fn sampling_rate(&mut self, sampling_rate: u64) -> (ret: &mut Self)
        ensures
            ret@ == (RecordBuilderView { sampling_rate: Some(sampling_rate), ..old(self)@ }),
            *final(self) == *final(ret),
    {
        self.sampling_rate = Some(sampling_rate);
        self
    }

    /// Set the signal of the Record using raw values
    pub fn raw_signal(&mut self, raw_signal: &[i16]) -> (ret: &mut Self)
        ensures
            ret@ == (RecordBuilderView { raw_signal: Some(raw_signal@), ..old(self)@ }),
            *final(self) == *final(ret),
    {
        let signal = copy_slice(raw_signal);
        self.raw_signal = Some(signal);
        self
    }

    /// Convert into a Record.
    ///
    /// # Errors
    /// Builder will fail if
    /// A) a required field was never set: the error names the first such
    ///    field
    /// B) Read ID contains an interior NUL character
    /// C) Length of Read ID is greater than u16::MAX
    pub fn build(&self) -> (res: Result<Record, BuilderError>)
        ensures
            !self@.complete() ==> (res matches Err(BuilderError::RequiredValueUnset(field)) && field@
                == self@.first_unset()),
            self@.complete() && !nul_free(self@.read_id.unwrap()) ==> res == Err::<Record, BuilderError>(
                BuilderError::ReadIDError,
            ),
            self@.complete() && nul_free(self@.read_id.unwrap()) && self@.read_id.unwrap().len()
                > MAX_READ_ID_LEN ==> res == Err::<Record, BuilderError>(BuilderError::ConversionError),
            self@.complete() && nul_free(self@.read_id.unwrap()) && self@.read_id.unwrap().len()
                <= MAX_READ_ID_LEN ==> res.is_ok() && res.unwrap().wf() && res.unwrap()@
                == self@.record(),
    {
        let read_id = match &self.read_id {
            Some(v) => v,
            None => {
                return Err(BuilderError::RequiredValueUnset("read_id"));
            },
        };
        let read_group = match self.read_group {
            Some(v) => v,
            None => {
                return Err(BuilderError::RequiredValueUnset("read_group"));
            },
        };
        let digitisation = match self.digitisation {
            Some(v) => v,
            None => {
                return Err(BuilderError::RequiredValueUnset("digitisation"));
            },
        };
        let offset = match self.offset {
            Some(v) => v,
            None => {
                return Err(BuilderError::RequiredValueUnset("offset"));
            },
        };
        let range = match self.range {
            Some(v) => v,
            None => {
                return Err(BuilderError::RequiredValueUnset("range"));
            },
        };
        let sampling_rate = match self.sampling_rate {
            Some(v) => v,
            None => {
                return Err(BuilderError::RequiredValueUnset("sampling_rate"));
            },
        };
        let raw_signal = match &self.raw_signal {
            Some(v) => v,
            None => {
                return Err(BuilderError::RequiredValueUnset("raw_signal"));
            },
        };
        if find_nul(read_id.as_slice()).is_some() {
            return Err(BuilderError::ReadIDError);
        }
        if read_id.len() > MAX_READ_ID_LEN {
            return Err(BuilderError::ConversionError);
        }
        let record = Record {
            read_id: copy_vec(read_id),
            read_group,
            digitisation,
            offset,
            range,
            sampling_rate,
            raw_signal: copy_vec(raw_signal),
            aux: Table::new(),
        };
        assert(record@.aux_values =~= Seq::empty());
        Ok(record)
    }
}

impl Record {
    /// The auxiliary table is in order.
    pub closed spec fn inv(&self) -> bool {
        self.aux.wf()
    }

    /// The record is well formed.
    pub open spec fn wf(&self) -> bool {
        self.inv() && self@.wf()
    }

    /// Initialize builder to make new Record
    pub fn builder() -> (builder: RecordBuilder)
        ensures
            !builder@.complete(),
            builder@.first_unset() == "read_id"@,
            builder@.read_id.is_none() && builder@.read_group.is_none() && builder@.digitisation.is_none()
                && builder@.offset.is_none() && builder@.range.is_none() && builder@.sampling_rate.is_none()
                && builder@.raw_signal.is_none(),
    {
        RecordBuilder::default()
    }

    /// A unique identifier for the read.
    pub fn read_id(&self) -> (read_id: &[u8])
        ensures
            read_id@ == self@.read_id,
    {
        self.read_id.as_slice()
    }

    /// The number of quantisation levels in the Analog to Digital Converter,
    /// as the bit pattern of a 64-bit float.
    pub fn digitisation(&self) -> (bits: u64)
        ensures
            bits == self@.digitisation,
    {
        self.digitisation
    }

    /// The ADC offset error, as the bit pattern of a 64-bit float. This value
    /// is added when converting the signal to pico ampere.
    pub fn offset(&self) -> (bits: u64)
        ensures
            bits == self@.offset,
    {
        self.offset
    }

    /// The full scale measurement range in pico amperes, as the bit pattern
    /// of a 64-bit float.
    pub fn range(&self) -> (bits: u64)
        ensures
            bits == self@.range,
    {
        self.range
    }

    /// Group of the read.
    pub fn read_group(&self) -> (group: u32)
        ensures
            group == self@.read_group,
    {
        self.read_group
    }

    /// Number of signal measurements
    pub fn len_signal(&self) -> (len: u64)
        ensures
            len == self@.raw_signal.len(),
    {
        self.raw_signal.len() as u64
    }

    /// Sampling frequency of the ADC, i.e., the number of data points
    /// collected per second (in Hertz), as the bit pattern of a 64-bit float.
    pub fn sampling_rate(&self) -> (bits: u64)
        ensures
            bits == self@.sampling_rate,
    {
        self.sampling_rate
    }

    /// Return iterator over raw signal measurements
    pub fn raw_signal_iter(&self) -> (iter: RawSignalIter<'_>)
        ensures
            iter.rest() == self@.raw_signal,
    {
        let iter = RawSignalIter { i: 0, read: self };
        assert(iter.rest() =~= self@.raw_signal);
        iter
    }

    /// Get data for an auxiliary field of a record, as a value of the type
    /// `want`.
    ///
    /// # Errors
    /// Returns an Err if auxiliary field wasn't set for that record, or if its
    /// value has another type than `want`.
    pub fn get_aux_field(&self, name: &[u8], want: &FieldType) -> (res: Result<&AuxValue, Slow5Error>)
        requires
            self.wf(),
        ensures
            res matches Ok(value) ==> self@.aux_get(name@, want.tag()) == Ok::<AuxValueView, Slow5Error>(
                value@,
            ),
            res matches Err(e) ==> self@.aux_get(name@, want.tag()) == Err::<AuxValueView, Slow5Error>(e),
    {
        match to_cstring(name) {
            Err(e) => {
                return Err(e);
            },
            Ok(_) => {},
        }
        let key = copy_slice(name);
        let i = match self.aux.position(&key) {
            None => {
                return Err(Slow5Error::AuxLoadFailure);
            },
            Some(i) => i,
        };
        let value = self.aux.val_at(i);
        if value.to_slow5_t().0 != want.to_slow5_t().0 {
            return Err(Slow5Error::AuxTypeMismatch);
        }
        if let AuxValue::Str(text) = value {
            proof {
                value.lemma_text();
            }
            match utf8_error_position(text.as_slice()) {
                Some(n) => {
                    proof {
                        lemma_valid_up_to(text@, n as int);
                    }
                    return Err(Slow5Error::Utf8Error(n));
                },
                None => {},
            }
        }
        Ok(value)
    }

    /// Set the value for an auxiliary field of a record. Not all auxiliary
    /// fields need to be set, however, calling [`Record::get_aux_field`] will
    /// return an Err if its called on an unset auxiliary field. The value is
    /// checked against the header of the file that `writer` writes.
    pub fn set_aux_field(&mut self, writer: &FileWriter, field_name: &[u8], value: AuxValue) -> (res: Result<
        (),
        Slow5Error,
    >)
        requires
            old(self).wf(),
            writer.wf(),
        ensures
            final(self).wf(),
            RecordView::aux_set_refusal(writer@.image.header, field_name@, value@) matches Some(e) ==> res
                == Err::<(), Slow5Error>(e) && final(self)@ == old(self)@,
            RecordView::aux_set_refusal(writer@.image.header, field_name@, value@).is_none() ==> res.is_ok()
                && final(self)@ == old(self)@.with_aux(field_name@, value@),
    {
        self.aux_set(writer.header(), field_name, value)
    }

    /// Number of auxiliary fields that have a value.
    pub fn aux_len(&self) -> (n: usize)
        requires
            self.wf(),
        ensures
            n == self@.aux_names.len(),
    {
        self.aux.len()
    }

    /// Name of the `i`-th auxiliary field that has a value.
    pub fn aux_name_at(&self, i: usize) -> (name: &[u8])
        requires
            self.wf(),
            i < self@.aux_names.len(),
        ensures
            name@ == self@.aux_names[i as int],
    {
        self.aux.key_at(i).as_slice()
    }

    /// Value of the `i`-th auxiliary field that has a value.
    pub fn aux_value_at(&self, i: usize) -> (value: &AuxValue)
        requires
            self.wf(),
            i < self@.aux_names.len(),
        ensures
            value@ == self@.aux_values[i as int],
    {
        proof {
            self.aux.lemma_wf();
        }
        self.aux.val_at(i)
    }

    /// Sets the value of an auxiliary field of the record, checked against
    /// the schema of `header`. A value already there is replaced; a refused
    /// value leaves the record as it was.
    pub fn aux_set(&mut self, header: &Header, field: &[u8], value: AuxValue) -> (res: Result<
        (),
        Slow5Error,
    >)
        requires
            old(self).wf(),
            header.wf(),
        ensures
            final(self).wf(),
            RecordView::aux_set_refusal(header@, field@, value@) matches Some(e) ==> res == Err::<
                (),
                Slow5Error,
            >(e) && final(self)@ == old(self)@,
            RecordView::aux_set_refusal(header@, field@, value@).is_none() ==> res.is_ok() && final(self)@
                == old(self)@.with_aux(field@, value@),
    {
        if let AuxValue::Enum(index) = &value {
            if index.0 > u8::MAX as usize {
                return Err(Slow5Error::EnumOutOfRange);
            }
        }
        match to_cstring(field) {
            Err(e) => {
                return Err(e);
            },
            Ok(_) => {},
        }
        if let AuxValue::Str(text) = &value {
            proof {
                value.lemma_text();
            }
            match to_cstring(text.as_slice()) {
                Err(e) => {
                    return Err(e);
                },
                Ok(_) => {},
            }
        }
        let field_type = match header.aux_field_type(field) {
            None => {
                return Err(Slow5Error::MissingAttribute);
            },
            Some(t) => t,
        };
        if field_type.to_slow5_t().0 != value.to_slow5_t().0 {
            return Err(Slow5Error::AuxTypeMismatch);
        }
        if let AuxValue::Enum(index) = &value {
            if index.0 >= field_type.label_count() {
                return Err(Slow5Error::EnumOutOfRange);
            }
        }
        let ghost before = self.aux;
        proof {
            before.lemma_wf();
        }
        self.aux.insert(copy_slice(field), value);
        proof {
            self.aux.lemma_wf();
            if before.contains(field@) {
                assert(self@.aux_values =~= old(self)@.aux_values.update(before.index(field@), value@));
            } else {
                assert(self@.aux_values =~= old(self)@.aux_values.push(value@));
            }
            assert(self@ == old(self)@.with_aux(field@, value@));
        }
        Ok(())
    }
}

impl Clone for Record {
    fn clone(&self) -> (copy: Self)
        ensures
            self.wf() ==> copy.wf() && copy@ == self@,
    {
        let mut aux: Table<Vec<u8>, AuxValue> = Table::new();
        let n = if self.aux.is_balanced() {
            self.aux.len()
        } else {
            0
        };
        let mut i: usize = 0;
        while i < n
            invariant
                i <= n,
                n <= self.aux.keys().len(),
                n <= self.aux.vals().len(),
                self.inv() ==> n == self.aux.keys().len(),
                aux.wf(),
                self.inv() ==> aux.keys().len() == i && aux.vals().len() == i,
                self.inv() ==> forall|k: int| 0 <= k < i ==> aux.keys()[k] == self.aux.keys()[k],
                self.inv() ==> forall|k: int| 0 <= k < i ==> aux.vals()[k]@ == self.aux.vals()[k]@,
            decreases n - i,
        {
            let key = self.aux.key_at(i).dup();
            let value = self.aux.val_at(i).clone();
            proof {
                aux.lemma_wf();
                if self.inv() {
                    self.aux.lemma_wf();
                    if aux.contains(key@) {
                        let j = aux.index(key@);
                        assert(self.aux.keys()[j] == self.aux.keys()[i as int]);
                    }
                }
            }
            aux.insert(key, value);
            i += 1;
        }
        let copy = Record {
            read_id: copy_vec(&self.read_id),
            read_group: self.read_group,
            digitisation: self.digitisation,
            offset: self.offset,
            range: self.range,
            sampling_rate: self.sampling_rate,
            raw_signal: copy_vec(&self.raw_signal),
            aux,
        };
        proof {
            if self.wf() {
                self.aux.lemma_wf();
                assert(copy@.aux_names =~= self@.aux_names);
                assert(copy@.aux_values =~= self@.aux_values);
            }
        }
        copy
    }
}

/// Iterator over the raw signal of a Record.
///
/// This struct is generally created by calling [`Record::raw_signal_iter`].
#[derive(Debug)]
pub struct RawSignalIter<'a> {
    i: usize,
    read: &'a Record,
}

impl<'a> RawSignalIter<'a> {
    /// The samples not yet handed out, in order.
    pub closed spec fn rest(&self) -> Seq<i16> {
        if self.i <= self.read.raw_signal@.len() {
            self.read.raw_signal@.subrange(self.i as int, self.read.raw_signal@.len() as int)
        } else {
            Seq::empty()
        }
    }

    /// The next sample, or `None` after the last.
    pub fn next(&mut self) -> (sample: Option<i16>)
        ensures
            old(self).rest().len() == 0 ==> sample.is_none() && final(self).rest() == old(self).rest(),
            old(self).rest().len() > 0 ==> sample == Some(old(self).rest()[0]) && final(self).rest() == old(
                self,
            ).rest().drop_first(),
    {
        if self.i < self.read.raw_signal.len() {
            let sample = self.read.raw_signal[self.i];
            self.i += 1;
            assert(self.rest() =~= old(self).rest().drop_first());
            Some(sample)
        } else {
            None
        }
    }
}

} // verus!
