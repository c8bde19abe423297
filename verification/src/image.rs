//! The contents of a file: its header, its compression and its records in
//! file order.

use vstd::prelude::*;
use crate::auxiliary::{AuxValue, AuxValueView, TAG_ENUM};
use crate::bytes::{byte_seqs, bytes_eq, copy_slice};
use crate::engine::READ_END;
use crate::error::Slow5Error;
use crate::compression::{RecordCompression, SignalCompression};
use crate::header::{Header, HeaderView};
use crate::record::{Record, RecordView};

verus! {

/// One position of a file.
#[derive(Debug)]
pub enum Slot {
    /// A record that can be read.
    Stored(Record),
    /// A place where reading fails; holds the return code that the engine
    /// gives there.
    Damaged(i32),
}

/// What a position of a file holds.
pub enum SlotView {
    /// A record that can be read.
    Stored(RecordView),
    /// A place where reading fails, with the engine's return code.
    Damaged(i32),
}

impl View for Slot {
    type V = SlotView;

    open spec fn view(&self) -> SlotView {
        match self {
            Slot::Stored(record) => SlotView::Stored(record@),
            Slot::Damaged(code) => SlotView::Damaged(*code),
        }
    }
}

/// Whether `value` can be the value of field `name` under a header: the
/// schema has the field with the type of the value, and an enum index names
/// one of its labels.
pub open spec fn fits_schema(header: HeaderView, name: Seq<u8>, value: AuxValueView) -> bool {
    &&& header.has_aux(name)
    &&& header.aux_type(name).tag == value.tag
    &&& value.tag == TAG_ENUM ==> value.scalar < header.aux_type(name).labels.len()
}

/// Whether a record can be stored in a file with the given header: its read
/// group exists and each of its auxiliary values fits the schema.
pub open spec fn conforms(record: RecordView, header: HeaderView) -> bool {
    &&& record.read_group < header.read_groups
    &&& forall|i: int|
        0 <= i < record.aux_names.len() ==> fits_schema(
            header,
            #[trigger] record.aux_names[i],
            record.aux_values[i],
        )
}

/// Tells whether a record can be stored in a file with the given header.
pub fn record_conforms(record: &Record, header: &Header) -> (ok: bool)
    requires
        record.wf(),
        header.wf(),
    ensures
        ok == conforms(record@, header@),
{
    if record.read_group() as u64 >= header.num_read_groups() {
        return false;
    }
    let n = record.aux_len();
    let mut i: usize = 0;
    while i < n
        invariant
            record.wf(),
            header.wf(),
            n == record@.aux_names.len(),
            i <= n,
            forall|k: int|
                0 <= k < i ==> fits_schema(header@, #[trigger] record@.aux_names[k], record@.aux_values[k]),
        decreases n - i,
    {
        let name = record.aux_name_at(i);
        let value = record.aux_value_at(i);
        let fits = match header.aux_field_type(name) {
            None => false,
            Some(field_type) => {
                field_type.to_slow5_t().0 == value.to_slow5_t().0 && (match value {
                    AuxValue::Enum(index) => index.0 < field_type.label_count(),
                    _ => true,
                })
            },
        };
        if !fits {
            assert(!fits_schema(header@, record@.aux_names[i as int], record@.aux_values[i as int]));
            return false;
        }
        i += 1;
    }
    true
}

/// The read ids of the records among the positions of a file, in file order.
pub open spec fn stored_ids(slots: Seq<SlotView>) -> Seq<Seq<u8>>
    decreases slots.len(),
{
    if slots.len() == 0 {
        Seq::empty()
    } else {
        match slots.last() {
            SlotView::Stored(record) => stored_ids(slots.drop_last()).push(record.read_id),
            SlotView::Damaged(_) => stored_ids(slots.drop_last()),
        }
    }
}

/// What a file holds.
pub struct FileImageView {
    /// The header.
    pub header: HeaderView,
    /// How records are compressed.
    pub rec_comp: RecordCompression,
    /// How signals are compressed.
    pub sig_comp: SignalCompression,
    /// The positions of the file, in file order.
    pub slots: Seq<SlotView>,
}

impl FileImageView {
    /// Whether position `i` holds a record with read id `id`.
    pub open spec fn holds(self, i: int, id: Seq<u8>) -> bool {
        &&& 0 <= i < self.slots.len()
        &&& self.slots[i] matches SlotView::Stored(record)
        &&& record.read_id == id
    }

    /// Whether the file has a record with read id `id`.
    pub open spec fn has_record(self, id: Seq<u8>) -> bool {
        exists|i: int| self.holds(i, id)
    }

    /// The position of the record with read id `id`.
    pub open spec fn position(self, id: Seq<u8>) -> int {
        choose|i: int| self.holds(i, id)
    }

    /// The record with read id `id`.
    pub open spec fn record(self, id: Seq<u8>) -> RecordView {
        self.slots[self.position(id)]->Stored_0
    }

    /// The file with `record` after its last position.
    pub open spec fn with_record(self, record: RecordView) -> FileImageView {
        FileImageView { slots: self.slots.push(SlotView::Stored(record)), ..self }
    }

    /// Every record is well formed and conforms to the header, every damaged
    /// place holds a failure code, and no read id occurs twice.
    pub open spec fn wf(self) -> bool {
        &&& self.header.wf()
        &&& forall|i: int|
            0 <= i < self.slots.len() ==> ((#[trigger] self.slots[i]) matches SlotView::Stored(record)
                ==> record.wf() && conforms(record, self.header))
        &&& forall|i: int|
            0 <= i < self.slots.len() ==> ((#[trigger] self.slots[i]) matches SlotView::Damaged(code)
                ==> code < READ_END)
        &&& forall|i: int, j: int, id: Seq<u8>|
            #![trigger self.holds(i, id), self.holds(j, id)]
            self.holds(i, id) && self.holds(j, id) ==> i == j
    }
}

/// The contents of a file.
#[derive(Debug)]
pub struct FileImage {
    header: Header,
    rec_comp: RecordCompression,
    sig_comp: SignalCompression,
    slots: Vec<Slot>,
    ids: Vec<Vec<u8>>,
}

impl View for FileImage {
    type V = FileImageView;

    closed spec fn view(&self) -> FileImageView {
        FileImageView {
            header: self.header@,
            rec_comp: self.rec_comp,
            sig_comp: self.sig_comp,
            slots: self.slots@.map_values(|slot: Slot| slot@),
        }
    }
}

impl FileImage {
    /// The parts of the image are in order.
    pub closed spec fn inv(&self) -> bool {
        &&& self.header.inv()
        &&& forall|i: int|
            0 <= i < self.slots@.len() ==> ((#[trigger] self.slots@[i]) matches Slot::Stored(record)
                ==> record.inv())
        &&& byte_seqs(self.ids@) == stored_ids(self@.slots)
    }

    /// The image is well formed.
    pub open spec fn wf(&self) -> bool {
        self.inv() && self@.wf()
    }

    /// A file with the given header and compression, and no records yet.
    pub fn new(header: Header, rec_comp: RecordCompression, sig_comp: SignalCompression) -> (image: Self)
        requires
            header.wf(),
        ensures
            image.wf(),
            image@ == (FileImageView { header: header@, rec_comp, sig_comp, slots: Seq::empty() }),
    {
        let image = FileImage { header, rec_comp, sig_comp, slots: Vec::new(), ids: Vec::new() };
        assert(image@.slots =~= Seq::empty());
        assert(byte_seqs(image.ids@) =~= Seq::empty());
        image
    }

    /// The header of the file.
    pub fn header(&self) -> (header: &Header)
        ensures
            header@ == self@.header,
            self.wf() ==> header.wf(),
    {
        &self.header
    }

    /// How the records of the file are compressed.
    pub fn record_compression(&self) -> (method: RecordCompression)
        ensures
            method == self@.rec_comp,
    {
        self.rec_comp
    }

    /// How the signals of the file are compressed.
    pub fn signal_compression(&self) -> (method: SignalCompression)
        ensures
            method == self@.sig_comp,
    {
        self.sig_comp
    }

    /// Number of positions of the file.
    pub fn len(&self) -> (n: usize)
        ensures
            n == self@.slots.len(),
    {
        self.slots.len()
    }

    /// The position `i` of the file.
    pub fn slot(&self, i: usize) -> (slot: &Slot)
        requires
            i < self@.slots.len(),
        ensures
            slot@ == self@.slots[i as int],
            self.wf() ==> (slot matches Slot::Stored(record) ==> record.wf()),
    {
        &self.slots[i]
    }

    /// Tells whether a record can be stored in the file, without storing it.
    /// It cannot with `DuplicateReadId` if the file already has a record with
    /// that read id, and with `NullArgument` if the record does not conform to
    /// the header.
    pub fn check_record(&self, record: &Record) -> (res: Result<(), Slow5Error>)
        requires
            self.wf(),
            record.wf(),
        ensures
            self@.has_record(record@.read_id) ==> (res matches Err(Slow5Error::DuplicateReadId(id)) && id@
                == record@.read_id),
            !self@.has_record(record@.read_id) && !conforms(record@, self@.header) ==> res == Err::<
                (),
                Slow5Error,
            >(Slow5Error::NullArgument),
            !self@.has_record(record@.read_id) && conforms(record@, self@.header) ==> res.is_ok(),
    {
        if self.find(record.read_id()).is_some() {
            return Err(Slow5Error::DuplicateReadId(copy_slice(record.read_id())));
        }
        if !record_conforms(record, &self.header) {
            return Err(Slow5Error::NullArgument);
        }
        Ok(())
    }

    /// Stores a record after the last position of the file. Fails with
    /// `DuplicateReadId` if the file already has a record with that read
    /// id, and with `NullArgument` if the record does not conform to the
    /// header; a refused record leaves the file as it was.
    pub fn add_record(&mut self, record: Record) -> (res: Result<(), Slow5Error>)
        requires
            old(self).wf(),
            record.wf(),
        ensures
            final(self).wf(),
            old(self)@.has_record(record@.read_id) ==> (res matches Err(Slow5Error::DuplicateReadId(id))
                && id@ == record@.read_id) && final(self)@ == old(self)@,
            !old(self)@.has_record(record@.read_id) && !conforms(record@, old(self)@.header) ==> res == Err::<
                (),
                Slow5Error,
            >(Slow5Error::NullArgument) && final(self)@ == old(self)@,
            !old(self)@.has_record(record@.read_id) && conforms(record@, old(self)@.header) ==> res.is_ok()
                && final(self)@ == old(self)@.with_record(record@),
    {
        match self.check_record(&record) {
            Err(e) => {
                return Err(e);
            },
            Ok(_) => {},
        }
        let ghost added = record@;
        self.ids.push(copy_slice(record.read_id()));
        self.slots.push(Slot::Stored(record));
        proof {
            assert(self@.slots =~= old(self)@.slots.push(SlotView::Stored(added)));
            assert(self@.slots.drop_last() =~= old(self)@.slots);
            assert(byte_seqs(self.ids@) =~= byte_seqs(old(self).ids@).push(added.read_id));
            let n = old(self)@.slots.len() as int;
            assert forall|i: int, j: int, id: Seq<u8>|
                #![trigger self@.holds(i, id), self@.holds(j, id)]
                self@.holds(i, id) && self@.holds(j, id) implies i == j by {
                if i < n && j < n {
                    assert(old(self)@.holds(i, id) && old(self)@.holds(j, id));
                } else if i < n {
                    assert(old(self)@.holds(i, id));
                } else if j < n {
                    assert(old(self)@.holds(j, id));
                }
            }
        }
        Ok(())
    }

    /// Marks the place after the last position of the file as one where
    /// reading fails with the given code.
    pub fn add_damaged(&mut self, code: i32)
        requires
            old(self).wf(),
            code < READ_END,
        ensures
            final(self).wf(),
            final(self)@ == (FileImageView {
                slots: old(self)@.slots.push(SlotView::Damaged(code)),
                ..old(self)@
            }),
    {
        self.slots.push(Slot::Damaged(code));
        proof {
            assert(self@.slots =~= old(self)@.slots.push(SlotView::Damaged(code)));
            assert(self@.slots.drop_last() =~= old(self)@.slots);
            let n = old(self)@.slots.len() as int;
            assert forall|i: int, j: int, id: Seq<u8>|
                #![trigger self@.holds(i, id), self@.holds(j, id)]
                self@.holds(i, id) && self@.holds(j, id) implies i == j by {
                assert(old(self)@.holds(i, id) && old(self)@.holds(j, id));
            }
        }
    }

    /// The read ids of the records of the file, in file order.
    pub fn read_ids(&self) -> (ids: &Vec<Vec<u8>>)
        requires
            self.wf(),
        ensures
            byte_seqs(ids@) == stored_ids(self@.slots),
    {
        &self.ids
    }

    /// Position of the record with read id `id`, if the file has it.
    pub fn find(&self, id: &[u8]) -> (pos: Option<usize>)
        requires
            self.wf(),
        ensures
            pos.is_some() <==> self@.has_record(id@),
            pos matches Some(i) ==> self@.holds(i as int, id@) && self@.position(id@) == i,
    {
        let mut i: usize = 0;
        while i < self.slots.len()
            invariant
                self.wf(),
                i <= self.slots@.len(),
                forall|k: int| 0 <= k < i ==> !self@.holds(k, id@),
            decreases self.slots@.len() - i,
        {
            if let Slot::Stored(record) = &self.slots[i] {
                if bytes_eq(record.read_id(), id) {
                    assert(self@.slots[i as int] == self.slots@[i as int]@);
                    assert(self@.holds(i as int, id@));
                    assert(self@.holds(self@.position(id@), id@));
                    return Some(i);
                }
            }
            assert(!self@.holds(i as int, id@)) by {
                assert(self@.slots[i as int] == self.slots@[i as int]@);
            }
            i += 1;
        }
        None
    }
}

} // verus!
