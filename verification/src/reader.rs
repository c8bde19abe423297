//! Reading SLOW5 and BLOW5 files: random access by read id, sequential
//! iteration over records, and the lists a file offers.

use vstd::prelude::*;
use crate::auxiliary::FieldType;
use crate::bytes::{copy_slice, nul_free, nul_position, to_cstring, NameWalk};
use crate::compression::{RecordCompression, SignalCompression};
use crate::engine::{read_error, read_error_of, NO_INDEX};
use crate::error::Slow5Error;
use crate::header::{Header, HeaderExt, HeaderView};
use crate::image::{stored_ids, FileImage, FileImageView, Slot, SlotView};
use crate::record::{Record, RecordView};

verus! {

/// What a reader holds.
pub struct FileReaderView {
    /// The contents of the file.
    pub image: FileImageView,
    /// Number of positions that sequential reading has passed.
    pub cursor: nat,
}

impl FileReaderView {
    /// What random access to the record with read id `id` gives. A read id
    /// with a NUL byte names no record.
    pub open spec fn get_record(self, id: Seq<u8>) -> Result<RecordView, Slow5Error> {
        if !nul_free(id) {
            Err(Slow5Error::InteriorNul(nul_position(id) as usize))
        } else if !self.image.has_record(id) {
            Err(Slow5Error::GetRecordFailed)
        } else {
            Ok(self.image.record(id))
        }
    }
}

/// Read from a SLOW5 file
#[derive(Debug)]
pub struct FileReader {
    image: FileImage,
    cursor: usize,
}

impl View for FileReader {
    type V = FileReaderView;

    closed spec fn view(&self) -> FileReaderView {
        FileReaderView { image: self.image@, cursor: self.cursor as nat }
    }
}

impl FileReader {
    /// The contents behind the reader are in order.
    pub closed spec fn inv(&self) -> bool {
        self.image.wf()
    }

    /// The reader is well formed.
    pub open spec fn wf(&self) -> bool {
        self.inv() && self@.image.wf()
    }

    /// A reader at the start of the given contents.
    pub fn new(image: FileImage) -> (reader: Self)
        requires
            image.wf(),
        ensures
            reader.wf(),
            reader@ == (FileReaderView { image: image@, cursor: 0 }),
    {
        FileReader { image, cursor: 0 }
    }

    /// Open a SLOW5 file. `found` holds the contents of the file at the
    /// path, if there is one, and `index_code` the return code of loading its
    /// index, which is built where the file has none.
    ///
    /// # Errors
    /// `IncorrectPath` with the path if no file is there, `InteriorNul` for a
    /// path with a NUL byte, and `NoIndex` if the index could not be had.
    pub fn open(file_path: &[u8], found: Option<FileImage>, index_code: i32) -> (res: Result<Self, Slow5Error>)
        requires
            found matches Some(image) ==> image.wf(),
        ensures
            found.is_none() ==> (res matches Err(Slow5Error::IncorrectPath(path)) && path@ == file_path@),
            found.is_some() && !nul_free(file_path@) ==> res == Err::<Self, Slow5Error>(
                Slow5Error::InteriorNul(nul_position(file_path@) as usize),
            ),
            found.is_some() && nul_free(file_path@) && index_code == NO_INDEX ==> res == Err::<
                Self,
                Slow5Error,
            >(Slow5Error::NoIndex),
            found.is_some() && nul_free(file_path@) && index_code != NO_INDEX ==> res.is_ok()
                && res.unwrap().wf() && res.unwrap()@ == (FileReaderView {
                image: found.unwrap()@,
                cursor: 0,
            }),
    {
        let image = match found {
            None => {
                return Err(Slow5Error::IncorrectPath(copy_slice(file_path)));
            },
            Some(image) => image,
        };
        match to_cstring(file_path) {
            Err(e) => {
                return Err(e);
            },
            Ok(_) => {},
        }
        if index_code == NO_INDEX {
            return Err(Slow5Error::NoIndex);
        }
        Ok(FileReader::new(image))
    }

    /// Get file's record compression
    pub fn record_compression(&self) -> (method: RecordCompression)
        ensures
            method == self@.image.rec_comp,
    {
        self.image.record_compression()
    }

    /// Get file's signal compression
    pub fn signal_compression(&self) -> (method: SignalCompression)
        ensures
            method == self@.image.sig_comp,
    {
        self.image.signal_compression()
    }

    /// Access header of a SLOW5 file
    pub fn header(&self) -> (header: &Header)
        ensures
            header@ == self@.image.header,
            self.wf() ==> header.wf(),
    {
        self.image.header()
    }

    /// Return iterator over each read in a SLOW5 file as a [`RecordIter`].
    /// It starts where sequential reading stopped before, and holds the
    /// reader for itself as long as it lives. The contents of the file are
    /// the same afterwards.
    pub fn records(&mut self) -> (iter: RecordIter<'_>)
        requires
            old(self).wf(),
        ensures
            iter.wf(),
            iter.view() == (RecordIterView {
                slots: old(self)@.image.slots,
                cursor: old(self)@.cursor,
                errored: false,
            }),
            final(self).wf(),
            final(self)@.image == old(self)@.image,
    {
        RecordIter { image: &self.image, cursor: &mut self.cursor, errored: false }
    }

    /// Random-access a single [`Record`] by read_id.
    ///
    /// Mutating the Record will not cause changes in the SLOW5 file.
    pub fn get_record(&self, read_id: &[u8]) -> (res: Result<Record, Slow5Error>)
        requires
            self.wf(),
        ensures
            match self@.get_record(read_id@) {
                Ok(record) => res.is_ok() && res.unwrap().wf() && res.unwrap()@ == record,
                Err(e) => res == Err::<Record, Slow5Error>(e),
            },
    {
        match to_cstring(read_id) {
            Err(e) => {
                return Err(e);
            },
            Ok(_) => {},
        }
        match self.image.find(read_id) {
            None => Err(Slow5Error::GetRecordFailed),
            Some(i) => {
                match self.image.slot(i) {
                    Slot::Stored(record) => Ok(record.clone()),
                    Slot::Damaged(_) => Err(Slow5Error::GetRecordFailed),
                }
            },
        }
    }

    /// Returns iterator over all the read ids in a SLOW5 file, in file
    /// order. A file without records has no list of read ids, which is an
    /// error.
    pub fn iter_read_ids(&self) -> (res: Result<ReadIdIter<'_>, Slow5Error>)
        requires
            self.wf(),
        ensures
            stored_ids(self@.image.slots).len() == 0 ==> (res matches Err(e) && e
                == Slow5Error::ReadIdIterError),
            stored_ids(self@.image.slots).len() > 0 ==> (res matches Ok(iter) && iter.rest() == stored_ids(
                self@.image.slots,
            )),
    {
        let ids = self.image.read_ids();
        if ids.len() == 0 {
            Err(Slow5Error::ReadIdIterError)
        } else {
            Ok(ReadIdIter { walk: NameWalk::new(ids) })
        }
    }

    /// Returns iterator over the labels for an enum auxiliary field, in index
    /// order.
    ///
    /// # Errors
    /// Return Err if field's type is not an auxiliary enum, field is not
    /// within in the header, or the field has no labels
    pub fn iter_aux_enum_labels(&self, field: &[u8]) -> (res: Result<AuxEnumLabelIter<'_>, Slow5Error>)
        requires
            self.wf(),
        ensures
            !nul_free(field@) ==> (res matches Err(e) && e == Slow5Error::InteriorNul(
                nul_position(field@) as usize,
            )),
            nul_free(field@) && !self@.image.header.has_labels(field@) ==> (res matches Err(e) && e
                == Slow5Error::Unknown),
            nul_free(field@) && self@.image.header.has_labels(field@) ==> (res matches Ok(iter) && iter.rest()
                == self@.image.header.aux_type(field@).labels),
    {
        match to_cstring(field) {
            Err(e) => {
                return Err(e);
            },
            Ok(_) => {},
        }
        match self.image.header().aux_field_type(field) {
            Some(FieldType::Enum(labels)) => {
                if labels.len() == 0 {
                    Err(Slow5Error::Unknown)
                } else {
                    Ok(AuxEnumLabelIter { walk: NameWalk::new(labels) })
                }
            },
            _ => Err(Slow5Error::Unknown),
        }
    }

    /// Returns iterator over attribute keys for all read groups. A header
    /// without attributes has no list of keys, which is an error.
    pub fn iter_attr_keys(&self) -> (res: Result<AttrKeysIter<'_>, Slow5Error>)
        requires
            self.wf(),
        ensures
            self@.image.header.attr_names.len() == 0 ==> (res matches Err(e) && e == Slow5Error::Unknown),
            self@.image.header.attr_names.len() > 0 ==> (res matches Ok(iter) && iter.rest()
                == self@.image.header.attr_names),
    {
        let names = self.image.header().attribute_names();
        if names.len() == 0 {
            Err(Slow5Error::Unknown)
        } else {
            Ok(AttrKeysIter { walk: NameWalk::new(names) })
        }
    }
}

impl HeaderExt for FileReader {
    open spec fn header_view(&self) -> HeaderView {
        self@.image.header
    }

    open spec fn header_wf(&self) -> bool {
        self.wf()
    }

    fn header(&self) -> (header: &Header) {
        self.image.header()
    }
}

/// What sequential reading has to go on: the positions of the file, how many
/// of them were passed, and whether reading has failed.
pub struct RecordIterView {
    /// The positions of the file, in file order.
    pub slots: Seq<SlotView>,
    /// Number of positions passed.
    pub cursor: nat,
    /// Whether an error was yielded.
    pub errored: bool,
}

impl RecordIterView {
    /// What the next call yields: nothing once an error was yielded or at
    /// the end of the file; else the record at the cursor, or the error of
    /// the damaged place there.
    pub open spec fn item(self) -> Option<Result<RecordView, Slow5Error>> {
        if self.errored || self.cursor >= self.slots.len() {
            None
        } else {
            match self.slots[self.cursor as int] {
                SlotView::Stored(record) => Some(Ok(record)),
                SlotView::Damaged(code) => Some(Err(read_error_of(code))),
            }
        }
    }

    /// The state after the next call: unchanged where nothing is yielded;
    /// else the cursor has passed one position, and an error poisons the
    /// iterator.
    pub open spec fn advance(self) -> RecordIterView {
        if self.errored || self.cursor >= self.slots.len() {
            self
        } else {
            RecordIterView {
                cursor: self.cursor + 1,
                errored: self.slots[self.cursor as int] is Damaged,
                ..self
            }
        }
    }
}

/// Iterator over Records from a SLOW5 file.
///
/// If error occurs, iterator will produce Some(Err(_)) and then subsequent
/// iterations will be None. This struct is generated by calling
/// [`FileReader::records`].
#[derive(Debug)]
pub struct RecordIter<'a> {
    image: &'a FileImage,
    cursor: &'a mut usize,
    errored: bool,
}

impl<'a> RecordIter<'a> {
    /// The state of the iteration.
    pub closed spec fn view(&self) -> RecordIterView {
        RecordIterView { slots: self.image@.slots, cursor: *self.cursor as nat, errored: self.errored }
    }

    /// The contents behind the iterator are in order.
    pub closed spec fn wf(&self) -> bool {
        self.image.wf()
    }

    /// The next record of the file.
    pub fn next(&mut self) -> (item: Option<Result<Record, Slow5Error>>)
        requires
            old(self).wf(),
        ensures
            final(self).wf(),
            final(self).view() == old(self).view().advance(),
            match old(self).view().item() {
                None => item.is_none(),
                Some(Ok(record)) => item matches Some(Ok(r)) && r.wf() && r@ == record,
                Some(Err(e)) => item matches Some(Err(err)) && err == e,
            },
    {
        let i: usize = *self.cursor;
        if self.errored || i >= self.image.len() {
            return None;
        }
        *self.cursor = i + 1;
        match self.image.slot(i) {
            Slot::Stored(record) => Some(Ok(record.clone())),
            Slot::Damaged(code) => {
                self.errored = true;
                Some(Err(read_error(*code)))
            },
        }
    }
}

/// Iterator over all the read IDs in a SLOW5 file
#[derive(Debug)]
pub struct ReadIdIter<'a> {
    walk: NameWalk<'a>,
}

impl<'a> ReadIdIter<'a> {
    /// The read ids not yet handed out, in file order.
    pub closed spec fn rest(&self) -> Seq<Seq<u8>> {
        self.walk.rest()
    }

    /// The next read id, or `None` after the last.
    pub fn next(&mut self) -> (id: Option<&'a [u8]>)
        ensures
            old(self).rest().len() == 0 ==> id.is_none() && final(self).rest() == old(self).rest(),
            old(self).rest().len() > 0 ==> id.is_some() && id.unwrap()@ == old(self).rest()[0] && final(
                self).rest() == old(self).rest().drop_first(),
    {
        self.walk.next()
    }

    /// Number of read ids not yet handed out.
    pub fn count(&self) -> (n: usize)
        ensures
            n == self.rest().len(),
    {
        self.walk.count()
    }
}

/// Iterator over labels for an auxiliary field enum
#[derive(Debug)]
pub struct AuxEnumLabelIter<'a> {
    walk: NameWalk<'a>,
}

impl<'a> AuxEnumLabelIter<'a> {
    /// The labels not yet handed out, in index order.
    pub closed spec fn rest(&self) -> Seq<Seq<u8>> {
        self.walk.rest()
    }

    /// The next label, or `None` after the last.
    pub fn next(&mut self) -> (label: Option<&'a [u8]>)
        ensures
            old(self).rest().len() == 0 ==> label.is_none() && final(self).rest() == old(self).rest(),
            old(self).rest().len() > 0 ==> label.is_some() && label.unwrap()@ == old(self).rest()[0] && final(
                self).rest() == old(self).rest().drop_first(),
    {
        self.walk.next()
    }

    /// Number of labels not yet handed out.
    pub fn count(&self) -> (n: usize)
        ensures
            n == self.rest().len(),
    {
        self.walk.count()
    }
}

/// Iterator over the attribute keys of a header
#[derive(Debug)]
pub struct AttrKeysIter<'a> {
    walk: NameWalk<'a>,
}

impl<'a> AttrKeysIter<'a> {
    /// The keys not yet handed out, in the order of registration.
    pub closed spec fn rest(&self) -> Seq<Seq<u8>> {
        self.walk.rest()
    }

    /// The next attribute key, or `None` after the last.
    pub fn next(&mut self) -> (key: Option<&'a [u8]>)
        ensures
            old(self).rest().len() == 0 ==> key.is_none() && final(self).rest() == old(self).rest(),
            old(self).rest().len() > 0 ==> key.is_some() && key.unwrap()@ == old(self).rest()[0] && final(
                self).rest() == old(self).rest().drop_first(),
    {
        self.walk.next()
    }

    /// Number of keys not yet handed out.
    pub fn count(&self) -> (n: usize)
        ensures
            n == self.rest().len(),
    {
        self.walk.count()
    }
}

} // verus!
