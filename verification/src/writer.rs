//! Writing SLOW5 and BLOW5 files: the options a file is created with, the
//! order in which its header is finalized, and the writer that accepts
//! records.

use vstd::prelude::*;
use crate::auxiliary::{FieldType, FieldTypeView, TAG_ENUM};
use crate::bytes::{
    byte_seqs, bytes_eq, copy_byte_list, copy_slice, copy_vec, nul_free, nul_position, to_cstring,
};
use crate::compression::{RecordCompression, SignalCompression};
use crate::engine::{op_views, run, run_plan, EngineOp, EngineOpView};
use crate::error::Slow5Error;
use crate::header::{new_header, Header, HeaderExt, HeaderView};
use crate::image::{conforms, FileImage, FileImageView};
use crate::record::Record;
use crate::table::Table;

verus! {

/// The byte `/`, which separates the components of a path.
pub const SEPARATOR: u8 = 47;

/// The byte `.`, which starts a file extension.
pub const DOT: u8 = 46;

/// The two representations of a file.
#[derive(Debug, PartialEq, Eq, Structural, Clone, Copy)]
pub enum FileType {
    /// The ASCII representation, never compressed.
    Slow5,
    /// The binary representation, which may be compressed.
    Blow5,
}

/// Whether `i` is the position of the last byte `b` in `s`.
pub open spec fn is_last(s: Seq<u8>, b: u8, i: int) -> bool {
    &&& 0 <= i < s.len()
    &&& s[i] == b
    &&& forall|k: int| i < k < s.len() ==> s[k] != b
}

/// Position of the last byte `b` in `s`, or -1 if `s` has none.
pub open spec fn last_position(s: Seq<u8>, b: u8) -> int {
    if exists|i: int| is_last(s, b, i) {
        choose|i: int| is_last(s, b, i)
    } else {
        -1
    }
}

/// A path without what does not count at its end: trailing separators, and
/// a trailing `.` component, which stands for the directory before it.
pub open spec fn trimmed(path: Seq<u8>) -> Seq<u8>
    decreases path.len(),
{
    if path.len() == 0 {
        path
    } else if path.last() == SEPARATOR {
        trimmed(path.drop_last())
    } else if path.len() >= 2 && path.last() == DOT && path[path.len() - 2] == SEPARATOR {
        trimmed(path.drop_last())
    } else {
        path
    }
}

/// The last component of a path: what follows the last separator of the
/// trimmed path. It is empty for a path without components.
pub open spec fn file_name(path: Seq<u8>) -> Seq<u8> {
    let kept = trimmed(path);
    kept.subrange(last_position(kept, SEPARATOR) + 1, kept.len() as int)
}

/// The extension of a path: what follows the last dot of its file name. A
/// file name without a dot, one whose only dot is its first byte, and the
/// names `.` and `..` have no extension, nor has a path without components.
pub open spec fn extension(path: Seq<u8>) -> Option<Seq<u8>> {
    let name = file_name(path);
    let dot = last_position(name, DOT);
    if dot <= 0 || name == seq![DOT, DOT] {
        None
    } else {
        Some(name.subrange(dot + 1, name.len() as int))
    }
}

/// The extension `slow5`.
pub open spec fn slow5_ext() -> Seq<u8> {
    seq![115u8, 108u8, 111u8, 119u8, 53u8]
}

/// The extension `blow5`.
pub open spec fn blow5_ext() -> Seq<u8> {
    seq![98u8, 108u8, 111u8, 119u8, 53u8]
}

/// The representation that a path selects by its extension.
pub open spec fn file_type_of(path: Seq<u8>) -> Option<FileType> {
    if extension(path) == Some(blow5_ext()) {
        Some(FileType::Blow5)
    } else if extension(path) == Some(slow5_ext()) {
        Some(FileType::Slow5)
    } else {
        None
    }
}

/// There is one last position of a byte.
pub proof fn lemma_last_position(s: Seq<u8>, b: u8, i: int)
    requires
        is_last(s, b, i),
    ensures
        last_position(s, b) == i,
{
    let j = last_position(s, b);
    assert(is_last(s, b, j));
}

/// Finds the last byte `b` of `s`.
pub fn rfind(s: &[u8], b: u8) -> (pos: Option<usize>)
    ensures
        pos matches Some(i) ==> i < s@.len() && s@[i as int] == b && last_position(s@, b) == i,
        pos.is_none() ==> last_position(s@, b) == -1,
{
    let mut i: usize = s.len();
    while i > 0
        invariant
            i <= s@.len(),
            forall|k: int| i <= k < s@.len() ==> s@[k] != b,
        decreases i,
    {
        i -= 1;
        if s[i] == b {
            proof {
                lemma_last_position(s@, b, i as int);
            }
            return Some(i);
        }
    }
    None
}

/// Length of a path without what does not count at its end.
pub fn trimmed_len(path: &[u8]) -> (end: usize)
    ensures
        end <= path@.len(),
        path@.subrange(0, end as int) == trimmed(path@),
{
    let mut end: usize = path.len();
    let mut trimming = true;
    assert(path@.subrange(0, end as int) =~= path@);
    while trimming && end > 0
        invariant
            end <= path@.len(),
            trimmed(path@) == trimmed(path@.subrange(0, end as int)),
            !trimming ==> trimmed(path@.subrange(0, end as int)) == path@.subrange(0, end as int),
        decreases end + (if trimming { 1int } else { 0int }),
    {
        let ghost prefix = path@.subrange(0, end as int);
        let last = path[end - 1];
        assert(prefix.last() == last);
        if last == SEPARATOR || (last == DOT && end >= 2 && path[end - 2] == SEPARATOR) {
            assert(prefix.drop_last() =~= path@.subrange(0, end - 1));
            if last != SEPARATOR {
                assert(prefix[prefix.len() - 2] == path@[end - 2]);
            }
            end -= 1;
        } else {
            assert(end >= 2 ==> prefix[prefix.len() - 2] == path@[end - 2]);
            trimming = false;
        }
    }
    end
}

/// The bytes of `s` from position `from` up to position `to`.
pub fn copy_range(s: &[u8], from: usize, to: usize) -> (out: Vec<u8>)
    requires
        from <= to <= s@.len(),
    ensures
        out@ == s@.subrange(from as int, to as int),
{
    let mut out: Vec<u8> = Vec::new();
    let mut i: usize = from;
    while i < to
        invariant
            from <= i <= to,
            to <= s@.len(),
            out@ == s@.subrange(from as int, i as int),
        decreases to - i,
    {
        out.push(s[i]);
        i += 1;
        assert(out@ =~= s@.subrange(from as int, i as int));
    }
    out
}

/// The last component of a path.
pub fn file_name_of(path: &[u8]) -> (name: Vec<u8>)
    ensures
        name@ == file_name(path@),
{
    let end = trimmed_len(path);
    let kept = copy_range(path, 0, end);
    let start: usize = match rfind(kept.as_slice(), SEPARATOR) {
        Some(i) => i + 1,
        None => 0,
    };
    copy_range(kept.as_slice(), start, end)
}

/// The extension of a path, if it has one.
pub fn extension_of(path: &[u8]) -> (ext: Option<Vec<u8>>)
    ensures
        ext.is_some() == extension(path@).is_some(),
        ext matches Some(bytes) ==> extension(path@) == Some(bytes@),
{
    let name = file_name_of(path);
    let dot: usize = match rfind(name.as_slice(), DOT) {
        Some(d) => d,
        None => 0,
    };
    if dot == 0 || (name.len() == 2 && name[0] == DOT && name[1] == DOT) {
        proof {
            if name.len() == 2 && name[0] == DOT && name[1] == DOT {
                assert(name@ =~= seq![DOT, DOT]);
            }
        }
        return None;
    }
    assert(name@ != seq![DOT, DOT]) by {
        if name@ == seq![DOT, DOT] {
            assert(name@.len() == 2 && name@[0] == DOT && name@[1] == DOT);
        }
    }
    Some(copy_range(name.as_slice(), dot + 1, name.len()))
}

/// Check the file extension, return Err if it isn't blow5 or slow5
pub fn check_file_ext(file_path: &[u8]) -> (res: Result<FileType, Slow5Error>)
    ensures
        file_type_of(file_path@) matches Some(file_type) ==> res == Ok::<FileType, Slow5Error>(file_type),
        file_type_of(file_path@).is_none() ==> res matches Err(Slow5Error::InvalidFilePath(_)),
{
    let ext = match extension_of(file_path) {
        Some(ext) => ext,
        None => {
            return Err(Slow5Error::InvalidFilePath("No file extension found".to_owned()));
        },
    };
    let blow5: [u8; 5] = [98u8, 108u8, 111u8, 119u8, 53u8];
    let slow5: [u8; 5] = [115u8, 108u8, 111u8, 119u8, 53u8];
    assert(blow5@ =~= blow5_ext());
    assert(slow5@ =~= slow5_ext());
    if bytes_eq(ext.as_slice(), blow5.as_slice()) {
        Ok(FileType::Blow5)
    } else if bytes_eq(ext.as_slice(), slow5.as_slice()) {
        Ok(FileType::Slow5)
    } else {
        Err(Slow5Error::InvalidFilePath("found ".to_owned()))
    }
}

/// How a file is opened for writing.
#[derive(Debug, PartialEq, Eq, Structural, Clone, Copy)]
pub enum Mode {
    /// A new file; one already there is written over.
    Write,
    /// More records for a file that was finalized before.
    Append,
}

impl Mode {
    /// The mode string that opens a file in this mode.
    pub fn to_c_mode(&self) -> (mode: &'static str)
        ensures
            mode@ == (match self {
                Mode::Write => "w"@,
                Mode::Append => "a"@,
            }),
    {
        match self {
            Mode::Write => "w",
            Mode::Append => "a",
        }
    }
}

/// What a set of write options holds.
pub struct WriteOptionsView {
    /// The record compression asked for.
    pub rec_comp: RecordCompression,
    /// The signal compression asked for.
    pub sig_comp: SignalCompression,
    /// Number of read groups to add to read group 0.
    pub num_read_groups: u32,
    /// The attribute names, in the order of their first use.
    pub attr_names: Seq<Seq<u8>>,
    /// The (attribute, read group) pairs with a value, in the order in which
    /// they first got one.
    pub attr_keys: Seq<(Seq<u8>, u32)>,
    /// The attribute values, in the order of `attr_keys`.
    pub attr_vals: Seq<Seq<u8>>,
    /// The auxiliary field names, in the order of their first use.
    pub aux_names: Seq<Seq<u8>>,
    /// The auxiliary field types, in the order of `aux_names`.
    pub aux_types: Seq<FieldTypeView>,
    /// The auxiliary enum field names, in the order of their first use.
    pub enum_names: Seq<Seq<u8>>,
    /// The labels of the auxiliary enum fields, in the order of `enum_names`.
    pub enum_labels: Seq<Seq<Seq<u8>>>,
}

impl WriteOptionsView {
    /// Names are unique, every value belongs to a listed attribute, and the
    /// read-group count covers every read group that has a value.
    pub open spec fn wf(self) -> bool {
        &&& self.attr_names.no_duplicates()
        &&& self.attr_keys.no_duplicates()
        &&& self.attr_keys.len() == self.attr_vals.len()
        &&& forall|i: int|
            0 <= i < self.attr_keys.len() ==> self.attr_names.contains((#[trigger] self.attr_keys[i]).0)
                && self.attr_keys[i].1 <= self.num_read_groups
        &&& self.aux_names.no_duplicates()
        &&& self.aux_names.len() == self.aux_types.len()
        &&& self.enum_names.no_duplicates()
        &&& self.enum_names.len() == self.enum_labels.len()
    }

    /// The options after `attr(key, value, read_group)`: the value replaces
    /// one already given for the same key and read group, and the read-group
    /// count grows to `read_group` if it was lower.
    pub open spec fn with_attr(self, key: Seq<u8>, value: Seq<u8>, read_group: u32) -> WriteOptionsView {
        WriteOptionsView {
            num_read_groups: if read_group > self.num_read_groups {
                read_group
            } else {
                self.num_read_groups
            },
            attr_names: if self.attr_names.contains(key) {
                self.attr_names
            } else {
                self.attr_names.push(key)
            },
            attr_keys: if self.attr_keys.contains((key, read_group)) {
                self.attr_keys
            } else {
                self.attr_keys.push((key, read_group))
            },
            attr_vals: if self.attr_keys.contains((key, read_group)) {
                self.attr_vals.update(self.attr_keys.index_of((key, read_group)), value)
            } else {
                self.attr_vals.push(value)
            },
            ..self
        }
    }

    /// The options after `aux(name, field_type)`: the last type given for a
    /// name is the one that counts.
    pub open spec fn with_aux(self, name: Seq<u8>, field_type: FieldTypeView) -> WriteOptionsView {
        if self.aux_names.contains(name) {
            WriteOptionsView {
                aux_types: self.aux_types.update(self.aux_names.index_of(name), field_type),
                ..self
            }
        } else {
            WriteOptionsView {
                aux_names: self.aux_names.push(name),
                aux_types: self.aux_types.push(field_type),
                ..self
            }
        }
    }

    /// The options after `aux_enum(name, labels)`: the last labels given for
    /// a name are the ones that count.
    pub open spec fn with_aux_enum(self, name: Seq<u8>, labels: Seq<Seq<u8>>) -> WriteOptionsView {
        if self.enum_names.contains(name) {
            WriteOptionsView {
                enum_labels: self.enum_labels.update(self.enum_names.index_of(name), labels),
                ..self
            }
        } else {
            WriteOptionsView {
                enum_names: self.enum_names.push(name),
                enum_labels: self.enum_labels.push(labels),
                ..self
            }
        }
    }
}

/// The operations that set the values of attribute `name`: one for each of
/// the first `n` (attribute, read group) pairs that name it, in their order.
pub open spec fn value_ops(name: Seq<u8>, keys: Seq<(Seq<u8>, u32)>, vals: Seq<Seq<u8>>, n: int) -> Seq<
    EngineOpView,
>
    decreases n,
{
    if n <= 0 {
        Seq::empty()
    } else if keys[n - 1].0 == name {
        value_ops(name, keys, vals, n - 1).push(EngineOpView::SetAttribute(name, vals[n - 1], keys[n - 1].1))
    } else {
        value_ops(name, keys, vals, n - 1)
    }
}

/// The operations for the first `n` attribute names: each name is
/// registered and then given its values, read group by read group.
pub open spec fn attr_ops(names: Seq<Seq<u8>>, keys: Seq<(Seq<u8>, u32)>, vals: Seq<Seq<u8>>, n: int) -> Seq<
    EngineOpView,
>
    decreases n,
{
    if n <= 0 {
        Seq::empty()
    } else {
        attr_ops(names, keys, vals, n - 1).push(EngineOpView::AddAttribute(names[n - 1])) + value_ops(
            names[n - 1],
            keys,
            vals,
            keys.len() as int,
        )
    }
}

/// The operations that add the auxiliary fields, in schema order.
pub open spec fn aux_ops(names: Seq<Seq<u8>>, types: Seq<FieldTypeView>) -> Seq<EngineOpView> {
    Seq::new(names.len(), |i: int| EngineOpView::AddAuxField(names[i], types[i]))
}

/// The operations that add the auxiliary enum fields, in their order.
pub open spec fn enum_ops(names: Seq<Seq<u8>>, labels: Seq<Seq<Seq<u8>>>) -> Seq<EngineOpView> {
    Seq::new(
        names.len(),
        |i: int| EngineOpView::AddAuxField(names[i], FieldTypeView { tag: TAG_ENUM, labels: labels[i] }),
    )
}

impl WriteOptionsView {
    /// The operations that finalize a new file with these options, in the
    /// order in which they are performed: the compression, for a binary
    /// file only; the read groups; the attributes, name by name; the
    /// auxiliary fields; the auxiliary enum fields; and last the header is
    /// written out, once.
    pub open spec fn plan(self, file_type: FileType) -> Seq<EngineOpView> {
        (if file_type == FileType::Blow5 {
            seq![EngineOpView::SetCompression(self.rec_comp, self.sig_comp)]
        } else {
            Seq::empty()
        }).push(EngineOpView::AddReadGroups(self.num_read_groups)) + attr_ops(
            self.attr_names,
            self.attr_keys,
            self.attr_vals,
            self.attr_names.len() as int,
        ) + aux_ops(self.aux_names, self.aux_types) + enum_ops(self.enum_names, self.enum_labels).push(
            EngineOpView::WriteHeader,
        )
    }
}

/// Set attributes, auxiliary fields, and record and signal compression.
#[derive(Debug)]
pub struct WriteOptions {
    rec_comp: RecordCompression,
    sig_comp: SignalCompression,
    num_read_groups: u32,
    attr_names: Table<Vec<u8>, ()>,
    attributes: Table<(Vec<u8>, u32), Vec<u8>>,
    auxiliary_fields: Table<Vec<u8>, FieldType>,
    aux_enums: Table<Vec<u8>, Vec<Vec<u8>>>,
}

impl View for WriteOptions {
    type V = WriteOptionsView;

    closed spec fn view(&self) -> WriteOptionsView {
        WriteOptionsView {
            rec_comp: self.rec_comp,
            sig_comp: self.sig_comp,
            num_read_groups: self.num_read_groups,
            attr_names: self.attr_names.keys(),
            attr_keys: self.attributes.keys(),
            attr_vals: byte_seqs(self.attributes.vals()),
            aux_names: self.auxiliary_fields.keys(),
            aux_types: self.auxiliary_fields.vals().map_values(|t: FieldType| t@),
            enum_names: self.aux_enums.keys(),
            enum_labels: self.aux_enums.vals().map_values(|l: Vec<Vec<u8>>| byte_seqs(l@)),
        }
    }
}

impl WriteOptions {
    /// The tables behind the options are in order.
    pub closed spec fn inv(&self) -> bool {
        &&& self.attr_names.wf()
        &&& self.attributes.wf()
        &&& self.auxiliary_fields.wf()
        &&& self.aux_enums.wf()
    }

    /// The options are well formed.
    pub open spec fn wf(&self) -> bool {
        self.inv() && self@.wf()
    }

    /// Options with the given compression and read-group count, and neither
    /// attributes nor auxiliary fields.
    pub fn new(rec_comp: RecordCompression, sig_comp: SignalCompression, num_read_groups: u32) -> (opts: Self)
        ensures
            opts.wf(),
            opts@ == (WriteOptionsView {
                rec_comp,
                sig_comp,
                num_read_groups,
                attr_names: Seq::empty(),
                attr_keys: Seq::empty(),
                attr_vals: Seq::empty(),
                aux_names: Seq::empty(),
                aux_types: Seq::empty(),
                enum_names: Seq::empty(),
                enum_labels: Seq::empty(),
            }),
    {
        let opts = WriteOptions {
            rec_comp,
            sig_comp,
            num_read_groups,
            attr_names: Table::new(),
            attributes: Table::new(),
            auxiliary_fields: Table::new(),
            aux_enums: Table::new(),
        };
        assert(opts@.attr_vals =~= Seq::empty());
        assert(opts@.aux_types =~= Seq::empty());
        assert(opts@.enum_labels =~= Seq::empty());
        opts
    }

    /// Set attribute for header.
    ///
    /// # Note
    /// If the key and read_group are the same, the value for it will be
    /// overwritten.
    pub fn attr(&mut self, key: &[u8], value: &[u8], read_group: u32) -> (ret: &mut Self)
        requires
            old(self).wf(),
        ensures
            ret.wf(),
            ret@ == old(self)@.with_attr(key@, value@, read_group),
            *final(self) == *final(ret),
    {
        let ghost names = self.attr_names;
        let ghost before = self.attributes;
        proof {
            names.lemma_wf();
            before.lemma_wf();
        }
        self.attr_names.insert(copy_slice(key), ());
        self.attributes.insert((copy_slice(key), read_group), copy_slice(value));
        if read_group > self.num_read_groups {
            self.num_read_groups = read_group;
        }
        proof {
            self.attr_names.lemma_wf();
            self.attributes.lemma_wf();
            let pair = (key@, read_group);
            if before.contains(pair) {
                assert(self@.attr_vals =~= old(self)@.attr_vals.update(before.index(pair), value@));
            } else {
                assert(self@.attr_vals =~= old(self)@.attr_vals.push(value@));
            }
            assert forall|i: int| 0 <= i < self@.attr_keys.len() implies self@.attr_names.contains(
                (#[trigger] self@.attr_keys[i]).0,
            ) && self@.attr_keys[i].1 <= self@.num_read_groups by {
                if i < old(self)@.attr_keys.len() {
                    let name = old(self)@.attr_keys[i].0;
                    assert(old(self)@.attr_names.contains(name));
                    let j = old(self)@.attr_names.index_of(name);
                    assert(self@.attr_names[j] == name);
                } else {
                    assert(self@.attr_keys[i] == pair);
                    if !names.contains(key@) {
                        assert(self.attr_names.keys()[names.keys().len() as int] == key@);
                    }
                    assert(self.attr_names.contains(key@));
                }
            }
            assert(self@ == old(self)@.with_attr(key@, value@, read_group));
        }
        self
    }

    /// Set auxiliary field for header. See [`FieldType`] for info on types
    /// allowed as fields.
    ///
    /// # Note
    /// If the same name is used multiple times, the last FieldType will be
    /// used in the header.
    pub fn aux(&mut self, name: &[u8], field_ty: FieldType) -> (ret: &mut Self)
        requires
            old(self).wf(),
        ensures
            ret.wf(),
            ret@ == old(self)@.with_aux(name@, field_ty@),
            *final(self) == *final(ret),
    {
        let ghost before = self.auxiliary_fields;
        proof {
            before.lemma_wf();
        }
        self.auxiliary_fields.insert(copy_slice(name), field_ty);
        proof {
            self.auxiliary_fields.lemma_wf();
            if before.contains(name@) {
                assert(self@.aux_types =~= old(self)@.aux_types.update(before.index(name@), field_ty@));
            } else {
                assert(self@.aux_types =~= old(self)@.aux_types.push(field_ty@));
            }
            assert(self@ == old(self)@.with_aux(name@, field_ty@));
        }
        self
    }

    /// Add auxiliary enum to writer with designated labels. The enum fields
    /// are added to the header after the other auxiliary fields, so where a
    /// name is given both ways the enum type is the one that counts.
    pub fn aux_enum(&mut self, name: &[u8], labels: Vec<Vec<u8>>) -> (ret: &mut Self)
        requires
            old(self).wf(),
        ensures
            ret.wf(),
            ret@ == old(self)@.with_aux_enum(name@, byte_seqs(labels@)),
            *final(self) == *final(ret),
    {
        let ghost before = self.aux_enums;
        proof {
            before.lemma_wf();
        }
        self.aux_enums.insert(copy_slice(name), labels);
        proof {
            self.aux_enums.lemma_wf();
            if before.contains(name@) {
                assert(self@.enum_labels =~= old(self)@.enum_labels.update(
                    before.index(name@),
                    byte_seqs(labels@),
                ));
            } else {
                assert(self@.enum_labels =~= old(self)@.enum_labels.push(byte_seqs(labels@)));
            }
            assert(self@ == old(self)@.with_aux_enum(name@, byte_seqs(labels@)));
        }
        self
    }

    /// Set compression of the SLOW5 records. By default no compression is
    /// used.
    pub fn record_compression(&mut self, rcomp: RecordCompression) -> (ret: &mut Self)
        requires
            old(self).wf(),
        ensures
            ret.wf(),
            ret@ == (WriteOptionsView { rec_comp: rcomp, ..old(self)@ }),
            *final(self) == *final(ret),
    {
        self.rec_comp = rcomp;
        self
    }

    /// Set compression of the SLOW5 signal data. By default no compression is
    /// used.
    pub fn signal_compression(&mut self, scomp: SignalCompression) -> (ret: &mut Self)
        requires
            old(self).wf(),
        ensures
            ret.wf(),
            ret@ == (WriteOptionsView { sig_comp: scomp, ..old(self)@ }),
            *final(self) == *final(ret),
    {
        self.sig_comp = scomp;
        self
    }

    /// Explicitly set the number of read groups. See [`WriteOptions::attr`]
    /// for more information. The number only grows: it is compared with the
    /// number that the options hold, whether that came from an attribute or
    /// from an earlier call.
    ///
    /// # Notes
    /// Returns Err if n is lower than the number of read groups that the
    /// options hold, and then changes nothing
    pub fn num_read_groups(&mut self, n: u32) -> (res: Result<&mut Self, Slow5Error>)
        requires
            old(self).wf(),
        ensures
            n < old(self)@.num_read_groups ==> (res matches Err(e) && e == Slow5Error::NumReadGroups(
                n,
                old(self)@.num_read_groups,
            )) && *final(self) == *old(self),
            n >= old(self)@.num_read_groups ==> (res matches Ok(ret) && ret.wf() && ret@ == (WriteOptionsView {
                num_read_groups: n,
                ..old(self)@
            }) && *final(self) == *final(ret)),
    {
        if n < self.num_read_groups {
            Err(Slow5Error::NumReadGroups(n, self.num_read_groups))
        } else {
            self.num_read_groups = n;
            Ok(self)
        }
    }
}

impl WriteOptions {
    /// The operations that finalize a new file of the given type with these
    /// options, in the order in which they are to be performed.
    pub fn finalization(&self, file_type: FileType) -> (ops: Vec<EngineOp>)
        requires
            self.wf(),
        ensures
            op_views(ops@) == self@.plan(file_type),
    {
        let mut ops: Vec<EngineOp> = Vec::new();
        match file_type {
            FileType::Blow5 => {
                ops.push(EngineOp::SetCompression(self.rec_comp, self.sig_comp));
            },
            FileType::Slow5 => {},
        }
        ops.push(EngineOp::AddReadGroups(self.num_read_groups));
        let ghost head = op_views(ops@);
        assert(head =~= (if file_type == FileType::Blow5 {
            seq![EngineOpView::SetCompression(self@.rec_comp, self@.sig_comp)]
        } else {
            Seq::empty()
        }).push(EngineOpView::AddReadGroups(self@.num_read_groups)));
        let ghost names = self@.attr_names;
        let ghost keys = self@.attr_keys;
        let ghost vals = self@.attr_vals;
        let n_names = self.attr_names.len();
        let n_keys = self.attributes.len();
        let mut i: usize = 0;
        while i < n_names
            invariant
                self.wf(),
                names == self@.attr_names,
                keys == self@.attr_keys,
                vals == self@.attr_vals,
                n_names == names.len(),
                n_keys == keys.len(),
                i <= n_names,
                op_views(ops@) == head + attr_ops(names, keys, vals, i as int),
            decreases n_names - i,
        {
            proof {
                self.attr_names.lemma_wf();
                self.attributes.lemma_wf();
            }
            let name = self.attr_names.key_at(i);
            ops.push(EngineOp::AddAttribute(copy_vec(name)));
            let ghost base = op_views(ops@);
            assert(base =~= (head + attr_ops(names, keys, vals, i as int)).push(
                EngineOpView::AddAttribute(names[i as int]),
            ));
            let mut j: usize = 0;
            while j < n_keys
                invariant
                    self.wf(),
                    names == self@.attr_names,
                    keys == self@.attr_keys,
                    vals == self@.attr_vals,
                    n_keys == keys.len(),
                    i < names.len(),
                    name@ == names[i as int],
                    j <= n_keys,
                    op_views(ops@) == base + value_ops(names[i as int], keys, vals, j as int),
                decreases n_keys - j,
            {
                proof {
                    self.attributes.lemma_wf();
                }
                let key = self.attributes.key_at(j);
                if crate::bytes::bytes_eq(key.0.as_slice(), name.as_slice()) {
                    let value = self.attributes.val_at(j);
                    ops.push(EngineOp::SetAttribute(copy_vec(name), copy_vec(value), key.1));
                    assert(op_views(ops@) =~= (base + value_ops(names[i as int], keys, vals, j as int)).push(
                        EngineOpView::SetAttribute(names[i as int], vals[j as int], keys[j as int].1),
                    ));
                }
                j += 1;
                assert(op_views(ops@) =~= base + value_ops(names[i as int], keys, vals, j as int));
            }
            i += 1;
            assert(op_views(ops@) =~= head + attr_ops(names, keys, vals, i as int));
        }
        let ghost with_attrs = op_views(ops@);
        let n_aux = self.auxiliary_fields.len();
        let mut k: usize = 0;
        while k < n_aux
            invariant
                self.wf(),
                n_aux == self@.aux_names.len(),
                k <= n_aux,
                op_views(ops@) == with_attrs + aux_ops(self@.aux_names, self@.aux_types).subrange(0, k as int),
            decreases n_aux - k,
        {
            proof {
                self.auxiliary_fields.lemma_wf();
            }
            let name = self.auxiliary_fields.key_at(k);
            let field_type = self.auxiliary_fields.val_at(k);
            let ghost prev = op_views(ops@);
            let ghost all = aux_ops(self@.aux_names, self@.aux_types);
            ops.push(EngineOp::AddAuxField(copy_vec(name), field_type.clone()));
            assert(self@.aux_types[k as int] == field_type@);
            assert(op_views(ops@) =~= prev.push(all[k as int]));
            k += 1;
            assert(all.subrange(0, k as int) =~= all.subrange(0, k - 1).push(all[k - 1]));
            assert(op_views(ops@) =~= with_attrs + all.subrange(0, k as int));
        }
        assert(aux_ops(self@.aux_names, self@.aux_types).subrange(0, n_aux as int) =~= aux_ops(
            self@.aux_names,
            self@.aux_types,
        ));
        let ghost with_aux = op_views(ops@);
        let n_enums = self.aux_enums.len();
        let mut m: usize = 0;
        while m < n_enums
            invariant
                self.wf(),
                n_enums == self@.enum_names.len(),
                m <= n_enums,
                op_views(ops@) == with_aux + enum_ops(self@.enum_names, self@.enum_labels).subrange(
                    0,
                    m as int,
                ),
            decreases n_enums - m,
        {
            proof {
                self.aux_enums.lemma_wf();
            }
            let name = self.aux_enums.key_at(m);
            let labels = self.aux_enums.val_at(m);
            let ghost prev = op_views(ops@);
            let ghost all = enum_ops(self@.enum_names, self@.enum_labels);
            ops.push(EngineOp::AddAuxField(copy_vec(name), FieldType::Enum(copy_byte_list(labels))));
            assert(self@.enum_labels[m as int] == byte_seqs(labels@));
            assert(op_views(ops@) =~= prev.push(all[m as int]));
            m += 1;
            assert(all.subrange(0, m as int) =~= all.subrange(0, m - 1).push(all[m - 1]));
            assert(op_views(ops@) =~= with_aux + all.subrange(0, m as int));
        }
        assert(enum_ops(self@.enum_names, self@.enum_labels).subrange(0, n_enums as int) =~= enum_ops(
            self@.enum_names,
            self@.enum_labels,
        ));
        let ghost with_enums = op_views(ops@);
        ops.push(EngineOp::WriteHeader);
        assert(op_views(ops@) =~= with_enums.push(EngineOpView::WriteHeader));
        assert(with_enums.push(EngineOpView::WriteHeader) =~= with_aux + enum_ops(
            self@.enum_names,
            self@.enum_labels,
        ).push(EngineOpView::WriteHeader));
        assert(op_views(ops@) =~= self@.plan(file_type));
        ops
    }
}

impl WriteOptions {
    /// Create new file with the given options. File type will be SLOW5 or
    /// BLOW5 based on the file extension.
    ///
    /// # Errors
    /// If you attempt to create a SLOW5 file with compression options, this
    /// function will return an Err. Since SLOW5 is ascii, no compression is
    /// allowed. If you do want compression create a BLOW5 file.
    ///
    /// File path must end in ".blow5" or ".slow5" otherwise, function will
    /// return an Err.
    pub fn create(&self, file_path: &[u8]) -> (res: Result<FileWriter, Slow5Error>)
        requires
            self.wf(),
        ensures
            res.is_ok() <==> self@.can_create(file_path@),
            res matches Ok(writer) ==> writer.wf(),
            file_type_of(file_path@).is_none() ==> res matches Err(Slow5Error::InvalidFilePath(_)),
            file_type_of(file_path@).is_some() ==> (match self@.opened(
                file_path@,
                file_type_of(file_path@).unwrap(),
                Mode::Write,
                None,
            ) {
                Ok(writer) => res.is_ok() && res.unwrap()@ == writer,
                Err(e) => res == Err::<FileWriter, Slow5Error>(e),
            }),
    {
        FileWriter::with_options(file_path, self, Mode::Write, None)
    }
}

impl Default for WriteOptions {
    fn default() -> (opts: Self)
        ensures
            opts.wf(),
            opts@ == WriteOptionsView::plain(),
    {
        WriteOptions::new(RecordCompression::Uncompressed, SignalCompression::Uncompressed, 0)
    }
}

impl WriteOptionsView {
    /// The options that nothing was set on: no compression, no read group
    /// beside read group 0, no attributes and no auxiliary fields.
    pub open spec fn plain() -> WriteOptionsView {
        WriteOptionsView {
            rec_comp: RecordCompression::Uncompressed,
            sig_comp: SignalCompression::Uncompressed,
            num_read_groups: 0,
            attr_names: Seq::empty(),
            attr_keys: Seq::empty(),
            attr_vals: Seq::empty(),
            aux_names: Seq::empty(),
            aux_types: Seq::empty(),
            enum_names: Seq::empty(),
            enum_labels: Seq::empty(),
        }
    }

    /// Whether the options ask for compression.
    pub open spec fn compressed(self) -> bool {
        self.rec_comp != RecordCompression::Uncompressed || self.sig_comp != SignalCompression::Uncompressed
    }

    /// The header that finalizing a new file of the given type gives, or the
    /// error of the first operation that fails.
    pub open spec fn finalized(self, file_type: FileType) -> Result<HeaderView, Slow5Error> {
        run(self.plan(file_type), new_header())
    }

    /// Whether a new file can be created at `path` with these options: the
    /// path selects a representation, an ASCII file is not to be compressed,
    /// the path holds no NUL byte, and the header can be finalized.
    pub open spec fn can_create(self, path: Seq<u8>) -> bool {
        &&& file_type_of(path) matches Some(file_type)
        &&& !(file_type == FileType::Slow5 && self.compressed())
        &&& nul_free(path)
        &&& self.finalized(file_type).is_ok()
    }
}

impl WriteOptionsView {
    /// What opening a file of the given type at `path` gives. An ASCII file
    /// cannot be compressed and the path may hold no NUL byte. A file opened
    /// to append must exist, and keeps its contents; nothing is finalized.
    /// A new file is finalized by the operations of the plan and starts
    /// without records; only a binary file takes the compression asked for.
    pub open spec fn opened(
        self,
        path: Seq<u8>,
        file_type: FileType,
        mode: Mode,
        existing: Option<FileImageView>,
    ) -> Result<FileWriterView, Slow5Error> {
        if file_type == FileType::Slow5 && self.compressed() {
            Err(Slow5Error::Slow5CompressionError)
        } else if !nul_free(path) {
            Err(Slow5Error::InteriorNul(nul_position(path) as usize))
        } else if mode == Mode::Append {
            match existing {
                None => Err(Slow5Error::Allocation),
                Some(image) => Ok(
                    FileWriterView { image, file_type, mode, path, plan: Seq::empty(), base: image.slots.len() },
                ),
            }
        } else {
            match self.finalized(file_type) {
                Err(e) => Err(e),
                Ok(header) => Ok(
                    FileWriterView {
                        image: FileImageView {
                            header,
                            rec_comp: if file_type == FileType::Blow5 {
                                self.rec_comp
                            } else {
                                RecordCompression::Uncompressed
                            },
                            sig_comp: if file_type == FileType::Blow5 {
                                self.sig_comp
                            } else {
                                SignalCompression::Uncompressed
                            },
                            slots: Seq::empty(),
                        },
                        file_type,
                        mode,
                        path,
                        plan: self.plan(file_type),
                        base: 0,
                    },
                ),
            }
        }
    }
}

/// What a writer holds.
pub struct FileWriterView {
    /// The contents of the file so far.
    pub image: FileImageView,
    /// The representation of the file.
    pub file_type: FileType,
    /// How the file was opened.
    pub mode: Mode,
    /// The path of the file.
    pub path: Seq<u8>,
    /// The operations that finalized the file, in the order in which they
    /// were performed; none for a file that was opened to append.
    pub plan: Seq<EngineOpView>,
    /// Number of positions that the file had when it was opened: none for a
    /// new file.
    pub base: nat,
}

/// Write a SLOW5 file
#[derive(Debug)]
pub struct FileWriter {
    image: FileImage,
    file_type: FileType,
    mode: Mode,
    path: Vec<u8>,
    plan: Vec<EngineOp>,
    base: usize,
}

impl View for FileWriter {
    type V = FileWriterView;

    closed spec fn view(&self) -> FileWriterView {
        FileWriterView {
            image: self.image@,
            file_type: self.file_type,
            mode: self.mode,
            path: self.path@,
            plan: op_views(self.plan@),
            base: self.base as nat,
        }
    }
}

impl FileWriter {
    /// The contents behind the writer are in order.
    pub closed spec fn inv(&self) -> bool {
        self.image.wf()
    }

    /// The writer is well formed.
    pub open spec fn wf(&self) -> bool {
        self.inv() && self@.image.wf()
    }

    /// Create a file with set of options
    pub fn options() -> (opts: WriteOptions)
        ensures
            opts.wf(),
            opts@ == WriteOptionsView::plain(),
    {
        WriteOptions::default()
    }

    /// Create a file with given options, or open one to append to.
    ///
    /// A new file is finalized here, once: the header is built by the
    /// operations of the options' plan, in their order, and the file starts
    /// without records, whatever `existing` holds. A file opened to append
    /// keeps the header, the compression and the records of `existing`, and
    /// nothing is finalized again.
    ///
    /// # Errors
    /// The extension of the path must be `slow5` or `blow5`; a `slow5` file
    /// cannot be compressed; the path may hold no NUL byte; a file to append
    /// to must exist; and each operation of the plan must succeed.
    pub fn with_options(file_path: &[u8], opts: &WriteOptions, mode: Mode, existing: Option<FileImage>) -> (res:
        Result<Self, Slow5Error>)
        requires
            opts.wf(),
            existing matches Some(image) ==> image.wf(),
        ensures
            res matches Ok(writer) ==> writer.wf(),
            file_type_of(file_path@).is_none() ==> res matches Err(Slow5Error::InvalidFilePath(_)),
            file_type_of(file_path@).is_some() ==> (match opts@.opened(
                file_path@,
                file_type_of(file_path@).unwrap(),
                mode,
                match existing {
                    Some(image) => Some(image@),
                    None => None,
                },
            ) {
                Ok(writer) => res.is_ok() && res.unwrap()@ == writer,
                Err(e) => res == Err::<Self, Slow5Error>(e),
            }),
    {
        let file_type = match check_file_ext(file_path) {
            Ok(file_type) => file_type,
            Err(e) => {
                return Err(e);
            },
        };
        let has_rec_comp = opts.rec_comp.is_set();
        let has_sig_comp = opts.sig_comp.is_set();
        match file_type {
            FileType::Slow5 => {
                if has_rec_comp || has_sig_comp {
                    return Err(Slow5Error::Slow5CompressionError);
                }
            },
            FileType::Blow5 => {},
        }
        match to_cstring(file_path) {
            Err(e) => {
                return Err(e);
            },
            Ok(_) => {},
        }
        match mode {
            Mode::Append => {
                match existing {
                    None => Err(Slow5Error::Allocation),
                    Some(image) => {
                        let base = image.len();
                        let writer = FileWriter {
                            image,
                            file_type,
                            mode,
                            path: copy_slice(file_path),
                            plan: Vec::new(),
                            base,
                        };
                        assert(writer@.plan =~= Seq::<EngineOpView>::empty());
                        Ok(writer)
                    },
                }
            },
            Mode::Write => {
                let plan = opts.finalization(file_type);
                let mut header = Header::new();
                match run_plan(&plan, &mut header) {
                    Err(e) => {
                        return Err(e);
                    },
                    Ok(_) => {},
                }
                let image = match file_type {
                    FileType::Blow5 => FileImage::new(header, opts.rec_comp, opts.sig_comp),
                    FileType::Slow5 => FileImage::new(
                        header,
                        RecordCompression::Uncompressed,
                        SignalCompression::Uncompressed,
                    ),
                };
                Ok(FileWriter { image, file_type, mode, path: copy_slice(file_path), plan, base: 0 })
            },
        }
    }

    /// Create a new SLOW5 file, if one already exists, file will be written
    /// over. The file is not compressed; its header has read group 0 and
    /// nothing else.
    pub fn create(file_path: &[u8]) -> (res: Result<Self, Slow5Error>)
        ensures
            res matches Ok(writer) ==> writer.wf(),
            res.is_ok() <==> file_type_of(file_path@).is_some() && nul_free(file_path@),
            file_type_of(file_path@).is_none() ==> res matches Err(Slow5Error::InvalidFilePath(_)),
            file_type_of(file_path@).is_some() ==> (match WriteOptionsView::plain().opened(
                file_path@,
                file_type_of(file_path@).unwrap(),
                Mode::Write,
                None,
            ) {
                Ok(writer) => res.is_ok() && res.unwrap()@ == writer && writer.image.header == new_header(),
                Err(e) => res == Err::<Self, Slow5Error>(e),
            }),
    {
        let opts = WriteOptions::default();
        proof {
            lemma_plain_plan(opts@, FileType::Slow5);
            lemma_plain_plan(opts@, FileType::Blow5);
        }
        Self::with_options(file_path, &opts, Mode::Write, None)
    }

    /// Append to a previously created file, whose contents are `existing`.
    /// Neither the header nor the compression is set again.
    pub fn append(file_path: &[u8], existing: FileImage) -> (res: Result<Self, Slow5Error>)
        requires
            existing.wf(),
        ensures
            res matches Ok(writer) ==> writer.wf(),
            res.is_ok() <==> file_type_of(file_path@).is_some() && nul_free(file_path@),
            file_type_of(file_path@).is_none() ==> res matches Err(Slow5Error::InvalidFilePath(_)),
            file_type_of(file_path@).is_some() ==> (match WriteOptionsView::plain().opened(
                file_path@,
                file_type_of(file_path@).unwrap(),
                Mode::Append,
                Some(existing@),
            ) {
                Ok(writer) => res.is_ok() && res.unwrap()@ == writer && writer.image == existing@,
                Err(e) => res == Err::<Self, Slow5Error>(e),
            }),
    {
        let opts = WriteOptions::default();
        Self::with_options(file_path, &opts, Mode::Append, Some(existing))
    }

    /// Get file's record compression
    pub fn record_compression(&self) -> (method: RecordCompression)
        ensures
            method == self@.image.rec_comp,
    {
        self.image.record_compression()
    }

    /// Get file's signal compression
    pub fn signal_compression(&self) -> (method: SignalCompression)
        ensures
            method == self@.image.sig_comp,
    {
        self.image.signal_compression()
    }

    /// Tells whether the file accepts a record, without adding it: what
    /// [`FileWriter::add_record`] would return for it.
    pub fn check_record(&self, record: &Record) -> (res: Result<(), Slow5Error>)
        requires
            self.wf(),
            record.wf(),
        ensures
            self@.image.has_record(record@.read_id) ==> (res matches Err(Slow5Error::DuplicateReadId(id))
                && id@ == record@.read_id),
            !self@.image.has_record(record@.read_id) && !conforms(record@, self@.image.header) ==> res
                == Err::<(), Slow5Error>(Slow5Error::NullArgument),
            !self@.image.has_record(record@.read_id) && conforms(record@, self@.image.header) ==> res.is_ok(),
    {
        self.image.check_record(record)
    }

    /// Add [`Record`] to SLOW5 file.
    ///
    /// Attempting to add a record with a read ID already in the SLOW5 file
    /// will result in `DuplicateReadId`; a record that does not conform to the
    /// header of the file is refused with `NullArgument`. A refused record
    /// leaves the file as it was.
    pub fn add_record(&mut self, record: &Record) -> (res: Result<(), Slow5Error>)
        requires
            old(self).wf(),
            record.wf(),
        ensures
            final(self).wf(),
            final(self)@.file_type == old(self)@.file_type && final(self)@.mode == old(self)@.mode,
            final(self)@.path == old(self)@.path && final(self)@.plan == old(self)@.plan,
            final(self)@.base == old(self)@.base,
            old(self)@.image.has_record(record@.read_id) ==> (res matches Err(Slow5Error::DuplicateReadId(id))
                && id@ == record@.read_id) && final(self)@.image == old(self)@.image,
            !old(self)@.image.has_record(record@.read_id) && !conforms(record@, old(self)@.image.header)
                ==> res == Err::<(), Slow5Error>(Slow5Error::NullArgument) && final(self)@.image == old(
                self,
            )@.image,
            !old(self)@.image.has_record(record@.read_id) && conforms(record@, old(self)@.image.header)
                ==> res.is_ok() && final(self)@.image == old(self)@.image.with_record(record@),
    {
        self.image.add_record(record.clone())
    }

    /// Access header of FileWriter
    pub fn header(&self) -> (header: &Header)
        ensures
            header@ == self@.image.header,
            self.wf() ==> header.wf(),
    {
        self.image.header()
    }

    /// The path of the file.
    pub fn path(&self) -> (path: &[u8])
        ensures
            path@ == self@.path,
    {
        self.path.as_slice()
    }

    /// How the file was opened.
    pub fn mode(&self) -> (mode: Mode)
        ensures
            mode == self@.mode,
    {
        self.mode
    }

    /// The representation of the file.
    pub fn file_type(&self) -> (file_type: FileType)
        ensures
            file_type == self@.file_type,
    {
        self.file_type
    }

    /// Number of positions that the file had when it was opened; the
    /// positions from there on hold the records added since.
    pub fn base(&self) -> (base: usize)
        ensures
            base == self@.base,
    {
        self.base
    }

    /// The operations that finalized the file, in the order in which they
    /// were performed.
    pub fn finalization(&self) -> (plan: &Vec<EngineOp>)
        ensures
            op_views(plan@) == self@.plan,
    {
        &self.plan
    }

    /// Close the SLOW5 file and hand back its contents.
    pub fn close(self) -> (image: FileImage)
        ensures
            image@ == self@.image,
            self.wf() ==> image.wf(),
    {
        self.image
    }
}

impl HeaderExt for FileWriter {
    open spec fn header_view(&self) -> HeaderView {
        self@.image.header
    }

    open spec fn header_wf(&self) -> bool {
        self.wf()
    }

    fn header(&self) -> (header: &Header) {
        self.image.header()
    }
}

/// Options without attributes and auxiliary fields finalize a file of either
/// type, whatever their compression and read-group count: the header then
/// has one read group more than the options count and nothing else.
pub proof fn lemma_plain_plan(opts: WriteOptionsView, file_type: FileType)
    requires
        opts.attr_names.len() == 0,
        opts.aux_names.len() == 0,
        opts.enum_names.len() == 0,
    ensures
        opts.finalized(file_type) == Ok::<HeaderView, Slow5Error>(
            HeaderView { read_groups: (1 + opts.num_read_groups) as nat, ..new_header() },
        ),
{
    let plan = opts.plan(file_type);
    let start = new_header();
    let grown = HeaderView { read_groups: (1 + opts.num_read_groups) as nat, ..start };
    assert(attr_ops(opts.attr_names, opts.attr_keys, opts.attr_vals, 0) =~= Seq::empty());
    assert(aux_ops(opts.aux_names, opts.aux_types) =~= Seq::empty());
    assert(enum_ops(opts.enum_names, opts.enum_labels) =~= Seq::empty());
    if file_type == FileType::Blow5 {
        assert(plan =~= seq![
            EngineOpView::SetCompression(opts.rec_comp, opts.sig_comp),
            EngineOpView::AddReadGroups(opts.num_read_groups),
            EngineOpView::WriteHeader,
        ]);
        assert(crate::engine::run_prefix(plan, start, 0) == Ok::<HeaderView, Slow5Error>(start));
        assert(crate::engine::run_prefix(plan, start, 1) == Ok::<HeaderView, Slow5Error>(start));
        assert(crate::engine::run_prefix(plan, start, 2) == Ok::<HeaderView, Slow5Error>(grown));
        assert(crate::engine::run_prefix(plan, start, 3) == Ok::<HeaderView, Slow5Error>(grown));
    } else {
        assert(plan =~= seq![EngineOpView::AddReadGroups(opts.num_read_groups), EngineOpView::WriteHeader]);
        assert(crate::engine::run_prefix(plan, start, 0) == Ok::<HeaderView, Slow5Error>(start));
        assert(crate::engine::run_prefix(plan, start, 1) == Ok::<HeaderView, Slow5Error>(grown));
        assert(crate::engine::run_prefix(plan, start, 2) == Ok::<HeaderView, Slow5Error>(grown));
    }
}

} // verus!
