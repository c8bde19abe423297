//! Module for dealing with SLOW5 headers

use vstd::prelude::*;
use crate::auxiliary::{FieldType, FieldTypeView, MAX_ENUM_LABELS, TAG_ENUM};
use crate::bytes::{byte_seqs, copy_slice, nul_free, nul_position, to_cstring, NameWalk};
use crate::error::Slow5Error;
use crate::table::Table;

verus! {

/// Largest number of read groups a header can hold: a read group is named by
/// a 32-bit index.
pub const MAX_READ_GROUPS: u64 = 4294967296;

/// Return code of the header for an attribute value that cannot be set.
pub const SET_ATTRIBUTE_REFUSED: i32 = -1;

/// The header of a new file, before it is finalized: read group 0 alone.
pub open spec fn new_header() -> HeaderView {
    HeaderView {
        read_groups: 1,
        attr_names: Seq::empty(),
        attr_keys: Seq::empty(),
        attr_vals: Seq::empty(),
        aux_names: Seq::empty(),
        aux_types: Seq::empty(),
    }
}

/// What a header holds.
pub struct HeaderView {
    /// Number of read groups; a header always has read group 0.
    pub read_groups: nat,
    /// The registered attribute names, in the order of registration.
    pub attr_names: Seq<Seq<u8>>,
    /// The (attribute, read group) pairs that have a value, in the order in
    /// which they first got one.
    pub attr_keys: Seq<(Seq<u8>, u32)>,
    /// The attribute values, in the order of `attr_keys`.
    pub attr_vals: Seq<Seq<u8>>,
    /// The auxiliary field names, in schema order.
    pub aux_names: Seq<Seq<u8>>,
    /// The auxiliary field types, in the order of `aux_names`.
    pub aux_types: Seq<FieldTypeView>,
}

impl HeaderView {
    /// Every attribute value belongs to a registered attribute and an
    /// existing read group, names are unique, and enum labels fit an 8-bit
    /// index.
    pub open spec fn wf(self) -> bool {
        &&& 1 <= self.read_groups <= MAX_READ_GROUPS
        &&& self.attr_names.no_duplicates()
        &&& self.attr_keys.no_duplicates()
        &&& self.attr_keys.len() == self.attr_vals.len()
        &&& forall|i: int|
            0 <= i < self.attr_keys.len() ==> self.attr_names.contains((#[trigger] self.attr_keys[i]).0)
                && self.attr_keys[i].1 < self.read_groups
        &&& self.aux_names.no_duplicates()
        &&& self.aux_names.len() == self.aux_types.len()
        &&& forall|i: int|
            0 <= i < self.aux_types.len() ==> (#[trigger] self.aux_types[i]).labels.len() <= MAX_ENUM_LABELS
    }

    /// Whether the attribute `name` is registered.
    pub open spec fn is_registered(self, name: Seq<u8>) -> bool {
        self.attr_names.contains(name)
    }

    /// Whether attribute `name` has a value in `read_group`.
    pub open spec fn has_value(self, name: Seq<u8>, read_group: u32) -> bool {
        self.attr_keys.contains((name, read_group))
    }

    /// The value of attribute `name` in `read_group`.
    pub open spec fn value(self, name: Seq<u8>, read_group: u32) -> Seq<u8> {
        self.attr_vals[self.attr_keys.index_of((name, read_group))]
    }

    /// Whether the schema has an auxiliary field `name`.
    pub open spec fn has_aux(self, name: Seq<u8>) -> bool {
        self.aux_names.contains(name)
    }

    /// The type of the auxiliary field `name`.
    pub open spec fn aux_type(self, name: Seq<u8>) -> FieldTypeView {
        self.aux_types[self.aux_names.index_of(name)]
    }

    /// Whether the schema has an auxiliary enum field `name` with labels.
    pub open spec fn has_labels(self, name: Seq<u8>) -> bool {
        self.has_aux(name) && self.aux_type(name).tag == TAG_ENUM && self.aux_type(name).labels.len() > 0
    }

    /// What adding `count` read groups gives: the header with that many
    /// more, or `FailedAddReadGroup` with the number of the addition that
    /// found every 32-bit index taken.
    pub open spec fn add_read_groups(self, count: u32) -> Result<HeaderView, Slow5Error> {
        if self.read_groups + count <= MAX_READ_GROUPS {
            Ok(HeaderView { read_groups: (self.read_groups + count) as nat, ..self })
        } else {
            Err(Slow5Error::FailedAddReadGroup((MAX_READ_GROUPS - self.read_groups) as u32))
        }
    }

    /// What registering attribute `name` gives. A name with a NUL byte is
    /// refused.
    pub open spec fn add_attribute(self, name: Seq<u8>) -> Result<HeaderView, Slow5Error> {
        if !nul_free(name) {
            Err(Slow5Error::InteriorNul(nul_position(name) as usize))
        } else {
            Ok(self.with_attribute(name))
        }
    }

    /// What setting attribute `name` to `value` in `read_group` gives.
    /// Neither may hold a NUL byte, the attribute must be registered and the
    /// read group must exist.
    pub open spec fn set_attribute(self, name: Seq<u8>, value: Seq<u8>, read_group: u32) -> Result<
        HeaderView,
        Slow5Error,
    > {
        if !nul_free(name) {
            Err(Slow5Error::InteriorNul(nul_position(name) as usize))
        } else if !nul_free(value) {
            Err(Slow5Error::InteriorNul(nul_position(value) as usize))
        } else if !self.is_registered(name) || read_group >= self.read_groups {
            Err(Slow5Error::SetAttributeError(SET_ATTRIBUTE_REFUSED))
        } else {
            Ok(self.with_value(name, read_group, value))
        }
    }

    /// What reading attribute `name` in `read_group` gives.
    pub open spec fn get_attribute(self, name: Seq<u8>, read_group: u32) -> Result<Seq<u8>, Slow5Error> {
        if !nul_free(name) {
            Err(Slow5Error::InteriorNul(nul_position(name) as usize))
        } else if !self.has_value(name, read_group) {
            Err(Slow5Error::AttributeError)
        } else {
            Ok(self.value(name, read_group))
        }
    }

    /// What adding auxiliary field `name` of type `field_type` gives. The
    /// name and the labels may hold no NUL byte, and there may be at most
    /// `MAX_ENUM_LABELS` labels.
    pub open spec fn add_aux_field(self, name: Seq<u8>, field_type: FieldTypeView) -> Result<
        HeaderView,
        Slow5Error,
    > {
        if !nul_free(name) {
            Err(Slow5Error::InteriorNul(nul_position(name) as usize))
        } else if field_type.labels.len() > MAX_ENUM_LABELS {
            Err(Slow5Error::TooManyLabels(field_type.labels.len() as usize))
        } else if !labels_nul_free(field_type.labels) {
            Err(Slow5Error::InteriorNul(nul_position(field_type.labels[first_bad_label(field_type.labels)]) as usize))
        } else {
            Ok(self.with_aux(name, field_type))
        }
    }

    /// The header with attribute `name` registered: unchanged when it already
    /// is.
    pub open spec fn with_attribute(self, name: Seq<u8>) -> HeaderView {
        if self.is_registered(name) {
            self
        } else {
            HeaderView { attr_names: self.attr_names.push(name), ..self }
        }
    }

    /// The header with `value` for attribute `name` in `read_group`: a value
    /// already there is replaced.
    pub open spec fn with_value(self, name: Seq<u8>, read_group: u32, value: Seq<u8>) -> HeaderView {
        if self.has_value(name, read_group) {
            HeaderView {
                attr_vals: self.attr_vals.update(self.attr_keys.index_of((name, read_group)), value),
                ..self
            }
        } else {
            HeaderView {
                attr_keys: self.attr_keys.push((name, read_group)),
                attr_vals: self.attr_vals.push(value),
                ..self
            }
        }
    }

    /// The header with auxiliary field `name` of type `field_type`: a field
    /// already in the schema keeps its place and takes the new type.
    pub open spec fn with_aux(self, name: Seq<u8>, field_type: FieldTypeView) -> HeaderView {
        if self.has_aux(name) {
            HeaderView { aux_types: self.aux_types.update(self.aux_names.index_of(name), field_type), ..self }
        } else {
            HeaderView {
                aux_names: self.aux_names.push(name),
                aux_types: self.aux_types.push(field_type),
                ..self
            }
        }
    }
}

/// Whether every label of a list is free of NUL bytes.
pub open spec fn labels_nul_free(labels: Seq<Seq<u8>>) -> bool {
    forall|i: int| 0 <= i < labels.len() ==> nul_free(#[trigger] labels[i])
}

/// Whether label `i` is the first label with a NUL byte.
pub open spec fn is_first_bad_label(labels: Seq<Seq<u8>>, i: int) -> bool {
    &&& 0 <= i < labels.len()
    &&& !nul_free(labels[i])
    &&& labels_nul_free(labels.subrange(0, i))
}

/// Index of the first label with a NUL byte, in a list that has one.
pub open spec fn first_bad_label(labels: Seq<Seq<u8>>) -> int {
    choose|i: int| is_first_bad_label(labels, i)
}

/// A list of labels has at most one first label with a NUL byte.
pub proof fn lemma_first_bad_label(labels: Seq<Seq<u8>>, i: int)
    requires
        is_first_bad_label(labels, i),
    ensures
        first_bad_label(labels) == i,
        !labels_nul_free(labels),
{
    let j = first_bad_label(labels);
    if j < i {
        assert(labels.subrange(0, i)[j] == labels[j]);
    } else if i < j {
        assert(labels.subrange(0, j)[i] == labels[i]);
    }
}

/// Checks that no label holds a NUL byte; the error names the first NUL byte
/// of the first label that has one.
pub fn check_labels(labels: &Vec<Vec<u8>>) -> (res: Result<(), Slow5Error>)
    ensures
        labels_nul_free(byte_seqs(labels@)) ==> res.is_ok(),
        !labels_nul_free(byte_seqs(labels@)) ==> res == Err::<(), Slow5Error>(
            Slow5Error::InteriorNul(
                nul_position(byte_seqs(labels@)[first_bad_label(byte_seqs(labels@))]) as usize,
            ),
        ),
{
    let ghost all = byte_seqs(labels@);
    let mut i: usize = 0;
    while i < labels.len()
        invariant
            i <= labels@.len(),
            all == byte_seqs(labels@),
            labels_nul_free(all.subrange(0, i as int)),
        decreases labels@.len() - i,
    {
        match to_cstring(labels[i].as_slice()) {
            Err(e) => {
                proof {
                    assert(all[i as int] == labels@[i as int]@);
                    lemma_first_bad_label(all, i as int);
                }
                return Err(e);
            },
            Ok(_) => {},
        }
        i += 1;
        assert forall|k: int| 0 <= k < i implies nul_free(#[trigger] all.subrange(0, i as int)[k]) by {
            if k < i - 1 {
                assert(all.subrange(0, i - 1)[k] == all[k]);
            } else {
                assert(all[k] == labels@[k]@);
            }
        }
    }
    assert(all.subrange(0, i as int) =~= all);
    Ok(())
}

/// Represents a SLOW5 header
#[derive(Debug)]
pub struct Header {
    read_groups: u64,
    attr_names: Table<Vec<u8>, ()>,
    attr_values: Table<(Vec<u8>, u32), Vec<u8>>,
    aux: Table<Vec<u8>, FieldType>,
}

impl View for Header {
    type V = HeaderView;

    closed spec fn view(&self) -> HeaderView {
        HeaderView {
            read_groups: self.read_groups as nat,
            attr_names: self.attr_names.keys(),
            attr_keys: self.attr_values.keys(),
            attr_vals: byte_seqs(self.attr_values.vals()),
            aux_names: self.aux.keys(),
            aux_types: self.aux.vals().map_values(|t: FieldType| t@),
        }
    }
}

impl Header {
    /// The tables behind the header are in order.
    pub closed spec fn inv(&self) -> bool {
        &&& self.attr_names.wf()
        &&& self.attr_values.wf()
        &&& self.aux.wf()
    }

    /// The header is well formed.
    pub open spec fn wf(&self) -> bool {
        self.inv() && self@.wf()
    }

    /// The header of a new file: read group 0, no attributes and no
    /// auxiliary fields.
    pub fn new() -> (header: Self)
        ensures
            header.wf(),
            header@ == new_header(),
    {
        let header = Header {
            read_groups: 1,
            attr_names: Table::new(),
            attr_values: Table::new(),
            aux: Table::new(),
        };
        assert(header@.attr_vals =~= Seq::empty());
        assert(header@.aux_types =~= Seq::empty());
        header
    }

    /// Number of read groups.
    pub fn num_read_groups(&self) -> (n: u64)
        ensures
            n == self@.read_groups,
    {
        self.read_groups
    }

    /// Adds `count` read groups. Fails with `FailedAddReadGroup` when the
    /// header cannot hold that many more, and then adds none.
    pub fn add_read_groups(&mut self, count: u32) -> (res: Result<(), Slow5Error>)
        requires
            old(self).wf(),
        ensures
            final(self).wf(),
            match old(self)@.add_read_groups(count) {
                Ok(after) => res.is_ok() && final(self)@ == after,
                Err(e) => res == Err::<(), Slow5Error>(e) && final(self)@ == old(self)@,
            },
    {
        if count as u64 > MAX_READ_GROUPS - self.read_groups {
            return Err(Slow5Error::FailedAddReadGroup((MAX_READ_GROUPS - self.read_groups) as u32));
        }
        self.read_groups = self.read_groups + count as u64;
        Ok(())
    }

    /// Add attribute to SLOW5 file. Registering a name again changes
    /// nothing; a name with a NUL byte is refused.
    pub fn add_attribute(&mut self, attr: &[u8]) -> (res: Result<(), Slow5Error>)
        requires
            old(self).wf(),
        ensures
            final(self).wf(),
            match old(self)@.add_attribute(attr@) {
                Ok(after) => res.is_ok() && final(self)@ == after,
                Err(e) => res == Err::<(), Slow5Error>(e) && final(self)@ == old(self)@,
            },
    {
        match to_cstring(attr) {
            Err(e) => {
                return Err(e);
            },
            Ok(_) => {},
        }
        let key = copy_slice(attr);
        proof {
            self.attr_names.lemma_wf();
        }
        if self.attr_names.position(&key).is_none() {
            self.attr_names.insert(key, ());
            proof {
                self.attr_names.lemma_wf();
                assert forall|i: int| 0 <= i < self@.attr_keys.len() implies self@.attr_names.contains(
                    (#[trigger] self@.attr_keys[i]).0,
                ) by {
                    let name = old(self)@.attr_keys[i].0;
                    assert(old(self)@.attr_names.contains(name));
                    let j = old(self)@.attr_names.index_of(name);
                    assert(self@.attr_names[j] == name);
                }
            }
        }
        Ok(())
    }

    /// Set the attribute for a particular read group. The attribute must be
    /// registered and the read group must exist; neither the name nor the
    /// value may hold a NUL byte.
    pub fn set_attribute(&mut self, attr: &[u8], value: &[u8], read_group: u32) -> (res: Result<
        (),
        Slow5Error,
    >)
        requires
            old(self).wf(),
        ensures
            final(self).wf(),
            match old(self)@.set_attribute(attr@, value@, read_group) {
                Ok(after) => res.is_ok() && final(self)@ == after,
                Err(e) => res == Err::<(), Slow5Error>(e) && final(self)@ == old(self)@,
            },
    {
        match to_cstring(attr) {
            Err(e) => {
                return Err(e);
            },
            Ok(_) => {},
        }
        match to_cstring(value) {
            Err(e) => {
                return Err(e);
            },
            Ok(_) => {},
        }
        let name = copy_slice(attr);
        if self.attr_names.position(&name).is_none() || read_group as u64 >= self.read_groups {
            return Err(Slow5Error::SetAttributeError(SET_ATTRIBUTE_REFUSED));
        }
        let ghost before = self.attr_values;
        proof {
            before.lemma_wf();
        }
        self.attr_values.insert((name, read_group), copy_slice(value));
        proof {
            self.attr_values.lemma_wf();
            let key = (attr@, read_group);
            if before.contains(key) {
                assert(self@.attr_vals =~= old(self)@.attr_vals.update(before.index(key), value@));
            } else {
                assert(self@.attr_vals =~= old(self)@.attr_vals.push(value@));
            }
            assert(self@ == old(self)@.with_value(attr@, read_group, value@));
        }
        Ok(())
    }

    /// Get attribute value for a particular key and read group.
    pub fn get_attribute(&self, attr: &[u8], read_group: u32) -> (res: Result<&[u8], Slow5Error>)
        requires
            self.wf(),
        ensures
            match self@.get_attribute(attr@, read_group) {
                Ok(value) => res.is_ok() && res.unwrap()@ == value,
                Err(e) => res == Err::<&[u8], Slow5Error>(e),
            },
    {
        match to_cstring(attr) {
            Err(e) => {
                return Err(e);
            },
            Ok(_) => {},
        }
        let key = (copy_slice(attr), read_group);
        match self.attr_values.position(&key) {
            None => Err(Slow5Error::AttributeError),
            Some(i) => Ok(self.attr_values.val_at(i).as_slice()),
        }
    }

    /// Add auxiliary field to header. A name already in the schema keeps its
    /// place and takes the new type. The name and the labels of an enum type
    /// may hold no NUL byte, and an enum type may have at most
    /// `MAX_ENUM_LABELS` labels.
    pub fn add_aux_field(&mut self, name: &[u8], field_type: FieldType) -> (res: Result<(), Slow5Error>)
        requires
            old(self).wf(),
        ensures
            final(self).wf(),
            match old(self)@.add_aux_field(name@, field_type@) {
                Ok(after) => res.is_ok() && final(self)@ == after,
                Err(e) => res == Err::<(), Slow5Error>(e) && final(self)@ == old(self)@,
            },
    {
        match to_cstring(name) {
            Err(e) => {
                return Err(e);
            },
            Ok(_) => {},
        }
        match &field_type {
            FieldType::Enum(labels) => {
                if labels.len() > MAX_ENUM_LABELS {
                    return Err(Slow5Error::TooManyLabels(labels.len()));
                }
                match check_labels(labels) {
                    Err(e) => {
                        return Err(e);
                    },
                    Ok(_) => {},
                }
            },
            _ => {
                assert(field_type@.labels.len() == 0);
            },
        }
        let ghost before = self.aux;
        proof {
            before.lemma_wf();
        }
        self.aux.insert(copy_slice(name), field_type);
        proof {
            self.aux.lemma_wf();
            if before.contains(name@) {
                assert(self@.aux_types =~= old(self)@.aux_types.update(before.index(name@), field_type@));
            } else {
                assert(self@.aux_types =~= old(self)@.aux_types.push(field_type@));
            }
            assert(self@ == old(self)@.with_aux(name@, field_type@));
        }
        Ok(())
    }

    /// The type of the auxiliary field `name`, if the schema has it.
    pub fn aux_field_type(&self, name: &[u8]) -> (field_type: Option<&FieldType>)
        requires
            self.wf(),
        ensures
            field_type.is_some() <==> self@.has_aux(name@),
            field_type matches Some(t) ==> t@ == self@.aux_type(name@),
    {
        let key = copy_slice(name);
        match self.aux.position(&key) {
            None => None,
            Some(i) => Some(self.aux.val_at(i)),
        }
    }

    /// Return iterator over auxiliary field names, in schema order. If no
    /// auxiliary fields are present, the iterator will be empty and return
    /// None on the next iteration.
    pub fn aux_names_iter(&self) -> (iter: AuxNamesIter<'_>)
        requires
            self.wf(),
        ensures
            iter.rest() == self@.aux_names,
    {
        let names = self.aux.key_list();
        assert(byte_seqs(names@) =~= self@.aux_names);
        AuxNamesIter { walk: NameWalk::new(names) }
    }

    /// The registered attribute names, in the order of registration.
    pub fn attribute_names(&self) -> (names: &Vec<Vec<u8>>)
        requires
            self.wf(),
        ensures
            byte_seqs(names@) == self@.attr_names,
    {
        let names = self.attr_names.key_list();
        assert(byte_seqs(names@) =~= self@.attr_names);
        names
    }
}

/// Trait for common Header methods
pub trait HeaderExt {
    /// What the header holds.
    spec fn header_view(&self) -> HeaderView;

    /// Whether the value is in order, so that its header can be read.
    spec fn header_wf(&self) -> bool;

    /// Returns Header
    fn header(&self) -> (header: &Header)
        requires
            self.header_wf(),
        ensures
            header.wf(),
            header@ == self.header_view(),
    ;

    /// Get value for a given attribute and read group
    fn get_attribute(&self, attr: &[u8], read_group: u32) -> (res: Result<&[u8], Slow5Error>)
        requires
            self.header_wf(),
        ensures
            match self.header_view().get_attribute(attr@, read_group) {
                Ok(value) => res.is_ok() && res.unwrap()@ == value,
                Err(e) => res == Err::<&[u8], Slow5Error>(e),
            },
    {
        self.header().get_attribute(attr, read_group)
    }

    /// Iterator to auxiliary names
    fn aux_names_iter(&self) -> (iter: AuxNamesIter<'_>)
        requires
            self.header_wf(),
        ensures
            iter.rest() == self.header_view().aux_names,
    {
        self.header().aux_names_iter()
    }
}

impl HeaderExt for Header {
    open spec fn header_view(&self) -> HeaderView {
        self@
    }

    open spec fn header_wf(&self) -> bool {
        self.wf()
    }

    fn header(&self) -> (header: &Header) {
        self
    }
}

/// Iterator over auxiliary field names of a [`Header`], usually using
/// [`Header::aux_names_iter`]
#[derive(Debug)]
pub struct AuxNamesIter<'a> {
    walk: NameWalk<'a>,
}

impl<'a> AuxNamesIter<'a> {
    /// The names not yet handed out, in schema order.
    pub closed spec fn rest(&self) -> Seq<Seq<u8>> {
        self.walk.rest()
    }

    /// The next auxiliary field name, or `None` after the last.
    pub fn next(&mut self) -> (name: Option<&'a [u8]>)
        ensures
            old(self).rest().len() == 0 ==> name.is_none() && final(self).rest() == old(self).rest(),
            old(self).rest().len() > 0 ==> name.is_some() && name.unwrap()@ == old(self).rest()[0]
                && final(self).rest() == old(self).rest().drop_first(),
    {
        self.walk.next()
    }

    /// Number of names not yet handed out.
    pub fn count(&self) -> (n: usize)
        ensures
            n == self.rest().len(),
    {
        self.walk.count()
    }
}

} // verus!
