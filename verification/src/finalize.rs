//! What finalizing a file makes of its options: the header that the
//! operations of the plan build, and when they all succeed.

use vstd::prelude::*;
use crate::auxiliary::{FieldTypeView, MAX_ENUM_LABELS, TAG_ENUM};
use crate::bytes::nul_free;
use crate::engine::{run, run_prefix, EngineOpView};
use crate::error::Slow5Error;
use crate::header::{labels_nul_free, new_header, HeaderView};
use crate::writer::{attr_ops, aux_ops, enum_ops, file_type_of, value_ops, FileType, WriteOptionsView};

verus! {

/// What the first operations of a list make of a header depends on those
/// operations only.
pub proof fn lemma_prefix_agree(a: Seq<EngineOpView>, b: Seq<EngineOpView>, header: HeaderView, n: int)
    requires
        0 <= n <= a.len(),
        n <= b.len(),
        forall|i: int| 0 <= i < n ==> a[i] == b[i],
    ensures
        run_prefix(a, header, n) == run_prefix(b, header, n),
    decreases n,
{
    if n > 0 {
        lemma_prefix_agree(a, b, header, n - 1);
    }
}

/// Operations that come after others work on what those have made of the
/// header, and are not performed once one has failed.
pub proof fn lemma_run_concat(a: Seq<EngineOpView>, b: Seq<EngineOpView>, header: HeaderView)
    ensures
        run(a + b, header) == (match run(a, header) {
            Ok(reached) => run(b, reached),
            Err(e) => Err(e),
        }),
{
    lemma_prefix_concat(a, b, header, b.len() as int);
}

/// The first operations of a second list, performed after a first list.
pub proof fn lemma_prefix_concat(a: Seq<EngineOpView>, b: Seq<EngineOpView>, header: HeaderView, k: int)
    requires
        0 <= k <= b.len(),
    ensures
        run_prefix(a + b, header, a.len() + k) == (match run(a, header) {
            Ok(reached) => run_prefix(b, reached, k),
            Err(e) => Err(e),
        }),
    decreases k,
{
    if k == 0 {
        lemma_prefix_agree(a + b, a, header, a.len() as int);
    } else {
        lemma_prefix_concat(a, b, header, k - 1);
        assert((a + b)[a.len() + k - 1] == b[k - 1]);
    }
}

/// One more operation at the end of a list works on what the list has made
/// of the header.
pub proof fn lemma_run_push(a: Seq<EngineOpView>, op: EngineOpView, header: HeaderView)
    ensures
        run(a.push(op), header) == (match run(a, header) {
            Ok(reached) => op.apply(reached),
            Err(e) => Err(e),
        }),
{
    lemma_prefix_agree(a.push(op), a, header, a.len() as int);
}

/// Keys with their values, as a map.
pub open spec fn assoc<K, V>(keys: Seq<K>, vals: Seq<V>) -> Map<K, V> {
    Map::new(|k: K| keys.contains(k), |k: K| vals[keys.index_of(k)])
}

/// In a sequence without duplicates, an item is found where it stands.
pub proof fn lemma_index_of<K>(keys: Seq<K>, i: int)
    requires
        keys.no_duplicates(),
        0 <= i < keys.len(),
    ensures
        keys.contains(keys[i]),
        keys.index_of(keys[i]) == i,
{
    assert(keys.contains(keys[i]));
    let j = keys.index_of(keys[i]);
    assert(0 <= j < keys.len() && keys[j] == keys[i]);
}

/// An item that a sequence contains is found at one of its positions.
pub proof fn lemma_found<K>(keys: Seq<K>, k: K)
    requires
        keys.contains(k),
    ensures
        0 <= keys.index_of(k) < keys.len(),
        keys[keys.index_of(k)] == k,
{
    let j = keys.index_of(k);
    assert(0 <= j < keys.len() && keys[j] == k);
}

/// Giving a key a value, in place where the key is present and at the end
/// where it is new, is an insertion into the map, and keeps the keys unique.
pub proof fn lemma_assoc_put<K, V>(keys: Seq<K>, vals: Seq<V>, k: K, v: V)
    requires
        keys.no_duplicates(),
        keys.len() == vals.len(),
    ensures
        keys.contains(k) ==> assoc(keys, vals.update(keys.index_of(k), v)) == assoc(keys, vals).insert(k, v),
        !keys.contains(k) ==> keys.push(k).no_duplicates() && assoc(keys.push(k), vals.push(v)) == assoc(
            keys,
            vals,
        ).insert(k, v),
{
    if keys.contains(k) {
        lemma_found(keys, k);
        let i = keys.index_of(k);
        assert forall|x: K| keys.contains(x) && x != k implies keys.index_of(x) != i by {
            lemma_found(keys, x);
        }
        assert(assoc(keys, vals.update(i, v)) =~= assoc(keys, vals).insert(k, v));
    } else {
        let more = keys.push(k);
        assert forall|i: int, j: int| 0 <= i < more.len() && 0 <= j < more.len() && i != j implies more[i]
            != more[j] by {
            if i < keys.len() {
                assert(keys.contains(keys[i]));
            }
            if j < keys.len() {
                assert(keys.contains(keys[j]));
            }
        }
        lemma_index_of(more, keys.len() as int);
        assert forall|x: K| keys.contains(x) implies more.contains(x) && more.index_of(x) == keys.index_of(x) by {
            lemma_found(keys, x);
            let i = keys.index_of(x);
            assert(more[i] == x);
            lemma_index_of(more, i);
        }
        assert forall|x: K| more.contains(x) && x != k implies keys.contains(x) by {
            lemma_found(more, x);
            let i = more.index_of(x);
            assert(keys[i] == x);
        }
        assert(assoc(more, vals.push(v)) =~= assoc(keys, vals).insert(k, v));
    }
}

impl HeaderView {
    /// The attribute values as a map from (attribute, read group).
    pub open spec fn attr_map(self) -> Map<(Seq<u8>, u32), Seq<u8>> {
        assoc(self.attr_keys, self.attr_vals)
    }

    /// The auxiliary schema as a map from field names.
    pub open spec fn aux_map(self) -> Map<Seq<u8>, FieldTypeView> {
        assoc(self.aux_names, self.aux_types)
    }

    /// Whether two headers have the same read groups and attribute names.
    pub open spec fn same_frame(self, other: HeaderView) -> bool {
        self.read_groups == other.read_groups && self.attr_names == other.attr_names
    }

    /// Whether two headers have the same attributes with the same values.
    pub open spec fn same_attributes(self, other: HeaderView) -> bool {
        self.attr_names == other.attr_names && self.attr_keys == other.attr_keys && self.attr_vals
            == other.attr_vals
    }

    /// Whether two headers have the same auxiliary schema.
    pub open spec fn same_schema(self, other: HeaderView) -> bool {
        self.aux_names == other.aux_names && self.aux_types == other.aux_types
    }
}

/// Setting a value of a registered attribute in an existing read group keeps
/// the header well formed and puts the value into the map of values.
pub proof fn lemma_with_value(header: HeaderView, name: Seq<u8>, read_group: u32, value: Seq<u8>)
    requires
        header.wf(),
        header.is_registered(name),
        read_group < header.read_groups,
    ensures
        header.with_value(name, read_group, value).wf(),
        header.with_value(name, read_group, value).attr_map() == header.attr_map().insert(
            (name, read_group),
            value,
        ),
        header.with_value(name, read_group, value).same_frame(header),
        header.with_value(name, read_group, value).same_schema(header),
{
    let after = header.with_value(name, read_group, value);
    lemma_assoc_put(header.attr_keys, header.attr_vals, (name, read_group), value);
    if !header.has_value(name, read_group) {
        assert forall|i: int| 0 <= i < after.attr_keys.len() implies after.attr_names.contains(
            (#[trigger] after.attr_keys[i]).0,
        ) && after.attr_keys[i].1 < after.read_groups by {
            if i < header.attr_keys.len() {
                assert(after.attr_keys[i] == header.attr_keys[i]);
            }
        }
    }
}

/// Registering an attribute keeps the header well formed and its values as
/// they are; a new name goes to the end of the names.
pub proof fn lemma_with_attribute(header: HeaderView, name: Seq<u8>)
    requires
        header.wf(),
    ensures
        header.with_attribute(name).wf(),
        header.with_attribute(name).is_registered(name),
        header.with_attribute(name).attr_keys == header.attr_keys,
        header.with_attribute(name).attr_vals == header.attr_vals,
        header.with_attribute(name).read_groups == header.read_groups,
        header.with_attribute(name).same_schema(header),
{
    let after = header.with_attribute(name);
    if !header.is_registered(name) {
        let units = Seq::new(header.attr_names.len(), |i: int| ());
        lemma_assoc_put(header.attr_names, units, name, ());
        assert(after.attr_names[header.attr_names.len() as int] == name);
        assert forall|i: int| 0 <= i < after.attr_keys.len() implies after.attr_names.contains(
            (#[trigger] after.attr_keys[i]).0,
        ) by {
            let owner = header.attr_keys[i].0;
            assert(header.attr_names.contains(owner));
            lemma_found(header.attr_names, owner);
            assert(after.attr_names[header.attr_names.index_of(owner)] == owner);
        }
    }
}

/// Adding a field to the schema keeps the header well formed and puts the
/// type into the map of types.
pub proof fn lemma_with_aux(header: HeaderView, name: Seq<u8>, field_type: FieldTypeView)
    requires
        header.wf(),
        field_type.labels.len() <= MAX_ENUM_LABELS,
    ensures
        header.with_aux(name, field_type).wf(),
        header.with_aux(name, field_type).aux_map() == header.aux_map().insert(name, field_type),
        header.with_aux(name, field_type).same_attributes(header),
        header.with_aux(name, field_type).read_groups == header.read_groups,
{
    lemma_assoc_put(header.aux_names, header.aux_types, name, field_type);
    let after = header.with_aux(name, field_type);
    if header.has_aux(name) {
        lemma_found(header.aux_names, name);
    }
    assert forall|i: int| 0 <= i < after.aux_types.len() implies (#[trigger] after.aux_types[i]).labels.len()
        <= MAX_ENUM_LABELS by {
        if i < header.aux_types.len() && after.aux_types[i] != field_type {
            assert(after.aux_types[i] == header.aux_types[i]);
        }
    }
}

/// The values of attribute `name` among the first `m` pairs, as a map.
pub open spec fn picked(name: Seq<u8>, keys: Seq<(Seq<u8>, u32)>, vals: Seq<Seq<u8>>, m: int) -> Map<
    (Seq<u8>, u32),
    Seq<u8>,
> {
    Map::new(
        |k: (Seq<u8>, u32)| keys.contains(k) && k.0 == name && keys.index_of(k) < m,
        |k: (Seq<u8>, u32)| vals[keys.index_of(k)],
    )
}

/// Whether the values of attribute `name` among the first `m` pairs hold no
/// NUL byte.
pub open spec fn values_ok(name: Seq<u8>, keys: Seq<(Seq<u8>, u32)>, vals: Seq<Seq<u8>>, m: int) -> bool {
    forall|j: int| 0 <= j < m && (#[trigger] keys[j]).0 == name ==> nul_free(vals[j])
}

/// Setting the values of a registered attribute succeeds exactly if none of
/// them holds a NUL byte, and then adds them to the values of the header.
pub proof fn lemma_value_ops(
    header: HeaderView,
    name: Seq<u8>,
    keys: Seq<(Seq<u8>, u32)>,
    vals: Seq<Seq<u8>>,
    m: int,
)
    requires
        header.wf(),
        header.is_registered(name),
        nul_free(name),
        keys.no_duplicates(),
        keys.len() == vals.len(),
        0 <= m <= keys.len(),
        forall|j: int| 0 <= j < keys.len() ==> (#[trigger] keys[j]).1 < header.read_groups,
    ensures
        match run(value_ops(name, keys, vals, m), header) {
            Ok(after) => values_ok(name, keys, vals, m) && after.wf() && after.same_frame(header)
                && after.same_schema(header) && after.attr_map() == header.attr_map().union_prefer_right(
                picked(name, keys, vals, m),
            ),
            Err(_) => !values_ok(name, keys, vals, m),
        },
    decreases m,
{
    if m == 0 {
        assert(value_ops(name, keys, vals, 0) =~= Seq::empty());
        assert(header.attr_map().union_prefer_right(picked(name, keys, vals, 0)) =~= header.attr_map());
    } else {
        lemma_value_ops(header, name, keys, vals, m - 1);
        let before = value_ops(name, keys, vals, m - 1);
        lemma_index_of(keys, m - 1);
        if keys[m - 1].0 == name {
            let op = EngineOpView::SetAttribute(name, vals[m - 1], keys[m - 1].1);
            lemma_run_push(before, op, header);
            match run(before, header) {
                Ok(reached) => {
                    if nul_free(vals[m - 1]) {
                        lemma_with_value(reached, name, keys[m - 1].1, vals[m - 1]);
                        let after = reached.with_value(name, keys[m - 1].1, vals[m - 1]);
                        assert(keys[m - 1] == (name, keys[m - 1].1));
                        assert(after.attr_map() =~= header.attr_map().union_prefer_right(
                            picked(name, keys, vals, m),
                        ));
                        assert(values_ok(name, keys, vals, m));
                    } else {
                        assert(!values_ok(name, keys, vals, m));
                    }
                },
                Err(_) => {
                    assert(!values_ok(name, keys, vals, m));
                },
            }
        } else {
            assert(picked(name, keys, vals, m) =~= picked(name, keys, vals, m - 1)) by {
                assert forall|k: (Seq<u8>, u32)|
                    keys.contains(k) && k.0 == name && keys.index_of(k) < m implies keys.index_of(k) < m - 1 by {
                    lemma_found(keys, k);
                }
            }
            match run(before, header) {
                Ok(_) => {
                    assert(values_ok(name, keys, vals, m));
                },
                Err(_) => {
                    assert(!values_ok(name, keys, vals, m));
                },
            }
        }
    }
}

/// The values of the first `n` attribute names, as a map.
pub open spec fn done_map(names: Seq<Seq<u8>>, keys: Seq<(Seq<u8>, u32)>, vals: Seq<Seq<u8>>, n: int) -> Map<
    (Seq<u8>, u32),
    Seq<u8>,
> {
    Map::new(
        |k: (Seq<u8>, u32)| keys.contains(k) && names.subrange(0, n).contains(k.0),
        |k: (Seq<u8>, u32)| vals[keys.index_of(k)],
    )
}

/// Whether the first `n` attribute names and all of their values hold no NUL
/// byte.
pub open spec fn attrs_ok(names: Seq<Seq<u8>>, keys: Seq<(Seq<u8>, u32)>, vals: Seq<Seq<u8>>, n: int) -> bool {
    &&& forall|i: int| 0 <= i < n ==> nul_free(#[trigger] names[i])
    &&& forall|i: int| 0 <= i < n ==> values_ok(#[trigger] names[i], keys, vals, keys.len() as int)
}

/// What a prefix of a sequence contains, one item at a time.
pub proof fn lemma_prefix_contains<K>(items: Seq<K>, n: int, x: K)
    requires
        0 < n <= items.len(),
    ensures
        items.subrange(0, n).contains(x) <==> items.subrange(0, n - 1).contains(x) || items[n - 1] == x,
{
    let longer = items.subrange(0, n);
    let shorter = items.subrange(0, n - 1);
    if longer.contains(x) {
        let i = choose|i: int| 0 <= i < longer.len() && longer[i] == x;
        if i < n - 1 {
            assert(shorter[i] == x);
        }
    }
    if shorter.contains(x) {
        let i = choose|i: int| 0 <= i < shorter.len() && shorter[i] == x;
        assert(longer[i] == x);
    }
    if items[n - 1] == x {
        assert(longer[n - 1] == x);
    }
}

/// Registering attributes and setting their values, name by name, on a
/// header without attributes succeeds exactly if no name and no value holds
/// a NUL byte, and then the header has those names, in their order, with
/// those values.
pub proof fn lemma_attr_ops(
    header: HeaderView,
    names: Seq<Seq<u8>>,
    keys: Seq<(Seq<u8>, u32)>,
    vals: Seq<Seq<u8>>,
    n: int,
)
    requires
        header.wf(),
        header.attr_names.len() == 0,
        header.attr_keys.len() == 0,
        names.no_duplicates(),
        keys.no_duplicates(),
        keys.len() == vals.len(),
        0 <= n <= names.len(),
        forall|j: int| 0 <= j < keys.len() ==> (#[trigger] keys[j]).1 < header.read_groups,
    ensures
        match run(attr_ops(names, keys, vals, n), header) {
            Ok(after) => attrs_ok(names, keys, vals, n) && after.wf() && after.read_groups
                == header.read_groups && after.same_schema(header) && after.attr_names == names.subrange(0, n)
                && after.attr_map() == done_map(names, keys, vals, n),
            Err(_) => !attrs_ok(names, keys, vals, n),
        },
    decreases n,
{
    if n == 0 {
        assert(attr_ops(names, keys, vals, 0) =~= Seq::empty());
        assert(header.attr_names =~= names.subrange(0, 0));
        assert(header.attr_map() =~= done_map(names, keys, vals, 0));
    } else {
        lemma_attr_ops(header, names, keys, vals, n - 1);
        let name = names[n - 1];
        let before = attr_ops(names, keys, vals, n - 1);
        let add = EngineOpView::AddAttribute(name);
        let values = value_ops(name, keys, vals, keys.len() as int);
        lemma_run_push(before, add, header);
        lemma_run_concat(before.push(add), values, header);
        match run(before, header) {
            Ok(reached) => {
                if nul_free(name) {
                    lemma_with_attribute(reached, name);
                    let registered = reached.with_attribute(name);
                    assert(!reached.is_registered(name)) by {
                        if reached.is_registered(name) {
                            lemma_found(names.subrange(0, n - 1), name);
                            let i = names.subrange(0, n - 1).index_of(name);
                            assert(names[i] == names[n - 1]);
                        }
                    }
                    assert(registered.attr_names =~= names.subrange(0, n));
                    lemma_value_ops(registered, name, keys, vals, keys.len() as int);
                    match run(values, registered) {
                        Ok(after) => {
                            assert(after.attr_map() =~= done_map(names, keys, vals, n)) by {
                                assert forall|k: (Seq<u8>, u32)| keys.contains(k) implies (names.subrange(
                                    0,
                                    n,
                                ).contains(k.0) <==> names.subrange(0, n - 1).contains(k.0) || k.0 == name) by {
                                    lemma_prefix_contains(names, n, k.0);
                                }
                                assert forall|k: (Seq<u8>, u32)| keys.contains(k) implies keys.index_of(k)
                                    < keys.len() by {
                                    lemma_found(keys, k);
                                }
                            }
                            assert(attrs_ok(names, keys, vals, n));
                        },
                        Err(_) => {
                            assert(!attrs_ok(names, keys, vals, n));
                        },
                    }
                } else {
                    assert(!attrs_ok(names, keys, vals, n));
                }
            },
            Err(_) => {
                assert(!attrs_ok(names, keys, vals, n));
            },
        }
    }
}

/// Whether a field with this name and these labels can be added to a
/// schema: neither holds a NUL byte and the labels fit an 8-bit index.
pub open spec fn field_ok(name: Seq<u8>, labels: Seq<Seq<u8>>) -> bool {
    nul_free(name) && labels.len() <= MAX_ENUM_LABELS && labels_nul_free(labels)
}

/// Whether each of the first `n` auxiliary fields can be added to a schema.
pub open spec fn aux_ok(names: Seq<Seq<u8>>, types: Seq<FieldTypeView>, n: int) -> bool {
    forall|k: int| 0 <= k < n ==> field_ok(#[trigger] names[k], types[k].labels)
}

/// Whether each of the first `n` auxiliary enum fields can be added to a
/// schema.
pub open spec fn enums_ok(names: Seq<Seq<u8>>, labels: Seq<Seq<Seq<u8>>>, n: int) -> bool {
    forall|k: int| 0 <= k < n ==> field_ok(#[trigger] names[k], labels[k])
}

/// The first `n` auxiliary enum fields, as a map from names to types.
pub open spec fn enum_map(names: Seq<Seq<u8>>, labels: Seq<Seq<Seq<u8>>>, n: int) -> Map<
    Seq<u8>,
    FieldTypeView,
> {
    Map::new(
        |k: Seq<u8>| names.subrange(0, n).contains(k),
        |k: Seq<u8>| FieldTypeView { tag: TAG_ENUM, labels: labels[names.index_of(k)] },
    )
}

/// Adding auxiliary fields to an empty schema succeeds exactly if each can
/// be added, and then the schema holds them in their order.
pub proof fn lemma_aux_ops(header: HeaderView, names: Seq<Seq<u8>>, types: Seq<FieldTypeView>, n: int)
    requires
        header.wf(),
        header.aux_names.len() == 0,
        names.no_duplicates(),
        names.len() == types.len(),
        0 <= n <= names.len(),
    ensures
        match run(aux_ops(names, types).subrange(0, n), header) {
            Ok(after) => aux_ok(names, types, n) && after.wf() && after.read_groups == header.read_groups
                && after.same_attributes(header) && after.aux_names == names.subrange(0, n) && after.aux_types
                == types.subrange(0, n),
            Err(_) => !aux_ok(names, types, n),
        },
    decreases n,
{
    let all = aux_ops(names, types);
    if n == 0 {
        assert(all.subrange(0, 0) =~= Seq::empty());
        assert(header.aux_names =~= names.subrange(0, 0));
        assert(header.aux_types =~= types.subrange(0, 0));
    } else {
        lemma_aux_ops(header, names, types, n - 1);
        let op = EngineOpView::AddAuxField(names[n - 1], types[n - 1]);
        assert(all.subrange(0, n) =~= all.subrange(0, n - 1).push(op));
        lemma_run_push(all.subrange(0, n - 1), op, header);
        match run(all.subrange(0, n - 1), header) {
            Ok(reached) => {
                if field_ok(names[n - 1], types[n - 1].labels) {
                    lemma_with_aux(reached, names[n - 1], types[n - 1]);
                    assert(!reached.has_aux(names[n - 1])) by {
                        if reached.has_aux(names[n - 1]) {
                            lemma_found(names.subrange(0, n - 1), names[n - 1]);
                            let i = names.subrange(0, n - 1).index_of(names[n - 1]);
                            assert(names[i] == names[n - 1]);
                        }
                    }
                    let after = reached.with_aux(names[n - 1], types[n - 1]);
                    assert(after.aux_names =~= names.subrange(0, n));
                    assert(after.aux_types =~= types.subrange(0, n));
                    assert(aux_ok(names, types, n));
                } else {
                    assert(!aux_ok(names, types, n));
                }
            },
            Err(_) => {
                assert(!aux_ok(names, types, n));
            },
        }
    }
}

/// Adding auxiliary enum fields to a schema succeeds exactly if each can be
/// added, and then the schema holds them beside the fields it had, with the
/// enum type where a name was there before.
pub proof fn lemma_enum_ops(header: HeaderView, names: Seq<Seq<u8>>, labels: Seq<Seq<Seq<u8>>>, n: int)
    requires
        header.wf(),
        names.no_duplicates(),
        names.len() == labels.len(),
        0 <= n <= names.len(),
    ensures
        match run(enum_ops(names, labels).subrange(0, n), header) {
            Ok(after) => enums_ok(names, labels, n) && after.wf() && after.read_groups == header.read_groups
                && after.same_attributes(header) && after.aux_map() == header.aux_map().union_prefer_right(
                enum_map(names, labels, n),
            ),
            Err(_) => !enums_ok(names, labels, n),
        },
    decreases n,
{
    let all = enum_ops(names, labels);
    if n == 0 {
        assert(all.subrange(0, 0) =~= Seq::empty());
        assert(header.aux_map().union_prefer_right(enum_map(names, labels, 0)) =~= header.aux_map());
    } else {
        lemma_enum_ops(header, names, labels, n - 1);
        let field_type = FieldTypeView { tag: TAG_ENUM, labels: labels[n - 1] };
        let op = EngineOpView::AddAuxField(names[n - 1], field_type);
        assert(all.subrange(0, n) =~= all.subrange(0, n - 1).push(op));
        lemma_run_push(all.subrange(0, n - 1), op, header);
        match run(all.subrange(0, n - 1), header) {
            Ok(reached) => {
                if field_ok(names[n - 1], labels[n - 1]) {
                    lemma_with_aux(reached, names[n - 1], field_type);
                    let after = reached.with_aux(names[n - 1], field_type);
                    lemma_index_of(names, n - 1);
                    assert(after.aux_map() =~= header.aux_map().union_prefer_right(
                        enum_map(names, labels, n),
                    )) by {
                        assert forall|k: Seq<u8>|
                            (names.subrange(0, n).contains(k) <==> names.subrange(0, n - 1).contains(k)
                                || k == names[n - 1]) by {
                            lemma_prefix_contains(names, n, k);
                        }
                    }
                    assert(enums_ok(names, labels, n));
                } else {
                    assert(!enums_ok(names, labels, n));
                }
            },
            Err(_) => {
                assert(!enums_ok(names, labels, n));
            },
        }
    }
}

impl WriteOptionsView {
    /// Whether a header can be built from the options: no attribute name,
    /// attribute value, field name or label holds a NUL byte, and no field has
    /// more labels than fit an 8-bit index.
    pub open spec fn valid(self) -> bool {
        &&& attrs_ok(self.attr_names, self.attr_keys, self.attr_vals, self.attr_names.len() as int)
        &&& aux_ok(self.aux_names, self.aux_types, self.aux_names.len() as int)
        &&& enums_ok(self.enum_names, self.enum_labels, self.enum_names.len() as int)
    }

    /// The auxiliary schema that the options ask for: the auxiliary fields
    /// with their types, and the auxiliary enum fields with their labels,
    /// which count where a name is given both ways.
    pub open spec fn schema(self) -> Map<Seq<u8>, FieldTypeView> {
        assoc(self.aux_names, self.aux_types).union_prefer_right(
            enum_map(self.enum_names, self.enum_labels, self.enum_names.len() as int),
        )
    }
}

/// Finalizing a new file succeeds exactly if a header can be built from the
/// options, and then the header holds what the options ask for: one read
/// group more than their count, their attribute names in their order, their
/// attribute values, and their auxiliary schema.
pub proof fn lemma_finalized(opts: WriteOptionsView, file_type: FileType)
    requires
        opts.wf(),
    ensures
        match opts.finalized(file_type) {
            Ok(header) => opts.valid() && header.wf() && header.read_groups == 1 + opts.num_read_groups
                && header.attr_names == opts.attr_names && header.attr_map() == assoc(
                opts.attr_keys,
                opts.attr_vals,
            ) && header.aux_map() == opts.schema(),
            Err(_) => !opts.valid(),
        },
{
    let start = new_header();
    let grown = HeaderView { read_groups: (1 + opts.num_read_groups) as nat, ..start };
    let head = (if file_type == FileType::Blow5 {
        seq![EngineOpView::SetCompression(opts.rec_comp, opts.sig_comp)]
    } else {
        Seq::empty()
    }).push(EngineOpView::AddReadGroups(opts.num_read_groups));
    let attrs = attr_ops(opts.attr_names, opts.attr_keys, opts.attr_vals, opts.attr_names.len() as int);
    let auxs = aux_ops(opts.aux_names, opts.aux_types);
    let enums = enum_ops(opts.enum_names, opts.enum_labels);
    let tail = enums.push(EngineOpView::WriteHeader);
    assert(opts.plan(file_type) == head + attrs + auxs + tail);
    assert(run(head, start) == Ok::<HeaderView, Slow5Error>(grown)) by {
        if file_type == FileType::Blow5 {
            assert(run_prefix(head, start, 0) == Ok::<HeaderView, Slow5Error>(start));
            assert(run_prefix(head, start, 1) == Ok::<HeaderView, Slow5Error>(start));
            assert(run_prefix(head, start, 2) == Ok::<HeaderView, Slow5Error>(grown));
        } else {
            assert(run_prefix(head, start, 0) == Ok::<HeaderView, Slow5Error>(start));
            assert(run_prefix(head, start, 1) == Ok::<HeaderView, Slow5Error>(grown));
        }
    }
    lemma_run_concat(head + attrs + auxs, tail, start);
    lemma_run_concat(head + attrs, auxs, start);
    lemma_run_concat(head, attrs, start);
    lemma_attr_ops(grown, opts.attr_names, opts.attr_keys, opts.attr_vals, opts.attr_names.len() as int);
    match run(attrs, grown) {
        Ok(with_attrs) => {
            assert(opts.attr_names.subrange(0, opts.attr_names.len() as int) =~= opts.attr_names);
            assert(with_attrs.attr_map() =~= assoc(opts.attr_keys, opts.attr_vals)) by {
                assert forall|k: (Seq<u8>, u32)| opts.attr_keys.contains(k) implies opts.attr_names.contains(
                    k.0,
                ) by {
                    lemma_found(opts.attr_keys, k);
                }
            }
            lemma_aux_ops(with_attrs, opts.aux_names, opts.aux_types, opts.aux_names.len() as int);
            assert(auxs.subrange(0, opts.aux_names.len() as int) =~= auxs);
            match run(auxs, with_attrs) {
                Ok(with_aux) => {
                    assert(with_aux.aux_names =~= opts.aux_names);
                    assert(with_aux.aux_types =~= opts.aux_types);
                    lemma_enum_ops(with_aux, opts.enum_names, opts.enum_labels, opts.enum_names.len() as int);
                    assert(enums.subrange(0, opts.enum_names.len() as int) =~= enums);
                    lemma_run_push(enums, EngineOpView::WriteHeader, with_aux);
                },
                Err(_) => {},
            }
        },
        Err(_) => {},
    }
}

/// The header of a finalized file answers for each attribute value of the
/// options with that value, and has no value that the options do not give.
pub proof fn lemma_finalized_values(opts: WriteOptionsView, file_type: FileType, name: Seq<u8>, read_group: u32)
    requires
        opts.wf(),
        opts.finalized(file_type).is_ok(),
    ensures
        opts.finalized(file_type).unwrap().has_value(name, read_group) <==> opts.attr_keys.contains(
            (name, read_group),
        ),
        opts.attr_keys.contains((name, read_group)) ==> opts.finalized(file_type).unwrap().value(
            name,
            read_group,
        ) == opts.attr_vals[opts.attr_keys.index_of((name, read_group))],
{
    lemma_finalized(opts, file_type);
    let header = opts.finalized(file_type).unwrap();
    let key = (name, read_group);
    assert(header.attr_map().contains_key(key) <==> assoc(opts.attr_keys, opts.attr_vals).contains_key(key));
    if opts.attr_keys.contains(key) {
        assert(header.attr_map()[key] == assoc(opts.attr_keys, opts.attr_vals)[key]);
    }
}

/// The header of a finalized file has the auxiliary fields of the options'
/// schema, with their types, and no others.
pub proof fn lemma_finalized_schema(opts: WriteOptionsView, file_type: FileType, name: Seq<u8>)
    requires
        opts.wf(),
        opts.finalized(file_type).is_ok(),
    ensures
        opts.finalized(file_type).unwrap().has_aux(name) <==> opts.schema().contains_key(name),
        opts.schema().contains_key(name) ==> opts.finalized(file_type).unwrap().aux_type(name)
            == opts.schema()[name],
        opts.schema().contains_key(name) <==> opts.aux_names.contains(name) || opts.enum_names.contains(name),
{
    lemma_finalized(opts, file_type);
    let header = opts.finalized(file_type).unwrap();
    assert(header.aux_map().contains_key(name) <==> opts.schema().contains_key(name));
    if opts.schema().contains_key(name) {
        assert(header.aux_map()[name] == opts.schema()[name]);
    }
    assert(opts.enum_names.subrange(0, opts.enum_names.len() as int) =~= opts.enum_names);
}

/// A new file can be created at a path exactly if the path selects a
/// representation and holds no NUL byte, an ASCII file is not to be
/// compressed, and a header can be built from the options.
pub proof fn lemma_can_create(opts: WriteOptionsView, path: Seq<u8>)
    requires
        opts.wf(),
    ensures
        opts.can_create(path) <==> file_type_of(path).is_some() && !(file_type_of(path) == Some(
            FileType::Slow5,
        ) && opts.compressed()) && nul_free(path) && opts.valid(),
{
    if let Some(file_type) = file_type_of(path) {
        lemma_finalized(opts, file_type);
    }
}

} // verus!
