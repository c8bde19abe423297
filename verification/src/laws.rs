//! Laws that relate the operations of the library to each other.

use vstd::prelude::*;
use crate::auxiliary::{AuxValueView, TAG_ENUM};
use crate::bytes::nul_free;
use crate::engine::{read_step_of, ReadOutcome, READ_END};
use crate::error::Slow5Error;
use crate::header::HeaderView;
use crate::image::{conforms, fits_schema, FileImageView, SlotView};
use crate::reader::{FileReaderView, RecordIterView};
use crate::record::RecordView;
use crate::writer::{
    blow5_ext, extension, file_name, file_type_of, is_last, last_position, lemma_last_position, lemma_plain_plan,
    slow5_ext, trimmed, FileType, FileWriterView, Mode, WriteOptionsView, DOT, SEPARATOR,
};

verus! {

/// A record that was written can be read back by its read id, and it comes
/// back as it was written: with its read id, read group, calibration
/// constants, raw signal and auxiliary values. Its read id is then taken, so
/// a second record with that read id is a duplicate.
pub proof fn lemma_round_trip(file: FileImageView, record: RecordView, cursor: nat)
    requires
        file.wf(),
        record.wf(),
        conforms(record, file.header),
        !file.has_record(record.read_id),
    ensures
        file.with_record(record).wf(),
        file.with_record(record).has_record(record.read_id),
        (FileReaderView { image: file.with_record(record), cursor }).get_record(record.read_id) == Ok::<
            RecordView,
            Slow5Error,
        >(record),
{
    let after = file.with_record(record);
    let n = file.slots.len() as int;
    assert(after.holds(n, record.read_id));
    assert forall|i: int, j: int, id: Seq<u8>|
        #![trigger after.holds(i, id), after.holds(j, id)]
        after.holds(i, id) && after.holds(j, id) implies i == j by {
        if i < n {
            assert(file.holds(i, id));
        }
        if j < n {
            assert(file.holds(j, id));
        }
    }
    let p = after.position(record.read_id);
    assert(after.holds(p, record.read_id));
}

/// Writing a record leaves every record that the file already had as it
/// was: it is still read back by its read id, unchanged.
pub proof fn lemma_records_kept(file: FileImageView, record: RecordView, id: Seq<u8>, cursor: nat)
    requires
        file.wf(),
        record.wf(),
        conforms(record, file.header),
        !file.has_record(record.read_id),
        file.has_record(id),
    ensures
        (FileReaderView { image: file.with_record(record), cursor }).get_record(id) == (FileReaderView {
            image: file,
            cursor,
        }).get_record(id),
{
    let after = file.with_record(record);
    lemma_round_trip(file, record, cursor);
    let p = file.position(id);
    assert(file.holds(p, id));
    assert(after.holds(p, id));
    let q = after.position(id);
    assert(after.holds(q, id));
    assert(p == q);
}

/// The schema decides what can be read from a record that conforms to it. A
/// field whose registered type differs from the type asked for is never
/// read; a field that has no value on the record is not found, which is
/// another error than a mismatch of types.
pub proof fn lemma_aux_schema_enforced(record: RecordView, header: HeaderView, name: Seq<u8>, want: u32)
    requires
        record.wf(),
        header.wf(),
        conforms(record, header),
        nul_free(name),
    ensures
        header.has_aux(name) && header.aux_type(name).tag != want ==> record.aux_get(name, want).is_err(),
        !record.has_aux(name) ==> record.aux_get(name, want) == Err::<AuxValueView, Slow5Error>(
            Slow5Error::AuxLoadFailure,
        ),
        record.has_aux(name) && header.aux_type(name).tag != want ==> record.aux_get(name, want) == Err::<
            AuxValueView,
            Slow5Error,
        >(Slow5Error::AuxTypeMismatch),
        Slow5Error::AuxLoadFailure != Slow5Error::AuxTypeMismatch,
{
    if record.has_aux(name) {
        let i = record.aux_names.index_of(name);
        assert(record.aux_names[i] == name);
        assert(fits_schema(header, record.aux_names[i], record.aux_values[i]));
    }
}

/// An enum value is an index into the labels of its field. An index that
/// names no label is refused with `EnumOutOfRange`; an index that names one
/// is stored and read back as it was set.
pub proof fn lemma_enum_bounds(record: RecordView, header: HeaderView, name: Seq<u8>, index: usize)
    requires
        record.wf(),
        header.wf(),
        nul_free(name),
        header.has_aux(name),
        header.aux_type(name).tag == TAG_ENUM,
    ensures
        ({
            let value = AuxValueView { tag: TAG_ENUM, scalar: index as int, items: Seq::empty() };
            let labels = header.aux_type(name).labels;
            &&& index >= labels.len() ==> RecordView::aux_set_refusal(header, name, value) == Some(
                Slow5Error::EnumOutOfRange,
            )
            &&& index < labels.len() ==> RecordView::aux_set_refusal(header, name, value).is_none()
                && record.with_aux(name, value).aux_get(name, TAG_ENUM) == Ok::<AuxValueView, Slow5Error>(
                value,
            )
        }),
{
    let value = AuxValueView { tag: TAG_ENUM, scalar: index as int, items: Seq::empty() };
    let labels = header.aux_type(name).labels;
    let i = header.aux_names.index_of(name);
    assert(header.aux_names[i] == name);
    assert(header.aux_types[i].labels.len() <= u8::MAX);
    if index < labels.len() {
        lemma_aux_stored(record, name, value);
    }
}

/// A value that was stored under a name is the value of that name.
pub proof fn lemma_aux_stored(record: RecordView, name: Seq<u8>, value: AuxValueView)
    requires
        record.wf(),
    ensures
        record.with_aux(name, value).wf(),
        record.with_aux(name, value).has_aux(name),
        record.with_aux(name, value).aux_value(name) == value,
{
    let after = record.with_aux(name, value);
    if record.has_aux(name) {
        let i = record.aux_names.index_of(name);
        assert(record.aux_names[i] == name);
    } else {
        let n = record.aux_names.len() as int;
        assert(after.aux_names[n] == name);
        assert forall|i: int, j: int|
            0 <= i < after.aux_names.len() && 0 <= j < after.aux_names.len() && i != j implies after.aux_names[i]
            != after.aux_names[j] by {
            if i < n {
                assert(record.aux_names.contains(record.aux_names[i]));
            }
            if j < n {
                assert(record.aux_names.contains(record.aux_names[j]));
            }
        }
        let k = after.aux_names.index_of(name);
        assert(after.aux_names[k] == name);
    }
}

/// The extension of a path that ends in a dot and an extension: the
/// extension itself, where it holds neither a dot nor a separator and the
/// dot follows a byte of the file name.
pub proof fn lemma_extension_of(stem: Seq<u8>, ext: Seq<u8>)
    requires
        stem.len() > 0,
        stem.last() != SEPARATOR,
        ext.len() > 0,
        forall|i: int| 0 <= i < ext.len() ==> ext[i] != DOT && ext[i] != SEPARATOR,
    ensures
        extension(stem.push(DOT) + ext) == Some(ext),
{
    let path = stem.push(DOT) + ext;
    assert(trimmed(path) == path) by {
        assert(path.last() == ext.last());
    }
    let cut = last_position(path, SEPARATOR);
    if exists|i: int| is_last(path, SEPARATOR, i) {
        assert(is_last(path, SEPARATOR, cut));
        assert(cut < stem.len() - 1) by {
            if cut >= stem.len() - 1 {
                if cut == stem.len() - 1 {
                    assert(path[cut] == stem.last());
                } else if cut == stem.len() {
                    assert(path[cut] == DOT);
                } else {
                    assert(path[cut] == ext[cut - stem.len() - 1]);
                }
            }
        }
    } else {
        assert(cut == -1);
    }
    let name = file_name(path);
    let start = cut + 1;
    let dot = stem.len() - start;
    assert(name.len() == path.len() - start);
    assert(dot > 0);
    assert(name[dot] == path[stem.len() as int]);
    assert forall|k: int| dot < k < name.len() implies name[k] != DOT by {
        assert(name[k] == ext[k - dot - 1]);
    }
    lemma_last_position(name, DOT, dot);
    assert(name != seq![DOT, DOT]) by {
        if name == seq![DOT, DOT] {
            assert(name.len() == 2);
            assert(name[1] == ext[ext.len() - 1]);
        }
    }
    assert(name.subrange(dot + 1, name.len() as int) =~= ext);
}

/// Separators at the end of a path do not count, nor does a `.` component
/// there: the path has the extension, and selects the representation, of the
/// path before them.
pub proof fn lemma_trailing_ignored(path: Seq<u8>)
    ensures
        extension(path.push(SEPARATOR)) == extension(path),
        file_type_of(path.push(SEPARATOR)) == file_type_of(path),
        extension(path.push(SEPARATOR).push(DOT)) == extension(path),
        file_type_of(path.push(SEPARATOR).push(DOT)) == file_type_of(path),
{
    let slash = path.push(SEPARATOR);
    let slash_dot = slash.push(DOT);
    assert(slash.drop_last() =~= path);
    assert(slash_dot.drop_last() =~= slash);
    assert(slash_dot[slash_dot.len() - 2] == SEPARATOR);
    assert(trimmed(slash) == trimmed(path));
    assert(trimmed(slash_dot) == trimmed(slash));
}

/// A path made of a stem, a dot and an extension without NUL bytes holds a
/// NUL byte exactly if its stem does.
pub proof fn lemma_path_nul_free(stem: Seq<u8>, ext: Seq<u8>)
    requires
        nul_free(ext),
    ensures
        nul_free(stem.push(DOT) + ext) <==> nul_free(stem),
{
    let path = stem.push(DOT) + ext;
    if nul_free(stem) {
        assert forall|i: int| 0 <= i < path.len() implies path[i] != 0u8 by {
            if i < stem.len() {
                assert(path[i] == stem[i]);
            } else if i == stem.len() {
                assert(path[i] == DOT);
            } else {
                assert(path[i] == ext[i - stem.len() - 1]);
            }
        }
    } else {
        let i = choose|i: int| 0 <= i < stem.len() && stem[i] == 0u8;
        assert(path[i] == stem[i]);
    }
}

/// A path that ends in `.slow5` selects the ASCII representation and one
/// that ends in `.blow5` the binary one, where the dot follows a byte of the
/// file name.
pub proof fn lemma_file_types(stem: Seq<u8>)
    requires
        stem.len() > 0,
        stem.last() != SEPARATOR,
    ensures
        file_type_of(stem.push(DOT) + slow5_ext()) == Some(FileType::Slow5),
        file_type_of(stem.push(DOT) + blow5_ext()) == Some(FileType::Blow5),
{
    lemma_extension_of(stem, slow5_ext());
    lemma_extension_of(stem, blow5_ext());
    assert(slow5_ext() != blow5_ext()) by {
        assert(slow5_ext()[0] != blow5_ext()[0]);
    }
}

/// The extension of the path selects the representation, and compression is
/// for binary files only: with options that ask for compression, no file can
/// be created at a path that ends in `.slow5`, whereas one is created at the
/// same path with `.blow5` in its place whenever the path holds no NUL byte
/// and the header can be finalized, as it can with options that set nothing
/// but the compression and the read-group count.
pub proof fn lemma_extension_dispatch(opts: WriteOptionsView, stem: Seq<u8>)
    requires
        opts.compressed(),
        stem.len() > 0,
        stem.last() != SEPARATOR,
    ensures
        !opts.can_create(stem.push(DOT) + slow5_ext()),
        opts.opened(stem.push(DOT) + slow5_ext(), FileType::Slow5, Mode::Write, None) == Err::<
            FileWriterView,
            Slow5Error,
        >(Slow5Error::Slow5CompressionError),
        opts.can_create(stem.push(DOT) + blow5_ext()) <==> nul_free(stem) && opts.finalized(
            FileType::Blow5,
        ).is_ok(),
        opts.attr_names.len() == 0 && opts.aux_names.len() == 0 && opts.enum_names.len() == 0 && nul_free(stem)
            ==> opts.can_create(stem.push(DOT) + blow5_ext()),
{
    let ascii = stem.push(DOT) + slow5_ext();
    let binary = stem.push(DOT) + blow5_ext();
    lemma_file_types(stem);
    lemma_path_nul_free(stem, blow5_ext());
    assert(!opts.can_create(ascii));
    assert(opts.can_create(binary) <==> nul_free(binary) && opts.finalized(FileType::Blow5).is_ok());
    if opts.attr_names.len() == 0 && opts.aux_names.len() == 0 && opts.enum_names.len() == 0 {
        lemma_plain_plan(opts, FileType::Blow5);
    }
}

/// The state of an iteration after `n` more calls.
pub open spec fn after_calls(iter: RecordIterView, n: nat) -> RecordIterView
    decreases n,
{
    if n == 0 {
        iter
    } else {
        after_calls(iter, (n - 1) as nat).advance()
    }
}

/// Once an iterator has yielded an error it is poisoned: every later call
/// yields nothing and leaves it as it is, whatever records remain in the
/// file.
pub proof fn lemma_poisoned(iter: RecordIterView, n: nat)
    requires
        iter.item() matches Some(Err(_)),
    ensures
        after_calls(iter.advance(), n) == iter.advance(),
        after_calls(iter.advance(), n).item().is_none(),
    decreases n,
{
    if n > 0 {
        lemma_poisoned(iter, (n - 1) as nat);
    }
}

/// The return code that the engine gives at the cursor of an iteration: any
/// code of a record where a record stands, the code of the damage where the
/// file is damaged, and the code of the end after the last position.
pub open spec fn code_at(iter: RecordIterView) -> i32 {
    if iter.cursor >= iter.slots.len() {
        READ_END
    } else {
        match iter.slots[iter.cursor as int] {
            SlotView::Stored(_) => 0,
            SlotView::Damaged(code) => code,
        }
    }
}

/// An iteration over the contents of a file goes as the steps of sequential
/// reading decide for the engine's return codes: it yields nothing where the
/// step yields nothing or the end, a record where the step yields one, and the
/// error of the step where it fails; and it has failed exactly if the step has.
pub proof fn lemma_iterator_follows_steps(iter: RecordIterView)
    requires
        forall|i: int|
            0 <= i < iter.slots.len() ==> ((#[trigger] iter.slots[i]) matches SlotView::Damaged(code) ==> code
                < READ_END),
    ensures
        iter.advance().errored == read_step_of(iter.errored, code_at(iter)).1,
        match read_step_of(iter.errored, code_at(iter)).0 {
            None => iter.item().is_none(),
            Some(ReadOutcome::End) => iter.item().is_none(),
            Some(ReadOutcome::Record) => iter.item() matches Some(Ok(_)),
            Some(ReadOutcome::Failed(e)) => iter.item() == Some(Err::<RecordView, Slow5Error>(e)),
        },
{
}

/// Once a step of sequential reading has failed, every later step yields
/// nothing, whatever the engine returns.
pub proof fn lemma_step_poisoned(errored: bool, code: i32, later: i32)
    ensures
        read_step_of(errored, code).0 matches Some(ReadOutcome::Failed(_)) ==> read_step_of(
            read_step_of(errored, code).1,
            later,
        ) == (None::<ReadOutcome>, true),
        read_step_of(true, later) == (None::<ReadOutcome>, true),
{
}

/// An iterator that has not failed yields the records of the file in file
/// order: a call at a position that holds a record yields that record and
/// passes the position.
pub proof fn lemma_sequential(iter: RecordIterView)
    requires
        !iter.errored,
        iter.cursor < iter.slots.len(),
    ensures
        iter.slots[iter.cursor as int] matches SlotView::Stored(record) ==> iter.item() == Some(
            Ok::<RecordView, Slow5Error>(record),
        ) && iter.advance().cursor == iter.cursor + 1 && !iter.advance().errored,
{
}

} // verus!
