//! The boundary to the file engine: the header operations it is asked to
//! perform when a file is finalized, and what its return codes mean.

use vstd::prelude::*;
use crate::auxiliary::{FieldType, FieldTypeView};
use crate::compression::{RecordCompression, SignalCompression};
use crate::error::Slow5Error;
use crate::header::{Header, HeaderView};

verus! {

/// One operation on a file that is being finalized.
#[derive(Debug, PartialEq, Eq)]
pub enum EngineOp {
    /// Set the record and signal compression.
    SetCompression(RecordCompression, SignalCompression),
    /// Add this many read groups.
    AddReadGroups(u32),
    /// Register an attribute name.
    AddAttribute(Vec<u8>),
    /// Set the value of an attribute (name, then value) in a read group.
    SetAttribute(Vec<u8>, Vec<u8>, u32),
    /// Add an auxiliary field to the schema.
    AddAuxField(Vec<u8>, FieldType),
    /// Write the header out.
    WriteHeader,
}

/// What an operation is, with its byte strings as sequences.
pub enum EngineOpView {
    /// Set the record and signal compression.
    SetCompression(RecordCompression, SignalCompression),
    /// Add this many read groups.
    AddReadGroups(u32),
    /// Register an attribute name.
    AddAttribute(Seq<u8>),
    /// Set the value of an attribute (name, then value) in a read group.
    SetAttribute(Seq<u8>, Seq<u8>, u32),
    /// Add an auxiliary field to the schema.
    AddAuxField(Seq<u8>, FieldTypeView),
    /// Write the header out.
    WriteHeader,
}

impl View for EngineOp {
    type V = EngineOpView;

    open spec fn view(&self) -> EngineOpView {
        match self {
            EngineOp::SetCompression(rec, sig) => EngineOpView::SetCompression(*rec, *sig),
            EngineOp::AddReadGroups(count) => EngineOpView::AddReadGroups(*count),
            EngineOp::AddAttribute(name) => EngineOpView::AddAttribute(name@),
            EngineOp::SetAttribute(name, value, read_group) => EngineOpView::SetAttribute(
                name@,
                value@,
                *read_group,
            ),
            EngineOp::AddAuxField(name, field_type) => EngineOpView::AddAuxField(name@, field_type@),
            EngineOp::WriteHeader => EngineOpView::WriteHeader,
        }
    }
}

impl EngineOpView {
    /// What the operation makes of a header. Setting the compression and
    /// writing the header out leave its contents as they are.
    pub open spec fn apply(self, header: HeaderView) -> Result<HeaderView, Slow5Error> {
        match self {
            EngineOpView::SetCompression(_, _) => Ok(header),
            EngineOpView::AddReadGroups(count) => header.add_read_groups(count),
            EngineOpView::AddAttribute(name) => header.add_attribute(name),
            EngineOpView::SetAttribute(name, value, read_group) => header.set_attribute(
                name,
                value,
                read_group,
            ),
            EngineOpView::AddAuxField(name, field_type) => header.add_aux_field(name, field_type),
            EngineOpView::WriteHeader => Ok(header),
        }
    }
}

/// What the first `n` operations of `ops`, in order, make of a header: the
/// error of the first that fails, after which none is performed.
pub open spec fn run_prefix(ops: Seq<EngineOpView>, header: HeaderView, n: int) -> Result<
    HeaderView,
    Slow5Error,
>
    decreases n,
{
    if n <= 0 {
        Ok(header)
    } else {
        match run_prefix(ops, header, n - 1) {
            Ok(before) => ops[n - 1].apply(before),
            Err(e) => Err(e),
        }
    }
}

/// What all of `ops`, in order, make of a header.
pub open spec fn run(ops: Seq<EngineOpView>, header: HeaderView) -> Result<HeaderView, Slow5Error> {
    run_prefix(ops, header, ops.len() as int)
}

/// The operations of a list, by view.
pub open spec fn op_views(ops: Seq<EngineOp>) -> Seq<EngineOpView> {
    ops.map_values(|op: EngineOp| op@)
}

impl EngineOp {
    /// Performs the operation on a header. A failed operation leaves the
    /// header as it was.
    pub fn apply(&self, header: &mut Header) -> (res: Result<(), Slow5Error>)
        requires
            old(header).wf(),
        ensures
            final(header).wf(),
            match self@.apply(old(header)@) {
                Ok(after) => res.is_ok() && final(header)@ == after,
                Err(e) => res == Err::<(), Slow5Error>(e) && final(header)@ == old(header)@,
            },
    {
        match self {
            EngineOp::SetCompression(_, _) => Ok(()),
            EngineOp::AddReadGroups(count) => header.add_read_groups(*count),
            EngineOp::AddAttribute(name) => header.add_attribute(name.as_slice()),
            EngineOp::SetAttribute(name, value, read_group) => header.set_attribute(
                name.as_slice(),
                value.as_slice(),
                *read_group,
            ),
            EngineOp::AddAuxField(name, field_type) => header.add_aux_field(
                name.as_slice(),
                field_type.clone(),
            ),
            EngineOp::WriteHeader => Ok(()),
        }
    }

    /// What a return code of the engine means for this operation: success,
    /// or the error to report. Writing the header fails with the code -1,
    /// every other operation with a negative code. `done` is the number of
    /// read groups that were added before the code came back; it is part of
    /// the error for a read group that could not be added.
    pub fn outcome(&self, code: i32, done: u32) -> (res: Result<(), Slow5Error>)
        ensures
            res == (match self@ {
                EngineOpView::SetCompression(_, _) => if code < 0 {
                    Err(Slow5Error::CompressionError)
                } else {
                    Ok(())
                },
                EngineOpView::AddReadGroups(_) => if code < 0 {
                    Err(Slow5Error::FailedAddReadGroup(done))
                } else {
                    Ok(())
                },
                EngineOpView::AddAttribute(_) => if code < 0 {
                    Err(Slow5Error::AddAttributeError(code))
                } else {
                    Ok(())
                },
                EngineOpView::SetAttribute(_, _, _) => if code < 0 {
                    Err(Slow5Error::SetAttributeError(code))
                } else {
                    Ok(())
                },
                EngineOpView::AddAuxField(_, _) => if code < 0 {
                    Err(Slow5Error::AddAuxFieldError(code))
                } else {
                    Ok(())
                },
                EngineOpView::WriteHeader => if code == -1 {
                    Err(Slow5Error::HeaderWriteFailed)
                } else {
                    Ok(())
                },
            }),
    {
        match self {
            EngineOp::SetCompression(_, _) => if code < 0 {
                Err(Slow5Error::CompressionError)
            } else {
                Ok(())
            },
            EngineOp::AddReadGroups(_) => if code < 0 {
                Err(Slow5Error::FailedAddReadGroup(done))
            } else {
                Ok(())
            },
            EngineOp::AddAttribute(_) => if code < 0 {
                Err(Slow5Error::AddAttributeError(code))
            } else {
                Ok(())
            },
            EngineOp::SetAttribute(_, _, _) => if code < 0 {
                Err(Slow5Error::SetAttributeError(code))
            } else {
                Ok(())
            },
            EngineOp::AddAuxField(_, _) => if code < 0 {
                Err(Slow5Error::AddAuxFieldError(code))
            } else {
                Ok(())
            },
            EngineOp::WriteHeader => if code == -1 {
                Err(Slow5Error::HeaderWriteFailed)
            } else {
                Ok(())
            },
        }
    }
}

/// Whether operation `k` is the first of `ops` that fails on a header that
/// starts as `start`, and `reached` is what the operations before it have
/// made of the header.
pub open spec fn stops_at(ops: Seq<EngineOpView>, start: HeaderView, k: int, reached: HeaderView) -> bool {
    &&& 0 <= k < ops.len()
    &&& run_prefix(ops, start, k) == Ok::<HeaderView, Slow5Error>(reached)
    &&& ops[k].apply(reached).is_err()
}

/// Performs the operations of a list on a header, in order, and stops at the
/// first that fails: the header then is what the operations before that one
/// have made of it.
pub fn run_plan(ops: &Vec<EngineOp>, header: &mut Header) -> (res: Result<(), Slow5Error>)
    requires
        old(header).wf(),
    ensures
        final(header).wf(),
        match run(op_views(ops@), old(header)@) {
            Ok(after) => res.is_ok() && final(header)@ == after,
            Err(e) => res == Err::<(), Slow5Error>(e) && exists|k: int|
                stops_at(op_views(ops@), old(header)@, k, final(header)@),
        },
{
    let ghost views = op_views(ops@);
    let ghost start = header@;
    let mut i: usize = 0;
    while i < ops.len()
        invariant
            header.wf(),
            views == op_views(ops@),
            start == old(header)@,
            i <= ops@.len(),
            run_prefix(views, start, i as int) == Ok::<HeaderView, Slow5Error>(header@),
        decreases ops@.len() - i,
    {
        let res = ops[i].apply(header);
        assert(views[i as int] == ops@[i as int]@);
        match res {
            Err(e) => {
                proof {
                    assert(run_prefix(views, start, i as int + 1) == Err::<HeaderView, Slow5Error>(e));
                    lemma_run_stops(views, start, i as int + 1, views.len() as int);
                    assert(stops_at(views, start, i as int, header@));
                }
                return Err(e);
            },
            Ok(_) => {},
        }
        i += 1;
    }
    Ok(())
}

/// Once a prefix of the operations has failed, every longer prefix fails
/// with the same error.
pub proof fn lemma_run_stops(ops: Seq<EngineOpView>, header: HeaderView, n: int, m: int)
    requires
        0 <= n <= m,
        run_prefix(ops, header, n).is_err(),
    ensures
        run_prefix(ops, header, m) == run_prefix(ops, header, n),
    decreases m - n,
{
    if n < m {
        lemma_run_stops(ops, header, n, m - 1);
    }
}

/// Return code of the engine when it cannot load or build an index.
pub const NO_INDEX: i32 = -1;

/// Return code of the engine at the end of a file.
pub const READ_END: i32 = -1;

/// Return code of the engine for a bad argument.
pub const READ_BAD_ARGUMENT: i32 = -2;

/// Return code of the engine for a record that cannot be parsed.
pub const READ_BAD_RECORD: i32 = -4;

/// What the engine reports when it is asked for the next record.
#[derive(Debug, PartialEq, Eq)]
pub enum ReadOutcome {
    /// A record was read.
    Record,
    /// The file has no more records.
    End,
    /// Reading failed.
    Failed(Slow5Error),
}

/// The error that a failure code stands for when reading the next record.
pub open spec fn read_error_of(code: i32) -> Slow5Error {
    if code == READ_BAD_ARGUMENT {
        Slow5Error::Argument
    } else if code == READ_BAD_RECORD {
        Slow5Error::RecordParse
    } else {
        Slow5Error::IOError
    }
}

/// What a return code means when the engine is asked for the next record.
pub open spec fn read_outcome_of(code: i32) -> ReadOutcome {
    if code >= 0 {
        ReadOutcome::Record
    } else if code == READ_END {
        ReadOutcome::End
    } else {
        ReadOutcome::Failed(read_error_of(code))
    }
}

/// The error for a failure code of a sequential read: a bad argument for -2,
/// a record that cannot be parsed for -4, and an I/O error for any other
/// code.
pub fn read_error(code: i32) -> (e: Slow5Error)
    ensures
        e == read_error_of(code),
{
    if code == READ_BAD_ARGUMENT {
        Slow5Error::Argument
    } else if code == READ_BAD_RECORD {
        Slow5Error::RecordParse
    } else {
        Slow5Error::IOError
    }
}

/// Tells what the return code of a sequential read means: a record for a
/// code of zero or more, the end of the file for -1, a bad argument for -2,
/// a record that cannot be parsed for -4, and an I/O error for any other
/// code.
pub fn read_outcome(code: i32) -> (outcome: ReadOutcome)
    ensures
        outcome == read_outcome_of(code),
{
    if code >= 0 {
        ReadOutcome::Record
    } else if code == READ_END {
        ReadOutcome::End
    } else {
        ReadOutcome::Failed(read_error(code))
    }
}

/// What one step of sequential reading yields, and whether reading has
/// failed after it. `errored` tells whether an earlier step failed, `code` is
/// the engine's return code for this step. Once a step has failed, every
/// step yields nothing; else the step yields what the code means, and fails
/// exactly where the code is a failure.
pub open spec fn read_step_of(errored: bool, code: i32) -> (Option<ReadOutcome>, bool) {
    if errored {
        (None, true)
    } else {
        (Some(read_outcome_of(code)), read_outcome_of(code) is Failed)
    }
}

/// Decides one step of sequential reading: what to yield for the engine's
/// return code, and whether reading has failed.
pub fn read_step(errored: bool, code: i32) -> (out: (Option<ReadOutcome>, bool))
    ensures
        out == read_step_of(errored, code),
{
    if errored {
        (None, true)
    } else {
        let outcome = read_outcome(code);
        let failed = match outcome {
            ReadOutcome::Failed(_) => true,
            _ => false,
        };
        (Some(outcome), failed)
    }
}

/// Tells what the return code of writing a record means: success for a
/// code above zero, which is the number of bytes written, and `Unknown`
/// otherwise.
pub fn write_outcome(code: i32) -> (res: Result<(), Slow5Error>)
    ensures
        res == (if code > 0 {
            Ok::<(), Slow5Error>(())
        } else {
            Err::<(), Slow5Error>(Slow5Error::Unknown)
        }),
{
    if code > 0 {
        Ok(())
    } else {
        Err(Slow5Error::Unknown)
    }
}

/// Tells what the engine's list of read ids means: `listed` says whether the
/// engine gave a list, `count` how many read ids it holds. A list with read
/// ids gives their number; no list, or an empty one, is `ReadIdIterError`.
pub fn read_ids_outcome(listed: bool, count: u64) -> (res: Result<u64, Slow5Error>)
    ensures
        res == (if listed && count > 0 {
            Ok::<u64, Slow5Error>(count)
        } else {
            Err::<u64, Slow5Error>(Slow5Error::ReadIdIterError)
        }),
{
    if listed && count > 0 {
        Ok(count)
    } else {
        Err(Slow5Error::ReadIdIterError)
    }
}

/// Tells what the return code of a random-access read means: the record was
/// found for a code of zero or more, and `GetRecordFailed` otherwise.
pub fn get_outcome(code: i32) -> (res: Result<(), Slow5Error>)
    ensures
        res == (if code >= 0 {
            Ok::<(), Slow5Error>(())
        } else {
            Err::<(), Slow5Error>(Slow5Error::GetRecordFailed)
        }),
{
    if code >= 0 {
        Ok(())
    } else {
        Err(Slow5Error::GetRecordFailed)
    }
}

/// Tells what the return code of loading the index means: `NoIndex` for -1
/// and success for any other code.
pub fn index_outcome(code: i32) -> (res: Result<(), Slow5Error>)
    ensures
        res == (if code == NO_INDEX {
            Err::<(), Slow5Error>(Slow5Error::NoIndex)
        } else {
            Ok::<(), Slow5Error>(())
        }),
{
    if code == NO_INDEX {
        Err(Slow5Error::NoIndex)
    } else {
        Ok(())
    }
}

/// Tells what the return code of setting an auxiliary value means: success
/// for a code of zero or more; a type mismatch for -1 and -3; a field that is
/// not in the header for -2; an enum index out of range for -4; and
/// `SetAuxFieldError` for any other code.
pub fn parse_aux_field_set_error(ret: i32) -> (res: Result<(), Slow5Error>)
    ensures
        res == (if ret >= 0 {
            Ok::<(), Slow5Error>(())
        } else if ret == -1 || ret == -3 {
            Err::<(), Slow5Error>(Slow5Error::AuxTypeMismatch)
        } else if ret == -2 {
            Err::<(), Slow5Error>(Slow5Error::MissingAttribute)
        } else if ret == -4 {
            Err::<(), Slow5Error>(Slow5Error::EnumOutOfRange)
        } else {
            Err::<(), Slow5Error>(Slow5Error::SetAuxFieldError)
        }),
{
    if ret >= 0 {
        Ok(())
    } else if ret == -1 || ret == -3 {
        Err(Slow5Error::AuxTypeMismatch)
    } else if ret == -2 {
        Err(Slow5Error::MissingAttribute)
    } else if ret == -4 {
        Err(Slow5Error::EnumOutOfRange)
    } else {
        Err(Slow5Error::SetAuxFieldError)
    }
}

} // verus!
