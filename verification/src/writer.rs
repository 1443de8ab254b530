//! The model of one opened output target: it accepts text, buffers it up
//! to a configured size, and pushes it to its file.  Every push is an
//! explicit [`FileOp`] effect that the host applies to the real file
//! system, so what reaches each file is exactly what the contracts here
//! say.

use vstd::prelude::*;
use vstd::string::StringExecFns;
use vstd::utf8::encode_utf8;

verus! {

/// One operation on the file system, ready for a host to apply.
pub enum FileOp {
    /// Create the file at `path` if it is missing and open it for
    /// appending, with a write buffer of `buf_size` bytes.
    Open { path: String, buf_size: u32 },
    /// Append `data` at the end of the file at `path`.
    Append { path: String, data: String },
}

/// Spec-level image of one file operation.
pub enum FileOpModel {
    Open { path: Seq<char>, buf_size: u32 },
    Append { path: Seq<char>, data: Seq<char> },
}

impl View for FileOp {
    type V = FileOpModel;

    open spec fn view(&self) -> FileOpModel {
        match self {
            FileOp::Open { path, buf_size } => FileOpModel::Open {
                path: path@,
                buf_size: *buf_size,
            },
            FileOp::Append { path, data } => FileOpModel::Append { path: path@, data: data@ },
        }
    }
}

impl DeepView for FileOp {
    type V = FileOpModel;

    open spec fn deep_view(&self) -> FileOpModel {
        self.view()
    }
}

/// The path an operation touches.
pub open spec fn spec_op_path(op: FileOpModel) -> Seq<char> {
    match op {
        FileOpModel::Open { path, .. } => path,
        FileOpModel::Append { path, .. } => path,
    }
}

/// The text an operation appends: empty unless it is an `Append`.
pub open spec fn spec_op_text(op: FileOpModel) -> Seq<char> {
    match op {
        FileOpModel::Open { .. } => Seq::empty(),
        FileOpModel::Append { data, .. } => data,
    }
}

/// The text a writer's optional effect appends.
pub open spec fn spec_eff_text(eff: Option<FileOpModel>) -> Seq<char> {
    match eff {
        None => Seq::empty(),
        Some(op) => spec_op_text(op),
    }
}

/// Spec-level state of one writer.
#[verifier::ext_equal]
pub struct WriterModel {
    pub path: Seq<char>,
    pub buf_size: u32,
    /// Text accepted by `write` and not yet pushed to the file.
    pub pending: Seq<char>,
    pub is_open: bool,
}

/// One opened output target with its write buffer.
pub struct RawLogWriter {
    path: String,
    buf_size: u32,
    pending: String,
    is_open: bool,
}

impl View for RawLogWriter {
    type V = WriterModel;

    closed spec fn view(&self) -> WriterModel {
        WriterModel {
            path: self.path@,
            buf_size: self.buf_size,
            pending: self.pending@,
            is_open: self.is_open,
        }
    }
}

/// A freshly opened writer: empty buffer, open.
pub open spec fn spec_writer_new(path: Seq<char>, buf_size: u32) -> WriterModel {
    WriterModel { path, buf_size, pending: Seq::empty(), is_open: true }
}

/// Whether accepting `data` pushes the buffer to the file: unbuffered
/// writers always push, buffered ones push once the buffer holds at least
/// `buf_size` bytes.
pub open spec fn spec_write_flushes(w: WriterModel, data: Seq<char>) -> bool {
    w.buf_size == 0 || encode_utf8(w.pending + data).len() as usize >= w.buf_size
}

/// The writer after accepting `data`.
pub open spec fn spec_writer_after_write(w: WriterModel, data: Seq<char>) -> WriterModel {
    if spec_write_flushes(w, data) {
        WriterModel { pending: Seq::empty(), ..w }
    } else {
        WriterModel { pending: w.pending + data, ..w }
    }
}

/// The effect of accepting `data`: the buffered text plus `data`, appended
/// to the writer's file, when the write pushes; nothing otherwise.
pub open spec fn spec_write_effect(w: WriterModel, data: Seq<char>) -> Option<FileOpModel> {
    if spec_write_flushes(w, data) {
        Some(FileOpModel::Append { path: w.path, data: w.pending + data })
    } else {
        None
    }
}

/// The writer after a flush: the buffer is empty.
pub open spec fn spec_writer_after_flush(w: WriterModel) -> WriterModel {
    WriterModel { pending: Seq::empty(), ..w }
}

/// The effect of a flush: the buffered text, if there is any.
pub open spec fn spec_flush_effect(w: WriterModel) -> Option<FileOpModel> {
    if w.pending.len() == 0 {
        None
    } else {
        Some(FileOpModel::Append { path: w.path, data: w.pending })
    }
}

/// The writer after a close: flushed and no longer open.  Closing a closed
/// writer changes nothing.
pub open spec fn spec_writer_after_close(w: WriterModel) -> WriterModel {
    if w.is_open {
        WriterModel { pending: Seq::empty(), is_open: false, ..w }
    } else {
        w
    }
}

/// The effect of a close: whatever a flush would push; nothing at all on a
/// writer that is already closed.
pub open spec fn spec_close_effect(w: WriterModel) -> Option<FileOpModel> {
    if w.is_open {
        spec_flush_effect(w)
    } else {
        None
    }
}

impl RawLogWriter {
    /// Opens a writer against `path` with a `buf_size`-byte buffer, and
    /// hands back the effect that opens the real file.
    pub fn open_at(path: String, buf_size: u32) -> (r: (RawLogWriter, FileOp))
        ensures
            r.0@ == spec_writer_new(path@, buf_size),
            r.1@ == (FileOpModel::Open { path: path@, buf_size }),
    {
        let op = FileOp::Open { path: path.clone(), buf_size };
        let w = RawLogWriter { path, buf_size, pending: String::new(), is_open: true };
        (w, op)
    }

    /// Accepts `data`.  The boolean reports whether the write was taken —
    /// always, in this model; a host that loses a write reports it through
    /// its own diagnostics.  The effect carries everything this call pushes
    /// to the file.
    pub fn write(&mut self, data: &str) -> (r: (bool, Option<FileOp>))
        requires
            old(self)@.is_open,
        ensures
            final(self)@ == spec_writer_after_write(old(self)@, data@),
            r.0 == true,
            match r.1 {
                None => spec_write_effect(old(self)@, data@) is None,
                Some(op) => spec_write_effect(old(self)@, data@) == Some(op@),
            },
    {
        self.pending.append(data);
        if self.buf_size == 0 || self.pending.as_str().len() >= self.buf_size as usize {
            let mut out = String::new();
            core::mem::swap(&mut out, &mut self.pending);
            proof {
                assert(self@ =~= spec_writer_after_write(old(self)@, data@));
            }
            (true, Some(FileOp::Append { path: self.path.clone(), data: out }))
        } else {
            proof {
                assert(self@ =~= spec_writer_after_write(old(self)@, data@));
            }
            (true, None)
        }
    }

    /// Pushes the buffered text, if any, to the file.
    pub fn flush(&mut self) -> (r: Option<FileOp>)
        requires
            old(self)@.is_open,
        ensures
            final(self)@ == spec_writer_after_flush(old(self)@),
            match r {
                None => spec_flush_effect(old(self)@) is None,
                Some(op) => spec_flush_effect(old(self)@) == Some(op@),
            },
    {
        if self.pending.as_str().is_empty() {
            proof {
                assert(self@ =~= spec_writer_after_flush(old(self)@));
            }
            None
        } else {
            let mut out = String::new();
            core::mem::swap(&mut out, &mut self.pending);
            proof {
                assert(self@ =~= spec_writer_after_flush(old(self)@));
            }
            Some(FileOp::Append { path: self.path.clone(), data: out })
        }
    }

    /// Flushes and closes the writer.  Closing twice is a no-op the second
    /// time: no effect is produced and nothing changes.
    pub fn close(&mut self) -> (r: Option<FileOp>)
        ensures
            final(self)@ == spec_writer_after_close(old(self)@),
            match r {
                None => spec_close_effect(old(self)@) is None,
                Some(op) => spec_close_effect(old(self)@) == Some(op@),
            },
    {
        if self.is_open {
            let eff = self.flush();
            self.is_open = false;
            eff
        } else {
            None
        }
    }

    /// The path this writer pushes to.
    pub fn path(&self) -> (r: &String)
        ensures
            r@ == self@.path,
    {
        &self.path
    }
}

/// Law: text leaves a writer in exactly the order it was written — one
/// write conserves the buffered and pushed text: what was buffered, then
/// the new data, equals what this write pushed followed by what stays
/// buffered.
pub proof fn lemma_write_preserves_order(w: WriterModel, data: Seq<char>)
    ensures
        spec_eff_text(spec_write_effect(w, data)) + spec_writer_after_write(w, data).pending
            == w.pending + data,
{
    if spec_write_flushes(w, data) {
        assert(spec_eff_text(spec_write_effect(w, data)) + spec_writer_after_write(w, data).pending
            =~= w.pending + data);
    } else {
        assert(spec_eff_text(spec_write_effect(w, data)) + spec_writer_after_write(w, data).pending
            =~= w.pending + data);
    }
}

/// Law: a flush conserves text the same way: what it pushes, followed by
/// the (empty) remaining buffer, is exactly what was buffered.
pub proof fn lemma_flush_preserves_order(w: WriterModel)
    ensures
        spec_eff_text(spec_flush_effect(w)) + spec_writer_after_flush(w).pending == w.pending,
{
    assert(spec_eff_text(spec_flush_effect(w)) + spec_writer_after_flush(w).pending =~= w.pending);
}

/// The text a whole list of operations appends, in order.
pub open spec fn spec_ops_text(ops: Seq<FileOpModel>) -> Seq<char>
    decreases ops.len(),
{
    if ops.len() == 0 {
        Seq::empty()
    } else {
        spec_ops_text(ops.drop_last()) + spec_op_text(ops.last())
    }
}

/// Text is additive over concatenation of operation lists.
pub proof fn lemma_ops_text_concat(a: Seq<FileOpModel>, b: Seq<FileOpModel>)
    ensures
        spec_ops_text(a + b) == spec_ops_text(a) + spec_ops_text(b),
    decreases b.len(),
{
    if b.len() == 0 {
        assert(a + b =~= a);
        assert(spec_ops_text(a) + spec_ops_text(b) =~= spec_ops_text(a));
    } else {
        lemma_ops_text_concat(a, b.drop_last());
        assert((a + b).drop_last() =~= a + b.drop_last());
        assert((a + b).last() == b.last());
        assert(spec_ops_text(a + b) =~= spec_ops_text(a) + spec_ops_text(b));
    }
}

} // verus!
