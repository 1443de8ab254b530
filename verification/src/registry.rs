//! One log per thread, and the registry that owns them all.
//!
//! Each thread is known by an identity — its name, or a process-unique
//! number — and gets its own writer against its own file, created on its
//! first record.  The registry is the only owner of the per-thread logs;
//! a shutdown drains every one of them: flush, close, remove.

use vstd::prelude::*;
use crate::clock::Timestamp;
use crate::config::{spec_target_path, ConfigModel, LogConfig};
use crate::format::{dec_u64, format_record, spec_dec, spec_format_line, Record};
use crate::level::Level;
use crate::format::{lemma_contains_concat_left, lemma_format_contains_message, spec_contains};
use crate::writer::{
    lemma_flush_preserves_order, lemma_ops_text_concat, lemma_write_preserves_order,
    spec_close_effect, spec_eff_text,
    spec_flush_effect, spec_op_path, spec_op_text, spec_ops_text, spec_write_effect,
    spec_writer_after_flush,
    spec_writer_after_write, spec_writer_new, FileOp, FileOpModel, RawLogWriter, WriterModel,
};

verus! {

/// Relies on thread_id::get: a numeric id for the calling thread, distinct
/// from the ids of all other live threads.  Nothing is assumed of its
/// value.
#[verifier::external_body]
fn current_numeric_id() -> usize {
    thread_id::get()
}

/// The identity a thread logs under: its name when it has one, else the
/// decimal rendering of a process-unique number.
pub fn identity_for(name: Option<String>) -> (r: String)
    ensures
        name matches Some(n) ==> r == n,
        name is None ==> exists|id: u64| r@ == spec_dec(id as nat),
{
    match name {
        Some(n) => n,
        None => {
            let id = current_numeric_id();
            let r = dec_u64(id as u64);
            proof {
                assert(r@ == spec_dec((id as u64) as nat));
            }
            r
        },
    }
}

/// Spec-level state of one per-thread log.
#[verifier::ext_equal]
pub struct SlotModel {
    pub identity: Seq<char>,
    pub writer: WriterModel,
}

/// One thread's log: the thread's identity and its own writer.  Never
/// shared between threads — the registry hands each thread only its own.
pub struct PerThreadLog {
    identity: String,
    writer: RawLogWriter,
}

impl View for PerThreadLog {
    type V = SlotModel;

    closed spec fn view(&self) -> SlotModel {
        SlotModel { identity: self.identity@, writer: self.writer@ }
    }
}

impl DeepView for PerThreadLog {
    type V = SlotModel;

    open spec fn deep_view(&self) -> SlotModel {
        self.view()
    }
}

/// A fresh per-thread log for `id` under configuration `cfg`: an open
/// writer against `{dir}/{basename}.{id}.log` with `cfg`'s buffer size.
pub open spec fn spec_slot_new(cfg: ConfigModel, id: Seq<char>) -> SlotModel {
    SlotModel {
        identity: id,
        writer: spec_writer_new(spec_target_path(cfg.dir, cfg.basename, id), cfg.buf_size),
    }
}

/// The slot after logging one record: its writer accepted the formatted
/// line; nothing else changed.
pub open spec fn spec_slot_after_log(
    s: SlotModel,
    ts: Timestamp,
    level: Level,
    module: Seq<char>,
    message: Seq<char>,
) -> SlotModel {
    SlotModel {
        identity: s.identity,
        writer: spec_writer_after_write(s.writer, spec_format_line(ts, level, module, message)),
    }
}

/// The file effect of logging one record on this slot.
pub open spec fn spec_slot_log_effect(
    s: SlotModel,
    ts: Timestamp,
    level: Level,
    module: Seq<char>,
    message: Seq<char>,
) -> Option<FileOpModel> {
    spec_write_effect(s.writer, spec_format_line(ts, level, module, message))
}

impl PerThreadLog {
    /// Creates the log for the thread identified by `identity`, handing
    /// back the effect that opens its file.
    pub fn for_identity(cfg: &LogConfig, identity: String) -> (r: (PerThreadLog, FileOp))
        ensures
            r.0@ == spec_slot_new(cfg@, identity@),
            r.1@ == (FileOpModel::Open {
                path: spec_target_path(cfg@.dir, cfg@.basename, identity@),
                buf_size: cfg@.buf_size,
            }),
    {
        let path = cfg.target_path(identity.as_str());
        let (writer, op) = RawLogWriter::open_at(path, cfg.buf_size);
        (PerThreadLog { identity, writer }, op)
    }

    /// Formats `rec` stamped with `ts` and hands the line to this thread's
    /// writer.
    pub fn log(&mut self, ts: &Timestamp, rec: &Record) -> (eff: Option<FileOp>)
        requires
            old(self)@.writer.is_open,
        ensures
            final(self)@ == spec_slot_after_log(
                old(self)@,
                *ts,
                rec.level,
                rec.module@,
                rec.message@,
            ),
            match eff {
                None => spec_slot_log_effect(
                    old(self)@,
                    *ts,
                    rec.level,
                    rec.module@,
                    rec.message@,
                ) is None,
                Some(op) => spec_slot_log_effect(
                    old(self)@,
                    *ts,
                    rec.level,
                    rec.module@,
                    rec.message@,
                ) == Some(op@),
            },
    {
        let line = format_record(ts, rec);
        let (_accepted, eff) = self.writer.write(line.as_str());
        eff
    }

    /// Pushes this thread's buffered text to its file.
    pub fn flush(&mut self) -> (eff: Option<FileOp>)
        requires
            old(self)@.writer.is_open,
        ensures
            final(self)@.identity == old(self)@.identity,
            final(self)@.writer == spec_writer_after_flush(old(self)@.writer),
            match eff {
                None => spec_flush_effect(old(self)@.writer) is None,
                Some(op) => spec_flush_effect(old(self)@.writer) == Some(op@),
            },
    {
        self.writer.flush()
    }

    /// Flushes and closes this thread's writer; a no-op when it is already
    /// closed.
    pub fn close(&mut self) -> (eff: Option<FileOp>)
        ensures
            final(self)@.identity == old(self)@.identity,
            final(self)@.writer == crate::writer::spec_writer_after_close(old(self)@.writer),
            match eff {
                None => spec_close_effect(old(self)@.writer) is None,
                Some(op) => spec_close_effect(old(self)@.writer) == Some(op@),
            },
    {
        self.writer.close()
    }

    /// The identity this log belongs to.
    pub fn identity(&self) -> (r: &String)
        ensures
            r@ == self@.identity,
    {
        &self.identity
    }
}

/// Spec-level state of the registry.
#[verifier::ext_equal]
pub struct ShimModel {
    pub cfg: ConfigModel,
    pub slots: Seq<SlotModel>,
}

/// The registry of per-thread logs, created lazily from one shared
/// configuration.
pub struct Shim {
    cfg: LogConfig,
    slots: Vec<PerThreadLog>,
}

impl View for Shim {
    type V = ShimModel;

    closed spec fn view(&self) -> ShimModel {
        ShimModel { cfg: self.cfg@, slots: self.slots.deep_view() }
    }
}

/// The registry's invariant: every registered writer is open, configured
/// with the shared buffer size, aimed at its own thread's target path, and
/// no identity is registered twice.
pub open spec fn spec_shim_wf(m: ShimModel) -> bool {
    &&& (forall|i: int|
        0 <= i < m.slots.len() ==> (#[trigger] m.slots[i]).writer.is_open)
    &&& (forall|i: int|
        0 <= i < m.slots.len() ==> (#[trigger] m.slots[i]).writer.buf_size == m.cfg.buf_size)
    &&& (forall|i: int|
        0 <= i < m.slots.len() ==> (#[trigger] m.slots[i]).writer.path == spec_target_path(
            m.cfg.dir,
            m.cfg.basename,
            m.slots[i].identity,
        ))
    &&& (forall|i: int, j: int|
        0 <= i < j < m.slots.len() ==> (#[trigger] m.slots[i]).identity != (
        #[trigger] m.slots[j]).identity)
}

/// Whether some slot is registered under `id`.
pub open spec fn spec_has_slot(slots: Seq<SlotModel>, id: Seq<char>) -> bool {
    exists|i: int| 0 <= i < slots.len() && (#[trigger] slots[i]).identity == id
}

/// The index of the slot registered under `id`; meaningful when
/// `spec_has_slot` holds, and unique in a well-formed registry.
pub open spec fn spec_slot_index(slots: Seq<SlotModel>, id: Seq<char>) -> int {
    choose|i: int| 0 <= i < slots.len() && (#[trigger] slots[i]).identity == id
}

/// A writer's optional effect, as a list.
pub open spec fn spec_opt_seq(o: Option<FileOpModel>) -> Seq<FileOpModel> {
    match o {
        None => Seq::empty(),
        Some(x) => seq![x],
    }
}

/// How one log call advances the registry, and the effects it emits: the
/// calling thread's slot — created first if missing, which opens its file —
/// accepts the formatted line; every other slot is untouched.
pub open spec fn spec_shim_log(
    m: ShimModel,
    id: Seq<char>,
    ts: Timestamp,
    level: Level,
    module: Seq<char>,
    message: Seq<char>,
) -> (ShimModel, Seq<FileOpModel>) {
    if spec_has_slot(m.slots, id) {
        let i = spec_slot_index(m.slots, id);
        let s = m.slots[i];
        (
            ShimModel {
                cfg: m.cfg,
                slots: m.slots.update(i, spec_slot_after_log(s, ts, level, module, message)),
            },
            spec_opt_seq(spec_slot_log_effect(s, ts, level, module, message)),
        )
    } else {
        let s0 = spec_slot_new(m.cfg, id);
        (
            ShimModel {
                cfg: m.cfg,
                slots: m.slots.push(spec_slot_after_log(s0, ts, level, module, message)),
            },
            seq![
                FileOpModel::Open {
                    path: spec_target_path(m.cfg.dir, m.cfg.basename, id),
                    buf_size: m.cfg.buf_size,
                },
            ] + spec_opt_seq(spec_slot_log_effect(s0, ts, level, module, message)),
        )
    }
}

/// How one flush call advances the registry: the calling thread's slot —
/// created first if missing — pushes its buffered text.
pub open spec fn spec_shim_flush(m: ShimModel, id: Seq<char>) -> (ShimModel, Seq<FileOpModel>) {
    if spec_has_slot(m.slots, id) {
        let i = spec_slot_index(m.slots, id);
        let s = m.slots[i];
        (
            ShimModel {
                cfg: m.cfg,
                slots: m.slots.update(
                    i,
                    SlotModel { identity: s.identity, writer: spec_writer_after_flush(s.writer) },
                ),
            },
            spec_opt_seq(spec_flush_effect(s.writer)),
        )
    } else {
        (
            ShimModel { cfg: m.cfg, slots: m.slots.push(spec_slot_new(m.cfg, id)) },
            seq![
                FileOpModel::Open {
                    path: spec_target_path(m.cfg.dir, m.cfg.basename, id),
                    buf_size: m.cfg.buf_size,
                },
            ],
        )
    }
}

/// The effects of draining a registry: each slot, from the last to the
/// first, flushes what it still buffers and closes.
pub open spec fn spec_drain_effects(slots: Seq<SlotModel>) -> Seq<FileOpModel>
    decreases slots.len(),
{
    if slots.len() == 0 {
        Seq::empty()
    } else {
        spec_opt_seq(spec_close_effect(slots.last().writer)) + spec_drain_effects(
            slots.drop_last(),
        )
    }
}

impl Shim {
    /// The configuration this registry was created from.
    pub fn config(&self) -> (r: &LogConfig)
        ensures
            r@ == self@.cfg,
    {
        &self.cfg
    }

    /// A registry with no per-thread logs yet.
    pub fn new(cfg: LogConfig) -> (r: Shim)
        ensures
            r@.cfg == cfg@,
            r@.slots == Seq::<SlotModel>::empty(),
            spec_shim_wf(r@),
    {
        let r = Shim { cfg, slots: Vec::new() };
        proof {
            assert(r@.slots =~= Seq::<SlotModel>::empty());
        }
        r
    }

    /// The index of the slot registered under `identity`, if there is one.
    fn position(&self, identity: &String) -> (r: Option<usize>)
        ensures
            match r {
                Some(i) => i < self@.slots.len() && self@.slots[i as int].identity == identity@,
                None => !spec_has_slot(self@.slots, identity@),
            },
    {
        let mut k: usize = 0;
        while k < self.slots.len()
            invariant
                k <= self@.slots.len(),
                forall|j: int| 0 <= j < k ==> (#[trigger] self@.slots[j]).identity != identity@,
            decreases self@.slots.len() - k,
        {
            if self.slots[k].identity == *identity {
                proof {
                    assert(self@.slots[k as int] == self.slots@[k as int]@);
                }
                return Some(k);
            }
            k += 1;
        }
        None
    }

    /// Resolves the calling thread's log — creating it on the thread's
    /// first call, which opens its file — and hands it the record.  Every
    /// other thread's log is untouched.
    pub fn log(&mut self, identity: &String, ts: &Timestamp, rec: &Record) -> (effs: Vec<FileOp>)
        requires
            spec_shim_wf(old(self)@),
        ensures
            spec_shim_wf(final(self)@),
            final(self)@ == spec_shim_log(
                old(self)@,
                identity@,
                *ts,
                rec.level,
                rec.module@,
                rec.message@,
            ).0,
            effs.deep_view() == spec_shim_log(
                old(self)@,
                identity@,
                *ts,
                rec.level,
                rec.module@,
                rec.message@,
            ).1,
    {
        let ghost orig = self@;
        let ghost target = spec_shim_log(orig, identity@, *ts, rec.level, rec.module@, rec.message@);
        let mut effs: Vec<FileOp> = Vec::new();
        match self.position(identity) {
            Some(k) => {
                proof {
                    assert(spec_has_slot(orig.slots, identity@));
                    let i = spec_slot_index(orig.slots, identity@);
                    if i != k as int {
                        assert(orig.slots[i].identity == orig.slots[k as int].identity);
                        assert(false);
                    }
                }
                let slot = &mut self.slots[k];
                let eff = slot.log(ts, rec);
                match eff {
                    Some(e) => effs.push(e),
                    None => {},
                }
                proof {
                    assert(self.slots.deep_view() =~= orig.slots.update(
                        k as int,
                        spec_slot_after_log(
                            orig.slots[k as int],
                            *ts,
                            rec.level,
                            rec.module@,
                            rec.message@,
                        ),
                    ));
                    assert(self@ =~= target.0);
                    assert(effs.deep_view() =~= target.1);
                }
            },
            None => {
                let (mut slot, op) = PerThreadLog::for_identity(&self.cfg, identity.clone());
                effs.push(op);
                let eff = slot.log(ts, rec);
                match eff {
                    Some(e) => effs.push(e),
                    None => {},
                }
                self.slots.push(slot);
                proof {
                    assert(self.slots.deep_view() =~= orig.slots.push(
                        spec_slot_after_log(
                            spec_slot_new(orig.cfg, identity@),
                            *ts,
                            rec.level,
                            rec.module@,
                            rec.message@,
                        ),
                    ));
                    assert(self@ =~= target.0);
                    assert(effs.deep_view() =~= target.1);
                    assert forall|i: int, j: int|
                        0 <= i < j < self@.slots.len() implies (#[trigger] self@.slots[i]).identity
                        != (#[trigger] self@.slots[j]).identity by {
                        if j == self@.slots.len() - 1 {
                            assert(!spec_has_slot(orig.slots, identity@));
                            assert(orig.slots[i].identity != identity@);
                        }
                    }
                }
            },
        }
        effs
    }

    /// Resolves the calling thread's log — creating it on first use — and
    /// pushes its buffered text to its file.
    pub fn flush(&mut self, identity: &String) -> (effs: Vec<FileOp>)
        requires
            spec_shim_wf(old(self)@),
        ensures
            spec_shim_wf(final(self)@),
            final(self)@ == spec_shim_flush(old(self)@, identity@).0,
            effs.deep_view() == spec_shim_flush(old(self)@, identity@).1,
    {
        let ghost orig = self@;
        let ghost target = spec_shim_flush(orig, identity@);
        let mut effs: Vec<FileOp> = Vec::new();
        match self.position(identity) {
            Some(k) => {
                proof {
                    assert(spec_has_slot(orig.slots, identity@));
                    let i = spec_slot_index(orig.slots, identity@);
                    if i != k as int {
                        assert(orig.slots[i].identity == orig.slots[k as int].identity);
                        assert(false);
                    }
                }
                let slot = &mut self.slots[k];
                let eff = slot.flush();
                match eff {
                    Some(e) => effs.push(e),
                    None => {},
                }
                proof {
                    assert(self@ =~= target.0);
                    assert(effs.deep_view() =~= target.1);
                }
            },
            None => {
                let (slot, op) = PerThreadLog::for_identity(&self.cfg, identity.clone());
                effs.push(op);
                self.slots.push(slot);
                proof {
                    assert(self@ =~= target.0);
                    assert(effs.deep_view() =~= target.1);
                    assert forall|i: int, j: int|
                        0 <= i < j < self@.slots.len() implies (#[trigger] self@.slots[i]).identity
                        != (#[trigger] self@.slots[j]).identity by {
                        if j == self@.slots.len() - 1 {
                            assert(!spec_has_slot(orig.slots, identity@));
                            assert(orig.slots[i].identity != identity@);
                        }
                    }
                }
            },
        }
        effs
    }

    /// Drains the registry: flushes and closes every registered per-thread
    /// log and removes it.  Draining an already-drained registry emits
    /// nothing.
    pub fn shutdown(&mut self) -> (effs: Vec<FileOp>)
        ensures
            final(self)@.cfg == old(self)@.cfg,
            final(self)@.slots == Seq::<SlotModel>::empty(),
            effs.deep_view() == spec_drain_effects(old(self)@.slots),
            spec_shim_wf(final(self)@),
    {
        let ghost orig = self@;
        let mut effs: Vec<FileOp> = Vec::new();
        while self.slots.len() > 0
            invariant
                self@.cfg == orig.cfg,
                effs.deep_view() + spec_drain_effects(self@.slots) == spec_drain_effects(
                    orig.slots,
                ),
            decreases self.slots.len(),
        {
            let ghost before = self@.slots;
            let mut slot = self.slots.pop().unwrap();
            let eff = slot.close();
            proof {
                assert(self.slots.deep_view() =~= before.drop_last());
                assert(slot@.identity == before.last().identity);
            }
            match eff {
                Some(e) => effs.push(e),
                None => {},
            }
            proof {
                assert(effs.deep_view() + spec_drain_effects(self@.slots) =~= spec_drain_effects(
                    orig.slots,
                ));
            }
        }
        proof {
            assert(self@.slots =~= Seq::<SlotModel>::empty());
            assert(effs.deep_view() + spec_drain_effects(self@.slots) =~= effs.deep_view());
        }
        effs
    }
}

/// Law: a log call is confined to the calling thread — it leaves every
/// other thread's slot untouched, and every file effect it emits names the
/// calling thread's own file, so the per-thread files stay disjoint.
pub proof fn lemma_log_confinement(
    m: ShimModel,
    id: Seq<char>,
    ts: Timestamp,
    level: Level,
    module: Seq<char>,
    message: Seq<char>,
)
    requires
        spec_shim_wf(m),
    ensures
        forall|j: int|
            0 <= j < m.slots.len() && (#[trigger] m.slots[j]).identity != id ==> spec_shim_log(
                m,
                id,
                ts,
                level,
                module,
                message,
            ).0.slots[j] == m.slots[j],
        forall|k: int|
            0 <= k < spec_shim_log(m, id, ts, level, module, message).1.len() ==> spec_op_path(
                #[trigger] spec_shim_log(m, id, ts, level, module, message).1[k],
            ) == spec_target_path(m.cfg.dir, m.cfg.basename, id),
{
    if spec_has_slot(m.slots, id) {
        let i = spec_slot_index(m.slots, id);
        assert(0 <= i < m.slots.len() && m.slots[i].identity == id);
        assert(m.slots[i].writer.path == spec_target_path(m.cfg.dir, m.cfg.basename, id));
    }
}

/// Law: a record reaches its thread's file verbatim — the text that one
/// log call and the following flush push to the file is exactly what the
/// writer had buffered followed by the full formatted line, and it carries
/// the message as a contiguous slice.
pub proof fn lemma_message_reaches_file(
    s: SlotModel,
    ts: Timestamp,
    level: Level,
    module: Seq<char>,
    message: Seq<char>,
)
    ensures
        spec_eff_text(spec_slot_log_effect(s, ts, level, module, message)) + spec_eff_text(
            spec_flush_effect(spec_slot_after_log(s, ts, level, module, message).writer),
        ) == s.writer.pending + spec_format_line(ts, level, module, message),
        spec_contains(
            spec_eff_text(spec_slot_log_effect(s, ts, level, module, message)) + spec_eff_text(
                spec_flush_effect(spec_slot_after_log(s, ts, level, module, message).writer),
            ),
            message,
        ),
{
    let line = spec_format_line(ts, level, module, message);
    let w1 = spec_writer_after_write(s.writer, line);
    let e1 = spec_eff_text(spec_slot_log_effect(s, ts, level, module, message));
    let e2 = spec_eff_text(spec_flush_effect(w1));
    lemma_write_preserves_order(s.writer, line);
    lemma_flush_preserves_order(w1);
    assert(e2 + spec_writer_after_flush(w1).pending =~= e2);
    assert(e1 + e2 =~= (e1 + w1.pending));
    assert(e1 + e2 =~= s.writer.pending + line);
    lemma_format_contains_message(ts, level, module, message);
    lemma_contains_concat_left(s.writer.pending, line, message);
}

/// The text still buffered for `id`, empty when `id` has no slot yet.
pub open spec fn spec_pending_of(m: ShimModel, id: Seq<char>) -> Seq<char> {
    if spec_has_slot(m.slots, id) {
        m.slots[spec_slot_index(m.slots, id)].writer.pending
    } else {
        Seq::empty()
    }
}

/// Law: a thread's records flow out in program order — over one log call,
/// the text pushed to the calling thread's file followed by what stays
/// buffered equals what was buffered followed by the new formatted line.
/// Nothing is reordered, duplicated or dropped on the way to the file.
pub proof fn lemma_shim_log_preserves_order(
    m: ShimModel,
    id: Seq<char>,
    ts: Timestamp,
    level: Level,
    module: Seq<char>,
    message: Seq<char>,
)
    requires
        spec_shim_wf(m),
    ensures
        spec_ops_text(spec_shim_log(m, id, ts, level, module, message).1) + spec_pending_of(
            spec_shim_log(m, id, ts, level, module, message).0,
            id,
        ) == spec_pending_of(m, id) + spec_format_line(ts, level, module, message),
{
    let line = spec_format_line(ts, level, module, message);
    let (m2, effs) = spec_shim_log(m, id, ts, level, module, message);
    if spec_has_slot(m.slots, id) {
        let i = spec_slot_index(m.slots, id);
        assert(0 <= i < m.slots.len() && m.slots[i].identity == id);
        let w = m.slots[i].writer;
        lemma_write_preserves_order(w, line);
        // the updated registry still holds id at the same index, uniquely
        assert(m2.slots[i].identity == id);
        assert(spec_has_slot(m2.slots, id));
        let j = spec_slot_index(m2.slots, id);
        assert(0 <= j < m2.slots.len() && m2.slots[j].identity == id);
        if j != i {
            assert(m.slots[j].identity == m2.slots[j].identity);
            assert(false);
        }
        let eff = spec_write_effect(w, line);
        assert(spec_ops_text(effs) =~= spec_eff_text(eff)) by {
            reveal_with_fuel(spec_ops_text, 3);
            match eff {
                None => {
                    assert(effs =~= Seq::<FileOpModel>::empty());
                },
                Some(op) => {
                    assert(effs =~= seq![op]);
                    assert(effs.drop_last() =~= Seq::<FileOpModel>::empty());
                },
            }
        }
        assert(spec_ops_text(effs) + spec_pending_of(m2, id) =~= spec_pending_of(m, id) + line);
    } else {
        let w0 = spec_slot_new(m.cfg, id).writer;
        lemma_write_preserves_order(w0, line);
        // the fresh slot sits at the end, and it alone carries id
        let n = m2.slots.len() - 1;
        assert(m2.slots[n].identity == id);
        assert(spec_has_slot(m2.slots, id));
        let j = spec_slot_index(m2.slots, id);
        assert(0 <= j < m2.slots.len() && m2.slots[j].identity == id);
        if j != n {
            assert(m.slots[j].identity == id);
            assert(spec_has_slot(m.slots, id));
            assert(false);
        }
        let eff = spec_write_effect(w0, line);
        let opened = FileOpModel::Open {
            path: spec_target_path(m.cfg.dir, m.cfg.basename, id),
            buf_size: m.cfg.buf_size,
        };
        assert(spec_ops_text(effs) =~= spec_eff_text(eff)) by {
            reveal_with_fuel(spec_ops_text, 4);
            match eff {
                None => {
                    assert(effs =~= seq![opened]);
                    assert(effs.drop_last() =~= Seq::<FileOpModel>::empty());
                },
                Some(op) => {
                    assert(effs =~= seq![opened, op]);
                    assert(effs.drop_last() =~= seq![opened]);
                    assert(effs.drop_last().drop_last() =~= Seq::<FileOpModel>::empty());
                    assert(spec_ops_text(effs.drop_last()) =~= Seq::<char>::empty());
                },
            }
        }
        assert(spec_pending_of(m, id) =~= Seq::<char>::empty());
        assert(spec_ops_text(effs) + spec_pending_of(m2, id) =~= spec_pending_of(m, id) + line);
    }
}

/// Law: one log call keeps the registry well-formed.
pub proof fn lemma_shim_log_preserves_wf(
    m: ShimModel,
    id: Seq<char>,
    ts: Timestamp,
    level: Level,
    module: Seq<char>,
    message: Seq<char>,
)
    requires
        spec_shim_wf(m),
    ensures
        spec_shim_wf(spec_shim_log(m, id, ts, level, module, message).0),
{
    let m2 = spec_shim_log(m, id, ts, level, module, message).0;
    if spec_has_slot(m.slots, id) {
        let i = spec_slot_index(m.slots, id);
        assert(0 <= i < m.slots.len() && m.slots[i].identity == id);
        assert forall|a: int, b: int|
            0 <= a < b < m2.slots.len() implies (#[trigger] m2.slots[a]).identity != (
        #[trigger] m2.slots[b]).identity by {
            assert(m2.slots[a].identity == m.slots[a].identity);
            assert(m2.slots[b].identity == m.slots[b].identity);
        }
    } else {
        assert forall|a: int, b: int|
            0 <= a < b < m2.slots.len() implies (#[trigger] m2.slots[a]).identity != (
        #[trigger] m2.slots[b]).identity by {
            if b == m2.slots.len() - 1 {
                assert(m.slots[a].identity != id);
            }
        }
    }
}

/// Law: a flush call, like a log call, is confined to the calling thread:
/// it conserves that thread's buffered text — what it pushes is exactly
/// what was buffered, and nothing stays behind — touches no other slot,
/// emits effects only on the calling thread's own file, and keeps the
/// registry well-formed.
pub proof fn lemma_shim_flush_properties(m: ShimModel, id: Seq<char>)
    requires
        spec_shim_wf(m),
    ensures
        spec_ops_text(spec_shim_flush(m, id).1) == spec_pending_of(m, id),
        spec_pending_of(spec_shim_flush(m, id).0, id) == Seq::<char>::empty(),
        forall|j: int|
            0 <= j < m.slots.len() && (#[trigger] m.slots[j]).identity != id ==> spec_shim_flush(
                m,
                id,
            ).0.slots[j] == m.slots[j],
        forall|k: int|
            0 <= k < spec_shim_flush(m, id).1.len() ==> spec_op_path(
                #[trigger] spec_shim_flush(m, id).1[k],
            ) == spec_target_path(m.cfg.dir, m.cfg.basename, id),
        spec_shim_wf(spec_shim_flush(m, id).0),
        spec_shim_flush(m, id).0.cfg == m.cfg,
{
    let (m2, effs) = spec_shim_flush(m, id);
    if spec_has_slot(m.slots, id) {
        let i = spec_slot_index(m.slots, id);
        assert(0 <= i < m.slots.len() && m.slots[i].identity == id);
        let w = m.slots[i].writer;
        assert(m2.slots[i].identity == id);
        assert(spec_has_slot(m2.slots, id));
        let j = spec_slot_index(m2.slots, id);
        assert(0 <= j < m2.slots.len() && m2.slots[j].identity == id);
        if j != i {
            assert(m.slots[j].identity == m2.slots[j].identity);
            assert(false);
        }
        assert(spec_ops_text(effs) =~= spec_pending_of(m, id)) by {
            reveal_with_fuel(spec_ops_text, 3);
            match spec_flush_effect(w) {
                None => {
                    assert(effs =~= Seq::<FileOpModel>::empty());
                    assert(w.pending =~= Seq::<char>::empty());
                },
                Some(op) => {
                    assert(effs =~= seq![op]);
                    assert(effs.drop_last() =~= Seq::<FileOpModel>::empty());
                    assert(Seq::<char>::empty() + spec_op_text(op) =~= w.pending);
                },
            }
        }
        assert(m.slots[i].writer.path == spec_target_path(m.cfg.dir, m.cfg.basename, id));
        assert forall|a: int, b: int|
            0 <= a < b < m2.slots.len() implies (#[trigger] m2.slots[a]).identity != (
        #[trigger] m2.slots[b]).identity by {
            assert(m2.slots[a].identity == m.slots[a].identity);
            assert(m2.slots[b].identity == m.slots[b].identity);
        }
    } else {
        let n = m2.slots.len() - 1;
        assert(m2.slots[n].identity == id);
        assert(spec_has_slot(m2.slots, id));
        let j = spec_slot_index(m2.slots, id);
        assert(0 <= j < m2.slots.len() && m2.slots[j].identity == id);
        if j != n {
            assert(m.slots[j].identity == id);
            assert(spec_has_slot(m.slots, id));
            assert(false);
        }
        assert(spec_ops_text(effs) =~= Seq::<char>::empty()) by {
            reveal_with_fuel(spec_ops_text, 2);
            assert(effs.drop_last() =~= Seq::<FileOpModel>::empty());
        }
        assert(spec_pending_of(m, id) =~= Seq::<char>::empty());
        assert forall|a: int, b: int|
            0 <= a < b < m2.slots.len() implies (#[trigger] m2.slots[a]).identity != (
        #[trigger] m2.slots[b]).identity by {
            if b == m2.slots.len() - 1 {
                assert(m.slots[a].identity != id);
            }
        }
    }
}

/// The text still buffered across a whole registry, in the order a drain
/// visits the slots: last first.  Writers already closed buffer nothing.
pub open spec fn spec_buffered_text(slots: Seq<SlotModel>) -> Seq<char>
    decreases slots.len(),
{
    if slots.len() == 0 {
        Seq::empty()
    } else {
        (if slots.last().writer.is_open {
            slots.last().writer.pending
        } else {
            Seq::empty()
        }) + spec_buffered_text(slots.drop_last())
    }
}

/// Law: a drain loses nothing — the text that the drain of a registry
/// pushes to the files is exactly everything its writers still buffered.
pub proof fn lemma_drain_pushes_everything(slots: Seq<SlotModel>)
    ensures
        spec_ops_text(spec_drain_effects(slots)) == spec_buffered_text(slots),
    decreases slots.len(),
{
    if slots.len() == 0 {
        assert(spec_ops_text(spec_drain_effects(slots)) =~= spec_buffered_text(slots));
    } else {
        let w = slots.last().writer;
        let head = spec_opt_seq(spec_close_effect(w));
        lemma_drain_pushes_everything(slots.drop_last());
        lemma_ops_text_concat(head, spec_drain_effects(slots.drop_last()));
        assert(spec_ops_text(head) =~= (if w.is_open {
            w.pending
        } else {
            Seq::<char>::empty()
        })) by {
            reveal_with_fuel(spec_ops_text, 3);
            match spec_close_effect(w) {
                None => {
                    assert(head =~= Seq::<FileOpModel>::empty());
                    if w.is_open {
                        assert(w.pending =~= Seq::<char>::empty());
                    }
                },
                Some(op) => {
                    assert(head =~= seq![op]);
                    assert(head.drop_last() =~= Seq::<FileOpModel>::empty());
                    assert(Seq::<char>::empty() + spec_op_text(op) =~= w.pending);
                },
            }
        }
        assert(spec_ops_text(spec_drain_effects(slots)) =~= spec_buffered_text(slots));
    }
}

} // verus!
