//! Lifecycle of the subsystem: the process-wide registration slot, the
//! atomically swappable cell that decides whether logging is active, and
//! the handle that drains everything exactly once at shutdown.
//!
//! The cell holds either the active registry or nothing.  Logging reads
//! through it; the one legal transition swaps in "disabled" and drains the
//! registry that came out.  Records arriving after the swap are dropped
//! without error.

use vstd::prelude::*;
use vstd::utf8::{decode_utf8, valid_utf8};
use crate::clock::Timestamp;
use crate::config::LogConfig;
use crate::errors::{LoggerStatus, LoggingError};
use crate::format::Record;
use crate::level::Level;
use crate::config::spec_target_path;
use crate::files::{lemma_apply_ops_one_path, spec_apply_ops};
use crate::format::{
    lemma_contains_concat_left, lemma_format_contains_message, spec_contains, spec_format_line,
};
use crate::registry::{
    lemma_log_confinement, lemma_shim_flush_properties, lemma_shim_log_preserves_order,
    lemma_shim_log_preserves_wf, spec_drain_effects, spec_pending_of, spec_shim_flush,
    spec_shim_log, spec_shim_wf, Shim, ShimModel,
};
use crate::writer::{lemma_ops_text_concat, spec_op_path, spec_ops_text, FileOp, FileOpModel};

verus! {

/// The states of the process-wide registration slot.
#[derive(Clone, Copy, Debug, PartialEq, Eq, Structural)]
pub enum ModuleState {
    Uninitialized,
    Initializing,
    Initialized,
    Failed,
}

impl ModuleState {
    /// The numeric code of a state, 0 through 3.
    pub open spec fn spec_as_usize(self) -> nat {
        match self {
            ModuleState::Uninitialized => 0,
            ModuleState::Initializing => 1,
            ModuleState::Initialized => 2,
            ModuleState::Failed => 3,
        }
    }

    /// The numeric code of a state, 0 through 3.
    pub fn as_usize(self) -> (r: usize)
        ensures
            r == self.spec_as_usize(),
    {
        match self {
            ModuleState::Uninitialized => 0,
            ModuleState::Initializing => 1,
            ModuleState::Initialized => 2,
            ModuleState::Failed => 3,
        }
    }

    /// The state a numeric code names.  Codes above 3 name no state.
    pub fn from_usize(u: usize) -> (r: ModuleState)
        requires
            u <= 3,
        ensures
            r.spec_as_usize() == u,
    {
        match u {
            0 => ModuleState::Uninitialized,
            1 => ModuleState::Initializing,
            2 => ModuleState::Initialized,
            _ => ModuleState::Failed,
        }
    }
}

/// The process-wide slot that says whether this subsystem owns the
/// process's log sink.
pub struct RegistrationSlot {
    state: ModuleState,
}

impl View for RegistrationSlot {
    type V = ModuleState;

    closed spec fn view(&self) -> ModuleState {
        self.state
    }
}

impl RegistrationSlot {
    /// A slot that nothing has claimed yet.
    pub fn new() -> (r: RegistrationSlot)
        ensures
            r@ == ModuleState::Uninitialized,
    {
        RegistrationSlot { state: ModuleState::Uninitialized }
    }

    /// The slot's current state.
    pub fn get_state(&self) -> (r: ModuleState)
        ensures
            r == self@,
    {
        self.state
    }

    /// Tries to claim the slot.  `registration_ok` is the outcome of the
    /// outside registration (installing this subsystem as the process's
    /// sink), which only an untaken slot attempts.  Claiming is idempotent:
    /// a slot already claimed reports success again; one that failed keeps
    /// failing; one caught mid-claim reports that setup is already under
    /// way.
    pub fn try_register(&mut self, registration_ok: bool) -> (r: Result<(), LoggingError>)
        ensures
            old(self)@ == ModuleState::Initialized ==> final(self)@ == ModuleState::Initialized
                && r is Ok,
            old(self)@ == ModuleState::Failed ==> final(self)@ == ModuleState::Failed && r matches
                Err(LoggingError::LoggerRegistrationFailure),
            old(self)@ == ModuleState::Initializing ==> final(self)@ == ModuleState::Initializing
                && r matches Err(LoggingError::LoggingAlreadySetUp),
            old(self)@ == ModuleState::Uninitialized ==> if registration_ok {
                final(self)@ == ModuleState::Initialized && r is Ok
            } else {
                final(self)@ == ModuleState::Failed && r matches Err(
                    LoggingError::LoggerRegistrationFailure,
                )
            },
    {
        match self.state {
            ModuleState::Initialized => Ok(()),
            ModuleState::Failed => Err(LoggingError::LoggerRegistrationFailure),
            ModuleState::Initializing => Err(LoggingError::LoggingAlreadySetUp),
            ModuleState::Uninitialized => {
                if registration_ok {
                    self.state = ModuleState::Initialized;
                    Ok(())
                } else {
                    self.state = ModuleState::Failed;
                    Err(LoggingError::LoggerRegistrationFailure)
                }
            },
        }
    }
}

/// Spec-level state of the swappable cell: the active registry, or
/// nothing once logging is disabled.
pub type CellModel = Option<ShimModel>;

/// The atomically swappable slot the hot path reads through: it holds the
/// active registry, or nothing once shutdown has disabled logging.
pub struct ActiveLoggerCell {
    inner: Option<Shim>,
}

impl View for ActiveLoggerCell {
    type V = CellModel;

    closed spec fn view(&self) -> CellModel {
        match self.inner {
            Some(ref s) => Some(s@),
            None => None,
        }
    }
}

impl ActiveLoggerCell {
    /// A cell with logging disabled.
    pub fn disabled() -> (r: ActiveLoggerCell)
        ensures
            r@ is None,
    {
        ActiveLoggerCell { inner: None }
    }

    /// Whether a registry is currently installed.
    pub fn is_active(&self) -> (r: bool)
        ensures
            r == (self@ is Some),
    {
        self.inner.is_some()
    }

    /// Installs the registry for `cfg` as the sink, the second phase of a
    /// two-phase setup: refused with `LoggerNotSetupError` while the
    /// process-wide slot is unclaimed, and with `LoggerAlreadySetError`
    /// when a sink is already installed — that call need not be fatal.
    pub fn install(&mut self, slot: &RegistrationSlot, cfg: LogConfig) -> (r: LoggerStatus)
        requires
            spec_cell_wf(old(self)@),
        ensures
            slot@ != ModuleState::Initialized ==> r == LoggerStatus::LoggerNotSetupError && final(self)@ == old(self)@,
            slot@ == ModuleState::Initialized && old(self)@ is Some ==> r
                == LoggerStatus::LoggerAlreadySetError && final(self)@ == old(self)@,
            slot@ == ModuleState::Initialized && old(self)@ is None ==> r == LoggerStatus::OK
                && final(self)@ == Some(ShimModel { cfg: cfg@, slots: Seq::empty() }),
            spec_cell_wf(final(self)@),
    {
        match slot.get_state() {
            ModuleState::Initialized => {
                if self.inner.is_some() {
                    LoggerStatus::LoggerAlreadySetError
                } else {
                    let shim = Shim::new(cfg);
                    proof {
                        assert(shim@ =~= (ShimModel { cfg: cfg@, slots: Seq::empty() }));
                    }
                    self.inner = Some(shim);
                    LoggerStatus::OK
                }
            },
            _ => LoggerStatus::LoggerNotSetupError,
        }
    }

    /// Removes the installed registry, draining it, and reports whether
    /// one was installed; the cell reads disabled afterwards.
    pub fn uninstall(&mut self) -> (r: (bool, Vec<FileOp>))
        ensures
            final(self)@ is None,
            r.0 == (old(self)@ is Some),
            r.1.deep_view() == match old(self)@ {
                None => Seq::<FileOpModel>::empty(),
                Some(m) => spec_drain_effects(m.slots),
            },
    {
        let prev = self.inner.take();
        match prev {
            Some(mut shim) => {
                let effs = shim.shutdown();
                (true, effs)
            },
            None => {
                let effs: Vec<FileOp> = Vec::new();
                proof {
                    assert(effs.deep_view() =~= Seq::<FileOpModel>::empty());
                }
                (false, effs)
            },
        }
    }
}

/// Whether the subsystem is fully set up: the process-wide slot is claimed
/// and a registry is installed.
pub fn is_setup(slot: &RegistrationSlot, cell: &ActiveLoggerCell) -> (r: bool)
    ensures
        r == (slot@ == ModuleState::Initialized && cell@ is Some),
{
    match slot.get_state() {
        ModuleState::Initialized => cell.is_active(),
        _ => false,
    }
}

/// Claims the process-wide slot, the first phase of a two-phase setup, and
/// reports the outcome as a status: `OK` on a fresh or repeated claim, the
/// error's status otherwise.
pub fn setup(slot: &mut RegistrationSlot, registration_ok: bool) -> (r: LoggerStatus)
    ensures
        old(slot)@ == ModuleState::Initialized || (old(slot)@ == ModuleState::Uninitialized
            && registration_ok) ==> r == LoggerStatus::OK && final(slot)@
            == ModuleState::Initialized,
        old(slot)@ == ModuleState::Failed || (old(slot)@ == ModuleState::Uninitialized
            && !registration_ok) ==> r == LoggerStatus::RegistrationFailure && final(slot)@
            == ModuleState::Failed,
        old(slot)@ == ModuleState::Initializing ==> r == LoggerStatus::LoggerAlreadySetError
            && final(slot)@ == ModuleState::Initializing,
{
    match slot.try_register(registration_ok) {
        Ok(()) => LoggerStatus::OK,
        Err(e) => LoggerStatus::from(e),
    }
}

/// Spec-level state of the handle.
#[verifier::ext_equal]
pub struct HandleModel {
    pub cell: CellModel,
}

/// The externally visible lifecycle object: it owns the cell and, on
/// shutdown, swaps in "disabled" and drains the registry that came out.
pub struct Handle {
    cell: ActiveLoggerCell,
}

impl View for Handle {
    type V = HandleModel;

    closed spec fn view(&self) -> HandleModel {
        HandleModel { cell: self.cell@ }
    }
}

/// A cell's invariant: an installed registry is well-formed.
pub open spec fn spec_cell_wf(c: CellModel) -> bool {
    match c {
        Some(m) => spec_shim_wf(m),
        None => true,
    }
}

/// The handle's invariant: an active registry is well-formed.
pub open spec fn spec_handle_wf(h: HandleModel) -> bool {
    spec_cell_wf(h.cell)
}

/// Whether a record at `level` would be written: the cell is active and
/// the level is within the configured minimum.
pub open spec fn spec_handle_enabled(h: HandleModel, level: Level) -> bool {
    match h.cell {
        Some(m) => level.spec_rank() <= m.cfg.level.spec_rank(),
        None => false,
    }
}

/// How one log call advances the handle: through an active cell it reaches
/// the calling thread's slot in the registry; through a disabled cell, or
/// below the configured level, it is dropped without a trace.
pub open spec fn spec_handle_log(
    h: HandleModel,
    id: Seq<char>,
    ts: Timestamp,
    level: Level,
    module: Seq<char>,
    message: Seq<char>,
) -> (HandleModel, Seq<FileOpModel>) {
    match h.cell {
        None => (h, Seq::empty()),
        Some(m) => {
            if level.spec_rank() <= m.cfg.level.spec_rank() {
                let (m2, effs) = spec_shim_log(m, id, ts, level, module, message);
                (HandleModel { cell: Some(m2) }, effs)
            } else {
                (h, Seq::empty())
            }
        },
    }
}

/// How one flush call advances the handle.
pub open spec fn spec_handle_flush(h: HandleModel, id: Seq<char>) -> (
    HandleModel,
    Seq<FileOpModel>,
) {
    match h.cell {
        None => (h, Seq::empty()),
        Some(m) => {
            let (m2, effs) = spec_shim_flush(m, id);
            (HandleModel { cell: Some(m2) }, effs)
        },
    }
}

/// How a shutdown advances the handle: the cell reads disabled afterwards,
/// and the registry that was active — if any — is drained.
pub open spec fn spec_handle_shutdown(h: HandleModel) -> (HandleModel, Seq<FileOpModel>) {
    (
        HandleModel { cell: None },
        match h.cell {
            None => Seq::empty(),
            Some(m) => spec_drain_effects(m.slots),
        },
    )
}

impl Handle {
    /// Wraps a cell — filled by the two-phase setup, or still disabled —
    /// as the lifecycle object logging and shutdown go through.
    pub fn new(cell: ActiveLoggerCell) -> (r: Handle)
        ensures
            r@.cell == cell@,
    {
        Handle { cell }
    }

    /// Whether a record at `level` would currently be written.
    pub fn enabled(&self, level: Level) -> (r: bool)
        ensures
            r == spec_handle_enabled(self@, level),
    {
        match &self.cell.inner {
            Some(shim) => level.rank() <= shim.config().level.rank(),
            None => false,
        }
    }

    /// Logs one record under the calling thread's identity: formats it,
    /// hands it to that thread's own writer — created on first use — and
    /// returns the file effects.  Disabled or filtered-out calls change
    /// nothing and emit nothing.
    pub fn log(&mut self, identity: &String, ts: &Timestamp, rec: &Record) -> (effs: Vec<FileOp>)
        requires
            spec_handle_wf(old(self)@),
        ensures
            spec_handle_wf(final(self)@),
            final(self)@ == spec_handle_log(
                old(self)@,
                identity@,
                *ts,
                rec.level,
                rec.module@,
                rec.message@,
            ).0,
            effs.deep_view() == spec_handle_log(
                old(self)@,
                identity@,
                *ts,
                rec.level,
                rec.module@,
                rec.message@,
            ).1,
    {
        let ghost orig = self@;
        match &mut self.cell.inner {
            Some(shim) => {
                if rec.level.rank() <= shim.config().level.rank() {
                    let effs = shim.log(identity, ts, rec);
                    proof {
                        assert(self@ =~= spec_handle_log(
                            orig,
                            identity@,
                            *ts,
                            rec.level,
                            rec.module@,
                            rec.message@,
                        ).0);
                    }
                    effs
                } else {
                    let effs: Vec<FileOp> = Vec::new();
                    proof {
                        assert(self@ =~= orig);
                        assert(effs.deep_view() =~= Seq::<FileOpModel>::empty());
                    }
                    effs
                }
            },
            None => {
                let effs: Vec<FileOp> = Vec::new();
                proof {
                    assert(effs.deep_view() =~= Seq::<FileOpModel>::empty());
                }
                effs
            },
        }
    }

    /// Flushes the calling thread's writer through the cell; a no-op once
    /// disabled.
    pub fn flush(&mut self, identity: &String) -> (effs: Vec<FileOp>)
        requires
            spec_handle_wf(old(self)@),
        ensures
            spec_handle_wf(final(self)@),
            final(self)@ == spec_handle_flush(old(self)@, identity@).0,
            effs.deep_view() == spec_handle_flush(old(self)@, identity@).1,
    {
        let ghost orig = self@;
        match &mut self.cell.inner {
            Some(shim) => {
                let effs = shim.flush(identity);
                proof {
                    assert(self@ =~= spec_handle_flush(orig, identity@).0);
                }
                effs
            },
            None => {
                let effs: Vec<FileOp> = Vec::new();
                proof {
                    assert(effs.deep_view() =~= Seq::<FileOpModel>::empty());
                }
                effs
            },
        }
    }

    /// Disables logging and drains the registry that was active: every
    /// per-thread writer is flushed and closed exactly once.  A second
    /// shutdown finds the cell already disabled and does nothing.
    pub fn shutdown(&mut self) -> (effs: Vec<FileOp>)
        ensures
            final(self)@ == spec_handle_shutdown(old(self)@).0,
            final(self)@.cell is None,
            effs.deep_view() == spec_handle_shutdown(old(self)@).1,
    {
        let ghost orig = self@;
        let prev = self.cell.inner.take();
        proof {
            assert(self@ =~= spec_handle_shutdown(orig).0);
        }
        match prev {
            Some(mut shim) => shim.shutdown(),
            None => {
                let effs: Vec<FileOp> = Vec::new();
                proof {
                    assert(effs.deep_view() =~= Seq::<FileOpModel>::empty());
                }
                effs
            },
        }
    }
}

/// Registers the subsystem as the process-wide sink and installs the
/// active registry: the one entry point that creates a [`Handle`].
/// `registration_ok` is the outcome of the outside registration, attempted
/// only when the slot is untaken.  A second call while the slot is taken
/// fails without touching anything.
pub fn create(slot: &mut RegistrationSlot, cfg: LogConfig, registration_ok: bool) -> (r: Result<
    Handle,
    LoggingError,
>)
    ensures
        r is Ok <==> (old(slot)@ == ModuleState::Uninitialized && registration_ok),
        r matches Ok(h) ==> {
            &&& final(slot)@ == ModuleState::Initialized
            &&& h@.cell == Some(ShimModel { cfg: cfg@, slots: Seq::empty() })
            &&& spec_handle_wf(h@)
        },
        old(slot)@ == ModuleState::Uninitialized && !registration_ok ==> final(slot)@
            == ModuleState::Failed && r matches Err(LoggingError::LoggerRegistrationFailure),
        old(slot)@ == ModuleState::Initialized || old(slot)@ == ModuleState::Initializing
            ==> final(slot)@ == old(slot)@ && r matches Err(LoggingError::LoggingAlreadySetUp),
        old(slot)@ == ModuleState::Failed ==> final(slot)@ == ModuleState::Failed && r matches Err(
            LoggingError::LoggerRegistrationFailure,
        ),
{
    match slot.get_state() {
        ModuleState::Uninitialized => {
            if registration_ok {
                let res = slot.try_register(true);
                let shim = Shim::new(cfg);
                proof {
                    assert(shim@ =~= (ShimModel { cfg: cfg@, slots: Seq::empty() }));
                }
                Ok(Handle { cell: ActiveLoggerCell { inner: Some(shim) } })
            } else {
                let _ = slot.try_register(false);
                Err(LoggingError::LoggerRegistrationFailure)
            }
        },
        ModuleState::Initializing => Err(LoggingError::LoggingAlreadySetUp),
        ModuleState::Initialized => Err(LoggingError::LoggingAlreadySetUp),
        ModuleState::Failed => Err(LoggingError::LoggerRegistrationFailure),
    }
}

/// Relies on str::from_utf8: `Some` exactly when the bytes are valid
/// UTF-8, carrying the text they decode to.
#[verifier::external_body]
fn bytes_to_string(bytes: &[u8]) -> (r: Option<String>)
    ensures
        r is Some <==> valid_utf8(bytes@),
        r matches Some(s) ==> s@ == decode_utf8(bytes@),
{
    match core::str::from_utf8(bytes) {
        Ok(s) => Some(s.to_owned()),
        Err(_) => None,
    }
}

/// How logging a raw byte payload advances the handle, with its status:
/// invalid text is dropped and reported, valid text is logged under the
/// caller's identity and the caller's writer is flushed.
pub open spec fn spec_log_payload(
    h: HandleModel,
    id: Seq<char>,
    ts: Timestamp,
    level: Level,
    module: Seq<char>,
    payload: Seq<u8>,
) -> (HandleModel, Seq<FileOpModel>, LoggerStatus) {
    if !valid_utf8(payload) {
        (h, Seq::empty(), LoggerStatus::InvalidUTF8)
    } else {
        let msg = decode_utf8(payload);
        let (h1, e1) = spec_handle_log(h, id, ts, level, module, msg);
        let (h2, e2) = spec_handle_flush(h1, id);
        (h2, e1 + e2, LoggerStatus::OK)
    }
}

/// Logs a raw byte payload at `level` under the calling thread's identity
/// and flushes that thread's writer.  A payload that is not valid text is
/// dropped: the call reports `InvalidUTF8` and changes nothing; the
/// subsystem stays usable.
pub fn log_payload(
    handle: &mut Handle,
    identity: &String,
    ts: &Timestamp,
    level: Level,
    module: &String,
    payload: &[u8],
) -> (r: (LoggerStatus, Vec<FileOp>))
    requires
        spec_handle_wf(old(handle)@),
    ensures
        spec_handle_wf(final(handle)@),
        final(handle)@ == spec_log_payload(
            old(handle)@,
            identity@,
            *ts,
            level,
            module@,
            payload@,
        ).0,
        r.1.deep_view() == spec_log_payload(
            old(handle)@,
            identity@,
            *ts,
            level,
            module@,
            payload@,
        ).1,
        r.0 == spec_log_payload(old(handle)@, identity@, *ts, level, module@, payload@).2,
{
    let ghost orig = handle@;
    match bytes_to_string(payload) {
        None => {
            let effs: Vec<FileOp> = Vec::new();
            proof {
                assert(effs.deep_view() =~= Seq::<FileOpModel>::empty());
            }
            (LoggerStatus::InvalidUTF8, effs)
        },
        Some(message) => {
            let rec = Record { level, module: module.clone(), message };
            let mut effs = handle.log(identity, ts, &rec);
            let mut more = handle.flush(identity);
            effs.append(&mut more);
            proof {
                assert(effs.deep_view() =~= spec_log_payload(
                    orig,
                    identity@,
                    *ts,
                    level,
                    module@,
                    payload@,
                ).1);
            }
            (LoggerStatus::OK, effs)
        },
    }
}

/// Law: shutdown is idempotent — a second shutdown leaves the state
/// exactly where the first left it, closes nothing twice and emits no
/// further effects.
pub proof fn lemma_shutdown_idempotent(h: HandleModel)
    ensures
        spec_handle_shutdown(spec_handle_shutdown(h).0).0 == spec_handle_shutdown(h).0,
        spec_handle_shutdown(spec_handle_shutdown(h).0).1 == Seq::<FileOpModel>::empty(),
{
}

/// Law: a log call that arrives after shutdown is harmless — it leaves the
/// state unchanged and emits no effect, whatever the record was.
pub proof fn lemma_log_after_shutdown(
    h: HandleModel,
    id: Seq<char>,
    ts: Timestamp,
    level: Level,
    module: Seq<char>,
    message: Seq<char>,
)
    ensures
        spec_handle_log(spec_handle_shutdown(h).0, id, ts, level, module, message).0
            == spec_handle_shutdown(h).0,
        spec_handle_log(spec_handle_shutdown(h).0, id, ts, level, module, message).1 == Seq::<
            FileOpModel,
        >::empty(),
{
}

/// Law: the full round trip — a record at an enabled level is logged under
/// `id` and `id`'s writer is flushed; applying the emitted effects to any
/// directory leaves `id`'s own file holding what it held before, then the
/// text `id` had buffered, then the new formatted line, which carries the
/// message verbatim.  Every other file, present or absent, is untouched.
pub proof fn lemma_roundtrip_reaches_file(
    files: Map<Seq<char>, Seq<char>>,
    h: HandleModel,
    id: Seq<char>,
    ts: Timestamp,
    level: Level,
    module: Seq<char>,
    message: Seq<char>,
)
    requires
        spec_handle_wf(h),
        spec_handle_enabled(h, level),
    ensures
        ({
            let m = h.cell.unwrap();
            let path = spec_target_path(m.cfg.dir, m.cfg.basename, id);
            let e1 = spec_handle_log(h, id, ts, level, module, message).1;
            let h1 = spec_handle_log(h, id, ts, level, module, message).0;
            let e2 = spec_handle_flush(h1, id).1;
            let files2 = spec_apply_ops(files, e1 + e2);
            &&& files2.contains_key(path)
            &&& files2[path] == (if files.contains_key(path) {
                files[path]
            } else {
                Seq::<char>::empty()
            }) + spec_pending_of(m, id) + spec_format_line(ts, level, module, message)
            &&& spec_contains(files2[path], message)
            &&& (forall|q: Seq<char>|
                q != path ==> #[trigger] files2.contains_key(q) == files.contains_key(q))
            &&& (forall|q: Seq<char>|
                q != path && files.contains_key(q) ==> #[trigger] files2[q] == files[q])
        }),
{
    let m = h.cell.unwrap();
    let path = spec_target_path(m.cfg.dir, m.cfg.basename, id);
    let line = spec_format_line(ts, level, module, message);
    let (m1, e1) = spec_shim_log(m, id, ts, level, module, message);
    let h1 = spec_handle_log(h, id, ts, level, module, message).0;
    assert(h1.cell == Some(m1));
    lemma_shim_log_preserves_wf(m, id, ts, level, module, message);
    let (m2, e2) = spec_shim_flush(m1, id);
    assert(spec_handle_flush(h1, id).1 == e2);

    // the pushed text, in order: what was buffered, then the new line
    lemma_shim_log_preserves_order(m, id, ts, level, module, message);
    lemma_shim_flush_properties(m1, id);
    lemma_ops_text_concat(e1, e2);
    assert(spec_ops_text(e1 + e2) =~= spec_pending_of(m, id) + line);

    // every effect of both calls names id's own file
    lemma_log_confinement(m, id, ts, level, module, message);
    assert(m1.cfg == m.cfg);
    assert forall|k: int| 0 <= k < (e1 + e2).len() implies spec_op_path(#[trigger] (e1 + e2)[k])
        == path by {
        if k < e1.len() {
            assert((e1 + e2)[k] == e1[k]);
        } else {
            assert((e1 + e2)[k] == e2[k - e1.len()]);
        }
    }

    // a formatted line is never empty, so something was pushed
    assert(line.len() > 0);
    if (e1 + e2).len() == 0 {
        assert(spec_ops_text(e1 + e2) =~= Seq::<char>::empty());
        assert(false);
    }

    lemma_apply_ops_one_path(files, e1 + e2, path);
    let files2 = spec_apply_ops(files, e1 + e2);
    let before = if files.contains_key(path) {
        files[path]
    } else {
        Seq::<char>::empty()
    };
    assert(files2[path] =~= before + spec_pending_of(m, id) + line);

    lemma_format_contains_message(ts, level, module, message);
    lemma_contains_concat_left(before + spec_pending_of(m, id), line, message);
    assert((before + spec_pending_of(m, id)) + line =~= before + spec_pending_of(m, id) + line);
}

} // verus!
