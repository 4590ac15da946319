//! Screen freeze: the decisions of the overlay worker, the lifecycle of the
//! controller that starts and stops it, and the pixel work of one overlay.
use vstd::prelude::*;
use crate::outputs::OutputDescriptor;
use crate::text::{chars_of, same_letter, same_letter_exec};

verus! {

/// Why a freeze could not be set up, or one overlay could not be built.
#[derive(Debug, Clone, Copy, PartialEq, Eq, Structural)]
pub enum FreezeError {
    /// No display server could be reached.
    Connection,
    /// The overlay-layer or screen-capture extension is absent.
    MissingExtension,
    /// A core global (compositor, shared memory) is absent, or a round trip failed.
    Protocol,
    /// The capture source failed for another reason.
    Capture,
    /// Shared memory could not be sized, allocated or mapped.
    Resource,
    /// A captured buffer does not hold `width * height * 4` bytes.
    Format,
    /// No output could be paired with a captured frame.
    NoMatch,
    /// The worker did not report readiness in time.
    Timeout,
}

/// The worker's one readiness report.
#[derive(Debug, Clone, Copy, PartialEq, Eq, Structural)]
pub enum WorkerReport {
    /// At least one overlay is committed.
    Ready,
    /// Freezing cannot be offered here; nothing was set up.
    Unavailable,
    Failed(FreezeError),
}

/// What `start` hands back to its caller.
#[derive(Debug, Clone, Copy, PartialEq, Eq, Structural)]
pub enum StartOutcome {
    /// A live session: overlays stay up until `stop`.
    Ready,
    /// A session that does nothing; freezing is off.
    Disabled,
    Failed(FreezeError),
}

#[derive(Debug, Clone, Copy, PartialEq, Eq, Structural)]
pub enum FreezeState {
    Idle,
    Starting,
    Ready,
    Disabled,
    Failed,
    Stopped,
}

/// What the caller must do to the worker.
#[derive(Debug, Clone, Copy, PartialEq, Eq, Structural)]
pub enum StopAction {
    Nothing,
    /// Send the stop signal, then wait for the worker to exit.
    SignalAndJoin,
}

/// The lifecycle of one freeze: `Idle`, `Starting`, then `Ready`,
/// `Disabled` or `Failed`, then `Stopped`.
pub struct FreezeController {
    state: FreezeState,
    worker_live: bool,
}

impl FreezeController {
    pub closed spec fn state_spec(&self) -> FreezeState {
        self.state
    }

    /// Whether a worker may still hold overlays that a stop must tear down.
    pub closed spec fn worker_live_spec(&self) -> bool {
        self.worker_live
    }

    pub fn new() -> (r: FreezeController)
        ensures
            r.state_spec() == FreezeState::Idle,
            !r.worker_live_spec(),
    {
        FreezeController { state: FreezeState::Idle, worker_live: false }
    }

    pub fn state(&self) -> (r: FreezeState)
        ensures
            r == self.state_spec(),
    {
        self.state
    }

    pub fn worker_live(&self) -> (r: bool)
        ensures
            r == self.worker_live_spec(),
    {
        self.worker_live
    }

    /// The worker has been spawned; its report is awaited.
    pub fn begin(&mut self)
        requires
            old(self).state_spec() == FreezeState::Idle,
        ensures
            final(self).state_spec() == FreezeState::Starting,
            final(self).worker_live_spec(),
    {
        self.state = FreezeState::Starting;
        self.worker_live = true;
    }

    /// Takes the worker's report, or `None` when none came within the bound.
    /// Only a ready worker stays alive; one that timed out must be stopped at once.
    pub fn on_report(&mut self, report: Option<WorkerReport>) -> (r: (StartOutcome, StopAction))
        requires
            old(self).state_spec() == FreezeState::Starting,
        ensures
            r == start_decision(report),
            final(self).state_spec() == match r.0 {
                StartOutcome::Ready => FreezeState::Ready,
                StartOutcome::Disabled => FreezeState::Disabled,
                StartOutcome::Failed(_) => FreezeState::Failed,
            },
            final(self).worker_live_spec() == (report == Some(WorkerReport::Ready)),
    {
        match report {
            Some(WorkerReport::Ready) => {
                self.state = FreezeState::Ready;
                self.worker_live = true;
                (StartOutcome::Ready, StopAction::Nothing)
            },
            Some(WorkerReport::Unavailable) => {
                self.state = FreezeState::Disabled;
                self.worker_live = false;
                (StartOutcome::Disabled, StopAction::Nothing)
            },
            Some(WorkerReport::Failed(FreezeError::MissingExtension)) => {
                self.state = FreezeState::Disabled;
                self.worker_live = false;
                (StartOutcome::Disabled, StopAction::Nothing)
            },
            Some(WorkerReport::Failed(e)) => {
                self.state = FreezeState::Failed;
                self.worker_live = false;
                (StartOutcome::Failed(e), StopAction::Nothing)
            },
            None => {
                self.state = FreezeState::Failed;
                self.worker_live = false;
                (StartOutcome::Failed(FreezeError::Timeout), StopAction::SignalAndJoin)
            },
        }
    }

    /// Ends the session. Only the first stop of a live worker asks for teardown;
    /// any later stop, or a stop of a session that never went live, does nothing.
    pub fn stop(&mut self) -> (a: StopAction)
        ensures
            a == (if old(self).worker_live_spec() {
                StopAction::SignalAndJoin
            } else {
                StopAction::Nothing
            }),
            final(self).state_spec() == FreezeState::Stopped,
            !final(self).worker_live_spec(),
    {
        let a = if self.worker_live {
            StopAction::SignalAndJoin
        } else {
            StopAction::Nothing
        };
        self.state = FreezeState::Stopped;
        self.worker_live = false;
        a
    }
}

/// Outcome of `start` for each report: a missing extension turns freezing
/// off rather than failing, and silence past the bound is a timeout whose
/// worker must be torn down.
pub open spec fn start_decision(report: Option<WorkerReport>) -> (StartOutcome, StopAction) {
    match report {
        Some(WorkerReport::Ready) => (StartOutcome::Ready, StopAction::Nothing),
        Some(WorkerReport::Unavailable) => (StartOutcome::Disabled, StopAction::Nothing),
        Some(WorkerReport::Failed(FreezeError::MissingExtension)) => (
            StartOutcome::Disabled,
            StopAction::Nothing,
        ),
        Some(WorkerReport::Failed(e)) => (StartOutcome::Failed(e), StopAction::Nothing),
        None => (StartOutcome::Failed(FreezeError::Timeout), StopAction::SignalAndJoin),
    }
}

/// The worker's verdict once the globals are known: `None` to go on.
/// Compositor and shared memory are required; without the overlay layer,
/// freezing is unavailable.
pub fn check_globals(has_compositor: bool, has_shm: bool, has_layer_shell: bool) -> (r: Option<
    WorkerReport,
>)
    ensures
        r == (if !has_compositor || !has_shm {
            Some(WorkerReport::Failed(FreezeError::Protocol))
        } else if !has_layer_shell {
            Some(WorkerReport::Unavailable)
        } else {
            None
        }),
{
    if !has_compositor || !has_shm {
        Some(WorkerReport::Failed(FreezeError::Protocol))
    } else if !has_layer_shell {
        Some(WorkerReport::Unavailable)
    } else {
        None
    }
}

/// The worker's verdict when the capture source fails to start with `message`.
pub fn capture_failure_report(message: &str) -> (r: WorkerReport)
    ensures
        r == (if mentions_screencopy(message@) {
            WorkerReport::Unavailable
        } else {
            WorkerReport::Failed(FreezeError::Capture)
        }),
{
    if is_missing_screencopy_msg(message) {
        WorkerReport::Unavailable
    } else {
        WorkerReport::Failed(FreezeError::Capture)
    }
}

/// The worker's verdict after matching: `None` to go on, when at least one
/// output received a frame.
pub fn check_mapping(mapping: &Vec<Option<usize>>) -> (r: Option<WorkerReport>)
    ensures
        r == (if forall|i: int| 0 <= i < mapping@.len() ==> (#[trigger] mapping@[i]) is None {
            Some(WorkerReport::Failed(FreezeError::NoMatch))
        } else {
            None
        }),
{
    let mut i: usize = 0;
    while i < mapping.len()
        invariant
            i <= mapping.len(),
            forall|m: int| 0 <= m < i ==> (#[trigger] mapping@[m]) is None,
        decreases mapping.len() - i,
    {
        if mapping[i].is_some() {
            return None;
        }
        i = i + 1;
    }
    Some(WorkerReport::Failed(FreezeError::NoMatch))
}

/// The worker's report once overlays were attempted: ready when at least one was built.
pub fn overlays_report(built: usize) -> (r: WorkerReport)
    ensures
        r == (if built > 0 {
            WorkerReport::Ready
        } else {
            WorkerReport::Failed(FreezeError::NoMatch)
        }),
{
    if built > 0 {
        WorkerReport::Ready
    } else {
        WorkerReport::Failed(FreezeError::NoMatch)
    }
}

pub open spec fn screencopy_word() -> Seq<char> {
    seq!['s', 'c', 'r', 'e', 'e', 'n', 'c', 'o', 'p', 'y']
}

pub open spec fn word_at(s: Seq<char>, w: Seq<char>, i: int) -> bool {
    0 <= i && i + w.len() <= s.len() && forall|m: int|
        0 <= m < w.len() ==> same_letter(#[trigger] s[i + m], w[m])
}

/// `s` holds "screencopy" in any mix of ASCII case.
pub open spec fn mentions_screencopy(s: Seq<char>) -> bool {
    exists|i: int| word_at(s, screencopy_word(), i)
}

/// Whether a capture failure message says the screen-capture extension is missing.
pub fn is_missing_screencopy_msg(msg: &str) -> (r: bool)
    ensures
        r == mentions_screencopy(msg@),
{
    let s = chars_of(msg);
    let w: Vec<char> = vec!['s', 'c', 'r', 'e', 'e', 'n', 'c', 'o', 'p', 'y'];
    assert(w@ =~= screencopy_word());
    if s.len() < w.len() {
        assert forall|i: int| !word_at(s@, screencopy_word(), i) by {}
        return false;
    }
    let mut i: usize = 0;
    while i <= s.len() - w.len()
        invariant
            w@ == screencopy_word(),
            s@ == msg@,
            w.len() <= s.len(),
            i <= s.len() - w.len() + 1,
            forall|k: int| 0 <= k < i ==> !word_at(s@, w@, k),
        decreases s.len() - i,
    {
        if word_at_exec(&s, &w, i) {
            return true;
        }
        i = i + 1;
    }
    assert forall|k: int| !word_at(s@, screencopy_word(), k) by {
        if 0 <= k < i {
        }
    }
    false
}

fn word_at_exec(s: &Vec<char>, w: &Vec<char>, i: usize) -> (r: bool)
    requires
        i + w.len() <= s.len(),
    ensures
        r == word_at(s@, w@, i as int),
{
    let mut m: usize = 0;
    while m < w.len()
        invariant
            i + w.len() <= s.len(),
            m <= w.len(),
            forall|q: int| 0 <= q < m ==> same_letter(#[trigger] s@[i + q], w@[q]),
        decreases w.len() - m,
    {
        if !same_letter_exec(s[i + m], w[m]) {
            return false;
        }
        m = m + 1;
    }
    true
}

/// The byte of the source that lands at `b` when a pixel's first and third
/// channels trade places.
pub open spec fn swapped_index(b: int) -> int {
    if b % 4 == 0 {
        b + 2
    } else if b % 4 == 2 {
        b - 2
    } else {
        b
    }
}

/// Copies a captured frame into the server's channel order, swapping the
/// first and third byte of every pixel. Fails unless the frame holds exactly
/// `width * height * 4` bytes.
pub fn convert_pixels(src: &Vec<u8>, width: u32, height: u32) -> (r: Result<Vec<u8>, FreezeError>)
    ensures
        (src.len() == width as int * height as int * 4) <==> r is Ok,
        r is Err ==> r == Err::<Vec<u8>, FreezeError>(FreezeError::Format),
        r is Ok ==> r->Ok_0.len() == src.len() && forall|b: int|
            0 <= b < src.len() ==> #[trigger] r->Ok_0@[b] == src@[swapped_index(b)],
{
    assert(width as int * height as int <= 0xffff_ffff * 0xffff_ffff) by (nonlinear_arith)
        requires
            width <= 0xffff_ffff,
            height <= 0xffff_ffff,
    ;
    let wh: u128 = (width as u128) * (height as u128);
    let need: u128 = wh * 4;
    if need != src.len() as u128 {
        return Err(FreezeError::Format);
    }
    assert(src.len() % 4 == 0) by (nonlinear_arith)
        requires
            src.len() == width as int * height as int * 4,
    ;
    let mut out: Vec<u8> = Vec::new();
    let mut b: usize = 0;
    while b < src.len()
        invariant
            src.len() % 4 == 0,
            b % 4 == 0,
            b <= src.len(),
            out.len() == b,
            forall|c: int| 0 <= c < b ==> #[trigger] out@[c] == src@[swapped_index(c)],
        decreases src.len() - b,
    {
        out.push(src[b + 2]);
        out.push(src[b + 1]);
        out.push(src[b]);
        out.push(src[b + 3]);
        b = b + 4;
    }
    Ok(out)
}

/// Sizes of a shared-memory buffer as the protocol takes them.
#[derive(Debug, Clone, Copy, PartialEq, Eq, Structural)]
pub struct ShmLayout {
    pub width: i32,
    pub height: i32,
    pub stride: i32,
    pub size: i32,
}

/// Layout of a `width` by `height` buffer of 4-byte pixels; fails when a
/// size does not fit the protocol's signed 32-bit fields.
pub fn shm_layout(width: u32, height: u32) -> (r: Result<ShmLayout, FreezeError>)
    ensures
        (width as int * 4 <= i32::MAX && width as int * 4 * height as int <= i32::MAX
            && height as int <= i32::MAX) <==> r is Ok,
        r is Ok ==> r->Ok_0 == (ShmLayout {
            width: width as i32,
            height: height as i32,
            stride: (width * 4) as i32,
            size: (width as int * 4 * height as int) as i32,
        }),
        r is Err ==> r == Err::<ShmLayout, FreezeError>(FreezeError::Resource),
{
    let stride: u64 = width as u64 * 4;
    if stride > 0x7fff_ffff || height as u64 > 0x7fff_ffff {
        assert(width as int * 4 * height as int >= 0) by (nonlinear_arith);
        return Err(FreezeError::Resource);
    }
    assert(stride as int * height as int <= 0x7fff_ffff * 0x7fff_ffff) by (nonlinear_arith)
        requires
            stride <= 0x7fff_ffff,
            height <= 0x7fff_ffff,
    ;
    let size: u64 = stride * height as u64;
    if size > 0x7fff_ffff {
        return Err(FreezeError::Resource);
    }
    Ok(ShmLayout { width: width as i32, height: height as i32, stride: stride as i32, size: size as i32 })
}

/// The size to request for an output's overlay: its logical size, when
/// known and positive in both dimensions.
pub fn overlay_size(desc: &OutputDescriptor) -> (r: Option<(u32, u32)>)
    ensures
        match desc.logical_size_spec() {
            Some((w, h)) => if w > 0 && h > 0 {
                r == Some((w as u32, h as u32))
            } else {
                r is None
            },
            None => r is None,
        },
{
    match desc.logical_size() {
        Some((w, h)) => if w > 0 && h > 0 {
            Some((w as u32, h as u32))
        } else {
            None
        },
        None => None,
    }
}

} // verus!
