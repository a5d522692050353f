//! Camera session management: arbitration of one exclusive camera between
//! one-shot photo capture and continuous MJPEG streaming.
//!
//! The camera is driven through two external tools running as subprocesses.
//! Spawning, killing, sleeping and reading are performed by the caller, which
//! holds one exclusive lock around the whole manager; every decision — when to
//! pause the stream, when the one-shot tool may run, when to restart, what a
//! read yields — is taken here, as a state machine stepped by events. The
//! caller performs the returned action and hands back the matching event.

use vstd::prelude::*;

use crate::frame::FrameExtractor;
use crate::frame::ScanOutcome;
use crate::frame::initial_scan;
use crate::frame::scan_bytes;

verus! {

/// Settle delay in milliseconds around a stream pause/resume, letting the
/// camera hardware release and reacquire exclusive access.
pub const DEFAULT_SETTLE_MS: u64 = 500;

/// Ceiling on the frame accumulation buffer: a frame not terminated within
/// this many bytes is discarded rather than grown without bound.
pub const FRAME_BUFFER_CEILING: usize = 5_000_000;

/// Suggested size of one read from the streaming subprocess's output.
pub const READ_CHUNK_SIZE: usize = 65536;

/// Failures of the camera operations.
#[derive(Debug, PartialEq, Eq)]
pub enum CameraError {
    /// An external capture tool could not be launched.
    ProcessSpawn,
    /// The one-shot tool ran and exited non-zero; carries its diagnostic text.
    CaptureToolFailure(String),
    /// The streaming subprocess closed its output mid-frame.
    StreamEnded,
    /// A frame read was attempted with no stream registered; unreachable
    /// through the lazy-start protocol and kept only for callers that bypass it.
    StreamNotStarted,
}

/// Parameters for spawning the continuous streaming tool.
pub struct StreamCommand {
    pub width: u32,
    pub height: u32,
    pub framerate: u32,
}

/// Parameters for running the one-shot capture tool.
pub struct CaptureCommand {
    pub width: u32,
    pub height: u32,
}

/// The session manager: camera geometry fixed at construction, plus whether a
/// streaming subprocess is currently registered. At most one streaming
/// subprocess exists per manager; `stream_active` mirrors it.
pub struct CameraManager {
    pub width: u32,
    pub height: u32,
    pub framerate: u32,
    pub settle_ms: u64,
    pub stream_active: bool,
}

impl CameraManager {
    /// A fresh manager with no stream running.
    pub fn new(width: u32, height: u32, framerate: u32) -> (m: Self)
        ensures
            m.width == width,
            m.height == height,
            m.framerate == framerate,
            m.settle_ms == DEFAULT_SETTLE_MS,
            !m.stream_active,
    {
        CameraManager { width, height, framerate, settle_ms: DEFAULT_SETTLE_MS, stream_active: false }
    }

    /// Request a stream start. Idempotent: asks for a spawn exactly when no
    /// stream is registered, so two requests in a row spawn one subprocess.
    /// The caller spawns with the returned parameters and then reports the
    /// spawn through `note_stream_spawned`.
    pub fn start_stream_command(&self) -> (cmd: Option<StreamCommand>)
        ensures
            cmd is Some <==> !self.stream_active,
            cmd matches Some(c) ==> c.width == self.width && c.height == self.height
                && c.framerate == self.framerate,
    {
        if self.stream_active {
            None
        } else {
            Some(StreamCommand { width: self.width, height: self.height, framerate: self.framerate })
        }
    }

    /// The parameters the one-shot capture tool must run with.
    pub fn capture_command(&self) -> (cmd: CaptureCommand)
        ensures
            cmd.width == self.width,
            cmd.height == self.height,
    {
        CaptureCommand { width: self.width, height: self.height }
    }

    /// Record that the streaming subprocess was spawned successfully.
    pub fn note_stream_spawned(&mut self)
        requires
            !old(self).stream_active,
        ensures
            final(self).stream_active,
            final(self).width == old(self).width,
            final(self).height == old(self).height,
            final(self).framerate == old(self).framerate,
            final(self).settle_ms == old(self).settle_ms,
    {
        self.stream_active = true;
    }

    /// Stop the stream. Always succeeds: the handle is cleared whatever
    /// happens, and the caller kills the subprocess exactly when one was
    /// registered — stopping with no stream active kills nothing.
    pub fn stop_stream(&mut self) -> (kill: bool)
        ensures
            kill == old(self).stream_active,
            !final(self).stream_active,
            final(self).width == old(self).width,
            final(self).height == old(self).height,
            final(self).framerate == old(self).framerate,
            final(self).settle_ms == old(self).settle_ms,
    {
        let was = self.stream_active;
        self.stream_active = false;
        was
    }
}

/// What the one-shot capture tool did, as reported by the caller.
pub enum ToolOutcome {
    /// The tool could not be launched at all.
    SpawnFailed,
    /// The tool ran to completion: its exit status, its standard output (the
    /// image bytes), and its diagnostic text (meaningful on failure).
    Finished { success: bool, stdout: Vec<u8>, diagnostic: String },
}

/// Phase of a capture transaction, named for the action the caller was asked
/// to perform and whose completion the transaction is waiting for.
#[derive(PartialEq, Eq, Structural, Clone, Copy, Debug)]
pub enum CapturePhase {
    PendingKill,
    PendingSettleBefore,
    PendingTool,
    PendingSettleAfter,
    PendingRestart,
    Done,
}

/// What the caller must do next in a capture transaction.
#[derive(PartialEq, Eq, Structural, Clone, Copy, Debug)]
pub enum CaptureAction {
    /// Kill the streaming subprocess and await its exit.
    KillStream,
    /// Sleep for the manager's settle delay.
    Settle,
    /// Run the one-shot capture tool synchronously.
    RunTool,
    /// Attempt to respawn the streaming subprocess; failure is tolerated.
    RestartStream,
    /// The transaction is over; fetch the result with `capture_result`.
    Finish,
}

/// Completion of the action the capture transaction was waiting for.
pub enum CaptureEvent {
    StreamKilled,
    Settled,
    ToolDone(ToolOutcome),
    RestartResult(bool),
}

/// One photo-capture transaction: pause the stream if one runs, settle, run
/// the one-shot tool, settle again and attempt a restart if the stream was
/// paused, then report.
pub struct CaptureSession {
    pub was_streaming: bool,
    pub phase: CapturePhase,
    pub outcome: Option<ToolOutcome>,
}

/// Invariant tying a capture transaction to its manager. Centrally: whenever
/// the one-shot tool is about to run, no streaming subprocess is registered —
/// the two tools never touch the camera at the same time.
pub open spec fn capture_wf(m: CameraManager, s: CaptureSession) -> bool {
    &&& (s.phase == CapturePhase::PendingKill ==> s.was_streaming && m.stream_active
        && s.outcome is None)
    &&& (s.phase == CapturePhase::PendingSettleBefore ==> s.was_streaming && !m.stream_active
        && s.outcome is None)
    &&& (s.phase == CapturePhase::PendingTool ==> !m.stream_active && s.outcome is None)
    &&& (s.phase == CapturePhase::PendingSettleAfter ==> s.was_streaming && !m.stream_active
        && s.outcome is Some)
    &&& (s.phase == CapturePhase::PendingRestart ==> s.was_streaming && !m.stream_active
        && s.outcome is Some)
    &&& (s.phase == CapturePhase::Done ==> s.outcome is Some)
}

/// The event a capture transaction in a given phase is waiting for.
pub open spec fn capture_event_fits(s: CaptureSession, e: CaptureEvent) -> bool {
    match s.phase {
        CapturePhase::PendingKill => e matches CaptureEvent::StreamKilled,
        CapturePhase::PendingSettleBefore => e matches CaptureEvent::Settled,
        CapturePhase::PendingTool => e matches CaptureEvent::ToolDone(_),
        CapturePhase::PendingSettleAfter => e matches CaptureEvent::Settled,
        CapturePhase::PendingRestart => e matches CaptureEvent::RestartResult(_),
        CapturePhase::Done => false,
    }
}

impl CameraManager {
    /// Open a capture transaction. If a stream is registered it must first be
    /// killed; otherwise the tool may run at once.
    pub fn begin_capture(&self) -> (r: (CaptureSession, CaptureAction))
        ensures
            capture_wf(*self, r.0),
            r.0.was_streaming == self.stream_active,
            r.0.outcome is None,
            self.stream_active ==> r.0.phase == CapturePhase::PendingKill && r.1
                == CaptureAction::KillStream,
            !self.stream_active ==> r.0.phase == CapturePhase::PendingTool && r.1
                == CaptureAction::RunTool,
    {
        if self.stream_active {
            (
                CaptureSession {
                    was_streaming: true,
                    phase: CapturePhase::PendingKill,
                    outcome: None,
                },
                CaptureAction::KillStream,
            )
        } else {
            (
                CaptureSession {
                    was_streaming: false,
                    phase: CapturePhase::PendingTool,
                    outcome: None,
                },
                CaptureAction::RunTool,
            )
        }
    }

    /// Advance a capture transaction by one completed event. Encodes the whole
    /// pause/capture/resume sequence: after the kill the stream is recorded
    /// stopped and a settle delay is requested; after settling the tool runs;
    /// after the tool, a second settle and a restart attempt follow exactly
    /// when a stream had been paused; a failed restart leaves the stream
    /// stopped but never disturbs the captured outcome.
    pub fn capture_step(&mut self, s: &mut CaptureSession, event: CaptureEvent) -> (a:
        CaptureAction)
        requires
            capture_wf(*old(self), *old(s)),
            capture_event_fits(*old(s), event),
        ensures
            capture_wf(*final(self), *final(s)),
            final(s).was_streaming == old(s).was_streaming,
            final(self).width == old(self).width,
            final(self).height == old(self).height,
            final(self).framerate == old(self).framerate,
            final(self).settle_ms == old(self).settle_ms,
            match old(s).phase {
                CapturePhase::PendingKill => {
                    &&& !final(self).stream_active
                    &&& final(s).phase == CapturePhase::PendingSettleBefore
                    &&& a == CaptureAction::Settle
                    &&& final(s).outcome is None
                },
                CapturePhase::PendingSettleBefore => {
                    &&& final(self).stream_active == old(self).stream_active
                    &&& final(s).phase == CapturePhase::PendingTool
                    &&& a == CaptureAction::RunTool
                    &&& final(s).outcome is None
                },
                CapturePhase::PendingTool => {
                    &&& final(self).stream_active == old(self).stream_active
                    &&& (event matches CaptureEvent::ToolDone(o) ==> final(s).outcome == Some(o))
                    &&& (if old(s).was_streaming {
                        final(s).phase == CapturePhase::PendingSettleAfter && a
                            == CaptureAction::Settle
                    } else {
                        final(s).phase == CapturePhase::Done && a == CaptureAction::Finish
                    })
                },
                CapturePhase::PendingSettleAfter => {
                    &&& final(self).stream_active == old(self).stream_active
                    &&& final(s).phase == CapturePhase::PendingRestart
                    &&& a == CaptureAction::RestartStream
                    &&& final(s).outcome == old(s).outcome
                },
                CapturePhase::PendingRestart => {
                    &&& (event matches CaptureEvent::RestartResult(ok)
                        ==> final(self).stream_active == ok)
                    &&& final(s).phase == CapturePhase::Done
                    &&& a == CaptureAction::Finish
                    &&& final(s).outcome == old(s).outcome
                },
                CapturePhase::Done => false,
            },
    {
        match event {
            CaptureEvent::StreamKilled => {
                self.stream_active = false;
                s.phase = CapturePhase::PendingSettleBefore;
                CaptureAction::Settle
            },
            CaptureEvent::Settled => {
                if s.phase == CapturePhase::PendingSettleBefore {
                    s.phase = CapturePhase::PendingTool;
                    CaptureAction::RunTool
                } else {
                    s.phase = CapturePhase::PendingRestart;
                    CaptureAction::RestartStream
                }
            },
            CaptureEvent::ToolDone(o) => {
                s.outcome = Some(o);
                if s.was_streaming {
                    s.phase = CapturePhase::PendingSettleAfter;
                    CaptureAction::Settle
                } else {
                    s.phase = CapturePhase::Done;
                    CaptureAction::Finish
                }
            },
            CaptureEvent::RestartResult(ok) => {
                self.stream_active = ok;
                s.phase = CapturePhase::Done;
                CaptureAction::Finish
            },
        }
    }
}

/// Close a finished capture transaction: the image bytes on success, the
/// spawn error if the tool never launched, or the tool's diagnostic text if it
/// exited non-zero. The result depends only on the tool's outcome — a failed
/// stream restart never takes the captured photo away from the caller.
pub fn capture_result(s: CaptureSession) -> (r: Result<Vec<u8>, CameraError>)
    requires
        s.phase == CapturePhase::Done,
        s.outcome is Some,
    ensures
        match s.outcome {
            Some(ToolOutcome::SpawnFailed) => r matches Err(CameraError::ProcessSpawn),
            Some(ToolOutcome::Finished { success, stdout, diagnostic }) => {
                &&& (success ==> (r matches Ok(b) && b@ == stdout@))
                &&& (!success ==> (r matches Err(CameraError::CaptureToolFailure(d)) && d@
                    == diagnostic@))
            },
            None => false,
        },
{
    match s.outcome {
        Some(ToolOutcome::SpawnFailed) => Err(CameraError::ProcessSpawn),
        Some(ToolOutcome::Finished { success, stdout, diagnostic }) => {
            if success {
                Ok(stdout)
            } else {
                Err(CameraError::CaptureToolFailure(diagnostic))
            }
        },
        None => {
            proof {
                assert(false);
            }
            Err(CameraError::StreamNotStarted)
        },
    }
}

/// While a capture transaction is waiting for the one-shot tool, no streaming
/// subprocess is registered: the two capture tools are never live against the
/// camera at the same time.
pub proof fn lemma_capture_tool_excludes_stream(m: CameraManager, s: CaptureSession)
    requires
        capture_wf(m, s),
        s.phase == CapturePhase::PendingTool,
    ensures
        !m.stream_active,
{
}

/// Phase of a frame read, named for the pending action.
#[derive(PartialEq, Eq, Structural, Clone, Copy, Debug)]
pub enum ReadPhase {
    PendingSpawn,
    PendingChunk,
    Done,
}

/// What the caller must do next in a frame read.
#[derive(PartialEq, Eq, Structural, Clone, Copy, Debug)]
pub enum ReadAction {
    /// Spawn the streaming subprocess (lazy start).
    SpawnStream,
    /// Read one chunk from the streaming subprocess's output.
    ReadChunk,
    /// The read is over; fetch the result with `read_result`.
    Finish,
}

/// Completion of the action a frame read was waiting for. A zero-length chunk
/// reports that the subprocess closed its output.
pub enum ReadEvent {
    StreamSpawned(bool),
    Chunk(Vec<u8>),
}

/// One frame read: lazily start the stream if none is registered, then pull
/// chunks and scan them until one complete JPEG frame is assembled.
pub struct FrameReadSession {
    pub phase: ReadPhase,
    pub extractor: FrameExtractor,
    pub result: Option<Result<Vec<u8>, CameraError>>,
}

/// Invariant tying a frame read to its manager.
pub open spec fn read_wf(m: CameraManager, s: FrameReadSession) -> bool {
    &&& s.extractor.wf()
    &&& s.extractor.ceiling_spec() == FRAME_BUFFER_CEILING as nat
    &&& (s.phase == ReadPhase::PendingSpawn ==> !m.stream_active && s.result is None)
    &&& (s.phase == ReadPhase::PendingChunk ==> m.stream_active && s.result is None)
    &&& (s.phase == ReadPhase::Done ==> s.result is Some)
}

/// The event a frame read in a given phase is waiting for.
pub open spec fn read_event_fits(s: FrameReadSession, e: ReadEvent) -> bool {
    match s.phase {
        ReadPhase::PendingSpawn => e matches ReadEvent::StreamSpawned(_),
        ReadPhase::PendingChunk => e matches ReadEvent::Chunk(_),
        ReadPhase::Done => false,
    }
}

impl CameraManager {
    /// Open a frame read. With no stream registered the stream is started
    /// first — the lazy start — and only then are chunks read.
    pub fn begin_frame_read(&self) -> (r: (FrameReadSession, ReadAction))
        ensures
            read_wf(*self, r.0),
            r.0.extractor@ == initial_scan(),
            r.0.result is None,
            !self.stream_active ==> r.0.phase == ReadPhase::PendingSpawn && r.1
                == ReadAction::SpawnStream,
            self.stream_active ==> r.0.phase == ReadPhase::PendingChunk && r.1
                == ReadAction::ReadChunk,
    {
        let extractor = FrameExtractor::new(FRAME_BUFFER_CEILING);
        if self.stream_active {
            (
                FrameReadSession { phase: ReadPhase::PendingChunk, extractor, result: None },
                ReadAction::ReadChunk,
            )
        } else {
            (
                FrameReadSession { phase: ReadPhase::PendingSpawn, extractor, result: None },
                ReadAction::SpawnStream,
            )
        }
    }

    /// Advance a frame read by one completed event. A successful spawn is
    /// recorded and reading begins; a failed spawn ends the read with the
    /// spawn error. A zero-length chunk means the stream ended: the read fails
    /// with `StreamEnded` and the stream stays registered — the caller decides
    /// whether to stop it, and the next read then lazily restarts it. A
    /// non-empty chunk is scanned; the read finishes exactly when the scanner
    /// completes a frame inside it.
    pub fn read_step(&mut self, s: &mut FrameReadSession, event: ReadEvent) -> (a: ReadAction)
        requires
            read_wf(*old(self), *old(s)),
            read_event_fits(*old(s), event),
        ensures
            read_wf(*final(self), *final(s)),
            final(self).width == old(self).width,
            final(self).height == old(self).height,
            final(self).framerate == old(self).framerate,
            final(self).settle_ms == old(self).settle_ms,
            match old(s).phase {
                ReadPhase::PendingSpawn => {
                    &&& (event matches ReadEvent::StreamSpawned(ok) ==> (if ok {
                        &&& final(self).stream_active
                        &&& final(s).phase == ReadPhase::PendingChunk
                        &&& a == ReadAction::ReadChunk
                        &&& final(s).extractor@ == old(s).extractor@
                    } else {
                        &&& final(self).stream_active == old(self).stream_active
                        &&& final(s).phase == ReadPhase::Done
                        &&& a == ReadAction::Finish
                        &&& (final(s).result matches Some(res) && res matches Err(
                            CameraError::ProcessSpawn,
                        ))
                    }))
                },
                ReadPhase::PendingChunk => {
                    &&& final(self).stream_active == old(self).stream_active
                    &&& (event matches ReadEvent::Chunk(c) ==> (if c@.len() == 0 {
                        &&& final(s).phase == ReadPhase::Done
                        &&& a == ReadAction::Finish
                        &&& (final(s).result matches Some(res) && res matches Err(
                            CameraError::StreamEnded,
                        ))
                    } else {
                        match scan_bytes(
                            old(s).extractor@,
                            c@,
                            old(s).extractor.ceiling_spec(),
                        ) {
                            ScanOutcome::Going(s2) => {
                                &&& final(s).phase == ReadPhase::PendingChunk
                                &&& a == ReadAction::ReadChunk
                                &&& final(s).extractor@ == s2
                                &&& final(s).result is None
                            },
                            ScanOutcome::Emitted { frame, used } => {
                                &&& final(s).phase == ReadPhase::Done
                                &&& a == ReadAction::Finish
                                &&& (final(s).result matches Some(res) && res matches Ok(f)
                                    && f@ == frame)
                            },
                        }
                    }))
                },
                ReadPhase::Done => false,
            },
    {
        match event {
            ReadEvent::StreamSpawned(ok) => {
                if ok {
                    self.stream_active = true;
                    s.phase = ReadPhase::PendingChunk;
                    ReadAction::ReadChunk
                } else {
                    s.phase = ReadPhase::Done;
                    s.result = Some(Err(CameraError::ProcessSpawn));
                    ReadAction::Finish
                }
            },
            ReadEvent::Chunk(c) => {
                if c.len() == 0 {
                    s.phase = ReadPhase::Done;
                    s.result = Some(Err(CameraError::StreamEnded));
                    ReadAction::Finish
                } else {
                    match s.extractor.push_chunk(&c) {
                        Some(frame) => {
                            s.phase = ReadPhase::Done;
                            s.result = Some(Ok(frame));
                            ReadAction::Finish
                        },
                        None => {
                            s.phase = ReadPhase::PendingChunk;
                            ReadAction::ReadChunk
                        },
                    }
                }
            },
        }
    }
}

/// Close a finished frame read, yielding the frame bytes or the error.
pub fn read_result(s: FrameReadSession) -> (r: Result<Vec<u8>, CameraError>)
    requires
        s.phase == ReadPhase::Done,
        s.result is Some,
    ensures
        Some(r) == s.result,
{
    match s.result {
        Some(res) => res,
        None => {
            proof {
                assert(false);
            }
            Err(CameraError::StreamNotStarted)
        },
    }
}

} // verus!
