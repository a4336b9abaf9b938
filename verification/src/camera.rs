use vstd::prelude::*;
use vstd::string::*;
use crate::errors::AppError;
use crate::frame::Frame;
use crate::frame::zero_bytes;

verus! {

/// How a `CameraSource` produces frames. The backend is chosen once at
/// startup; the pipeline logic never depends on which one is in use.
pub enum CaptureMode {
    /// A synthetic source: every capture yields a fresh zero-filled frame of
    /// the configured shape.
    Synthetic { width: usize, height: usize, channels: usize },
    /// A source that replays one configured frame on every capture.
    Fixed { frame: Frame },
    /// A source whose device is unavailable: every capture fails.
    Unavailable { reason: String },
}

/// The frame-acquisition resource. One instance is shared by all concurrent
/// requests; `capture` takes `&self` and never mutates it.
pub struct CameraSource {
    pub mode: CaptureMode,
}

impl CameraSource {
    /// Whether a capture on this source succeeds.
    pub open spec fn capture_ok(&self) -> bool {
        match self.mode {
            CaptureMode::Synthetic { width, height, channels } =>
                width * height * channels <= usize::MAX,
            CaptureMode::Fixed { .. } => true,
            CaptureMode::Unavailable { .. } => false,
        }
    }

    /// The width of the frame a successful capture yields.
    pub open spec fn frame_width(&self) -> usize {
        match self.mode {
            CaptureMode::Synthetic { width, .. } => width,
            CaptureMode::Fixed { frame } => frame.width,
            CaptureMode::Unavailable { .. } => 0,
        }
    }

    /// The height of the frame a successful capture yields.
    pub open spec fn frame_height(&self) -> usize {
        match self.mode {
            CaptureMode::Synthetic { height, .. } => height,
            CaptureMode::Fixed { frame } => frame.height,
            CaptureMode::Unavailable { .. } => 0,
        }
    }

    /// The channel count of the frame a successful capture yields.
    pub open spec fn frame_channels(&self) -> usize {
        match self.mode {
            CaptureMode::Synthetic { channels, .. } => channels,
            CaptureMode::Fixed { frame } => frame.channels,
            CaptureMode::Unavailable { .. } => 0,
        }
    }

    /// The bytes of the frame a successful capture yields.
    pub open spec fn frame_bytes(&self) -> Seq<u8> {
        match self.mode {
            CaptureMode::Synthetic { width, height, channels } =>
                Seq::new((width * height * channels) as nat, |i: int| 0u8),
            CaptureMode::Fixed { frame } => frame.buffer@,
            CaptureMode::Unavailable { .. } => Seq::empty(),
        }
    }

    /// Whether the frame a successful capture yields is well formed.
    pub open spec fn frame_wf(&self) -> bool {
        self.frame_bytes().len() == self.frame_width() * self.frame_height() * self.frame_channels()
    }

    /// The message a failed capture carries.
    pub open spec fn fail_message(&self) -> Seq<char> {
        match self.mode {
            CaptureMode::Unavailable { reason } => reason@,
            _ => "frame dimensions exceed the addressable buffer size"@,
        }
    }

    /// A synthetic source of the given target shape with three interleaved
    /// channels, the backend a default deployment selects at startup. The
    /// device index is accepted for interface compatibility and ignored by
    /// the synthetic backend.
    pub fn new(index: i32, width: usize, height: usize) -> (r: Result<CameraSource, AppError>)
        ensures
            r matches Ok(c) && c == (CameraSource {
                mode: CaptureMode::Synthetic { width, height, channels: 3 },
            }),
    {
        let _ = index;
        Ok(CameraSource { mode: CaptureMode::Synthetic { width, height, channels: 3 } })
    }

    /// A source that replays `frame` on every capture.
    pub fn fixed(frame: Frame) -> (r: CameraSource)
        ensures
            r == (CameraSource { mode: CaptureMode::Fixed { frame } }),
    {
        CameraSource { mode: CaptureMode::Fixed { frame } }
    }

    /// A source whose device cannot produce frames.
    pub fn unavailable(reason: String) -> (r: CameraSource)
        ensures
            r == (CameraSource { mode: CaptureMode::Unavailable { reason } }),
    {
        CameraSource { mode: CaptureMode::Unavailable { reason } }
    }

    /// Acquire one fresh frame, or fail with `CaptureFailed`. No frame is
    /// cached: every call builds its frame anew.
    pub fn capture(&self) -> (r: Result<Frame, AppError>)
        ensures
            self.capture_ok() ==> (r matches Ok(f)
                && f.width == self.frame_width()
                && f.height == self.frame_height()
                && f.channels == self.frame_channels()
                && f.buffer@ == self.frame_bytes()),
            !self.capture_ok() ==> (r matches Err(e)
                && e matches AppError::CaptureFailed(m) && m@ == self.fail_message()),
    {
        match &self.mode {
            CaptureMode::Synthetic { width, height, channels } => {
                let w = *width as u128;
                let h = *height as u128;
                let c = *channels as u128;
                proof {
                    assert(w * h <= 0xffff_ffff_ffff_ffffu128 * 0xffff_ffff_ffff_ffffu128)
                        by (nonlinear_arith)
                        requires
                            w <= 0xffff_ffff_ffff_ffffu128,
                            h <= 0xffff_ffff_ffff_ffffu128,
                    ;
                }
                let wh = w * h;
                if wh > usize::MAX as u128 {
                    proof {
                        assert(w * h * c >= w * h || c == 0) by (nonlinear_arith);
                        assert(c == 0 ==> w * h * c == 0) by (nonlinear_arith);
                    }
                    if *channels == 0 {
                        return Ok(Frame {
                            buffer: Vec::new(),
                            width: *width,
                            height: *height,
                            channels: *channels,
                        });
                    }
                    return Err(AppError::CaptureFailed(String::from_str(
                        "frame dimensions exceed the addressable buffer size",
                    )));
                }
                proof {
                    assert(wh * c <= 0xffff_ffff_ffff_ffffu128 * 0xffff_ffff_ffff_ffffu128)
                        by (nonlinear_arith)
                        requires
                            wh <= 0xffff_ffff_ffff_ffffu128,
                            c <= 0xffff_ffff_ffff_ffffu128,
                    ;
                }
                let whc = wh * c;
                if whc > usize::MAX as u128 {
                    return Err(AppError::CaptureFailed(String::from_str(
                        "frame dimensions exceed the addressable buffer size",
                    )));
                }
                Ok(Frame {
                    buffer: zero_bytes(whc as usize),
                    width: *width,
                    height: *height,
                    channels: *channels,
                })
            },
            CaptureMode::Fixed { frame } => Ok(frame.duplicate()),
            CaptureMode::Unavailable { reason } => {
                Err(AppError::CaptureFailed(String::from_str(reason.as_str())))
            },
        }
    }
}

} // verus!
