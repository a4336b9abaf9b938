use vstd::prelude::*;
use crate::camera::CameraSource;
use crate::errors::AppError;
use crate::inference::DetectionResult;
use crate::inference::PostprocessConfig;
use crate::inference::invalid_shape_message;
use crate::inference::postprocess;
use crate::inference::postprocess_spec;
use crate::inference::preprocess;
use crate::model::Detection;
use crate::model::YoloModel;

verus! {

/// The process-wide pipeline state: the one frame source and the one model,
/// with the postprocessor's configuration. Constructed once at startup and
/// never mutated afterwards; every operation on it takes `&self`, so any
/// number of request tasks may share one instance.
pub struct AppState {
    pub camera: CameraSource,
    pub model: YoloModel,
    pub config: PostprocessConfig,
}

impl AppState {
    /// The state invariant: the model holds only well-formed detections.
    pub open spec fn wf(&self) -> bool {
        self.model.wf()
    }

    pub fn new(camera: CameraSource, model: YoloModel, config: PostprocessConfig) -> (r: AppState)
        ensures
            r == (AppState { camera, model, config }),
    {
        AppState { camera, model, config }
    }

    /// Run one request through the four stages: capture, preprocess, infer,
    /// postprocess. The first failing stage aborts the request with its own
    /// error; no stage is retried and no partial result is returned.
    ///
    /// The contract covers each path: a failed capture is `CaptureFailed`
    /// with the source's message; a malformed frame is `InvalidImage`, and
    /// the model's outcome then plays no part; a failed inference is
    /// `DetectionFailed` with the runtime's message; otherwise the result is
    /// the postprocessing of something the model may return.
    pub fn detect(&self) -> (r: Result<DetectionResult, AppError>)
        requires
            self.wf(),
        ensures
            !self.camera.capture_ok() ==> (r matches Err(e)
                && e matches AppError::CaptureFailed(m) && m@ == self.camera.fail_message()),
            self.camera.capture_ok() && !self.camera.frame_wf() ==> (r matches Err(e)
                && e matches AppError::InvalidImage(m) && m@ == invalid_shape_message()),
            self.camera.capture_ok() && self.camera.frame_wf() && !self.model.run_ok()
                ==> (r matches Err(e)
                    && e matches AppError::DetectionFailed(m) && m@ == self.model.fail_message()),
            self.camera.capture_ok() && self.camera.frame_wf() && self.model.run_ok()
                ==> (r matches Ok(res) && res.wf()
                    && (forall|i: int| 0 <= i < res.detections@.len()
                        ==> (#[trigger] res.detections@[i]).wf())
                    && exists|raw: Seq<Detection>| self.model.may_return(raw)
                        && res.detections@ == postprocess_spec(raw, self.config)),
    {
        let frame = match self.camera.capture() {
            Ok(f) => f,
            Err(e) => {
                return Err(e);
            },
        };
        let input = match preprocess(&frame) {
            Ok(v) => v,
            Err(e) => {
                return Err(e);
            },
        };
        let raw = match self.model.run(input.as_slice()) {
            Ok(v) => v,
            Err(e) => {
                return Err(e);
            },
        };
        match postprocess(raw, &self.config) {
            Ok(res) => Ok(res),
            Err(e) => Err(e),
        }
    }
}

} // verus!
