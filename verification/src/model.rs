use vstd::prelude::*;
use vstd::string::*;
use crate::errors::AppError;
use crate::rng::random_in_range;

verus! {

/// Coordinates of a detection are integer frame-space pixels; a magnitude
/// bound keeps every corner sum representable.
pub const COORD_LIMIT: i64 = 1_000_000_000;

/// Confidences are fixed-point fractions of one: a value `c` stands for the
/// fraction `c / CONF_SCALE`, so the unit interval is `0 ..= CONF_SCALE`.
pub const CONF_SCALE: u32 = 1000;

/// One predicted bounding box: a top-left corner with a size, in integer
/// frame-space pixels, a fixed-point confidence, and a category.
#[derive(Debug, Clone, Copy, PartialEq, Eq, Structural)]
pub struct Detection {
    pub x: i64,
    pub y: i64,
    pub width: i64,
    pub height: i64,
    /// Fixed-point: the fraction `confidence / CONF_SCALE` of one.
    pub confidence: u32,
    pub class_id: i32,
}

impl Detection {
    /// The detection invariant: non-negative size, confidence inside the unit
    /// interval, a non-negative category, and coordinates within the
    /// representable frame space.
    pub open spec fn wf(&self) -> bool {
        &&& -COORD_LIMIT <= self.x <= COORD_LIMIT
        &&& -COORD_LIMIT <= self.y <= COORD_LIMIT
        &&& 0 <= self.width <= COORD_LIMIT
        &&& 0 <= self.height <= COORD_LIMIT
        &&& self.confidence <= CONF_SCALE
        &&& 0 <= self.class_id
    }
}

/// The box shape the synthetic backend draws from, in integer frame-space
/// pixels and fixed-point confidence.
pub open spec fn mock_detection_shape(d: Detection) -> bool {
    &&& 50 <= d.x < 450
    &&& 50 <= d.y < 350
    &&& 80 <= d.width < 150
    &&& 100 <= d.height < 180
    &&& 700 <= d.confidence < 950
    &&& d.class_id == 0
}

/// How a `YoloModel` produces raw detections. The backend is chosen once at
/// startup; the pipeline logic never depends on which one is in use.
pub enum ModelMode {
    /// The synthetic backend: each run yields between two and four random
    /// boxes of the synthetic shape.
    Mock,
    /// A deterministic backend that yields one configured list on every run.
    Fixed { detections: Vec<Detection> },
    /// A runtime whose inference fails on every run.
    Failing { reason: String },
}

/// The inference resource. One instance is shared by all concurrent
/// requests; `run` takes `&self` and never mutates it.
pub struct YoloModel {
    pub mode: ModelMode,
}

impl YoloModel {
    /// The model invariant: a deterministic backend only holds well-formed
    /// detections.
    pub open spec fn wf(&self) -> bool {
        self.mode matches ModelMode::Fixed { detections }
            ==> forall|i: int| 0 <= i < detections@.len() ==> (#[trigger] detections@[i]).wf()
    }

    /// Whether a run on this model succeeds.
    pub open spec fn run_ok(&self) -> bool {
        !(self.mode is Failing)
    }

    /// The message a failed run carries.
    pub open spec fn fail_message(&self) -> Seq<char> {
        match self.mode {
            ModelMode::Failing { reason } => reason@,
            _ => Seq::empty(),
        }
    }

    /// What a successful run may return: the configured list for a
    /// deterministic backend, and any two to four boxes of the synthetic shape for
    /// the synthetic one.
    pub open spec fn may_return(&self, raw: Seq<Detection>) -> bool {
        match self.mode {
            ModelMode::Mock => {
                &&& 2 <= raw.len() <= 4
                &&& forall|i: int| 0 <= i < raw.len() ==> mock_detection_shape(#[trigger] raw[i])
            },
            ModelMode::Fixed { detections } => raw == detections@,
            ModelMode::Failing { .. } => false,
        }
    }

    /// The synthetic backend. The artifact path is accepted for interface
    /// compatibility; the synthetic backend reads no artifact, so loading
    /// always succeeds.
    pub fn load(path: &str) -> (r: Result<YoloModel, AppError>)
        ensures
            r matches Ok(m) && m == (YoloModel { mode: ModelMode::Mock }),
    {
        let _ = path;
        Ok(YoloModel { mode: ModelMode::Mock })
    }

    /// A deterministic backend that returns `detections` on every run.
    pub fn with_detections(detections: Vec<Detection>) -> (r: YoloModel)
        ensures
            r == (YoloModel { mode: ModelMode::Fixed { detections } }),
    {
        YoloModel { mode: ModelMode::Fixed { detections } }
    }

    /// A backend whose inference fails on every run.
    pub fn failing(reason: String) -> (r: YoloModel)
        ensures
            r == (YoloModel { mode: ModelMode::Failing { reason } }),
    {
        YoloModel { mode: ModelMode::Failing { reason } }
    }

    /// Run inference on a prepared input, or fail with `DetectionFailed`.
    /// The synthetic backend ignores the input and draws random boxes; every
    /// run draws afresh, so only the shape of the outcome is promised.
    pub fn run(&self, input: &[u8]) -> (r: Result<Vec<Detection>, AppError>)
        requires
            self.wf(),
        ensures
            self.run_ok() ==> (r matches Ok(raw) && self.may_return(raw@)
                && forall|i: int| 0 <= i < raw@.len() ==> (#[trigger] raw@[i]).wf()),
            !self.run_ok() ==> (r matches Err(e)
                && e matches AppError::DetectionFailed(m) && m@ == self.fail_message()),
    {
        let _ = input;
        match &self.mode {
            ModelMode::Mock => {
                let num_faces = random_in_range(2, 5);
                let mut raw: Vec<Detection> = Vec::new();
                let mut i: u64 = 0;
                while i < num_faces
                    invariant
                        num_faces <= 4,
                        i <= num_faces,
                        raw@.len() == i,
                        forall|j: int| 0 <= j < raw@.len()
                            ==> mock_detection_shape(#[trigger] raw@[j]) && raw@[j].wf(),
                    decreases num_faces - i,
                {
                    let det = Detection {
                        x: random_in_range(50, 450) as i64,
                        y: random_in_range(50, 350) as i64,
                        width: random_in_range(80, 150) as i64,
                        height: random_in_range(100, 180) as i64,
                        confidence: random_in_range(700, 950) as u32,
                        class_id: 0,
                    };
                    raw.push(det);
                    i = i + 1;
                }
                Ok(raw)
            },
            ModelMode::Fixed { detections } => {
                let mut raw: Vec<Detection> = Vec::new();
                let mut i: usize = 0;
                while i < detections.len()
                    invariant
                        i <= detections@.len(),
                        raw@ == detections@.subrange(0, i as int),
                    decreases detections@.len() - i,
                {
                    raw.push(detections[i]);
                    i = i + 1;
                    proof {
                        assert(raw@ =~= detections@.subrange(0, i as int));
                    }
                }
                proof {
                    assert(raw@ =~= detections@);
                }
                Ok(raw)
            },
            ModelMode::Failing { reason } => {
                Err(AppError::DetectionFailed(String::from_str(reason.as_str())))
            },
        }
    }
}

} // verus!
