use vstd::prelude::*;
use vstd::string::*;
use crate::errors::AppError;
use crate::frame::Frame;
use crate::frame::copy_bytes;
use crate::model::CONF_SCALE;
use crate::model::COORD_LIMIT;
use crate::model::Detection;

verus! {

/// The message `preprocess` rejects a malformed frame with.
pub open spec fn invalid_shape_message() -> Seq<char> {
    "frame buffer length does not match the declared dimensions"@
}

/// Turn a raw frame into the model-ready input, or reject it with
/// `InvalidImage`. The input is accepted exactly when the buffer length
/// matches the declared dimensions; the synthetic backend consumes the pixel
/// bytes as they are, so the transform is the identity on the buffer.
/// A pure function: no side effects, no shared state.
pub fn preprocess(frame: &Frame) -> (r: Result<Vec<u8>, AppError>)
    ensures
        frame.wf() ==> (r matches Ok(input) && input@ == frame.buffer@),
        !frame.wf() ==> (r matches Err(e)
            && e matches AppError::InvalidImage(m) && m@ == invalid_shape_message()),
{
    if frame.check_shape() {
        Ok(copy_bytes(&frame.buffer))
    } else {
        Err(AppError::InvalidImage(String::from_str(
            "frame buffer length does not match the declared dimensions",
        )))
    }
}

/// One transport-ready detection record: the box in corner form
/// `[x1, y1, x2, y2]` (top-left then bottom-right), with the confidence and
/// the category carried over.
#[derive(Debug, Clone, Copy, PartialEq, Eq, Structural)]
pub struct BBoxRecord {
    pub x1: i64,
    pub y1: i64,
    pub x2: i64,
    pub y2: i64,
    /// Fixed-point: the fraction `confidence / CONF_SCALE` of one.
    pub confidence: u32,
    pub class_id: i32,
}

impl BBoxRecord {
    /// The record invariant: corners within twice the coordinate limit (a
    /// corner is the sum of two bounded values), an ordered box, confidence
    /// inside the unit interval, and a non-negative category.
    pub open spec fn wf(&self) -> bool {
        &&& -2 * COORD_LIMIT <= self.x1 <= 2 * COORD_LIMIT
        &&& -2 * COORD_LIMIT <= self.y1 <= 2 * COORD_LIMIT
        &&& -2 * COORD_LIMIT <= self.x2 <= 2 * COORD_LIMIT
        &&& -2 * COORD_LIMIT <= self.y2 <= 2 * COORD_LIMIT
        &&& self.x1 <= self.x2
        &&& self.y1 <= self.y2
        &&& self.confidence <= CONF_SCALE
        &&& 0 <= self.class_id
    }
}

/// The postprocessor's configuration: an optional confidence floor (with no
/// floor every confidence is accepted) and the size of the category set, the
/// categories being `0 .. num_classes`.
#[derive(Debug, Clone, Copy, PartialEq, Eq, Structural)]
pub struct PostprocessConfig {
    pub threshold: Option<u32>,
    pub num_classes: i32,
}

/// Whether `postprocess` keeps a raw detection: its confidence reaches the
/// configured floor and its category lies in the configured set.
pub open spec fn keeps(d: Detection, config: PostprocessConfig) -> bool {
    &&& (config.threshold matches Some(t) ==> d.confidence >= t)
    &&& 0 <= d.class_id < config.num_classes
}

/// The corner-form record of one raw detection.
pub open spec fn to_record(d: Detection) -> BBoxRecord {
    BBoxRecord {
        x1: d.x,
        y1: d.y,
        x2: (d.x + d.width) as i64,
        y2: (d.y + d.height) as i64,
        confidence: d.confidence,
        class_id: d.class_id,
    }
}

/// What `postprocess` returns: the kept detections, in their input order,
/// each converted to corner form.
pub open spec fn postprocess_spec(dets: Seq<Detection>, config: PostprocessConfig) -> Seq<BBoxRecord>
    decreases dets.len(),
{
    if dets.len() == 0 {
        Seq::empty()
    } else {
        let rest = postprocess_spec(dets.drop_last(), config);
        if keeps(dets.last(), config) {
            rest.push(to_record(dets.last()))
        } else {
            rest
        }
    }
}

/// The ordered detections of one request, with their count: produced once per
/// request and handed to the transport boundary.
#[derive(Debug)]
pub struct DetectionResult {
    pub detections: Vec<BBoxRecord>,
    pub count: usize,
}

impl DetectionResult {
    /// The result invariant: the count is the length of the sequence.
    pub open spec fn wf(&self) -> bool {
        self.count == self.detections@.len()
    }

    /// How many detections the request produced.
    pub fn num_faces(&self) -> (r: usize)
        requires
            self.wf(),
        ensures
            r == self.detections@.len(),
    {
        self.count
    }
}

/// Convert raw detections to the transport-ready result: keep those whose
/// confidence reaches the configured floor and whose category lies in the
/// configured set, in order, and put each box in corner form. The input is
/// consumed, never mutated; the result is a fresh sequence. A pure function:
/// safe to call from any number of concurrent requests.
pub fn postprocess(detections: Vec<Detection>, config: &PostprocessConfig) -> (r: Result<
    DetectionResult,
    AppError,
>)
    requires
        forall|i: int| 0 <= i < detections@.len() ==> (#[trigger] detections@[i]).wf(),
    ensures
        r matches Ok(res) && res.wf()
            && res.detections@ == postprocess_spec(detections@, *config)
            && forall|i: int| 0 <= i < res.detections@.len()
                ==> (#[trigger] res.detections@[i]).wf()
                    && res.detections@[i].confidence <= CONF_SCALE
                    && 0 <= res.detections@[i].class_id < config.num_classes
                    && (config.threshold matches Some(t)
                        ==> res.detections@[i].confidence >= t),
{
    let mut out: Vec<BBoxRecord> = Vec::new();
    let mut i: usize = 0;
    while i < detections.len()
        invariant
            i <= detections@.len(),
            forall|k: int| 0 <= k < detections@.len() ==> (#[trigger] detections@[k]).wf(),
            out@ == postprocess_spec(detections@.subrange(0, i as int), *config),
            forall|k: int| 0 <= k < out@.len()
                ==> (#[trigger] out@[k]).wf()
                    && 0 <= out@[k].class_id < config.num_classes
                    && (config.threshold matches Some(t) ==> out@[k].confidence >= t),
        decreases detections@.len() - i,
    {
        let d = detections[i];
        let keep_conf = match config.threshold {
            Some(t) => d.confidence >= t,
            None => true,
        };
        let keep_class = 0 <= d.class_id && d.class_id < config.num_classes;
        if keep_conf && keep_class {
            let rec = BBoxRecord {
                x1: d.x,
                y1: d.y,
                x2: d.x + d.width,
                y2: d.y + d.height,
                confidence: d.confidence,
                class_id: d.class_id,
            };
            out.push(rec);
        }
        i = i + 1;
        proof {
            let pre = detections@.subrange(0, i - 1 as int);
            let cur = detections@.subrange(0, i as int);
            assert(cur.drop_last() =~= pre);
            assert(cur.last() == detections@[i - 1]);
        }
    }
    proof {
        assert(detections@.subrange(0, detections@.len() as int) =~= detections@);
    }
    let count = out.len();
    Ok(DetectionResult { detections: out, count })
}

} // verus!
