use vstd::prelude::*;
use vstd::string::*;
use crate::inference::invalid_shape_message;
use crate::inference::postprocess_spec;
use crate::model::Detection;
use crate::state::AppState;
use crate::wire::failure_chars;
use crate::wire::failure_body;
use crate::wire::health_chars;
use crate::wire::success_chars;
use crate::wire::success_body;

verus! {

/// The health body: always the fixed status payload, whatever the state of
/// the pipeline or its resources.
pub fn health() -> (r: String)
    ensures
        r@ == health_chars(),
{
    String::from_str("{\"status\":\"ok\"}")
}

/// Run one detection request against the shared state and serialize its
/// outcome: the success body of the result, or the uniform failure body of
/// the first failing stage's error. No error leaves this boundary.
pub fn detect_response(state: &AppState) -> (r: String)
    requires
        state.wf(),
    ensures
        !state.camera.capture_ok() ==> r@ == failure_chars(
            "Webcam capture failed: "@ + state.camera.fail_message(),
        ),
        state.camera.capture_ok() && !state.camera.frame_wf() ==> r@ == failure_chars(
            "Invalid image input: "@ + invalid_shape_message(),
        ),
        state.camera.capture_ok() && state.camera.frame_wf() && !state.model.run_ok() ==> r@
            == failure_chars("Detection failed: "@ + state.model.fail_message()),
        state.camera.capture_ok() && state.camera.frame_wf() && state.model.run_ok()
            ==> exists|raw: Seq<Detection>| state.model.may_return(raw) && r@ == success_chars(
                postprocess_spec(raw, state.config),
            ),
{
    match state.detect() {
        Ok(result) => success_body(&result),
        Err(e) => failure_body(&e),
    }
}

} // verus!
