use face_pipeline::camera::{CameraSource, CaptureMode};
use face_pipeline::errors::AppError;
use face_pipeline::frame::Frame;
use face_pipeline::inference::{postprocess, preprocess, PostprocessConfig};
use face_pipeline::model::{Detection, ModelMode, YoloModel};
use face_pipeline::routes::{detect_response, health};
use face_pipeline::state::AppState;

fn default_config() -> PostprocessConfig {
    PostprocessConfig { threshold: None, num_classes: 1 }
}

fn sample_detection() -> Detection {
    Detection { x: 50, y: 60, width: 80, height: 100, confidence: 900, class_id: 0 }
}

#[test]
fn preprocess_accepts_matching_buffer() {
    let frame = Frame::new(vec![7u8; 6], 1, 2, 3);
    let input = preprocess(&frame).unwrap();
    assert_eq!(input, vec![7u8; 6]);
}

#[test]
fn preprocess_rejects_wrong_length() {
    let frame = Frame::new(vec![0u8; 5], 1, 2, 3);
    match preprocess(&frame) {
        Err(AppError::InvalidImage(_)) => {}
        other => panic!("expected InvalidImage, got {:?}", other),
    }
}

#[test]
fn preprocess_rejects_empty_buffer_with_nonzero_dims() {
    let frame = Frame::new(Vec::new(), 640, 480, 3);
    match preprocess(&frame) {
        Err(AppError::InvalidImage(_)) => {}
        other => panic!("expected InvalidImage, got {:?}", other),
    }
}

#[test]
fn capture_synthetic_yields_zero_frame_of_configured_shape() {
    let camera = CameraSource::new(0, 640, 480).unwrap();
    let frame = camera.capture().unwrap();
    assert_eq!(frame.width, 640);
    assert_eq!(frame.height, 480);
    assert_eq!(frame.channels, 3);
    assert_eq!(frame.buffer.len(), 640 * 480 * 3);
    assert!(frame.buffer.iter().all(|&b| b == 0));
}

#[test]
fn capture_fixed_replays_the_configured_frame() {
    let camera = CameraSource::fixed(Frame::new(vec![1u8, 2, 3, 4, 5, 6], 2, 1, 3));
    let frame = camera.capture().unwrap();
    assert_eq!(frame.buffer, vec![1u8, 2, 3, 4, 5, 6]);
    assert_eq!((frame.width, frame.height, frame.channels), (2, 1, 3));
}

#[test]
fn capture_unavailable_fails_with_capture_failed() {
    let camera = CameraSource::unavailable(String::from("no device"));
    match camera.capture() {
        Err(AppError::CaptureFailed(m)) => assert_eq!(m, "no device"),
        other => panic!("expected CaptureFailed, got {:?}", other),
    }
}

#[test]
fn mock_model_returns_two_to_four_detections_in_shape() {
    let model = YoloModel::load("yolo11n.onnx").unwrap();
    for _ in 0..20 {
        let raw = model.run(&[]).unwrap();
        assert!((2..=4).contains(&raw.len()));
        for det in &raw {
            assert!((50..450).contains(&det.x));
            assert!((50..350).contains(&det.y));
            assert!((80..150).contains(&det.width));
            assert!((100..180).contains(&det.height));
            assert!((700..950).contains(&det.confidence));
            assert_eq!(det.class_id, 0);
        }
    }
}

#[test]
fn fixed_model_returns_exactly_its_detections() {
    let det = sample_detection();
    let model = YoloModel::with_detections(vec![det]);
    let raw = model.run(&[]).unwrap();
    assert_eq!(raw, vec![det]);
}

#[test]
fn failing_model_fails_with_detection_failed() {
    let model = YoloModel::failing(String::from("runtime exploded"));
    match model.run(&[]) {
        Err(AppError::DetectionFailed(m)) => assert_eq!(m, "runtime exploded"),
        other => panic!("expected DetectionFailed, got {:?}", other),
    }
}

#[test]
fn postprocess_converts_boxes_to_corner_form() {
    let result = postprocess(vec![sample_detection()], &default_config()).unwrap();
    assert_eq!(result.num_faces(), 1);
    let rec = result.detections[0];
    assert_eq!((rec.x1, rec.y1, rec.x2, rec.y2), (50, 60, 130, 160));
    assert_eq!(rec.confidence, 900);
    assert_eq!(rec.class_id, 0);
}

#[test]
fn postprocess_threshold_keeps_only_confident_detections() {
    let low = Detection { confidence: 700, ..sample_detection() };
    let high = Detection { confidence: 900, ..sample_detection() };
    let config = PostprocessConfig { threshold: Some(800), num_classes: 1 };
    let result = postprocess(vec![low, high, low], &config).unwrap();
    assert_eq!(result.num_faces(), 1);
    assert_eq!(result.detections[0].confidence, 900);
}

#[test]
fn postprocess_without_threshold_keeps_all_valid_detections() {
    let result = postprocess(vec![sample_detection(); 3], &default_config()).unwrap();
    assert_eq!(result.num_faces(), 3);
}

#[test]
fn postprocess_drops_categories_outside_the_configured_set() {
    let foreign = Detection { class_id: 5, ..sample_detection() };
    let result = postprocess(vec![sample_detection(), foreign], &default_config()).unwrap();
    assert_eq!(result.num_faces(), 1);
    assert_eq!(result.detections[0].class_id, 0);
}

#[test]
fn postprocess_emits_unit_confidences_and_configured_classes() {
    let config = PostprocessConfig { threshold: Some(100), num_classes: 3 };
    let dets = vec![
        Detection { confidence: 1000, class_id: 2, ..sample_detection() },
        Detection { confidence: 50, class_id: 0, ..sample_detection() },
        Detection { confidence: 400, class_id: 1, ..sample_detection() },
    ];
    let result = postprocess(dets, &config).unwrap();
    for rec in &result.detections {
        assert!(rec.confidence <= 1000);
        assert!((0..3).contains(&rec.class_id));
    }
    assert_eq!(result.num_faces(), 2);
}

#[test]
fn detect_zero_filled_synthetic_frame_yields_consistent_result() {
    let state = AppState::new(
        CameraSource::new(0, 640, 480).unwrap(),
        YoloModel::load("yolo11n.onnx").unwrap(),
        default_config(),
    );
    let result = state.detect().unwrap();
    let n = result.num_faces();
    assert!((2..=4).contains(&n));
    assert_eq!(n, result.detections.len());
    for rec in &result.detections {
        assert!(rec.x2 > rec.x1);
        assert!(rec.y2 > rec.y1);
    }
}

#[test]
fn detect_capture_failure_never_yields_a_success_payload() {
    let state = AppState::new(
        CameraSource::unavailable(String::from("cable pulled")),
        YoloModel::load("yolo11n.onnx").unwrap(),
        default_config(),
    );
    match state.detect() {
        Err(AppError::CaptureFailed(m)) => assert_eq!(m, "cable pulled"),
        other => panic!("expected CaptureFailed, got {:?}", other),
    }
    let body = detect_response(&state);
    assert_eq!(body, "{\"success\":false,\"error\":\"Webcam capture failed: cable pulled\"}");
    let parsed: serde_json::Value = serde_json::from_str(&body).unwrap();
    assert_eq!(parsed["success"], serde_json::Value::Bool(false));
    assert!(parsed.get("detections").is_none());
}

#[test]
fn detect_bad_frame_fails_with_invalid_image_before_the_model() {
    let bad_frame = Frame::new(vec![0u8; 10], 640, 480, 3);
    let state = AppState::new(
        CameraSource::fixed(bad_frame),
        YoloModel::failing(String::from("must never run")),
        default_config(),
    );
    match state.detect() {
        Err(AppError::InvalidImage(_)) => {}
        other => panic!("expected InvalidImage, got {:?}", other),
    }
}

#[test]
fn health_is_always_the_fixed_status_payload() {
    assert_eq!(health(), "{\"status\":\"ok\"}");
    let state = AppState::new(
        CameraSource::unavailable(String::from("down")),
        YoloModel::failing(String::from("down")),
        default_config(),
    );
    let _ = state.detect();
    assert_eq!(health(), "{\"status\":\"ok\"}");
}

#[test]
fn fifty_requests_on_one_shared_state_all_carry_the_success_field() {
    let state = std::sync::Arc::new(AppState::new(
        CameraSource::new(0, 640, 480).unwrap(),
        YoloModel::load("yolo11n.onnx").unwrap(),
        default_config(),
    ));
    for _ in 0..50 {
        let body = detect_response(state.as_ref());
        let parsed: serde_json::Value = serde_json::from_str(&body).unwrap();
        assert!(parsed.get("success").is_some());
        assert_eq!(parsed["success"], serde_json::Value::Bool(true));
    }
}

#[test]
fn error_messages_carry_the_taxonomy_prefixes() {
    assert_eq!(
        AppError::CaptureFailed(String::from("x")).message(),
        "Webcam capture failed: x"
    );
    assert_eq!(AppError::DetectionFailed(String::from("y")).message(), "Detection failed: y");
    assert_eq!(AppError::InvalidImage(String::from("z")).message(), "Invalid image input: z");
    assert_eq!(AppError::Internal(String::from("w")).message(), "Internal error: w");
}

#[test]
fn capture_mode_and_model_mode_select_the_backend() {
    let camera = CameraSource::new(9, 4, 4).unwrap();
    match camera.mode {
        CaptureMode::Synthetic { width, height, channels } => {
            assert_eq!((width, height, channels), (4, 4, 3));
        }
        _ => panic!("expected the synthetic backend"),
    }
    let model = YoloModel::load("anything").unwrap();
    assert!(matches!(model.mode, ModelMode::Mock));
}
