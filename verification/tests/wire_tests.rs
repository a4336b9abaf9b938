use face_pipeline::inference::{postprocess, BBoxRecord, PostprocessConfig};
use face_pipeline::model::Detection;
use face_pipeline::routes::detect_response;
use face_pipeline::camera::CameraSource;
use face_pipeline::frame::Frame;
use face_pipeline::model::YoloModel;
use face_pipeline::state::AppState;
use face_pipeline::wire::{failure_body, parse_success_body, success_body};
use face_pipeline::errors::AppError;

fn record(x1: i64, y1: i64, x2: i64, y2: i64, confidence: u32, class_id: i32) -> BBoxRecord {
    BBoxRecord { x1, y1, x2, y2, confidence, class_id }
}

fn body_of(records: Vec<BBoxRecord>) -> String {
    let count = records.len();
    let result = face_pipeline::inference::DetectionResult { detections: records, count };
    success_body(&result)
}

#[test]
fn success_body_has_the_exact_wire_shape() {
    let body = body_of(vec![record(50, 60, 130, 160, 900, 0)]);
    assert_eq!(
        body,
        "{\"success\":true,\"num_faces\":1,\"detections\":[{\"bbox\":[50,60,130,160],\"confidence\":0.900,\"class_id\":0}]}"
    );
}

#[test]
fn success_body_of_no_detections_is_the_empty_list() {
    let body = body_of(Vec::new());
    assert_eq!(body, "{\"success\":true,\"num_faces\":0,\"detections\":[]}");
}

#[test]
fn success_body_is_valid_json_with_matching_count() {
    let body = body_of(vec![
        record(50, 60, 130, 160, 900, 0),
        record(-10, 0, 5, 20, 1000, 2),
    ]);
    let parsed: serde_json::Value = serde_json::from_str(&body).unwrap();
    assert_eq!(parsed["success"], serde_json::Value::Bool(true));
    assert_eq!(parsed["num_faces"], serde_json::Value::from(2));
    assert_eq!(parsed["detections"].as_array().unwrap().len(), 2);
    assert_eq!(parsed["detections"][0]["bbox"][2], serde_json::Value::from(130));
    assert_eq!(parsed["detections"][1]["bbox"][0], serde_json::Value::from(-10));
}

#[test]
fn round_trip_returns_the_records_unchanged() {
    let records = vec![
        record(50, 60, 130, 160, 900, 0),
        record(0, 0, 1, 1, 0, 3),
        record(333, 125, 444, 305, 749, 1),
    ];
    let body = body_of(records.clone());
    let parsed = parse_success_body(&body).unwrap();
    assert_eq!(parsed, records);
}

#[test]
fn round_trip_keeps_negative_coordinates() {
    let records = vec![record(-120, -5, -3, 40, 1000, 0)];
    let body = body_of(records.clone());
    let parsed = parse_success_body(&body).unwrap();
    assert_eq!(parsed, records);
}

#[test]
fn round_trip_keeps_confidence_bounds() {
    let records = vec![record(1, 2, 3, 4, 0, 0), record(1, 2, 3, 4, 1000, 0)];
    let body = body_of(records.clone());
    assert!(body.contains("0.000"));
    assert!(body.contains("1.000"));
    let parsed = parse_success_body(&body).unwrap();
    assert_eq!(parsed, records);
}

#[test]
fn round_trip_through_the_whole_pipeline() {
    let dets = vec![
        Detection { x: 50, y: 60, width: 80, height: 100, confidence: 900, class_id: 0 },
        Detection { x: 9, y: 8, width: 7, height: 6, confidence: 701, class_id: 0 },
    ];
    let config = PostprocessConfig { threshold: None, num_classes: 1 };
    let result = postprocess(dets, &config).unwrap();
    let body = success_body(&result);
    let parsed = parse_success_body(&body).unwrap();
    assert_eq!(parsed, result.detections);
}

#[test]
fn parse_rejects_a_count_that_does_not_match_the_list() {
    let input = "{\"success\":true,\"num_faces\":2,\"detections\":[]}";
    assert!(parse_success_body(input).is_none());
}

#[test]
fn parse_rejects_trailing_input() {
    let body = body_of(Vec::new());
    let mut longer = body.clone();
    longer.push('x');
    assert!(parse_success_body(&longer).is_none());
    assert!(parse_success_body(&body).is_some());
}

#[test]
fn parse_rejects_a_failure_body() {
    let body = failure_body(&AppError::Internal(String::from("nope")));
    assert!(parse_success_body(&body).is_none());
}

#[test]
fn failure_body_has_the_exact_wire_shape() {
    let body = failure_body(&AppError::DetectionFailed(String::from("oom")));
    assert_eq!(body, "{\"success\":false,\"error\":\"Detection failed: oom\"}");
}

#[test]
fn invalid_image_response_travels_through_the_handler() {
    let state = AppState::new(
        CameraSource::fixed(Frame::new(vec![0u8; 2], 2, 2, 3)),
        YoloModel::load("m").unwrap(),
        PostprocessConfig { threshold: None, num_classes: 1 },
    );
    let body = detect_response(&state);
    let parsed: serde_json::Value = serde_json::from_str(&body).unwrap();
    assert_eq!(parsed["success"], serde_json::Value::Bool(false));
    let message = parsed["error"].as_str().unwrap();
    assert!(message.starts_with("Invalid image input: "));
}

#[test]
fn detect_response_of_a_mock_run_parses_back() {
    let state = AppState::new(
        CameraSource::new(0, 640, 480).unwrap(),
        YoloModel::load("m").unwrap(),
        PostprocessConfig { threshold: None, num_classes: 1 },
    );
    let body = detect_response(&state);
    let records = parse_success_body(&body).unwrap();
    assert!((2..=4).contains(&records.len()));
}
