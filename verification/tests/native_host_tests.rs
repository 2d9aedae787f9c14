use std::io;

use typomorph::improver::improve_rule_based;
use typomorph::native::{
    default_layout, frame_length, frame_prefix, handle, language_name, read_message, tier_name,
    write_message, Request, Response,
};
use typomorph::classifier::Language;
use typomorph::cloud::{CloudError, CloudTransport, PromptCloudClient};
use typomorph::native::{frame_message, handle_with, parse_frame, Frame};

struct ManagedReply;

impl CloudTransport for ManagedReply {
    fn post_json(&self, _endpoint: &str, _headers: &[(&str, &str)], _body: &str) -> Result<String, CloudError> {
        Ok(r#"{"improved":"Write a short poem."}"#.to_string())
    }
}

struct Unreachable;

impl CloudTransport for Unreachable {
    fn post_json(&self, _endpoint: &str, _headers: &[(&str, &str)], _body: &str) -> Result<String, CloudError> {
        Err(CloudError::Network("unreachable".to_string()))
    }
}

#[test]
fn cloud_requests_name_their_backend_or_fall_back() {
    let request = || Request::ImprovePrompt { text: "write a poem".to_string(), cloud: true, api_key: None };
    match handle_with(request(), true, &PromptCloudClient::with_transport(ManagedReply)) {
        Response::ImprovePrompt { mode, improved, .. } => {
            assert_eq!(mode, "cloud-managed");
            assert_eq!(improved, "Write a short poem.");
        }
        other => panic!("unexpected {other:?}"),
    }
    match handle_with(request(), true, &PromptCloudClient::with_transport(Unreachable)) {
        Response::ImprovePrompt { mode, improved, .. } => {
            assert_eq!(mode, "local-fallback");
            assert_eq!(improved, improve_rule_based("write a poem"));
        }
        other => panic!("unexpected {other:?}"),
    }
    let with_key = Request::ImprovePrompt { text: "write a poem".to_string(), cloud: true, api_key: Some("sk".to_string()) };
    match handle_with(with_key, false, &PromptCloudClient::with_transport(Unreachable)) {
        Response::ImprovePrompt { mode, .. } => assert_eq!(mode, "local-fallback"),
        other => panic!("unexpected {other:?}"),
    }
}

#[test]
fn message_framing_round_trips() {
    let mut buffer = Vec::new();
    write_message(&mut buffer, br#"{"ok":true}"#).unwrap();

    let mut cursor = io::Cursor::new(buffer);
    let message = read_message(&mut cursor).unwrap().unwrap();
    assert_eq!(message, br#"{"ok":true}"#);
}

#[test]
fn read_message_returns_none_on_clean_eof() {
    let mut cursor = io::Cursor::new(Vec::<u8>::new());
    assert!(read_message(&mut cursor).unwrap().is_none());
}

#[test]
fn status_reports_tier_from_injected_flag() {
    assert_eq!(handle(Request::Status, false), Response::Status { ok: true, tier: "free".to_string() });
    assert_eq!(handle(Request::Status, true), Response::Status { ok: true, tier: "pro".to_string() });
}

#[test]
fn correct_layout_fixes_gibberish() {
    let response = handle(
        Request::CorrectLayout { text: "ghbdtn".to_string(), layout: "us".to_string() },
        false,
    );
    assert_eq!(
        response,
        Response::CorrectLayout {
            ok: true,
            language: "Russian".to_string(),
            switched: true,
            target_layout: Some("ru".to_string()),
            corrected: "привет".to_string(),
        }
    );
}

#[test]
fn improve_prompt_local_never_touches_network() {
    let response = handle(
        Request::ImprovePrompt { text: "pls write a poem".to_string(), cloud: false, api_key: None },
        false,
    );
    assert_eq!(
        response,
        Response::ImprovePrompt {
            ok: true,
            mode: "local".to_string(),
            prompt_detected: true,
            confidence: 600_000,
            improved: improve_rule_based("pls write a poem"),
        }
    );
}

#[test]
fn improve_prompt_cloud_without_key_or_pro_errors_out() {
    let response = handle(
        Request::ImprovePrompt { text: "write a poem".to_string(), cloud: true, api_key: None },
        false,
    );
    assert!(matches!(response, Response::Error { ok: false, .. }));
}

#[test]
fn blank_api_key_counts_as_none() {
    let response = handle(
        Request::ImprovePrompt { text: "write a poem".to_string(), cloud: true, api_key: Some("  ".to_string()) },
        false,
    );
    assert_eq!(
        response,
        Response::Error {
            ok: false,
            error: "cloud improvement requires an api_key or an active Pro license".to_string()
        }
    );
}

#[test]
fn frames_carry_the_length_in_machine_byte_order() {
    assert_eq!(frame_prefix(5), 5u32.to_ne_bytes().to_vec());
    assert_eq!(frame_prefix(300), 300u32.to_ne_bytes().to_vec());
    assert_eq!(frame_length(300u32.to_ne_bytes()), 300);
    assert_eq!(frame_length(frame_prefix(70_000).try_into().unwrap()), 70_000);
}

#[test]
fn truncated_payload_is_an_error() {
    let mut bytes = 10u32.to_ne_bytes().to_vec();
    bytes.extend_from_slice(b"abc");
    let mut cursor = io::Cursor::new(bytes);
    assert!(read_message(&mut cursor).is_err());
}

#[test]
fn consecutive_frames_are_read_in_order() {
    let mut buffer = Vec::new();
    write_message(&mut buffer, b"one").unwrap();
    write_message(&mut buffer, b"").unwrap();
    write_message(&mut buffer, b"three").unwrap();
    let mut cursor = io::Cursor::new(buffer);
    assert_eq!(read_message(&mut cursor).unwrap().unwrap(), b"one");
    assert_eq!(read_message(&mut cursor).unwrap().unwrap(), b"");
    assert_eq!(read_message(&mut cursor).unwrap().unwrap(), b"three");
    assert!(read_message(&mut cursor).unwrap().is_none());
}

#[test]
fn names_and_defaults() {
    assert_eq!(language_name(Language::Ukrainian), "Ukrainian");
    assert_eq!(language_name(Language::Hindi), "Hindi");
    assert_eq!(tier_name(true), "pro");
    assert_eq!(default_layout(), "us");
}

#[test]
fn correct_layout_leaves_good_text_alone() {
    let response = handle(
        Request::CorrectLayout { text: "hello".to_string(), layout: "us".to_string() },
        false,
    );
    assert_eq!(
        response,
        Response::CorrectLayout {
            ok: true,
            language: "English".to_string(),
            switched: false,
            target_layout: None,
            corrected: "hello".to_string(),
        }
    );
}

#[test]
fn frames_are_the_native_length_then_the_payload() {
    let payload = br#"{"ok":true}"#;
    let frame = frame_message(payload);
    assert_eq!(frame, [&11u32.to_ne_bytes()[..], payload].concat());
    assert_eq!(parse_frame(&frame), Frame::Message(payload.to_vec()));
    assert_eq!(parse_frame(&[]), Frame::End);
    assert_eq!(parse_frame(&frame[..3]), Frame::Truncated);
    assert_eq!(parse_frame(&frame[..frame.len() - 1]), Frame::Truncated);
    let mut written = Vec::new();
    write_message(&mut written, payload).unwrap();
    assert_eq!(written, frame);
}

#[test]
fn a_prefix_cut_short_is_an_error_not_a_clean_end() {
    let mut cursor = io::Cursor::new(vec![1u8, 0]);
    assert!(read_message(&mut cursor).is_err());
}
