//! URL shortening, sanitizing, and the script-dump protocol of the
//! message interceptor.

use wincc_debug_proxy::interceptor::{sanitize_url, shorten_script_url, Interceptor};
use wincc_debug_proxy::Category;

#[test]
fn shorten_strips_prefix_runtime_id_and_faceplate_segments() {
    let shortened = shorten_script_url(
        "/screen_modules/Screen_Content/HMI_RT_1::HMI_Screen/faceplate_modules/CM_Freq/Events.js",
    );
    assert_eq!(shortened, Some("HMI_Screen/CM_Freq/Events.js".to_string()));
}

#[test]
fn shorten_handles_single_colon_runtime_id() {
    let shortened =
        shorten_script_url("screen_modules/Screen_Content/HMI_RT_12:HMI_Screen/Dynamics.js");
    assert_eq!(shortened, Some("HMI_Screen/Dynamics.js".to_string()));
}

#[test]
fn shorten_without_required_prefix_is_none() {
    assert_eq!(shorten_script_url("/other_modules/whatever.js"), None);
    assert_eq!(shorten_script_url(""), None);
}

#[test]
fn shorten_keeps_non_runtime_colon_segments() {
    let shortened = shorten_script_url("/screen_modules/Screen_Content/Custom:Thing/file.js");
    assert_eq!(shortened, Some("Custom:Thing/file.js".to_string()));
}

#[test]
fn shorten_collapses_every_faceplate_segment() {
    let shortened = shorten_script_url(
        "screen_modules/Screen_Content/A/faceplate_modules/B/faceplate_modules/C.js",
    );
    assert_eq!(shortened, Some("A/B/C.js".to_string()));
}

#[test]
fn sanitize_replaces_forbidden_characters() {
    assert_eq!(sanitize_url("a:b*c?d\"e<f>g|h.js"), "a_b_c_d_e_f_g_h.js");
    assert_eq!(sanitize_url("plain/path.js"), "plain/path.js");
}

#[test]
fn malformed_frame_with_marker_is_forwarded_unmodified() {
    let mut session = Interceptor::new(false, None, Category::Dynamics);
    let text = "this mentions scriptParsed but is not json";
    let outcome = session.handle_upstream_text(text);
    assert_eq!(outcome.forward, Some(text.to_string()));
    assert_eq!(outcome.send_upstream, None);
    assert!(outcome.dump.is_none());
}

#[test]
fn script_parsed_frame_is_rewritten_to_the_short_url() {
    let mut session = Interceptor::new(false, None, Category::Dynamics);
    let text = "{\"method\":\"Debugger.scriptParsed\",\"params\":{\"url\":\"/screen_modules/Screen_Content/HMI_RT_1::HMI_Screen/faceplate_modules/CM_Freq/Events.js\"}}";
    let outcome = session.handle_upstream_text(text);
    assert_eq!(
        outcome.forward,
        Some(
            "{\"method\":\"Debugger.scriptParsed\",\"params\":{\"url\":\"HMI_Screen/CM_Freq/Events.js\"}}"
                .to_string()
        )
    );
    assert_eq!(outcome.send_upstream, None);
}

#[test]
fn long_paths_mode_forwards_the_original_text() {
    let mut session = Interceptor::new(true, None, Category::Dynamics);
    let text = "{\"method\":\"Debugger.scriptParsed\",\"params\":{\"url\":\"/screen_modules/Screen_Content/HMI_RT_1::HMI_Screen/faceplate_modules/CM_Freq/Events.js\"}}";
    let outcome = session.handle_upstream_text(text);
    assert_eq!(outcome.forward, Some(text.to_string()));
}

#[test]
fn unshortenable_url_is_forwarded_unmodified() {
    let mut session = Interceptor::new(false, None, Category::Dynamics);
    let text = "{\"method\":\"Debugger.scriptParsed\",\"params\":{\"url\":\"internal/boot.js\"}}";
    let outcome = session.handle_upstream_text(text);
    assert_eq!(outcome.forward, Some(text.to_string()));
}

#[test]
fn script_parsed_allocates_a_dump_request() {
    let mut session = Interceptor::new(false, Some("dump".to_string()), Category::Dynamics);
    let text = "{\"method\":\"Debugger.scriptParsed\",\"params\":{\"scriptId\":\"42\",\"url\":\"app/Script.js\"}}";
    let outcome = session.handle_upstream_text(text);
    assert_eq!(
        outcome.send_upstream,
        Some(
            "{\"id\":900000,\"method\":\"Debugger.getScriptSource\",\"params\":{\"scriptId\":\"42\"}}"
                .to_string()
        )
    );
    assert!(outcome.forward.is_some());
    assert!(outcome.dump.is_none());
    assert_eq!(session.next_request_id, 900_001);
}

#[test]
fn synthetic_response_is_suppressed_and_dumped_exactly_once() {
    let mut session = Interceptor::new(false, Some("dump".to_string()), Category::Dynamics);
    let announce = "{\"method\":\"Debugger.scriptParsed\",\"params\":{\"scriptId\":\"42\",\"url\":\"app/Script.js\"}}";
    session.handle_upstream_text(announce);

    let response = "{\"id\":900000,\"result\":{\"scriptSource\":\"let x = 1;\"}}";
    let outcome = session.handle_upstream_text(response);
    assert_eq!(outcome.forward, None);
    assert_eq!(
        outcome.dump,
        Some(("dump/Dynamics/app/Script.js".to_string(), "let x = 1;".to_string()))
    );
    assert_eq!(session.dump_count, 1);

    let again = session.handle_upstream_text(response);
    assert_eq!(again.forward, Some(response.to_string()));
    assert!(again.dump.is_none());
    assert_eq!(session.dump_count, 1);
}

#[test]
fn response_with_unknown_id_is_forwarded() {
    let mut session = Interceptor::new(false, Some("dump".to_string()), Category::Dynamics);
    let response = "{\"id\":7,\"result\":{\"value\":true}}";
    let outcome = session.handle_upstream_text(response);
    assert_eq!(outcome.forward, Some(response.to_string()));
    assert!(outcome.dump.is_none());
}

#[test]
fn evaluation_placeholder_is_not_dumped() {
    let mut session = Interceptor::new(false, Some("dump".to_string()), Category::Events);
    let text = "{\"method\":\"Debugger.scriptParsed\",\"params\":{\"scriptId\":\"9\",\"url\":\"eval-123.cdp\"}}";
    let outcome = session.handle_upstream_text(text);
    assert_eq!(outcome.send_upstream, None);
    assert_eq!(session.next_request_id, 900_000);
}

#[test]
fn empty_url_is_not_dumped() {
    let mut session = Interceptor::new(false, Some("dump".to_string()), Category::Events);
    let text = "{\"method\":\"Debugger.scriptParsed\",\"params\":{\"scriptId\":\"9\",\"url\":\"\"}}";
    let outcome = session.handle_upstream_text(text);
    assert_eq!(outcome.send_upstream, None);
}

#[test]
fn dump_path_sanitizes_the_url_under_the_category_directory() {
    let mut session = Interceptor::new(true, Some("out".to_string()), Category::Events);
    let announce = "{\"method\":\"Debugger.scriptParsed\",\"params\":{\"scriptId\":\"5\",\"url\":\"HMI_RT_1::x.js\"}}";
    session.handle_upstream_text(announce);
    let response = "{\"id\":900000,\"result\":{\"scriptSource\":\"s\"}}";
    let outcome = session.handle_upstream_text(response);
    assert_eq!(outcome.dump, Some(("out/Events/HMI_RT_1__x.js".to_string(), "s".to_string())));
}

#[test]
fn pending_response_without_source_is_still_suppressed() {
    let mut session = Interceptor::new(true, Some("out".to_string()), Category::Dynamics);
    let announce = "{\"method\":\"Debugger.scriptParsed\",\"params\":{\"scriptId\":\"5\",\"url\":\"a.js\"}}";
    session.handle_upstream_text(announce);
    let response = "{\"id\":900000,\"error\":{\"message\":\"gone\"}}";
    let outcome = session.handle_upstream_text(response);
    assert_eq!(outcome.forward, None);
    assert!(outcome.dump.is_none());
    assert_eq!(session.dump_count, 0);
}

#[test]
fn script_parsed_frame_with_pending_id_is_suppressed() {
    let mut session = Interceptor::new(false, Some("dump".to_string()), Category::Dynamics);
    let announce = "{\"method\":\"Debugger.scriptParsed\",\"params\":{\"scriptId\":\"1\",\"url\":\"a.js\"}}";
    session.handle_upstream_text(announce);
    assert_eq!(session.next_request_id, 900_001);

    let mixed = "{\"id\":900000,\"method\":\"Debugger.scriptParsed\",\"params\":{\"scriptId\":\"7\",\"url\":\"b.js\"}}";
    let outcome = session.handle_upstream_text(mixed);
    assert_eq!(
        outcome.send_upstream,
        Some(
            "{\"id\":900001,\"method\":\"Debugger.getScriptSource\",\"params\":{\"scriptId\":\"7\"}}"
                .to_string()
        )
    );
    assert_eq!(outcome.forward, None);
    assert!(outcome.dump.is_none());
    assert_eq!(session.next_request_id, 900_002);
}

#[test]
fn script_parsed_frame_matching_its_own_fresh_id_is_suppressed() {
    let mut session = Interceptor::new(false, Some("dump".to_string()), Category::Dynamics);
    let frame = "{\"id\":900000,\"method\":\"Debugger.scriptParsed\",\"params\":{\"scriptId\":\"2\",\"url\":\"c.js\"}}";
    let outcome = session.handle_upstream_text(frame);
    assert!(outcome.send_upstream.is_some());
    assert_eq!(outcome.forward, None);
    assert!(outcome.dump.is_none());
    assert_eq!(session.next_request_id, 900_001);

    // The just-allocated entry was consumed again at once, so the
    // matching response that arrives later is forwarded normally.
    let response = "{\"id\":900000,\"result\":{\"scriptSource\":\"s\"}}";
    let later = session.handle_upstream_text(response);
    assert_eq!(later.forward, Some(response.to_string()));
    assert!(later.dump.is_none());
}
