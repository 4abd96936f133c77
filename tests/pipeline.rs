use kiosk_core::codec::{base64_encode, decode_base64_json, decode_json, encode_json, looks_like_json};
use kiosk_core::events::on_ui_event;
use kiosk_core::json::Json;
use kiosk_core::normalizer::{extract_layout_from_value, find_style_in_files, mentions_style_exec};
use kiosk_core::projector::style_to_layout;
use kiosk_core::scanner::{diagnose, scan_frames, Diagnosis};
use kiosk_core::state::AppState;
use kiosk_core::templates::{build_base_layout, build_payment_layout};
use serde_json::Value;

fn parse(text: &str) -> Json {
    decode_json(text).expect("test input is JSON")
}

fn as_value(j: &Json) -> Value {
    serde_json::from_str(&encode_json(j).expect("encodes")).unwrap()
}

fn value(text: &str) -> Value {
    serde_json::from_str(text).unwrap()
}

fn normalized(text: &str) -> Option<Value> {
    extract_layout_from_value(parse(text)).map(|l| as_value(&l))
}

#[test]
fn scenario_style_command() {
    let l = normalized(r##"{"cmd":{"name":"ui.style.apply","args":{"style":{"background":"#111","screens":[{"id":"s1","children":[{"type":"text","text":"hi"}]}]}}}}"##).unwrap();
    assert_eq!(l["background"], "#111");
    assert_eq!(l["root"]["padding"], 24);
    assert_eq!(l["root"]["gap"], 12);
    assert_eq!(l["root"]["type"], "column");
    assert_eq!(l["root"]["background"], "#111");
    let children = l["root"]["children"].as_array().unwrap();
    assert_eq!(children.len(), 1);
    assert_eq!(children[0]["type"], "text");
    assert_eq!(children[0]["text"], "hi");
}

#[test]
fn scenario_wrapped_content() {
    let l = normalized(r#"{"content":{"root":{"type":"column","children":[]}}}"#).unwrap();
    assert_eq!(l, value(r#"{"root":{"type":"column","children":[]}}"#));
}

#[test]
fn direct_layout_is_unchanged() {
    let text = r##"{"background":"#fff","root":{"type":"row","children":[{"type":"text"}]},"extra":[1,2]}"##;
    assert_eq!(normalized(text).unwrap(), value(text));
}

#[test]
fn bare_style_uses_default_background() {
    let l = normalized(r#"{"screens":[{"id":"a","children":[1]},{"id":"b","children":[2]}]}"#).unwrap();
    assert_eq!(l["background"], "#129ADA");
    assert_eq!(l["root"]["children"], value("[1]"));
}

#[test]
fn envelope_content() {
    let l = normalized(r#"{"envelope":{"content":{"screens":[{"children":[]}],"customer_display":{"text":"x"}}}}"#).unwrap();
    assert_eq!(l["customer_display"], value(r#"{"text":"x"}"#));
    assert_eq!(l["root"]["children"], value("[]"));
}

#[test]
fn apply_command_args_content() {
    let l = normalized(r#"{"cmd":{"name":"ui.apply","args":{"content":{"root":{"type":"x"}}}}}"#).unwrap();
    assert_eq!(l, value(r#"{"root":{"type":"x"}}"#));
}

#[test]
fn unknown_command_is_not_recognized() {
    assert!(normalized(r#"{"cmd":{"name":"ui.other","args":{"content":{"root":{}}}}}"#).is_none());
    assert!(normalized(r#"{"hello":1}"#).is_none());
    assert!(normalized("[1,2]").is_none());
}

#[test]
fn style_json_and_base64_args() {
    let style = r##"{"background":"#222","screens":[{"children":[{"k":1}]}]}"##;
    let as_json = format!(r#"{{"cmd":{{"name":"ui.style.update","args":{{"style_json":{}}}}}}}"#, serde_json::to_string(style).unwrap());
    let l = normalized(&as_json).unwrap();
    assert_eq!(l["background"], "#222");
    let b64 = base64_encode(style);
    let as_b64 = format!(r#"{{"cmd":{{"name":"ui.style.apply","args":{{"data_base64":"{}"}}}}}}"#, b64);
    let l2 = normalized(&as_b64).unwrap();
    assert_eq!(l, l2);
}

#[test]
fn style_sources_without_screens_are_skipped() {
    let style = r##"{"background":"#333","screens":[{"children":[5]}]}"##;
    let msg = format!(
        r##"{{"cmd":{{"name":"ui.style.apply","args":{{"style":{{"background":"#000"}},"style_json":{}}}}}}}"##,
        serde_json::to_string(style).unwrap()
    );
    let l = normalized(&msg).unwrap();
    assert_eq!(l["background"], "#333");
    assert_eq!(l["root"]["children"], value("[5]"));
    let b64 = base64_encode(style);
    let msg2 = format!(
        r#"{{"cmd":{{"name":"ui.style.apply","args":{{"style_json":"{{}}","data_base64":"{}"}}}}}}"#,
        b64
    );
    assert_eq!(normalized(&msg2).unwrap()["background"], "#333");
    let none = r#"{"cmd":{"name":"ui.style.apply","args":{"style":{"a":1},"style_json":"[1]"}}}"#;
    assert!(normalized(none).is_none());
}

#[test]
fn logo_is_carried_under_reserved_keys() {
    let l = normalized(r#"{"screens":[{"children":[]}],"logo":{"base64":"QUJD","mime":"image/png"}}"#).unwrap();
    assert_eq!(l["__style_logo_base64"], "QUJD");
    assert_eq!(l["__style_logo_meta"]["mime"], "image/png");
}

#[test]
fn files_prefer_style_names_then_shorter() {
    let msg = parse(r##"{"files":[
        {"name":"other.json","content":{"screens":[{"children":[0]}]}},
        {"name":"my_STYLE_long.json","text":"{\"screens\":[{\"children\":[1]}]}"},
        {"name":"style.json","content":"{\"screens\":[{\"children\":[2]}]}"},
        {"name":"style2.json","content":{"nothing":true}}
    ]}"##);
    let st = find_style_in_files(msg).unwrap();
    assert_eq!(as_value(&st), value(r#"{"screens":[{"children":[2]}]}"#));
}

#[test]
fn files_base64_variant() {
    let b64 = base64_encode(r#"{"screens":[{"children":[7]}]}"#);
    let msg = format!(r#"{{"cmd":{{"name":"ui.style.apply","args":{{}}}},"files":[{{"name":"a","bytes_b64":"{}"}}]}}"#, b64);
    let l = normalized(&msg).unwrap();
    assert_eq!(l["root"]["children"], value("[7]"));
    assert!(find_style_in_files(parse(r#"{"files":"none"}"#)).is_none());
}

#[test]
fn mentions_style_any_case() {
    assert!(mentions_style_exec("My-StYlE.json"));
    assert!(!mentions_style_exec("styl.json"));
}

#[test]
fn projection_picks_requested_screen_or_first() {
    let style = r#"{"screens":[{"id":"a","children":[1]},{"id":"b","children":[2]}]}"#;
    let b = style_to_layout(parse(style), Some("b")).unwrap();
    assert_eq!(as_value(&b)["root"]["children"], value("[2]"));
    let missing = style_to_layout(parse(style), Some("zzz")).unwrap();
    assert_eq!(as_value(&missing)["root"]["children"], value("[1]"));
    assert!(style_to_layout(parse(r#"{"screens":[]}"#), None).is_none());
    assert!(style_to_layout(parse(r##"{"background":"#000"}"##), None).is_none());
}

#[test]
fn base64_round_trip() {
    let text = r#"{"a":[1,true,null,"x"],"b":{"c":-2.5}}"#;
    let back = decode_base64_json(&base64_encode(text)).unwrap();
    assert_eq!(as_value(&back), as_value(&parse(text)));
    assert!(decode_base64_json("!!!").is_none());
    assert!(decode_base64_json(&base64_encode("not json")).is_none());
    assert!(decode_json("not json").is_none());
}

#[test]
fn json_prefilter() {
    assert!(looks_like_json(b"  \n{\"a\":1}"));
    assert!(looks_like_json(b"[1]"));
    assert!(!looks_like_json(b"  x{"));
    assert!(!looks_like_json(b""));
    assert!(!looks_like_json(b"   "));
}

#[test]
fn first_matching_frame_wins() {
    let frames = vec![
        br##"{"cmd":{"name":"ui.style.apply","args":{"style":{"background":"#abc","screens":[{"children":[]}]}}}}"##.to_vec(),
        br#"{"root":{"type":"row"}}"#.to_vec(),
    ];
    let t = scan_frames(&frames).unwrap();
    assert_eq!(value(&t)["background"], "#abc");
}

#[test]
fn frames_skip_non_json_and_fall_back_to_last_base64() {
    let b64 = base64_encode(r#"{"screens":[{"children":[9]}]}"#);
    let frames = vec![
        b"topic".to_vec(),
        format!(r#"{{"cmd":{{"name":"ui.other","args":{{"data_base64":"{}"}}}}}}"#, b64).into_bytes(),
    ];
    let t = scan_frames(&frames).unwrap();
    assert_eq!(value(&t)["root"]["children"], value("[9]"));
}

#[test]
fn diagnosis_of_unmatched_messages() {
    assert!(matches!(diagnose(&vec![b"abc".to_vec()]), Diagnosis::NoJsonFrame));
    assert!(matches!(diagnose(&vec![vec![b'{', 0xff, 0xfe]]), Diagnosis::NotUtf8));
    let long = format!("{{\"k\":\"{}\"}}", "x".repeat(400));
    match diagnose(&vec![long.clone().into_bytes()]) {
        Diagnosis::Preview(p) => assert_eq!(p, long[..240].to_string()),
        _ => panic!("expected a preview"),
    }
    assert!(scan_frames(&vec![long.into_bytes()]).is_none());
}

#[test]
fn apply_same_layout_twice() {
    let mut s = AppState::new("{}");
    let t = r#"{"root":{"type":"column"}}"#;
    let first = s.offer_layout(t);
    let second = s.offer_layout(t);
    assert_eq!(first, second);
    assert_eq!(s.get_layout(), t);
    assert_eq!(s.last_good_layout, t);
}

#[test]
fn invalid_after_valid_rolls_back() {
    let mut s = AppState::new("{}");
    let a = r#"{"root":{"type":"a"}}"#;
    assert!(s.apply_layout_safely(a));
    let shown = s.offer_layout("{broken");
    assert_eq!(shown, a);
    assert_eq!(s.current_layout, a);
    assert_eq!(s.last_good_layout, a);
}

#[test]
fn scenario_not_json_is_refused() {
    let mut s = AppState::new(r#"{"root":1}"#);
    assert!(!s.apply_layout_safely("not json"));
    assert_eq!(s.get_layout(), r#"{"root":1}"#);
    assert_eq!(s.last_good_layout, r#"{"root":1}"#);
    s.restore_last_good();
    assert_eq!(s.get_layout(), r#"{"root":1}"#);
}

#[test]
fn session_fields() {
    let mut s = AppState::new("{}");
    assert!(!s.get_reading());
    s.set_reading(true);
    assert!(s.get_reading());
    s.set_status("tcp://h:1", "http://h/ack", true, 1234);
    assert_eq!(s.endpoint_snapshot, "tcp://h:1");
    assert_eq!(s.ack_endpoint_snapshot, "http://h/ack");
    assert!(s.ack_init_snapshot);
    assert_eq!(s.last_hb_millis, 1234);
    assert_eq!(s.get_layout(), "{}");
}

#[test]
fn scenario_read_event_and_nav_to() {
    let mut s = AppState::new(&build_base_layout());
    let l = on_ui_event(&mut s, "btn_read_msr").unwrap();
    assert!(s.get_reading());
    let v = value(&l);
    let result = v["root"]["children"].as_array().unwrap().iter().find(|c| c["id"] == "msr_result").unwrap();
    assert!(result["text"].as_str().unwrap().contains("Leyendo banda magnética."));
    let before = s.get_layout();
    assert!(on_ui_event(&mut s, "nav_to:payment").is_none());
    assert_eq!(s.get_layout(), before);
    assert!(on_ui_event(&mut s, "unknown_event").is_none());
    assert_eq!(s.get_layout(), before);
}

#[test]
fn cancel_and_back_events() {
    let mut s = AppState::new(&build_base_layout());
    s.set_reading(true);
    let l = on_ui_event(&mut s, "btn_cancel_msr").unwrap();
    assert!(!s.get_reading());
    assert!(l.contains("Leer banda magnética"));
    let home = on_ui_event(&mut s, "nav_back").unwrap();
    assert_eq!(home, build_base_layout());
}

#[test]
fn payment_layout_escapes_quotes() {
    let t = build_payment_layout(false, "say \"hi\"");
    let v = value(&t);
    let result = v["root"]["children"].as_array().unwrap().iter().find(|c| c["id"] == "msr_result").unwrap();
    assert_eq!(result["text"], "say \"hi\"");
    let reading = value(&build_payment_layout(true, "x"));
    let btn = reading["root"]["children"].as_array().unwrap().iter().find(|c| c["id"] == "btn_read_cancel").unwrap();
    assert_eq!(btn["on_click"], "btn_cancel_msr");
    assert_eq!(btn["tint"], "#DC2626");
    let apostrophe = build_payment_layout(false, "it's");
    assert!(apostrophe.contains("\"text\": \"it\"s\""));
    let mut s = AppState::new("{}");
    assert!(!s.apply_layout_safely(&apostrophe));
    assert_eq!(s.offer_layout(&apostrophe), "{}");
}
