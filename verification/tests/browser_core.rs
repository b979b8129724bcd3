use j1::browser::{update_json_text, BrowserState};
use j1::json_read::read_json_string;
use j1::json_text::escape_json;
use j1::layout::{size_from_param, view_bounds, view_bounds_for_client, Rect, ViewBounds, CHROME_HEIGHT};
use j1::message::{parse_chrome_message, ChromeCommand};
use j1::wide::widen;
use j1::window::{window_action, WindowAction, WM_DESTROY, WM_SIZE};

/// The JSON form in which the page view hands over a string the bar posted.
fn posted(text: &str) -> String {
    format!("\"{}\"", escape_json(text))
}

#[test]
fn escape_json_escapes_the_five_characters() {
    assert_eq!(escape_json("a\"b\\c\nd\re\tf"), "a\\\"b\\\\c\\nd\\re\\tf");
}

#[test]
fn escape_json_keeps_other_text() {
    assert_eq!(escape_json("https://example.com/ä?q=1"), "https://example.com/ä?q=1");
    assert_eq!(escape_json(""), "");
    assert_eq!(escape_json("\u{1}"), "\u{1}");
}

#[test]
fn escape_json_output_reads_back_as_json() {
    let text = "say \"hi\"\\ back\n\tnow\r";
    let escaped = escape_json(text);
    let quoted = format!("\"{}\"", escaped);
    let mut chars = quoted.chars();
    assert_eq!(chars.next(), Some('"'));
    let mut out = String::new();
    let mut rest: Vec<char> = chars.collect();
    assert_eq!(rest.pop(), Some('"'));
    let mut i: usize = 0;
    while i < rest.len() {
        if rest[i] == '\\' {
            out.push(match rest[i + 1] {
                'n' => '\n',
                'r' => '\r',
                't' => '\t',
                c => c,
            });
            i += 2;
        } else {
            assert_ne!(rest[i], '"');
            out.push(rest[i]);
            i += 1;
        }
    }
    assert_eq!(out, text);
}

#[test]
fn widen_appends_terminator() {
    assert_eq!(widen("J1"), vec![0x4A, 0x31, 0]);
    assert_eq!(widen(""), vec![0]);
    assert_eq!(widen("é"), vec![0xE9, 0]);
}

#[test]
fn widen_uses_surrogate_pairs() {
    assert_eq!(widen("a\u{1F600}b"), vec![0x61, 0xD83D, 0xDE00, 0x62, 0]);
    assert_eq!(widen("\u{10FFFF}"), vec![0xDBFF, 0xDFFF, 0]);
}

#[test]
fn widen_matches_std_encoding() {
    let s = "about:blank — 日本語 🦀";
    let mut expected: Vec<u16> = s.encode_utf16().collect();
    expected.push(0);
    assert_eq!(widen(s), expected);
}

#[test]
fn view_bounds_for_default_window() {
    let b = view_bounds(1024, 768);
    assert_eq!(b.chrome, Rect { left: 0, top: 0, right: 1024, bottom: CHROME_HEIGHT });
    assert_eq!(b.content, Rect { left: 0, top: 60, right: 1024, bottom: 768 });
}

#[test]
fn view_bounds_shorter_than_bar() {
    let b = view_bounds(100, 30);
    assert_eq!(b.content, Rect { left: 0, top: 60, right: 100, bottom: 30 });
}

#[test]
fn view_bounds_saturates_content_height() {
    let b = view_bounds(10, i32::MIN);
    assert_eq!(b.content.bottom, i32::MIN + 60);
    assert_eq!(b.chrome.bottom, 60);
}

#[test]
fn view_bounds_from_client_rect() {
    let b = view_bounds_for_client(Rect { left: 10, top: 20, right: 110, bottom: 220 });
    assert_eq!(b, view_bounds(100, 200));
    assert_eq!(b.content.bottom, 200);
}

#[test]
fn size_from_param_reads_low_and_high_words() {
    assert_eq!(size_from_param((768 << 16) | 1024), (1024, 768));
    assert_eq!(size_from_param(-1), (0xFFFF, 0xFFFF));
    assert_eq!(size_from_param(0x1_0003_0002), (2, 3));
}

#[test]
fn window_action_on_size() {
    let a = window_action(WM_SIZE, (768 << 16) | 1024);
    assert_eq!(a, WindowAction::Resize(view_bounds(1024, 768)));
}

#[test]
fn window_action_on_destroy_and_others() {
    assert_eq!(window_action(WM_DESTROY, 0), WindowAction::Destroy);
    assert_eq!(window_action(0x000F, 123), WindowAction::PassOn);
}

#[test]
fn parse_navigate_message() {
    let m = parse_chrome_message("{\"cmd\":\"navigate\",\"url\":\"https://duckduckgo.com/?q=rust\"}");
    assert_eq!(m, Some(ChromeCommand::Navigate("https://duckduckgo.com/?q=rust".to_string())));
}

#[test]
fn parse_navigate_message_with_spaces() {
    let m = parse_chrome_message("{\"cmd\": \"navigate\", \"url\": \"https://a.example\"}");
    assert_eq!(m, Some(ChromeCommand::Navigate("https://a.example".to_string())));
}

#[test]
fn parse_navigate_message_prefers_compact_key() {
    let m = parse_chrome_message("{\"url\": \"x\",\"cmd\":\"navigate\",\"url\":\"y\"}");
    assert_eq!(m, Some(ChromeCommand::Navigate("y".to_string())));
}

#[test]
fn parse_navigate_without_address() {
    assert_eq!(parse_chrome_message("{\"cmd\":\"navigate\"}"), None);
    assert_eq!(parse_chrome_message("{\"cmd\":\"navigate\",\"url\":\"unterminated"), None);
}

#[test]
fn parse_other_commands() {
    assert_eq!(parse_chrome_message("{\"cmd\":\"go_back\"}"), Some(ChromeCommand::GoBack));
    assert_eq!(parse_chrome_message("{\"cmd\":\"go_forward\"}"), Some(ChromeCommand::GoForward));
    assert_eq!(parse_chrome_message("{\"cmd\":\"reload\"}"), Some(ChromeCommand::Reload));
    assert_eq!(parse_chrome_message("{\"cmd\":\"stop\"}"), Some(ChromeCommand::Stop));
}

#[test]
fn parse_unknown_or_unquoted_commands() {
    assert_eq!(parse_chrome_message("{\"cmd\":\"home\"}"), None);
    assert_eq!(parse_chrome_message("reload"), None);
    assert_eq!(parse_chrome_message(""), None);
}

#[test]
fn parse_command_order() {
    assert_eq!(parse_chrome_message("{\"cmd\":\"stop\",\"then\":\"go_back\"}"), Some(ChromeCommand::GoBack));
    assert_eq!(
        parse_chrome_message("{\"cmd\":\"reload\",\"url\":\"z\",\"x\":\"navigate\"}"),
        Some(ChromeCommand::Navigate("z".to_string()))
    );
}

#[test]
fn update_json_text_format() {
    assert_eq!(
        update_json_text("https://x/\"q\"", "T\\1", true),
        "{\"t\":\"u\",\"url\":\"https://x/\\\"q\\\"\",\"title\":\"T\\\\1\",\"loading\":true}"
    );
    assert_eq!(update_json_text("", "J1", false), "{\"t\":\"u\",\"url\":\"\",\"title\":\"J1\",\"loading\":false}");
}

#[test]
fn browser_starts_empty() {
    let s = BrowserState::new();
    assert_eq!(s.content_url, "");
    assert_eq!(s.content_title, "J1");
    assert!(!s.content_loading);
    assert_eq!(s.status_update(), None);
}

#[test]
fn browser_updates_need_chrome_view() {
    let mut s = BrowserState::new();
    assert_eq!(s.on_navigation_starting("about:blank".to_string()), None);
    assert_eq!(s.content_url, "about:blank");
    s.attach_chrome();
    assert_eq!(
        s.status_update(),
        Some("{\"t\":\"u\",\"url\":\"about:blank\",\"title\":\"J1\",\"loading\":true}".to_string())
    );
}

#[test]
fn browser_navigation_lifecycle() {
    let mut s = BrowserState::new();
    s.attach_chrome();
    s.attach_content();
    let u1 = s.on_navigation_starting("https://example.com/".to_string());
    assert_eq!(u1, Some("{\"t\":\"u\",\"url\":\"https://example.com/\",\"title\":\"J1\",\"loading\":true}".to_string()));
    let u2 = s.on_title_changed("Example \"Domain\"".to_string());
    assert_eq!(
        u2,
        Some("{\"t\":\"u\",\"url\":\"https://example.com/\",\"title\":\"Example \\\"Domain\\\"\",\"loading\":true}".to_string())
    );
    let u3 = s.on_navigation_completed();
    assert_eq!(
        u3,
        Some("{\"t\":\"u\",\"url\":\"https://example.com/\",\"title\":\"Example \\\"Domain\\\"\",\"loading\":false}".to_string())
    );
    assert_eq!(s.content_url, "https://example.com/");
    assert!(!s.content_loading);
}

#[test]
fn chrome_message_before_content_view_is_ignored() {
    let mut s = BrowserState::new();
    s.attach_chrome();
    let r = s.on_chrome_message(&posted("{\"cmd\":\"navigate\",\"url\":\"https://a\"}"));
    assert_eq!(r.command, None);
    assert_eq!(r.update, None);
    assert_eq!(s.content_url, "");
    assert!(!s.content_loading);
}

#[test]
fn chrome_navigate_message_records_address() {
    let mut s = BrowserState::new();
    s.attach_chrome();
    s.attach_content();
    let r = s.on_chrome_message(&posted("{\"cmd\":\"navigate\",\"url\":\"https://duckduckgo.com/\"}"));
    assert_eq!(r.command, Some(ChromeCommand::Navigate("https://duckduckgo.com/".to_string())));
    assert_eq!(
        r.update,
        Some("{\"t\":\"u\",\"url\":\"https://duckduckgo.com/\",\"title\":\"J1\",\"loading\":true}".to_string())
    );
    assert_eq!(s.content_url, "https://duckduckgo.com/");
    assert!(s.content_loading);
}

#[test]
fn chrome_other_messages_leave_state() {
    let mut s = BrowserState::new();
    s.attach_content();
    let r = s.on_chrome_message(&posted("{\"cmd\":\"reload\"}"));
    assert_eq!(r.command, Some(ChromeCommand::Reload));
    assert_eq!(r.update, None);
    let r = s.on_chrome_message(&posted("{\"cmd\":\"nothing\"}"));
    assert_eq!(r.command, None);
    assert_eq!(r.update, None);
    assert_eq!(s.content_url, "");
    assert!(!s.content_loading);
}

#[test]
fn chrome_navigate_without_chrome_view_sends_no_update() {
    let mut s = BrowserState::new();
    s.attach_content();
    let r = s.on_chrome_message(&posted("{\"cmd\":\"navigate\",\"url\":\"https://b\"}"));
    assert_eq!(r.command, Some(ChromeCommand::Navigate("https://b".to_string())));
    assert_eq!(r.update, None);
    assert_eq!(s.content_url, "https://b");
}

#[test]
fn view_bounds_stack_without_gap() {
    let b: ViewBounds = view_bounds(640, 480);
    assert_eq!(b.content.top, b.chrome.bottom);
    assert_eq!(b.content.right, b.chrome.right);
}

#[test]
fn read_json_string_plain_and_escaped() {
    assert_eq!(read_json_string("\"abc\""), Some("abc".to_string()));
    assert_eq!(read_json_string("\"\""), Some(String::new()));
    assert_eq!(
        read_json_string("\"{\\\"cmd\\\":\\\"go_back\\\"}\""),
        Some("{\"cmd\":\"go_back\"}".to_string())
    );
    assert_eq!(read_json_string("\"a\\\\b\\/c\\n\\r\\t\\b\\f\""), Some("a\\b/c\n\r\t\u{8}\u{c}".to_string()));
}

#[test]
fn read_json_string_unicode_escapes() {
    assert_eq!(read_json_string("\"a\\u003Cb\""), Some("a<b".to_string()));
    assert_eq!(read_json_string("\"\\u00e9\\u2028\""), Some("é\u{2028}".to_string()));
    assert_eq!(read_json_string("\"\\uD83D\\uDE00\""), Some("\u{1F600}".to_string()));
    assert_eq!(read_json_string("\"\\uD83D\""), None);
    assert_eq!(read_json_string("\"\\uDE00x\""), None);
    assert_eq!(read_json_string("\"\\u12G4\""), None);
    assert_eq!(read_json_string("\"\\u12\""), None);
}

#[test]
fn read_json_string_rejects_non_literals() {
    assert_eq!(read_json_string("abc"), None);
    assert_eq!(read_json_string("\"abc"), None);
    assert_eq!(read_json_string("\"a\"b\""), None);
    assert_eq!(read_json_string("\"a\nb\""), None);
    assert_eq!(read_json_string("\"a\\qb\""), None);
    assert_eq!(read_json_string(""), None);
}

#[test]
fn chrome_message_in_plain_form_is_read_as_it_stands() {
    let mut s = BrowserState::new();
    s.attach_chrome();
    s.attach_content();
    let r = s.on_chrome_message("{\"cmd\":\"reload\"}");
    assert_eq!(r.command, Some(ChromeCommand::Reload));
    assert_eq!(r.update, None);
    let r = s.on_chrome_message("{\"cmd\":\"go_back\"}");
    assert_eq!(r.command, Some(ChromeCommand::GoBack));
    let r = s.on_chrome_message("{\"cmd\":\"stop\"}");
    assert_eq!(r.command, Some(ChromeCommand::Stop));
    assert_eq!(s.content_url, "");
    assert!(!s.content_loading);
}

#[test]
fn chrome_navigate_in_plain_form() {
    let mut s = BrowserState::new();
    s.attach_chrome();
    s.attach_content();
    let r = s.on_chrome_message("{\"cmd\":\"navigate\",\"url\":\"https://duckduckgo.com/?q=rust\"}");
    assert_eq!(r.command, Some(ChromeCommand::Navigate("https://duckduckgo.com/?q=rust".to_string())));
    assert_eq!(
        r.update,
        Some("{\"t\":\"u\",\"url\":\"https://duckduckgo.com/?q=rust\",\"title\":\"J1\",\"loading\":true}".to_string())
    );
    assert_eq!(s.content_url, "https://duckduckgo.com/?q=rust");
    assert!(s.content_loading);
}

#[test]
fn chrome_navigate_in_plain_spaced_form() {
    let mut s = BrowserState::new();
    s.attach_content();
    let r = s.on_chrome_message("{\"cmd\": \"navigate\", \"url\": \"https://a.com\"}");
    assert_eq!(r.command, Some(ChromeCommand::Navigate("https://a.com".to_string())));
    assert_eq!(r.update, None);
    assert_eq!(s.content_url, "https://a.com");
    assert_eq!(s.content_title, "J1");
    assert!(s.content_loading);
}

#[test]
fn chrome_literal_naming_nothing_is_read_as_it_stands() {
    let mut s = BrowserState::new();
    s.attach_content();
    assert_eq!(s.on_chrome_message("\"stop\"").command, Some(ChromeCommand::Stop));
    assert_eq!(s.on_chrome_message("\"hello\"").command, None);
}

#[test]
fn chrome_commands_in_posted_form() {
    let mut s = BrowserState::new();
    s.attach_content();
    assert_eq!(s.on_chrome_message("\"{\\\"cmd\\\":\\\"go_back\\\"}\"").command, Some(ChromeCommand::GoBack));
    assert_eq!(s.on_chrome_message("\"{\\\"cmd\\\":\\\"go_forward\\\"}\"").command, Some(ChromeCommand::GoForward));
    assert_eq!(s.on_chrome_message("\"{\\\"cmd\\\":\\\"stop\\\"}\"").command, Some(ChromeCommand::Stop));
    let r = s.on_chrome_message("\"{\\\"cmd\\\":\\\"navigate\\\",\\\"url\\\":\\\"https://duckduckgo.com/?q=a\\u003Cb\\\"}\"");
    assert_eq!(r.command, Some(ChromeCommand::Navigate("https://duckduckgo.com/?q=a<b".to_string())));
}
