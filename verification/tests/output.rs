use pantheon::logging::{default_filter_directives, filter_directives, Output, TracingOptions};
use pantheon::oculus::{
    decimal_string, parse_port_line, parse_u16, redirect_address, trim, DashboardEvent,
    DashboardFieldVisitor, DashboardTcpLayerParams, HandshakeError, Level, SpanTransition, TrimSet,
};
use pantheon::quill::{bold_text, color_text, underline_text, Color};
use pantheon::recur::{EventLoop, EventLoopBuilder};
use pantheon::tracy::{launch_check, pgrep_found_profiler, TracyError};
use std::any::TypeId;

#[test]
fn handshake_line_gives_the_port() {
    assert_eq!(parse_port_line("PORT 5123\n"), Ok(5123));
    assert_eq!(parse_port_line("PORT   +80  "), Ok(80));
    assert_eq!(parse_port_line("PORT 65535"), Ok(65535));
    assert_eq!(parse_port_line("PORT 65536"), Err(HandshakeError::InvalidPort));
    assert_eq!(parse_port_line("PORT "), Err(HandshakeError::InvalidPort));
    assert_eq!(parse_port_line("PORT -1"), Err(HandshakeError::InvalidPort));
    assert_eq!(parse_port_line("port 80"), Err(HandshakeError::UnexpectedMessage));
    assert_eq!(parse_port_line("PORT"), Err(HandshakeError::UnexpectedMessage));
}

#[test]
fn u16_parsing_matches_std() {
    for s in ["0", "007", "+1", "+", "", "12a", "65535", "65536", "99999999", "1 2"] {
        assert_eq!(parse_u16(s), s.parse::<u16>().ok(), "{s:?}");
    }
}

#[test]
fn trimming_matches_std() {
    for s in ["\"quoted\"", "\"\"\"", "plain", "\"a\"b\"", ""] {
        assert_eq!(trim(TrimSet::Quotes, s), s.trim_matches('"'));
    }
    for s in ["  x y \n", "\t", "\u{3000}wide\u{a0}", "none"] {
        assert_eq!(trim(TrimSet::Whitespace, s), s.trim());
    }
}

#[test]
fn redirect_keeps_the_host() {
    assert_eq!(redirect_address("127.0.0.1:8080", 40001), "127.0.0.1:40001");
    assert_eq!(redirect_address("localhost", 7), "localhost:7");
    assert_eq!(decimal_string(0), "0");
    assert_eq!(decimal_string(65535), "65535");
}

#[test]
fn visitor_takes_message_and_fields() {
    let mut v = DashboardFieldVisitor::new();
    v.record("message", "\"hello\"");
    v.record("user", "\"bob\"");
    v.record("count", "3");
    v.record("count", "4");
    assert_eq!(v.message, "hello");
    assert_eq!(
        v.fields,
        vec![("user".to_string(), "\"bob\"".to_string()), ("count".to_string(), "4".to_string())]
    );
    let e = DashboardEvent::log(10, Level::INFO, "t".to_string(), v, None, Some(2), None, Some(3));
    assert_eq!(e.event_type, "log");
    assert_eq!(e.message, "hello");
    assert_eq!(e.parent_span_id, Some(2));
}

#[test]
fn span_events_follow_the_params() {
    let off = DashboardTcpLayerParams::default();
    assert!(!off.span_events);
    let on = DashboardTcpLayerParams { span_events: true };
    assert!(DashboardEvent::span(SpanTransition::Enter, &off, 1, "t".into(), 4, "s".into(), None, None).is_none());
    let e = DashboardEvent::span(SpanTransition::Enter, &on, 1, "t".into(), 4, "work".into(), None, Some(9)).unwrap();
    assert_eq!(e.event_type, "span_enter");
    assert_eq!(e.message, "Entering span: work");
    assert_eq!(e.level, Level::TRACE);
    assert_eq!(e.span_meta.as_ref().map(|m| m.id), Some(4));
    let x = DashboardEvent::span(SpanTransition::Exit, &on, 1, "t".into(), 4, "work".into(), None, None).unwrap();
    assert_eq!(x.event_type, "span_exit");
    assert_eq!(x.message, "Exiting span: work");
}

#[test]
fn levels_print_upper_case_and_order() {
    assert_eq!(Level::WARN.to_string(), "WARN");
    assert_eq!(Level::TRACE.to_string(), "TRACE");
    assert!(Level::TRACE < Level::ERROR);
}

#[test]
fn tracing_defaults_and_filters() {
    let o = TracingOptions::default();
    assert_eq!(o.output, Output::Stdout);
    assert_eq!(o.log_level, Level::WARN);
    assert!(o.error_layer && !o.tracy_layer && !o.oculus_layer && !o.color);
    assert_eq!(
        default_filter_directives(Level::INFO),
        "INFO,smol=warn,async_io=warn,polling=warn,tokio_tungstenite=warn,tungstenite=warn,reqwest=info,hyper_util=info"
    );
    assert_eq!(filter_directives(&o, Some("debug".to_string())), "debug");
    assert!(filter_directives(&o, None).starts_with("WARN,smol=warn"));
    assert_eq!(Output::File("/tmp/log.txt".to_string()).describe(), "/tmp/log.txt");
    assert_eq!(Output::Stderr.describe(), "stderr");
}

#[test]
fn colors_only_when_ansi_is_on() {
    assert_eq!(Color::Red.to_ansi(), "\x1b[31m");
    assert_eq!(Color::White.to_ansi(), "\x1b[37m");
    assert_eq!(color_text(Color::Green, "ok", true), "\x1b[32mok\x1b[0m");
    assert_eq!(color_text(Color::Green, "ok", false), "ok");
    assert_eq!(bold_text("b", true), "\x1b[1mb\x1b[0m");
    assert_eq!(underline_text("u", true), "\x1b[4mu\x1b[0m");
    assert_eq!(underline_text("u", false), "u");
}

#[test]
fn event_loop_groups_handlers_by_type() {
    let mut l: EventLoop<&'static str> = EventLoop::new();
    l.add_handler(TypeId::of::<u8>(), "a").add_handler(TypeId::of::<u16>(), "b");
    l.add_handler(TypeId::of::<u8>(), "c");
    assert_eq!(l.handlers_for(&TypeId::of::<u8>()), &["a", "c"]);
    assert_eq!(l.handlers_for(&TypeId::of::<u16>()), &["b"]);
    assert!(l.handlers_for(&TypeId::of::<u32>()).is_empty());
}

#[test]
fn building_equals_adding_one_by_one() {
    let built = EventLoopBuilder::new()
        .add_handler(TypeId::of::<u8>(), 1)
        .add_handler(TypeId::of::<u16>(), 2)
        .add_handler(TypeId::of::<u8>(), 3)
        .build();
    let mut direct: EventLoop<i32> = EventLoop::new();
    direct.add_handler(TypeId::of::<u8>(), 1);
    direct.add_handler(TypeId::of::<u16>(), 2);
    direct.add_handler(TypeId::of::<u8>(), 3);
    for t in [TypeId::of::<u8>(), TypeId::of::<u16>(), TypeId::of::<u64>()] {
        assert_eq!(built.handlers_for(&t), direct.handlers_for(&t));
    }
    assert_eq!(built.handlers_for(&TypeId::of::<u8>()), &[1, 3]);
    let empty: EventLoop<i32> = EventLoopBuilder::new().build();
    assert!(empty.handlers_for(&TypeId::of::<u8>()).is_empty());
}

#[test]
fn tracy_decisions() {
    assert!(matches!(launch_check(true), Err(TracyError::AlreadyRunning)));
    assert!(launch_check(false).is_ok());
    assert!(pgrep_found_profiler(true, b"123\n"));
    assert!(!pgrep_found_profiler(true, b""));
    assert!(!pgrep_found_profiler(false, b"1"));
}

#[test]
fn announced_ports_read_back() {
    for port in [0u16, 7, 80, 443, 8080, 65535] {
        let announced = format!("PORT {}", decimal_string(port));
        assert_eq!(parse_port_line(&announced), Ok(port));
        assert_eq!(parse_port_line(&format!("{announced}\r\n")), Ok(port));
        assert_eq!(decimal_string(port), port.to_string());
    }
}
