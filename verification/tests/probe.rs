use std::cell::RefCell;

use mcpfz_probe::control::{read_line, Control};
use mcpfz_probe::ebpf::{
    process_pgid, ready, run, stat_path, tracepoints, Action, Batch, State, Step, DRAIN_BATCH,
};
use mcpfz_probe::events::ByteOrder;
use mcpfz_probe::json::stamped_line;
use mcpfz_probe::text::{is_whitespace, parse_u64, trim};

fn native_order() -> ByteOrder {
    if 1u16.to_ne_bytes() == [1, 0] {
        ByteOrder::Little
    } else {
        ByteOrder::Big
    }
}

fn begin(id: Option<&str>) -> Control {
    Control::Mark {
        phase: "begin".to_string(),
        call_id: id.map(|s| s.to_string()),
        tool: None,
    }
}

fn end(id: Option<&str>) -> Control {
    Control::Mark {
        phase: "end".to_string(),
        call_id: id.map(|s| s.to_string()),
        tool: None,
    }
}

fn said(action: Action) -> String {
    match action {
        Action::Quiet => "quiet".to_string(),
        Action::Report(object) => stamped_line(object, 7),
        Action::Stop => "stop".to_string(),
    }
}

fn applied(state: &mut State) -> Vec<String> {
    let mut lines: Vec<String> = Vec::new();
    while let Some(object) = state.apply_end() {
        lines.push(stamped_line(object, 7));
    }
    lines
}

fn end_line(call: &str) -> String {
    format!(
        "{{\"bucket\":\"call\",\"call_id\":{},\"message\":\"end\",\"ts_ns\":7,\"type\":\"status\"}}",
        call
    )
}

fn exec_record(pid: u32, order: ByteOrder) -> Vec<u8> {
    let word = |v: u32| match order {
        ByteOrder::Little => v.to_le_bytes(),
        ByteOrder::Big => v.to_be_bytes(),
    };
    let mut bytes: Vec<u8> = Vec::new();
    bytes.extend(word(1));
    bytes.extend(word(pid));
    bytes.extend(word(pid));
    bytes.extend(b"/bin/sh");
    bytes.resize(268, 0);
    bytes.extend(b"bash");
    bytes.resize(284, 0);
    bytes
}

#[test]
fn control_messages_are_answered() {
    let mut state = State::new();
    assert_eq!(
        said(state.on_control(Control::Scope { pgid: 42, generation: 3 })),
        r#"{"bucket":"ambient","generation":3,"message":"scope","pgid":42,"ts_ns":7,"type":"status"}"#
    );
    assert_eq!(
        said(state.on_control(begin(Some("c1")))),
        r#"{"bucket":"call","call_id":"c1","message":"begin","ts_ns":7,"type":"status"}"#
    );
    assert_eq!(
        said(state.on_control(begin(None))),
        r#"{"bucket":"call","call_id":null,"message":"begin","ts_ns":7,"type":"status"}"#
    );
    assert_eq!(said(state.on_control(end(Some("c1")))), "quiet");
    let odd = Control::Mark { phase: "pause".to_string(), call_id: None, tool: None };
    assert_eq!(said(state.on_control(odd)), "quiet");
    assert_eq!(said(state.on_control(Control::Shutdown)), "stop");
    assert_eq!(said(state.on_line(None)), "quiet");
    assert_eq!(said(state.on_line(Some(Err("bad".to_string())))), "quiet");
    assert_eq!(said(state.on_line(Some(Ok(Control::Shutdown)))), "stop");
    assert_eq!(
        stamped_line(ready(), 7),
        r#"{"backend":"ebpf","bucket":"startup","message":"ready","ts_ns":7,"type":"status"}"#
    );
}

#[test]
fn end_marks_wait_for_the_events_of_their_call() {
    let order = native_order();
    let none = |_: u32| -> Option<i32> { None };
    let mut state = State::new();
    state.on_control(begin(Some("c1")));
    state.on_control(end(Some("c1")));
    let mut batch = Batch::new();
    let object = batch.process(&state.attribution(), &exec_record(5, order), &none).unwrap();
    assert_eq!(
        stamped_line(object, 7),
        r#"{"argv":["/bin/sh"],"bucket":"call","call_id":"c1","comm":"bash","pid":5,"ts_ns":7,"type":"exec"}"#
    );
    // It is not due before the ring was drained.
    assert!(state.apply_end().is_none());
    state.take_ends();
    assert_eq!(applied(&mut state), vec![end_line(r#""c1""#)]);
    assert!(state.apply_end().is_none());
    // With no call open, an end mark reports the call that it names, or none.
    state.on_control(end(Some("c2")));
    state.on_control(end(None));
    state.take_ends();
    assert_eq!(applied(&mut state), vec![end_line(r#""c2""#), end_line("null")]);
    let object = batch.process(&state.attribution(), &exec_record(5, order), &none).unwrap();
    assert_eq!(object["bucket"], "startup");
    assert!(object.get("call_id").is_none());
}

#[test]
fn end_mark_of_an_earlier_call_leaves_the_later_one_open() {
    let order = native_order();
    let none = |_: u32| -> Option<i32> { None };
    let bucket = |state: &State| -> (String, String) {
        let object =
            Batch::new().process(&state.attribution(), &exec_record(5, order), &none).unwrap();
        let call = object.get("call_id").map_or("none", |id| id.as_str().unwrap());
        (object["bucket"].as_str().unwrap().to_string(), call.to_string())
    };
    // Also where the id is used again.
    for second in ["c2", "c1"] {
        let mut state = State::new();
        state.on_control(begin(Some("c1")));
        state.on_control(end(Some("c1")));
        state.on_control(begin(Some(second)));
        state.take_ends();
        assert_eq!(applied(&mut state), vec![end_line(r#""c1""#)]);
        assert_eq!(bucket(&state), ("call".to_string(), second.to_string()));
        state.on_control(end(None));
        state.take_ends();
        assert_eq!(applied(&mut state), vec![end_line(&format!("\"{}\"", second))]);
        assert_eq!(bucket(&state), ("startup".to_string(), "none".to_string()));
    }
    // Also where the begin mark is read once the end mark is due.
    let mut state = State::new();
    state.on_control(begin(Some("c1")));
    state.on_control(end(Some("c1")));
    state.take_ends();
    state.on_control(begin(Some("c1")));
    state.on_control(end(Some("c1")));
    assert_eq!(applied(&mut state), vec![end_line(r#""c1""#)]);
    assert_eq!(bucket(&state), ("call".to_string(), "c1".to_string()));
    state.take_ends();
    assert_eq!(applied(&mut state), vec![end_line(r#""c1""#)]);
    assert_eq!(bucket(&state), ("startup".to_string(), "none".to_string()));
}

#[test]
fn further_end_marks_name_their_own_calls() {
    let mut state = State::new();
    state.on_control(begin(Some("c1")));
    // The first ends the open call, whatever it names.
    state.on_control(end(Some("c9")));
    state.on_control(end(Some("c3")));
    state.take_ends();
    state.on_control(end(None));
    state.take_ends();
    assert_eq!(
        applied(&mut state),
        vec![end_line(r#""c1""#), end_line(r#""c3""#), end_line("null")]
    );
}

#[test]
fn rounds_drain_the_ring_before_end_marks_are_applied() {
    let none = |_: u32| -> Option<i32> { None };
    let state = State::new();
    let mut batch = Batch::new();
    assert_eq!(batch.next_step(true), Step::Stop);
    assert_eq!(batch.next_step(false), Step::Take);
    batch.process(&state.attribution(), &[], &none);
    // A shutdown waits for the round to end.
    assert_eq!(batch.next_step(true), Step::Take);
    batch.found_ring_empty();
    assert_eq!(batch.next_step(true), Step::ApplyEnds);
    batch.applied_ends();
    assert_eq!(batch.next_step(false), Step::Wait(200));
    let mut batch = Batch::new();
    for _ in 0..DRAIN_BATCH {
        assert_eq!(batch.next_step(false), Step::Take);
        batch.process(&state.attribution(), &[], &none);
    }
    assert_eq!(batch.next_step(false), Step::ApplyEnds);
    batch.applied_ends();
    assert_eq!(batch.next_step(true), Step::Again);
}

#[test]
fn only_the_group_in_scope_is_reported_and_looked_up_once() {
    let order = ByteOrder::Big;
    let asked: RefCell<Vec<u32>> = RefCell::new(Vec::new());
    let lookup = |pid: u32| -> Option<i32> {
        asked.borrow_mut().push(pid);
        match pid {
            5 => Some(42),
            6 => Some(43),
            _ => None,
        }
    };
    let mut state = State::new();
    let mut batch = Batch::new();
    // Without a scope every event is reported, and no group is looked up.
    assert!(batch.process_in(&state.attribution(), &exec_record(6, order), order, &lookup).is_some());
    assert!(asked.borrow().is_empty());
    state.on_control(Control::Scope { pgid: 42, generation: 1 });
    let attribution = state.attribution();
    for _ in 0..2 {
        let object =
            batch.process_in(&attribution, &exec_record(5, order), order, &lookup).unwrap();
        assert_eq!(object["bucket"], "ambient");
        assert_eq!(object["pid"], 5);
        assert!(batch.process_in(&attribution, &exec_record(6, order), order, &lookup).is_none());
        assert!(batch.process_in(&attribution, &exec_record(7, order), order, &lookup).is_none());
    }
    assert_eq!(*asked.borrow(), vec![5, 6, 7]);
    // A record without a header is not even looked up.
    assert!(batch.process_in(&attribution, &[0; 7], order, &lookup).is_none());
    assert_eq!(asked.borrow().len(), 3);
    assert!(attribution.admits(Some(42)));
    assert!(!attribution.admits(Some(41)));
    assert!(!attribution.admits(None));
}

#[test]
fn scope_keeps_the_low_bits_of_the_group() {
    let mut state = State::new();
    state.on_control(Control::Scope { pgid: (1i64 << 32) + 42, generation: 0 });
    assert!(state.attribution().admits(Some(42)));
    assert!(!state.attribution().admits(None));
}

#[test]
fn batch_is_bounded() {
    let none = |_: u32| -> Option<i32> { None };
    let state = State::new();
    let mut batch = Batch::new();
    for _ in 0..DRAIN_BATCH {
        assert!(batch.is_open());
        assert!(batch.process(&state.attribution(), &[], &none).is_none());
    }
    assert!(!batch.is_open());
}

#[test]
fn process_group_is_found_whatever_the_comm() {
    assert_eq!(process_pgid("42 (bash) S 1 1234 1234 0"), Some(1234));
    assert_eq!(process_pgid("42 (a b) c) (d) S 1 77 0 0"), Some(77));
    assert_eq!(process_pgid("42 (()) R 0 -1"), Some(-1));
    assert_eq!(process_pgid("42 (x)\tS\n1\u{a0}5"), Some(5));
    assert_eq!(process_pgid("42 (x)S 1 5"), Some(5));
    assert_eq!(process_pgid("42 bash S 1 1234"), None);
    assert_eq!(process_pgid("42 (bash) S 1"), None);
    assert_eq!(process_pgid("42 (bash) S 1 abc"), None);
    assert_eq!(process_pgid(""), None);
    assert_eq!(process_pgid("1 2 3)"), None);
    for text in [
        "2147483647", "2147483648", "-2147483648", "-2147483649", "+7", "-", "+", "-0", "0012",
        "99999999999999999999999999", "1.0", "+-1",
    ] {
        assert_eq!(
            process_pgid(&format!("1 (x) S 1 {} 0", text)),
            text.parse::<i32>().ok(),
            "{}",
            text
        );
    }
    assert_eq!(stat_path(0), "/proc/0/stat");
    assert_eq!(stat_path(u32::MAX), "/proc/4294967295/stat");
}

#[test]
fn white_space_is_that_of_the_standard_library() {
    for code in 0..=0x10ffffu32 {
        if let Some(c) = char::from_u32(code) {
            assert_eq!(is_whitespace(c), c.is_whitespace(), "{:x}", code);
        }
    }
    for line in ["", " ", "a", " a b ", "\u{3000}\u{e9}\u{2028}\t\r\n", "\u{200b}x\u{200b}"] {
        assert_eq!(trim(line), line.trim());
    }
}

#[test]
fn numbers_are_read_back() {
    for n in [0, 1, 9, 10, 99, 100, 4294967295, u64::MAX] {
        assert_eq!(parse_u64(&n.to_string()), Some(n));
        assert_eq!(parse_u64(&format!("+{}", n)), Some(n));
    }
}

#[test]
fn blank_lines_are_not_parsed() {
    let parse = |text: &str| -> Result<Control, String> { Err(text.to_string()) };
    assert!(read_line(" \t\r\n", &parse).is_none());
    match read_line("  not json \r\n", &parse) {
        Some(Err(text)) => assert_eq!(text, "not json"),
        _ => panic!("expected the error"),
    }
}

#[test]
fn every_probe_is_attached() {
    assert_eq!(
        tracepoints(),
        vec![
            "sys_enter_execve",
            "sys_enter_connect",
            "sys_enter_sendto",
            "sys_enter_openat",
            "sys_enter_unlinkat",
            "sys_enter_unlink",
            "sys_enter_fchmodat",
            "sys_enter_chmod",
            "sys_enter_ptrace",
        ]
    );
}

#[test]
fn missing_backend_says_so() {
    assert_eq!(
        run().unwrap_err(),
        "eBPF backend not compiled in; rebuild on Linux with --features ebpf"
    );
}
