use mcpfz_probe::clock::{now_ns, timestamp, Clock, CountingClock, SystemClock};
use mcpfz_probe::control::Control;
use mcpfz_probe::fake::{
    load_script, parse_script, run, EventsFile, FakeBackend, ScriptEntry,
};
use mcpfz_probe::json::stamped_line;
use mcpfz_probe::replay::{Errand, Replay};
use serde_json::Value;

fn text_of(value: &Value, key: &str) -> Result<Option<String>, String> {
    match value.get(key) {
        None | Some(Value::Null) => Ok(None),
        Some(Value::String(s)) => Ok(Some(s.clone())),
        Some(other) => Err(format!("invalid type: {}", other)),
    }
}

fn control(text: &str) -> Result<Control, String> {
    let value: Value = serde_json::from_str(text).map_err(|e| e.to_string())?;
    let op = text_of(&value, "op")?.ok_or("missing field `op`".to_string())?;
    match op.as_str() {
        "scope" => Ok(Control::Scope {
            pgid: value["pgid"].as_i64().ok_or("missing field `pgid`".to_string())?,
            generation: value["generation"].as_i64().unwrap_or(0),
        }),
        "mark" => Ok(Control::Mark {
            phase: text_of(&value, "phase")?.ok_or("missing field `phase`".to_string())?,
            call_id: text_of(&value, "call_id")?,
            tool: text_of(&value, "tool")?,
        }),
        "shutdown" => Ok(Control::Shutdown),
        other => Err(format!("unknown variant `{}`", other)),
    }
}

fn entry(value: &Value) -> Result<ScriptEntry, String> {
    let event = match value.get("event") {
        Some(Value::Object(event)) => event.clone(),
        _ => return Err("missing field `event`".to_string()),
    };
    Ok(ScriptEntry {
        trigger: text_of(value, "trigger")?.ok_or("missing field `trigger`".to_string())?,
        tool: text_of(value, "tool")?,
        event,
    })
}

fn entries(value: &Value) -> Result<Vec<ScriptEntry>, String> {
    match value {
        Value::Array(items) => items.iter().map(entry).collect(),
        other => Err(format!("expected a sequence, found {}", other)),
    }
}

fn as_file(text: &str) -> Result<Vec<ScriptEntry>, String> {
    let value: Value = serde_json::from_str(text).map_err(|e| e.to_string())?;
    match &value {
        Value::Object(members) => match members.get("events") {
            Some(list) => entries(list),
            None => Ok(Vec::new()),
        },
        _ => Err("expected an object".to_string()),
    }
}

fn as_list(text: &str) -> Result<Vec<ScriptEntry>, String> {
    let value: Value = serde_json::from_str(text).map_err(|e| e.to_string())?;
    entries(&value)
}

fn script(text: &str) -> Result<Vec<ScriptEntry>, String> {
    parse_script(text, &as_file, &as_list)
}

fn drive(text: &str, input: &str) -> Vec<Value> {
    let entries = script(text).expect("script parses");
    let backend = FakeBackend::new(entries, 50).with_clock(CountingClock::new(0));
    let lines: Vec<String> = input.lines().map(|l| l.to_string()).collect();
    let mut out: Vec<String> = Vec::new();
    run(backend, &lines, &control, &mut out);
    out.iter().map(|l| serde_json::from_str(l).unwrap()).collect()
}

#[test]
fn parses_both_script_shapes() {
    assert_eq!(script("[]").unwrap().len(), 0);
    assert_eq!(script(r#"{"events":[]}"#).unwrap().len(), 0);
    let bare = r#"[{"trigger":"scope","event":{"type":"connect","dst":"1.2.3.4:53"}}]"#;
    assert_eq!(script(bare).unwrap().len(), 1);
}

#[test]
fn both_script_shapes_load_alike() {
    for list in [
        r#"[]"#,
        r#"[{"trigger":"end","tool":"t","event":{"type":"a"}},{"trigger":"scope","tool":null,"event":{}}]"#,
        r#"[{"trigger":7,"event":{}}]"#,
        r#"[{"trigger":"scope"}]"#,
    ] {
        let object = format!("{{\"events\":{}}}", list);
        match (script(list), script(&object)) {
            (Ok(bare), Ok(wrapped)) => {
                assert_eq!(format!("{:?}", bare), format!("{:?}", wrapped));
            }
            (Err(_), Err(_)) => {}
            _ => panic!("{} is taken in one shape only", list),
        }
    }
}

#[test]
fn attributes_begin_events_to_active_call() {
    let script = r#"[
        {"trigger":"begin","tool":"get_weather","event":{"type":"exec","argv":["/bin/sh","-c","curl x"]}}
    ]"#;
    let input = "{\"op\":\"mark\",\"phase\":\"begin\",\"call_id\":\"c1\",\"tool\":\"get_weather\"}\n{\"op\":\"mark\",\"phase\":\"end\",\"call_id\":\"c1\"}\n{\"op\":\"shutdown\"}\n";
    let out = drive(script, input);
    let exec = out
        .iter()
        .find(|e| e["type"] == "exec")
        .expect("exec emitted");
    assert_eq!(exec["bucket"], "call");
    assert_eq!(exec["call_id"], "c1");
    assert_eq!(exec["argv"][0], "/bin/sh");
}

#[test]
fn tool_filter_excludes_other_tools() {
    let script = r#"[
        {"trigger":"begin","tool":"only_this","event":{"type":"exec","argv":["/bin/sh"]}}
    ]"#;
    let input = "{\"op\":\"mark\",\"phase\":\"begin\",\"call_id\":\"c1\",\"tool\":\"other\"}\n{\"op\":\"shutdown\"}\n";
    let out = drive(script, input);
    assert!(out.iter().all(|e| e["type"] != "exec"));
}

#[test]
fn startup_and_scope_events_land_in_right_buckets() {
    let script = r#"[
        {"trigger":"startup","event":{"type":"exec","argv":["/init"]}},
        {"trigger":"scope","event":{"type":"connect","dst":"10.0.0.1:53"}}
    ]"#;
    let input = "{\"op\":\"scope\",\"pgid\":42,\"generation\":1}\n{\"op\":\"shutdown\"}\n";
    let out = drive(script, input);
    let exec = out.iter().find(|e| e["type"] == "exec").unwrap();
    assert_eq!(exec["bucket"], "startup");
    assert!(exec.get("call_id").is_none());
    let connect = out.iter().find(|e| e["type"] == "connect").unwrap();
    assert_eq!(connect["bucket"], "ambient");
}

#[test]
fn end_events_keep_call_id_as_grace_window() {
    let script = r#"[
        {"trigger":"end","event":{"type":"connect","dst":"203.0.113.7:443"}}
    ]"#;
    let input = "{\"op\":\"mark\",\"phase\":\"begin\",\"call_id\":\"c9\",\"tool\":\"t\"}\n{\"op\":\"mark\",\"phase\":\"end\",\"call_id\":\"c9\"}\n{\"op\":\"shutdown\"}\n";
    let out = drive(script, input);
    let connect = out.iter().find(|e| e["type"] == "connect").unwrap();
    assert_eq!(connect["call_id"], "c9");
    assert_eq!(connect["bucket"], "call");
}

#[test]
fn malformed_control_line_reports_parse_error() {
    let out = drive("[]", "not json\n{\"op\":\"shutdown\"}\n");
    assert!(out
        .iter()
        .any(|e| e["type"] == "status" && e["message"] == "parse_error"));
}

#[test]
fn lines_are_exact() {
    let entries = script(
        r#"{"events":[
            {"trigger":"startup","event":{"type":"exec","argv":["/init"]}},
            {"trigger":"startup","event":{"argv":["/no-type"]}},
            {"trigger":"startup","tool":"t","event":{"type":"exec","argv":["/tool"]}},
            {"trigger":"scope","event":{"type":"connect","bucket":"own","ts_ns":7,"n":1.5}},
            {"trigger":"begin","event":{"type":"a","call_id":"own"}},
            {"trigger":"end","tool":"t","event":{"type":"b","s":"x\ny"}}
        ]}"#,
    )
    .unwrap();
    let mut backend = FakeBackend::new(entries, 50).with_clock(CountingClock::new(0));
    let mut out: Vec<String> = Vec::new();
    backend.on_start(&mut out);
    assert_eq!(
        out,
        vec![
            r#"{"backend":"fake","bucket":"startup","grace_ms":50,"message":"ready","ts_ns":1,"type":"status"}"#,
            r#"{"argv":["/init"],"bucket":"startup","ts_ns":2,"type":"exec"}"#,
        ]
    );
    out.clear();
    assert!(backend.handle_line("  \t ", &control, &mut out));
    assert!(out.is_empty());
    assert!(backend.handle_line(" {\"op\":\"scope\",\"pgid\":-3} \n", &control, &mut out));
    assert_eq!(
        out,
        vec![
            r#"{"bucket":"ambient","generation":0,"message":"scope","pgid":-3,"ts_ns":3,"type":"status"}"#,
            r#"{"bucket":"own","n":1.5,"ts_ns":4,"type":"connect"}"#,
        ]
    );
    out.clear();
    let begin = Control::Mark {
        phase: "begin".to_string(),
        call_id: Some("c1".to_string()),
        tool: Some("t".to_string()),
    };
    assert!(backend.handle_control(Ok(begin), &mut out));
    assert_eq!(
        out,
        vec![
            r#"{"bucket":"call","call_id":"c1","message":"begin","ts_ns":5,"type":"status"}"#,
            r#"{"bucket":"call","call_id":"own","ts_ns":6,"type":"a"}"#,
        ]
    );
    out.clear();
    // Neither the call nor the tool is named: those of the open call hold.
    let end = Control::Mark { phase: "end".to_string(), call_id: None, tool: None };
    assert!(backend.handle_control(Ok(end), &mut out));
    assert_eq!(
        out,
        vec![
            r#"{"bucket":"call","call_id":"c1","s":"x\ny","ts_ns":7,"type":"b"}"#,
            r#"{"bucket":"call","call_id":"c1","message":"end","ts_ns":8,"type":"status"}"#,
        ]
    );
    out.clear();
    // No call is open any more, and no tool is remembered.
    let end = Control::Mark { phase: "end".to_string(), call_id: None, tool: None };
    assert!(backend.handle_control(Ok(end), &mut out));
    assert_eq!(
        out,
        vec![r#"{"bucket":"call","message":"end","ts_ns":9,"type":"status"}"#]
    );
    out.clear();
    let odd = Control::Mark { phase: "pause".to_string(), call_id: None, tool: None };
    assert!(backend.handle_control(Ok(odd), &mut out));
    assert!(backend.handle_control(Err("bad \"line\"".to_string()), &mut out));
    assert_eq!(
        out,
        vec![
            r#"{"bucket":"ambient","message":"unknown_phase","phase":"pause","ts_ns":10,"type":"status"}"#,
            r#"{"bucket":"ambient","error":"bad \"line\"","message":"parse_error","ts_ns":11,"type":"status"}"#,
        ]
    );
    out.clear();
    assert!(!backend.handle_control(Ok(Control::Shutdown), &mut out));
    assert!(out.is_empty());
}

#[test]
fn nothing_is_heard_after_shutdown() {
    let out = drive("[]", "{\"op\":\"shutdown\"}\n{\"op\":\"scope\",\"pgid\":1}\n");
    assert_eq!(out.len(), 1);
    assert_eq!(out[0]["message"], "ready");
}

#[test]
fn handling_line_by_line_gives_what_the_whole_input_gives() {
    let text = r#"[{"trigger":"begin","event":{"type":"exec"}},{"trigger":"end","event":{"type":"exit"}}]"#;
    let input = "{\"op\":\"mark\",\"phase\":\"begin\",\"call_id\":\"c1\"}\n\n{\"op\":\"scope\",\"pgid\":9}\n{\"op\":\"mark\",\"phase\":\"end\"}\n";
    let whole = drive(text, input);
    let mut backend = FakeBackend::new(script(text).unwrap(), 50).with_clock(CountingClock::new(0));
    let mut out: Vec<String> = Vec::new();
    backend.on_start(&mut out);
    for line in input.lines() {
        assert!(backend.handle_line(line, &control, &mut out));
    }
    let parts: Vec<Value> = out.iter().map(|l| serde_json::from_str(l).unwrap()).collect();
    assert_eq!(parts, whole);
    assert_eq!(whole.len(), 6);
    assert_eq!(whole[4]["call_id"], "c1");
    assert_eq!(whole[4]["type"], "exit");
}

#[test]
fn same_trigger_fires_the_same_events_again() {
    let text = r#"[{"trigger":"scope","event":{"type":"connect"}},{"trigger":"scope","event":{"type":"exec"}}]"#;
    let out = drive(text, "{\"op\":\"scope\",\"pgid\":1}\n{\"op\":\"scope\",\"pgid\":1}\n");
    assert_eq!(out.len(), 7);
    for i in 1..4 {
        let (mut first, mut second) = (out[i].clone(), out[i + 3].clone());
        assert_eq!(first["ts_ns"], i as u64 + 1);
        assert_eq!(second["ts_ns"], i as u64 + 4);
        first["ts_ns"] = Value::Null;
        second["ts_ns"] = Value::Null;
        assert_eq!(first, second);
    }
}

fn replay(text: &str) -> Replay<CountingClock> {
    Replay::new(FakeBackend::new(script(text).unwrap(), 50).with_clock(CountingClock::new(0)))
}

fn written(run: &mut Replay<CountingClock>) -> Vec<String> {
    let mut lines: Vec<String> = Vec::new();
    while let Errand::Write(line) = run.next() {
        lines.push(line);
        run.wrote(Ok(()));
    }
    lines
}

#[test]
fn run_on_input_and_output_says_what_the_whole_input_says() {
    let text = r#"[{"trigger":"startup","event":{"type":"exec"}}]"#;
    for input in [
        "{\"op\":\"scope\",\"pgid\":1}\n\nnot json\n",
        "{\"op\":\"shutdown\"}\n{\"op\":\"scope\",\"pgid\":1}\n",
        "",
    ] {
        let mut run = replay(text);
        let mut out = written(&mut run);
        let mut lines = input.lines();
        while let Errand::Read = run.next() {
            run.read(lines.next().map(|line| Ok(line.to_string())), &control);
            out.extend(written(&mut run));
        }
        assert!(matches!(run.next(), Errand::Finish(Ok(()))));
        let values: Vec<Value> = out.iter().map(|l| serde_json::from_str(l).unwrap()).collect();
        assert_eq!(values, drive(text, input));
    }
}

#[test]
fn first_failure_ends_a_run() {
    let text = r#"[{"trigger":"startup","event":{"type":"exec"}}]"#;
    // The second line of the greeting cannot be written.
    let mut run = replay(text);
    assert!(matches!(run.next(), Errand::Write(_)));
    run.wrote(Ok(()));
    assert!(matches!(run.next(), Errand::Write(_)));
    run.wrote(Err("broken pipe".to_string()));
    match run.next() {
        Errand::Finish(Err(error)) => assert_eq!(error, "broken pipe"),
        _ => panic!("expected the error"),
    }
    // The input cannot be read.
    let mut run = replay(text);
    assert_eq!(written(&mut run).len(), 2);
    run.read(Some(Err("not UTF-8".to_string())), &control);
    match run.next() {
        Errand::Finish(Err(error)) => assert_eq!(error, "not UTF-8"),
        _ => panic!("expected the error"),
    }
}

#[test]
fn line_holds_no_line_feed_and_keeps_the_low_bits_of_the_stamp() {
    let mut object = serde_json::Map::new();
    object.insert("ts_ns".to_string(), Value::from("own"));
    object.insert("a\nb".to_string(), Value::from("c\nd"));
    let line = stamped_line(object, (1u128 << 64) + 5);
    assert_eq!(line, r#"{"a\nb":"c\nd","ts_ns":5}"#);
}

#[test]
fn scripts_load_or_fail_with_the_file_named() {
    assert_eq!(load_script(None, &as_file, &as_list).ok().unwrap().len(), 0);
    let good = EventsFile { path: "e.json".to_string(), content: Ok("[]".to_string()) };
    assert_eq!(load_script(Some(good), &as_file, &as_list).ok().unwrap().len(), 0);
    let one = EventsFile {
        path: "e.json".to_string(),
        content: Ok(r#"{"events":[{"trigger":"begin","event":{}}]}"#.to_string()),
    };
    assert_eq!(load_script(Some(one), &as_file, &as_list).ok().unwrap().len(), 1);
    let unread = EventsFile { path: "e.json".to_string(), content: Err("gone".to_string()) };
    let failure = load_script(Some(unread), &as_file, &as_list).err().unwrap();
    assert_eq!(failure.code, 2);
    assert_eq!(failure.lines, vec!["mcpfz-probe: failed to read events file 'e.json': gone"]);
    let bad = EventsFile { path: "e.json".to_string(), content: Ok("7".to_string()) };
    let failure = load_script(Some(bad), &as_file, &as_list).err().unwrap();
    assert_eq!(failure.code, 2);
    // Neither shape fits: the error is that of the bare list.
    assert_eq!(
        failure.lines,
        vec!["mcpfz-probe: failed to parse events file 'e.json': expected a sequence, found 7"]
    );
}

#[test]
fn clock_reads_the_wall_clock() {
    let first = now_ns();
    let second = now_ns();
    // Some time after 2020 and before 2100.
    assert!(first > 1_577_836_800_000_000_000 && first < 4_102_444_800_000_000_000);
    assert!(second > 1_577_836_800_000_000_000 && second < 4_102_444_800_000_000_000);
    assert_eq!(timestamp(Some(5)), 5);
    assert_eq!(timestamp(None), 0);
}

#[test]
fn counting_clock_counts() {
    let mut clock = CountingClock::new(41);
    assert_eq!((clock.read(), clock.read()), (42, 43));
    let mut clock = CountingClock::new(u128::MAX - 1);
    assert_eq!((clock.read(), clock.read()), (u128::MAX, u128::MAX));
    assert!(SystemClock::new().read() > 1_577_836_800_000_000_000);
}

#[test]
fn system_clock_stamps_messages() {
    let mut backend = FakeBackend::new(Vec::new(), 0);
    let mut out: Vec<String> = Vec::new();
    backend.on_start(&mut out);
    let ready: Value = serde_json::from_str(&out[0]).unwrap();
    assert!(ready["ts_ns"].as_u64().unwrap() > 1_577_836_800_000_000_000);
}
