//! Messages: what each of them says, member by member, and how it becomes a
//! line.

use vstd::prelude::*;

use crate::cli;
use crate::clock;
use crate::control;
use crate::control::Control;
use crate::ebpf;
use crate::ebpf::{Action, Asked, End};
use crate::fake;
use crate::fake::{EventsFile, ScriptEntry, Window};
use crate::json;
use crate::json::{Field, Fields};
use crate::text;

verus! {

/// The line for a message is the text of the object that has the members of
/// the message, each with its own value, but for `ts_ns`, which is the low 64
/// bits of the stamp.
pub proof fn law_line_says_the_message(message: Fields, stamp: u128, written: Fields)
    requires
        forall|key: Seq<char>|
            key != "ts_ns"@ ==> (#[trigger] written.contains_key(key) <==> message.contains_key(key)),
        forall|key: Seq<char>|
            key != "ts_ns"@ && #[trigger] written.contains_key(key) ==> written[key]
                == message[key],
        written.contains_key("ts_ns"@),
        written["ts_ns"@] == Field::Int(stamp as int % 0x1_0000_0000_0000_0000),
    ensures
        json::line_text(message, stamp) == json::object_text(written),
{
    assert(stamp as u64 == stamp % 0x1_0000_0000_0000_0000) by (bit_vector);
    let stamped = message.insert("ts_ns"@, Field::Int(stamp as u64 as int));
    assert forall|key: Seq<char>| stamped.contains_key(key) <==> written.contains_key(key) by {}
    assert(stamped =~= written);
}

/// There is such an object for every message and stamp.
pub proof fn law_line_is_that_of_an_object(message: Fields, stamp: u128)
    ensures
        exists|written: Fields|
            {
                &&& json::line_text(message, stamp) == #[trigger] json::object_text(written)
                &&& written.contains_key("ts_ns"@)
                &&& written["ts_ns"@] == Field::Int(stamp as int % 0x1_0000_0000_0000_0000)
                &&& forall|key: Seq<char>|
                    key != "ts_ns"@ ==> (#[trigger] written.contains_key(key)
                        <==> message.contains_key(key))
                &&& forall|key: Seq<char>|
                    key != "ts_ns"@ && #[trigger] written.contains_key(key) ==> written[key]
                        == message[key]
            },
{
    assert(stamp as u64 == stamp % 0x1_0000_0000_0000_0000) by (bit_vector);
    let written = message.insert("ts_ns"@, Field::Int(stamp as u64 as int));
    law_line_says_the_message(message, stamp, written);
    assert(json::line_text(message, stamp) == json::object_text(written));
}

/// What was put out between two moments: the readings and the lines of before
/// stay, one reading and one line come for each message, in order, and the line
/// is that of the message with its reading, without a line feed.
pub proof fn law_emitted(
    rule: spec_fn(Seq<u128>, u128) -> bool,
    readings: Seq<u128>,
    out: Seq<String>,
    new_readings: Seq<u128>,
    new_out: Seq<String>,
    messages: Seq<Fields>,
)
    requires
        fake::emitted(rule, readings, out, new_readings, new_out, messages),
    ensures
        new_readings.len() == readings.len() + messages.len(),
        new_out.len() == out.len() + messages.len(),
        forall|i: int| 0 <= i < readings.len() ==> #[trigger] new_readings[i] == readings[i],
        forall|i: int| 0 <= i < out.len() ==> (#[trigger] new_out[i])@ == out[i]@,
        forall|i: int|
            0 <= i < messages.len() ==> new_out[out.len() + i]@ == json::line_text(
                #[trigger] messages[i],
                new_readings[readings.len() + i],
            ),
        forall|i: int|
            0 <= i < messages.len() ==> !(#[trigger] new_out[out.len() + i])@.contains('\n'),
        forall|i: int|
            readings.len() <= i < new_readings.len() ==> rule(
                new_readings.subrange(0, i),
                #[trigger] new_readings[i],
            ),
{
    let n = readings.len() as int;
    assert(fake::texts(out).len() == out.len() && fake::texts(new_out).len() == new_out.len());
    assert forall|i: int| 0 <= i < n implies #[trigger] new_readings[i] == readings[i] by {
        assert(new_readings.take(n)[i] == readings[i]);
    }
    assert forall|i: int| 0 <= i < out.len() implies (#[trigger] new_out[i])@ == out[i]@ by {
        assert(fake::texts(new_out)[i] == fake::texts(out)[i]);
    }
    assert forall|i: int| 0 <= i < messages.len() implies new_out[out.len() + i]@
        == json::line_text(#[trigger] messages[i], new_readings[n + i]) by {
        assert(fake::texts(new_out)[out.len() + i] == json::line_text(
            messages[i],
            new_readings.skip(n)[i],
        ));
    }
    assert forall|i: int| n <= i < new_readings.len() implies rule(
        new_readings.subrange(0, i),
        #[trigger] new_readings[i],
    ) by {
        assert(new_readings.subrange(0, i) =~= new_readings.take(i));
    }
}

/// What the two clocks promise.
pub proof fn law_clock_rules(from: u128, earlier: Seq<u128>, stamp: u128)
    ensures
        clock::wall_rule()(earlier, stamp) <==> clock::clock_gives(stamp),
        from + earlier.len() + 1 <= u128::MAX ==> (clock::counting_rule(from)(earlier, stamp)
            <==> stamp == from + earlier.len() + 1),
        from + earlier.len() + 1 > u128::MAX ==> (clock::counting_rule(from)(earlier, stamp)
            <==> stamp == u128::MAX),
{
}

/// An entry fires on its own trigger only, and, where it names a tool, only on
/// a mark of that tool.
pub proof fn law_selected(entry: ScriptEntry, trigger: Seq<char>, tool: Option<Seq<char>>)
    ensures
        fake::selects(entry, trigger, tool) <==> entry.trigger@ == trigger && (entry.tool is None
            || tool is Some && entry.tool->0@ == tool->0),
{
}

/// The greeting: the backend is ready and says its grace window, and then comes
/// what fires at the start.
pub proof fn law_greeting(script: Seq<ScriptEntry>, grace_ms: u64)
    ensures
        fake::greeting(script, grace_ms) == seq![
            Fields::empty().insert("type"@, Field::Text("status"@)).insert(
                "message"@,
                Field::Text("ready"@),
            ).insert("backend"@, Field::Text("fake"@)).insert(
                "grace_ms"@,
                Field::Int(grace_ms as int),
            ).insert("bucket"@, Field::Text("startup"@)),
        ] + fake::fired(script, "startup"@, None, "startup"@, None),
{
    lemma_names();
}

/// The answers to messages that are no marks: a scope is echoed, and then comes
/// what fires for it; a line that is no message is reported with its error; a
/// shutdown is not answered.
pub proof fn law_answers(
    script: Seq<ScriptEntry>,
    window: Window,
    pgid: i64,
    generation: i64,
    error: String,
)
    ensures
        fake::answer(script, window, Ok(Control::Scope { pgid, generation })) == seq![
            Fields::empty().insert("type"@, Field::Text("status"@)).insert(
                "message"@,
                Field::Text("scope"@),
            ).insert("pgid"@, Field::Int(pgid as int)).insert(
                "generation"@,
                Field::Int(generation as int),
            ).insert("bucket"@, Field::Text("ambient"@)),
        ] + fake::fired(script, "scope"@, None, "ambient"@, None),
        fake::answer(script, window, Err(error)) == seq![
            Fields::empty().insert("type"@, Field::Text("status"@)).insert(
                "message"@,
                Field::Text("parse_error"@),
            ).insert("error"@, Field::Text(error@)).insert("bucket"@, Field::Text("ambient"@)),
        ],
        fake::answer(script, window, Ok(Control::Shutdown)) == Seq::<Fields>::empty(),
{
    lemma_names();
}

/// The answers to marks. A begin mark is echoed for its call, and then comes
/// what fires for its tool; for an end mark, what fires comes first, for the
/// call and the tool of the mark or, where it leaves them out, those of the
/// open call. A mark of any other phase is reported.
pub proof fn law_mark_answers(
    script: Seq<ScriptEntry>,
    window: Window,
    phase: String,
    call_id: Option<String>,
    tool: Option<String>,
)
    ensures
        ({
            let said = fake::answer(script, window, Ok(Control::Mark { phase, call_id, tool }));
            let call = match call_id {
                Some(id) => Some(id@),
                None => None,
            };
            let of_tool = match tool {
                Some(name) => Some(name@),
                None => None,
            };
            let ended = if call_id is Some {
                call
            } else {
                window.call
            };
            let end_tool = if tool is Some {
                of_tool
            } else {
                window.tool
            };
            let status = Fields::empty().insert("type"@, Field::Text("status"@)).insert(
                "bucket"@,
                Field::Text("call"@),
            );
            let begun = status.insert("message"@, Field::Text("begin"@));
            let over = status.insert("message"@, Field::Text("end"@));
            &&& phase@ == "begin"@ ==> said == seq![
                match call {
                    Some(id) => begun.insert("call_id"@, Field::Text(id)),
                    None => begun,
                },
            ] + fake::fired(script, "begin"@, of_tool, "call"@, call)
            &&& phase@ == "end"@ ==> said == fake::fired(script, "end"@, end_tool, "call"@, ended)
                + seq![
                match ended {
                    Some(id) => over.insert("call_id"@, Field::Text(id)),
                    None => over,
                },
            ]
            &&& phase@ != "begin"@ && phase@ != "end"@ ==> said == seq![
                Fields::empty().insert("type"@, Field::Text("status"@)).insert(
                    "message"@,
                    Field::Text("unknown_phase"@),
                ).insert("phase"@, Field::Text(phase@)).insert("bucket"@, Field::Text("ambient"@)),
            ]
        }),
{
    lemma_names();
    crate::laws::script::lemma_mark_phases();
    let call = control::owned_text(call_id);
    let status = Fields::empty().insert("type"@, Field::Text("status"@)).insert(
        "bucket"@,
        Field::Text("call"@),
    );
    let ended = control::first_of(call, window.call);
    let begun = status.insert("message"@, Field::Text("begin"@));
    let over = status.insert("message"@, Field::Text("end"@));
    assert(fake::filled(fake::status("begin"@), "call"@, call) =~= match call {
        Some(id) => begun.insert("call_id"@, Field::Text(id)),
        None => begun,
    });
    assert(fake::filled(fake::status("end"@), "call"@, ended) =~= match ended {
        Some(id) => over.insert("call_id"@, Field::Text(id)),
        None => over,
    });
}

pub(crate) proof fn lemma_names()
    ensures
        "type"@ != "bucket"@,
        "type"@ != "call_id"@,
        "type"@ != "message"@,
        "bucket"@ != "call_id"@,
        "bucket"@ != "message"@,
        "call_id"@ != "message"@,
        "bucket"@ != "backend"@,
        "bucket"@ != "grace_ms"@,
        "bucket"@ != "pgid"@,
        "bucket"@ != "generation"@,
        "bucket"@ != "error"@,
        "bucket"@ != "phase"@,
        "type"@ != "backend"@,
        "type"@ != "grace_ms"@,
        "type"@ != "pgid"@,
        "type"@ != "generation"@,
        "type"@ != "error"@,
        "type"@ != "phase"@,
{
    reveal_strlit("type");
    reveal_strlit("bucket");
    reveal_strlit("call_id");
    reveal_strlit("message");
    reveal_strlit("backend");
    reveal_strlit("grace_ms");
    reveal_strlit("pgid");
    reveal_strlit("generation");
    reveal_strlit("error");
    reveal_strlit("phase");
    assert("type"@.len() == 4 && "bucket"@.len() == 6 && "call_id"@.len() == 7 && "message"@.len()
        == 7 && "backend"@.len() == 7 && "grace_ms"@.len() == 8 && "pgid"@.len() == 4
        && "generation"@.len() == 10 && "error"@.len() == 5 && "phase"@.len() == 5);
    assert("call_id"@[0] != "message"@[0] && "type"@[0] != "pgid"@[0]);
}

/// The window that each message leaves: a begin mark opens that of its call and
/// tool, an end mark leaves none, and anything else leaves it as it was.
pub proof fn law_next_window(
    window: Window,
    message: Result<Control, String>,
)
    ensures
        ({
            let next = fake::next_window(window, message);
            match message {
                Ok(Control::Mark { phase, call_id, tool }) => {
                    &&& phase@ == "begin"@ ==> {
                        &&& next.call is Some <==> call_id is Some
                        &&& call_id is Some ==> next.call->0 == call_id->0@
                        &&& next.tool is Some <==> tool is Some
                        &&& tool is Some ==> next.tool->0 == tool->0@
                    }
                    &&& phase@ == "end"@ ==> next.call is None && next.tool is None
                    &&& phase@ != "begin"@ && phase@ != "end"@ ==> next == window
                },
                _ => next == window,
            }
        }),
        fake::idle().call is None,
        fake::idle().tool is None,
{
    crate::laws::script::lemma_mark_phases();
}

/// A blank line is not answered, leaves the window and does not stop the run;
/// any other does what its message does. A run over no lines says nothing more,
/// and one over a single line what that line is answered.
pub proof fn law_lines(
    script: Seq<ScriptEntry>,
    window: Window,
    message: Result<Control, String>,
    line: Option<Result<Control, String>>,
)
    ensures
        fake::line_answer(script, window, None) == Seq::<Fields>::empty(),
        fake::window_after_line(window, None) == window,
        fake::line_goes_on(None),
        fake::line_answer(script, window, Some(message)) == fake::answer(script, window, message),
        fake::window_after_line(window, Some(message)) == fake::next_window(window, message),
        fake::line_goes_on(Some(message)) <==> message != Ok::<Control, String>(Control::Shutdown),
        fake::session_answer(script, window, Seq::empty()) == Seq::<Fields>::empty(),
        fake::session_window(window, Seq::empty()) == window,
        fake::session_answer(script, window, seq![line]) == fake::line_answer(script, window, line),
        fake::session_window(window, seq![line]) == fake::window_after_line(window, line),
{
    reveal_with_fuel(fake::session_answer, 2);
    reveal_with_fuel(fake::session_window, 2);
    assert(seq![line].drop_last() =~= Seq::empty());
    assert(fake::session_answer(script, window, seq![line]) =~= fake::line_answer(
        script,
        window,
        line,
    ));
}

/// What a backend hears of an input: each line as the parser reads it, from the
/// first on; only the last heard may stop the run, and lines are left over only
/// where it does.
pub proof fn law_heard<P: Fn(&str) -> Result<Control, String>>(
    parse: P,
    lines: Seq<String>,
    messages: Seq<Option<Result<Control, String>>>,
    i: int,
)
    requires
        fake::heard(parse, lines, messages),
        0 <= i < lines.len(),
    ensures
        messages.len() <= lines.len(),
        i < messages.len() ==> control::reads_as(parse, lines[i]@, messages[i]),
        i + 1 < messages.len() ==> messages[i] != Some(Ok::<Control, String>(Control::Shutdown)),
        i >= messages.len() ==> messages.len() > 0 && messages[messages.len() - 1] == Some(
            Ok::<Control, String>(Control::Shutdown),
        ),
{
    if i < messages.len() {
        assert(control::reads_as(parse, lines[i]@, messages[i]));
        if i + 1 < messages.len() {
            assert(fake::line_goes_on(messages[i]));
        }
    }
}

/// A line is blank exactly where it holds nothing but white space; what the
/// parser is handed of any other is the line without the white space around it,
/// and what it gives is what is heard.
pub proof fn law_line_is_read<P: Fn(&str) -> Result<Control, String>>(
    parse: P,
    line: Seq<char>,
    message: Option<Result<Control, String>>,
)
    requires
        control::reads_as(parse, line, message),
    ensures
        message is None <==> forall|i: int|
            0 <= i < line.len() ==> text::is_white(#[trigger] line[i]),
        message matches Some(parsed) ==> exists|t: &str|
            t@ == text::trimmed(line) && #[trigger] call_ensures(parse, (t,), parsed),
{
    lemma_blank(line);
}

proof fn lemma_blank(line: Seq<char>)
    ensures
        text::trimmed(line).len() == 0 <==> forall|i: int|
            0 <= i < line.len() ==> text::is_white(#[trigger] line[i]),
    decreases line.len(),
{
    if line.len() > 0 {
        if text::is_white(line.first()) {
            let rest = line.drop_first();
            lemma_blank(rest);
            if text::trimmed(line).len() == 0 {
                assert forall|i: int| 0 <= i < line.len() implies text::is_white(
                    #[trigger] line[i],
                ) by {
                    if i > 0 {
                        assert(rest[i - 1] == line[i]);
                    }
                }
            } else {
                let i = choose|i: int| 0 <= i < rest.len() && !text::is_white(#[trigger] rest[i]);
                assert(!text::is_white(line[i + 1]));
            }
        } else if text::is_white(line.last()) {
            lemma_blank(line.drop_last());
            assert(!text::is_white(line[0]));
            assert(line.drop_last().len() > 0);
            assert(line.drop_last()[0] == line[0]);
        } else {
            assert(!text::is_white(line[0]));
        }
    }
}

/// The parser for the object goes first: where it takes the text, that is the
/// script; where it refuses it, the script or the error is what the parser for
/// the list gives.
pub proof fn law_object_shape_goes_first<E, F, L>(
    as_file: F,
    as_list: L,
    content: &str,
    script: Result<Vec<ScriptEntry>, E>,
) where F: Fn(&str) -> Result<Vec<ScriptEntry>, E>, L: Fn(&str) -> Result<Vec<ScriptEntry>, E>
    requires
        fake::reads_script(as_file, as_list, content, script),
    ensures
        (forall|r: Result<Vec<ScriptEntry>, E>| #[trigger]
            call_ensures(as_file, (content,), r) ==> r is Ok) ==> script is Ok && call_ensures(
            as_file,
            (content,),
            script,
        ),
        (forall|r: Result<Vec<ScriptEntry>, E>| #[trigger]
            call_ensures(as_file, (content,), r) ==> r is Err) ==> call_ensures(
            as_list,
            (content,),
            script,
        ),
{
}

/// What comes of an events file: without one the script is empty; one that
/// cannot be read, or that holds no script, fails with exit code 2 and one line
/// that names the file and the error; else its script is what the parsers make
/// of its text.
pub proof fn law_script_source<F, L>(
    source: Option<EventsFile>,
    as_file: F,
    as_list: L,
    script: Result<Vec<ScriptEntry>, cli::Failure>,
) where
    F: Fn(&str) -> Result<Vec<ScriptEntry>, String>,
    L: Fn(&str) -> Result<Vec<ScriptEntry>, String>,

    requires
        fake::loads(source, as_file, as_list, script),
    ensures
        source is None ==> script is Ok && script->Ok_0@.len() == 0,
        source matches Some(file) ==> {
            &&& file.content matches Err(error) ==> {
                &&& script is Err
                &&& script->Err_0.code == 2
                &&& script->Err_0.lines@.len() == 1
                &&& script->Err_0.lines@[0]@ == "mcpfz-probe: failed to read events file '"@
                    + file.path@ + "': "@ + error@
            }
            &&& file.content matches Ok(content) ==> exists|
                t: &str,
                parsed: Result<Vec<ScriptEntry>, String>,
            |
                {
                    &&& t@ == content@
                    &&& #[trigger] fake::reads_script(as_file, as_list, t, parsed)
                    &&& parsed matches Ok(entries) ==> script is Ok && script->Ok_0 == entries
                    &&& parsed matches Err(error) ==> {
                        &&& script is Err
                        &&& script->Err_0.code == 2
                        &&& script->Err_0.lines@.len() == 1
                        &&& script->Err_0.lines@[0]@
                            == "mcpfz-probe: failed to parse events file '"@ + file.path@ + "': "@
                            + error@
                    }
                }
        },
{
    lemma_lead("failed to read events file '"@, "mcpfz-probe: failed to read events file '"@);
    lemma_lead("failed to parse events file '"@, "mcpfz-probe: failed to parse events file '"@);
    reveal_strlit("mcpfz-probe: ");
    reveal_strlit("failed to read events file '");
    reveal_strlit("failed to parse events file '");
    reveal_strlit("mcpfz-probe: failed to read events file '");
    reveal_strlit("mcpfz-probe: failed to parse events file '");
    assert("mcpfz-probe: "@ + "failed to read events file '"@
        =~= "mcpfz-probe: failed to read events file '"@);
    assert("mcpfz-probe: "@ + "failed to parse events file '"@
        =~= "mcpfz-probe: failed to parse events file '"@);
    if let Some(file) = source {
        match file.content {
            Err(error) => {
                let failure = script->Err_0;
                lemma_one_line(failure, "failed to read events file '"@, file.path@, error@);
            },
            Ok(content) => {
                let (t, parsed) = choose|t: &str, parsed: Result<Vec<ScriptEntry>, String>|
                    t@ == content@ && #[trigger] fake::reads_script(as_file, as_list, t, parsed)
                        && match parsed {
                        Ok(entries) => script == Ok::<Vec<ScriptEntry>, cli::Failure>(entries),
                        Err(error) => script matches Err(failure) && fake::says_of_file(
                            failure,
                            "failed to parse events file '"@,
                            file.path@,
                            error@,
                        ),
                    };
                if let Err(error) = parsed {
                    let failure = script->Err_0;
                    lemma_one_line(failure, "failed to parse events file '"@, file.path@, error@);
                }
            },
        }
    }
}

proof fn lemma_lead(lead: Seq<char>, whole: Seq<char>)
    ensures
        "mcpfz-probe: "@ + lead == whole ==> forall|path: Seq<char>, error: Seq<char>|
            #[trigger] cli::named(cli::events_file_message(lead, path, error)) == whole + path
                + "': "@ + error,
{
    if "mcpfz-probe: "@ + lead == whole {
        assert forall|path: Seq<char>, error: Seq<char>| #[trigger]
            cli::named(cli::events_file_message(lead, path, error)) == whole + path + "': "@
                + error by {
            assert(cli::named(cli::events_file_message(lead, path, error)) =~= whole + path + "': "@
                + error);
        }
    }
}

proof fn lemma_one_line(failure: cli::Failure, lead: Seq<char>, path: Seq<char>, error: Seq<char>)
    requires
        fake::says_of_file(failure, lead, path, error),
    ensures
        failure.lines@.len() == 1,
        failure.lines@[0]@ == cli::named(cli::events_file_message(lead, path, error)),
{
    assert(cli::texts(failure.lines@).len() == failure.lines@.len());
    assert(cli::texts(failure.lines@)[0] == failure.lines@[0]@);
}

/// What control messages make the eBPF backend say: a scope and a begin mark
/// are echoed, a shutdown stops it, and it is quiet on anything else.
pub proof fn law_echoes(
    pgid: i64,
    generation: i64,
    phase: String,
    call_id: Option<String>,
    tool: Option<String>,
)
    ensures
        ebpf::asks(Control::Scope { pgid, generation }) == Asked::Report(
            Fields::empty().insert("type"@, Field::Text("status"@)).insert(
                "bucket"@,
                Field::Text("ambient"@),
            ).insert("message"@, Field::Text("scope"@)).insert(
                "pgid"@,
                Field::Int(pgid as int),
            ).insert("generation"@, Field::Int(generation as int)),
        ),
        ebpf::asks(Control::Shutdown) == Asked::Stop,
        phase@ == "begin"@ ==> ebpf::asks(Control::Mark { phase, call_id, tool }) == Asked::Report(
            Fields::empty().insert("type"@, Field::Text("status"@)).insert(
                "bucket"@,
                Field::Text("call"@),
            ).insert("message"@, Field::Text("begin"@)).insert(
                "call_id"@,
                match call_id {
                    Some(id) => Field::Text(id@),
                    None => Field::Null,
                },
            ),
        ),
        phase@ != "begin"@ ==> ebpf::asks(Control::Mark { phase, call_id, tool }) == Asked::Quiet,
{
}

/// The status of an end mark names its call, or says `null`; a status message
/// says its bucket and what it is about.
pub proof fn law_end_statuses(end: End, bucket: Seq<char>, message: Seq<char>)
    ensures
        ebpf::end_status(end) == Fields::empty().insert("type"@, Field::Text("status"@)).insert(
            "bucket"@,
            Field::Text("call"@),
        ).insert("message"@, Field::Text("end"@)).insert(
            "call_id"@,
            match end.call {
                Some(id) => Field::Text(id),
                None => Field::Null,
            },
        ),
        ebpf::status(bucket, message) == Fields::empty().insert(
            "type"@,
            Field::Text("status"@),
        ).insert("bucket"@, Field::Text(bucket)).insert("message"@, Field::Text(message)),
{
}

/// What is asked of a caller stands for what it is given: nothing, a message
/// with these members, or to stop.
pub proof fn law_actions(object: json::Object)
    ensures
        Action::Quiet@ == Asked::Quiet,
        Action::Report(object)@ == Asked::Report(json::fields(object)),
        Action::Stop@ == Asked::Stop,
{
}

/// The texts of strings are their characters, and the first of two that is
/// there is the one meant.
pub proof fn law_texts(s: String, t: &str, a: Option<Seq<char>>, b: Option<Seq<char>>)
    ensures
        control::owned_text(Some(s)) == Some(s@),
        control::owned_text(None) is None,
        control::borrowed_text(Some(t)) == Some(t@),
        control::borrowed_text(None) is None,
        a is Some ==> control::first_of(a, b) == a,
        a is None ==> control::first_of(a, b) == b,
{
}

} // verus!
