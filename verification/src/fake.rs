//! Deterministic fake backend.
//!
//! The fake backend does not touch the kernel. It replays a scripted list of
//! runtime events in response to control messages, placed in the `startup`,
//! `call` and `ambient` buckets and attributed to the active call.

use vstd::prelude::*;

use crate::cli;
use crate::clock;
use crate::clock::{Clock, SystemClock};
use crate::control;
use crate::control::Control;
use crate::json;
use crate::json::{Field, Fields, Object};
use crate::text;

verus! {

/// A single scripted event and the trigger that fires it.
///
/// `trigger` is one of:
/// - `startup`: emitted once when the sidecar starts, bucket `startup`.
/// - `scope`:   emitted when a `scope` message is received, bucket `ambient`.
/// - `begin`:   emitted when a `begin` mark is received, bucket `call`.
/// - `end`:     emitted when an `end` mark is received, bucket `call`
///              (the trailing grace window of the just-ended call).
///
/// For `begin`/`end` triggers an optional `tool` filter restricts the event to
/// marks carrying that tool name. The `event` object is passed through verbatim
/// with `bucket`, `call_id`, and `ts_ns` filled in by the sidecar.
#[derive(Debug, Clone)]
pub struct ScriptEntry {
    pub trigger: String,
    pub tool: Option<String>,
    pub event: Object,
}

/// The call that is open, as far as marks have told of it.
pub struct Window {
    pub call: Option<Seq<char>>,
    pub tool: Option<Seq<char>>,
}

/// No call is open.
pub open spec fn idle() -> Window {
    Window { call: None, tool: None }
}

/// Whether an entry fires on this trigger for a mark with this tool.
pub open spec fn selects(entry: ScriptEntry, trigger: Seq<char>, tool: Option<Seq<char>>) -> bool {
    &&& entry.trigger@ == trigger
    &&& match (control::owned_text(entry.tool), tool) {
        (Some(want), Some(have)) => want == have,
        (Some(_), None) => false,
        (None, _) => true,
    }
}

/// An event with the bucket and the call filled in where it has none of its
/// own.
pub open spec fn filled(event: Fields, bucket: Seq<char>, call: Option<Seq<char>>) -> Fields {
    let placed = if event.contains_key("bucket"@) {
        event
    } else {
        event.insert("bucket"@, Field::Text(bucket))
    };
    match call {
        Some(id) => if placed.contains_key("call_id"@) {
            placed
        } else {
            placed.insert("call_id"@, Field::Text(id))
        },
        None => placed,
    }
}

/// The messages that an event makes: one, or none where it has no `type`.
pub open spec fn prepared(event: Fields, bucket: Seq<char>, call: Option<Seq<char>>) -> Seq<
    Fields,
> {
    if event.contains_key("type"@) {
        seq![filled(event, bucket, call)]
    } else {
        Seq::empty()
    }
}

/// The messages of the entries that a trigger fires, in script order.
pub open spec fn fired(
    script: Seq<ScriptEntry>,
    trigger: Seq<char>,
    tool: Option<Seq<char>>,
    bucket: Seq<char>,
    call: Option<Seq<char>>,
) -> Seq<Fields>
    decreases script.len(),
{
    if script.len() == 0 {
        Seq::empty()
    } else {
        let before = fired(script.drop_last(), trigger, tool, bucket, call);
        if selects(script.last(), trigger, tool) {
            before + prepared(json::fields(script.last().event), bucket, call)
        } else {
            before
        }
    }
}

/// A status event.
pub open spec fn status(message: Seq<char>) -> Fields {
    Fields::empty().insert("type"@, Field::Text("status"@)).insert(
        "message"@,
        Field::Text(message),
    )
}

/// What the sidecar says when it starts.
pub open spec fn greeting(script: Seq<ScriptEntry>, grace_ms: u64) -> Seq<Fields> {
    prepared(
        status("ready"@).insert("backend"@, Field::Text("fake"@)).insert(
            "grace_ms"@,
            Field::Int(grace_ms as int),
        ),
        "startup"@,
        None,
    ) + fired(script, "startup"@, None, "startup"@, None)
}

/// What the sidecar says to a begin mark.
pub open spec fn begin_answer(
    script: Seq<ScriptEntry>,
    call: Option<Seq<char>>,
    tool: Option<Seq<char>>,
) -> Seq<Fields> {
    prepared(status("begin"@), "call"@, call) + fired(script, "begin"@, tool, "call"@, call)
}

/// What the sidecar says to an end mark.
pub open spec fn end_answer(
    script: Seq<ScriptEntry>,
    call: Option<Seq<char>>,
    tool: Option<Seq<char>>,
) -> Seq<Fields> {
    fired(script, "end"@, tool, "call"@, call) + prepared(status("end"@), "call"@, call)
}

/// What the sidecar says to a control message, or to a line that is none. An
/// end mark that does not say which call ends, or of which tool, speaks of the
/// open one.
pub open spec fn answer(
    script: Seq<ScriptEntry>,
    window: Window,
    message: Result<Control, String>,
) -> Seq<Fields> {
    match message {
        Err(error) => prepared(
            status("parse_error"@).insert("error"@, Field::Text(error@)),
            "ambient"@,
            None,
        ),
        Ok(Control::Scope { pgid, generation }) => prepared(
            status("scope"@).insert("pgid"@, Field::Int(pgid as int)).insert(
                "generation"@,
                Field::Int(generation as int),
            ),
            "ambient"@,
            None,
        ) + fired(script, "scope"@, None, "ambient"@, None),
        Ok(Control::Mark { phase, call_id, tool }) => if phase@ == "begin"@ {
            begin_answer(script, control::owned_text(call_id), control::owned_text(tool))
        } else if phase@ == "end"@ {
            end_answer(
                script,
                control::first_of(control::owned_text(call_id), window.call),
                control::first_of(control::owned_text(tool), window.tool),
            )
        } else {
            prepared(
                status("unknown_phase"@).insert("phase"@, Field::Text(phase@)),
                "ambient"@,
                None,
            )
        },
        Ok(Control::Shutdown) => Seq::empty(),
    }
}

/// The call that is open after a control message.
pub open spec fn next_window(window: Window, message: Result<Control, String>) -> Window {
    match message {
        Ok(Control::Mark { phase, call_id, tool }) => if phase@ == "begin"@ {
            Window { call: control::owned_text(call_id), tool: control::owned_text(tool) }
        } else if phase@ == "end"@ {
            idle()
        } else {
            window
        },
        _ => window,
    }
}

/// Whether the sidecar goes on reading after a control message.
pub open spec fn goes_on(message: Result<Control, String>) -> bool {
    !(message matches Ok(Control::Shutdown))
}

/// The characters of each line.
pub open spec fn texts(lines: Seq<String>) -> Seq<Seq<char>> {
    lines.map_values(|line: String| line@)
}

/// The lines for these messages, each with the clock reading taken for it.
pub open spec fn stamped(messages: Seq<Fields>, stamps: Seq<u128>) -> Seq<Seq<char>> {
    Seq::new(messages.len(), |i: int| json::line_text(messages[i], stamps[i]))
}

/// Whether, between two moments, exactly these messages were put out: one
/// clock reading, by the rule of the clock, and one line for each, in order,
/// without a line feed in it.
pub open spec fn emitted(
    rule: spec_fn(Seq<u128>, u128) -> bool,
    readings: Seq<u128>,
    out: Seq<String>,
    new_readings: Seq<u128>,
    new_out: Seq<String>,
    messages: Seq<Fields>,
) -> bool {
    &&& new_readings.len() == readings.len() + messages.len()
    &&& new_readings.take(readings.len() as int) == readings
    &&& forall|i: int|
        readings.len() <= i < new_readings.len() ==> rule(
            new_readings.take(i),
            #[trigger] new_readings[i],
        )
    &&& texts(new_out) == texts(out) + stamped(messages, new_readings.skip(readings.len() as int))
    &&& forall|i: int|
        out.len() <= i < new_out.len() ==> !(#[trigger] new_out[i])@.contains('\n')
}

proof fn lemma_emitted_none(
    rule: spec_fn(Seq<u128>, u128) -> bool,
    readings: Seq<u128>,
    out: Seq<String>,
)
    ensures
        emitted(rule, readings, out, readings, out, Seq::empty()),
{
    assert(readings.take(readings.len() as int) =~= readings);
    assert(texts(out) + stamped(Seq::empty(), readings.skip(readings.len() as int)) =~= texts(out));
}

pub(crate) proof fn lemma_emitted_more(
    rule: spec_fn(Seq<u128>, u128) -> bool,
    readings: Seq<u128>,
    out: Seq<String>,
    readings1: Seq<u128>,
    out1: Seq<String>,
    messages1: Seq<Fields>,
    readings2: Seq<u128>,
    out2: Seq<String>,
    messages2: Seq<Fields>,
)
    requires
        emitted(rule, readings, out, readings1, out1, messages1),
        emitted(rule, readings1, out1, readings2, out2, messages2),
    ensures
        emitted(rule, readings, out, readings2, out2, messages1 + messages2),
{
    let n = readings.len() as int;
    let n1 = readings1.len() as int;
    assert(readings2.take(n) =~= readings2.take(n1).take(n));
    assert forall|i: int| n <= i < readings2.len() implies rule(
        readings2.take(i),
        #[trigger] readings2[i],
    ) by {
        if i < n1 {
            assert(readings2.take(n1)[i] == readings1[i]);
            assert(readings2.take(i) =~= readings2.take(n1).take(i));
        }
    }
    let stamps = readings2.skip(n);
    assert forall|i: int| 0 <= i < messages1.len() implies #[trigger] stamps[i] == readings1.skip(
        n,
    )[i] by {
        assert(readings2.take(n1)[n + i] == readings1[n + i]);
    }
    assert forall|i: int| 0 <= i < messages2.len() implies #[trigger] readings2.skip(n1)[i]
        == stamps[messages1.len() + i] by {}
    assert(texts(out2) =~= texts(out) + stamped(messages1 + messages2, stamps));
    assert(texts(out1).len() == out1.len() && texts(out2).len() == out2.len());
    assert forall|i: int| out.len() <= i < out2.len() implies !(#[trigger] out2[i])@.contains(
        '\n',
    ) by {
        if i < out1.len() {
            assert(texts(out2)[i] == texts(out1)[i]);
            assert(out1[i]@ == out2[i]@);
        }
    }
}

/// What is put out behind other lines is put out.
pub(crate) proof fn lemma_emitted_behind(
    rule: spec_fn(Seq<u128>, u128) -> bool,
    readings: Seq<u128>,
    out: Seq<String>,
    new_readings: Seq<u128>,
    new_out: Seq<String>,
    messages: Seq<Fields>,
    lead: Seq<String>,
)
    requires
        emitted(rule, readings, out, new_readings, new_out, messages),
    ensures
        emitted(rule, readings, lead + out, new_readings, lead + new_out, messages),
{
    assert(texts(lead + out) =~= texts(lead) + texts(out));
    assert(texts(lead + new_out) =~= texts(lead) + texts(new_out));
    assert(texts(lead + new_out) =~= texts(lead + out) + stamped(
        messages,
        new_readings.skip(readings.len() as int),
    ));
}

/// The fake backend state machine.
pub struct FakeBackend<C> {
    script: Vec<ScriptEntry>,
    active_call: Option<String>,
    active_tool: Option<String>,
    grace_ms: u64,
    clock: C,
}

impl FakeBackend<SystemClock> {
    pub fn new(script: Vec<ScriptEntry>, grace_ms: u64) -> (backend: Self)
        ensures
            backend.script() == script@,
            backend.grace_ms() == grace_ms,
            backend.window() == idle(),
            backend.readings() == Seq::<u128>::empty(),
            backend.rule() == clock::wall_rule(),
    {
        FakeBackend {
            script,
            active_call: None,
            active_tool: None,
            grace_ms,
            clock: SystemClock::new(),
        }
    }
}

impl<C: Clock> FakeBackend<C> {
    /// The events to replay.
    pub closed spec fn script(&self) -> Seq<ScriptEntry> {
        self.script@
    }

    /// The trailing window, in milliseconds, that is reported at the start.
    pub closed spec fn grace_ms(&self) -> u64 {
        self.grace_ms
    }

    /// The call that is open.
    pub closed spec fn window(&self) -> Window {
        Window {
            call: control::owned_text(self.active_call),
            tool: control::owned_text(self.active_tool),
        }
    }

    /// The clock readings taken so far.
    pub closed spec fn readings(&self) -> Seq<u128> {
        self.clock.readings()
    }

    /// What the clock promises of its readings.
    pub closed spec fn rule(&self) -> spec_fn(Seq<u128>, u128) -> bool {
        self.clock.rule()
    }

    /// Whether only the clock moved between two moments, and kept its rule.
    spec fn same_but_clock(&self, other: &Self) -> bool {
        &&& self.rule() == other.rule()
        &&& self.script == other.script
        &&& self.active_call == other.active_call
        &&& self.active_tool == other.active_tool
        &&& self.grace_ms == other.grace_ms
    }

    /// Replaces the clock.
    pub fn with_clock<D: Clock>(self, clock: D) -> (backend: FakeBackend<D>)
        ensures
            backend.script() == self.script(),
            backend.grace_ms() == self.grace_ms(),
            backend.window() == self.window(),
            backend.readings() == clock.readings(),
            backend.rule() == clock.rule(),
    {
        FakeBackend {
            script: self.script,
            active_call: self.active_call,
            active_tool: self.active_tool,
            grace_ms: self.grace_ms,
            clock,
        }
    }

    /// Emit an event object, filling in bucket / call_id / ts_ns. An event
    /// without a `type` is unusable and is skipped.
    fn emit(&mut self, out: &mut Vec<String>, object: Object, bucket: &str, call_id: Option<&str>)
        ensures
            final(self).same_but_clock(old(self)),
            emitted(
                old(self).rule(),
                old(self).readings(),
                old(out)@,
                final(self).readings(),
                final(out)@,
                prepared(json::fields(object), bucket@, control::borrowed_text(call_id)),
            ),
    {
        let ghost event = json::fields(object);
        let ghost call = control::borrowed_text(call_id);
        if !json::contains_key(&object, "type") {
            proof {
                lemma_emitted_none(self.rule(), self.readings(), out@);
            }
            return ;
        }
        let mut object = object;
        if !json::contains_key(&object, "bucket") {
            json::insert_text(&mut object, "bucket", bucket);
        }
        if let Some(id) = call_id {
            if !json::contains_key(&object, "call_id") {
                json::insert_text(&mut object, "call_id", id);
            }
        }
        assert(json::fields(object) == filled(event, bucket@, call));
        let stamp: u128 = self.clock.read();
        out.push(json::stamped_line(object, stamp));
        proof {
            let messages = seq![filled(event, bucket@, call)];
            let before = old(self).readings();
            assert(self.readings().take(before.len() as int) =~= before);
            assert(texts(out@) =~= texts(old(out)@) + stamped(
                messages,
                self.readings().skip(before.len() as int),
            ));
        }
    }

    fn emit_status(
        &mut self,
        out: &mut Vec<String>,
        bucket: &str,
        call_id: Option<&str>,
        message: &str,
    )
        ensures
            final(self).same_but_clock(old(self)),
            emitted(
                old(self).rule(),
                old(self).readings(),
                old(out)@,
                final(self).readings(),
                final(out)@,
                prepared(status(message@), bucket@, control::borrowed_text(call_id)),
            ),
    {
        let object = status_object(message);
        self.emit(out, object, bucket, call_id)
    }

    /// Replay every entry matching `trigger` (and, when given, `tool`).
    fn fire(
        &mut self,
        out: &mut Vec<String>,
        trigger: &str,
        tool: Option<&str>,
        bucket: &str,
        call_id: Option<&str>,
    )
        ensures
            final(self).same_but_clock(old(self)),
            emitted(
                old(self).rule(),
                old(self).readings(),
                old(out)@,
                final(self).readings(),
                final(out)@,
                fired(
                    old(self).script(),
                    trigger@,
                    control::borrowed_text(tool),
                    bucket@,
                    control::borrowed_text(call_id),
                ),
            ),
    {
        let ghost script = self.script@;
        let ghost call = control::borrowed_text(call_id);
        let ghost have = control::borrowed_text(tool);
        let mut i: usize = 0;
        proof {
            lemma_emitted_none(self.rule(), self.readings(), out@);
            assert(script.take(0) =~= Seq::<ScriptEntry>::empty());
        }
        while i < self.script.len()
            invariant
                0 <= i <= script.len(),
                script == self.script@,
                script == old(self).script(),
                call == control::borrowed_text(call_id),
                have == control::borrowed_text(tool),
                self.same_but_clock(old(self)),
                emitted(
                    old(self).rule(),
                    old(self).readings(),
                    old(out)@,
                    self.readings(),
                    out@,
                    fired(script.take(i as int), trigger@, have, bucket@, call),
                ),
            decreases script.len() - i,
        {
            let ghost readings1 = self.readings();
            let ghost out1 = out@;
            let ghost before = fired(script.take(i as int), trigger@, have, bucket@, call);
            let selected: bool = is_selected(&self.script[i], trigger, tool);
            proof {
                let next = script.take(i + 1);
                assert(next.drop_last() =~= script.take(i as int));
                assert(next.last() == script[i as int]);
            }
            if selected {
                let event = self.script[i].event.clone();
                self.emit(out, event, bucket, call_id);
                proof {
                    lemma_emitted_more(
                        old(self).rule(),
                        old(self).readings(),
                        old(out)@,
                        readings1,
                        out1,
                        before,
                        self.readings(),
                        out@,
                        prepared(json::fields(script[i as int].event), bucket@, call),
                    );
                }
            }
            i += 1;
        }
        assert(script.take(i as int) =~= script);
    }

    /// Emitted once when the sidecar starts.
    pub fn on_start(&mut self, out: &mut Vec<String>)
        ensures
            final(self).script() == old(self).script(),
            final(self).grace_ms() == old(self).grace_ms(),
            final(self).rule() == old(self).rule(),
            final(self).window() == old(self).window(),
            emitted(
                old(self).rule(),
                old(self).readings(),
                old(out)@,
                final(self).readings(),
                final(out)@,
                greeting(old(self).script(), old(self).grace_ms()),
            ),
    {
        let grace: u64 = self.grace_ms;
        let mut object = status_object("ready");
        json::insert_text(&mut object, "backend", "fake");
        json::insert_u64(&mut object, "grace_ms", grace);
        let ghost first = prepared(json::fields(object), "startup"@, None);
        self.emit(out, object, "startup", None);
        let ghost readings1 = self.readings();
        let ghost out1 = out@;
        self.fire(out, "startup", None, "startup", None);
        proof {
            lemma_emitted_more(
                old(self).rule(),
                old(self).readings(),
                old(out)@,
                readings1,
                out1,
                first,
                self.readings(),
                out@,
                fired(old(self).script(), "startup"@, None, "startup"@, None),
            );
        }
    }

    /// Handles a control message, or the text of the error where a line held
    /// none. Returns `false` to stop the loop.
    pub fn handle_control(
        &mut self,
        message: Result<Control, String>,
        out: &mut Vec<String>,
    ) -> (more: bool)
        ensures
            more == goes_on(message),
            final(self).script() == old(self).script(),
            final(self).grace_ms() == old(self).grace_ms(),
            final(self).rule() == old(self).rule(),
            final(self).window() == next_window(old(self).window(), message),
            emitted(
                old(self).rule(),
                old(self).readings(),
                old(out)@,
                final(self).readings(),
                final(out)@,
                answer(old(self).script(), old(self).window(), message),
            ),
    {
        match message {
            Err(error) => {
                let mut object = status_object("parse_error");
                json::insert_text(&mut object, "error", error.as_str());
                self.emit(out, object, "ambient", None);
                true
            },
            Ok(Control::Scope { pgid, generation }) => {
                let mut object = status_object("scope");
                json::insert_i64(&mut object, "pgid", pgid);
                json::insert_i64(&mut object, "generation", generation);
                let ghost first = prepared(json::fields(object), "ambient"@, None);
                self.emit(out, object, "ambient", None);
                let ghost readings1 = self.readings();
                let ghost out1 = out@;
                self.fire(out, "scope", None, "ambient", None);
                proof {
                    lemma_emitted_more(
                        old(self).rule(),
                        old(self).readings(),
                        old(out)@,
                        readings1,
                        out1,
                        first,
                        self.readings(),
                        out@,
                        fired(old(self).script(), "scope"@, None, "ambient"@, None),
                    );
                }
                true
            },
            Ok(Control::Mark { phase, call_id, tool }) => {
                if text::same(phase.as_str(), "begin") {
                    self.begin(call_id, tool, out);
                } else if text::same(phase.as_str(), "end") {
                    self.end(call_id, tool, out);
                } else {
                    let mut object = status_object("unknown_phase");
                    json::insert_text(&mut object, "phase", phase.as_str());
                    self.emit(out, object, "ambient", None);
                }
                true
            },
            Ok(Control::Shutdown) => {
                proof {
                    lemma_emitted_none(self.rule(), self.readings(), out@);
                }
                false
            },
        }
    }

    fn begin(&mut self, call_id: Option<String>, tool: Option<String>, out: &mut Vec<String>)
        ensures
            final(self).script() == old(self).script(),
            final(self).grace_ms() == old(self).grace_ms(),
            final(self).rule() == old(self).rule(),
            final(self).window() == (Window {
                call: control::owned_text(call_id),
                tool: control::owned_text(tool),
            }),
            emitted(
                old(self).rule(),
                old(self).readings(),
                old(out)@,
                final(self).readings(),
                final(out)@,
                begin_answer(
                    old(self).script(),
                    control::owned_text(call_id),
                    control::owned_text(tool),
                ),
            ),
    {
        self.active_call = control::copy_of(&call_id);
        self.active_tool = control::copy_of(&tool);
        let id: Option<&str> = control::as_deref(&call_id);
        self.emit_status(out, "call", id, "begin");
        let ghost readings1 = self.readings();
        let ghost out1 = out@;
        self.fire(out, "begin", control::as_deref(&tool), "call", id);
        proof {
            let call = control::owned_text(call_id);
            lemma_emitted_more(
                old(self).rule(),
                old(self).readings(),
                old(out)@,
                readings1,
                out1,
                prepared(status("begin"@), "call"@, call),
                self.readings(),
                out@,
                fired(old(self).script(), "begin"@, control::owned_text(tool), "call"@, call),
            );
        }
    }

    fn end(&mut self, call_id: Option<String>, tool: Option<String>, out: &mut Vec<String>)
        ensures
            final(self).script() == old(self).script(),
            final(self).grace_ms() == old(self).grace_ms(),
            final(self).rule() == old(self).rule(),
            final(self).window() == idle(),
            emitted(
                old(self).rule(),
                old(self).readings(),
                old(out)@,
                final(self).readings(),
                final(out)@,
                end_answer(
                    old(self).script(),
                    control::first_of(control::owned_text(call_id), old(self).window().call),
                    control::first_of(control::owned_text(tool), old(self).window().tool),
                ),
            ),
    {
        let call_id: Option<String> = if call_id.is_some() {
            call_id
        } else {
            control::copy_of(&self.active_call)
        };
        // End marks carry only the call_id, so fall back to the tool
        // remembered from the matching begin mark for tool filtering.
        let tool: Option<String> = if tool.is_some() {
            tool
        } else {
            control::copy_of(&self.active_tool)
        };
        let id: Option<&str> = control::as_deref(&call_id);
        // Trailing grace window: end-triggered events are still attributed to
        // the call that just ended.
        self.fire(out, "end", control::as_deref(&tool), "call", id);
        let ghost readings1 = self.readings();
        let ghost out1 = out@;
        self.emit_status(out, "call", id, "end");
        proof {
            let call = control::owned_text(call_id);
            lemma_emitted_more(
                old(self).rule(),
                old(self).readings(),
                old(out)@,
                readings1,
                out1,
                fired(old(self).script(), "end"@, control::owned_text(tool), "call"@, call),
                self.readings(),
                out@,
                prepared(status("end"@), "call"@, call),
            );
        }
        self.active_call = None;
        self.active_tool = None;
    }

    /// Handle one control line. Returns `false` to stop the loop.
    pub fn handle_line<P: Fn(&str) -> Result<Control, String>>(
        &mut self,
        line: &str,
        parse: &P,
        out: &mut Vec<String>,
    ) -> (more: bool)
        requires
            forall|t: &str| call_requires(*parse, (t,)),
        ensures
            final(self).script() == old(self).script(),
            final(self).grace_ms() == old(self).grace_ms(),
            final(self).rule() == old(self).rule(),
            exists|message: Option<Result<Control, String>>| #[trigger]
                control::reads_as(*parse, line@, message) && more == line_goes_on(message)
                    && final(self).window() == window_after_line(old(self).window(), message)
                    && emitted(
                    old(self).rule(),
                    old(self).readings(),
                    old(out)@,
                    final(self).readings(),
                    final(out)@,
                    line_answer(old(self).script(), old(self).window(), message),
                ),
    {
        let message = control::read_line(line, parse);
        assert(control::reads_as(*parse, line@, message));
        match message {
            None => {
                proof {
                    lemma_emitted_none(self.rule(), self.readings(), out@);
                }
                true
            },
            Some(message) => self.handle_control(message, out),
        }
    }
}

/// What the sidecar says to a line: nothing where it is blank.
pub open spec fn line_answer(
    script: Seq<ScriptEntry>,
    window: Window,
    message: Option<Result<Control, String>>,
) -> Seq<Fields> {
    match message {
        Some(m) => answer(script, window, m),
        None => Seq::empty(),
    }
}

/// The call that is open after a line.
pub open spec fn window_after_line(
    window: Window,
    message: Option<Result<Control, String>>,
) -> Window {
    match message {
        Some(m) => next_window(window, m),
        None => window,
    }
}

/// Whether the sidecar goes on reading after a line.
pub open spec fn line_goes_on(message: Option<Result<Control, String>>) -> bool {
    match message {
        Some(m) => goes_on(m),
        None => true,
    }
}

fn status_object(message: &str) -> (object: Object)
    ensures
        json::fields(object) == status(message@),
{
    let mut object = json::new_object();
    json::insert_text(&mut object, "type", "status");
    json::insert_text(&mut object, "message", message);
    object
}

fn is_selected(entry: &ScriptEntry, trigger: &str, tool: Option<&str>) -> (selected: bool)
    ensures
        selected == selects(*entry, trigger@, control::borrowed_text(tool)),
{
    text::same(entry.trigger.as_str(), trigger) && match &entry.tool {
        Some(want) => match tool {
            Some(have) => text::same(want.as_str(), have),
            None => false,
        },
        None => true,
    }
}

/// Parse an events file, with a parser for each of its two shapes: an object
/// that holds the list, and the bare list. The first that fits is taken; where
/// neither does, the error is that of the bare list.
pub fn parse_script<E, F, L>(text: &str, as_file: &F, as_list: &L) -> (script: Result<
    Vec<ScriptEntry>,
    E,
>) where F: Fn(&str) -> Result<Vec<ScriptEntry>, E>, L: Fn(&str) -> Result<Vec<ScriptEntry>, E>
    requires
        call_requires(*as_file, (text,)),
        call_requires(*as_list, (text,)),
    ensures
        reads_script(*as_file, *as_list, text, script),
{
    let file = as_file(text);
    assert(call_ensures(*as_file, (text,), file));
    match file {
        Ok(script) => Ok(script),
        Err(_) => as_list(text),
    }
}

/// Whether `script` is what an events file holds to these two parsers.
pub open spec fn reads_script<E, F, L>(
    as_file: F,
    as_list: L,
    text: &str,
    script: Result<Vec<ScriptEntry>, E>,
) -> bool where F: Fn(&str) -> Result<Vec<ScriptEntry>, E>, L: Fn(&str) -> Result<Vec<ScriptEntry>, E> {
    ||| script is Ok && call_ensures(as_file, (text,), script)
    ||| call_ensures(as_list, (text,), script) && exists|error: E|
        #[trigger] call_ensures(as_file, (text,), Err::<Vec<ScriptEntry>, E>(error))
}

/// The outcome of reading an events file: its path, and its text or the text
/// of the error.
pub struct EventsFile {
    pub path: String,
    pub content: Result<String, String>,
}

/// Loads the script to replay: the events file, where one is given, or an
/// empty script.
pub fn load_script<F, L>(source: Option<EventsFile>, as_file: &F, as_list: &L) -> (script: Result<
    Vec<ScriptEntry>,
    cli::Failure,
>) where
    F: Fn(&str) -> Result<Vec<ScriptEntry>, String>,
    L: Fn(&str) -> Result<Vec<ScriptEntry>, String>,

    requires
        forall|t: &str| call_requires(*as_file, (t,)),
        forall|t: &str| call_requires(*as_list, (t,)),
    ensures
        loads(source, *as_file, *as_list, script),
{
    let file = match source {
        Some(file) => file,
        None => {
            return Ok(Vec::new());
        },
    };
    let content: String = match file.content {
        Ok(content) => content,
        Err(error) => {
            return Err(
                cli::events_file_failure(
                    "failed to read events file '",
                    file.path.as_str(),
                    error.as_str(),
                ),
            );
        },
    };
    let text: &str = content.as_str();
    let parsed = parse_script(text, as_file, as_list);
    assert(reads_script(*as_file, *as_list, text, parsed));
    match parsed {
        Ok(script) => Ok(script),
        Err(error) => Err(
            cli::events_file_failure(
                "failed to parse events file '",
                file.path.as_str(),
                error.as_str(),
            ),
        ),
    }
}

/// Whether a failure says this of an events file, with the exit code for it.
pub open spec fn says_of_file(
    failure: cli::Failure,
    lead: Seq<char>,
    path: Seq<char>,
    error: Seq<char>,
) -> bool {
    &&& failure.code == 2
    &&& cli::texts(failure.lines@) == seq![
        cli::named(cli::events_file_message(lead, path, error)),
    ]
}

/// Whether `script` is what a source of events comes to.
pub open spec fn loads<F, L>(
    source: Option<EventsFile>,
    as_file: F,
    as_list: L,
    script: Result<Vec<ScriptEntry>, cli::Failure>,
) -> bool where
    F: Fn(&str) -> Result<Vec<ScriptEntry>, String>,
    L: Fn(&str) -> Result<Vec<ScriptEntry>, String>,
 {
    match source {
        None => script matches Ok(entries) && entries@.len() == 0,
        Some(file) => match file.content {
            Err(error) => script matches Err(failure) && says_of_file(
                failure,
                "failed to read events file '"@,
                file.path@,
                error@,
            ),
            Ok(content) => exists|text: &str, parsed: Result<Vec<ScriptEntry>, String>|
                text@ == content@ && #[trigger] reads_script(as_file, as_list, text, parsed)
                    && match parsed {
                    Ok(entries) => script == Ok::<Vec<ScriptEntry>, cli::Failure>(entries),
                    Err(error) => script matches Err(failure) && says_of_file(
                        failure,
                        "failed to parse events file '"@,
                        file.path@,
                        error@,
                    ),
                },
        },
    }
}

/// What is said to these lines, the first of them in this window.
pub open spec fn session_answer(
    script: Seq<ScriptEntry>,
    window: Window,
    messages: Seq<Option<Result<Control, String>>>,
) -> Seq<Fields>
    decreases messages.len(),
{
    if messages.len() == 0 {
        Seq::empty()
    } else {
        let before = messages.drop_last();
        session_answer(script, window, before) + line_answer(
            script,
            session_window(window, before),
            messages.last(),
        )
    }
}

/// The call that is open after these lines.
pub open spec fn session_window(
    window: Window,
    messages: Seq<Option<Result<Control, String>>>,
) -> Window
    decreases messages.len(),
{
    if messages.len() == 0 {
        window
    } else {
        window_after_line(session_window(window, messages.drop_last()), messages.last())
    }
}

/// Whether `messages` are what a backend hears of these lines: each read by
/// the parser, up to the first that stops it.
pub open spec fn heard<P: Fn(&str) -> Result<Control, String>>(
    parse: P,
    lines: Seq<String>,
    messages: Seq<Option<Result<Control, String>>>,
) -> bool {
    &&& messages.len() <= lines.len()
    &&& forall|i: int|
        0 <= i < messages.len() ==> control::reads_as(parse, lines[i]@, #[trigger] messages[i])
    &&& forall|i: int| 0 <= i < messages.len() - 1 ==> line_goes_on(#[trigger] messages[i])
    &&& messages.len() < lines.len() ==> messages.len() > 0 && !line_goes_on(messages.last())
}

/// Drive the fake backend over a whole control input, line by line. Gives back
/// the backend as the input leaves it.
pub fn run<C: Clock, P: Fn(&str) -> Result<Control, String>>(
    backend: FakeBackend<C>,
    lines: &Vec<String>,
    parse: &P,
    out: &mut Vec<String>,
) -> (end: FakeBackend<C>)
    requires
        forall|t: &str| call_requires(*parse, (t,)),
    ensures
        end.script() == backend.script(),
        end.grace_ms() == backend.grace_ms(),
        end.rule() == backend.rule(),
        exists|messages: Seq<Option<Result<Control, String>>>| #[trigger]
            heard(*parse, lines@, messages) && end.window() == session_window(
                backend.window(),
                messages,
            ) && emitted(
                backend.rule(),
                backend.readings(),
                old(out)@,
                end.readings(),
                final(out)@,
                greeting(backend.script(), backend.grace_ms()) + session_answer(
                    backend.script(),
                    backend.window(),
                    messages,
                ),
            ),
{
    let ghost start = backend;
    let ghost script = backend.script();
    let ghost hello = greeting(script, backend.grace_ms());
    let ghost mut messages: Seq<Option<Result<Control, String>>> = Seq::empty();
    let mut backend = backend;
    backend.on_start(out);
    assert(hello + session_answer(script, start.window(), messages) =~= hello);
    let mut more: bool = true;
    let mut i: usize = 0;
    while more && i < lines.len()
        invariant
            forall|t: &str| call_requires(*parse, (t,)),
            0 <= i <= lines@.len(),
            messages.len() == i,
            forall|j: int|
                0 <= j < i ==> control::reads_as(*parse, lines@[j]@, #[trigger] messages[j]),
            forall|j: int| 0 <= j < i - 1 ==> line_goes_on(#[trigger] messages[j]),
            more == (i == 0 || line_goes_on(messages[i - 1])),
            script == start.script(),
            hello == greeting(script, start.grace_ms()),
            backend.script() == script,
            backend.grace_ms() == start.grace_ms(),
            backend.rule() == start.rule(),
            backend.window() == session_window(start.window(), messages),
            emitted(
                start.rule(),
                start.readings(),
                old(out)@,
                backend.readings(),
                out@,
                hello + session_answer(script, start.window(), messages),
            ),
        decreases lines@.len() - i,
    {
        let ghost readings1 = backend.readings();
        let ghost out1 = out@;
        let ghost window1 = backend.window();
        let ghost before = messages;
        more = backend.handle_line(lines[i].as_str(), parse, out);
        proof {
            let message = choose|message: Option<Result<Control, String>>| #[trigger]
                control::reads_as(*parse, lines@[i as int]@, message) && more == line_goes_on(
                    message,
                ) && backend.window() == window_after_line(window1, message) && emitted(
                    start.rule(),
                    readings1,
                    out1,
                    backend.readings(),
                    out@,
                    line_answer(script, window1, message),
                );
            messages = messages.push(message);
            assert(messages.drop_last() =~= before);
            let said = session_answer(script, start.window(), before);
            let answer = line_answer(script, window1, message);
            lemma_emitted_more(
                start.rule(),
                start.readings(),
                old(out)@,
                readings1,
                out1,
                hello + said,
                backend.readings(),
                out@,
                answer,
            );
            assert(hello + said + answer =~= hello + (said + answer));
        }
        i += 1;
    }
    assert(heard(*parse, lines@, messages));
    backend
}

} // verus!
