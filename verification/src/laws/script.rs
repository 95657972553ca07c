//! The replayed script: what is put out, in which bucket, for which call.

use vstd::prelude::*;

use crate::clock;
use crate::control;
use crate::control::Control;
use crate::fake;
use crate::fake::{ScriptEntry, Window};
use crate::json;
use crate::json::{Field, Fields};

verus! {

proof fn lemma_member_names()
    ensures
        "type"@ != "bucket"@,
        "type"@ != "call_id"@,
        "bucket"@ != "call_id"@,
        "bucket"@ != "message"@,
        "call_id"@ != "message"@,
{
    reveal_strlit("type");
    reveal_strlit("bucket");
    reveal_strlit("call_id");
    reveal_strlit("message");
    assert("type"@.len() == 4 && "bucket"@.len() == 6 && "call_id"@.len() == 7 && "message"@.len()
        == 7);
    assert("call_id"@[0] != "message"@[0]);
}

pub(crate) proof fn lemma_mark_phases()
    ensures
        "begin"@ != "end"@,
{
    reveal_strlit("begin");
    reveal_strlit("end");
    assert("begin"@.len() != "end"@.len());
}

/// An event passes through as it is: each of its members stays, and at most a
/// bucket and a call are added, only where it has none of its own.
pub proof fn law_event_passes_through(event: Fields, bucket: Seq<char>, call: Option<Seq<char>>)
    ensures
        ({
            let message = fake::filled(event, bucket, call);
            &&& forall|key: Seq<char>| #[trigger]
                event.contains_key(key) ==> message.contains_key(key) && message[key] == event[key]
            &&& forall|key: Seq<char>| #[trigger]
                message.contains_key(key) ==> event.contains_key(key) || key == "bucket"@ || key
                    == "call_id"@
            &&& message.contains_key("bucket"@)
            &&& !event.contains_key("bucket"@) ==> message["bucket"@] == Field::Text(bucket)
            &&& !event.contains_key("call_id"@) ==> match call {
                Some(id) => message.contains_key("call_id"@) && message["call_id"@] == Field::Text(
                    id,
                ),
                None => !message.contains_key("call_id"@),
            }
        }),
{
    lemma_member_names();
}

/// A timestamp that an event came with makes no difference: the clock reading
/// takes its place.
pub proof fn law_stamp_replaces_timestamp(message: Fields, stamp: u128)
    ensures
        forall|earlier: Field| #[trigger]
            json::line_text(message.insert("ts_ns"@, earlier), stamp) == json::line_text(
                message,
                stamp,
            ),
{
    assert forall|earlier: Field| #[trigger]
        json::line_text(message.insert("ts_ns"@, earlier), stamp) == json::line_text(
            message,
            stamp,
        ) by {
        let set = Field::Int(stamp as u64 as int);
        assert(message.insert("ts_ns"@, earlier).insert("ts_ns"@, set) =~= message.insert(
            "ts_ns"@,
            set,
        ));
    }
}

/// Whether a message can stand in the protocol: it says its type and bucket.
pub open spec fn complete(message: Fields) -> bool {
    message.contains_key("type"@) && message.contains_key("bucket"@)
}

/// Whether all of them can.
pub open spec fn all_complete(messages: Seq<Fields>) -> bool {
    forall|i: int| 0 <= i < messages.len() ==> complete(#[trigger] messages[i])
}

proof fn lemma_prepared_complete(event: Fields, bucket: Seq<char>, call: Option<Seq<char>>)
    ensures
        all_complete(fake::prepared(event, bucket, call)),
{
    law_event_passes_through(event, bucket, call);
}

proof fn lemma_fired_complete(
    script: Seq<ScriptEntry>,
    trigger: Seq<char>,
    tool: Option<Seq<char>>,
    bucket: Seq<char>,
    call: Option<Seq<char>>,
)
    ensures
        all_complete(fake::fired(script, trigger, tool, bucket, call)),
    decreases script.len(),
{
    if script.len() > 0 {
        lemma_fired_complete(script.drop_last(), trigger, tool, bucket, call);
        lemma_prepared_complete(json::fields(script.last().event), bucket, call);
    }
}

/// Every message that is put out says its type and bucket, whatever the script
/// and the control input hold.
pub proof fn law_messages_are_complete(
    script: Seq<ScriptEntry>,
    grace_ms: u64,
    window: Window,
    message: Result<Control, String>,
)
    ensures
        all_complete(fake::greeting(script, grace_ms)),
        all_complete(fake::answer(script, window, message)),
{
    let ready = fake::status("ready"@).insert("backend"@, Field::Text("fake"@)).insert(
        "grace_ms"@,
        Field::Int(grace_ms as int),
    );
    lemma_prepared_complete(ready, "startup"@, None);
    lemma_fired_complete(script, "startup"@, None, "startup"@, None);
    match message {
        Err(error) => lemma_prepared_complete(
            fake::status("parse_error"@).insert("error"@, Field::Text(error@)),
            "ambient"@,
            None,
        ),
        Ok(Control::Scope { pgid, generation }) => {
            let scope = fake::status("scope"@).insert("pgid"@, Field::Int(pgid as int)).insert(
                "generation"@,
                Field::Int(generation as int),
            );
            lemma_prepared_complete(scope, "ambient"@, None);
            lemma_fired_complete(script, "scope"@, None, "ambient"@, None);
        },
        Ok(Control::Mark { phase, call_id, tool }) => {
            let call = control::owned_text(call_id);
            let have = control::owned_text(tool);
            let ended = control::first_of(call, window.call);
            let of_tool = control::first_of(have, window.tool);
            lemma_prepared_complete(fake::status("begin"@), "call"@, call);
            lemma_fired_complete(script, "begin"@, have, "call"@, call);
            lemma_prepared_complete(fake::status("end"@), "call"@, ended);
            lemma_fired_complete(script, "end"@, of_tool, "call"@, ended);
            lemma_prepared_complete(
                fake::status("unknown_phase"@).insert("phase"@, Field::Text(phase@)),
                "ambient"@,
                None,
            );
        },
        Ok(Control::Shutdown) => {},
    }
}

/// What fires is, in script order, each entry whose trigger and tool fit and
/// whose event says its type; every other entry is silent.
pub proof fn law_fired_entries(
    script: Seq<ScriptEntry>,
    trigger: Seq<char>,
    tool: Option<Seq<char>>,
    bucket: Seq<char>,
    call: Option<Seq<char>>,
)
    ensures
        fake::fired(script, trigger, tool, bucket, call) == script.filter(
            |entry: ScriptEntry|
                fake::selects(entry, trigger, tool) && json::fields(entry.event).contains_key(
                    "type"@,
                ),
        ).map_values(
            |entry: ScriptEntry| fake::filled(json::fields(entry.event), bucket, call),
        ),
    decreases script.len(),
{
    let usable = |entry: ScriptEntry|
        fake::selects(entry, trigger, tool) && json::fields(entry.event).contains_key("type"@);
    let fill = |entry: ScriptEntry| fake::filled(json::fields(entry.event), bucket, call);
    reveal(Seq::filter);
    if script.len() == 0 {
        assert(script.filter(usable).map_values(fill) =~= Seq::empty());
    } else {
        law_fired_entries(script.drop_last(), trigger, tool, bucket, call);
        let before = script.drop_last().filter(usable);
        if usable(script.last()) {
            assert(script.filter(usable) =~= before.push(script.last()));
            assert(before.push(script.last()).map_values(fill) =~= before.map_values(fill).push(
                fill(script.last()),
            ));
        }
        assert(fake::fired(script, trigger, tool, bucket, call) =~= script.filter(
            usable,
        ).map_values(fill));
    }
}

/// An entry for a tool fires on no mark of another tool, and on no mark
/// without one.
pub proof fn law_tool_filter(entry: ScriptEntry, trigger: Seq<char>, tool: Option<Seq<char>>)
    requires
        entry.tool is Some,
        tool != control::owned_text(entry.tool),
    ensures
        !fake::selects(entry, trigger, tool),
{
}

/// A begin mark says the call, and everything that it fires without a bucket
/// and a call of its own is in bucket `call`, attributed to that call.
pub proof fn law_begin_attributes(
    script: Seq<ScriptEntry>,
    window: Window,
    mark: Control,
    id: Seq<char>,
    entry: ScriptEntry,
)
    requires
        mark matches Control::Mark { phase, call_id, .. } && phase@ == "begin"@
            && control::owned_text(call_id) == Some(id),
        script.contains(entry),
        fake::selects(entry, "begin"@, control::owned_text(mark->tool)),
        json::fields(entry.event).contains_key("type"@),
        !json::fields(entry.event).contains_key("bucket"@),
        !json::fields(entry.event).contains_key("call_id"@),
    ensures
        fake::next_window(window, Ok(mark)).call == Some(id),
        exists|i: int|
            0 <= i < fake::answer(script, window, Ok(mark)).len() && #[trigger] fake::answer(
                script,
                window,
                Ok(mark),
            )[i] == json::fields(entry.event).insert("bucket"@, Field::Text("call"@)).insert(
                "call_id"@,
                Field::Text(id),
            ),
{
    lemma_member_names();
    let have = control::owned_text(mark->tool);
    let said = fake::prepared(fake::status("begin"@), "call"@, Some(id));
    let events = fake::fired(script, "begin"@, have, "call"@, Some(id));
    lemma_fired_contains(script, "begin"@, have, "call"@, Some(id), entry);
    let k = choose|k: int|
        0 <= k < events.len() && #[trigger] events[k] == fake::filled(
            json::fields(entry.event),
            "call"@,
            Some(id),
        );
    assert((said + events)[said.len() + k] == events[k]);
    assert(fake::answer(script, window, Ok(mark)) == said + events);
}

/// Everything that an end mark fires without a bucket and a call of its own is
/// still in bucket `call`, attributed to the call that ends: the one the mark
/// names, else the open one.
pub proof fn law_end_attributes(
    script: Seq<ScriptEntry>,
    window: Window,
    mark: Control,
    id: Seq<char>,
    entry: ScriptEntry,
)
    requires
        mark matches Control::Mark { phase, call_id, .. } && phase@ == "end"@ && control::first_of(
            control::owned_text(call_id),
            window.call,
        ) == Some(id),
        script.contains(entry),
        fake::selects(
            entry,
            "end"@,
            control::first_of(control::owned_text(mark->tool), window.tool),
        ),
        json::fields(entry.event).contains_key("type"@),
        !json::fields(entry.event).contains_key("bucket"@),
        !json::fields(entry.event).contains_key("call_id"@),
    ensures
        fake::next_window(window, Ok(mark)) == fake::idle(),
        exists|i: int|
            0 <= i < fake::answer(script, window, Ok(mark)).len() && #[trigger] fake::answer(
                script,
                window,
                Ok(mark),
            )[i] == json::fields(entry.event).insert("bucket"@, Field::Text("call"@)).insert(
                "call_id"@,
                Field::Text(id),
            ),
{
    lemma_member_names();
    lemma_mark_phases();
    let of_tool = control::first_of(control::owned_text(mark->tool), window.tool);
    let events = fake::fired(script, "end"@, of_tool, "call"@, Some(id));
    let said = fake::prepared(fake::status("end"@), "call"@, Some(id));
    lemma_fired_contains(script, "end"@, of_tool, "call"@, Some(id), entry);
    let k = choose|k: int|
        0 <= k < events.len() && #[trigger] events[k] == fake::filled(
            json::fields(entry.event),
            "call"@,
            Some(id),
        );
    assert((events + said)[k] == events[k]);
    assert(fake::answer(script, window, Ok(mark)) == events + said);
}

proof fn lemma_fired_contains(
    script: Seq<ScriptEntry>,
    trigger: Seq<char>,
    tool: Option<Seq<char>>,
    bucket: Seq<char>,
    call: Option<Seq<char>>,
    entry: ScriptEntry,
)
    requires
        script.contains(entry),
        fake::selects(entry, trigger, tool),
        json::fields(entry.event).contains_key("type"@),
    ensures
        exists|i: int|
            0 <= i < fake::fired(script, trigger, tool, bucket, call).len()
                && #[trigger] fake::fired(script, trigger, tool, bucket, call)[i] == fake::filled(
                json::fields(entry.event),
                bucket,
                call,
            ),
    decreases script.len(),
{
    let all = fake::fired(script, trigger, tool, bucket, call);
    let before = fake::fired(script.drop_last(), trigger, tool, bucket, call);
    if script.last() == entry {
        assert(all[before.len() as int] == fake::filled(json::fields(entry.event), bucket, call));
    } else {
        let at = choose|at: int| 0 <= at < script.len() && script[at] == entry;
        assert(script.drop_last()[at] == entry);
        lemma_fired_contains(script.drop_last(), trigger, tool, bucket, call, entry);
        let k = choose|k: int|
            0 <= k < before.len() && #[trigger] before[k] == fake::filled(
                json::fields(entry.event),
                bucket,
                call,
            );
        assert(all[k] == before[k]);
    }
}

/// What fires for no call names one only where the event itself does: so it is
/// at the start and when a scope is set.
pub proof fn law_outside_calls_names_none(
    script: Seq<ScriptEntry>,
    trigger: Seq<char>,
    bucket: Seq<char>,
    i: int,
)
    requires
        0 <= i < fake::fired(script, trigger, None, bucket, None).len(),
        fake::fired(script, trigger, None, bucket, None)[i].contains_key("call_id"@),
    ensures
        exists|k: int|
            0 <= k < script.len() && json::fields((#[trigger] script[k]).event).contains_key(
                "call_id"@,
            ) && fake::fired(script, trigger, None, bucket, None)[i] == fake::filled(
                json::fields(script[k].event),
                bucket,
                None,
            ),
    decreases script.len(),
{
    lemma_member_names();
    let before = fake::fired(script.drop_last(), trigger, None, bucket, None);
    if i < before.len() {
        law_outside_calls_names_none(script.drop_last(), trigger, bucket, i);
        let k = choose|k: int|
            0 <= k < script.drop_last().len() && json::fields(
                (#[trigger] script.drop_last()[k]).event,
            ).contains_key("call_id"@) && before[i] == fake::filled(
                json::fields(script.drop_last()[k].event),
                bucket,
                None,
            );
        assert(script[k] == script.drop_last()[k]);
    } else {
        assert(script[script.len() - 1] == script.last());
    }
}

/// A begin mark opens the window of its call, an end mark closes it, and no
/// other input moves it.
pub proof fn law_window(window: Window, message: Option<Result<Control, String>>)
    ensures
        message matches Some(Ok(Control::Mark { phase, call_id, tool })) ==> {
            &&& phase@ == "begin"@ ==> fake::window_after_line(window, message) == (Window {
                call: control::owned_text(call_id),
                tool: control::owned_text(tool),
            })
            &&& phase@ == "end"@ ==> fake::window_after_line(window, message) == fake::idle()
        },
        !(message matches Some(Ok(Control::Mark { phase, .. })) && (phase@ == "begin"@ || phase@
            == "end"@)) ==> fake::window_after_line(window, message) == window,
{
    lemma_mark_phases();
}

/// An end mark that leaves out the call and the tool is answered as one that
/// names those of the open call.
pub proof fn law_end_mark_falls_back(
    script: Seq<ScriptEntry>,
    window: Window,
    bare: Control,
    full: Control,
)
    requires
        bare matches Control::Mark { phase, call_id, tool } && phase@ == "end"@ && call_id is None
            && tool is None,
        full matches Control::Mark { phase, call_id, tool } && phase@ == "end"@
            && control::owned_text(call_id) == window.call && control::owned_text(tool)
            == window.tool,
    ensures
        fake::answer(script, window, Ok(bare)) == fake::answer(script, window, Ok(full)),
        fake::next_window(window, Ok(bare)) == fake::next_window(window, Ok(full)),
{
    lemma_mark_phases();
}

/// A line that holds no control message is reported, with the text of the
/// error, and the sidecar goes on as before.
pub proof fn law_malformed_line_is_reported(
    script: Seq<ScriptEntry>,
    window: Window,
    error: String,
)
    ensures
        fake::answer(script, window, Err(error)).len() == 1,
        ({
            let said = fake::answer(script, window, Err(error))[0];
            &&& said["type"@] == Field::Text("status"@)
            &&& said["message"@] == Field::Text("parse_error"@)
            &&& said["error"@] == Field::Text(error@)
            &&& said["bucket"@] == Field::Text("ambient"@)
        }),
        fake::next_window(window, Err(error)) == window,
        fake::goes_on(Err(error)),
{
    lemma_member_names();
    reveal_strlit("type");
    reveal_strlit("message");
    reveal_strlit("error");
    reveal_strlit("bucket");
    assert("type"@.len() == 4 && "message"@.len() == 7 && "error"@.len() == 5 && "bucket"@.len()
        == 6);
}

/// A shutdown stops the sidecar without a word; nothing else stops it.
pub proof fn law_only_shutdown_stops(
    script: Seq<ScriptEntry>,
    window: Window,
    message: Result<Control, String>,
)
    ensures
        !fake::goes_on(message) <==> message == Ok::<Control, String>(Control::Shutdown),
        !fake::goes_on(message) ==> fake::answer(script, window, message).len() == 0,
{
}

/// Lines that come in two parts are answered as the first part and then, from
/// the window it leaves, the second: handling line by line gives what handling
/// the whole input gives.
pub proof fn law_sessions_compose(
    script: Seq<ScriptEntry>,
    window: Window,
    first: Seq<Option<Result<Control, String>>>,
    second: Seq<Option<Result<Control, String>>>,
)
    ensures
        fake::session_window(window, first + second) == fake::session_window(
            fake::session_window(window, first),
            second,
        ),
        fake::session_answer(script, window, first + second) == fake::session_answer(
            script,
            window,
            first,
        ) + fake::session_answer(script, fake::session_window(window, first), second),
    decreases second.len(),
{
    let all = first + second;
    if second.len() == 0 {
        assert(all =~= first);
        assert(fake::session_answer(script, window, all) =~= fake::session_answer(
            script,
            window,
            first,
        ) + Seq::<Fields>::empty());
    } else {
        assert(all.drop_last() =~= first + second.drop_last());
        assert(all.last() == second.last());
        law_sessions_compose(script, window, first, second.drop_last());
        let middle = fake::session_window(window, first);
        let a = fake::session_answer(script, window, first);
        let b = fake::session_answer(script, middle, second.drop_last());
        let c = fake::line_answer(
            script,
            fake::session_window(middle, second.drop_last()),
            second.last(),
        );
        assert(a + b + c =~= a + (b + c));
    }
}

/// Between a begin mark and an end mark, whatever else comes that is neither,
/// the call stays open. The end mark is answered for it, unless it names
/// another, and after it no call is open.
pub proof fn law_call_window(
    script: Seq<ScriptEntry>,
    window: Window,
    begin: Control,
    between: Seq<Option<Result<Control, String>>>,
    end: Control,
)
    requires
        begin matches Control::Mark { phase, .. } && phase@ == "begin"@,
        end matches Control::Mark { phase, .. } && phase@ == "end"@,
        forall|i: int|
            0 <= i < between.len() ==> !((#[trigger] between[i]) matches Some(
                Ok(Control::Mark { phase, .. }),
            ) && (phase@ == "begin"@ || phase@ == "end"@)),
    ensures
        ({
            let opened = seq![Some(Ok::<Control, String>(begin))] + between;
            let call = control::owned_text(begin->call_id);
            let tool = control::owned_text(begin->tool);
            &&& fake::session_window(window, opened) == (Window { call, tool })
            &&& fake::line_answer(
                script,
                fake::session_window(window, opened),
                Some(Ok(end)),
            ) == fake::end_answer(
                script,
                control::first_of(control::owned_text(end->call_id), call),
                control::first_of(control::owned_text(end->tool), tool),
            )
            &&& fake::session_window(window, opened.push(Some(Ok(end)))) == fake::idle()
        }),
    decreases between.len(),
{
    lemma_mark_phases();
    let opened = seq![Some(Ok::<Control, String>(begin))] + between;
    assert(opened.push(Some(Ok(end))).drop_last() =~= opened);
    if between.len() == 0 {
        assert(opened.drop_last() =~= Seq::empty());
        assert(opened.last() == Some(Ok::<Control, String>(begin)));
        assert(fake::session_window(window, opened.drop_last()) == window);
    } else {
        let before = between.drop_last();
        assert(opened.drop_last() =~= seq![Some(Ok::<Control, String>(begin))] + before);
        assert(opened.last() == between[between.len() - 1]);
        assert forall|i: int| 0 <= i < before.len() implies !((#[trigger] before[i]) matches Some(
            Ok(Control::Mark { phase, .. }),
        ) && (phase@ == "begin"@ || phase@ == "end"@)) by {
            assert(before[i] == between[i]);
        }
        law_call_window(script, window, begin, before, end);
    }
}

/// An event that an entry fires at the start is in bucket `startup`, one that
/// it fires when a scope is set in bucket `ambient`, neither for a call, unless
/// the event itself says otherwise.
pub proof fn law_startup_and_scope_buckets(
    script: Seq<ScriptEntry>,
    grace_ms: u64,
    window: Window,
    scope: Control,
    entry: ScriptEntry,
)
    requires
        scope is Scope,
        script.contains(entry),
        entry.tool is None,
        json::fields(entry.event).contains_key("type"@),
        !json::fields(entry.event).contains_key("bucket"@),
    ensures
        entry.trigger@ == "startup"@ ==> exists|i: int|
            0 <= i < fake::greeting(script, grace_ms).len() && #[trigger] fake::greeting(
                script,
                grace_ms,
            )[i] == json::fields(entry.event).insert("bucket"@, Field::Text("startup"@)),
        entry.trigger@ == "scope"@ ==> exists|i: int|
            0 <= i < fake::answer(script, window, Ok(scope)).len() && #[trigger] fake::answer(
                script,
                window,
                Ok(scope),
            )[i] == json::fields(entry.event).insert("bucket"@, Field::Text("ambient"@)),
{
    let event = json::fields(entry.event);
    if entry.trigger@ == "startup"@ {
        let said = fake::greeting(script, grace_ms);
        let events = fake::fired(script, "startup"@, None, "startup"@, None);
        lemma_fired_contains(script, "startup"@, None, "startup"@, None, entry);
        let k = choose|k: int|
            0 <= k < events.len() && #[trigger] events[k] == fake::filled(event, "startup"@, None);
        assert(said[said.len() - events.len() + k] == events[k]);
    }
    if entry.trigger@ == "scope"@ {
        let said = fake::answer(script, window, Ok(scope));
        let events = fake::fired(script, "scope"@, None, "ambient"@, None);
        lemma_fired_contains(script, "scope"@, None, "ambient"@, None, entry);
        let k = choose|k: int|
            0 <= k < events.len() && #[trigger] events[k] == fake::filled(event, "ambient"@, None);
        assert(said[said.len() - events.len() + k] == events[k]);
    }
}

/// With a clock that counts, what is put out is determined: the messages carry
/// consecutive numbers.
pub proof fn law_counting_clock_is_deterministic(
    from: u128,
    readings: Seq<u128>,
    out: Seq<String>,
    new_readings: Seq<u128>,
    new_out: Seq<String>,
    messages: Seq<Fields>,
)
    requires
        fake::emitted(
            clock::counting_rule(from),
            readings,
            out,
            new_readings,
            new_out,
            messages,
        ),
    ensures
        fake::texts(new_out) == fake::texts(out) + Seq::new(
            messages.len(),
            |i: int|
                json::line_text(
                    messages[i],
                    clock::counted(from, (readings.len() + i + 1) as nat),
                ),
        ),
{
    let n = readings.len() as int;
    let stamps = new_readings.skip(n);
    assert forall|i: int| 0 <= i < messages.len() implies #[trigger] stamps[i] == clock::counted(
        from,
        (n + i + 1) as nat,
    ) by {
        assert(clock::counting_rule(from)(new_readings.take(n + i), new_readings[n + i]));
    }
    assert(fake::texts(new_out) =~= fake::texts(out) + Seq::new(
        messages.len(),
        |i: int|
            json::line_text(messages[i], clock::counted(from, (readings.len() + i + 1) as nat)),
    ));
}

/// Whether two lines are made of one message and differ at most in their
/// timestamps.
pub open spec fn alike(line: Seq<char>, other: Seq<char>) -> bool {
    exists|message: Fields, stamp: u128, other_stamp: u128|
        line == #[trigger] json::line_text(message, stamp) && other == #[trigger] json::line_text(
            message,
            other_stamp,
        )
}

/// Whether the lines put out at two moments, from `out` to `new_out` and from
/// `other` to `new_other`, are as many and in order alike but for their
/// timestamps.
pub open spec fn alike_but_for_stamps(
    out: Seq<String>,
    new_out: Seq<String>,
    other: Seq<String>,
    new_other: Seq<String>,
) -> bool {
    &&& new_out.len() - out.len() == new_other.len() - other.len()
    &&& forall|i: int|
        0 <= i < new_out.len() - out.len() ==> #[trigger] alike(
            new_out[out.len() + i]@,
            new_other[other.len() + i]@,
        )
}

/// The same messages put out at two moments, on the same clock or another, are
/// alike but for their timestamps.
pub proof fn law_same_messages_alike(
    rule: spec_fn(Seq<u128>, u128) -> bool,
    readings: Seq<u128>,
    out: Seq<String>,
    new_readings: Seq<u128>,
    new_out: Seq<String>,
    other_rule: spec_fn(Seq<u128>, u128) -> bool,
    other_readings: Seq<u128>,
    other: Seq<String>,
    new_other_readings: Seq<u128>,
    new_other: Seq<String>,
    messages: Seq<Fields>,
)
    requires
        fake::emitted(rule, readings, out, new_readings, new_out, messages),
        fake::emitted(
            other_rule,
            other_readings,
            other,
            new_other_readings,
            new_other,
            messages,
        ),
    ensures
        alike_but_for_stamps(out, new_out, other, new_other),
{
    let stamps = new_readings.skip(readings.len() as int);
    let later = new_other_readings.skip(other_readings.len() as int);
    assert(fake::texts(new_out).len() == new_out.len() && fake::texts(out).len() == out.len());
    assert(fake::texts(new_other).len() == new_other.len() && fake::texts(other).len()
        == other.len());
    assert forall|i: int| 0 <= i < new_out.len() - out.len() implies #[trigger] alike(
        new_out[out.len() + i]@,
        new_other[other.len() + i]@,
    ) by {
        assert(new_out[out.len() + i]@ == fake::texts(new_out)[out.len() + i]);
        assert(new_out[out.len() + i]@ == json::line_text(messages[i], stamps[i]));
        assert(new_other[other.len() + i]@ == fake::texts(new_other)[other.len() + i]);
        assert(new_other[other.len() + i]@ == json::line_text(messages[i], later[i]));
    }
}

/// Replaying consumes nothing: a trigger that is fired again, for the same tool,
/// bucket and call, puts out the same lines in the same order but for their
/// timestamps.
pub proof fn law_replay_consumes_nothing(
    script: Seq<ScriptEntry>,
    trigger: Seq<char>,
    tool: Option<Seq<char>>,
    bucket: Seq<char>,
    call: Option<Seq<char>>,
    rule: spec_fn(Seq<u128>, u128) -> bool,
    readings: Seq<u128>,
    out: Seq<String>,
    new_readings: Seq<u128>,
    new_out: Seq<String>,
    later_readings: Seq<u128>,
    later: Seq<String>,
    new_later_readings: Seq<u128>,
    new_later: Seq<String>,
)
    requires
        fake::emitted(
            rule,
            readings,
            out,
            new_readings,
            new_out,
            fake::fired(script, trigger, tool, bucket, call),
        ),
        fake::emitted(
            rule,
            later_readings,
            later,
            new_later_readings,
            new_later,
            fake::fired(script, trigger, tool, bucket, call),
        ),
    ensures
        alike_but_for_stamps(out, new_out, later, new_later),
{
    law_same_messages_alike(
        rule,
        readings,
        out,
        new_readings,
        new_out,
        rule,
        later_readings,
        later,
        new_later_readings,
        new_later,
        fake::fired(script, trigger, tool, bucket, call),
    );
}

/// A message that is no end mark is answered alike whenever it comes: which
/// call is open, and what was answered before, make no difference but for the
/// timestamps.
pub proof fn law_answer_does_not_wear_out(
    script: Seq<ScriptEntry>,
    message: Result<Control, String>,
    rule: spec_fn(Seq<u128>, u128) -> bool,
    window: Window,
    readings: Seq<u128>,
    out: Seq<String>,
    new_readings: Seq<u128>,
    new_out: Seq<String>,
    later_window: Window,
    later_readings: Seq<u128>,
    later: Seq<String>,
    new_later_readings: Seq<u128>,
    new_later: Seq<String>,
)
    requires
        !(message matches Ok(Control::Mark { phase, .. }) && phase@ == "end"@),
        fake::emitted(
            rule,
            readings,
            out,
            new_readings,
            new_out,
            fake::answer(script, window, message),
        ),
        fake::emitted(
            rule,
            later_readings,
            later,
            new_later_readings,
            new_later,
            fake::answer(script, later_window, message),
        ),
    ensures
        fake::answer(script, window, message) == fake::answer(script, later_window, message),
        alike_but_for_stamps(out, new_out, later, new_later),
{
    law_same_messages_alike(
        rule,
        readings,
        out,
        new_readings,
        new_out,
        rule,
        later_readings,
        later,
        new_later_readings,
        new_later,
        fake::answer(script, window, message),
    );
}

/// Whether two outcomes of reading a script are the same but for the error.
pub open spec fn same_script<E>(
    a: Result<Vec<ScriptEntry>, E>,
    b: Result<Vec<ScriptEntry>, E>,
) -> bool {
    match (a, b) {
        (Ok(x), Ok(y)) => x@ == y@,
        (Err(_), Err(_)) => true,
        _ => false,
    }
}

/// The two shapes of an events file come to the same: a list within an object
/// loads as the bare list does, to the same entries in the same order, and one
/// is refused exactly where the other is. This asks of the two parsers what the
/// shapes are: that for the list reads `list` as `entries` and refuses the
/// object; that for the object reads the list within `object` as `entries`, and
/// reads a bare list, if at all, as the same.
pub proof fn law_both_shapes_load_alike<E, F, L>(
    as_file: F,
    as_list: L,
    list: &str,
    object: &str,
    entries: Result<Vec<ScriptEntry>, E>,
    bare: Result<Vec<ScriptEntry>, E>,
    wrapped: Result<Vec<ScriptEntry>, E>,
) where F: Fn(&str) -> Result<Vec<ScriptEntry>, E>, L: Fn(&str) -> Result<Vec<ScriptEntry>, E>
    requires
        forall|r: Result<Vec<ScriptEntry>, E>| #[trigger]
            call_ensures(as_list, (list,), r) ==> same_script(r, entries),
        forall|r: Result<Vec<ScriptEntry>, E>| #[trigger]
            call_ensures(as_list, (object,), r) ==> r is Err,
        forall|r: Result<Vec<ScriptEntry>, E>| #[trigger]
            call_ensures(as_file, (object,), r) ==> same_script(r, entries),
        forall|r: Result<Vec<ScriptEntry>, E>| #[trigger]
            call_ensures(as_file, (list,), r) ==> r is Err || same_script(r, entries),
        fake::reads_script(as_file, as_list, list, bare),
        fake::reads_script(as_file, as_list, object, wrapped),
    ensures
        same_script(bare, entries),
        same_script(wrapped, entries),
        same_script(bare, wrapped),
{
}

} // verus!
