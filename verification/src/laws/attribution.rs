//! Captured events: which are reported, in which bucket, for which call.

use vstd::prelude::*;

use crate::control;
use crate::control::Control;
use crate::decode;
use crate::ebpf;
use crate::ebpf::{End, Session, Step};
use crate::events;
use crate::events::{ByteOrder, ExecEvent, KIND_EXEC};
use crate::json::{Field, Fields};
use crate::laws::numbers;
use crate::laws::records;
use crate::laws::script;
use crate::text;
use crate::wire;

verus! {

/// Whether a control message is a begin mark.
pub open spec fn is_begin(message: Control) -> bool {
    message matches Control::Mark { phase, .. } && phase@ == "begin"@
}

/// Whether a control message is an end mark.
pub open spec fn is_end(message: Control) -> bool {
    message matches Control::Mark { phase, .. } && phase@ == "end"@
}

/// The session after control messages.
pub open spec fn session_after(session: Session, messages: Seq<Control>) -> Session
    decreases messages.len(),
{
    if messages.len() == 0 {
        session
    } else {
        ebpf::next_session(session_after(session, messages.drop_last()), messages.last())
    }
}

/// A call that a begin mark opens stays open through every control message but
/// another begin mark, also through its own end mark: that is only queued, so
/// that events captured during the call and read later are still attributed to
/// it.
pub proof fn law_call_stays_open(
    session: Session,
    call: Option<Seq<char>>,
    messages: Seq<Control>,
)
    requires
        session.call == call,
        forall|i: int| 0 <= i < messages.len() ==> !is_begin(#[trigger] messages[i]),
    ensures
        session_after(session, messages).call == call,
    decreases messages.len(),
{
    if messages.len() > 0 {
        assert(messages.last() == messages[messages.len() - 1]);
        assert forall|i: int| 0 <= i < messages.drop_last().len() implies !is_begin(
            #[trigger] messages.drop_last()[i],
        ) by {
            assert(messages.drop_last()[i] == messages[i]);
        }
        law_call_stays_open(session, call, messages.drop_last());
    }
}

/// A begin mark opens its call, whatever was open, and lets the end marks read
/// before it close nothing; a scope message sets the scope and leaves the call
/// and the end marks; an end mark is queued behind those before it, and leaves
/// the call open until it is applied.
pub proof fn law_control_messages(session: Session, message: Control)
    ensures
        ({
            let next = ebpf::next_session(session, message);
            match message {
                Control::Scope { pgid, .. } => next == (Session {
                    scope: Some(pgid as i32),
                    ..session
                }),
                Control::Mark { phase, call_id, .. } => {
                    &&& next.scope == session.scope
                    &&& phase@ == "begin"@ ==> next.call == control::owned_text(call_id)
                        && !ebpf::any_closes(next.ends) && !ebpf::any_closes(next.due)
                    &&& phase@ == "end"@ ==> next.call == session.call && next.due == session.due
                        && next.ends == session.ends.push(
                        ebpf::queued(session, control::owned_text(call_id)),
                    )
                    &&& phase@ != "begin"@ && phase@ != "end"@ ==> next == session
                },
                Control::Shutdown => next == session,
            }
        }),
{
    script::lemma_mark_phases();
}

/// The end marks that were read and not yet applied, oldest first.
pub open spec fn outstanding(session: Session) -> Seq<End> {
    session.due + session.ends
}

/// Whether at most one end mark closes the open window, and none does where no
/// call is open.
pub open spec fn one_closes(session: Session) -> bool {
    let all = outstanding(session);
    &&& forall|i: int, j: int|
        0 <= i < j < all.len() ==> !((#[trigger] all[i]).closes && (#[trigger] all[j]).closes)
    &&& session.call is None ==> forall|i: int| 0 <= i < all.len() ==> !(#[trigger] all[i]).closes
}

/// A window has one end: so it is at the start, and so it stays, whatever
/// message is applied, whenever the end marks become due, and as they are
/// applied.
pub proof fn law_window_has_one_end(session: Session, message: Control)
    ensures
        one_closes(
            Session { call: None, scope: None, ends: Seq::empty(), due: Seq::empty() },
        ),
        one_closes(session) ==> one_closes(ebpf::next_session(session, message)),
        one_closes(session) ==> one_closes(ebpf::taken(session)),
        one_closes(session) ==> one_closes(ebpf::after_end(session)),
{
    script::lemma_mark_phases();
    let all = outstanding(session);
    if one_closes(session) {
        let next = ebpf::next_session(session, message);
        let later = outstanding(next);
        if is_begin(message) {
            assert(forall|i: int| 0 <= i < later.len() ==> !(#[trigger] later[i]).closes);
        } else if is_end(message) {
            let named = control::owned_text(message->call_id);
            let end = ebpf::queued(session, named);
            assert(later =~= all.push(end));
            if end.closes {
                assert forall|i: int| 0 <= i < all.len() implies !(#[trigger] all[i]).closes by {
                    if i < session.due.len() {
                        assert(all[i] == session.due[i]);
                    } else {
                        assert(all[i] == session.ends[i - session.due.len()]);
                    }
                }
            }
            assert forall|i: int, j: int| 0 <= i < j < later.len() implies !((
            #[trigger] later[i]).closes && (#[trigger] later[j]).closes) by {
                assert(later[i] == all[i]);
                if j < all.len() {
                    assert(later[j] == all[j]);
                }
            }
            if session.call is None {
                assert forall|i: int| 0 <= i < later.len() implies !(
                #[trigger] later[i]).closes by {
                    if i < all.len() {
                        assert(later[i] == all[i]);
                    }
                }
            }
        } else {
            assert(later =~= all);
        }
        assert(outstanding(ebpf::taken(session)) =~= all);
        if session.due.len() > 0 {
            let rest = outstanding(ebpf::after_end(session));
            assert(rest =~= all.skip(1));
            assert(all[0] == session.due[0]);
            assert forall|i: int| 0 <= i < rest.len() implies rest[i] == #[trigger] all[i + 1] by {}
            assert forall|i: int, j: int| 0 <= i < j < rest.len() implies !((
            #[trigger] rest[i]).closes && (#[trigger] rest[j]).closes) by {
                assert(rest[i] == all[i + 1] && rest[j] == all[j + 1]);
            }
            if all[0].closes || session.call is None {
                assert forall|i: int| 0 <= i < rest.len() implies !(#[trigger] rest[i]).closes by {
                    assert(rest[i] == all[i + 1]);
                }
            }
        }
    }
}

/// End marks are applied in the order in which they were read, each with the
/// call that it was queued for: whatever control messages come, those that are
/// outstanding stay where they are, and none that closes nothing comes to close
/// a window.
pub proof fn law_queue_keeps_its_order(session: Session, messages: Seq<Control>)
    ensures
        ({
            let before = outstanding(session);
            let after = outstanding(session_after(session, messages));
            &&& before.len() <= after.len()
            &&& session_after(session, messages).due.len() == session.due.len()
            &&& forall|i: int|
                #![trigger after[i]]
                0 <= i < before.len() ==> after[i].call == before[i].call && (after[i].closes
                    ==> before[i].closes)
        }),
    decreases messages.len(),
{
    if messages.len() > 0 {
        law_queue_keeps_its_order(session, messages.drop_last());
        let middle = session_after(session, messages.drop_last());
        let last = session_after(session, messages);
        let between = outstanding(middle);
        let after = outstanding(last);
        assert forall|i: int| #![trigger after[i]] 0 <= i < between.len() implies after[i].call
            == between[i].call && (after[i].closes ==> between[i].closes) by {
            if i < middle.due.len() {
                assert(after[i] == last.due[i] && between[i] == middle.due[i]);
            } else {
                let k = i - middle.due.len();
                assert(after[i] == last.ends[k] && between[i] == middle.ends[k]);
            }
        }
        let before = outstanding(session);
        assert forall|i: int| #![trigger after[i]] 0 <= i < before.len() implies after[i].call
            == before[i].call && (after[i].closes ==> before[i].closes) by {
            assert(between[i].call == before[i].call);
        }
    }
}

/// The session after this many end marks that are due are applied.
pub open spec fn applied(session: Session, n: nat) -> Session
    decreases n,
{
    if n == 0 {
        session
    } else {
        ebpf::after_end(applied(session, (n - 1) as nat))
    }
}

/// End marks that are due are applied one after the other, oldest first; the
/// open call is closed exactly where one of them is that of its window, and
/// nothing else changes.
pub proof fn law_only_its_own_end_closes_a_window(session: Session, n: nat)
    requires
        n <= session.due.len(),
    ensures
        applied(session, n).due == session.due.skip(n as int),
        applied(session, n).ends == session.ends,
        applied(session, n).scope == session.scope,
        applied(session, n).call == (if ebpf::any_closes(session.due.take(n as int)) {
            None
        } else {
            session.call
        }),
    decreases n,
{
    let first = session.due.take(n as int);
    if n == 0 {
        assert(session.due.skip(0) =~= session.due);
    } else {
        let m = (n - 1) as nat;
        law_only_its_own_end_closes_a_window(session, m);
        let fewer = session.due.take(m as int);
        let before = applied(session, m);
        assert(before.due[0] == session.due[m as int]);
        assert(before.due.skip(1) =~= session.due.skip(n as int));
        assert(first =~= fewer.push(session.due[m as int]));
        if ebpf::any_closes(fewer) {
            let i = choose|i: int| 0 <= i < fewer.len() && (#[trigger] fewer[i]).closes;
            assert(first[i].closes);
        } else if session.due[m as int].closes {
            assert(first[m as int].closes);
        } else {
            assert forall|i: int| 0 <= i < first.len() implies !(#[trigger] first[i]).closes by {
                if i < m {
                    assert(first[i] == fewer[i]);
                }
            }
        }
    }
}

/// A begin mark and the next end mark: what is read before the end is applied
/// is attributed to the call, the end mark is queued for that call whatever it
/// names, the status that ends it names it, and it closes the window.
pub proof fn law_call_round(
    session: Session,
    begin: Control,
    between: Seq<Control>,
    end: Control,
)
    requires
        is_begin(begin),
        begin->call_id is Some,
        forall|i: int|
            0 <= i < between.len() ==> !is_begin(#[trigger] between[i]) && !is_end(between[i]),
        is_end(end),
    ensures
        ({
            let open = session_after(ebpf::next_session(session, begin), between);
            let ended = ebpf::next_session(open, end);
            let id = begin->call_id->0@;
            let mark = End { call: Some(id), closes: true };
            let n = outstanding(ended).len();
            &&& open.call == Some(id)
            &&& ebpf::bucket_of(open.call, open.scope) == "call"@
            &&& ended.call == Some(id)
            &&& ended.ends == open.ends.push(mark)
            &&& ebpf::end_status(mark)["call_id"@] == Field::Text(id)
            &&& applied(ebpf::taken(ended), (n - 1) as nat).call == Some(id)
            &&& applied(ebpf::taken(ended), n).call is None
        }),
{
    script::lemma_mark_phases();
    let opened = ebpf::next_session(session, begin);
    let open = session_after(opened, between);
    law_call_stays_open(opened, opened.call, between);
    lemma_quiet_keeps_ends(opened, between);
    let ended = ebpf::next_session(open, end);
    let all = outstanding(ended);
    let n = all.len();
    assert(ebpf::taken(ended).due =~= all);
    law_only_its_own_end_closes_a_window(ebpf::taken(ended), (n - 1) as nat);
    law_only_its_own_end_closes_a_window(ebpf::taken(ended), n);
    assert(all.take(n as int)[n - 1].closes);
    let first = all.take(n - 1);
    assert forall|i: int| 0 <= i < first.len() implies !(#[trigger] first[i]).closes by {
        if i < ended.due.len() {
            assert(first[i] == open.due[i]);
        } else {
            assert(first[i] == open.ends[i - ended.due.len()]);
        }
    }
}

proof fn lemma_quiet_keeps_ends(session: Session, messages: Seq<Control>)
    requires
        forall|i: int|
            0 <= i < messages.len() ==> !is_begin(#[trigger] messages[i]) && !is_end(messages[i]),
    ensures
        session_after(session, messages).ends == session.ends,
        session_after(session, messages).due == session.due,
    decreases messages.len(),
{
    if messages.len() > 0 {
        let before = messages.drop_last();
        assert forall|i: int| 0 <= i < before.len() implies !is_begin(#[trigger] before[i])
            && !is_end(before[i]) by {
            assert(before[i] == messages[i]);
        }
        lemma_quiet_keeps_ends(session, before);
        assert(messages.last() == messages[messages.len() - 1]);
    }
}

/// Another end mark in the same window, while the one that closes it is still
/// outstanding, names the call that it carries, or none, and closes nothing.
pub proof fn law_further_end_names_its_own(session: Session, end: Control)
    requires
        is_end(end),
        ebpf::any_closes(outstanding(session)),
    ensures
        ({
            let mark = End { call: control::owned_text(end->call_id), closes: false };
            &&& ebpf::next_session(session, end).ends == session.ends.push(mark)
            &&& ebpf::end_status(mark)["call_id"@] == ebpf::text_or_null(mark.call)
        }),
{
    script::lemma_mark_phases();
    let all = outstanding(session);
    let i = choose|i: int| 0 <= i < all.len() && (#[trigger] all[i]).closes;
    if i < session.due.len() {
        assert(session.due[i].closes);
    } else {
        assert(session.ends[i - session.due.len()].closes);
    }
}

/// The end marks that are read before a begin mark and applied after it, of
/// calls with the same id or another: each still names the call that it was
/// queued for, and the later call stays open through all of them, with its
/// events in bucket `call`.
pub proof fn law_earlier_ends_leave_the_later_call(
    session: Session,
    begin: Control,
    since: Seq<Control>,
    n: nat,
)
    requires
        is_begin(begin),
        begin->call_id is Some,
        forall|i: int| 0 <= i < since.len() ==> !is_begin(#[trigger] since[i]),
        n <= outstanding(session).len(),
    ensures
        ({
            let later = session_after(ebpf::next_session(session, begin), since);
            let id = begin->call_id->0@;
            let now = applied(ebpf::taken(later), n);
            &&& n <= ebpf::taken(later).due.len()
            &&& forall|i: int|
                #![trigger ebpf::taken(later).due[i]]
                0 <= i < n ==> ebpf::end_status(ebpf::taken(later).due[i])["call_id"@]
                    == ebpf::text_or_null(outstanding(session)[i].call)
            &&& now.call == Some(id)
            &&& ebpf::bucket_of(now.call, now.scope) == "call"@
        }),
{
    script::lemma_mark_phases();
    let opened = ebpf::next_session(session, begin);
    let later = session_after(opened, since);
    let all = outstanding(later);
    law_call_stays_open(opened, opened.call, since);
    law_queue_keeps_its_order(opened, since);
    assert(ebpf::taken(later).due =~= all);
    let before = outstanding(opened);
    assert forall|i: int| #![trigger all[i]] 0 <= i < n implies !all[i].closes && all[i].call
        == outstanding(session)[i].call by {
        if i < session.due.len() {
            assert(before[i] == opened.due[i]);
        } else {
            assert(before[i] == opened.ends[i - session.due.len()]);
        }
        assert(!before[i].closes && before[i].call == outstanding(session)[i].call);
        assert(all[i].call == before[i].call);
    }
    law_only_its_own_end_closes_a_window(ebpf::taken(later), n);
    let first = all.take(n as int);
    assert forall|i: int| 0 <= i < first.len() implies !(#[trigger] first[i]).closes by {
        assert(first[i] == all[i]);
    }
}

/// In a round of the loop a record is taken only while the batch is open and
/// the ring was not found empty; the queued end marks are applied once, and only
/// after that; the loop waits only where the batch is still open then; and it
/// stops only before a round takes its first record.
pub proof fn law_round_order(drained: nat, ring_empty: bool, ends_applied: bool, shutdown: bool)
    ensures
        ({
            let step = ebpf::step_of(drained, ring_empty, ends_applied, shutdown);
            let drained_all = ring_empty || drained >= ebpf::DRAIN_BATCH;
            &&& step == Step::Take ==> !drained_all && !ends_applied
            &&& step == Step::ApplyEnds <==> drained_all && !ends_applied
            &&& step is Wait ==> ends_applied && drained < ebpf::DRAIN_BATCH
            &&& step == Step::Again ==> ends_applied && drained >= ebpf::DRAIN_BATCH
            &&& step == Step::Stop <==> shutdown && drained == 0 && !ring_empty && !ends_applied
            &&& !shutdown && !ends_applied && !drained_all ==> step == Step::Take
        }),
{
}

/// Once a scope is set, an event of a process outside it, or of one whose
/// group is not known, is never reported.
pub proof fn law_out_of_scope_is_silent<L: Fn(u32) -> Option<i32>>(
    bytes: Seq<u8>,
    order: ByteOrder,
    call: Option<Seq<char>>,
    scope: i32,
    lookup: L,
    known: Map<u32, Option<i32>>,
    now_known: Map<u32, Option<i32>>,
    message: Option<Fields>,
)
    requires
        ebpf::judged(bytes, order, call, Some(scope), lookup, known, now_known, message),
        events::header(bytes, order) matches Some((_, pid)) && now_known[pid] != Some(scope),
    ensures
        message is None,
{
}

/// What a batch knows of a process stays as it is, whatever record it takes.
pub proof fn law_known_groups_stay<L: Fn(u32) -> Option<i32>>(
    bytes: Seq<u8>,
    order: ByteOrder,
    call: Option<Seq<char>>,
    scope: Option<i32>,
    lookup: L,
    known: Map<u32, Option<i32>>,
    now_known: Map<u32, Option<i32>>,
    message: Option<Fields>,
)
    requires
        ebpf::judged(bytes, order, call, scope, lookup, known, now_known, message),
    ensures
        known.submap_of(now_known),
{
}

/// The group of a process is looked up at most once in a batch: a record taken
/// under a scope, when the batch knows the process, changes nothing that is
/// known and is judged by the group that is.
pub proof fn law_group_is_looked_up_once<L: Fn(u32) -> Option<i32>>(
    bytes: Seq<u8>,
    order: ByteOrder,
    call: Option<Seq<char>>,
    scope: i32,
    lookup: L,
    known: Map<u32, Option<i32>>,
    now_known: Map<u32, Option<i32>>,
    message: Option<Fields>,
)
    requires
        ebpf::judged(bytes, order, call, Some(scope), lookup, known, now_known, message),
        events::header(bytes, order) matches Some((_, pid)) && known.contains_key(pid),
    ensures
        now_known == known,
        events::header(bytes, order) matches Some((_, pid)) && message == (if known[pid] == Some(
            scope,
        ) {
            ebpf::reported(bytes, order, call, Some(scope))
        } else {
            None
        }),
{
}

/// A reported event says its type, its bucket and its process, and names a call
/// exactly where one is open.
pub proof fn law_reported_members(
    bytes: Seq<u8>,
    order: ByteOrder,
    call: Option<Seq<char>>,
    scope: Option<i32>,
)
    ensures
        ebpf::reported(bytes, order, call, scope) matches Some(message) ==> {
            &&& message.contains_key("type"@)
            &&& message["bucket"@] == Field::Text(ebpf::bucket_of(call, scope))
            &&& events::header(bytes, order) matches Some((_, pid)) && message["pid"@]
                == Field::Int(pid as int)
            &&& message.contains_key("call_id"@) <==> call is Some
            &&& call matches Some(id) ==> message["call_id"@] == Field::Text(id)
        },
{
    reveal_strlit("bucket");
    reveal_strlit("call_id");
    reveal_strlit("pid");
    assert("bucket"@.len() == 6 && "call_id"@.len() == 7 && "pid"@.len() == 3);
    match events::header(bytes, order) {
        Some((kind, _)) => records::law_common_members_are_free(kind, bytes, order),
        None => {},
    }
}

/// The buckets: `startup` until a scope is set, then `ambient`, and `call`
/// whenever a call is open.
pub proof fn law_buckets(call: Seq<char>, scope: Option<i32>, pgid: i32)
    ensures
        ebpf::bucket_of(None, None) == "startup"@,
        ebpf::bucket_of(None, Some(pgid)) == "ambient"@,
        ebpf::bucket_of(Some(call), scope) == "call"@,
{
}

/// An exec that the kernel side writes while a call is open is reported as that
/// call's, with the process, the program and the comm that were written.
pub proof fn law_exec_in_call(
    event: ExecEvent,
    order: ByteOrder,
    rest: Seq<u8>,
    call: Seq<char>,
    scope: Option<i32>,
)
    requires
        event.kind == KIND_EXEC,
    ensures
        ebpf::reported(wire::exec_record(event, order) + rest, order, Some(call), scope) == Some(
            Fields::empty().insert("type"@, Field::Text("exec"@)).insert(
                "comm"@,
                Field::Text(events::field_text(event.comm@)),
            ).insert("argv"@, Field::Texts(seq![events::field_text(event.filename@)])).insert(
                "bucket"@,
                Field::Text("call"@),
            ).insert("call_id"@, Field::Text(call)).insert("pid"@, Field::Int(event.pid as int)),
        ),
{
    wire::law_exec_read_back(event, order, rest);
    records::law_exec_message(event, order, rest);
}

proof fn lemma_after_last_of_join(head: Seq<char>, tail: Seq<char>, c: char)
    requires
        !tail.contains(c),
    ensures
        ebpf::after_last(head + seq![c] + tail, c) == Some(tail),
    decreases tail.len(),
{
    let whole = head + seq![c] + tail;
    if tail.len() == 0 {
        assert(whole.last() == c);
        assert(tail =~= Seq::empty());
    } else {
        assert(tail.contains(tail.last()));
        assert(whole.last() == tail.last());
        assert(whole.drop_last() =~= head + seq![c] + tail.drop_last());
        assert forall|i: int| 0 <= i < tail.drop_last().len() implies tail.drop_last()[i] != c by {
            assert(tail.contains(tail[i]));
        }
        lemma_after_last_of_join(head, tail.drop_last(), c);
        assert(tail.drop_last().push(tail.last()) =~= tail);
    }
}

/// The process group is found whatever the `comm` field holds, spaces and
/// parentheses included: only what follows the last closing parenthesis counts.
pub proof fn law_comm_does_not_matter(head: Seq<char>, other: Seq<char>, tail: Seq<char>)
    requires
        !tail.contains(')'),
    ensures
        ebpf::stat_pgid(head + seq![')'] + tail) == ebpf::stat_pgid(other + seq![')'] + tail),
        text::words(tail).len() >= 3 ==> ebpf::stat_pgid(head + seq![')'] + tail)
            == text::read_i32(text::words(tail)[2]),
        text::words(tail).len() < 3 ==> ebpf::stat_pgid(head + seq![')'] + tail) is None,
{
    lemma_after_last_of_join(head, tail, ')');
    lemma_after_last_of_join(other, tail, ')');
}

proof fn lemma_first_word(word: Seq<char>, rest: Seq<char>)
    requires
        word.len() > 0,
        forall|i: int| 0 <= i < word.len() ==> !text::is_white(#[trigger] word[i]),
        rest.len() > 0 ==> text::is_white(rest[0]),
    ensures
        text::words(seq![' '] + word + rest) == seq![word] + text::words(rest),
{
    let whole = seq![' '] + word + rest;
    let from_word = word + rest;
    assert(whole.first() == ' ');
    assert(whole.drop_first() =~= from_word);
    assert forall|i: int| 0 <= i < word.len() implies !text::is_white(
        #[trigger] from_word[i],
    ) by {
        assert(from_word[i] == word[i]);
    }
    text::lemma_word_len(from_word, word.len() as int);
    assert(from_word.first() == word[0]);
    assert(from_word.take(word.len() as int) =~= word);
    assert(from_word.skip(word.len() as int) =~= rest);
    assert(text::words(from_word) == seq![word] + text::words(rest));
}

/// The process group that the kernel writes in a stat line is the one that is
/// found: one space, the state, one space, the parent and one space before it,
/// and then nothing or white space.
pub proof fn law_stat_read_back(
    head: Seq<char>,
    state: Seq<char>,
    ppid: Seq<char>,
    pgid: i32,
    rest: Seq<char>,
)
    requires
        state.len() > 0,
        forall|i: int|
            0 <= i < state.len() ==> !text::is_white(#[trigger] state[i]) && state[i] != ')',
        ppid.len() > 0,
        forall|i: int|
            0 <= i < ppid.len() ==> !text::is_white(#[trigger] ppid[i]) && ppid[i] != ')',
        rest.len() > 0 ==> text::is_white(rest[0]),
        !rest.contains(')'),
    ensures
        ebpf::stat_pgid(
            head + seq![')'] + (seq![' '] + state + (seq![' '] + ppid + (seq![' ']
                + numbers::signed_numeral(pgid as int) + rest))),
        ) == Some(pgid),
{
    let group = numbers::signed_numeral(pgid as int);
    numbers::lemma_signed_numeral(pgid as int);
    numbers::law_signed_read_back(pgid);
    let third = seq![' '] + group + rest;
    let second = seq![' '] + ppid + third;
    let tail = seq![' '] + state + second;
    lemma_first_word(group, rest);
    lemma_first_word(ppid, third);
    lemma_first_word(state, second);
    assert(text::words(tail)[2] == group);
    assert(!third.contains(')')) by {
        assert forall|i: int| 0 <= i < third.len() implies third[i] != ')' by {
            if 1 <= i < 1 + group.len() {
                assert(third[i] == group[i - 1]);
            } else if i > group.len() {
                assert(third[i] == rest[i - 1 - group.len()]);
                assert(rest.contains(rest[i - 1 - group.len()]));
            }
        }
    }
    assert(!tail.contains(')')) by {
        assert forall|i: int| 0 <= i < tail.len() implies tail[i] != ')' by {
            let from_ppid = i - 1 - state.len();
            let from_group = from_ppid - 1 - ppid.len();
            if 1 <= i < 1 + state.len() {
                assert(tail[i] == state[i - 1]);
            } else if 1 <= from_ppid < 1 + ppid.len() {
                assert(tail[i] == ppid[from_ppid - 1]);
            } else if from_group >= 0 {
                assert(tail[i] == third[from_group]);
                assert(third.contains(third[from_group]));
            }
        }
    }
    law_comm_does_not_matter(head, head, tail);
}

/// A record is reported exactly where it has a header and decodes, by the kind
/// that the header says. The message has every member of the decoded event with
/// its value, and four more at most: the bucket, which is that of the open call
/// or, where none is open, `ambient` once a scope is set and `startup` before;
/// the open call, where one is; and the process that the header says.
pub proof fn law_reported_is_the_decoded_event(
    bytes: Seq<u8>,
    order: ByteOrder,
    call: Option<Seq<char>>,
    scope: Option<i32>,
)
    ensures
        ({
            let message = ebpf::reported(bytes, order, call, scope);
            match events::header(bytes, order) {
                None => message is None,
                Some((kind, pid)) => match decode::decoded(kind, bytes, order) {
                    None => message is None,
                    Some(event) => {
                        &&& message is Some
                        &&& forall|key: Seq<char>| #[trigger]
                            event.contains_key(key) ==> message->0.contains_key(key)
                                && message->0[key] == event[key]
                        &&& forall|key: Seq<char>| #[trigger]
                            message->0.contains_key(key) ==> event.contains_key(key) || key
                                == "bucket"@ || key == "call_id"@ || key == "pid"@
                        &&& message->0.contains_key("bucket"@)
                        &&& message->0["bucket"@] == Field::Text(
                            if call is Some {
                                "call"@
                            } else if scope is Some {
                                "ambient"@
                            } else {
                                "startup"@
                            },
                        )
                        &&& message->0.contains_key("pid"@)
                        &&& message->0["pid"@] == Field::Int(pid as int)
                        &&& message->0.contains_key("call_id"@) <==> call is Some
                        &&& call matches Some(id) ==> message->0["call_id"@] == Field::Text(id)
                    },
                },
            }
        }),
{
    reveal_strlit("bucket");
    reveal_strlit("call_id");
    reveal_strlit("pid");
    assert("bucket"@.len() == 6 && "call_id"@.len() == 7 && "pid"@.len() == 3);
    if let Some((kind, _)) = events::header(bytes, order) {
        records::law_common_members_are_free(kind, bytes, order);
    }
}

/// What a batch makes of a record does not depend on what it knew: without a
/// scope, and for a process whose group is the one in scope, it is the report
/// for the call and the scope of the moment; for any other process under a
/// scope, and without a header, it is nothing. A group that the batch does not
/// know is looked up for that process, and nothing else that it knows changes.
pub proof fn law_judgement<L: Fn(u32) -> Option<i32>>(
    bytes: Seq<u8>,
    order: ByteOrder,
    call: Option<Seq<char>>,
    scope: Option<i32>,
    lookup: L,
    known: Map<u32, Option<i32>>,
    now_known: Map<u32, Option<i32>>,
    message: Option<Fields>,
)
    requires
        ebpf::judged(bytes, order, call, scope, lookup, known, now_known, message),
    ensures
        ({
            let report = ebpf::reported(bytes, order, call, scope);
            match events::header(bytes, order) {
                None => message is None && now_known == known,
                Some((_, pid)) => match scope {
                    None => message == report && now_known == known,
                    Some(group) => {
                        &&& now_known.contains_key(pid)
                        &&& now_known[pid] == Some(group) ==> message == report
                        &&& now_known[pid] != Some(group) ==> message is None
                        &&& known.contains_key(pid) ==> now_known == known
                        &&& !known.contains_key(pid) ==> {
                            &&& call_ensures(lookup, (pid,), now_known[pid])
                            &&& forall|other: u32|
                                other != pid ==> (#[trigger] now_known.contains_key(other)
                                    <==> known.contains_key(other))
                            &&& forall|other: u32|
                                other != pid && #[trigger] known.contains_key(other)
                                    ==> now_known[other] == known[other]
                        }
                    },
                },
            }
        }),
{
}

/// Two batches that take the same record, for the same call and scope, and find
/// the same group for its process report the same, whatever each knew before.
pub proof fn law_report_is_the_same_in_every_batch<L: Fn(u32) -> Option<i32>, M: Fn(u32) -> Option<i32>>(
    bytes: Seq<u8>,
    order: ByteOrder,
    call: Option<Seq<char>>,
    scope: Option<i32>,
    lookup: L,
    known: Map<u32, Option<i32>>,
    now_known: Map<u32, Option<i32>>,
    message: Option<Fields>,
    other_lookup: M,
    other_known: Map<u32, Option<i32>>,
    other_now_known: Map<u32, Option<i32>>,
    other_message: Option<Fields>,
)
    requires
        ebpf::judged(bytes, order, call, scope, lookup, known, now_known, message),
        ebpf::judged(
            bytes,
            order,
            call,
            scope,
            other_lookup,
            other_known,
            other_now_known,
            other_message,
        ),
        events::header(bytes, order) matches Some((_, pid)) ==> scope is Some ==> now_known[pid]
            == other_now_known[pid],
    ensures
        message == other_message,
{
}

/// An in-scope event of an open call is never filed outside it.
pub proof fn law_event_stays_with_the_call<L: Fn(u32) -> Option<i32>>(
    bytes: Seq<u8>,
    order: ByteOrder,
    id: Seq<char>,
    scope: Option<i32>,
    lookup: L,
    known: Map<u32, Option<i32>>,
    now_known: Map<u32, Option<i32>>,
    message: Option<Fields>,
)
    requires
        ebpf::judged(bytes, order, Some(id), scope, lookup, known, now_known, message),
        events::header(bytes, order) matches Some((kind, pid)) && decode::decoded(
            kind,
            bytes,
            order,
        ) is Some && (scope is Some ==> now_known[pid] == scope),
    ensures
        message is Some,
        message->0["bucket"@] == Field::Text("call"@),
        message->0.contains_key("call_id"@),
        message->0["call_id"@] == Field::Text(id),
{
    law_reported_is_the_decoded_event(bytes, order, Some(id), scope);
}

/// Without a scope any process is reported, with one only those of its group.
pub proof fn law_scope(scope: Option<i32>, pgid: Option<i32>)
    ensures
        scope is None ==> ebpf::in_scope(scope, pgid),
        scope is Some ==> (ebpf::in_scope(scope, pgid) <==> pgid is Some && pgid->0 == scope->0),
{
}

/// Where no parenthesis is closed, no process group is found.
pub proof fn law_no_comm_no_group(stat: Seq<char>)
    requires
        !stat.contains(')'),
    ensures
        ebpf::stat_pgid(stat) is None,
    decreases stat.len(),
{
    lemma_no_last(stat, ')');
}

proof fn lemma_no_last(s: Seq<char>, c: char)
    requires
        !s.contains(c),
    ensures
        ebpf::after_last(s, c) is None,
    decreases s.len(),
{
    if s.len() > 0 {
        assert(s.contains(s[s.len() - 1]));
        assert forall|i: int| 0 <= i < s.drop_last().len() implies s.drop_last()[i] != c by {
            assert(s.contains(s[i]));
        }
        lemma_no_last(s.drop_last(), c);
    }
}

/// What control messages make of a session, member by member. A begin mark sets
/// the call and leaves every end mark that waits or is due in its place, with
/// its call, to close nothing. An end mark waits behind the others: the first
/// since the window was opened closes it and takes the open call; any other
/// takes the call that it names and closes nothing. A scope sets the group.
pub proof fn law_session_members(session: Session, message: Control)
    ensures
        ({
            let next = ebpf::next_session(session, message);
            match message {
                Control::Scope { pgid, .. } => {
                    &&& next.scope == Some(pgid as i32)
                    &&& next.call == session.call && next.ends == session.ends && next.due
                        == session.due
                },
                Control::Shutdown => next == session,
                Control::Mark { phase, call_id, .. } => {
                    let named = match call_id {
                        Some(id) => Some(id@),
                        None => None,
                    };
                    let first = session.call is Some && (forall|i: int|
                        0 <= i < session.ends.len() ==> !(#[trigger] session.ends[i]).closes) && (
                    forall|i: int|
                        0 <= i < session.due.len() ==> !(#[trigger] session.due[i]).closes);
                    &&& next.scope == session.scope
                    &&& next.due.len() == session.due.len()
                    &&& phase@ == "begin"@ ==> {
                        &&& next.call == named
                        &&& next.ends.len() == session.ends.len()
                        &&& forall|i: int|
                            0 <= i < next.ends.len() ==> (#[trigger] next.ends[i]).call
                                == session.ends[i].call && !next.ends[i].closes
                        &&& forall|i: int|
                            0 <= i < next.due.len() ==> (#[trigger] next.due[i]).call
                                == session.due[i].call && !next.due[i].closes
                    }
                    &&& phase@ == "end"@ ==> {
                        let n = session.ends.len() as int;
                        &&& next.call == session.call
                        &&& next.due == session.due
                        &&& next.ends.len() == n + 1
                        &&& forall|i: int| 0 <= i < n ==> #[trigger] next.ends[i] == session.ends[i]
                        &&& next.ends[n].closes <==> first
                        &&& first ==> next.ends[n].call == session.call
                        &&& !first ==> next.ends[n].call == named
                    }
                    &&& phase@ != "begin"@ && phase@ != "end"@ ==> next == session
                },
            }
        }),
{
    script::lemma_mark_phases();
}

/// Draining the ring makes the end marks that wait due, behind those that are,
/// and changes nothing else. Applying the oldest that is due takes it away,
/// closes the window where it is the one to close it, and changes nothing else;
/// where none is due, nothing changes.
pub proof fn law_due_ends(session: Session)
    ensures
        ({
            let next = ebpf::taken(session);
            let n = session.due.len() as int;
            &&& next.call == session.call && next.scope == session.scope
            &&& next.ends.len() == 0
            &&& next.due.len() == n + session.ends.len()
            &&& forall|i: int| 0 <= i < n ==> #[trigger] next.due[i] == session.due[i]
            &&& forall|i: int|
                0 <= i < session.ends.len() ==> next.due[n + i] == #[trigger] session.ends[i]
        }),
        session.due.len() == 0 ==> ebpf::after_end(session) == session,
        session.due.len() > 0 ==> {
            let next = ebpf::after_end(session);
            &&& next.scope == session.scope && next.ends == session.ends
            &&& next.due.len() == session.due.len() - 1
            &&& forall|i: int|
                0 <= i < next.due.len() ==> #[trigger] next.due[i] == session.due[i + 1]
            &&& session.due[0].closes ==> next.call is None
            &&& !session.due[0].closes ==> next.call == session.call
        },
{
}

/// The steps of a round, by number: up to 8192 records are taken, until the
/// ring is empty; then the end marks are applied; then the loop waits 200
/// milliseconds, or goes on at once where it took them all.
pub proof fn law_steps(drained: nat, ring_empty: bool, ends_applied: bool, shutdown: bool)
    ensures
        ({
            let step = ebpf::step_of(drained, ring_empty, ends_applied, shutdown);
            &&& ends_applied && drained < 8192 ==> step == Step::Wait(200)
            &&& ends_applied && drained >= 8192 ==> step == Step::Again
            &&& !ends_applied && (ring_empty || drained >= 8192) ==> step == Step::ApplyEnds
            &&& !ends_applied && !ring_empty && drained < 8192 ==> (step == Step::Stop <==> shutdown
                && drained == 0)
            &&& !ends_applied && !ring_empty && drained < 8192 ==> (step == Step::Take
                <==> !(shutdown && drained == 0))
        }),
{
}

/// The tracepoints are those of the nine system calls that are watched, each
/// under the name of its entry.
pub proof fn law_tracepoints(names: Seq<&'static str>)
    requires
        ebpf::are_tracepoints(names),
    ensures
        names.map_values(|name: &'static str| name@) == seq![
            "execve"@,
            "connect"@,
            "sendto"@,
            "openat"@,
            "unlinkat"@,
            "unlink"@,
            "fchmodat"@,
            "chmod"@,
            "ptrace"@,
        ].map_values(|call: Seq<char>| "sys_enter_"@ + call),
{
    reveal_strlit("sys_enter_");
    reveal_strlit("execve");
    reveal_strlit("connect");
    reveal_strlit("sendto");
    reveal_strlit("openat");
    reveal_strlit("unlinkat");
    reveal_strlit("unlink");
    reveal_strlit("fchmodat");
    reveal_strlit("chmod");
    reveal_strlit("ptrace");
    reveal_strlit("sys_enter_execve");
    reveal_strlit("sys_enter_connect");
    reveal_strlit("sys_enter_sendto");
    reveal_strlit("sys_enter_openat");
    reveal_strlit("sys_enter_unlinkat");
    reveal_strlit("sys_enter_unlink");
    reveal_strlit("sys_enter_fchmodat");
    reveal_strlit("sys_enter_chmod");
    reveal_strlit("sys_enter_ptrace");
    assert("sys_enter_"@ + "execve"@ =~= "sys_enter_execve"@);
    assert("sys_enter_"@ + "connect"@ =~= "sys_enter_connect"@);
    assert("sys_enter_"@ + "sendto"@ =~= "sys_enter_sendto"@);
    assert("sys_enter_"@ + "openat"@ =~= "sys_enter_openat"@);
    assert("sys_enter_"@ + "unlinkat"@ =~= "sys_enter_unlinkat"@);
    assert("sys_enter_"@ + "unlink"@ =~= "sys_enter_unlink"@);
    assert("sys_enter_"@ + "fchmodat"@ =~= "sys_enter_fchmodat"@);
    assert("sys_enter_"@ + "chmod"@ =~= "sys_enter_chmod"@);
    assert("sys_enter_"@ + "ptrace"@ =~= "sys_enter_ptrace"@);
}

} // verus!
