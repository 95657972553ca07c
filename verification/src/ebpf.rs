//! The decisions of the Linux eBPF backend.
//!
//! The kernel only captures: every process's syscalls come in. Scope filtering,
//! call attribution and the messages are decided here; reading the ring, the
//! control input and `/proc`, and writing the lines, are the caller's.

use std::collections::HashMap;

use vstd::prelude::*;

use crate::control;
use crate::control::Control;
use crate::decode;
use crate::events;
use crate::events::ByteOrder;
use crate::json;
use crate::json::{Field, Fields, Object};
use crate::text;

verus! {

/// How many records are taken off the ring before queued end marks get their
/// turn.
pub const DRAIN_BATCH: usize = 8192;

/// An end mark that was read and not yet applied.
pub struct End {
    /// The call that its status names.
    pub call: Option<Seq<char>>,
    /// Whether it closes the window of the open call.
    pub closes: bool,
}

/// What the backend knows of the session.
pub struct Session {
    /// The call that is open.
    pub call: Option<Seq<char>>,
    /// The process group to report, once one is set.
    pub scope: Option<i32>,
    /// The end marks that wait until the ring is drained, oldest first.
    pub ends: Seq<End>,
    /// The end marks that are due, oldest first.
    pub due: Seq<End>,
}

/// An end mark that was read and not yet applied.
struct QueuedEnd {
    call: Option<String>,
    closes: bool,
}

/// The state that the control side and the event side share.
pub struct State {
    active_call: Option<String>,
    scope_pgid: Option<i32>,
    // End marks are queued here and applied after the ring is drained, so that
    // events captured during the call attribute to it. Each is queued with the
    // call that it ends, and only the first of a window closes it.
    pending_ends: Vec<QueuedEnd>,
    // Those that the ring was drained for.
    due_ends: Vec<QueuedEnd>,
}

/// What a control message asks of the caller.
pub enum Action {
    /// Nothing.
    Quiet,
    /// Stamp and write this message.
    Report(Object),
    /// Stop reading control messages and shut down.
    Stop,
}

/// What a caller is asked, with the members of a message in place of it.
pub enum Asked {
    Quiet,
    Report(Fields),
    Stop,
}

impl View for Action {
    type V = Asked;

    open spec fn view(&self) -> Asked {
        match *self {
            Action::Quiet => Asked::Quiet,
            Action::Report(object) => Asked::Report(json::fields(object)),
            Action::Stop => Asked::Stop,
        }
    }
}

spec fn ends_of(queue: Seq<QueuedEnd>) -> Seq<End> {
    queue.map_values(
        |end: QueuedEnd| End { call: control::owned_text(end.call), closes: end.closes },
    )
}

impl View for State {
    type V = Session;

    closed spec fn view(&self) -> Session {
        Session {
            call: control::owned_text(self.active_call),
            scope: self.scope_pgid,
            ends: ends_of(self.pending_ends@),
            due: ends_of(self.due_ends@),
        }
    }
}

/// Whether one of these end marks closes the open window.
pub open spec fn any_closes(ends: Seq<End>) -> bool {
    exists|i: int| 0 <= i < ends.len() && (#[trigger] ends[i]).closes
}

/// These end marks once another window was opened: they still name their calls,
/// and close nothing.
pub open spec fn outlived(ends: Seq<End>) -> Seq<End> {
    ends.map_values(|end: End| End { closes: false, ..end })
}

/// The end mark that is queued when one that names `named` is read. The first
/// of a window closes it, and names the open call; any other names its own.
pub open spec fn queued(session: Session, named: Option<Seq<char>>) -> End {
    if session.call is Some && !any_closes(session.ends) && !any_closes(session.due) {
        End { call: session.call, closes: true }
    } else {
        End { call: named, closes: false }
    }
}

/// A status message in a bucket.
pub open spec fn status(bucket: Seq<char>, message: Seq<char>) -> Fields {
    Fields::empty().insert("type"@, Field::Text("status"@)).insert(
        "bucket"@,
        Field::Text(bucket),
    ).insert("message"@, Field::Text(message))
}

/// An optional text as a member: `null` where there is none.
pub open spec fn text_or_null(text: Option<Seq<char>>) -> Field {
    match text {
        Some(t) => Field::Text(t),
        None => Field::Null,
    }
}

/// The message for a mark.
pub open spec fn mark_status(message: Seq<char>, call: Option<Seq<char>>) -> Fields {
    status("call"@, message).insert("call_id"@, text_or_null(call))
}

/// What a control message makes of a session. A begin mark opens a window, and
/// the end marks before it belong to earlier ones.
pub open spec fn next_session(session: Session, message: Control) -> Session {
    match message {
        Control::Scope { pgid, .. } => Session { scope: Some(pgid as i32), ..session },
        Control::Mark { phase, call_id, .. } => if phase@ == "begin"@ {
            Session {
                call: control::owned_text(call_id),
                ends: outlived(session.ends),
                due: outlived(session.due),
                ..session
            }
        } else if phase@ == "end"@ {
            Session {
                ends: session.ends.push(queued(session, control::owned_text(call_id))),
                ..session
            }
        } else {
            session
        },
        Control::Shutdown => session,
    }
}

/// What a control message asks of the caller.
pub open spec fn asks(message: Control) -> Asked {
    match message {
        Control::Scope { pgid, generation } => Asked::Report(
            status("ambient"@, "scope"@).insert("pgid"@, Field::Int(pgid as int)).insert(
                "generation"@,
                Field::Int(generation as int),
            ),
        ),
        Control::Mark { phase, call_id, .. } => if phase@ == "begin"@ {
            Asked::Report(mark_status("begin"@, control::owned_text(call_id)))
        } else {
            Asked::Quiet
        },
        Control::Shutdown => Asked::Stop,
    }
}

/// The session once the ring was drained: the end marks that waited are due.
pub open spec fn taken(session: Session) -> Session {
    Session { ends: Seq::empty(), due: session.due + session.ends, ..session }
}

/// The session after the oldest end mark that is due is applied: the window is
/// closed where the mark is its own, and one that was opened since stays open.
pub open spec fn after_end(session: Session) -> Session {
    if session.due.len() == 0 {
        session
    } else {
        Session {
            call: if session.due[0].closes {
                None
            } else {
                session.call
            },
            due: session.due.skip(1),
            ..session
        }
    }
}

/// The message for an end mark.
pub open spec fn end_status(end: End) -> Fields {
    mark_status("end"@, end.call)
}

/// Whether one of these end marks closes the open window.
fn has_closing(queue: &Vec<QueuedEnd>) -> (found: bool)
    ensures
        found == any_closes(ends_of(queue@)),
{
    let mut i: usize = 0;
    while i < queue.len()
        invariant
            0 <= i <= queue@.len(),
            forall|j: int| 0 <= j < i ==> !(#[trigger] queue@[j]).closes,
        decreases queue@.len() - i,
    {
        if queue[i].closes {
            assert(ends_of(queue@)[i as int].closes);
            return true;
        }
        i += 1;
    }
    assert forall|j: int| 0 <= j < ends_of(queue@).len() implies !(
    #[trigger] ends_of(queue@)[j]).closes by {
        assert(!queue@[j].closes);
    }
    false
}

/// Lets these end marks close nothing.
fn outlive(queue: &mut Vec<QueuedEnd>)
    ensures
        ends_of(final(queue)@) == outlived(ends_of(old(queue)@)),
{
    let mut i: usize = 0;
    while i < queue.len()
        invariant
            0 <= i <= queue@.len(),
            queue@.len() == old(queue)@.len(),
            forall|j: int|
                0 <= j < queue@.len() ==> (#[trigger] queue@[j]).call == old(queue)@[j].call,
            forall|j: int| 0 <= j < i ==> !(#[trigger] queue@[j]).closes,
        decreases queue@.len() - i,
    {
        queue[i].closes = false;
        i += 1;
    }
    assert(ends_of(queue@) =~= outlived(ends_of(old(queue)@)));
}

fn status_object(bucket: &str, message: &str) -> (object: Object)
    ensures
        json::fields(object) == status(bucket@, message@),
{
    let mut object = json::new_object();
    json::insert_text(&mut object, "type", "status");
    json::insert_text(&mut object, "bucket", bucket);
    json::insert_text(&mut object, "message", message);
    object
}

fn mark_object(message: &str, call: &Option<String>) -> (object: Object)
    ensures
        json::fields(object) == mark_status(message@, control::owned_text(*call)),
{
    let mut object = status_object("call", message);
    match call {
        Some(id) => json::insert_text(&mut object, "call_id", id.as_str()),
        None => json::insert_null(&mut object, "call_id"),
    }
    object
}

/// The message that says the backend is up.
pub fn ready() -> (object: Object)
    ensures
        json::fields(object) == status("startup"@, "ready"@).insert(
            "backend"@,
            Field::Text("ebpf"@),
        ),
{
    let mut object = status_object("startup", "ready");
    json::insert_text(&mut object, "backend", "ebpf");
    object
}

impl State {
    /// No call is open, no scope is set and no end mark is queued.
    pub fn new() -> (state: Self)
        ensures
            state@ == (Session { call: None, scope: None, ends: Seq::empty(), due: Seq::empty() }),
    {
        let state = State {
            active_call: None,
            scope_pgid: None,
            pending_ends: Vec::new(),
            due_ends: Vec::new(),
        };
        assert(state@.ends =~= Seq::empty() && state@.due =~= Seq::empty());
        state
    }

    /// Applies a control message.
    pub fn on_control(&mut self, message: Control) -> (action: Action)
        ensures
            final(self)@ == next_session(old(self)@, message),
            action@ == asks(message),
    {
        match message {
            Control::Scope { pgid, generation } => {
                self.scope_pgid = Some(#[verifier::truncate] (pgid as i32));
                let mut object = status_object("ambient", "scope");
                json::insert_i64(&mut object, "pgid", pgid);
                json::insert_i64(&mut object, "generation", generation);
                Action::Report(object)
            },
            Control::Mark { phase, call_id, .. } => {
                if text::same(phase.as_str(), "begin") {
                    let object = mark_object("begin", &call_id);
                    self.active_call = call_id;
                    outlive(&mut self.pending_ends);
                    outlive(&mut self.due_ends);
                    Action::Report(object)
                } else if text::same(phase.as_str(), "end") {
                    let closes: bool = self.active_call.is_some() && !has_closing(
                        &self.pending_ends,
                    ) && !has_closing(&self.due_ends);
                    let call: Option<String> = if closes {
                        control::copy_of(&self.active_call)
                    } else {
                        call_id
                    };
                    let end = QueuedEnd { call, closes };
                    self.pending_ends.push(end);
                    assert(self@.ends =~= old(self)@.ends.push(
                        End { call: control::owned_text(end.call), closes },
                    ));
                    Action::Quiet
                } else {
                    Action::Quiet
                }
            },
            Control::Shutdown => Action::Stop,
        }
    }

    /// Applies a line of control input; a blank one, or one that holds no
    /// control message, is passed over.
    pub fn on_line(&mut self, message: Option<Result<Control, String>>) -> (action: Action)
        ensures
            message matches Some(Ok(m)) ==> final(self)@ == next_session(old(self)@, m) && action@
                == asks(m),
            !(message matches Some(Ok(_))) ==> final(self)@ == old(self)@ && action@
                == Asked::Quiet,
    {
        match message {
            Some(Ok(m)) => self.on_control(m),
            _ => Action::Quiet,
        }
    }

    /// Makes the queued end marks due, behind those that are: the ring was
    /// drained since they were read.
    pub fn take_ends(&mut self)
        ensures
            final(self)@ == taken(old(self)@),
    {
        self.due_ends.append(&mut self.pending_ends);
        assert(self@.due =~= old(self)@.due + old(self)@.ends);
        assert(self@.ends =~= Seq::empty());
    }

    /// Applies the oldest end mark that is due, and gives its message; `None`
    /// where none is due.
    pub fn apply_end(&mut self) -> (object: Option<Object>)
        ensures
            final(self)@ == after_end(old(self)@),
            decode::object_fields(object) == (if old(self)@.due.len() == 0 {
                None
            } else {
                Some(end_status(old(self)@.due[0]))
            }),
    {
        if self.due_ends.len() == 0 {
            return None;
        }
        let end = self.due_ends.remove(0);
        assert(self@.due =~= old(self)@.due.skip(1));
        if end.closes {
            self.active_call = None;
        }
        Some(mark_object("end", &end.call))
    }

    /// How an event that comes now is attributed.
    pub fn attribution(&self) -> (attribution: Attribution)
        ensures
            attribution.call() == self@.call,
            attribution.scope() == self@.scope,
    {
        Attribution { call_id: control::copy_of(&self.active_call), scope_pgid: self.scope_pgid }
    }
}

/// How an event is attributed: the call that was open and the scope that was
/// set when it was read.
pub struct Attribution {
    call_id: Option<String>,
    scope_pgid: Option<i32>,
}

/// The bucket of an event: that of the open call; else, once a scope is set,
/// `ambient`; before, `startup`.
pub open spec fn bucket_of(call: Option<Seq<char>>, scope: Option<i32>) -> Seq<char> {
    if call is Some {
        "call"@
    } else if scope is Some {
        "ambient"@
    } else {
        "startup"@
    }
}

/// The members of the message for an event that is in scope; `None` where the
/// record makes none.
pub open spec fn reported(
    bytes: Seq<u8>,
    order: ByteOrder,
    call: Option<Seq<char>>,
    scope: Option<i32>,
) -> Option<Fields> {
    match events::header(bytes, order) {
        None => None,
        Some((kind, pid)) => match decode::decoded(kind, bytes, order) {
            None => None,
            Some(event) => {
                let placed = event.insert("bucket"@, Field::Text(bucket_of(call, scope)));
                let attributed = match call {
                    Some(id) => placed.insert("call_id"@, Field::Text(id)),
                    None => placed,
                };
                Some(attributed.insert("pid"@, Field::Int(pid as int)))
            },
        },
    }
}

/// Whether an event of a process in this group is reported: any is while no
/// scope is set, else only those of the group in scope.
pub open spec fn in_scope(scope: Option<i32>, pgid: Option<i32>) -> bool {
    scope is Some ==> pgid == scope
}

impl Attribution {
    /// The call that was open.
    pub closed spec fn call(&self) -> Option<Seq<char>> {
        control::owned_text(self.call_id)
    }

    /// The process group that was in scope.
    pub closed spec fn scope(&self) -> Option<i32> {
        self.scope_pgid
    }

    fn bucket(&self) -> (bucket: &'static str)
        ensures
            bucket@ == bucket_of(self.call(), self.scope()),
    {
        if self.call_id.is_some() {
            "call"
        } else if self.scope_pgid.is_some() {
            "ambient"
        } else {
            "startup"
        }
    }

    /// Whether an event of a process in group `pgid` is reported.
    pub fn admits(&self, pgid: Option<i32>) -> (admitted: bool)
        ensures
            admitted == in_scope(self.scope(), pgid),
    {
        match self.scope_pgid {
            None => true,
            Some(scope) => match pgid {
                Some(group) => group == scope,
                None => false,
            },
        }
    }

    /// The message for an event that is in scope.
    pub fn report(&self, bytes: &[u8], order: ByteOrder) -> (object: Option<Object>)
        ensures
            decode::object_fields(object) == reported(bytes@, order, self.call(), self.scope()),
    {
        let (kind, pid): (u32, u32) = match events::read_header(bytes, order) {
            Some(head) => head,
            None => {
                return None;
            },
        };
        let mut object = match decode::decode_in(kind, bytes, order) {
            Some(object) => object,
            None => {
                return None;
            },
        };
        json::insert_text(&mut object, "bucket", self.bucket());
        if let Some(id) = &self.call_id {
            json::insert_text(&mut object, "call_id", id.as_str());
        }
        json::insert_u64(&mut object, "pid", pid as u64);
        Some(object)
    }
}

/// The text after the last `c`; `None` where there is none.
pub open spec fn after_last(s: Seq<char>, c: char) -> Option<Seq<char>>
    decreases s.len(),
{
    if s.len() == 0 {
        None
    } else if s.last() == c {
        Some(Seq::empty())
    } else {
        match after_last(s.drop_last(), c) {
            Some(rest) => Some(rest.push(s.last())),
            None => None,
        }
    }
}

/// The process group in the text of a `/proc/<pid>/stat` file: the third field
/// after the last closing parenthesis.
pub open spec fn stat_pgid(stat: Seq<char>) -> Option<i32> {
    match after_last(stat, ')') {
        None => None,
        Some(rest) => if text::words(rest).len() < 3 {
            None
        } else {
            text::read_i32(text::words(rest)[2])
        },
    }
}

proof fn lemma_after_last(s: Seq<char>, c: char, n: int)
    requires
        0 <= n <= s.len(),
        forall|i: int| n <= i < s.len() ==> #[trigger] s[i] != c,
        n > 0 ==> s[n - 1] == c,
    ensures
        n > 0 ==> after_last(s, c) == Some(s.skip(n)),
        n == 0 ==> after_last(s, c) is None,
    decreases s.len(),
{
    if s.len() == n {
        if n > 0 {
            assert(s.skip(n) =~= Seq::empty());
        }
    } else {
        lemma_after_last(s.drop_last(), c, n);
        assert(s[s.len() - 1] != c);
        if n > 0 {
            assert(s.drop_last().skip(n).push(s.last()) =~= s.skip(n));
        }
    }
}

/// Finds a process's process-group id in the text of its `/proc/<pid>/stat`.
///
/// The `comm` field (2nd) is parenthesized and may itself contain spaces or
/// parens, so parsing resumes after the final `)`.
pub fn process_pgid(stat: &str) -> (pgid: Option<i32>)
    ensures
        pgid == stat_pgid(stat@),
{
    let chars: Vec<char> = text::chars_of(stat);
    let mut from: usize = chars.len();
    while from > 0 && chars[from - 1] != ')'
        invariant
            0 <= from <= chars@.len(),
            forall|i: int| from <= i < chars@.len() ==> #[trigger] chars@[i] != ')',
        decreases from,
    {
        from -= 1;
    }
    proof {
        lemma_after_last(stat@, ')', from as int);
    }
    if from == 0 {
        return None;
    }
    // Fields after comm: state, ppid, pgrp, ...
    let (_, state_end): (usize, usize) = match text::next_word(&chars, from) {
        Some(span) => span,
        None => {
            return None;
        },
    };
    let (_, ppid_end): (usize, usize) = match text::next_word(&chars, state_end) {
        Some(span) => span,
        None => {
            return None;
        },
    };
    match text::next_word(&chars, ppid_end) {
        Some((start, end)) => text::parse_i32_in(&chars, start, end),
        None => None,
    }
}

/// The path of a process's stat file.
pub fn stat_path(pid: u32) -> (path: String)
    ensures
        path@ == "/proc/"@ + text::numeral(pid as nat, 10) + "/stat"@,
{
    let mut path: String = String::new();
    path.append("/proc/");
    text::append_numeral(&mut path, pid as u64, 10);
    path.append("/stat");
    assert(path@ =~= "/proc/"@ + text::numeral(pid as nat, 10) + "/stat"@);
    path
}

/// One round of draining the ring: how many records it took, and the process
/// groups that it looked up.
pub struct Batch {
    drained: usize,
    pgids: HashMap<u32, Option<i32>>,
    ring_empty: bool,
    ends_applied: bool,
}

/// How long to wait for more records, in milliseconds.
pub const POLL_MS: i32 = 200;

/// What the loop over the ring does next.
#[derive(Debug, Clone, Copy, PartialEq, Eq, Structural)]
pub enum Step {
    /// Take a record off the ring, or find that it holds none.
    Take,
    /// Take the queued end marks and apply them.
    ApplyEnds,
    /// Wait for more records, at most this many milliseconds, and begin the
    /// next round.
    Wait(i32),
    /// Begin the next round at once: the ring likely still has records.
    Again,
    /// Shut down.
    Stop,
}

/// What comes next in a round that took `drained` records, may have found the
/// ring empty, and may have applied the end marks. A round takes records until
/// the ring is empty or the batch is full, and then applies the end marks that
/// are queued; a shutdown is heeded before a round begins.
pub open spec fn step_of(
    drained: nat,
    ring_empty: bool,
    ends_applied: bool,
    shutdown: bool,
) -> Step {
    if ends_applied {
        if drained < DRAIN_BATCH {
            Step::Wait(POLL_MS)
        } else {
            Step::Again
        }
    } else if ring_empty || drained >= DRAIN_BATCH {
        Step::ApplyEnds
    } else if drained == 0 && shutdown {
        Step::Stop
    } else {
        Step::Take
    }
}

/// What a record comes to, in a batch that knows the groups `known` and then
/// `now_known`: the group is looked up only where a scope is set and the batch
/// does not know it, and an event out of scope makes no message.
pub open spec fn judged<L: Fn(u32) -> Option<i32>>(
    bytes: Seq<u8>,
    order: ByteOrder,
    call: Option<Seq<char>>,
    scope: Option<i32>,
    lookup: L,
    known: Map<u32, Option<i32>>,
    now_known: Map<u32, Option<i32>>,
    message: Option<Fields>,
) -> bool {
    match events::header(bytes, order) {
        None => message is None && now_known == known,
        Some((_, pid)) => if scope is None {
            message == reported(bytes, order, call, scope) && now_known == known
        } else {
            &&& now_known.contains_key(pid)
            &&& known.contains_key(pid) ==> now_known == known
            &&& !known.contains_key(pid) ==> now_known == known.insert(pid, now_known[pid])
                && call_ensures(lookup, (pid,), now_known[pid])
            &&& message == (if in_scope(scope, now_known[pid]) {
                reported(bytes, order, call, scope)
            } else {
                None
            })
        },
    }
}

impl Batch {
    /// How many records were taken.
    pub closed spec fn drained(&self) -> nat {
        self.drained as nat
    }

    /// The process groups looked up so far.
    pub closed spec fn known(&self) -> Map<u32, Option<i32>> {
        self.pgids@
    }

    /// Whether the ring was found empty.
    pub closed spec fn ring_empty(&self) -> bool {
        self.ring_empty
    }

    /// Whether the end marks were applied.
    pub closed spec fn ends_applied(&self) -> bool {
        self.ends_applied
    }

    pub fn new() -> (batch: Self)
        ensures
            batch.drained() == 0,
            batch.known() == Map::<u32, Option<i32>>::empty(),
            !batch.ring_empty(),
            !batch.ends_applied(),
    {
        Batch { drained: 0, pgids: HashMap::new(), ring_empty: false, ends_applied: false }
    }

    /// What to do next, given whether a shutdown was asked for.
    pub fn next_step(&self, shutdown: bool) -> (step: Step)
        ensures
            step == step_of(self.drained(), self.ring_empty(), self.ends_applied(), shutdown),
    {
        if self.ends_applied {
            if self.is_open() {
                Step::Wait(POLL_MS)
            } else {
                Step::Again
            }
        } else if self.ring_empty || !self.is_open() {
            Step::ApplyEnds
        } else if self.drained == 0 && shutdown {
            Step::Stop
        } else {
            Step::Take
        }
    }

    /// Notes that the ring held no record.
    pub fn found_ring_empty(&mut self)
        ensures
            final(self).drained() == old(self).drained(),
            final(self).known() == old(self).known(),
            final(self).ring_empty(),
            final(self).ends_applied() == old(self).ends_applied(),
    {
        self.ring_empty = true;
    }

    /// Notes that the queued end marks were applied.
    pub fn applied_ends(&mut self)
        ensures
            final(self).drained() == old(self).drained(),
            final(self).known() == old(self).known(),
            final(self).ring_empty() == old(self).ring_empty(),
            final(self).ends_applied(),
    {
        self.ends_applied = true;
    }

    /// Whether the batch takes more records.
    pub fn is_open(&self) -> (open: bool)
        ensures
            open == (self.drained() < DRAIN_BATCH),
    {
        self.drained < DRAIN_BATCH
    }

    fn pgid_of<L: Fn(u32) -> Option<i32>>(&mut self, pid: u32, lookup: &L) -> (pgid: Option<i32>)
        requires
            call_requires(*lookup, (pid,)),
        ensures
            final(self).drained() == old(self).drained(),
            final(self).ring_empty() == old(self).ring_empty(),
            final(self).ends_applied() == old(self).ends_applied(),
            final(self).known().contains_key(pid),
            final(self).known()[pid] == pgid,
            old(self).known().contains_key(pid) ==> final(self).known() == old(self).known(),
            !old(self).known().contains_key(pid) ==> final(self).known() == old(
                self,
            ).known().insert(pid, pgid) && call_ensures(*lookup, (pid,), pgid),
    {
        broadcast use vstd::std_specs::hash::group_hash_axioms;

        if let Some(known) = self.pgids.get(&pid) {
            return *known;
        }
        let pgid: Option<i32> = lookup(pid);
        self.pgids.insert(pid, pgid);
        pgid
    }

    /// Takes a record whose integers are in the given byte order, and gives
    /// the message to stamp and write, if any.
    pub fn process_in<L: Fn(u32) -> Option<i32>>(
        &mut self,
        attribution: &Attribution,
        bytes: &[u8],
        order: ByteOrder,
        lookup: &L,
    ) -> (object: Option<Object>)
        requires
            old(self).drained() < DRAIN_BATCH,
            forall|pid: u32| call_requires(*lookup, (pid,)),
        ensures
            final(self).drained() == old(self).drained() + 1,
            final(self).ring_empty() == old(self).ring_empty(),
            final(self).ends_applied() == old(self).ends_applied(),
            judged(
                bytes@,
                order,
                attribution.call(),
                attribution.scope(),
                *lookup,
                old(self).known(),
                final(self).known(),
                decode::object_fields(object),
            ),
    {
        self.drained += 1;
        let pid: u32 = match events::read_header(bytes, order) {
            Some((_, pid)) => pid,
            None => {
                return None;
            },
        };
        if attribution.scope_pgid.is_some() {
            let pgid: Option<i32> = self.pgid_of(pid, lookup);
            if !attribution.admits(pgid) {
                return None;
            }
        }
        attribution.report(bytes, order)
    }

    /// Takes a record off the ring, written by this machine, and gives the
    /// message to stamp and write, if any. `lookup` finds the group of a
    /// process.
    pub fn process<L: Fn(u32) -> Option<i32>>(
        &mut self,
        attribution: &Attribution,
        bytes: &[u8],
        lookup: &L,
    ) -> (object: Option<Object>)
        requires
            old(self).drained() < DRAIN_BATCH,
            forall|pid: u32| call_requires(*lookup, (pid,)),
        ensures
            final(self).drained() == old(self).drained() + 1,
            final(self).ring_empty() == old(self).ring_empty(),
            final(self).ends_applied() == old(self).ends_applied(),
            exists|order: ByteOrder|
                events::is_native(order) && #[trigger] judged(
                    bytes@,
                    order,
                    attribution.call(),
                    attribution.scope(),
                    *lookup,
                    old(self).known(),
                    final(self).known(),
                    decode::object_fields(object),
                ),
    {
        let order = events::native_order();
        self.process_in(attribution, bytes, order, lookup)
    }
}

/// Whether these are the tracepoints under `syscalls` that the backend
/// attaches, by the name of the program and of the event alike.
pub open spec fn are_tracepoints(names: Seq<&'static str>) -> bool {
    &&& names.len() == 9
    &&& names[0]@ == "sys_enter_execve"@
    &&& names[1]@ == "sys_enter_connect"@
    &&& names[2]@ == "sys_enter_sendto"@
    &&& names[3]@ == "sys_enter_openat"@
    &&& names[4]@ == "sys_enter_unlinkat"@
    &&& names[5]@ == "sys_enter_unlink"@
    &&& names[6]@ == "sys_enter_fchmodat"@
    &&& names[7]@ == "sys_enter_chmod"@
    &&& names[8]@ == "sys_enter_ptrace"@
}

/// The tracepoints that the backend attaches.
pub fn tracepoints() -> (names: Vec<&'static str>)
    ensures
        are_tracepoints(names@),
{
    let mut names: Vec<&'static str> = Vec::new();
    names.push("sys_enter_execve");
    names.push("sys_enter_connect");
    names.push("sys_enter_sendto");
    names.push("sys_enter_openat");
    names.push("sys_enter_unlinkat");
    names.push("sys_enter_unlink");
    names.push("sys_enter_fchmodat");
    names.push("sys_enter_chmod");
    names.push("sys_enter_ptrace");
    names
}

/// Stands in for the backend in a build without it.
pub fn run() -> (outcome: Result<(), String>)
    ensures
        outcome matches Err(error) && error@
            == "eBPF backend not compiled in; rebuild on Linux with --features ebpf"@,
{
    Err("eBPF backend not compiled in; rebuild on Linux with --features ebpf".to_owned())
}

} // verus!
