//! What a record looks like in memory, and that reading gives back what was
//! written.

use vstd::prelude::*;

use crate::events;
use crate::events::{
    ByteOrder, ExecEvent, NetEvent, PathEvent, PtraceEvent, EXEC_SIZE, NET_SIZE, PATH_SIZE,
    PTRACE_SIZE,
};

verus! {

/// The `n` low bytes of `v`, least significant first.
pub open spec fn little_bytes(v: nat, n: nat) -> Seq<u8>
    decreases n,
{
    if n == 0 {
        Seq::empty()
    } else {
        seq![(v % 256) as u8] + little_bytes(v / 256, (n - 1) as nat)
    }
}

/// An unsigned integer field of `n` bytes that holds `v`.
pub open spec fn uint_bytes(v: nat, n: nat, order: ByteOrder) -> Seq<u8> {
    match order {
        ByteOrder::Little => little_bytes(v, n),
        ByteOrder::Big => little_bytes(v, n).reverse(),
    }
}

/// A signed integer field of 8 bytes that holds `v`, in two's complement.
pub open spec fn int_bytes(v: i64, order: ByteOrder) -> Seq<u8> {
    uint_bytes(
        if v >= 0 {
            v as nat
        } else {
            (v + 0x1_0000_0000_0000_0000) as nat
        },
        8,
        order,
    )
}

/// An exec record in memory.
pub open spec fn exec_record(event: ExecEvent, order: ByteOrder) -> Seq<u8> {
    uint_bytes(event.kind as nat, 4, order) + uint_bytes(event.pid as nat, 4, order) + uint_bytes(
        event.tid as nat,
        4,
        order,
    ) + event.filename@ + event.comm@
}

/// A network record in memory.
pub open spec fn net_record(event: NetEvent, order: ByteOrder) -> Seq<u8> {
    uint_bytes(event.kind as nat, 4, order) + uint_bytes(event.pid as nat, 4, order) + uint_bytes(
        event.tid as nat,
        4,
        order,
    ) + uint_bytes(event.af as nat, 2, order) + uint_bytes(event.port_be as nat, 2, order)
        + event.addr@ + event.comm@
}

/// A path record in memory, with whatever the padding holds.
pub open spec fn path_record(event: PathEvent, order: ByteOrder, padding: Seq<u8>) -> Seq<u8> {
    uint_bytes(event.kind as nat, 4, order) + uint_bytes(event.pid as nat, 4, order) + uint_bytes(
        event.tid as nat,
        4,
        order,
    ) + padding + int_bytes(event.arg, order) + event.filename@ + event.comm@
}

/// A ptrace record in memory, with whatever the padding holds.
pub open spec fn ptrace_record(event: PtraceEvent, order: ByteOrder, padding: Seq<u8>) -> Seq<u8> {
    uint_bytes(event.kind as nat, 4, order) + uint_bytes(event.pid as nat, 4, order) + uint_bytes(
        event.tid as nat,
        4,
        order,
    ) + padding + int_bytes(event.request, order) + int_bytes(event.target_pid, order) + event.comm@
}

/// How many values `n` bytes can hold.
spec fn capacity(n: nat) -> nat
    decreases n,
{
    if n == 0 {
        1
    } else {
        256 * capacity((n - 1) as nat)
    }
}

proof fn lemma_little_bytes(v: nat, n: nat)
    requires
        v < capacity(n),
    ensures
        little_bytes(v, n).len() == n,
        events::little(little_bytes(v, n)) == v,
    decreases n,
{
    if n > 0 {
        lemma_little_bytes(v / 256, (n - 1) as nat);
        let bytes = little_bytes(v, n);
        assert(bytes.drop_first() =~= little_bytes(v / 256, (n - 1) as nat));
        assert(bytes.first() == v % 256);
    }
}

pub(crate) proof fn lemma_uint_bytes(v: nat, n: nat, order: ByteOrder)
    requires
        n == 2 ==> v < 0x1_0000,
        n == 4 ==> v < 0x1_0000_0000,
        n == 8 ==> v < 0x1_0000_0000_0000_0000,
        n == 2 || n == 4 || n == 8,
    ensures
        uint_bytes(v, n, order).len() == n,
        events::uint(uint_bytes(v, n, order), order) == v,
{
    reveal_with_fuel(capacity, 9);
    lemma_little_bytes(v, n);
    let bytes = little_bytes(v, n);
    assert(bytes.reverse().reverse() =~= bytes);
}

proof fn lemma_int_bytes(v: i64, order: ByteOrder)
    ensures
        int_bytes(v, order).len() == 8,
        events::signed64(events::uint(int_bytes(v, order), order)) == v,
{
    let bits = if v >= 0 {
        v as nat
    } else {
        (v + 0x1_0000_0000_0000_0000) as nat
    };
    lemma_uint_bytes(bits, 8, order);
}

proof fn lemma_ids(kind: u32, pid: u32, tid: u32, rest: Seq<u8>, order: ByteOrder)
    ensures
        ({
            let bytes = uint_bytes(kind as nat, 4, order) + uint_bytes(pid as nat, 4, order)
                + uint_bytes(tid as nat, 4, order) + rest;
            &&& bytes.len() == 12 + rest.len()
            &&& bytes.subrange(0, 4) == uint_bytes(kind as nat, 4, order)
            &&& bytes.subrange(4, 8) == uint_bytes(pid as nat, 4, order)
            &&& bytes.subrange(8, 12) == uint_bytes(tid as nat, 4, order)
            &&& events::uint(bytes.subrange(0, 4), order) == kind
            &&& events::uint(bytes.subrange(4, 8), order) == pid
            &&& events::uint(bytes.subrange(8, 12), order) == tid
            &&& events::header(bytes, order) == Some((kind, pid))
        }),
{
    lemma_uint_bytes(kind as nat, 4, order);
    lemma_uint_bytes(pid as nat, 4, order);
    lemma_uint_bytes(tid as nat, 4, order);
    let bytes = uint_bytes(kind as nat, 4, order) + uint_bytes(pid as nat, 4, order) + uint_bytes(
        tid as nat,
        4,
        order,
    ) + rest;
    assert(bytes.subrange(0, 4) =~= uint_bytes(kind as nat, 4, order));
    assert(bytes.subrange(4, 8) =~= uint_bytes(pid as nat, 4, order));
    assert(bytes.subrange(8, 12) =~= uint_bytes(tid as nat, 4, order));
}

/// The bytes of an exec record, whatever follows them, hold that event and no
/// other, under the header that its `kind` and `pid` make.
pub proof fn law_exec_read_back(event: ExecEvent, order: ByteOrder, rest: Seq<u8>)
    ensures
        exec_record(event, order).len() == EXEC_SIZE,
        events::header(exec_record(event, order) + rest, order) == Some((event.kind, event.pid)),
        events::holds_exec(exec_record(event, order) + rest, order, event),
        forall|back: ExecEvent|
            events::holds_exec(exec_record(event, order) + rest, order, back) ==> back == event,
{
    let tail = event.filename@ + event.comm@ + rest;
    lemma_ids(event.kind, event.pid, event.tid, tail, order);
    let bytes = exec_record(event, order) + rest;
    assert(bytes =~= uint_bytes(event.kind as nat, 4, order) + uint_bytes(
        event.pid as nat,
        4,
        order,
    ) + uint_bytes(event.tid as nat, 4, order) + tail);
    assert(bytes.subrange(12, 268) =~= event.filename@);
    assert(bytes.subrange(268, 284) =~= event.comm@);
    assert forall|back: ExecEvent| events::holds_exec(bytes, order, back) implies back == event by {
        assert(back.filename =~= event.filename);
        assert(back.comm =~= event.comm);
    }
}

/// The bytes of a network record, whatever follows them, hold that event and
/// no other, under the header that its `kind` and `pid` make.
pub proof fn law_net_read_back(event: NetEvent, order: ByteOrder, rest: Seq<u8>)
    ensures
        net_record(event, order).len() == NET_SIZE,
        events::header(net_record(event, order) + rest, order) == Some((event.kind, event.pid)),
        events::holds_net(net_record(event, order) + rest, order, event),
        forall|back: NetEvent|
            events::holds_net(net_record(event, order) + rest, order, back) ==> back == event,
{
    lemma_uint_bytes(event.af as nat, 2, order);
    lemma_uint_bytes(event.port_be as nat, 2, order);
    let tail = uint_bytes(event.af as nat, 2, order) + uint_bytes(event.port_be as nat, 2, order)
        + event.addr@ + event.comm@ + rest;
    lemma_ids(event.kind, event.pid, event.tid, tail, order);
    let bytes = net_record(event, order) + rest;
    assert(bytes =~= uint_bytes(event.kind as nat, 4, order) + uint_bytes(
        event.pid as nat,
        4,
        order,
    ) + uint_bytes(event.tid as nat, 4, order) + tail);
    assert(bytes.subrange(12, 14) =~= uint_bytes(event.af as nat, 2, order));
    assert(bytes.subrange(14, 16) =~= uint_bytes(event.port_be as nat, 2, order));
    assert(bytes.subrange(16, 32) =~= event.addr@);
    assert(bytes.subrange(32, 48) =~= event.comm@);
    assert forall|back: NetEvent| events::holds_net(bytes, order, back) implies back == event by {
        assert(back.addr =~= event.addr);
        assert(back.comm =~= event.comm);
    }
}

pub(crate) proof fn lemma_port_bytes(event: NetEvent, order: ByteOrder, rest: Seq<u8>)
    ensures
        (net_record(event, order) + rest).subrange(14, 16) == uint_bytes(
            event.port_be as nat,
            2,
            order,
        ),
{
    lemma_uint_bytes(event.kind as nat, 4, order);
    lemma_uint_bytes(event.pid as nat, 4, order);
    lemma_uint_bytes(event.tid as nat, 4, order);
    lemma_uint_bytes(event.af as nat, 2, order);
    lemma_uint_bytes(event.port_be as nat, 2, order);
    assert((net_record(event, order) + rest).subrange(14, 16) =~= uint_bytes(
        event.port_be as nat,
        2,
        order,
    ));
}

/// The bytes of a path record, whatever its padding holds and whatever follows
/// them, hold that event and no other, under the header that its `kind` and
/// `pid` make.
pub proof fn law_path_read_back(
    event: PathEvent,
    order: ByteOrder,
    padding: Seq<u8>,
    rest: Seq<u8>,
)
    requires
        padding.len() == 4,
    ensures
        path_record(event, order, padding).len() == PATH_SIZE,
        events::header(path_record(event, order, padding) + rest, order) == Some((event.kind, event.pid)),
        events::holds_path(path_record(event, order, padding) + rest, order, event),
        forall|back: PathEvent|
            events::holds_path(path_record(event, order, padding) + rest, order, back) ==> back == event,
{
    lemma_int_bytes(event.arg, order);
    let tail = padding + int_bytes(event.arg, order) + event.filename@ + event.comm@ + rest;
    lemma_ids(event.kind, event.pid, event.tid, tail, order);
    let bytes = path_record(event, order, padding) + rest;
    assert(bytes =~= uint_bytes(event.kind as nat, 4, order) + uint_bytes(
        event.pid as nat,
        4,
        order,
    ) + uint_bytes(event.tid as nat, 4, order) + tail);
    assert(bytes.subrange(16, 24) =~= int_bytes(event.arg, order));
    assert(bytes.subrange(24, 280) =~= event.filename@);
    assert(bytes.subrange(280, 296) =~= event.comm@);
    assert forall|back: PathEvent| events::holds_path(bytes, order, back) implies back == event by {
        assert(back.filename =~= event.filename);
        assert(back.comm =~= event.comm);
    }
}

/// The bytes of a ptrace record, whatever its padding holds and whatever
/// follows them, hold that event and no other, under the header that its
/// `kind` and `pid` make.
pub proof fn law_ptrace_read_back(
    event: PtraceEvent,
    order: ByteOrder,
    padding: Seq<u8>,
    rest: Seq<u8>,
)
    requires
        padding.len() == 4,
    ensures
        ptrace_record(event, order, padding).len() == PTRACE_SIZE,
        events::header(ptrace_record(event, order, padding) + rest, order) == Some(
            (event.kind, event.pid),
        ),
        events::holds_ptrace(ptrace_record(event, order, padding) + rest, order, event),
        forall|back: PtraceEvent|
            events::holds_ptrace(ptrace_record(event, order, padding) + rest, order, back) ==> back
                == event,
{
    lemma_int_bytes(event.request, order);
    lemma_int_bytes(event.target_pid, order);
    let tail = padding + int_bytes(event.request, order) + int_bytes(event.target_pid, order)
        + event.comm@ + rest;
    lemma_ids(event.kind, event.pid, event.tid, tail, order);
    let bytes = ptrace_record(event, order, padding) + rest;
    assert(bytes =~= uint_bytes(event.kind as nat, 4, order) + uint_bytes(
        event.pid as nat,
        4,
        order,
    ) + uint_bytes(event.tid as nat, 4, order) + tail);
    assert(bytes.subrange(16, 24) =~= int_bytes(event.request, order));
    assert(bytes.subrange(24, 32) =~= int_bytes(event.target_pid, order));
    assert(bytes.subrange(32, 48) =~= event.comm@);
    assert forall|back: PtraceEvent| events::holds_ptrace(bytes, order, back) implies back == event by {
        assert(back.comm =~= event.comm);
    }
}

} // verus!
