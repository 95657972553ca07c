//! The records that the kernel side puts on the ring buffer.
//!
//! A record is plain data in C layout. Every record begins with a `kind`
//! discriminant and the process id, so that a mixed stream can be decoded.

use vstd::prelude::*;
use vstd::utf8::*;

verus! {

pub const FILENAME_LEN: usize = 256;

pub const COMM_LEN: usize = 16;

pub const ADDR_LEN: usize = 16;

pub const KIND_EXEC: u32 = 1;

pub const KIND_CONNECT: u32 = 2;

pub const KIND_SENDTO: u32 = 3;

pub const KIND_FILE_OPEN: u32 = 4;

pub const KIND_UNLINK: u32 = 5;

pub const KIND_CHMOD: u32 = 6;

pub const KIND_PTRACE: u32 = 7;

/// Bytes in the `kind` and `pid` that begin every record.
pub const HEADER_SIZE: usize = 8;

/// Bytes in an [`ExecEvent`] record.
pub const EXEC_SIZE: usize = 284;

/// Bytes in a [`NetEvent`] record.
pub const NET_SIZE: usize = 48;

/// Bytes in a [`PathEvent`] record.
pub const PATH_SIZE: usize = 296;

/// Bytes in a [`PtraceEvent`] record.
pub const PTRACE_SIZE: usize = 48;

/// A process-exec event captured on `sys_enter_execve`.
#[derive(Clone, Copy)]
pub struct ExecEvent {
    pub kind: u32,
    /// Thread-group id (the "pid" as userspace means it).
    pub pid: u32,
    /// Kernel thread id of the caller.
    pub tid: u32,
    /// execve target path (from the syscall's first argument).
    pub filename: [u8; FILENAME_LEN],
    /// Task comm at exec time.
    pub comm: [u8; COMM_LEN],
}

/// A network destination event: `connect` (`KIND_CONNECT`) or `sendto`
/// (`KIND_SENDTO`). `port_be` is network byte order; `addr` holds 4 bytes for
/// `AF_INET` and 16 for `AF_INET6`.
#[derive(Clone, Copy)]
pub struct NetEvent {
    pub kind: u32,
    pub pid: u32,
    pub tid: u32,
    pub af: u16,
    pub port_be: u16,
    pub addr: [u8; ADDR_LEN],
    pub comm: [u8; COMM_LEN],
}

/// A path-based syscall event: `openat` (`KIND_FILE_OPEN`), `unlinkat`
/// (`KIND_UNLINK`), or `fchmodat` (`KIND_CHMOD`). `arg` carries the open flags,
/// the chmod mode, or is unused for unlink.
#[derive(Clone, Copy)]
pub struct PathEvent {
    pub kind: u32,
    pub pid: u32,
    pub tid: u32,
    pub arg: i64,
    pub filename: [u8; FILENAME_LEN],
    pub comm: [u8; COMM_LEN],
}

/// A `ptrace` event (`KIND_PTRACE`): potential process injection.
#[derive(Clone, Copy)]
pub struct PtraceEvent {
    pub kind: u32,
    pub pid: u32,
    pub tid: u32,
    pub request: i64,
    pub target_pid: i64,
    pub comm: [u8; COMM_LEN],
}

/// The bytes before the first NUL, or all of them where there is none.
pub open spec fn until_nul(bytes: Seq<u8>) -> Seq<u8>
    decreases bytes.len(),
{
    if bytes.len() == 0 || bytes.first() == 0 {
        Seq::empty()
    } else {
        seq![bytes.first()] + until_nul(bytes.drop_first())
    }
}

/// The text that a NUL-padded field holds: empty where the bytes before the
/// first NUL are not UTF-8.
pub open spec fn field_text(bytes: Seq<u8>) -> Seq<char> {
    if valid_utf8(until_nul(bytes)) {
        decode_utf8(until_nul(bytes))
    } else {
        Seq::empty()
    }
}

#[verifier::external_type_specification]
#[verifier::external_body]
pub struct ExUtf8Error(core::str::Utf8Error);

/// `core::str::from_utf8` succeeds exactly on UTF-8, with the text whose
/// encoding the bytes are.
pub assume_specification[ core::str::from_utf8 ](bytes: &[u8]) -> (decoded: Result<&str, core::str::Utf8Error>)
    ensures
        decoded is Ok <==> valid_utf8(bytes@),
        decoded matches Ok(s) ==> encode_utf8(s@) == bytes@,
;

proof fn lemma_until_nul(bytes: Seq<u8>, n: int)
    requires
        0 <= n <= bytes.len(),
        forall|i: int| 0 <= i < n ==> #[trigger] bytes[i] != 0,
        n < bytes.len() ==> bytes[n] == 0,
    ensures
        until_nul(bytes) == bytes.take(n),
    decreases n,
{
    if n > 0 {
        lemma_until_nul(bytes.drop_first(), n - 1);
        assert(seq![bytes.first()] + bytes.drop_first().take(n - 1) =~= bytes.take(n));
    } else {
        assert(bytes.take(n) =~= Seq::<u8>::empty());
    }
}

/// Interpret a NUL-padded field as a `&str`, dropping the trailing NULs.
pub fn as_str(buf: &[u8]) -> (text: &str)
    ensures
        text@ == field_text(buf@),
{
    let mut end: usize = 0;
    while end < buf.len() && buf[end] != 0
        invariant
            0 <= end <= buf@.len(),
            forall|i: int| 0 <= i < end ==> #[trigger] buf@[i] != 0,
        decreases buf@.len() - end,
    {
        end += 1;
    }
    proof {
        lemma_until_nul(buf@, end as int);
        assert(buf@.subrange(0, end as int) =~= buf@.take(end as int));
    }
    match core::str::from_utf8(vstd::slice::slice_subrange(buf, 0, end)) {
        Ok(text) => {
            proof {
                vstd::utf8::encode_utf8_decode_utf8(text@);
            }
            text
        },
        Err(_) => {
            proof {
                reveal_strlit("");
                assert(""@ =~= Seq::<char>::empty());
            }
            ""
        },
    }
}

/// The order of the bytes of an integer in memory.
#[derive(Debug, Clone, Copy, PartialEq, Eq, Structural)]
pub enum ByteOrder {
    Little,
    Big,
}

/// The number whose bytes, least significant first, are given.
pub open spec fn little(bytes: Seq<u8>) -> nat
    decreases bytes.len(),
{
    if bytes.len() == 0 {
        0
    } else {
        bytes.first() as nat + 256 * little(bytes.drop_first())
    }
}

/// The number that an integer field holds.
pub open spec fn uint(bytes: Seq<u8>, order: ByteOrder) -> nat {
    match order {
        ByteOrder::Little => little(bytes),
        ByteOrder::Big => little(bytes.reverse()),
    }
}

/// The two's complement reading of a 64-bit number.
pub open spec fn signed64(v: nat) -> int {
    if v < 0x8000_0000_0000_0000 {
        v as int
    } else {
        v - 0x1_0000_0000_0000_0000
    }
}

/// `u16::from_ne_bytes` reads the two bytes in the byte order of the machine:
/// one of the two orders, and the contract leaves open which.
#[verifier::external_body]
fn u16_from_ne_bytes(bytes: [u8; 2]) -> (v: u16)
    ensures
        v == little(bytes@) || v == little(bytes@.reverse()),
{
    u16::from_ne_bytes(bytes)
}

/// Whether the machine reads integers in this order: least significant byte
/// first where it reads the bytes one and zero as the number one, else most
/// significant byte first.
pub closed spec fn is_native(order: ByteOrder) -> bool {
    exists|bytes: [u8; 2], v: u16|
        bytes@ == seq![1u8, 0u8] && #[trigger] call_ensures(u16_from_ne_bytes, (bytes,), v) && order
            == (if v == 1 {
            ByteOrder::Little
        } else {
            ByteOrder::Big
        })
}

/// The order of the machine is the one in which it reads two bytes: little where
/// one and then zero make one, big where they make 256.
proof fn law_native_order(order: ByteOrder)
    requires
        is_native(order),
    ensures
        exists|bytes: [u8; 2], v: u16| #[trigger]
            call_ensures(u16_from_ne_bytes, (bytes,), v) && bytes@[0] == 1 && bytes@[1] == 0 && (
            order == ByteOrder::Little && v == 1 || order == ByteOrder::Big && v == 256),
{
    let (bytes, v) = choose|bytes: [u8; 2], v: u16|
        bytes@ == seq![1u8, 0u8] && #[trigger] call_ensures(u16_from_ne_bytes, (bytes,), v) && order
            == (if v == 1 {
            ByteOrder::Little
        } else {
            ByteOrder::Big
        });
    reveal_with_fuel(little, 3);
    assert(bytes@.reverse() =~= seq![0u8, 1u8]);
    assert(call_ensures(u16_from_ne_bytes, (bytes,), v));
}

/// The byte order of this machine.
pub(crate) fn native_order() -> (order: ByteOrder)
    ensures
        is_native(order),
{
    let probe: u16 = u16_from_ne_bytes([1, 0]);
    if probe == 1 {
        ByteOrder::Little
    } else {
        ByteOrder::Big
    }
}

pub(crate) fn read_u16(bytes: &[u8], at: usize, order: ByteOrder) -> (v: u16)
    requires
        at + 2 <= bytes@.len(),
    ensures
        v == uint(bytes@.subrange(at as int, at + 2), order),
{
    let ghost s = bytes@.subrange(at as int, at + 2);
    let b0: u16 = bytes[at] as u16;
    let b1: u16 = bytes[at + 1] as u16;
    proof {
        reveal_with_fuel(little, 3);
        assert(s.reverse() =~= seq![s[1], s[0]]);
    }
    match order {
        ByteOrder::Little => b0 + 256 * b1,
        ByteOrder::Big => b1 + 256 * b0,
    }
}

pub(crate) fn read_u32(bytes: &[u8], at: usize, order: ByteOrder) -> (v: u32)
    requires
        at + 4 <= bytes@.len(),
    ensures
        v == uint(bytes@.subrange(at as int, at + 4), order),
{
    let ghost s = bytes@.subrange(at as int, at + 4);
    let b0: u32 = bytes[at] as u32;
    let b1: u32 = bytes[at + 1] as u32;
    let b2: u32 = bytes[at + 2] as u32;
    let b3: u32 = bytes[at + 3] as u32;
    proof {
        reveal_with_fuel(little, 5);
        assert(s.reverse() =~= seq![s[3], s[2], s[1], s[0]]);
    }
    match order {
        ByteOrder::Little => b0 + 256 * (b1 + 256 * (b2 + 256 * b3)),
        ByteOrder::Big => b3 + 256 * (b2 + 256 * (b1 + 256 * b0)),
    }
}

pub(crate) fn read_i64(bytes: &[u8], at: usize, order: ByteOrder) -> (v: i64)
    requires
        at + 8 <= bytes@.len(),
    ensures
        v == signed64(uint(bytes@.subrange(at as int, at + 8), order)),
{
    let ghost s = bytes@.subrange(at as int, at + 8);
    assert(bytes@.len() == bytes.len());
    let first: u64 = read_u32(bytes, at, order) as u64;
    let second: u64 = read_u32(bytes, at + 4, order) as u64;
    proof {
        reveal_with_fuel(little, 9);
        let lo = bytes@.subrange(at as int, at + 4);
        let hi = bytes@.subrange(at + 4, at + 8);
        assert(lo =~= seq![s[0], s[1], s[2], s[3]]);
        assert(hi =~= seq![s[4], s[5], s[6], s[7]]);
        assert(lo.reverse() =~= seq![s[3], s[2], s[1], s[0]]);
        assert(hi.reverse() =~= seq![s[7], s[6], s[5], s[4]]);
        assert(s.reverse() =~= seq![s[7], s[6], s[5], s[4], s[3], s[2], s[1], s[0]]);
    }
    let v: u64 = match order {
        ByteOrder::Little => first + 0x1_0000_0000 * second,
        ByteOrder::Big => second + 0x1_0000_0000 * first,
    };
    assert(v == uint(s, order));
    if v < 0x8000_0000_0000_0000 {
        v as i64
    } else {
        -((u64::MAX - v) as i64) - 1
    }
}

fn read_bytes<const N: usize>(bytes: &[u8], at: usize) -> (field: [u8; N])
    requires
        at + N <= bytes@.len(),
    ensures
        field@ == bytes@.subrange(at as int, at + N),
{
    let mut field: [u8; N] = [0u8; N];
    let mut i: usize = 0;
    while i < N
        invariant
            at + N <= bytes@.len() == bytes.len(),
            0 <= i <= N,
            forall|j: int| 0 <= j < i ==> #[trigger] field@[j] == bytes@[at + j],
        decreases N - i,
    {
        field[i] = bytes[at + i];
        i += 1;
    }
    assert(field@ =~= bytes@.subrange(at as int, at + N));
    field
}

/// The `kind` and `pid` that begin a record; `None` where it is too short to
/// hold them.
pub open spec fn header(bytes: Seq<u8>, order: ByteOrder) -> Option<(u32, u32)> {
    if bytes.len() < HEADER_SIZE {
        None
    } else {
        Some((uint(bytes.subrange(0, 4), order) as u32, uint(bytes.subrange(4, 8), order) as u32))
    }
}

/// Reads the `kind` and `pid` that begin every record.
pub fn read_header(bytes: &[u8], order: ByteOrder) -> (head: Option<(u32, u32)>)
    ensures
        head == header(bytes@, order),
{
    if bytes.len() < HEADER_SIZE {
        return None;
    }
    Some((read_u32(bytes, 0, order), read_u32(bytes, 4, order)))
}

/// Whether `event` is what the leading bytes of an exec record hold.
pub open spec fn holds_exec(bytes: Seq<u8>, order: ByteOrder, event: ExecEvent) -> bool {
    &&& EXEC_SIZE <= bytes.len()
    &&& event.kind == uint(bytes.subrange(0, 4), order)
    &&& event.pid == uint(bytes.subrange(4, 8), order)
    &&& event.tid == uint(bytes.subrange(8, 12), order)
    &&& event.filename@ == bytes.subrange(12, 268)
    &&& event.comm@ == bytes.subrange(268, 284)
}

/// Reads an exec record; `None` exactly where the bytes are too few.
pub fn read_exec(bytes: &[u8], order: ByteOrder) -> (event: Option<ExecEvent>)
    ensures
        event is None <==> bytes@.len() < EXEC_SIZE,
        event matches Some(e) ==> holds_exec(bytes@, order, e),
{
    if bytes.len() < EXEC_SIZE {
        return None;
    }
    Some(
        ExecEvent {
            kind: read_u32(bytes, 0, order),
            pid: read_u32(bytes, 4, order),
            tid: read_u32(bytes, 8, order),
            filename: read_bytes(bytes, 12),
            comm: read_bytes(bytes, 268),
        },
    )
}

/// Whether `event` is what the leading bytes of a network record hold.
pub open spec fn holds_net(bytes: Seq<u8>, order: ByteOrder, event: NetEvent) -> bool {
    &&& NET_SIZE <= bytes.len()
    &&& event.kind == uint(bytes.subrange(0, 4), order)
    &&& event.pid == uint(bytes.subrange(4, 8), order)
    &&& event.tid == uint(bytes.subrange(8, 12), order)
    &&& event.af == uint(bytes.subrange(12, 14), order)
    &&& event.port_be == uint(bytes.subrange(14, 16), order)
    &&& event.addr@ == bytes.subrange(16, 32)
    &&& event.comm@ == bytes.subrange(32, 48)
}

/// Reads a network record; `None` exactly where the bytes are too few.
pub fn read_net(bytes: &[u8], order: ByteOrder) -> (event: Option<NetEvent>)
    ensures
        event is None <==> bytes@.len() < NET_SIZE,
        event matches Some(e) ==> holds_net(bytes@, order, e),
{
    if bytes.len() < NET_SIZE {
        return None;
    }
    Some(
        NetEvent {
            kind: read_u32(bytes, 0, order),
            pid: read_u32(bytes, 4, order),
            tid: read_u32(bytes, 8, order),
            af: read_u16(bytes, 12, order),
            port_be: read_u16(bytes, 14, order),
            addr: read_bytes(bytes, 16),
            comm: read_bytes(bytes, 32),
        },
    )
}

/// Whether `event` is what the leading bytes of a path record hold. Four bytes
/// of padding come before `arg`.
pub open spec fn holds_path(bytes: Seq<u8>, order: ByteOrder, event: PathEvent) -> bool {
    &&& PATH_SIZE <= bytes.len()
    &&& event.kind == uint(bytes.subrange(0, 4), order)
    &&& event.pid == uint(bytes.subrange(4, 8), order)
    &&& event.tid == uint(bytes.subrange(8, 12), order)
    &&& event.arg == signed64(uint(bytes.subrange(16, 24), order))
    &&& event.filename@ == bytes.subrange(24, 280)
    &&& event.comm@ == bytes.subrange(280, 296)
}

/// Reads a path record; `None` exactly where the bytes are too few.
pub fn read_path(bytes: &[u8], order: ByteOrder) -> (event: Option<PathEvent>)
    ensures
        event is None <==> bytes@.len() < PATH_SIZE,
        event matches Some(e) ==> holds_path(bytes@, order, e),
{
    if bytes.len() < PATH_SIZE {
        return None;
    }
    Some(
        PathEvent {
            kind: read_u32(bytes, 0, order),
            pid: read_u32(bytes, 4, order),
            tid: read_u32(bytes, 8, order),
            arg: read_i64(bytes, 16, order),
            filename: read_bytes(bytes, 24),
            comm: read_bytes(bytes, 280),
        },
    )
}

/// Whether `event` is what the leading bytes of a ptrace record hold. Four
/// bytes of padding come before `request`.
pub open spec fn holds_ptrace(bytes: Seq<u8>, order: ByteOrder, event: PtraceEvent) -> bool {
    &&& PTRACE_SIZE <= bytes.len()
    &&& event.kind == uint(bytes.subrange(0, 4), order)
    &&& event.pid == uint(bytes.subrange(4, 8), order)
    &&& event.tid == uint(bytes.subrange(8, 12), order)
    &&& event.request == signed64(uint(bytes.subrange(16, 24), order))
    &&& event.target_pid == signed64(uint(bytes.subrange(24, 32), order))
    &&& event.comm@ == bytes.subrange(32, 48)
}

/// Reads a ptrace record; `None` exactly where the bytes are too few.
pub fn read_ptrace(bytes: &[u8], order: ByteOrder) -> (event: Option<PtraceEvent>)
    ensures
        event is None <==> bytes@.len() < PTRACE_SIZE,
        event matches Some(e) ==> holds_ptrace(bytes@, order, e),
{
    if bytes.len() < PTRACE_SIZE {
        return None;
    }
    Some(
        PtraceEvent {
            kind: read_u32(bytes, 0, order),
            pid: read_u32(bytes, 4, order),
            tid: read_u32(bytes, 8, order),
            request: read_i64(bytes, 16, order),
            target_pid: read_i64(bytes, 24, order),
            comm: read_bytes(bytes, 32),
        },
    )
}

/// What an exec record holds but for the filename.
#[derive(Debug, Clone, Copy)]
pub struct ExecHead {
    pub kind: u32,
    pub pid: u32,
    pub tid: u32,
    pub comm: [u8; COMM_LEN],
}

/// Starts the record of an exec: gives the ids out of the combined value that
/// the kernel gives (thread-group id in the upper half, thread id in the lower)
/// and the comm, zeroed where it could not be read, and empties the filename in
/// place.
pub fn capture_exec(
    pid_tgid: u64,
    comm: Option<[u8; COMM_LEN]>,
    filename: &mut [u8; FILENAME_LEN],
) -> (head: ExecHead)
    ensures
        head.kind == KIND_EXEC,
        head.pid == pid_tgid / 0x1_0000_0000,
        head.tid == pid_tgid % 0x1_0000_0000,
        comm matches Some(c) ==> head.comm@ == c@,
        comm is None ==> head.comm@ == Seq::new(COMM_LEN as nat, |i: int| 0u8),
        final(filename)@ == old(filename)@.update(0, 0u8),
        field_text(final(filename)@) == Seq::<char>::empty(),
{
    filename[0] = 0;
    let comm: [u8; COMM_LEN] = match comm {
        Some(c) => c,
        None => [0u8; COMM_LEN],
    };
    assert(pid_tgid >> 32 == pid_tgid / 0x1_0000_0000 && pid_tgid & 0xffff_ffff == pid_tgid
        % 0x1_0000_0000) by (bit_vector);
    ExecHead {
        kind: KIND_EXEC,
        pid: (pid_tgid >> 32) as u32,
        tid: (pid_tgid & 0xffff_ffff) as u32,
        comm,
    }
}

} // verus!
