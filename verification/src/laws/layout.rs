//! Records: which bytes hold what.

use vstd::prelude::*;

use crate::addr;
use crate::ebpf;
use crate::events;
use crate::events::{ByteOrder, ExecEvent, NetEvent, PathEvent, PtraceEvent};

verus! {

/// The numbers that the kernel side and the loader agree on.
pub proof fn law_shared_numbers()
    ensures
        events::KIND_EXEC == 1,
        events::KIND_CONNECT == 2,
        events::KIND_SENDTO == 3,
        events::KIND_FILE_OPEN == 4,
        events::KIND_UNLINK == 5,
        events::KIND_CHMOD == 6,
        events::KIND_PTRACE == 7,
        events::FILENAME_LEN == 256,
        events::COMM_LEN == 16,
        events::ADDR_LEN == 16,
        events::HEADER_SIZE == 4 + 4,
        events::EXEC_SIZE == 3 * 4 + 256 + 16,
        events::NET_SIZE == 3 * 4 + 2 + 2 + 16 + 16,
        events::PATH_SIZE == 3 * 4 + 4 + 8 + 256 + 16,
        events::PTRACE_SIZE == 3 * 4 + 4 + 8 + 8 + 16,
        addr::AF_INET == 2,
        addr::AF_INET6 == 10,
        ebpf::DRAIN_BATCH == 8192,
        ebpf::POLL_MS == 200,
{
}

/// What integer fields of two, four and eight bytes hold: in little-endian
/// order the first byte counts least, in big-endian order most.
pub proof fn law_integers(b: Seq<u8>)
    ensures
        b.len() == 2 ==> events::uint(b, ByteOrder::Little) == b[0] + 0x100 * b[1]
            && events::uint(b, ByteOrder::Big) == 0x100 * b[0] + b[1],
        b.len() == 4 ==> events::uint(b, ByteOrder::Little) == b[0] + 0x100 * b[1] + 0x1_0000 * b[2]
            + 0x100_0000 * b[3] && events::uint(b, ByteOrder::Big) == 0x100_0000 * b[0] + 0x1_0000
            * b[1] + 0x100 * b[2] + b[3],
        b.len() == 8 ==> events::uint(b, ByteOrder::Little) == b[0] + 0x100 * b[1] + 0x1_0000 * b[2]
            + 0x100_0000 * b[3] + 0x1_0000_0000 * b[4] + 0x100_0000_0000 * b[5]
            + 0x1_0000_0000_0000 * b[6] + 0x100_0000_0000_0000 * b[7],
        b.len() == 8 ==> events::uint(b, ByteOrder::Big) == b[7] + 0x100 * b[6] + 0x1_0000 * b[5]
            + 0x100_0000 * b[4] + 0x1_0000_0000 * b[3] + 0x100_0000_0000 * b[2]
            + 0x1_0000_0000_0000 * b[1] + 0x100_0000_0000_0000 * b[0],
{
    reveal_with_fuel(events::little, 9);
    if b.len() == 2 {
        assert(b.reverse() =~= seq![b[1], b[0]]);
    } else if b.len() == 4 {
        assert(b.reverse() =~= seq![b[3], b[2], b[1], b[0]]);
    } else if b.len() == 8 {
        assert(b.reverse() =~= seq![b[7], b[6], b[5], b[4], b[3], b[2], b[1], b[0]]);
    }
}

/// A signed field is in two's complement: the upper half of the range stands
/// for the negative numbers.
pub proof fn law_signed_integers(v: nat)
    ensures
        v <= 0x7fff_ffff_ffff_ffff ==> events::signed64(v) == v,
        v > 0x7fff_ffff_ffff_ffff ==> events::signed64(v) == v - 0x1_0000_0000_0000_0000,
{
}

/// A record of eight bytes or more begins with its kind and the process, four
/// bytes each; a shorter one has no header.
pub proof fn law_header(bytes: Seq<u8>, order: ByteOrder)
    ensures
        bytes.len() < 8 <==> events::header(bytes, order) is None,
        events::header(bytes, order) matches Some((kind, pid)) ==> {
            &&& kind == events::uint(seq![bytes[0], bytes[1], bytes[2], bytes[3]], order)
            &&& pid == events::uint(seq![bytes[4], bytes[5], bytes[6], bytes[7]], order)
        },
{
    if bytes.len() >= 8 {
        let k = bytes.subrange(0, 4);
        let p = bytes.subrange(4, 8);
        assert(k =~= seq![bytes[0], bytes[1], bytes[2], bytes[3]]);
        assert(p =~= seq![bytes[4], bytes[5], bytes[6], bytes[7]]);
        law_integers(k);
        law_integers(p);
    }
}

/// Where the fields of an exec record stand.
pub proof fn law_exec_layout(bytes: Seq<u8>, order: ByteOrder, event: ExecEvent)
    ensures
        events::holds_exec(bytes, order, event) <==> {
            &&& bytes.len() >= 284
            &&& event.kind == events::uint(bytes.subrange(0, 4), order)
            &&& event.pid == events::uint(bytes.subrange(4, 8), order)
            &&& event.tid == events::uint(bytes.subrange(8, 12), order)
            &&& forall|i: int| 0 <= i < 256 ==> #[trigger] event.filename@[i] == bytes[12 + i]
            &&& forall|i: int| 0 <= i < 16 ==> #[trigger] event.comm@[i] == bytes[268 + i]
        },
{
    if bytes.len() >= 284 {
        lemma_field(bytes, 12, event.filename@);
        lemma_field(bytes, 268, event.comm@);
    }
}

/// Where the fields of a network record stand.
pub proof fn law_net_layout(bytes: Seq<u8>, order: ByteOrder, event: NetEvent)
    ensures
        events::holds_net(bytes, order, event) <==> {
            &&& bytes.len() >= 48
            &&& event.kind == events::uint(bytes.subrange(0, 4), order)
            &&& event.pid == events::uint(bytes.subrange(4, 8), order)
            &&& event.tid == events::uint(bytes.subrange(8, 12), order)
            &&& event.af == events::uint(bytes.subrange(12, 14), order)
            &&& event.port_be == events::uint(bytes.subrange(14, 16), order)
            &&& forall|i: int| 0 <= i < 16 ==> #[trigger] event.addr@[i] == bytes[16 + i]
            &&& forall|i: int| 0 <= i < 16 ==> #[trigger] event.comm@[i] == bytes[32 + i]
        },
{
    if bytes.len() >= 48 {
        lemma_field(bytes, 16, event.addr@);
        lemma_field(bytes, 32, event.comm@);
    }
}

/// Where the fields of a path record stand, behind four bytes of padding.
pub proof fn law_path_layout(bytes: Seq<u8>, order: ByteOrder, event: PathEvent)
    ensures
        events::holds_path(bytes, order, event) <==> {
            &&& bytes.len() >= 296
            &&& event.kind == events::uint(bytes.subrange(0, 4), order)
            &&& event.pid == events::uint(bytes.subrange(4, 8), order)
            &&& event.tid == events::uint(bytes.subrange(8, 12), order)
            &&& event.arg == events::signed64(events::uint(bytes.subrange(16, 24), order))
            &&& forall|i: int| 0 <= i < 256 ==> #[trigger] event.filename@[i] == bytes[24 + i]
            &&& forall|i: int| 0 <= i < 16 ==> #[trigger] event.comm@[i] == bytes[280 + i]
        },
{
    if bytes.len() >= 296 {
        lemma_field(bytes, 24, event.filename@);
        lemma_field(bytes, 280, event.comm@);
    }
}

/// Where the fields of a ptrace record stand, behind four bytes of padding.
pub proof fn law_ptrace_layout(bytes: Seq<u8>, order: ByteOrder, event: PtraceEvent)
    ensures
        events::holds_ptrace(bytes, order, event) <==> {
            &&& bytes.len() >= 48
            &&& event.kind == events::uint(bytes.subrange(0, 4), order)
            &&& event.pid == events::uint(bytes.subrange(4, 8), order)
            &&& event.tid == events::uint(bytes.subrange(8, 12), order)
            &&& event.request == events::signed64(events::uint(bytes.subrange(16, 24), order))
            &&& event.target_pid == events::signed64(events::uint(bytes.subrange(24, 32), order))
            &&& forall|i: int| 0 <= i < 16 ==> #[trigger] event.comm@[i] == bytes[32 + i]
        },
{
    if bytes.len() >= 48 {
        lemma_field(bytes, 32, event.comm@);
    }
}

proof fn lemma_field(bytes: Seq<u8>, at: int, field: Seq<u8>)
    requires
        0 <= at,
        at + field.len() <= bytes.len(),
    ensures
        field == bytes.subrange(at, at + field.len()) <==> forall|i: int|
            0 <= i < field.len() ==> #[trigger] field[i] == bytes[at + i],
{
    let part = bytes.subrange(at, at + field.len());
    if forall|i: int| 0 <= i < field.len() ==> #[trigger] field[i] == bytes[at + i] {
        assert(field =~= part);
    }
    if field == part {
        assert forall|i: int| 0 <= i < field.len() implies #[trigger] field[i] == bytes[at + i] by {
            assert(field[i] == part[i]);
        }
    }
}

/// A NUL-padded field holds what comes before its first NUL, or all of it where
/// there is none.
pub proof fn law_until_nul(bytes: Seq<u8>)
    ensures
        ({
            let n = events::until_nul(bytes).len() as int;
            &&& n <= bytes.len()
            &&& events::until_nul(bytes) == bytes.subrange(0, n)
            &&& forall|i: int| 0 <= i < n ==> #[trigger] bytes[i] != 0
            &&& n < bytes.len() ==> bytes[n] == 0
        }),
    decreases bytes.len(),
{
    if bytes.len() > 0 && bytes.first() != 0 {
        let rest = bytes.drop_first();
        law_until_nul(rest);
        let n = events::until_nul(bytes).len() as int;
        assert(events::until_nul(bytes) =~= bytes.subrange(0, n));
        assert forall|i: int| 0 <= i < n implies #[trigger] bytes[i] != 0 by {
            if i > 0 {
                assert(rest[i - 1] == bytes[i]);
            }
        }
        if n < bytes.len() {
            assert(rest[n - 1] == bytes[n]);
        }
    } else {
        assert(events::until_nul(bytes) =~= bytes.subrange(0, 0));
    }
}

/// The text of a field is the one whose UTF-8 encoding comes before the first
/// NUL; where that is no UTF-8, the text is empty.
pub proof fn law_field_text(bytes: Seq<u8>)
    ensures
        ({
            let held = events::until_nul(bytes);
            &&& vstd::utf8::valid_utf8(held) ==> vstd::utf8::encode_utf8(events::field_text(bytes))
                == held
            &&& !vstd::utf8::valid_utf8(held) ==> events::field_text(bytes).len() == 0
        }),
{
    let held = events::until_nul(bytes);
    if vstd::utf8::valid_utf8(held) {
        vstd::utf8::decode_utf8_encode_utf8(held);
    }
}

} // verus!
