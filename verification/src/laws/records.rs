//! What the kernel side writes is what the messages say.

use vstd::prelude::*;

use crate::addr;
use crate::decode;
use crate::events;
use crate::events::{
    ByteOrder, ExecEvent, NetEvent, PathEvent, PtraceEvent, EXEC_SIZE, KIND_CHMOD, KIND_CONNECT,
    KIND_EXEC, KIND_FILE_OPEN, KIND_PTRACE, KIND_SENDTO, KIND_UNLINK, NET_SIZE, PATH_SIZE,
    PTRACE_SIZE,
};
use crate::json;
use crate::json::{Field, Fields};
use crate::laws::layout;
use crate::text;
use crate::wire;

verus! {

/// An exec record decodes to the program and the comm that were written.
pub proof fn law_exec_message(event: ExecEvent, order: ByteOrder, rest: Seq<u8>)
    ensures
        decode::decoded(KIND_EXEC, wire::exec_record(event, order) + rest, order) == Some(
            Fields::empty().insert("type"@, Field::Text("exec"@)).insert(
                "comm"@,
                Field::Text(events::field_text(event.comm@)),
            ).insert("argv"@, Field::Texts(seq![events::field_text(event.filename@)])),
        ),
{
    wire::law_exec_read_back(event, order, rest);
}

/// A connect or sendto record with an address of a family that is known
/// decodes to the address and the port that were written, the port in network
/// byte order whatever the order of the machine.
pub proof fn law_net_message(event: NetEvent, order: ByteOrder, rest: Seq<u8>, port: u16)
    requires
        event.kind == KIND_CONNECT || event.kind == KIND_SENDTO,
        event.af == addr::AF_INET || event.af == addr::AF_INET6,
        wire::uint_bytes(event.port_be as nat, 2, order) == wire::uint_bytes(
            port as nat,
            2,
            ByteOrder::Big,
        ),
    ensures
        decode::decoded(event.kind, wire::net_record(event, order) + rest, order) == Some(
            Fields::empty().insert("type"@, Field::Text("connect"@)).insert(
                "proto"@,
                Field::Text(
                    if event.kind == KIND_SENDTO {
                        "udp"@
                    } else {
                        "tcp"@
                    },
                ),
            ).insert(
                "dst"@,
                Field::Text(
                    addr::addr_text(event.af, event.addr@) + ":"@ + text::numeral(port as nat, 10),
                ),
            ).insert("comm"@, Field::Text(events::field_text(event.comm@))),
        ),
{
    wire::law_net_read_back(event, order, rest);
    wire::lemma_port_bytes(event, order, rest);
    wire::lemma_uint_bytes(port as nat, 2, ByteOrder::Big);
}

/// A connect or sendto record of any other address family makes no message.
pub proof fn law_other_family_is_silent(event: NetEvent, order: ByteOrder, rest: Seq<u8>)
    requires
        event.kind == KIND_CONNECT || event.kind == KIND_SENDTO,
        event.af != addr::AF_INET && event.af != addr::AF_INET6,
    ensures
        decode::decoded(event.kind, wire::net_record(event, order) + rest, order) is None,
{
    wire::law_net_read_back(event, order, rest);
}

/// A path record decodes to the path, the comm and, as its kind has it, the
/// flags or the mode that were written.
pub proof fn law_path_message(
    event: PathEvent,
    order: ByteOrder,
    padding: Seq<u8>,
    rest: Seq<u8>,
)
    requires
        padding.len() == 4,
    ensures
        ({
            let bytes = wire::path_record(event, order, padding) + rest;
            let path = Field::Text(events::field_text(event.filename@));
            let comm = Field::Text(events::field_text(event.comm@));
            &&& decode::decoded(KIND_FILE_OPEN, bytes, order) == Some(
                Fields::empty().insert("type"@, Field::Text("file_open"@)).insert(
                    "path"@,
                    path,
                ).insert("flags"@, Field::Text(decode::flags_text(event.arg as i32))).insert(
                    "comm"@,
                    comm,
                ),
            )
            &&& decode::decoded(KIND_UNLINK, bytes, order) == Some(
                Fields::empty().insert("type"@, Field::Text("file_delete"@)).insert(
                    "path"@,
                    path,
                ).insert("comm"@, comm),
            )
            &&& decode::decoded(KIND_CHMOD, bytes, order) == Some(
                Fields::empty().insert("type"@, Field::Text("chmod"@)).insert("path"@, path).insert(
                    "mode"@,
                    Field::Text(text::numeral((event.arg & 0o7777) as nat, 8)),
                ).insert("comm"@, comm),
            )
        }),
{
    wire::law_path_read_back(event, order, padding, rest);
}

/// A ptrace record decodes to the request, the target and the comm that were
/// written.
pub proof fn law_ptrace_message(
    event: PtraceEvent,
    order: ByteOrder,
    padding: Seq<u8>,
    rest: Seq<u8>,
)
    requires
        padding.len() == 4,
    ensures
        decode::decoded(
            KIND_PTRACE,
            wire::ptrace_record(event, order, padding) + rest,
            order,
        ) == Some(
            Fields::empty().insert("type"@, Field::Text("ptrace"@)).insert(
                "request"@,
                Field::Int(event.request as int),
            ).insert("target_pid"@, Field::Int(event.target_pid as int)).insert(
                "comm"@,
                Field::Text(events::field_text(event.comm@)),
            ),
        ),
{
    wire::law_ptrace_read_back(event, order, padding, rest);
}

/// Only a record of a known kind, and of the size that the kind has, makes a
/// message.
pub proof fn law_only_known_records(kind: u32, bytes: Seq<u8>, order: ByteOrder)
    ensures
        decode::decoded(kind, bytes, order) is Some ==> {
            ||| kind == KIND_EXEC && bytes.len() >= EXEC_SIZE
            ||| (kind == KIND_CONNECT || kind == KIND_SENDTO) && bytes.len() >= NET_SIZE
            ||| (kind == KIND_FILE_OPEN || kind == KIND_UNLINK || kind == KIND_CHMOD)
                && bytes.len() >= PATH_SIZE
            ||| kind == KIND_PTRACE && bytes.len() >= PTRACE_SIZE
        },
{
}

/// A decoded record says its type and its comm, and leaves the members that
/// every message has to the caller.
pub proof fn law_common_members_are_free(kind: u32, bytes: Seq<u8>, order: ByteOrder)
    ensures
        decode::decoded(kind, bytes, order) matches Some(event) ==> {
            &&& event.contains_key("type"@)
            &&& event.contains_key("comm"@)
            &&& !event.contains_key("bucket"@)
            &&& !event.contains_key("call_id"@)
            &&& !event.contains_key("pid"@)
            &&& !event.contains_key("ts_ns"@)
        },
{
    reveal_strlit("type");
    reveal_strlit("comm");
    reveal_strlit("argv");
    reveal_strlit("proto");
    reveal_strlit("dst");
    reveal_strlit("path");
    reveal_strlit("flags");
    reveal_strlit("mode");
    reveal_strlit("request");
    reveal_strlit("target_pid");
    reveal_strlit("bucket");
    reveal_strlit("call_id");
    reveal_strlit("pid");
    reveal_strlit("ts_ns");
    assert("type"@.len() == 4 && "comm"@.len() == 4 && "argv"@.len() == 4 && "path"@.len() == 4
        && "mode"@.len() == 4);
    assert("proto"@.len() == 5 && "flags"@.len() == 5 && "ts_ns"@.len() == 5);
    assert("proto"@[0] != "ts_ns"@[0] && "flags"@[0] != "ts_ns"@[0]);
    assert("dst"@.len() == 3 && "pid"@.len() == 3);
    assert("dst"@[0] != "pid"@[0]);
    assert("request"@.len() == 7 && "call_id"@.len() == 7);
    assert("request"@[0] != "call_id"@[0]);
    assert("target_pid"@.len() == 10 && "bucket"@.len() == 6);
}

/// Among the names of open flags, the first is the access mode, and each of
/// the others is there exactly where its bit is set.
pub proof fn law_flag_names(flags: i32)
    ensures
        decode::flag_names(flags)[0] == decode::access_name(flags),
        decode::flag_names(flags).contains("O_CREAT"@) <==> flags & 0o100 != 0,
        decode::flag_names(flags).contains("O_EXCL"@) <==> flags & 0o200 != 0,
        decode::flag_names(flags).contains("O_TRUNC"@) <==> flags & 0o1000 != 0,
        decode::flag_names(flags).contains("O_APPEND"@) <==> flags & 0o2000 != 0,
{
    reveal_strlit("O_WRONLY");
    reveal_strlit("O_RDWR");
    reveal_strlit("O_RDONLY");
    reveal_strlit("O_CREAT");
    reveal_strlit("O_EXCL");
    reveal_strlit("O_TRUNC");
    reveal_strlit("O_APPEND");
    assert("O_WRONLY"@.len() == 8 && "O_RDWR"@.len() == 6 && "O_RDONLY"@.len() == 8
        && "O_CREAT"@.len() == 7 && "O_EXCL"@.len() == 6 && "O_TRUNC"@.len() == 7
        && "O_APPEND"@.len() == 8);
    assert("O_WRONLY"@[2] == 'W' && "O_RDWR"@[2] == 'R' && "O_RDONLY"@[2] == 'R' && "O_CREAT"@[2]
        == 'C' && "O_EXCL"@[2] == 'E' && "O_TRUNC"@[2] == 'T' && "O_APPEND"@[2] == 'A');
    let names = decode::flag_names(flags);
    let creat = decode::named_bit(flags, 0o100, "O_CREAT"@);
    let excl = decode::named_bit(flags, 0o200, "O_EXCL"@);
    let trunc = decode::named_bit(flags, 0o1000, "O_TRUNC"@);
    let append = decode::named_bit(flags, 0o2000, "O_APPEND"@);
    let at_excl = 1 + creat.len() as int;
    let at_trunc = at_excl + excl.len() as int;
    let at_append = at_trunc + trunc.len() as int;
    if flags & 0o100 != 0 {
        assert(names[1] == "O_CREAT"@);
    }
    if flags & 0o200 != 0 {
        assert(names[at_excl] == "O_EXCL"@);
    }
    if flags & 0o1000 != 0 {
        assert(names[at_trunc] == "O_TRUNC"@);
    }
    if flags & 0o2000 != 0 {
        assert(names[at_append] == "O_APPEND"@);
    }
}

/// What an exec record says, whatever kind its own bytes hold: the program is
/// the text of the 256 bytes from the twelfth on, the comm that of the 16 after
/// them. Fewer than 284 bytes say nothing.
pub proof fn law_decoded_exec(bytes: Seq<u8>, order: ByteOrder)
    ensures
        decode::decoded(1, bytes, order) is Some <==> bytes.len() >= 284,
        decode::decoded(1, bytes, order) matches Some(event) ==> event =~= map![
            "type"@ => Field::Text("exec"@),
            "comm"@ => Field::Text(events::field_text(bytes.subrange(268, 284))),
            "argv"@ => Field::Texts(seq![events::field_text(bytes.subrange(12, 268))])],
{
}

/// What a connect or sendto record says: the address of its family from the
/// sixteenth byte on, a colon, and the port, whose first byte counts 256, in
/// decimal; tcp for a connect, udp for a sendto; and the comm. Fewer than 48
/// bytes, and any other family, say nothing.
pub proof fn law_decoded_net(kind: u32, bytes: Seq<u8>, order: ByteOrder)
    requires
        kind == 2 || kind == 3,
    ensures
        ({
            let af = events::uint(bytes.subrange(12, 14), order);
            let said = decode::decoded(kind, bytes, order);
            &&& said is Some <==> bytes.len() >= 48 && (af == 2 || af == 10)
            &&& said matches Some(event) ==> event =~= map![
                "type"@ => Field::Text("connect"@),
                "proto"@ => Field::Text(if kind == 2 { "tcp"@ } else { "udp"@ }),
                "dst"@ => Field::Text(
                    addr::addr_text(af as u16, bytes.subrange(16, 32)) + ":"@ + text::numeral(
                        (bytes[14] * 256 + bytes[15]) as nat,
                        10,
                    ),
                ),
                "comm"@ => Field::Text(events::field_text(bytes.subrange(32, 48)))]
        }),
{
    if bytes.len() >= 48 {
        layout::law_integers(bytes.subrange(12, 14));
        layout::law_integers(bytes.subrange(14, 16));
    }
}

/// What a path record says: the path from the twenty-fourth byte on and the
/// comm; of an open, the flags in the low 32 bits of its argument; of a chmod,
/// the low twelve bits of it in octal. Fewer than 296 bytes say nothing.
pub proof fn law_decoded_path(kind: u32, bytes: Seq<u8>, order: ByteOrder)
    requires
        kind == 4 || kind == 5 || kind == 6,
    ensures
        ({
            let arg = events::signed64(events::uint(bytes.subrange(16, 24), order)) as i64;
            let path = Field::Text(events::field_text(bytes.subrange(24, 280)));
            let comm = Field::Text(events::field_text(bytes.subrange(280, 296)));
            let said = decode::decoded(kind, bytes, order);
            &&& said is Some <==> bytes.len() >= 296
            &&& said is Some && kind == 4 ==> said->0 =~= map![
                "type"@ => Field::Text("file_open"@),
                "path"@ => path,
                "flags"@ => Field::Text(decode::flags_text(arg as i32)),
                "comm"@ => comm]
            &&& said is Some && kind == 5 ==> said->0 =~= map![
                "type"@ => Field::Text("file_delete"@),
                "path"@ => path,
                "comm"@ => comm]
            &&& said is Some && kind == 6 ==> said->0 =~= map![
                "type"@ => Field::Text("chmod"@),
                "path"@ => path,
                "mode"@ => Field::Text(text::numeral((arg & 0xfff) as nat, 8)),
                "comm"@ => comm]
        }),
{
}

/// What a ptrace record says: the request and the target, signed numbers from
/// the sixteenth and the twenty-fourth byte on, and the comm. Fewer than 48
/// bytes, and any kind but the seven, say nothing.
pub proof fn law_decoded_ptrace(bytes: Seq<u8>, order: ByteOrder, other: u32)
    ensures
        decode::decoded(7, bytes, order) is Some <==> bytes.len() >= 48,
        decode::decoded(7, bytes, order) matches Some(event) ==> event =~= map![
            "type"@ => Field::Text("ptrace"@),
            "request"@ => Field::Int(
                events::signed64(events::uint(bytes.subrange(16, 24), order)),
            ),
            "target_pid"@ => Field::Int(
                events::signed64(events::uint(bytes.subrange(24, 32), order)),
            ),
            "comm"@ => Field::Text(events::field_text(bytes.subrange(32, 48)))],
        other == 0 || other > 7 ==> decode::decoded(other, bytes, order) is None,
{
}

/// What an optional object holds is what the object holds, where there is one.
pub proof fn law_object_members(object: json::Object)
    ensures
        decode::object_fields(Some(object)) == Some(json::fields(object)),
        decode::object_fields(None) is None,
{
}

/// Open flags as text: the access mode by the two low bits alone, one for
/// writing, two for both, anything else for reading; then, behind bars, the
/// names of the flags whose bits are set, in this order.
pub proof fn law_flags_text(flags: i32)
    ensures
        decode::flags_text(flags) == (if flags & 3 == 1 {
            "O_WRONLY"@
        } else if flags & 3 == 2 {
            "O_RDWR"@
        } else {
            "O_RDONLY"@
        }) + (if flags & 64 != 0 {
            "|O_CREAT"@
        } else {
            Seq::empty()
        }) + (if flags & 128 != 0 {
            "|O_EXCL"@
        } else {
            Seq::empty()
        }) + (if flags & 512 != 0 {
            "|O_TRUNC"@
        } else {
            Seq::empty()
        }) + (if flags & 1024 != 0 {
            "|O_APPEND"@
        } else {
            Seq::empty()
        }),
{
    let access = seq![decode::access_name(flags)];
    let creat = access + decode::named_bit(flags, 64, "O_CREAT"@);
    let excl = creat + decode::named_bit(flags, 128, "O_EXCL"@);
    let trunc = excl + decode::named_bit(flags, 512, "O_TRUNC"@);
    lemma_flag_joins(access, flags, 64, "O_CREAT"@);
    lemma_flag_joins(creat, flags, 128, "O_EXCL"@);
    lemma_flag_joins(excl, flags, 512, "O_TRUNC"@);
    lemma_flag_joins(trunc, flags, 1024, "O_APPEND"@);
    reveal_strlit("|");
    reveal_strlit("O_CREAT");
    reveal_strlit("O_EXCL");
    reveal_strlit("O_TRUNC");
    reveal_strlit("O_APPEND");
    reveal_strlit("|O_CREAT");
    reveal_strlit("|O_EXCL");
    reveal_strlit("|O_TRUNC");
    reveal_strlit("|O_APPEND");
    assert("|"@ + "O_CREAT"@ =~= "|O_CREAT"@);
    assert("|"@ + "O_EXCL"@ =~= "|O_EXCL"@);
    assert("|"@ + "O_TRUNC"@ =~= "|O_TRUNC"@);
    assert("|"@ + "O_APPEND"@ =~= "|O_APPEND"@);
}

proof fn lemma_flag_joins(names: Seq<Seq<char>>, flags: i32, bit: i32, name: Seq<char>)
    requires
        names.len() > 0,
    ensures
        text::joined(names + decode::named_bit(flags, bit, name), "|"@) == text::joined(names, "|"@)
            + (if flags & bit != 0 {
            "|"@ + name
        } else {
            Seq::empty()
        }),
{
    let more = names + decode::named_bit(flags, bit, name);
    if flags & bit != 0 {
        assert(more.drop_last() =~= names);
        assert(text::joined(more, "|"@) =~= text::joined(names, "|"@) + ("|"@ + name));
    } else {
        assert(more =~= names);
        assert(text::joined(names, "|"@) + Seq::<char>::empty() =~= text::joined(names, "|"@));
    }
}

} // verus!
