//! Ring-buffer records as messages.

use vstd::prelude::*;

use crate::addr;
use crate::events;
use crate::events::{
    as_str, ByteOrder, EXEC_SIZE, KIND_CHMOD, KIND_CONNECT, KIND_EXEC, KIND_FILE_OPEN, KIND_PTRACE,
    KIND_SENDTO, KIND_UNLINK, NET_SIZE, PATH_SIZE, PTRACE_SIZE,
};
use crate::json;
use crate::json::{Field, Fields, Object};
use crate::text;

verus! {

/// The name of the access mode in open(2) flags.
pub open spec fn access_name(flags: i32) -> Seq<char> {
    if flags & 0o3 == 1 {
        "O_WRONLY"@
    } else if flags & 0o3 == 2 {
        "O_RDWR"@
    } else {
        "O_RDONLY"@
    }
}

/// One name where the bit is set, none where it is not.
pub open spec fn named_bit(flags: i32, bit: i32, name: Seq<char>) -> Seq<Seq<char>> {
    if flags & bit != 0 {
        seq![name]
    } else {
        Seq::empty()
    }
}

/// The names in open(2) flags: the access mode, then each flag that is set.
pub open spec fn flag_names(flags: i32) -> Seq<Seq<char>> {
    seq![access_name(flags)] + named_bit(flags, 0o100, "O_CREAT"@) + named_bit(
        flags,
        0o200,
        "O_EXCL"@,
    ) + named_bit(flags, 0o1000, "O_TRUNC"@) + named_bit(flags, 0o2000, "O_APPEND"@)
}

/// Open(2) flags as text: the names with bars between them.
pub open spec fn flags_text(flags: i32) -> Seq<char> {
    text::joined(flag_names(flags), "|"@)
}

fn append_flag(out: &mut String, Ghost(names): Ghost<Seq<Seq<char>>>, set: bool, name: &str)
    requires
        names.len() > 0,
        old(out)@ == text::joined(names, "|"@),
    ensures
        final(out)@ == text::joined(
            names + (if set {
                seq![name@]
            } else {
                Seq::empty()
            }),
            "|"@,
        ),
{
    if set {
        out.append("|");
        out.append(name);
        proof {
            let more = names + seq![name@];
            assert(more.drop_last() =~= names);
            assert(out@ =~= text::joined(more, "|"@));
        }
    } else {
        assert(names + Seq::empty() =~= names);
    }
}

/// Render open(2) flags as a `|`-joined string the policy engine understands.
pub fn flags_to_string(flags: i32) -> (text: String)
    ensures
        text@ == flags_text(flags),
{
    let access: i32 = flags & 0o3;
    let mut out: String = String::new();
    if access == 1 {
        out.append("O_WRONLY");
    } else if access == 2 {
        out.append("O_RDWR");
    } else {
        out.append("O_RDONLY");
    }
    let ghost names = seq![access_name(flags)];
    assert(out@ =~= text::joined(names, "|"@));
    append_flag(&mut out, Ghost(names), flags & 0o100 != 0, "O_CREAT");
    let ghost names = names + named_bit(flags, 0o100, "O_CREAT"@);
    append_flag(&mut out, Ghost(names), flags & 0o200 != 0, "O_EXCL");
    let ghost names = names + named_bit(flags, 0o200, "O_EXCL"@);
    append_flag(&mut out, Ghost(names), flags & 0o1000 != 0, "O_TRUNC");
    let ghost names = names + named_bit(flags, 0o1000, "O_TRUNC"@);
    append_flag(&mut out, Ghost(names), flags & 0o2000 != 0, "O_APPEND");
    out
}

/// A `comm` or `filename` field of a record.
pub open spec fn text_at(bytes: Seq<u8>, from: int, to: int) -> Field {
    Field::Text(events::field_text(bytes.subrange(from, to)))
}

/// The members of the message for an exec.
pub open spec fn exec_fields(bytes: Seq<u8>) -> Fields {
    Fields::empty().insert("type"@, Field::Text("exec"@)).insert(
        "comm"@,
        text_at(bytes, 268, 284),
    ).insert("argv"@, Field::Texts(seq![events::field_text(bytes.subrange(12, 268))]))
}

/// A destination as text: the address, a colon and the port.
pub open spec fn destination(af: u16, addr: Seq<u8>, port: nat) -> Seq<char> {
    addr::addr_text(af, addr) + ":"@ + text::numeral(port, 10)
}

/// The members of the message for a connect or a sendto. The port is in
/// network byte order.
pub open spec fn net_fields(kind: u32, bytes: Seq<u8>, af: u16) -> Fields {
    Fields::empty().insert("type"@, Field::Text("connect"@)).insert(
        "proto"@,
        Field::Text(
            if kind == KIND_SENDTO {
                "udp"@
            } else {
                "tcp"@
            },
        ),
    ).insert(
        "dst"@,
        Field::Text(
            destination(
                af,
                bytes.subrange(16, 32),
                events::uint(bytes.subrange(14, 16), ByteOrder::Big),
            ),
        ),
    ).insert("comm"@, text_at(bytes, 32, 48))
}

/// The members that the messages for path events share.
pub open spec fn path_fields(kind: Seq<char>, bytes: Seq<u8>) -> Fields {
    Fields::empty().insert("type"@, Field::Text(kind)).insert("path"@, text_at(bytes, 24, 280))
}

/// The members of the message that a record of this kind makes; `None` where
/// it makes none: a kind that is not known, too few bytes, or a network event
/// without a usable destination.
pub open spec fn decoded(kind: u32, bytes: Seq<u8>, order: ByteOrder) -> Option<Fields> {
    if kind == KIND_EXEC {
        if bytes.len() < EXEC_SIZE {
            None
        } else {
            Some(exec_fields(bytes))
        }
    } else if kind == KIND_CONNECT || kind == KIND_SENDTO {
        let af = events::uint(bytes.subrange(12, 14), order) as u16;
        if bytes.len() < NET_SIZE || (af != addr::AF_INET && af != addr::AF_INET6) {
            None
        } else {
            Some(net_fields(kind, bytes, af))
        }
    } else if kind == KIND_FILE_OPEN || kind == KIND_UNLINK || kind == KIND_CHMOD {
        let arg = events::signed64(events::uint(bytes.subrange(16, 24), order)) as i64;
        if bytes.len() < PATH_SIZE {
            None
        } else if kind == KIND_FILE_OPEN {
            Some(
                path_fields("file_open"@, bytes).insert(
                    "flags"@,
                    Field::Text(flags_text(arg as i32)),
                ).insert("comm"@, text_at(bytes, 280, 296)),
            )
        } else if kind == KIND_UNLINK {
            Some(path_fields("file_delete"@, bytes).insert("comm"@, text_at(bytes, 280, 296)))
        } else {
            Some(
                path_fields("chmod"@, bytes).insert(
                    "mode"@,
                    Field::Text(text::numeral((arg & 0o7777) as nat, 8)),
                ).insert("comm"@, text_at(bytes, 280, 296)),
            )
        }
    } else if kind == KIND_PTRACE {
        if bytes.len() < PTRACE_SIZE {
            None
        } else {
            Some(
                Fields::empty().insert("type"@, Field::Text("ptrace"@)).insert(
                    "request"@,
                    Field::Int(events::signed64(events::uint(bytes.subrange(16, 24), order))),
                ).insert(
                    "target_pid"@,
                    Field::Int(events::signed64(events::uint(bytes.subrange(24, 32), order))),
                ).insert("comm"@, text_at(bytes, 32, 48)),
            )
        }
    } else {
        None
    }
}

/// What an optional object holds.
pub open spec fn object_fields(object: Option<Object>) -> Option<Fields> {
    match object {
        Some(o) => Some(json::fields(o)),
        None => None,
    }
}

fn typed_object(kind: &str) -> (object: Object)
    ensures
        json::fields(object) == Fields::empty().insert("type"@, Field::Text(kind@)),
{
    let mut object = json::new_object();
    json::insert_text(&mut object, "type", kind);
    object
}

fn exec_object(bytes: &[u8], order: ByteOrder) -> (object: Option<Object>)
    ensures
        object_fields(object) == decoded(KIND_EXEC, bytes@, order),
{
    let event = match events::read_exec(bytes, order) {
        Some(event) => event,
        None => {
            return None;
        },
    };
    let mut object = typed_object("exec");
    json::insert_text(&mut object, "comm", as_str(event.comm.as_slice()));
    let mut argv: Vec<String> = Vec::new();
    argv.push(as_str(event.filename.as_slice()).to_owned());
    assert(argv@.map_values(|s: String| s@) =~= seq![
        events::field_text(bytes@.subrange(12, 268)),
    ]);
    json::insert_texts(&mut object, "argv", argv);
    Some(object)
}

/// The port number, out of the field as this machine reads it.
fn host_port(port_be: u16, order: ByteOrder, Ghost(bytes): Ghost<Seq<u8>>) -> (port: u16)
    requires
        bytes.len() == 2,
        port_be == events::uint(bytes, order),
    ensures
        port == events::uint(bytes, ByteOrder::Big),
{
    proof {
        reveal_with_fuel(events::little, 3);
        assert(bytes.reverse() =~= seq![bytes[1], bytes[0]]);
    }
    match order {
        ByteOrder::Little => (port_be % 256) * 256 + port_be / 256,
        ByteOrder::Big => port_be,
    }
}

fn net_object(kind: u32, bytes: &[u8], order: ByteOrder) -> (object: Option<Object>)
    requires
        kind == KIND_CONNECT || kind == KIND_SENDTO,
    ensures
        object_fields(object) == decoded(kind, bytes@, order),
{
    let event = match events::read_net(bytes, order) {
        Some(event) => event,
        None => {
            return None;
        },
    };
    if event.af != addr::AF_INET && event.af != addr::AF_INET6 {
        return None;
    }
    let port: u16 = host_port(event.port_be, order, Ghost(bytes@.subrange(14, 16)));
    let mut dst: String = addr::fmt_addr(event.af, &event.addr);
    dst.append(":");
    text::append_numeral(&mut dst, port as u64, 10);
    let mut object = typed_object("connect");
    if kind == KIND_SENDTO {
        json::insert_text(&mut object, "proto", "udp");
    } else {
        json::insert_text(&mut object, "proto", "tcp");
    }
    json::insert_text(&mut object, "dst", dst.as_str());
    json::insert_text(&mut object, "comm", as_str(event.comm.as_slice()));
    Some(object)
}

fn path_object(kind: u32, bytes: &[u8], order: ByteOrder) -> (object: Option<Object>)
    requires
        kind == KIND_FILE_OPEN || kind == KIND_UNLINK || kind == KIND_CHMOD,
    ensures
        object_fields(object) == decoded(kind, bytes@, order),
{
    let event = match events::read_path(bytes, order) {
        Some(event) => event,
        None => {
            return None;
        },
    };
    let arg: i64 = event.arg;
    let path: &str = as_str(event.filename.as_slice());
    let mut object = if kind == KIND_FILE_OPEN {
        typed_object("file_open")
    } else if kind == KIND_UNLINK {
        typed_object("file_delete")
    } else {
        typed_object("chmod")
    };
    json::insert_text(&mut object, "path", path);
    if kind == KIND_FILE_OPEN {
        let flags: String = flags_to_string(#[verifier::truncate] (arg as i32));
        json::insert_text(&mut object, "flags", flags.as_str());
    } else if kind == KIND_CHMOD {
        assert(0 <= arg & 0o7777 <= 0o7777) by (bit_vector);
        let mut mode: String = String::new();
        text::append_numeral(&mut mode, (arg & 0o7777) as u64, 8);
        assert(mode@ =~= text::numeral((arg & 0o7777) as nat, 8));
        json::insert_text(&mut object, "mode", mode.as_str());
    }
    json::insert_text(&mut object, "comm", as_str(event.comm.as_slice()));
    Some(object)
}

fn ptrace_object(bytes: &[u8], order: ByteOrder) -> (object: Option<Object>)
    ensures
        object_fields(object) == decoded(KIND_PTRACE, bytes@, order),
{
    let event = match events::read_ptrace(bytes, order) {
        Some(event) => event,
        None => {
            return None;
        },
    };
    let mut object = typed_object("ptrace");
    json::insert_i64(&mut object, "request", event.request);
    json::insert_i64(&mut object, "target_pid", event.target_pid);
    json::insert_text(&mut object, "comm", as_str(event.comm.as_slice()));
    Some(object)
}

/// Decodes a record whose integers are in the given byte order.
pub fn decode_in(kind: u32, bytes: &[u8], order: ByteOrder) -> (object: Option<Object>)
    ensures
        object_fields(object) == decoded(kind, bytes@, order),
{
    if kind == KIND_EXEC {
        exec_object(bytes, order)
    } else if kind == KIND_CONNECT || kind == KIND_SENDTO {
        net_object(kind, bytes, order)
    } else if kind == KIND_FILE_OPEN || kind == KIND_UNLINK || kind == KIND_CHMOD {
        path_object(kind, bytes, order)
    } else if kind == KIND_PTRACE {
        ptrace_object(bytes, order)
    } else {
        None
    }
}

/// Decode a ring-buffer record's type-specific fields into a JSON object.
/// Common fields (bucket/call_id/pid/ts_ns) are added by the caller. The
/// integers in the record are in the byte order of this machine.
pub fn decode(kind: u32, bytes: &[u8]) -> (object: Option<Object>)
    ensures
        exists|order: ByteOrder|
            events::is_native(order) && object_fields(object) == #[trigger] decoded(
                kind,
                bytes@,
                order,
            ),
{
    let order = events::native_order();
    decode_in(kind, bytes, order)
}

} // verus!
