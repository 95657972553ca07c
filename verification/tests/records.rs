use mcpfz_probe::addr::fmt_addr;
use mcpfz_probe::decode::{decode, decode_in, flags_to_string};
use mcpfz_probe::events::{
    as_str, capture_exec, read_exec, read_header, read_net, read_path, read_ptrace,
    ByteOrder, COMM_LEN, FILENAME_LEN, KIND_CHMOD, KIND_CONNECT, KIND_EXEC, KIND_FILE_OPEN,
    KIND_PTRACE, KIND_SENDTO, KIND_UNLINK,
};
use serde_json::Value;

fn native_order() -> ByteOrder {
    if 1u16.to_ne_bytes() == [1, 0] {
        ByteOrder::Little
    } else {
        ByteOrder::Big
    }
}

fn padded(text: &str, size: usize) -> Vec<u8> {
    let mut bytes = text.as_bytes().to_vec();
    bytes.resize(size, 0);
    bytes
}

fn u32s(v: u32, order: ByteOrder) -> Vec<u8> {
    match order {
        ByteOrder::Little => v.to_le_bytes().to_vec(),
        ByteOrder::Big => v.to_be_bytes().to_vec(),
    }
}

fn u16s(v: u16, order: ByteOrder) -> Vec<u8> {
    match order {
        ByteOrder::Little => v.to_le_bytes().to_vec(),
        ByteOrder::Big => v.to_be_bytes().to_vec(),
    }
}

fn i64s(v: i64, order: ByteOrder) -> Vec<u8> {
    match order {
        ByteOrder::Little => v.to_le_bytes().to_vec(),
        ByteOrder::Big => v.to_be_bytes().to_vec(),
    }
}

fn ids(kind: u32, order: ByteOrder) -> Vec<u8> {
    let mut bytes = u32s(kind, order);
    bytes.extend(u32s(4321, order));
    bytes.extend(u32s(4322, order));
    bytes
}

fn exec(order: ByteOrder) -> Vec<u8> {
    let mut bytes = ids(KIND_EXEC, order);
    bytes.extend(padded("/bin/sh", FILENAME_LEN));
    bytes.extend(padded("bash", COMM_LEN));
    bytes
}

fn net(kind: u32, af: u16, port: u16, addr: [u8; 16], order: ByteOrder) -> Vec<u8> {
    let mut bytes = ids(kind, order);
    bytes.extend(u16s(af, order));
    bytes.extend(port.to_be_bytes());
    bytes.extend(addr);
    bytes.extend(padded("curl", COMM_LEN));
    bytes
}

fn path(kind: u32, arg: i64, order: ByteOrder) -> Vec<u8> {
    let mut bytes = ids(kind, order);
    bytes.extend([9, 9, 9, 9]);
    bytes.extend(i64s(arg, order));
    bytes.extend(padded("/etc/passwd", FILENAME_LEN));
    bytes.extend(padded("cat", COMM_LEN));
    bytes
}

fn ptrace(request: i64, target: i64, order: ByteOrder) -> Vec<u8> {
    let mut bytes = ids(KIND_PTRACE, order);
    bytes.extend([7, 7, 7, 7]);
    bytes.extend(i64s(request, order));
    bytes.extend(i64s(target, order));
    bytes.extend(padded("gdb", COMM_LEN));
    bytes
}

fn line(object: Option<serde_json::Map<String, Value>>) -> String {
    match object {
        Some(object) => Value::Object(object).to_string(),
        None => "none".to_string(),
    }
}

const BOTH: [ByteOrder; 2] = [ByteOrder::Little, ByteOrder::Big];

#[test]
fn fields_are_read_up_to_the_first_nul() {
    assert_eq!(as_str(b"bash\0\0\0"), "bash");
    assert_eq!(as_str(b"bash\0junk"), "bash");
    assert_eq!(as_str(b"full"), "full");
    assert_eq!(as_str(b"\0x"), "");
    assert_eq!(as_str(b""), "");
    assert_eq!(as_str("caf\u{e9} \u{1f600}\0".as_bytes()), "caf\u{e9} \u{1f600}");
    assert_eq!(as_str(&[0xff, 0x41, 0]), "");
    assert_eq!(as_str(&[0x41, 0xc3]), "");
    // What follows the NUL need not be text.
    assert_eq!(as_str(&[0x41, 0, 0xff]), "A");
}

#[test]
fn records_are_read_in_their_byte_order() {
    for order in BOTH {
        let bytes = exec(order);
        assert_eq!(bytes.len(), 284);
        assert_eq!(read_header(&bytes, order), Some((KIND_EXEC, 4321)));
        let event = read_exec(&bytes, order).unwrap();
        assert_eq!((event.kind, event.pid, event.tid), (KIND_EXEC, 4321, 4322));
        assert_eq!(as_str(&event.filename), "/bin/sh");
        assert_eq!(as_str(&event.comm), "bash");
        assert!(read_exec(&bytes[..283], order).is_none());

        let bytes = net(KIND_CONNECT, 2, 443, [1; 16], order);
        let event = read_net(&bytes, order).unwrap();
        assert_eq!((event.af, event.addr), (2, [1; 16]));
        assert!(read_net(&bytes[..47], order).is_none());

        let bytes = path(KIND_UNLINK, -2, order);
        assert_eq!(bytes.len(), 296);
        let event = read_path(&bytes, order).unwrap();
        assert_eq!(event.arg, -2);
        assert_eq!(as_str(&event.filename), "/etc/passwd");
        assert!(read_path(&bytes[..295], order).is_none());

        let bytes = ptrace(i64::MIN, i64::MAX, order);
        let event = read_ptrace(&bytes, order).unwrap();
        assert_eq!((event.request, event.target_pid), (i64::MIN, i64::MAX));
        assert!(read_ptrace(&bytes[..47], order).is_none());
    }
    assert_eq!(read_header(&[1, 0, 0, 0, 2, 0, 0], ByteOrder::Little), None);
    assert_eq!(read_header(&[1, 0, 0, 0, 2, 0, 0, 1], ByteOrder::Little), Some((1, 0x0100_0002)));
}

#[test]
fn records_are_decoded_in_the_order_of_the_machine() {
    assert_eq!(
        line(decode(KIND_EXEC, &exec(native_order()))),
        r#"{"argv":["/bin/sh"],"comm":"bash","type":"exec"}"#
    );
    assert_eq!(
        line(decode(KIND_PTRACE, &ptrace(16, -5, native_order()))),
        r#"{"comm":"gdb","request":16,"target_pid":-5,"type":"ptrace"}"#
    );
}

#[test]
fn records_decode_to_messages() {
    for order in BOTH {
        assert_eq!(
            line(decode_in(KIND_EXEC, &exec(order), order)),
            r#"{"argv":["/bin/sh"],"comm":"bash","type":"exec"}"#
        );
        let mut v4 = [0u8; 16];
        v4[..4].copy_from_slice(&[203, 0, 113, 7]);
        assert_eq!(
            line(decode_in(KIND_CONNECT, &net(KIND_CONNECT, 2, 443, v4, order), order)),
            r#"{"comm":"curl","dst":"203.0.113.7:443","proto":"tcp","type":"connect"}"#
        );
        let mut v6 = [0u8; 16];
        v6[15] = 1;
        assert_eq!(
            line(decode_in(KIND_SENDTO, &net(KIND_SENDTO, 10, 53, v6, order), order)),
            r#"{"comm":"curl","dst":"::1:53","proto":"udp","type":"connect"}"#
        );
        assert_eq!(
            line(decode_in(KIND_FILE_OPEN, &path(KIND_FILE_OPEN, 0o1101, order), order)),
            r#"{"comm":"cat","flags":"O_WRONLY|O_CREAT|O_TRUNC","path":"/etc/passwd","type":"file_open"}"#
        );
        assert_eq!(
            line(decode_in(KIND_UNLINK, &path(KIND_UNLINK, 0, order), order)),
            r#"{"comm":"cat","path":"/etc/passwd","type":"file_delete"}"#
        );
        assert_eq!(
            line(decode_in(KIND_CHMOD, &path(KIND_CHMOD, 0o104755, order), order)),
            r#"{"comm":"cat","mode":"4755","path":"/etc/passwd","type":"chmod"}"#
        );
        assert_eq!(
            line(decode_in(KIND_CHMOD, &path(KIND_CHMOD, -1, order), order)),
            r#"{"comm":"cat","mode":"7777","path":"/etc/passwd","type":"chmod"}"#
        );
        assert_eq!(
            line(decode_in(KIND_CHMOD, &path(KIND_CHMOD, 0o10000, order), order)),
            r#"{"comm":"cat","mode":"0","path":"/etc/passwd","type":"chmod"}"#
        );
        assert_eq!(
            line(decode_in(KIND_PTRACE, &ptrace(16, -5, order), order)),
            r#"{"comm":"gdb","request":16,"target_pid":-5,"type":"ptrace"}"#
        );
    }
}

#[test]
fn records_that_say_nothing_are_skipped() {
    let order = ByteOrder::Little;
    // Unix sockets, and a sendto without an address.
    assert!(decode_in(KIND_CONNECT, &net(KIND_CONNECT, 1, 0, [0; 16], order), order).is_none());
    assert!(decode_in(KIND_SENDTO, &net(KIND_SENDTO, 0, 0, [0; 16], order), order).is_none());
    assert!(decode_in(0, &exec(order), order).is_none());
    assert!(decode_in(8, &exec(order), order).is_none());
    assert!(decode_in(KIND_EXEC, &exec(order)[..283], order).is_none());
    assert!(decode_in(KIND_FILE_OPEN, &exec(order), order).is_none());
    assert!(decode_in(KIND_CONNECT, &[], order).is_none());
    assert!(decode_in(KIND_PTRACE, &ptrace(0, 0, order)[..47], order).is_none());
    // More bytes than the record has do no harm.
    let mut long = exec(order);
    long.extend([1, 2, 3]);
    assert!(decode_in(KIND_EXEC, &long, order).is_some());
}

#[test]
fn flags_are_named() {
    assert_eq!(flags_to_string(0), "O_RDONLY");
    assert_eq!(flags_to_string(1), "O_WRONLY");
    assert_eq!(flags_to_string(2), "O_RDWR");
    assert_eq!(flags_to_string(3), "O_RDONLY");
    assert_eq!(flags_to_string(0o100), "O_RDONLY|O_CREAT");
    assert_eq!(flags_to_string(0o200), "O_RDONLY|O_EXCL");
    assert_eq!(flags_to_string(0o1000), "O_RDONLY|O_TRUNC");
    assert_eq!(flags_to_string(0o2001), "O_WRONLY|O_APPEND");
    assert_eq!(flags_to_string(-1), "O_RDONLY|O_CREAT|O_EXCL|O_TRUNC|O_APPEND");
    assert_eq!(flags_to_string(0o4000), "O_RDONLY");
}

#[test]
fn addresses_are_written_canonically() {
    let v6 = |groups: [u16; 8]| {
        let mut addr = [0u8; 16];
        for (i, g) in groups.iter().enumerate() {
            addr[2 * i..2 * i + 2].copy_from_slice(&g.to_be_bytes());
        }
        fmt_addr(10, &addr)
    };
    let mut v4 = [9u8; 16];
    v4[..4].copy_from_slice(&[255, 0, 10, 1]);
    assert_eq!(fmt_addr(2, &v4), "255.0.10.1");
    assert_eq!(fmt_addr(1, &v4), "?");
    assert_eq!(v6([0; 8]), "::");
    assert_eq!(v6([0, 0, 0, 0, 0, 0, 0, 1]), "::1");
    assert_eq!(v6([1, 0, 0, 0, 0, 0, 0, 0]), "1::");
    assert_eq!(v6([0x2001, 0xdb8, 0, 0, 1, 0, 0, 1]), "2001:db8::1:0:0:1");
    assert_eq!(v6([0x2001, 0xdb8, 0, 1, 1, 0, 0, 1]), "2001:db8:0:1:1::1");
    assert_eq!(v6([0x2001, 0xdb8, 0, 1, 1, 1, 1, 1]), "2001:db8:0:1:1:1:1:1");
    assert_eq!(v6([0x2001, 0xdb8, 0, 0, 1, 0, 0, 0]), "2001:db8:0:0:1::");
    assert_eq!(v6([1, 2, 3, 4, 5, 6, 7, 0xabcd]), "1:2:3:4:5:6:7:abcd");
    assert_eq!(v6([0, 1, 0, 1, 0, 1, 0, 1]), "0:1:0:1:0:1:0:1");
    assert_eq!(v6([0, 0, 0, 0, 0, 0xffff, 0xc000, 0x0280]), "::ffff:192.0.2.128");
    assert_eq!(v6([0, 0, 0, 0, 0, 0xfffe, 0xc000, 0x0280]), "::fffe:c000:280");
    assert_eq!(v6([0, 0, 0, 0, 0, 0, 0xc000, 0x0280]), "::c000:280");
}

fn groups_of(text: &str) -> Vec<u16> {
    let side = |part: &str| -> Vec<u16> {
        let mut groups: Vec<u16> = Vec::new();
        for word in part.split(':').filter(|w| !w.is_empty()) {
            if word.contains('.') {
                let bytes: Vec<u16> = word.split('.').map(|b| b.parse().unwrap()).collect();
                groups.push(bytes[0] * 256 + bytes[1]);
                groups.push(bytes[2] * 256 + bytes[3]);
            } else {
                groups.push(u16::from_str_radix(word, 16).unwrap());
            }
        }
        groups
    };
    match text.find("::") {
        Some(at) => {
            let mut groups = side(&text[..at]);
            let tail = side(&text[at + 2..]);
            groups.resize(8 - tail.len(), 0);
            groups.extend(tail);
            groups
        }
        None => side(text),
    }
}

#[test]
fn addresses_can_be_read_back() {
    // Every pattern of zero and other groups, with groups of each width.
    for pattern in 0u32..6561 {
        let mut groups = [0u16; 8];
        let mut rest = pattern;
        for g in groups.iter_mut() {
            *g = [0, 0xf, 0xffff][(rest % 3) as usize];
            rest /= 3;
        }
        let mut addr = [0u8; 16];
        for (i, g) in groups.iter().enumerate() {
            addr[2 * i..2 * i + 2].copy_from_slice(&g.to_be_bytes());
        }
        let text = fmt_addr(10, &addr);
        assert_eq!(groups_of(&text), groups.to_vec(), "{}", text);
        assert!(text.matches("::").count() <= 1);
        let bytes: Vec<u8> = fmt_addr(2, &addr).split('.').map(|b| b.parse().unwrap()).collect();
        assert_eq!(bytes, addr[..4].to_vec());
    }
}

#[test]
fn captured_exec_begins_with_its_kind_and_ids() {
    let mut comm = [0u8; COMM_LEN];
    comm[..4].copy_from_slice(b"bash");
    let mut filename = [b'x'; FILENAME_LEN];
    let head = capture_exec((4321u64 << 32) | 4322, Some(comm), &mut filename);
    assert_eq!((head.kind, head.pid, head.tid), (KIND_EXEC, 4321, 4322));
    assert_eq!(as_str(&head.comm), "bash");
    assert_eq!(as_str(&filename), "");
    assert_eq!(filename[1..], [b'x'; FILENAME_LEN - 1]);
    let head = capture_exec(u64::MAX, None, &mut filename);
    assert_eq!((head.pid, head.tid), (u32::MAX, u32::MAX));
    assert_eq!(head.comm, [0; COMM_LEN]);
}
