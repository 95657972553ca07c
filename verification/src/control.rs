//! Control messages: what the monitor writes to the sidecar, one per line.

use vstd::prelude::*;

use crate::text;

verus! {

/// A control message.
#[derive(Debug)]
pub enum Control {
    Scope { pgid: i64, generation: i64 },
    Mark { phase: String, call_id: Option<String>, tool: Option<String> },
    Shutdown,
}

/// The characters of an optional string.
pub open spec fn owned_text(text: Option<String>) -> Option<Seq<char>> {
    match text {
        Some(s) => Some(s@),
        None => None,
    }
}

/// The characters of an optional string slice.
pub open spec fn borrowed_text(text: Option<&str>) -> Option<Seq<char>> {
    match text {
        Some(s) => Some(s@),
        None => None,
    }
}

/// The first of two optional texts that is there.
pub open spec fn first_of(a: Option<Seq<char>>, b: Option<Seq<char>>) -> Option<Seq<char>> {
    if a is Some {
        a
    } else {
        b
    }
}

pub(crate) fn as_deref(text: &Option<String>) -> (slice: Option<&str>)
    ensures
        borrowed_text(slice) == owned_text(*text),
{
    match text {
        Some(s) => Some(s.as_str()),
        None => None,
    }
}

pub(crate) fn copy_of(text: &Option<String>) -> (copy: Option<String>)
    ensures
        owned_text(copy) == owned_text(*text),
{
    match text {
        Some(s) => Some(s.clone()),
        None => None,
    }
}

/// Whether `message` is what a line holds to this parser: nothing where the
/// line is blank, else what the parser makes of the line without the white
/// space around it, a message or the text of an error.
pub open spec fn reads_as<P: Fn(&str) -> Result<Control, String>>(
    parse: P,
    line: Seq<char>,
    message: Option<Result<Control, String>>,
) -> bool {
    match message {
        None => text::trimmed(line).len() == 0,
        Some(parsed) => {
            &&& text::trimmed(line).len() > 0
            &&& exists|t: &str|
                t@ == text::trimmed(line) && #[trigger] call_ensures(parse, (t,), parsed)
        },
    }
}

/// Reads one line of control input.
pub fn read_line<P: Fn(&str) -> Result<Control, String>>(line: &str, parse: &P) -> (message: Option<
    Result<Control, String>,
>)
    requires
        forall|t: &str| call_requires(*parse, (t,)),
    ensures
        reads_as(*parse, line@, message),
{
    let core: &str = text::trim(line);
    if core.is_empty() {
        return None;
    }
    let parsed = parse(core);
    assert(call_ensures(*parse, (core,), parsed));
    Some(parsed)
}

} // verus!
