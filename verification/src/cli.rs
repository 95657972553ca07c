//! The command line, and what the process says and returns when it fails.

use vstd::prelude::*;

use crate::text;

verus! {

/// The backends that can be run.
#[derive(Debug, Clone, Copy, PartialEq, Eq, Structural)]
pub enum Backend {
    Fake,
    Ebpf,
}

/// What to run, and how.
pub struct Args {
    pub backend: Backend,
    pub events_file: Option<String>,
    pub grace_ms: u64,
}

/// What a command line asks for.
pub enum Parsed {
    Run(Args),
    Help,
    Version,
    Error(String),
}

/// The options of a run, with texts in place of strings.
pub struct Options {
    pub backend: Backend,
    pub events_file: Option<Seq<char>>,
    pub grace_ms: u64,
}

/// What a command line asks for, with texts in place of strings.
pub enum Request {
    Run(Options),
    Help,
    Version,
    Error(Seq<char>),
}

impl View for Args {
    type V = Options;

    open spec fn view(&self) -> Options {
        Options {
            backend: self.backend,
            events_file: match self.events_file {
                Some(path) => Some(path@),
                None => None,
            },
            grace_ms: self.grace_ms,
        }
    }
}

impl View for Parsed {
    type V = Request;

    open spec fn view(&self) -> Request {
        match *self {
            Parsed::Run(args) => Request::Run(args@),
            Parsed::Help => Request::Help,
            Parsed::Version => Request::Version,
            Parsed::Error(message) => Request::Error(message@),
        }
    }
}

/// The options where the command line gives none.
pub open spec fn defaults() -> Options {
    Options { backend: Backend::Ebpf, events_file: None, grace_ms: 100 }
}

/// A text in single quotes, after a lead.
pub open spec fn quoting(lead: Seq<char>, value: Seq<char>) -> Seq<char> {
    lead + value + "'"@
}

/// What one option with its value makes of the options so far, or the error.
pub open spec fn with_value(options: Options, name: Seq<char>, value: Seq<char>) -> Result<
    Options,
    Seq<char>,
> {
    if name == "--backend"@ {
        if value == "fake"@ {
            Ok(Options { backend: Backend::Fake, ..options })
        } else if value == "ebpf"@ {
            Ok(Options { backend: Backend::Ebpf, ..options })
        } else {
            Err(quoting("unknown backend '"@, value))
        }
    } else if name == "--events-file"@ {
        Ok(Options { events_file: Some(value), ..options })
    } else {
        match text::read_u64(value) {
            Some(ms) => Ok(Options { grace_ms: ms, ..options }),
            None => Err(quoting("invalid --grace-ms value '"@, value)),
        }
    }
}

/// Whether an option of this name takes a value.
pub open spec fn takes_value(name: Seq<char>) -> bool {
    name == "--backend"@ || name == "--events-file"@ || name == "--grace-ms"@
}

/// What the arguments ask for, after others have set `options`: they are read
/// from left to right, and the first that settles the matter ends the reading.
pub open spec fn request(args: Seq<Seq<char>>, options: Options) -> Request
    decreases args.len(),
{
    if args.len() == 0 {
        Request::Run(options)
    } else {
        let name = args[0];
        if name == "-h"@ || name == "--help"@ {
            Request::Help
        } else if name == "-V"@ || name == "--version"@ {
            Request::Version
        } else if !takes_value(name) {
            Request::Error(quoting("unexpected argument '"@, name))
        } else if args.len() == 1 {
            Request::Error(name + " requires a value"@)
        } else {
            match with_value(options, name, args[1]) {
                Ok(next) => request(args.skip(2), next),
                Err(message) => Request::Error(message),
            }
        }
    }
}

/// The characters of each argument.
pub open spec fn texts(args: Seq<String>) -> Seq<Seq<char>> {
    args.map_values(|arg: String| arg@)
}

fn quote(lead: &str, value: &str) -> (text: String)
    ensures
        text@ == quoting(lead@, value@),
{
    let mut text: String = String::new();
    text.append(lead);
    text.append(value);
    text.append("'");
    assert(text@ =~= quoting(lead@, value@));
    text
}

fn apply(options: Args, name: &str, value: &str) -> (outcome: Result<Args, String>)
    requires
        takes_value(name@),
    ensures
        outcome matches Ok(next) ==> with_value(options@, name@, value@) == Ok::<Options, Seq<char>>(
            next@,
        ),
        outcome matches Err(message) ==> with_value(options@, name@, value@) == Err::<
            Options,
            Seq<char>,
        >(message@),
{
    if text::same(name, "--backend") {
        if text::same(value, "fake") {
            Ok(Args { backend: Backend::Fake, ..options })
        } else if text::same(value, "ebpf") {
            Ok(Args { backend: Backend::Ebpf, ..options })
        } else {
            Err(quote("unknown backend '", value))
        }
    } else if text::same(name, "--events-file") {
        Ok(Args { events_file: Some(value.to_owned()), ..options })
    } else {
        match text::parse_u64(value) {
            Some(ms) => Ok(Args { grace_ms: ms, ..options }),
            None => Err(quote("invalid --grace-ms value '", value)),
        }
    }
}

fn wants_value(name: &str) -> (wanted: bool)
    ensures
        wanted == takes_value(name@),
{
    text::same(name, "--backend") || text::same(name, "--events-file") || text::same(
        name,
        "--grace-ms",
    )
}

/// Reads the arguments of the command line, the program's name not among them.
pub fn parse_args(args: &Vec<String>) -> (parsed: Parsed)
    ensures
        parsed@ == request(texts(args@), defaults()),
{
    let ghost all = texts(args@);
    let mut options: Args = Args { backend: Backend::Ebpf, events_file: None, grace_ms: 100 };
    let mut i: usize = 0;
    assert(all.skip(0) =~= all);
    while i < args.len()
        invariant
            0 <= i <= args@.len(),
            all == texts(args@),
            request(all, defaults()) == request(all.skip(i as int), options@),
        decreases args@.len() - i,
    {
        let ghost rest = all.skip(i as int);
        let name: &str = args[i].as_str();
        assert(rest[0] == name@);
        if text::same(name, "-h") || text::same(name, "--help") {
            return Parsed::Help;
        }
        if text::same(name, "-V") || text::same(name, "--version") {
            return Parsed::Version;
        }
        if !wants_value(name) {
            return Parsed::Error(quote("unexpected argument '", name));
        }
        if i + 1 == args.len() {
            let mut message: String = name.to_owned();
            message.append(" requires a value");
            return Parsed::Error(message);
        }
        let value: &str = args[i + 1].as_str();
        proof {
            assert(rest[1] == value@);
            assert(rest.skip(2) =~= all.skip(i + 2));
        }
        options = match apply(options, name, value) {
            Ok(next) => next,
            Err(message) => {
                return Parsed::Error(message);
            },
        };
        i += 2;
    }
    Parsed::Run(options)
}

/// Why the process fails: the lines it says on its error output, and its exit
/// code.
pub struct Failure {
    pub lines: Vec<String>,
    pub code: u8,
}

/// The name that the process puts before what it says.
pub open spec fn named(message: Seq<char>) -> Seq<char> {
    "mcpfz-probe: "@ + message
}

fn name(message: &str) -> (line: String)
    ensures
        line@ == named(message@),
{
    let mut line: String = String::new();
    line.append("mcpfz-probe: ");
    line.append(message);
    assert(line@ =~= named(message@));
    line
}

fn failure(message: &str, code: u8) -> (failure: Failure)
    ensures
        failure.code == code,
        texts(failure.lines@) == seq![named(message@)],
{
    let mut lines: Vec<String> = Vec::new();
    lines.push(name(message));
    assert(texts(lines@) =~= seq![named(message@)]);
    Failure { lines, code }
}

/// The command line is wrong.
pub fn usage_failure(message: &str) -> (failure: Failure)
    ensures
        failure.code == 2,
        texts(failure.lines@) == seq![named(message@), "try 'mcpfz-probe --help'"@],
{
    let mut lines: Vec<String> = Vec::new();
    lines.push(name(message));
    lines.push("try 'mcpfz-probe --help'".to_owned());
    assert(texts(lines@) =~= seq![named(message@), "try 'mcpfz-probe --help'"@]);
    Failure { lines, code: 2 }
}

/// The backend is not available on this platform or in this build
/// (`EX_UNAVAILABLE`).
pub fn backend_failure(error: &str) -> (failure: Failure)
    ensures
        failure.code == 69,
        texts(failure.lines@) == seq![named(error@)],
{
    self::failure(error, 69)
}

/// Reading the control input or writing the messages failed.
pub fn io_failure(error: &str) -> (failure: Failure)
    ensures
        failure.code == 1,
        texts(failure.lines@) == seq![named("io error: "@ + error@)],
{
    let mut message: String = String::new();
    message.append("io error: ");
    message.append(error);
    assert(message@ =~= "io error: "@ + error@);
    self::failure(message.as_str(), 1)
}

/// What is said of an events file that cannot be used.
pub open spec fn events_file_message(
    lead: Seq<char>,
    path: Seq<char>,
    error: Seq<char>,
) -> Seq<char> {
    lead + path + "': "@ + error
}

/// The events file cannot be read, or holds no script.
pub(crate) fn events_file_failure(lead: &str, path: &str, error: &str) -> (failure: Failure)
    ensures
        failure.code == 2,
        texts(failure.lines@) == seq![named(events_file_message(lead@, path@, error@))],
{
    let mut message: String = String::new();
    message.append(lead);
    message.append(path);
    message.append("': ");
    message.append(error);
    assert(message@ =~= events_file_message(lead@, path@, error@));
    self::failure(message.as_str(), 2)
}

} // verus!
