//! The command line is read from left to right.

use vstd::prelude::*;

use crate::cli;
use crate::cli::{Args, Backend, Options, Parsed, Request};
use crate::text;

verus! {

/// Arguments after others that set options are read as if those had been the
/// defaults; so a later option replaces an earlier one.
pub proof fn law_arguments_compose(
    first: Seq<Seq<char>>,
    then_args: Seq<Seq<char>>,
    options: Options,
)
    ensures
        cli::request(first, options) matches Request::Run(next) ==> cli::request(
            first + then_args,
            options,
        ) == cli::request(then_args, next),
    decreases first.len(),
{
    let all = first + then_args;
    if first.len() == 0 {
        assert(all =~= then_args);
    } else if first.len() >= 2 {
        assert(all[0] == first[0] && all[1] == first[1]);
        assert(all.skip(2) =~= first.skip(2) + then_args);
        match cli::with_value(options, first[0], first[1]) {
            Ok(next) => law_arguments_compose(first.skip(2), then_args, next),
            Err(_) => {},
        }
    }
}

/// Whether a command line fails because its last option has no value.
pub open spec fn lacks_value(request: Request) -> bool {
    exists|name: Seq<char>| #[trigger]
        cli::takes_value(name) && request == Request::Error(name + " requires a value"@)
}

/// A command line that fails, or asks for help or the version, does so
/// whatever follows, unless it fails because its last option has no value.
pub proof fn law_settled_early(first: Seq<Seq<char>>, rest: Seq<Seq<char>>, options: Options)
    requires
        !(cli::request(first, options) is Run),
        !lacks_value(cli::request(first, options)),
    ensures
        cli::request(first + rest, options) == cli::request(first, options),
    decreases first.len(),
{
    let all = first + rest;
    assert(first.len() > 0);
    let name = first[0];
    assert(all[0] == name);
    let settles = name == "-h"@ || name == "--help"@ || name == "-V"@ || name == "--version"@;
    if !settles && cli::takes_value(name) {
        if first.len() == 1 {
            assert(lacks_value(cli::request(first, options)));
        } else {
            assert(all[1] == first[1]);
            assert(all.skip(2) =~= first.skip(2) + rest);
            match cli::with_value(options, name, first[1]) {
                Ok(next) => law_settled_early(first.skip(2), rest, next),
                Err(_) => {},
            }
        }
    }
}

/// Help and version are answered whatever follows them, after any options that
/// are in order.
pub proof fn law_help_and_version_short_circuit(
    first: Seq<Seq<char>>,
    rest: Seq<Seq<char>>,
    options: Options,
)
    requires
        cli::request(first, options) is Run,
    ensures
        cli::request(first + (seq!["-h"@] + rest), options) == Request::Help,
        cli::request(first + (seq!["--help"@] + rest), options) == Request::Help,
        cli::request(first + (seq!["-V"@] + rest), options) == Request::Version,
        cli::request(first + (seq!["--version"@] + rest), options) == Request::Version,
{
    law_arguments_compose(first, seq!["-h"@] + rest, options);
    law_arguments_compose(first, seq!["--help"@] + rest, options);
    law_arguments_compose(first, seq!["-V"@] + rest, options);
    law_arguments_compose(first, seq!["--version"@] + rest, options);
    reveal_strlit("-h");
    reveal_strlit("--help");
    reveal_strlit("-V");
    reveal_strlit("--version");
    assert("-V"@ != "-h"@) by {
        assert("-V"@[1] != "-h"@[1]);
    }
    assert("-V"@ != "--help"@) by {
        assert("-V"@.len() != "--help"@.len());
    }
    assert("--version"@ != "-h"@) by {
        assert("--version"@.len() != "-h"@.len());
    }
    assert("--version"@ != "--help"@) by {
        assert("--version"@.len() != "--help"@.len());
    }
}

proof fn lemma_option_names_differ()
    ensures
        "--grace-ms"@ != "-h"@,
        "--grace-ms"@ != "--help"@,
        "--grace-ms"@ != "-V"@,
        "--grace-ms"@ != "--version"@,
        "--grace-ms"@ != "--backend"@,
        "--grace-ms"@ != "--events-file"@,
        "--backend"@ != "-h"@,
        "--backend"@ != "--help"@,
        "--backend"@ != "-V"@,
        "--backend"@ != "--version"@,
        "--events-file"@ != "-h"@,
        "--events-file"@ != "--help"@,
        "--events-file"@ != "-V"@,
        "--events-file"@ != "--version"@,
        "--events-file"@ != "--backend"@,
        "fake"@ != "ebpf"@,
{
    reveal_strlit("--grace-ms");
    reveal_strlit("-h");
    reveal_strlit("--help");
    reveal_strlit("-V");
    reveal_strlit("--version");
    reveal_strlit("--backend");
    reveal_strlit("--events-file");
    reveal_strlit("fake");
    reveal_strlit("ebpf");
    assert("--grace-ms"@.len() == 10 && "-h"@.len() == 2 && "--help"@.len() == 6 && "-V"@.len() == 2
        && "--version"@.len() == 9 && "--backend"@.len() == 9 && "--events-file"@.len() == 13);
    assert("--backend"@[2] != "--version"@[2]);
    assert("fake"@[0] != "ebpf"@[0]);
}

/// Whatever options come first, the grace window, the backend and the events
/// file given last are the ones that hold, and nothing else changes.
pub proof fn law_last_option_holds(first: Seq<Seq<char>>, options: Options, ms: u64, path: Seq<char>)
    requires
        cli::request(first, options) is Run,
    ensures
        ({
            let set = cli::request(first, options)->Run_0;
            &&& cli::request(
                first + seq!["--grace-ms"@, text::numeral(ms as nat, 10)],
                options,
            ) == Request::Run(Options { grace_ms: ms, ..set })
            &&& cli::request(first + seq!["--backend"@, "fake"@], options) == Request::Run(
                Options { backend: Backend::Fake, ..set },
            )
            &&& cli::request(first + seq!["--backend"@, "ebpf"@], options) == Request::Run(
                Options { backend: Backend::Ebpf, ..set },
            )
            &&& cli::request(first + seq!["--events-file"@, path], options) == Request::Run(
                Options { events_file: Some(path), ..set },
            )
        }),
{
    reveal_with_fuel(cli::request, 2);
    lemma_option_names_differ();
    crate::laws::numbers::law_unsigned_read_back(ms);
    let grace = seq!["--grace-ms"@, text::numeral(ms as nat, 10)];
    let fake = seq!["--backend"@, "fake"@];
    let ebpf = seq!["--backend"@, "ebpf"@];
    let file = seq!["--events-file"@, path];
    law_arguments_compose(first, grace, options);
    law_arguments_compose(first, fake, options);
    law_arguments_compose(first, ebpf, options);
    law_arguments_compose(first, file, options);
    assert(grace.skip(2).len() == 0 && fake.skip(2).len() == 0 && ebpf.skip(2).len() == 0
        && file.skip(2).len() == 0);
}

/// Without arguments the eBPF backend runs, with no events file and a grace
/// window of 100 milliseconds.
pub proof fn law_defaults()
    ensures
        cli::request(Seq::empty(), cli::defaults()) == Request::Run(
            Options { backend: Backend::Ebpf, events_file: None, grace_ms: 100 },
        ),
{
}

/// What the first argument does, by its name. No arguments leave the options as
/// they are; help and version are settled at once; an option takes the argument
/// behind it as its value, and the rest is read with it set; one without a
/// value, a backend of another name, a grace window that is no number, and any
/// other argument are errors that say so.
pub proof fn law_first_argument(args: Seq<Seq<char>>, options: Options)
    ensures
        args.len() == 0 ==> cli::request(args, options) == Request::Run(options),
        args.len() > 0 ==> ({
            let asked = cli::request(args, options);
            let name = args[0];
            let value = args[1];
            let rest = args.subrange(2, args.len() as int);
            let help = name == "-h"@ || name == "--help"@;
            let version = name == "-V"@ || name == "--version"@;
            let option = name == "--backend"@ || name == "--events-file"@ || name == "--grace-ms"@;
            &&& help ==> asked == Request::Help
            &&& version ==> asked == Request::Version
            &&& !help && !version && !option ==> asked == Request::Error(
                "unexpected argument '"@ + name + "'"@,
            )
            &&& option && args.len() == 1 ==> asked == Request::Error(name + " requires a value"@)
            &&& name == "--backend"@ && args.len() > 1 ==> {
                &&& value == "fake"@ ==> asked == cli::request(
                    rest,
                    Options { backend: Backend::Fake, ..options },
                )
                &&& value == "ebpf"@ ==> asked == cli::request(
                    rest,
                    Options { backend: Backend::Ebpf, ..options },
                )
                &&& value != "fake"@ && value != "ebpf"@ ==> asked == Request::Error(
                    "unknown backend '"@ + value + "'"@,
                )
            }
            &&& name == "--events-file"@ && args.len() > 1 ==> asked == cli::request(
                rest,
                Options { events_file: Some(value), ..options },
            )
            &&& name == "--grace-ms"@ && args.len() > 1 ==> match text::read_u64(value) {
                Some(ms) => asked == cli::request(rest, Options { grace_ms: ms, ..options }),
                None => asked == Request::Error("invalid --grace-ms value '"@ + value + "'"@),
            }
        }),
{
    lemma_option_names_differ();
    reveal_strlit("-h");
    reveal_strlit("-V");
    reveal_strlit("--help");
    reveal_strlit("--version");
    assert("-V"@.len() == 2 && "-h"@.len() == 2 && "--help"@.len() == 6 && "--version"@.len() == 9);
    assert("-V"@[1] != "-h"@[1]);
    if args.len() > 1 {
        assert(args.skip(2) =~= args.subrange(2, args.len() as int));
    }
}

/// What a command line asks for stands for what is parsed of it: the same
/// backend, grace window and file, or the same message.
pub proof fn law_parsed(args: Args, message: String)
    ensures
        args@.backend == args.backend,
        args@.grace_ms == args.grace_ms,
        args.events_file is None <==> args@.events_file is None,
        args.events_file is Some ==> args@.events_file->0 == args.events_file->0@,
        Parsed::Run(args)@ == Request::Run(args@),
        Parsed::Help@ == Request::Help,
        Parsed::Version@ == Request::Version,
        Parsed::Error(message)@ == Request::Error(message@),
{
}

/// What the process says begins with its name, and the texts of lines are their
/// characters, in order.
pub proof fn law_said(message: Seq<char>, lines: Seq<String>)
    ensures
        cli::named(message) == "mcpfz-probe: "@ + message,
        cli::texts(lines).len() == lines.len(),
        forall|i: int| 0 <= i < lines.len() ==> #[trigger] cli::texts(lines)[i] == lines[i]@,
{
}

} // verus!
