//! The command line: `--quit`, `--percent` and `--battery`.
use vstd::prelude::*;
use vstd::string::*;
use crate::settings::DisplayMode;
use crate::text::{same_text, views};

verus! {

/// What the program was asked to do.
#[derive(Debug, Clone, Copy, PartialEq, Eq, Structural)]
pub enum Command {
    /// Run the tray with this display mode.
    Run(DisplayMode),
    /// Ask the running instance to quit.
    Quit,
}

/// The mode an argument selects, if it is a mode option.
pub open spec fn mode_option(arg: Seq<char>) -> Option<DisplayMode> {
    if arg == "--percent"@ {
        Some(DisplayMode::Percentage)
    } else if arg == "--battery"@ {
        Some(DisplayMode::Battery)
    } else {
        None
    }
}

/// The command given by `args`, read from the first, starting from `mode`:
/// `--quit` ends the reading, a mode option replaces the mode, and any
/// other argument is refused.
pub open spec fn command_from(args: Seq<Seq<char>>, mode: DisplayMode) -> Result<
    Command,
    Seq<char>,
>
    decreases args.len(),
{
    if args.len() == 0 {
        Ok(Command::Run(mode))
    } else if args[0] == "--quit"@ {
        Ok(Command::Quit)
    } else if let Some(selected) = mode_option(args[0]) {
        command_from(args.drop_first(), selected)
    } else {
        Err("Unknown option: "@ + args[0])
    }
}

/// The mode after the first `k` arguments, all of them mode options.
pub open spec fn mode_after(args: Seq<Seq<char>>, k: int, mode: DisplayMode) -> DisplayMode {
    if k == 0 {
        mode
    } else {
        mode_option(args[k - 1]).unwrap()
    }
}

proof fn lemma_mode_options_are_skipped(args: Seq<Seq<char>>, mode: DisplayMode, k: int)
    requires
        0 <= k <= args.len(),
        forall|j: int| 0 <= j < k ==> mode_option(#[trigger] args[j]) is Some,
    ensures
        command_from(args, mode) == command_from(args.skip(k), mode_after(args, k, mode)),
    decreases k,
{
    reveal_strlit("--quit");
    reveal_strlit("--percent");
    reveal_strlit("--battery");
    if k == 0 {
        assert(args.skip(0) =~= args);
    } else {
        assert(mode_option(args[0]) is Some);
        assert("--quit"@.len() != "--percent"@.len() && "--quit"@.len() != "--battery"@.len());
        assert(args[0] != "--quit"@);
        let rest = args.drop_first();
        assert forall|j: int| 0 <= j < k - 1 implies mode_option(#[trigger] rest[j]) is Some by {
            assert(rest[j] == args[j + 1]);
        }
        lemma_mode_options_are_skipped(rest, mode_option(args[0]).unwrap(), k - 1);
        assert(rest.skip(k - 1) =~= args.skip(k));
        if k > 1 {
            assert(rest[k - 2] == args[k - 1]);
        }
    }
}

/// With only mode options, the last one given wins.
pub proof fn lemma_last_mode_wins(args: Seq<Seq<char>>, saved: DisplayMode)
    requires
        forall|j: int| 0 <= j < args.len() ==> mode_option(#[trigger] args[j]) is Some,
    ensures
        command_from(args, saved) == Ok::<Command, Seq<char>>(
            Command::Run(mode_after(args, args.len() as int, saved)),
        ),
{
    lemma_mode_options_are_skipped(args, saved, args.len() as int);
}

/// `--quit` after any mode options is obeyed, whatever follows it.
pub proof fn lemma_quit_takes_priority(args: Seq<Seq<char>>, saved: DisplayMode, k: int)
    requires
        0 <= k < args.len(),
        args[k] == "--quit"@,
        forall|j: int| 0 <= j < k ==> mode_option(#[trigger] args[j]) is Some,
    ensures
        command_from(args, saved) == Ok::<Command, Seq<char>>(Command::Quit),
{
    lemma_mode_options_are_skipped(args, saved, k);
}

/// The first argument that is neither `--quit` nor a mode option is
/// refused, and named in the message.
pub proof fn lemma_unknown_option_is_rejected(args: Seq<Seq<char>>, saved: DisplayMode, k: int)
    requires
        0 <= k < args.len(),
        args[k] != "--quit"@,
        mode_option(args[k]) is None,
        forall|j: int| 0 <= j < k ==> mode_option(#[trigger] args[j]) is Some,
    ensures
        command_from(args, saved) == Err::<Command, Seq<char>>("Unknown option: "@ + args[k]),
{
    lemma_mode_options_are_skipped(args, saved, k);
}

/// Reads the arguments (program name excluded), starting from the saved
/// display mode.
pub fn parse_command(args: &Vec<String>, saved: DisplayMode) -> (command: Result<Command, String>)
    ensures
        match command_from(views(args@), saved) {
            Ok(c) => command == Ok::<Command, String>(c),
            Err(message) => command matches Err(text) && text@ == message,
        },
{
    let mut mode = saved;
    let mut i: usize = 0;
    let ghost all = views(args@);
    assert(all.skip(0) =~= all);
    while i < args.len()
        invariant
            all == views(args@),
            i <= args.len(),
            command_from(all, saved) == command_from(all.skip(i as int), mode),
        decreases args.len() - i,
    {
        let argument = args[i].as_str();
        let ghost rest = all.skip(i as int);
        assert(rest[0] == argument@);
        assert(rest.drop_first() =~= all.skip(i + 1));
        if same_text(argument, "--quit") {
            return Ok(Command::Quit);
        } else if same_text(argument, "--percent") {
            mode = DisplayMode::Percentage;
        } else if same_text(argument, "--battery") {
            mode = DisplayMode::Battery;
        } else {
            let mut message = String::from_str("Unknown option: ");
            message.append(argument);
            return Err(message);
        }
        i = i + 1;
    }
    assert(all.skip(i as int).len() == 0);
    Ok(Command::Run(mode))
}

} // verus!
