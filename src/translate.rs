use vstd::prelude::*;
use vstd::string::StrSliceExecFns;
use vstd::string::StringExecFns;

verus! {

/// A remote command derived from the argument tokens.
#[derive(Debug, PartialEq, Eq)]
pub enum Command {
    /// Open a split on a new, unnamed buffer that is deleted once hidden.
    OpenScratch,
    /// Open a split on the file at this path.
    OpenFile(String),
    /// An ex command run after every buffer is open, such as a line to jump to.
    GotoCommand(String),
    /// Load the quickfix list from the file at this path.
    LoadErrorFile(String),
}

/// What a command holds, with its texts as character sequences.
pub enum CommandView {
    OpenScratch,
    OpenFile(Seq<char>),
    GotoCommand(Seq<char>),
    LoadErrorFile(Seq<char>),
}

impl View for Command {
    type V = CommandView;

    open spec fn view(&self) -> CommandView {
        match self {
            Command::OpenScratch => CommandView::OpenScratch,
            Command::OpenFile(p) => CommandView::OpenFile(p@),
            Command::GotoCommand(e) => CommandView::GotoCommand(e@),
            Command::LoadErrorFile(p) => CommandView::LoadErrorFile(p@),
        }
    }
}

impl CommandView {
    /// Whether the command creates a buffer that must close before the wait ends.
    pub open spec fn awaits_close(self) -> bool {
        self is OpenScratch || self is OpenFile
    }
}

/// Why the arguments could not be translated.
#[derive(Clone, Copy, Debug, PartialEq, Eq, Structural)]
pub enum UsageError {
    /// The error-file flag was the last token, with no path after it.
    MissingErrorFile,
}

/// The commands for one invocation: those run in order as they come, then the
/// deferred ones, in order, once every buffer is open.
#[derive(Debug, PartialEq, Eq)]
pub struct Translation {
    pub immediate: Vec<Command>,
    pub deferred: Vec<Command>,
}

pub open spec fn views(cs: Seq<Command>) -> Seq<CommandView> {
    cs.map_values(|c: Command| c@)
}

pub open spec fn tokens(args: Seq<String>) -> Seq<Seq<char>> {
    args.map_values(|a: String| a@)
}

/// A token that starts with `+` is a deferred navigation command.
pub open spec fn is_goto(tok: Seq<char>) -> bool {
    tok.len() > 0 && tok[0] == '+'
}

/// The command of a `+` token: what follows the `+`, or `$` (the last line)
/// where nothing does.
pub open spec fn goto_target(tok: Seq<char>) -> Seq<char> {
    if tok.len() == 1 {
        seq!['$']
    } else {
        tok.drop_first()
    }
}

/// The flag whose next token is an error file.
pub open spec fn is_error_flag(tok: Seq<char>) -> bool {
    tok == seq!['-', 'q']
}

/// The immediate and deferred commands of a token list, or `None` where the
/// error-file flag has no path after it.
pub open spec fn plan(args: Seq<Seq<char>>) -> Option<(Seq<CommandView>, Seq<CommandView>)>
    decreases args.len(),
{
    if args.len() == 0 {
        Some((seq![], seq![]))
    } else if is_goto(args[0]) {
        match plan(args.drop_first()) {
            Some((im, de)) => Some((im, seq![CommandView::GotoCommand(goto_target(args[0]))] + de)),
            None => None,
        }
    } else if is_error_flag(args[0]) {
        if args.len() < 2 {
            None
        } else {
            match plan(args.subrange(2, args.len() as int)) {
                Some((im, de)) => Some((seq![CommandView::LoadErrorFile(args[1])] + im, de)),
                None => None,
            }
        }
    } else {
        match plan(args.drop_first()) {
            Some((im, de)) => Some((seq![CommandView::OpenFile(args[0])] + im, de)),
            None => None,
        }
    }
}

/// The translation of an argument list: a scratch buffer where it is empty,
/// else the plan of its tokens.
pub open spec fn translation_of(args: Seq<Seq<char>>) -> Option<(Seq<CommandView>, Seq<CommandView>)> {
    if args.len() == 0 {
        Some((seq![CommandView::OpenScratch], seq![]))
    } else {
        plan(args)
    }
}

/// A token that opens a file: neither a navigation command nor the error-file flag.
pub open spec fn is_path(tok: Seq<char>) -> bool {
    !is_goto(tok) && !is_error_flag(tok)
}

/// The plan of a token list that holds only paths opens each of them, in order,
/// and defers nothing.
proof fn lemma_plan_of_paths(args: Seq<Seq<char>>)
    requires
        forall|k: int| 0 <= k < args.len() ==> is_path(#[trigger] args[k]),
    ensures
        plan(args) == Some(
            (args.map_values(|p: Seq<char>| CommandView::OpenFile(p)), Seq::<CommandView>::empty()),
        ),
    decreases args.len(),
{
    if args.len() > 0 {
        let rest = args.drop_first();
        assert forall|k: int| 0 <= k < rest.len() implies is_path(#[trigger] rest[k]) by {
            assert(rest[k] == args[k + 1]);
        }
        lemma_plan_of_paths(rest);
        assert(is_path(args[0]));
        assert(seq![CommandView::OpenFile(args[0])] + rest.map_values(
            |p: Seq<char>| CommandView::OpenFile(p),
        ) =~= args.map_values(|p: Seq<char>| CommandView::OpenFile(p)));
    }
}

/// An argument list of paths alone opens one buffer per path, every one of
/// which is awaited, and defers nothing; with a distinct buffer for each, the
/// set of buffers to wait for has exactly as many elements as there are paths.
pub proof fn lemma_paths_each_awaited(args: Seq<Seq<char>>, buffers: Seq<i64>)
    requires
        args.len() > 0,
        forall|k: int| 0 <= k < args.len() ==> is_path(#[trigger] args[k]),
        buffers.len() == args.len(),
        buffers.no_duplicates(),
    ensures
        translation_of(args) matches Some((im, de)) && im.len() == args.len() && de.len() == 0
            && forall|k: int| 0 <= k < im.len() ==> (#[trigger] im[k]).awaits_close(),
        buffers.to_set().len() == args.len(),
{
    lemma_plan_of_paths(args);
    buffers.unique_seq_to_set();
}

/// Turns the argument tokens into commands, left to right.
pub fn translate(args: &Vec<String>) -> (r: Result<Translation, UsageError>)
    ensures
        match translation_of(tokens(args@)) {
            Some((im, de)) => r matches Ok(t) && views(t.immediate@) == im && views(t.deferred@)
                == de,
            None => r == Err::<Translation, UsageError>(UsageError::MissingErrorFile),
        },
{
    let ghost all = tokens(args@);
    if args.len() == 0 {
        let t = Translation { immediate: vec![Command::OpenScratch], deferred: Vec::new() };
        assert(views(t.immediate@) =~= seq![CommandView::OpenScratch]);
        assert(views(t.deferred@) =~= seq![]);
        return Ok(t);
    }
    let mut immediate: Vec<Command> = Vec::new();
    let mut deferred: Vec<Command> = Vec::new();
    let mut i: usize = 0;
    assert(all.subrange(0, all.len() as int) =~= all);
    assert(views(immediate@) =~= seq![]);
    assert(views(deferred@) =~= seq![]);
    while i < args.len()
        invariant
            0 < args.len(),
            i <= args.len(),
            all == tokens(args@),
            match plan(all.subrange(i as int, all.len() as int)) {
                Some((im, de)) => plan(all) == Some(
                    (views(immediate@) + im, views(deferred@) + de),
                ),
                None => plan(all) is None,
            },
        decreases args.len() - i,
    {
        let ghost rest = all.subrange(i as int, all.len() as int);
        let ghost old_im = views(immediate@);
        let ghost old_de = views(deferred@);
        assert(rest[0] == args@[i as int]@);
        let tok = args[i].as_str();
        let n = tok.unicode_len();
        if n > 0 && tok.get_char(0) == '+' {
            let target = if n == 1 {
                proof {
                    reveal_strlit("$");
                }
                String::from_str("$")
            } else {
                String::from_str(tok.substring_char(1, n))
            };
            assert(target@ =~= goto_target(rest[0]));
            deferred.push(Command::GotoCommand(target));
            proof {
                assert(rest.drop_first() =~= all.subrange(i + 1, all.len() as int));
                assert(views(deferred@) =~= old_de.push(CommandView::GotoCommand(target@)));
                match plan(rest.drop_first()) {
                    Some((im, de)) => {
                        assert(old_de + (seq![CommandView::GotoCommand(target@)] + de)
                            =~= views(deferred@) + de);
                    },
                    None => {},
                }
            }
            i = i + 1;
        } else if n == 2 && tok.get_char(0) == '-' && tok.get_char(1) == 'q' {
            assert(tok@ =~= seq!['-', 'q']);
            if i + 1 >= args.len() {
                return Err(UsageError::MissingErrorFile);
            }
            let path = args[i + 1].clone();
            assert(rest[1] == args@[i + 1]@);
            immediate.push(Command::LoadErrorFile(path));
            proof {
                assert(rest.subrange(2, rest.len() as int) =~= all.subrange(
                    i + 2,
                    all.len() as int,
                ));
                assert(views(immediate@) =~= old_im.push(CommandView::LoadErrorFile(path@)));
                match plan(rest.subrange(2, rest.len() as int)) {
                    Some((im, de)) => {
                        assert(old_im + (seq![CommandView::LoadErrorFile(path@)] + im)
                            =~= views(immediate@) + im);
                    },
                    None => {},
                }
            }
            i = i + 2;
        } else {
            assert(!is_goto(rest[0]));
            assert(!is_error_flag(rest[0])) by {
                if is_error_flag(rest[0]) {
                    assert(rest[0][0] == '-' && rest[0][1] == 'q');
                }
            }
            let path = args[i].clone();
            immediate.push(Command::OpenFile(path));
            proof {
                assert(rest.drop_first() =~= all.subrange(i + 1, all.len() as int));
                assert(views(immediate@) =~= old_im.push(CommandView::OpenFile(path@)));
                match plan(rest.drop_first()) {
                    Some((im, de)) => {
                        assert(old_im + (seq![CommandView::OpenFile(path@)] + im)
                            =~= views(immediate@) + im);
                    },
                    None => {},
                }
            }
            i = i + 1;
        }
    }
    proof {
        assert(all.subrange(i as int, all.len() as int) =~= seq![]);
        assert(views(immediate@) + seq![] =~= views(immediate@));
        assert(views(deferred@) + seq![] =~= views(deferred@));
    }
    Ok(Translation { immediate, deferred })
}

} // verus!
