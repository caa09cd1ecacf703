use vstd::prelude::*;
use crate::remote::{close_hook, close_hook_text, command_text};
use crate::translate::{
    Command, CommandView, Translation, UsageError, tokens, translate, translation_of, views,
};

verus! {

/// One thing for the session to do, in order.
#[derive(Debug, PartialEq, Eq)]
pub enum Action {
    /// Send this ex command and wait for the acknowledgement.
    Send(String),
    /// Ask for the current buffer's number and add it to the pending set.
    TrackCurrentBuffer,
}

pub enum ActionView {
    Send(Seq<char>),
    TrackCurrentBuffer,
}

impl View for Action {
    type V = ActionView;

    open spec fn view(&self) -> ActionView {
        match self {
            Action::Send(s) => ActionView::Send(s@),
            Action::TrackCurrentBuffer => ActionView::TrackCurrentBuffer,
        }
    }
}

pub open spec fn action_views(a: Seq<Action>) -> Seq<ActionView> {
    a.map_values(|x: Action| x@)
}

/// The actions of one command: its ex command, then, where it opens a buffer
/// that is awaited, the close hook for that buffer and the record of it.
pub open spec fn command_actions(c: CommandView, cwd: Seq<char>, channel: u64) -> Seq<ActionView> {
    if c.awaits_close() {
        seq![
            ActionView::Send(command_text(c, cwd)),
            ActionView::Send(close_hook_text(channel)),
            ActionView::TrackCurrentBuffer,
        ]
    } else {
        seq![ActionView::Send(command_text(c, cwd))]
    }
}

/// The actions of a sequence of commands, one command after another.
pub open spec fn actions_of(cs: Seq<CommandView>, cwd: Seq<char>, channel: u64) -> Seq<ActionView>
    decreases cs.len(),
{
    if cs.len() == 0 {
        seq![]
    } else {
        actions_of(cs.drop_last(), cwd, channel) + command_actions(cs.last(), cwd, channel)
    }
}

/// The actions of a concatenation are those of its parts, one after the other.
pub proof fn lemma_actions_of_concat(
    a: Seq<CommandView>,
    b: Seq<CommandView>,
    cwd: Seq<char>,
    channel: u64,
)
    ensures
        actions_of(a + b, cwd, channel) == actions_of(a, cwd, channel) + actions_of(
            b,
            cwd,
            channel,
        ),
    decreases b.len(),
{
    if b.len() == 0 {
        assert(a + b =~= a);
        assert(actions_of(a, cwd, channel) + seq![] =~= actions_of(a, cwd, channel));
    } else {
        assert((a + b).drop_last() =~= a + b.drop_last());
        assert((a + b).last() == b.last());
        lemma_actions_of_concat(a, b.drop_last(), cwd, channel);
        assert(actions_of(a, cwd, channel) + actions_of(b.drop_last(), cwd, channel)
            + command_actions(b.last(), cwd, channel) =~= actions_of(a, cwd, channel) + (
        actions_of(b.drop_last(), cwd, channel) + command_actions(b.last(), cwd, channel)));
    }
}

/// Appends the actions of `c` to `out`.
fn push_actions(out: &mut Vec<Action>, c: &Command, cwd: &str, channel: u64)
    ensures
        action_views(final(out)@) == action_views(old(out)@) + command_actions(c@, cwd@, channel),
{
    let ghost before = action_views(out@);
    out.push(Action::Send(c.remote_text(cwd)));
    if c.awaits_close() {
        out.push(Action::Send(close_hook(channel)));
        out.push(Action::TrackCurrentBuffer);
    }
    assert(action_views(out@) =~= before + command_actions(c@, cwd@, channel));
}

/// Appends the actions of `cs`, in order, to `out`.
fn push_all_actions(out: &mut Vec<Action>, cs: &Vec<Command>, cwd: &str, channel: u64)
    ensures
        action_views(final(out)@) == action_views(old(out)@) + actions_of(views(cs@), cwd@, channel),
{
    let ghost before = action_views(out@);
    let mut i: usize = 0;
    assert(views(cs@).take(0) =~= seq![]);
    assert(before + seq![] =~= before);
    while i < cs.len()
        invariant
            i <= cs.len(),
            action_views(out@) == before + actions_of(views(cs@).take(i as int), cwd@, channel),
        decreases cs.len() - i,
    {
        push_actions(out, &cs[i], cwd, channel);
        proof {
            let done = views(cs@).take(i + 1);
            assert(done.drop_last() =~= views(cs@).take(i as int));
            assert(done.last() == cs@[i as int]@);
            assert(action_views(out@) =~= before + actions_of(done, cwd@, channel));
        }
        i = i + 1;
    }
    assert(views(cs@).take(i as int) =~= views(cs@));
}

/// Everything the session does for a translation, in order: the actions of the
/// immediate commands, then those of the deferred ones.
pub fn script(t: &Translation, cwd: &str, channel: u64) -> (r: Vec<Action>)
    ensures
        action_views(r@) == actions_of(views(t.immediate@) + views(t.deferred@), cwd@, channel),
{
    let mut out: Vec<Action> = Vec::new();
    assert(action_views(out@) =~= seq![]);
    push_all_actions(&mut out, &t.immediate, cwd, channel);
    push_all_actions(&mut out, &t.deferred, cwd, channel);
    proof {
        lemma_actions_of_concat(views(t.immediate@), views(t.deferred@), cwd@, channel);
        assert(seq![] + actions_of(views(t.immediate@), cwd@, channel) =~= actions_of(
            views(t.immediate@),
            cwd@,
            channel,
        ));
    }
    out
}

/// Everything the session does for the argument tokens `args`, in order, or the
/// usage error where the error-file flag has no path after it.
pub fn session_script(args: &Vec<String>, cwd: &str, channel: u64) -> (r: Result<
    Vec<Action>,
    UsageError,
>)
    ensures
        match translation_of(tokens(args@)) {
            Some((im, de)) => r matches Ok(a) && action_views(a@) == actions_of(im + de, cwd@, channel),
            None => r matches Err(UsageError::MissingErrorFile),
        },
{
    match translate(args) {
        Ok(t) => Ok(script(&t, cwd, channel)),
        Err(e) => Err(e),
    }
}

} // verus!
