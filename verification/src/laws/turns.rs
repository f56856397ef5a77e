//! Turns: what is sent, what streams in, what a turn ends with, and what it was refused.

use crate::json::{member_of, JsonView};
use crate::laws::machine::{law_approval, law_open_dirs_are_passed, run, Input};
use crate::names::{MessageView, Who};
use crate::session::{launch_args, permission_mode};
use crate::tab::{approve_step, event_step, turn_step, ActionView, TabView};
use crate::wire::{denied_dir, denied_dirs, str_at, user_tree, EvView, TurnView};
use vstd::prelude::*;

verus! {

/// A user's message is on the wire as it was written: as the content of a message whose role is
/// `user`.
pub proof fn law_message_on_the_wire(message: Seq<char>)
    ensures
        str_at(Some(user_tree(message)), "type"@) == Some("user"@),
        str_at(member_of(Some(user_tree(message)), "message"@), "role"@) == Some("user"@),
        str_at(member_of(Some(user_tree(message)), "message"@), "content"@) == Some(message),
{
    lemma_wire_names();
}

/// Different messages are different on the wire.
pub proof fn law_messages_are_told_apart(a: Seq<char>, b: Seq<char>)
    requires
        user_tree(a) == user_tree(b),
    ensures
        a == b,
{
    law_message_on_the_wire(a);
    law_message_on_the_wire(b);
}

proof fn lemma_wire_names()
    ensures
        "type"@ != "message"@,
        "role"@ != "content"@,
{
    reveal_strlit("type");
    reveal_strlit("message");
    reveal_strlit("role");
    reveal_strlit("content");
    assert("type"@.len() != "message"@.len());
    assert("role"@.len() != "content"@.len());
}

/// The pieces of a reply, one behind the other.
pub open spec fn pieces(texts: Seq<Seq<char>>) -> Seq<char>
    decreases texts.len(),
{
    if texts.len() == 0 {
        Seq::empty()
    } else {
        pieces(texts.drop_last()) + texts.last()
    }
}

/// The reports of the pieces of a reply.
pub open spec fn piece_reports(
    gen: u64,
    texts: Seq<Seq<char>>,
    log: Seq<char>,
    mode: u32,
) -> Seq<Input> {
    texts.map_values(
        |text: Seq<char>| Input::Report { gen, ev: EvView::Delta(text), log, mode },
    )
}

/// A reply that streams in is shown whole and in order: nothing of it is lost, and nothing else of
/// the tab changes but that the transcript is to be shown.
pub proof fn law_reply_streams_in(tab: TabView, texts: Seq<Seq<char>>, log: Seq<char>, mode: u32)
    ensures
        run(tab, piece_reports(tab.gen, texts, log, mode)) == (TabView {
            stream: tab.stream + pieces(texts),
            render_pending: tab.render_pending || texts.len() > 0,
            ..tab
        }),
    decreases texts.len(),
{
    let inputs = piece_reports(tab.gen, texts, log, mode);
    if texts.len() == 0 {
        assert(tab.stream + pieces(texts) =~= tab.stream);
    } else {
        let earlier = texts.drop_last();
        law_reply_streams_in(tab, earlier, log, mode);
        assert(inputs.drop_last() =~= piece_reports(tab.gen, earlier, log, mode));
        assert(tab.stream + pieces(earlier) + texts.last() =~= tab.stream + pieces(texts));
    }
}

/// While the transcript is to be shown anyway, a piece of a reply asks for nothing: however fast
/// the pieces come, the transcript is shown once for all of them.
pub proof fn law_pieces_share_a_showing(
    tab: TabView,
    gen: u64,
    text: Seq<char>,
    log: Seq<char>,
    mode: u32,
)
    requires
        tab.render_pending,
    ensures
        event_step(tab, gen, EvView::Delta(text), log, mode).actions == Seq::<ActionView>::empty(),
{
}

/// The end of a turn: what streamed in gives way to the reply, the tokens are kept, and the user
/// may write again.
pub proof fn law_turn_ends(tab: TabView, turn: TurnView)
    ensures
        ({
            let step = turn_step(tab, turn);
            let reply = MessageView { who: Who::Assistant, text: turn.result };
            &&& step.tab.stream.len() == 0
            &&& tab.msgs.push(reply).is_prefix_of(step.tab.msgs)
            &&& step.tab.sess.last_usage == Some(turn.usage)
            &&& step.actions.last() == ActionView::Inputs(true)
        }),
{
}

/// A turn that was refused something awaits approval, and the user may approve; one that was not
/// awaits none.
pub proof fn law_refusals_await_approval(tab: TabView, turn: TurnView)
    ensures
        turn_step(tab, turn).tab.sess.pending_approval == (turn.denials.len() > 0),
        turn_step(tab, turn).actions.contains(ActionView::Approve(true)) == (turn.denials.len()
            > 0),
        turn_step(tab, turn).tab.sess.allowed_dirs == tab.sess.allowed_dirs,
{
    let step = turn_step(tab, turn);
    if turn.denials.len() > 0 {
        assert(step.actions[2] == ActionView::Approve(true));
    }
}

/// An approval gives the turn what it was refused: a program is launched that accepts edits and has
/// every folder that the turn was refused.
pub proof fn law_approval_opens_what_was_refused(
    tab: TabView,
    turn: TurnView,
    mode: u32,
    i: int,
)
    requires
        tab.sess.workdir is Some,
        turn.denials.len() > 0,
        0 <= i < turn.denied_dirs.len(),
    ensures
        ({
            let asked = turn_step(tab, turn).tab;
            let step = approve_step(asked, mode);
            let args = launch_args(step.tab.sess, mode, true);
            &&& step.actions[1] == (ActionView::Spawn { gen: step.tab.gen, args })
            &&& permission_mode(step.tab.sess, mode, true) == Some("acceptEdits"@)
            &&& step.tab.sess.session_id == asked.sess.session_id
            &&& exists|at: int|
                {
                    &&& 0 <= at < args.len() - 1
                    &&& #[trigger] args[at] == "--add-dir"@
                    &&& args[at + 1] == turn.denied_dirs[i]
                }
        }),
{
    let asked = turn_step(tab, turn).tab;
    let step = approve_step(asked, mode);
    law_approval(asked, mode, mode);
    let dir = turn.denied_dirs[i];
    assert(asked.sess.pending_dirs.contains(dir));
    let allowed = step.tab.sess.allowed_dirs;
    assert(allowed.contains(dir));
    let k = choose|k: int| 0 <= k < allowed.len() && allowed[k] == dir;
    law_open_dirs_are_passed(step.tab.sess, mode, true, k);
}

/// The folders that a turn was refused: none twice, none without a name, and exactly those that
/// some refusal asks for.
pub proof fn law_denied_dirs(refused: Seq<JsonView>)
    ensures
        denied_dirs(refused).no_duplicates(),
        forall|dir: Seq<char>| #[trigger]
            denied_dirs(refused).contains(dir) ==> dir.len() > 0 && exists|i: int|
                0 <= i < refused.len() && denied_dir(#[trigger] refused[i]) == Some(dir),
        forall|i: int|
            0 <= i < refused.len() ==> (denied_dir(#[trigger] refused[i]) matches Some(dir)
                ==> denied_dirs(refused).contains(dir)),
    decreases refused.len(),
{
    if refused.len() > 0 {
        let earlier = refused.drop_last();
        law_denied_dirs(earlier);
        let before = denied_dirs(earlier);
        let all = denied_dirs(refused);
        assert forall|dir: Seq<char>| #[trigger] all.contains(dir) implies dir.len() > 0 && exists|
            i: int,
        |
            0 <= i < refused.len() && denied_dir(#[trigger] refused[i]) == Some(dir) by {
            if before.contains(dir) {
                let i = choose|i: int|
                    0 <= i < earlier.len() && denied_dir(#[trigger] earlier[i]) == Some(dir);
                assert(refused[i] == earlier[i]);
            } else {
                let k = choose|k: int| 0 <= k < all.len() && all[k] == dir;
                if k < before.len() {
                    assert(before[k] == dir);
                }
                assert(denied_dir(refused[refused.len() - 1]) == Some(dir));
            }
        }
        assert forall|i: int| 0 <= i < refused.len() implies (denied_dir(
            #[trigger] refused[i],
        ) matches Some(dir) ==> all.contains(dir)) by {
            if let Some(dir) = denied_dir(refused[i]) {
                if i < earlier.len() {
                    assert(earlier[i] == refused[i]);
                    assert(before.contains(dir));
                    let k = choose|k: int| 0 <= k < before.len() && before[k] == dir;
                    assert(all[k] == dir);
                } else if !before.contains(dir) {
                    assert(all == before.push(dir));
                    assert(all[before.len() as int] == dir);
                }
            }
        }
    }
}

} // verus!
