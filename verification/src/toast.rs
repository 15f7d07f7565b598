//! On-screen toast messages: texts wait in a queue and are shown one at a
//! time; a toast that has stayed long enough gives way to the next text in
//! place, or slides out when nothing waits.

use std::collections::VecDeque;
use vstd::prelude::*;

verus! {

/// What a shown toast does this frame.
#[derive(Clone, Copy, Debug, PartialEq, Eq, Structural)]
pub enum UIToastLifecycleAction {
    KeepCurrent,
    ReplaceCurrent,
    DespawnCurrent,
}

/// What the toast display does this frame.
#[derive(Debug, PartialEq, Eq)]
pub enum UIToastCommand {
    /// Nothing shown and nothing waiting.
    Idle,
    /// Show a new toast with this text.
    Spawn(String),
    /// Leave the shown toast as it is.
    Keep,
    /// Put this text in the shown toast and restart its stay.
    ReplaceText(String),
    /// Remove the shown toast.
    Despawn,
}

/// The action for a shown toast, from where it is in its life: once its
/// stay is over it gives way to a waiting text; once its slide-out is over
/// too it goes; until then it stays.
pub open spec fn spec_ui_toast_lifecycle_action(
    reached_slide_out: bool,
    reached_end_of_life: bool,
    has_queued_toast: bool,
) -> UIToastLifecycleAction {
    if reached_slide_out && has_queued_toast {
        UIToastLifecycleAction::ReplaceCurrent
    } else if reached_end_of_life {
        UIToastLifecycleAction::DespawnCurrent
    } else {
        UIToastLifecycleAction::KeepCurrent
    }
}

/// Decides what a shown toast does, given whether its age has reached the
/// start of its slide-out (slide-in time plus stay time), whether it has
/// reached the end of its life (that plus slide-out time), and whether a
/// text is waiting.
pub fn ui_toast_lifecycle_action(
    reached_slide_out: bool,
    reached_end_of_life: bool,
    has_queued_toast: bool,
) -> (action: UIToastLifecycleAction)
    ensures
        action == spec_ui_toast_lifecycle_action(
            reached_slide_out,
            reached_end_of_life,
            has_queued_toast,
        ),
{
    if reached_slide_out && has_queued_toast {
        return UIToastLifecycleAction::ReplaceCurrent;
    }
    if reached_end_of_life {
        return UIToastLifecycleAction::DespawnCurrent;
    }
    UIToastLifecycleAction::KeepCurrent
}

/// The texts waiting to be shown, oldest first.
pub struct UIToastQueue {
    pub pending_texts: VecDeque<String>,
}

impl UIToastQueue {
    /// An empty queue.
    pub fn new() -> (queue: UIToastQueue)
        ensures
            queue.pending_texts@ == Seq::<String>::empty(),
    {
        UIToastQueue { pending_texts: VecDeque::new() }
    }

    /// Whether a text waits.
    pub fn has_pending(&self) -> (pending: bool)
        ensures
            pending == (self.pending_texts@.len() > 0),
    {
        self.pending_texts.len() > 0
    }

    /// Queues a text sent to the toast display; it waits behind the others.
    pub fn push_text(&mut self, text: String)
        ensures
            final(self).pending_texts@ == old(self).pending_texts@.push(text),
    {
        self.pending_texts.push_back(text);
    }

    /// Decides the frame for one toast slot: with no toast shown (`None`),
    /// the oldest waiting text, if any, becomes a new toast; a shown toast
    /// follows its lifecycle action, taking the oldest waiting text when it
    /// gives way (and staying as it is if none waits any more).
    pub fn ui_toast_step(&mut self, shown: Option<UIToastLifecycleAction>) -> (command: UIToastCommand)
        ensures
            match shown {
                None => match command {
                    UIToastCommand::Spawn(text) => old(self).pending_texts@.len() > 0 && text
                        == old(self).pending_texts@[0] && final(self).pending_texts@
                        == old(self).pending_texts@.drop_first(),
                    UIToastCommand::Idle => old(self).pending_texts@.len() == 0
                        && final(self).pending_texts@ == old(self).pending_texts@,
                    _ => false,
                },
                Some(UIToastLifecycleAction::KeepCurrent) => command == UIToastCommand::Keep
                    && final(self).pending_texts@ == old(self).pending_texts@,
                Some(UIToastLifecycleAction::DespawnCurrent) => command == UIToastCommand::Despawn
                    && final(self).pending_texts@ == old(self).pending_texts@,
                Some(UIToastLifecycleAction::ReplaceCurrent) => match command {
                    UIToastCommand::ReplaceText(text) => old(self).pending_texts@.len() > 0
                        && text == old(self).pending_texts@[0] && final(self).pending_texts@
                        == old(self).pending_texts@.drop_first(),
                    UIToastCommand::Keep => old(self).pending_texts@.len() == 0
                        && final(self).pending_texts@ == old(self).pending_texts@,
                    _ => false,
                },
            },
    {
        match shown {
            None => match self.pending_texts.pop_front() {
                Some(text) => {
                    assert(old(self).pending_texts@.drop_first() =~= self.pending_texts@);
                    UIToastCommand::Spawn(text)
                },
                None => UIToastCommand::Idle,
            },
            Some(UIToastLifecycleAction::KeepCurrent) => UIToastCommand::Keep,
            Some(UIToastLifecycleAction::DespawnCurrent) => UIToastCommand::Despawn,
            Some(UIToastLifecycleAction::ReplaceCurrent) => match self.pending_texts.pop_front() {
                Some(text) => {
                    assert(old(self).pending_texts@.drop_first() =~= self.pending_texts@);
                    UIToastCommand::ReplaceText(text)
                },
                None => UIToastCommand::Keep,
            },
        }
    }
}

/// A toast gives way only to a waiting text, and never before its stay is
/// over; with nothing waiting it goes exactly at the end of its life.
pub proof fn lemma_toast_lifecycle_laws(
    reached_slide_out: bool,
    reached_end_of_life: bool,
    has_queued_toast: bool,
)
    ensures
        spec_ui_toast_lifecycle_action(reached_slide_out, reached_end_of_life, has_queued_toast)
            == UIToastLifecycleAction::ReplaceCurrent <==> (reached_slide_out && has_queued_toast),
        !has_queued_toast ==> (spec_ui_toast_lifecycle_action(
            reached_slide_out,
            reached_end_of_life,
            has_queued_toast,
        ) == UIToastLifecycleAction::DespawnCurrent <==> reached_end_of_life),
{
}

} // verus!
