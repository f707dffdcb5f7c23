use vstd::prelude::*;

use std::collections::VecDeque;

verus! {

/// The most messages the queue retains at once.
pub const NUM_MAX_MESSAGES: u64 = 5;

/// The max age, in milliseconds, of any retained message.
pub const MAX_MESSAGE_AGE_MILLIS: u64 = 10000;

/// How a message is meant to be shown.
#[derive(Clone, Copy, PartialEq, Eq, Structural, Debug)]
pub enum MessageStyle {
    Info,
    Warning,
    Error,
}

/// One queued message: when it was posted, its text, and its style.
pub struct Message {
    pub posted_at: u64,
    pub text: String,
    pub style: MessageStyle,
}

/// `q` after one message is appended: the oldest message falls out when
/// the queue would otherwise reach its cap.
pub open spec fn spec_pushed(q: Seq<Message>, m: Message) -> Seq<Message> {
    let p = q.push(m);
    if p.len() >= NUM_MAX_MESSAGES {
        p.drop_first()
    } else {
        p
    }
}

/// `q` with every leading message older than `max_age` removed.
pub open spec fn spec_prune(q: Seq<Message>, now: int, max_age: int) -> Seq<Message>
    decreases q.len(),
{
    if q.len() > 0 && q[0].posted_at + max_age < now {
        spec_prune(q.drop_first(), now, max_age)
    } else {
        q
    }
}

/// The bounded, time-ordered queue of user-facing status, warning and
/// error texts.
pub struct UserMessage {
    messages: VecDeque<Message>,
}

impl UserMessage {
    /// The retained messages, oldest first.
    pub closed spec fn spec_messages(&self) -> Seq<Message> {
        self.messages@
    }

    /// The queue stays below its cap.
    pub open spec fn wf(&self) -> bool {
        self.spec_messages().len() < NUM_MAX_MESSAGES
    }

    /// An empty message queue.
    pub fn new() -> (r: UserMessage)
        ensures
            r.spec_messages() == Seq::<Message>::empty(),
    {
        UserMessage { messages: VecDeque::new() }
    }

    fn report_with_style(&mut self, now: u64, message: &str, style: MessageStyle)
        requires
            old(self).wf(),
        ensures
            final(self).wf(),
            exists|m: Message|
                m.posted_at == now && m.text@ == message@ && m.style == style
                    && final(self).spec_messages() == #[trigger] spec_pushed(old(self).spec_messages(), m),
    {
        let m = Message { posted_at: now, text: message.to_owned(), style };
        let ghost mg = m;
        self.messages.push_back(m);
        let ghost pushed = self.messages@;
        if self.messages.len() >= 5 {
            self.messages.pop_front();
            proof {
                assert(self.messages@ =~= pushed.drop_first());
            }
        }
        proof {
            assert(self.messages@ == spec_pushed(old(self).spec_messages(), mg));
        }
    }

    /// Post a plain status message at time `now`.
    pub fn report(&mut self, now: u64, message: &str)
        requires
            old(self).wf(),
        ensures
            final(self).wf(),
            exists|m: Message|
                m.posted_at == now && m.text@ == message@ && m.style == MessageStyle::Info
                    && final(self).spec_messages() == #[trigger] spec_pushed(old(self).spec_messages(), m),
    {
        self.report_with_style(now, message, MessageStyle::Info)
    }

    /// Post a warning at time `now`.
    pub fn warn(&mut self, now: u64, message: &str)
        requires
            old(self).wf(),
        ensures
            final(self).wf(),
            exists|m: Message|
                m.posted_at == now && m.text@ == message@ && m.style == MessageStyle::Warning
                    && final(self).spec_messages() == #[trigger] spec_pushed(
                    old(self).spec_messages(),
                    m,
                ),
    {
        self.report_with_style(now, message, MessageStyle::Warning)
    }

    /// Post an error at time `now`.
    pub fn error(&mut self, now: u64, message: &str)
        requires
            old(self).wf(),
        ensures
            final(self).wf(),
            exists|m: Message|
                m.posted_at == now && m.text@ == message@ && m.style == MessageStyle::Error
                    && final(self).spec_messages() == #[trigger] spec_pushed(old(self).spec_messages(), m),
    {
        self.report_with_style(now, message, MessageStyle::Error)
    }

    /// Drop every message older than the retention window, given the
    /// time `now`.
    pub fn prune(&mut self, now: u64)
        ensures
            final(self).spec_messages().len() <= old(self).spec_messages().len(),
            final(self).spec_messages() == spec_prune(
                old(self).spec_messages(),
                now as int,
                MAX_MESSAGE_AGE_MILLIS as int,
            ),
    {
        while self.messages.len() > 0 && now >= MAX_MESSAGE_AGE_MILLIS
            && self.messages[0].posted_at < now - MAX_MESSAGE_AGE_MILLIS
            invariant
                self.messages@.len() <= old(self).spec_messages().len(),
                spec_prune(old(self).spec_messages(), now as int, MAX_MESSAGE_AGE_MILLIS as int)
                    == spec_prune(self.messages@, now as int, MAX_MESSAGE_AGE_MILLIS as int),
            decreases self.messages@.len(),
        {
            let ghost before = self.messages@;
            self.messages.pop_front();
            proof {
                assert(self.messages@ =~= before.drop_first());
            }
        }
    }

    /// How many messages are retained.
    pub fn num_messages(&self) -> (r: usize)
        ensures
            r == self.spec_messages().len(),
    {
        self.messages.len()
    }

    /// The message at position `i`, oldest first.
    pub fn message_at(&self, i: usize) -> (r: &Message)
        requires
            i < self.spec_messages().len(),
        ensures
            *r == self.spec_messages()[i as int],
    {
        &self.messages[i]
    }
}

} // verus!
