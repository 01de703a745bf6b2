//! One request/response turn against the completion endpoint.
//!
//! A turn appends the user's message to the conversation at once, then
//! consumes the response byte stream chunk by chunk, forwarding each text
//! delta to the caller as it arrives while accumulating the full reply.
//! When the stream is exhausted — or cut short by a mid-stream failure —
//! the accumulated reply is committed as one assistant message, unless it
//! is empty, in which case the conversation is left as it was after the
//! user's message. A turn whose transport call fails before any bytes thus
//! leaves exactly one new user message and no assistant message.

use vstd::prelude::*;
use vstd::string::StringExecFns;

use crate::data::ChatConversation;
use crate::data::ChatMessage;
use crate::data::MessageRole;
use crate::data::MessageView;
use crate::sse::SseDecoder;
use crate::sse::line_rest;
use crate::sse::stream_deltas;
use crate::sse::strings_view;

verus! {

/// The concatenation of a sequence of text fragments, in order.
pub open spec fn concat_texts(ds: Seq<Seq<char>>) -> Seq<char>
    decreases ds.len(),
{
    if ds.len() == 0 {
        Seq::empty()
    } else {
        concat_texts(ds.drop_last()) + ds.last()
    }
}

/// The mathematical state of a [`Turn`]: the unterminated fragment of the
/// response stream and the reply text accumulated so far.
pub struct TurnView {
    pub pending: Seq<u8>,
    pub accumulated: Seq<char>,
}

/// The state of one in-flight turn: a stream decoder and the accumulated
/// assistant reply.
pub struct Turn {
    decoder: SseDecoder,
    accumulator: String,
}

impl View for Turn {
    type V = TurnView;

    closed spec fn view(&self) -> TurnView {
        TurnView { pending: self.decoder@, accumulated: self.accumulator@ }
    }
}

impl Turn {
    /// The decoder's buffer stays free of newlines.
    pub closed spec fn wf(&self) -> bool {
        self.decoder.wf()
    }

    /// Starts a turn: the user's message is appended to the conversation
    /// immediately, whatever becomes of the transport call afterwards.
    pub fn begin(conversation: &mut ChatConversation, user_text: String) -> (t: Turn)
        ensures
            final(conversation)@ == old(conversation)@.push(
                MessageView { role: MessageRole::User, content: user_text@ },
            ),
            t@.pending == Seq::<u8>::empty(),
            t@.accumulated == Seq::<char>::empty(),
            t.wf(),
    {
        conversation.add_message(ChatMessage::from_user(user_text));
        Turn { decoder: SseDecoder::new(), accumulator: String::new() }
    }

    /// Consumes one chunk of the response stream: returns the deltas it
    /// completed, in arrival order, for immediate display, and appends them
    /// to the accumulated reply. Decoding never fails.
    pub fn on_chunk(&mut self, chunk: &[u8]) -> (deltas: Vec<String>)
        requires
            old(self).wf(),
        ensures
            final(self).wf(),
            strings_view(deltas@) == stream_deltas(old(self)@.pending + chunk@),
            final(self)@.pending == line_rest(old(self)@.pending + chunk@),
            final(self)@.accumulated == old(self)@.accumulated + concat_texts(
                stream_deltas(old(self)@.pending + chunk@),
            ),
    {
        let ghost orig_acc: Seq<char> = self.accumulator@;
        let ds = self.decoder.push_chunk(chunk);
        let ghost texts: Seq<Seq<char>> = strings_view(ds@);
        let mut j: usize = 0;
        proof {
            assert(texts.take(0) =~= Seq::<Seq<char>>::empty());
        }
        while j < ds.len()
            invariant
                j <= ds@.len(),
                strings_view(ds@) == texts,
                self@.accumulated == orig_acc + concat_texts(texts.take(j as int)),
                self@.pending == line_rest(old(self)@.pending + chunk@),
                self.wf(),
            decreases ds@.len() - j,
        {
            proof {
                assert(texts.take(j + 1).drop_last() =~= texts.take(j as int));
                assert(texts.take(j + 1).last() == ds@[j as int]@);
            }
            self.accumulator.append(ds[j].as_str());
            j = j + 1;
        }
        proof {
            assert(texts.take(texts.len() as int) =~= texts);
        }
        ds
    }

    /// The reply accumulated so far, for display or inspection.
    pub fn accumulated(&self) -> (r: &str)
        ensures
            r@ == self@.accumulated,
    {
        self.accumulator.as_str()
    }

    /// Ends the turn: a nonempty accumulated reply is committed to the
    /// conversation as one assistant message; an empty one commits nothing.
    pub fn finish(self, conversation: &mut ChatConversation)
        ensures
            self@.accumulated.len() == 0 ==> final(conversation)@ == old(conversation)@,
            self@.accumulated.len() > 0 ==> final(conversation)@ == old(conversation)@.push(
                MessageView { role: MessageRole::Assistant, content: self@.accumulated },
            ),
    {
        if !self.accumulator.as_str().is_empty() {
            conversation.add_message(ChatMessage::from_assistant(self.accumulator));
        }
    }
}

} // verus!
