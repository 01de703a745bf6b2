//! Serialization of a conversation into the wire request body.
//!
//! The body is the JSON document
//! `{"model": ..., "messages": [...], "max_tokens": ..., "temperature": ...,
//! "stream": true}`, with the messages in conversation order, each as
//! `{"role": ..., "content": ...}`. Temperature is carried in tenths, so the
//! serialized value has one decimal digit.

use vstd::prelude::*;

use crate::data::ChatConversation;
use crate::data::MessageView;
use crate::data::role_name;
use crate::text::chars_to_string;
use crate::text::dec_digits;
use crate::text::digit_char;
use crate::text::push_str_chars;
use crate::text::push_u64;

verus! {

/// The character of one hexadecimal digit, lower case.
pub open spec fn hex_char(d: nat) -> char {
    if d < 10 {
        digit_char(d)
    } else if d == 10 {
        'a'
    } else if d == 11 {
        'b'
    } else if d == 12 {
        'c'
    } else if d == 13 {
        'd'
    } else if d == 14 {
        'e'
    } else {
        'f'
    }
}

/// How one character appears inside a JSON string literal: quotes and
/// backslashes are escaped, control characters are escaped by name or as a
/// `\u00..` sequence, and every other character stands as itself.
pub open spec fn escaped_char(c: char) -> Seq<char> {
    if c == '"' {
        seq!['\\', '"']
    } else if c == '\\' {
        seq!['\\', '\\']
    } else if c == '\n' {
        seq!['\\', 'n']
    } else if c == '\r' {
        seq!['\\', 'r']
    } else if c == '\t' {
        seq!['\\', 't']
    } else if (c as u32) < 32 {
        seq!['\\', 'u', '0', '0', hex_char((c as u32 / 16) as nat), hex_char((c as u32 % 16) as nat)]
    } else {
        seq![c]
    }
}

/// A text as it appears inside a JSON string literal.
pub open spec fn escaped(s: Seq<char>) -> Seq<char>
    decreases s.len(),
{
    if s.len() == 0 {
        Seq::empty()
    } else {
        escaped(s.drop_last()) + escaped_char(s.last())
    }
}

/// One message as a JSON object with its role tag and its content.
pub open spec fn message_json(m: MessageView) -> Seq<char> {
    "{\"role\":\""@ + role_name(m.role) + "\",\"content\":\""@ + escaped(m.content) + "\"}"@
}

/// The elements of the `messages` array: the messages in conversation
/// order, comma-separated.
pub open spec fn messages_json(msgs: Seq<MessageView>) -> Seq<char>
    decreases msgs.len(),
{
    if msgs.len() == 0 {
        Seq::empty()
    } else if msgs.len() == 1 {
        message_json(msgs[0])
    } else {
        messages_json(msgs.drop_last()) + ","@ + message_json(msgs.last())
    }
}

/// The whole request body for the given conversation and generation
/// parameters, with streaming switched on.
pub open spec fn request_body_text(
    msgs: Seq<MessageView>,
    model: Seq<char>,
    max_tokens: u32,
    temperature_tenths: u32,
) -> Seq<char> {
    "{\"model\":\""@ + escaped(model) + "\",\"messages\":["@ + messages_json(msgs)
        + "],\"max_tokens\":"@ + dec_digits(max_tokens as nat) + ",\"temperature\":"@
        + dec_digits((temperature_tenths / 10) as nat) + "."@ + dec_digits(
        (temperature_tenths % 10) as nat,
    ) + ",\"stream\":true}"@
}

/// The exec counterpart of [`hex_char`].
fn hex_char_of(d: u32) -> (c: char)
    requires
        d < 16,
    ensures
        c == hex_char(d as nat),
{
    if d < 10 {
        crate::text::digit_char_of(d as u64)
    } else if d == 10 {
        'a'
    } else if d == 11 {
        'b'
    } else if d == 12 {
        'c'
    } else if d == 13 {
        'd'
    } else if d == 14 {
        'e'
    } else {
        'f'
    }
}

/// Appends `s` to `out` as it appears inside a JSON string literal.
fn push_escaped(out: &mut Vec<char>, s: &str)
    ensures
        final(out)@ == old(out)@ + escaped(s@),
{
    let n = vstd::string::StrSliceExecFns::unicode_len(s);
    let mut i: usize = 0;
    proof {
        assert(escaped(s@.take(0)) =~= Seq::<char>::empty());
        assert(old(out)@ + escaped(s@.take(0)) =~= old(out)@);
    }
    while i < n
        invariant
            n == s@.len(),
            i <= n,
            out@ == old(out)@ + escaped(s@.take(i as int)),
        decreases n - i,
    {
        let ghost prev: Seq<char> = out@;
        let c = vstd::string::StrSliceExecFns::get_char(s, i);
        if c == '"' {
            out.push('\\');
            out.push('"');
        } else if c == '\\' {
            out.push('\\');
            out.push('\\');
        } else if c == '\n' {
            out.push('\\');
            out.push('n');
        } else if c == '\r' {
            out.push('\\');
            out.push('r');
        } else if c == '\t' {
            out.push('\\');
            out.push('t');
        } else if (c as u32) < 32 {
            out.push('\\');
            out.push('u');
            out.push('0');
            out.push('0');
            let h = hex_char_of(c as u32 / 16);
            out.push(h);
            let l = hex_char_of(c as u32 % 16);
            out.push(l);
        } else {
            out.push(c);
        }
        proof {
            assert(out@ =~= prev + escaped_char(c));
            assert(s@.take(i + 1).drop_last() =~= s@.take(i as int));
            assert(s@.take(i + 1).last() == c);
            assert(out@ =~= old(out)@ + escaped(s@.take(i + 1)));
        }
        i = i + 1;
    }
    proof {
        assert(s@.take(n as int) =~= s@);
    }
}

/// Serializes the conversation and the generation parameters into the
/// request body. A missing parameter takes its default: 1000 tokens, a
/// temperature of seven tenths.
pub fn build_request_body(
    conversation: &ChatConversation,
    model: &str,
    max_tokens: Option<u32>,
    temperature_tenths: Option<u32>,
) -> (body: String)
    ensures
        body@ == request_body_text(
            conversation@,
            model@,
            match max_tokens {
                Some(m) => m,
                None => 1000u32,
            },
            match temperature_tenths {
                Some(t) => t,
                None => 7u32,
            },
        ),
{
    let tokens: u32 = match max_tokens {
        Some(m) => m,
        None => 1000,
    };
    let tenths: u32 = match temperature_tenths {
        Some(t) => t,
        None => 7,
    };
    let mut out: Vec<char> = Vec::new();
    push_str_chars(&mut out, "{\"model\":\"");
    push_escaped(&mut out, model);
    push_str_chars(&mut out, "\",\"messages\":[");
    let n = conversation.len();
    let mut i: usize = 0;
    let ghost head: Seq<char> = out@;
    proof {
        assert(messages_json(conversation@.take(0)) =~= Seq::<char>::empty());
        assert(head + messages_json(conversation@.take(0)) =~= head);
    }
    while i < n
        invariant
            n == conversation@.len(),
            i <= n,
            out@ == head + messages_json(conversation@.take(i as int)),
        decreases n - i,
    {
        let ghost prev: Seq<char> = out@;
        if i > 0 {
            push_str_chars(&mut out, ",");
        }
        let m = conversation.get(i);
        push_str_chars(&mut out, "{\"role\":\"");
        push_str_chars(&mut out, m.role().as_str());
        push_str_chars(&mut out, "\",\"content\":\"");
        push_escaped(&mut out, m.content());
        push_str_chars(&mut out, "\"}");
        proof {
            let msgs = conversation@.take(i + 1);
            assert(msgs.drop_last() =~= conversation@.take(i as int));
            assert(msgs.last() == conversation@[i as int]);
            if i == 0 {
                assert(out@ =~= prev + message_json(conversation@[0]));
                assert(out@ =~= head + messages_json(msgs));
            } else {
                assert(out@ =~= prev + ","@ + message_json(conversation@[i as int]));
                assert(out@ =~= head + messages_json(msgs));
            }
        }
        i = i + 1;
    }
    proof {
        assert(conversation@.take(n as int) =~= conversation@);
    }
    push_str_chars(&mut out, "],\"max_tokens\":");
    push_u64(&mut out, tokens as u64);
    push_str_chars(&mut out, ",\"temperature\":");
    push_u64(&mut out, (tenths / 10) as u64);
    push_str_chars(&mut out, ".");
    push_u64(&mut out, (tenths % 10) as u64);
    push_str_chars(&mut out, ",\"stream\":true}");
    let body = chars_to_string(&out);
    proof {
        assert(out@ =~= request_body_text(
            conversation@,
            model@,
            tokens,
            tenths,
        ));
    }
    body
}

} // verus!
