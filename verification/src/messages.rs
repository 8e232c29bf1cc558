//! The worker-to-consumer messages and their emission per input line: a
//! data line yields its batch of samples followed by the raw line as a
//! `Point`-kind echo, any other line is forwarded as a `Log`-kind line,
//! and a `Notice` carries operator-facing status text.

use crate::parse::{
    is_data_line, parse_line, samples_from, tokens_of, ParsedLine, Sample, SampleV,
};
use vstd::prelude::*;

verus! {

/// What kind of display line a forwarded text is: the echo of a matched
/// data line, or ordinary log output.
#[derive(Debug, Clone, Copy, PartialEq, Eq, Structural)]
pub enum MsgKind {
    Point,
    Log,
}

/// One message from the worker to the consumer.
#[derive(Debug)]
pub enum Message {
    LogOrEcho { text: Vec<u8>, kind: MsgKind },
    Batch { samples: Vec<Sample> },
    Notice { text: Vec<u8> },
}

/// The mathematical shadow of a `Message`.
pub ghost enum MessageV {
    LogOrEcho { text: Seq<u8>, kind: MsgKind },
    Batch { samples: Seq<SampleV> },
    Notice { text: Seq<u8> },
}

impl View for Message {
    type V = MessageV;

    open spec fn view(&self) -> MessageV {
        match self {
            Message::LogOrEcho { text, kind } => MessageV::LogOrEcho {
                text: text@,
                kind: *kind,
            },
            Message::Batch { samples } => MessageV::Batch {
                samples: samples@.map_values(|s: Sample| s@),
            },
            Message::Notice { text } => MessageV::Notice { text: text@ },
        }
    }
}

/// The messages one line gives rise to, in emission order.  An empty line
/// yields nothing; a data line yields its batch and then its own text as a
/// `Point`-kind echo; any other line yields itself as a `Log`-kind line.
pub open spec fn line_messages(line: Seq<u8>) -> Seq<MessageV> {
    if line.len() == 0 {
        Seq::<MessageV>::empty()
    } else if is_data_line(line) {
        seq![
            MessageV::Batch { samples: samples_from(tokens_of(line), 0) },
            MessageV::LogOrEcho { text: line, kind: MsgKind::Point },
        ]
    } else {
        seq![MessageV::LogOrEcho { text: line, kind: MsgKind::Log }]
    }
}

/// The messages for one line, in emission order.
pub fn process_line(line: &Vec<u8>) -> (r: Vec<Message>)
    ensures
        r@.map_values(|m: Message| m@) == line_messages(line@),
{
    let mut out: Vec<Message> = Vec::new();
    if line.len() == 0 {
        proof {
            assert(out@.map_values(|m: Message| m@) =~= line_messages(line@));
        }
        return out;
    }
    let text = crate::bytes::subrange_vec(line, 0, line.len());
    proof {
        assert(text@ =~= line@);
    }
    match parse_line(line) {
        ParsedLine::Log => {
            out.push(Message::LogOrEcho { text, kind: MsgKind::Log });
            proof {
                assert(out@.map_values(|m: Message| m@) =~= line_messages(line@));
            }
        },
        ParsedLine::Data { samples, errors: _ } => {
            out.push(Message::Batch { samples });
            out.push(Message::LogOrEcho { text, kind: MsgKind::Point });
            proof {
                assert(out@.map_values(|m: Message| m@) =~= line_messages(line@));
            }
        },
    }
    out
}

/// The consumer shows a forwarded line exactly when it is ordinary log
/// output, or when the full log (data-line echoes included) is switched
/// on.
pub fn should_display(kind: MsgKind, full_log: bool) -> (r: bool)
    ensures
        r == (full_log || kind == MsgKind::Log),
{
    full_log || kind == MsgKind::Log
}

/// The trailing carriage return a line-feed split may leave behind.
pub open spec fn strip_cr(s: Seq<u8>) -> Seq<u8> {
    if s.len() > 0 && s.last() == 13 {
        s.drop_last()
    } else {
        s
    }
}

/// The messages of every line in the fragments from `i` on.
pub open spec fn buffer_messages_from(frags: Seq<Seq<u8>>, i: int) -> Seq<MessageV>
    decreases frags.len() - i,
{
    if 0 <= i < frags.len() {
        line_messages(strip_cr(frags[i])) + buffer_messages_from(frags, i + 1)
    } else {
        Seq::<MessageV>::empty()
    }
}

/// The messages of a freshly read buffer: the buffer is cut at line feeds,
/// a carriage return left at a fragment's end is dropped, and each
/// fragment contributes its line's messages in order (empty fragments
/// contribute nothing).
pub open spec fn buffer_messages(buf: Seq<u8>) -> Seq<MessageV> {
    buffer_messages_from(crate::bytes::split_spec(buf, 10), 0)
}

/// The messages for everything in a freshly read buffer, which may hold
/// several newline-terminated lines at once, in emission order.
pub fn process_buffer(buf: &Vec<u8>) -> (r: Vec<Message>)
    ensures
        r@.map_values(|m: Message| m@) == buffer_messages(buf@),
{
    let frags = crate::bytes::split_bytes(buf, 10);
    let ghost fragsv = crate::bytes::split_spec(buf@, 10);
    let mut out: Vec<Message> = Vec::new();
    let mut i: usize = 0;
    proof {
        assert(out@.map_values(|m: Message| m@) + buffer_messages_from(fragsv, 0)
            =~= buffer_messages_from(fragsv, 0));
    }
    while i < frags.len()
        invariant
            i <= frags.len(),
            frags@.map_values(|t: Vec<u8>| t@) == fragsv,
            buffer_messages(buf@) == buffer_messages_from(fragsv, 0),
            buffer_messages_from(fragsv, 0) == out@.map_values(|m: Message| m@)
                + buffer_messages_from(fragsv, i as int),
        decreases frags.len() - i,
    {
        let ghost outv0 = out@.map_values(|m: Message| m@);
        let frag = &frags[i];
        proof {
            assert(fragsv[i as int] == frag@);
        }
        let line = if frag.len() > 0 && frag[frag.len() - 1] == 13 {
            crate::bytes::subrange_vec(frag, 0, frag.len() - 1)
        } else {
            crate::bytes::subrange_vec(frag, 0, frag.len())
        };
        proof {
            assert(line@ =~= strip_cr(fragsv[i as int]));
        }
        let mut msgs = process_line(&line);
        let ghost msgsv = msgs@.map_values(|m: Message| m@);
        out.append(&mut msgs);
        proof {
            assert(out@.map_values(|m: Message| m@) =~~= outv0 + msgsv);
            assert(buffer_messages_from(fragsv, i as int) == line_messages(strip_cr(
                fragsv[i as int],
            )) + buffer_messages_from(fragsv, i + 1));
            assert(buffer_messages_from(fragsv, 0) =~~= out@.map_values(|m: Message| m@)
                + buffer_messages_from(fragsv, i + 1));
        }
        i = i + 1;
    }
    proof {
        assert(out@.map_values(|m: Message| m@) =~~= buffer_messages(buf@));
    }
    out
}

} // verus!
