//! Outbound envelope encoding.  Each reply variant owns a fixed wire
//! discriminant, stamped from a compiled-in constant at encoding time and
//! never taken from request data; payload content is emitted verbatim under
//! JSON string escaping.

use vstd::prelude::*;
use crate::envelope::{key_type, s_env_members, s_env_tail, s_envelope, SpecFields};
use crate::json::{s_digits_end, s_digits_val, s_parse_string, s_skip_number, s_skip_ws,
    s_string_rest, s_tag_value};

verus! {

/// Wire discriminant of the pong reply.
pub const CALLBACK_PONG: u64 = 1;

/// Wire discriminant of the channel-message reply.
pub const CALLBACK_CHANNEL_MESSAGE_WITH_SOURCE: u64 = 4;

/// One outbound reply, the wire discriminant fixed by the variant.
#[derive(Debug, PartialEq, Eq)]
pub enum InteractionResponse {
    /// Reply to a ping (wire discriminant [`CALLBACK_PONG`]).
    Pong,
    /// A message shown in the channel (wire discriminant
    /// [`CALLBACK_CHANNEL_MESSAGE_WITH_SOURCE`]).
    ChannelMessageWithSource { content: Vec<u8> },
}

/// Lowercase hex digit of the nibble `v`.
pub open spec fn hex_lower(v: u8) -> u8
    recommends
        v < 16,
{
    if v < 10 {
        (48 + v) as u8
    } else {
        (97 + v - 10) as u8
    }
}

/// JSON string escaping of one content byte.
pub open spec fn s_escape_byte(b: u8) -> Seq<u8> {
    if b == 34 {
        seq![92u8, 34u8]
    } else if b == 92 {
        seq![92u8, 92u8]
    } else if b == 8 {
        seq![92u8, 98u8]
    } else if b == 12 {
        seq![92u8, 102u8]
    } else if b == 10 {
        seq![92u8, 110u8]
    } else if b == 13 {
        seq![92u8, 114u8]
    } else if b == 9 {
        seq![92u8, 116u8]
    } else if b < 32 {
        seq![92u8, 117u8, 48u8, 48u8, hex_lower(b / 16), hex_lower(b % 16)]
    } else {
        seq![b]
    }
}

/// JSON string escaping of a whole content.
pub open spec fn s_escape(content: Seq<u8>) -> Seq<u8>
    decreases content.len(),
{
    if content.len() == 0 {
        Seq::empty()
    } else {
        s_escape(content.drop_last()) + s_escape_byte(content.last())
    }
}

/// The wire bytes of the pong reply: `{"type":1}`.
pub open spec fn pong_wire() -> Seq<u8> {
    seq![123u8, 34u8, 116u8, 121u8, 112u8, 101u8, 34u8, 58u8, 49u8, 125u8]
}

/// The bytes before the content of a channel-message reply:
/// `{"type":4,"data":{"content":"`.
pub open spec fn cmws_prefix() -> Seq<u8> {
    seq![
        123u8, 34u8, 116u8, 121u8, 112u8, 101u8, 34u8, 58u8, 52u8, 44u8, 34u8, 100u8, 97u8, 116u8,
        97u8, 34u8, 58u8, 123u8, 34u8, 99u8, 111u8, 110u8, 116u8, 101u8, 110u8, 116u8, 34u8, 58u8,
        34u8,
    ]
}

/// The bytes after the content of a channel-message reply: `"}}`.
pub open spec fn cmws_suffix() -> Seq<u8> {
    seq![34u8, 125u8, 125u8]
}

/// The wire bytes of a channel-message reply carrying `content`.
pub open spec fn s_encode_cmws(content: Seq<u8>) -> Seq<u8> {
    cmws_prefix() + s_escape(content) + cmws_suffix()
}

/// The wire bytes of a reply.
pub open spec fn s_encode(r: InteractionResponse) -> Seq<u8> {
    match r {
        InteractionResponse::Pong => pong_wire(),
        InteractionResponse::ChannelMessageWithSource { content } => s_encode_cmws(content@),
    }
}

/// Append the JSON escaping of one content byte.
fn push_escaped(out: &mut Vec<u8>, b: u8)
    ensures
        final(out)@ == old(out)@ + s_escape_byte(b),
{
    if b == 34 {
        out.push(92);
        out.push(34);
    } else if b == 92 {
        out.push(92);
        out.push(92);
    } else if b == 8 {
        out.push(92);
        out.push(98);
    } else if b == 12 {
        out.push(92);
        out.push(102);
    } else if b == 10 {
        out.push(92);
        out.push(110);
    } else if b == 13 {
        out.push(92);
        out.push(114);
    } else if b == 9 {
        out.push(92);
        out.push(116);
    } else if b < 32 {
        out.push(92);
        out.push(117);
        out.push(48);
        out.push(48);
        let hi = b / 16;
        let lo = b % 16;
        out.push(if hi < 10 { 48 + hi } else { 97 + hi - 10 });
        out.push(if lo < 10 { 48 + lo } else { 97 + lo - 10 });
    } else {
        out.push(b);
    }
    proof {
        assert(out@ =~= old(out)@ + s_escape_byte(b));
    }
}

/// Encode a reply to its exact wire bytes.  Always succeeds; the emitted
/// `type` discriminant is the constant owned by the variant.
pub fn encode(r: &InteractionResponse) -> (out: Vec<u8>)
    ensures
        out@ == s_encode(*r),
{
    let mut out: Vec<u8> = Vec::new();
    match r {
        InteractionResponse::Pong => {
            out.push(123);
            out.push(34);
            out.push(116);
            out.push(121);
            out.push(112);
            out.push(101);
            out.push(34);
            out.push(58);
            out.push(49);
            out.push(125);
            proof {
                assert(out@ =~= pong_wire());
            }
        },
        InteractionResponse::ChannelMessageWithSource { content } => {
            out.push(123);
            out.push(34);
            out.push(116);
            out.push(121);
            out.push(112);
            out.push(101);
            out.push(34);
            out.push(58);
            out.push(52);
            out.push(44);
            out.push(34);
            out.push(100);
            out.push(97);
            out.push(116);
            out.push(97);
            out.push(34);
            out.push(58);
            out.push(123);
            out.push(34);
            out.push(99);
            out.push(111);
            out.push(110);
            out.push(116);
            out.push(101);
            out.push(110);
            out.push(116);
            out.push(34);
            out.push(58);
            out.push(34);
            proof {
                assert(out@ =~= cmws_prefix());
            }
            let mut k: usize = 0;
            while k < content.len()
                invariant
                    k <= content@.len(),
                    out@ == cmws_prefix() + s_escape(content@.take(k as int)),
                decreases content@.len() - k,
            {
                push_escaped(&mut out, content[k]);
                proof {
                    assert(content@.take(k + 1 as int).drop_last() =~= content@.take(k as int));
                    assert(content@.take(k + 1 as int).last() == content@[k as int]);
                }
                k = k + 1;
            }
            proof {
                assert(content@.take(content@.len() as int) =~= content@);
            }
            out.push(34);
            out.push(125);
            out.push(125);
            proof {
                assert(out@ =~= s_encode_cmws(content@));
            }
        },
    }
    out
}

/// Mirror of discriminant checking on the way out: read back under the
/// envelope grammar, the pong wire carries exactly the pong discriminant and
/// no payload.
pub proof fn lemma_pong_wire_tag()
    ensures
        s_envelope(pong_wire()) == Some(SpecFields { tag: Some(CALLBACK_PONG), name: None }),
{
    reveal_with_fuel(s_string_rest, 7);
    reveal_with_fuel(s_digits_end, 3);
    reveal_with_fuel(s_digits_val, 3);
    let s = pong_wire();
    assert(s.len() == 10);
    assert(s_skip_ws(s, 0) == 0);
    assert(Seq::empty().push(116u8).push(121u8).push(112u8).push(101u8) =~= key_type());
    assert(s_parse_string(s, 1) == Some((key_type(), 7int)));
    assert(s_skip_ws(s, 7) == 7);
    assert(s_skip_ws(s, 8) == 8);
    assert(s_digits_end(s, 8) == 9);
    assert(s_skip_number(s, 8) == Some(9int));
    assert(s_digits_val(s, 8, 9) == 1);
    assert(s_tag_value(s, 8) == Some((Some(1u64), 9int)));
    assert(s_skip_ws(s, 9) == 9);
    assert(s_env_tail(s, 9, true, Some(1u64), false, None) == Some(
        (SpecFields { tag: Some(1u64), name: None }, 10int),
    ));
    assert(s_env_members(s, 1, false, None, false, None) == Some(
        (SpecFields { tag: Some(1u64), name: None }, 10int),
    ));
    assert(s_skip_ws(s, 1) == 1);
    assert(s_skip_ws(s, 10) == 10);
    assert(s_envelope(s) == Some(SpecFields { tag: Some(CALLBACK_PONG), name: None }));
}

/// Mirror of discriminant checking on the way out: whatever the content, a
/// channel-message reply opens with the fixed prefix whose `type` value is
/// the channel-message discriminant, the byte `4`.
pub proof fn lemma_cmws_wire_tag(content: Seq<u8>)
    ensures
        s_encode_cmws(content).len() >= 32,
        s_encode_cmws(content).subrange(0, 29) == cmws_prefix(),
        s_encode_cmws(content)[8] == 52,
{
    let out = s_encode_cmws(content);
    assert(out.subrange(0, 29) =~= cmws_prefix());
    assert(out[8] == cmws_prefix()[8]);
}

} // verus!
