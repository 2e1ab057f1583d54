use vstd::prelude::*;

use crate::errors::ApnsError;
use crate::token::convert_to_binary;
use crate::token::token_bytes;
use crate::token::valid_device_token;
use crate::wire::be_word;
use crate::wire::push_bytes;
use crate::wire::push_u16_be;
use crate::wire::push_u32_be;
use crate::wire::read_be_u32;
use crate::wire::u16_be;
use crate::wire::u32_be;

verus! {

/// One tagged, length-prefixed item of a frame: a tag byte, the 16-bit
/// big-endian byte length of the value, then the value.
pub open spec fn item_bytes(tag: u8, value: Seq<u8>) -> Seq<u8> {
    seq![tag] + u16_be(value.len() as u16) + value
}

/// The item section of a frame, in the fixed order the gateway demands:
/// device token, payload, notification identifier, expiration, priority.
pub open spec fn frame_items(token: Seq<u8>, payload: Seq<u8>, id: u32, expiration: u32) -> Seq<
    u8,
> {
    item_bytes(1, token) + item_bytes(2, payload) + item_bytes(3, u32_be(id)) + item_bytes(
        4,
        u32_be(expiration),
    ) + item_bytes(5, seq![10u8])
}

/// A complete wire frame: the command byte 2, the 32-bit big-endian length of
/// the item section, then the item section itself.
pub open spec fn frame_bytes(token: Seq<u8>, payload: Seq<u8>, id: u32, expiration: u32) -> Seq<
    u8,
> {
    seq![2u8] + u32_be(frame_items(token, payload, id, expiration).len() as u32) + frame_items(
        token,
        payload,
        id,
        expiration,
    )
}

/// Assembles the notification frame from the serialized payload, the binary
/// device token, a notification identifier and an expiration timestamp.
/// A token or payload that would overflow an item's 16-bit length field is
/// rejected with `FrameTooLarge` before any byte is produced.
pub fn build_frame(
    payload_json: &Vec<u8>,
    token_binary: &Vec<u8>,
    notification_id: u32,
    expiration: u32,
) -> (r: Result<Vec<u8>, ApnsError>)
    ensures
        match r {
            Ok(f) => token_binary@.len() <= 0xFFFF && payload_json@.len() <= 0xFFFF && f@
                == frame_bytes(token_binary@, payload_json@, notification_id, expiration),
            Err(e) => e == ApnsError::FrameTooLarge && (token_binary@.len() > 0xFFFF
                || payload_json@.len() > 0xFFFF),
        },
{
    if token_binary.len() > 0xFFFF || payload_json.len() > 0xFFFF {
        return Err(ApnsError::FrameTooLarge);
    }
    let mut items: Vec<u8> = Vec::new();
    items.push(1u8);
    push_u16_be(&mut items, token_binary.len() as u16);
    push_bytes(&mut items, token_binary);
    proof {
        assert(items@ =~= item_bytes(1, token_binary@));
    }
    items.push(2u8);
    push_u16_be(&mut items, payload_json.len() as u16);
    push_bytes(&mut items, payload_json);
    proof {
        assert(items@ =~= item_bytes(1, token_binary@) + item_bytes(2, payload_json@));
    }
    items.push(3u8);
    push_u16_be(&mut items, 4u16);
    push_u32_be(&mut items, notification_id);
    items.push(4u8);
    push_u16_be(&mut items, 4u16);
    push_u32_be(&mut items, expiration);
    items.push(5u8);
    push_u16_be(&mut items, 1u16);
    items.push(10u8);
    proof {
        assert(items@ =~= frame_items(
            token_binary@,
            payload_json@,
            notification_id,
            expiration,
        ));
    }
    let mut frame: Vec<u8> = Vec::new();
    frame.push(2u8);
    push_u32_be(&mut frame, items.len() as u32);
    push_bytes(&mut frame, &items);
    proof {
        assert(frame@ =~= frame_bytes(
            token_binary@,
            payload_json@,
            notification_id,
            expiration,
        ));
    }
    Ok(frame)
}

/// Relies on rand::random: draws a fresh 32-bit notification identifier from
/// the thread-local generator. Nothing is promised of its value.
#[verifier::external_body]
fn random_notification_id() -> u32 {
    rand::random::<u32>()
}

/// Relies on time::OffsetDateTime::now_utc and unix_timestamp: the current
/// unix time in seconds. Nothing is promised of its value.
#[verifier::external_body]
fn current_unix_time() -> i64 {
    time::OffsetDateTime::now_utc().unix_timestamp()
}

/// Builds the wire bytes for one notification: decodes the device token,
/// draws a fresh notification identifier, stamps an expiration of one day
/// from now, and assembles the frame. The identifier and expiration are the
/// only parts not fixed by the arguments.
pub fn get_notification_bytes(payload_json: &Vec<u8>, device_token: &str) -> (r: Result<
    Vec<u8>,
    ApnsError,
>)
    ensures
        match r {
            Ok(f) => valid_device_token(device_token@) && payload_json@.len() <= 0xFFFF
                && exists|id: u32, exp: u32|
                f@ == frame_bytes(token_bytes(device_token@), payload_json@, id, exp),
            Err(e) => (e == ApnsError::InvalidTokenFormat && !valid_device_token(device_token@))
                || (e == ApnsError::FrameTooLarge && valid_device_token(device_token@)
                && payload_json@.len() > 0xFFFF),
        },
{
    let token_binary = match convert_to_binary(device_token) {
        Ok(b) => b,
        Err(e) => {
            return Err(e);
        },
    };
    let id = random_notification_id();
    let now = current_unix_time();
    let expiration = (#[verifier::truncate] (now as u32)).wrapping_add(86400);
    let r = build_frame(payload_json, &token_binary, id, expiration);
    proof {
        if r is Ok {
            let f = r->Ok_0;
            assert(f@ == frame_bytes(token_bytes(device_token@), payload_json@, id, expiration));
        }
    }
    r
}

/// Decodes the optional 6-byte error response that a write may be answered
/// with: the command echo, the status code, and the big-endian notification
/// identifier it refers to.
pub fn parse_error_response(buf: &[u8]) -> (r: (u8, u8, u32))
    requires
        buf@.len() == 6,
    ensures
        r.0 == buf@[0],
        r.1 == buf@[1],
        r.2 as nat == be_word(buf@.subrange(2, 6)),
{
    (buf[0], buf[1], read_be_u32(buf, 2))
}

/// Everything of a frame before the notification-id value: it depends only on
/// the token and the payload.
pub open spec fn frame_prefix(token: Seq<u8>, payload: Seq<u8>) -> Seq<u8> {
    seq![2u8] + u32_be((24 + token.len() + payload.len()) as u32) + item_bytes(1, token)
        + item_bytes(2, payload) + seq![3u8] + u16_be(4)
}

/// The bytes of a frame between the notification-id value and the expiration
/// value: the expiration item's tag and length.
pub open spec fn frame_mid() -> Seq<u8> {
    seq![4u8] + u16_be(4)
}

/// The bytes of a frame after the expiration value: the priority item.
pub open spec fn frame_suffix() -> Seq<u8> {
    item_bytes(5, seq![10u8])
}

proof fn lemma_frame_split(token: Seq<u8>, payload: Seq<u8>, id: u32, expiration: u32)
    ensures
        frame_bytes(token, payload, id, expiration) == frame_prefix(token, payload) + u32_be(id)
            + frame_mid() + u32_be(expiration) + frame_suffix(),
        frame_bytes(token, payload, id, expiration).len() == 29 + token.len() + payload.len(),
{
    assert(frame_items(token, payload, id, expiration).len() == 24 + token.len() + payload.len());
    assert(frame_bytes(token, payload, id, expiration) =~= frame_prefix(token, payload) + u32_be(
        id,
    ) + frame_mid() + u32_be(expiration) + frame_suffix());
}

/// Two frames built from the same payload and token differ only in the
/// notification-id and expiration values: both split around those two 4-byte
/// fields with the same prefix, middle and suffix, and have the same length.
pub proof fn lemma_frames_differ_only_in_id_and_expiration(
    token: Seq<u8>,
    payload: Seq<u8>,
    id1: u32,
    exp1: u32,
    id2: u32,
    exp2: u32,
)
    ensures
        frame_bytes(token, payload, id1, exp1) == frame_prefix(token, payload) + u32_be(id1)
            + frame_mid() + u32_be(exp1) + frame_suffix(),
        frame_bytes(token, payload, id2, exp2) == frame_prefix(token, payload) + u32_be(id2)
            + frame_mid() + u32_be(exp2) + frame_suffix(),
        frame_bytes(token, payload, id1, exp1).len() == frame_bytes(token, payload, id2, exp2).len(),
{
    lemma_frame_split(token, payload, id1, exp1);
    lemma_frame_split(token, payload, id2, exp2);
}

} // verus!
