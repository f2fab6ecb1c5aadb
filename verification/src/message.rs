//! Framing of published messages.
use serde_json::Value;
use vstd::prelude::*;

verus! {

/// `serde_json::Value`.
#[verifier::external_type_specification]
#[verifier::external_body]
pub struct ExValue(Value);

/// The bytes that serde_json writes for a value, if it can.
pub uninterp spec fn json_bytes(v: Value) -> Option<Seq<u8>>;

/// `serde_json::to_vec` on a value. What it writes depends on the value
/// alone; which bytes they are, is left unsaid.
#[verifier::external_body]
fn to_bytes(v: &Value) -> (r: Option<Vec<u8>>)
    ensures
        match r {
            Some(b) => json_bytes(*v) == Some(b@),
            None => json_bytes(*v) is None,
        },
{
    serde_json::to_vec(v).ok()
}

/// A message: the topic, a space, the payload.
pub open spec fn framed(topic: Seq<char>, payload: Seq<u8>) -> Seq<u8> {
    vstd::utf8::encode_utf8(topic) + seq![0x20u8] + payload
}

/// A message: the topic, a space, the payload.
pub fn frame_message(topic: &str, payload: &Vec<u8>) -> (r: Vec<u8>)
    ensures
        r@ == framed(topic@, payload@),
{
    let mut msg: Vec<u8> = topic.as_bytes_vec();
    msg.push(0x20);
    let ghost head = msg@;
    let mut i: usize = 0;
    assert(head + payload@.take(0) =~= head);
    while i < payload.len()
        invariant
            i <= payload.len(),
            msg@ == head + payload@.take(i as int),
        decreases payload.len() - i,
    {
        msg.push(payload[i]);
        assert(head + payload@.take(i + 1) =~= (head + payload@.take(i as int)).push(
            payload@[i as int],
        ));
        i = i + 1;
    }
    assert(payload@.take(i as int) =~= payload@);
    assert(msg@ =~= framed(topic@, payload@));
    msg
}

/// The message that publishes `frame` under `topic`; the payload is empty
/// when the frame cannot be written.
pub fn send_pub(topic: &str, frame: &Value) -> (r: Vec<u8>)
    ensures
        r@ == framed(
            topic@,
            match json_bytes(*frame) {
                Some(b) => b,
                None => Seq::empty(),
            },
        ),
{
    let payload: Vec<u8> = match to_bytes(frame) {
        Some(b) => b,
        None => Vec::new(),
    };
    frame_message(topic, &payload)
}

/// Subscribers read a message back: a topic without a space ends at the first
/// space, and the payload is everything after it.
pub proof fn messages_split_at_the_first_space(topic: Seq<char>, payload: Seq<u8>)
    requires
        forall|i: int|
            0 <= i < vstd::utf8::encode_utf8(topic).len() ==> vstd::utf8::encode_utf8(topic)[i]
                != 0x20u8,
    ensures
        ({
            let m = framed(topic, payload);
            let n = vstd::utf8::encode_utf8(topic).len() as int;
            &&& m[n] == 0x20u8
            &&& forall|i: int| 0 <= i < n ==> #[trigger] m[i] != 0x20u8
            &&& m.subrange(0, n) == vstd::utf8::encode_utf8(topic)
            &&& m.subrange(n + 1, m.len() as int) == payload
        }),
{
    let m = framed(topic, payload);
    let t = vstd::utf8::encode_utf8(topic);
    assert(m.subrange(0, t.len() as int) =~= t);
    assert(m.subrange(t.len() as int + 1, m.len() as int) =~= payload);
}

} // verus!
