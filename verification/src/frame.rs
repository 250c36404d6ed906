//! Messages exchanged between clients and the server, and their framing on
//! the wire: each message is its JSON text preceded by its length as four
//! big-endian bytes.
use vstd::prelude::*;
use crate::regs::{join_with_bar, subscribe_key, ConfigurationReg, LuoshuDataEnum};

verus! {

/// A subscription to one configuration value.
pub struct Subscribe {
    /// Namespace of the configuration.
    pub namespace: String,
    /// Name of the configuration.
    pub name: String,
}

impl Subscribe {
    /// Creates a subscription.
    pub fn new(namespace: String, name: String) -> (r: Self)
        ensures
            r == (Subscribe { namespace, name }),
    {
        Self { namespace, name }
    }

    /// The subscription key, `namespace|name`.
    pub fn to_string(&self) -> (r: String)
        ensures
            r@ == subscribe_key(self.namespace@, self.name@),
    {
        join_with_bar(&self.namespace, &self.name)
    }
}

impl Clone for Subscribe {
    fn clone(&self) -> (r: Self)
        ensures
            r == *self,
    {
        Subscribe { namespace: self.namespace.clone(), name: self.name.clone() }
    }
}

impl From<&ConfigurationReg> for Subscribe {
    /// The subscription to the configuration that the request sets.
    fn from(config: &ConfigurationReg) -> (r: Self) {
        Self { namespace: config.get_namespace(), name: config.name.clone() }
    }
}

impl vstd::std_specs::convert::FromSpecImpl<&ConfigurationReg> for Subscribe {
    open spec fn obeys_from_spec() -> bool {
        true
    }

    open spec fn from_spec(v: &ConfigurationReg) -> Self {
        Subscribe { namespace: v.namespace, name: v.name }
    }
}

/// What a message asks for.
pub enum ActionEnum {
    /// Something comes online.
    Up(LuoshuDataEnum),
    /// Something goes offline.
    Down(LuoshuDataEnum),
    /// A value to synchronise.
    Sync(LuoshuDataEnum),
    /// A subscription.
    Subscribe(Subscribe),
    /// Heartbeat request.
    Ping,
    /// Heartbeat answer.
    Pong,
}

impl Clone for ActionEnum {
    fn clone(&self) -> (r: Self)
        ensures
            r == *self,
    {
        match self {
            ActionEnum::Up(v) => ActionEnum::Up(v.clone()),
            ActionEnum::Down(v) => ActionEnum::Down(v.clone()),
            ActionEnum::Sync(v) => ActionEnum::Sync(v.clone()),
            ActionEnum::Subscribe(v) => ActionEnum::Subscribe(v.clone()),
            ActionEnum::Ping => ActionEnum::Ping,
            ActionEnum::Pong => ActionEnum::Pong,
        }
    }
}

/// A message.
pub struct Frame {
    /// What the message asks for.
    pub data: ActionEnum,
}

impl Clone for Frame {
    fn clone(&self) -> (r: Self)
        ensures
            r == *self,
    {
        Frame { data: self.data.clone() }
    }
}

impl From<ActionEnum> for Frame {
    fn from(data: ActionEnum) -> (r: Self) {
        Self { data }
    }
}

impl vstd::std_specs::convert::FromSpecImpl<ActionEnum> for Frame {
    open spec fn obeys_from_spec() -> bool {
        true
    }

    open spec fn from_spec(v: ActionEnum) -> Self {
        Frame { data: v }
    }
}

/// The four big-endian bytes of `n`.
pub open spec fn be_u32_bytes(n: u32) -> Seq<u8> {
    seq![
        (n / 16777216) as u8,
        ((n / 65536) % 256) as u8,
        ((n / 256) % 256) as u8,
        (n % 256) as u8,
    ]
}

/// The number that the first four bytes of `b` spell, big-endian.
pub open spec fn be_u32_value(b: Seq<u8>) -> int {
    b[0] * 16777216 + b[1] * 65536 + b[2] * 256 + b[3]
}

/// The frame of `payload`: its length in four big-endian bytes, then the payload.
pub open spec fn framed(payload: Seq<u8>) -> Seq<u8> {
    be_u32_bytes(payload.len() as u32) + payload
}

/// Whether `buf` begins with a whole frame: a length prefix and at least
/// that many bytes after it.
pub open spec fn holds_whole_frame(buf: Seq<u8>) -> bool {
    buf.len() >= 4 && 4 + be_u32_value(buf) <= buf.len()
}

/// The payload of the frame at the start of `buf`.
pub open spec fn frame_payload_of(buf: Seq<u8>) -> Seq<u8> {
    buf.subrange(4, 4 + be_u32_value(buf))
}

proof fn lemma_be_u32_round_trip(n: u32)
    ensures
        be_u32_value(be_u32_bytes(n)) == n,
{
    let b = be_u32_bytes(n);
    assert(b[0] == (n / 16777216) as u8 && b[1] == ((n / 65536) % 256) as u8 && b[2] == ((n / 256)
        % 256) as u8 && b[3] == (n % 256) as u8);
    assert(((n / 16777216) as u8) as int * 16777216 + (((n / 65536) % 256) as u8) as int * 65536
        + (((n / 256) % 256) as u8) as int * 256 + ((n % 256) as u8) as int == n) by (bit_vector);
}

/// Reading a frame gives back what was framed, whatever follows it.
pub proof fn lemma_frame_round_trip(payload: Seq<u8>, rest: Seq<u8>)
    requires
        payload.len() <= u32::MAX,
    ensures
        holds_whole_frame(framed(payload) + rest),
        frame_payload_of(framed(payload) + rest) == payload,
{
    let n = payload.len() as u32;
    lemma_be_u32_round_trip(n);
    let buf = framed(payload) + rest;
    assert(buf.subrange(0, 4) =~= be_u32_bytes(n));
    assert(buf[0] == be_u32_bytes(n)[0] && buf[1] == be_u32_bytes(n)[1] && buf[2] == be_u32_bytes(
        n,
    )[2] && buf[3] == be_u32_bytes(n)[3]);
    assert(be_u32_value(buf) == payload.len());
    assert(frame_payload_of(buf) =~= payload);
}

/// Frames `payload`: its length in four big-endian bytes, then the payload.
pub fn encode_frame(payload: &[u8]) -> (r: Vec<u8>)
    requires
        payload@.len() <= u32::MAX,
    ensures
        r@ == framed(payload@),
{
    let n = payload.len() as u32;
    let mut r: Vec<u8> = Vec::new();
    r.push((n / 16777216) as u8);
    r.push(((n / 65536) % 256) as u8);
    r.push(((n / 256) % 256) as u8);
    r.push((n % 256) as u8);
    assert(r@ =~= be_u32_bytes(n));
    let mut i: usize = 0;
    while i < payload.len()
        invariant
            i <= payload@.len(),
            r@ == be_u32_bytes(n) + payload@.subrange(0, i as int),
        decreases payload@.len() - i,
    {
        r.push(payload[i]);
        assert(r@ =~= be_u32_bytes(n) + payload@.subrange(0, i + 1));
        i = i + 1;
    }
    assert(payload@.subrange(0, payload@.len() as int) =~= payload@);
    r
}

/// The payload length that a frame's first four bytes announce.
pub fn decode_frame_len(buf: &[u8]) -> (r: u32)
    requires
        buf@.len() >= 4,
    ensures
        r == be_u32_value(buf@),
{
    (buf[0] as u32) * 16777216 + (buf[1] as u32) * 65536 + (buf[2] as u32) * 256 + (buf[3] as u32)
}

/// The payload of the frame at the start of `buf`.
pub fn frame_payload(buf: &[u8]) -> (r: Vec<u8>)
    requires
        holds_whole_frame(buf@),
    ensures
        r@ == frame_payload_of(buf@),
{
    let len = buf.len();
    let n32 = decode_frame_len(buf);
    assert(4 + n32 <= len);
    let n = n32 as usize;
    let body = vstd::slice::slice_subrange(buf, 4, 4 + n);
    vstd::slice::slice_to_vec(body)
}

} // verus!
