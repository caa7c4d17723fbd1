//! The messages between a relay and its clients, and the framing of body chunks.
use vstd::prelude::*;


verus! {

pub const DEFAULT_RELAY_URL: &'static str = "http://127.0.0.1:8787";

#[derive(Clone, Debug)]
pub struct RelaySessionCreateRequest {
    pub download_name: String,
    pub expires_at_unix: u64,
}

#[derive(Clone, Debug)]
pub struct RelaySessionCreateResponse {
    pub public_id: String,
    pub public_url: String,
    pub websocket_url: String,
    pub secret: String,
}

#[derive(Clone, Debug)]
pub struct HeaderPair {
    pub name: String,
    pub value: String,
}

impl View for HeaderPair {
    type V = (Seq<char>, Seq<char>);

    open spec fn view(&self) -> (Seq<char>, Seq<char>) {
        (self.name@, self.value@)
    }
}

#[derive(Clone, Debug)]
pub enum RelayToClientMessage {
    RequestStart {
        request_id: u64,
        method: String,
        path: String,
        query: Option<String>,
        headers: Vec<HeaderPair>,
    },
    SessionClose { reason: String },
}

#[derive(Clone, Debug)]
pub enum ClientToRelayMessage {
    ResponseStart { request_id: u64, status: u16, headers: Vec<HeaderPair> },
    ResponseEnd { request_id: u64 },
    ResponseError { request_id: u64, status: u16, message: String },
    SessionClose { reason: String },
}

/// A body frame that is too short to hold a request id.
#[derive(Clone, Copy, Debug, PartialEq, Eq, Structural)]
pub struct FrameTooShort;

impl FrameTooShort {
    pub fn message(&self) -> (res: &'static str)
        ensures
            res@ == "relay body frame is too short"@,
    {
        "relay body frame is too short"
    }
}

/// The number that bytes stand for, the most significant first.
pub open spec fn big_endian(bytes: Seq<u8>) -> nat
    decreases bytes.len(),
{
    if bytes.len() == 0 {
        0
    } else {
        big_endian(bytes.drop_last()) * 256 + bytes.last() as nat
    }
}

/// The lowest `width` bytes of a number, the most significant first.
pub open spec fn number_bytes(n: nat, width: nat) -> Seq<u8>
    decreases width,
{
    if width == 0 {
        Seq::empty()
    } else {
        number_bytes(n / 256, (width - 1) as nat).push((n % 256) as u8)
    }
}

/// The eight bytes of a request id, the most significant first.
pub open spec fn id_bytes(id: u64) -> Seq<u8> {
    number_bytes(id as nat, 8)
}

/// A body frame: the request id in eight bytes, then the chunk.
pub open spec fn body_frame(request_id: u64, chunk: Seq<u8>) -> Seq<u8> {
    id_bytes(request_id) + chunk
}

/// The views of a sequence of header pairs.
pub open spec fn pair_views(pairs: Seq<HeaderPair>) -> Seq<(Seq<char>, Seq<char>)> {
    pairs.map_values(|pair: HeaderPair| pair@)
}

/// The number of values that `width` bytes have.
spec fn byte_range(width: nat) -> nat
    decreases width,
{
    if width == 0 {
        1
    } else {
        256 * byte_range((width - 1) as nat)
    }
}

proof fn lemma_byte_range_grows(a: nat, b: nat)
    requires
        a <= b,
    ensures
        byte_range(a) <= byte_range(b),
    decreases b,
{
    if a < b {
        lemma_byte_range_grows(a, (b - 1) as nat);
    }
}

proof fn lemma_eight_bytes()
    ensures
        byte_range(7) == 0x100_0000_0000_0000,
        byte_range(8) == 0x1_0000_0000_0000_0000,
{
    reveal_with_fuel(byte_range, 9);
}

proof fn lemma_big_endian_bound(bytes: Seq<u8>)
    ensures
        big_endian(bytes) < byte_range(bytes.len()),
    decreases bytes.len(),
{
    if bytes.len() > 0 {
        lemma_big_endian_bound(bytes.drop_last());
    }
}

proof fn lemma_bytes_of_value(bytes: Seq<u8>)
    ensures
        number_bytes(big_endian(bytes), bytes.len()) == bytes,
    decreases bytes.len(),
{
    if bytes.len() > 0 {
        lemma_bytes_of_value(bytes.drop_last());
        assert(number_bytes(big_endian(bytes), bytes.len()) =~= bytes);
    } else {
        assert(number_bytes(big_endian(bytes), bytes.len()) =~= bytes);
    }
}

proof fn lemma_value_of_bytes(n: nat, width: nat)
    requires
        n < byte_range(width),
    ensures
        number_bytes(n, width).len() == width,
        big_endian(number_bytes(n, width)) == n,
    decreases width,
{
    if width > 0 {
        lemma_value_of_bytes(n / 256, (width - 1) as nat);
        assert(number_bytes(n, width).drop_last() =~= number_bytes(n / 256, (width - 1) as nat));
    }
}

fn push_number(out: &mut Vec<u8>, n: u64, width: usize)
    ensures
        final(out)@ == old(out)@ + number_bytes(n as nat, width as nat),
    decreases width,
{
    if width > 0 {
        push_number(out, n / 256, width - 1);
        let ghost before = out@;
        out.push((n % 256) as u8);
        assert(out@ =~= old(out)@ + number_bytes(n as nat, width as nat));
    } else {
        assert(out@ =~= old(out)@ + number_bytes(n as nat, width as nat));
    }
}

/// The frame of one chunk of a response body.
pub fn encode_body_chunk(request_id: u64, bytes: &[u8]) -> (res: Vec<u8>)
    ensures
        res@ == body_frame(request_id, bytes@),
{
    let mut payload: Vec<u8> = Vec::new();
    push_number(&mut payload, request_id, 8);
    assert(payload@ =~= id_bytes(request_id));
    let mut i: usize = 0;
    while i < bytes.len()
        invariant
            i <= bytes@.len(),
            payload@ == id_bytes(request_id) + bytes@.take(i as int),
        decreases bytes@.len() - i,
    {
        payload.push(bytes[i]);
        assert(payload@ =~= id_bytes(request_id) + bytes@.take(i + 1));
        i = i + 1;
    }
    assert(bytes@.take(i as int) =~= bytes@);
    payload
}

/// The request id and the chunk of a frame.
pub fn decode_body_chunk(payload: &[u8]) -> (res: Result<(u64, Vec<u8>), FrameTooShort>)
    ensures
        res is Err <==> payload@.len() < 8,
        res matches Ok((request_id, chunk)) ==> {
            &&& request_id == big_endian(payload@.take(8))
            &&& chunk@ == payload@.skip(8)
            &&& payload@ == body_frame(request_id, chunk@)
        },
{
    if payload.len() < 8 {
        return Err(FrameTooShort);
    }
    let mut request_id: u64 = 0;
    let mut i: usize = 0;
    while i < 8
        invariant
            i <= 8 <= payload@.len(),
            request_id == big_endian(payload@.take(i as int)),
        decreases 8 - i,
    {
        proof {
            lemma_big_endian_bound(payload@.take(i as int));
            lemma_byte_range_grows(i as nat, 7);
            lemma_eight_bytes();
            assert(payload@.take(i + 1).drop_last() =~= payload@.take(i as int));
        }
        request_id = request_id * 256 + payload[i] as u64;
        i = i + 1;
    }
    let mut chunk: Vec<u8> = Vec::new();
    while i < payload.len()
        invariant
            8 <= i <= payload@.len(),
            chunk@ == payload@.subrange(8, i as int),
        decreases payload@.len() - i,
    {
        chunk.push(payload[i]);
        i = i + 1;
    }
    proof {
        lemma_bytes_of_value(payload@.take(8));
        assert(chunk@ =~= payload@.skip(8));
        assert(payload@ =~= payload@.take(8) + payload@.skip(8));
    }
    Ok((request_id, chunk))
}

/// What is framed is read back: the id and the chunk of a frame are the ones it was made of.
pub proof fn frame_reads_back(request_id: u64, chunk: Seq<u8>)
    ensures
        body_frame(request_id, chunk).len() >= 8,
        big_endian(body_frame(request_id, chunk).take(8)) == request_id,
        body_frame(request_id, chunk).skip(8) == chunk,
{
    lemma_eight_bytes();
    lemma_value_of_bytes(request_id as nat, 8);
    assert(body_frame(request_id, chunk).take(8) =~= id_bytes(request_id));
    assert(body_frame(request_id, chunk).skip(8) =~= chunk);
}

/// Two frames are equal only if their ids and their chunks are.
pub proof fn frames_are_unambiguous(id1: u64, chunk1: Seq<u8>, id2: u64, chunk2: Seq<u8>)
    requires
        body_frame(id1, chunk1) == body_frame(id2, chunk2),
    ensures
        id1 == id2,
        chunk1 == chunk2,
{
    frame_reads_back(id1, chunk1);
    frame_reads_back(id2, chunk2);
}

/// A chunk that was framed is read back by the other side, byte for byte and for the request
/// that it belongs to; a frame without room for an id is refused.
pub proof fn chunks_are_read_back(
    request_id: u64,
    bytes: &[u8],
    frame: Vec<u8>,
    payload: &[u8],
    res: Result<(u64, Vec<u8>), FrameTooShort>,
)
    requires
        call_ensures(encode_body_chunk, (request_id, bytes), frame),
        call_ensures(decode_body_chunk, (payload,), res),
    ensures
        frame@.len() == bytes@.len() + 8,
        payload@ == frame@ ==> (res matches Ok((id, chunk)) && id == request_id && chunk@
            == bytes@),
        payload@.len() < 8 <==> res is Err,
{
    frame_reads_back(request_id, bytes@);
    lemma_eight_bytes();
    lemma_value_of_bytes(request_id as nat, 8);
}

/// The id of a frame stands in its first eight bytes, the most significant first.
pub proof fn id_stands_in_front(request_id: u64, bytes: &[u8], frame: Vec<u8>)
    requires
        call_ensures(encode_body_chunk, (request_id, bytes), frame),
    ensures
        frame@.len() == bytes@.len() + 8,
        frame@[7] == request_id % 256,
        frame@[6] == request_id / 256 % 256,
        frame@[0] == request_id / 0x100_0000_0000_0000,
        forall|i: int| 0 <= i < bytes@.len() ==> #[trigger] frame@[i + 8] == bytes@[i],
{
    reveal_with_fuel(number_bytes, 9);
    lemma_eight_bytes();
    lemma_value_of_bytes(request_id as nat, 8);
    let id = request_id as nat;
    assert(id / 256 / 256 / 256 / 256 / 256 / 256 / 256 == id / 0x100_0000_0000_0000);
    assert(id / 0x100_0000_0000_0000 < 256);
}

} // verus!
