//! Byte-level framing of the OpenRGB SDK protocol as the effects plugin uses
//! it: every packet is a 16-byte header (`"ORGB"`, the device index, the
//! packet id and the size of the data, each a little-endian `u32`) followed
//! by its data.

use vstd::prelude::*;

verus! {

/// Packet id of the OpenRGB SDK's plugin-specific requests.
pub const PLUGIN_PACKET_ID: u32 = 201;

/// Length of an SDK packet header.
pub const HEADER_LEN: usize = 16;

/// The four bytes `"ORGB"` that open every SDK packet header.
pub open spec fn header_magic() -> Seq<u8> {
    seq![0x4fu8, 0x52u8, 0x47u8, 0x42u8]
}

/// The little-endian bytes of a `u16`.
pub open spec fn le_u16_bytes(x: u16) -> Seq<u8> {
    seq![(x % 256) as u8, (x / 256) as u8]
}

/// The little-endian bytes of a `u32`.
pub open spec fn le_u32_bytes(x: u32) -> Seq<u8> {
    seq![
        (x % 256) as u8,
        ((x / 256) % 256) as u8,
        ((x / 65536) % 256) as u8,
        (x / 16777216) as u8,
    ]
}

/// The value of the little-endian `u16` at `i` in `b`.
pub open spec fn le_u16_at(b: Seq<u8>, i: int) -> int {
    b[i] + 256 * b[i + 1]
}

/// The value of the little-endian `u32` at `i` in `b`.
pub open spec fn le_u32_at(b: Seq<u8>, i: int) -> int {
    b[i] + 256 * b[i + 1] + 65536 * b[i + 2] + 16777216 * b[i + 3]
}

/// The header of a plugin request to plugin `plugin_idx` whose data has
/// `data_len` bytes. The size field holds `data_len` reduced to 32 bits.
pub open spec fn request_header(plugin_idx: u32, data_len: nat) -> Seq<u8> {
    header_magic() + le_u32_bytes(plugin_idx) + le_u32_bytes(PLUGIN_PACKET_ID) + le_u32_bytes(
        data_len as u32,
    )
}

/// The data of a plugin request: the plugin's command id, then its payload.
pub open spec fn request_body(cmd_id: u32, payload: Seq<u8>) -> Seq<u8> {
    le_u32_bytes(cmd_id) + payload
}

/// A plugin request as it is written to the SDK connection: the header, then
/// the body.
pub struct PluginRequest {
    pub header: Vec<u8>,
    pub body: Vec<u8>,
}

/// Appends the bytes of `s` to `v`.
fn append_bytes(v: &mut Vec<u8>, s: &[u8])
    ensures
        final(v)@ == old(v)@ + s@,
{
    let mut i: usize = 0;
    while i < s.len()
        invariant
            i <= s@.len(),
            v@ == old(v)@ + s@.subrange(0, i as int),
        decreases s@.len() - i,
    {
        v.push(s[i]);
        i = i + 1;
        assert(v@ =~= old(v)@ + s@.subrange(0, i as int));
    }
    assert(s@.subrange(0, s@.len() as int) =~= s@);
}

/// Appends the little-endian bytes of `x` to `v`.
pub fn push_le_u32(v: &mut Vec<u8>, x: u32)
    ensures
        final(v)@ == old(v)@ + le_u32_bytes(x),
{
    v.push((x % 256) as u8);
    v.push(((x / 256) % 256) as u8);
    v.push(((x / 65536) % 256) as u8);
    v.push((x / 16777216) as u8);
    assert(v@ =~= old(v)@ + le_u32_bytes(x));
}

/// Appends the little-endian bytes of `x` to `v`.
pub fn push_le_u16(v: &mut Vec<u8>, x: u16)
    ensures
        final(v)@ == old(v)@ + le_u16_bytes(x),
{
    v.push((x % 256) as u8);
    v.push((x / 256) as u8);
    assert(v@ =~= old(v)@ + le_u16_bytes(x));
}

/// Frames command `cmd_id` with `payload` for plugin `plugin_idx`.
pub fn encode_plugin_request(plugin_idx: u32, cmd_id: u32, payload: &[u8]) -> (r: PluginRequest)
    ensures
        r.body@ == request_body(cmd_id, payload@),
        r.header@ == request_header(plugin_idx, r.body@.len()),
{
    let mut body: Vec<u8> = Vec::new();
    push_le_u32(&mut body, cmd_id);
    append_bytes(&mut body, payload);
    let mut header: Vec<u8> = Vec::new();
    header.push(0x4f);
    header.push(0x52);
    header.push(0x47);
    header.push(0x42);
    push_le_u32(&mut header, plugin_idx);
    push_le_u32(&mut header, PLUGIN_PACKET_ID);
    let n = body.len();
    push_le_u32(&mut header, n as u32);
    assert(header@ =~= request_header(plugin_idx, body@.len()));
    assert(body@ =~= request_body(cmd_id, payload@));
    PluginRequest { header, body }
}

/// The data size that an SDK packet header announces (bytes 12 to 15).
pub fn reply_data_size(header: &[u8]) -> (n: u32)
    requires
        header@.len() == HEADER_LEN,
    ensures
        n == le_u32_at(header@, 12),
{
    header[12] as u32 + header[13] as u32 * 256 + header[14] as u32 * 65536 + header[15] as u32
        * 16777216
}

/// Reading back a little-endian `u32` gives the value that was written.
pub proof fn lemma_le_u32_roundtrip(x: u32)
    ensures
        le_u32_at(le_u32_bytes(x), 0) == x,
{
}

/// Reading back a little-endian `u16` gives the value that was written.
pub proof fn lemma_le_u16_roundtrip(x: u16)
    ensures
        le_u16_at(le_u16_bytes(x), 0) == x,
{
}

/// The data size that `reply_data_size` reads from a header is the size
/// that `encode_plugin_request` wrote into it: the length of the data,
/// reduced to 32 bits.
pub proof fn lemma_header_size_roundtrip(plugin_idx: u32, data_len: nat)
    ensures
        le_u32_at(request_header(plugin_idx, data_len), 12) == data_len as u32,
{
    let h = request_header(plugin_idx, data_len);
    lemma_le_u32_roundtrip(data_len as u32);
    assert(h.subrange(12, 16) =~= le_u32_bytes(data_len as u32));
    assert(h[12] == le_u32_bytes(data_len as u32)[0]);
    assert(h[13] == le_u32_bytes(data_len as u32)[1]);
    assert(h[14] == le_u32_bytes(data_len as u32)[2]);
    assert(h[15] == le_u32_bytes(data_len as u32)[3]);
}

} // verus!
