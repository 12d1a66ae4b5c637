use vstd::prelude::*;

verus! {

/// The little-endian bytes of a 32-bit integer.
pub open spec fn le32(v: u32) -> Seq<u8> {
    seq![
        (v & 0xff) as u8,
        ((v >> 8) & 0xff) as u8,
        ((v >> 16) & 0xff) as u8,
        ((v >> 24) & 0xff) as u8,
    ]
}

/// The little-endian bytes of a 64-bit integer.
pub open spec fn le64(v: u64) -> Seq<u8> {
    seq![
        (v & 0xff) as u8,
        ((v >> 8) & 0xff) as u8,
        ((v >> 16) & 0xff) as u8,
        ((v >> 24) & 0xff) as u8,
        ((v >> 32) & 0xff) as u8,
        ((v >> 40) & 0xff) as u8,
        ((v >> 48) & 0xff) as u8,
        ((v >> 56) & 0xff) as u8,
    ]
}

/// The 32-bit integer read from four little-endian bytes.
pub open spec fn read_le32(b: Seq<u8>, off: int) -> u32 {
    (b[off] as u32) | ((b[off + 1] as u32) << 8) | ((b[off + 2] as u32) << 16) | ((b[off
        + 3] as u32) << 24)
}

/// The 64-bit integer read from eight little-endian bytes.
pub open spec fn read_le64(b: Seq<u8>, off: int) -> u64 {
    (b[off] as u64) | ((b[off + 1] as u64) << 8) | ((b[off + 2] as u64) << 16) | ((b[off
        + 3] as u64) << 24) | ((b[off + 4] as u64) << 32) | ((b[off + 5] as u64) << 40) | ((b[off
        + 6] as u64) << 48) | ((b[off + 7] as u64) << 56)
}

/// Appends the little-endian bytes of a 32-bit integer.
fn push_le32(out: &mut Vec<u8>, v: u32)
    ensures
        final(out)@ == old(out)@ + le32(v),
{
    out.push((v & 0xff) as u8);
    out.push(((v >> 8) & 0xff) as u8);
    out.push(((v >> 16) & 0xff) as u8);
    out.push(((v >> 24) & 0xff) as u8);
    proof {
        assert(out@ =~= old(out)@ + le32(v));
    }
}

/// Appends the little-endian bytes of a 64-bit integer.
fn push_le64(out: &mut Vec<u8>, v: u64)
    ensures
        final(out)@ == old(out)@ + le64(v),
{
    out.push((v & 0xff) as u8);
    out.push(((v >> 8) & 0xff) as u8);
    out.push(((v >> 16) & 0xff) as u8);
    out.push(((v >> 24) & 0xff) as u8);
    out.push(((v >> 32) & 0xff) as u8);
    out.push(((v >> 40) & 0xff) as u8);
    out.push(((v >> 48) & 0xff) as u8);
    out.push(((v >> 56) & 0xff) as u8);
    proof {
        assert(out@ =~= old(out)@ + le64(v));
    }
}

/// Appends a slice of bytes.
fn push_bytes(out: &mut Vec<u8>, data: &Vec<u8>)
    ensures
        final(out)@ == old(out)@ + data@,
{
    let n = data.len();
    let mut i: usize = 0;
    while i < n
        invariant
            n == data@.len(),
            0 <= i <= n,
            out@ == old(out)@ + data@.take(i as int),
        decreases n - i,
    {
        out.push(data[i]);
        proof {
            assert(out@ =~= old(out)@ + data@.take(i + 1));
        }
        i = i + 1;
    }
    proof {
        assert(data@.take(n as int) =~= data@);
    }
}

/// The server-to-client message-data frame: opcode 0x01, then the
/// subscription id and log time in little-endian, then the payload.
pub open spec fn message_data_frame(sub_id: u32, log_time: u64, payload: Seq<u8>) -> Seq<u8> {
    seq![1u8] + le32(sub_id) + le64(log_time) + payload
}

/// Encodes a server-to-client message-data frame.
pub fn encode_message_data(sub_id: u32, log_time: u64, payload: &Vec<u8>) -> (r: Vec<u8>)
    ensures
        r@ == message_data_frame(sub_id, log_time, payload@),
{
    let mut out: Vec<u8> = Vec::new();
    out.push(1);
    push_le32(&mut out, sub_id);
    push_le64(&mut out, log_time);
    push_bytes(&mut out, payload);
    proof {
        assert(out@ =~= message_data_frame(sub_id, log_time, payload@));
    }
    out
}

/// The server-to-client time frame: opcode 0x02, then the timestamp in
/// little-endian nanoseconds.
pub open spec fn time_frame(timestamp_nanos: u64) -> Seq<u8> {
    seq![2u8] + le64(timestamp_nanos)
}

/// Encodes a server-to-client time frame.
pub fn encode_time(timestamp_nanos: u64) -> (r: Vec<u8>)
    ensures
        r@ == time_frame(timestamp_nanos),
{
    let mut out: Vec<u8> = Vec::new();
    out.push(2);
    push_le64(&mut out, timestamp_nanos);
    proof {
        assert(out@ =~= time_frame(timestamp_nanos));
    }
    out
}

/// The server-to-client service-response frame: opcode 0x03, the service and
/// call ids, the length-prefixed encoding string, then the payload.
pub open spec fn service_response_frame(
    service_id: u32,
    call_id: u32,
    encoding: Seq<u8>,
    payload: Seq<u8>,
) -> Seq<u8> {
    seq![3u8] + le32(service_id) + le32(call_id) + le32(encoding.len() as u32) + encoding + payload
}

/// Encodes a server-to-client service-response frame. The encoding is given
/// as its UTF-8 bytes.
pub fn encode_service_response(
    service_id: u32,
    call_id: u32,
    encoding: &Vec<u8>,
    payload: &Vec<u8>,
) -> (r: Vec<u8>)
    requires
        encoding@.len() <= u32::MAX,
    ensures
        r@ == service_response_frame(service_id, call_id, encoding@, payload@),
{
    let mut out: Vec<u8> = Vec::new();
    out.push(3);
    push_le32(&mut out, service_id);
    push_le32(&mut out, call_id);
    push_le32(&mut out, encoding.len() as u32);
    push_bytes(&mut out, encoding);
    push_bytes(&mut out, payload);
    proof {
        assert(out@ =~= service_response_frame(service_id, call_id, encoding@, payload@));
    }
    out
}

/// The server-to-client fetch-asset-response frame: opcode 0x04, the request
/// id, a status byte (0 for success, 1 for error), then the asset data or the
/// error message bytes.
pub open spec fn asset_response_frame(request_id: u32, status: u8, body: Seq<u8>) -> Seq<u8> {
    seq![4u8] + le32(request_id) + seq![status] + body
}

/// Encodes a server-to-client fetch-asset-response frame.
pub fn encode_asset_response(request_id: u32, status: u8, body: &Vec<u8>) -> (r: Vec<u8>)
    ensures
        r@ == asset_response_frame(request_id, status, body@),
{
    let mut out: Vec<u8> = Vec::new();
    out.push(4);
    push_le32(&mut out, request_id);
    out.push(status);
    push_bytes(&mut out, body);
    proof {
        assert(out@ =~= asset_response_frame(request_id, status, body@));
    }
    out
}

/// Reads a 32-bit little-endian integer at an offset.
fn get_le32(b: &Vec<u8>, off: usize) -> (r: u32)
    requires
        off + 4 <= b@.len(),
    ensures
        r == read_le32(b@, off as int),
{
    let n = b.len();
    (b[off] as u32) | ((b[off + 1] as u32) << 8) | ((b[off + 2] as u32) << 16) | ((b[off
        + 3] as u32) << 24)
}

/// A client-to-server binary frame, decoded.
#[derive(Debug)]
pub enum ClientFrame {
    /// Opcode 0x01: a data message on an advertised client channel.
    MessageData {
        /// The client's channel id.
        client_channel_id: u32,
        /// The message payload.
        payload: Vec<u8>,
    },
    /// Opcode 0x02: a service request.
    ServiceRequest {
        /// The service to call.
        service_id: u32,
        /// The client-chosen call id.
        call_id: u32,
        /// The UTF-8 bytes of the request encoding.
        encoding: Vec<u8>,
        /// The request payload.
        payload: Vec<u8>,
    },
}

/// True if the bytes form a client message-data frame.
pub open spec fn is_client_message_data(b: Seq<u8>) -> bool {
    b.len() >= 5 && b[0] == 1u8
}

/// True if the bytes form a client service-request frame: enough bytes for
/// the fixed header and for the declared encoding length.
pub open spec fn is_client_service_request(b: Seq<u8>) -> bool {
    b.len() >= 13 && b[0] == 2u8 && 13 + read_le32(b, 9) <= b.len()
}

/// Parses a client-to-server binary frame.
///
/// Returns the decoded frame exactly when the bytes are well-formed: a
/// message-data frame needs its opcode and channel id; a service-request
/// frame needs its fixed header and as many encoding bytes as it declares.
pub fn parse_client_frame(b: &Vec<u8>) -> (r: Option<ClientFrame>)
    ensures
        r is Some <==> is_client_message_data(b@) || is_client_service_request(b@),
        is_client_message_data(b@) ==> (match r {
            Some(ClientFrame::MessageData { client_channel_id, payload }) => client_channel_id
                == read_le32(b@, 1) && payload@ == b@.subrange(5, b@.len() as int),
            _ => false,
        }),
        is_client_service_request(b@) ==> (match r {
            Some(ClientFrame::ServiceRequest { service_id, call_id, encoding, payload }) => {
                &&& service_id == read_le32(b@, 1)
                &&& call_id == read_le32(b@, 5)
                &&& encoding@ == b@.subrange(13, 13 + read_le32(b@, 9))
                &&& payload@ == b@.subrange(13 + read_le32(b@, 9), b@.len() as int)
            },
            _ => false,
        }),
    {
        let n = b.len();
        if n >= 5 && b[0] == 1 {
            let id = get_le32(b, 1);
            let payload = copy_range(b, 5, n);
            return Some(ClientFrame::MessageData { client_channel_id: id, payload });
        }
        if n >= 13 && b[0] == 2 {
            let service_id = get_le32(b, 1);
            let call_id = get_le32(b, 5);
            let enc_len = get_le32(b, 9);
            if enc_len as u64 <= (n as u64) - 13 {
                let enc_end = 13 + enc_len as usize;
                let encoding = copy_range(b, 13, enc_end);
                let payload = copy_range(b, enc_end, n);
                return Some(ClientFrame::ServiceRequest {
                    service_id,
                    call_id,
                    encoding,
                    payload,
                });
            }
        }
        None
    }

/// Copies the byte range `[from, to)`.
fn copy_range(b: &Vec<u8>, from: usize, to: usize) -> (r: Vec<u8>)
    requires
        from <= to <= b@.len(),
    ensures
        r@ == b@.subrange(from as int, to as int),
{
    let mut out: Vec<u8> = Vec::new();
    let mut i: usize = from;
    while i < to
        invariant
            from <= i <= to <= b@.len(),
            out@ == b@.subrange(from as int, i as int),
        decreases to - i,
    {
        out.push(b[i]);
        proof {
            assert(out@ =~= b@.subrange(from as int, i + 1));
        }
        i = i + 1;
    }
    out
}

} // verus!
