use vstd::prelude::*;
use vstd::slice::slice_subrange;

verus! {

/// Length of the fixed part of an RTP header.
pub const RTP_FIXED_HEADER_LEN: usize = 12;

/// The only RTP version in use.
pub const RTP_VERSION: u8 = 2;

/// At most this many lost packets are concealed after a gap in the sequence numbers.
pub const MAX_CONCEALED_PACKETS: u16 = 3;

/// The big-endian number of two bytes.
pub open spec fn be16(hi: u8, lo: u8) -> nat {
    (hi as nat) * 256 + lo as nat
}

/// The big-endian number of four bytes.
pub open spec fn be32(b0: u8, b1: u8, b2: u8, b3: u8) -> nat {
    (b0 as nat) * 16777216 + (b1 as nat) * 65536 + (b2 as nat) * 256 + b3 as nat
}

/// The header fields of the datagram `d`, which has at least twelve bytes.
pub open spec fn header_of(d: Seq<u8>) -> RtpHeader {
    RtpHeader {
        version: d[0] / 64,
        padding: (d[0] / 32) % 2 == 1,
        extension: (d[0] / 16) % 2 == 1,
        csrc_count: d[0] % 16,
        marker: d[1] / 128 == 1,
        payload_type: d[1] % 128,
        sequence_number: be16(d[2], d[3]) as u16,
        timestamp: be32(d[4], d[5], d[6], d[7]) as u32,
        ssrc: be32(d[8], d[9], d[10], d[11]) as u32,
    }
}

/// Length of the fixed header and the contributing-source list.
pub open spec fn sources_end(d: Seq<u8>) -> int {
    12 + 4 * (d[0] % 16) as int
}

/// Where the payload starts: behind the contributing sources and the header extension, if any.
pub open spec fn payload_start(d: Seq<u8>) -> int {
    let base = sources_end(d);
    if header_of(d).extension {
        base + 4 + 4 * be16(d[base + 2], d[base + 3]) as int
    } else {
        base
    }
}

/// Number of padding bytes at the end of the datagram.
pub open spec fn padding_len(d: Seq<u8>) -> int {
    if header_of(d).padding {
        d[d.len() - 1] as int
    } else {
        0
    }
}

/// Where the payload ends: before the padding.
pub open spec fn payload_end(d: Seq<u8>) -> int {
    d.len() - padding_len(d)
}

/// `d` is a well-formed RTP datagram: version 2, the header and its
/// extension lie inside it, and the padding count, where the padding bit is
/// set, is at least one and no more than what follows the header.
pub open spec fn is_rtp(d: Seq<u8>) -> bool {
    &&& d.len() >= 12
    &&& header_of(d).version == 2
    &&& sources_end(d) <= d.len()
    &&& header_of(d).extension ==> sources_end(d) + 4 <= d.len()
    &&& payload_start(d) <= d.len()
    &&& header_of(d).padding ==> 1 <= padding_len(d) <= d.len() - payload_start(d)
}

/// The fields of an RTP header.
#[derive(Clone, Copy, Debug, PartialEq, Eq, Structural)]
pub struct RtpHeader {
    pub version: u8,
    pub padding: bool,
    pub extension: bool,
    pub csrc_count: u8,
    pub marker: bool,
    pub payload_type: u8,
    pub sequence_number: u16,
    pub timestamp: u32,
    pub ssrc: u32,
}

/// A parsed RTP datagram: its header and where its payload lies.
#[derive(Clone, Copy, Debug, PartialEq, Eq, Structural)]
pub struct RtpPacket {
    pub header: RtpHeader,
    pub payload_offset: usize,
    pub payload_len: usize,
}

impl RtpPacket {
    /// The packet's payload lies inside `d`.
    pub open spec fn fits(&self, d: Seq<u8>) -> bool {
        self.payload_offset + self.payload_len <= d.len()
    }

    /// Parses a datagram. Returns the packet exactly when the datagram is
    /// well-formed, with the header fields read big-endian and the payload
    /// between the header and the padding.
    pub fn parse(data: &[u8]) -> (packet: Option<RtpPacket>)
        ensures
            packet is Some <==> is_rtp(data@),
            packet is Some ==> {
                let p = packet.unwrap();
                &&& p.header == header_of(data@)
                &&& p.payload_offset == payload_start(data@)
                &&& p.payload_offset + p.payload_len == payload_end(data@)
                &&& p.fits(data@)
            },
    {
        let n = data.len();
        if n < RTP_FIXED_HEADER_LEN {
            return None;
        }
        let b0: u8 = data[0];
        let b1: u8 = data[1];
        let version: u8 = b0 / 64;
        if version != RTP_VERSION {
            return None;
        }
        let padding = (b0 / 32) % 2 == 1;
        let extension = (b0 / 16) % 2 == 1;
        let csrc_count: u8 = b0 % 16;
        let mut offset: usize = RTP_FIXED_HEADER_LEN + 4 * (csrc_count as usize);
        if offset > n {
            return None;
        }
        if extension {
            if n - offset < 4 {
                return None;
            }
            let words: usize = (data[offset + 2] as usize) * 256 + data[offset + 3] as usize;
            let ext_len: usize = 4 + 4 * words;
            if n - offset < ext_len {
                return None;
            }
            offset = offset + ext_len;
        }
        let mut end: usize = n;
        if padding {
            let pad: usize = data[n - 1] as usize;
            if pad < 1 || pad > n - offset {
                return None;
            }
            end = n - pad;
        }
        let sequence_number: u16 = (data[2] as u16) * 256 + data[3] as u16;
        let timestamp: u32 = (data[4] as u32) * 16777216 + (data[5] as u32) * 65536 + (
        data[6] as u32) * 256 + data[7] as u32;
        let ssrc: u32 = (data[8] as u32) * 16777216 + (data[9] as u32) * 65536 + (data[10] as u32)
            * 256 + data[11] as u32;
        Some(
            RtpPacket {
                header: RtpHeader {
                    version,
                    padding,
                    extension,
                    csrc_count,
                    marker: b1 / 128 == 1,
                    payload_type: b1 % 128,
                    sequence_number,
                    timestamp,
                    ssrc,
                },
                payload_offset: offset,
                payload_len: end - offset,
            },
        )
    }

    /// The payload bytes of the datagram this packet was parsed from.
    pub fn payload<'a>(&self, data: &'a [u8]) -> (bytes: &'a [u8])
        requires
            self.fits(data@),
        ensures
            bytes@ == data@.subrange(
                self.payload_offset as int,
                self.payload_offset + self.payload_len,
            ),
    {
        let n = data.len();
        assert(self.payload_offset + self.payload_len <= n);
        slice_subrange(data, self.payload_offset, self.payload_offset + self.payload_len)
    }
}

/// How many packets were lost between the packet numbered `prev` and the
/// next one received, numbered `seq`, counting modulo 2^16.
pub open spec fn sequence_gap(prev: u16, seq: u16) -> int {
    (seq - prev - 1) % 65536
}

/// How many lost packets to conceal before decoding the packet numbered
/// `seq`, the last one received having been `prev`: the gap, capped.
pub fn concealment_count(prev: u16, seq: u16) -> (count: u16)
    ensures
        count == if sequence_gap(prev, seq) < MAX_CONCEALED_PACKETS {
            sequence_gap(prev, seq)
        } else {
            MAX_CONCEALED_PACKETS as int
        },
{
    let gap: u16 = seq.wrapping_sub(prev).wrapping_sub(1);
    if gap < MAX_CONCEALED_PACKETS {
        gap
    } else {
        MAX_CONCEALED_PACKETS
    }
}

} // verus!
