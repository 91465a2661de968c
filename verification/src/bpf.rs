//! Records exchanged with the kernel programs.

use vstd::prelude::*;

verus! {

/// Bytes of a certificate that a kernel event can hold.
pub const MAX_CERT_DATA: usize = 4096;

/// Bytes of a server name that a kernel event can hold.
pub const MAX_SNI: usize = 256;

/// A certificate seen in a TLS handshake.
#[derive(Clone, Copy, Debug)]
pub struct TlsCertEvent {
    /// Kernel time of the observation in nanoseconds.
    pub timestamp_ns: u64,
    /// Source address, most significant byte first.
    pub src_ip: u32,
    /// Destination address, most significant byte first.
    pub dst_ip: u32,
    pub src_port: u16,
    pub dst_port: u16,
    /// 4 or 6.
    pub ip_version: u8,
    pub tls_version: u16,
    /// Length of the server name.
    pub sni_len: u16,
    pub sni: [u8; 256],
    /// SHA-256 of the certificate, as the kernel computed it.
    pub fingerprint: [u8; 32],
    /// Full length of the certificate, which may exceed what `cert_data` holds.
    pub cert_len: u32,
    /// The certificate in DER, cut at the size of the array.
    pub cert_data: [u8; 4096],
    pub chain_depth: u8,
    /// Fingerprint of the issuer's certificate; all zero bytes where it is not known.
    pub issuer_fingerprint: [u8; 32],
    /// 1 where the kernel has not reported the certificate before.
    pub is_new: u8,
}

// ---------------------------------------------------------------------------
// Layout of an event
// ---------------------------------------------------------------------------

/// Bytes of an event, with the padding at its end.
pub const EVENT_SIZE: usize = 4456;

/// The number that bytes stand for, the least significant one first.
pub open spec fn little_endian(bytes: Seq<u8>) -> nat
    decreases bytes.len(),
{
    if bytes.len() == 0 {
        0
    } else {
        bytes[0] as nat + 256 * little_endian(bytes.drop_first())
    }
}

/// The number that `count` bytes from `from` on stand for, the least significant one first or
/// last.
pub open spec fn number_at(data: Seq<u8>, from: int, count: int, little: bool) -> nat {
    let bytes = data.subrange(from, from + count);
    if little {
        little_endian(bytes)
    } else {
        little_endian(bytes.reverse())
    }
}

/// The event has the layout of a C structure: each number at a multiple of its size.
pub open spec fn is_event_in(event: TlsCertEvent, data: Seq<u8>, little: bool) -> bool {
    &&& event.timestamp_ns == number_at(data, 0, 8, little)
    &&& event.src_ip == number_at(data, 8, 4, little)
    &&& event.dst_ip == number_at(data, 12, 4, little)
    &&& event.src_port == number_at(data, 16, 2, little)
    &&& event.dst_port == number_at(data, 18, 2, little)
    &&& event.ip_version == data[20]
    &&& event.tls_version == number_at(data, 22, 2, little)
    &&& event.sni_len == number_at(data, 24, 2, little)
    &&& event.sni@ == data.subrange(26, 282)
    &&& event.fingerprint@ == data.subrange(282, 314)
    &&& event.cert_len == number_at(data, 316, 4, little)
    &&& event.cert_data@ == data.subrange(320, 4416)
    &&& event.chain_depth == data[4416]
    &&& event.issuer_fingerprint@ == data.subrange(4417, 4449)
    &&& event.is_new == data[4449]
}

proof fn lemma_little_endian_bound(bytes: Seq<u8>)
    ensures
        little_endian(bytes) < vstd::arithmetic::power::pow(256, bytes.len()),
    decreases bytes.len(),
{
    reveal(vstd::arithmetic::power::pow);
    if bytes.len() > 0 {
        let rest = bytes.drop_first();
        lemma_little_endian_bound(rest);
        let p = vstd::arithmetic::power::pow(256, rest.len());
        assert(vstd::arithmetic::power::pow(256, bytes.len()) == 256 * p);
    }
}

proof fn lemma_powers_of_256()
    ensures
        vstd::arithmetic::power::pow(256, 2) == 0x1_0000,
        vstd::arithmetic::power::pow(256, 4) == 0x1_0000_0000,
        vstd::arithmetic::power::pow(256, 8) == 0x1_0000_0000_0000_0000,
{
    reveal(vstd::arithmetic::power::pow);
    reveal_with_fuel(vstd::arithmetic::power::pow, 9);
    assert(vstd::arithmetic::power::pow(256, 2) == 0x1_0000);
    assert(vstd::arithmetic::power::pow(256, 4) == 0x1_0000_0000);
    vstd::arithmetic::power::lemma_pow_adds(256, 4, 4);
}

/// The number that `count` bytes from `from` on stand for.
fn read_number(data: &[u8], from: usize, count: usize, little: bool) -> (r: u64)
    requires
        0 < count <= 8,
        from + count <= data@.len(),
    ensures
        r == number_at(data@, from as int, count as int, little),
        r < vstd::arithmetic::power::pow(256, count as nat),
{
    let total: usize = data.len();
    let ghost bytes = data@.subrange(from as int, from + count);
    let ghost ordered = if little {
        bytes
    } else {
        bytes.reverse()
    };
    let mut value: u64 = 0;
    let mut left: usize = count;
    proof {
        lemma_powers_of_256();
        assert(ordered.skip(count as int) =~= Seq::<u8>::empty());
    }
    while left > 0
        invariant
            left <= count <= 8,
            total == data@.len(),
            from + count <= data@.len(),
            bytes == data@.subrange(from as int, from + count),
            ordered == if little {
                bytes
            } else {
                bytes.reverse()
            },
            value == little_endian(ordered.skip(left as int)),
        decreases left,
    {
        left -= 1;
        let b: u8 = if little {
            data[from + left]
        } else {
            data[from + (count - 1 - left)]
        };
        proof {
            let tail = ordered.skip(left as int);
            assert(tail[0] == b);
            assert(tail.drop_first() =~= ordered.skip(left + 1));
            lemma_little_endian_bound(tail);
            lemma_powers_of_256();
            assert(tail.len() <= 8);
            vstd::arithmetic::power::lemma_pow_increases(256, tail.len(), 8);
        }
        value = value * 256 + b as u64;
    }
    proof {
        assert(ordered.skip(0) =~= ordered);
        lemma_little_endian_bound(ordered);
        assert(ordered.len() == count);
    }
    value
}

/// Copies 32 bytes.
fn read_32(data: &[u8], from: usize) -> (r: [u8; 32])
    requires
        from + 32 <= data@.len(),
    ensures
        r@ == data@.subrange(from as int, from + 32),
{
    let total: usize = data.len();
    let mut out: [u8; 32] = [0u8; 32];
    let mut i: usize = 0;
    while i < 32
        invariant
            i <= 32,
            total == data@.len(),
            from + 32 <= data@.len(),
            forall|j: int| 0 <= j < i ==> #[trigger] out@[j] == data@[from + j],
        decreases 32 - i,
    {
        out[i] = data[from + i];
        i += 1;
    }
    assert(out@ =~= data@.subrange(from as int, from + 32));
    out
}

/// Copies the server name of an event.
fn read_sni(data: &[u8]) -> (r: [u8; 256])
    requires
        data@.len() >= EVENT_SIZE,
    ensures
        r@ == data@.subrange(26, 282),
{
    let mut out: [u8; 256] = [0u8; 256];
    let mut i: usize = 0;
    while i < 256
        invariant
            i <= 256,
            data@.len() >= EVENT_SIZE,
            forall|j: int| 0 <= j < i ==> #[trigger] out@[j] == data@[26 + j],
        decreases 256 - i,
    {
        out[i] = data[26 + i];
        i += 1;
    }
    assert(out@ =~= data@.subrange(26, 282));
    out
}

/// Copies the certificate of an event.
fn read_cert_data(data: &[u8]) -> (r: [u8; 4096])
    requires
        data@.len() >= EVENT_SIZE,
    ensures
        r@ == data@.subrange(320, 4416),
{
    let mut out: [u8; 4096] = [0u8; 4096];
    let mut i: usize = 0;
    while i < 4096
        invariant
            i <= 4096,
            data@.len() >= EVENT_SIZE,
            forall|j: int| 0 <= j < i ==> #[trigger] out@[j] == data@[320 + j],
        decreases 4096 - i,
    {
        out[i] = data[320 + i];
        i += 1;
    }
    assert(out@ =~= data@.subrange(320, 4416));
    out
}

/// Reads an event from an item of the kernel's ring buffer, whose numbers have their least
/// significant byte first or last. `None` where the item is too small; what follows the event
/// does not matter.
pub fn read_event(data: &[u8], little: bool) -> (r: Option<TlsCertEvent>)
    ensures
        r is Some <==> data@.len() >= EVENT_SIZE,
        r matches Some(event) ==> is_event_in(event, data@, little),
{
    if data.len() < EVENT_SIZE {
        return None;
    }
    proof {
        lemma_powers_of_256();
    }
    Some(
        TlsCertEvent {
            timestamp_ns: read_number(data, 0, 8, little),
            src_ip: read_number(data, 8, 4, little) as u32,
            dst_ip: read_number(data, 12, 4, little) as u32,
            src_port: read_number(data, 16, 2, little) as u16,
            dst_port: read_number(data, 18, 2, little) as u16,
            ip_version: data[20],
            tls_version: read_number(data, 22, 2, little) as u16,
            sni_len: read_number(data, 24, 2, little) as u16,
            sni: read_sni(data),
            fingerprint: read_32(data, 282),
            cert_len: read_number(data, 316, 4, little) as u32,
            cert_data: read_cert_data(data),
            chain_depth: data[4416],
            issuer_fingerprint: read_32(data, 4417),
            is_new: data[4449],
        },
    )
}

/// An entry of the kernel's action maps.
#[derive(Clone, Copy, Debug, PartialEq, Eq)]
pub struct BpfActionEntry {
    /// Fingerprint of the certificate concerned.
    pub fingerprint: [u8; 32],
    /// 0 alert, 1 renew, 2 protect, 3 isolate.
    pub action: u8,
    /// 0 low, 1 medium, 2 high, 3 critical.
    pub severity: u8,
    /// When the entry was made, in nanoseconds since the Unix epoch.
    pub created_ts: u64,
    /// For protection: fingerprint of the expected certificate.
    pub pinned_fp: [u8; 32],
    /// Bit 0: active. Bit 1: failed.
    pub flags: u8,
}

impl BpfActionEntry {
    /// The bit of an active entry.
    pub const FLAG_ACTIVE: u8 = 1;

    /// The bit of an entry whose execution failed.
    pub const FLAG_FAILED: u8 = 2;

    /// Whether the entry is active: its lowest bit is set.
    pub fn is_active(&self) -> (r: bool)
        ensures
            r == (self.flags & Self::FLAG_ACTIVE != 0),
            r == (self.flags % 2 == 1),
    {
        let flags = self.flags;
        assert((flags & 1 != 0) == (flags % 2 == 1)) by (bit_vector);
        self.flags & Self::FLAG_ACTIVE != 0
    }

    /// Whether execution failed: the second lowest bit is set.
    pub fn is_failed(&self) -> (r: bool)
        ensures
            r == (self.flags & Self::FLAG_FAILED != 0),
            r == ((self.flags / 2) % 2 == 1),
    {
        let flags = self.flags;
        assert((flags & 2 != 0) == ((flags / 2) % 2 == 1)) by (bit_vector);
        self.flags & Self::FLAG_FAILED != 0
    }
}

/// The number of two, four or eight bytes, the least significant first.
proof fn lemma_short_numbers(b: Seq<u8>)
    ensures
        b.len() == 2 ==> little_endian(b) == b[0] + 0x100 * b[1],
        b.len() == 4 ==> little_endian(b) == b[0] + 0x100 * b[1] + 0x1_0000 * b[2] + 0x100_0000
            * b[3],
        b.len() == 8 ==> little_endian(b) == b[0] + 0x100 * b[1] + 0x1_0000 * b[2] + 0x100_0000
            * b[3] + 0x1_0000_0000 * b[4] + 0x100_0000_0000 * b[5] + 0x1_0000_0000_0000 * b[6]
            + 0x100_0000_0000_0000 * b[7],
{
    reveal_with_fuel(little_endian, 9);
}

/// The number that bytes stand for grows by a whole turn of the more significant ones with each
/// byte in front.
pub proof fn numbers_read_byte_by_byte(byte: u8, more: Seq<u8>)
    ensures
        little_endian(seq![byte] + more) == byte + 256 * little_endian(more),
        little_endian(Seq::<u8>::empty()) == 0,
{
    assert((seq![byte] + more).drop_first() =~= more);
}

/// An event is laid out like the C structure of its fields, where the least significant byte of
/// a number comes first.
pub proof fn little_event_by_bytes(event: TlsCertEvent, d: Seq<u8>)
    requires
        d.len() >= 4456,
        is_event_in(event, d, true),
    ensures
        event.timestamp_ns == d[0] + 0x100 * d[1] + 0x1_0000 * d[2] + 0x100_0000 * d[3]
            + 0x1_0000_0000 * d[4] + 0x100_0000_0000 * d[5] + 0x1_0000_0000_0000 * d[6]
            + 0x100_0000_0000_0000 * d[7],
        event.src_ip == d[8] + 0x100 * d[9] + 0x1_0000 * d[10] + 0x100_0000 * d[11],
        event.dst_ip == d[12] + 0x100 * d[13] + 0x1_0000 * d[14] + 0x100_0000 * d[15],
        event.src_port == d[16] + 0x100 * d[17],
        event.dst_port == d[18] + 0x100 * d[19],
        event.tls_version == d[22] + 0x100 * d[23],
        event.sni_len == d[24] + 0x100 * d[25],
        event.cert_len == d[316] + 0x100 * d[317] + 0x1_0000 * d[318] + 0x100_0000 * d[319],
{
    lemma_short_numbers(d.subrange(0, 8));
    lemma_short_numbers(d.subrange(8, 12));
    lemma_short_numbers(d.subrange(12, 16));
    lemma_short_numbers(d.subrange(16, 18));
    lemma_short_numbers(d.subrange(18, 20));
    lemma_short_numbers(d.subrange(22, 24));
    lemma_short_numbers(d.subrange(24, 26));
    lemma_short_numbers(d.subrange(316, 320));
}

/// An event is laid out like the C structure of its fields, where the most significant byte of
/// a number comes first.
pub proof fn big_event_by_bytes(event: TlsCertEvent, d: Seq<u8>)
    requires
        d.len() >= 4456,
        is_event_in(event, d, false),
    ensures
        event.timestamp_ns == d[7] + 0x100 * d[6] + 0x1_0000 * d[5] + 0x100_0000 * d[4]
            + 0x1_0000_0000 * d[3] + 0x100_0000_0000 * d[2] + 0x1_0000_0000_0000 * d[1]
            + 0x100_0000_0000_0000 * d[0],
        event.src_ip == d[11] + 0x100 * d[10] + 0x1_0000 * d[9] + 0x100_0000 * d[8],
        event.dst_ip == d[15] + 0x100 * d[14] + 0x1_0000 * d[13] + 0x100_0000 * d[12],
        event.src_port == d[17] + 0x100 * d[16],
        event.dst_port == d[19] + 0x100 * d[18],
        event.tls_version == d[23] + 0x100 * d[22],
        event.sni_len == d[25] + 0x100 * d[24],
        event.cert_len == d[319] + 0x100 * d[318] + 0x1_0000 * d[317] + 0x100_0000 * d[316],
{
    lemma_short_numbers(d.subrange(0, 8).reverse());
    lemma_short_numbers(d.subrange(8, 12).reverse());
    lemma_short_numbers(d.subrange(12, 16).reverse());
    lemma_short_numbers(d.subrange(16, 18).reverse());
    lemma_short_numbers(d.subrange(18, 20).reverse());
    lemma_short_numbers(d.subrange(22, 24).reverse());
    lemma_short_numbers(d.subrange(24, 26).reverse());
    lemma_short_numbers(d.subrange(316, 320).reverse());
}

/// The single bytes and the runs of bytes of an event stand at their places, whatever the order
/// of bytes in numbers.
pub proof fn event_bytes_in_place(event: TlsCertEvent, d: Seq<u8>, little: bool, i: int)
    requires
        d.len() >= 4456,
        is_event_in(event, d, little),
    ensures
        event.ip_version == d[20],
        event.chain_depth == d[4416],
        event.is_new == d[4449],
        0 <= i < 256 ==> event.sni@[i] == d[26 + i],
        0 <= i < 32 ==> event.fingerprint@[i] == d[282 + i],
        0 <= i < 4096 ==> event.cert_data@[i] == d[320 + i],
        0 <= i < 32 ==> event.issuer_fingerprint@[i] == d[4417 + i],
{
}

} // verus!
