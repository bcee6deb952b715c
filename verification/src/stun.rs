//! The STUN binding request that discovers the public address of the
//! capture socket, and the reading of its reply (RFC 5389).
use vstd::prelude::*;

verus! {

/// The magic cookie of STUN messages.
pub open spec fn magic_cookie() -> Seq<u8> {
    seq![0x21u8, 0x12u8, 0xa4u8, 0x42u8]
}

/// A big-endian 16-bit value.
pub open spec fn be16(hi: u8, lo: u8) -> int {
    hi as int * 256 + lo as int
}

/// The transaction id derived from the local port: the port in big-endian
/// order, then ten zero bytes.
pub open spec fn transaction_id_bytes(port: u16) -> Seq<u8> {
    seq![(port / 256) as u8, (port % 256) as u8] + Seq::new(10, |i: int| 0u8)
}

/// A binding request: type 0x0001, length 0, the magic cookie, then the
/// transaction id.
pub open spec fn binding_request_bytes(txid: Seq<u8>) -> Seq<u8> {
    seq![0u8, 1u8, 0u8, 0u8] + magic_cookie() + txid
}

/// A public IPv4 address and port, as read from XOR-MAPPED-ADDRESS.
#[derive(Debug, Clone, Copy, PartialEq, Eq)]
pub struct MappedAddress {
    pub ip: [u8; 4],
    pub port: u16,
}

/// How reading the attributes of a reply ends.
pub enum AttrWalk {
    /// An IPv4 XOR-MAPPED-ADDRESS with this address and port.
    Found(Seq<u8>, u16),
    /// The attributes end without one.
    Absent,
    /// An XOR-MAPPED-ADDRESS header ends before its family byte.
    Cut,
    /// An IPv4 XOR-MAPPED-ADDRESS ends before its address.
    Truncated,
}

/// The padding that brings an attribute value of `len` bytes to a multiple
/// of four.
pub open spec fn padding(len: int) -> int {
    if len % 4 != 0 {
        4 - len % 4
    } else {
        0
    }
}

/// Reads the attributes from offset `i` on, skipping every attribute but
/// an IPv4 XOR-MAPPED-ADDRESS (type 0x0020, at least 8 value bytes,
/// family 0x01), whose port and address are unmasked with the cookie.
pub open spec fn walk(a: Seq<u8>, i: int) -> AttrWalk
    decreases (if a.len() >= i { a.len() - i } else { 0 }),
{
    if i < 0 || i + 4 > a.len() {
        AttrWalk::Absent
    } else {
        let typ = be16(a[i], a[i + 1]);
        let vlen = be16(a[i + 2], a[i + 3]);
        if typ == 0x20 && vlen >= 8 && i + 5 >= a.len() {
            AttrWalk::Cut
        } else if typ == 0x20 && vlen >= 8 && a[i + 5] == 1 {
            if i + 11 >= a.len() {
                AttrWalk::Truncated
            } else {
                AttrWalk::Found(
                    seq![a[i + 8] ^ 0x21u8, a[i + 9] ^ 0x12u8, a[i + 10] ^ 0xa4u8, a[i + 11] ^ 0x42u8],
                    (be16(a[i + 6], a[i + 7]) as u16) ^ 0x2112u16,
                )
            }
        } else {
            walk(a, i + 4 + vlen + padding(vlen))
        }
    }
}

/// How reading a reply ends: `Absent` (no address) when it is shorter than
/// a header, its cookie or transaction id differ, or its attributes run past
/// its end; else as its attributes are read.
pub open spec fn read_reply(resp: Seq<u8>, txid: Seq<u8>) -> AttrWalk {
    if resp.len() < 20 || resp.subrange(4, 8) != magic_cookie() || resp.subrange(8, 20) != txid {
        AttrWalk::Absent
    } else {
        let alen = be16(resp[2], resp[3]);
        if 20 + alen > resp.len() {
            AttrWalk::Absent
        } else {
            walk(resp.subrange(20, 20 + alen), 0)
        }
    }
}

/// The transaction id for a socket bound to `port`.
pub fn transaction_id(port: u16) -> (r: Vec<u8>)
    ensures
        r@ == transaction_id_bytes(port),
{
    let mut r: Vec<u8> = Vec::new();
    r.push((port / 256) as u8);
    r.push((port % 256) as u8);
    let mut i: usize = 0;
    while i < 10
        invariant
            i <= 10,
            r@ == seq![(port / 256) as u8, (port % 256) as u8] + Seq::new(i as nat, |k: int| 0u8),
        decreases 10 - i,
    {
        r.push(0u8);
        i = i + 1;
        assert(r@ =~= seq![(port / 256) as u8, (port % 256) as u8] + Seq::new(i as nat, |k: int| 0u8));
    }
    r
}

/// The binding request carrying `txid`.
pub fn binding_request(txid: &[u8]) -> (r: Vec<u8>)
    requires
        txid@.len() == 12,
    ensures
        r@ == binding_request_bytes(txid@),
        r@.len() == 20,
{
    let mut r: Vec<u8> = Vec::new();
    r.push(0u8);
    r.push(1u8);
    r.push(0u8);
    r.push(0u8);
    r.push(0x21u8);
    r.push(0x12u8);
    r.push(0xa4u8);
    r.push(0x42u8);
    let mut i: usize = 0;
    while i < txid.len()
        invariant
            i <= txid@.len(),
            r@ == seq![0u8, 1u8, 0u8, 0u8] + magic_cookie() + txid@.take(i as int),
        decreases txid@.len() - i,
    {
        r.push(txid[i]);
        assert(txid@.take(i + 1) =~= txid@.take(i as int).push(txid@[i as int]));
        i = i + 1;
        assert(r@ =~= seq![0u8, 1u8, 0u8, 0u8] + magic_cookie() + txid@.take(i as int));
    }
    assert(txid@.take(i as int) =~= txid@);
    r
}

fn read_be16(hi: u8, lo: u8) -> (r: usize)
    ensures
        r == be16(hi, lo),
{
    (hi as usize) * 256 + (lo as usize)
}

/// Reads the attributes `resp[base .. base + alen]` from offset `start`.
fn walk_attrs(resp: &[u8], base: usize, alen: usize, start: usize) -> (r: (u8, [u8; 4], u16))
    requires
        base + alen <= resp@.len(),
        base <= 20,
        alen <= 65535,
        start <= alen + 65540,
    ensures
        ({
            let w = walk(resp@.subrange(base as int, base + alen), start as int);
            &&& r.0 == 0 ==> w is Absent
            &&& r.0 == 1 ==> w is Cut
            &&& r.0 == 2 ==> w is Truncated
            &&& r.0 == 3 ==> w == AttrWalk::Found(r.1@, r.2)
            &&& r.0 <= 3
        }),
    decreases (if alen >= start { alen - start } else { 0 }),
{
    let ghost a = resp@.subrange(base as int, base + alen);
    let i = start;
    if i + 4 > alen {
        return (0u8, [0u8; 4], 0u16);
    }
    let typ = read_be16(resp[base + i], resp[base + i + 1]);
    let vlen = read_be16(resp[base + i + 2], resp[base + i + 3]);
    assert(a[i as int] == resp@[base + i] && a[i + 1] == resp@[base + i + 1]);
    assert(a[i + 2] == resp@[base + i + 2] && a[i + 3] == resp@[base + i + 3]);
    if typ == 0x20 && vlen >= 8 && i + 5 >= alen {
        return (1u8, [0u8; 4], 0u16);
    }
    if typ == 0x20 && vlen >= 8 && resp[base + i + 5] == 1 {
        assert(a[i + 5] == resp@[base + i + 5]);
        if i + 11 >= alen {
            return (2u8, [0u8; 4], 0u16);
        }
        let p: u16 = (resp[base + i + 6] as u16) * 256 + (resp[base + i + 7] as u16);
        let port: u16 = p ^ 0x2112u16;
        let ip: [u8; 4] = [
            resp[base + i + 8] ^ 0x21u8,
            resp[base + i + 9] ^ 0x12u8,
            resp[base + i + 10] ^ 0xa4u8,
            resp[base + i + 11] ^ 0x42u8,
        ];
        assert(a[i + 6] == resp@[base + i + 6] && a[i + 7] == resp@[base + i + 7]);
        assert(a[i + 8] == resp@[base + i + 8] && a[i + 9] == resp@[base + i + 9]);
        assert(a[i + 10] == resp@[base + i + 10] && a[i + 11] == resp@[base + i + 11]);
        assert(ip@ =~= seq![a[i + 8] ^ 0x21u8, a[i + 9] ^ 0x12u8, a[i + 10] ^ 0xa4u8, a[i + 11] ^ 0x42u8]);
        return (3u8, ip, port);
    }
    if typ == 0x20 && vlen >= 8 {
        assert(a[i + 5] == resp@[base + i + 5]);
    }
    let pad: usize = if vlen % 4 != 0 { 4 - vlen % 4 } else { 0 };
    let next = i + 4 + vlen + pad;
    walk_attrs(resp, base, alen, next)
}

fn matches_at(resp: &[u8], at: usize, expected: &[u8]) -> (r: bool)
    requires
        at + expected@.len() <= resp@.len(),
    ensures
        r == (resp@.subrange(at as int, at + expected@.len()) == expected@),
{
    let rl = resp.len();
    let mut k: usize = 0;
    while k < expected.len()
        invariant
            rl == resp@.len(),
            k <= expected@.len(),
            at + expected@.len() <= resp@.len(),
            forall|j: int| 0 <= j < k ==> resp@[at + j] == expected@[j],
        decreases expected@.len() - k,
    {
        if resp[at + k] != expected[k] {
            assert(resp@.subrange(at as int, at + expected@.len())[k as int] != expected@[k as int]);
            return false;
        }
        k = k + 1;
    }
    assert(resp@.subrange(at as int, at + expected@.len()) =~= expected@);
    true
}

fn read(resp: &[u8], txid: &[u8]) -> (r: (u8, [u8; 4], u16))
    requires
        txid@.len() == 12,
    ensures
        ({
            let w = read_reply(resp@, txid@);
            &&& r.0 == 0 ==> w is Absent
            &&& r.0 == 1 ==> w is Cut
            &&& r.0 == 2 ==> w is Truncated
            &&& r.0 == 3 ==> w == AttrWalk::Found(r.1@, r.2)
            &&& r.0 <= 3
        }),
{
    if resp.len() < 20 {
        return (0u8, [0u8; 4], 0u16);
    }
    let cookie: [u8; 4] = [0x21u8, 0x12u8, 0xa4u8, 0x42u8];
    assert(cookie@ =~= magic_cookie());
    if !matches_at(resp, 4, &cookie) {
        return (0u8, [0u8; 4], 0u16);
    }
    if !matches_at(resp, 8, txid) {
        return (0u8, [0u8; 4], 0u16);
    }
    let alen = read_be16(resp[2], resp[3]);
    if 20 + alen > resp.len() {
        return (0u8, [0u8; 4], 0u16);
    }
    walk_attrs(resp, 20, alen, 0)
}

/// The public address in the reply to a binding request with `txid`, or
/// `None` when the reply is short, does not answer this request, holds no
/// IPv4 XOR-MAPPED-ADDRESS, or is malformed (an attribute that claims more
/// bytes than the reply holds).
pub fn parse_binding_response(resp: &[u8], txid: &[u8]) -> (r: Option<MappedAddress>)
    requires
        txid@.len() == 12,
    ensures
        match read_reply(resp@, txid@) {
            AttrWalk::Found(ip, port) => r matches Some(m) && m.ip@ == ip && m.port == port,
            _ => r is None,
        },
{
    let (kind, ip, port) = read(resp, txid);
    if kind == 3 {
        Some(MappedAddress { ip, port })
    } else {
        None
    }
}

} // verus!

verus! {

/// A binding success reply to the request with `txid` that carries only an
/// IPv4 XOR-MAPPED-ADDRESS of `ip` and `port`.
pub open spec fn mapped_reply(txid: Seq<u8>, ip: Seq<u8>, port: u16) -> Seq<u8> {
    let xp = port ^ 0x2112u16;
    seq![0x01u8, 0x01u8, 0x00u8, 12u8] + magic_cookie() + txid + seq![
        0x00u8,
        0x20u8,
        0x00u8,
        0x08u8,
        0x00u8,
        0x01u8,
        (xp / 256) as u8,
        (xp % 256) as u8,
        ip[0] ^ 0x21u8,
        ip[1] ^ 0x12u8,
        ip[2] ^ 0xa4u8,
        ip[3] ^ 0x42u8,
    ]
}

/// A reply that maps the request to an address is read back as that
/// address: the masking with the cookie is undone exactly.
pub proof fn law_reply_reads_back(txid: Seq<u8>, ip: Seq<u8>, port: u16)
    requires
        txid.len() == 12,
        ip.len() == 4,
    ensures
        read_reply(mapped_reply(txid, ip, port), txid) == AttrWalk::Found(ip, port),
{
    let r = mapped_reply(txid, ip, port);
    let xp = port ^ 0x2112u16;
    assert(r.len() == 32);
    assert(r.subrange(4, 8) =~= magic_cookie());
    assert(r.subrange(8, 20) =~= txid);
    assert(be16(r[2], r[3]) == 12);
    let a = r.subrange(20, 32);
    assert(a[0] == 0 && a[1] == 0x20 && a[2] == 0 && a[3] == 8 && a[5] == 1);
    let hi = (xp / 256) as u8;
    let lo = (xp % 256) as u8;
    assert(a[6] == hi && a[7] == lo);
    assert(be16(hi, lo) == xp);
    assert((xp ^ 0x2112u16) == port) by (bit_vector)
        requires xp == port ^ 0x2112u16;
    let i0 = ip[0];
    let i1 = ip[1];
    let i2 = ip[2];
    let i3 = ip[3];
    assert((i0 ^ 0x21u8) ^ 0x21u8 == i0) by (bit_vector);
    assert((i1 ^ 0x12u8) ^ 0x12u8 == i1) by (bit_vector);
    assert((i2 ^ 0xa4u8) ^ 0xa4u8 == i2) by (bit_vector);
    assert((i3 ^ 0x42u8) ^ 0x42u8 == i3) by (bit_vector);
    assert(a[8] == i0 ^ 0x21u8 && a[9] == i1 ^ 0x12u8 && a[10] == i2 ^ 0xa4u8 && a[11] == i3 ^ 0x42u8);
    assert(seq![a[8] ^ 0x21u8, a[9] ^ 0x12u8, a[10] ^ 0xa4u8, a[11] ^ 0x42u8] =~= ip);
}

} // verus!
