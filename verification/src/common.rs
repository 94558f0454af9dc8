//! The magic-packet validator and the hardware address it extracts.

use vstd::prelude::*;

verus! {

/// Number of bytes in a hardware address, and in one block of a magic packet.
pub const MAC_LEN: usize = 6;

/// Shortest magic packet: the synchronization block and sixteen repetitions
/// of the target address.
pub const MIN_WOL_PAYLOAD_LEN: usize = 102;

/// The synchronization pattern that opens every magic packet. It is also the
/// link-layer broadcast address.
pub const BROADCAST_MAC: [u8; 6] = [0xff, 0xff, 0xff, 0xff, 0xff, 0xff];

/// A 48-bit hardware address, most significant octet first.
#[derive(Clone, Copy, Debug, PartialEq, Eq, Structural, Hash)]
pub struct MacAddr(pub u8, pub u8, pub u8, pub u8, pub u8, pub u8);

impl MacAddr {
    /// The six octets in transmission order.
    pub open spec fn octets(self) -> Seq<u8> {
        seq![self.0, self.1, self.2, self.3, self.4, self.5]
    }

    /// The address as one number; distinct addresses have distinct keys.
    pub open spec fn key(self) -> u64 {
        (self.0 as u64 * 0x100_0000_0000 + self.1 as u64 * 0x1_0000_0000 + self.2 as u64
            * 0x100_0000 + self.3 as u64 * 0x1_0000 + self.4 as u64 * 0x100
            + self.5 as u64) as u64
    }

    /// Whether every octet is `0xff`.
    pub open spec fn spec_is_broadcast(&self) -> bool {
        self.octets() == sync_pattern()
    }

    /// The address with the given octets, first octet first.
    pub fn new(a: u8, b: u8, c: u8, d: u8, e: u8, f: u8) -> (mac: MacAddr)
        ensures
            mac == MacAddr(a, b, c, d, e, f),
    {
        MacAddr(a, b, c, d, e, f)
    }

    /// The link-layer broadcast address `ff:ff:ff:ff:ff:ff`.
    pub fn broadcast() -> (mac: MacAddr)
        ensures
            mac.spec_is_broadcast(),
            mac == MacAddr(0xff, 0xff, 0xff, 0xff, 0xff, 0xff),
    {
        MacAddr(0xff, 0xff, 0xff, 0xff, 0xff, 0xff)
    }

    /// Whether this is the broadcast address.
    #[verifier::when_used_as_spec(spec_is_broadcast)]
    pub fn is_broadcast(&self) -> (b: bool)
        ensures
            b == self.spec_is_broadcast(),
    {
        self.0 == 0xff && self.1 == 0xff && self.2 == 0xff && self.3 == 0xff && self.4 == 0xff
            && self.5 == 0xff
    }

    /// The six octets as an array.
    pub fn get_octets(&self) -> (o: [u8; 6])
        ensures
            o@ == self.octets(),
    {
        [self.0, self.1, self.2, self.3, self.4, self.5]
    }

    /// Packs the address into the low 48 bits of a `u64`.
    pub fn to_key(&self) -> (k: u64)
        ensures
            k == self.key(),
            k < 0x1_0000_0000_0000,
    {
        self.0 as u64 * 0x100_0000_0000 + self.1 as u64 * 0x1_0000_0000 + self.2 as u64
            * 0x100_0000 + self.3 as u64 * 0x1_0000 + self.4 as u64 * 0x100 + self.5 as u64
    }
}

/// Two addresses with the same key are the same address.
pub proof fn lemma_mac_key_injective(a: MacAddr, b: MacAddr)
    requires
        a.key() == b.key(),
    ensures
        a == b,
{
    let ra4: int = a.4 * 0x100 + a.5;
    let rb4: int = b.4 * 0x100 + b.5;
    let ra3: int = a.3 * 0x1_0000 + ra4;
    let rb3: int = b.3 * 0x1_0000 + rb4;
    let ra2: int = a.2 * 0x100_0000 + ra3;
    let rb2: int = b.2 * 0x100_0000 + rb3;
    let ra1: int = a.1 * 0x1_0000_0000 + ra2;
    let rb1: int = b.1 * 0x1_0000_0000 + rb2;
    assert(a.key() == a.0 * 0x100_0000_0000 + ra1);
    assert(b.key() == b.0 * 0x100_0000_0000 + rb1);
    assert(a.0 == b.0 && ra1 == rb1);
    assert(a.1 == b.1 && ra2 == rb2);
    assert(a.2 == b.2 && ra3 == rb3);
    assert(a.3 == b.3 && ra4 == rb4);
}

/// Six bytes of `0xff`.
pub open spec fn sync_pattern() -> Seq<u8> {
    seq![0xffu8, 0xffu8, 0xffu8, 0xffu8, 0xffu8, 0xffu8]
}

/// Number of complete six-byte blocks in a payload. A shorter group of bytes
/// at the end belongs to no block.
pub open spec fn block_count(payload: Seq<u8>) -> int {
    payload.len() as int / 6
}

/// The `k`-th six-byte block of a payload.
pub open spec fn block(payload: Seq<u8>, k: int) -> Seq<u8> {
    payload.subrange(6 * k, 6 * k + 6)
}

/// A payload is a magic packet when it has at least 102 bytes, its first
/// block is the synchronization pattern, and every later block repeats
/// block 1.
pub open spec fn is_magic_packet(payload: Seq<u8>) -> bool {
    &&& payload.len() >= 102
    &&& block(payload, 0) == sync_pattern()
    &&& forall|k: int|
        2 <= k < block_count(payload) ==> #[trigger] block(payload, k) == block(payload, 1)
}

/// The address a magic packet is meant to wake: its block 1.
pub open spec fn target_mac(payload: Seq<u8>) -> MacAddr {
    MacAddr(payload[6], payload[7], payload[8], payload[9], payload[10], payload[11])
}

/// The same rule byte by byte: the first six bytes are `0xff`, and every byte
/// of a complete block from block 2 on equals the byte of block 1 at the same
/// offset.
pub open spec fn is_magic_packet_bytewise(payload: Seq<u8>) -> bool {
    &&& payload.len() >= 102
    &&& forall|i: int| 0 <= i < 6 ==> payload[i] == 0xff
    &&& forall|i: int|
        12 <= i < 6 * block_count(payload) ==> #[trigger] payload[i] == payload[6 + i % 6]
}

/// The block-wise and the byte-wise statement of the rule agree.
pub proof fn lemma_magic_packet_bytewise(payload: Seq<u8>)
    ensures
        is_magic_packet(payload) <==> is_magic_packet_bytewise(payload),
{
    if payload.len() >= 102 {
        let n = block_count(payload);
        if is_magic_packet(payload) {
            assert forall|i: int| 0 <= i < 6 implies payload[i] == 0xff by {
                assert(block(payload, 0)[i] == payload[i]);
                assert(sync_pattern()[i] == 0xff);
            }
            assert forall|i: int| 12 <= i < 6 * n implies #[trigger] payload[i] == payload[6 + i
                % 6] by {
                let k = i / 6;
                let j = i % 6;
                assert(block(payload, k) == block(payload, 1));
                assert(block(payload, k)[j] == payload[6 * k + j]);
                assert(block(payload, 1)[j] == payload[6 + j]);
            }
        }
        if is_magic_packet_bytewise(payload) {
            assert(block(payload, 0) =~= sync_pattern());
            assert forall|k: int| 2 <= k < n implies #[trigger] block(payload, k) == block(
                payload,
                1,
            ) by {
                assert forall|j: int| 0 <= j < 6 implies block(payload, k)[j] == block(
                    payload,
                    1,
                )[j] by {
                    let i = 6 * k + j;
                    assert(payload[i] == payload[6 + i % 6]);
                }
                assert(block(payload, k) =~= block(payload, 1));
            }
        }
    }
}

/// Decides whether `payload` is a Wake-on-LAN magic packet.
pub fn check_wol_payload(payload: &[u8]) -> (valid: bool)
    ensures
        valid == is_magic_packet(payload@),
{
    let len: usize = payload.len();
    if len < MIN_WOL_PAYLOAD_LEN {
        return false;
    }
    let mut i: usize = 0;
    while i < MAC_LEN
        invariant
            i <= 6,
            len == payload@.len(),
            len >= 102,
            forall|j: int| 0 <= j < i ==> payload@[j] == 0xff,
        decreases 6 - i,
    {
        if payload[i] != BROADCAST_MAC[i] {
            proof {
                lemma_magic_packet_bytewise(payload@);
            }
            return false;
        }
        i += 1;
    }
    let end: usize = (len / MAC_LEN) * MAC_LEN;
    let mut i: usize = 2 * MAC_LEN;
    while i < end
        invariant
            12 <= i,
            len == payload@.len(),
            len >= 102,
            end == 6 * block_count(payload@),
            end <= len,
            forall|j: int| 0 <= j < 6 ==> payload@[j] == 0xff,
            forall|j: int| 12 <= j < i ==> #[trigger] payload@[j] == payload@[6 + j % 6],
        decreases end - i,
    {
        if payload[i] != payload[MAC_LEN + i % MAC_LEN] {
            proof {
                lemma_magic_packet_bytewise(payload@);
                assert(payload@[i as int] != payload@[6 + (i as int) % 6]);
            }
            return false;
        }
        i += 1;
    }
    proof {
        lemma_magic_packet_bytewise(payload@);
    }
    true
}

/// Reads the target address, block 1, out of a payload.
pub fn wol_payload_get_target_mac(payload: &[u8]) -> (mac: MacAddr)
    requires
        payload@.len() >= 12,
    ensures
        mac == target_mac(payload@),
        mac.octets() == block(payload@, 1),
{
    MacAddr(payload[6], payload[7], payload[8], payload[9], payload[10], payload[11])
}

/// Validates `payload` and, when it is a magic packet, returns the address it
/// targets.
pub fn parse_wol_payload(payload: &[u8]) -> (target: Option<MacAddr>)
    ensures
        target == (if is_magic_packet(payload@) {
            Some(target_mac(payload@))
        } else {
            None
        }),
{
    if check_wol_payload(payload) {
        Some(wol_payload_get_target_mac(payload))
    } else {
        None
    }
}

/// A payload of fewer than 102 bytes is no magic packet.
pub proof fn lemma_short_payload_invalid(payload: Seq<u8>)
    requires
        payload.len() < 102,
    ensures
        !is_magic_packet(payload),
{
}

/// A payload whose first block differs from the synchronization pattern is
/// no magic packet.
pub proof fn lemma_wrong_sync_invalid(payload: Seq<u8>)
    requires
        block(payload, 0) != sync_pattern(),
    ensures
        !is_magic_packet(payload),
{
}

/// A payload of at least 102 bytes that opens with the synchronization
/// pattern and repeats block 1 in every later block is a magic packet, and
/// its target is block 1.
pub proof fn lemma_repeated_blocks_valid(payload: Seq<u8>)
    requires
        payload.len() >= 102,
        block(payload, 0) == sync_pattern(),
        forall|k: int|
            2 <= k < block_count(payload) ==> #[trigger] block(payload, k) == block(payload, 1),
    ensures
        is_magic_packet(payload),
        target_mac(payload).octets() == block(payload, 1),
{
}

/// Bytes after the last complete block do not matter: cutting them off
/// changes neither the verdict nor the target.
pub proof fn lemma_trailing_bytes_ignored(payload: Seq<u8>)
    requires
        payload.len() >= 12,
    ensures
        is_magic_packet(payload) == is_magic_packet(payload.take(6 * block_count(payload))),
        target_mac(payload) == target_mac(payload.take(6 * block_count(payload))),
{
    let n = block_count(payload);
    let cut = payload.take(6 * n);
    assert(block_count(cut) == n);
    lemma_magic_packet_bytewise(payload);
    lemma_magic_packet_bytewise(cut);
    if payload.len() >= 102 {
        assert(cut.len() >= 102);
        if is_magic_packet_bytewise(payload) {
            assert forall|i: int| 12 <= i < 6 * n implies #[trigger] cut[i] == cut[6 + i % 6] by {
                assert(payload[i] == payload[6 + i % 6]);
            }
            assert forall|i: int| 0 <= i < 6 implies cut[i] == 0xff by {
                assert(payload[i] == 0xff);
            }
        }
        if is_magic_packet_bytewise(cut) {
            assert forall|i: int| 12 <= i < 6 * n implies #[trigger] payload[i] == payload[6 + i
                % 6] by {
                assert(cut[i] == cut[6 + i % 6]);
            }
            assert forall|i: int| 0 <= i < 6 implies payload[i] == 0xff by {
                assert(cut[i] == 0xff);
            }
        }
    }
}

} // verus!
