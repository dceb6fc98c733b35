//! The keyboard controller's key bitmask, the two-byte packet that carries
//! it, and how the receiving side turns it into drive inputs.

use vstd::prelude::*;

verus! {

/// The keys that the controller watches.
#[derive(Debug, Clone, Copy, PartialEq, Eq, Structural)]
pub enum Key {
    W,
    A,
    S,
    D,
    Q,
    E,
    R,
    F,
    C,
    Z,
    X,
}

/// The bit of the key mask that reports a key as held down.
pub open spec fn key_bit(k: Key) -> u16 {
    match k {
        Key::W => 0,
        Key::A => 1,
        Key::S => 2,
        Key::D => 3,
        Key::Q => 4,
        Key::E => 5,
        Key::R => 6,
        Key::F => 7,
        Key::C => 8,
        Key::Z => 9,
        Key::X => 10,
    }
}

/// The keys in the order of their bits.
pub open spec fn key_order() -> Seq<Key> {
    seq![Key::W, Key::A, Key::S, Key::D, Key::Q, Key::E, Key::R, Key::F, Key::C, Key::Z, Key::X]
}

/// Whether bit `b` of `bits` is set.
pub open spec fn has_bit(bits: u16, b: u16) -> bool
    recommends
        b < 16,
{
    bits & (1u16 << b) != 0
}

/// Whether a key of the list reports bit `b`.
pub open spec fn some_key_has_bit(pressed: Seq<Key>, b: u16) -> bool {
    exists|i: int| 0 <= i < pressed.len() && key_bit(#[trigger] pressed[i]) == b
}

impl Key {
    /// The bit of this key in the key mask.
    pub fn bit(&self) -> (b: u16)
        ensures
            b == key_bit(*self),
    {
        match self {
            Key::W => 0,
            Key::A => 1,
            Key::S => 2,
            Key::D => 3,
            Key::Q => 4,
            Key::E => 5,
            Key::R => 6,
            Key::F => 7,
            Key::C => 8,
            Key::Z => 9,
            Key::X => 10,
        }
    }
}

/// Every watched key, in the order of their bits.
pub fn all_keys() -> (v: Vec<Key>)
    ensures
        v@ == key_order(),
        forall|i: int| 0 <= i < v@.len() ==> key_bit(#[trigger] v@[i]) == i,
{
    let v = vec![Key::W, Key::A, Key::S, Key::D, Key::Q, Key::E, Key::R, Key::F, Key::C, Key::Z, Key::X];
    assert(v@ =~= key_order());
    v
}

proof fn lemma_bit_basics()
    ensures
        forall|b: u16| b < 16 ==> !has_bit(0u16, b),
        forall|x: u16, k: u16, b: u16|
            k < 16 && b < 16 ==> (#[trigger] has_bit(x | (1u16 << k), b) <==> (has_bit(x, b) || b
                == k)),
{
    assert forall|b: u16| b < 16 implies !has_bit(0u16, b) by {
        assert(0u16 & (1u16 << b) == 0) by (bit_vector);
    }
    assert forall|x: u16, k: u16, b: u16| k < 16 && b < 16 implies (#[trigger] has_bit(
        x | (1u16 << k),
        b,
    ) <==> (has_bit(x, b) || b == k)) by {
        assert(k < 16 && b < 16 ==> (((x | (1u16 << k)) & (1u16 << b) != 0) <==> ((x & (1u16
            << b) != 0) || b == k))) by (bit_vector);
    }
}

/// Whether `bits` is the key mask of the keys in `pressed`.
pub open spec fn is_key_mask(bits: u16, pressed: Seq<Key>) -> bool {
    forall|b: u16| b < 16 ==> (has_bit(bits, b) <==> some_key_has_bit(pressed, b))
}

/// The key mask of the keys held down: bit `b` is set exactly when a key
/// of `pressed` has bit `b`; the bits above the last key stay clear.
pub fn encode_keys(pressed: &[Key]) -> (bits: u16)
    ensures
        is_key_mask(bits, pressed@),
{
    proof {
        lemma_bit_basics();
    }
    let mut bits: u16 = 0;
    let n = pressed.len();
    for i in 0..n
        invariant
            n == pressed@.len(),
            forall|b: u16|
                b < 16 ==> (has_bit(bits, b) <==> exists|j: int|
                    0 <= j < i && key_bit(#[trigger] pressed@[j]) == b),
    {
        let k = pressed[i].bit();
        let ghost old_bits = bits;
        proof {
            lemma_bit_basics();
        }
        bits = bits | (1u16 << k);
        assert forall|b: u16| b < 16 implies (has_bit(bits, b) <==> exists|j: int|
            0 <= j < i + 1 && key_bit(#[trigger] pressed@[j]) == b) by {
            assert(has_bit(old_bits | (1u16 << k), b) == (has_bit(old_bits, b) || b == k));
            if has_bit(bits, b) {
                if b == k {
                    assert(key_bit(pressed@[i as int]) == b);
                }
            }
            if exists|j: int| 0 <= j < i + 1 && key_bit(#[trigger] pressed@[j]) == b {
                let j = choose|j: int| 0 <= j < i + 1 && key_bit(#[trigger] pressed@[j]) == b;
                if j < i {
                    assert(has_bit(old_bits, b));
                }
            }
        }
    }
    bits
}


/// A key mask reports a key as held exactly when the key is in the list it
/// was made from, and never reports the bits above the watched keys.
pub proof fn lemma_key_mask_reports_keys(bits: u16, pressed: Seq<Key>, k: Key)
    requires
        is_key_mask(bits, pressed),
    ensures
        has_bit(bits, key_bit(k)) <==> pressed.contains(k),
        forall|b: u16| 11 <= b < 16 ==> !has_bit(bits, b),
{
    if has_bit(bits, key_bit(k)) {
        let i = choose|i: int| 0 <= i < pressed.len() && key_bit(#[trigger] pressed[i]) == key_bit(
            k,
        );
        assert(pressed[i] == k);
    }
    if pressed.contains(k) {
        let i = choose|i: int| 0 <= i < pressed.len() && pressed[i] == k;
        assert(key_bit(pressed[i]) == key_bit(k));
    }
}

/// What the receiving side reads from a key mask: one value in -1..=1 for
/// each axis, and the mask itself.
#[derive(Debug, Clone, Copy, PartialEq, Eq, Structural)]
pub struct ControllerInput {
    /// D pushes right (+1), A pushes left (-1).
    pub horizontal: i8,
    /// W pushes up (+1), S pushes down (-1).
    pub vertical: i8,
    /// Q drives forward (+1), E backward (-1).
    pub move_power: i8,
    /// R rolls one way (+1), F the other (-1).
    pub roll_power: i8,
    /// The key mask as received.
    pub buttons: u16,
}

/// 1 when bit `b` is set, else 0.
pub open spec fn flag(bits: u16, b: u16) -> int {
    if has_bit(bits, b) {
        1
    } else {
        0
    }
}

/// The axis value of a pair of opposite keys.
pub open spec fn axis(bits: u16, plus: Key, minus: Key) -> int {
    flag(bits, key_bit(plus)) - flag(bits, key_bit(minus))
}

/// The inputs that a key mask stands for.
pub open spec fn input_of(bits: u16) -> ControllerInput {
    ControllerInput {
        horizontal: axis(bits, Key::D, Key::A) as i8,
        vertical: axis(bits, Key::W, Key::S) as i8,
        move_power: axis(bits, Key::Q, Key::E) as i8,
        roll_power: axis(bits, Key::R, Key::F) as i8,
        buttons: bits,
    }
}

/// Whether bit `b` of a key mask is set.
pub fn is_on(bits: u16, b: u16) -> (on: bool)
    requires
        b < 16,
    ensures
        on == has_bit(bits, b),
{
    bits & (1u16 << b) != 0
}

/// Turns a received key mask into drive inputs: opposite keys cancel, and
/// the mask is kept as it came.
pub fn decode_keys(bits: u16) -> (input: ControllerInput)
    ensures
        input == input_of(bits),
{
    let mut horizontal: i8 = 0;
    let mut vertical: i8 = 0;
    if is_on(bits, 1) {
        horizontal -= 1;
    }
    if is_on(bits, 3) {
        horizontal += 1;
    }
    if is_on(bits, 0) {
        vertical += 1;
    }
    if is_on(bits, 2) {
        vertical -= 1;
    }
    let mut move_power: i8 = 0;
    if is_on(bits, 4) {
        move_power += 1;
    }
    if is_on(bits, 5) {
        move_power -= 1;
    }
    let mut roll_power: i8 = 0;
    if is_on(bits, 6) {
        roll_power += 1;
    }
    if is_on(bits, 7) {
        roll_power -= 1;
    }
    ControllerInput { horizontal, vertical, move_power, roll_power, buttons: bits }
}

/// Whether the key mask asks the sensor node for a reading: the W key.
pub fn should_sample_imu(keys: u16) -> (sample: bool)
    ensures
        sample == has_bit(keys, key_bit(Key::W)),
{
    assert(keys & 0x0001 == keys & (1u16 << 0u16)) by (bit_vector);
    keys & 0x0001 != 0
}

/// 1 when the key is in the list, else 0.
pub open spec fn held(pressed: Seq<Key>, k: Key) -> int {
    if pressed.contains(k) {
        1
    } else {
        0
    }
}

/// The controller and the receiver agree on the layout of the key mask:
/// decoding the mask of a set of held keys gives, on each axis, the plus
/// key minus the minus key, and a sensor reading exactly when W is held.
pub proof fn lemma_decode_encoded(bits: u16, pressed: Seq<Key>)
    requires
        is_key_mask(bits, pressed),
    ensures
        input_of(bits).horizontal == held(pressed, Key::D) - held(pressed, Key::A),
        input_of(bits).vertical == held(pressed, Key::W) - held(pressed, Key::S),
        input_of(bits).move_power == held(pressed, Key::Q) - held(pressed, Key::E),
        input_of(bits).roll_power == held(pressed, Key::R) - held(pressed, Key::F),
        input_of(bits).buttons == bits,
        has_bit(bits, key_bit(Key::W)) <==> pressed.contains(Key::W),
{
    lemma_key_mask_reports_keys(bits, pressed, Key::W);
    lemma_key_mask_reports_keys(bits, pressed, Key::A);
    lemma_key_mask_reports_keys(bits, pressed, Key::S);
    lemma_key_mask_reports_keys(bits, pressed, Key::D);
    lemma_key_mask_reports_keys(bits, pressed, Key::Q);
    lemma_key_mask_reports_keys(bits, pressed, Key::E);
    lemma_key_mask_reports_keys(bits, pressed, Key::R);
    lemma_key_mask_reports_keys(bits, pressed, Key::F);
}


/// The two bytes that carry a key mask, low byte first.
pub open spec fn key_packet_bytes(keys: u16) -> Seq<u8> {
    seq![(keys % 256) as u8, (keys / 256) as u8]
}

/// The key mask a packet carries: only a packet of exactly two bytes
/// carries one, low byte first.
pub open spec fn key_packet_value(packet: Seq<u8>) -> Option<u16> {
    if packet.len() == 2 {
        Some((packet[0] + 256 * packet[1]) as u16)
    } else {
        None
    }
}

/// The packet that the controller sends for a key mask.
pub fn encode_key_packet(keys: u16) -> (packet: Vec<u8>)
    ensures
        packet@ == key_packet_bytes(keys),
        packet@.len() == 2,
        packet@[0] == keys % 256,
        packet@[1] == keys / 256,
{
    let mut packet: Vec<u8> = Vec::new();
    packet.push((keys % 256) as u8);
    packet.push((keys / 256) as u8);
    assert(packet@ =~= key_packet_bytes(keys));
    packet
}

/// The key mask in a received packet, if the packet is two bytes long.
pub fn decode_key_packet(packet: &[u8]) -> (keys: Option<u16>)
    ensures
        keys == key_packet_value(packet@),
        keys is Some <==> packet@.len() == 2,
        keys matches Some(v) ==> v % 256 == packet@[0] && v / 256 == packet@[1],
{
    if packet.len() == 2 {
        let lo = packet[0] as u16;
        let hi = packet[1] as u16;
        Some(lo + 256 * hi)
    } else {
        None
    }
}

/// A key mask survives the trip through its packet, and a two-byte packet
/// survives the trip through its key mask.
pub proof fn lemma_key_packet_roundtrip(keys: u16, packet: Seq<u8>)
    ensures
        key_packet_value(key_packet_bytes(keys)) == Some(keys),
        packet.len() == 2 ==> key_packet_bytes(key_packet_value(packet).unwrap()) == packet,
{
    if packet.len() == 2 {
        let v = key_packet_value(packet).unwrap();
        assert(key_packet_bytes(v) =~= packet);
    }
}

/// Holds the latest key mask received since it was last taken.
pub struct KeyLatch {
    latest: Option<u16>,
}

impl View for KeyLatch {
    type V = Option<u16>;

    closed spec fn view(&self) -> Option<u16> {
        self.latest
    }
}

/// What a latch holds after one packet: the packet's key mask if it
/// carries one, else what it held.
pub open spec fn latch_step(held: Option<u16>, packet: Seq<u8>) -> Option<u16> {
    match key_packet_value(packet) {
        Some(k) => Some(k),
        None => held,
    }
}

impl KeyLatch {
    /// A latch that holds nothing.
    pub fn new() -> (l: KeyLatch)
        ensures
            l@ == None::<u16>,
    {
        KeyLatch { latest: None }
    }

    /// Takes in a received packet: a two-byte packet replaces what the latch
    /// holds, any other packet is ignored.
    pub fn receive(&mut self, packet: &[u8])
        ensures
            final(self)@ == latch_step(old(self)@, packet@),
    {
        match decode_key_packet(packet) {
            Some(k) => {
                self.latest = Some(k);
            },
            None => {},
        }
    }

    /// Hands out what the latch holds and empties it.
    pub fn take(&mut self) -> (keys: Option<u16>)
        ensures
            keys == old(self)@,
            final(self)@ == None::<u16>,
    {
        let keys = self.latest;
        self.latest = None;
        keys
    }
}

/// What a latch holds after it took in the packets in order: the last
/// packet of two bytes, or what it held before when there is none.
pub open spec fn latched_after(start: Option<u16>, packets: Seq<Seq<u8>>) -> Option<u16>
    decreases packets.len(),
{
    if packets.len() == 0 {
        start
    } else {
        latch_step(latched_after(start, packets.drop_last()), packets.last())
    }
}

/// The latest well-formed packet wins: once a two-byte packet has been
/// received, packets of other lengths after it do not change what the
/// latch holds.
pub proof fn lemma_latest_packet_wins(start: Option<u16>, packets: Seq<Seq<u8>>, i: int)
    requires
        0 <= i < packets.len(),
        key_packet_value(packets[i]) is Some,
        forall|j: int| i < j < packets.len() ==> key_packet_value(#[trigger] packets[j]) is None,
    ensures
        latched_after(start, packets) == key_packet_value(packets[i]),
    decreases packets.len(),
{
    if i < packets.len() - 1 {
        assert(key_packet_value(packets[packets.len() - 1]) is None);
        lemma_latest_packet_wins(start, packets.drop_last(), i);
    }
}


/// The fixed bit of each key in the mask: W, A, S, D on bits 0 to 3, Q and E
/// on 4 and 5, R and F on 6 and 7, C, Z, X on 8 to 10.
pub proof fn lemma_key_bits_fixed()
    ensures
        key_bit(Key::W) == 0,
        key_bit(Key::A) == 1,
        key_bit(Key::S) == 2,
        key_bit(Key::D) == 3,
        key_bit(Key::Q) == 4,
        key_bit(Key::E) == 5,
        key_bit(Key::R) == 6,
        key_bit(Key::F) == 7,
        key_bit(Key::C) == 8,
        key_bit(Key::Z) == 9,
        key_bit(Key::X) == 10,
        key_order().len() == 11,
        forall|i: int| 0 <= i < 11 ==> key_bit(#[trigger] key_order()[i]) == i,
{
}

/// The mask of a single held key is that key's power of two: 1 for W, 4 for
/// S, 0x20 for E, 0x100 for C, 0x200 for Z, and so on.
pub proof fn lemma_single_key_mask(bits: u16, k: Key)
    requires
        is_key_mask(bits, seq![k]),
    ensures
        k == Key::W ==> bits == 0x0001,
        k == Key::A ==> bits == 0x0002,
        k == Key::S ==> bits == 0x0004,
        k == Key::D ==> bits == 0x0008,
        k == Key::Q ==> bits == 0x0010,
        k == Key::E ==> bits == 0x0020,
        k == Key::R ==> bits == 0x0040,
        k == Key::F ==> bits == 0x0080,
        k == Key::C ==> bits == 0x0100,
        k == Key::Z ==> bits == 0x0200,
        k == Key::X ==> bits == 0x0400,
{
    let kb = key_bit(k);
    assert forall|b: u16| b < 16 implies (has_bit(bits, b) <==> b == kb) by {
        if b == kb {
            assert(key_bit(seq![k][0]) == b);
        }
    }
    assert(forall|b: u16| b < 16 ==> (has_bit(bits, b) <==> b == kb));
    lemma_mask_of_one_bit(bits, kb);
}

proof fn lemma_mask_of_one_bit(bits: u16, kb: u16)
    requires
        kb < 16,
        forall|b: u16| b < 16 ==> (has_bit(bits, b) <==> b == kb),
    ensures
        bits == (1u16 << kb),
        kb == 0 ==> bits == 0x0001,
        kb == 1 ==> bits == 0x0002,
        kb == 2 ==> bits == 0x0004,
        kb == 3 ==> bits == 0x0008,
        kb == 4 ==> bits == 0x0010,
        kb == 5 ==> bits == 0x0020,
        kb == 6 ==> bits == 0x0040,
        kb == 7 ==> bits == 0x0080,
        kb == 8 ==> bits == 0x0100,
        kb == 9 ==> bits == 0x0200,
        kb == 10 ==> bits == 0x0400,
{
    let t = 1u16 << kb;
    assert(has_bit(bits, 0) == has_bit(t, 0) && has_bit(bits, 1) == has_bit(t, 1) && has_bit(
        bits,
        2,
    ) == has_bit(t, 2) && has_bit(bits, 3) == has_bit(t, 3) && has_bit(bits, 4) == has_bit(t, 4)
        && has_bit(bits, 5) == has_bit(t, 5) && has_bit(bits, 6) == has_bit(t, 6) && has_bit(
        bits,
        7,
    ) == has_bit(t, 7) && has_bit(bits, 8) == has_bit(t, 8) && has_bit(bits, 9) == has_bit(t, 9)
        && has_bit(bits, 10) == has_bit(t, 10) && has_bit(bits, 11) == has_bit(t, 11) && has_bit(
        bits,
        12,
    ) == has_bit(t, 12) && has_bit(bits, 13) == has_bit(t, 13) && has_bit(bits, 14) == has_bit(
        t,
        14,
    ) && has_bit(bits, 15) == has_bit(t, 15)) by {
        assert(forall|b: u16| b < 16 ==> (has_bit(t, b) <==> b == kb)) by {
            assert forall|b: u16| b < 16 implies (has_bit(t, b) <==> b == kb) by {
                assert(b < 16 && kb < 16 ==> (((1u16 << kb) & (1u16 << b) != 0) <==> b == kb))
                    by (bit_vector);
            }
        }
    }
    assert(((bits & (1u16 << 0u16) != 0) == (t & (1u16 << 0u16) != 0) && (bits & (1u16 << 1u16)
        != 0) == (t & (1u16 << 1u16) != 0) && (bits & (1u16 << 2u16) != 0) == (t & (1u16 << 2u16)
        != 0) && (bits & (1u16 << 3u16) != 0) == (t & (1u16 << 3u16) != 0) && (bits & (1u16
        << 4u16) != 0) == (t & (1u16 << 4u16) != 0) && (bits & (1u16 << 5u16) != 0) == (t & (1u16
        << 5u16) != 0) && (bits & (1u16 << 6u16) != 0) == (t & (1u16 << 6u16) != 0) && (bits & (1u16
        << 7u16) != 0) == (t & (1u16 << 7u16) != 0) && (bits & (1u16 << 8u16) != 0) == (t & (1u16
        << 8u16) != 0) && (bits & (1u16 << 9u16) != 0) == (t & (1u16 << 9u16) != 0) && (bits & (1u16
        << 10u16) != 0) == (t & (1u16 << 10u16) != 0) && (bits & (1u16 << 11u16) != 0) == (t & (1u16
        << 11u16) != 0) && (bits & (1u16 << 12u16) != 0) == (t & (1u16 << 12u16) != 0) && (bits & (
        1u16 << 13u16) != 0) == (t & (1u16 << 13u16) != 0) && (bits & (1u16 << 14u16) != 0) == (t & (
        1u16 << 14u16) != 0) && (bits & (1u16 << 15u16) != 0) == (t & (1u16 << 15u16) != 0)) ==> bits
        == t) by (bit_vector);
    assert(kb == 0 ==> (1u16 << kb) == 0x0001) by (bit_vector);
    assert(kb == 1 ==> (1u16 << kb) == 0x0002) by (bit_vector);
    assert(kb == 2 ==> (1u16 << kb) == 0x0004) by (bit_vector);
    assert(kb == 3 ==> (1u16 << kb) == 0x0008) by (bit_vector);
    assert(kb == 4 ==> (1u16 << kb) == 0x0010) by (bit_vector);
    assert(kb == 5 ==> (1u16 << kb) == 0x0020) by (bit_vector);
    assert(kb == 6 ==> (1u16 << kb) == 0x0040) by (bit_vector);
    assert(kb == 7 ==> (1u16 << kb) == 0x0080) by (bit_vector);
    assert(kb == 8 ==> (1u16 << kb) == 0x0100) by (bit_vector);
    assert(kb == 9 ==> (1u16 << kb) == 0x0200) by (bit_vector);
    assert(kb == 10 ==> (1u16 << kb) == 0x0400) by (bit_vector);
}

/// 1 when `bits` has a bit of `mask` set, else 0.
pub open spec fn masked(bits: u16, mask: u16) -> int {
    if bits & mask != 0 {
        1
    } else {
        0
    }
}

/// How a received mask drives the robot, bit by bit: 0x08 (D) minus 0x02
/// (A) steers, 0x01 (W) minus 0x04 (S) tilts, 0x10 (Q) minus 0x20 (E)
/// drives, 0x40 (R) minus 0x80 (F) rolls, and the mask is kept as it came.
pub proof fn lemma_decode_keys_bits(bits: u16)
    ensures
        input_of(bits).horizontal == masked(bits, 0x08) - masked(bits, 0x02),
        input_of(bits).vertical == masked(bits, 0x01) - masked(bits, 0x04),
        input_of(bits).move_power == masked(bits, 0x10) - masked(bits, 0x20),
        input_of(bits).roll_power == masked(bits, 0x40) - masked(bits, 0x80),
        input_of(bits).buttons == bits,
        has_bit(bits, key_bit(Key::W)) <==> bits & 0x01 != 0,
{
    assert((bits & (1u16 << 0u16) != 0) == (bits & 0x01 != 0) && (bits & (1u16 << 1u16) != 0) == (
    bits & 0x02 != 0) && (bits & (1u16 << 2u16) != 0) == (bits & 0x04 != 0) && (bits & (1u16
        << 3u16) != 0) == (bits & 0x08 != 0) && (bits & (1u16 << 4u16) != 0) == (bits & 0x10 != 0)
        && (bits & (1u16 << 5u16) != 0) == (bits & 0x20 != 0) && (bits & (1u16 << 6u16) != 0) == (
    bits & 0x40 != 0) && (bits & (1u16 << 7u16) != 0) == (bits & 0x80 != 0)) by (bit_vector);
}

/// A key packet is little-endian: its first byte is the low byte of the
/// mask and its second the high byte, on both the sending and the
/// receiving side.
pub proof fn lemma_key_packet_little_endian(keys: u16, packet: Seq<u8>)
    ensures
        key_packet_bytes(keys).len() == 2,
        key_packet_bytes(keys)[0] == keys % 256,
        key_packet_bytes(keys)[1] == keys / 256,
        key_packet_value(packet) is Some <==> packet.len() == 2,
        key_packet_value(packet) matches Some(v) ==> v % 256 == packet[0] && v / 256 == packet[1],
{
}

} // verus!
