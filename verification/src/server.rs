//! WebSocket frames, the opening handshake, and the worker pool's limit.
use vstd::prelude::*;
use base64::Engine;
use crypto::digest::Digest;
use crate::text::{copy_bytes, decimal, push_decimal, push_str, utf8};

verus! {

// ---------------------------------------------------------------------------
// Opcodes
// ---------------------------------------------------------------------------

/// What a frame carries.
#[derive(Copy, Clone, Debug, PartialEq, Eq, Structural)]
#[non_exhaustive]
pub enum Opcode {
    Fragment,
    Text,
    Binary,
    Close,
    Ping,
    Pong,
    Unknown,
}

/// The number an opcode is written as.
pub open spec fn opcode_value(op: Opcode) -> u8 {
    match op {
        Opcode::Fragment => 0,
        Opcode::Text => 1,
        Opcode::Binary => 2,
        Opcode::Close => 8,
        Opcode::Ping => 9,
        Opcode::Pong => 10,
        Opcode::Unknown => 16,
    }
}

/// The opcode a number stands for.
pub open spec fn opcode_of(value: u8) -> Opcode {
    if value == 0 {
        Opcode::Fragment
    } else if value == 1 {
        Opcode::Text
    } else if value == 2 {
        Opcode::Binary
    } else if value == 8 {
        Opcode::Close
    } else if value == 9 {
        Opcode::Ping
    } else if value == 10 {
        Opcode::Pong
    } else {
        Opcode::Unknown
    }
}

/// The name an opcode is shown by.
pub open spec fn opcode_name(op: Opcode) -> Seq<char> {
    match op {
        Opcode::Fragment => "Fragment"@,
        Opcode::Text => "Text"@,
        Opcode::Binary => "Binary"@,
        Opcode::Close => "Close"@,
        Opcode::Ping => "Ping"@,
        Opcode::Pong => "Pong"@,
        Opcode::Unknown => "Unknown"@,
    }
}

impl From<u8> for Opcode {
    fn from(value: u8) -> (r: Self) {
        match value {
            0 => Opcode::Fragment,
            1 => Opcode::Text,
            2 => Opcode::Binary,
            8 => Opcode::Close,
            9 => Opcode::Ping,
            10 => Opcode::Pong,
            _ => Opcode::Unknown,
        }
    }
}

impl vstd::std_specs::convert::FromSpecImpl<u8> for Opcode {
    open spec fn obeys_from_spec() -> bool {
        true
    }

    open spec fn from_spec(v: u8) -> Opcode {
        opcode_of(v)
    }
}

impl Opcode {
    /// The number the opcode is written as.
    pub fn value(self) -> (r: u8)
        ensures
            r == opcode_value(self),
    {
        match self {
            Opcode::Fragment => 0,
            Opcode::Text => 1,
            Opcode::Binary => 2,
            Opcode::Close => 8,
            Opcode::Ping => 9,
            Opcode::Pong => 10,
            Opcode::Unknown => 16,
        }
    }

    /// The name the opcode is shown by.
    pub fn to_string(&self) -> (r: String)
        ensures
            r@ == opcode_name(*self),
    {
        match self {
            Opcode::Fragment => "Fragment".to_owned(),
            Opcode::Text => "Text".to_owned(),
            Opcode::Binary => "Binary".to_owned(),
            Opcode::Close => "Close".to_owned(),
            Opcode::Ping => "Ping".to_owned(),
            Opcode::Pong => "Pong".to_owned(),
            Opcode::Unknown => "Unknown".to_owned(),
        }
    }
}

/// Every opcode but `Unknown` is read back from the number it is written as.
pub proof fn lemma_opcode_round_trip(op: Opcode)
    requires
        op != Opcode::Unknown,
    ensures
        opcode_of(opcode_value(op)) == op,
        opcode_value(op) < 16,
{
}

// ---------------------------------------------------------------------------
// Bits and big-endian numbers
// ---------------------------------------------------------------------------

/// The bits of a byte, the highest first.
pub open spec fn bit(byte: u8, i: int) -> bool {
    byte & (0x80u8 >> (i as u8)) != 0
}

/// The number that bits stand for, the highest first.
pub open spec fn bits_value(s: Seq<bool>) -> nat
    decreases s.len(),
{
    if s.len() == 0 {
        0
    } else {
        bits_value(s.drop_last()) * 2 + (if s.last() { 1nat } else { 0nat })
    }
}

/// The number that bytes stand for, the highest first.
pub open spec fn be_value(s: Seq<u8>) -> nat
    decreases s.len(),
{
    if s.len() == 0 {
        0
    } else {
        be_value(s.drop_last()) * 256 + s.last() as nat
    }
}

/// The eight bytes of a number, the highest first.
pub open spec fn be8(n: u64) -> Seq<u8> {
    seq![
        (n >> 56u64) as u8,
        (n >> 48u64) as u8,
        (n >> 40u64) as u8,
        (n >> 32u64) as u8,
        (n >> 24u64) as u8,
        (n >> 16u64) as u8,
        (n >> 8u64) as u8,
        n as u8,
    ]
}

/// The eight bits of a byte, the highest first.
pub open spec fn byte_bits(byte: u8) -> Seq<bool> {
    Seq::new(8, |i: int| bit(byte, i))
}

fn into_bits(byte: u8) -> (r: [bool; 8])
    ensures
        forall|i: int| 0 <= i < 8 ==> r@[i] == #[trigger] bit(byte, i),
        r@ == byte_bits(byte),
{
    let mut bits: [bool; 8] = [false; 8];
    let mut i: usize = 0;
    while i < 8
        invariant
            i <= 8,
            forall|k: int| 0 <= k < i ==> bits@[k] == #[trigger] bit(byte, k),
        decreases 8 - i,
    {
        let check: u8 = 0b10000000u8 >> (i as u8);
        let b: u8 = byte & check;
        bits[i] = b != 0;
        i += 1;
    }
    assert(bits@ =~= byte_bits(byte));
    bits
}

fn from_bits(bits: &[bool]) -> (r: u8)
    requires
        bits@.len() <= 8,
    ensures
        r == bits_value(bits@),
{
    let mut byte: u8 = 0;
    let mut i: usize = 0;
    while i < bits.len()
        invariant
            i <= bits@.len() <= 8,
            byte == bits_value(bits@.take(i as int)),
            byte < pow2_nat(i as nat),
        decreases bits@.len() - i,
    {
        assert(bits@.take(i + 1).drop_last() =~= bits@.take(i as int));
        proof {
            lemma_pow2_step(i as nat);
            if i + 1 <= 8 {
                lemma_pow2_le_256(i as nat + 1);
            }
        }
        byte = byte * 2 + if bits[i] { 1u8 } else { 0u8 };
        i += 1;
    }
    assert(bits@.take(bits@.len() as int) =~= bits@);
    byte
}

pub open spec fn pow2_nat(n: nat) -> nat
    decreases n,
{
    if n == 0 {
        1
    } else {
        2 * pow2_nat((n - 1) as nat)
    }
}

proof fn lemma_pow2_step(n: nat)
    ensures
        pow2_nat(n + 1) == 2 * pow2_nat(n),
{
}

proof fn lemma_pow2_le_256(n: nat)
    requires
        n <= 8,
    ensures
        pow2_nat(n) <= 256,
    decreases 8 - n,
{
    if n == 8 {
        reveal_with_fuel(pow2_nat, 9);
    } else {
        lemma_pow2_le_256(n + 1);
        lemma_pow2_step(n);
    }
}

/// The eight bytes of a number, the highest first, as `u64::to_be_bytes` gives them.
pub(crate) fn be_bytes(n: u64) -> (r: Vec<u8>)
    ensures
        r@ == be8(n),
{
    let mut v: Vec<u8> = Vec::new();
    v.push((n >> 56u64) as u8);
    v.push((n >> 48u64) as u8);
    v.push((n >> 40u64) as u8);
    v.push((n >> 32u64) as u8);
    v.push((n >> 24u64) as u8);
    v.push((n >> 16u64) as u8);
    v.push((n >> 8u64) as u8);
    v.push(n as u8);
    assert(v@ =~= be8(n));
    v
}

/// The eight bytes of a number stand for that number.
pub proof fn lemma_be8_value(n: u64)
    ensures
        be_value(be8(n)) == n,
{
    let s = be8(n);
    reveal_with_fuel(be_value, 9);
    assert(s.drop_last().drop_last().drop_last().drop_last().drop_last().drop_last().drop_last().drop_last() =~= Seq::<u8>::empty());
    let b0 = ((n >> 56u64) as u8) as u64;
    let b1 = ((n >> 48u64) as u8) as u64;
    let b2 = ((n >> 40u64) as u8) as u64;
    let b3 = ((n >> 32u64) as u8) as u64;
    let b4 = ((n >> 24u64) as u8) as u64;
    let b5 = ((n >> 16u64) as u8) as u64;
    let b6 = ((n >> 8u64) as u8) as u64;
    let b7 = (n as u8) as u64;
    assert(b0 * 0x100000000000000 + b1 * 0x1000000000000 + b2 * 0x10000000000 + b3 * 0x100000000
        + b4 * 0x1000000 + b5 * 0x10000 + b6 * 0x100 + b7 == n) by (bit_vector)
        requires
            b0 == ((n >> 56u64) as u8) as u64,
            b1 == ((n >> 48u64) as u8) as u64,
            b2 == ((n >> 40u64) as u8) as u64,
            b3 == ((n >> 32u64) as u8) as u64,
            b4 == ((n >> 24u64) as u8) as u64,
            b5 == ((n >> 16u64) as u8) as u64,
            b6 == ((n >> 8u64) as u8) as u64,
            b7 == (n as u8) as u64,
    ;
}


pub open spec fn b2n(x: bool) -> nat {
    if x { 1 } else { 0 }
}

proof fn lemma_bits_value_step(s: Seq<bool>, x: bool)
    ensures
        bits_value(s.push(x)) == bits_value(s) * 2 + b2n(x),
{
    assert(s.push(x).drop_last() =~= s);
}

proof fn lemma_bits_value_4(x0: bool, x1: bool, x2: bool, x3: bool)
    ensures
        bits_value(seq![x0, x1, x2, x3]) == b2n(x0) * 8 + b2n(x1) * 4 + b2n(x2) * 2 + b2n(x3),
{
    let e = Seq::<bool>::empty();
    assert(bits_value(e) == 0);
    lemma_bits_value_step(e, x0);
    lemma_bits_value_step(e.push(x0), x1);
    lemma_bits_value_step(e.push(x0).push(x1), x2);
    lemma_bits_value_step(e.push(x0).push(x1).push(x2), x3);
    assert(seq![x0, x1, x2, x3] =~= e.push(x0).push(x1).push(x2).push(x3));
}

proof fn lemma_bits_value_7(x1: bool, x2: bool, x3: bool, x4: bool, x5: bool, x6: bool, x7: bool)
    ensures
        bits_value(seq![x1, x2, x3, x4, x5, x6, x7]) == b2n(x1) * 64 + b2n(x2) * 32 + b2n(x3) * 16
            + b2n(x4) * 8 + b2n(x5) * 4 + b2n(x6) * 2 + b2n(x7),
{
    let e = Seq::<bool>::empty();
    lemma_bits_value_step(e, x1);
    lemma_bits_value_step(e.push(x1), x2);
    lemma_bits_value_step(e.push(x1).push(x2), x3);
    lemma_bits_value_step(e.push(x1).push(x2).push(x3), x4);
    lemma_bits_value_step(e.push(x1).push(x2).push(x3).push(x4), x5);
    lemma_bits_value_step(e.push(x1).push(x2).push(x3).push(x4).push(x5), x6);
    lemma_bits_value_step(e.push(x1).push(x2).push(x3).push(x4).push(x5).push(x6), x7);
    assert(seq![x1, x2, x3, x4, x5, x6, x7] =~= e.push(x1).push(x2).push(x3).push(x4).push(x5).push(x6).push(x7));
}

proof fn lemma_bits_of_byte(b: u8)
    ensures
        bit(b, 0) == (b & 0x80 != 0),
        bit(b, 1) == (b & 0x40 != 0),
        bit(b, 2) == (b & 0x20 != 0),
        bit(b, 3) == (b & 0x10 != 0),
        bit(b, 4) == (b & 0x08 != 0),
        bit(b, 5) == (b & 0x04 != 0),
        bit(b, 6) == (b & 0x02 != 0),
        bit(b, 7) == (b & 0x01 != 0),
{
    assert(bit(b, 0) == (b & 0x80 != 0)) by (bit_vector);
    assert(bit(b, 1) == (b & 0x40 != 0)) by (bit_vector);
    assert(bit(b, 2) == (b & 0x20 != 0)) by (bit_vector);
    assert(bit(b, 3) == (b & 0x10 != 0)) by (bit_vector);
    assert(bit(b, 4) == (b & 0x08 != 0)) by (bit_vector);
    assert(bit(b, 5) == (b & 0x04 != 0)) by (bit_vector);
    assert(bit(b, 6) == (b & 0x02 != 0)) by (bit_vector);
    assert(bit(b, 7) == (b & 0x01 != 0)) by (bit_vector);
}

proof fn lemma_low_bits(b: u8)
    ensures
        bits_value(seq![bit(b, 4), bit(b, 5), bit(b, 6), bit(b, 7)]) == (b & 0x0f) as nat,
        bits_value(seq![bit(b, 1), bit(b, 2), bit(b, 3), bit(b, 4), bit(b, 5), bit(b, 6), bit(b, 7)])
            == (b & 0x7f) as nat,
{
    lemma_bits_of_byte(b);
    lemma_bits_value_4(bit(b, 4), bit(b, 5), bit(b, 6), bit(b, 7));
    lemma_bits_value_7(bit(b, 1), bit(b, 2), bit(b, 3), bit(b, 4), bit(b, 5), bit(b, 6), bit(b, 7));
    let x1: u8 = if b & 0x40 != 0 { 1 } else { 0 };
    let x2: u8 = if b & 0x20 != 0 { 1 } else { 0 };
    let x3: u8 = if b & 0x10 != 0 { 1 } else { 0 };
    let x4: u8 = if b & 0x08 != 0 { 1 } else { 0 };
    let x5: u8 = if b & 0x04 != 0 { 1 } else { 0 };
    let x6: u8 = if b & 0x02 != 0 { 1 } else { 0 };
    let x7: u8 = if b & 0x01 != 0 { 1 } else { 0 };
    assert((b & 0x0f) == x4 * 8 + x5 * 4 + x6 * 2 + x7) by (bit_vector)
        requires
            x4 == (if b & 0x08 != 0 { 1u8 } else { 0u8 }),
            x5 == (if b & 0x04 != 0 { 1u8 } else { 0u8 }),
            x6 == (if b & 0x02 != 0 { 1u8 } else { 0u8 }),
            x7 == (if b & 0x01 != 0 { 1u8 } else { 0u8 }),
    ;
    assert((b & 0x7f) == x1 * 64 + x2 * 32 + x3 * 16 + x4 * 8 + x5 * 4 + x6 * 2 + x7) by (bit_vector)
        requires
            x1 == (if b & 0x40 != 0 { 1u8 } else { 0u8 }),
            x2 == (if b & 0x20 != 0 { 1u8 } else { 0u8 }),
            x3 == (if b & 0x10 != 0 { 1u8 } else { 0u8 }),
            x4 == (if b & 0x08 != 0 { 1u8 } else { 0u8 }),
            x5 == (if b & 0x04 != 0 { 1u8 } else { 0u8 }),
            x6 == (if b & 0x02 != 0 { 1u8 } else { 0u8 }),
            x7 == (if b & 0x01 != 0 { 1u8 } else { 0u8 }),
    ;
}

proof fn lemma_bits_value_8(
    x0: bool,
    x1: bool,
    x2: bool,
    x3: bool,
    x4: bool,
    x5: bool,
    x6: bool,
    x7: bool,
)
    ensures
        bits_value(seq![x0, x1, x2, x3, x4, x5, x6, x7]) == b2n(x0) * 128 + b2n(x1) * 64 + b2n(x2)
            * 32 + b2n(x3) * 16 + b2n(x4) * 8 + b2n(x5) * 4 + b2n(x6) * 2 + b2n(x7),
{
    let s7 = seq![x0, x1, x2, x3, x4, x5, x6];
    lemma_bits_value_7(x0, x1, x2, x3, x4, x5, x6);
    lemma_bits_value_step(s7, x7);
    assert(seq![x0, x1, x2, x3, x4, x5, x6, x7] =~= s7.push(x7));
}

/// Splitting a byte into its bits and reading them back, the highest first, gives the byte.
pub proof fn lemma_bits_round_trip(b: u8)
    ensures
        bits_value(byte_bits(b)) == b as nat,
{
    lemma_bits_of_byte(b);
    lemma_bits_value_8(bit(b, 0), bit(b, 1), bit(b, 2), bit(b, 3), bit(b, 4), bit(b, 5), bit(b, 6), bit(b, 7));
    assert(byte_bits(b) =~= seq![bit(b, 0), bit(b, 1), bit(b, 2), bit(b, 3), bit(b, 4), bit(b, 5), bit(b, 6), bit(b, 7)]);
    let x0: u8 = if b & 0x80 != 0 { 1 } else { 0 };
    let x1: u8 = if b & 0x40 != 0 { 1 } else { 0 };
    let x2: u8 = if b & 0x20 != 0 { 1 } else { 0 };
    let x3: u8 = if b & 0x10 != 0 { 1 } else { 0 };
    let x4: u8 = if b & 0x08 != 0 { 1 } else { 0 };
    let x5: u8 = if b & 0x04 != 0 { 1 } else { 0 };
    let x6: u8 = if b & 0x02 != 0 { 1 } else { 0 };
    let x7: u8 = if b & 0x01 != 0 { 1 } else { 0 };
    assert(b == x0 * 128 + x1 * 64 + x2 * 32 + x3 * 16 + x4 * 8 + x5 * 4 + x6 * 2 + x7) by (bit_vector)
        requires
            x0 == (if b & 0x80 != 0 { 1u8 } else { 0u8 }),
            x1 == (if b & 0x40 != 0 { 1u8 } else { 0u8 }),
            x2 == (if b & 0x20 != 0 { 1u8 } else { 0u8 }),
            x3 == (if b & 0x10 != 0 { 1u8 } else { 0u8 }),
            x4 == (if b & 0x08 != 0 { 1u8 } else { 0u8 }),
            x5 == (if b & 0x04 != 0 { 1u8 } else { 0u8 }),
            x6 == (if b & 0x02 != 0 { 1u8 } else { 0u8 }),
            x7 == (if b & 0x01 != 0 { 1u8 } else { 0u8 }),
    ;
}

// ---------------------------------------------------------------------------
// Frames
// ---------------------------------------------------------------------------

/// A WebSocket frame: the four flags, the opcode, the masking key if any, and the payload.
pub struct Frame {
    fin: bool,
    rsv1: bool,
    rsv2: bool,
    rsv3: bool,
    opcode: Opcode,
    mask: Option<Vec<u8>>,
    content: Vec<u8>,
}

pub struct FrameView {
    pub fin: bool,
    pub rsv1: bool,
    pub rsv2: bool,
    pub rsv3: bool,
    pub opcode: Opcode,
    pub mask: Option<Seq<u8>>,
    pub content: Seq<u8>,
}

pub open spec fn key_view(mask: Option<Vec<u8>>) -> Option<Seq<u8>> {
    match mask {
        Some(k) => Some(k@),
        None => None,
    }
}

impl View for Frame {
    type V = FrameView;

    closed spec fn view(&self) -> FrameView {
        FrameView {
            fin: self.fin,
            rsv1: self.rsv1,
            rsv2: self.rsv2,
            rsv3: self.rsv3,
            opcode: self.opcode,
            mask: key_view(self.mask),
            content: self.content@,
        }
    }
}

/// The payload with each byte xored with the key byte at its position modulo four.
pub open spec fn masked(content: Seq<u8>, key: Seq<u8>) -> Seq<u8> {
    Seq::new(content.len(), |i: int| content[i] ^ key[i % 4])
}

/// The key has a byte for every position modulo four that the payload reaches.
pub open spec fn key_fits(content_len: nat, key: Seq<u8>) -> bool {
    key.len() >= 4 || key.len() >= content_len
}

impl FrameView {
    /// A frame that can be written: a masking key covers the payload.
    pub open spec fn writable(self) -> bool {
        self.mask matches Some(k) ==> key_fits(self.content.len(), k)
    }
}

/// How `{:?}` shows a list of bytes: their numbers, separated by `", "`, in brackets.
pub open spec fn bytes_debug(s: Seq<u8>) -> Seq<char> {
    "["@ + bytes_joined(s) + "]"@
}

/// The numbers of some bytes, separated by `", "`.
pub open spec fn bytes_joined(s: Seq<u8>) -> Seq<char>
    decreases s.len(),
{
    if s.len() == 0 {
        Seq::empty()
    } else if s.len() == 1 {
        decimal(s[0] as nat)
    } else {
        bytes_joined(s.drop_last()) + ", "@ + decimal(s.last() as nat)
    }
}

/// How a flag is shown.
pub open spec fn bool_text(b: bool) -> Seq<char> {
    if b {
        "true"@
    } else {
        "false"@
    }
}

/// How `{:?}` shows a masking key.
pub open spec fn mask_debug(mask: Option<Seq<u8>>) -> Seq<char> {
    match mask {
        Some(k) => "Some("@ + bytes_debug(k) + ")"@,
        None => "None"@,
    }
}

/// How a frame is shown: its flags, opcode, masking key and payload.
pub open spec fn frame_text(f: FrameView) -> Seq<char> {
    "Frame(fin: "@ + bool_text(f.fin) + ", rsv1: "@ + bool_text(f.rsv1) + ", rsv2: "@ + bool_text(
        f.rsv2,
    ) + ", rsv3: "@ + bool_text(f.rsv3) + ", opcode: "@ + opcode_name(f.opcode) + ", mask: "@
        + mask_debug(f.mask) + ", content: "@ + bytes_debug(f.content) + ")"@
}

fn push_bool(s: &mut String, b: bool)
    ensures
        final(s)@ == old(s)@ + bool_text(b),
{
    if b {
        push_str(s, "true");
    } else {
        push_str(s, "false");
    }
}

fn push_bytes_debug(s: &mut String, bytes: &[u8])
    ensures
        final(s)@ == old(s)@ + bytes_debug(bytes@),
{
    let ghost start = s@;
    push_str(s, "[");
    let mut k: usize = 0;
    while k < bytes.len()
        invariant
            k <= bytes@.len(),
            s@ == start + "["@ + bytes_joined(bytes@.take(k as int)),
        decreases bytes@.len() - k,
    {
        if k > 0 {
            push_str(s, ", ");
        }
        push_decimal(s, bytes[k] as usize);
        proof {
            let t = bytes@.take(k + 1);
            assert(t.drop_last() =~= bytes@.take(k as int));
            assert(s@ =~= start + "["@ + bytes_joined(t));
        }
        k += 1;
    }
    assert(bytes@.take(bytes@.len() as int) =~= bytes@);
    push_str(s, "]");
    assert(s@ =~= old(s)@ + bytes_debug(bytes@));
}

impl Frame {
    pub fn new(
        fin: bool,
        rsv1: bool,
        rsv2: bool,
        rsv3: bool,
        opcode: Opcode,
        mask: Option<Vec<u8>>,
        content: Vec<u8>,
    ) -> (r: Frame)
        ensures
            r@ == (FrameView {
                fin: fin,
                rsv1: rsv1,
                rsv2: rsv2,
                rsv3: rsv3,
                opcode: opcode,
                mask: key_view(mask),
                content: content@,
            }),
    {
        Frame { fin: fin, rsv1: rsv1, rsv2: rsv2, rsv3: rsv3, opcode: opcode, mask: mask, content: content }
    }

    pub fn fin(&self) -> (r: bool)
        ensures
            r == self@.fin,
    {
        self.fin
    }

    pub fn rsv1(&self) -> (r: bool)
        ensures
            r == self@.rsv1,
    {
        self.rsv1
    }

    pub fn rsv2(&self) -> (r: bool)
        ensures
            r == self@.rsv2,
    {
        self.rsv2
    }

    pub fn rsv3(&self) -> (r: bool)
        ensures
            r == self@.rsv3,
    {
        self.rsv3
    }

    pub fn opcode(&self) -> (r: Opcode)
        ensures
            r == self@.opcode,
    {
        self.opcode
    }

    pub fn mask(&self) -> (r: &Option<Vec<u8>>)
        ensures
            key_view(*r) == self@.mask,
    {
        &self.mask
    }

    pub fn bytes(&self) -> (r: Vec<u8>)
        ensures
            r@ == self@.content,
    {
        copy_bytes(self.content.as_slice())
    }

    /// The payload read as UTF-8.
    pub fn text(&self) -> (r: Result<String, std::string::FromUtf8Error>)
        ensures
            r is Ok <==> vstd::utf8::valid_utf8(self@.content),
            r matches Ok(s) ==> s@ == vstd::utf8::decode_utf8(self@.content),
    {
        string_from_utf8(self.bytes())
    }

    pub fn content_len(&self) -> (r: u64)
        ensures
            r == self@.content.len(),
    {
        self.content.len() as u64
    }

    /// The frame shown with its flags, opcode, masking key and payload.
    pub fn to_string(&self) -> (r: String)
        ensures
            r@ == frame_text(self@),
    {
        let mut s = String::new();
        push_str(&mut s, "Frame(fin: ");
        push_bool(&mut s, self.fin);
        push_str(&mut s, ", rsv1: ");
        push_bool(&mut s, self.rsv1);
        push_str(&mut s, ", rsv2: ");
        push_bool(&mut s, self.rsv2);
        push_str(&mut s, ", rsv3: ");
        push_bool(&mut s, self.rsv3);
        push_str(&mut s, ", opcode: ");
        let op = self.opcode.to_string();
        push_str(&mut s, op.as_str());
        push_str(&mut s, ", mask: ");
        match &self.mask {
            Some(key) => {
                push_str(&mut s, "Some(");
                push_bytes_debug(&mut s, key.as_slice());
                push_str(&mut s, ")");
            },
            None => push_str(&mut s, "None"),
        }
        push_str(&mut s, ", content: ");
        push_bytes_debug(&mut s, self.content.as_slice());
        push_str(&mut s, ")");
        s
    }
}

/// std's `FromUtf8Error`, the error of `String::from_utf8`, carried through as it is.
#[verifier::external_type_specification]
#[verifier::external_body]
pub struct ExFromUtf8Error(std::string::FromUtf8Error);

/// `String::from_utf8`: the bytes as a string where they are valid UTF-8, an error otherwise.
#[verifier::external_body]
fn string_from_utf8(v: Vec<u8>) -> (r: Result<String, std::string::FromUtf8Error>)
    ensures
        r is Ok <==> vstd::utf8::valid_utf8(v@),
        r matches Ok(s) ==> s@ == vstd::utf8::decode_utf8(v@),
{
    String::from_utf8(v)
}


// ---------------------------------------------------------------------------
// Writing frames
// ---------------------------------------------------------------------------

/// The length field of a payload of `size` bytes: the seven-bit length, or 126 or 127 as a
/// marker, and the bytes that follow it. Payloads of 126 bytes or more are followed by the
/// size's eight bytes, under either marker.
pub open spec fn len_field(size: nat) -> (u8, Seq<u8>) {
    if size < 126 {
        (size as u8, Seq::empty())
    } else if size <= 65535 {
        (126u8, be8(size as u64))
    } else {
        (127u8, be8(size as u64))
    }
}

/// The four flags as a number below sixteen, `fin` the highest.
pub open spec fn flag_bits(f: FrameView) -> u8 {
    (b2n(f.fin) * 8 + b2n(f.rsv1) * 4 + b2n(f.rsv2) * 2 + b2n(f.rsv3)) as u8
}

/// The first byte of a frame: the flags in the four high bits, the opcode's number or'd in.
pub open spec fn header_byte(f: FrameView) -> u8 {
    (flag_bits(f) << 4u8) | opcode_value(f.opcode)
}

/// A frame as it is written: the first byte, the length field, then, for a masked frame,
/// the key and the masked payload, or else the payload. The mask bit is not set.
pub open spec fn frame_bytes(f: FrameView) -> Seq<u8> {
    let (len_len, len) = len_field(f.content.len());
    seq![header_byte(f), len_len] + len + match f.mask {
        Some(k) => k + masked(f.content, k),
        None => f.content,
    }
}

/// A control frame whose first byte is `first`, as written for a ping or a pong.
pub open spec fn control_bytes(first: u8, content: Seq<u8>) -> Seq<u8> {
    let (len_len, len) = len_field(content.len());
    seq![first, len_len] + len + content
}

fn set_len(size: u64) -> (r: (u8, Vec<u8>))
    ensures
        r.0 == len_field(size as nat).0,
        r.1@ == len_field(size as nat).1,
{
    if size < 126 {
        (size as u8, Vec::new())
    } else if size <= 65535 {
        (126, be_bytes(size))
    } else {
        (127, be_bytes(size))
    }
}

/// The payload with each byte xored with the key byte at its position modulo four.
pub fn apply_mask(content: &[u8], key: &[u8]) -> (r: Vec<u8>)
    requires
        key_fits(content@.len(), key@),
    ensures
        r@ == masked(content@, key@),
{
    let mut out = copy_bytes(content);
    let mut i: usize = 0;
    while i < out.len()
        invariant
            i <= out@.len() == content@.len(),
            key_fits(content@.len(), key@),
            forall|k: int| 0 <= k < i ==> out@[k] == #[trigger] masked(content@, key@)[k],
            forall|k: int| i <= k < out@.len() ==> out@[k] == #[trigger] content@[k],
        decreases out@.len() - i,
    {
        let b = out[i] ^ key[i % 4];
        out.set(i, b);
        i += 1;
    }
    assert(out@ =~= masked(content@, key@));
    out
}

/// The bytes a frame is written as.
pub fn encode_frame(frame: &Frame) -> (r: Vec<u8>)
    requires
        frame@.writable(),
    ensures
        r@ == frame_bytes(frame@),
{
    let flags: [bool; 4] = [frame.fin(), frame.rsv1(), frame.rsv2(), frame.rsv3()];
    let nibble = from_bits(flags.as_slice());
    proof {
        lemma_bits_value_4(frame@.fin, frame@.rsv1, frame@.rsv2, frame@.rsv3);
        assert(flags@ =~= seq![frame@.fin, frame@.rsv1, frame@.rsv2, frame@.rsv3]);
    }
    let mut byte1: u8 = 0;
    byte1 = byte1 | (nibble << 4u8);
    byte1 = byte1 | frame.opcode().value();
    assert(byte1 == header_byte(frame@)) by {
        assert((0u8 | (nibble << 4u8)) == (nibble << 4u8)) by (bit_vector);
    }
    let (len_len, mut len) = set_len(frame.content_len());
    let byte2: u8 = len_len;
    let mut out: Vec<u8> = Vec::new();
    out.push(byte1);
    out.push(byte2);
    out.append(&mut len);
    match frame.mask() {
        Some(key) => {
            let mut k = copy_bytes(key.as_slice());
            let mut content = apply_mask(frame.content.as_slice(), key.as_slice());
            out.append(&mut k);
            out.append(&mut content);
        },
        None => {
            let mut content = frame.bytes();
            out.append(&mut content);
        },
    }
    assert(out@ =~= frame_bytes(frame@));
    out
}

/// The bytes a pong answering `content` is written as, where the payload is within `limit`.
pub fn pong_frame(content: &[u8], limit: u64) -> (r: Option<Vec<u8>>)
    ensures
        content@.len() <= limit as usize ==> (r matches Some(v) && v@ == control_bytes(0x8A, content@)),
        content@.len() > limit as usize ==> r is None,
{
    if content.len() <= limit as usize {
        let (len_len, mut len) = set_len(content.len() as u64);
        let mut byte2: u8 = 0x00;
        byte2 = byte2 | len_len;
        assert((0u8 | len_len) == len_len) by (bit_vector);
        let mut out: Vec<u8> = Vec::new();
        out.push(0x8A);
        out.push(byte2);
        out.append(&mut len);
        let mut c = copy_bytes(content);
        out.append(&mut c);
        assert(out@ =~= control_bytes(0x8A, content@));
        Some(out)
    } else {
        None
    }
}

/// The bytes a ping carrying `content` is written as.
pub fn ping_frame(content: &[u8]) -> (r: Vec<u8>)
    ensures
        r@ == control_bytes(0x89, content@),
{
    let (len_len, mut len) = set_len(content.len() as u64);
    let byte1: u8 = 0b10001001;
    let mut byte2: u8 = 0b00000000;
    byte2 = byte2 | len_len;
    assert((0u8 | len_len) == len_len) by (bit_vector);
    let mut out: Vec<u8> = Vec::new();
    out.push(byte1);
    out.push(byte2);
    out.append(&mut len);
    let mut c = copy_bytes(content);
    out.append(&mut c);
    assert(out@ =~= control_bytes(0x89, content@));
    out
}


// ---------------------------------------------------------------------------
// Reading frames
// ---------------------------------------------------------------------------

/// What the first two bytes of a frame say.
#[derive(Copy, Clone, Debug, PartialEq, Eq, Structural)]
pub struct FrameHead {
    pub fin: bool,
    pub rsv1: bool,
    pub rsv2: bool,
    pub rsv3: bool,
    pub opcode: Opcode,
    pub masked: bool,
    pub len7: u8,
}

pub open spec fn head_of(b0: u8, b1: u8) -> FrameHead {
    FrameHead {
        fin: b0 & 0x80 != 0,
        rsv1: b0 & 0x40 != 0,
        rsv2: b0 & 0x20 != 0,
        rsv3: b0 & 0x10 != 0,
        opcode: opcode_of(b0 & 0x0f),
        masked: b1 & 0x80 != 0,
        len7: b1 & 0x7f,
    }
}

/// How many bytes of extended length follow the seven-bit length.
pub open spec fn ext_size(len7: u8) -> nat {
    if len7 < 126 {
        0
    } else if len7 == 126 {
        2
    } else {
        8
    }
}

/// The frame at the start of `b` and how many bytes it takes, or nothing where `b` does
/// not hold a whole frame.
pub open spec fn parse_frame(b: Seq<u8>) -> Option<(FrameView, nat)> {
    if b.len() < 2 {
        None
    } else {
        let head = head_of(b[0], b[1]);
        let ext = ext_size(head.len7);
        if b.len() < 2 + ext {
            None
        } else {
            let size: nat = if ext == 0 { head.len7 as nat } else { be_value(b.subrange(2, 2 + ext as int)) };
            let start: nat = 2 + ext + if head.masked { 4nat } else { 0nat };
            if b.len() < start + size {
                None
            } else {
                let key = b.subrange(2 + ext as int, 2 + ext + 4 as int);
                let raw = b.subrange(start as int, (start + size) as int);
                Some((
                    FrameView {
                        fin: head.fin,
                        rsv1: head.rsv1,
                        rsv2: head.rsv2,
                        rsv3: head.rsv3,
                        opcode: head.opcode,
                        mask: if head.masked { Some(key) } else { None },
                        content: if head.masked { masked(raw, key) } else { raw },
                    },
                    start + size,
                ))
            }
        }
    }
}

/// Reads the flags, opcode, mask bit and seven-bit length from the first two bytes.
pub fn frame_head(b0: u8, b1: u8) -> (r: FrameHead)
    ensures
        r == head_of(b0, b1),
{
    let control_bits1 = into_bits(b0);
    let fin = control_bits1[0];
    let rsv1 = control_bits1[1];
    let rsv2 = control_bits1[2];
    let rsv3 = control_bits1[3];
    proof {
        lemma_bits_of_byte(b0);
        lemma_low_bits(b0);
        assert(control_bits1@.subrange(4, 8) =~= seq![bit(b0, 4), bit(b0, 5), bit(b0, 6), bit(b0, 7)]);
    }
    let opcode = Opcode::from(from_bits(&control_bits1.as_slice()[4..8]));
    let control_bits2 = into_bits(b1);
    let is_masked = control_bits2[0];
    proof {
        lemma_bits_of_byte(b1);
        lemma_low_bits(b1);
        assert(control_bits2@.subrange(1, 8) =~= seq![bit(b1, 1), bit(b1, 2), bit(b1, 3), bit(b1, 4), bit(b1, 5), bit(b1, 6), bit(b1, 7)]);
    }
    let len = from_bits(&control_bits2.as_slice()[1..8]);
    FrameHead { fin, rsv1, rsv2, rsv3, opcode, masked: is_masked, len7: len }
}

/// How many bytes of extended length follow a seven-bit length.
pub fn ext_len_size(len7: u8) -> (r: u8)
    requires
        len7 < 128,
    ensures
        r == ext_size(len7),
{
    if len7 < 126 {
        0
    } else if len7 == 126 {
        2
    } else {
        8
    }
}

pub open spec fn pow256(n: nat) -> nat
    decreases n,
{
    if n == 0 {
        1
    } else {
        256 * pow256((n - 1) as nat)
    }
}

proof fn lemma_be_value_bound(s: Seq<u8>)
    ensures
        be_value(s) < pow256(s.len()),
    decreases s.len(),
{
    if s.len() > 0 {
        lemma_be_value_bound(s.drop_last());
    }
}

/// The number the bytes stand for, the highest first.
pub fn ext_len_value(bytes: &[u8]) -> (r: u64)
    requires
        bytes@.len() <= 8,
    ensures
        r == be_value(bytes@),
{
    let mut buf: u64 = 0;
    let mut i: usize = 0;
    assert(pow256(8) == 0x1_0000_0000_0000_0000) by {
        reveal_with_fuel(pow256, 9);
    }
    while i < bytes.len()
        invariant
            i <= bytes@.len() <= 8,
            buf == be_value(bytes@.take(i as int)),
            pow256(8) == 0x1_0000_0000_0000_0000,
        decreases bytes@.len() - i,
    {
        assert(bytes@.take(i + 1).drop_last() =~= bytes@.take(i as int));
        proof {
            lemma_be_value_bound(bytes@.take(i + 1));
            lemma_pow256_mono((i + 1) as nat, 8);
        }
        buf = buf * 256 + bytes[i] as u64;
        i += 1;
    }
    assert(bytes@.take(bytes@.len() as int) =~= bytes@);
    buf
}

proof fn lemma_pow256_mono(a: nat, b: nat)
    requires
        a <= b,
    ensures
        pow256(a) <= pow256(b),
    decreases b - a,
{
    if a < b {
        lemma_pow256_mono(a, (b - 1) as nat);
    }
}

/// How many bytes must still be read before `b` holds a whole frame: the two first bytes,
/// then the extended length, then the masking key and the payload; nothing once it does.
pub open spec fn frame_missing(b: Seq<u8>) -> nat {
    if b.len() < 2 {
        (2 - b.len()) as nat
    } else {
        let head = head_of(b[0], b[1]);
        let ext = ext_size(head.len7);
        if b.len() < 2 + ext {
            (2 + ext - b.len()) as nat
        } else {
            let size: nat = if ext == 0 { head.len7 as nat } else { be_value(b.subrange(2, 2 + ext as int)) };
            let start: nat = 2 + ext + if head.masked { 4nat } else { 0nat };
            if b.len() < start + size {
                (start + size - b.len()) as nat
            } else {
                0
            }
        }
    }
}

/// How many bytes a reader must still read before `bytes` hold a whole frame (as many as fit
/// in a `u64`); none exactly where they do.
pub fn frame_bytes_missing(bytes: &[u8]) -> (r: u64)
    ensures
        r == (if frame_missing(bytes@) <= u64::MAX { frame_missing(bytes@) } else { u64::MAX as nat }),
        r == 0 <==> parse_frame(bytes@) is Some,
{
    if bytes.len() < 2 {
        return (2 - bytes.len()) as u64;
    }
    let head = frame_head(bytes[0], bytes[1]);
    let b1 = bytes[1];
    let len7 = head.len7;
    assert(len7 < 128) by (bit_vector)
        requires len7 == b1 & 0x7f;
    let ext = ext_len_size(head.len7) as usize;
    if bytes.len() < 2 + ext {
        return (2 + ext - bytes.len()) as u64;
    }
    let size: u64 = if ext == 0 {
        head.len7 as u64
    } else {
        ext_len_value(&bytes[2..2 + ext])
    };
    let key_len: usize = if head.masked { 4 } else { 0 };
    let start: usize = 2 + ext + key_len;
    if bytes.len() < start {
        let short: u64 = (start - bytes.len()) as u64;
        if size > u64::MAX - short {
            u64::MAX
        } else {
            size + short
        }
    } else {
        let avail: u64 = (bytes.len() - start) as u64;
        if avail >= size {
            0
        } else {
            size - avail
        }
    }
}

/// Reads the frame at the start of `bytes`; nothing where they do not hold a whole frame.
pub fn decode_frame(bytes: &[u8]) -> (r: Option<(Frame, usize)>)
    ensures
        match r {
            Some((f, n)) => parse_frame(bytes@) == Some((f@, n as nat)),
            None => parse_frame(bytes@) is None,
        },
{
    if bytes.len() < 2 {
        return None;
    }
    let head = frame_head(bytes[0], bytes[1]);
    let b1 = bytes[1];
    let len7 = head.len7;
    assert(len7 < 128) by (bit_vector)
        requires len7 == b1 & 0x7f;
    let ext = ext_len_size(head.len7) as usize;
    if bytes.len() < 2 + ext {
        return None;
    }
    let size: u64 = if ext == 0 {
        head.len7 as u64
    } else {
        ext_len_value(&bytes[2..2 + ext])
    };
    let key_len: usize = if head.masked { 4 } else { 0 };
    if bytes.len() < 2 + ext + key_len {
        return None;
    }
    let start: usize = 2 + ext + key_len;
    let avail = bytes.len() - start;
    if size > avail as u64 {
        return None;
    }
    let size = size as usize;
    let raw = &bytes[start..start + size];
    let (mask, content) = if head.masked {
        let key = copy_bytes(&bytes[2 + ext..2 + ext + 4]);
        let content = apply_mask(raw, key.as_slice());
        (Some(key), content)
    } else {
        (None, copy_bytes(raw))
    };
    let frame = Frame::new(head.fin, head.rsv1, head.rsv2, head.rsv3, head.opcode, mask, content);
    Some((frame, start + size))
}


// ---------------------------------------------------------------------------
// Laws
// ---------------------------------------------------------------------------

/// Masking with the same key twice gives the payload back.
pub proof fn lemma_mask_twice(content: Seq<u8>, key: Seq<u8>)
    ensures
        masked(masked(content, key), key) == content,
{
    assert forall|i: int| 0 <= i < content.len() implies #[trigger] masked(masked(content, key), key)[i]
        == content[i] by {
        let c = content[i];
        let k = key[i % 4];
        assert((c ^ k) ^ k == c) by (bit_vector);
    }
    assert(masked(masked(content, key), key) =~= content);
}

proof fn lemma_header_byte(f: FrameView)
    requires
        f.opcode != Opcode::Unknown,
    ensures
        head_of(header_byte(f), 0).fin == f.fin,
        head_of(header_byte(f), 0).rsv1 == f.rsv1,
        head_of(header_byte(f), 0).rsv2 == f.rsv2,
        head_of(header_byte(f), 0).rsv3 == f.rsv3,
        head_of(header_byte(f), 0).opcode == f.opcode,
{
    lemma_opcode_round_trip(f.opcode);
    let v = opcode_value(f.opcode);
    let x0: u8 = if f.fin { 1 } else { 0 };
    let x1: u8 = if f.rsv1 { 1 } else { 0 };
    let x2: u8 = if f.rsv2 { 1 } else { 0 };
    let x3: u8 = if f.rsv3 { 1 } else { 0 };
    let h = header_byte(f);
    let n = flag_bits(f);
    assert(n == x0 * 8 + x1 * 4 + x2 * 2 + x3);
    assert(h == (n << 4u8) | v);
    assert({
        &&& (h & 0x80 != 0) == (x0 == 1)
        &&& (h & 0x40 != 0) == (x1 == 1)
        &&& (h & 0x20 != 0) == (x2 == 1)
        &&& (h & 0x10 != 0) == (x3 == 1)
        &&& h & 0x0f == v
    }) by (bit_vector)
        requires
            x0 <= 1,
            x1 <= 1,
            x2 <= 1,
            x3 <= 1,
            v < 16,
            n == x0 * 8 + x1 * 4 + x2 * 2 + x3,
            h == (n << 4u8) | v,
    ;
}

/// An unmasked frame with a known opcode, whose payload is shorter than 126 bytes or
/// longer than 65535, is read back from the bytes it is written as, all of them.
pub proof fn lemma_frame_round_trip(f: FrameView)
    requires
        f.mask is None,
        f.opcode != Opcode::Unknown,
        f.content.len() < 126 || (65535 < f.content.len() <= u64::MAX),
    ensures
        parse_frame(frame_bytes(f)) == Some((f, frame_bytes(f).len())),
{
    let b = frame_bytes(f);
    let size = f.content.len();
    let (len_len, len) = len_field(size);
    lemma_header_byte(f);
    assert(b[0] == header_byte(f));
    assert(b[1] == len_len);
    let head = head_of(b[0], b[1]);
    assert(head_of(header_byte(f), 0).fin == head.fin);
    if size < 126 {
        let l = size as u8;
        assert(l & 0x80 == 0 && l & 0x7f == l) by (bit_vector)
            requires l < 126;
        assert(ext_size(head.len7) == 0);
        assert(b.subrange(2, 2 + size as int) =~= f.content);
    } else {
        assert(127u8 & 0x80u8 == 0 && 127u8 & 0x7fu8 == 127) by (bit_vector);
        lemma_be8_value(size as u64);
        assert(b.subrange(2, 10) =~= be8(size as u64));
        assert(b.subrange(10, 10 + size as int) =~= f.content);
    }
}


/// The bytes a client sends for a frame (RFC 6455, section 5.2): the first byte (flags and
/// opcode); the mask bit set, with the payload's length where it is below 126, or with 126 and
/// the length in two bytes where it is below 65536, or with 127 and the length in eight bytes;
/// then the four bytes of the masking key; then the payload, each byte xored with the key byte
/// at its position modulo four.
pub open spec fn client_frame(b0: u8, key: Seq<u8>, payload: Seq<u8>) -> Seq<u8> {
    let n = payload.len();
    let len_part = if n < 126 {
        seq![(0x80 + n) as u8]
    } else if n < 65536 {
        seq![0xFEu8, (n / 256) as u8, (n % 256) as u8]
    } else {
        seq![0xFFu8] + be8(n as u64)
    };
    seq![b0] + len_part + key + Seq::new(n, |i: int| payload[i] ^ key[i % 4])
}

/// A masked frame of any length, as a client writes it, is read back whole: with the flags and
/// opcode of its first byte, the masking key that follows the length, and the payload as it
/// was before masking.
pub proof fn lemma_read_client_frame(b0: u8, key: Seq<u8>, payload: Seq<u8>)
    requires
        key.len() == 4,
        payload.len() <= u64::MAX,
    ensures
        parse_frame(client_frame(b0, key, payload)) == Some((
            FrameView {
                fin: b0 & 0x80 != 0,
                rsv1: b0 & 0x40 != 0,
                rsv2: b0 & 0x20 != 0,
                rsv3: b0 & 0x10 != 0,
                opcode: opcode_of(b0 & 0x0f),
                mask: Some(key),
                content: payload,
            },
            client_frame(b0, key, payload).len(),
        )),
{
    let b = client_frame(b0, key, payload);
    let n = payload.len();
    let raw_in = Seq::new(n, |i: int| payload[i] ^ key[i % 4]);
    let ext: nat = if n < 126 { 0 } else if n < 65536 { 2 } else { 8 };
    let head = head_of(b[0], b[1]);
    if n < 126 {
        let l = n as u8;
        let s1 = b[1];
        assert(s1 == 0x80 + l);
        assert(s1 & 0x80 != 0 && s1 & 0x7f == l) by (bit_vector)
            requires
                l < 126,
                s1 == 0x80 + l,
        ;
    } else if n < 65536 {
        assert(b[1] == 0xFEu8);
        assert(0xFEu8 & 0x80 != 0 && 0xFEu8 & 0x7f == 126) by (bit_vector);
        reveal_with_fuel(be_value, 3);
        let e = b.subrange(2, 4);
        assert(e =~= seq![(n / 256) as u8, (n % 256) as u8]);
        assert(e.drop_last().drop_last() =~= Seq::<u8>::empty());
        assert(be_value(e) == n);
    } else {
        assert(b[1] == 0xFFu8);
        assert(0xFFu8 & 0x80 != 0 && 0xFFu8 & 0x7f == 127) by (bit_vector);
        lemma_be8_value(n as u64);
        assert(b.subrange(2, 10) =~= be8(n as u64));
    }
    assert(head.masked);
    assert(ext_size(head.len7) == ext);
    let start = 2 + ext + 4;
    assert(b.len() == start + n);
    assert(b.subrange(2 + ext as int, 2 + ext + 4 as int) =~= key);
    let raw = b.subrange(start as int, (start + n) as int);
    assert(raw =~= raw_in);
    assert forall|i: int| 0 <= i < n implies #[trigger] masked(raw, key)[i] == payload[i] by {
        let p = payload[i];
        let k = key[i % 4];
        assert((p ^ k) ^ k == p) by (bit_vector);
    }
    assert(masked(raw, key) =~= payload);
}

/// The bytes of an unmasked frame as RFC 6455 (section 5.2) lays it out: the first byte (flags
/// and opcode); the mask bit clear, with the payload's length where it is below 126, or with
/// 126 and the length in two bytes where it is below 65536, or with 127 and the length in
/// eight bytes; then the payload.
pub open spec fn plain_frame(b0: u8, payload: Seq<u8>) -> Seq<u8> {
    let n = payload.len();
    let len_part = if n < 126 {
        seq![n as u8]
    } else if n < 65536 {
        seq![126u8, (n / 256) as u8, (n % 256) as u8]
    } else {
        seq![127u8] + be8(n as u64)
    };
    seq![b0] + len_part + payload
}

/// An unmasked frame of any length, laid out as the protocol says, is read back whole: with
/// the flags and opcode of its first byte, no masking key, and its payload.
pub proof fn lemma_read_plain_frame(b0: u8, payload: Seq<u8>)
    requires
        payload.len() <= u64::MAX,
    ensures
        parse_frame(plain_frame(b0, payload)) == Some((
            FrameView {
                fin: b0 & 0x80 != 0,
                rsv1: b0 & 0x40 != 0,
                rsv2: b0 & 0x20 != 0,
                rsv3: b0 & 0x10 != 0,
                opcode: opcode_of(b0 & 0x0f),
                mask: None,
                content: payload,
            },
            plain_frame(b0, payload).len(),
        )),
{
    let b = plain_frame(b0, payload);
    let n = payload.len();
    let ext: nat = if n < 126 { 0 } else if n < 65536 { 2 } else { 8 };
    let head = head_of(b[0], b[1]);
    if n < 126 {
        let l = n as u8;
        let s1 = b[1];
        assert(s1 == l);
        assert(s1 & 0x80 == 0 && s1 & 0x7f == l) by (bit_vector)
            requires
                l < 126,
                s1 == l,
        ;
    } else if n < 65536 {
        assert(b[1] == 126u8);
        assert(126u8 & 0x80 == 0 && 126u8 & 0x7f == 126) by (bit_vector);
        reveal_with_fuel(be_value, 3);
        let e = b.subrange(2, 4);
        assert(e =~= seq![(n / 256) as u8, (n % 256) as u8]);
        assert(e.drop_last().drop_last() =~= Seq::<u8>::empty());
        assert(be_value(e) == n);
    } else {
        assert(b[1] == 127u8);
        assert(127u8 & 0x80 == 0 && 127u8 & 0x7f == 127) by (bit_vector);
        lemma_be8_value(n as u64);
        assert(b.subrange(2, 10) =~= be8(n as u64));
    }
    assert(!head.masked);
    assert(ext_size(head.len7) == ext);
    assert(b.len() == 2 + ext + n);
    assert(b.subrange(2 + ext as int, (2 + ext + n) as int) =~= payload);
}

// ---------------------------------------------------------------------------
// The opening handshake
// ---------------------------------------------------------------------------

/// A header of an HTTP request or response, as the server reads and writes them.
pub struct HeaderLine {
    pub field: String,
    pub value: String,
}

/// A byte with ASCII upper-case letters turned to lower case.
pub open spec fn ascii_lower(b: u8) -> u8 {
    if 65 <= b <= 90 {
        (b + 32) as u8
    } else {
        b
    }
}

/// Two byte strings that are equal up to the case of ASCII letters.
pub open spec fn eq_ignore_case(a: Seq<u8>, b: Seq<u8>) -> bool {
    a.len() == b.len() && forall|i: int| 0 <= i < a.len() ==> ascii_lower(#[trigger] a[i]) == ascii_lower(b[i])
}

/// The value of the first header whose field is `name` up to the case of ASCII letters.
pub open spec fn find_value(headers: Seq<HeaderLine>, name: Seq<u8>) -> Option<Seq<char>>
    decreases headers.len(),
{
    if headers.len() == 0 {
        None
    } else if eq_ignore_case(utf8(headers[0].field@), name) {
        Some(headers[0].value@)
    } else {
        find_value(headers.drop_first(), name)
    }
}

/// `needle` occurs in `hay`.
pub open spec fn contains_bytes(hay: Seq<u8>, needle: Seq<u8>) -> bool {
    exists|i: int| 0 <= i && i + needle.len() <= hay.len() && #[trigger] hay.subrange(i, i + needle.len()) == needle
}

/// The request asks to upgrade the connection: its first `Connection` header holds
/// `upgrade`, whatever the case of the letters.
pub open spec fn asks_upgrade(headers: Seq<HeaderLine>) -> bool {
    match find_value(headers, utf8("Connection"@)) {
        Some(v) => contains_bytes(utf8(v).map_values(|b: u8| ascii_lower(b)), utf8("upgrade"@)),
        None => false,
    }
}

fn lower_byte(b: u8) -> (r: u8)
    ensures
        r == ascii_lower(b),
{
    if 65 <= b && b <= 90 {
        b + 32
    } else {
        b
    }
}

fn bytes_eq_ignore_case(a: &[u8], b: &[u8]) -> (r: bool)
    ensures
        r == eq_ignore_case(a@, b@),
{
    if a.len() != b.len() {
        return false;
    }
    let mut i: usize = 0;
    while i < a.len()
        invariant
            i <= a@.len() == b@.len(),
            forall|k: int| 0 <= k < i ==> ascii_lower(#[trigger] a@[k]) == ascii_lower(b@[k]),
        decreases a@.len() - i,
    {
        if lower_byte(a[i]) != lower_byte(b[i]) {
            return false;
        }
        i += 1;
    }
    true
}

fn find_header<'a>(headers: &'a Vec<HeaderLine>, name: &str) -> (r: Option<&'a String>)
    ensures
        match r {
            Some(v) => find_value(headers@, utf8(name@)) == Some(v@),
            None => find_value(headers@, utf8(name@)) is None,
        },
{
    let mut i: usize = 0;
    assert(headers@.skip(0) =~= headers@);
    while i < headers.len()
        invariant
            i <= headers@.len(),
            find_value(headers@, utf8(name@)) == find_value(headers@.skip(i as int), utf8(name@)),
        decreases headers@.len() - i,
    {
        assert(headers@.skip(i as int).drop_first() =~= headers@.skip(i + 1));
        assert(headers@.skip(i as int)[0] == headers@[i as int]);
        if bytes_eq_ignore_case(headers[i].field.as_str().as_bytes(), name.as_bytes()) {
            return Some(&headers[i].value);
        }
        i += 1;
    }
    None
}

fn lowercase_bytes(s: &[u8]) -> (r: Vec<u8>)
    ensures
        r@ == s@.map_values(|b: u8| ascii_lower(b)),
{
    let mut r: Vec<u8> = Vec::new();
    let mut k: usize = 0;
    while k < s.len()
        invariant
            k <= s@.len(),
            r@ == s@.take(k as int).map_values(|b: u8| ascii_lower(b)),
        decreases s@.len() - k,
    {
        r.push(lower_byte(s[k]));
        k += 1;
        assert(r@ =~= s@.take(k as int).map_values(|b: u8| ascii_lower(b)));
    }
    assert(s@.take(s@.len() as int) =~= s@);
    r
}

fn contains_slice(hay: &[u8], needle: &[u8]) -> (r: bool)
    ensures
        r == contains_bytes(hay@, needle@),
{
    if needle.len() > hay.len() {
        return false;
    }
    let mut i: usize = 0;
    while i <= hay.len() - needle.len()
        invariant
            needle@.len() <= hay@.len(),
            i <= hay@.len() - needle@.len() + 1,
            forall|j: int| 0 <= j < i ==> #[trigger] hay@.subrange(j, j + needle@.len()) != needle@,
        decreases hay@.len() + 1 - i,
    {
        let mut k: usize = 0;
        let mut same = true;
        while k < needle.len()
            invariant
                i + needle@.len() <= hay@.len() <= usize::MAX,
                k <= needle@.len(),
                same == (forall|m: int| 0 <= m < k ==> hay@[i + m] == needle@[m]),
            decreases needle@.len() - k,
        {
            if hay[i + k] != needle[k] {
                same = false;
            }
            k += 1;
        }
        if same {
            assert(hay@.subrange(i as int, i + needle@.len()) =~= needle@);
            return true;
        }
        proof {
            if hay@.subrange(i as int, i + needle@.len()) == needle@ {
                assert forall|m: int| 0 <= m < needle@.len() implies hay@[i + m] == needle@[m] by {
                    assert(hay@.subrange(i as int, i + needle@.len())[m] == hay@[i + m]);
                }
            }
        }
        i += 1;
    }
    assert forall|j: int| 0 <= j && j + needle@.len() <= hay@.len() implies #[trigger] hay@.subrange(j, j + needle@.len()) != needle@ by {
        assert(j < i);
    }
    false
}

/// Whether the request with these headers asks to upgrade to a WebSocket.
pub fn check_ws(headers: &Vec<HeaderLine>) -> (r: bool)
    ensures
        r == asks_upgrade(headers@),
{
    let res = find_header(headers, "Connection");
    match res {
        Some(v) => {
            let lower = lowercase_bytes(v.as_str().as_bytes());
            contains_slice(lower.as_slice(), "upgrade".as_bytes())
        },
        None => false,
    }
}


/// The GUID that RFC 6455 appends to the client's key.
pub open spec fn accept_guid() -> Seq<char> {
    "258EAFA5-E914-47DA-95CA-C5AB0DC85B11"@
}

/// The SHA-1 digest of some bytes, as rust-crypto's `Sha1` computes it.
pub uninterp spec fn sha1_digest(data: Seq<u8>) -> Seq<u8>;

/// The character of a six-bit value in the standard base64 alphabet of RFC 4648:
/// `A`-`Z`, `a`-`z`, `0`-`9`, `+` and `/`.
pub open spec fn base64_char(n: int) -> char {
    if n < 26 {
        (65 + n) as char
    } else if n < 52 {
        (97 + n - 26) as char
    } else if n < 62 {
        (48 + n - 52) as char
    } else if n == 62 {
        '+'
    } else {
        '/'
    }
}

/// The standard base64 encoding of some bytes, as the base64 crate's `BASE64_STANDARD`
/// engine writes it: each three bytes become four characters of six bits each, and a last
/// one or two bytes become two or three characters padded with `=` to four.
pub open spec fn base64_standard(data: Seq<u8>) -> Seq<char>
    decreases data.len(),
{
    if data.len() == 0 {
        Seq::empty()
    } else if data.len() == 1 {
        let a = data[0] as int;
        seq![base64_char(a / 4), base64_char((a % 4) * 16), '=', '=']
    } else if data.len() == 2 {
        let a = data[0] as int;
        let b = data[1] as int;
        seq![base64_char(a / 4), base64_char((a % 4) * 16 + b / 16), base64_char((b % 16) * 4), '=']
    } else {
        let a = data[0] as int;
        let b = data[1] as int;
        let c = data[2] as int;
        seq![
            base64_char(a / 4),
            base64_char((a % 4) * 16 + b / 16),
            base64_char((b % 16) * 4 + c / 64),
            base64_char(c % 64),
        ] + base64_standard(data.skip(3))
    }
}

/// The lower-case hex digit for a number below sixteen.
pub open spec fn hex_digit_byte(n: u8) -> u8 {
    if n < 10 {
        (48 + n) as u8
    } else {
        (87 + n) as u8
    }
}

/// Bytes written as lower-case hex, two digits a byte, the high digit first.
pub open spec fn hex_lower_bytes(d: Seq<u8>) -> Seq<u8> {
    Seq::new(
        2 * d.len(),
        |i: int| hex_digit_byte(if i % 2 == 0 { d[i / 2] >> 4u8 } else { d[i / 2] & 0x0fu8 }),
    )
}

/// The value of a hex digit of either case, as base16's `decode_byte` gives it.
pub open spec fn hex_value(c: u8) -> Option<u8> {
    if 48 <= c <= 57 {
        Some((c - 48) as u8)
    } else if 97 <= c <= 102 {
        Some((c - 87) as u8)
    } else if 65 <= c <= 70 {
        Some((c - 55) as u8)
    } else {
        None
    }
}

pub open spec fn all_hex(s: Seq<u8>) -> bool {
    forall|i: int| 0 <= i < s.len() ==> (#[trigger] hex_value(s[i])) is Some
}

/// Pairs of hex digits read as bytes.
pub open spec fn hex_decode(s: Seq<u8>) -> Seq<u8> {
    Seq::new(
        s.len() / 2,
        |i: int| (hex_value(s[2 * i])->0 * 16 + hex_value(s[2 * i + 1])->0) as u8,
    )
}

/// rust-crypto's `Sha1::new`, `input_str` and `result_str`: the SHA-1 digest of the
/// string's UTF-8 bytes, written as lower-case hex (`result_str` hexes the twenty bytes
/// of the digest with rustc-serialize's `to_hex`). What the digest is, is left to the name.
#[verifier::external_body]
fn sha1_hex(input: &str) -> (r: String)
    ensures
        utf8(r@) == hex_lower_bytes(sha1_digest(utf8(input@))) && utf8(r@).len() == 40,
{
    let mut sha1 = crypto::sha1::Sha1::new();
    sha1.input_str(input);
    sha1.result_str()
}

/// base16's `DecodeError`, the error of `base16::decode_slice`; nothing is read from it.
#[verifier::external_type_specification]
#[verifier::external_body]
pub struct ExDecodeError(base16::DecodeError);

/// `base16::decode_slice`: an odd-length input is refused; otherwise each pair of hex
/// digits (of either case) becomes a byte at the start of `out`, and the number of bytes
/// is returned, unless a byte is no hex digit, which gives an error. The bytes of `out`
/// past the decoded ones are left alone. The crate panics when `out` is too short for an
/// even-length input, which `requires` leaves out.
#[verifier::external_body]
fn base16_decode_slice(input: &[u8], out: &mut [u8]) -> (r: Result<usize, base16::DecodeError>)
    requires
        input@.len() % 2 == 1 || old(out)@.len() >= input@.len() / 2,
    ensures
        final(out)@.len() == old(out)@.len(),
        input@.len() % 2 == 1 ==> r is Err && final(out)@ == old(out)@,
        input@.len() % 2 == 0 ==> final(out)@.subrange((input@.len() / 2) as int, old(out)@.len() as int)
            == old(out)@.subrange((input@.len() / 2) as int, old(out)@.len() as int),
        input@.len() % 2 == 0 && all_hex(input@) ==> r is Ok && r->Ok_0 == input@.len() / 2
            && final(out)@.subrange(0, (input@.len() / 2) as int) == hex_decode(input@),
        input@.len() % 2 == 0 && !all_hex(input@) ==> r is Err,
{
    base16::decode_slice(input, out)
}

/// `BASE64_STANDARD.encode` of the base64 crate.
#[verifier::external_body]
fn base64_encode(data: &[u8]) -> (r: String)
    ensures
        r@ == base64_standard(data@),
{
    base64::prelude::BASE64_STANDARD.encode(data)
}

proof fn lemma_hex_round_trip(d: Seq<u8>)
    ensures
        all_hex(hex_lower_bytes(d)),
        hex_decode(hex_lower_bytes(d)) == d,
{
    let h = hex_lower_bytes(d);
    assert forall|i: int| 0 <= i < h.len() implies (#[trigger] hex_value(h[i])) is Some by {
        let x = d[i / 2];
        let n: u8 = if i % 2 == 0 { x >> 4u8 } else { x & 0x0fu8 };
        assert(x >> 4u8 < 16 && x & 0x0fu8 < 16) by (bit_vector);
    }
    assert forall|i: int| 0 <= i < d.len() implies #[trigger] hex_decode(h)[i] == d[i] by {
        let x = d[i];
        let hi = x >> 4u8;
        let lo = x & 0x0fu8;
        assert(hi < 16 && lo < 16 && hi * 16 + lo == x) by (bit_vector)
            requires hi == x >> 4u8, lo == x & 0x0fu8;
        assert((2 * i) % 2 == 0 && (2 * i) / 2 == i);
        assert((2 * i + 1) % 2 == 1 && (2 * i + 1) / 2 == i);
        assert(h[2 * i] == hex_digit_byte(hi));
        assert(h[2 * i + 1] == hex_digit_byte(lo));
    }
    assert(hex_decode(h) =~= d);
}

/// The `Sec-WebSocket-Accept` answer to a client's `Sec-WebSocket-Key`: the base64 of the
/// SHA-1 digest of the key with the GUID appended.
pub fn encode(key: String) -> (r: String)
    ensures
        r@ == base64_standard(sha1_digest(utf8(key@ + accept_guid()))),
{
    let mut str = key;
    push_str(&mut str, "258EAFA5-E914-47DA-95CA-C5AB0DC85B11");
    let hash = sha1_hex(str.as_str());
    let ghost digest = sha1_digest(utf8(str@));
    let mut buf: [u8; 20] = [0u8; 20];
    let hex = hash.as_str().as_bytes();
    proof {
        lemma_hex_round_trip(digest);
    }
    let _ = base16_decode_slice(hex, &mut buf);
    assert(buf@ =~= buf@.subrange(0, 20));
    base64_encode(&buf)
}


/// The answer that accepts a WebSocket upgrade: its status, its headers and its body.
pub struct UpgradeResponse {
    pub status: u16,
    pub headers: Vec<HeaderLine>,
    pub body: String,
}

/// The `Sec-WebSocket-Accept` value for the request's key.
pub open spec fn accept_for(key: Seq<char>) -> Seq<char> {
    base64_standard(sha1_digest(utf8(key + accept_guid())))
}

/// The answer to a request that asks to upgrade to a WebSocket: status 101, the accept key
/// computed from its `Sec-WebSocket-Key` header as the body and as `Sec-WebSocket-Accept`,
/// then `Connection: Upgrade` and `Upgrade: websocket`.
pub fn get_upgrade_response(headers: &Vec<HeaderLine>) -> (r: UpgradeResponse)
    requires
        find_value(headers@, utf8("Sec-WebSocket-Key"@)) is Some,
    ensures
        r.status == 101,
        r.body@ == accept_for(find_value(headers@, utf8("Sec-WebSocket-Key"@))->0),
        r.headers@.len() == 3,
        r.headers@[0].field@ == "Sec-WebSocket-Accept"@,
        r.headers@[0].value@ == r.body@,
        r.headers@[1].field@ == "Connection"@,
        r.headers@[1].value@ == "Upgrade"@,
        r.headers@[2].field@ == "Upgrade"@,
        r.headers@[2].value@ == "websocket"@,
{
    let key = find_header(headers, "Sec-WebSocket-Key").unwrap();
    let accept = encode(key.clone());
    let mut lines: Vec<HeaderLine> = Vec::new();
    lines.push(HeaderLine { field: "Sec-WebSocket-Accept".to_owned(), value: accept.clone() });
    lines.push(HeaderLine { field: "Connection".to_owned(), value: "Upgrade".to_owned() });
    lines.push(HeaderLine { field: "Upgrade".to_owned(), value: "websocket".to_owned() });
    UpgradeResponse { status: 101, headers: lines, body: accept }
}

// ---------------------------------------------------------------------------
// The worker pool
// ---------------------------------------------------------------------------

/// Whether a pool with `workers` workers may spawn one more under its limit, if it has one.
pub fn may_spawn(workers: usize, limit: Option<usize>) -> (r: bool)
    ensures
        r == match limit {
            Some(n) => workers <= n,
            None => true,
        },
{
    match limit {
        Some(n) => workers <= n,
        None => true,
    }
}

} // verus!
