//! Pure decoding of a 14-byte frame payload into button and axis state.

use vstd::prelude::*;

verus! {

/// Number of payload bytes in one frame (frame length 16 minus the
/// two-byte sentinel).
pub const PAYLOAD_LENGTH: usize = 14;

/// Bit `k` of byte `b`, least-significant bit first.
pub open spec fn bit_of(b: u8, k: u8) -> bool {
    (b >> k) & 1 == 1
}

/// Button `i` as laid out in the payload: bit `i % 8` of byte `i / 8`.
pub open spec fn button_bit(payload: Seq<u8>, i: int) -> bool {
    bit_of(payload[i / 8], (i % 8) as u8)
}

/// Axis sample `i` as laid out in the payload: the little-endian unsigned
/// 16-bit value at bytes `6 + 2i` and `6 + 2i + 1`.
pub open spec fn axis_sample(payload: Seq<u8>, i: int) -> u16 {
    (payload[6 + 2 * i] + payload[6 + 2 * i + 1] * 256) as u16
}

/// What it means for button flags `pressed` and axis readings `axes` to be
/// the decoding of `payload`.
pub open spec fn decodes_to(payload: Seq<u8>, pressed: Seq<bool>, axes: Seq<u16>) -> bool {
    &&& payload.len() == 14
    &&& pressed.len() == 48
    &&& axes.len() == 4
    &&& forall|i: int| 0 <= i < 48 ==> pressed[i] == button_bit(payload, i)
    &&& forall|i: int| 0 <= i < 4 ==> axes[i] == axis_sample(payload, i)
}

/// Decoded state of one frame: 48 ordered button flags and four raw
/// unsigned axis readings. Built fresh per frame and consumed immediately.
pub struct ButtonState {
    pub pressed: [bool; 48],
    pub joysticks: [u16; 4],
}

impl ButtonState {
    /// Decodes a 14-byte payload: the first six bytes give the 48 button
    /// bits, least-significant bit first, and the last eight bytes give the
    /// four little-endian axis samples.
    pub fn from_buffer(buffer: &[u8]) -> (state: ButtonState)
        requires
            buffer@.len() == PAYLOAD_LENGTH,
        ensures
            decodes_to(buffer@, state.pressed@, state.joysticks@),
    {
        let mut pressed: [bool; 48] = [false; 48];
        let mut joysticks: [u16; 4] = [0; 4];

        let mut i: usize = 0;
        while i < 48
            invariant
                i <= 48,
                buffer@.len() == 14,
                forall|j: int| 0 <= j < i ==> pressed@[j] == button_bit(buffer@, j),
            decreases 48 - i,
        {
            pressed[i] = (buffer[i / 8] >> (i % 8) as u8) & 1 == 1;
            i += 1;
        }

        let mut i: usize = 0;
        while i < 4
            invariant
                i <= 4,
                buffer@.len() == 14,
                forall|j: int| 0 <= j < 48 ==> pressed@[j] == button_bit(buffer@, j),
                forall|j: int| 0 <= j < i ==> joysticks@[j] == axis_sample(buffer@, j),
            decreases 4 - i,
        {
            let lo = buffer[6 + i * 2];
            let hi = buffer[6 + i * 2 + 1];
            assert((hi as u16) << 8 == hi as u16 * 256) by (bit_vector);
            joysticks[i] = lo as u16 + ((hi as u16) << 8);
            i += 1;
        }

        ButtonState { pressed, joysticks }
    }
}

/// Decoding is a function of the payload alone: any two decodings of the
/// same payload agree, so repeated calls on identical input give identical
/// output.
pub proof fn lemma_decode_deterministic(
    payload: Seq<u8>,
    pressed1: Seq<bool>,
    axes1: Seq<u16>,
    pressed2: Seq<bool>,
    axes2: Seq<u16>,
)
    requires
        decodes_to(payload, pressed1, axes1),
        decodes_to(payload, pressed2, axes2),
    ensures
        pressed1 == pressed2,
        axes1 == axes2,
{
    assert(pressed1 =~= pressed2);
    assert(axes1 =~= axes2);
}

/// Packs 48 button flags into the six-byte button region of a payload,
/// inverse to the button half of the decoder.
pub fn encode_buttons(pressed: &[bool]) -> (bytes: Vec<u8>)
    requires
        pressed@.len() == 48,
    ensures
        bytes@.len() == 6,
        forall|i: int| 0 <= i < 48 ==> button_bit(bytes@, i) == pressed@[i],
{
    let mut bytes: Vec<u8> = Vec::new();
    let mut j: usize = 0;
    while j < 6
        invariant
            j <= 6,
            bytes@.len() == j,
            pressed@.len() == 48,
            forall|i: int| 0 <= i < 8 * j ==> button_bit(bytes@, i) == pressed@[i],
        decreases 6 - j,
    {
        let mut byte: u8 = 0;
        proof {
            lemma_zero_bits();
        }
        let mut k: usize = 0;
        while k < 8
            invariant
                k <= 8,
                j < 6,
                pressed@.len() == 48,
                forall|m: u8| m < k ==> bit_of(byte, m) == pressed@[8 * j + m],
                forall|m: u8| k <= m < 8 ==> !bit_of(byte, m),
            decreases 8 - k,
        {
            let ghost prev = byte;
            if pressed[j * 8 + k] {
                byte = byte | (1u8 << (k as u8));
            }
            proof {
                lemma_set_bit(prev, k as u8);
            }
            k += 1;
        }
        let ghost before = bytes@;
        bytes.push(byte);
        proof {
            assert forall|i: int| 0 <= i < 8 * (j + 1) implies button_bit(bytes@, i)
                == pressed@[i] by {
                if i < 8 * j {
                    assert(i / 8 < j as int);
                    assert(bytes@[i / 8] == before[i / 8]);
                } else {
                    assert(i / 8 == j as int);
                    assert(i % 8 == i - 8 * j);
                    assert(bytes@[j as int] == byte);
                }
            }
        }
        j += 1;
    }
    bytes
}

/// A byte of zero has every bit clear.
proof fn lemma_zero_bits()
    by (bit_vector)
    ensures
        forall|m: u8| !bit_of(0u8, m),
{
}

/// Setting bit `k` of a byte makes that bit true and leaves every other
/// bit unchanged.
proof fn lemma_set_bit(b: u8, k: u8)
    by (bit_vector)
    requires
        k < 8,
    ensures
        bit_of(b | (1u8 << k), k),
        forall|m: u8| m < 8 && m != k ==> #[trigger] bit_of(b | (1u8 << k), m) == bit_of(b, m),
{
}

/// Bit-layout round trip: a payload whose button region carries the
/// encoding of 48 flags decodes to exactly those flags.
pub proof fn lemma_button_round_trip(
    bits: Seq<bool>,
    bytes: Seq<u8>,
    payload: Seq<u8>,
    pressed: Seq<bool>,
    axes: Seq<u16>,
)
    requires
        bits.len() == 48,
        bytes.len() == 6,
        forall|i: int| 0 <= i < 48 ==> button_bit(bytes, i) == bits[i],
        payload.len() == 14,
        payload.subrange(0, 6) == bytes,
        decodes_to(payload, pressed, axes),
    ensures
        pressed == bits,
{
    assert forall|i: int| 0 <= i < 48 implies pressed[i] == bits[i] by {
        assert(0 <= i / 8 < 6);
        assert(payload[i / 8] == payload.subrange(0, 6)[i / 8]);
    }
    assert(pressed =~= bits);
}

} // verus!
