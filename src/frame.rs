use vstd::prelude::*;
use crate::color::{Color, wire_order};

verus! {

/// Output byte whose pulse the strip reads as a 0 bit.
pub const LED_ZERO: u8 = 0xC0;
/// Output byte whose pulse the strip reads as a 1 bit.
pub const LED_ONE: u8 = 0xFC;
/// Length of the all-zero reset prefix that latches the previous frame.
pub const RESET_BYTES_COUNT: usize = 42;
/// Output bytes per LED: three color bytes, one output byte per bit.
pub const BYTES_PER_LED: usize = 24;

/// Bit `k` of `b`, counted from the least significant.
pub open spec fn bit_of(b: u8, k: u8) -> bool {
    (b >> k) & 1u8 == 1u8
}

pub open spec fn pulse(bit: bool) -> u8 {
    if bit {
        LED_ONE
    } else {
        LED_ZERO
    }
}

/// The eight output bytes for one data byte, most significant bit first.
pub open spec fn byte_pulses(b: u8) -> Seq<u8> {
    Seq::new(8, |i: int| pulse(bit_of(b, (7 - i) as u8)))
}

/// Output byte `j` (in `0..24`) of one LED.
pub open spec fn led_pulse(c: Color, j: int) -> u8 {
    byte_pulses(wire_order(c)[j / 8])[j % 8]
}

/// Length of the transmit frame for `n` LEDs.
pub open spec fn frame_len(n: nat) -> nat {
    RESET_BYTES_COUNT as nat + BYTES_PER_LED as nat * n
}

/// The whole transmit frame: the zero reset prefix, then each LED's output bytes in order.
pub open spec fn frame_bytes(leds: Seq<Color>) -> Seq<u8> {
    Seq::new(
        frame_len(leds.len()),
        |k: int|
            if k < RESET_BYTES_COUNT {
                0u8
            } else {
                led_pulse(
                    leds[(k - RESET_BYTES_COUNT) / 24],
                    (k - RESET_BYTES_COUNT) % 24,
                )
            },
    )
}

/// Expands one data byte into eight output bytes, most significant bit first.
pub fn byte_to_spi_bits(byte: u8) -> (bits: [u8; 8])
    ensures
        bits@ == byte_pulses(byte),
{
    let mut bits: [u8; 8] = [0u8; 8];
    let mut i: usize = 0;
    while i < 8
        invariant
            0 <= i <= 8,
            bits@.len() == 8,
            forall|m: int| 0 <= m < i ==> bits@[m] == byte_pulses(byte)[m],
        decreases 8 - i,
    {
        let shift: u8 = 7 - i as u8;
        bits[i] = if (byte >> shift) & 1 == 1 {
            LED_ONE
        } else {
            LED_ZERO
        };
        i = i + 1;
    }
    assert(bits@ =~= byte_pulses(byte));
    bits
}

proof fn lemma_frame_index(n: nat, led: nat, j: nat)
    requires
        led < n,
        j < 24,
    ensures
        RESET_BYTES_COUNT + 24 * led + j < frame_len(n),
        ((RESET_BYTES_COUNT + 24 * led + j) - RESET_BYTES_COUNT) / 24 == led,
        ((RESET_BYTES_COUNT + 24 * led + j) - RESET_BYTES_COUNT) % 24 == j,
{
    vstd::arithmetic::div_mod::lemma_fundamental_div_mod_converse(
        (24 * led + j) as int,
        24,
        led as int,
        j as int,
    );
    assert(24 * led + j < 24 * n) by (nonlinear_arith)
        requires
            led < n,
            j < 24,
    ;
}

/// Rewrites every byte of `tx` with the frame for `leds`.
pub fn encode_frame(leds: &Vec<Color>, tx: &mut Vec<u8>)
    requires
        old(tx)@.len() == frame_len(leds@.len()),
    ensures
        final(tx)@ == frame_bytes(leds@),
{
    let n = leds.len();
    let tx_len = tx.len();
    let mut k: usize = 0;
    while k < RESET_BYTES_COUNT
        invariant
            0 <= k <= RESET_BYTES_COUNT,
            n == leds@.len(),
            tx@.len() == frame_len(n as nat),
            tx_len == tx@.len(),
            forall|m: int| 0 <= m < k ==> tx@[m] == frame_bytes(leds@)[m],
        decreases RESET_BYTES_COUNT - k,
    {
        tx[k] = 0;
        k = k + 1;
    }
    let mut led: usize = 0;
    while led < n
        invariant
            0 <= led <= n,
            n == leds@.len(),
            tx@.len() == frame_len(n as nat),
            tx_len == tx@.len(),
            forall|m: int|
                0 <= m < RESET_BYTES_COUNT + 24 * led ==> tx@[m] == frame_bytes(leds@)[m],
        decreases n - led,
    {
        let grb = leds[led].to_grb();
        let mut byte: usize = 0;
        while byte < 3
            invariant
                0 <= led < n,
                0 <= byte <= 3,
                n == leds@.len(),
                grb@ == wire_order(leds@[led as int]),
                tx@.len() == frame_len(n as nat),
            tx_len == tx@.len(),
                forall|m: int|
                    0 <= m < RESET_BYTES_COUNT + 24 * led + 8 * byte ==> tx@[m] == frame_bytes(
                        leds@,
                    )[m],
            decreases 3 - byte,
        {
            let bits = byte_to_spi_bits(grb[byte]);
            let mut i: usize = 0;
            while i < 8
                invariant
                    0 <= led < n,
                    0 <= byte < 3,
                    0 <= i <= 8,
                    n == leds@.len(),
                    grb@ == wire_order(leds@[led as int]),
                    bits@ == byte_pulses(grb@[byte as int]),
                    tx@.len() == frame_len(n as nat),
            tx_len == tx@.len(),
                    forall|m: int|
                        0 <= m < RESET_BYTES_COUNT + 24 * led + 8 * byte + i ==> tx@[m]
                            == frame_bytes(leds@)[m],
                decreases 8 - i,
            {
                let j: usize = 8 * byte + i;
                proof {
                    lemma_frame_index(n as nat, led as nat, j as nat);
                    assert(j / 8 == byte && j % 8 == i) by {
                        vstd::arithmetic::div_mod::lemma_fundamental_div_mod_converse(
                            j as int,
                            8,
                            byte as int,
                            i as int,
                        );
                    }
                }
                let pos: usize = RESET_BYTES_COUNT + 24 * led + j;
                tx[pos] = bits[i];
                i = i + 1;
            }
            byte = byte + 1;
        }
        led = led + 1;
    }
    assert(tx@ =~= frame_bytes(leds@));
}

} // verus!
