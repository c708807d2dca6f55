use vstd::prelude::*;
use crate::color::{Color, scaled, black_spec};
use crate::error::Ws2812Error;
use crate::frame::{frame_bytes, RESET_BYTES_COUNT};
use crate::strip::{
    Animation,
    StripView,
    breathe_frames,
    breathe_outcome,
    chase_frames_per_led,
    chase_index,
    chase_pattern,
    lemma_breathe_frames_bound,
    lemma_chase_frames_bound,
    uniform,
    MIN_BREATHE_FRAMES,
};
use crate::task::SetLedStripStatusEvent;

verus! {

/// The transmit frame always holds the reset prefix plus 24 bytes per LED: a
/// rendered frame has that length, and every operation on a well-formed strip
/// keeps the strip well-formed, which includes that length.
pub proof fn lemma_frame_length_invariant(
    v: StripView,
    index: int,
    c: Color,
    colors: Seq<Color>,
    mhz: nat,
    clockwise: bool,
    level: nat,
    e: SetLedStripStatusEvent,
)
    requires
        v.wf(),
    ensures
        frame_bytes(v.leds).len() == RESET_BYTES_COUNT + 24 * v.num_leds(),
        v.tx.len() == RESET_BYTES_COUNT + 24 * v.num_leds(),
        v.led_set(index, c).wf(),
        v.filled(c).wf(),
        v.leds_set(colors).wf(),
        v.rendered().wf(),
        v.cleared().wf(),
        v.stopped().wf(),
        v.breathe_started(c, mhz).wf(),
        v.chase_started(c, mhz, clockwise).wf(),
        v.ticked(level).wf(),
        v.event_applied(e).wf(),
{
    if mhz > 0 {
        lemma_chase_frames_bound(mhz, v.num_leds());
        lemma_breathe_frames_bound(mhz);
    }
    match e.status {
        Some(st) => {
            if st.frequency_mhz > 0 {
                lemma_breathe_frames_bound(st.frequency_mhz as nat);
            }
        },
        None => {},
    }
    match v.animation {
        Some(Animation::Chase { frames_per_led, total_frames, frame, .. }) => {
            if total_frames > 0 {
                assert((frame + 1) % (total_frames as int) < total_frames);
            }
        },
        _ => {},
    }
}

/// Setting an LED in range and reading it back gives the color that was set; an
/// index at or past the length is refused by both calls and leaves the strip as it was.
pub proof fn lemma_set_get_round_trip(v: StripView, index: usize, c: Color)
    requires
        v.wf(),
    ensures
        index < v.num_leds() ==> v.set_outcome(index as int) == Ok::<(), Ws2812Error>(())
            && v.led_set(index as int, c).get_outcome(index as int) == Ok::<Color, Ws2812Error>(
            c,
        ),
        index >= v.num_leds() ==> v.set_outcome(index as int) == Err::<(), Ws2812Error>(
            Ws2812Error::IndexOutOfRange { index, len: v.config.num_leds },
        ) && v.get_outcome(index as int) == Err::<Color, Ws2812Error>(
            Ws2812Error::IndexOutOfRange { index, len: v.config.num_leds },
        ) && v.led_set(index as int, c) == v,
{
}

/// Copying fewer colors than there are LEDs turns the remaining LEDs black,
/// whatever they held before.
pub proof fn lemma_short_input_clears_tail(v: StripView, colors: Seq<Color>)
    requires
        v.wf(),
        colors.len() < v.num_leds(),
    ensures
        forall|i: int|
            0 <= i < colors.len() ==> #[trigger] v.leds_set(colors).leds[i] == colors[i],
        forall|i: int|
            colors.len() <= i < v.num_leds() ==> #[trigger] v.leds_set(colors).leds[i]
                == black_spec(),
{
}

/// Starting an animation replaces whatever ran before: the result of starting B
/// does not depend on an earlier start of A, exactly one animation (B) is then
/// running, and its first frame writes only B's pattern.
pub proof fn lemma_start_replaces_running(
    v: StripView,
    color_a: Color,
    mhz_a: nat,
    clockwise_a: bool,
    color_b: Color,
    mhz_b: nat,
    clockwise_b: bool,
    level: nat,
)
    requires
        v.wf(),
    ensures
        v.breathe_started(color_a, mhz_a).breathe_started(color_b, mhz_b) == v.breathe_started(
            color_b,
            mhz_b,
        ),
        v.chase_started(color_a, mhz_a, clockwise_a).breathe_started(color_b, mhz_b)
            == v.breathe_started(color_b, mhz_b),
        v.breathe_started(color_a, mhz_a).chase_started(color_b, mhz_b, clockwise_b)
            == v.chase_started(color_b, mhz_b, clockwise_b),
        v.chase_started(color_a, mhz_a, clockwise_a).chase_started(color_b, mhz_b, clockwise_b)
            == v.chase_started(color_b, mhz_b, clockwise_b),
        breathe_outcome(mhz_b) is Ok ==> v.breathe_started(color_b, mhz_b).animation == Some(
            Animation::Breathe {
                color: color_b,
                frames_per_cycle: breathe_frames(mhz_b) as usize,
                frame: 0,
            },
        ) && v.breathe_started(color_b, mhz_b).ticked(level).leds == uniform(
            v.num_leds(),
            scaled(color_b, level),
        ),
        mhz_b > 0 && v.num_leds() > 0 ==> v.chase_started(
            color_b,
            mhz_b,
            clockwise_b,
        ).animation is Some && v.chase_started(color_b, mhz_b, clockwise_b).ticked(level).leds
            == chase_pattern(
            v.num_leds(),
            color_b,
            chase_index(
                v.num_leds(),
                chase_frames_per_led(mhz_b, v.num_leds()),
                0,
                clockwise_b,
            ),
        ),
{
    lemma_frame_length_invariant(
        v,
        0,
        color_b,
        Seq::empty(),
        mhz_b,
        clockwise_b,
        level,
        SetLedStripStatusEvent { enable: false, status: None },
    );
    if mhz_b > 0 {
        lemma_breathe_frames_bound(mhz_b);
        lemma_chase_frames_bound(mhz_b, v.num_leds());
    }
    if mhz_b > 0 && v.num_leds() > 0 {
        let fpl = chase_frames_per_led(mhz_b, v.num_leds());
        assert(fpl * v.num_leds() > 0) by (nonlinear_arith)
            requires
                fpl >= 1,
                v.num_leds() >= 1,
        ;
    }
}

/// Stopping twice is the same as stopping once, and once stopped no frame
/// changes the strip any more.
pub proof fn lemma_stop_is_final(v: StripView, level: nat)
    ensures
        v.stopped().stopped() == v.stopped(),
        v.stopped().ticked(level) == v.stopped(),
        v.stopped().animation is None,
{
}

/// A breathing frequency that leaves fewer than `MIN_BREATHE_FRAMES` frames per
/// cycle is refused with `FrequencyTooHigh` and leaves no animation running; at
/// the 30 fps refresh that is every frequency from 5455 millihertz up.
pub proof fn lemma_breathe_too_fast(v: StripView, c: Color, mhz: nat)
    requires
        v.wf(),
    ensures
        mhz > 0 && breathe_frames(mhz) < MIN_BREATHE_FRAMES ==> breathe_outcome(mhz) == Err::<
            usize,
            Ws2812Error,
        >(Ws2812Error::FrequencyTooHigh { frames_per_cycle: breathe_frames(mhz) as usize })
            && v.breathe_started(c, mhz).animation is None,
        mhz > 0 ==> (breathe_frames(mhz) < MIN_BREATHE_FRAMES <==> mhz >= 5455),
{
    if mhz > 0 {
        if mhz >= 5455 {
            assert(60000 + mhz < 6 * (2 * mhz));
            assert((60000 + mhz) / (2 * mhz) < 6) by (nonlinear_arith)
                requires
                    60000 + mhz < 6 * (2 * mhz),
                    mhz > 0,
            ;
        } else {
            assert(60000 + mhz >= 6 * (2 * mhz));
            assert((60000 + mhz) / (2 * mhz) >= 6) by (nonlinear_arith)
                requires
                    60000 + mhz >= 6 * (2 * mhz),
                    mhz > 0,
            ;
        }
    }
}

} // verus!
