use vstd::prelude::*;
use crate::color::{Color, scaled, black_spec};
use crate::config::SpiConfig;
use crate::error::Ws2812Error;
use crate::frame::{frame_bytes, frame_len, encode_frame, RESET_BYTES_COUNT, BYTES_PER_LED};

verus! {

/// Hardware refresh rate, in frames per second.
pub const REFRESH_FPS: u64 = 30;
/// Fewest frames a breathing cycle may have without visible stepping.
pub const MIN_BREATHE_FRAMES: usize = 6;

/// The pattern that is currently rewriting the LED buffer, with its position.
#[derive(Debug, Clone, Copy, PartialEq, Eq, Structural)]
pub enum Animation {
    /// The whole strip in one color whose brightness follows a cosine envelope.
    Breathe { color: Color, frames_per_cycle: usize, frame: usize },
    /// One lit LED that advances around the strip.
    Chase {
        color: Color,
        frames_per_led: usize,
        total_frames: usize,
        frame: usize,
        clockwise: bool,
    },
}

/// The abstract state of a strip.
#[verifier::ext_equal]
pub struct StripView {
    pub config: SpiConfig,
    pub leds: Seq<Color>,
    pub tx: Seq<u8>,
    pub animation: Option<Animation>,
}

pub open spec fn animation_wf(a: Animation, n: nat) -> bool {
    match a {
        Animation::Breathe { frames_per_cycle, frame, .. } => frames_per_cycle
            >= MIN_BREATHE_FRAMES && frame < frames_per_cycle,
        Animation::Chase { frames_per_led, total_frames, frame, .. } => frames_per_led >= 1
            && total_frames == frames_per_led * n && (frame < total_frames || (total_frames == 0
            && frame == 0)),
    }
}

/// `n` copies of `c`.
pub open spec fn uniform(n: nat, c: Color) -> Seq<Color> {
    Seq::new(n, |i: int| c)
}

/// Frames in one breathing cycle at `mhz` millihertz: `REFRESH_FPS / hz`, rounded half up.
pub open spec fn breathe_frames(mhz: nat) -> nat {
    (2 * (REFRESH_FPS as nat) * 1000 + mhz) / (2 * mhz)
}

/// Frames that each LED stays lit in a chase at `mhz` millihertz over `n` LEDs:
/// `REFRESH_FPS / hz / n`, rounded up.
pub open spec fn chase_frames_per_led(mhz: nat, n: nat) -> nat {
    if n == 0 {
        1
    } else {
        ((REFRESH_FPS as nat) * 1000 + mhz * n - 1) as nat / (mhz * n)
    }
}

/// Outcome of asking for a breathing cycle at `mhz` millihertz: its frame count, or the error.
pub open spec fn breathe_outcome(mhz: nat) -> Result<usize, Ws2812Error> {
    if mhz == 0 {
        Err(Ws2812Error::ZeroFrequency)
    } else if breathe_frames(mhz) < MIN_BREATHE_FRAMES {
        Err(Ws2812Error::FrequencyTooHigh { frames_per_cycle: breathe_frames(mhz) as usize })
    } else {
        Ok(breathe_frames(mhz) as usize)
    }
}

pub open spec fn chase_outcome(mhz: nat) -> Result<(), Ws2812Error> {
    if mhz == 0 {
        Err(Ws2812Error::ZeroFrequency)
    } else {
        Ok(())
    }
}

/// Index of the lit LED at `frame` of a chase.
pub open spec fn chase_index(n: nat, frames_per_led: nat, frame: nat, clockwise: bool) -> int {
    if clockwise {
        n - 1 - frame / frames_per_led
    } else {
        (frame / frames_per_led) as int
    }
}

/// `n` LEDs, all black but the one at `lit`.
pub open spec fn chase_pattern(n: nat, c: Color, lit: int) -> Seq<Color> {
    Seq::new(n, |i: int| if i == lit { c } else { black_spec() })
}

/// A breathing cycle has at most 30001 frames.
pub proof fn lemma_breathe_frames_bound(mhz: nat)
    requires
        mhz >= 1,
    ensures
        breathe_frames(mhz) <= 30001,
{
    assert(2 * (REFRESH_FPS as nat) * 1000 + mhz <= 30001 * (2 * mhz)) by (nonlinear_arith)
        requires
            mhz >= 1,
    ;
    assert((2 * (REFRESH_FPS as nat) * 1000 + mhz) / (2 * mhz) <= 30001) by (nonlinear_arith)
        requires
            mhz >= 1,
            2 * (REFRESH_FPS as nat) * 1000 + mhz <= 30001 * (2 * mhz),
    ;
}

/// A chase keeps each LED lit for at least one frame, and its whole run of
/// frames fits in a `usize`.
pub proof fn lemma_chase_frames_bound(mhz: nat, n: nat)
    requires
        mhz >= 1,
        n <= usize::MAX,
    ensures
        1 <= chase_frames_per_led(mhz, n) <= REFRESH_FPS * 1000,
        chase_frames_per_led(mhz, n) * n <= usize::MAX,
{
    if n > 0 {
        let a = REFRESH_FPS as int * 1000;
        let d = mhz * n;
        let fpl = chase_frames_per_led(mhz, n);
        assert(d >= n) by (nonlinear_arith)
            requires
                d == mhz * n,
                mhz >= 1,
        ;
        assert(fpl >= 1) by (nonlinear_arith)
            requires
                fpl as int == (a + d - 1) / (d as int),
                d >= 1,
                a >= 1,
        ;
        assert(fpl <= a) by (nonlinear_arith)
            requires
                fpl as int == (a + d - 1) / (d as int),
                d >= 1,
                a >= 1,
        ;
        if d >= a {
            assert(fpl <= 1) by (nonlinear_arith)
                requires
                    fpl as int == (a + d - 1) / (d as int),
                    d >= a,
                    a >= 1,
            ;
            assert(fpl * n <= n) by (nonlinear_arith)
                requires
                    fpl <= 1,
            ;
        } else {
            assert(fpl * n <= a * a) by (nonlinear_arith)
                requires
                    fpl <= a,
                    n <= d,
                    d < a,
            ;
        }
    }
}

impl StripView {
    pub open spec fn num_leds(self) -> nat {
        self.config.num_leds as nat
    }

    pub open spec fn wf(self) -> bool {
        &&& self.leds.len() == self.num_leds()
        &&& self.tx.len() == frame_len(self.num_leds())
        &&& frame_len(self.num_leds()) <= usize::MAX
        &&& self.animation matches Some(a) ==> animation_wf(a, self.num_leds())
    }

    pub open spec fn with_leds(self, leds: Seq<Color>) -> StripView {
        StripView { leds, ..self }
    }

    pub open spec fn with_animation(self, animation: Option<Animation>) -> StripView {
        StripView { animation, ..self }
    }

    /// A fresh strip: every LED black, a zero frame, no animation.
    pub open spec fn initial(config: SpiConfig) -> StripView {
        StripView {
            config,
            leds: uniform(config.num_leds as nat, black_spec()),
            tx: Seq::new(frame_len(config.num_leds as nat), |i: int| 0u8),
            animation: None,
        }
    }

    pub open spec fn get_outcome(self, index: int) -> Result<Color, Ws2812Error> {
        if index < self.num_leds() {
            Ok(self.leds[index])
        } else {
            Err(Ws2812Error::IndexOutOfRange { index: index as usize, len: self.config.num_leds })
        }
    }

    pub open spec fn set_outcome(self, index: int) -> Result<(), Ws2812Error> {
        if index < self.num_leds() {
            Ok(())
        } else {
            Err(Ws2812Error::IndexOutOfRange { index: index as usize, len: self.config.num_leds })
        }
    }

    /// LED `index` set to `c`; no change for an index out of range.
    pub open spec fn led_set(self, index: int, c: Color) -> StripView {
        if 0 <= index < self.num_leds() {
            self.with_leds(self.leds.update(index, c))
        } else {
            self
        }
    }

    pub open spec fn filled(self, c: Color) -> StripView {
        self.with_leds(uniform(self.num_leds(), c))
    }

    /// The first LEDs taken from `colors`, any others black.
    pub open spec fn leds_set(self, colors: Seq<Color>) -> StripView {
        self.with_leds(
            Seq::new(
                self.num_leds(),
                |i: int|
                    if i < colors.len() {
                        colors[i]
                    } else {
                        black_spec()
                    },
            ),
        )
    }

    /// The transmit frame rebuilt from the LEDs.
    pub open spec fn rendered(self) -> StripView {
        StripView { tx: frame_bytes(self.leds), ..self }
    }

    pub open spec fn cleared(self) -> StripView {
        self.filled(black_spec()).rendered()
    }

    pub open spec fn stopped(self) -> StripView {
        self.with_animation(None)
    }

    pub open spec fn breathe_started(self, color: Color, mhz: nat) -> StripView {
        match breathe_outcome(mhz) {
            Ok(frames) => self.with_animation(
                Some(Animation::Breathe { color, frames_per_cycle: frames, frame: 0 }),
            ),
            Err(_) => self.stopped(),
        }
    }

    pub open spec fn chase_started(self, color: Color, mhz: nat, clockwise: bool) -> StripView {
        if mhz == 0 {
            self.stopped()
        } else {
            let fpl = chase_frames_per_led(mhz, self.num_leds());
            self.with_animation(
                Some(
                    Animation::Chase {
                        color,
                        frames_per_led: fpl as usize,
                        total_frames: (fpl * self.num_leds()) as usize,
                        frame: 0,
                        clockwise,
                    },
                ),
            )
        }
    }

    /// One animation frame: the active pattern written into the LEDs and its position
    /// advanced. `level` is the breathing brightness of this frame, as a scale factor.
    pub open spec fn ticked(self, level: nat) -> StripView {
        match self.animation {
            None => self,
            Some(Animation::Breathe { color, frames_per_cycle, frame }) => StripView {
                leds: uniform(self.num_leds(), scaled(color, level)),
                animation: Some(
                    Animation::Breathe {
                        color,
                        frames_per_cycle,
                        frame: ((frame + 1) % frames_per_cycle as int) as usize,
                    },
                ),
                ..self
            },
            Some(Animation::Chase { color, frames_per_led, total_frames, frame, clockwise }) => {
                if total_frames == 0 {
                    self
                } else {
                    StripView {
                        leds: chase_pattern(
                            self.num_leds(),
                            color,
                            chase_index(self.num_leds(), frames_per_led as nat, frame as nat, clockwise),
                        ),
                        animation: Some(
                            Animation::Chase {
                                color,
                                frames_per_led,
                                total_frames,
                                frame: ((frame + 1) % total_frames as int) as usize,
                                clockwise,
                            },
                        ),
                        ..self
                    }
                }
            },
        }
    }
}

/// A WS2812 strip: the LED buffer and the transmit frame derived from it, with the
/// animation that may be rewriting the buffer.
pub struct Ws2812 {
    config: SpiConfig,
    led_buffer: Vec<Color>,
    tx_buffer: Vec<u8>,
    animation: Option<Animation>,
}

impl View for Ws2812 {
    type V = StripView;

    closed spec fn view(&self) -> StripView {
        StripView {
            config: self.config,
            leds: self.led_buffer@,
            tx: self.tx_buffer@,
            animation: self.animation,
        }
    }
}

impl Ws2812 {
    /// A strip with every LED black, a zero transmit frame and no animation.
    pub fn new(config: SpiConfig) -> (s: Self)
        requires
            frame_len(config.num_leds as nat) <= usize::MAX,
        ensures
            s@ == StripView::initial(config),
            s@.wf(),
    {
        let n = config.num_leds;
        let mut led_buffer: Vec<Color> = Vec::new();
        let mut i: usize = 0;
        while i < n
            invariant
                0 <= i <= n,
                led_buffer@ == uniform(i as nat, black_spec()),
            decreases n - i,
        {
            led_buffer.push(Color::black());
            i = i + 1;
            assert(led_buffer@ =~= uniform(i as nat, black_spec()));
        }
        let tx_len: usize = RESET_BYTES_COUNT + BYTES_PER_LED * n;
        let mut tx_buffer: Vec<u8> = Vec::new();
        let mut k: usize = 0;
        while k < tx_len
            invariant
                0 <= k <= tx_len,
                tx_buffer@ == Seq::new(k as nat, |j: int| 0u8),
            decreases tx_len - k,
        {
            tx_buffer.push(0);
            k = k + 1;
            assert(tx_buffer@ =~= Seq::new(k as nat, |j: int| 0u8));
        }
        let s = Ws2812 { config, led_buffer, tx_buffer, animation: None };
        assert(s@ =~= StripView::initial(config));
        s
    }

    /// Number of LEDs.
    pub fn len(&self) -> (n: usize)
        ensures
            n == self@.config.num_leds,
    {
        self.config.num_leds
    }

    pub fn is_empty(&self) -> (e: bool)
        ensures
            e == (self@.config.num_leds == 0),
    {
        self.config.num_leds == 0
    }

    pub fn config(&self) -> (c: &SpiConfig)
        ensures
            *c == self@.config,
    {
        &self.config
    }

    /// Sets LED `index`; an index out of range is an error and changes nothing.
    pub fn set_led(&mut self, index: usize, color: Color) -> (r: Result<(), Ws2812Error>)
        requires
            old(self)@.wf(),
        ensures
            final(self)@.wf(),
            final(self)@ == old(self)@.led_set(index as int, color),
            r == old(self)@.set_outcome(index as int),
    {
        if index >= self.config.num_leds {
            return Err(Ws2812Error::IndexOutOfRange { index, len: self.config.num_leds });
        }
        self.led_buffer[index] = color;
        assert(self@ =~= old(self)@.led_set(index as int, color));
        Ok(())
    }

    /// The color of LED `index`; an index out of range is an error.
    pub fn get_led(&self, index: usize) -> (r: Result<Color, Ws2812Error>)
        requires
            self@.wf(),
        ensures
            r == self@.get_outcome(index as int),
    {
        if index >= self.config.num_leds {
            return Err(Ws2812Error::IndexOutOfRange { index, len: self.config.num_leds });
        }
        Ok(self.led_buffer[index])
    }

    /// Sets every LED to `color`.
    pub fn fill(&mut self, color: Color) -> (r: Result<(), Ws2812Error>)
        requires
            old(self)@.wf(),
        ensures
            final(self)@.wf(),
            final(self)@ == old(self)@.filled(color),
            r is Ok,
    {
        let n = self.led_buffer.len();
        let mut i: usize = 0;
        while i < n
            invariant
                0 <= i <= n,
                n == self.led_buffer@.len(),
                self.config == old(self).config,
                self.tx_buffer == old(self).tx_buffer,
                self.animation == old(self).animation,
                forall|j: int| 0 <= j < i ==> self.led_buffer@[j] == color,
            decreases n - i,
        {
            self.led_buffer[i] = color;
            i = i + 1;
        }
        assert(self.led_buffer@ =~= uniform(self@.num_leds(), color));
        assert(self@ =~= old(self)@.filled(color));
        Ok(())
    }

    /// Copies `colors` into the first LEDs; LEDs past the end of `colors` turn black,
    /// and entries of `colors` past the strip's end are ignored.
    pub fn set_leds(&mut self, colors: &[Color]) -> (r: Result<(), Ws2812Error>)
        requires
            old(self)@.wf(),
        ensures
            final(self)@.wf(),
            final(self)@ == old(self)@.leds_set(colors@),
            r is Ok,
    {
        let n = self.led_buffer.len();
        let mut i: usize = 0;
        while i < n
            invariant
                0 <= i <= n,
                n == self.led_buffer@.len(),
                self.config == old(self).config,
                self.tx_buffer == old(self).tx_buffer,
                self.animation == old(self).animation,
                forall|j: int|
                    0 <= j < i ==> self.led_buffer@[j] == (if j < colors@.len() {
                        colors@[j]
                    } else {
                        black_spec()
                    }),
            decreases n - i,
        {
            let c = if i < colors.len() {
                colors[i]
            } else {
                Color::black()
            };
            self.led_buffer[i] = c;
            i = i + 1;
        }
        assert(self.led_buffer@ =~= old(self)@.leds_set(colors@).leds);
        assert(self@ =~= old(self)@.leds_set(colors@));
        Ok(())
    }

    /// Rebuilds the whole transmit frame from the LED buffer.
    pub fn render(&mut self)
        requires
            old(self)@.wf(),
        ensures
            final(self)@.wf(),
            final(self)@ == old(self)@.rendered(),
    {
        encode_frame(&self.led_buffer, &mut self.tx_buffer);
        assert(self@ =~= old(self)@.rendered());
    }

    /// The transmit frame as last rendered.
    pub fn tx_buffer(&self) -> (t: &[u8])
        ensures
            t@ == self@.tx,
    {
        self.tx_buffer.as_slice()
    }

    /// Turns every LED off and renders the resulting frame.
    pub fn clear(&mut self)
        requires
            old(self)@.wf(),
        ensures
            final(self)@.wf(),
            final(self)@ == old(self)@.cleared(),
    {
        let _ = self.fill(Color::black());
        self.render();
    }

    /// Ends the animation, if any; the LEDs keep their last pattern.
    pub fn stop_animation(&mut self)
        requires
            old(self)@.wf(),
        ensures
            final(self)@.wf(),
            final(self)@ == old(self)@.stopped(),
    {
        self.animation = None;
        assert(self@ =~= old(self)@.stopped());
    }

    pub fn is_animating(&self) -> (a: bool)
        ensures
            a == self@.animation is Some,
    {
        self.animation.is_some()
    }

    /// The running animation with its position.
    pub fn animation(&self) -> (a: Option<Animation>)
        ensures
            a == self@.animation,
    {
        self.animation
    }

    /// Frame number and frames per cycle of a running breathing animation.
    pub fn breathe_position(&self) -> (p: Option<(usize, usize)>)
        ensures
            p == (match self@.animation {
                Some(Animation::Breathe { frame, frames_per_cycle, .. }) => Some(
                    (frame, frames_per_cycle),
                ),
                _ => None,
            }),
    {
        match self.animation {
            Some(Animation::Breathe { frame, frames_per_cycle, .. }) => Some(
                (frame, frames_per_cycle),
            ),
            _ => None,
        }
    }
    /// Replaces any animation by a breathing one in `color` at `frequency_mhz`
    /// millihertz. A cycle shorter than `MIN_BREATHE_FRAMES` frames, or a zero
    /// frequency, is an error and leaves no animation running.
    pub fn start_breathe(&mut self, color: Color, frequency_mhz: u32) -> (r: Result<(), Ws2812Error>)
        requires
            old(self)@.wf(),
        ensures
            final(self)@.wf(),
            final(self)@ == old(self)@.breathe_started(color, frequency_mhz as nat),
            r == (match breathe_outcome(frequency_mhz as nat) {
                Ok(_) => Ok(()),
                Err(e) => Err::<(), Ws2812Error>(e),
            }),
    {
        self.stop_animation();
        if frequency_mhz == 0 {
            return Err(Ws2812Error::ZeroFrequency);
        }
        let mhz = frequency_mhz as u64;
        proof {
            lemma_breathe_frames_bound(mhz as nat);
        }
        let frames = ((2 * REFRESH_FPS * 1000 + mhz) / (2 * mhz)) as usize;
        if frames < MIN_BREATHE_FRAMES {
            return Err(Ws2812Error::FrequencyTooHigh { frames_per_cycle: frames });
        }
        self.animation = Some(Animation::Breathe { color, frames_per_cycle: frames, frame: 0 });
        assert(self@ =~= old(self)@.breathe_started(color, frequency_mhz as nat));
        Ok(())
    }

    /// Replaces any animation by a chase of one `color` LED, each LED lit for
    /// `REFRESH_FPS / hz / len` frames (rounded up), running from the last LED
    /// down when `clockwise`. A zero frequency is an error and leaves no
    /// animation running.
    pub fn start_chase(&mut self, color: Color, frequency_mhz: u32, clockwise: bool) -> (r: Result<
        (),
        Ws2812Error,
    >)
        requires
            old(self)@.wf(),
        ensures
            final(self)@.wf(),
            final(self)@ == old(self)@.chase_started(color, frequency_mhz as nat, clockwise),
            r == chase_outcome(frequency_mhz as nat),
    {
        self.stop_animation();
        if frequency_mhz == 0 {
            return Err(Ws2812Error::ZeroFrequency);
        }
        let n = self.config.num_leds;
        let (frames_per_led, total_frames) = if n == 0 {
            (1usize, 0usize)
        } else {
            assert(frequency_mhz as u128 * n as u128 <= 0xffff_ffff_ffff_ffff_ffff_ffff) by (nonlinear_arith)
                requires
                    frequency_mhz <= 0xffff_ffff,
                    n <= 0xffff_ffff_ffff_ffff,
            ;
            assert(frequency_mhz as u128 * n as u128 >= 1) by (nonlinear_arith)
                requires
                    frequency_mhz >= 1,
                    n >= 1,
            ;
            let denom: u128 = frequency_mhz as u128 * n as u128;
            let fpl128: u128 = (REFRESH_FPS as u128 * 1000 + denom - 1) / denom;
            proof {
                lemma_chase_frames_bound(frequency_mhz as nat, n as nat);
            }
            assert(fpl128 == chase_frames_per_led(frequency_mhz as nat, n as nat));
            assert(fpl128 * n as u128 <= usize::MAX);
            let fpl = fpl128 as usize;
            (fpl, fpl * n)
        };
        assert(frames_per_led == chase_frames_per_led(frequency_mhz as nat, n as nat));
        assert(total_frames == frames_per_led * n);
        self.animation = Some(
            Animation::Chase { color, frames_per_led, total_frames, frame: 0, clockwise },
        );
        assert(self@ =~= old(self)@.chase_started(color, frequency_mhz as nat, clockwise));
        Ok(())
    }

    /// Writes the current frame of the running animation into the LEDs and
    /// advances it; without an animation nothing changes. `level` is the
    /// brightness factor of this frame of a breathing cycle, and is not used by
    /// a chase.
    pub fn tick(&mut self, level: u32)
        requires
            old(self)@.wf(),
        ensures
            final(self)@.wf(),
            final(self)@ == old(self)@.ticked(level as nat),
    {
        match self.animation {
            None => {},
            Some(Animation::Breathe { color, frames_per_cycle, frame }) => {
                let _ = self.fill(color.scale(level));
                self.animation = Some(
                    Animation::Breathe {
                        color,
                        frames_per_cycle,
                        frame: (frame + 1) % frames_per_cycle,
                    },
                );
                assert(self@ =~= old(self)@.ticked(level as nat));
            },
            Some(Animation::Chase { color, frames_per_led, total_frames, frame, clockwise }) => {
                if total_frames > 0 {
                    let n = self.config.num_leds;
                    let step = frame / frames_per_led;
                    assert(step < n) by (nonlinear_arith)
                        requires
                            step == frame / frames_per_led,
                            frame < total_frames,
                            total_frames == frames_per_led * n,
                            frames_per_led >= 1,
                    ;
                    let lit = if clockwise {
                        n - 1 - step
                    } else {
                        step
                    };
                    let mut i: usize = 0;
                    while i < n
                        invariant
                            0 <= i <= n,
                            n == self.led_buffer@.len(),
                            n == self.config.num_leds,
                            self.config == old(self).config,
                            self.tx_buffer == old(self).tx_buffer,
                            self.animation == old(self).animation,
                            forall|j: int|
                                0 <= j < i ==> self.led_buffer@[j] == (if j == lit as int {
                                    color
                                } else {
                                    black_spec()
                                }),
                        decreases n - i,
                    {
                        self.led_buffer[i] = if i == lit {
                            color
                        } else {
                            Color::black()
                        };
                        i = i + 1;
                    }
                    self.animation = Some(
                        Animation::Chase {
                            color,
                            frames_per_led,
                            total_frames,
                            frame: (frame + 1) % total_frames,
                            clockwise,
                        },
                    );
                    assert(self.led_buffer@ =~= chase_pattern(
                        n as nat,
                        color,
                        chase_index(n as nat, frames_per_led as nat, frame as nat, clockwise),
                    ));
                    assert(self@ =~= old(self)@.ticked(level as nat));
                }
            },
        }
    }
}

} // verus!
