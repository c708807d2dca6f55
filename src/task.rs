use vstd::prelude::*;
use crate::color::{Color, scaled};
use crate::error::Ws2812Error;
use crate::strip::{StripView, Ws2812, breathe_outcome};

verus! {

/// What an enabled strip should show: a color, a brightness factor applied
/// once, and the frequency of the breathing envelope in millihertz.
#[derive(Debug, Clone, Copy, PartialEq, Eq, Structural)]
pub struct LedStripStatus {
    pub frequency_mhz: u32,
    pub scale: u32,
    pub red: u8,
    pub green: u8,
    pub blue: u8,
}

/// A command for the strip: turn it off, or show a breathing status.
#[derive(Debug, Clone, Copy, PartialEq, Eq, Structural)]
pub struct SetLedStripStatusEvent {
    pub enable: bool,
    pub status: Option<LedStripStatus>,
}

/// The color that a status asks for, already scaled by its brightness factor.
pub open spec fn status_color(st: LedStripStatus) -> Color {
    scaled(Color { r: st.red, g: st.green, b: st.blue }, st.scale as nat)
}

pub open spec fn event_outcome(e: SetLedStripStatusEvent) -> Result<(), Ws2812Error> {
    if !e.enable {
        Ok(())
    } else {
        match e.status {
            None => Err(Ws2812Error::MissingStatus),
            Some(st) => match breathe_outcome(st.frequency_mhz as nat) {
                Ok(_) => Ok(()),
                Err(err) => Err(err),
            },
        }
    }
}

impl StripView {
    /// The strip after a command: off and cleared when disabled; otherwise every LED
    /// in the scaled color with a breathing animation of that color started.
    pub open spec fn event_applied(self, e: SetLedStripStatusEvent) -> StripView {
        if !e.enable {
            self.stopped().cleared()
        } else {
            match e.status {
                None => self,
                Some(st) => self.filled(status_color(st)).breathe_started(
                    status_color(st),
                    st.frequency_mhz as nat,
                ),
            }
        }
    }
}

impl Ws2812 {
    /// Carries out one command. An enabling command without a status is an error
    /// and changes nothing; a breathing frequency that is refused is reported
    /// after the LEDs were set.
    pub fn apply_event(&mut self, event: &SetLedStripStatusEvent) -> (r: Result<(), Ws2812Error>)
        requires
            old(self)@.wf(),
        ensures
            final(self)@.wf(),
            final(self)@ == old(self)@.event_applied(*event),
            r == event_outcome(*event),
    {
        if !event.enable {
            self.stop_animation();
            self.clear();
            return Ok(());
        }
        match event.status {
            None => Err(Ws2812Error::MissingStatus),
            Some(st) => {
                let color = Color::new(st.red, st.green, st.blue).scale(st.scale);
                let _ = self.fill(color);
                self.start_breathe(color, st.frequency_mhz)
            },
        }
    }
}

} // verus!
