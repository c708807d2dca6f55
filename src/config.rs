use vstd::prelude::*;

verus! {

/// Default SPI clock: 6.5 MHz, which gives WS2812 bit timing with one byte per data bit.
pub const DEFAULT_SPEED_HZ: u32 = 6500000;

/// Bus addressing and timing of a strip.
#[derive(Debug, Clone, Copy)]
pub struct SpiConfig {
    pub bus: u8,
    pub cs: u8,
    pub num_leds: usize,
    pub max_speed_hz: u32,
}

pub open spec fn digit_char(d: nat) -> char {
    seq!['0', '1', '2', '3', '4', '5', '6', '7', '8', '9'][d as int]
}

/// Decimal notation of `n`, without leading zeros.
pub open spec fn decimal(n: nat) -> Seq<char>
    decreases n,
{
    if n < 10 {
        seq![digit_char(n)]
    } else {
        decimal(n / 10).push(digit_char(n % 10))
    }
}

/// `/dev/spidev{bus}.{cs}`
pub open spec fn device_path_of(bus: u8, cs: u8) -> Seq<char> {
    seq!['/', 'd', 'e', 'v', '/', 's', 'p', 'i', 'd', 'e', 'v'] + decimal(bus as nat) + seq!['.']
        + decimal(cs as nat)
}

fn digit_str(d: u8) -> (s: &'static str)
    requires
        d < 10,
    ensures
        s@ == seq![digit_char(d as nat)],
{
    if d == 0 {
        proof { reveal_strlit("0"); }
        "0"
    } else if d == 1 {
        proof { reveal_strlit("1"); }
        "1"
    } else if d == 2 {
        proof { reveal_strlit("2"); }
        "2"
    } else if d == 3 {
        proof { reveal_strlit("3"); }
        "3"
    } else if d == 4 {
        proof { reveal_strlit("4"); }
        "4"
    } else if d == 5 {
        proof { reveal_strlit("5"); }
        "5"
    } else if d == 6 {
        proof { reveal_strlit("6"); }
        "6"
    } else if d == 7 {
        proof { reveal_strlit("7"); }
        "7"
    } else if d == 8 {
        proof { reveal_strlit("8"); }
        "8"
    } else {
        proof { reveal_strlit("9"); }
        "9"
    }
}

fn append_decimal(s: &mut String, n: u8)
    ensures
        final(s)@ == old(s)@ + decimal(n as nat),
{
    let ghost start = s@;
    if n >= 100 {
        s.append(digit_str(n / 100));
    }
    if n >= 10 {
        s.append(digit_str((n / 10) % 10));
    }
    s.append(digit_str(n % 10));
    proof {
        let m = n as nat;
        if m >= 100 {
            assert(decimal(m / 100) == seq![digit_char(m / 100)]);
            assert(decimal(m / 10) == decimal(m / 100).push(digit_char((m / 10) % 10)));
        } else if m >= 10 {
            assert(decimal(m / 10) == seq![digit_char(m / 10)]);
        }
        assert(s@ =~= start + decimal(m));
    }
}

impl SpiConfig {
    /// A configuration at the default clock speed.
    pub fn new(bus: u8, cs: u8, num_leds: usize) -> (c: Self)
        ensures
            c.bus == bus,
            c.cs == cs,
            c.num_leds == num_leds,
            c.max_speed_hz == DEFAULT_SPEED_HZ,
    {
        SpiConfig { bus, cs, num_leds, max_speed_hz: DEFAULT_SPEED_HZ }
    }

    /// Path of the spidev device node for this bus and chip select.
    pub fn device_path(&self) -> (p: String)
        ensures
            p@ == device_path_of(self.bus, self.cs),
    {
        proof { reveal_strlit("/dev/spidev"); reveal_strlit("."); }
        let mut p = String::from_str("/dev/spidev");
        append_decimal(&mut p, self.bus);
        p.append(".");
        append_decimal(&mut p, self.cs);
        assert(p@ =~= device_path_of(self.bus, self.cs));
        p
    }
}

} // verus!
