//! MIDI controllers: which device a port is, what its raw messages mean,
//! and the pad, dial and fighter state they drive.
use vstd::prelude::*;
use crate::text::{str_eq, string_from_chars, u128_to_decimal, decimal};

verus! {

/// What a controller did.
#[derive(Debug, Clone, Copy)]
pub enum KeyPress {
    ReleasePad(u8),
    Pad(u8),
    ReleaseFight(u8),
    Fight(u8),
    Dial(u8, u8),
}

/// The controllers that are recognised.
#[derive(Debug, Clone, Copy, PartialEq, Eq, PartialOrd, Ord, Hash)]
pub enum MidiDevice {
    Akai,
    MidiFighter,
    MidiTwister,
    NanoKontrol2,
    Unknown,
}

/// The device a port name announces.
pub open spec fn device_for_name(s: Option<Seq<char>>) -> MidiDevice {
    match s {
        Some(n) => {
            if n == "Midi Fighter Twister"@ {
                MidiDevice::MidiTwister
            } else if n == "Midi Fighter Spectra"@ {
                MidiDevice::MidiFighter
            } else if n == "nanoKONTROL2 SLIDER/KNOB"@ {
                MidiDevice::NanoKontrol2
            } else {
                MidiDevice::Unknown
            }
        },
        None => MidiDevice::Unknown,
    }
}

/// The short name of a device.
pub open spec fn device_name(d: MidiDevice) -> Seq<char> {
    match d {
        MidiDevice::Akai => "akai"@,
        MidiDevice::MidiFighter => "midi-fighter"@,
        MidiDevice::MidiTwister => "midi-twister"@,
        MidiDevice::NanoKontrol2 => "nano-kontrol2"@,
        MidiDevice::Unknown => "unknown"@,
    }
}

impl MidiDevice {
    /// The device behind a port, from the port's name.
    pub fn from_name(s: Option<String>) -> (r: Self)
        ensures
            r == device_for_name(match s { Some(t) => Some(t@), None => None }),
    {
        match s {
            Some(n) => {
                if str_eq(n.as_str(), "Midi Fighter Twister") {
                    MidiDevice::MidiTwister
                } else if str_eq(n.as_str(), "Midi Fighter Spectra") {
                    MidiDevice::MidiFighter
                } else if str_eq(n.as_str(), "nanoKONTROL2 SLIDER/KNOB") {
                    MidiDevice::NanoKontrol2
                } else {
                    MidiDevice::Unknown
                }
            },
            None => MidiDevice::Unknown,
        }
    }

    /// The device's short name, used to label its connections.
    pub fn to_str(&self) -> (r: String)
        ensures
            r@ == device_name(*self),
    {
        match self {
            MidiDevice::Akai => "akai".to_string(),
            MidiDevice::MidiFighter => "midi-fighter".to_string(),
            MidiDevice::MidiTwister => "midi-twister".to_string(),
            MidiDevice::NanoKontrol2 => "nano-kontrol2".to_string(),
            MidiDevice::Unknown => "unknown".to_string(),
        }
    }
}

/// What a raw message from a device means, if anything.
pub open spec fn decode(device: MidiDevice, m: Seq<u8>) -> Option<KeyPress> {
    match device {
        MidiDevice::Akai => {
            if m.len() == 2 {
                Some(KeyPress::Pad(m[1]))
            } else if m.len() == 3 && m[0] == 176 && 70 <= m[1] <= 77 {
                Some(KeyPress::Dial((m[1] - 70) as u8, m[2]))
            } else {
                None
            }
        },
        MidiDevice::MidiFighter => {
            if m.len() == 3 && m[0] == 128 && 36 <= m[1] <= 51 {
                Some(KeyPress::ReleaseFight((m[1] - 36) as u8))
            } else if m.len() == 3 && m[0] == 144 && 36 <= m[1] <= 51 {
                Some(KeyPress::Fight((m[1] - 36) as u8))
            } else {
                None
            }
        },
        MidiDevice::MidiTwister => {
            if m.len() == 3 && m[0] == 176 && m[1] <= 15 {
                Some(KeyPress::Dial(m[1], m[2]))
            } else if m.len() == 3 && m[0] == 177 && m[1] <= 15 && m[2] == 127 {
                Some(KeyPress::Pad(m[1]))
            } else if m.len() == 3 && m[0] == 177 && m[1] <= 15 && m[2] == 0 {
                Some(KeyPress::ReleasePad(m[1]))
            } else {
                None
            }
        },
        MidiDevice::NanoKontrol2 => {
            if m.len() == 3 && m[0] == 176 && m[1] <= 8 {
                Some(KeyPress::Dial(m[1], m[2]))
            } else if m.len() == 3 && m[0] == 176 && 16 <= m[1] <= 23 {
                Some(KeyPress::Dial((m[1] - 8) as u8, m[2]))
            } else if m.len() == 3 && m[0] == 176 && 32 <= m[1] <= 39 && m[2] == 127 {
                Some(KeyPress::Pad((m[1] - 32) as u8))
            } else if m.len() == 3 && m[0] == 176 && 48 <= m[1] <= 55 && m[2] == 127 {
                Some(KeyPress::Pad((m[1] - 48 + 8) as u8))
            } else if m.len() == 3 && m[0] == 176 && 64 <= m[1] <= 71 && m[2] == 127 {
                Some(KeyPress::Pad((m[1] - 64 + 8) as u8))
            } else {
                None
            }
        },
        MidiDevice::Unknown => None,
    }
}

/// One message from a controller, with its time stamp in microseconds.
#[derive(Debug)]
pub struct MidiMessage {
    pub device: MidiDevice,
    pub stamp: u64,
    pub key: Option<KeyPress>,
}

impl MidiMessage {
    /// Decodes a raw message from a recognised device.
    pub fn new(device: MidiDevice, stamp: u64, message: &[u8]) -> (r: MidiMessage)
        requires
            device != MidiDevice::Unknown,
        ensures
            r.device == device,
            r.stamp == stamp,
            r.key == decode(device, message@),
    {
        let m = message;
        let key = match device {
            MidiDevice::Akai => {
                if m.len() == 2 {
                    Some(KeyPress::Pad(m[1]))
                } else if m.len() == 3 && m[0] == 176 && 70 <= m[1] && m[1] <= 77 {
                    Some(KeyPress::Dial(m[1] - 70, m[2]))
                } else {
                    None
                }
            },
            MidiDevice::MidiFighter => {
                if m.len() == 3 && m[0] == 128 && 36 <= m[1] && m[1] <= 51 {
                    Some(KeyPress::ReleaseFight(m[1] - 36))
                } else if m.len() == 3 && m[0] == 144 && 36 <= m[1] && m[1] <= 51 {
                    Some(KeyPress::Fight(m[1] - 36))
                } else {
                    None
                }
            },
            MidiDevice::MidiTwister => {
                if m.len() == 3 && m[0] == 176 && m[1] <= 15 {
                    Some(KeyPress::Dial(m[1], m[2]))
                } else if m.len() == 3 && m[0] == 177 && m[1] <= 15 && m[2] == 127 {
                    Some(KeyPress::Pad(m[1]))
                } else if m.len() == 3 && m[0] == 177 && m[1] <= 15 && m[2] == 0 {
                    Some(KeyPress::ReleasePad(m[1]))
                } else {
                    None
                }
            },
            MidiDevice::NanoKontrol2 => {
                if m.len() == 3 && m[0] == 176 && m[1] <= 8 {
                    Some(KeyPress::Dial(m[1], m[2]))
                } else if m.len() == 3 && m[0] == 176 && 16 <= m[1] && m[1] <= 23 {
                    Some(KeyPress::Dial(m[1] - 8, m[2]))
                } else if m.len() == 3 && m[0] == 176 && 32 <= m[1] && m[1] <= 39 && m[2] == 127 {
                    Some(KeyPress::Pad(m[1] - 32))
                } else if m.len() == 3 && m[0] == 176 && 48 <= m[1] && m[1] <= 55 && m[2] == 127 {
                    Some(KeyPress::Pad(m[1] - 48 + 8))
                } else if m.len() == 3 && m[0] == 176 && 64 <= m[1] && m[1] <= 71 && m[2] == 127 {
                    Some(KeyPress::Pad(m[1] - 64 + 8))
                } else {
                    None
                }
            },
            MidiDevice::Unknown => None,
        };
        MidiMessage { device, stamp, key }
    }
}


/// Pads only count a press when it comes more than this many microseconds
/// after the previous message.
pub const PAD_DEBOUNCE_MICROS: u64 = 100000;

/// The state MIDI input builds up: dial positions (as the raw 0..127
/// amounts a dial sends), how often each pad and fighter button was hit,
/// and what changed since the last reset.
#[derive(Debug)]
pub struct MidiValues {
    pub dial_count: usize,
    /// the raw amount of each dial; a dial reads as amount / 128
    pub dials: Vec<u8>,
    pub dials_changed: Vec<bool>,
    pub pad_count: usize,
    pub pads: Vec<usize>,
    pub pads_changed: Vec<bool>,
    pub last_update: u64,
    pub fighter: Vec<usize>,
    /// when each fighter button was last hit, in microseconds
    pub fighter_times: Vec<Option<u128>>,
    pub fighter_count: usize,
}

/// Whether any dial or pad is flagged as changed.
pub open spec fn any_changed(v: MidiValues) -> bool {
    (exists|i: int| 0 <= i < v.dials_changed@.len() && v.dials_changed@[i])
        || (exists|i: int| 0 <= i < v.pads_changed@.len() && v.pads_changed@[i])
}

/// The amount a dial starts at, reading as one half.
pub const DIAL_START_AMOUNT: u8 = 64;

fn filled<T: Copy>(v: T, n: usize) -> (r: Vec<T>)
    ensures
        r@.len() == n,
        forall|i: int| 0 <= i < n ==> r@[i] == v,
{
    let mut out: Vec<T> = Vec::new();
    let mut i: usize = 0;
    while i < n
        invariant
            i <= n,
            out@.len() == i,
            forall|j: int| 0 <= j < i ==> out@[j] == v,
        decreases n - i,
    {
        out.push(v);
        i = i + 1;
    }
    out
}

impl MidiValues {
    /// Fresh state. Dial positions and their change flags get one entry per
    /// pad, as the controllers pair dials with pads.
    pub fn new(dial_count: usize, pad_count: usize, fighter_count: usize) -> (r: Self)
        ensures
            r.dial_count == dial_count,
            r.pad_count == pad_count,
            r.fighter_count == fighter_count,
            r.last_update == 0,
            r.dials@.len() == pad_count && r.dials_changed@.len() == pad_count,
            r.pads@.len() == pad_count && r.pads_changed@.len() == pad_count,
            r.fighter@.len() == fighter_count && r.fighter_times@.len() == fighter_count,
            forall|i: int| 0 <= i < pad_count ==> r.dials@[i] == DIAL_START_AMOUNT && !r.dials_changed@[i]
                && r.pads@[i] == 0 && !r.pads_changed@[i],
            forall|i: int| 0 <= i < fighter_count ==> r.fighter@[i] == 0 && r.fighter_times@[i] is None,
    {
        MidiValues {
            dial_count,
            dials: filled(DIAL_START_AMOUNT, pad_count),
            dials_changed: filled(false, pad_count),
            pad_count,
            pads: filled(0usize, pad_count),
            pads_changed: filled(false, pad_count),
            last_update: 0,
            fighter: filled(0usize, fighter_count),
            fighter_times: filled(None, fighter_count),
            fighter_count,
        }
    }

    /// Clears the change flags.
    pub fn reset(&mut self)
        ensures
            final(self).dials_changed@ == Seq::new(old(self).dial_count as nat, |i: int| false),
            final(self).pads_changed@ == Seq::new(old(self).pad_count as nat, |i: int| false),
            final(self).dials == old(self).dials,
            final(self).pads == old(self).pads,
            final(self).fighter == old(self).fighter,
            final(self).fighter_times == old(self).fighter_times,
            final(self).last_update == old(self).last_update,
            final(self).dial_count == old(self).dial_count,
            final(self).pad_count == old(self).pad_count,
            final(self).fighter_count == old(self).fighter_count,
    {
        let d = filled(false, self.dial_count);
        let p = filled(false, self.pad_count);
        proof {
            assert(d@ =~= Seq::new(self.dial_count as nat, |i: int| false));
            assert(p@ =~= Seq::new(self.pad_count as nat, |i: int| false));
        }
        self.dials_changed = d;
        self.pads_changed = p;
    }

    /// Whether pad `idx` was hit since the last reset.
    pub fn pads_bool(&self, idx: usize) -> (r: bool)
        requires
            idx < self.pads_changed@.len(),
        ensures
            r == self.pads_changed@[idx as int],
    {
        self.pads_changed[idx]
    }

    /// How many times pad `idx` was hit, counted modulo `cycle_size`.
    pub fn pads_cycle(&self, idx: usize, cycle_size: usize) -> (r: usize)
        requires
            idx < self.pads@.len(),
            cycle_size > 0,
        ensures
            r == self.pads@[idx as int] % cycle_size,
    {
        self.pads[idx] % cycle_size
    }

    /// Whether any dial or pad changed since the last reset.
    pub fn updated_since_reset(&self) -> (r: bool)
        ensures
            r == any_changed(*self),
    {
        let mut i: usize = 0;
        while i < self.dials_changed.len()
            invariant
                i <= self.dials_changed@.len(),
                forall|j: int| 0 <= j < i ==> !self.dials_changed@[j],
            decreases self.dials_changed@.len() - i,
        {
            if self.dials_changed[i] {
                return true;
            }
            i = i + 1;
        }
        let mut i: usize = 0;
        while i < self.pads_changed.len()
            invariant
                i <= self.pads_changed@.len(),
                forall|j: int| 0 <= j < self.dials_changed@.len() ==> !self.dials_changed@[j],
                forall|j: int| 0 <= j < i ==> !self.pads_changed@[j],
            decreases self.pads_changed@.len() - i,
        {
            if self.pads_changed[i] {
                return true;
            }
            i = i + 1;
        }
        false
    }

    /// Counts one hit of pad `idx`.
    pub fn pads_update(&mut self, idx: usize)
        requires
            idx < old(self).pads@.len(),
            idx < old(self).pads_changed@.len(),
            old(self).pads@[idx as int] < usize::MAX,
        ensures
            final(self).pads@ == old(self).pads@.update(idx as int, (old(self).pads@[idx as int] + 1) as usize),
            final(self).pads_changed@ == old(self).pads_changed@.update(idx as int, true),
            final(self).dials == old(self).dials,
            final(self).dials_changed == old(self).dials_changed,
            final(self).fighter == old(self).fighter,
            final(self).fighter_times == old(self).fighter_times,
            final(self).last_update == old(self).last_update,
            final(self).dial_count == old(self).dial_count,
            final(self).pad_count == old(self).pad_count,
            final(self).fighter_count == old(self).fighter_count,
    {
        let c = self.pads[idx];
        self.pads.set(idx, c + 1);
        self.pads_changed.set(idx, true);
    }

    /// Sets dial `idx` to a raw amount.
    pub fn dials_update(&mut self, idx: usize, amount: u8)
        requires
            idx < old(self).dials@.len(),
            idx < old(self).dials_changed@.len(),
        ensures
            final(self).dials@ == old(self).dials@.update(idx as int, amount),
            final(self).dials_changed@ == old(self).dials_changed@.update(idx as int, true),
            final(self).pads == old(self).pads,
            final(self).pads_changed == old(self).pads_changed,
            final(self).fighter == old(self).fighter,
            final(self).fighter_times == old(self).fighter_times,
            final(self).last_update == old(self).last_update,
            final(self).dial_count == old(self).dial_count,
            final(self).pad_count == old(self).pad_count,
            final(self).fighter_count == old(self).fighter_count,
    {
        self.dials.set(idx, amount);
        self.dials_changed.set(idx, true);
    }

    /// Counts one press of fighter button `idx`, hit at time `now`.
    pub fn fighter_update(&mut self, idx: usize, now: u128)
        requires
            idx < old(self).fighter@.len(),
            idx < old(self).fighter_times@.len(),
            old(self).fighter@[idx as int] < usize::MAX,
        ensures
            final(self).fighter@ == old(self).fighter@.update(idx as int, (old(self).fighter@[idx as int] + 1) as usize),
            final(self).fighter_times@ == old(self).fighter_times@.update(idx as int, Some(now)),
            final(self).dials == old(self).dials,
            final(self).dials_changed == old(self).dials_changed,
            final(self).pads == old(self).pads,
            final(self).pads_changed == old(self).pads_changed,
            final(self).last_update == old(self).last_update,
            final(self).dial_count == old(self).dial_count,
            final(self).pad_count == old(self).pad_count,
            final(self).fighter_count == old(self).fighter_count,
    {
        let c = self.fighter[idx];
        self.fighter.set(idx, c + 1);
        self.fighter_times.set(idx, Some(now));
    }

    /// Counts one release of fighter button `idx`, at time `now`; releases
    /// count like presses.
    pub fn release_fighter_update(&mut self, idx: usize, now: u128)
        requires
            idx < old(self).fighter@.len(),
            idx < old(self).fighter_times@.len(),
            old(self).fighter@[idx as int] < usize::MAX,
        ensures
            final(self).fighter@ == old(self).fighter@.update(idx as int, (old(self).fighter@[idx as int] + 1) as usize),
            final(self).fighter_times@ == old(self).fighter_times@.update(idx as int, Some(now)),
            final(self).dials == old(self).dials,
            final(self).dials_changed == old(self).dials_changed,
            final(self).pads == old(self).pads,
            final(self).pads_changed == old(self).pads_changed,
            final(self).last_update == old(self).last_update,
            final(self).dial_count == old(self).dial_count,
            final(self).pad_count == old(self).pad_count,
            final(self).fighter_count == old(self).fighter_count,
    {
        self.fighter_update(idx, now)
    }
}

/// What a message may touch: the index it names exists in the state it
/// updates, the counters it bumps have room, and pad messages are not
/// older than the last message.
pub open spec fn message_fits(v: MidiValues, msg: MidiMessage) -> bool {
    match msg.key {
        Some(KeyPress::Pad(idx)) => msg.stamp >= v.last_update && (msg.stamp - v.last_update > PAD_DEBOUNCE_MICROS ==>
            idx < v.pads@.len() && idx < v.pads_changed@.len() && v.pads@[idx as int] < usize::MAX),
        Some(KeyPress::Dial(idx, _)) => idx < v.dials@.len() && idx < v.dials_changed@.len(),
        Some(KeyPress::Fight(idx)) => idx < v.fighter@.len() && idx < v.fighter_times@.len() && v.fighter@[idx as int] < usize::MAX,
        Some(KeyPress::ReleaseFight(idx)) => idx < v.fighter@.len() && idx < v.fighter_times@.len() && v.fighter@[idx as int] < usize::MAX,
        _ => true,
    }
}

impl MidiValues {
    /// Takes one message, received at time `now`: a pad hit counts when it
    /// comes more than the debounce time after the previous message, a dial
    /// moves, fighter presses and releases count; every message moves the
    /// last-update stamp.
    pub fn update(&mut self, msg: &MidiMessage, now: u128)
        requires
            message_fits(*old(self), *msg),
        ensures
            final(self).last_update == msg.stamp,
            final(self).dial_count == old(self).dial_count,
            final(self).pad_count == old(self).pad_count,
            final(self).fighter_count == old(self).fighter_count,
            match msg.key {
                Some(KeyPress::Pad(idx)) => if msg.stamp - old(self).last_update > PAD_DEBOUNCE_MICROS {
                    final(self).pads@ == old(self).pads@.update(idx as int, (old(self).pads@[idx as int] + 1) as usize)
                    && final(self).pads_changed@ == old(self).pads_changed@.update(idx as int, true)
                } else {
                    final(self).pads == old(self).pads && final(self).pads_changed == old(self).pads_changed
                },
                Some(KeyPress::Dial(idx, amount)) =>
                    final(self).dials@ == old(self).dials@.update(idx as int, amount)
                    && final(self).dials_changed@ == old(self).dials_changed@.update(idx as int, true),
                Some(KeyPress::Fight(idx)) =>
                    final(self).fighter@ == old(self).fighter@.update(idx as int, (old(self).fighter@[idx as int] + 1) as usize)
                    && final(self).fighter_times@ == old(self).fighter_times@.update(idx as int, Some(now)),
                Some(KeyPress::ReleaseFight(idx)) =>
                    final(self).fighter@ == old(self).fighter@.update(idx as int, (old(self).fighter@[idx as int] + 1) as usize)
                    && final(self).fighter_times@ == old(self).fighter_times@.update(idx as int, Some(now)),
                _ => final(self).pads == old(self).pads && final(self).dials == old(self).dials
                    && final(self).fighter == old(self).fighter,
            },
    {
        match msg.key {
            Some(KeyPress::Pad(idx)) => {
                if msg.stamp - self.last_update > PAD_DEBOUNCE_MICROS {
                    self.pads_update(idx as usize);
                }
            },
            Some(KeyPress::Dial(idx, amount)) => {
                self.dials_update(idx as usize, amount);
            },
            Some(KeyPress::ReleasePad(_)) => {},
            Some(KeyPress::Fight(idx)) => {
                self.fighter_update(idx as usize, now);
            },
            Some(KeyPress::ReleaseFight(idx)) => {
                self.release_fighter_update(idx as usize, now);
            },
            None => {},
        }
        self.last_update = msg.stamp;
    }
}

/// The name `m{idx}` followed by `suffix`.
pub open spec fn pad_var_name(idx: nat, suffix: char) -> Seq<char> {
    seq!['m'] + decimal(idx) + seq![suffix]
}

fn pad_var(idx: usize, suffix: char) -> (r: String)
    ensures
        r@ == pad_var_name(idx as nat, suffix),
{
    let digits = u128_to_decimal(idx as u128);
    let mut cs: Vec<char> = Vec::new();
    cs.push('m');
    let mut i: usize = 0;
    while i < digits.len()
        invariant
            i <= digits@.len(),
            cs@ == seq!['m'] + digits@.subrange(0, i as int),
        decreases digits@.len() - i,
    {
        cs.push(digits[i]);
        proof { assert(digits@.subrange(0, i + 1) =~= digits@.subrange(0, i as int).push(digits@[i as int])); }
        i = i + 1;
    }
    cs.push(suffix);
    proof {
        assert(digits@.subrange(0, digits@.len() as int) =~= digits@);
        assert(cs@ =~= pad_var_name(idx as nat, suffix));
    }
    string_from_chars(cs.as_slice())
}

/// The number of pads exposed to expressions.
pub const MIDI_COUNT: usize = 16;

impl MidiValues {
    /// The boolean pad variables an expression can read: for each pad in
    /// order, `m{i}t` (odd number of hits) then `m{i}f` (the first pad was
    /// hit since the last reset).
    pub fn pad_values(&self) -> (r: Vec<(String, bool)>)
        requires
            self.pads@.len() >= MIDI_COUNT,
            self.pads_changed@.len() >= 1,
        ensures
            r@.len() == 2 * MIDI_COUNT,
            forall|i: int| #![trigger r@[2 * i]] #![trigger r@[2 * i + 1]] 0 <= i < MIDI_COUNT ==> {
                &&& r@[2 * i].0@ == pad_var_name(i as nat, 't')
                &&& r@[2 * i].1 == (self.pads@[i] % 2 == 1)
                &&& r@[2 * i + 1].0@ == pad_var_name(i as nat, 'f')
                &&& r@[2 * i + 1].1 == self.pads_changed@[0]
            },
    {
        let mut out: Vec<(String, bool)> = Vec::new();
        let mut i: usize = 0;
        while i < MIDI_COUNT
            invariant
                i <= MIDI_COUNT,
                self.pads@.len() >= MIDI_COUNT,
                self.pads_changed@.len() >= 1,
                out@.len() == 2 * i,
                forall|j: int| #![trigger out@[2 * j]] #![trigger out@[2 * j + 1]] 0 <= j < i ==> {
                    &&& out@[2 * j].0@ == pad_var_name(j as nat, 't')
                    &&& out@[2 * j].1 == (self.pads@[j] % 2 == 1)
                    &&& out@[2 * j + 1].0@ == pad_var_name(j as nat, 'f')
                    &&& out@[2 * j + 1].1 == self.pads_changed@[0]
                },
            decreases MIDI_COUNT - i,
        {
            let ghost before = out@;
            let t = pad_var(i, 't');
            let f = pad_var(i, 'f');
            out.push((t, self.pads[i] % 2 == 1));
            out.push((f, self.pads_changed[0]));
            assert forall|j: int| #![trigger out@[2 * j]] #![trigger out@[2 * j + 1]] 0 <= j < i + 1 implies {
                &&& out@[2 * j].0@ == pad_var_name(j as nat, 't')
                &&& out@[2 * j].1 == (self.pads@[j] % 2 == 1)
                &&& out@[2 * j + 1].0@ == pad_var_name(j as nat, 'f')
                &&& out@[2 * j + 1].1 == self.pads_changed@[0]
            } by {
                if j < i {
                    assert(out@[2 * j] == before[2 * j]);
                    assert(out@[2 * j + 1] == before[2 * j + 1]);
                }
            }
            i = i + 1;
        }
        out
    }
}

/// What the change flags report across a reset and a hit: right after a
/// reset nothing reads as updated; a pad hit after it reads as updated; and
/// hitting a pad as many times as the cycle is long brings its cycle
/// position back to where it was.
pub proof fn law_reset_then_hit(v: MidiValues, after_reset: MidiValues, after_hit: MidiValues, idx: int, hits: nat, cycle: nat)
    requires
        after_reset.dials_changed@ == Seq::new(v.dial_count as nat, |i: int| false),
        after_reset.pads_changed@ == Seq::new(v.pad_count as nat, |i: int| false),
        0 <= idx < after_reset.pads_changed@.len(),
        after_hit.pads_changed@ == after_reset.pads_changed@.update(idx, true),
        cycle > 0,
    ensures
        !any_changed(after_reset),
        any_changed(after_hit),
        (hits + cycle) % cycle == hits % cycle,
{
    assert(after_hit.pads_changed@[idx]);
    vstd::arithmetic::div_mod::lemma_mod_add_multiples_vanish(hits as int, cycle as int);
}

/// The button rows of a nanoKONTROL2 press distinct pads: the S buttons
/// (controller numbers 32 to 39) press pads 0 to 7, and the M buttons (48
/// to 55) and R buttons (64 to 71) press pads 8 to 15, channel by channel;
/// a row is never read as another row's pads. Knobs 0 to 8 and faders 16
/// to 23 turn dials 0 to 8 and 8 to 15 with the value sent. A button that
/// is let go (any value but 127) presses nothing.
pub proof fn law_nano_kontrol2_layout(n: u8, v: u8)
    ensures
        n <= 8 ==> decode(MidiDevice::NanoKontrol2, seq![176u8, n, v]) == Some(KeyPress::Dial(n, v)),
        16 <= n <= 23 ==> decode(MidiDevice::NanoKontrol2, seq![176u8, n, v]) == Some(KeyPress::Dial((n - 8) as u8, v)),
        32 <= n <= 39 ==> decode(MidiDevice::NanoKontrol2, seq![176u8, n, 127u8]) == Some(KeyPress::Pad((n - 32) as u8)),
        48 <= n <= 55 ==> decode(MidiDevice::NanoKontrol2, seq![176u8, n, 127u8]) == Some(KeyPress::Pad((n - 40) as u8)),
        64 <= n <= 71 ==> decode(MidiDevice::NanoKontrol2, seq![176u8, n, 127u8]) == Some(KeyPress::Pad((n - 56) as u8)),
        decode(MidiDevice::NanoKontrol2, seq![176u8, n, 127u8]) matches Some(KeyPress::Pad(p))
            ==> (p < 8 <==> 32 <= n <= 39) && p < 16,
        32 <= n <= 39 || 48 <= n <= 55 || 64 <= n <= 71 ==> (v != 127
            ==> decode(MidiDevice::NanoKontrol2, seq![176u8, n, v]) is None),
{
}

/// A Midi Fighter's sixteen buttons (notes 36 to 51) press and release
/// fighter buttons 0 to 15; a MIDI Twister's sixteen knobs (controllers 0
/// to 15) turn dials 0 to 15 and, on the second channel, press (value 127)
/// and release (value 0) pads 0 to 15; an Akai's two-byte messages press
/// the pad they name and its knobs (controllers 70 to 77) turn dials 0 to
/// 7. An unrecognised device decodes nothing.
pub proof fn law_controller_layouts(n: u8, v: u8, m: Seq<u8>)
    ensures
        36 <= n <= 51 ==> decode(MidiDevice::MidiFighter, seq![144u8, n, v]) == Some(KeyPress::Fight((n - 36) as u8)),
        36 <= n <= 51 ==> decode(MidiDevice::MidiFighter, seq![128u8, n, v]) == Some(KeyPress::ReleaseFight((n - 36) as u8)),
        n <= 15 ==> decode(MidiDevice::MidiTwister, seq![176u8, n, v]) == Some(KeyPress::Dial(n, v)),
        n <= 15 ==> decode(MidiDevice::MidiTwister, seq![177u8, n, 127u8]) == Some(KeyPress::Pad(n)),
        n <= 15 ==> decode(MidiDevice::MidiTwister, seq![177u8, n, 0u8]) == Some(KeyPress::ReleasePad(n)),
        decode(MidiDevice::Akai, seq![v, n]) == Some(KeyPress::Pad(n)),
        70 <= n <= 77 ==> decode(MidiDevice::Akai, seq![176u8, n, v]) == Some(KeyPress::Dial((n - 70) as u8, v)),
        decode(MidiDevice::Unknown, m) is None,
        decode(MidiDevice::MidiFighter, m) matches Some(KeyPress::Fight(k)) ==> k < 16,
        decode(MidiDevice::MidiTwister, m) matches Some(KeyPress::Pad(k)) ==> k < 16,
{
}

/// Which device a port is: exactly the three announced names are
/// recognised, each as its own device, and no port name is taken for an
/// Akai; the short names of the devices are all different.
pub proof fn law_device_names(s: Seq<char>, d: MidiDevice, e: MidiDevice)
    ensures
        (device_for_name(Some(s)) == MidiDevice::MidiTwister) == (s == "Midi Fighter Twister"@),
        (device_for_name(Some(s)) == MidiDevice::MidiFighter) == (s == "Midi Fighter Spectra"@),
        (device_for_name(Some(s)) == MidiDevice::NanoKontrol2) == (s == "nanoKONTROL2 SLIDER/KNOB"@),
        device_for_name(Some(s)) != MidiDevice::Akai,
        device_for_name(None) == MidiDevice::Unknown,
        d != e ==> device_name(d) != device_name(e),
{
    reveal_strlit("Midi Fighter Twister");
    reveal_strlit("Midi Fighter Spectra");
    reveal_strlit("nanoKONTROL2 SLIDER/KNOB");
    reveal_strlit("akai");
    reveal_strlit("midi-fighter");
    reveal_strlit("midi-twister");
    reveal_strlit("nano-kontrol2");
    reveal_strlit("unknown");
    assert("Midi Fighter Twister"@.len() == 20 && "Midi Fighter Spectra"@.len() == 20);
    assert("Midi Fighter Twister"@[13] == 'T' && "Midi Fighter Spectra"@[13] == 'S');
    assert("nanoKONTROL2 SLIDER/KNOB"@.len() == 24);
    assert("akai"@.len() == 4 && "midi-fighter"@.len() == 12 && "midi-twister"@.len() == 12);
    assert("nano-kontrol2"@.len() == 13 && "unknown"@.len() == 7);
    assert("midi-fighter"@[5] == 'f' && "midi-twister"@[5] == 't');
}

} // verus!
