//! Keyboard and click state that is exposed to livecode expressions.
use vstd::prelude::*;
use vstd::string::StrSliceExecFns;
use crate::text::push_char;

verus! {

/// The keys that can be bound in a livecode config.
#[derive(Debug, Clone, Copy, PartialEq, Eq, Hash, PartialOrd, Ord)]
pub enum MurreletKey {
    A, B, C, D, E, F, G, H, I, J, K, L, M,
    N, O, P, Q, R, S, T, U, V, W, X, Y, Z,
}

/// Number of keys that are tracked.
pub const KEY_COUNT: usize = 26;

/// Position of a key in alphabetical order.
pub open spec fn key_index(k: MurreletKey) -> int {
    match k {
        MurreletKey::A => 0, MurreletKey::B => 1, MurreletKey::C => 2, MurreletKey::D => 3,
        MurreletKey::E => 4, MurreletKey::F => 5, MurreletKey::G => 6, MurreletKey::H => 7,
        MurreletKey::I => 8, MurreletKey::J => 9, MurreletKey::K => 10, MurreletKey::L => 11,
        MurreletKey::M => 12, MurreletKey::N => 13, MurreletKey::O => 14, MurreletKey::P => 15,
        MurreletKey::Q => 16, MurreletKey::R => 17, MurreletKey::S => 18, MurreletKey::T => 19,
        MurreletKey::U => 20, MurreletKey::V => 21, MurreletKey::W => 22, MurreletKey::X => 23,
        MurreletKey::Y => 24, MurreletKey::Z => 25,
    }
}

/// The upper-case letter that names a key.
pub open spec fn key_letter(k: MurreletKey) -> char {
    (65 + key_index(k)) as char
}

impl MurreletKey {
    /// The key's name, a single upper-case letter.
    pub fn to_str(&self) -> (r: &'static str)
        ensures
            r@ == seq![key_letter(*self)],
    {
        match self {
            MurreletKey::A => { proof { reveal_strlit("A"); } "A" }
            MurreletKey::B => { proof { reveal_strlit("B"); } "B" }
            MurreletKey::C => { proof { reveal_strlit("C"); } "C" }
            MurreletKey::D => { proof { reveal_strlit("D"); } "D" }
            MurreletKey::E => { proof { reveal_strlit("E"); } "E" }
            MurreletKey::F => { proof { reveal_strlit("F"); } "F" }
            MurreletKey::G => { proof { reveal_strlit("G"); } "G" }
            MurreletKey::H => { proof { reveal_strlit("H"); } "H" }
            MurreletKey::I => { proof { reveal_strlit("I"); } "I" }
            MurreletKey::J => { proof { reveal_strlit("J"); } "J" }
            MurreletKey::K => { proof { reveal_strlit("K"); } "K" }
            MurreletKey::L => { proof { reveal_strlit("L"); } "L" }
            MurreletKey::M => { proof { reveal_strlit("M"); } "M" }
            MurreletKey::N => { proof { reveal_strlit("N"); } "N" }
            MurreletKey::O => { proof { reveal_strlit("O"); } "O" }
            MurreletKey::P => { proof { reveal_strlit("P"); } "P" }
            MurreletKey::Q => { proof { reveal_strlit("Q"); } "Q" }
            MurreletKey::R => { proof { reveal_strlit("R"); } "R" }
            MurreletKey::S => { proof { reveal_strlit("S"); } "S" }
            MurreletKey::T => { proof { reveal_strlit("T"); } "T" }
            MurreletKey::U => { proof { reveal_strlit("U"); } "U" }
            MurreletKey::V => { proof { reveal_strlit("V"); } "V" }
            MurreletKey::W => { proof { reveal_strlit("W"); } "W" }
            MurreletKey::X => { proof { reveal_strlit("X"); } "X" }
            MurreletKey::Y => { proof { reveal_strlit("Y"); } "Y" }
            MurreletKey::Z => { proof { reveal_strlit("Z"); } "Z" }
        }
    }
}


impl MurreletKey {
    /// Position of the key in alphabetical order.
    pub fn index(&self) -> (r: usize)
        ensures
            r == key_index(*self),
            r < KEY_COUNT,
    {
        match self {
            MurreletKey::A => 0, MurreletKey::B => 1, MurreletKey::C => 2, MurreletKey::D => 3,
            MurreletKey::E => 4, MurreletKey::F => 5, MurreletKey::G => 6, MurreletKey::H => 7,
            MurreletKey::I => 8, MurreletKey::J => 9, MurreletKey::K => 10, MurreletKey::L => 11,
            MurreletKey::M => 12, MurreletKey::N => 13, MurreletKey::O => 14, MurreletKey::P => 15,
            MurreletKey::Q => 16, MurreletKey::R => 17, MurreletKey::S => 18, MurreletKey::T => 19,
            MurreletKey::U => 20, MurreletKey::V => 21, MurreletKey::W => 22, MurreletKey::X => 23,
            MurreletKey::Y => 24, MurreletKey::Z => 25,
        }
    }

    /// The key at a position in alphabetical order.
    pub fn from_index(i: usize) -> (r: MurreletKey)
        requires
            i < KEY_COUNT,
        ensures
            key_index(r) == i,
            r == key_at(i as int),
    {
        match i {
            0 => MurreletKey::A, 1 => MurreletKey::B, 2 => MurreletKey::C, 3 => MurreletKey::D,
            4 => MurreletKey::E, 5 => MurreletKey::F, 6 => MurreletKey::G, 7 => MurreletKey::H,
            8 => MurreletKey::I, 9 => MurreletKey::J, 10 => MurreletKey::K, 11 => MurreletKey::L,
            12 => MurreletKey::M, 13 => MurreletKey::N, 14 => MurreletKey::O, 15 => MurreletKey::P,
            16 => MurreletKey::Q, 17 => MurreletKey::R, 18 => MurreletKey::S, 19 => MurreletKey::T,
            20 => MurreletKey::U, 21 => MurreletKey::V, 22 => MurreletKey::W, 23 => MurreletKey::X,
            24 => MurreletKey::Y, _ => MurreletKey::Z,
        }
    }
}

/// Name of the expression variable that toggles each time a key goes down.
pub open spec fn trigger_name(k: MurreletKey) -> Seq<char> {
    seq!['k', key_letter(k), 't']
}

/// Name of the expression variable that is true on the frame a key goes down.
pub open spec fn fire_name(k: MurreletKey) -> Seq<char> {
    seq!['k', key_letter(k), 'f']
}

fn key_var_name(k: MurreletKey, suffix: char) -> (r: String)
    ensures
        r@ == seq!['k', key_letter(k), suffix],
{
    let letter = k.to_str().get_char(0);
    let mut s = String::new();
    push_char(&mut s, 'k');
    push_char(&mut s, letter);
    push_char(&mut s, suffix);
    proof {
        assert(s@ =~= seq!['k', key_letter(k), suffix]);
    }
    s
}

/// The name `k{letter}t` of a key's toggle variable.
pub fn key_trigger_name(k: MurreletKey) -> (r: String)
    ensures
        r@ == trigger_name(k),
{
    key_var_name(k, 't')
}

/// The name `k{letter}f` of a key's fire variable.
pub fn key_fire_name(k: MurreletKey) -> (r: String)
    ensures
        r@ == fire_name(k),
{
    key_var_name(k, 'f')
}

/// What keyboard and mouse buttons have done, frame by frame.
///
/// Locations (window size, mouse and click positions) are carried beside this
/// state by the caller; this type holds the counters and flags that decide
/// what the keyboard and click variables read.
#[derive(Debug, Clone)]
pub struct AppInputValues {
    /// which key is currently pressed
    pub keys_fire: Vec<bool>,
    /// which keys changed on the last update
    pub keys_changed: Vec<bool>,
    /// how many times each key has gone down
    pub keys_cycle: Vec<u32>,
    pub click_fire: bool,
    pub click_changed: bool,
    pub click_cycle: u32,
    /// when set, the mouse location is not taken from incoming input
    pub freeze_mouse_loc: bool,
    pub include_keyboard: bool,
}

/// What one frame of input reports about the keyboard and the left button.
pub struct KeyFrameInput {
    pub keys: Option<Vec<bool>>,
    pub mouse_left_is_down: bool,
}

impl AppInputValues {
    /// One entry per key.
    pub open spec fn wf(&self) -> bool {
        &&& self.keys_fire@.len() == KEY_COUNT
        &&& self.keys_changed@.len() == KEY_COUNT
        &&& self.keys_cycle@.len() == KEY_COUNT
    }

    /// Fresh input state: nothing pressed, nothing counted.
    pub fn new(include_keyboard: bool) -> (r: AppInputValues)
        ensures
            r.wf(),
            r.include_keyboard == include_keyboard,
            !r.freeze_mouse_loc,
            !r.click_fire && !r.click_changed && r.click_cycle == 0,
            forall|i: int| 0 <= i < KEY_COUNT ==>
                !r.keys_fire@[i] && !r.keys_changed@[i] && r.keys_cycle@[i] == 0,
    {
        AppInputValues {
            keys_fire: vec_of_bool(false, KEY_COUNT),
            keys_changed: vec_of_bool(false, KEY_COUNT),
            keys_cycle: vec_of_u32(0, KEY_COUNT),
            click_fire: false,
            click_changed: false,
            click_cycle: 0,
            freeze_mouse_loc: false,
            include_keyboard,
        }
    }

    /// Like `new`, but the mouse location is pinned by the caller and later
    /// updates leave it alone.
    pub fn new_centered(include_keyboard: bool) -> (r: AppInputValues)
        ensures
            r.wf(),
            r.include_keyboard == include_keyboard,
            r.freeze_mouse_loc,
            !r.click_fire && !r.click_changed && r.click_cycle == 0,
            forall|i: int| 0 <= i < KEY_COUNT ==>
                !r.keys_fire@[i] && !r.keys_changed@[i] && r.keys_cycle@[i] == 0,
    {
        let mut v = Self::new(include_keyboard);
        v.freeze_mouse_loc = true;
        v
    }

    /// Whether incoming input should move the mouse location.
    pub fn tracks_mouse(&self) -> (r: bool)
        ensures
            r == !self.freeze_mouse_loc,
    {
        !self.freeze_mouse_loc
    }

    /// Takes one frame of input. A key whose state differs from the last frame
    /// is marked changed, and a key going down counts one more cycle; a held
    /// left button fires a click and counts one more click cycle.
    pub fn update(&mut self, input: &KeyFrameInput)
        requires
            old(self).wf(),
            input.keys matches Some(ks) ==> ks@.len() <= KEY_COUNT,
            forall|i: int| 0 <= i < KEY_COUNT ==> old(self).keys_cycle@[i] < u32::MAX,
            input.mouse_left_is_down ==> old(self).click_cycle < u32::MAX,
        ensures
            final(self).wf(),
            final(self).include_keyboard == old(self).include_keyboard,
            final(self).freeze_mouse_loc == old(self).freeze_mouse_loc,
            final(self).click_fire == input.mouse_left_is_down,
            final(self).click_changed == input.mouse_left_is_down,
            final(self).click_cycle == old(self).click_cycle + (if input.mouse_left_is_down { 1int } else { 0int }),
            forall|i: int| #![trigger final(self).keys_fire@[i]] #![trigger final(self).keys_changed@[i]] #![trigger final(self).keys_cycle@[i]] 0 <= i < KEY_COUNT ==>
                final(self).keys_fire@[i] == fire_after(old(self).keys_fire@[i], input.keys, i)
                && final(self).keys_changed@[i] == changed_after(old(self).keys_fire@[i], input.keys, i)
                && final(self).keys_cycle@[i] == old(self).keys_cycle@[i]
                    + (if changed_after(old(self).keys_fire@[i], input.keys, i) && fire_after(old(self).keys_fire@[i], input.keys, i) { 1int } else { 0int }),
    {
        let mut fire: Vec<bool> = Vec::new();
        let mut changed: Vec<bool> = Vec::new();
        let mut cycle: Vec<u32> = Vec::new();
        let mut i: usize = 0;
        while i < KEY_COUNT
            invariant
                self.wf(),
                i <= KEY_COUNT,
                fire@.len() == i,
                changed@.len() == i,
                cycle@.len() == i,
                forall|j: int| 0 <= j < KEY_COUNT ==> self.keys_cycle@[j] < u32::MAX,
                forall|j: int| #![trigger fire@[j]] #![trigger changed@[j]] #![trigger cycle@[j]] 0 <= j < i ==>
                    fire@[j] == fire_after(self.keys_fire@[j], input.keys, j)
                    && changed@[j] == changed_after(self.keys_fire@[j], input.keys, j)
                    && cycle@[j] == self.keys_cycle@[j]
                        + (if changed_after(self.keys_fire@[j], input.keys, j) && fire_after(self.keys_fire@[j], input.keys, j) { 1int } else { 0int }),
            decreases KEY_COUNT - i,
        {
            let before = self.keys_fire[i];
            let now = match &input.keys {
                Some(ks) => if i < ks.len() { ks[i] } else { before },
                None => before,
            };
            let did_change = now != before;
            let count = self.keys_cycle[i];
            let ghost (f0, c0, y0) = (fire@, changed@, cycle@);
            fire.push(now);
            changed.push(did_change);
            cycle.push(if did_change && now { count + 1 } else { count });
            assert forall|j: int| #![trigger fire@[j]] #![trigger changed@[j]] #![trigger cycle@[j]] 0 <= j < i + 1 implies
                fire@[j] == fire_after(self.keys_fire@[j], input.keys, j)
                && changed@[j] == changed_after(self.keys_fire@[j], input.keys, j)
                && cycle@[j] == self.keys_cycle@[j]
                    + (if changed_after(self.keys_fire@[j], input.keys, j) && fire_after(self.keys_fire@[j], input.keys, j) { 1int } else { 0int })
            by {
                if j < i {
                    assert(fire@[j] == f0[j]);
                    assert(changed@[j] == c0[j]);
                    assert(cycle@[j] == y0[j]);
                }
            }
            i = i + 1;
        }
        self.keys_fire = fire;
        self.keys_changed = changed;
        self.keys_cycle = cycle;
        self.click_fire = false;
        self.click_changed = false;
        if input.mouse_left_is_down {
            self.click_fire = true;
            self.click_cycle = self.click_cycle + 1;
            self.click_changed = true;
        }
    }

    /// True when the key has gone down an even number of times.
    pub fn key_cycle_bool(&self, key: MurreletKey) -> (r: bool)
        requires
            self.wf(),
        ensures
            r == (self.keys_cycle@[key_index(key)] % 2 == 0),
    {
        self.keys_cycle[key.index()] % 2 == 0
    }

    /// True on the frame a key goes down.
    pub fn key_fire_bool(&self, key: MurreletKey) -> (r: bool)
        requires
            self.wf(),
        ensures
            r == (self.keys_changed@[key_index(key)] && self.keys_fire@[key_index(key)]),
    {
        let k = key.index();
        self.keys_changed[k] && self.keys_fire[k]
    }

    /// `key_fire_bool` for every key, in alphabetical order.
    pub fn all_keys_fire_bool(&self) -> (r: Vec<(MurreletKey, bool)>)
        requires
            self.wf(),
        ensures
            r@.len() == KEY_COUNT,
            forall|i: int| #![trigger r@[i]] 0 <= i < KEY_COUNT ==> key_index(r@[i].0) == i
                && r@[i].1 == (self.keys_changed@[i] && self.keys_fire@[i]),
    {
        let mut out: Vec<(MurreletKey, bool)> = Vec::new();
        let mut i: usize = 0;
        while i < KEY_COUNT
            invariant
                self.wf(),
                i <= KEY_COUNT,
                out@.len() == i,
                forall|j: int| #![trigger out@[j]] 0 <= j < i ==> key_index(out@[j].0) == j
                    && out@[j].1 == (self.keys_changed@[j] && self.keys_fire@[j]),
            decreases KEY_COUNT - i,
        {
            let key = MurreletKey::from_index(i);
            let fired = self.key_fire_bool(key);
            let ghost before = out@;
            out.push((key, fired));
            proof {
                assert forall|j: int| #![trigger out@[j]] 0 <= j < i + 1 implies key_index(out@[j].0) == j
                    && out@[j].1 == (self.keys_changed@[j] && self.keys_fire@[j]) by {
                    if j < i {
                        assert(out@[j] == before[j]);
                    }
                }
            }
            i = i + 1;
        }
        out
    }

    /// Whether a click fired on the last update.
    pub fn has_click(&self) -> (r: bool)
        ensures
            r == self.click_fire,
    {
        self.click_fire
    }

    /// The boolean keyboard variables an expression can read: for each key in
    /// order, `k{letter}t` (odd number of presses) then `k{letter}f` (fired
    /// this frame). Empty when the keyboard is not included.
    pub fn keyboard_values(&self) -> (r: Vec<(String, bool)>)
        requires
            self.wf(),
        ensures
            !self.include_keyboard ==> r@.len() == 0,
            self.include_keyboard ==> {
                &&& r@.len() == 2 * KEY_COUNT
                &&& forall|i: int| #![trigger r@[2 * i]] #![trigger r@[2 * i + 1]] 0 <= i < KEY_COUNT ==> {
                    let k = key_at(i);
                    &&& r@[2 * i].0@ == trigger_name(k)
                    &&& r@[2 * i].1 == (self.keys_cycle@[i] % 2 == 1)
                    &&& r@[2 * i + 1].0@ == fire_name(k)
                    &&& r@[2 * i + 1].1 == self.keys_fire@[i]
                }
            },
    {
        let mut out: Vec<(String, bool)> = Vec::new();
        if self.include_keyboard {
            let mut i: usize = 0;
            while i < KEY_COUNT
                invariant
                    self.wf(),
                    i <= KEY_COUNT,
                    out@.len() == 2 * i,
                    forall|j: int| #![trigger out@[2 * j]] #![trigger out@[2 * j + 1]] 0 <= j < i ==> {
                        let k = key_at(j);
                        &&& out@[2 * j].0@ == trigger_name(k)
                        &&& out@[2 * j].1 == (self.keys_cycle@[j] % 2 == 1)
                        &&& out@[2 * j + 1].0@ == fire_name(k)
                        &&& out@[2 * j + 1].1 == self.keys_fire@[j]
                    },
                decreases KEY_COUNT - i,
            {
                let key = MurreletKey::from_index(i);
                let ghost before = out@;
                let tname = key_trigger_name(key);
                let fname = key_fire_name(key);
                out.push((tname, self.keys_cycle[i] % 2 == 1));
                out.push((fname, self.keys_fire[i]));
                assert(out@[2 * i as int] == (tname, self.keys_cycle@[i as int] % 2 == 1));
                assert(out@[2 * i as int + 1] == (fname, self.keys_fire@[i as int]));
                assert forall|j: int| #![trigger out@[2 * j]] #![trigger out@[2 * j + 1]] 0 <= j < i + 1 implies {
                    let k = key_at(j);
                    &&& out@[2 * j].0@ == trigger_name(k)
                    &&& out@[2 * j].1 == (self.keys_cycle@[j] % 2 == 1)
                    &&& out@[2 * j + 1].0@ == fire_name(k)
                    &&& out@[2 * j + 1].1 == self.keys_fire@[j]
                } by {
                    if j < i {
                        assert(out@[2 * j] == before[2 * j]);
                        assert(out@[2 * j + 1] == before[2 * j + 1]);
                    }
                }
                i = i + 1;
            }
        }
        out
    }
}

/// Whether a frame's key report covers key `i`.
pub open spec fn reported(keys: Option<Vec<bool>>, i: int) -> bool {
    match keys {
        Some(ks) => 0 <= i < ks@.len(),
        None => false,
    }
}

/// Whether key `i` is down after a frame: the reported state, else unchanged.
pub open spec fn fire_after(before: bool, keys: Option<Vec<bool>>, i: int) -> bool {
    if reported(keys, i) { keys.unwrap()@[i] } else { before }
}

/// Whether key `i` changed on a frame: it was reported with a new state.
pub open spec fn changed_after(before: bool, keys: Option<Vec<bool>>, i: int) -> bool {
    reported(keys, i) && keys.unwrap()@[i] != before
}

/// The key at a position in alphabetical order.
pub open spec fn key_at(i: int) -> MurreletKey {
    if i <= 0 { MurreletKey::A } else if i == 1 { MurreletKey::B } else if i == 2 { MurreletKey::C }
    else if i == 3 { MurreletKey::D } else if i == 4 { MurreletKey::E } else if i == 5 { MurreletKey::F }
    else if i == 6 { MurreletKey::G } else if i == 7 { MurreletKey::H } else if i == 8 { MurreletKey::I }
    else if i == 9 { MurreletKey::J } else if i == 10 { MurreletKey::K } else if i == 11 { MurreletKey::L }
    else if i == 12 { MurreletKey::M } else if i == 13 { MurreletKey::N } else if i == 14 { MurreletKey::O }
    else if i == 15 { MurreletKey::P } else if i == 16 { MurreletKey::Q } else if i == 17 { MurreletKey::R }
    else if i == 18 { MurreletKey::S } else if i == 19 { MurreletKey::T } else if i == 20 { MurreletKey::U }
    else if i == 21 { MurreletKey::V } else if i == 22 { MurreletKey::W } else if i == 23 { MurreletKey::X }
    else if i == 24 { MurreletKey::Y } else { MurreletKey::Z }
}

/// Indexing keys and looking them up by index are inverse.
pub proof fn law_key_index_round_trip(k: MurreletKey)
    ensures
        key_at(key_index(k)) == k,
        0 <= key_index(k) < KEY_COUNT,
{
}

/// How a key reads across one frame: a press (the key reported going down)
/// fires and flips its cycle switch; a key held down, or one the frame does
/// not report, neither fires nor moves its cycle.
pub proof fn law_key_press_flips_cycle(before: bool, keys: Option<Vec<bool>>, i: int, count: int)
    requires
        count >= 0,
    ensures
        (changed_after(before, keys, i) && fire_after(before, keys, i))
            ==> (((count + 1) % 2 == 0) != (count % 2 == 0)),
        before && fire_after(before, keys, i) ==> !changed_after(before, keys, i),
        !reported(keys, i) ==> fire_after(before, keys, i) == before && !changed_after(before, keys, i),
{
}

fn vec_of_bool(v: bool, n: usize) -> (r: Vec<bool>)
    ensures
        r@.len() == n,
        forall|i: int| 0 <= i < n ==> r@[i] == v,
{
    let mut out: Vec<bool> = Vec::new();
    let mut i: usize = 0;
    while i < n
        invariant
            i <= n,
            out@.len() == i,
            forall|j: int| 0 <= j < i ==> out@[j] == v,
        decreases n - i,
    {
        out.push(v);
        i = i + 1;
    }
    out
}

fn vec_of_u32(v: u32, n: usize) -> (r: Vec<u32>)
    ensures
        r@.len() == n,
        forall|i: int| 0 <= i < n ==> r@[i] == v,
{
    let mut out: Vec<u32> = Vec::new();
    let mut i: usize = 0;
    while i < n
        invariant
            i <= n,
            out@.len() == i,
            forall|j: int| 0 <= j < i ==> out@[j] == v,
        decreases n - i,
    {
        out.push(v);
        i = i + 1;
    }
    out
}

impl Default for AppInputValues {
    /// Fresh input state without the keyboard.
    fn default() -> (r: AppInputValues)
        ensures
            r.wf(),
            !r.include_keyboard,
            !r.freeze_mouse_loc,
            !r.click_fire && !r.click_changed && r.click_cycle == 0,
            forall|i: int| 0 <= i < KEY_COUNT ==>
                !r.keys_fire@[i] && !r.keys_changed@[i] && r.keys_cycle@[i] == 0,
    {
        AppInputValues::new(false)
    }
}

} // verus!
