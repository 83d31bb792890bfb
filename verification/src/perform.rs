//! The decisions of the performance loop: when to reload, redraw and
//! capture, where captures go, and which config versions are kept.
use vstd::prelude::*;
use crate::text::{decimal, u128_to_decimal, string_from_chars, concat_str, str_eq, string_views};
use crate::expr::{GetLivecodeIdentifiers, variable_views};
use crate::derive_rules::starts_with;

verus! {

/// What every config type of a performance has: it can be printed for
/// debugging and copied.
pub trait CommonTrait: std::fmt::Debug + Clone {}

/// The serde default of switches that start off.
pub fn _default_false() -> (r: bool)
    ensures
        r == false,
{
    false
}

/// How the GPU pipeline shows its work.
#[derive(Clone, Copy, Debug, PartialEq, Eq)]
pub struct GpuConfig {
    /// show the next pass for debugging
    pub debug_next: bool,
    /// trigger for saving
    pub debug: bool,
    /// which color channel is shown
    pub color_channel: usize,
}

impl CommonTrait for GpuConfig {}

/// What the control config of a performance has to offer: it names the
/// variables and functions its expressions use, and it is a config type.
/// Evaluating it against a world, and loading it from disk, are the
/// application's part.
pub trait LiveCodeCommon<T>: GetLivecodeIdentifiers + CommonTrait {}

/// `s` left-padded with `0` to at least `width` characters.
pub open spec fn zero_padded(s: Seq<char>, width: nat) -> Seq<char> {
    if s.len() >= width { s } else { Seq::new((width - s.len()) as nat, |i: int| '0') + s }
}

/// The file name of a captured frame, without extension: the run id,
/// `_capture_`, the frame number padded with zeros to five digits, and the
/// prefix with an underscore in front when there is one.
pub open spec fn capture_name(run_id: u64, frame: u64, prefix: Seq<char>) -> Seq<char> {
    let raw = decimal(run_id as nat) + "_capture_"@ + zero_padded(decimal(frame as nat), 5);
    if prefix.len() > 0 { prefix + "_"@ + raw } else { raw }
}

/// A padded number is at least as long as the width, ends with the number's
/// own digits and has only zeros before them; a frame below 100000 is
/// written with exactly five digits. A capture's name starts with its
/// prefix and an underscore when it has a prefix, and otherwise with the
/// run id.
pub proof fn law_capture_names_are_padded(s: Seq<char>, width: nat, run_id: u64, frame: u64, prefix: Seq<char>)
    ensures
        zero_padded(s, width).len() == (if s.len() >= width { s.len() } else { width }),
        zero_padded(s, width).skip(zero_padded(s, width).len() - s.len()) == s,
        forall|i: int| 0 <= i < zero_padded(s, width).len() - s.len() ==> #[trigger] zero_padded(s, width)[i] == '0',
        frame < 100000 ==> zero_padded(decimal(frame as nat), 5).len() == 5,
        prefix.len() > 0 ==> capture_name(run_id, frame, prefix).take(prefix.len() + 1int) == prefix + seq!['_'],
        prefix.len() == 0 ==> capture_name(run_id, frame, prefix).take(decimal(run_id as nat).len() as int) == decimal(run_id as nat),
{
    reveal_strlit("_");
    reveal_strlit("_capture_");
    let z = zero_padded(s, width);
    assert(z.skip(z.len() - s.len()) =~= s);
    if frame < 100000 {
        lemma_decimal_short(frame as nat);
    }
    let raw = decimal(run_id as nat) + "_capture_"@ + zero_padded(decimal(frame as nat), 5);
    assert(raw.take(decimal(run_id as nat).len() as int) =~= decimal(run_id as nat));
    if prefix.len() > 0 {
        assert((prefix + "_"@ + raw).take(prefix.len() + 1int) =~= prefix + seq!['_']);
    }
}

/// A number below 100000 has at most five digits.
proof fn lemma_decimal_short(n: nat)
    requires
        n < 100000,
    ensures
        decimal(n).len() <= 5,
{
    if n >= 10 {
        assert(n / 10 < 10000);
        if n / 10 >= 10 {
            assert(n / 100 < 1000);
            if n / 100 >= 10 {
                assert(n / 1000 < 100);
                if n / 1000 >= 10 {
                    assert(n / 10000 < 10);
                    assert(decimal(n / 10000).len() == 1);
                }
                assert(decimal(n / 1000).len() <= 2);
            }
            assert(decimal(n / 100).len() <= 3);
        }
        assert(decimal(n / 10).len() <= 4);
    }
}

/// The file name a frame is captured under (the folder is the run id).
pub fn capture_frame_name(run_id: u64, frame: u64, prefix: &str) -> (r: String)
    ensures
        r@ == capture_name(run_id, frame, prefix@),
{
    let run = string_from_chars(u128_to_decimal(run_id as u128).as_slice());
    let digits = u128_to_decimal(frame as u128);
    let mut padded: Vec<char> = Vec::new();
    let mut k: usize = digits.len();
    while k < 5
        invariant
            digits.len() <= k <= 5 || (digits.len() > 5 && k == digits.len()),
            padded@ == Seq::new((k - digits@.len()) as nat, |i: int| '0'),
        decreases 5 - k,
    {
        padded.push('0');
        proof { assert(padded@ =~= Seq::new((k + 1 - digits@.len()) as nat, |i: int| '0')); }
        k = k + 1;
    }
    let mut i: usize = 0;
    let ghost zeros = padded@;
    while i < digits.len()
        invariant
            i <= digits@.len(),
            padded@ == zeros + digits@.take(i as int),
        decreases digits@.len() - i,
    {
        padded.push(digits[i]);
        proof { assert(digits@.take(i as int + 1) =~= digits@.take(i as int).push(digits@[i as int])); }
        i = i + 1;
    }
    proof {
        assert(digits@.take(digits@.len() as int) =~= digits@);
        assert(padded@ =~= zero_padded(decimal(frame as nat), 5));
        reveal_strlit("_capture_");
        reveal_strlit("_");
    }
    let frame_text = string_from_chars(padded.as_slice());
    let a = concat_str(run.as_str(), "_capture_");
    let raw = concat_str(a.as_str(), frame_text.as_str());
    if crate::text::chars_of(prefix).len() > 0 {
        let b = concat_str(prefix, "_");
        concat_str(b.as_str(), raw.as_str())
    } else {
        raw
    }
}

/// The folder a run's captures go into, named by the run id.
pub fn capture_folder_name(run_id: u64) -> (r: String)
    ensures
        r@ == decimal(run_id as nat),
{
    string_from_chars(u128_to_decimal(run_id as u128).as_slice())
}

/// Whether to reload at this frame: every `reload_rate` frames when that
/// is at least one, or always when the config asks to.
pub fn should_reload(frame: u64, reload_rate: u64, reload: bool) -> (r: bool)
    ensures
        r == ((reload_rate >= 1 && frame % reload_rate == 0) || reload),
{
    (reload_rate >= 1 && frame % reload_rate == 0) || reload
}

/// Whether to redraw at this frame: every `redraw` frames, or whenever an
/// svg is being saved.
pub fn should_redraw(frame: u64, redraw: u64, svg_save: bool) -> (r: bool)
    requires
        redraw > 0,
    ensures
        r == (frame % redraw == 0 || svg_save),
{
    frame % redraw == 0 || svg_save
}

/// Whether to capture this frame: the config asks for captures (from the
/// first frame on), or for this frame, or the command line asks.
pub fn should_capture_frame(config_capture: bool, frame: u64, capture_frame: bool, args_capture: bool) -> (r: bool)
    ensures
        r == ((config_capture && frame != 0) || capture_frame || args_capture),
{
    (config_capture && frame != 0) || capture_frame || args_capture
}

/// Whether the background is reset: exactly when the config asks for it,
/// that is when its background alpha is above one half or its `clear_bg`
/// switch is on. `config_clears_bg` is that decision of the config, which
/// the caller takes from the config's alpha and switch.
pub fn should_reset_bg(config_clears_bg: bool) -> (r: bool)
    ensures
        r == config_clears_bg,
{
    config_clears_bg
}

/// Whether a reload may happen now: it is wanted, and either reloads may
/// happen at any time or a bar just started.
pub fn reload_allowed(reload: bool, reload_on_bar: bool, is_on_bar: bool) -> (r: bool)
    ensures
        r == (reload && (!reload_on_bar || is_on_bar)),
{
    reload && (!reload_on_bar || is_on_bar)
}

/// Whether controllers get feedback about the variables in use this frame.
pub fn should_send_feedback(elapsed_frames: u64) -> (r: bool)
    ensures
        r == (elapsed_frames % 20 == 0),
{
    elapsed_frames % 20 == 0
}

/// The versions of the control config a performance keeps: the one in
/// use, the one before it (blended from), and one waiting while a blend
/// is under way.
pub struct ConfigVersions<C> {
    pub current: C,
    pub prev: C,
    pub queued: Option<C>,
}

impl<C: Clone> ConfigVersions<C> {
    /// Takes a config read from disk: during a blend it waits in the queue;
    /// otherwise the one in use becomes the previous one and the new one is
    /// used (the caller restarts the blend).
    pub fn take_reloaded(&mut self, new: C, mid_blend: bool)
        ensures
            mid_blend ==> final(self).queued == Some(new) && final(self).current == old(self).current
                && final(self).prev == old(self).prev,
            !mid_blend ==> final(self).current == new && cloned(old(self).current, final(self).prev)
                && final(self).queued == old(self).queued,
    {
        if mid_blend {
            self.queued = Some(new);
        } else {
            self.prev = self.current.clone();
            self.current = new;
        }
    }

    /// Takes a config handed over directly: it is used at once, the one in
    /// use becomes the previous one, and any waiting one is dropped.
    pub fn take_update(&mut self, new: C)
        ensures
            final(self).current == new,
            cloned(old(self).current, final(self).prev),
            final(self).queued is None,
    {
        self.prev = self.current.clone();
        self.current = new;
        self.queued = None;
    }
}

/// Adds a name to a list of distinct names unless it is there already.
fn add_unique(out: &mut Vec<String>, name: &str)
    requires
        string_views(old(out)@).no_duplicates(),
    ensures
        string_views(final(out)@).no_duplicates(),
        string_views(final(out)@).to_set() == string_views(old(out)@).to_set().insert(name@),
{
    let mut i: usize = 0;
    while i < out.len()
        invariant
            i <= out@.len(),
            string_views(out@).no_duplicates(),
            forall|k: int| 0 <= k < i ==> string_views(out@)[k] != name@,
        decreases out@.len() - i,
    {
        if str_eq(out[i].as_str(), name) {
            proof {
                assert(string_views(out@)[i as int] == name@);
                assert(string_views(out@).to_set().contains(name@));
                assert(string_views(out@).to_set().insert(name@) =~= string_views(out@).to_set());
            }
            return;
        }
        i = i + 1;
    }
    let ghost before = string_views(out@);
    out.push(name.to_string());
    proof {
        assert(string_views(out@) =~= before.push(name@));
        assert(!before.contains(name@));
        before.lemma_push_to_set_commute(name@);
        assert(string_views(out@).no_duplicates()) by {
            assert forall|a: int, b: int| 0 <= a < b < string_views(out@).len()
                implies string_views(out@)[a] != string_views(out@)[b] by {
                if b == before.len() {
                    assert(before[a] == string_views(out@)[a]);
                }
            }
        }
    }
}

/// Adds each variable's name to a list of distinct names.
fn add_all_unique(out: &mut Vec<String>, vars: &Vec<crate::expr::LivecodeVariable>)
    requires
        string_views(old(out)@).no_duplicates(),
    ensures
        string_views(final(out)@).no_duplicates(),
        string_views(final(out)@).to_set() == string_views(old(out)@).to_set() + variable_views(vars@).to_set(),
{
    let ghost start = string_views(out@).to_set();
    let mut i: usize = 0;
    while i < vars.len()
        invariant
            i <= vars@.len(),
            string_views(out@).no_duplicates(),
            string_views(out@).to_set() == start + variable_views(vars@).take(i as int).to_set(),
        decreases vars@.len() - i,
    {
        add_unique(out, vars[i].name.as_str());
        proof {
            assert(variable_views(vars@)[i as int] == vars@[i as int].name@);
            assert(variable_views(vars@).take(i as int + 1) =~= variable_views(vars@).take(i as int).push(vars@[i as int].name@));
            variable_views(vars@).take(i as int).lemma_push_to_set_commute(vars@[i as int].name@);
            assert(string_views(out@).to_set() =~= start + variable_views(vars@).take(i as int + 1).to_set());
        }
        i = i + 1;
    }
    proof { assert(variable_views(vars@).take(vars@.len() as int) =~= variable_views(vars@)); }
}

/// The names a version reads, if there is a version.
pub open spec fn queued_names<C: GetLivecodeIdentifiers>(q: Option<C>) -> Set<Seq<char>> {
    match q {
        Some(c) => c.variable_names().to_set(),
        None => Set::empty(),
    }
}

impl<C: GetLivecodeIdentifiers> ConfigVersions<C> {
    /// The distinct names of the variables that any kept version reads.
    pub fn used_variable_names(&self) -> (r: Vec<String>)
        ensures
            string_views(r@).no_duplicates(),
            string_views(r@).to_set() == self.current.variable_names().to_set()
                + self.prev.variable_names().to_set() + queued_names(self.queued),
    {
        let mut out: Vec<String> = Vec::new();
        proof { assert(string_views(out@) =~= Seq::<Seq<char>>::empty()); }
        let a = self.current.variable_identifiers();
        add_all_unique(&mut out, &a);
        let b = self.prev.variable_identifiers();
        add_all_unique(&mut out, &b);
        match &self.queued {
            Some(q) => {
                let c = q.variable_identifiers();
                add_all_unique(&mut out, &c);
            },
            None => {},
        }
        proof {
            assert(Set::<Seq<char>>::empty() + self.current.variable_names().to_set() =~= self.current.variable_names().to_set());
            if self.queued is None {
                assert(self.current.variable_names().to_set() + self.prev.variable_names().to_set() + queued_names(self.queued)
                    =~= self.current.variable_names().to_set() + self.prev.variable_names().to_set());
            }
        }
        out
    }
}

/// The names, in order, that are used but not set by the world and that
/// name OSC inputs (they start with `oo_`); each gets a default value.
pub open spec fn missing_osc(used: Seq<Seq<char>>, world: Set<Seq<char>>) -> Seq<Seq<char>>
    decreases used.len(),
{
    if used.len() == 0 {
        Seq::empty()
    } else {
        let rest = missing_osc(used.drop_last(), world);
        let x = used.last();
        if !world.contains(x) && x.len() >= 3 && x.subrange(0, 3) == "oo_"@ { rest.push(x) } else { rest }
    }
}

/// The used OSC names that the world does not set.
pub fn missing_osc_names(used: &Vec<String>, world_vars: &Vec<String>) -> (r: Vec<String>)
    ensures
        string_views(r@) == missing_osc(string_views(used@), string_views(world_vars@).to_set()),
{
    let ghost world = string_views(world_vars@).to_set();
    let mut out: Vec<String> = Vec::new();
    let mut i: usize = 0;
    while i < used.len()
        invariant
            i <= used@.len(),
            world == string_views(world_vars@).to_set(),
            string_views(out@) == missing_osc(string_views(used@).take(i as int), world),
        decreases used@.len() - i,
    {
        let x = used[i].as_str();
        proof {
            assert(string_views(used@).take(i as int + 1).drop_last() =~= string_views(used@).take(i as int));
            assert(string_views(used@).take(i as int + 1).last() == used@[i as int]@);
        }
        let mut known = false;
        let mut j: usize = 0;
        while j < world_vars.len()
            invariant
                j <= world_vars@.len(),
                known == exists|k: int| 0 <= k < j && #[trigger] string_views(world_vars@)[k] == x@,
            decreases world_vars@.len() - j,
        {
            if str_eq(world_vars[j].as_str(), x) {
                proof { assert(string_views(world_vars@)[j as int] == x@); }
                known = true;
            }
            j = j + 1;
        }
        proof {
            reveal_strlit("oo_");
            if known {
                let k = choose|k: int| 0 <= k < world_vars@.len() && #[trigger] string_views(world_vars@)[k] == x@;
                assert(string_views(world_vars@).contains(x@));
            } else {
                assert(!string_views(world_vars@).contains(x@));
            }
        }
        if !known && starts_with(x, "oo_") {
            let ghost before = string_views(out@);
            out.push(used[i].clone());
            proof { assert(string_views(out@) =~= before.push(x@)); }
        }
        i = i + 1;
    }
    proof { assert(string_views(used@).take(used@.len() as int) =~= string_views(used@)); }
    out
}

} // verus!
