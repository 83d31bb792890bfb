//! Command-line settings: render sizes written `WIDTHxHEIGHT`, and the
//! headless jobs a run performs.
use vstd::prelude::*;
use crate::text::{chars_of, string_from_chars, concat_str, split_on, split_seq, join_seq, string_views, u128_to_decimal, decimal, digit_char, law_split_join};

verus! {

/// The numeric value of a run of decimal digits.
pub open spec fn digits_value(ds: Seq<char>) -> nat
    decreases ds.len(),
{
    if ds.len() == 0 {
        0
    } else {
        digits_value(ds.drop_last()) * 10 + ((ds.last() as int - 48) as nat)
    }
}

pub open spec fn is_digit(c: char) -> bool {
    '0' <= c && c <= '9'
}

/// Every character is a decimal digit.
pub open spec fn all_digits(ds: Seq<char>) -> bool {
    forall|i: int| 0 <= i < ds.len() ==> is_digit(#[trigger] ds[i])
}

/// The text without one leading `+`.
pub open spec fn sign_stripped(s: Seq<char>) -> Seq<char> {
    if s.len() > 0 && s[0] == '+' { s.skip(1) } else { s }
}

/// What `u32::from_str` reads from a text: an optional `+`, then one or more
/// decimal digits whose value fits in 32 bits.
pub open spec fn parse_u32_spec(s: Seq<char>) -> Option<u32> {
    let ds = sign_stripped(s);
    if ds.len() > 0 && all_digits(ds) && digits_value(ds) <= u32::MAX {
        Some(digits_value(ds) as u32)
    } else {
        None
    }
}

/// Reads an unsigned 32-bit number as `str::parse::<u32>` does.
pub fn parse_u32(s: &str) -> (r: Option<u32>)
    ensures
        r == parse_u32_spec(s@),
{
    let cs = chars_of(s);
    let start: usize = if cs.len() > 0 && cs[0] == '+' { 1 } else { 0 };
    let ghost ds = sign_stripped(s@);
    proof {
        assert(ds =~= cs@.skip(start as int));
    }
    if start >= cs.len() {
        return None;
    }
    let mut value: u64 = 0;
    let mut i: usize = start;
    while i < cs.len()
        invariant
            start <= i <= cs@.len(),
            cs@ == s@,
            ds == sign_stripped(s@),
            ds == cs@.skip(start as int),
            forall|j: int| start <= j < i ==> is_digit(cs@[j]),
            value == digits_value(cs@.subrange(start as int, i as int)),
            value <= u32::MAX,
        decreases cs@.len() - i,
    {
        let c = cs[i];
        if !('0' <= c && c <= '9') {
            proof {
                assert(ds[i - start] == cs@[i as int]);
                assert(!is_digit(ds[i - start]));
                assert(!all_digits(ds));
                assert(parse_u32_spec(s@) == None::<u32>);
            }
            return None;
        }
        let d = (c as u32 - 48) as u64;
        proof {
            assert(cs@.subrange(start as int, i + 1).drop_last() =~= cs@.subrange(start as int, i as int));
        }
        let next = value * 10 + d;
        if next > 4294967295 {
            proof {
                assert(cs@.subrange(start as int, i + 1) =~= ds.subrange(0, i - start + 1));
                assert(digits_value(cs@.subrange(start as int, i + 1)) == value * 10 + d);
                if all_digits(ds) {
                    lemma_digits_value_grows(ds, (i - start + 1) as int);
                    assert(digits_value(ds) > u32::MAX);
                }
                assert(parse_u32_spec(s@) == None::<u32>);
            }
            return None;
        }
        value = next;
        i = i + 1;
    }
    proof {
        assert(cs@.subrange(start as int, cs@.len() as int) =~= ds);
    }
    Some(value as u32)
}

/// A longer prefix of digits never reads as a smaller number.
pub proof fn lemma_digits_value_grows(ds: Seq<char>, k: int)
    requires
        0 <= k <= ds.len(),
        all_digits(ds),
    ensures
        digits_value(ds.subrange(0, k)) <= digits_value(ds),
    decreases ds.len() - k,
{
    if k < ds.len() {
        lemma_digits_value_grows(ds, k + 1);
        let p = ds.subrange(0, k + 1);
        assert(p.drop_last() =~= ds.subrange(0, k));
        assert(p.last() == ds[k]);
        assert(is_digit(ds[k]));
        assert(digits_value(p) == digits_value(ds.subrange(0, k)) * 10 + ((p.last() as int - 48) as nat));
        assert(digits_value(ds.subrange(0, k)) <= digits_value(ds.subrange(0, k)) * 10) by (nonlinear_arith);
    } else {
        assert(ds.subrange(0, k) =~= ds);
    }
}

/// The decimal rendering of a number reads back as that number.
pub proof fn lemma_decimal_digits(n: nat)
    ensures
        decimal(n).len() > 0,
        forall|i: int| 0 <= i < decimal(n).len() ==> is_digit(#[trigger] decimal(n)[i]),
        digits_value(decimal(n)) == n,
    decreases n,
{
    let lastc = digit_char(n % 10);
    assert(lastc as int == 48 + n % 10);
    if n < 10 {
        let d = decimal(n);
        assert(d.drop_last() =~= Seq::<char>::empty());
        assert(d.last() == lastc);
        assert(n % 10 == n);
        assert(digits_value(Seq::<char>::empty()) == 0);
        assert(digits_value(d.drop_last()) == 0);
        assert(digits_value(d) == 0 * 10 + ((lastc as int - 48) as nat));
    } else {
        lemma_decimal_digits(n / 10);
        let d = decimal(n);
        assert(d.drop_last() =~= decimal(n / 10));
        assert(d.last() == lastc);
        assert(digits_value(d) == digits_value(decimal(n / 10)) * 10 + (n % 10));
        assert((n / 10) * 10 + n % 10 == n) by (nonlinear_arith);
        assert forall|i: int| 0 <= i < d.len() implies is_digit(#[trigger] d[i]) by {
            if i < d.len() - 1 {
                assert(d[i] == decimal(n / 10)[i]);
            }
        }
    }
}

/// A render size in pixels.
#[derive(Debug, Clone, Copy)]
pub struct TextureDimensions {
    pub width: u32,
    pub height: u32,
}

/// Why a `WIDTHxHEIGHT` text was refused.
pub open spec fn dims_parse_spec(s: Seq<char>) -> Result<(u32, u32), Seq<char>> {
    let parts = split_seq(s, 'x');
    if parts.len() != 2 {
        Err("Dimensions must be in format WIDTHxHEIGHT"@)
    } else {
        match parse_u32_spec(parts[0]) {
            None => Err("Invalid width"@),
            Some(w) => match parse_u32_spec(parts[1]) {
                None => Err("Invalid height"@),
                Some(h) => Ok((w, h)),
            },
        }
    }
}

/// The text `WIDTHxHEIGHT` of a size.
pub open spec fn dims_text(w: u32, h: u32) -> Seq<char> {
    decimal(w as nat).push('x') + decimal(h as nat)
}

impl TextureDimensions {
    /// `[width, height]`.
    pub fn as_dims(&self) -> (r: [u32; 2])
        ensures
            r@ == seq![self.width, self.height],
    {
        let r = [self.width, self.height];
        proof { assert(r@ =~= seq![self.width, self.height]); }
        r
    }

    /// The default window size, 800 by 800.
    pub fn default() -> (r: Self)
        ensures
            r.width == 800 && r.height == 800,
    {
        TextureDimensions { width: 800, height: 800 }
    }

    /// Reads `WIDTHxHEIGHT`, such as `1920x1080`.
    pub fn from_str(s: &str) -> (r: Result<Self, String>)
        ensures
            match (r, dims_parse_spec(s@)) {
                (Ok(d), Ok((w, h))) => d.width == w && d.height == h,
                (Err(m), Err(e)) => m@ == e,
                _ => false,
            },
    {
        let parts = split_on(s, 'x');
        if parts.len() != 2 {
            return Err("Dimensions must be in format WIDTHxHEIGHT".to_string());
        }
        proof {
            assert(string_views(parts@)[0] == parts@[0]@);
            assert(string_views(parts@)[1] == parts@[1]@);
        }
        let width = match parse_u32(parts[0].as_str()) {
            Some(w) => w,
            None => { return Err("Invalid width".to_string()); },
        };
        let height = match parse_u32(parts[1].as_str()) {
            Some(h) => h,
            None => { return Err("Invalid height".to_string()); },
        };
        Ok(TextureDimensions { width, height })
    }

    /// Writes the size as `WIDTHxHEIGHT`.
    pub fn to_string(&self) -> (r: String)
        ensures
            r@ == dims_text(self.width, self.height),
    {
        let mut cs = u128_to_decimal(self.width as u128);
        cs.push('x');
        let hs = u128_to_decimal(self.height as u128);
        let mut i: usize = 0;
        let ghost pre = cs@;
        while i < hs.len()
            invariant
                i <= hs@.len(),
                cs@ == pre + hs@.subrange(0, i as int),
            decreases hs@.len() - i,
        {
            cs.push(hs[i]);
            proof { assert(hs@.subrange(0, i + 1) =~= hs@.subrange(0, i as int).push(hs@[i as int])); }
            i = i + 1;
        }
        proof { assert(hs@.subrange(0, hs@.len() as int) =~= hs@); }
        string_from_chars(cs.as_slice())
    }
}

/// Writing a size and reading it back gives the same size.
pub proof fn law_dims_round_trip(w: u32, h: u32)
    ensures
        dims_parse_spec(dims_text(w, h)) == Ok::<(u32, u32), Seq<char>>((w, h)),
{
    let a = decimal(w as nat);
    let b = decimal(h as nat);
    lemma_decimal_digits(w as nat);
    lemma_decimal_digits(h as nat);
    assert(!a.contains('x')) by {
        if a.contains('x') { let k = choose|k: int| 0 <= k < a.len() && a[k] == 'x'; assert(is_digit(a[k])); }
    }
    assert(!b.contains('x')) by {
        if b.contains('x') { let k = choose|k: int| 0 <= k < b.len() && b[k] == 'x'; assert(is_digit(b[k])); }
    }
    let parts = seq![a, b];
    assert(parts.drop_last() =~= seq![a]);
    assert(join_seq(parts, 'x') == join_seq(seq![a], 'x').push('x') + b);
    assert(join_seq(parts, 'x') =~= dims_text(w, h));
    law_split_join(parts, 'x');
    assert(a[0] != '+') by { assert(is_digit(a[0])); }
    assert(b[0] != '+') by { assert(is_digit(b[0])); }
}

/// The settings of a run, as given on the command line.
pub struct BaseConfigArgs {
    pub config_path: String,
    /// record video
    pub capture: bool,
    /// window resolution
    pub resolution: TextureDimensions,
    /// how many pixels per window pixel the shaders work on (1 to 8)
    pub texture_multiplier: u32,
    pub earlystop: Option<u64>,
    /// `PATH=VALUE` overrides applied before the config is read
    pub overrides: Vec<String>,
    /// where a headless render is written
    pub output: Option<String>,
    /// a file of headless jobs
    pub batch: Option<String>,
    pub sketch_args: Vec<String>,
}

impl BaseConfigArgs {
    /// The size shaders work at: the window size times the texture multiplier.
    pub fn texture_dims(&self) -> (r: TextureDimensions)
        requires
            self.resolution.width * self.texture_multiplier <= u32::MAX,
            self.resolution.height * self.texture_multiplier <= u32::MAX,
        ensures
            r.width == self.resolution.width * self.texture_multiplier,
            r.height == self.resolution.height * self.texture_multiplier,
    {
        TextureDimensions {
            width: self.resolution.width * self.texture_multiplier,
            height: self.resolution.height * self.texture_multiplier,
        }
    }

    /// The config file's path.
    pub fn config_path(&self) -> (r: String)
        ensures
            r == self.config_path,
    {
        self.config_path.clone()
    }

    /// Whether video is recorded.
    pub fn should_capture(&self) -> (r: bool)
        ensures
            r == self.capture,
    {
        self.capture
    }

    /// A run is headless when it names an output file or a batch of jobs.
    pub fn asks_headless(&self) -> (r: bool)
        ensures
            r == (self.output is Some || self.batch is Some),
    {
        self.output.is_some() || self.batch.is_some()
    }
}

/// One headless render: config overrides on top of the global ones, where
/// the file goes, and an optional render size.
pub struct HeadlessJob {
    pub overrides: Vec<String>,
    pub output: Option<String>,
    pub resolution: Option<[u32; 2]>,
}

/// The one job of a run without a batch: no extra overrides, the global
/// output, the window size.
pub fn single_job(output: Option<String>) -> (r: HeadlessJob)
    ensures
        r.overrides@.len() == 0,
        r.output == output,
        r.resolution is None,
{
    HeadlessJob { overrides: Vec::new(), output, resolution: None }
}

/// The override text `KEY=VALUE`.
pub open spec fn setting_text(k: Seq<char>, v: Seq<char>) -> Seq<char> {
    k.push('=') + v
}

/// A job of a batch: its `set` entries become `KEY=VALUE` overrides in
/// order, and its `WIDTHxHEIGHT` resolution, when given, must be valid.
pub fn job_from_manifest(set: &Vec<(String, String)>, output: String, resolution: Option<String>) -> (r: Result<HeadlessJob, String>)
    ensures
        match resolution {
            Some(t) => match dims_parse_spec(t@) {
                Ok((w, h)) => r matches Ok(j) && j.resolution == Some([w, h]),
                Err(e) => r matches Err(m) && m@ == e,
            },
            None => r matches Ok(j) && j.resolution is None,
        },
        r matches Ok(j) ==> j.output == Some(output) && j.overrides@.len() == set@.len()
            && forall|i: int| 0 <= i < set@.len() ==> #[trigger] j.overrides@[i]@ == setting_text(set@[i].0@, set@[i].1@),
{
    let mut overrides: Vec<String> = Vec::new();
    let mut i: usize = 0;
    while i < set.len()
        invariant
            i <= set@.len(),
            overrides@.len() == i,
            forall|j: int| 0 <= j < i ==> #[trigger] overrides@[j]@ == setting_text(set@[j].0@, set@[j].1@),
        decreases set@.len() - i,
    {
        let a = concat_str(set[i].0.as_str(), "=");
        proof {
            reveal_strlit("=");
            assert("="@ =~= seq!['=']);
        }
        let t = concat_str(a.as_str(), set[i].1.as_str());
        overrides.push(t);
        i = i + 1;
    }
    let res = match resolution {
        Some(text) => match TextureDimensions::from_str(text.as_str()) {
            Ok(d) => Some(d.as_dims()),
            Err(e) => { return Err(e); },
        },
        None => None,
    };
    proof {
        if let Some(a) = res {
            assert(a@ =~= seq![a[0], a[1]]);
        }
    }
    Ok(HeadlessJob { overrides, output: Some(output), resolution: res })
}

} // verus!
