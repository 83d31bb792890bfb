//! Character-level string helpers shared by the parsers and formatters.
use vstd::prelude::*;
use vstd::string::StrSliceExecFns;

verus! {

/// Appends one character to a `String` with std's `String::push`; trusted
/// to extend the text by exactly that character.
#[verifier::external_body]
pub(crate) fn push_char(s: &mut String, c: char)
    ensures
        final(s)@ == old(s)@.push(c),
{
    s.push(c);
}

/// The characters of a string slice, in order.
pub fn chars_of(s: &str) -> (r: Vec<char>)
    ensures
        r@ == s@,
{
    let n = s.unicode_len();
    let mut out: Vec<char> = Vec::new();
    let mut i: usize = 0;
    while i < n
        invariant
            n == s@.len(),
            i <= n,
            out@ == s@.subrange(0, i as int),
        decreases n - i,
    {
        out.push(s.get_char(i));
        i = i + 1;
    }
    proof {
        assert(s@.subrange(0, n as int) =~= s@);
    }
    out
}

/// A `String` holding exactly the given characters.
pub fn string_from_chars(cs: &[char]) -> (r: String)
    ensures
        r@ == cs@,
{
    let mut out = String::new();
    let mut i: usize = 0;
    while i < cs.len()
        invariant
            i <= cs@.len(),
            out@ == cs@.subrange(0, i as int),
        decreases cs@.len() - i,
    {
        push_char(&mut out, cs[i]);
        proof {
            assert(cs@.subrange(0, i + 1) =~= cs@.subrange(0, i as int).push(cs@[i as int]));
        }
        i = i + 1;
    }
    proof {
        assert(cs@.subrange(0, cs@.len() as int) =~= cs@);
    }
    out
}

/// A `String` holding the characters of `s` followed by those of `t`.
pub fn concat_str(s: &str, t: &str) -> (r: String)
    ensures
        r@ == s@ + t@,
{
    let mut v = chars_of(s);
    let w = chars_of(t);
    let mut i: usize = 0;
    while i < w.len()
        invariant
            i <= w@.len(),
            v@ == s@ + w@.subrange(0, i as int),
        decreases w@.len() - i,
    {
        v.push(w[i]);
        proof {
            assert(w@.subrange(0, i + 1) =~= w@.subrange(0, i as int).push(w@[i as int]));
        }
        i = i + 1;
    }
    proof {
        assert(w@.subrange(0, w@.len() as int) =~= w@);
    }
    string_from_chars(v.as_slice())
}

/// The decimal digit character for a value below ten.
pub open spec fn digit_char(d: nat) -> char {
    (48 + d) as char
}

/// The decimal rendering of a natural number, without sign or leading zeros.
pub open spec fn decimal(n: nat) -> Seq<char>
    decreases n,
{
    if n < 10 {
        seq![digit_char(n)]
    } else {
        decimal(n / 10).push(digit_char(n % 10))
    }
}

/// The decimal rendering of an integer, with a leading `-` when negative.
pub open spec fn signed_decimal(n: int) -> Seq<char> {
    if n < 0 {
        seq!['-'] + decimal((-n) as nat)
    } else {
        decimal(n as nat)
    }
}

/// Renders an unsigned integer in decimal, as `u128::to_string` does.
pub fn u128_to_decimal(n: u128) -> (r: Vec<char>)
    ensures
        r@ == decimal(n as nat),
    decreases n,
{
    if n < 10 {
        let c = digit_to_char(n as u8);
        let mut v: Vec<char> = Vec::new();
        v.push(c);
        proof {
            assert(v@ =~= seq![digit_char(n as nat)]);
        }
        v
    } else {
        let mut v = u128_to_decimal(n / 10);
        v.push(digit_to_char((n % 10) as u8));
        v
    }
}

/// The character of a single decimal digit.
pub fn digit_to_char(d: u8) -> (c: char)
    requires
        d < 10,
    ensures
        c == digit_char(d as nat),
{
    match d {
        0 => '0', 1 => '1', 2 => '2', 3 => '3', 4 => '4',
        5 => '5', 6 => '6', 7 => '7', 8 => '8', _ => '9',
    }
}

/// Renders a signed integer in decimal, as `i64::to_string` does.
pub fn i64_to_decimal(n: i64) -> (r: Vec<char>)
    ensures
        r@ == signed_decimal(n as int),
{
    if n < 0 {
        let mag: u128 = (-(n as i128)) as u128;
        let digits = u128_to_decimal(mag);
        let mut v: Vec<char> = Vec::new();
        v.push('-');
        let mut i: usize = 0;
        while i < digits.len()
            invariant
                i <= digits@.len(),
                v@ == seq!['-'] + digits@.subrange(0, i as int),
            decreases digits@.len() - i,
        {
            v.push(digits[i]);
            proof {
                assert(digits@.subrange(0, i + 1) =~= digits@.subrange(0, i as int).push(digits@[i as int]));
            }
            i = i + 1;
        }
        proof {
            assert(digits@.subrange(0, digits@.len() as int) =~= digits@);
        }
        v
    } else {
        u128_to_decimal(n as u128)
    }
}


/// Whether two string slices hold the same characters.
pub fn str_eq(a: &str, b: &str) -> (r: bool)
    ensures
        r == (a@ == b@),
{
    let n = a.unicode_len();
    let m = b.unicode_len();
    if n != m {
        return false;
    }
    let mut i: usize = 0;
    while i < n
        invariant
            n == a@.len(),
            n == b@.len(),
            i <= n,
            forall|j: int| 0 <= j < i ==> a@[j] == b@[j],
        decreases n - i,
    {
        if a.get_char(i) != b.get_char(i) {
            return false;
        }
        i = i + 1;
    }
    proof {
        assert(a@ =~= b@);
    }
    true
}

/// The pieces of `s` between occurrences of `sep`, as `str::split` yields
/// them: `n` separators give `n + 1` pieces, some possibly empty.
pub open spec fn split_seq(s: Seq<char>, sep: char) -> Seq<Seq<char>>
    decreases s.len(),
{
    if s.len() == 0 {
        seq![Seq::<char>::empty()]
    } else {
        let parts = split_seq(s.drop_last(), sep);
        if s.last() == sep {
            parts.push(Seq::<char>::empty())
        } else {
            parts.update(parts.len() - 1, parts.last().push(s.last()))
        }
    }
}

/// The pieces joined back together with `sep` between neighbours, as
/// `[String]::join` does.
pub open spec fn join_seq(parts: Seq<Seq<char>>, sep: char) -> Seq<char>
    decreases parts.len(),
{
    if parts.len() == 0 {
        Seq::<char>::empty()
    } else if parts.len() == 1 {
        parts[0]
    } else {
        join_seq(parts.drop_last(), sep).push(sep) + parts.last()
    }
}

/// Splitting always yields at least one piece.
pub proof fn lemma_split_nonempty(s: Seq<char>, sep: char)
    ensures
        split_seq(s, sep).len() >= 1,
    decreases s.len(),
{
    if s.len() > 0 {
        lemma_split_nonempty(s.drop_last(), sep);
    }
}

/// The views of a vector of strings.
pub open spec fn string_views(v: Seq<String>) -> Seq<Seq<char>> {
    v.map_values(|x: String| x@)
}

/// Splitting `s + t`, where `t` has no separator, extends the last piece
/// of `s` by `t`.
pub proof fn lemma_split_append_plain(s: Seq<char>, t: Seq<char>, sep: char)
    requires
        !t.contains(sep),
    ensures
        split_seq(s + t, sep) == split_seq(s, sep).update(
            split_seq(s, sep).len() - 1,
            split_seq(s, sep).last() + t,
        ),
    decreases t.len(),
{
    lemma_split_nonempty(s, sep);
    let ps = split_seq(s, sep);
    if t.len() == 0 {
        assert(s + t =~= s);
        assert(ps.last() + t =~= ps.last());
        assert(ps.update(ps.len() - 1, ps.last()) =~= ps);
    } else {
        let t0 = t.drop_last();
        assert forall|c: char| t0.contains(c) implies t.contains(c) by {
            let k = choose|k: int| 0 <= k < t0.len() && t0[k] == c;
            assert(t[k] == c);
        }
        lemma_split_append_plain(s, t0, sep);
        assert((s + t).drop_last() =~= s + t0);
        assert((s + t).last() == t.last());
        assert(t.last() != sep) by {
            assert(t[t.len() - 1] == t.last());
        }
        let q = split_seq(s + t0, sep);
        assert(q == ps.update(ps.len() - 1, ps.last() + t0));
        assert(q.last() == ps.last() + t0);
        assert((ps.last() + t0).push(t.last()) =~= ps.last() + t);
        assert(q.update(q.len() - 1, q.last().push(t.last())) =~= ps.update(ps.len() - 1, ps.last() + t));
    }
}

/// Splitting a path joined with `sep` gives back its pieces, when none of
/// the pieces holds `sep` and there is at least one piece.
pub proof fn law_split_join(parts: Seq<Seq<char>>, sep: char)
    requires
        parts.len() >= 1,
        forall|i: int| 0 <= i < parts.len() ==> !(#[trigger] parts[i]).contains(sep),
    ensures
        split_seq(join_seq(parts, sep), sep) == parts,
    decreases parts.len(),
{
    if parts.len() == 1 {
        let e = Seq::<char>::empty();
        lemma_split_append_plain(e, parts[0], sep);
        assert(e + parts[0] =~= parts[0]);
        assert(split_seq(e, sep) =~= seq![e]);
        assert(seq![e].update(0, e + parts[0]) =~= parts);
    } else {
        let init = parts.drop_last();
        assert forall|i: int| 0 <= i < init.len() implies !(#[trigger] init[i]).contains(sep) by {
            assert(init[i] == parts[i]);
        }
        law_split_join(init, sep);
        let j = join_seq(init, sep).push(sep);
        assert(split_seq(j, sep) == split_seq(join_seq(init, sep), sep).push(Seq::<char>::empty())) by {
            assert(j.drop_last() =~= join_seq(init, sep));
        }
        assert(!parts.last().contains(sep)) by {
            assert(parts[parts.len() - 1] == parts.last());
        }
        lemma_split_append_plain(j, parts.last(), sep);
        let ps = init.push(Seq::<char>::empty());
        assert(Seq::<char>::empty() + parts.last() =~= parts.last());
        assert(ps.update(ps.len() - 1, parts.last()) =~= parts);
    }
}

/// Splits `s` at every `sep`, as `str::split(sep)` collected into a vector.
pub fn split_on(s: &str, sep: char) -> (r: Vec<String>)
    ensures
        string_views(r@) == split_seq(s@, sep),
{
    let cs = chars_of(s);
    let mut parts: Vec<String> = Vec::new();
    let mut cur: Vec<char> = Vec::new();
    let mut i: usize = 0;
    proof {
        assert(cs@.subrange(0, 0) =~= Seq::<char>::empty());
    }
    while i < cs.len()
        invariant
            cs@ == s@,
            i <= cs@.len(),
            split_seq(cs@.subrange(0, i as int), sep) =~= string_views(parts@).push(cur@),
        decreases cs@.len() - i,
    {
        let c = cs[i];
        let ghost pre = cs@.subrange(0, i as int);
        proof {
            assert(cs@.subrange(0, i + 1).drop_last() =~= pre);
            assert(cs@.subrange(0, i + 1).last() == c);
        }
        if c == sep {
            let piece = string_from_chars(cur.as_slice());
            parts.push(piece);
            cur = Vec::new();
            proof {
                assert(string_views(parts@) =~= string_views(parts@.drop_last()).push(piece@));
                assert(parts@.drop_last() =~= parts@.subrange(0, parts@.len() - 1));
            }
        } else {
            cur.push(c);
        }
        proof {
            let ghost sv = string_views(parts@);
            assert(split_seq(cs@.subrange(0, i + 1), sep) =~= string_views(parts@).push(cur@));
        }
        i = i + 1;
    }
    let last = string_from_chars(cur.as_slice());
    parts.push(last);
    proof {
        assert(cs@.subrange(0, cs@.len() as int) =~= cs@);
        assert(string_views(parts@) =~= split_seq(s@, sep));
    }
    parts
}

/// Joins the pieces with `sep` between neighbours.
pub fn join_with(parts: &[String], sep: char) -> (r: String)
    ensures
        r@ == join_seq(string_views(parts@), sep),
{
    let mut out: Vec<char> = Vec::new();
    let mut i: usize = 0;
    while i < parts.len()
        invariant
            i <= parts@.len(),
            out@ == join_seq(string_views(parts@.subrange(0, i as int)), sep),
        decreases parts@.len() - i,
    {
        let piece = chars_of(parts[i].as_str());
        let ghost before = out@;
        if i > 0 {
            out.push(sep);
        }
        let mut k: usize = 0;
        while k < piece.len()
            invariant
                k <= piece@.len(),
                out@ == (if i > 0 { before.push(sep) } else { before }) + piece@.subrange(0, k as int),
            decreases piece@.len() - k,
        {
            out.push(piece[k]);
            proof {
                assert(piece@.subrange(0, k + 1) =~= piece@.subrange(0, k as int).push(piece@[k as int]));
            }
            k = k + 1;
        }
        proof {
            assert(piece@.subrange(0, piece@.len() as int) =~= piece@);
            let sv = string_views(parts@.subrange(0, i + 1));
            assert(sv.drop_last() =~= string_views(parts@.subrange(0, i as int)));
            assert(sv.last() == parts@[i as int]@);
            if i == 0 {
                assert(sv.len() == 1);
                assert(before =~= Seq::<char>::empty());
                assert(out@ =~= sv[0]);
            }
        }
        i = i + 1;
    }
    proof {
        assert(parts@.subrange(0, parts@.len() as int) =~= parts@);
    }
    string_from_chars(out.as_slice())
}

} // verus!
