//! Format strings whose `{}` holes are filled, left to right, with
//! rendered values; `{{` and `}}` stand for literal braces.
use vstd::prelude::*;
use crate::nested::{LivecodeError, debug_string, debug_text};
use crate::text::{chars_of, string_from_chars, concat_str, i64_to_decimal, signed_decimal, decimal, u128_to_decimal};

verus! {

/// Why a format string could not be filled.
#[derive(Debug, Clone, Copy, PartialEq, Eq)]
pub enum TemplateFault {
    /// more `{}` holes than fill values
    TooFewFills,
    /// a `{` that starts neither `{{` nor `{}`
    BadPlaceholder,
    /// a `}` that is not part of `}}` or `{}`
    UnmatchedClose,
}

/// Filling `fmt` from position `i` on, with `next` the index of the next
/// unused fill value.
pub open spec fn fill_from(fmt: Seq<char>, fills: Seq<Seq<char>>, i: int, next: int) -> Result<Seq<char>, TemplateFault>
    decreases fmt.len() - i,
{
    if i < 0 || i >= fmt.len() {
        Ok(Seq::<char>::empty())
    } else if fmt[i] == '{' {
        if i + 1 < fmt.len() && fmt[i + 1] == '{' {
            match fill_from(fmt, fills, i + 2, next) {
                Ok(rest) => Ok(seq!['{'] + rest),
                Err(e) => Err(e),
            }
        } else if i + 1 < fmt.len() && fmt[i + 1] == '}' {
            if 0 <= next < fills.len() {
                match fill_from(fmt, fills, i + 2, next + 1) {
                    Ok(rest) => Ok(fills[next] + rest),
                    Err(e) => Err(e),
                }
            } else {
                Err(TemplateFault::TooFewFills)
            }
        } else {
            Err(TemplateFault::BadPlaceholder)
        }
    } else if fmt[i] == '}' {
        if i + 1 < fmt.len() && fmt[i + 1] == '}' {
            match fill_from(fmt, fills, i + 2, next) {
                Ok(rest) => Ok(seq!['}'] + rest),
                Err(e) => Err(e),
            }
        } else {
            Err(TemplateFault::UnmatchedClose)
        }
    } else {
        match fill_from(fmt, fills, i + 1, next) {
            Ok(rest) => Ok(seq![fmt[i]] + rest),
            Err(e) => Err(e),
        }
    }
}

/// The filled format string, or the first fault met scanning left to right.
pub open spec fn fill_template(fmt: Seq<char>, fills: Seq<Seq<char>>) -> Result<Seq<char>, TemplateFault> {
    fill_from(fmt, fills, 0, 0)
}

/// `done` followed by the outcome of the rest.
pub open spec fn after(done: Seq<char>, rest: Result<Seq<char>, TemplateFault>) -> Result<Seq<char>, TemplateFault> {
    match rest {
        Ok(r) => Ok(done + r),
        Err(e) => Err(e),
    }
}

/// Fills the `{}` holes of `fmt` with `fills`, left to right.
pub fn fill_holes(fmt: &str, fills: &Vec<String>) -> (r: Result<String, TemplateFault>)
    ensures
        match (r, fill_template(fmt@, fills@.map_values(|s: String| s@))) {
            (Ok(a), Ok(b)) => a@ == b,
            (Err(a), Err(b)) => a == b,
            _ => false,
        },
{
    let ghost fv = fills@.map_values(|s: String| s@);
    let cs = chars_of(fmt);
    let n = cs.len();
    let mut out: Vec<char> = Vec::new();
    let mut i: usize = 0;
    let mut next: usize = 0;
    while i < n
        invariant
            cs@ == fmt@,
            n == cs@.len(),
            i <= n,
            next <= fills@.len(),
            fv == fills@.map_values(|s: String| s@),
            fill_template(fmt@, fv) == after(out@, fill_from(fmt@, fv, i as int, next as int)),
        decreases n - i,
    {
        let c = cs[i];
        let ghost o = out@;
        let ghost cur = fill_from(fmt@, fv, i as int, next as int);
        proof {
            assert(fmt@[i as int] == c);
        }
        if c == '{' {
            if i + 1 < n && cs[i + 1] == '{' {
                out.push('{');
                proof {
                    let nx = fill_from(fmt@, fv, i + 2, next as int);
                    assert(cur == after(seq!['{'], nx));
                    match nx {
                        Ok(rest) => { assert(o + (seq!['{'] + rest) =~= out@ + rest); },
                        Err(_) => {},
                    }
                }
                i = i + 2;
            } else if i + 1 < n && cs[i + 1] == '}' {
                if next < fills.len() {
                    let piece = chars_of(fills[next].as_str());
                    let mut k: usize = 0;
                    while k < piece.len()
                        invariant
                            k <= piece@.len(),
                            out@ == o + piece@.subrange(0, k as int),
                        decreases piece@.len() - k,
                    {
                        out.push(piece[k]);
                        proof {
                            assert(piece@.subrange(0, k + 1) =~= piece@.subrange(0, k as int).push(piece@[k as int]));
                        }
                        k = k + 1;
                    }
                    proof {
                        assert(piece@.subrange(0, piece@.len() as int) =~= piece@);
                        assert(fv[next as int] == fills@[next as int]@);
                        let nx = fill_from(fmt@, fv, i + 2, next + 1);
                        assert(cur == after(fv[next as int], nx));
                        match nx {
                            Ok(rest) => { assert(o + (piece@ + rest) =~= out@ + rest); },
                            Err(_) => {},
                        }
                    }
                    next = next + 1;
                    i = i + 2;
                } else {
                    proof {
                        assert(cur == Err::<Seq<char>, TemplateFault>(TemplateFault::TooFewFills));
                    }
                    return Err(TemplateFault::TooFewFills);
                }
            } else {
                proof {
                    assert(cur == Err::<Seq<char>, TemplateFault>(TemplateFault::BadPlaceholder));
                }
                return Err(TemplateFault::BadPlaceholder);
            }
        } else if c == '}' {
            if i + 1 < n && cs[i + 1] == '}' {
                out.push('}');
                proof {
                    let nx = fill_from(fmt@, fv, i + 2, next as int);
                    assert(cur == after(seq!['}'], nx));
                    match nx {
                        Ok(rest) => { assert(o + (seq!['}'] + rest) =~= out@ + rest); },
                        Err(_) => {},
                    }
                }
                i = i + 2;
            } else {
                proof {
                    assert(cur == Err::<Seq<char>, TemplateFault>(TemplateFault::UnmatchedClose));
                }
                return Err(TemplateFault::UnmatchedClose);
            }
        } else {
            out.push(c);
            proof {
                let nx = fill_from(fmt@, fv, i + 1, next as int);
                assert(cur == after(seq![c], nx));
                match nx {
                    Ok(rest) => { assert(o + (seq![c] + rest) =~= out@ + rest); },
                    Err(_) => {},
                }
            }
            i = i + 1;
        }
    }
    proof {
        assert(out@ + Seq::<char>::empty() =~= out@);
    }
    Ok(string_from_chars(out.as_slice()))
}


/// From any position, text without braces fills to itself.
pub proof fn lemma_plain_fill_from(fmt: Seq<char>, fills: Seq<Seq<char>>, i: int, next: int)
    requires
        0 <= i <= fmt.len(),
        !fmt.contains('{'),
        !fmt.contains('}'),
    ensures
        fill_from(fmt, fills, i, next) == Ok::<Seq<char>, TemplateFault>(fmt.skip(i)),
    decreases fmt.len() - i,
{
    if i < fmt.len() {
        assert(fmt[i] != '{' && fmt[i] != '}') by {
            if fmt[i] == '{' { assert(fmt.contains('{')); }
            if fmt[i] == '}' { assert(fmt.contains('}')); }
        }
        lemma_plain_fill_from(fmt, fills, i + 1, next);
        assert(seq![fmt[i]] + fmt.skip(i + 1) =~= fmt.skip(i));
    } else {
        assert(fmt.skip(i) =~= Seq::<char>::empty());
    }
}

/// A format string without braces is its own result, whatever the fills.
pub proof fn law_plain_text_unchanged(fmt: Seq<char>, fills: Seq<Seq<char>>)
    requires
        !fmt.contains('{'),
        !fmt.contains('}'),
    ensures
        fill_template(fmt, fills) == Ok::<Seq<char>, TemplateFault>(fmt),
{
    lemma_plain_fill_from(fmt, fills, 0, 0);
    assert(fmt.skip(0) =~= fmt);
}

/// A single hole between two brace-free texts takes the first fill value.
pub proof fn law_single_hole(pre: Seq<char>, post: Seq<char>, fills: Seq<Seq<char>>)
    requires
        fills.len() >= 1,
        !pre.contains('{') && !pre.contains('}'),
        !post.contains('{') && !post.contains('}'),
    ensures
        fill_template(pre + seq!['{', '}'] + post, fills) == Ok::<Seq<char>, TemplateFault>(pre + fills[0] + post),
{
    let fmt = pre + seq!['{', '}'] + post;
    assert(fmt.subrange(0, pre.len() as int) =~= pre);
    assert(fmt.skip(pre.len() as int + 2) =~= post);
    lemma_prefix_fill(fmt, pre, fills, 0, 0);
    assert(fmt[pre.len() as int] == '{');
    assert(fmt[pre.len() as int + 1] == '}');
    lemma_plain_fill_from(post, fills, 0, 1);
    lemma_suffix_matches(fmt, post, pre.len() as int + 2, fills, 1);
    assert(post.skip(0) =~= post);
    assert(pre.skip(0) =~= pre);
    assert(pre + (fills[0] + post) =~= pre + fills[0] + post);
}

/// The literal pieces of `fmt` from position `i` on, between and around its
/// `{}` holes, with `{{` and `}}` read as single braces: one piece more than
/// there are holes.
pub open spec fn pieces_from(fmt: Seq<char>, i: int) -> Seq<Seq<char>>
    decreases fmt.len() - i,
{
    if i < 0 || i >= fmt.len() {
        seq![Seq::<char>::empty()]
    } else if i + 1 < fmt.len() && fmt[i] == '{' && fmt[i + 1] == '}' {
        seq![Seq::<char>::empty()] + pieces_from(fmt, i + 2)
    } else if i + 1 < fmt.len() && ((fmt[i] == '{' && fmt[i + 1] == '{') || (fmt[i] == '}' && fmt[i + 1] == '}')) {
        let p = pieces_from(fmt, i + 2);
        p.update(0, seq![fmt[i]] + p[0])
    } else {
        let p = pieces_from(fmt, i + 1);
        p.update(0, seq![fmt[i]] + p[0])
    }
}

/// The pieces with the fill values from index `next` on put between them.
pub open spec fn interleave(pieces: Seq<Seq<char>>, fills: Seq<Seq<char>>, next: int) -> Seq<char>
    decreases pieces.len(),
{
    if pieces.len() <= 1 {
        if pieces.len() == 1 { pieces[0] } else { Seq::empty() }
    } else {
        pieces[0] + fills[next] + interleave(pieces.drop_first(), fills, next + 1)
    }
}

/// There is always at least one piece.
proof fn lemma_pieces_nonempty(fmt: Seq<char>, i: int)
    ensures
        pieces_from(fmt, i).len() >= 1,
    decreases fmt.len() - i,
{
    if 0 <= i < fmt.len() {
        if i + 1 < fmt.len() && fmt[i] == '{' && fmt[i + 1] == '}' {
            lemma_pieces_nonempty(fmt, i + 2);
        } else if i + 1 < fmt.len() && ((fmt[i] == '{' && fmt[i + 1] == '{') || (fmt[i] == '}' && fmt[i + 1] == '}')) {
            lemma_pieces_nonempty(fmt, i + 2);
        } else {
            lemma_pieces_nonempty(fmt, i + 1);
        }
    }
}

/// Putting a character before the first piece puts it before the result.
proof fn lemma_interleave_prepend(pieces: Seq<Seq<char>>, fills: Seq<Seq<char>>, next: int, c: char)
    requires
        pieces.len() >= 1,
    ensures
        interleave(pieces.update(0, seq![c] + pieces[0]), fills, next) == seq![c] + interleave(pieces, fills, next),
{
    let q = pieces.update(0, seq![c] + pieces[0]);
    if pieces.len() > 1 {
        assert(q.drop_first() =~= pieces.drop_first());
        assert(q[0] + fills[next] + interleave(q.drop_first(), fills, next + 1)
            =~= seq![c] + (pieces[0] + fills[next] + interleave(pieces.drop_first(), fills, next + 1)));
    }
}

/// A successful fill is the literal pieces with the fill values between
/// them, in order.
proof fn lemma_fill_is_interleave(fmt: Seq<char>, fills: Seq<Seq<char>>, i: int, next: int)
    requires
        0 <= i,
    ensures
        fill_from(fmt, fills, i, next) matches Ok(x) ==> x == interleave(pieces_from(fmt, i), fills, next),
    decreases fmt.len() - i,
{
    if i < fmt.len() {
        if fmt[i] == '{' && i + 1 < fmt.len() && fmt[i + 1] == '{' {
            lemma_fill_is_interleave(fmt, fills, i + 2, next);
            lemma_pieces_nonempty(fmt, i + 2);
            lemma_interleave_prepend(pieces_from(fmt, i + 2), fills, next, '{');
        } else if fmt[i] == '{' && i + 1 < fmt.len() && fmt[i + 1] == '}' {
            lemma_fill_is_interleave(fmt, fills, i + 2, next + 1);
            lemma_pieces_nonempty(fmt, i + 2);
            let p = seq![Seq::<char>::empty()] + pieces_from(fmt, i + 2);
            assert(p.drop_first() =~= pieces_from(fmt, i + 2));
            match fill_from(fmt, fills, i + 2, next + 1) {
                Ok(rest) => {
                    assert(Seq::<char>::empty() + fills[next] + rest =~= fills[next] + rest);
                },
                Err(_) => {},
            }
        } else if fmt[i] == '}' && i + 1 < fmt.len() && fmt[i + 1] == '}' {
            lemma_fill_is_interleave(fmt, fills, i + 2, next);
            lemma_pieces_nonempty(fmt, i + 2);
            lemma_interleave_prepend(pieces_from(fmt, i + 2), fills, next, '}');
        } else if fmt[i] != '{' && fmt[i] != '}' {
            lemma_fill_is_interleave(fmt, fills, i + 1, next);
            lemma_pieces_nonempty(fmt, i + 1);
            lemma_interleave_prepend(pieces_from(fmt, i + 1), fills, next, fmt[i]);
        }
    } else {
        assert(interleave(seq![Seq::<char>::empty()], fills, next) == Seq::<char>::empty());
    }
}

/// Whether a fill succeeds, and the fault when it does not, depend on the
/// number of fill values only.
proof fn lemma_fill_outcome_by_count(fmt: Seq<char>, a: Seq<Seq<char>>, b: Seq<Seq<char>>, i: int, next: int)
    requires
        0 <= i,
        a.len() == b.len(),
    ensures
        (fill_from(fmt, a, i, next) is Ok) == (fill_from(fmt, b, i, next) is Ok),
        fill_from(fmt, a, i, next) matches Err(e) ==> fill_from(fmt, b, i, next) == Err::<Seq<char>, TemplateFault>(e),
    decreases fmt.len() - i,
{
    if i < fmt.len() {
        if fmt[i] == '{' && i + 1 < fmt.len() && fmt[i + 1] == '}' {
            lemma_fill_outcome_by_count(fmt, a, b, i + 2, next + 1);
        } else if (fmt[i] == '{' || fmt[i] == '}') && i + 1 < fmt.len() && fmt[i + 1] == fmt[i] {
            lemma_fill_outcome_by_count(fmt, a, b, i + 2, next);
        } else {
            lemma_fill_outcome_by_count(fmt, a, b, i + 1, next);
        }
    }
}

/// Filling the same format string with two lists of as many values (such
/// as integers and their float counterparts, each rendered as text)
/// succeeds for both or for neither, with the same fault; and each result
/// is the same literal text with the i-th hole holding the i-th value.
pub proof fn law_fill_depends_on_count(fmt: Seq<char>, a: Seq<Seq<char>>, b: Seq<Seq<char>>)
    requires
        a.len() == b.len(),
    ensures
        (fill_template(fmt, a) is Ok) == (fill_template(fmt, b) is Ok),
        fill_template(fmt, a) matches Err(e) ==> fill_template(fmt, b) == Err::<Seq<char>, TemplateFault>(e),
        fill_template(fmt, a) matches Ok(x) ==> x == interleave(pieces_from(fmt, 0), a, 0),
        fill_template(fmt, b) matches Ok(y) ==> y == interleave(pieces_from(fmt, 0), b, 0),
{
    lemma_fill_outcome_by_count(fmt, a, b, 0, 0);
    lemma_fill_is_interleave(fmt, a, 0, 0);
    lemma_fill_is_interleave(fmt, b, 0, 0);
}

/// Scanning a brace-free prefix copies it and continues after it.
pub proof fn lemma_prefix_fill(fmt: Seq<char>, pre: Seq<char>, fills: Seq<Seq<char>>, i: int, next: int)
    requires
        0 <= i <= pre.len(),
        pre.len() <= fmt.len(),
        fmt.subrange(0, pre.len() as int) == pre,
        !pre.contains('{') && !pre.contains('}'),
    ensures
        fill_from(fmt, fills, i, next) == after(pre.skip(i), fill_from(fmt, fills, pre.len() as int, next)),
    decreases pre.len() - i,
{
    if i < pre.len() {
        assert(fmt[i] == pre[i]);
        assert(pre[i] != '{' && pre[i] != '}') by {
            if pre[i] == '{' { assert(pre.contains('{')); }
            if pre[i] == '}' { assert(pre.contains('}')); }
        }
        lemma_prefix_fill(fmt, pre, fills, i + 1, next);
        match fill_from(fmt, fills, pre.len() as int, next) {
            Ok(rest) => {
                assert(seq![pre[i]] + (pre.skip(i + 1) + rest) =~= pre.skip(i) + rest);
            },
            Err(_) => {},
        }
    } else {
        match fill_from(fmt, fills, pre.len() as int, next) {
            Ok(rest) => { assert(pre.skip(i) + rest =~= rest); },
            Err(_) => {},
        }
    }
}

/// Filling from where a brace-free suffix starts gives that suffix.
pub proof fn lemma_suffix_matches(fmt: Seq<char>, post: Seq<char>, start: int, fills: Seq<Seq<char>>, next: int)
    requires
        0 <= start,
        start + post.len() == fmt.len(),
        fmt.skip(start) == post,
        !post.contains('{') && !post.contains('}'),
    ensures
        fill_from(fmt, fills, start, next) == Ok::<Seq<char>, TemplateFault>(post),
{
    lemma_suffix_from(fmt, post, start, fills, start, next);
    assert(post.skip(0) =~= post);
}

proof fn lemma_suffix_from(fmt: Seq<char>, post: Seq<char>, start: int, fills: Seq<Seq<char>>, i: int, next: int)
    requires
        0 <= start <= i <= fmt.len(),
        start + post.len() == fmt.len(),
        fmt.skip(start) == post,
        !post.contains('{') && !post.contains('}'),
    ensures
        fill_from(fmt, fills, i, next) == Ok::<Seq<char>, TemplateFault>(post.skip(i - start)),
    decreases fmt.len() - i,
{
    if i < fmt.len() {
        assert(fmt[i] == post[i - start]);
        assert(post[i - start] != '{' && post[i - start] != '}') by {
            if post[i - start] == '{' { assert(post.contains('{')); }
            if post[i - start] == '}' { assert(post.contains('}')); }
        }
        lemma_suffix_from(fmt, post, start, fills, i + 1, next);
        assert(seq![fmt[i]] + post.skip(i + 1 - start) =~= post.skip(i - start));
    } else {
        assert(post.skip(i - start) =~= Seq::<char>::empty());
    }
}

/// The message a fault is reported with, naming the field (`fmt` or
/// `fmt_f`), the format string and the number of fill values.
pub open spec fn fault_message(f: TemplateFault, label: Seq<char>, fmt: Seq<char>, n: nat) -> Seq<char> {
    let head = "MurreletString "@ + label + " "@ + debug_text(fmt);
    match f {
        TemplateFault::TooFewFills => head + " has more placeholders than fills ("@ + decimal(n) + ")"@,
        TemplateFault::BadPlaceholder => head + " only supports empty {} placeholders"@,
        TemplateFault::UnmatchedClose => head + " has an unmatched }"@,
    }
}

/// Fills the holes of `fmt` with already rendered values; a fault becomes
/// a `Raw` error whose message names the field `label`.
pub fn fill_rendered(fmt: &str, fills: &Vec<String>, label: &str) -> (r: Result<String, LivecodeError>)
    ensures
        match fill_template(fmt@, fills@.map_values(|s: String| s@)) {
            Ok(b) => r matches Ok(a) && a@ == b,
            Err(f) => r matches Err(LivecodeError::Raw(m)) && m@ == fault_message(f, label@, fmt@, fills@.len()),
        },
{
    match fill_holes(fmt, fills) {
        Ok(s) => Ok(s),
        Err(f) => {
            let owned = fmt.to_string();
            let quoted = debug_string(&owned);
            let a = concat_str("MurreletString ", label);
            let b = concat_str(a.as_str(), " ");
            let head = concat_str(b.as_str(), quoted.as_str());
            let msg = match f {
                TemplateFault::TooFewFills => {
                    let c = concat_str(head.as_str(), " has more placeholders than fills (");
                    let digits = string_from_chars(u128_to_decimal(fills.len() as u128).as_slice());
                    let d = concat_str(c.as_str(), digits.as_str());
                    concat_str(d.as_str(), ")")
                },
                TemplateFault::BadPlaceholder => concat_str(head.as_str(), " only supports empty {} placeholders"),
                TemplateFault::UnmatchedClose => concat_str(head.as_str(), " has an unmatched }"),
            };
            Err(LivecodeError::Raw(msg))
        },
    }
}

/// Fills the holes of a `fmt` string with integers written in decimal.
pub fn fill_fmt(fmt: &str, fill: &[i64]) -> (r: Result<String, LivecodeError>)
    ensures
        match fill_template(fmt@, fill@.map_values(|v: i64| signed_decimal(v as int))) {
            Ok(b) => r matches Ok(a) && a@ == b,
            Err(f) => r matches Err(LivecodeError::Raw(m)) && m@ == fault_message(f, "fmt"@, fmt@, fill@.len()),
        },
{
    let mut rendered: Vec<String> = Vec::new();
    let mut i: usize = 0;
    while i < fill.len()
        invariant
            i <= fill@.len(),
            rendered@.map_values(|s: String| s@) =~= fill@.subrange(0, i as int).map_values(|v: i64| signed_decimal(v as int)),
        decreases fill@.len() - i,
    {
        let digits = i64_to_decimal(fill[i]);
        let ghost before = rendered@;
        rendered.push(string_from_chars(digits.as_slice()));
        proof {
            assert(rendered@.map_values(|s: String| s@) =~= before.map_values(|s: String| s@).push(signed_decimal(fill@[i as int] as int)));
            assert(fill@.subrange(0, i + 1) =~= fill@.subrange(0, i as int).push(fill@[i as int]));
            assert(fill@.subrange(0, i + 1).map_values(|v: i64| signed_decimal(v as int)) =~= fill@.subrange(0, i as int).map_values(|v: i64| signed_decimal(v as int)).push(signed_decimal(fill@[i as int] as int)));
        }
        i = i + 1;
    }
    proof {
        assert(fill@.subrange(0, fill@.len() as int) =~= fill@);
    }
    fill_rendered(fmt, &rendered, "fmt")
}

} // verus!
