//! Config templates: a line `[[name]]`, indented by some spaces, stands for
//! the file `name.yaml`, whose lines are inserted with the same indent.
use vstd::prelude::*;
use crate::text::{chars_of, string_from_chars};

verus! {

/// `n` spaces.
pub open spec fn spaces(n: nat) -> Seq<char> {
    Seq::new(n, |i: int| ' ')
}

/// The text with `pad` put after every line break.
pub open spec fn pad_after_breaks(s: Seq<char>, pad: Seq<char>) -> Seq<char>
    decreases s.len(),
{
    if s.len() == 0 {
        Seq::empty()
    } else {
        let r = pad_after_breaks(s.drop_last(), pad);
        if s.last() == '\n' { r.push('\n') + pad } else { r.push(s.last()) }
    }
}

/// The text with `n` spaces put at the start of every line, also the empty
/// line after a final line break.
pub open spec fn padded(s: Seq<char>, n: nat) -> Seq<char> {
    spaces(n) + pad_after_breaks(s, spaces(n))
}

/// Indents every line of `text` by `padding_count` spaces.
pub fn leftpad(text: &str, padding_count: usize) -> (r: String)
    ensures
        r@ == padded(text@, padding_count as nat),
{
    let cs = chars_of(text);
    let mut pad: Vec<char> = Vec::new();
    let mut k: usize = 0;
    while k < padding_count
        invariant
            k <= padding_count,
            pad@ == spaces(k as nat),
        decreases padding_count - k,
    {
        pad.push(' ');
        proof { assert(pad@ =~= spaces(k as nat + 1)); }
        k = k + 1;
    }
    let mut out: Vec<char> = pad.clone();
    let mut i: usize = 0;
    while i < cs.len()
        invariant
            i <= cs@.len(),
            cs@ == text@,
            pad@ == spaces(padding_count as nat),
            out@ == pad@ + pad_after_breaks(cs@.take(i as int), pad@),
        decreases cs@.len() - i,
    {
        let c = cs[i];
        proof { assert(cs@.take(i as int + 1).drop_last() =~= cs@.take(i as int)); }
        out.push(c);
        if c == '\n' {
            let mut j: usize = 0;
            let ghost before = out@;
            while j < pad.len()
                invariant
                    j <= pad@.len(),
                    out@ == before + pad@.take(j as int),
                decreases pad@.len() - j,
            {
                out.push(pad[j]);
                proof { assert(pad@.take(j as int + 1) =~= pad@.take(j as int).push(pad@[j as int])); }
                j = j + 1;
            }
            proof {
                assert(pad@.take(pad@.len() as int) =~= pad@);
                assert(out@ =~= pad@ + pad_after_breaks(cs@.take(i as int + 1), pad@));
            }
        } else {
            proof { assert(out@ =~= pad@ + pad_after_breaks(cs@.take(i as int + 1), pad@)); }
        }
        i = i + 1;
    }
    proof { assert(cs@.take(cs@.len() as int) =~= cs@); }
    string_from_chars(out.as_slice())
}

/// Whether `needle` occurs in `s` at position `i`.
pub open spec fn occurs_at(s: Seq<char>, needle: Seq<char>, i: int) -> bool {
    0 <= i && i + needle.len() <= s.len() && s.subrange(i, i + needle.len()) == needle
}

/// The rest of `s` from position `i` with every occurrence of a non-empty
/// `needle` replaced, scanning left to right without overlaps.
pub open spec fn replace_from(s: Seq<char>, needle: Seq<char>, rep: Seq<char>, i: int) -> Seq<char>
    decreases s.len() - i,
{
    if i < 0 || i >= s.len() {
        Seq::empty()
    } else if needle.len() > 0 && occurs_at(s, needle, i) {
        rep + replace_from(s, needle, rep, i + needle.len())
    } else {
        seq![s[i]] + replace_from(s, needle, rep, i + 1)
    }
}

/// Whether `needle` occurs in `cs` at position `i`.
fn occurs_at_exec(cs: &Vec<char>, needle: &Vec<char>, i: usize) -> (r: bool)
    requires
        i <= cs@.len(),
    ensures
        r == occurs_at(cs@, needle@, i as int),
{
    if needle.len() > cs.len() - i {
        return false;
    }
    let mut j: usize = 0;
    while j < needle.len()
        invariant
            j <= needle@.len(),
            i + needle@.len() <= cs@.len(),
            cs@.len() == cs.len(),
            forall|k: int| 0 <= k < j ==> cs@[i + k] == needle@[k],
        decreases needle@.len() - j,
    {
        if cs[i + j] != needle[j] {
            proof { assert(cs@.subrange(i as int, i + needle@.len())[j as int] != needle@[j as int]); }
            return false;
        }
        j = j + 1;
    }
    proof { assert(cs@.subrange(i as int, i + needle@.len()) =~= needle@); }
    true
}

/// The rest of `s` from position `i` with `rep` after every character: what
/// an empty needle gives after the leading `rep`.
pub open spec fn rep_after_each(s: Seq<char>, rep: Seq<char>, i: int) -> Seq<char>
    decreases s.len() - i,
{
    if i < 0 || i >= s.len() {
        Seq::empty()
    } else {
        seq![s[i]] + rep + rep_after_each(s, rep, i + 1)
    }
}

fn push_all(out: &mut Vec<char>, more: &Vec<char>)
    ensures
        final(out)@ == old(out)@ + more@,
{
    let ghost before = out@;
    let mut j: usize = 0;
    while j < more.len()
        invariant
            j <= more@.len(),
            out@ == before + more@.take(j as int),
        decreases more@.len() - j,
    {
        out.push(more[j]);
        proof { assert(more@.take(j as int + 1) =~= more@.take(j as int).push(more@[j as int])); }
        j = j + 1;
    }
    proof { assert(more@.take(more@.len() as int) =~= more@); }
}

/// Replaces every occurrence of `needle`, left to right, as std's
/// `str::replace` does; an empty needle matches before every character and
/// at the end.
pub fn replace_all(s: &str, needle: &str, rep: &str) -> (r: String)
    ensures
        needle@.len() > 0 ==> r@ == replace_from(s@, needle@, rep@, 0),
        needle@.len() == 0 ==> r@ == rep@ + rep_after_each(s@, rep@, 0),
{
    let cs = chars_of(s);
    let nd = chars_of(needle);
    let rp = chars_of(rep);
    let mut out: Vec<char> = Vec::new();
    if nd.len() == 0 {
        push_all(&mut out, &rp);
        let mut i: usize = 0;
        while i < cs.len()
            invariant
                i <= cs@.len(),
                cs@ == s@,
                rp@ == rep@,
                out@ + rep_after_each(cs@, rp@, i as int) == rp@ + rep_after_each(cs@, rp@, 0),
            decreases cs@.len() - i,
        {
            let ghost before = out@;
            out.push(cs[i]);
            push_all(&mut out, &rp);
            proof {
                assert(before + (seq![cs@[i as int]] + rp@ + rep_after_each(cs@, rp@, i + 1))
                    =~= out@ + rep_after_each(cs@, rp@, i + 1));
            }
            i = i + 1;
        }
        proof { assert(out@ + rep_after_each(cs@, rp@, i as int) =~= out@); }
        return string_from_chars(out.as_slice());
    }
    let mut i: usize = 0;
    while i < cs.len()
        invariant
            i <= cs@.len(),
            cs@ == s@,
            nd@ == needle@,
            rp@ == rep@,
            nd@.len() > 0,
            out@ + replace_from(cs@, nd@, rp@, i as int) == replace_from(cs@, nd@, rp@, 0),
        decreases cs@.len() - i,
    {
        if occurs_at_exec(&cs, &nd, i) {
            let ghost before = out@;
            let mut j: usize = 0;
            while j < rp.len()
                invariant
                    j <= rp@.len(),
                    out@ == before + rp@.take(j as int),
                decreases rp@.len() - j,
            {
                out.push(rp[j]);
                proof { assert(rp@.take(j as int + 1) =~= rp@.take(j as int).push(rp@[j as int])); }
                j = j + 1;
            }
            proof {
                assert(rp@.take(rp@.len() as int) =~= rp@);
                assert(before + (rp@ + replace_from(cs@, nd@, rp@, i + nd@.len()))
                    =~= out@ + replace_from(cs@, nd@, rp@, i + nd@.len()));
            }
            i = i + nd.len();
        } else {
            let ghost before = out@;
            out.push(cs[i]);
            proof {
                assert(before + (seq![cs@[i as int]] + replace_from(cs@, nd@, rp@, i + 1))
                    =~= out@ + replace_from(cs@, nd@, rp@, i + 1));
            }
            i = i + 1;
        }
    }
    proof { assert(out@ + replace_from(cs@, nd@, rp@, i as int) =~= out@); }
    string_from_chars(out.as_slice())
}

/// The number of spaces in `s` from position `p` on.
pub open spec fn space_run(s: Seq<char>, p: int) -> nat
    decreases s.len() - p,
{
    if 0 <= p < s.len() && s[p] == ' ' { 1 + space_run(s, p + 1) } else { 0 }
}

/// Whether a character is a square bracket.
pub open spec fn is_bracket(c: char) -> bool {
    c == '[' || c == ']'
}

/// The number of characters other than brackets in `s` from position `p`
/// on; a name may run over line breaks.
pub open spec fn name_run(s: Seq<char>, p: int) -> nat
    decreases s.len() - p,
{
    if 0 <= p < s.len() && !is_bracket(s[p]) { 1 + name_run(s, p + 1) } else { 0 }
}

/// An include directive: how far it is indented and the file it names.
pub struct IncludeModel {
    pub indent: nat,
    pub name: Seq<char>,
}

/// The directive that starts at `p`, if one does: spaces, `[[`, a name of
/// one or more characters other than brackets, `]]`; with the position
/// just after it.
pub open spec fn directive_at(s: Seq<char>, p: int) -> Option<(IncludeModel, int)> {
    let k = space_run(s, p);
    let q = p + k;
    let n = name_run(s, q + 2);
    let e = q + 2 + n;
    if q + 1 < s.len() && s[q] == '[' && s[q + 1] == '[' && n > 0 && e + 1 < s.len() && s[e] == ']'
        && s[e + 1] == ']' {
        Some((IncludeModel { indent: k, name: s.subrange(q + 2, e) }, e + 2))
    } else {
        None
    }
}

/// Whether position `p` starts a line.
pub open spec fn line_start(s: Seq<char>, p: int) -> bool {
    p == 0 || (0 < p <= s.len() && s[p - 1] == '\n')
}

/// The directives found scanning from `p` on: at each line start where one
/// begins it is taken and the scan goes on after it.
pub open spec fn scan_directives(s: Seq<char>, p: int) -> Seq<IncludeModel>
    decreases s.len() + 1 - p,
{
    if p < 0 || p > s.len() {
        Seq::empty()
    } else if line_start(s, p) && directive_at(s, p) is Some {
        let (d, e) = directive_at(s, p).unwrap();
        if e > p { seq![d] + scan_directives(s, e) } else { Seq::empty() }
    } else {
        scan_directives(s, p + 1)
    }
}

/// An include directive found in a config text.
pub struct IncludeDirective {
    /// the number of spaces before `[[`
    pub indent: usize,
    /// the file name, without its `.yaml` extension
    pub name: String,
}

impl View for IncludeDirective {
    type V = IncludeModel;

    open spec fn view(&self) -> IncludeModel {
        IncludeModel { indent: self.indent as nat, name: self.name@ }
    }
}

/// The models of a list of directives.
pub open spec fn directive_views(v: Seq<IncludeDirective>) -> Seq<IncludeModel> {
    v.map_values(|d: IncludeDirective| d@)
}

/// Reads the directive at `p`, giving its indent and the position after it.
fn directive_at_exec(cs: &Vec<char>, p: usize) -> (r: Option<(usize, usize)>)
    requires
        p <= cs@.len(),
    ensures
        match directive_at(cs@, p as int) {
            Some((d, e)) => r matches Some((k, e2)) && k == d.indent && e2 == e,
            None => r is None,
        },
{
    let n = cs.len();
    let mut q = p;
    while q < n && cs[q] == ' '
        invariant
            p <= q <= n,
            n == cs@.len(),
            space_run(cs@, p as int) == (q - p) + space_run(cs@, q as int),
        decreases n - q,
    {
        q = q + 1;
    }
    let k = q - p;
    if !(q < n && n - q > 1 && cs[q] == '[' && cs[q + 1] == '[') {
        return None;
    }
    let mut e = q + 2;
    while e < n && cs[e] != '[' && cs[e] != ']'
        invariant
            q + 2 <= e <= n,
            n == cs@.len(),
            name_run(cs@, q + 2) == (e - (q + 2)) + name_run(cs@, e as int),
        decreases n - e,
    {
        e = e + 1;
    }
    if e > q + 2 && e < n && n - e > 1 && cs[e] == ']' && cs[e + 1] == ']' {
        Some((k, e + 2))
    } else {
        None
    }
}

/// The characters `cs[a..b]` as a string.
fn slice_text(cs: &Vec<char>, a: usize, b: usize) -> (r: String)
    requires
        a <= b <= cs@.len(),
    ensures
        r@ == cs@.subrange(a as int, b as int),
{
    let mut out: Vec<char> = Vec::new();
    let mut i = a;
    while i < b
        invariant
            a <= i <= b,
            b <= cs@.len(),
            out@ == cs@.subrange(a as int, i as int),
        decreases b - i,
    {
        out.push(cs[i]);
        proof { assert(cs@.subrange(a as int, i + 1) =~= cs@.subrange(a as int, i as int).push(cs@[i as int])); }
        i = i + 1;
    }
    string_from_chars(out.as_slice())
}

/// The include directives of a config text, in order: each is a line that
/// starts with spaces and `[[name]]`.
pub fn include_directives(text: &str) -> (r: Vec<IncludeDirective>)
    ensures
        directive_views(r@) == scan_directives(text@, 0),
{
    let cs = chars_of(text);
    let n = cs.len();
    let mut out: Vec<IncludeDirective> = Vec::new();
    let mut p: usize = 0;
    while p < n
        invariant
            n == cs@.len(),
            cs@ == text@,
            p <= n,
            directive_views(out@) + scan_directives(cs@, p as int) == scan_directives(cs@, 0),
        decreases n - p,
    {
        let starts = p == 0 || cs[p - 1] == '\n';
        let found = if starts { directive_at_exec(&cs, p) } else { None };
        match found {
            Some((k, e)) => {
                let ghost d = directive_at(cs@, p as int).unwrap().0;
                let name = slice_text(&cs, p + k + 2, e - 2);
                let item = IncludeDirective { indent: k, name };
                let ghost before = out@;
                out.push(item);
                proof {
                    assert(item@ == d);
                    assert(directive_views(out@) =~= directive_views(before).push(d));
                    assert(directive_views(before) + (seq![d] + scan_directives(cs@, e as int))
                        =~= directive_views(out@) + scan_directives(cs@, e as int));
                }
                p = e;
            },
            None => {
                p = p + 1;
            },
        }
    }
    proof {
        assert(directive_at(cs@, n as int) is None);
        assert(scan_directives(cs@, n as int + 1) == Seq::<IncludeModel>::empty());
        assert(directive_views(out@) + scan_directives(cs@, p as int) =~= directive_views(out@));
    }
    out
}

/// The text a directive stands in: its spaces, `[[`, its name and `]]`.
pub open spec fn directive_text(d: IncludeModel) -> Seq<char> {
    spaces(d.indent) + "[["@ + d.name + "]]"@
}

/// The text after each directive whose file was found has been replaced,
/// everywhere it occurs, by the file's lines indented like the directive;
/// directives are taken in order.
pub open spec fn splice_all(text: Seq<char>, dirs: Seq<IncludeModel>, contents: Seq<Option<Seq<char>>>) -> Seq<char>
    decreases dirs.len(),
{
    if dirs.len() == 0 || contents.len() == 0 {
        text
    } else {
        let t = splice_all(text, dirs.drop_last(), contents.drop_last());
        match contents.last() {
            Some(c) => replace_from(t, directive_text(dirs.last()), padded(c, dirs.last().indent), 0),
            None => t,
        }
    }
}

/// The models of a list of loaded files.
pub open spec fn content_views(v: Seq<Option<String>>) -> Seq<Option<Seq<char>>> {
    v.map_values(|c: Option<String>| match c { Some(s) => Some(s@), None => None })
}

/// The text a directive stands in.
fn directive_text_exec(d: &IncludeDirective) -> (r: String)
    ensures
        r@ == directive_text(d@),
{
    let mut cs: Vec<char> = Vec::new();
    let mut k: usize = 0;
    while k < d.indent
        invariant
            k <= d.indent,
            cs@ == spaces(k as nat),
        decreases d.indent - k,
    {
        cs.push(' ');
        proof { assert(cs@ =~= spaces(k as nat + 1)); }
        k = k + 1;
    }
    cs.push('[');
    cs.push('[');
    let name = chars_of(d.name.as_str());
    let ghost before = cs@;
    let mut i: usize = 0;
    while i < name.len()
        invariant
            i <= name@.len(),
            cs@ == before + name@.take(i as int),
        decreases name@.len() - i,
    {
        cs.push(name[i]);
        proof { assert(name@.take(i as int + 1) =~= name@.take(i as int).push(name@[i as int])); }
        i = i + 1;
    }
    cs.push(']');
    cs.push(']');
    proof {
        reveal_strlit("[[");
        reveal_strlit("]]");
        assert(name@.take(name@.len() as int) =~= name@);
        assert(cs@ =~= directive_text(d@));
    }
    string_from_chars(cs.as_slice())
}

/// Puts the loaded files in place of their directives: `contents[i]` is
/// the text of the file `dirs[i]` names, or nothing where it was not found.
pub fn splice_includes(text: &str, dirs: &Vec<IncludeDirective>, contents: &Vec<Option<String>>) -> (r: String)
    requires
        dirs@.len() == contents@.len(),
    ensures
        r@ == splice_all(text@, directive_views(dirs@), content_views(contents@)),
{
    let mut out = text.to_string();
    let mut i: usize = 0;
    while i < dirs.len()
        invariant
            i <= dirs@.len(),
            dirs@.len() == contents@.len(),
            out@ == splice_all(text@, directive_views(dirs@).take(i as int), content_views(contents@).take(i as int)),
        decreases dirs@.len() - i,
    {
        proof {
            assert(directive_views(dirs@).take(i as int + 1).drop_last() =~= directive_views(dirs@).take(i as int));
            assert(content_views(contents@).take(i as int + 1).drop_last() =~= content_views(contents@).take(i as int));
        }
        match &contents[i] {
            Some(c) => {
                let pat = directive_text_exec(&dirs[i]);
                let pad = leftpad(c.as_str(), dirs[i].indent);
                proof {
                    reveal_strlit("[[");
                    assert(pat@.len() > 0);
                }
                out = replace_all(out.as_str(), pat.as_str(), pad.as_str());
            },
            None => {},
        }
        i = i + 1;
    }
    proof {
        assert(directive_views(dirs@).take(dirs@.len() as int) =~= directive_views(dirs@));
        assert(content_views(contents@).take(dirs@.len() as int) =~= content_views(contents@));
    }
    out
}

/// When none of the named files was found, the text is left as it is.
pub proof fn law_no_files_found_keeps_text(text: Seq<char>, dirs: Seq<IncludeModel>, contents: Seq<Option<Seq<char>>>)
    requires
        forall|i: int| 0 <= i < contents.len() ==> contents[i] is None,
    ensures
        splice_all(text, dirs, contents) == text,
    decreases dirs.len(),
{
    if dirs.len() > 0 && contents.len() > 0 {
        assert(contents.last() is None);
        law_no_files_found_keeps_text(text, dirs.drop_last(), contents.drop_last());
    }
}

/// Indenting by no spaces leaves a text as it is.
pub proof fn law_zero_indent_keeps_text(s: Seq<char>)
    ensures
        padded(s, 0) == s,
    decreases s.len(),
{
    assert(spaces(0) =~= Seq::<char>::empty());
    if s.len() > 0 {
        law_zero_indent_keeps_text(s.drop_last());
        assert(padded(s.drop_last(), 0) == pad_after_breaks(s.drop_last(), spaces(0)));
        assert(s.drop_last().push(s.last()) =~= s);
        if s.last() == '\n' {
            assert(pad_after_breaks(s, spaces(0)) =~= pad_after_breaks(s.drop_last(), spaces(0)).push('\n'));
        }
    }
    assert(padded(s, 0) =~= pad_after_breaks(s, spaces(0)));
}

} // verus!
