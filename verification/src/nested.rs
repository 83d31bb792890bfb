//! Reading and editing values of a nested config through dotted paths
//! such as `drawing.stroke.width`.
use vstd::prelude::*;
use vstd::hash_map::StringHashMap;
use evalexpr::EvalexprError;
use crate::text::{join_with, join_seq, split_on, split_seq, string_views, str_eq, law_split_join};

verus! {

/// Errors of the livecode layer.
#[derive(Debug)]
pub enum LivecodeError {
    /// a custom error message
    Raw(String),
    /// an expression that did not parse or evaluate
    EvalExpr(String, EvalexprError),
    /// a nested get asked for more path than the value has
    NestGetExtra(String),
    NestGetInvalid(String),
    /// a parse error at a location
    SerdeLoc(String, String),
    /// a shader parse error
    WGPU(String),
    JsonParse(String),
}

impl LivecodeError {
    /// A `Raw` error with the given message.
    pub fn raw(s: &str) -> (r: Self)
        ensures
            r matches LivecodeError::Raw(m) && m@ == s@,
    {
        LivecodeError::Raw(s.to_string())
    }
}

/// The edits a list of `(path, value)` pairs gives: a later pair for the
/// same path replaces an earlier one.
pub open spec fn pairs_map(pairs: Seq<(String, String)>) -> Map<Seq<char>, String>
    decreases pairs.len(),
{
    if pairs.len() == 0 {
        Map::empty()
    } else {
        pairs_map(pairs.drop_last()).insert(pairs.last().0@, pairs.last().1)
    }
}

/// Collects `(path, value)` pairs into edits keyed by path.
pub fn edits_from_pairs(pairs: &Vec<(String, String)>) -> (r: StringHashMap<String>)
    ensures
        r@ == pairs_map(pairs@),
{
    let mut m: StringHashMap<String> = StringHashMap::new();
    let mut i: usize = 0;
    while i < pairs.len()
        invariant
            i <= pairs@.len(),
            m@ == pairs_map(pairs@.take(i as int)),
        decreases pairs@.len() - i,
    {
        proof { assert(pairs@.take(i as int + 1).drop_last() =~= pairs@.take(i as int)); }
        m.insert(pairs[i].0.clone(), pairs[i].1.clone());
        i = i + 1;
    }
    proof { assert(pairs@.take(pairs@.len() as int) =~= pairs@); }
    m
}

/// A position in a nested value together with the edits, keyed by dotted
/// path, that may apply below it.
pub struct NestedMod<'a> {
    curr_loc: Vec<String>,
    mods: &'a StringHashMap<String>,
}

impl<'a> NestedMod<'a> {
    /// The path from the root to this position.
    pub closed spec fn loc(&self) -> Seq<Seq<char>> {
        string_views(self.curr_loc@)
    }

    /// The edits, keyed by dotted path.
    pub closed spec fn edits(&self) -> Map<Seq<char>, String> {
        self.mods@
    }

    /// Starts at the root of a value.
    pub fn from_dict(mods: &'a StringHashMap<String>) -> (r: Self)
        ensures
            r.loc() == Seq::<Seq<char>>::empty(),
            r.edits() == mods@,
    {
        NestedMod { curr_loc: Vec::new(), mods }
    }

    /// The edit for this position, if there is one.
    pub fn get_curr(&self) -> (r: Option<String>)
        ensures
            match r {
                Some(v) => self.edits().contains_key(join_seq(self.loc(), '.'))
                    && v == self.edits()[join_seq(self.loc(), '.')],
                None => !self.edits().contains_key(join_seq(self.loc(), '.')),
            },
    {
        let key = join_with(self.curr_loc.as_slice(), '.');
        match self.mods.get(key.as_str()) {
            Some(v) => Some(v.clone()),
            None => None,
        }
    }

    /// The edit for the child `subfield` of this position, if there is one.
    pub fn get_subfield(&self, subfield: &str) -> (r: Option<String>)
        ensures
            match r {
                Some(v) => self.edits().contains_key(join_seq(self.loc().push(subfield@), '.'))
                    && v == self.edits()[join_seq(self.loc().push(subfield@), '.')],
                None => !self.edits().contains_key(join_seq(self.loc().push(subfield@), '.')),
            },
    {
        let keys = self.child_path(subfield);
        let key = join_with(keys.as_slice(), '.');
        match self.mods.get(key.as_str()) {
            Some(v) => Some(v.clone()),
            None => None,
        }
    }

    fn child_path(&self, subfield: &str) -> (r: Vec<String>)
        ensures
            string_views(r@) == self.loc().push(subfield@),
    {
        let mut keys: Vec<String> = Vec::new();
        let mut i: usize = 0;
        while i < self.curr_loc.len()
            invariant
                i <= self.curr_loc@.len(),
                string_views(keys@) =~= string_views(self.curr_loc@.subrange(0, i as int)),
            decreases self.curr_loc@.len() - i,
        {
            let ghost before = keys@;
            keys.push(self.curr_loc[i].clone());
            proof {
                assert(self.curr_loc@.subrange(0, i + 1) =~= self.curr_loc@.subrange(0, i as int).push(self.curr_loc@[i as int]));
                assert(string_views(keys@) =~= string_views(before).push(self.curr_loc@[i as int]@));
                assert(string_views(self.curr_loc@.subrange(0, i + 1)) =~= string_views(self.curr_loc@.subrange(0, i as int)).push(self.curr_loc@[i as int]@));
            }
            i = i + 1;
        }
        proof {
            assert(self.curr_loc@.subrange(0, self.curr_loc@.len() as int) =~= self.curr_loc@);
        }
        let ghost before = keys@;
        keys.push(subfield.to_string());
        proof {
            assert(string_views(keys@) =~= string_views(before).push(subfield@));
        }
        keys
    }

    /// The position of the child `subfield`, with the same edits.
    pub fn next_loc(&self, subfield: &str) -> (r: Self)
        ensures
            r.loc() == self.loc().push(subfield@),
            r.edits() == self.edits(),
    {
        NestedMod { curr_loc: self.child_path(subfield), mods: self.mods }
    }
}

/// The text a nested get reports for the rest of a path it cannot follow.
pub open spec fn extra_path(getter: Seq<Seq<char>>) -> Seq<char> {
    join_seq(getter, '.')
}

/// A leaf value answers a get with its own text when the path is used up,
/// and fails with the unused path otherwise.
pub fn nest_default(getter: &[String], self_as_str: String) -> (r: Result<String, LivecodeError>)
    ensures
        getter@.len() == 0 ==> r == Ok::<String, LivecodeError>(self_as_str),
        getter@.len() > 0 ==> (r matches Err(LivecodeError::NestGetExtra(m)) && m@ == extra_path(string_views(getter@))),
{
    if getter.len() == 0 {
        Ok(self_as_str)
    } else {
        Err(LivecodeError::NestGetExtra(join_with(getter, '.')))
    }
}

/// The pieces of a dotted getter path.
pub fn getter_parts(getter: &str) -> (r: Vec<String>)
    ensures
        string_views(r@) == split_seq(getter@, '.'),
{
    split_on(getter, '.')
}

/// The textual form of a boolean, as `{:?}` writes it.
pub open spec fn bool_text(b: bool) -> Seq<char> {
    if b { seq!['t', 'r', 'u', 'e'] } else { seq!['f', 'a', 'l', 's', 'e'] }
}

/// The edit stored for the position `m` stands at, if there is one.
pub open spec fn edit_here(m: &NestedMod) -> Option<Seq<char>> {
    let key = join_seq(m.loc(), '.');
    if m.edits().contains_key(key) { Some(m.edits()[key]@) } else { None }
}

/// A switch after an edit: the edit's word when it is `true` or `false`,
/// else the switch as it was.
pub open spec fn bool_after(before: bool, edit: Option<Seq<char>>) -> bool {
    match edit {
        Some(t) => if t == bool_text(true) { true } else if t == bool_text(false) { false } else { before },
        None => before,
    }
}

/// A text after an edit: the edit when there is one, else the text as it was.
pub open spec fn string_after(before: Seq<char>, edit: Option<Seq<char>>) -> Seq<char> {
    match edit {
        Some(t) => t,
        None => before,
    }
}

/// A value that can be read and edited through dotted paths.
pub trait NestEditable: Sized {
    /// The value with the edits that apply at `mods`'s position.
    fn nest_update(&self, mods: &NestedMod) -> Self;

    /// The text of the part at the path `getter` (already split at dots).
    fn nest_get(&self, getter: &[String]) -> Result<String, LivecodeError>;
}

impl NestEditable for bool {
    /// `true` or `false` when the edit at this position says so exactly;
    /// any other edit, or none, keeps the value.
    fn nest_update(&self, mods: &NestedMod) -> (r: bool)
        ensures
            r == bool_after(*self, edit_here(mods)),
            ({
                let key = join_seq(mods.loc(), '.');
                if mods.edits().contains_key(key) && mods.edits()[key]@ == bool_text(true) {
                    r == true
                } else if mods.edits().contains_key(key) && mods.edits()[key]@ == bool_text(false) {
                    r == false
                } else {
                    r == *self
                }
            }),
    {
        match mods.get_curr() {
            Some(x) => {
                proof {
                    reveal_strlit("true");
                    reveal_strlit("false");
                    assert("true"@ =~= bool_text(true));
                    assert("false"@ =~= bool_text(false));
                }
                if str_eq(x.as_str(), "true") {
                    true
                } else if str_eq(x.as_str(), "false") {
                    false
                } else {
                    *self
                }
            },
            None => *self,
        }
    }

    /// The value's text when the path is used up.
    fn nest_get(&self, getter: &[String]) -> (r: Result<String, LivecodeError>)
        ensures
            getter@.len() == 0 ==> (r matches Ok(s) && s@ == bool_text(*self)),
            getter@.len() > 0 ==> (r matches Err(LivecodeError::NestGetExtra(m)) && m@ == extra_path(string_views(getter@))),
    {
        proof {
            reveal_strlit("true");
            reveal_strlit("false");
            assert("true"@ =~= bool_text(true));
            assert("false"@ =~= bool_text(false));
        }
        let text = if *self { "true".to_string() } else { "false".to_string() };
        nest_default(getter, text)
    }
}


/// The text `{:?}` gives for a string: quoted, with special characters
/// escaped.
pub uninterp spec fn debug_text(s: Seq<char>) -> Seq<char>;

/// The `Debug` rendering of a string (std's `format!("{:?}", s)`), which
/// depends on the string alone.
#[verifier::external_body]
pub(crate) fn debug_string(s: &String) -> (r: String)
    ensures
        r@ == debug_text(s@),
{
    format!("{:?}", s)
}

impl NestEditable for String {
    /// The edit at this position when there is one, else the value.
    fn nest_update(&self, mods: &NestedMod) -> (r: String)
        ensures
            r@ == string_after(self@, edit_here(mods)),
            ({
                let key = join_seq(mods.loc(), '.');
                if mods.edits().contains_key(key) { r == mods.edits()[key] } else { r == *self }
            }),
    {
        match mods.get_curr() {
            Some(x) => x,
            None => self.clone(),
        }
    }

    /// The quoted text of the value when the path is used up.
    fn nest_get(&self, getter: &[String]) -> (r: Result<String, LivecodeError>)
        ensures
            getter@.len() == 0 ==> (r matches Ok(s) && s@ == debug_text(self@)),
            getter@.len() > 0 ==> (r matches Err(LivecodeError::NestGetExtra(m)) && m@ == extra_path(string_views(getter@))),
    {
        if getter.len() == 0 {
            Ok(debug_string(self))
        } else {
            Err(LivecodeError::NestGetExtra(join_with(getter, '.')))
        }
    }
}

/// The dotted key a position looks its edit up by splits back into the
/// position's path, as long as no path piece holds a dot.
pub proof fn law_edit_key_splits_to_path(m: &NestedMod)
    requires
        m.loc().len() >= 1,
        forall|i: int| 0 <= i < m.loc().len() ==> !(#[trigger] m.loc()[i]).contains('.'),
    ensures
        split_seq(join_seq(m.loc(), '.'), '.') == m.loc(),
{
    law_split_join(m.loc(), '.');
}

/// What a get reads back at a position right after an edit there: a text
/// reads as the edit (quoted), and a switch reads as the edit when the edit
/// is `true` or `false`. With no edit there, both read as before.
pub proof fn law_nest_edit_reads_back(m: &NestedMod, b: bool, s: Seq<char>)
    ensures
        edit_here(m) matches Some(t) ==> debug_text(string_after(s, edit_here(m))) == debug_text(t),
        edit_here(m) matches Some(t) ==> ((t == bool_text(true) || t == bool_text(false))
            ==> bool_text(bool_after(b, edit_here(m))) == t),
        edit_here(m) is None ==> string_after(s, edit_here(m)) == s && bool_after(b, edit_here(m)) == b,
{
}

} // verus!
