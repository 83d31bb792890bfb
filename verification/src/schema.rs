//! The shape of a livecode config, as a tree of named parts, and the
//! hints that refine it.
use vstd::prelude::*;
use crate::text::{split_on, split_seq, str_eq, string_views, lemma_split_nonempty};

verus! {

/// A leaf value kind in a config schema.
#[derive(Debug, Clone, Copy, PartialEq, Eq)]
pub enum MurreletPrimitive {
    /// should be a ControlBool
    Bool,
    /// should be a ControlF32
    Num,
    /// expected to give h s v a
    Color,
    /// make a ctx node
    Defs,
    /// arbitrary vec2, also see Coords
    Vec2,
    /// arbitrary vec3
    Vec3,
    /// murrelet style
    Style,
    /// angle pi
    Angle,
    /// global coords, so the user can click things
    Coords,
    String,
}

/// One variant of an enum in a schema.
#[derive(Debug, PartialEq, Eq)]
pub enum MurreletEnumVal {
    Unnamed(String, MurreletSchema),
    Unit(String),
}

/// The schema of a config value.
#[derive(Debug, PartialEq, Eq)]
pub enum MurreletSchema {
    NewType(String, Box<MurreletSchema>),
    Struct(String, Vec<(String, MurreletSchema)>),
    Enum(String, Vec<MurreletEnumVal>, bool),
    List(Box<MurreletSchema>),
    Val(MurreletPrimitive),
    Skip,
}

/// Why a schema hint could not be applied.
#[derive(Debug, Clone, PartialEq, Eq)]
pub enum SchemaError {
    /// the hint names a kind other than `Vec2`
    UnsupportedHint(String),
    /// no struct field has this name
    NoMatch(String),
    /// the path ended on a struct
    Missing,
    /// the path reaches a skipped part
    EditSkip,
}

/// The view of a schema error: which case, with its text.
pub enum SchemaErrorView {
    UnsupportedHint(Seq<char>),
    NoMatch(Seq<char>),
    Missing,
    EditSkip,
}

/// The text a schema error is reported with.
pub open spec fn schema_error_text(e: SchemaErrorView) -> Seq<char> {
    match e {
        SchemaErrorView::UnsupportedHint(s) => "unsupported schema hint, "@ + s,
        SchemaErrorView::NoMatch(s) => s + " didn't match"@,
        SchemaErrorView::Missing => "missing"@,
        SchemaErrorView::EditSkip => "hm, trying to edit a skip"@,
    }
}

impl SchemaError {
    /// The text the error is reported with.
    pub fn to_message(&self) -> (r: String)
        ensures
            r@ == schema_error_text(self@),
    {
        match self {
            SchemaError::UnsupportedHint(s) => crate::text::concat_str("unsupported schema hint, ", s.as_str()),
            SchemaError::NoMatch(s) => crate::text::concat_str(s.as_str(), " didn't match"),
            SchemaError::Missing => "missing".to_string(),
            SchemaError::EditSkip => "hm, trying to edit a skip".to_string(),
        }
    }

    pub open spec fn view(&self) -> SchemaErrorView {
        match self {
            SchemaError::UnsupportedHint(s) => SchemaErrorView::UnsupportedHint(s@),
            SchemaError::NoMatch(s) => SchemaErrorView::NoMatch(s@),
            SchemaError::Missing => SchemaErrorView::Missing,
            SchemaError::EditSkip => SchemaErrorView::EditSkip,
        }
    }
}

/// The mathematical value of a schema: names as character sequences and
/// fields and variants as sequences.
pub enum SchemaModel {
    NewType(Seq<char>, Box<SchemaModel>),
    Struct(Seq<char>, Seq<(Seq<char>, SchemaModel)>),
    Enum(Seq<char>, Seq<EnumValModel>, bool),
    List(Box<SchemaModel>),
    Val(MurreletPrimitive),
    Skip,
}

/// The mathematical value of an enum variant in a schema.
pub enum EnumValModel {
    Unnamed(Seq<char>, SchemaModel),
    Unit(Seq<char>),
}

/// The model of a schema.
pub open spec fn schema_view(s: MurreletSchema) -> SchemaModel
    decreases s,
{
    match s {
        MurreletSchema::NewType(n, b) => SchemaModel::NewType(n@, Box::new(schema_view(*b))),
        MurreletSchema::Struct(n, items) => {
            proof { assert(decreases_to!(items => items@)); }
            SchemaModel::Struct(n@, fields_view(items@))
        },
        MurreletSchema::Enum(n, vals, b) => {
            proof { assert(decreases_to!(vals => vals@)); }
            SchemaModel::Enum(n@, variants_view(vals@), b)
        },
        MurreletSchema::List(b) => SchemaModel::List(Box::new(schema_view(*b))),
        MurreletSchema::Val(p) => SchemaModel::Val(p),
        MurreletSchema::Skip => SchemaModel::Skip,
    }
}

/// The models of a struct's fields.
pub open spec fn fields_view(items: Seq<(String, MurreletSchema)>) -> Seq<(Seq<char>, SchemaModel)>
    decreases items,
{
    if items.len() == 0 {
        Seq::empty()
    } else {
        proof {
            assert(decreases_to!(items => items[items.len() - 1]));
        }
        fields_view(items.drop_last()).push((items.last().0@, schema_view(items.last().1)))
    }
}

/// The models of an enum's variants.
pub open spec fn variants_view(vals: Seq<MurreletEnumVal>) -> Seq<EnumValModel>
    decreases vals,
{
    if vals.len() == 0 {
        Seq::empty()
    } else {
        proof {
            assert(decreases_to!(vals => vals[vals.len() - 1]));
        }
        variants_view(vals.drop_last()).push(match vals.last() {
            MurreletEnumVal::Unnamed(n, s) => EnumValModel::Unnamed(n@, schema_view(s)),
            MurreletEnumVal::Unit(n) => EnumValModel::Unit(n@),
        })
    }
}

/// The model of a field list lines up with the fields one by one.
pub proof fn lemma_fields_view(items: Seq<(String, MurreletSchema)>)
    ensures
        fields_view(items).len() == items.len(),
        forall|i: int| 0 <= i < items.len() ==> #[trigger] fields_view(items)[i] == (items[i].0@, schema_view(items[i].1)),
    decreases items.len(),
{
    if items.len() > 0 {
        lemma_fields_view(items.drop_last());
    }
}

/// The model of a variant list lines up with the variants one by one.
pub proof fn lemma_variants_view(vals: Seq<MurreletEnumVal>)
    ensures
        variants_view(vals).len() == vals.len(),
        forall|i: int| 0 <= i < vals.len() ==> #[trigger] variants_view(vals)[i] == (match vals[i] {
            MurreletEnumVal::Unnamed(n, s) => EnumValModel::Unnamed(n@, schema_view(s)),
            MurreletEnumVal::Unit(n) => EnumValModel::Unit(n@),
        }),
    decreases vals.len(),
{
    if vals.len() > 0 {
        lemma_variants_view(vals.drop_last());
    }
}

/// Index of the first field called `name`, if any.
pub open spec fn first_field(items: Seq<(Seq<char>, SchemaModel)>, name: Seq<char>) -> Option<int>
    decreases items.len(),
{
    if items.len() == 0 {
        None
    } else if items[0].0 == name {
        Some(0)
    } else {
        match first_field(items.drop_first(), name) {
            Some(i) => Some(i + 1),
            None => None,
        }
    }
}

/// Following a hint path from `s` reaches an enum or a list, or goes on
/// past a leaf value: parts that hints do not support yet (and on which
/// the update panics).
pub open spec fn hint_reaches_unsupported(s: SchemaModel, loc: Seq<Seq<char>>) -> bool
    decreases s, loc.len(),
{
    match s {
        SchemaModel::NewType(_, inner) => hint_reaches_unsupported(*inner, loc),
        SchemaModel::Struct(_, items) => {
            if loc.len() == 0 {
                false
            } else {
                match first_field(items, loc[0]) {
                    Some(i) => {
                        if 0 <= i < items.len() {
                            hint_reaches_unsupported(items[i].1, loc.drop_first())
                        } else {
                            false
                        }
                    },
                    None => false,
                }
            }
        },
        SchemaModel::Enum(..) => true,
        SchemaModel::List(..) => true,
        SchemaModel::Val(..) => loc.len() > 0,
        SchemaModel::Skip => false,
    }
}

/// The outcome of writing the kind `value` at the hint path `loc` of `s`:
/// the path is followed through newtypes and struct fields (the first of a
/// name) to a leaf value, whose kind is replaced. A path that ends on a
/// struct is missing its field, a name no field has does not match, and a
/// skipped part cannot be edited.
pub open spec fn hint_outcome(s: SchemaModel, loc: Seq<Seq<char>>, value: MurreletPrimitive) -> Result<SchemaModel, SchemaErrorView>
    decreases s, loc.len(),
{
    match s {
        SchemaModel::NewType(n, inner) => match hint_outcome(*inner, loc, value) {
            Ok(t) => Ok(SchemaModel::NewType(n, Box::new(t))),
            Err(e) => Err(e),
        },
        SchemaModel::Struct(n, items) => {
            if loc.len() == 0 {
                Err(SchemaErrorView::Missing)
            } else {
                match first_field(items, loc[0]) {
                    Some(i) => {
                        if 0 <= i < items.len() {
                            match hint_outcome(items[i].1, loc.drop_first(), value) {
                                Ok(t) => Ok(SchemaModel::Struct(n, items.update(i, (items[i].0, t)))),
                                Err(e) => Err(e),
                            }
                        } else {
                            Err(SchemaErrorView::Missing)
                        }
                    },
                    None => Err(SchemaErrorView::NoMatch(loc[0])),
                }
            }
        },
        SchemaModel::Val(_) => if loc.len() == 0 { Ok(SchemaModel::Val(value)) } else { Err(SchemaErrorView::Missing) },
        SchemaModel::Skip => Err(SchemaErrorView::EditSkip),
        _ => Err(SchemaErrorView::Missing),
    }
}

impl View for MurreletSchema {
    type V = SchemaModel;

    open spec fn view(&self) -> SchemaModel {
        schema_view(*self)
    }
}

impl View for MurreletEnumVal {
    type V = EnumValModel;

    open spec fn view(&self) -> EnumValModel {
        match *self {
            MurreletEnumVal::Unnamed(n, s) => EnumValModel::Unnamed(n@, schema_view(s)),
            MurreletEnumVal::Unit(n) => EnumValModel::Unit(n@),
        }
    }
}

/// The views of a slice of string slices.
pub open spec fn str_views(loc: Seq<&str>) -> Seq<Seq<char>> {
    loc.map_values(|x: &str| x@)
}

pub proof fn lemma_first_field_bounds(items: Seq<(Seq<char>, SchemaModel)>, name: Seq<char>)
    ensures
        first_field(items, name) matches Some(i) ==> 0 <= i < items.len() && items[i].0 == name
            && forall|j: int| 0 <= j < i ==> items[j].0 != name,
        first_field(items, name) is None ==> forall|j: int| 0 <= j < items.len() ==> items[j].0 != name,
    decreases items.len(),
{
    if items.len() > 0 {
        lemma_first_field_bounds(items.drop_first(), name);
        if items[0].0 != name {
            assert forall|j: int| 1 <= j < items.len() implies items[j] == items.drop_first()[j - 1] by {}
        }
    }
}

/// The text of a hint that names the `Vec2` kind.
pub open spec fn vec2_hint() -> Seq<char> {
    seq!['V', 'e', 'c', '2']
}

/// The outcome of applying a list of `(dotted path, kind)` hints in order,
/// stopping at the first error: a kind other than `Vec2` is unsupported,
/// and a `Vec2` hint is written as `hint_outcome` says.
pub open spec fn hints_outcome(s: SchemaModel, hints: Seq<(String, String)>) -> Result<SchemaModel, SchemaErrorView>
    decreases hints.len(),
{
    if hints.len() == 0 {
        Ok(s)
    } else {
        match hints_outcome(s, hints.drop_last()) {
            Err(e) => Err(e),
            Ok(t) => {
                if hints.last().1@ != vec2_hint() {
                    Err(SchemaErrorView::UnsupportedHint(hints.last().1@))
                } else {
                    hint_outcome(t, split_seq(hints.last().0@, '.'), MurreletPrimitive::Vec2)
                }
            },
        }
    }
}

/// Whether no `Vec2` hint of the list, applied in order, follows its path
/// into a part hints do not support.
pub open spec fn hints_supported(s: SchemaModel, hints: Seq<(String, String)>) -> bool
    decreases hints.len(),
{
    if hints.len() == 0 {
        true
    } else {
        &&& hints_supported(s, hints.drop_last())
        &&& (hints_outcome(s, hints.drop_last()) matches Ok(t)
            ==> (hints.last().1@ == vec2_hint() ==> !hint_reaches_unsupported(t, split_seq(hints.last().0@, '.'))))
    }
}

/// The hints of a supported list are supported on every prefix of it.
proof fn lemma_hints_supported_prefix(s: SchemaModel, hints: Seq<(String, String)>, k: int)
    requires
        hints_supported(s, hints),
        0 <= k <= hints.len(),
    ensures
        hints_supported(s, hints.take(k)),
    decreases hints.len(),
{
    if k < hints.len() {
        lemma_hints_supported_prefix(s, hints.drop_last(), k);
        assert(hints.drop_last().take(k) =~= hints.take(k));
    } else {
        assert(hints.take(k) =~= hints);
    }
}

/// Once applying a prefix of the hints fails, applying all of them fails
/// the same way.
proof fn lemma_hints_error_stays(s: SchemaModel, hints: Seq<(String, String)>, k: int)
    requires
        0 <= k <= hints.len(),
        hints_outcome(s, hints.take(k)) is Err,
    ensures
        hints_outcome(s, hints) == hints_outcome(s, hints.take(k)),
    decreases hints.len(),
{
    if k < hints.len() {
        assert(hints.drop_last().take(k) =~= hints.take(k));
        lemma_hints_error_stays(s, hints.drop_last(), k);
    } else {
        assert(hints.take(k) =~= hints);
    }
}

impl MurreletEnumVal {
    /// A copy of this variant.
    pub fn duplicate(&self) -> (r: Self)
        ensures
            r@ == self@,
        decreases self,
    {
        match self {
            MurreletEnumVal::Unnamed(n, s) => MurreletEnumVal::Unnamed(n.clone(), s.duplicate()),
            MurreletEnumVal::Unit(n) => MurreletEnumVal::Unit(n.clone()),
        }
    }
}

impl MurreletSchema {
    /// A copy of this schema.
    #[verifier::loop_isolation(false)]
    pub fn duplicate(&self) -> (r: Self)
        ensures
            r@ == self@,
        decreases self,
    {
        match self {
            MurreletSchema::NewType(n, inner) => {
                let d: MurreletSchema = (**inner).duplicate();
                let n2 = n.clone();
                MurreletSchema::NewType(n2, Box::new(d))
            },
            MurreletSchema::Struct(n, items) => {
                let mut out: Vec<(String, MurreletSchema)> = Vec::new();
                let mut i: usize = 0;
                while i < items.len()
                    invariant
                        i <= items@.len(),
                        out@.len() == i,
                        forall|j: int| 0 <= j < i ==> (#[trigger] out@[j]).0@ == items@[j].0@ && out@[j].1@ == items@[j].1@,
                    decreases items@.len() - i,
                {
                    proof {
                        assert(decreases_to!(*self => *items));
                        assert(decreases_to!(items => items@));
                        assert(decreases_to!(items@ => items@[i as int]));
                        assert(decreases_to!(items@[i as int] => items@[i as int].1));
                    }
                    let f = (items[i].0.clone(), items[i].1.duplicate());
                    out.push(f);
                    i = i + 1;
                }
                proof {
                    lemma_fields_view(items@);
                    lemma_fields_view(out@);
                    assert(fields_view(out@) =~= fields_view(items@));
                }
                MurreletSchema::Struct(n.clone(), out)
            },
            MurreletSchema::Enum(n, vals, b) => {
                let mut out: Vec<MurreletEnumVal> = Vec::new();
                let mut i: usize = 0;
                while i < vals.len()
                    invariant
                        i <= vals@.len(),
                        out@.len() == i,
                        forall|j: int| 0 <= j < i ==> (#[trigger] out@[j])@ == vals@[j]@,
                    decreases vals@.len() - i,
                {
                    proof {
                        assert(decreases_to!(*self => *vals));
                        assert(decreases_to!(vals => vals@));
                        assert(decreases_to!(vals@ => vals@[i as int]));
                    }
                    out.push(vals[i].duplicate());
                    i = i + 1;
                }
                proof {
                    lemma_variants_view(vals@);
                    lemma_variants_view(out@);
                    assert(variants_view(out@) =~= variants_view(vals@));
                }
                MurreletSchema::Enum(n.clone(), out, *b)
            },
            MurreletSchema::List(inner) => {
                let d: MurreletSchema = (**inner).duplicate();
                MurreletSchema::List(Box::new(d))
            },
            MurreletSchema::Val(p) => MurreletSchema::Val(*p),
            MurreletSchema::Skip => MurreletSchema::Skip,
        }
    }

    /// Applies `(dotted path, kind)` hints in order, stopping at the first
    /// error; only the `Vec2` kind is recognised.
    pub fn update_with_hints(&self, hints: &Vec<(String, String)>) -> (r: Result<MurreletSchema, SchemaError>)
        requires
            hints_supported(self@, hints@),
        ensures
            match (r, hints_outcome(self@, hints@)) {
                (Ok(a), Ok(b)) => a@ == b,
                (Err(a), Err(b)) => a@ == b,
                _ => false,
            },
    {
        let mut n = self.duplicate();
        let mut h: usize = 0;
        proof {
            reveal_strlit("Vec2");
            assert("Vec2"@ =~= vec2_hint());
            assert(hints@.take(0) =~= Seq::<(String, String)>::empty());
        }
        while h < hints.len()
            invariant
                h <= hints@.len(),
                hints_supported(self@, hints@),
                hints_outcome(self@, hints@.take(h as int)) == Ok::<SchemaModel, SchemaErrorView>(n@),
                "Vec2"@ == vec2_hint(),
            decreases hints@.len() - h,
        {
            let ghost next = hints@.take(h as int + 1);
            proof {
                assert(next.drop_last() =~= hints@.take(h as int));
                assert(next.last() == hints@[h as int]);
                lemma_hints_supported_prefix(self@, hints@, h as int + 1);
            }
            let key = &hints[h].0;
            let kind = &hints[h].1;
            if !str_eq(kind.as_str(), "Vec2") {
                proof { lemma_hints_error_stays(self@, hints@, h as int + 1); }
                return Err(SchemaError::UnsupportedHint(kind.clone()));
            }
            let parts = split_on(key.as_str(), '.');
            let mut location: Vec<&str> = Vec::new();
            let mut i: usize = 0;
            while i < parts.len()
                invariant
                    i <= parts@.len(),
                    str_views(location@) =~= string_views(parts@).subrange(0, i as int),
                decreases parts@.len() - i,
            {
                let ghost before = location@;
                location.push(parts[i].as_str());
                proof {
                    assert(str_views(location@) =~= str_views(before).push(parts@[i as int]@));
                    assert(string_views(parts@).subrange(0, i + 1) =~= string_views(parts@).subrange(0, i as int).push(parts@[i as int]@));
                }
                i = i + 1;
            }
            proof {
                assert(string_views(parts@).subrange(0, parts@.len() as int) =~= string_views(parts@));
            }
            let value = MurreletPrimitive::Vec2;
            match n.update_with_one_hint(location.as_slice(), &value) {
                Ok(()) => {},
                Err(e) => {
                    proof { lemma_hints_error_stays(self@, hints@, h as int + 1); }
                    return Err(e);
                },
            }
            h = h + 1;
        }
        proof { assert(hints@.take(hints@.len() as int) =~= hints@); }
        Ok(n)
    }

    /// A newtype around `m`.
    pub fn new_type(name: String, m: MurreletSchema) -> (r: Self)
        ensures
            r == MurreletSchema::NewType(name, Box::new(m)),
    {
        MurreletSchema::NewType(name, Box::new(m))
    }

    /// A list of `m`.
    pub fn list(m: MurreletSchema) -> (r: Self)
        ensures
            r == MurreletSchema::List(Box::new(m)),
    {
        MurreletSchema::List(Box::new(m))
    }

    /// The variants, when this is an enum.
    pub fn as_enum(&self) -> (r: Option<&Vec<MurreletEnumVal>>)
        ensures
            match self {
                MurreletSchema::Enum(_, v, _) => r == Some(v),
                _ => r is None,
            },
    {
        if let MurreletSchema::Enum(_, v, _) = self {
            Some(v)
        } else {
            None
        }
    }

    /// The wrapped schema, when this is a newtype.
    pub fn as_new_type(&self) -> (r: Option<&Box<MurreletSchema>>)
        ensures
            match self {
                MurreletSchema::NewType(_, v) => r == Some(v),
                _ => r is None,
            },
    {
        if let MurreletSchema::NewType(_, v) = self {
            Some(v)
        } else {
            None
        }
    }

    /// The fields of a struct schema.
    pub fn unwrap_to_struct_fields(self) -> (r: Vec<(String, MurreletSchema)>)
        requires
            self is Struct,
        ensures
            match self {
                MurreletSchema::Struct(_, items) => r == items,
                _ => false,
            },
    {
        match self {
            MurreletSchema::Struct(_, items) => items,
            _ => Vec::new(),
        }
    }

    #[verifier::loop_isolation(false)]
    fn updated_from(&self, location: &[&str], start: usize, value: MurreletPrimitive) -> (r: Result<MurreletSchema, SchemaError>)
        requires
            start <= location@.len(),
            !hint_reaches_unsupported(self@, str_views(location@).skip(start as int)),
        ensures
            match hint_outcome(self@, str_views(location@).skip(start as int), value) {
                Ok(t) => r matches Ok(x) && x@ == t,
                Err(e) => r matches Err(x) && x@ == e,
            },
        decreases self, location@.len() - start,
    {
        let ghost loc = str_views(location@).skip(start as int);
        match self {
            MurreletSchema::NewType(n, inner) => {
                match inner.updated_from(location, start, value) {
                    Ok(t) => Ok(MurreletSchema::NewType(n.clone(), Box::new(t))),
                    Err(e) => Err(e),
                }
            },
            MurreletSchema::Struct(n, items) => {
                if start < location.len() {
                    let first = location[start];
                    proof {
                        assert(loc[0] == first@);
                        lemma_fields_view(items@);
                        lemma_first_field_bounds(fields_view(items@), first@);
                    }
                    let mut i: usize = 0;
                    while i < items.len()
                        invariant
                            i <= items@.len(),
                            forall|j: int| 0 <= j < i ==> fields_view(items@)[j].0 != first@,
                        decreases items@.len() - i,
                    {
                        if str_eq(items[i].0.as_str(), first) {
                            proof {
                                assert(fields_view(items@)[i as int].0 == first@);
                                assert(first_field(fields_view(items@), first@) == Some(i as int));
                                assert(fields_view(items@)[i as int].1 == items@[i as int].1@);
                                assert(str_views(location@).skip(start + 1) =~= loc.drop_first());
                            }
                            match items[i].1.updated_from(location, start + 1, value) {
                                Ok(t) => {
                                    let d = self.duplicate();
                                    match d {
                                        MurreletSchema::Struct(_, mut out) => {
                                            let ghost before = out@;
                                            proof { lemma_fields_view(before); }
                                            let name = items[i].0.clone();
                                            out.set(i, (name, t));
                                            proof {
                                                lemma_fields_view(out@);
                                                assert(fields_view(out@) =~= fields_view(items@).update(
                                                    i as int, (fields_view(items@)[i as int].0, t@)));
                                            }
                                            return Ok(MurreletSchema::Struct(n.clone(), out));
                                        },
                                        _ => {
                                            proof { assert(false); }
                                            return Err(SchemaError::Missing);
                                        },
                                    }
                                },
                                Err(e) => {
                                    return Err(e);
                                },
                            }
                        }
                        assert(fields_view(items@)[i as int].0 != first@);
                        i = i + 1;
                    }
                    proof {
                        assert(first_field(fields_view(items@), first@) is None);
                    }
                    Err(SchemaError::NoMatch(first.to_string()))
                } else {
                    Err(SchemaError::Missing)
                }
            },
            MurreletSchema::Val(_) => {
                if start == location.len() {
                    Ok(MurreletSchema::Val(value))
                } else {
                    Err(SchemaError::Missing)
                }
            },
            MurreletSchema::Skip => Err(SchemaError::EditSkip),
            _ => Err(SchemaError::Missing),
        }
    }

    /// Applies one hint at a dotted location: follows the path through
    /// newtypes and struct fields and writes the kind into the leaf value it
    /// ends at. On an error (a missing field, a path that ends on a struct,
    /// or a skipped part) the schema is left as it is.
    pub fn update_with_one_hint(&mut self, location: &[&str], value: &MurreletPrimitive) -> (r: Result<(), SchemaError>)
        requires
            !hint_reaches_unsupported(old(self)@, str_views(location@)),
        ensures
            match hint_outcome(old(self)@, str_views(location@), *value) {
                Ok(t) => r is Ok && final(self)@ == t,
                Err(e) => r matches Err(x) && x@ == e && *final(self) == *old(self),
            },
    {
        proof {
            assert(str_views(location@).skip(0) =~= str_views(location@));
        }
        match self.updated_from(location, 0, *value) {
            Ok(t) => {
                *self = t;
                Ok(())
            },
            Err(e) => Err(e),
        }
    }
}

/// Types that can describe their own schema.
pub trait CanMakeSchema: Sized {
    /// The model of the type's schema.
    spec fn schema_of() -> SchemaModel;

    fn make_schema() -> (r: MurreletSchema)
        ensures
            r@ == Self::schema_of();
}

/// Numbers are shown as number controls.
pub open spec fn num_schema() -> SchemaModel {
    SchemaModel::Val(MurreletPrimitive::Num)
}

impl CanMakeSchema for u32 {
    open spec fn schema_of() -> SchemaModel { num_schema() }

    fn make_schema() -> (r: MurreletSchema) {
        MurreletSchema::Val(MurreletPrimitive::Num)
    }
}

impl CanMakeSchema for u64 {
    open spec fn schema_of() -> SchemaModel { num_schema() }

    fn make_schema() -> (r: MurreletSchema) {
        MurreletSchema::Val(MurreletPrimitive::Num)
    }
}

impl CanMakeSchema for i32 {
    open spec fn schema_of() -> SchemaModel { num_schema() }

    fn make_schema() -> (r: MurreletSchema) {
        MurreletSchema::Val(MurreletPrimitive::Num)
    }
}

impl CanMakeSchema for i64 {
    open spec fn schema_of() -> SchemaModel { num_schema() }

    fn make_schema() -> (r: MurreletSchema) {
        MurreletSchema::Val(MurreletPrimitive::Num)
    }
}

impl CanMakeSchema for usize {
    open spec fn schema_of() -> SchemaModel { num_schema() }

    fn make_schema() -> (r: MurreletSchema) {
        MurreletSchema::Val(MurreletPrimitive::Num)
    }
}

impl CanMakeSchema for String {
    open spec fn schema_of() -> SchemaModel { SchemaModel::Val(MurreletPrimitive::String) }

    fn make_schema() -> (r: MurreletSchema) {
        MurreletSchema::Val(MurreletPrimitive::String)
    }
}

impl CanMakeSchema for bool {
    open spec fn schema_of() -> SchemaModel { SchemaModel::Val(MurreletPrimitive::Bool) }

    fn make_schema() -> (r: MurreletSchema) {
        MurreletSchema::Val(MurreletPrimitive::Bool)
    }
}

impl<T: CanMakeSchema> CanMakeSchema for Vec<T> {
    /// A list of the item's schema.
    open spec fn schema_of() -> SchemaModel { SchemaModel::List(Box::new(T::schema_of())) }

    fn make_schema() -> (r: MurreletSchema) {
        MurreletSchema::List(Box::new(T::make_schema()))
    }
}

/// The part of a schema a hint path leads to: through newtypes and the
/// first struct field of each name, ending where the path ends.
pub open spec fn schema_at(s: SchemaModel, loc: Seq<Seq<char>>) -> Option<SchemaModel>
    decreases s, loc.len(),
{
    match s {
        SchemaModel::NewType(_, inner) => schema_at(*inner, loc),
        SchemaModel::Struct(_, items) => {
            if loc.len() == 0 {
                Some(s)
            } else {
                match first_field(items, loc[0]) {
                    Some(i) => if 0 <= i < items.len() { schema_at(items[i].1, loc.drop_first()) } else { None },
                    None => None,
                }
            }
        },
        _ => if loc.len() == 0 { Some(s) } else { None },
    }
}

/// Replacing a field's schema keeps the names, so fields are found where
/// they were.
proof fn lemma_first_field_update(items: Seq<(Seq<char>, SchemaModel)>, i: int, x: SchemaModel, k: Seq<char>)
    requires
        0 <= i < items.len(),
    ensures
        first_field(items.update(i, (items[i].0, x)), k) == first_field(items, k),
{
    let u = items.update(i, (items[i].0, x));
    lemma_first_field_bounds(items, k);
    lemma_first_field_bounds(u, k);
    assert forall|j: int| 0 <= j < items.len() implies u[j].0 == items[j].0 by {}
    match (first_field(items, k), first_field(u, k)) {
        (Some(a), Some(b)) => {
            if a < b { assert(u[a].0 == k); }
            if b < a { assert(items[b].0 == k); }
        },
        (Some(a), None) => { assert(u[a].0 == k); },
        (None, Some(b)) => { assert(items[b].0 == k); },
        (None, None) => {},
    }
}

/// A hint that is taken is read back: the part its path leads to in the
/// updated schema is a value of the hinted kind.
pub proof fn law_hint_reads_back(s: SchemaModel, loc: Seq<Seq<char>>, value: MurreletPrimitive)
    ensures
        hint_outcome(s, loc, value) matches Ok(t) ==> schema_at(t, loc) == Some(SchemaModel::Val(value)),
    decreases s, loc.len(),
{
    match s {
        SchemaModel::NewType(n, inner) => {
            law_hint_reads_back(*inner, loc, value);
        },
        SchemaModel::Struct(n, items) => {
            if loc.len() > 0 {
                match first_field(items, loc[0]) {
                    Some(i) => {
                        if 0 <= i < items.len() {
                            law_hint_reads_back(items[i].1, loc.drop_first(), value);
                            match hint_outcome(items[i].1, loc.drop_first(), value) {
                                Ok(ti) => {
                                    lemma_first_field_update(items, i, ti, loc[0]);
                                    let u = items.update(i, (items[i].0, ti));
                                    assert(u[i].1 == ti);
                                },
                                Err(_) => {},
                            }
                        }
                    },
                    None => {},
                }
            }
        },
        _ => {},
    }
}

} // verus!
