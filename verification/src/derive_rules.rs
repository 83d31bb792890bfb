//! The rules the livecode derive macros follow to decide, for each field
//! of a struct, how it is controlled and which serde default it gets.
use vstd::prelude::*;
use crate::text::{str_eq, chars_of, concat_str, string_views, digit_char};

verus! {

/// The value kinds a field can be controlled as.
#[derive(Clone, Copy, Debug, PartialEq, Eq)]
#[allow(non_camel_case_types)]
pub enum ControlType {
    F32,
    Bool,
    F32_2,
    F32_3,
    Color,
    ColorUnclamped,
    LazyNodeF32,
}

/// How a field that holds other livecode values is recursed into.
#[derive(Clone, Copy, Debug, PartialEq, Eq)]
pub enum RecursiveControlType {
    Struct,
    /// just a way to stop some features from propagating
    StructLazy,
    Vec,
    /// special type that builds up an expression context
    UnitCell,
}

/// Whether a field's handling was set by an attribute or read off its type.
#[derive(Clone, Copy, Debug, PartialEq, Eq)]
pub enum OverrideOrInferred {
    Override,
    Inferred,
}

/// How a field is controlled.
#[derive(Clone, Copy, Debug, PartialEq, Eq)]
pub enum HowToControlThis {
    WithType(OverrideOrInferred, ControlType),
    WithNone(OverrideOrInferred),
    WithRecurse(OverrideOrInferred, RecursiveControlType),
}

/// The `kind` attribute values that are understood.
pub open spec fn known_kind(v: Seq<char>) -> bool {
    v == "none"@ || v == "bool"@ || v == "f32"@ || v == "f32;2"@ || v == "[f32;2]"@
        || v == "color"@ || v == "color unclamped"@ || v == "s"@ || v == "v"@ || v == "unitcell"@
}

/// The handling a known `kind` attribute asks for.
pub open spec fn kind_handling(v: Seq<char>) -> HowToControlThis {
    let o = OverrideOrInferred::Override;
    if v == "none"@ {
        HowToControlThis::WithNone(o)
    } else if v == "bool"@ || v == "f32"@ {
        HowToControlThis::WithType(o, ControlType::F32)
    } else if v == "f32;2"@ || v == "[f32;2]"@ {
        HowToControlThis::WithType(o, ControlType::F32_2)
    } else if v == "color"@ {
        HowToControlThis::WithType(o, ControlType::Color)
    } else if v == "color unclamped"@ {
        HowToControlThis::WithType(o, ControlType::ColorUnclamped)
    } else if v == "s"@ {
        HowToControlThis::WithRecurse(o, RecursiveControlType::Struct)
    } else if v == "v"@ {
        HowToControlThis::WithRecurse(o, RecursiveControlType::Vec)
    } else {
        HowToControlThis::WithRecurse(o, RecursiveControlType::UnitCell)
    }
}

/// The handling a field's type name implies.
pub open spec fn type_handling(v: Seq<char>) -> HowToControlThis {
    let i = OverrideOrInferred::Inferred;
    if v == "f32"@ || v == "f64"@ || v == "usize"@ || v == "u32"@ || v == "u64"@ || v == "u8"@ || v == "i32"@ {
        HowToControlThis::WithType(i, ControlType::F32)
    } else if v == "bool"@ {
        HowToControlThis::WithType(i, ControlType::Bool)
    } else if v == "Vec2"@ {
        HowToControlThis::WithType(i, ControlType::F32_2)
    } else if v == "Vec"@ {
        HowToControlThis::WithRecurse(i, RecursiveControlType::Vec)
    } else if v == "Vec3"@ {
        HowToControlThis::WithType(i, ControlType::F32_3)
    } else if v == "String"@ || v == "AdditionalContextNode"@ {
        HowToControlThis::WithNone(i)
    } else if v == "MurreletColor"@ {
        HowToControlThis::WithType(i, ControlType::Color)
    } else if v == "UnitCells"@ {
        HowToControlThis::WithRecurse(i, RecursiveControlType::UnitCell)
    } else if v == "LazyNodeF32"@ {
        HowToControlThis::WithType(i, ControlType::LazyNodeF32)
    } else if v.len() >= 4 && v.subrange(0, 4) == "Lazy"@ {
        HowToControlThis::WithRecurse(i, RecursiveControlType::StructLazy)
    } else {
        HowToControlThis::WithRecurse(i, RecursiveControlType::Struct)
    }
}

/// Whether `s` begins with `prefix`.
pub fn starts_with(s: &str, prefix: &str) -> (r: bool)
    ensures
        r == (s@.len() >= prefix@.len() && s@.subrange(0, prefix@.len() as int) == prefix@),
{
    let a = chars_of(s);
    let b = chars_of(prefix);
    if a.len() < b.len() {
        return false;
    }
    let mut i: usize = 0;
    while i < b.len()
        invariant
            i <= b@.len(),
            b@.len() <= a@.len(),
            a@ == s@,
            b@ == prefix@,
            forall|j: int| 0 <= j < i ==> a@[j] == b@[j],
        decreases b@.len() - i,
    {
        if a[i] != b[i] {
            proof {
                assert(a@.subrange(0, b@.len() as int)[i as int] != b@[i as int]);
                assert(a@.subrange(0, b@.len() as int) != b@);
            }
            return false;
        }
        i = i + 1;
    }
    proof { assert(a@.subrange(0, b@.len() as int) =~= b@); }
    true
}

impl HowToControlThis {
    /// The value kind of a field controlled with a set type.
    pub fn get_control_type(&self) -> (r: ControlType)
        requires
            self is WithType,
        ensures
            self matches HowToControlThis::WithType(_, x) && r == x,
    {
        match self {
            HowToControlThis::WithType(_, x) => *x,
            HowToControlThis::WithNone(_) => ControlType::F32,
            HowToControlThis::WithRecurse(_, _) => ControlType::F32,
        }
    }

    /// Whether the field is evaluated at all (everything but `WithNone`).
    pub fn needs_to_be_evaluated(&self) -> (r: bool)
        ensures
            r == !(self is WithNone),
    {
        match self {
            HowToControlThis::WithType(_, _) => true,
            HowToControlThis::WithRecurse(_, _) => true,
            HowToControlThis::WithNone(_) => false,
        }
    }

    /// Whether the field recurses into a lazy struct.
    pub fn is_lazy(&self) -> (r: bool)
        ensures
            r == (self matches HowToControlThis::WithRecurse(_, RecursiveControlType::StructLazy)),
    {
        match self {
            HowToControlThis::WithRecurse(_, RecursiveControlType::StructLazy) => true,
            _ => false,
        }
    }

    /// The handling a `kind` attribute asks for.
    pub fn from_kind(value: &str) -> (r: HowToControlThis)
        requires
            known_kind(value@),
        ensures
            r == kind_handling(value@),
    {
        let o = OverrideOrInferred::Override;
        if str_eq(value, "none") {
            HowToControlThis::WithNone(o)
        } else if str_eq(value, "bool") || str_eq(value, "f32") {
            HowToControlThis::WithType(o, ControlType::F32)
        } else if str_eq(value, "f32;2") || str_eq(value, "[f32;2]") {
            HowToControlThis::WithType(o, ControlType::F32_2)
        } else if str_eq(value, "color") {
            HowToControlThis::WithType(o, ControlType::Color)
        } else if str_eq(value, "color unclamped") {
            HowToControlThis::WithType(o, ControlType::ColorUnclamped)
        } else if str_eq(value, "s") {
            HowToControlThis::WithRecurse(o, RecursiveControlType::Struct)
        } else if str_eq(value, "v") {
            HowToControlThis::WithRecurse(o, RecursiveControlType::Vec)
        } else {
            HowToControlThis::WithRecurse(o, RecursiveControlType::UnitCell)
        }
    }

    /// The handling a type name implies; unknown names recurse as structs,
    /// lazy ones when the name starts with `Lazy`.
    pub fn from_type_str(value: &str) -> (r: HowToControlThis)
        ensures
            r == type_handling(value@),
    {
        let i = OverrideOrInferred::Inferred;
        if str_eq(value, "f32") || str_eq(value, "f64") || str_eq(value, "usize") || str_eq(value, "u32")
            || str_eq(value, "u64") || str_eq(value, "u8") || str_eq(value, "i32") {
            HowToControlThis::WithType(i, ControlType::F32)
        } else if str_eq(value, "bool") {
            HowToControlThis::WithType(i, ControlType::Bool)
        } else if str_eq(value, "Vec2") {
            HowToControlThis::WithType(i, ControlType::F32_2)
        } else if str_eq(value, "Vec") {
            HowToControlThis::WithRecurse(i, RecursiveControlType::Vec)
        } else if str_eq(value, "Vec3") {
            HowToControlThis::WithType(i, ControlType::F32_3)
        } else if str_eq(value, "String") || str_eq(value, "AdditionalContextNode") {
            HowToControlThis::WithNone(i)
        } else if str_eq(value, "MurreletColor") {
            HowToControlThis::WithType(i, ControlType::Color)
        } else if str_eq(value, "UnitCells") {
            HowToControlThis::WithRecurse(i, RecursiveControlType::UnitCell)
        } else if str_eq(value, "LazyNodeF32") {
            HowToControlThis::WithType(i, ControlType::LazyNodeF32)
        } else if starts_with(value, "Lazy") {
            proof { reveal_strlit("Lazy"); }
            HowToControlThis::WithRecurse(i, RecursiveControlType::StructLazy)
        } else {
            proof { reveal_strlit("Lazy"); }
            HowToControlThis::WithRecurse(i, RecursiveControlType::Struct)
        }
    }
}


/// A serde default requested by a field attribute.
#[derive(Debug)]
pub enum SerdeDefault {
    Zeros,
    Ones,
    CustomFunction(String),
    /// empty vec
    Empty,
    /// use Default
    DefaultImpl,
}

/// The model of a serde default request.
pub enum SerdeDefaultModel {
    Zeros,
    Ones,
    CustomFunction(Seq<char>),
    Empty,
    DefaultImpl,
}

impl View for SerdeDefault {
    type V = SerdeDefaultModel;

    open spec fn view(&self) -> SerdeDefaultModel {
        match self {
            SerdeDefault::Zeros => SerdeDefaultModel::Zeros,
            SerdeDefault::Ones => SerdeDefaultModel::Ones,
            SerdeDefault::CustomFunction(s) => SerdeDefaultModel::CustomFunction(s@),
            SerdeDefault::Empty => SerdeDefaultModel::Empty,
            SerdeDefault::DefaultImpl => SerdeDefaultModel::DefaultImpl,
        }
    }
}

/// The serde default an attribute value asks for.
pub open spec fn serde_request(v: Seq<char>) -> SerdeDefaultModel {
    if v == "default"@ {
        SerdeDefaultModel::DefaultImpl
    } else if v == "zeros"@ || v == "0"@ || v == "false"@ {
        SerdeDefaultModel::Zeros
    } else if v == "ones"@ || v == "1"@ || v == "true"@ {
        SerdeDefaultModel::Ones
    } else if v == "empty"@ {
        SerdeDefaultModel::Empty
    } else {
        SerdeDefaultModel::CustomFunction(v)
    }
}

/// Reads a serde default attribute value: `default`, `zeros` (or `0`,
/// `false`), `ones` (or `1`, `true`), `empty`, or a function path.
pub fn parse_serde(serde_default: Option<&String>) -> (r: Option<SerdeDefault>)
    ensures
        match serde_default {
            Some(v) => r matches Some(d) && d@ == serde_request(v@),
            None => r is None,
        },
{
    match serde_default {
        None => None,
        Some(v) => {
            let s = v.as_str();
            if str_eq(s, "default") {
                Some(SerdeDefault::DefaultImpl)
            } else if str_eq(s, "zeros") || str_eq(s, "0") || str_eq(s, "false") {
                Some(SerdeDefault::Zeros)
            } else if str_eq(s, "ones") || str_eq(s, "1") || str_eq(s, "true") {
                Some(SerdeDefault::Ones)
            } else if str_eq(s, "empty") {
                Some(SerdeDefault::Empty)
            } else {
                Some(SerdeDefault::CustomFunction(v.clone()))
            }
        },
    }
}

/// Whether a default function is known for a value kind and request.
pub open spec fn default_known(ty: ControlType, d: SerdeDefaultModel, is_vec: bool) -> bool {
    match d {
        SerdeDefaultModel::CustomFunction(_) => true,
        SerdeDefaultModel::Zeros | SerdeDefaultModel::Ones => ty != ControlType::F32_3 && ty != ControlType::ColorUnclamped,
        _ => false,
    }
}

/// The path of the function that gives the default for a value kind.
pub open spec fn default_function(ty: ControlType, d: SerdeDefaultModel, is_vec: bool) -> Seq<char> {
    match d {
        SerdeDefaultModel::CustomFunction(x) => x,
        SerdeDefaultModel::Zeros => match ty {
            ControlType::F32 => "murrelet_livecode::livecode::_auto_default_f32_0"@,
            ControlType::Bool => "murrelet_livecode::livecode::_auto_default_bool_false"@,
            ControlType::F32_2 => "murrelet_livecode::livecode::_auto_default_vec2_0"@,
            ControlType::Color => "murrelet_livecode::livecode::_auto_default_color_0"@,
            _ => if is_vec { "murrelet_livecode::livecode::_auto_default_f32_vec0_lazy"@ }
                else { "murrelet_livecode::livecode::_auto_default_f32_0_lazy"@ },
        },
        _ => match ty {
            ControlType::F32 => "murrelet_livecode::livecode::_auto_default_f32_1"@,
            ControlType::Bool => "murrelet_livecode::livecode::_auto_default_bool_true"@,
            ControlType::F32_2 => "murrelet_livecode::livecode::_auto_default_vec2_1"@,
            ControlType::Color => "murrelet_livecode::livecode::_auto_default_color_1"@,
            _ => if is_vec { "murrelet_livecode::livecode::_auto_default_f32_vec1_lazy"@ }
                else { "murrelet_livecode::livecode::_auto_default_f32_1_lazy"@ },
        },
    }
}

impl SerdeDefault {
    /// The path of the function that gives this default for a value kind;
    /// `is_vec` picks the list form for lazy numbers.
    pub fn from_control_type(&self, ty: ControlType, is_vec: bool) -> (r: String)
        requires
            default_known(ty, self@, is_vec),
        ensures
            r@ == default_function(ty, self@, is_vec),
    {
        match self {
            SerdeDefault::CustomFunction(x) => x.clone(),
            SerdeDefault::Zeros => match ty {
                ControlType::F32 => "murrelet_livecode::livecode::_auto_default_f32_0".to_string(),
                ControlType::Bool => "murrelet_livecode::livecode::_auto_default_bool_false".to_string(),
                ControlType::F32_2 => "murrelet_livecode::livecode::_auto_default_vec2_0".to_string(),
                ControlType::Color => "murrelet_livecode::livecode::_auto_default_color_0".to_string(),
                _ => if is_vec { "murrelet_livecode::livecode::_auto_default_f32_vec0_lazy".to_string() }
                    else { "murrelet_livecode::livecode::_auto_default_f32_0_lazy".to_string() },
            },
            _ => match ty {
                ControlType::F32 => "murrelet_livecode::livecode::_auto_default_f32_1".to_string(),
                ControlType::Bool => "murrelet_livecode::livecode::_auto_default_bool_true".to_string(),
                ControlType::F32_2 => "murrelet_livecode::livecode::_auto_default_vec2_1".to_string(),
                ControlType::Color => "murrelet_livecode::livecode::_auto_default_color_1".to_string(),
                _ => if is_vec { "murrelet_livecode::livecode::_auto_default_f32_vec1_lazy".to_string() }
                    else { "murrelet_livecode::livecode::_auto_default_f32_1_lazy".to_string() },
            },
        }
    }
}

/// The lazy form of a default function's path: itself when it already ends
/// in `_lazy`, else with `_lazy` appended.
pub open spec fn lazy_path(c: Seq<char>) -> Seq<char> {
    if c.len() >= 5 && c.subrange(c.len() - 5, c.len() as int) == "_lazy"@ {
        c
    } else {
        c + "_lazy"@
    }
}

/// Whether `s` ends with `suffix`.
pub fn ends_with(s: &str, suffix: &str) -> (r: bool)
    ensures
        r == (s@.len() >= suffix@.len() && s@.subrange(s@.len() - suffix@.len(), s@.len() as int) == suffix@),
{
    let a = chars_of(s);
    let b = chars_of(suffix);
    if a.len() < b.len() {
        return false;
    }
    let off = a.len() - b.len();
    let mut i: usize = 0;
    while i < b.len()
        invariant
            i <= b@.len(),
            off + b@.len() == a@.len(),
            a@.len() == a.len(),
            a@ == s@,
            b@ == suffix@,
            forall|j: int| 0 <= j < i ==> a@[off + j] == b@[j],
        decreases b@.len() - i,
    {
        let k = off + i;
        if a[k] != b[i] {
            proof {
                assert(a@.subrange(off as int, a@.len() as int)[i as int] != b@[i as int]);
                assert(a@.subrange(off as int, a@.len() as int) != b@);
            }
            return false;
        }
        i = i + 1;
    }
    proof { assert(a@.subrange(off as int, a@.len() as int) =~= b@); }
    true
}

/// The lazy form of a default function's path.
pub fn lazy_version_of_default_serde(c: &str) -> (r: String)
    ensures
        r@ == lazy_path(c@),
{
    proof { reveal_strlit("_lazy"); }
    if ends_with(c, "_lazy") {
        c.to_string()
    } else {
        concat_str(c, "_lazy")
    }
}

/// Making a path lazy twice is the same as once.
pub proof fn law_lazy_path_idempotent(c: Seq<char>)
    ensures
        lazy_path(lazy_path(c)) == lazy_path(c),
        lazy_path(c).len() >= 5,
        lazy_path(c).subrange(lazy_path(c).len() - 5, lazy_path(c).len() as int) == "_lazy"@,
{
    reveal_strlit("_lazy");
    if !(c.len() >= 5 && c.subrange(c.len() - 5, c.len() as int) == "_lazy"@) {
        let d = c + "_lazy"@;
        assert(d.subrange(d.len() - 5, d.len() as int) =~= "_lazy"@);
    }
}

/// The view of an optional string.
pub open spec fn opt_text(o: Option<String>) -> Option<Seq<char>> {
    match o {
        Some(s) => Some(s@),
        None => None,
    }
}

/// The names read off a field's type, outermost first: `Vec<Vec<f32>>`
/// gives `Vec`, `Vec`, `f32`.
pub struct DataFromType {
    pub main_type: String,
    pub second_type: Option<String>,
    /// a third level is the deepest that is looked at
    pub third_type: Option<String>,
    pub main_how_to: HowToControlThis,
    pub second_how_to: Option<HowToControlThis>,
    pub third_how_to: Option<HowToControlThis>,
}

/// How deep in lists a field's values sit.
#[derive(Clone, Copy, Debug, PartialEq, Eq)]
pub enum VecDepth {
    NotAVec,
    Vec,
    VecVec,
}

/// The `i`th name of a type's name list, if it has one.
pub open spec fn nth_name(types: Seq<Seq<char>>, i: int) -> Option<Seq<char>> {
    if 0 <= i < types.len() { Some(types[i]) } else { None }
}

/// The handling a type name implies, if there is a name.
pub open spec fn opt_handling(name: Option<Seq<char>>) -> Option<HowToControlThis> {
    match name {
        Some(n) => Some(type_handling(n)),
        None => None,
    }
}

impl DataFromType {
    /// Reads the first three names of a type's name list and the handling
    /// each implies.
    pub fn new_from_list(types: Vec<String>) -> (r: DataFromType)
        requires
            types.len() > 0,
        ensures
            r.main_type@ == types@[0]@,
            opt_text(r.second_type) == nth_name(string_views(types@), 1),
            opt_text(r.third_type) == nth_name(string_views(types@), 2),
            r.main_how_to == type_handling(types@[0]@),
            r.second_how_to == opt_handling(nth_name(string_views(types@), 1)),
            r.third_how_to == opt_handling(nth_name(string_views(types@), 2)),
    {
        let main_type = types[0].clone();
        let second_type = if types.len() > 1 { Some(types[1].clone()) } else { None };
        let third_type = if types.len() > 2 { Some(types[2].clone()) } else { None };
        let main_how_to = HowToControlThis::from_type_str(main_type.as_str());
        let second_how_to = match &second_type {
            Some(x) => Some(HowToControlThis::from_type_str(x.as_str())),
            None => None,
        };
        let third_how_to = match &third_type {
            Some(x) => Some(HowToControlThis::from_type_str(x.as_str())),
            None => None,
        };
        DataFromType { main_type, second_type, third_type, main_how_to, second_how_to, third_how_to }
    }

    /// The handling of the innermost name that was read.
    pub fn how_to_control_internal(&self) -> (r: HowToControlThis)
        ensures
            r == match self.third_how_to {
                Some(t) => t,
                None => match self.second_how_to {
                    Some(s) => s,
                    None => self.main_how_to,
                },
            },
    {
        match self.third_how_to {
            Some(t) => t,
            None => match self.second_how_to {
                Some(s) => s,
                None => self.main_how_to,
            },
        }
    }

    /// The innermost name that was read.
    pub fn internal_type(&self) -> (r: String)
        ensures
            r@ == match self.third_type {
                Some(t) => t@,
                None => match self.second_type {
                    Some(s) => s@,
                    None => self.main_type@,
                },
            },
    {
        match &self.third_type {
            Some(t) => t.clone(),
            None => match &self.second_type {
                Some(s) => s.clone(),
                None => self.main_type.clone(),
            },
        }
    }

    /// Whether the field is a list, or a list of lists. A list type always
    /// names what it holds.
    pub fn wrapper_type(&self) -> (r: VecDepth)
        requires
            self.main_how_to matches HowToControlThis::WithRecurse(_, RecursiveControlType::Vec)
                ==> self.second_how_to is Some,
        ensures
            r == match self.main_how_to {
                HowToControlThis::WithRecurse(_, RecursiveControlType::Vec) => match self.second_how_to {
                    Some(HowToControlThis::WithRecurse(_, RecursiveControlType::Vec)) => VecDepth::VecVec,
                    _ => VecDepth::Vec,
                },
                _ => VecDepth::NotAVec,
            },
    {
        match self.main_how_to {
            HowToControlThis::WithRecurse(_, RecursiveControlType::Vec) => match self.second_how_to {
                Some(HowToControlThis::WithRecurse(_, RecursiveControlType::Vec)) => VecDepth::VecVec,
                _ => VecDepth::Vec,
            },
            _ => VecDepth::NotAVec,
        }
    }
}

/// The `default` part of the serde attribute written on a generated field.
#[derive(Debug)]
pub enum SerdeAttr {
    /// no default
    Nothing,
    /// `#[serde(default)]`
    DefaultImpl,
    /// `#[serde(default = "path")]`
    DefaultFn(String),
}

/// The model of a serde attribute.
pub enum SerdeAttrModel {
    Nothing,
    DefaultImpl,
    DefaultFn(Seq<char>),
}

impl View for SerdeAttr {
    type V = SerdeAttrModel;

    open spec fn view(&self) -> SerdeAttrModel {
        match self {
            SerdeAttr::Nothing => SerdeAttrModel::Nothing,
            SerdeAttr::DefaultImpl => SerdeAttrModel::DefaultImpl,
            SerdeAttr::DefaultFn(s) => SerdeAttrModel::DefaultFn(s@),
        }
    }
}

/// The path of the function that gives an empty list.
pub open spec fn empty_vec_path() -> Seq<char> {
    "murrelet_livecode::livecode::empty_vec"@
}

/// The livecode attributes written on one field of a struct that derives a
/// livecode type.
pub struct FieldSettings {
    /// the names in the field's type, outermost first
    pub type_idents: Vec<String>,
    pub serde_default: Option<String>,
    /// the default of a field of a lazy struct, given in the plain form
    pub lazy_serde_default: Option<String>,
    pub serde_opts: Option<String>,
    /// overrides what the type implies
    pub kind: Option<String>,
}

impl FieldSettings {
    /// Whether the field's handling can be decided: a `kind` must be one
    /// that is understood, and a type must name something.
    pub open spec fn handling_defined(&self) -> bool {
        match self.kind {
            Some(k) => known_kind(k@),
            None => self.type_idents.len() > 0,
        }
    }

    /// The field's handling: its `kind` if set, else what its outermost
    /// type name implies.
    pub open spec fn handling(&self) -> HowToControlThis {
        match self.kind {
            Some(k) => kind_handling(k@),
            None => type_handling(self.type_idents@[0]@),
        }
    }

    /// Whether the field belongs to a lazy struct.
    pub open spec fn lazy_field(&self) -> bool {
        self.lazy_serde_default is Some
    }

    /// The default attribute that is read: the lazy one on lazy fields.
    pub open spec fn default_source(&self) -> Option<Seq<char>> {
        if self.lazy_field() { opt_text(self.lazy_serde_default) } else { opt_text(self.serde_default) }
    }

    /// Whether a zeros or ones default can be resolved for this field.
    pub open spec fn numeric_default_defined(&self, d: SerdeDefaultModel) -> bool {
        &&& self.handling_defined()
        &&& if self.lazy_field() && self.handling() matches HowToControlThis::WithRecurse(_, RecursiveControlType::Vec) {
            true
        } else {
            self.handling() matches HowToControlThis::WithType(_, t) && default_known(t, d, false)
        }
    }

    /// The path a zeros or ones default resolves to.
    pub open spec fn numeric_default(&self, d: SerdeDefaultModel) -> Seq<char> {
        if self.lazy_field() {
            match self.handling() {
                HowToControlThis::WithRecurse(_, RecursiveControlType::Vec) =>
                    lazy_path(default_function(ControlType::LazyNodeF32, d, true)),
                HowToControlThis::WithType(_, t) => lazy_path(default_function(t, d, false)),
                _ => Seq::empty(),
            }
        } else {
            match self.handling() {
                HowToControlThis::WithType(_, t) => default_function(t, d, false),
                _ => Seq::empty(),
            }
        }
    }

    /// Whether the serde attributes of the field can be written: its
    /// default resolves, and its only other option is `flatten`.
    pub open spec fn serde_defined(&self) -> bool {
        &&& match self.default_source() {
            Some(v) => match serde_request(v) {
                SerdeDefaultModel::Zeros => self.numeric_default_defined(SerdeDefaultModel::Zeros),
                SerdeDefaultModel::Ones => self.numeric_default_defined(SerdeDefaultModel::Ones),
                _ => true,
            },
            None => true,
        }
        &&& (self.serde_opts matches Some(o) ==> o@ == "flatten"@)
    }

    /// The default written on the field.
    pub open spec fn default_attr(&self) -> SerdeAttrModel {
        match self.default_source() {
            None => SerdeAttrModel::Nothing,
            Some(v) => match serde_request(v) {
                SerdeDefaultModel::CustomFunction(c) =>
                    SerdeAttrModel::DefaultFn(if self.lazy_field() { lazy_path(c) } else { c }),
                SerdeDefaultModel::DefaultImpl => SerdeAttrModel::DefaultImpl,
                SerdeDefaultModel::Empty => SerdeAttrModel::DefaultFn(empty_vec_path()),
                SerdeDefaultModel::Zeros => SerdeAttrModel::DefaultFn(self.numeric_default(SerdeDefaultModel::Zeros)),
                SerdeDefaultModel::Ones => SerdeAttrModel::DefaultFn(self.numeric_default(SerdeDefaultModel::Ones)),
            },
        }
    }

    /// How the field is controlled.
    pub fn how_to_control_this(&self) -> (r: HowToControlThis)
        requires
            self.handling_defined(),
        ensures
            r == self.handling(),
    {
        match &self.kind {
            Some(k) => HowToControlThis::from_kind(k.as_str()),
            None => {
                let types = DataFromType::new_from_list(self.type_idents.clone());
                types.main_how_to
            },
        }
    }

    /// Whether the field is left alone.
    pub fn how_to_control_this_is_none(&self) -> (r: bool)
        requires
            self.handling_defined(),
        ensures
            r == (self.handling() is WithNone),
    {
        match self.how_to_control_this() {
            HowToControlThis::WithNone(_) => true,
            _ => false,
        }
    }

    /// Whether the field's serde option is `flatten`.
    pub fn is_serde_flatten(&self) -> (r: bool)
        ensures
            r == (self.serde_opts matches Some(o) && o@ == "flatten"@),
    {
        match &self.serde_opts {
            Some(x) => str_eq(x.as_str(), "flatten"),
            None => false,
        }
    }

    /// The serde attributes written on the generated field: its default, and
    /// whether it is flattened.
    pub fn serde_tokens(&self) -> (r: (SerdeAttr, bool))
        requires
            self.serde_defined(),
        ensures
            r.0@ == self.default_attr(),
            r.1 == (self.serde_opts is Some),
    {
        let is_lazy = self.lazy_serde_default.is_some();
        let maybe_serde = if is_lazy {
            parse_serde(self.lazy_serde_default.as_ref())
        } else {
            parse_serde(self.serde_default.as_ref())
        };
        let default = match maybe_serde {
            None => SerdeAttr::Nothing,
            Some(SerdeDefault::CustomFunction(c)) => {
                if is_lazy {
                    SerdeAttr::DefaultFn(lazy_version_of_default_serde(c.as_str()))
                } else {
                    SerdeAttr::DefaultFn(c)
                }
            },
            Some(SerdeDefault::DefaultImpl) => SerdeAttr::DefaultImpl,
            Some(SerdeDefault::Empty) => SerdeAttr::DefaultFn("murrelet_livecode::livecode::empty_vec".to_string()),
            Some(serde) => {
                let how = self.how_to_control_this();
                if is_lazy {
                    let serde_func = match how {
                        HowToControlThis::WithRecurse(_, RecursiveControlType::Vec) =>
                            serde.from_control_type(ControlType::LazyNodeF32, true),
                        _ => serde.from_control_type(how.get_control_type(), false),
                    };
                    SerdeAttr::DefaultFn(lazy_version_of_default_serde(serde_func.as_str()))
                } else {
                    SerdeAttr::DefaultFn(serde.from_control_type(how.get_control_type(), false))
                }
            },
        };
        let flatten = match &self.serde_opts {
            Some(_) => true,
            None => false,
        };
        (default, flatten)
    }
}

/// How an enum's variants are tagged in the config.
#[derive(Clone, Copy, Debug, PartialEq, Eq)]
pub enum EnumTagging {
    /// serde's default: the variant name wraps the value
    External,
    /// a `type` field names the variant
    Internal,
    Untagged,
}

/// The tagging an `enum_tag` attribute asks for: `external`, `untagged`,
/// and otherwise (also when unset) a `type` field.
pub fn serde_enum_type(enum_tag: Option<&String>) -> (r: EnumTagging)
    ensures
        r == match enum_tag {
            Some(t) => if t@ == "external"@ {
                EnumTagging::External
            } else if t@ == "untagged"@ {
                EnumTagging::Untagged
            } else {
                EnumTagging::Internal
            },
            None => EnumTagging::Internal,
        },
{
    match enum_tag {
        Some(t) => {
            if str_eq(t.as_str(), "external") {
                EnumTagging::External
            } else if str_eq(t.as_str(), "untagged") {
                EnumTagging::Untagged
            } else {
                EnumTagging::Internal
            }
        },
        None => EnumTagging::Internal,
    }
}

/// The code a derive writes for one field.
#[derive(Clone, Copy, Debug, PartialEq, Eq)]
pub enum FieldCodegen {
    Noop,
    Typed,
    RecurseVec,
    RecurseStruct,
    RecurseLazy,
    RecurseUnitCell,
}

/// The code written for a field of a struct with named fields.
pub fn struct_field_codegen(how: HowToControlThis) -> (r: FieldCodegen)
    ensures
        r == match how {
            HowToControlThis::WithNone(_) => FieldCodegen::Noop,
            HowToControlThis::WithType(_, _) => FieldCodegen::Typed,
            HowToControlThis::WithRecurse(_, RecursiveControlType::Vec) => FieldCodegen::RecurseVec,
            HowToControlThis::WithRecurse(_, RecursiveControlType::Struct) => FieldCodegen::RecurseStruct,
            HowToControlThis::WithRecurse(_, RecursiveControlType::StructLazy) => FieldCodegen::RecurseLazy,
            HowToControlThis::WithRecurse(_, RecursiveControlType::UnitCell) => FieldCodegen::RecurseUnitCell,
        },
{
    match how {
        HowToControlThis::WithNone(_) => FieldCodegen::Noop,
        HowToControlThis::WithType(_, _) => FieldCodegen::Typed,
        HowToControlThis::WithRecurse(_, RecursiveControlType::Vec) => FieldCodegen::RecurseVec,
        HowToControlThis::WithRecurse(_, RecursiveControlType::Struct) => FieldCodegen::RecurseStruct,
        HowToControlThis::WithRecurse(_, RecursiveControlType::StructLazy) => FieldCodegen::RecurseLazy,
        HowToControlThis::WithRecurse(_, RecursiveControlType::UnitCell) => FieldCodegen::RecurseUnitCell,
    }
}

/// The code written for the field of a one-field tuple struct: only set
/// types and lists are supported there.
pub fn newtype_field_codegen(how: HowToControlThis) -> (r: FieldCodegen)
    requires
        how is WithType || how matches HowToControlThis::WithRecurse(_, RecursiveControlType::Vec),
    ensures
        r == if how is WithType { FieldCodegen::Typed } else { FieldCodegen::RecurseVec },
{
    match how {
        HowToControlThis::WithType(_, _) => FieldCodegen::Typed,
        _ => FieldCodegen::RecurseVec,
    }
}

/// How the schema derive treats a field.
#[derive(Debug)]
pub enum SchemaFieldHandling {
    /// just the default values
    Skip,
    /// the schema of the field's own type
    SchemaType,
    /// the schema a named function gives
    Override(String),
}

/// The schema handling of a field: `kind = "skip"` skips it (no other kind
/// is understood), else a `func` attribute overrides its schema, else its
/// type gives it.
pub fn schema_field_handling(kind: Option<&String>, func: Option<&String>) -> (r: SchemaFieldHandling)
    requires
        kind matches Some(k) ==> k@ == "skip"@,
    ensures
        match kind {
            Some(_) => r is Skip,
            None => match func {
                Some(f) => r matches SchemaFieldHandling::Override(g) && g@ == f@,
                None => r is SchemaType,
            },
        },
{
    match kind {
        Some(_) => SchemaFieldHandling::Skip,
        None => match func {
            Some(f) => SchemaFieldHandling::Override(f.clone()),
            None => SchemaFieldHandling::SchemaType,
        },
    }
}

/// Whether the schema derive treats an enum as untagged: only when its
/// `enum_tag` is `external`.
pub fn schema_enum_is_untagged(enum_tag: Option<&String>) -> (r: bool)
    ensures
        r == (enum_tag matches Some(t) && t@ == "external"@),
{
    match enum_tag {
        Some(t) => str_eq(t.as_str(), "external"),
        None => false,
    }
}

/// A name with a prefix put before it, as the derived types are named:
/// `Control`, `Lazy` or `UnitCell` before the original name.
pub fn prefix_ident(prefix: &str, name: &str) -> (r: String)
    ensures
        r@ == prefix@ + name@,
{
    concat_str(prefix, name)
}

/// The path of the control type a field of each value kind gets.
pub open spec fn control_type_path(t: ControlType) -> Seq<char> {
    match t {
        ControlType::F32 => "murrelet_livecode::livecode::ControlF32"@,
        ControlType::Bool => "murrelet_livecode::livecode::ControlBool"@,
        ControlType::F32_2 => "[murrelet_livecode::livecode::ControlF32; 2]"@,
        ControlType::F32_3 => "[murrelet_livecode::livecode::ControlF32; 3]"@,
        ControlType::Color => "[murrelet_livecode::livecode::ControlF32; 4]"@,
        ControlType::ColorUnclamped => "[murrelet_livecode::livecode::ControlF32; 4]"@,
        ControlType::LazyNodeF32 => "murrelet_livecode::lazy::ControlLazyNodeF32"@,
    }
}

/// The path of the lazy type a field of each value kind gets; unclamped
/// colors have none.
pub open spec fn lazy_type_path(t: ControlType) -> Seq<char> {
    match t {
        ControlType::F32_2 => "murrelet_livecode::lazy::LazyVec2"@,
        ControlType::F32_3 => "murrelet_livecode::lazy::LazyVec3"@,
        ControlType::Color => "murrelet_livecode::lazy::LazyMurreletColor"@,
        _ => "murrelet_livecode::lazy::LazyNodeF32"@,
    }
}

/// The path of the unit cell type a field of each value kind gets;
/// unclamped colors have none.
pub open spec fn unitcell_type_path(t: ControlType) -> Seq<char> {
    match t {
        ControlType::F32_2 => "[murrelet_livecode::unitcells::UnitCellControlExprF32; 2]"@,
        ControlType::F32_3 => "[murrelet_livecode::unitcells::UnitCellControlExprF32; 3]"@,
        ControlType::Color => "[murrelet_livecode::unitcells::UnitCellControlExprF32; 4]"@,
        ControlType::LazyNodeF32 => "murrelet_livecode::lazy::LazyNodeF32Def"@,
        _ => "murrelet_livecode::unitcells::UnitCellControlExprF32"@,
    }
}

/// The type a field gets in the control form of a struct.
pub struct LivecodeFieldType(pub ControlType);

impl LivecodeFieldType {
    pub fn to_token(&self) -> (r: String)
        ensures
            r@ == control_type_path(self.0),
    {
        match self.0 {
            ControlType::F32 => "murrelet_livecode::livecode::ControlF32".to_string(),
            ControlType::Bool => "murrelet_livecode::livecode::ControlBool".to_string(),
            ControlType::F32_2 => "[murrelet_livecode::livecode::ControlF32; 2]".to_string(),
            ControlType::F32_3 => "[murrelet_livecode::livecode::ControlF32; 3]".to_string(),
            ControlType::Color => "[murrelet_livecode::livecode::ControlF32; 4]".to_string(),
            ControlType::ColorUnclamped => "[murrelet_livecode::livecode::ControlF32; 4]".to_string(),
            ControlType::LazyNodeF32 => "murrelet_livecode::lazy::ControlLazyNodeF32".to_string(),
        }
    }
}

/// The type a field gets in the lazy form of a struct.
pub struct LazyFieldType(pub ControlType);

impl LazyFieldType {
    /// Unclamped colors have no lazy form.
    pub fn to_token(&self) -> (r: String)
        requires
            self.0 != ControlType::ColorUnclamped,
        ensures
            r@ == lazy_type_path(self.0),
    {
        match self.0 {
            ControlType::F32_2 => "murrelet_livecode::lazy::LazyVec2".to_string(),
            ControlType::F32_3 => "murrelet_livecode::lazy::LazyVec3".to_string(),
            ControlType::Color => "murrelet_livecode::lazy::LazyMurreletColor".to_string(),
            _ => "murrelet_livecode::lazy::LazyNodeF32".to_string(),
        }
    }
}

/// The type a field gets in the unit cell form of a struct.
pub struct UnitCellFieldType(pub ControlType);

impl UnitCellFieldType {
    /// Unclamped colors have no unit cell form.
    pub fn to_token(&self) -> (r: String)
        requires
            self.0 != ControlType::ColorUnclamped,
        ensures
            r@ == unitcell_type_path(self.0),
    {
        match self.0 {
            ControlType::F32_2 => "[murrelet_livecode::unitcells::UnitCellControlExprF32; 2]".to_string(),
            ControlType::F32_3 => "[murrelet_livecode::unitcells::UnitCellControlExprF32; 3]".to_string(),
            ControlType::Color => "[murrelet_livecode::unitcells::UnitCellControlExprF32; 4]".to_string(),
            ControlType::LazyNodeF32 => "murrelet_livecode::lazy::LazyNodeF32Def".to_string(),
            _ => "murrelet_livecode::unitcells::UnitCellControlExprF32".to_string(),
        }
    }
}

/// What the cache derive makes of one field.
#[derive(Debug)]
pub enum CachedFieldRole {
    /// computed on first use by the method of this name
    Cached(String),
    /// passed to the constructor
    Argument,
}

/// A field whose type is `CachedCompute` is computed by the method named
/// `compute_` and the field's name; every other field is a constructor
/// argument.
pub fn cached_field_role(field_name: &str, main_type: &str) -> (r: CachedFieldRole)
    ensures
        main_type@ == "CachedCompute"@ ==> (r matches CachedFieldRole::Cached(f) && f@ == "compute_"@ + field_name@),
        main_type@ != "CachedCompute"@ ==> r is Argument,
{
    if str_eq(main_type, "CachedCompute") {
        CachedFieldRole::Cached(concat_str("compute_", field_name))
    } else {
        CachedFieldRole::Argument
    }
}

/// A handling asked for by a `kind` attribute is always marked as an
/// override, and one read off a type name as inferred.
pub proof fn law_handling_origin(v: Seq<char>)
    ensures
        known_kind(v) ==> match kind_handling(v) {
            HowToControlThis::WithType(o, _) => o == OverrideOrInferred::Override,
            HowToControlThis::WithNone(o) => o == OverrideOrInferred::Override,
            HowToControlThis::WithRecurse(o, _) => o == OverrideOrInferred::Override,
        },
        match type_handling(v) {
            HowToControlThis::WithType(o, _) => o == OverrideOrInferred::Inferred,
            HowToControlThis::WithNone(o) => o == OverrideOrInferred::Inferred,
            HowToControlThis::WithRecurse(o, _) => o == OverrideOrInferred::Inferred,
        },
{
}

/// The type names a field's handling is read off: a field is a two-number
/// value exactly when its type is `Vec2` and a three-number value exactly
/// when it is `Vec3`; a switch exactly for `bool`; a color for
/// `MurreletColor`; a single number for the numeric types; left alone for
/// `String` and `AdditionalContextNode`; a list for `Vec`; unit cells for
/// `UnitCells`; a lazy expression for `LazyNodeF32`; other names starting
/// with `Lazy` recurse as lazy structs and all else as structs. No type name
/// gives an unclamped color.
pub proof fn law_type_names_decide_handling(v: Seq<char>)
    ensures
        (type_handling(v) == HowToControlThis::WithType(OverrideOrInferred::Inferred, ControlType::F32_2)) == (v == "Vec2"@),
        (type_handling(v) == HowToControlThis::WithType(OverrideOrInferred::Inferred, ControlType::F32_3)) == (v == "Vec3"@),
        (type_handling(v) == HowToControlThis::WithType(OverrideOrInferred::Inferred, ControlType::Bool)) == (v == "bool"@),
        (type_handling(v) == HowToControlThis::WithType(OverrideOrInferred::Inferred, ControlType::Color)) == (v == "MurreletColor"@),
        (type_handling(v) == HowToControlThis::WithType(OverrideOrInferred::Inferred, ControlType::LazyNodeF32)) == (v == "LazyNodeF32"@),
        (type_handling(v) == HowToControlThis::WithType(OverrideOrInferred::Inferred, ControlType::F32))
            == (v == "f32"@ || v == "f64"@ || v == "usize"@ || v == "u32"@ || v == "u64"@ || v == "u8"@ || v == "i32"@),
        (type_handling(v) == HowToControlThis::WithNone(OverrideOrInferred::Inferred))
            == (v == "String"@ || v == "AdditionalContextNode"@),
        (type_handling(v) == HowToControlThis::WithRecurse(OverrideOrInferred::Inferred, RecursiveControlType::Vec)) == (v == "Vec"@),
        (type_handling(v) == HowToControlThis::WithRecurse(OverrideOrInferred::Inferred, RecursiveControlType::UnitCell)) == (v == "UnitCells"@),
        (type_handling(v) == HowToControlThis::WithRecurse(OverrideOrInferred::Inferred, RecursiveControlType::StructLazy))
            == (v.len() >= 4 && v.subrange(0, 4) == "Lazy"@ && v != "LazyNodeF32"@),
        type_handling(v) != HowToControlThis::WithType(OverrideOrInferred::Inferred, ControlType::ColorUnclamped),
{
    reveal_strlit("f32");
    reveal_strlit("f64");
    reveal_strlit("usize");
    reveal_strlit("u32");
    reveal_strlit("u64");
    reveal_strlit("u8");
    reveal_strlit("i32");
    reveal_strlit("bool");
    reveal_strlit("Vec2");
    reveal_strlit("Vec");
    reveal_strlit("Vec3");
    reveal_strlit("String");
    reveal_strlit("AdditionalContextNode");
    reveal_strlit("MurreletColor");
    reveal_strlit("UnitCells");
    reveal_strlit("LazyNodeF32");
    reveal_strlit("Lazy");
    assert("LazyNodeF32"@.subrange(0, 4) =~= "Lazy"@);
    assert("f32"@.len() == 3 && "f64"@.len() == 3 && "u32"@.len() == 3 && "u64"@.len() == 3);
    assert("i32"@.len() == 3 && "Vec"@.len() == 3 && "u8"@.len() == 2 && "usize"@.len() == 5);
    assert("bool"@.len() == 4 && "Vec2"@.len() == 4 && "Vec3"@.len() == 4 && "Lazy"@.len() == 4);
    assert("String"@.len() == 6 && "AdditionalContextNode"@.len() == 21 && "MurreletColor"@.len() == 13);
    assert("UnitCells"@.len() == 9 && "LazyNodeF32"@.len() == 11);
    assert("Vec"@[0] == 'V' && "f32"@[0] == 'f' && "f64"@[0] == 'f' && "u32"@[0] == 'u');
    assert("u64"@[0] == 'u' && "i32"@[0] == 'i' && "bool"@[0] == 'b' && "Vec2"@[3] == '2' && "Vec3"@[3] == '3');
    assert("Vec2"@[0] == 'V' && "Vec3"@[0] == 'V' && "Lazy"@[0] == 'L');
    assert("Vec2"@ != "Vec3"@);
    assert("Vec2"@.subrange(0, 4) != "Lazy"@);
    assert("Vec3"@.subrange(0, 4) != "Lazy"@);
    assert("bool"@.subrange(0, 4) != "Lazy"@);
    assert("String"@.subrange(0, 4) != "Lazy"@) by { assert("String"@[0] == 'S'); assert("String"@.subrange(0, 4)[0] == 'S'); }
    assert("AdditionalContextNode"@.subrange(0, 4) != "Lazy"@) by { assert("AdditionalContextNode"@.subrange(0, 4)[0] == 'A'); }
    assert("MurreletColor"@.subrange(0, 4) != "Lazy"@) by { assert("MurreletColor"@.subrange(0, 4)[0] == 'M'); }
    assert("UnitCells"@.subrange(0, 4) != "Lazy"@) by { assert("UnitCells"@.subrange(0, 4)[0] == 'U'); }
    assert("usize"@.subrange(0, 4) != "Lazy"@) by { assert("usize"@.subrange(0, 4)[0] == 'u'); }
}

/// The `kind` attribute values a field's handling is set by: `f32;2` and
/// `[f32;2]` make a two-number value, `bool` and `f32` a single number,
/// `color` and `color unclamped` the two kinds of color, `none` leaves the
/// field alone, and `s`, `v` and `unitcell` recurse as a struct, a list and
/// unit cells. No kind makes a three-number value.
pub proof fn law_kinds_decide_handling(v: Seq<char>)
    requires
        known_kind(v),
    ensures
        (kind_handling(v) == HowToControlThis::WithType(OverrideOrInferred::Override, ControlType::F32_2)) == (v == "f32;2"@ || v == "[f32;2]"@),
        (kind_handling(v) == HowToControlThis::WithType(OverrideOrInferred::Override, ControlType::F32)) == (v == "bool"@ || v == "f32"@),
        (kind_handling(v) == HowToControlThis::WithType(OverrideOrInferred::Override, ControlType::Color)) == (v == "color"@),
        (kind_handling(v) == HowToControlThis::WithType(OverrideOrInferred::Override, ControlType::ColorUnclamped)) == (v == "color unclamped"@),
        (kind_handling(v) == HowToControlThis::WithNone(OverrideOrInferred::Override)) == (v == "none"@),
        (kind_handling(v) == HowToControlThis::WithRecurse(OverrideOrInferred::Override, RecursiveControlType::Struct)) == (v == "s"@),
        (kind_handling(v) == HowToControlThis::WithRecurse(OverrideOrInferred::Override, RecursiveControlType::Vec)) == (v == "v"@),
        (kind_handling(v) == HowToControlThis::WithRecurse(OverrideOrInferred::Override, RecursiveControlType::UnitCell)) == (v == "unitcell"@),
        !(kind_handling(v) matches HowToControlThis::WithType(_, ControlType::F32_3)),
{
    reveal_strlit("none");
    reveal_strlit("bool");
    reveal_strlit("f32");
    reveal_strlit("f32;2");
    reveal_strlit("[f32;2]");
    reveal_strlit("color");
    reveal_strlit("color unclamped");
    reveal_strlit("s");
    reveal_strlit("v");
    reveal_strlit("unitcell");
    assert("none"@.len() == 4 && "bool"@.len() == 4 && "f32"@.len() == 3 && "f32;2"@.len() == 5);
    assert("[f32;2]"@.len() == 7 && "color"@.len() == 5 && "color unclamped"@.len() == 15);
    assert("s"@.len() == 1 && "v"@.len() == 1 && "unitcell"@.len() == 8);
    assert("none"@[0] == 'n' && "bool"@[0] == 'b' && "f32;2"@[0] == 'f' && "color"@[0] == 'c');
    assert("s"@[0] == 's' && "v"@[0] == 'v');
}

/// The serde default words: `zeros`, `0` and `false` ask for zeros; `ones`,
/// `1` and `true` for ones; `default` for the type's `Default`; `empty` for
/// an empty value; any other text names the function to call, as written.
pub proof fn law_serde_default_words(v: Seq<char>)
    ensures
        (serde_request(v) == SerdeDefaultModel::Zeros) == (v == "zeros"@ || v == "0"@ || v == "false"@),
        (serde_request(v) == SerdeDefaultModel::Ones) == (v == "ones"@ || v == "1"@ || v == "true"@),
        (serde_request(v) == SerdeDefaultModel::DefaultImpl) == (v == "default"@),
        (serde_request(v) == SerdeDefaultModel::Empty) == (v == "empty"@),
        serde_request(v) matches SerdeDefaultModel::CustomFunction(f) ==> f == v,
{
    reveal_strlit("default");
    reveal_strlit("zeros");
    reveal_strlit("0");
    reveal_strlit("false");
    reveal_strlit("ones");
    reveal_strlit("1");
    reveal_strlit("true");
    reveal_strlit("empty");
    assert("default"@.len() == 7 && "zeros"@.len() == 5 && "0"@.len() == 1 && "false"@.len() == 5);
    assert("ones"@.len() == 4 && "1"@.len() == 1 && "true"@.len() == 4 && "empty"@.len() == 5);
    assert("zeros"@[0] == 'z' && "false"@[0] == 'f' && "empty"@[0] == 'e' && "0"@[0] == '0' && "1"@[0] == '1');
    assert("ones"@[0] == 'o' && "true"@[0] == 't');
}

/// A zeros default names a function whose name ends in `0`, `false` or
/// `0_lazy`, and a ones default one ending in `1`, `true` or `1_lazy`, so the
/// two never coincide; the four value kinds with their own defaults (number,
/// switch, two numbers, color) each get a function of their own; and a
/// custom default is the function it names.
pub proof fn law_default_functions_match_request(ty: ControlType, ty2: ControlType, is_vec: bool, f: Seq<char>)
    ensures
        default_function(ty, SerdeDefaultModel::CustomFunction(f), is_vec) == f,
        default_function(ty, SerdeDefaultModel::Zeros, is_vec) != default_function(ty, SerdeDefaultModel::Ones, is_vec),
        ({
            let z = default_function(ty, SerdeDefaultModel::Zeros, is_vec);
            z.last() == '0' || z.subrange(z.len() - 5, z.len() as int) == "false"@ || z.subrange(z.len() - 6, z.len() as int) == "0_lazy"@
        }),
        ({
            let o = default_function(ty, SerdeDefaultModel::Ones, is_vec);
            o.last() == '1' || o.subrange(o.len() - 4, o.len() as int) == "true"@ || o.subrange(o.len() - 6, o.len() as int) == "1_lazy"@
        }),
        ty != ty2 && (ty is F32 || ty is Bool || ty is F32_2 || ty is Color)
            && (ty2 is F32 || ty2 is Bool || ty2 is F32_2 || ty2 is Color)
            ==> default_function(ty, SerdeDefaultModel::Zeros, is_vec) != default_function(ty2, SerdeDefaultModel::Zeros, is_vec)
                && default_function(ty, SerdeDefaultModel::Ones, is_vec) != default_function(ty2, SerdeDefaultModel::Ones, is_vec),
{
    reveal_strlit("murrelet_livecode::livecode::_auto_default_f32_0");
    reveal_strlit("murrelet_livecode::livecode::_auto_default_bool_false");
    reveal_strlit("murrelet_livecode::livecode::_auto_default_vec2_0");
    reveal_strlit("murrelet_livecode::livecode::_auto_default_color_0");
    reveal_strlit("murrelet_livecode::livecode::_auto_default_f32_vec0_lazy");
    reveal_strlit("murrelet_livecode::livecode::_auto_default_f32_0_lazy");
    reveal_strlit("murrelet_livecode::livecode::_auto_default_f32_1");
    reveal_strlit("murrelet_livecode::livecode::_auto_default_bool_true");
    reveal_strlit("murrelet_livecode::livecode::_auto_default_vec2_1");
    reveal_strlit("murrelet_livecode::livecode::_auto_default_color_1");
    reveal_strlit("murrelet_livecode::livecode::_auto_default_f32_vec1_lazy");
    reveal_strlit("murrelet_livecode::livecode::_auto_default_f32_1_lazy");
    reveal_strlit("false");
    reveal_strlit("true");
    reveal_strlit("0_lazy");
    reveal_strlit("1_lazy");
    let z = default_function(ty, SerdeDefaultModel::Zeros, is_vec);
    let o = default_function(ty, SerdeDefaultModel::Ones, is_vec);
    assert(z.subrange(z.len() - 5, z.len() as int) =~= "false"@ || z.last() == '0' || z.subrange(z.len() - 6, z.len() as int) =~= "0_lazy"@);
    assert(o.subrange(o.len() - 4, o.len() as int) =~= "true"@ || o.last() == '1' || o.subrange(o.len() - 6, o.len() as int) =~= "1_lazy"@);
    if !(ty is F32 || ty is Bool || ty is F32_2 || ty is Color) {
        assert(z.len() == o.len());
        assert(z[z.len() - 6] == '0' && o[o.len() - 6] == '1');
    } else if ty is Bool {
        assert(z.len() != o.len());
    } else {
        assert(z.last() != o.last());
    }
}

/// How many numbers a value kind is made of.
pub open spec fn component_count(t: ControlType) -> nat {
    match t {
        ControlType::F32_2 => 2,
        ControlType::F32_3 => 3,
        ControlType::Color | ControlType::ColorUnclamped => 4,
        _ => 1,
    }
}

/// The control and unit cell types of a kind made of several numbers are
/// arrays of that many single-number controls; the lazy and boop types of
/// the two- and three-number kinds end in `2` and `3` (`Vec2`, `Vec3`,
/// `BoopState2`, `BoopState3`); single-number kinds are not arrays.
pub proof fn law_field_types_have_the_kind_size(t: ControlType)
    ensures
        component_count(t) > 1 ==> ({
            let c = control_type_path(t);
            let u = unitcell_type_path(t);
            &&& c.len() >= 4 && c.subrange(c.len() - 4, c.len() as int) == seq![';', ' ', digit_char(component_count(t)), ']']
            &&& t != ControlType::ColorUnclamped ==> u.len() >= 4
                && u.subrange(u.len() - 4, u.len() as int) == seq![';', ' ', digit_char(component_count(t)), ']']
        }),
        component_count(t) == 1 ==> control_type_path(t)[0] != '[' && unitcell_type_path(t)[0] != '[',
        (t == ControlType::F32_2 || t == ControlType::F32_3) ==> ({
            let l = lazy_type_path(t);
            let b = boop_type_path(t);
            l.last() == digit_char(component_count(t)) && b.last() == digit_char(component_count(t))
        }),
{
    reveal_strlit("murrelet_livecode::livecode::ControlF32");
    reveal_strlit("murrelet_livecode::livecode::ControlBool");
    reveal_strlit("[murrelet_livecode::livecode::ControlF32; 2]");
    reveal_strlit("[murrelet_livecode::livecode::ControlF32; 3]");
    reveal_strlit("[murrelet_livecode::livecode::ControlF32; 4]");
    reveal_strlit("murrelet_livecode::lazy::ControlLazyNodeF32");
    reveal_strlit("murrelet_livecode::lazy::LazyVec2");
    reveal_strlit("murrelet_livecode::lazy::LazyVec3");
    reveal_strlit("[murrelet_livecode::unitcells::UnitCellControlExprF32; 2]");
    reveal_strlit("[murrelet_livecode::unitcells::UnitCellControlExprF32; 3]");
    reveal_strlit("[murrelet_livecode::unitcells::UnitCellControlExprF32; 4]");
    reveal_strlit("murrelet_livecode::lazy::LazyNodeF32Def");
    reveal_strlit("murrelet_livecode::unitcells::UnitCellControlExprF32");
    reveal_strlit("murrelet_livecode::boop::BoopState2");
    reveal_strlit("murrelet_livecode::boop::BoopState3");
    let c = control_type_path(t);
    let u = unitcell_type_path(t);
    if component_count(t) > 1 {
        assert(c.subrange(c.len() - 4, c.len() as int) =~= seq![';', ' ', digit_char(component_count(t)), ']']);
        if t != ControlType::ColorUnclamped {
            assert(u.subrange(u.len() - 4, u.len() as int) =~= seq![';', ' ', digit_char(component_count(t)), ']']);
        }
    }
}

/// On a field of a lazy struct, a default given as a function, as zeros
/// or as ones always names a function whose path ends in `_lazy`.
pub proof fn law_lazy_field_defaults_are_lazy(f: FieldSettings)
    requires
        f.lazy_field(),
        f.serde_defined(),
        f.default_source() matches Some(v) && !(serde_request(v) is Empty) && !(serde_request(v) is DefaultImpl),
    ensures
        f.default_attr() matches SerdeAttrModel::DefaultFn(p)
            && p.len() >= 5 && p.subrange(p.len() - 5, p.len() as int) == "_lazy"@,
{
    let v = f.default_source().unwrap();
    match serde_request(v) {
        SerdeDefaultModel::CustomFunction(c) => {
            law_lazy_path_idempotent(c);
        },
        SerdeDefaultModel::Zeros => {
            match f.handling() {
                HowToControlThis::WithRecurse(_, RecursiveControlType::Vec) =>
                    law_lazy_path_idempotent(default_function(ControlType::LazyNodeF32, SerdeDefaultModel::Zeros, true)),
                HowToControlThis::WithType(_, t) =>
                    law_lazy_path_idempotent(default_function(t, SerdeDefaultModel::Zeros, false)),
                _ => {},
            }
        },
        SerdeDefaultModel::Ones => {
            match f.handling() {
                HowToControlThis::WithRecurse(_, RecursiveControlType::Vec) =>
                    law_lazy_path_idempotent(default_function(ControlType::LazyNodeF32, SerdeDefaultModel::Ones, true)),
                HowToControlThis::WithType(_, t) =>
                    law_lazy_path_idempotent(default_function(t, SerdeDefaultModel::Ones, false)),
                _ => {},
            }
        },
        _ => {},
    }
}

/// What a field of a graphics struct holds.
#[derive(Clone, Copy, Debug, PartialEq, Eq)]
pub enum GraphicKind {
    Drawer,
    Pipeline,
    Graphics,
    /// like graphics, but a compute shader that outputs a texture
    ComputeTexture,
    Ref,
    DrawSrc,
}

/// The `kind` values of a graphics field that are understood.
pub open spec fn known_graphic_kind(s: Seq<char>) -> bool {
    s == "drawer"@ || s == "pipeline"@ || s == "graphics"@ || s == "computetexture"@ || s == "ref"@
        || s == "draw_src"@
}

/// The graphic kind a known `kind` value names.
pub open spec fn graphic_kind_of(s: Seq<char>) -> GraphicKind {
    if s == "drawer"@ {
        GraphicKind::Drawer
    } else if s == "pipeline"@ {
        GraphicKind::Pipeline
    } else if s == "graphics"@ {
        GraphicKind::Graphics
    } else if s == "computetexture"@ {
        GraphicKind::ComputeTexture
    } else if s == "ref"@ {
        GraphicKind::Ref
    } else {
        GraphicKind::DrawSrc
    }
}

impl GraphicKind {
    /// Reads a graphics field's `kind`; other values are not understood.
    pub fn parse(s: &str) -> (r: GraphicKind)
        requires
            known_graphic_kind(s@),
        ensures
            r == graphic_kind_of(s@),
    {
        if str_eq(s, "drawer") {
            GraphicKind::Drawer
        } else if str_eq(s, "pipeline") {
            GraphicKind::Pipeline
        } else if str_eq(s, "graphics") {
            GraphicKind::Graphics
        } else if str_eq(s, "computetexture") {
            GraphicKind::ComputeTexture
        } else if str_eq(s, "ref") {
            GraphicKind::Ref
        } else {
            GraphicKind::DrawSrc
        }
    }
}

/// When a field's pipeline is rendered.
#[derive(Debug)]
pub enum PipelineRun {
    Always,
    /// when the named function says so
    When(String),
    /// unless the named function says so
    Unless(String),
}

/// Which controls a field's graphics are given, and what becomes of them.
#[derive(Debug)]
pub enum ControlUse {
    /// the whole livecoder's, added to the list
    Livecoder,
    /// those of the livecoder's field of this name, added to the list
    Field(String),
    /// those of the livecoder's field of this name, computed but not added
    FieldUnused(String),
    /// a reference to the livecoder's field of this name, added to the list
    Reference(String),
}

/// Where one field of a graphics struct shows up in the generated code.
#[derive(Debug)]
pub struct GraphicsFieldPlan {
    pub drawer: bool,
    pub pipeline: Option<PipelineRun>,
    pub graphics: bool,
    pub control: Option<ControlUse>,
    pub texture: Option<String>,
}

/// A pipeline run condition, as plain text.
pub open spec fn run_model(r: Option<PipelineRun>) -> Option<(int, Seq<char>)> {
    match r {
        None => None,
        Some(PipelineRun::Always) => Some((0, Seq::empty())),
        Some(PipelineRun::When(f)) => Some((1, f@)),
        Some(PipelineRun::Unless(f)) => Some((2, f@)),
    }
}

/// A control use, as plain text.
pub open spec fn control_model(c: Option<ControlUse>) -> Option<(int, Seq<char>)> {
    match c {
        None => None,
        Some(ControlUse::Livecoder) => Some((0, Seq::empty())),
        Some(ControlUse::Field(f)) => Some((1, f@)),
        Some(ControlUse::FieldUnused(f)) => Some((2, f@)),
        Some(ControlUse::Reference(f)) => Some((3, f@)),
    }
}

/// The view of an optional borrowed string.
pub open spec fn opt_ref_text(o: Option<&String>) -> Option<Seq<char>> {
    match o {
        Some(s) => Some(s@),
        None => None,
    }
}

/// The run condition `run` gives: `kind` 1 is "when", 2 "unless".
pub open spec fn run_from(run: Option<Seq<char>>, kind: int) -> Option<(int, Seq<char>)> {
    match run {
        Some(f) => Some((kind, f)),
        None => Some((0, Seq::empty())),
    }
}

/// The control use a `ctrl` attribute gives, of the given kind.
pub open spec fn control_from(ctrl: Option<Seq<char>>, kind: int) -> Option<(int, Seq<char>)> {
    match ctrl {
        Some(c) => Some((kind, c)),
        None => None,
    }
}

/// Where a field of each kind shows up: drawers are listed; pipelines are
/// rendered (when `run` says so) and get the livecoder's controls; graphics
/// are listed and get their `ctrl` field's controls; draw sources are
/// rendered (unless `run` says so), have their `ctrl` controls computed but
/// not added, and may give a texture; references add a reference to their
/// `ctrl` field; compute textures get the livecoder's controls.
pub fn graphics_field_plan(kind: &str, run: Option<&String>, ctrl: Option<&String>, texture: Option<&String>) -> (r: GraphicsFieldPlan)
    requires
        known_graphic_kind(kind@),
    ensures
        r.drawer == (graphic_kind_of(kind@) == GraphicKind::Drawer),
        r.graphics == (graphic_kind_of(kind@) == GraphicKind::Graphics),
        run_model(r.pipeline) == match graphic_kind_of(kind@) {
            GraphicKind::Pipeline => run_from(opt_ref_text(run), 1),
            GraphicKind::DrawSrc => run_from(opt_ref_text(run), 2),
            _ => None,
        },
        control_model(r.control) == match graphic_kind_of(kind@) {
            GraphicKind::Pipeline => Some((0int, Seq::<char>::empty())),
            GraphicKind::ComputeTexture => Some((0int, Seq::<char>::empty())),
            GraphicKind::Graphics => control_from(opt_ref_text(ctrl), 1),
            GraphicKind::DrawSrc => control_from(opt_ref_text(ctrl), 2),
            GraphicKind::Ref => control_from(opt_ref_text(ctrl), 3),
            GraphicKind::Drawer => None,
        },
        opt_text(r.texture) == if graphic_kind_of(kind@) == GraphicKind::DrawSrc { opt_ref_text(texture) } else { None },
{
    let k = GraphicKind::parse(kind);
    let run_text: Option<String> = match run { Some(f) => Some(f.clone()), None => None };
    let ctrl_text: Option<String> = match ctrl { Some(c) => Some(c.clone()), None => None };
    match k {
        GraphicKind::Drawer => GraphicsFieldPlan { drawer: true, pipeline: None, graphics: false, control: None, texture: None },
        GraphicKind::Pipeline => GraphicsFieldPlan {
            drawer: false,
            pipeline: Some(match run_text { Some(f) => PipelineRun::When(f), None => PipelineRun::Always }),
            graphics: false,
            control: Some(ControlUse::Livecoder),
            texture: None,
        },
        GraphicKind::Graphics => GraphicsFieldPlan {
            drawer: false,
            pipeline: None,
            graphics: true,
            control: match ctrl_text { Some(c) => Some(ControlUse::Field(c)), None => None },
            texture: None,
        },
        GraphicKind::DrawSrc => GraphicsFieldPlan {
            drawer: false,
            pipeline: Some(match run_text { Some(f) => PipelineRun::Unless(f), None => PipelineRun::Always }),
            graphics: false,
            control: match ctrl_text { Some(c) => Some(ControlUse::FieldUnused(c)), None => None },
            texture: match texture { Some(t) => Some(t.clone()), None => None },
        },
        GraphicKind::Ref => GraphicsFieldPlan {
            drawer: false,
            pipeline: None,
            graphics: false,
            control: match ctrl_text { Some(c) => Some(ControlUse::Reference(c)), None => None },
            texture: None,
        },
        GraphicKind::ComputeTexture => GraphicsFieldPlan {
            drawer: false,
            pipeline: None,
            graphics: false,
            control: Some(ControlUse::Livecoder),
            texture: None,
        },
    }
}

/// The path of the boop state type a field of each value kind gets;
/// unclamped colors have none.
pub open spec fn boop_type_path(t: ControlType) -> Seq<char> {
    match t {
        ControlType::F32 => "murrelet_livecode::boop::BoopState"@,
        ControlType::F32_2 => "murrelet_livecode::boop::BoopState2"@,
        ControlType::F32_3 => "murrelet_livecode::boop::BoopState3"@,
        ControlType::Color => "murrelet_livecode::boop::BoopStateHsva"@,
        ControlType::LazyNodeF32 => "murrelet_livecode::lazy::LazyNodeF32"@,
        _ => "bool"@,
    }
}

/// The type a field gets in the boop (animated) form of a struct.
pub struct BoopFieldType(pub ControlType);

impl BoopFieldType {
    /// Unclamped colors have no boop form.
    pub fn to_token(&self) -> (r: String)
        requires
            self.0 != ControlType::ColorUnclamped,
        ensures
            r@ == boop_type_path(self.0),
    {
        match self.0 {
            ControlType::F32 => "murrelet_livecode::boop::BoopState".to_string(),
            ControlType::F32_2 => "murrelet_livecode::boop::BoopState2".to_string(),
            ControlType::F32_3 => "murrelet_livecode::boop::BoopState3".to_string(),
            ControlType::Color => "murrelet_livecode::boop::BoopStateHsva".to_string(),
            ControlType::LazyNodeF32 => "murrelet_livecode::lazy::LazyNodeF32".to_string(),
            _ => "bool".to_string(),
        }
    }
}

} // verus!
