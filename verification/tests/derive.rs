use murrelet::derive_rules::{
    graphics_field_plan, BoopFieldType, ControlUse, GraphicKind, PipelineRun,
    cached_field_role, lazy_version_of_default_serde, newtype_field_codegen, parse_serde, prefix_ident,
    schema_enum_is_untagged, schema_field_handling, serde_enum_type, struct_field_codegen, CachedFieldRole,
    ControlType, DataFromType, EnumTagging, FieldCodegen, FieldSettings, HowToControlThis, LazyFieldType,
    LivecodeFieldType, OverrideOrInferred, RecursiveControlType, SchemaFieldHandling, SerdeAttr, SerdeDefault,
    UnitCellFieldType, VecDepth,
};
use murrelet::expr::{add_variable_or_prefix_it, ExprWorldContextValues, ExprNode, GetLivecodeIdentifiers, LivecodeFunction, LivecodeVariable};
use evalexpr::{Context, HashMapContext, Value};
use murrelet::nested::LivecodeError;
use murrelet::schema::{CanMakeSchema, MurreletEnumVal, MurreletPrimitive, MurreletSchema, SchemaError};

fn s(x: &str) -> String {
    x.to_string()
}

fn field(types: &[&str]) -> FieldSettings {
    FieldSettings {
        type_idents: types.iter().map(|t| s(t)).collect(),
        serde_default: None,
        lazy_serde_default: None,
        serde_opts: None,
        kind: None,
    }
}

fn default_fn(a: SerdeAttr) -> String {
    match a {
        SerdeAttr::DefaultFn(f) => f,
        other => panic!("unexpected {:?}", other),
    }
}

#[test]
fn kinds_override_types() {
    assert_eq!(HowToControlThis::from_kind("none"), HowToControlThis::WithNone(OverrideOrInferred::Override));
    assert_eq!(HowToControlThis::from_kind("bool"), HowToControlThis::WithType(OverrideOrInferred::Override, ControlType::F32));
    assert_eq!(HowToControlThis::from_kind("[f32;2]"), HowToControlThis::WithType(OverrideOrInferred::Override, ControlType::F32_2));
    assert_eq!(HowToControlThis::from_kind("color unclamped"), HowToControlThis::WithType(OverrideOrInferred::Override, ControlType::ColorUnclamped));
    assert_eq!(HowToControlThis::from_kind("v"), HowToControlThis::WithRecurse(OverrideOrInferred::Override, RecursiveControlType::Vec));
    assert_eq!(HowToControlThis::from_kind("unitcell"), HowToControlThis::WithRecurse(OverrideOrInferred::Override, RecursiveControlType::UnitCell));
}

#[test]
fn type_names_imply_handling() {
    let i = OverrideOrInferred::Inferred;
    assert_eq!(HowToControlThis::from_type_str("u8"), HowToControlThis::WithType(i, ControlType::F32));
    assert_eq!(HowToControlThis::from_type_str("bool"), HowToControlThis::WithType(i, ControlType::Bool));
    assert_eq!(HowToControlThis::from_type_str("Vec"), HowToControlThis::WithRecurse(i, RecursiveControlType::Vec));
    assert_eq!(HowToControlThis::from_type_str("String"), HowToControlThis::WithNone(i));
    assert_eq!(HowToControlThis::from_type_str("LazyNodeF32"), HowToControlThis::WithType(i, ControlType::LazyNodeF32));
    assert_eq!(HowToControlThis::from_type_str("LazyThing"), HowToControlThis::WithRecurse(i, RecursiveControlType::StructLazy));
    assert_eq!(HowToControlThis::from_type_str("Lazy"), HowToControlThis::WithRecurse(i, RecursiveControlType::StructLazy));
    assert_eq!(HowToControlThis::from_type_str("Laz"), HowToControlThis::WithRecurse(i, RecursiveControlType::Struct));
    assert!(HowToControlThis::from_type_str("LazyThing").is_lazy());
    assert!(!HowToControlThis::from_type_str("String").needs_to_be_evaluated());
    assert_eq!(HowToControlThis::from_type_str("Vec3").get_control_type(), ControlType::F32_3);
}

#[test]
fn serde_defaults_parse() {
    assert!(parse_serde(None).is_none());
    assert!(matches!(parse_serde(Some(&s("default"))), Some(SerdeDefault::DefaultImpl)));
    assert!(matches!(parse_serde(Some(&s("0"))), Some(SerdeDefault::Zeros)));
    assert!(matches!(parse_serde(Some(&s("false"))), Some(SerdeDefault::Zeros)));
    assert!(matches!(parse_serde(Some(&s("true"))), Some(SerdeDefault::Ones)));
    assert!(matches!(parse_serde(Some(&s("empty"))), Some(SerdeDefault::Empty)));
    match parse_serde(Some(&s("my_fn"))) {
        Some(SerdeDefault::CustomFunction(f)) => assert_eq!(f, "my_fn"),
        other => panic!("unexpected {:?}", other),
    }
}

#[test]
fn default_functions_by_kind() {
    assert_eq!(SerdeDefault::Zeros.from_control_type(ControlType::F32, false), "murrelet_livecode::livecode::_auto_default_f32_0");
    assert_eq!(SerdeDefault::Ones.from_control_type(ControlType::Bool, false), "murrelet_livecode::livecode::_auto_default_bool_true");
    assert_eq!(SerdeDefault::Zeros.from_control_type(ControlType::LazyNodeF32, true), "murrelet_livecode::livecode::_auto_default_f32_vec0_lazy");
    assert_eq!(SerdeDefault::Ones.from_control_type(ControlType::LazyNodeF32, false), "murrelet_livecode::livecode::_auto_default_f32_1_lazy");
    assert_eq!(SerdeDefault::CustomFunction(s("f")).from_control_type(ControlType::F32_3, false), "f");
}

#[test]
fn lazy_paths_end_in_lazy_once() {
    assert_eq!(lazy_version_of_default_serde("a::b"), "a::b_lazy");
    assert_eq!(lazy_version_of_default_serde("a::b_lazy"), "a::b_lazy");
    let once = lazy_version_of_default_serde("x");
    assert_eq!(lazy_version_of_default_serde(&once), once);
}

#[test]
fn field_serde_tokens() {
    let mut f = field(&["f32"]);
    f.serde_default = Some(s("zeros"));
    let (d, flat) = f.serde_tokens();
    assert_eq!(default_fn(d), "murrelet_livecode::livecode::_auto_default_f32_0");
    assert!(!flat);

    let mut f = field(&["Vec", "f32"]);
    f.lazy_serde_default = Some(s("1"));
    assert_eq!(default_fn(f.serde_tokens().0), "murrelet_livecode::livecode::_auto_default_f32_vec1_lazy");

    let mut f = field(&["bool"]);
    f.lazy_serde_default = Some(s("my_default"));
    f.serde_opts = Some(s("flatten"));
    let (d, flat) = f.serde_tokens();
    assert_eq!(default_fn(d), "my_default_lazy");
    assert!(flat);
    assert!(f.is_serde_flatten());

    let mut f = field(&["Vec", "String"]);
    f.serde_default = Some(s("empty"));
    assert_eq!(default_fn(f.serde_tokens().0), "murrelet_livecode::livecode::empty_vec");

    let mut f = field(&["Thing"]);
    f.serde_default = Some(s("default"));
    assert!(matches!(f.serde_tokens().0, SerdeAttr::DefaultImpl));

    assert!(matches!(field(&["Thing"]).serde_tokens().0, SerdeAttr::Nothing));
}

#[test]
fn kind_wins_over_type() {
    let mut f = field(&["String"]);
    assert!(f.how_to_control_this_is_none());
    f.kind = Some(s("f32"));
    assert!(!f.how_to_control_this_is_none());
    f.serde_default = Some(s("ones"));
    assert_eq!(default_fn(f.serde_tokens().0), "murrelet_livecode::livecode::_auto_default_f32_1");
}

#[test]
fn type_lists_read_three_levels() {
    let d = DataFromType::new_from_list(vec![s("Vec"), s("Vec"), s("f32"), s("ignored")]);
    assert_eq!(d.main_type, "Vec");
    assert_eq!(d.internal_type(), "f32");
    assert!(matches!(d.wrapper_type(), VecDepth::VecVec));
    assert_eq!(d.how_to_control_internal(), HowToControlThis::WithType(OverrideOrInferred::Inferred, ControlType::F32));
    let d = DataFromType::new_from_list(vec![s("Vec"), s("Vec2")]);
    assert!(matches!(d.wrapper_type(), VecDepth::Vec));
    assert_eq!(d.internal_type(), "Vec2");
    let d = DataFromType::new_from_list(vec![s("u32")]);
    assert!(matches!(d.wrapper_type(), VecDepth::NotAVec));
    assert!(d.second_type.is_none());
}

#[test]
fn enum_tagging() {
    assert_eq!(serde_enum_type(None), EnumTagging::Internal);
    assert_eq!(serde_enum_type(Some(&s("external"))), EnumTagging::External);
    assert_eq!(serde_enum_type(Some(&s("untagged"))), EnumTagging::Untagged);
    assert_eq!(serde_enum_type(Some(&s("internal"))), EnumTagging::Internal);
    assert_eq!(serde_enum_type(Some(&s("other"))), EnumTagging::Internal);
    assert!(schema_enum_is_untagged(Some(&s("external"))));
    assert!(!schema_enum_is_untagged(Some(&s("untagged"))));
    assert!(!schema_enum_is_untagged(None));
}

#[test]
fn codegen_per_field() {
    let i = OverrideOrInferred::Inferred;
    assert_eq!(struct_field_codegen(HowToControlThis::WithNone(i)), FieldCodegen::Noop);
    assert_eq!(struct_field_codegen(HowToControlThis::WithRecurse(i, RecursiveControlType::StructLazy)), FieldCodegen::RecurseLazy);
    assert_eq!(newtype_field_codegen(HowToControlThis::WithType(i, ControlType::Bool)), FieldCodegen::Typed);
    assert_eq!(newtype_field_codegen(HowToControlThis::WithRecurse(i, RecursiveControlType::Vec)), FieldCodegen::RecurseVec);
}

#[test]
fn schema_field_rules() {
    assert!(matches!(schema_field_handling(Some(&s("skip")), Some(&s("f"))), SchemaFieldHandling::Skip));
    match schema_field_handling(None, Some(&s("make_it"))) {
        SchemaFieldHandling::Override(f) => assert_eq!(f, "make_it"),
        other => panic!("unexpected {:?}", other),
    }
    assert!(matches!(schema_field_handling(None, None), SchemaFieldHandling::SchemaType));
}

#[test]
fn type_paths_per_kind() {
    assert_eq!(prefix_ident("Control", "Conf"), "ControlConf");
    assert_eq!(LivecodeFieldType(ControlType::F32_2).to_token(), "[murrelet_livecode::livecode::ControlF32; 2]");
    assert_eq!(LazyFieldType(ControlType::Bool).to_token(), "murrelet_livecode::lazy::LazyNodeF32");
    assert_eq!(LazyFieldType(ControlType::Color).to_token(), "murrelet_livecode::lazy::LazyMurreletColor");
    assert_eq!(UnitCellFieldType(ControlType::F32_3).to_token(), "[murrelet_livecode::unitcells::UnitCellControlExprF32; 3]");
    assert_eq!(UnitCellFieldType(ControlType::LazyNodeF32).to_token(), "murrelet_livecode::lazy::LazyNodeF32Def");
}

#[test]
fn cached_fields() {
    match cached_field_role("neck", "CachedCompute") {
        CachedFieldRole::Cached(f) => assert_eq!(f, "compute_neck"),
        other => panic!("unexpected {:?}", other),
    }
    assert!(matches!(cached_field_role("size", "f32"), CachedFieldRole::Argument));
}

fn conf_schema() -> MurreletSchema {
    MurreletSchema::Struct(
        s("Conf"),
        vec![
            (s("a"), MurreletSchema::Val(MurreletPrimitive::Num)),
            (s("sub"), MurreletSchema::new_type(s("Sub"), MurreletSchema::Struct(s("SubInner"), vec![(s("x"), MurreletSchema::Skip)]))),
        ],
    )
}

#[test]
fn schema_hints_outcomes() {
    let c = conf_schema();
    assert_eq!(c.update_with_hints(&vec![]).unwrap(), conf_schema());
    assert_eq!(c.update_with_hints(&vec![(s("a"), s("Color"))]).unwrap_err(), SchemaError::UnsupportedHint(s("Color")));
    assert_eq!(c.update_with_hints(&vec![(s("nope"), s("Vec2"))]).unwrap_err(), SchemaError::NoMatch(s("nope")));
    assert_eq!(c.update_with_hints(&vec![(s("sub"), s("Vec2"))]).unwrap_err(), SchemaError::Missing);
    assert_eq!(c.update_with_hints(&vec![(s("sub.x"), s("Vec2"))]).unwrap_err(), SchemaError::EditSkip);
}

#[test]
fn schema_accessors() {
    let e = MurreletSchema::Enum(s("E"), vec![MurreletEnumVal::Unit(s("A"))], false);
    assert_eq!(e.as_enum().unwrap().len(), 1);
    assert!(e.as_new_type().is_none());
    let n = MurreletSchema::new_type(s("N"), MurreletSchema::Skip);
    assert_eq!(**n.as_new_type().unwrap(), MurreletSchema::Skip);
    assert_eq!(MurreletSchema::list(MurreletSchema::Skip), MurreletSchema::List(Box::new(MurreletSchema::Skip)));
    assert_eq!(conf_schema().unwrap_to_struct_fields().len(), 2);
    assert_eq!(conf_schema().duplicate(), conf_schema());
}

#[test]
fn types_make_schemas() {
    assert_eq!(<u32 as CanMakeSchema>::make_schema(), MurreletSchema::Val(MurreletPrimitive::Num));
    assert_eq!(<String as CanMakeSchema>::make_schema(), MurreletSchema::Val(MurreletPrimitive::String));
    assert_eq!(<Vec<bool> as CanMakeSchema>::make_schema(), MurreletSchema::list(MurreletSchema::Val(MurreletPrimitive::Bool)));
}

#[test]
fn expression_identifiers() {
    let e = ExprNode::from_src(s("a + f(b + c) * a")).unwrap();
    assert_eq!(e.src(), "a + f(b + c) * a");
    let vars: Vec<String> = e.variable_identifiers().into_iter().map(|v| v.name).collect();
    assert_eq!(vars, vec!["a", "b", "c", "a"]);
    let funcs = e.function_identifiers();
    assert_eq!(funcs, vec![LivecodeFunction::from_str("f")]);
    assert_eq!(funcs[0].name(), "f");
}

#[test]
fn repeated_identifiers_collapse() {
    let e = ExprNode::from_src(s("x + x + y")).unwrap();
    let vars = e.variable_identifiers();
    assert_eq!(vars, vec![LivecodeVariable::from_str("x"), LivecodeVariable::from_str("y")]);
}

#[test]
fn bad_expression_is_an_error() {
    match ExprNode::from_src(s("(a")) {
        Err(LivecodeError::EvalExpr(m, _)) => assert_eq!(m, "error parsing expr"),
        other => panic!("unexpected {:?}", other.map(|e| e.src().to_string())),
    }
}

#[test]
fn identifiers_of_lists_and_options() {
    let list = vec![ExprNode::from_src(s("a")).unwrap(), ExprNode::from_src(s("b + a")).unwrap()];
    let names: Vec<String> = list.variable_identifiers().into_iter().map(|v| v.name).collect();
    assert_eq!(names, vec!["a", "b", "a"]);
    let none: Option<ExprNode> = None;
    assert!(none.variable_identifiers().is_empty());
    assert!(s("text").variable_identifiers().is_empty());
}

#[test]
fn graphic_kinds_parse() {
    assert_eq!(GraphicKind::parse("drawer"), GraphicKind::Drawer);
    assert_eq!(GraphicKind::parse("computetexture"), GraphicKind::ComputeTexture);
    assert_eq!(GraphicKind::parse("draw_src"), GraphicKind::DrawSrc);
    assert_eq!(GraphicKind::parse("ref"), GraphicKind::Ref);
}

#[test]
fn graphics_fields_are_placed_by_kind() {
    let p = graphics_field_plan("pipeline", Some(&s("is_on")), None, None);
    assert!(matches!(p.pipeline, Some(PipelineRun::When(ref f)) if f == "is_on"));
    assert!(matches!(p.control, Some(ControlUse::Livecoder)));
    assert!(!p.drawer && !p.graphics);

    let p = graphics_field_plan("draw_src", Some(&s("skip")), Some(&s("c")), Some(&s("tex")));
    assert!(matches!(p.pipeline, Some(PipelineRun::Unless(ref f)) if f == "skip"));
    assert!(matches!(p.control, Some(ControlUse::FieldUnused(ref f)) if f == "c"));
    assert_eq!(p.texture, Some(s("tex")));

    let p = graphics_field_plan("graphics", None, Some(&s("g")), Some(&s("t")));
    assert!(p.graphics);
    assert!(matches!(p.control, Some(ControlUse::Field(ref f)) if f == "g"));
    assert_eq!(p.texture, None);

    let p = graphics_field_plan("drawer", None, Some(&s("g")), None);
    assert!(p.drawer && p.pipeline.is_none() && p.control.is_none());

    let p = graphics_field_plan("ref", None, Some(&s("r")), None);
    assert!(matches!(p.control, Some(ControlUse::Reference(ref f)) if f == "r"));

    let p = graphics_field_plan("pipeline", None, None, None);
    assert!(matches!(p.pipeline, Some(PipelineRun::Always)));
}

#[test]
fn boop_types_per_kind() {
    assert_eq!(BoopFieldType(ControlType::F32_2).to_token(), "murrelet_livecode::boop::BoopState2");
    assert_eq!(BoopFieldType(ControlType::Bool).to_token(), "bool");
    assert_eq!(BoopFieldType(ControlType::Color).to_token(), "murrelet_livecode::boop::BoopStateHsva");
}

#[test]
fn taken_names_get_underscores() {
    let mut ctx = HashMapContext::new();
    add_variable_or_prefix_it("x", Value::Int(1), &mut ctx);
    add_variable_or_prefix_it("x", Value::Int(2), &mut ctx);
    add_variable_or_prefix_it("x", Value::Int(3), &mut ctx);
    add_variable_or_prefix_it("_x", Value::Int(4), &mut ctx);
    assert_eq!(ctx.get_value("x"), Some(&Value::Int(1)));
    assert_eq!(ctx.get_value("_x"), Some(&Value::Int(2)));
    assert_eq!(ctx.get_value("__x"), Some(&Value::Int(3)));
    assert_eq!(ctx.get_value("___x"), Some(&Value::Int(4)));
}

#[test]
fn schema_errors_have_messages() {
    assert_eq!(SchemaError::UnsupportedHint(s("Color")).to_message(), "unsupported schema hint, Color");
    assert_eq!(SchemaError::NoMatch(s("x")).to_message(), "x didn't match");
    assert_eq!(SchemaError::Missing.to_message(), "missing");
    assert_eq!(SchemaError::EditSkip.to_message(), "hm, trying to edit a skip");
}

#[test]
fn world_values_fill_a_context() {
    let mut ctx = HashMapContext::new();
    let vals = ExprWorldContextValues::new(vec![(s("i"), Value::Int(3)), (s("pct"), Value::Float(0.5))]);
    vals.update_ctx(&mut ctx).unwrap();
    assert_eq!(ctx.get_value("i"), Some(&Value::Int(3)));
    let clash = ExprWorldContextValues::new(vec![(s("j"), Value::Int(1)), (s("i"), Value::Float(1.0)), (s("k"), Value::Int(2))]);
    match clash.update_ctx(&mut ctx) {
        Err(LivecodeError::EvalExpr(m, _)) => assert_eq!(m, "error setting value i"),
        other => panic!("unexpected {:?}", other.is_ok()),
    }
    assert_eq!(ctx.get_value("j"), Some(&Value::Int(1)));
    assert_eq!(ctx.get_value("k"), None);
}

#[test]
fn prefixed_values_never_overwrite() {
    let mut ctx = HashMapContext::new();
    let mut vals = ExprWorldContextValues::new(vec![(s("x"), Value::Int(1))]);
    vals.set_val("y", Value::Int(2));
    vals.update_ctx_with_prefix(&mut ctx, "p_");
    let again = ExprWorldContextValues::new(vec![(s("x"), Value::Int(5))]);
    again.update_ctx_with_prefix(&mut ctx, "p_");
    assert_eq!(ctx.get_value("p_x"), Some(&Value::Int(1)));
    assert_eq!(ctx.get_value("p_y"), Some(&Value::Int(2)));
    assert_eq!(ctx.get_value("_p_x"), Some(&Value::Int(5)));
}

#[test]
fn schema_hint_rewrites_a_value() {
    let mut sc = MurreletSchema::Struct(s("S"), vec![(s("a"), MurreletSchema::Val(MurreletPrimitive::Num))]);
    assert!(sc.update_with_one_hint(&["a"], &MurreletPrimitive::Vec2).is_ok());
    assert_eq!(sc, MurreletSchema::Struct(s("S"), vec![(s("a"), MurreletSchema::Val(MurreletPrimitive::Vec2))]));
}

#[test]
fn schema_hints_apply_in_order() {
    let c = MurreletSchema::Struct(
        s("C"),
        vec![
            (s("a"), MurreletSchema::Val(MurreletPrimitive::Num)),
            (s("w"), MurreletSchema::new_type(s("W"), MurreletSchema::Struct(s("Inner"), vec![(s("b"), MurreletSchema::Val(MurreletPrimitive::Num))]))),
        ],
    );
    let expected = MurreletSchema::Struct(
        s("C"),
        vec![
            (s("a"), MurreletSchema::Val(MurreletPrimitive::Vec2)),
            (s("w"), MurreletSchema::new_type(s("W"), MurreletSchema::Struct(s("Inner"), vec![(s("b"), MurreletSchema::Val(MurreletPrimitive::Vec2))]))),
        ],
    );
    assert_eq!(c.update_with_hints(&vec![(s("a"), s("Vec2")), (s("w.b"), s("Vec2"))]).unwrap(), expected);
    // a failing hint later in the list reports its error
    assert_eq!(c.update_with_hints(&vec![(s("a"), s("Vec2")), (s("w.c"), s("Vec2"))]).unwrap_err(), SchemaError::NoMatch(s("c")));
    // a failed single update leaves the schema as it was
    let mut d = c.duplicate();
    assert!(d.update_with_one_hint(&["w"], &MurreletPrimitive::Vec2).is_err());
    assert_eq!(d, c);
}

#[test]
fn world_values_keep_each_value_under_its_name() {
    let mut ctx = HashMapContext::new();
    let mut vals = ExprWorldContextValues::new(vec![(s("a"), Value::Int(1)), (s("b"), Value::Int(2))]);
    vals.set_val("c", Value::Boolean(true));
    assert_eq!(vals.0.last().unwrap().0, "c");
    vals.update_ctx(&mut ctx).unwrap();
    assert_eq!(ctx.get_value("a"), Some(&Value::Int(1)));
    assert_eq!(ctx.get_value("b"), Some(&Value::Int(2)));
    assert_eq!(ctx.get_value("c"), Some(&Value::Boolean(true)));
    let later = ExprWorldContextValues::new(vec![(s("a"), Value::Int(7)), (s("a"), Value::Int(8))]);
    later.update_ctx(&mut ctx).unwrap();
    assert_eq!(ctx.get_value("a"), Some(&Value::Int(8)));
}
