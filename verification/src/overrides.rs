//! `--set dotted.path=value` overrides applied to a config tree before it
//! is deserialized.
use vstd::prelude::*;
use crate::nested::LivecodeError;
use crate::text::{chars_of, string_from_chars, concat_str, split_on, split_seq, string_views, str_eq, lemma_split_nonempty};

verus! {

/// A YAML value, as the YAML library holds it.
#[verifier::external_type_specification]
#[verifier::external_body]
pub struct ExYamlValue(serde_yaml::Value);

/// A YAML tag such as `!point`.
#[verifier::external_type_specification]
#[verifier::external_body]
pub struct ExYamlTag(serde_yaml::value::Tag);

/// The YAML library's parse error.
#[verifier::external_type_specification]
#[verifier::external_body]
pub struct ExYamlError(serde_yaml::Error);

/// What the YAML library reads from a text as a single value, or `None`
/// when the text is not valid YAML.
pub uninterp spec fn yaml_from_str(text: Seq<char>) -> Option<serde_yaml::Value>;

/// Parses a text as one YAML value (`serde_yaml::from_str::<Value>`); the
/// outcome depends on the text alone.
#[verifier::external_body]
fn parse_yaml(text: &str) -> (r: Result<serde_yaml::Value, serde_yaml::Error>)
    ensures
        match r {
            Ok(v) => yaml_from_str(text@) == Some(v),
            Err(_) => yaml_from_str(text@) is None,
        },
{
    serde_yaml::from_str::<serde_yaml::Value>(text)
}

/// The outer layer of a YAML value: a mapping with its entries in order, a
/// tagged value, a string, or any other value (kept whole).
pub enum YamlShape {
    Mapping(Vec<(serde_yaml::Value, serde_yaml::Value)>),
    Tagged(serde_yaml::value::Tag, serde_yaml::Value),
    Text(String),
    Other(serde_yaml::Value),
}

/// The mathematical value of a value's outer layer.
pub enum ShapeModel {
    Mapping(Seq<(serde_yaml::Value, serde_yaml::Value)>),
    Tagged(serde_yaml::value::Tag, serde_yaml::Value),
    Text(Seq<char>),
    Other(serde_yaml::Value),
}

impl View for YamlShape {
    type V = ShapeModel;

    open spec fn view(&self) -> ShapeModel {
        match *self {
            YamlShape::Mapping(es) => ShapeModel::Mapping(es@),
            YamlShape::Tagged(t, v) => ShapeModel::Tagged(t, v),
            YamlShape::Text(s) => ShapeModel::Text(s@),
            YamlShape::Other(v) => ShapeModel::Other(v),
        }
    }
}

/// The outer layer of a YAML value, as `yaml_shape` takes it apart.
pub uninterp spec fn yaml_shape_of(v: serde_yaml::Value) -> ShapeModel;

/// Takes a YAML value apart one level, telling the variants of
/// `serde_yaml::Value` apart: a mapping gives its entries in order (its own
/// iteration order), a tagged value its tag and inner value, a string its
/// text; any other value is handed back whole.
#[verifier::external_body]
pub fn yaml_shape(v: serde_yaml::Value) -> (r: YamlShape)
    ensures
        r@ == yaml_shape_of(v),
        r@ matches ShapeModel::Other(w) ==> w == v,
{
    match v {
        serde_yaml::Value::Mapping(m) => YamlShape::Mapping(m.into_iter().collect()),
        serde_yaml::Value::Tagged(t) => YamlShape::Tagged(t.tag, t.value),
        serde_yaml::Value::String(s) => YamlShape::Text(s),
        other => YamlShape::Other(other),
    }
}

/// The YAML value assembled from an outer layer, as `yaml_assemble` builds
/// it.
pub uninterp spec fn yaml_from_shape(s: ShapeModel) -> serde_yaml::Value;

/// Builds a YAML value from its outer layer: a mapping from its entries in
/// order, a tagged value, a string, or the value itself. Assembling the
/// layer that `yaml_shape` took from a value gives that value back, as a
/// mapping collects the entries it was iterated into in the same order.
#[verifier::external_body]
pub fn yaml_assemble(s: YamlShape) -> (r: serde_yaml::Value)
    ensures
        r == yaml_from_shape(s@),
        forall|v: serde_yaml::Value| yaml_shape_of(v) == s@ ==> r == v,
        s@ matches ShapeModel::Other(w) ==> r == w,
{
    match s {
        YamlShape::Mapping(es) => serde_yaml::Value::Mapping(es.into_iter().collect()),
        YamlShape::Tagged(tag, value) => serde_yaml::Value::Tagged(Box::new(serde_yaml::value::TaggedValue { tag, value })),
        YamlShape::Text(t) => serde_yaml::Value::String(t),
        YamlShape::Other(v) => v,
    }
}

/// The text `serde_yaml::to_string` writes for a value, or `None` when it
/// cannot write it.
pub uninterp spec fn yaml_to_text(v: serde_yaml::Value) -> Option<Seq<char>>;

/// Writes a YAML value as text (`serde_yaml::to_string`); the outcome
/// depends on the value alone.
#[verifier::external_body]
pub fn yaml_to_string(v: &serde_yaml::Value) -> (r: Result<String, serde_yaml::Error>)
    ensures
        match r {
            Ok(s) => yaml_to_text(*v) == Some(s@),
            Err(_) => yaml_to_text(*v) is None,
        },
{
    serde_yaml::to_string(v)
}

/// The message of a YAML error, as its `Display` writes it; nothing is
/// claimed of the text.
#[verifier::external_body]
fn yaml_error_text(e: &serde_yaml::Error) -> (r: String) {
    format!("{}", e)
}

/// A copy of a YAML value, with its derived `Clone`; trusted to give an
/// equal value.
#[verifier::external_body]
fn yaml_value_clone(v: &serde_yaml::Value) -> (r: serde_yaml::Value)
    ensures
        r == *v,
{
    v.clone()
}

/// A copy of a YAML tag, with its derived `Clone`; trusted to give an equal
/// tag.
#[verifier::external_body]
fn yaml_tag_clone(t: &serde_yaml::value::Tag) -> (r: serde_yaml::value::Tag)
    ensures
        r == *t,
{
    t.clone()
}

/// A mapping key: a string, or any other YAML value (kept as it is).
pub enum YamlKey {
    Text(String),
    Other(serde_yaml::Value),
}

/// A YAML document with as much of its mapping structure spelled out as
/// has been edited: mappings (in insertion order), tagged values, strings,
/// and values kept whole as the YAML library holds them, which are taken
/// apart one level at a time when an edit goes through them.
pub enum ConfigNode {
    Mapping(Vec<(YamlKey, ConfigNode)>),
    Tagged(serde_yaml::value::Tag, Box<ConfigNode>),
    Text(String),
    Value(serde_yaml::Value),
}

/// The mathematical value of a mapping key.
pub enum KeyModel {
    Text(Seq<char>),
    Other(serde_yaml::Value),
}

/// The mathematical value of a config tree.
pub enum NodeModel {
    Mapping(Seq<(KeyModel, NodeModel)>),
    Tagged(serde_yaml::value::Tag, Box<NodeModel>),
    Text(Seq<char>),
    Value(serde_yaml::Value),
}

pub open spec fn key_view(k: YamlKey) -> KeyModel {
    match k {
        YamlKey::Text(s) => KeyModel::Text(s@),
        YamlKey::Other(v) => KeyModel::Other(v),
    }
}

/// The model of a config tree.
pub open spec fn node_view(n: ConfigNode) -> NodeModel
    decreases n,
{
    match n {
        ConfigNode::Mapping(entries) => {
            proof { assert(decreases_to!(entries => entries@)); }
            NodeModel::Mapping(entries_view(entries@))
        },
        ConfigNode::Tagged(t, inner) => NodeModel::Tagged(t, Box::new(node_view(*inner))),
        ConfigNode::Text(s) => NodeModel::Text(s@),
        ConfigNode::Value(v) => NodeModel::Value(v),
    }
}

/// The models of a mapping's entries.
pub open spec fn entries_view(es: Seq<(YamlKey, ConfigNode)>) -> Seq<(KeyModel, NodeModel)>
    decreases es,
{
    if es.len() == 0 {
        Seq::empty()
    } else {
        proof { assert(decreases_to!(es => es[es.len() - 1])); }
        entries_view(es.drop_last()).push((key_view(es.last().0), node_view(es.last().1)))
    }
}

impl View for ConfigNode {
    type V = NodeModel;

    open spec fn view(&self) -> NodeModel {
        node_view(*self)
    }
}

/// The model of entries lines up with the entries one by one.
pub proof fn lemma_entries_view(es: Seq<(YamlKey, ConfigNode)>)
    ensures
        entries_view(es).len() == es.len(),
        forall|i: int| 0 <= i < es.len() ==> #[trigger] entries_view(es)[i] == (key_view(es[i].0), node_view(es[i].1)),
    decreases es.len(),
{
    if es.len() > 0 {
        lemma_entries_view(es.drop_last());
    }
}

/// The key a YAML value is in a config tree: its text when it is a string.
pub open spec fn key_model_of(k: serde_yaml::Value) -> KeyModel {
    match yaml_shape_of(k) {
        ShapeModel::Text(s) => KeyModel::Text(s),
        _ => KeyModel::Other(k),
    }
}

/// The entries of a whole YAML mapping, each value kept whole.
pub open spec fn shape_entries(es: Seq<(serde_yaml::Value, serde_yaml::Value)>) -> Seq<(KeyModel, NodeModel)> {
    es.map_values(|e: (serde_yaml::Value, serde_yaml::Value)| (key_model_of(e.0), NodeModel::Value(e.1)))
}

/// A node with a whole value taken apart one level: a mapping into its
/// entries, a tagged value into its tag and inner value, a string into its
/// text. Every other node is as it was.
pub open spec fn unfold(n: NodeModel) -> NodeModel {
    match n {
        NodeModel::Value(v) => match yaml_shape_of(v) {
            ShapeModel::Mapping(es) => NodeModel::Mapping(shape_entries(es)),
            ShapeModel::Tagged(t, w) => NodeModel::Tagged(t, Box::new(NodeModel::Value(w))),
            ShapeModel::Text(t) => NodeModel::Text(t),
            ShapeModel::Other(_) => n,
        },
        _ => n,
    }
}

/// How many tags are looked through to find a mapping: as many as a
/// `usize` counts.
pub open spec fn tag_limit() -> nat {
    usize::MAX as nat
}

/// The mapping a node is under at most `fuel` tags: the tags, outermost
/// first, and the entries; `None` when the node is no mapping.
pub open spec fn map_under(n: NodeModel, fuel: nat) -> Option<(Seq<serde_yaml::value::Tag>, Seq<(KeyModel, NodeModel)>)>
    decreases fuel,
{
    match unfold(n) {
        NodeModel::Mapping(es) => Some((Seq::empty(), es)),
        NodeModel::Tagged(t, inner) => {
            if fuel == 0 {
                None
            } else {
                match map_under(*inner, (fuel - 1) as nat) {
                    Some(p) => Some((seq![t] + p.0, p.1)),
                    None => None,
                }
            }
        },
        _ => None,
    }
}

/// A node under the tags `ts`, outermost first.
pub open spec fn retag(ts: Seq<serde_yaml::value::Tag>, n: NodeModel) -> NodeModel
    decreases ts.len(),
{
    if ts.len() == 0 {
        n
    } else {
        NodeModel::Tagged(ts[0], Box::new(retag(ts.drop_first(), n)))
    }
}

/// The mapping a node is under, or an empty one with no tags when the node
/// is no mapping.
pub open spec fn map_or_empty(n: NodeModel) -> (Seq<serde_yaml::value::Tag>, Seq<(KeyModel, NodeModel)>) {
    match map_under(n, tag_limit()) {
        Some(p) => p,
        None => (Seq::empty(), Seq::empty()),
    }
}

/// Position of the first entry whose key is the string `k`.
pub open spec fn key_pos(es: Seq<(KeyModel, NodeModel)>, k: Seq<char>) -> Option<int>
    decreases es.len(),
{
    if es.len() == 0 {
        None
    } else if es[0].0 == KeyModel::Text(k) {
        Some(0)
    } else {
        match key_pos(es.drop_first(), k) {
            Some(i) => Some(i + 1),
            None => None,
        }
    }
}

pub proof fn lemma_key_pos(es: Seq<(KeyModel, NodeModel)>, k: Seq<char>)
    ensures
        key_pos(es, k) matches Some(i) ==> 0 <= i < es.len() && es[i].0 == KeyModel::Text(k)
            && forall|j: int| 0 <= j < i ==> es[j].0 != KeyModel::Text(k),
        key_pos(es, k) is None ==> forall|j: int| 0 <= j < es.len() ==> es[j].0 != KeyModel::Text(k),
    decreases es.len(),
{
    if es.len() > 0 {
        lemma_key_pos(es.drop_first(), k);
        if es[0].0 != KeyModel::Text(k) {
            assert forall|j: int| 1 <= j < es.len() implies es[j] == es.drop_first()[j - 1] by {}
        }
    }
}

/// The entries with the string key `k` bound to `v`: in place when the key
/// is present, appended otherwise.
pub open spec fn put(es: Seq<(KeyModel, NodeModel)>, k: Seq<char>, v: NodeModel) -> Seq<(KeyModel, NodeModel)> {
    match key_pos(es, k) {
        Some(i) => es.update(i, (es[i].0, v)),
        None => es.push((KeyModel::Text(k), v)),
    }
}

/// The node bound to the string key `k`, if any.
pub open spec fn lookup(es: Seq<(KeyModel, NodeModel)>, k: Seq<char>) -> Option<NodeModel> {
    match key_pos(es, k) {
        Some(i) => Some(es[i].1),
        None => None,
    }
}

/// Writes `v` at the path `keys` (from position `i` on) into the node `m`:
/// the mapping it is (looking through tags, which are kept) gets the key
/// bound, and a node that is no mapping is replaced by an empty one first;
/// intermediate parts are created or replaced the same way.
pub open spec fn set_in(m: NodeModel, keys: Seq<Seq<char>>, i: int, v: NodeModel) -> NodeModel
    decreases keys.len() - i,
{
    if i < 0 || i >= keys.len() {
        m
    } else {
        let p = map_or_empty(m);
        if i == keys.len() - 1 {
            retag(p.0, NodeModel::Mapping(put(p.1, keys[i], v)))
        } else {
            let child = match lookup(p.1, keys[i]) {
                Some(c) => c,
                None => NodeModel::Mapping(Seq::empty()),
            };
            retag(p.0, NodeModel::Mapping(put(p.1, keys[i], set_in(child, keys, i + 1, v))))
        }
    }
}

/// The node at the path `keys` (from position `i` on), following mappings
/// and looking through tags.
pub open spec fn get_in(m: NodeModel, keys: Seq<Seq<char>>, i: int) -> Option<NodeModel>
    decreases keys.len() - i,
{
    if i < 0 || i >= keys.len() {
        Some(m)
    } else {
        match map_under(m, tag_limit()) {
            Some(p) => match lookup(p.1, keys[i]) {
                Some(c) => get_in(c, keys, i + 1),
                None => None,
            },
            None => None,
        }
    }
}

/// The node an override's value text becomes: the YAML it parses as, or
/// the text itself as a string when it is not valid YAML.
pub open spec fn override_value(raw: Seq<char>) -> NodeModel {
    match yaml_from_str(raw) {
        Some(v) => NodeModel::Value(v),
        None => NodeModel::Text(raw),
    }
}

/// Index of the first `=` in `s`, if any.
pub open spec fn first_eq(s: Seq<char>) -> Option<int> {
    if exists|i: int| 0 <= i < s.len() && s[i] == '=' {
        Some(choose|i: int| 0 <= i < s.len() && s[i] == '=' && forall|j: int| 0 <= j < i ==> s[j] != '=')
    } else {
        None
    }
}

/// What an override `spec` does to a tree: `None` when the spec is refused
/// (no `=`, or nothing before it), else the new tree.
pub open spec fn override_outcome(root: NodeModel, spec: Seq<char>) -> Option<NodeModel> {
    match first_eq(spec) {
        None => None,
        Some(i) => {
            if i == 0 {
                None
            } else {
                let keys = split_seq(spec.subrange(0, i), '.');
                Some(set_in(root, keys, 0, override_value(spec.skip(i + 1))))
            }
        },
    }
}


fn key_of(k: serde_yaml::Value) -> (r: YamlKey)
    ensures
        key_view(r) == key_model_of(k),
{
    match yaml_shape(k) {
        YamlShape::Text(t) => YamlKey::Text(t),
        other => YamlKey::Other(yaml_assemble(other)),
    }
}

fn unfold_node(n: ConfigNode) -> (r: ConfigNode)
    ensures
        r@ == unfold(n@),
{
    match n {
        ConfigNode::Value(v) => {
            let ghost v0 = v;
            let sh = yaml_shape(v);
            proof { assert(n@ == NodeModel::Value(v0)); }
            match sh {
                YamlShape::Mapping(es) => {
                    let ghost all = es@;
                    let mut es = es;
                    let mut out: Vec<(YamlKey, ConfigNode)> = Vec::new();
                    let mut i: usize = 0;
                    let n = es.len();
                    proof { assert(es@ =~= all.skip(0)); }
                    while es.len() > 0
                        invariant
                            n == all.len(),
                            i + es@.len() == n,
                            es@ == all.skip(i as int),
                            entries_view(out@) =~= shape_entries(all.take(i as int)),
                        decreases es@.len(),
                    {
                        let (k, c) = es.remove(0);
                        proof {
                            assert(all.skip(i as int)[0] == all[i as int]);
                            assert(all.skip(i as int + 1) =~= all.skip(i as int).drop_first());
                        }
                        let key = key_of(k);
                        let ghost before = out@;
                        out.push((key, ConfigNode::Value(c)));
                        proof {
                            lemma_push_entry(before, (key, ConfigNode::Value(c)));
                            assert(all.take(i as int + 1) =~= all.take(i as int).push(all[i as int]));
                            assert(shape_entries(all.take(i as int + 1)) =~= shape_entries(all.take(i as int)).push(
                                (key_model_of(all[i as int].0), NodeModel::Value(all[i as int].1))));
                        }
                        i = i + 1;
                    }
                    proof {
                        assert(all.take(n as int) =~= all);
                        assert(yaml_shape_of(v0) == ShapeModel::Mapping(all));
                        assert(entries_view(out@) == shape_entries(all));
                    }
                    ConfigNode::Mapping(out)
                },
                YamlShape::Tagged(t, w) => {
                    let inner = ConfigNode::Value(w);
                    proof { assert(inner@ == NodeModel::Value(w)); }
                    let r = ConfigNode::Tagged(t, Box::new(inner));
                    r
                },
                YamlShape::Text(t) => ConfigNode::Text(t),
                YamlShape::Other(w) => ConfigNode::Value(w),
            }
        },
        other => {
            proof { assert(!(other@ is Value)); }
            other
        },
    }
}

proof fn lemma_map_under_len(n: NodeModel, fuel: nat)
    ensures
        map_under(n, fuel) matches Some(p) ==> p.0.len() <= fuel,
    decreases fuel,
{
    if fuel > 0 {
        match unfold(n) {
            NodeModel::Tagged(_, inner) => lemma_map_under_len(*inner, (fuel - 1) as nat),
            _ => {},
        }
    }
}

/// A mapping put under tags is found again under the same tags.
proof fn lemma_retag_map(ts: Seq<serde_yaml::value::Tag>, es: Seq<(KeyModel, NodeModel)>, fuel: nat)
    requires
        ts.len() <= fuel,
    ensures
        map_under(retag(ts, NodeModel::Mapping(es)), fuel) == Some((ts, es)),
    decreases ts.len(),
{
    if ts.len() > 0 {
        lemma_retag_map(ts.drop_first(), es, (fuel - 1) as nat);
        assert(seq![ts[0]] + ts.drop_first() =~= ts);
    }
}

proof fn lemma_retag_pop(ts: Seq<serde_yaml::value::Tag>, n: NodeModel)
    requires
        ts.len() > 0,
    ensures
        retag(ts, n) == retag(ts.drop_last(), NodeModel::Tagged(ts.last(), Box::new(n))),
    decreases ts.len(),
{
    let t = NodeModel::Tagged(ts.last(), Box::new(n));
    if ts.len() > 1 {
        lemma_retag_pop(ts.drop_first(), n);
        assert(ts.drop_first().drop_last() =~= ts.drop_last().drop_first());
        assert(ts.drop_last()[0] == ts[0]);
        assert(ts.drop_first().last() == ts.last());
        assert(retag(ts.drop_last(), t) == NodeModel::Tagged(ts[0], Box::new(retag(ts.drop_last().drop_first(), t))));
    } else {
        assert(ts.drop_first().len() == 0);
        assert(ts.drop_last().len() == 0);
        assert(retag(ts.drop_first(), n) == n);
        assert(retag(ts.drop_last(), t) == t);
    }
}

fn map_under_node(n: ConfigNode, fuel: usize) -> (r: Option<(Vec<serde_yaml::value::Tag>, Vec<(YamlKey, ConfigNode)>)>)
    ensures
        match (r, map_under(n@, fuel as nat)) {
            (Some(a), Some(b)) => a.0@ == b.0 && entries_view(a.1@) == b.1,
            (None, None) => true,
            _ => false,
        },
    decreases fuel,
{
    let u = unfold_node(n);
    match u {
        ConfigNode::Mapping(es) => Some((Vec::new(), es)),
        ConfigNode::Tagged(t, inner) => {
            if fuel == 0 {
                None
            } else {
                match map_under_node(*inner, fuel - 1) {
                    Some((ts, es)) => {
                        let mut ts = ts;
                        let ghost before = ts@;
                        ts.insert(0, t);
                        proof { assert(ts@ =~= seq![t] + before); }
                        Some((ts, es))
                    },
                    None => None,
                }
            }
        },
        _ => None,
    }
}

fn retag_node(ts: Vec<serde_yaml::value::Tag>, n: ConfigNode) -> (r: ConfigNode)
    ensures
        r@ == retag(ts@, n@),
{
    let ghost goal = retag(ts@, n@);
    let mut ts = ts;
    let mut cur = n;
    while ts.len() > 0
        invariant
            retag(ts@, cur@) == goal,
        decreases ts@.len(),
    {
        let ghost before = ts@;
        let t = ts.pop().unwrap();
        proof { lemma_retag_pop(before, cur@); }
        cur = ConfigNode::Tagged(t, Box::new(cur));
    }
    cur
}

fn find_key(es: &Vec<(YamlKey, ConfigNode)>, k: &str) -> (r: Option<usize>)
    ensures
        match (r, key_pos(entries_view(es@), k@)) {
            (Some(a), Some(b)) => a == b,
            (None, None) => true,
            _ => false,
        },
{
    proof {
        lemma_entries_view(es@);
        lemma_key_pos(entries_view(es@), k@);
    }
    let mut i: usize = 0;
    while i < es.len()
        invariant
            i <= es@.len(),
            entries_view(es@).len() == es@.len(),
            forall|j: int| 0 <= j < es@.len() ==> #[trigger] entries_view(es@)[j] == (key_view(es@[j].0), node_view(es@[j].1)),
            forall|j: int| 0 <= j < i ==> entries_view(es@)[j].0 != KeyModel::Text(k@),
            key_pos(entries_view(es@), k@) matches Some(p) ==> 0 <= p < es@.len() && entries_view(es@)[p].0 == KeyModel::Text(k@)
                && forall|j: int| 0 <= j < p ==> entries_view(es@)[j].0 != KeyModel::Text(k@),
            key_pos(entries_view(es@), k@) is None ==> forall|j: int| 0 <= j < es@.len() ==> entries_view(es@)[j].0 != KeyModel::Text(k@),
        decreases es@.len() - i,
    {
        let hit = match &es[i].0 {
            YamlKey::Text(t) => str_eq(t.as_str(), k),
            YamlKey::Other(_) => false,
        };
        assert(hit == (entries_view(es@)[i as int].0 == KeyModel::Text(k@)));
        if hit {
            return Some(i);
        }
        i = i + 1;
    }
    None
}

proof fn lemma_replace_entry(es: Seq<(YamlKey, ConfigNode)>, p: int, e: (YamlKey, ConfigNode))
    requires
        0 <= p < es.len(),
    ensures
        entries_view(es.remove(p).insert(p, e)) == entries_view(es).update(p, (key_view(e.0), node_view(e.1))),
{
    let es2 = es.remove(p).insert(p, e);
    lemma_entries_view(es);
    lemma_entries_view(es2);
    assert(es2 =~= es.update(p, e));
    assert(entries_view(es2) =~= entries_view(es).update(p, (key_view(e.0), node_view(e.1))));
}

proof fn lemma_push_entry(es: Seq<(YamlKey, ConfigNode)>, e: (YamlKey, ConfigNode))
    ensures
        entries_view(es.push(e)) == entries_view(es).push((key_view(e.0), node_view(e.1))),
{
    assert(es.push(e).drop_last() =~= es);
}

fn set_in_exec(m: ConfigNode, keys: &Vec<String>, i: usize, v: ConfigNode) -> (r: ConfigNode)
    requires
        i < keys@.len(),
    ensures
        r@ == set_in(m@, string_views(keys@), i as int, v@),
    decreases keys@.len() - i,
{
    let ghost ks = string_views(keys@);
    let ghost p0 = map_or_empty(m@);
    let (ts, es) = match map_under_node(m, usize::MAX) {
        Some(p) => p,
        None => {
            proof { assert(entries_view(Seq::<(YamlKey, ConfigNode)>::empty()) =~= Seq::<(KeyModel, NodeModel)>::empty()); }
            (Vec::new(), Vec::new())
        },
    };
    proof { assert(ts@ == p0.0 && entries_view(es@) == p0.1); }
    let mut es = es;
    let ghost es0 = es@;
    let pos = find_key(&es, keys[i].as_str());
    proof {
        assert(ks[i as int] == keys@[i as int]@);
        lemma_entries_view(es0);
        lemma_key_pos(entries_view(es0), ks[i as int]);
    }
    if i == keys.len() - 1 {
        match pos {
            Some(p) => {
                let (k, _old) = es.remove(p);
                es.insert(p, (k, v));
                proof { lemma_replace_entry(es0, p as int, (k, v)); }
            },
            None => {
                let key = YamlKey::Text(keys[i].clone());
                es.push((key, v));
                proof { lemma_push_entry(es0, (key, v)); }
            },
        }
    } else {
        match pos {
            Some(p) => {
                let (k, child) = es.remove(p);
                proof {
                    assert(lookup(entries_view(es0), ks[i as int]) == Some(node_view(child)));
                }
                let nc = set_in_exec(child, keys, i + 1, v);
                es.insert(p, (k, nc));
                proof { lemma_replace_entry(es0, p as int, (k, nc)); }
            },
            None => {
                let fresh = ConfigNode::Mapping(Vec::new());
                proof {
                    assert(entries_view(Seq::<(YamlKey, ConfigNode)>::empty()) =~= Seq::<(KeyModel, NodeModel)>::empty());
                    assert(fresh@ == NodeModel::Mapping(Seq::empty()));
                }
                let nc = set_in_exec(fresh, keys, i + 1, v);
                let key = YamlKey::Text(keys[i].clone());
                es.push((key, nc));
                proof { lemma_push_entry(es0, (key, nc)); }
            },
        }
    }
    retag_node(ts, ConfigNode::Mapping(es))
}


/// The first position holding the string key `k` is what `key_pos` finds.
pub proof fn lemma_key_pos_exact(es: Seq<(KeyModel, NodeModel)>, k: Seq<char>, i: int)
    requires
        0 <= i < es.len(),
        es[i].0 == KeyModel::Text(k),
        forall|j: int| 0 <= j < i ==> es[j].0 != KeyModel::Text(k),
    ensures
        key_pos(es, k) == Some(i),
{
    lemma_key_pos(es, k);
    match key_pos(es, k) {
        Some(p) => {
            if p < i { assert(es[p].0 != KeyModel::Text(k)); }
            if p > i { assert(es[i].0 != KeyModel::Text(k)); }
        },
        None => { assert(es[i].0 != KeyModel::Text(k)); },
    }
}

/// Binding a string key and looking it up gives the bound node; other
/// string keys see what they saw before.
pub proof fn lemma_put_lookup(es: Seq<(KeyModel, NodeModel)>, k: Seq<char>, v: NodeModel, k2: Seq<char>)
    ensures
        lookup(put(es, k, v), k) == Some(v),
        k2 != k ==> lookup(put(es, k, v), k2) == lookup(es, k2),
{
    lemma_key_pos(es, k);
    lemma_key_pos(es, k2);
    let es2 = put(es, k, v);
    match key_pos(es, k) {
        Some(p) => {
            assert(es2 == es.update(p, (es[p].0, v)));
            assert forall|j: int| 0 <= j < es2.len() implies es2[j].0 == es[j].0 by {}
            lemma_key_pos_exact(es2, k, p);
            if k2 != k {
                lemma_key_pos(es2, k2);
                match key_pos(es, k2) {
                    Some(q) => {
                        lemma_key_pos_exact(es2, k2, q);
                        assert(q != p);
                    },
                    None => {
                        match key_pos(es2, k2) {
                            Some(q) => { assert(es[q].0 == KeyModel::Text(k2)); },
                            None => {},
                        }
                    },
                }
            }
        },
        None => {
            assert(es2 == es.push((KeyModel::Text(k), v)));
            assert forall|j: int| 0 <= j < es.len() implies es2[j] == es[j] by {}
            lemma_key_pos_exact(es2, k, es.len() as int);
            if k2 != k {
                lemma_key_pos(es2, k2);
                match key_pos(es, k2) {
                    Some(q) => { lemma_key_pos_exact(es2, k2, q); },
                    None => {
                        match key_pos(es2, k2) {
                            Some(q) => {
                                if q < es.len() { assert(es[q].0 == KeyModel::Text(k2)); }
                            },
                            None => {},
                        }
                    },
                }
            }
        },
    }
}

/// Writing a node at a path and reading the same path gives the node back.
pub proof fn lemma_set_then_get(m: NodeModel, keys: Seq<Seq<char>>, i: int, v: NodeModel)
    requires
        0 <= i < keys.len(),
    ensures
        get_in(set_in(m, keys, i, v), keys, i) == Some(v),
    decreases keys.len() - i,
{
    let p = map_or_empty(m);
    lemma_map_under_len(m, tag_limit());
    let child = match lookup(p.1, keys[i]) {
        Some(c) => c,
        None => NodeModel::Mapping(Seq::empty()),
    };
    let sub = if i == keys.len() - 1 { v } else { set_in(child, keys, i + 1, v) };
    let es2 = put(p.1, keys[i], sub);
    assert(set_in(m, keys, i, v) == retag(p.0, NodeModel::Mapping(es2)));
    lemma_retag_map(p.0, es2, tag_limit());
    lemma_put_lookup(p.1, keys[i], sub, keys[i]);
    if i < keys.len() - 1 {
        lemma_set_then_get(child, keys, i + 1, v);
    }
}

/// An accepted override can be read back: the node at its path is the
/// value it wrote.
pub proof fn law_override_reads_back(root: NodeModel, spec: Seq<char>)
    requires
        override_outcome(root, spec) is Some,
    ensures
        ({
            let i = first_eq(spec).unwrap();
            get_in(override_outcome(root, spec).unwrap(), split_seq(spec.subrange(0, i), '.'), 0)
                == Some(override_value(spec.skip(i + 1)))
        }),
{
    let i = first_eq(spec).unwrap();
    let keys = split_seq(spec.subrange(0, i), '.');
    lemma_split_nonempty(spec.subrange(0, i), '.');
    lemma_set_then_get(root, keys, 0, override_value(spec.skip(i + 1)));
}

/// An accepted override on a plain mapping leaves every other top-level
/// string key bound as it was.
pub proof fn law_override_keeps_other_keys(es: Seq<(KeyModel, NodeModel)>, spec: Seq<char>, other: Seq<char>)
    requires
        override_outcome(NodeModel::Mapping(es), spec) is Some,
        other != split_seq(spec.subrange(0, first_eq(spec).unwrap()), '.')[0],
    ensures
        override_outcome(NodeModel::Mapping(es), spec).unwrap() matches NodeModel::Mapping(es2)
            && lookup(es2, other) == lookup(es, other),
{
    let i = first_eq(spec).unwrap();
    let keys = split_seq(spec.subrange(0, i), '.');
    lemma_split_nonempty(spec.subrange(0, i), '.');
    let v = override_value(spec.skip(i + 1));
    assert(map_or_empty(NodeModel::Mapping(es)) == (Seq::<serde_yaml::value::Tag>::empty(), es));
    if keys.len() == 1 {
        lemma_put_lookup(es, keys[0], v, other);
    } else {
        let child = match lookup(es, keys[0]) {
            Some(c) => c,
            None => NodeModel::Mapping(Seq::empty()),
        };
        lemma_put_lookup(es, keys[0], set_in(child, keys, 1, v), other);
    }
}

fn find_eq(cs: &Vec<char>) -> (r: Option<usize>)
    ensures
        r matches Some(a) ==> a < cs@.len() && cs@[a as int] == '=',
        match (r, first_eq(cs@)) {
            (Some(a), Some(b)) => a == b,
            (None, None) => true,
            _ => false,
        },
{
    let mut i: usize = 0;
    while i < cs.len()
        invariant
            i <= cs@.len(),
            forall|j: int| 0 <= j < i ==> cs@[j] != '=',
        decreases cs@.len() - i,
    {
        if cs[i] == '=' {
            proof {
                let s = cs@;
                assert(exists|k: int| 0 <= k < s.len() && s[k] == '=') by { assert(s[i as int] == '='); }
                let c = choose|k: int| 0 <= k < s.len() && s[k] == '=' && forall|j: int| 0 <= j < k ==> s[j] != '=';
                assert(exists|k: int| 0 <= k < s.len() && s[k] == '=' && forall|j: int| 0 <= j < k ==> s[j] != '=') by {
                    assert(forall|j: int| 0 <= j < i ==> s[j] != '=');
                }
                if c < i {
                    assert(s[c] != '=');
                } else if c > i {
                    assert(s[i as int] != '=');
                }
            }
            return Some(i);
        }
        i = i + 1;
    }
    None
}

fn split_at_eq(cs: &Vec<char>, i: usize) -> (r: (String, String))
    requires
        i < cs@.len(),
    ensures
        r.0@ == cs@.subrange(0, i as int),
        r.1@ == cs@.subrange(i + 1, cs@.len() as int),
{
    let mut path_chars: Vec<char> = Vec::new();
    let mut k: usize = 0;
    while k < i
        invariant
            k <= i,
            i < cs@.len(),
            path_chars@ == cs@.subrange(0, k as int),
        decreases i - k,
    {
        path_chars.push(cs[k]);
        proof { assert(cs@.subrange(0, k + 1) =~= cs@.subrange(0, k as int).push(cs@[k as int])); }
        k = k + 1;
    }
    let mut raw_chars: Vec<char> = Vec::new();
    let n = cs.len();
    let mut k: usize = i + 1;
    while k < cs.len()
        invariant
            i + 1 <= k <= cs@.len(),
            raw_chars@ == cs@.subrange(i + 1, k as int),
        decreases cs@.len() - k,
    {
        raw_chars.push(cs[k]);
        proof { assert(cs@.subrange(i + 1, k + 1) =~= cs@.subrange(i + 1, k as int).push(cs@[k as int])); }
        k = k + 1;
    }
    (string_from_chars(path_chars.as_slice()), string_from_chars(raw_chars.as_slice()))
}

fn write_override(root: &mut ConfigNode, path: &str, raw: String)
    ensures
        final(root)@ == set_in(old(root)@, split_seq(path@, '.'), 0, override_value(raw@)),
{
    let leaf = match parse_yaml(raw.as_str()) {
        Ok(v) => ConfigNode::Value(v),
        Err(_) => ConfigNode::Text(raw),
    };
    let keys = split_on(path, '.');
    proof { lemma_split_nonempty(path@, '.'); }
    let mut old_root = ConfigNode::Text(String::new());
    std::mem::swap(root, &mut old_root);
    *root = set_in_exec(old_root, &keys, 0, leaf);
}

/// Applies one `dotted.path=value` override to a config tree. The value text
/// is read as YAML (so `5.0` is a number and `true` a boolean), falling back
/// to a plain string; missing or non-mapping intermediate parts become
/// mappings. A spec without `=`, or with nothing before it, is refused.
pub fn apply_yaml_override(root: &mut ConfigNode, spec: &str) -> (r: Result<(), LivecodeError>)
    ensures
        match override_outcome(old(root)@, spec@) {
            Some(t) => r is Ok && final(root)@ == t,
            None => r is Err && final(root)@ == old(root)@,
        },
        first_eq(spec@) is None ==> (r matches Err(LivecodeError::Raw(m))
            && m@ == "--set expects PATH=VALUE, got '"@ + spec@ + "'"@),
        first_eq(spec@) == Some(0int) ==> (r matches Err(LivecodeError::Raw(m))
            && m@ == "--set has an empty path: '"@ + spec@ + "'"@),
{
    let cs = chars_of(spec);
    let eq = find_eq(&cs);
    let i = match eq {
        None => {
            let a = concat_str("--set expects PATH=VALUE, got '", spec);
            return Err(LivecodeError::Raw(concat_str(a.as_str(), "'")));
        },
        Some(i) => i,
    };
    if i == 0 {
        let a = concat_str("--set has an empty path: '", spec);
        return Err(LivecodeError::Raw(concat_str(a.as_str(), "'")));
    }
    let (path, raw) = split_at_eq(&cs, i);
    proof {
        assert(path@ =~= spec@.subrange(0, i as int));
        assert(raw@ =~= spec@.skip(i + 1));
    }
    write_override(root, path.as_str(), raw);
    Ok(())
}

/// The YAML value a key stands for.
pub open spec fn key_value(k: KeyModel) -> serde_yaml::Value {
    match k {
        KeyModel::Text(t) => yaml_from_shape(ShapeModel::Text(t)),
        KeyModel::Other(v) => v,
    }
}

/// The YAML value a config tree stands for: taken-apart layers assembled
/// again, whole values as they are.
pub open spec fn node_value(n: NodeModel) -> serde_yaml::Value
    decreases n,
{
    match n {
        NodeModel::Mapping(es) => yaml_from_shape(ShapeModel::Mapping(entries_value(es))),
        NodeModel::Tagged(t, inner) => yaml_from_shape(ShapeModel::Tagged(t, node_value(*inner))),
        NodeModel::Text(t) => yaml_from_shape(ShapeModel::Text(t)),
        NodeModel::Value(v) => v,
    }
}

/// The YAML entries a mapping's entries stand for.
pub open spec fn entries_value(es: Seq<(KeyModel, NodeModel)>) -> Seq<(serde_yaml::Value, serde_yaml::Value)>
    decreases es,
{
    if es.len() == 0 {
        Seq::empty()
    } else {
        proof { assert(decreases_to!(es => es[es.len() - 1])); }
        entries_value(es.drop_last()).push((key_value(es.last().0), node_value(es.last().1)))
    }
}

fn key_to_value(k: &YamlKey) -> (r: serde_yaml::Value)
    ensures
        r == key_value(key_view(*k)),
{
    match k {
        YamlKey::Text(t) => yaml_assemble(YamlShape::Text(t.clone())),
        YamlKey::Other(v) => yaml_value_clone(v),
    }
}

/// The YAML value a config tree stands for.
#[verifier::loop_isolation(false)]
pub fn node_to_value(n: &ConfigNode) -> (r: serde_yaml::Value)
    ensures
        r == node_value(n@),
    decreases n,
{
    match n {
        ConfigNode::Mapping(es) => {
            let mut out: Vec<(serde_yaml::Value, serde_yaml::Value)> = Vec::new();
            let mut i: usize = 0;
            proof { assert(es@.take(0) =~= Seq::<(YamlKey, ConfigNode)>::empty()); }
            while i < es.len()
                invariant
                    i <= es@.len(),
                    out@ == entries_value(entries_view(es@.take(i as int))),
                decreases es@.len() - i,
            {
                proof {
                    assert(decreases_to!(*n => *es));
                    assert(decreases_to!(es => es@));
                    assert(decreases_to!(es@ => es@[i as int]));
                    assert(decreases_to!(es@[i as int] => es@[i as int].1));
                }
                let k = key_to_value(&es[i].0);
                let c = node_to_value(&es[i].1);
                let ghost before = out@;
                out.push((k, c));
                proof {
                    let t = es@.take(i as int + 1);
                    assert(t.drop_last() =~= es@.take(i as int));
                    assert(t.last() == es@[i as int]);
                    assert(entries_view(t) == entries_view(es@.take(i as int)).push((key_view(es@[i as int].0), node_view(es@[i as int].1))));
                    assert(entries_view(t).drop_last() =~= entries_view(es@.take(i as int)));
                    assert(out@ =~= entries_value(entries_view(t)));
                }
                i = i + 1;
            }
            proof { assert(es@.take(es@.len() as int) =~= es@); }
            yaml_assemble(YamlShape::Mapping(out))
        },
        ConfigNode::Tagged(t, inner) => {
            let w = node_to_value(inner);
            yaml_assemble(YamlShape::Tagged(yaml_tag_clone(t), w))
        },
        ConfigNode::Text(t) => yaml_assemble(YamlShape::Text(t.clone())),
        ConfigNode::Value(v) => yaml_value_clone(v),
    }
}

/// The message a refused override is reported with.
pub open spec fn override_error(spec: Seq<char>) -> Seq<char> {
    if first_eq(spec) is None {
        "--set expects PATH=VALUE, got '"@ + spec + "'"@
    } else {
        "--set has an empty path: '"@ + spec + "'"@
    }
}

/// The outcome of applying overrides in order: the final tree, or the
/// message of the first one refused.
pub open spec fn overrides_outcome(root: NodeModel, specs: Seq<Seq<char>>) -> Result<NodeModel, Seq<char>>
    decreases specs.len(),
{
    if specs.len() == 0 {
        Ok(root)
    } else {
        match overrides_outcome(root, specs.drop_last()) {
            Err(m) => Err(m),
            Ok(t) => match override_outcome(t, specs.last()) {
                Some(u) => Ok(u),
                None => Err(override_error(specs.last())),
            },
        }
    }
}

/// After a list of accepted overrides, the path of the last one reads the
/// value it wrote, whatever the earlier ones wrote there.
pub proof fn law_last_override_wins(root: NodeModel, specs: Seq<Seq<char>>)
    requires
        specs.len() > 0,
        overrides_outcome(root, specs) is Ok,
    ensures
        ({
            let last = specs.last();
            let i = first_eq(last).unwrap();
            get_in(overrides_outcome(root, specs)->Ok_0, split_seq(last.subrange(0, i), '.'), 0)
                == Some(override_value(last.skip(i + 1)))
        }),
{
    let t = overrides_outcome(root, specs.drop_last())->Ok_0;
    law_override_reads_back(t, specs.last());
}

proof fn lemma_overrides_error_stays(root: NodeModel, specs: Seq<Seq<char>>, k: int)
    requires
        0 <= k <= specs.len(),
        overrides_outcome(root, specs.take(k)) is Err,
    ensures
        overrides_outcome(root, specs) == overrides_outcome(root, specs.take(k)),
    decreases specs.len(),
{
    if k < specs.len() {
        assert(specs.drop_last().take(k) =~= specs.take(k));
        lemma_overrides_error_stays(root, specs.drop_last(), k);
    } else {
        assert(specs.take(k) =~= specs);
    }
}

/// Applies `PATH=VALUE` overrides in order. The first refused one stops
/// the rest and is reported; the tree then holds the overrides before it.
pub fn apply_overrides(root: &mut ConfigNode, overrides: &Vec<String>) -> (r: Result<(), LivecodeError>)
    ensures
        match overrides_outcome(old(root)@, string_views(overrides@)) {
            Ok(t) => r is Ok && final(root)@ == t,
            Err(m) => r matches Err(LivecodeError::Raw(x)) && x@ == m,
        },
        r is Err ==> exists|k: int| 0 <= k < overrides@.len()
            && #[trigger] overrides_outcome(old(root)@, string_views(overrides@).take(k)) == Ok::<NodeModel, Seq<char>>(final(root)@)
            && override_outcome(final(root)@, overrides@[k]@) is None,
{
    let ghost start = root@;
    let ghost specs = string_views(overrides@);
    let mut i: usize = 0;
    proof { assert(specs.take(0) =~= Seq::<Seq<char>>::empty()); }
    while i < overrides.len()
        invariant
            i <= overrides@.len(),
            start == old(root)@,
            specs == string_views(overrides@),
            overrides_outcome(start, specs.take(i as int)) == Ok::<NodeModel, Seq<char>>(root@),
        decreases overrides@.len() - i,
    {
        let ghost before = root@;
        proof {
            assert(specs.take(i as int + 1).drop_last() =~= specs.take(i as int));
            assert(specs.take(i as int + 1).last() == overrides@[i as int]@);
        }
        match apply_yaml_override(root, overrides[i].as_str()) {
            Ok(()) => {},
            Err(e) => {
                proof {
                    assert(root@ == before);
                    lemma_overrides_error_stays(start, specs, i as int + 1);
                    reveal_strlit("--set expects PATH=VALUE, got '");
                    reveal_strlit("--set has an empty path: '");
                    reveal_strlit("'");
                    assert(overrides_outcome(start, specs.take(i as int)) == Ok::<NodeModel, Seq<char>>(root@));
                }
                return Err(e);
            },
        }
        i = i + 1;
    }
    proof { assert(specs.take(overrides@.len() as int) =~= specs); }
    Ok(())
}

/// The text a config is read from once overrides are applied to the text
/// of its file (with templates already put in): with no overrides the text
/// itself; otherwise the text is read as YAML, the overrides applied in
/// order, and the result written back as YAML text.
pub fn text_with_overrides(preprocessed: &str, overrides: &Vec<String>) -> (r: Result<String, LivecodeError>)
    ensures
        overrides@.len() == 0 ==> (r matches Ok(s) && s@ == preprocessed@),
        overrides@.len() > 0 ==> match yaml_from_str(preprocessed@) {
            None => r matches Err(LivecodeError::Raw(m))
                && m@.take(35) == "config yaml parse before override: "@,
            Some(v) => match overrides_outcome(NodeModel::Value(v), string_views(overrides@)) {
                Err(m) => r matches Err(LivecodeError::Raw(x)) && x@ == m,
                Ok(t) => match yaml_to_text(node_value(t)) {
                    Some(s) => r matches Ok(x) && x@ == s,
                    None => r matches Err(LivecodeError::Raw(m))
                        && m@.take(29) == "re-serialize after override: "@,
                },
            },
        },
{
    if overrides.len() == 0 {
        return Ok(preprocessed.to_string());
    }
    let value = match parse_yaml(preprocessed) {
        Ok(v) => v,
        Err(e) => {
            let text = yaml_error_text(&e);
            let m = concat_str("config yaml parse before override: ", text.as_str());
            proof { reveal_strlit("config yaml parse before override: "); assert(m@.take(35) =~= "config yaml parse before override: "@); }
            return Err(LivecodeError::Raw(m));
        },
    };
    let mut root = ConfigNode::Value(value);
    match apply_overrides(&mut root, overrides) {
        Ok(()) => {},
        Err(e) => return Err(e),
    }
    let merged = node_to_value(&root);
    match yaml_to_string(&merged) {
        Ok(s) => Ok(s),
        Err(e) => {
            let text = yaml_error_text(&e);
            let m = concat_str("re-serialize after override: ", text.as_str());
            proof { reveal_strlit("re-serialize after override: "); assert(m@.take(29) =~= "re-serialize after override: "@); }
            Err(LivecodeError::Raw(m))
        },
    }
}

} // verus!
