//! Small pieces of the livecode layer: serde defaults, the conversion of
//! plain values into their control form, cached values and color modes.
use vstd::prelude::*;

verus! {

/// An empty list, the serde default of list fields.
pub fn empty_vec<T>() -> (r: Vec<T>)
    ensures
        r@ == Seq::<T>::empty(),
{
    Vec::new()
}

/// An empty string, the serde default of text fields.
pub fn empty_string() -> (r: String)
    ensures
        r@ == Seq::<char>::empty(),
{
    String::new()
}

/// An empty string, the serde default of text fields of lazy structs.
pub fn empty_string_lazy() -> (r: String)
    ensures
        r@ == Seq::<char>::empty(),
{
    String::new()
}

/// Values that have a control form, the form a config writes them in.
pub trait LivecodeToControl<ControlT> {
    /// Whether `c` is the control form of this value. A type that states
    /// nothing of its control form admits every value.
    open spec fn is_control_form(&self, c: ControlT) -> bool {
        true
    }

    fn to_control(&self) -> (r: ControlT)
        ensures
            self.is_control_form(r),
    ;
}

impl<Source: LivecodeToControl<Target>, Target> LivecodeToControl<Vec<Target>> for Vec<Source> {
    /// A list's control form is the control form of each item, in order.
    open spec fn is_control_form(&self, c: Vec<Target>) -> bool {
        &&& c@.len() == self@.len()
        &&& forall|i: int| 0 <= i < self@.len() ==> #[trigger] self@[i].is_control_form(c@[i])
    }

    /// The control form of each item, in order.
    fn to_control(&self) -> (r: Vec<Target>) {
        let mut out: Vec<Target> = Vec::new();
        let mut i: usize = 0;
        while i < self.len()
            invariant
                i <= self@.len(),
                out@.len() == i,
                forall|j: int| 0 <= j < i ==> #[trigger] self@[j].is_control_form(out@[j]),
            decreases self@.len() - i,
        {
            out.push(self[i].to_control());
            i = i + 1;
        }
        out
    }
}

impl<T: LivecodeToControl<C>, C> LivecodeToControl<Option<C>> for Option<T> {
    /// An absent value has no control form; a present one has its own.
    open spec fn is_control_form(&self, c: Option<C>) -> bool {
        match (self, c) {
            (Some(x), Some(y)) => x.is_control_form(y),
            (None, None) => true,
            _ => false,
        }
    }

    /// The control form of the value, if there is one.
    fn to_control(&self) -> (r: Option<C>) {
        match self {
            Some(x) => Some(x.to_control()),
            None => None,
        }
    }
}

/// A value that is computed at most once and then kept.
#[derive(Debug)]
pub struct CachedCompute<T> {
    value: Option<T>,
}

impl<T> View for CachedCompute<T> {
    type V = Option<T>;

    closed spec fn view(&self) -> Option<T> {
        self.value
    }
}

impl<T> CachedCompute<T> {
    /// A cache that has not been filled.
    pub fn new() -> (r: CachedCompute<T>)
        ensures
            r@ is None,
    {
        CachedCompute { value: None }
    }

    /// Whether the value has been computed.
    pub fn has_been_set(&self) -> (r: bool)
        ensures
            r == (self@ is Some),
    {
        self.value.is_some()
    }

    /// The kept value, computing and keeping it first if the cache is empty.
    pub fn get_or_init<F: FnOnce() -> T>(&mut self, compute: F) -> (r: &T)
        requires
            old(self)@ is None ==> compute.requires(()),
        ensures
            final(self)@ is Some,
            old(self)@ matches Some(v) ==> final(self)@ == Some(v),
            old(self)@ is None ==> compute.ensures((), final(self)@.unwrap()),
            *r == final(self)@.unwrap(),
    {
        if self.value.is_none() {
            self.value = Some(compute());
        }
        self.value.as_ref().unwrap()
    }
}

impl<T: Clone> Clone for CachedCompute<T> {
    /// A copy that is filled exactly when this cache is, with a clone of its
    /// value.
    fn clone(&self) -> (r: Self)
        ensures
            r@ is None <==> self@ is None,
            self@ matches Some(v) ==> cloned(v, r@.unwrap()),
    {
        match &self.value {
            Some(v) => CachedCompute { value: Some(v.clone()) },
            None => CachedCompute { value: None },
        }
    }
}

/// The color space a lazy color's components are given in.
#[derive(Clone, Copy, Debug, PartialEq, Eq)]
pub enum LazyColorMode {
    Hsva,
    Rgba,
}

impl Default for LazyColorMode {
    /// Colors are given as hue, saturation, value and alpha unless said.
    fn default() -> (r: LazyColorMode)
        ensures
            r == LazyColorMode::Hsva,
    {
        LazyColorMode::Hsva
    }
}

/// The prefix of the index variables a repeat block sets: `i_` unless the
/// block names its own prefix, which then gets an underscore.
pub fn repeat_prefix(prefix: &str) -> (r: String)
    ensures
        r@ == if prefix@.len() == 0 { "i_"@ } else { prefix@ + "_"@ },
{
    if crate::text::chars_of(prefix).len() == 0 {
        proof { reveal_strlit("i_"); }
        "i_".to_string()
    } else {
        crate::text::concat_str(prefix, "_")
    }
}

/// How many items a blend of lists of lengths `this_len` and `other_len`
/// shows: the common length when the two are as long, else `lerped`, the
/// rounded point between the two lengths that the blend has reached.
pub open spec fn blend_count(this_len: nat, other_len: nat, lerped: nat) -> nat {
    if this_len == other_len { this_len } else { lerped }
}

/// Blends two lists into one: where both have an item the two are mixed,
/// past the end of one the other's item is kept. Lists of the same length
/// keep that length; otherwise `lerped`, the rounded point between the two
/// lengths that the blend has reached, is the number of items.
pub fn combine_vecs<T: Clone, F: Fn(&T, &T) -> T>(this: &Vec<T>, other: &Vec<T>, lerped: usize, mix: F) -> (r: Vec<T>)
    requires
        this@.len() == other@.len() || lerped <= this@.len() || lerped <= other@.len(),
        forall|i: int| 0 <= i < blend_count(this@.len(), other@.len(), lerped as nat) && i < this@.len() && i < other@.len()
            ==> #[trigger] mix.requires((&this@[i], &other@[i])),
    ensures
        r@.len() == blend_count(this@.len(), other@.len(), lerped as nat),
        forall|i: int| 0 <= i < r@.len() && i < this@.len() && i < other@.len()
            ==> #[trigger] mix.ensures((&this@[i], &other@[i]), r@[i]),
        forall|i: int| 0 <= i < r@.len() && i >= this@.len() ==> cloned(other@[i], #[trigger] r@[i]),
        forall|i: int| 0 <= i < r@.len() && i >= other@.len() ==> cloned(this@[i], #[trigger] r@[i]),
{
    let count = if this.len() == other.len() { this.len() } else { lerped };
    let mut v: Vec<T> = Vec::new();
    let mut i: usize = 0;
    while i < count
        invariant
            i <= count,
            count <= this@.len() || count <= other@.len(),
            v@.len() == i,
            forall|k: int| 0 <= k < count && k < this@.len() && k < other@.len()
                ==> #[trigger] mix.requires((&this@[k], &other@[k])),
            forall|k: int| 0 <= k < i && k < this@.len() && k < other@.len()
                ==> #[trigger] mix.ensures((&this@[k], &other@[k]), v@[k]),
            forall|k: int| 0 <= k < i && k >= this@.len() ==> cloned(other@[k], #[trigger] v@[k]),
            forall|k: int| 0 <= k < i && k >= other@.len() ==> cloned(this@[k], #[trigger] v@[k]),
        decreases count - i,
    {
        let item = if i >= this.len() {
            other[i].clone()
        } else if i >= other.len() {
            this[i].clone()
        } else {
            mix(&this[i], &other[i])
        };
        v.push(item);
        i = i + 1;
    }
    v
}

} // verus!
