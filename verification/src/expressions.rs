use vstd::prelude::*;
use std::collections::HashMap;
use std::collections::hash_map::DefaultHasher;
use std::hash::Hasher;
use crate::names::NameMap;
use vstd::std_specs::hash::DefaultHasherAdditionalSpecFns;
use vstd::string::StringSliceAdditionalSpecFns;
use crate::strings::{ascii_lower_char, ascii_lower_seq};

verus! {

broadcast use vstd::std_specs::hash::group_hash_axioms;

/// How `loopOut` / `loopIn` repeat an animation outside its keyframe range.
#[derive(Clone, Debug, PartialEq, Eq, Structural)]
pub enum LoopType {
    Cycle,
    PingPong,
    Continue,
    Offset,
}

/// The loop type a name denotes, ignoring case: `pingpong`, `continue` and
/// `offset`; every other name means `Cycle`.
pub open spec fn spec_loop_type(name: Seq<char>) -> LoopType {
    let l = ascii_lower_seq(name);
    if l == "pingpong"@ {
        LoopType::PingPong
    } else if l == "continue"@ {
        LoopType::Continue
    } else if l == "offset"@ {
        LoopType::Offset
    } else {
        LoopType::Cycle
    }
}

/// Whether `s`, lowercased in ASCII, equals `target`.
fn lower_equals(s: &str, target: &str) -> (r: bool)
    ensures
        r == (ascii_lower_seq(s@) == target@),
{
    let n = s.unicode_len();
    if n != target.unicode_len() {
        return false;
    }
    let mut i: usize = 0;
    while i < n
        invariant
            n == s@.len(),
            n == target@.len(),
            i <= n,
            forall|j: int| 0 <= j < i ==> ascii_lower_seq(s@)[j] == target@[j],
        decreases n - i,
    {
        if ascii_lower_char(s.get_char(i)) != target.get_char(i) {
            assert(ascii_lower_seq(s@)[i as int] != target@[i as int]);
            return false;
        }
        i = i + 1;
    }
    assert(ascii_lower_seq(s@) =~= target@);
    true
}

impl LoopType {
    /// Parses a loop type name case-insensitively. The names are ASCII words
    /// without the letter `k`, so lowercasing only ASCII letters decides exactly
    /// as full Unicode lowercasing would.
    pub fn from_str(s: &str) -> (r: LoopType)
        ensures
            r == spec_loop_type(s@),
    {
        if lower_equals(s, "pingpong") {
            LoopType::PingPong
        } else if lower_equals(s, "continue") {
            LoopType::Continue
        } else if lower_equals(s, "offset") {
            LoopType::Offset
        } else {
            LoopType::Cycle
        }
    }
}

/// Variables visible to expressions, in three scopes: local to one animation
/// node, scene-wide, and global.
pub struct ScopedVariables<V> {
    pub local: NameMap<V>,
    pub scene: NameMap<V>,
    pub global: NameMap<V>,
}

/// The value a variable name resolves to: a local variable hides a scene
/// variable, which hides a global one.
pub open spec fn resolve_variable<V>(
    local: Map<Seq<char>, V>,
    scene: Map<Seq<char>, V>,
    global: Map<Seq<char>, V>,
    name: Seq<char>,
) -> Option<V> {
    if local.contains_key(name) {
        Some(local[name])
    } else if scene.contains_key(name) {
        Some(scene[name])
    } else if global.contains_key(name) {
        Some(global[name])
    } else {
        None
    }
}

impl<V> ScopedVariables<V> {
    /// No variables in any scope.
    pub fn new() -> (r: Self)
        ensures
            r.local@ == Map::<Seq<char>, V>::empty(),
            r.scene@ == Map::<Seq<char>, V>::empty(),
            r.global@ == Map::<Seq<char>, V>::empty(),
    {
        ScopedVariables { local: NameMap::new(), scene: NameMap::new(), global: NameMap::new() }
    }

    /// Looks a variable up, local scope first, then scene, then global.
    pub fn get(&self, name: &str) -> (r: Option<&V>)
        ensures
            match r {
                Some(v) => resolve_variable(self.local@, self.scene@, self.global@, name@) == Some(
                    *v,
                ),
                None => resolve_variable(self.local@, self.scene@, self.global@, name@) is None,
            },
    {
        match self.local.get(name) {
            Some(v) => Some(v),
            None => match self.scene.get(name) {
                Some(v) => Some(v),
                None => self.global.get(name),
            },
        }
    }

    /// Sets a local variable.
    pub fn set_local(&mut self, name: String, value: V)
        ensures
            final(self).local@ == old(self).local@.insert(name@, value),
            final(self).scene@ == old(self).scene@,
            final(self).global@ == old(self).global@,
    {
        self.local.insert(name, value);
    }

    /// Sets a scene variable.
    pub fn set_scene(&mut self, name: String, value: V)
        ensures
            final(self).local@ == old(self).local@,
            final(self).scene@ == old(self).scene@.insert(name@, value),
            final(self).global@ == old(self).global@,
    {
        self.scene.insert(name, value);
    }

    /// Sets a global variable.
    pub fn set_global(&mut self, name: String, value: V)
        ensures
            final(self).local@ == old(self).local@,
            final(self).scene@ == old(self).scene@,
            final(self).global@ == old(self).global@.insert(name@, value),
    {
        self.global.insert(name, value);
    }
}

/// Reading a variable right after setting it in a scope gives the value set,
/// unless a narrower scope holds a variable of that name.
pub proof fn lemma_variable_set_then_get<V>(
    local: Map<Seq<char>, V>,
    scene: Map<Seq<char>, V>,
    global: Map<Seq<char>, V>,
    name: Seq<char>,
    value: V,
)
    ensures
        resolve_variable(local.insert(name, value), scene, global, name) == Some(value),
        !local.contains_key(name) ==> resolve_variable(
            local,
            scene.insert(name, value),
            global,
            name,
        ) == Some(value),
        !local.contains_key(name) && !scene.contains_key(name) ==> resolve_variable(
            local,
            scene,
            global.insert(name, value),
            name,
        ) == Some(value),
{
}

/// The transform of a layer as expressions see it. Without time samplers every
/// property reads as its default.
#[derive(Clone, Copy, Debug)]
pub struct TransformObject {}

impl TransformObject {
    pub fn new() -> (r: Self) {
        TransformObject {  }
    }
}

/// A layer as expressions see it (`thisLayer`, `thisComp.layer(..)`).
#[derive(Clone, Debug)]
pub struct LayerObject {
    index: i32,
    name: String,
    transform: TransformObject,
}

impl LayerObject {
    pub closed spec fn spec_index(&self) -> i32 {
        self.index
    }

    pub closed spec fn spec_name(&self) -> Seq<char> {
        self.name@
    }

    /// A layer with a default transform.
    pub fn new(index: i32, name: &str) -> (r: Self)
        ensures
            r.spec_index() == index,
            r.spec_name() == name@,
    {
        LayerObject { index, name: name.to_owned(), transform: TransformObject::new() }
    }

    /// A layer with a given transform.
    pub fn with_transform(index: i32, name: &str, transform: TransformObject) -> (r: Self)
        ensures
            r.spec_index() == index,
            r.spec_name() == name@,
    {
        LayerObject { index, name: name.to_owned(), transform }
    }

    /// The layer's index (`index`).
    pub fn index(&self) -> (r: i32)
        ensures
            r == self.spec_index(),
    {
        self.index
    }

    /// The layer's name (`name`).
    pub fn name(&self) -> (r: &str)
        ensures
            r@ == self.spec_name(),
    {
        self.name.as_str()
    }

    /// The layer's transform (`transform`).
    pub fn transform(&self) -> (r: &TransformObject) {
        &self.transform
    }
}

/// A composition as expressions see it (`thisComp`): layers by index, and layer
/// indices by name.
#[derive(Clone, Debug)]
pub struct CompObject {
    layers_by_index: HashMap<i32, LayerObject>,
    layers_by_name: NameMap<i32>,
}

impl CompObject {
    pub closed spec fn by_index(&self) -> Map<i32, LayerObject> {
        self.layers_by_index@
    }

    pub closed spec fn by_name(&self) -> Map<Seq<char>, i32> {
        self.layers_by_name@
    }

    /// A composition with no layers.
    pub fn new() -> (r: Self)
        ensures
            r.by_index() == Map::<i32, LayerObject>::empty(),
            r.by_name() == Map::<Seq<char>, i32>::empty(),
    {
        CompObject { layers_by_index: HashMap::new(), layers_by_name: NameMap::new() }
    }

    /// Adds a layer under its index, and records its name as naming that index.
    /// A later layer with the same index or name replaces the earlier entry.
    pub fn add_layer(&mut self, layer: LayerObject)
        ensures
            final(self).by_index() == old(self).by_index().insert(layer.spec_index(), layer),
            final(self).by_name() == old(self).by_name().insert(
                layer.spec_name(),
                layer.spec_index(),
            ),
    {
        let index = layer.index;
        let name = layer.name.clone();
        self.layers_by_index.insert(index, layer);
        self.layers_by_name.insert(name, index);
    }

    /// The layer with an index (`thisComp.layer(index)`).
    pub fn layer_by_index(&self, index: i32) -> (r: Option<&LayerObject>)
        ensures
            match r {
                Some(l) => self.by_index().contains_key(index) && *l == self.by_index()[index],
                None => !self.by_index().contains_key(index),
            },
    {
        self.layers_by_index.get(&index)
    }

    /// The layer with a name (`thisComp.layer(name)`): the layer at the index
    /// last recorded for the name, provided it still carries that name; `None`
    /// when no layer was added under the name or a later layer with another name
    /// took its index.
    pub fn layer_by_name(&self, name: &str) -> (r: Option<&LayerObject>)
        ensures
            match r {
                Some(l) => layer_named(self.by_index(), self.by_name(), name@) == Some(*l),
                None => layer_named(self.by_index(), self.by_name(), name@) is None,
            },
            r matches Some(l) ==> l.spec_name() == name@,
    {
        match self.layers_by_name.get(name) {
            Some(index) => match self.layers_by_index.get(index) {
                Some(layer) => {
                    if crate::strings::str_equals(layer.name.as_str(), name) {
                        Some(layer)
                    } else {
                        None
                    }
                },
                None => None,
            },
            None => None,
        }
    }

    /// The number of distinct layer indices (`thisComp.numLayers`).
    pub fn num_layers(&self) -> (r: usize)
        ensures
            r == self.by_index().len(),
    {
        self.layers_by_index.len()
    }
}

/// The layer named `n`: the layer at the index last recorded for `n`, when that
/// layer carries the name `n`.
pub open spec fn layer_named(
    by_index: Map<i32, LayerObject>,
    by_name: Map<Seq<char>, i32>,
    n: Seq<char>,
) -> Option<LayerObject> {
    if by_name.contains_key(n) && by_index.contains_key(by_name[n]) && by_index[by_name[n]].spec_name() == n {
        Some(by_index[by_name[n]])
    } else {
        None
    }
}

/// A layer added to a composition is found again both by its index and by its name.
pub proof fn lemma_comp_add_then_lookup(
    by_index: Map<i32, LayerObject>,
    by_name: Map<Seq<char>, i32>,
    layer: LayerObject,
)
    ensures
        by_index.insert(layer.spec_index(), layer)[layer.spec_index()] == layer,
        ({
            let names = by_name.insert(layer.spec_name(), layer.spec_index());
            let layers = by_index.insert(layer.spec_index(), layer);
            layer_named(layers, names, layer.spec_name()) == Some(layer)
        }),
{
}

/// One control of an expression-control effect, with its value at the evaluated time.
#[derive(Clone, Debug)]
pub struct ControlValue<V> {
    name: String,
    value: V,
}

impl<V> ControlValue<V> {
    pub closed spec fn spec_name(&self) -> Seq<char> {
        self.name@
    }

    pub closed spec fn spec_value(&self) -> V {
        self.value
    }

    pub fn new(name: &str, value: V) -> (r: Self)
        ensures
            r.spec_name() == name@,
            r.spec_value() == value,
    {
        ControlValue { name: name.to_owned(), value }
    }

    /// The control's name.
    pub fn name(&self) -> (r: &str)
        ensures
            r@ == self.spec_name(),
    {
        self.name.as_str()
    }

    /// The control's value.
    pub fn value(&self) -> (r: &V)
        ensures
            *r == self.spec_value(),
    {
        &self.value
    }
}

/// An effect with expression controls (`effect("Name")("Control")`). Each control
/// added is kept; a name refers to the control last added under that name, and an
/// index to the control last added at that index.
pub struct EffectObject<V> {
    name: String,
    index: u32,
    controls: Vec<ControlValue<V>>,
    controls_by_name: NameMap<usize>,
    controls_by_index: HashMap<u32, usize>,
}

impl<V> EffectObject<V> {
    #[verifier::type_invariant]
    closed spec fn wf(&self) -> bool {
        &&& forall|n: Seq<char>|
            self.controls_by_name@.contains_key(n) ==> self.controls_by_name@[n]
                < self.controls@.len()
        &&& forall|i: u32|
            self.controls_by_index@.contains_key(i) ==> self.controls_by_index@[i]
                < self.controls@.len()
    }

    pub closed spec fn spec_name(&self) -> Seq<char> {
        self.name@
    }

    pub closed spec fn spec_index(&self) -> u32 {
        self.index
    }

    /// The controls by name.
    pub closed spec fn by_name(&self) -> Map<Seq<char>, ControlValue<V>> {
        Map::new(
            |n: Seq<char>| self.controls_by_name@.contains_key(n),
            |n: Seq<char>| self.controls@[self.controls_by_name@[n] as int],
        )
    }

    /// The controls by index.
    pub closed spec fn by_index(&self) -> Map<u32, ControlValue<V>> {
        Map::new(
            |i: u32| self.controls_by_index@.contains_key(i),
            |i: u32| self.controls@[self.controls_by_index@[i] as int],
        )
    }

    /// An effect without controls.
    pub fn new(name: &str, index: u32) -> (r: Self)
        ensures
            r.spec_name() == name@,
            r.spec_index() == index,
            r.by_name() == Map::<Seq<char>, ControlValue<V>>::empty(),
            r.by_index() == Map::<u32, ControlValue<V>>::empty(),
    {
        let r = EffectObject {
            name: name.to_owned(),
            index,
            controls: Vec::new(),
            controls_by_name: NameMap::new(),
            controls_by_index: HashMap::new(),
        };
        assert(r.by_name() =~= Map::<Seq<char>, ControlValue<V>>::empty());
        assert(r.by_index() =~= Map::<u32, ControlValue<V>>::empty());
        r
    }

    /// Adds a control, reachable by its name and by `index`.
    pub fn add_control(&mut self, index: u32, control: ControlValue<V>)
        ensures
            final(self).spec_name() == old(self).spec_name(),
            final(self).spec_index() == old(self).spec_index(),
            final(self).by_name() == old(self).by_name().insert(control.spec_name(), control),
            final(self).by_index() == old(self).by_index().insert(index, control),
    {
        proof {
            use_type_invariant(&*self);
        }
        let ghost old_by_name = self.by_name();
        let ghost old_by_index = self.by_index();
        let name = control.name.clone();
        let mut current: EffectObject<V> = EffectObject::new("", 0);
        std::mem::swap(&mut current, self);
        let EffectObject {
            name: effect_name,
            index: effect_index,
            mut controls,
            controls_by_name: mut by_name,
            controls_by_index: mut by_index,
        } = current;
        let pos = controls.len();
        controls.push(control);
        by_name.insert(name, pos);
        by_index.insert(index, pos);
        *self = EffectObject {
            name: effect_name,
            index: effect_index,
            controls,
            controls_by_name: by_name,
            controls_by_index: by_index,
        };
        proof {
            assert forall|n: Seq<char>| #[trigger] old_by_name.contains_key(n) implies old_by_name[n]
                == self.controls@[self.controls_by_name@[n] as int] || n == control.spec_name() by {
            }
            assert(self.by_name() =~= old_by_name.insert(control.spec_name(), control));
            assert(self.by_index() =~= old_by_index.insert(index, control));
        }
    }

    /// The control last added under a name.
    pub fn control_by_name(&self, name: &str) -> (r: Option<&ControlValue<V>>)
        ensures
            match r {
                Some(c) => self.by_name().contains_key(name@) && *c == self.by_name()[name@],
                None => !self.by_name().contains_key(name@),
            },
    {
        proof {
            use_type_invariant(self);
        }
        match self.controls_by_name.get(name) {
            Some(pos) => Some(&self.controls[*pos]),
            None => None,
        }
    }

    /// The control last added at an index.
    pub fn control_by_index(&self, index: u32) -> (r: Option<&ControlValue<V>>)
        ensures
            match r {
                Some(c) => self.by_index().contains_key(index) && *c == self.by_index()[index],
                None => !self.by_index().contains_key(index),
            },
    {
        proof {
            use_type_invariant(self);
        }
        match self.controls_by_index.get(&index) {
            Some(pos) => Some(&self.controls[*pos]),
            None => None,
        }
    }

    /// The effect's name.
    pub fn name(&self) -> (r: &str)
        ensures
            r@ == self.spec_name(),
    {
        self.name.as_str()
    }

    /// The effect's index.
    pub fn index(&self) -> (r: u32)
        ensures
            r == self.spec_index(),
    {
        self.index
    }

    /// The number of distinct control names.
    pub fn num_controls(&self) -> (r: usize)
        ensures
            r == self.by_name().len(),
    {
        let r = self.controls_by_name.len();
        assert(self.by_name().dom() =~= self.controls_by_name@.dom());
        r
    }
}

/// The seed a wiggle generator derives from a string: the low 32 bits of the
/// string's hash under `DefaultHasher`, which hashes a `str` as its bytes
/// followed by the byte 0xFF.
pub open spec fn spec_wiggle_seed(s: &str) -> u32 {
    (DefaultHasher::spec_finish(seq![s.spec_bytes(), seq![0xffu8]]) & 0xFFFF_FFFFu64) as u32
}

/// Derives a wiggle seed from a string (for dimension-specific noise).
pub fn wiggle_seed_from_string(s: &str) -> (r: u32)
    ensures
        r == spec_wiggle_seed(s),
{
    let mut hasher = DefaultHasher::new();
    hasher.write(s.as_bytes());
    let terminator: Vec<u8> = vec![0xff];
    assert(terminator@ =~= seq![0xffu8]);
    hasher.write(terminator.as_slice());
    assert(hasher@ =~= seq![s.spec_bytes(), seq![0xffu8]]);
    let h = hasher.finish();
    let low: u64 = h & 0xFFFF_FFFF;
    assert(low <= 0xFFFF_FFFF) by (bit_vector)
        requires
            low == h & 0xFFFF_FFFF,
    ;
    low as u32
}

/// The seed of dimension `i` of a wiggled vector: the base seed plus `i`,
/// wrapping around.
pub fn dimension_seed(seed: u32, i: usize) -> (r: u32)
    ensures
        r == ((seed as int + (i as u32) as int) % 0x1_0000_0000) as u32,
{
    let d: u32 = i as u32;
    seed.wrapping_add(d)
}

} // verus!
