//! Materials: a shader program, a set of named properties, and the texture
//! units that the textures among them hold.

use vstd::prelude::*;
use crate::names::{map_of, NameMap};
use crate::renderer::device::DeviceCommand;
use crate::renderer::shader::{cached, ShaderProgram, UniformNotFound, UniformValue};
use crate::renderer::texture::{
    bindings, binds, holds, lemma_bindings, lemma_rebalanced, lemma_rebalanced_is_stable,
    rebalanced, well_formed, SlotsExhausted, TextureSlotAllocator, TEXTURE_UNITS,
};

verus! {

/// The value of a property. Singles are bit patterns; a texture is named
/// by its handle on the device.
#[derive(Clone, Copy, Debug, PartialEq, Eq)]
pub enum MaterialProperty {
    Boolean(bool),
    Integer(i32),
    UInteger(u32),
    Float(u32),
    Vec3([u32; 3]),
    Color(u32, u32, u32),
    Texture(u32),
}

/// The names and values of a set after a property has been set: a name
/// that is there keeps its place and takes the new value, a new name comes
/// last.
pub open spec fn with_entry(
    names: Seq<Seq<char>>,
    values: Seq<MaterialProperty>,
    name: Seq<char>,
    value: MaterialProperty,
) -> (Seq<Seq<char>>, Seq<MaterialProperty>) {
    if names.contains(name) {
        (names, values.update(names.index_of(name), value))
    } else {
        (names.push(name), values.push(value))
    }
}

/// The names and values of the set that a list of entries makes, each entry
/// set in its turn: of two entries of one name the later gives the value,
/// the earlier the place.
pub open spec fn collected(entries: Seq<(String, MaterialProperty)>) -> (
    Seq<Seq<char>>,
    Seq<MaterialProperty>,
)
    decreases entries.len(),
{
    if entries.len() == 0 {
        (Seq::empty(), Seq::empty())
    } else {
        let before = collected(entries.drop_last());
        with_entry(before.0, before.1, entries.last().0@, entries.last().1)
    }
}

/// A set of named properties.
pub struct PropertiesMap {
    map: NameMap<MaterialProperty>,
}

impl View for PropertiesMap {
    type V = Map<Seq<char>, MaterialProperty>;

    open spec fn view(&self) -> Map<Seq<char>, MaterialProperty> {
        map_of(self.names(), self.values())
    }
}

impl PropertiesMap {
    /// The names, in the order in which they were first set.
    pub closed spec fn names(&self) -> Seq<Seq<char>> {
        self.map.names()
    }

    /// The values, each at the index of its name.
    pub closed spec fn values(&self) -> Seq<MaterialProperty> {
        self.map.values()
    }

    /// No name occurs twice, and each name has its value.
    pub open spec fn well_formed(&self) -> bool {
        &&& self.names().no_duplicates()
        &&& self.names().len() == self.values().len()
    }

    /// What `set` does: the set holds the value under the name, and all
    /// else as before, order included.
    pub open spec fn set_in(&self, after: &PropertiesMap, name: Seq<char>, value: MaterialProperty)
        -> bool {
        &&& after@ == self@.insert(name, value)
        &&& (after.names(), after.values()) == with_entry(
            self.names(),
            self.values(),
            name,
            value,
        )
        &&& after.well_formed()
    }

    /// The empty set.
    pub fn new() -> (properties: PropertiesMap)
        ensures
            properties.names() == Seq::<Seq<char>>::empty(),
            properties.values() == Seq::<MaterialProperty>::empty(),
            properties@ == Map::<Seq<char>, MaterialProperty>::empty(),
    {
        PropertiesMap { map: NameMap::new() }
    }

    /// The number of properties.
    pub fn len(&self) -> (len: usize)
        ensures
            len == self.names().len(),
            self.well_formed(),
    {
        proof {
            use_type_invariant(&self.map);
        }
        self.map.len()
    }

    /// The value of a property, if the set has one of this name.
    pub fn get(&self, name: &str) -> (value: Option<MaterialProperty>)
        ensures
            value == if self@.contains_key(name@) {
                Some(self@[name@])
            } else {
                None
            },
    {
        match self.map.get(name) {
            Some(value) => Some(*value),
            None => None,
        }
    }

    /// Sets a property, whether or not the set has one of this name.
    pub fn set(&mut self, name: &str, value: MaterialProperty)
        ensures
            old(self).set_in(final(self), name@, value),
    {
        self.map.insert(name, value);
        proof {
            use_type_invariant(&self.map);
        }
    }

    pub fn set_boolean(&mut self, name: &str, value: bool)
        ensures
            old(self).set_in(final(self), name@, MaterialProperty::Boolean(value)),
    {
        self.set(name, MaterialProperty::Boolean(value));
    }

    pub fn set_integer(&mut self, name: &str, value: i32)
        ensures
            old(self).set_in(final(self), name@, MaterialProperty::Integer(value)),
    {
        self.set(name, MaterialProperty::Integer(value));
    }

    pub fn set_uinteger(&mut self, name: &str, value: u32)
        ensures
            old(self).set_in(final(self), name@, MaterialProperty::UInteger(value)),
    {
        self.set(name, MaterialProperty::UInteger(value));
    }

    pub fn set_float(&mut self, name: &str, value: u32)
        ensures
            old(self).set_in(final(self), name@, MaterialProperty::Float(value)),
    {
        self.set(name, MaterialProperty::Float(value));
    }

    pub fn set_vec3(&mut self, name: &str, value: [u32; 3])
        ensures
            old(self).set_in(final(self), name@, MaterialProperty::Vec3(value)),
    {
        self.set(name, MaterialProperty::Vec3(value));
    }

    pub fn set_color(&mut self, name: &str, r: u32, g: u32, b: u32)
        ensures
            old(self).set_in(final(self), name@, MaterialProperty::Color(r, g, b)),
    {
        self.set(name, MaterialProperty::Color(r, g, b));
    }

    pub fn set_texture(&mut self, name: &str, texture: u32)
        ensures
            old(self).set_in(final(self), name@, MaterialProperty::Texture(texture)),
    {
        self.set(name, MaterialProperty::Texture(texture));
    }

    /// Takes a property out of the set, if it is there. The others keep
    /// their order.
    pub fn delete(&mut self, name: &str)
        ensures
            final(self)@ == old(self)@.remove(name@),
            old(self).names().contains(name@) ==> {
                &&& final(self).names() == old(self).names().remove(
                    old(self).names().index_of(name@),
                )
                &&& final(self).values() == old(self).values().remove(
                    old(self).names().index_of(name@),
                )
            },
            !old(self).names().contains(name@) ==> {
                &&& final(self).names() == old(self).names()
                &&& final(self).values() == old(self).values()
            },
            final(self).well_formed(),
    {
        self.map.remove(name);
        proof {
            use_type_invariant(&self.map);
        }
    }
}

/// What `from` returns is stated by its own `ensures`, over names and
/// values: a set has no value in specifications that could be named here.
impl vstd::std_specs::convert::FromSpecImpl<Vec<(String, MaterialProperty)>> for PropertiesMap {
    open spec fn obeys_from_spec() -> bool {
        false
    }

    open spec fn from_spec(entries: Vec<(String, MaterialProperty)>) -> PropertiesMap {
        arbitrary()
    }
}

impl From<Vec<(String, MaterialProperty)>> for PropertiesMap {
    /// The set that a list of entries makes.
    fn from(entries: Vec<(String, MaterialProperty)>) -> (properties: PropertiesMap)
        ensures
            (properties.names(), properties.values()) == collected(entries@),
            properties.well_formed(),
    {
        let mut properties = PropertiesMap::new();
        let mut i: usize = 0;
        while i < entries.len()
            invariant
                i <= entries.len(),
                (properties.names(), properties.values()) == collected(entries@.take(i as int)),
                properties.well_formed(),
            decreases entries.len() - i,
        {
            proof {
                assert(entries@.take(i + 1).drop_last() =~= entries@.take(i as int));
            }
            properties.set(entries[i].0.as_str(), entries[i].1);
            i += 1;
        }
        assert(entries@.take(i as int) =~= entries@);
        properties
    }
}

impl Clone for PropertiesMap {
    fn clone(&self) -> (copy: PropertiesMap)
        ensures
            copy.names() == self.names(),
            copy.values() == self.values(),
            copy.well_formed(),
    {
        proof {
            use_type_invariant(&self.map);
        }
        PropertiesMap { map: self.map.duplicate() }
    }
}

impl Default for PropertiesMap {
    fn default() -> (properties: PropertiesMap)
        ensures
            properties.names() == Seq::<Seq<char>>::empty(),
            properties.values() == Seq::<MaterialProperty>::empty(),
    {
        PropertiesMap::new()
    }
}

/// The value of a name where one set of properties overrides another: that
/// of the overriding set where it has the name, else that of the base.
pub open spec fn resolved(
    base: Map<Seq<char>, MaterialProperty>,
    overrides: Map<Seq<char>, MaterialProperty>,
    name: Seq<char>,
) -> Option<MaterialProperty> {
    if overrides.contains_key(name) {
        Some(overrides[name])
    } else if base.contains_key(name) {
        Some(base[name])
    } else {
        None
    }
}

/// The test for an entry's name not being among `names`.
pub open spec fn is_new(names: Seq<Seq<char>>) -> spec_fn((Seq<char>, MaterialProperty)) -> bool {
    |entry: (Seq<char>, MaterialProperty)| !names.contains(entry.0)
}

impl PropertiesMap {
    /// The properties as pairs of name and value, in the order of the
    /// names.
    pub open spec fn entries(&self) -> Seq<(Seq<char>, MaterialProperty)> {
        Seq::new(self.names().len(), |i: int| (self.names()[i], self.values()[i]))
    }

    /// The properties of this set, each with the value that it has under
    /// the overrides.
    pub open spec fn shadowed(&self, overrides: &PropertiesMap) -> Seq<
        (Seq<char>, MaterialProperty),
    > {
        Seq::new(
            self.names().len(),
            |i: int|
                (
                    self.names()[i],
                    if overrides@.contains_key(self.names()[i]) {
                        overrides@[self.names()[i]]
                    } else {
                        self.values()[i]
                    },
                ),
        )
    }

    /// The properties of the overrides that this set does not have.
    pub open spec fn added(&self, overrides: &PropertiesMap) -> Seq<(Seq<char>, MaterialProperty)> {
        overrides.entries().filter(is_new(self.names()))
    }

    /// This set under the overrides, in the order in which the properties
    /// are visited: first those of this set, then those that only the
    /// overrides have.
    pub open spec fn composed(&self, overrides: &PropertiesMap) -> Seq<
        (Seq<char>, MaterialProperty),
    > {
        self.shadowed(overrides) + self.added(overrides)
    }

    /// The name of the property at an index.
    pub fn name_at(&self, i: usize) -> (name: &String)
        requires
            i < self.names().len(),
        ensures
            name@ == self.names()[i as int],
    {
        self.map.name_at(i)
    }

    /// The value of the property at an index.
    pub fn value_at(&self, i: usize) -> (value: MaterialProperty)
        requires
            i < self.names().len(),
        ensures
            value == self.values()[i as int],
    {
        proof {
            use_type_invariant(&self.map);
        }
        *self.map.value_at(i)
    }

    /// This set as the base under a set of overrides. Neither set changes,
    /// and nothing is copied.
    pub fn compose<'a>(&'a self, overrides: &'a PropertiesMap) -> (view: Composed<'a>)
        ensures
            view.base() == self,
            view.overrides() == overrides,
    {
        Composed { base: self, overrides }
    }
}

/// The names and values of a list of entries.
pub open spec fn entry_views(entries: Seq<(&String, MaterialProperty)>) -> Seq<
    (Seq<char>, MaterialProperty),
> {
    entries.map_values(|entry: (&String, MaterialProperty)| (entry.0@, entry.1))
}

/// A base set of properties read through a set of overrides.
pub struct Composed<'a> {
    base: &'a PropertiesMap,
    overrides: &'a PropertiesMap,
}

impl<'a> Composed<'a> {
    /// The base set.
    pub closed spec fn base(&self) -> &PropertiesMap {
        self.base
    }

    /// The overriding set.
    pub closed spec fn overrides(&self) -> &PropertiesMap {
        self.overrides
    }

    /// The value of a property: the override where there is one.
    pub fn get(&self, name: &str) -> (value: Option<MaterialProperty>)
        ensures
            value == resolved(self.base()@, self.overrides()@, name@),
    {
        match self.overrides.get(name) {
            Some(value) => Some(value),
            None => self.base.get(name),
        }
    }

    /// All properties, each name once with the value that it resolves to:
    /// first those of the base, in its order, then those that only the
    /// overrides have, in theirs.
    pub fn entries(&self) -> (entries: Vec<(&'a String, MaterialProperty)>)
        ensures
            entry_views(entries@) == self.base().composed(self.overrides()),
    {
        let base_len = self.base.len();
        let overrides_len = self.overrides.len();
        let mut entries: Vec<(&'a String, MaterialProperty)> = Vec::new();
        let mut i: usize = 0;
        while i < base_len
            invariant
                i <= base_len,
                base_len == self.base.names().len(),
                self.base.well_formed(),
                entry_views(entries@) == self.base.shadowed(self.overrides).take(i as int),
            decreases base_len - i,
        {
            let name = self.base.name_at(i);
            let value = match self.overrides.get(name.as_str()) {
                Some(value) => value,
                None => self.base.value_at(i),
            };
            let ghost before = entries@;
            entries.push((name, value));
            proof {
                assert(entry_views(entries@) =~= entry_views(before).push((name@, value)));
                assert(self.base.shadowed(self.overrides).take(i + 1) =~= self.base.shadowed(
                    self.overrides,
                ).take(i as int).push((name@, value)));
            }
            i += 1;
        }
        proof {
            assert(self.base.shadowed(self.overrides).take(i as int) =~= self.base.shadowed(
                self.overrides,
            ));
            assert(self.overrides.entries().take(0) =~= Seq::<
                (Seq<char>, MaterialProperty),
            >::empty());
            reveal(Seq::filter);
            assert(self.overrides.entries().take(0).filter(is_new(self.base.names())) =~= Seq::<
                (Seq<char>, MaterialProperty),
            >::empty());
        }
        let mut j: usize = 0;
        while j < overrides_len
            invariant
                j <= overrides_len,
                overrides_len == self.overrides.names().len(),
                self.overrides.well_formed(),
                entry_views(entries@) == self.base.shadowed(self.overrides)
                    + self.overrides.entries().take(j as int).filter(is_new(self.base.names())),
            decreases overrides_len - j,
        {
            let name = self.overrides.name_at(j);
            let value = self.overrides.value_at(j);
            proof {
                let seen = self.overrides.entries().take(j as int);
                assert(self.overrides.entries().take(j + 1) =~= seen.push((name@, value)));
                seen.lemma_filter_push((name@, value), is_new(self.base.names()));
            }
            if self.base.get(name.as_str()).is_none() {
                let ghost before = entries@;
                entries.push((name, value));
                proof {
                    assert(entry_views(entries@) =~= entry_views(before).push((name@, value)));
                    assert(!self.base.names().contains(name@));
                }
            } else {
                assert(self.base.names().contains(name@));
            }
            j += 1;
        }
        proof {
            assert(self.overrides.entries().take(j as int) =~= self.overrides.entries());
        }
        entries
    }
}

/// The names of a list of entries.
pub open spec fn names_of(entries: Seq<(Seq<char>, MaterialProperty)>) -> Seq<Seq<char>> {
    entries.map_values(|entry: (Seq<char>, MaterialProperty)| entry.0)
}

/// Entries with distinct names that pass a test are entries with distinct
/// names, each of them one of the first and passing the test, and none
/// that passes is left out.
proof fn lemma_filter_keeps_names_apart(
    entries: Seq<(Seq<char>, MaterialProperty)>,
    test: spec_fn((Seq<char>, MaterialProperty)) -> bool,
)
    requires
        names_of(entries).no_duplicates(),
    ensures
        names_of(entries.filter(test)).no_duplicates(),
        forall|i: int|
            0 <= i < entries.filter(test).len() ==> entries.contains(
                #[trigger] entries.filter(test)[i],
            ) && test(entries.filter(test)[i]),
        forall|i: int|
            0 <= i < entries.len() && test(#[trigger] entries[i]) ==> entries.filter(
                test,
            ).contains(entries[i]),
    decreases entries.len(),
{
    reveal(Seq::filter);
    if entries.len() > 0 {
        let front = entries.drop_last();
        let last = entries.last();
        assert forall|a: int, b: int|
            0 <= a < front.len() && 0 <= b < front.len() && a != b implies names_of(front)[a]
            != names_of(front)[b] by {
            assert(names_of(entries)[a] != names_of(entries)[b]);
        }
        lemma_filter_keeps_names_apart(front, test);
        let kept = front.filter(test);
        let all = entries.filter(test);
        assert forall|i: int| 0 <= i < kept.len() implies (#[trigger] kept[i]).0 != last.0 by {
            assert(front.contains(kept[i]));
            let k = front.index_of(kept[i]);
            assert(front[k] == kept[i]);
            assert(names_of(entries)[k] != names_of(entries)[entries.len() - 1]);
        }
        assert forall|i: int| 0 <= i < all.len() implies entries.contains(#[trigger] all[i])
            && test(all[i]) by {
            if i < kept.len() {
                assert(front.contains(kept[i]));
                let k = front.index_of(kept[i]);
                assert(entries[k] == kept[i]);
            } else {
                assert(entries[entries.len() - 1] == all[i]);
            }
        }
        assert forall|i: int| 0 <= i < entries.len() && test(#[trigger] entries[i]) implies all.contains(
            entries[i],
        ) by {
            if i < front.len() {
                assert(front[i] == entries[i]);
                assert(kept.contains(front[i]));
                let k = kept.index_of(front[i]);
                assert(all[k] == entries[i]);
            } else {
                assert(all[all.len() - 1] == entries[i]);
            }
        }
        assert forall|a: int, b: int|
            0 <= a < all.len() && 0 <= b < all.len() && a != b implies names_of(all)[a]
            != names_of(all)[b] by {
            if a < kept.len() && b < kept.len() {
                assert(names_of(kept)[a] != names_of(kept)[b]);
            }
        }
    }
}

/// A set of properties read through overrides visits every name of either
/// set exactly once, and each with the value that it resolves to: the
/// override where there is one. An override replaces the base entry of its
/// name and never stands beside it.
pub proof fn lemma_composed_visits_each_name_once(base: &PropertiesMap, overrides: &PropertiesMap)
    requires
        base.well_formed(),
        overrides.well_formed(),
    ensures
        names_of(base.composed(overrides)).no_duplicates(),
        forall|name: Seq<char>|
            names_of(base.composed(overrides)).contains(name) <==> base@.contains_key(name)
                || overrides@.contains_key(name),
        forall|i: int|
            0 <= i < base.composed(overrides).len() ==> resolved(
                base@,
                overrides@,
                (#[trigger] base.composed(overrides)[i]).0,
            ) == Some(base.composed(overrides)[i].1),
{
    let shadowed = base.shadowed(overrides);
    let added = base.added(overrides);
    let all = base.composed(overrides);
    let names = names_of(all);
    let given = overrides.entries();
    assert(names_of(given) =~= overrides.names());
    lemma_filter_keeps_names_apart(given, is_new(base.names()));
    assert forall|i: int| 0 <= i < added.len() implies {
        &&& !base.names().contains((#[trigger] added[i]).0)
        &&& overrides.names().contains(added[i].0)
        &&& overrides@[added[i].0] == added[i].1
    } by {
        assert(given.contains(added[i]));
        let k = given.index_of(added[i]);
        assert(given[k] == added[i]);
        assert(overrides.names()[k] == added[i].0);
        let k2 = overrides.names().index_of(added[i].0);
        assert(overrides.names()[k2] == added[i].0);
    }
    assert forall|a: int, b: int| 0 <= a < names.len() && 0 <= b < names.len() && a != b implies names[a]
        != names[b] by {
        let n = shadowed.len() as int;
        if a < n && b < n {
            assert(base.names()[a] != base.names()[b]);
        } else if a >= n && b >= n {
            assert(names_of(added)[a - n] != names_of(added)[b - n]);
        } else if a < n {
            assert(added[b - n].0 == names[b]);
            assert(base.names()[a] == names[a]);
        } else {
            assert(added[a - n].0 == names[a]);
            assert(base.names()[b] == names[b]);
        }
    }
    assert forall|name: Seq<char>|
        names.contains(name) <==> base@.contains_key(name) || overrides@.contains_key(name) by {
        let n = shadowed.len() as int;
        if names.contains(name) {
            let i = names.index_of(name);
            assert(names[i] == name);
            if i < n {
                assert(base.names()[i] == name);
            } else {
                assert(added[i - n].0 == name);
            }
        }
        if base.names().contains(name) {
            let i = base.names().index_of(name);
            assert(base.names()[i] == name);
            assert(names[i] == name);
        } else if overrides.names().contains(name) {
            let k = overrides.names().index_of(name);
            assert(overrides.names()[k] == name);
            assert(given[k].0 == name);
            assert(is_new(base.names())(given[k]));
            assert(added.contains(given[k]));
            let i = added.index_of(given[k]);
            assert(added[i] == given[k]);
            assert(names[n + i] == name);
        }
    }
    assert forall|i: int| 0 <= i < all.len() implies resolved(
        base@,
        overrides@,
        (#[trigger] all[i]).0,
    ) == Some(all[i].1) by {
        let n = shadowed.len() as int;
        if i < n {
            let name = base.names()[i];
            assert(base.names().contains(name));
            let k = base.names().index_of(name);
            assert(base.names()[k] == name);
        } else {
            assert(added[i - n] == all[i]);
        }
    }
}

/// Why a material could not be bound.
#[derive(Debug, PartialEq, Eq)]
pub enum ActivationError {
    /// A property has a name that the shader program does not declare.
    Uniform(UniformNotFound),
    /// The properties refer to more textures than there are texture units.
    Textures(SlotsExhausted),
}

impl ActivationError {
    /// The words in which the fault is reported.
    pub fn message(&self) -> (message: String)
        ensures
            message@ == match self {
                ActivationError::Uniform(e) => "Uniform '"@ + e.name@ + "' not found"@,
                ActivationError::Textures(_) => "Exceeded maximum number of textures"@,
            },
    {
        match self {
            ActivationError::Uniform(e) => e.message(),
            ActivationError::Textures(e) => e.message(),
        }
    }
}

/// The texture that an entry refers to, if its value is a texture.
pub open spec fn texture_of() -> spec_fn((Seq<char>, MaterialProperty)) -> Option<u32> {
    |entry: (Seq<char>, MaterialProperty)|
        match entry.1 {
            MaterialProperty::Texture(texture) => Some(texture),
            _ => None,
        }
}

/// The textures that a list of properties refers to, in the order of the
/// list.
pub open spec fn textures_of(entries: Seq<(Seq<char>, MaterialProperty)>) -> Seq<u32> {
    entries.filter_map(texture_of())
}

/// The uniform that a property sets. A boolean is the integer one or zero,
/// a colour the vector of its three components, and a texture the index of
/// the texture unit that it holds.
pub open spec fn uniform_of(value: MaterialProperty, slots: Seq<Option<u32>>) -> UniformValue {
    match value {
        MaterialProperty::Boolean(b) => UniformValue::Int(
            if b {
                1
            } else {
                0
            },
        ),
        MaterialProperty::Integer(i) => UniformValue::Int(i),
        MaterialProperty::UInteger(u) => UniformValue::UInt(u),
        MaterialProperty::Float(f) => UniformValue::Float(f),
        MaterialProperty::Vec3(v) => UniformValue::VecF3(v),
        MaterialProperty::Color(r, g, b) => UniformValue::VecF3([r, g, b]),
        MaterialProperty::Texture(texture) => UniformValue::Int(bindings(slots)[texture] as i32),
    }
}

/// Whether the program declares the name of every property of a list.
pub open spec fn all_declared(
    locations: Map<Seq<char>, i32>,
    entries: Seq<(Seq<char>, MaterialProperty)>,
) -> bool {
    forall|i: int| 0 <= i < entries.len() ==> locations.contains_key((#[trigger] entries[i]).0)
}

/// Whether `name` is the first name of a list of properties that the
/// program does not declare.
pub open spec fn first_undeclared(
    locations: Map<Seq<char>, i32>,
    entries: Seq<(Seq<char>, MaterialProperty)>,
    name: Seq<char>,
) -> bool {
    exists|i: int|
        {
            &&& 0 <= i < entries.len()
            &&& (#[trigger] entries[i]).0 == name
            &&& !locations.contains_key(name)
            &&& all_declared(locations, entries.take(i))
        }
}

/// The cache after the properties of a list have been set one after the
/// other, and the writes that this asks of the device: one for each
/// property whose uniform the cache did not hold when its turn came.
pub open spec fn committed(
    locations: Map<Seq<char>, i32>,
    cache: Map<Seq<char>, UniformValue>,
    entries: Seq<(Seq<char>, MaterialProperty)>,
    slots: Seq<Option<u32>>,
) -> (Map<Seq<char>, UniformValue>, Seq<DeviceCommand>)
    decreases entries.len(),
{
    if entries.len() == 0 {
        (cache, Seq::empty())
    } else {
        let (before, writes) = committed(locations, cache, entries.drop_last(), slots);
        let name = entries.last().0;
        let value = uniform_of(entries.last().1, slots);
        (
            before.insert(name, value),
            if cached(before, name, value) {
                writes
            } else {
                writes.push(DeviceCommand::SetUniform { location: locations[name], value })
            },
        )
    }
}

/// A material: the shader program that draws it, its properties, and the
/// texture units that its textures hold.
pub struct Material {
    name: String,
    shader: u32,
    properties: PropertiesMap,
    texture_slots: TextureSlotAllocator,
}

impl Material {
    /// The name of the material.
    pub closed spec fn spec_name(&self) -> Seq<char> {
        self.name@
    }

    /// The handle of the shader program that draws the material.
    pub closed spec fn spec_shader(&self) -> u32 {
        self.shader
    }

    /// The properties of the material.
    pub closed spec fn spec_properties(&self) -> &PropertiesMap {
        &self.properties
    }

    /// The texture units, each with the texture that holds it.
    pub closed spec fn slots(&self) -> Seq<Option<u32>> {
        self.texture_slots.slots()
    }

    /// A material without properties, all of its texture units free.
    pub fn new(name: &str, shader: u32) -> (material: Material)
        ensures
            material.spec_name() == name@,
            material.spec_shader() == shader,
            material.spec_properties().names() == Seq::<Seq<char>>::empty(),
            material.spec_properties().values() == Seq::<MaterialProperty>::empty(),
            material.slots() == Seq::new(TEXTURE_UNITS as nat, |i: int| None::<u32>),
    {
        Material {
            name: name.to_owned(),
            shader,
            properties: PropertiesMap::new(),
            texture_slots: TextureSlotAllocator::new(TEXTURE_UNITS),
        }
    }

    /// A material with the given properties, all of its texture units free.
    pub fn new_with_properties(name: &str, shader: u32, properties: PropertiesMap) -> (material:
        Material)
        ensures
            material.spec_name() == name@,
            material.spec_shader() == shader,
            material.spec_properties() == properties,
            material.slots() == Seq::new(TEXTURE_UNITS as nat, |i: int| None::<u32>),
    {
        Material {
            name: name.to_owned(),
            shader,
            properties,
            texture_slots: TextureSlotAllocator::new(TEXTURE_UNITS),
        }
    }

    pub fn set_name(&mut self, name: &str)
        ensures
            final(self).spec_name() == name@,
            final(self).spec_shader() == old(self).spec_shader(),
            final(self).spec_properties() == old(self).spec_properties(),
            final(self).slots() == old(self).slots(),
    {
        self.name = name.to_owned();
    }

    pub fn name(&self) -> (name: &str)
        ensures
            name@ == self.spec_name(),
    {
        self.name.as_str()
    }

    pub fn shader(&self) -> (shader: u32)
        ensures
            shader == self.spec_shader(),
    {
        self.shader
    }

    #[verifier::when_used_as_spec(spec_properties)]
    pub fn properties(&self) -> (properties: &PropertiesMap)
        ensures
            properties == self.spec_properties(),
    {
        &self.properties
    }

    /// The properties, to be changed in place; nothing else changes.
    pub fn properties_mut(&mut self) -> (properties: &mut PropertiesMap)
        ensures
            *properties == *old(self).spec_properties(),
            *final(self).spec_properties() == *final(properties),
            final(self).spec_name() == old(self).spec_name(),
            final(self).spec_shader() == old(self).spec_shader(),
            final(self).slots() == old(self).slots(),
    {
        &mut self.properties
    }
}

/// A texture that an entry of a list refers to is among the textures of
/// the list.
proof fn lemma_textures_of_contains(entries: Seq<(Seq<char>, MaterialProperty)>, i: int)
    requires
        0 <= i < entries.len(),
        entries[i].1 is Texture,
    ensures
        textures_of(entries).contains(entries[i].1->Texture_0),
    decreases entries.len(),
{
    let front = entries.drop_last();
    let texture = entries[i].1->Texture_0;
    if i == entries.len() - 1 {
        let all = textures_of(entries);
        assert(all[all.len() - 1] == texture);
    } else {
        lemma_textures_of_contains(front, i);
        let k = textures_of(front).index_of(texture);
        assert(textures_of(front)[k] == texture);
        assert(textures_of(entries)[k] == texture);
    }
}

impl Material {
    /// What `use_material` leaves as it was, whatever comes of it: the
    /// material's name, program and properties, and what the shader program
    /// declares.
    pub open spec fn keeps(&self, after: &Material, shader: &ShaderProgram, shader_after: &ShaderProgram)
        -> bool {
        &&& after.spec_name() == self.spec_name()
        &&& after.spec_shader() == self.spec_shader()
        &&& after.spec_properties() == self.spec_properties()
        &&& shader_after.program() == shader.program()
        &&& shader_after.locations() == shader.locations()
    }

    /// Binds the material for a draw, with the overrides of the object
    /// drawn, and returns the commands to perform on the device, in order.
    /// The program handed in is the material's own: many materials may draw
    /// with one program, and then they share its cache.
    ///
    /// The properties are those of the material read through the overrides.
    /// Where the program does not declare the name of one of them, or where
    /// they refer to more textures than there are texture units, the fault
    /// is returned and nothing has changed. Else the texture units are
    /// shared out anew among the textures referred to, and the commands are:
    /// the use of the program; for each property in turn the write of its
    /// uniform, unless the program's cache held that value; and, cached or
    /// not, for every texture that holds a unit its binding to that unit.
    pub fn use_material(&mut self, shader: &mut ShaderProgram, overrides: &PropertiesMap) -> (result:
        Result<Vec<DeviceCommand>, ActivationError>)
        requires
            old(shader).program() == old(self).spec_shader(),
        ensures
            old(self).keeps(final(self), old(shader), final(shader)),
            well_formed(old(self).slots()),
            well_formed(final(self).slots()),
            final(self).slots().len() == old(self).slots().len(),
            ({
                let entries = old(self).spec_properties().composed(overrides);
                let locations = old(shader).locations();
                match result {
                    Ok(commands) => {
                        let outcome = committed(
                            locations,
                            old(shader).cache(),
                            entries,
                            final(self).slots(),
                        );
                        &&& all_declared(locations, entries)
                        &&& textures_of(entries).to_set().len() <= old(self).slots().len()
                        &&& rebalanced(old(self).slots(), textures_of(entries)) == Some(
                            final(self).slots(),
                        )
                        &&& final(shader).cache() == outcome.0
                        &&& commands@ == seq![
                            DeviceCommand::UseProgram { program: old(shader).program() },
                        ] + outcome.1 + binds(final(self).slots())
                    },
                    Err(ActivationError::Uniform(e)) => {
                        &&& first_undeclared(locations, entries, e.name@)
                        &&& final(self).slots() == old(self).slots()
                        &&& final(shader).cache() == old(shader).cache()
                    },
                    Err(ActivationError::Textures(e)) => {
                        &&& all_declared(locations, entries)
                        &&& textures_of(entries).to_set().len() > old(self).slots().len()
                        &&& rebalanced(old(self).slots(), textures_of(entries)) is None
                        &&& e.capacity == old(self).slots().len()
                        &&& final(self).slots() == old(self).slots()
                        &&& final(shader).cache() == old(shader).cache()
                    },
                }
            }),
    {
        proof {
            use_type_invariant(&self.texture_slots);
        }
        let entries = self.properties.compose(overrides).entries();
        let ghost views = entry_views(entries@);
        let ghost locations = shader.locations();
        let mut i: usize = 0;
        while i < entries.len()
            invariant
                i <= entries.len(),
                views == entry_views(entries@),
                views == old(self).spec_properties().composed(overrides),
                *self == *old(self),
                *shader == *old(shader),
                well_formed(old(self).slots()),
                locations == shader.locations(),
                all_declared(locations, views.take(i as int)),
            decreases entries.len() - i,
        {
            if !shader.contains_uniform(entries[i].0.as_str()) {
                let name = entries[i].0.clone();
                proof {
                    assert(views[i as int].0 == name@);
                }
                return Err(ActivationError::Uniform(UniformNotFound { name }));
            }
            proof {
                assert forall|j: int| 0 <= j < i + 1 implies locations.contains_key(
                    (#[trigger] views.take(i + 1)[j]).0,
                ) by {
                    if j < i {
                        assert(views.take(i as int)[j] == views.take(i + 1)[j]);
                    }
                }
            }
            i += 1;
        }
        assert(views.take(i as int) =~= views);
        let mut used: Vec<u32> = Vec::new();
        let mut k: usize = 0;
        while k < entries.len()
            invariant
                k <= entries.len(),
                views == entry_views(entries@),
                *self == *old(self),
                *shader == *old(shader),
                well_formed(old(self).slots()),
                used@ == textures_of(views.take(k as int)),
            decreases entries.len() - k,
        {
            proof {
                views.lemma_filter_map_take_succ(texture_of(), k as int);
            }
            match entries[k].1 {
                MaterialProperty::Texture(texture) => {
                    used.push(texture);
                    assert(used@ =~= textures_of(views.take(k + 1)));
                },
                _ => {},
            }
            k += 1;
        }
        assert(views.take(k as int) =~= views);
        proof {
            use_type_invariant(&self.texture_slots);
        }
        match self.texture_slots.update_texture_slots(&used) {
            Ok(()) => {},
            Err(e) => {
                return Err(ActivationError::Textures(e));
            },
        }
        proof {
            use_type_invariant(&self.texture_slots);
            lemma_rebalanced(old(self).slots(), used@);
            lemma_bindings(self.slots());
        }
        let ghost slots = self.slots();
        let ghost cache = shader.cache();
        let mut commands: Vec<DeviceCommand> = Vec::new();
        commands.push(shader.use_program());
        let mut n: usize = 0;
        while n < entries.len()
            invariant
                n <= entries.len(),
                views == entry_views(entries@),
                used@ == textures_of(views),
                slots == self.texture_slots.slots(),
                slots.len() <= u16::MAX,
                well_formed(old(self).slots()),
                well_formed(slots),
                old(self).keeps(self, old(shader), shader),
                rebalanced(old(self).slots(), textures_of(views)) == Some(slots),
                views == old(self).spec_properties().composed(overrides),
                cache == old(shader).cache(),
                forall|texture: u32| holds(slots, texture) <==> used@.contains(texture),
                forall|i: int|
                    0 <= i < slots.len() && (#[trigger] slots[i]) is Some ==> bindings(
                        slots,
                    )[slots[i]->0] == i,
                all_declared(locations, views),
                shader.locations() == locations,
                shader.program() == old(shader).program(),
                shader.cache() == committed(locations, cache, views.take(n as int), slots).0,
                commands@ == seq![DeviceCommand::UseProgram { program: old(shader).program() }]
                    + committed(locations, cache, views.take(n as int), slots).1,
            decreases entries.len() - n,
        {
            let name = entries[n].0;
            let value = match entries[n].1 {
                MaterialProperty::Boolean(b) => UniformValue::Int(
                    if b {
                        1
                    } else {
                        0
                    },
                ),
                MaterialProperty::Integer(i) => UniformValue::Int(i),
                MaterialProperty::UInteger(u) => UniformValue::UInt(u),
                MaterialProperty::Float(f) => UniformValue::Float(f),
                MaterialProperty::Vec3(v) => UniformValue::VecF3(v),
                MaterialProperty::Color(r, g, b) => UniformValue::VecF3([r, g, b]),
                MaterialProperty::Texture(texture) => {
                    proof {
                        lemma_textures_of_contains(views, n as int);
                    }
                    match self.texture_slots.slot_of(texture) {
                        Some(slot) => UniformValue::Int(slot as i32),
                        // Not reached: every texture referred to holds a unit.
                        None => UniformValue::Int(0),
                    }
                },
            };
            proof {
                assert(views[n as int] == (name@, entries[n as int].1));
                assert(value == uniform_of(views[n as int].1, slots));
                assert(views.take(n + 1).drop_last() =~= views.take(n as int));
                assert(views.take(n + 1).last() == views[n as int]);
                assert(locations.contains_key(views[n as int].0));
            }
            match shader.set_uniform(name.as_str(), value) {
                Ok(Some(command)) => {
                    let ghost before = commands@;
                    commands.push(command);
                    assert(commands@ =~= seq![
                        DeviceCommand::UseProgram { program: old(shader).program() },
                    ] + committed(locations, cache, views.take(n + 1), slots).1);
                },
                Ok(None) => {},
                // Not reached: every name was found declared above.
                Err(e) => {
                    return Err(ActivationError::Uniform(e));
                },
            }
            n += 1;
        }
        assert(views.take(n as int) =~= views);
        let mut bound = self.texture_slots.bind_commands();
        commands.append(&mut bound);
        Ok(commands)
    }
}

impl Material {
    /// A material of another name with the same program and the same
    /// texture units, whose properties are those of this one read through
    /// the overrides.
    pub fn clone_with_overrides(&self, new_name: &str, overrides: &PropertiesMap) -> (material:
        Material)
        ensures
            material.spec_name() == new_name@,
            material.spec_shader() == self.spec_shader(),
            material.spec_properties().entries() == self.spec_properties().composed(overrides),
            material.slots() == self.slots(),
    {
        let entries = self.properties.compose(overrides).entries();
        let ghost views = entry_views(entries@);
        proof {
            use_type_invariant(&self.properties.map);
            use_type_invariant(&overrides.map);
            lemma_composed_visits_each_name_once(&self.properties, overrides);
        }
        let mut properties = PropertiesMap::new();
        let mut i: usize = 0;
        while i < entries.len()
            invariant
                i <= entries.len(),
                views == entry_views(entries@),
                names_of(views).no_duplicates(),
                properties.entries() == views.take(i as int),
            decreases entries.len() - i,
        {
            let ghost before = properties.entries();
            proof {
                use_type_invariant(&properties.map);
                assert(before.len() == i);
                assert(views[i as int] == (entries[i as int].0@, entries[i as int].1));
                if properties.names().contains(views[i as int].0) {
                    let k = properties.names().index_of(views[i as int].0);
                    assert(properties.names()[k] == views[i as int].0);
                    assert(before[k] == views.take(i as int)[k]);
                    assert(before[k].0 == views[i as int].0);
                    assert(names_of(views)[k] == views[k].0);
                    assert(names_of(views)[i as int] == views[i as int].0);
                    assert(false);
                }
            }
            properties.set(entries[i].0.as_str(), entries[i].1);
            proof {
                use_type_invariant(&properties.map);
                let after = properties.entries();
                assert(after.len() == i + 1);
                assert forall|j: int| 0 <= j < i + 1 implies after[j] == views.take(i + 1)[j] by {
                    if j < i {
                        assert(before[j] == views.take(i as int)[j]);
                    }
                }
                assert(after =~= views.take(i + 1));
            }
            i += 1;
        }
        assert(views.take(i as int) =~= views);
        Material {
            name: new_name.to_owned(),
            shader: self.shader,
            properties,
            texture_slots: self.texture_slots.clone(),
        }
    }
}

impl Clone for Material {
    fn clone(&self) -> (copy: Material)
        ensures
            copy.spec_name() == self.spec_name(),
            copy.spec_shader() == self.spec_shader(),
            copy.spec_properties().names() == self.spec_properties().names(),
            copy.spec_properties().values() == self.spec_properties().values(),
            copy.slots() == self.slots(),
    {
        Material {
            name: self.name.clone(),
            shader: self.shader,
            properties: self.properties.clone(),
            texture_slots: self.texture_slots.clone(),
        }
    }
}

/// Whether the cache holds, for every property of a list, the value of its
/// uniform.
pub open spec fn all_cached(
    cache: Map<Seq<char>, UniformValue>,
    entries: Seq<(Seq<char>, MaterialProperty)>,
    slots: Seq<Option<u32>>,
) -> bool {
    forall|i: int|
        0 <= i < entries.len() ==> cached(
            cache,
            (#[trigger] entries[i]).0,
            uniform_of(entries[i].1, slots),
        )
}

/// Properties whose uniforms the cache holds ask for no write and leave the
/// cache as it is.
pub proof fn lemma_cached_properties_write_nothing(
    locations: Map<Seq<char>, i32>,
    cache: Map<Seq<char>, UniformValue>,
    entries: Seq<(Seq<char>, MaterialProperty)>,
    slots: Seq<Option<u32>>,
)
    requires
        all_cached(cache, entries, slots),
    ensures
        committed(locations, cache, entries, slots) == (cache, Seq::<DeviceCommand>::empty()),
    decreases entries.len(),
{
    if entries.len() > 0 {
        let front = entries.drop_last();
        assert forall|i: int| 0 <= i < front.len() implies cached(
            cache,
            (#[trigger] front[i]).0,
            uniform_of(front[i].1, slots),
        ) by {
            assert(front[i] == entries[i]);
        }
        lemma_cached_properties_write_nothing(locations, cache, front, slots);
        let last = entries[entries.len() - 1];
        assert(cached(cache, last.0, uniform_of(last.1, slots)));
        assert(cache.insert(last.0, uniform_of(last.1, slots)) =~= cache);
    }
}

/// Once properties of distinct names have been set, the cache holds the
/// uniform of every one of them.
pub proof fn lemma_committed_properties_are_cached(
    locations: Map<Seq<char>, i32>,
    cache: Map<Seq<char>, UniformValue>,
    entries: Seq<(Seq<char>, MaterialProperty)>,
    slots: Seq<Option<u32>>,
)
    requires
        names_of(entries).no_duplicates(),
    ensures
        all_cached(committed(locations, cache, entries, slots).0, entries, slots),
    decreases entries.len(),
{
    if entries.len() > 0 {
        let front = entries.drop_last();
        let last = entries[entries.len() - 1];
        assert forall|a: int, b: int|
            0 <= a < front.len() && 0 <= b < front.len() && a != b implies names_of(front)[a]
            != names_of(front)[b] by {
            assert(names_of(entries)[a] != names_of(entries)[b]);
        }
        lemma_committed_properties_are_cached(locations, cache, front, slots);
        let before = committed(locations, cache, front, slots).0;
        let after = committed(locations, cache, entries, slots).0;
        assert(after == before.insert(last.0, uniform_of(last.1, slots)));
        assert forall|i: int| 0 <= i < entries.len() implies cached(
            after,
            (#[trigger] entries[i]).0,
            uniform_of(entries[i].1, slots),
        ) by {
            if i < front.len() {
                assert(front[i] == entries[i]);
                assert(names_of(entries)[i] != names_of(entries)[entries.len() - 1]);
            }
        }
    }
}

/// A material that is bound a second time, with the same overrides and
/// nothing set in between, asks for no write at all: every uniform is
/// cached. Its textures keep their units and are bound again all the same,
/// for the bindings do not go by the cache.
pub proof fn lemma_second_activation_only_binds(
    locations: Map<Seq<char>, i32>,
    cache: Map<Seq<char>, UniformValue>,
    slots: Seq<Option<u32>>,
    base: &PropertiesMap,
    overrides: &PropertiesMap,
)
    requires
        base.well_formed(),
        overrides.well_formed(),
        well_formed(slots),
        rebalanced(slots, textures_of(base.composed(overrides))) is Some,
    ensures
        ({
            let entries = base.composed(overrides);
            let bound = rebalanced(slots, textures_of(entries))->0;
            let first = committed(locations, cache, entries, bound);
            &&& rebalanced(bound, textures_of(entries)) == Some(bound)
            &&& committed(locations, first.0, entries, bound) == (
                first.0,
                Seq::<DeviceCommand>::empty(),
            )
        }),
{
    let entries = base.composed(overrides);
    let bound = rebalanced(slots, textures_of(entries))->0;
    lemma_rebalanced(slots, textures_of(entries));
    lemma_rebalanced_is_stable(bound, textures_of(entries));
    lemma_composed_visits_each_name_once(base, overrides);
    lemma_committed_properties_are_cached(locations, cache, entries, bound);
    lemma_cached_properties_write_nothing(
        locations,
        committed(locations, cache, entries, bound).0,
        entries,
        bound,
    );
}

} // verus!
