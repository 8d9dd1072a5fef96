//! Shader programs as the binding layer sees them: the locations of the
//! uniforms that a program declares, and the value last written to each.

use vstd::prelude::*;
use vstd::std_specs::cmp::PartialEqSpecImpl;
use crate::names::NameMap;
use crate::renderer::device::DeviceCommand;

verus! {

/// The value of a uniform. Singles are bit patterns; matrices are in
/// column-major order.
#[derive(Clone, Copy, Debug)]
pub enum UniformValue {
    Int(i32),
    UInt(u32),
    Float(u32),
    VecF3([u32; 3]),
    VecF4([u32; 4]),
    Mat3([u32; 9]),
    Mat4([u32; 16]),
}

fn same_words<const N: usize>(a: &[u32; N], b: &[u32; N]) -> (same: bool)
    ensures
        same == (*a == *b),
{
    let mut i: usize = 0;
    while i < N
        invariant
            i <= N,
            forall|j: int| 0 <= j < i ==> a[j] == b[j],
        decreases N - i,
    {
        if a[i] != b[i] {
            return false;
        }
        i += 1;
    }
    assert(*a =~= *b);
    true
}

impl PartialEq for UniformValue {
    /// Two values are equal where they are of one variant and hold the same
    /// bits.
    fn eq(&self, other: &UniformValue) -> (equal: bool) {
        match (self, other) {
            (UniformValue::Int(a), UniformValue::Int(b)) => *a == *b,
            (UniformValue::UInt(a), UniformValue::UInt(b)) => *a == *b,
            (UniformValue::Float(a), UniformValue::Float(b)) => *a == *b,
            (UniformValue::VecF3(a), UniformValue::VecF3(b)) => same_words(a, b),
            (UniformValue::VecF4(a), UniformValue::VecF4(b)) => same_words(a, b),
            (UniformValue::Mat3(a), UniformValue::Mat3(b)) => same_words(a, b),
            (UniformValue::Mat4(a), UniformValue::Mat4(b)) => same_words(a, b),
            _ => false,
        }
    }
}

impl PartialEqSpecImpl for UniformValue {
    open spec fn obeys_eq_spec() -> bool {
        true
    }

    open spec fn eq_spec(&self, other: &UniformValue) -> bool {
        *self == *other
    }
}

impl Eq for UniformValue {

}

/// A name that the program does not declare: the properties and the shader
/// source disagree.
#[derive(Debug, PartialEq, Eq)]
pub struct UniformNotFound {
    pub name: String,
}

impl UniformNotFound {
    /// The words in which the fault is reported.
    pub fn message(&self) -> (message: String)
        ensures
            message@ == "Uniform '"@ + self.name@ + "' not found"@,
    {
        String::from_str("Uniform '").concat(self.name.as_str()).concat("' not found")
    }
}

/// The location of each uniform that a linked program declares.
pub struct UniformLocationTable {
    locations: NameMap<i32>,
}

impl View for UniformLocationTable {
    type V = Map<Seq<char>, i32>;

    closed spec fn view(&self) -> Map<Seq<char>, i32> {
        self.locations.as_map()
    }
}

/// The table after the uniforms of a list have been declared, a later
/// entry of a name replacing an earlier one.
pub open spec fn declared(table: Map<Seq<char>, i32>, active: Seq<(String, i32)>) -> Map<
    Seq<char>,
    i32,
>
    decreases active.len(),
{
    if active.len() == 0 {
        table
    } else {
        declared(table, active.drop_last()).insert(active.last().0@, active.last().1)
    }
}

impl UniformLocationTable {
    /// A table without uniforms.
    pub fn new() -> (table: UniformLocationTable)
        ensures
            table@ == Map::<Seq<char>, i32>::empty(),
    {
        UniformLocationTable { locations: NameMap::new() }
    }

    /// Records the location of one uniform.
    pub fn declare(&mut self, name: &str, location: i32)
        ensures
            final(self)@ == old(self)@.insert(name@, location),
    {
        self.locations.insert(name, location);
    }

    /// Records every uniform of a list, as a program reports them once it
    /// has linked.
    pub fn declare_all(&mut self, active: &Vec<(String, i32)>)
        ensures
            final(self)@ == declared(old(self)@, active@),
    {
        let mut i: usize = 0;
        while i < active.len()
            invariant
                i <= active.len(),
                self@ == declared(old(self)@, active@.take(i as int)),
            decreases active.len() - i,
        {
            proof {
                assert(active@.take(i + 1).drop_last() =~= active@.take(i as int));
            }
            self.locations.insert(active[i].0.as_str(), active[i].1);
            i += 1;
        }
        assert(active@.take(i as int) =~= active@);
    }

    /// Whether the program declares a uniform of this name.
    pub fn contains(&self, name: &str) -> (found: bool)
        ensures
            found == self@.contains_key(name@),
    {
        self.locations.contains(name)
    }

    /// The location of a uniform, or the fault that the program declares
    /// none of this name.
    pub fn resolve(&self, name: &str) -> (location: Result<i32, UniformNotFound>)
        ensures
            match location {
                Ok(l) => self@.contains_key(name@) && l == self@[name@],
                Err(e) => !self@.contains_key(name@) && e.name@ == name@,
            },
    {
        match self.locations.get(name) {
            Some(location) => Ok(*location),
            None => Err(UniformNotFound { name: name.to_owned() }),
        }
    }
}

/// Whether the cache holds this value for this name.
pub open spec fn cached(cache: Map<Seq<char>, UniformValue>, name: Seq<char>, value: UniformValue)
    -> bool {
    cache.contains_key(name) && cache[name] == value
}

/// The value last written to each uniform of one program.
pub struct UniformValueCache {
    values: NameMap<UniformValue>,
}

impl View for UniformValueCache {
    type V = Map<Seq<char>, UniformValue>;

    closed spec fn view(&self) -> Map<Seq<char>, UniformValue> {
        self.values.as_map()
    }
}

impl UniformValueCache {
    /// A cache that holds nothing: every first write goes through.
    pub fn new() -> (cache: UniformValueCache)
        ensures
            cache@ == Map::<Seq<char>, UniformValue>::empty(),
    {
        UniformValueCache { values: NameMap::new() }
    }

    /// The value last written to a uniform, if any was.
    pub fn get(&self, name: &str) -> (value: Option<UniformValue>)
        ensures
            match value {
                Some(v) => self@.contains_key(name@) && v == self@[name@],
                None => !self@.contains_key(name@),
            },
    {
        match self.values.get(name) {
            Some(value) => Some(*value),
            None => None,
        }
    }

    /// Notes that a uniform is to have a value, and says whether the value
    /// has to be written to the device: it has not where it is the value
    /// last written, bit for bit, and then nothing changes. Otherwise the
    /// cache holds the new value when the call returns, before anything is
    /// written.
    pub fn set(&mut self, name: &str, value: UniformValue) -> (write: bool)
        ensures
            write == !cached(old(self)@, name@, value),
            final(self)@ == old(self)@.insert(name@, value),
            !write ==> final(self)@ == old(self)@,
    {
        match self.values.get(name) {
            Some(held) => {
                if *held == value {
                    assert(self@ =~= self@.insert(name@, value));
                    return false;
                }
            },
            None => {},
        }
        self.values.insert(name, value);
        true
    }
}

/// A call of `set` that follows one with the same name and the same value
/// never asks for a write, and changes nothing: of the two, only the first
/// can reach the device.
pub proof fn lemma_set_twice_writes_once(
    cache: Map<Seq<char>, UniformValue>,
    name: Seq<char>,
    value: UniformValue,
)
    ensures
        cached(cache.insert(name, value), name, value),
        cache.insert(name, value).insert(name, value) == cache.insert(name, value),
{
    assert(cache.insert(name, value).insert(name, value) =~= cache.insert(name, value));
}

/// A linked shader program: its handle on the device, the locations of its
/// uniforms, and the value last written to each.
pub struct ShaderProgram {
    id: u32,
    uniforms: UniformLocationTable,
    uniform_cache: UniformValueCache,
}

impl ShaderProgram {
    /// The handle of the program.
    pub closed spec fn program(&self) -> u32 {
        self.id
    }

    /// The location of each uniform that the program declares.
    pub closed spec fn locations(&self) -> Map<Seq<char>, i32> {
        self.uniforms@
    }

    /// The value last written to each uniform.
    pub closed spec fn cache(&self) -> Map<Seq<char>, UniformValue> {
        self.uniform_cache@
    }

    /// What setting a uniform does and returns. The program must declare
    /// the name: else the fault is returned and nothing changes. A value
    /// that the cache holds for the name is not written again; any other is
    /// noted in the cache and handed back as the write to perform.
    pub open spec fn sets(
        &self,
        after: &ShaderProgram,
        name: Seq<char>,
        value: UniformValue,
        outcome: Result<Option<DeviceCommand>, UniformNotFound>,
    ) -> bool {
        &&& after.program() == self.program()
        &&& after.locations() == self.locations()
        &&& match outcome {
            Ok(command) => {
                &&& self.locations().contains_key(name)
                &&& after.cache() == self.cache().insert(name, value)
                &&& command == if cached(self.cache(), name, value) {
                    None
                } else {
                    Some(DeviceCommand::SetUniform { location: self.locations()[name], value })
                }
            },
            Err(e) => {
                &&& !self.locations().contains_key(name)
                &&& e.name@ == name
                &&& after.cache() == self.cache()
            },
        }
    }

    /// A program that declares no uniform yet and has written none.
    pub fn new(id: u32) -> (program: ShaderProgram)
        ensures
            program.program() == id,
            program.locations() == Map::<Seq<char>, i32>::empty(),
            program.cache() == Map::<Seq<char>, UniformValue>::empty(),
    {
        ShaderProgram {
            id,
            uniforms: UniformLocationTable::new(),
            uniform_cache: UniformValueCache::new(),
        }
    }

    pub fn id(&self) -> (id: u32)
        ensures
            id == self.program(),
    {
        self.id
    }

    /// The command that makes this program the current one.
    pub fn use_program(&self) -> (command: DeviceCommand)
        ensures
            command == (DeviceCommand::UseProgram { program: self.program() }),
    {
        DeviceCommand::UseProgram { program: self.id }
    }

    /// Records the uniforms that the program reports once it has linked:
    /// each name with its location.
    pub fn populate_uniform_indices(&mut self, active: &Vec<(String, i32)>)
        ensures
            final(self).locations() == declared(old(self).locations(), active@),
            final(self).program() == old(self).program(),
            final(self).cache() == old(self).cache(),
    {
        self.uniforms.declare_all(active);
    }

    /// Whether the program declares a uniform of this name.
    pub fn contains_uniform(&self, name: &str) -> (found: bool)
        ensures
            found == self.locations().contains_key(name@),
    {
        self.uniforms.contains(name)
    }

    /// The location of a uniform, or the fault that the program declares
    /// none of this name.
    pub fn get_uniform_location(&self, name: &str) -> (location: Result<i32, UniformNotFound>)
        ensures
            match location {
                Ok(l) => self.locations().contains_key(name@) && l == self.locations()[name@],
                Err(e) => !self.locations().contains_key(name@) && e.name@ == name@,
            },
    {
        self.uniforms.resolve(name)
    }

    /// Sets a uniform, and hands back the write to perform on the device,
    /// if there is one.
    pub fn set_uniform(&mut self, name: &str, value: UniformValue) -> (outcome: Result<
        Option<DeviceCommand>,
        UniformNotFound,
    >)
        ensures
            old(self).sets(final(self), name@, value, outcome),
    {
        match self.uniforms.resolve(name) {
            Ok(location) => {
                if self.uniform_cache.set(name, value) {
                    Ok(Some(DeviceCommand::SetUniform { location, value }))
                } else {
                    Ok(None)
                }
            },
            Err(e) => Err(e),
        }
    }

    pub fn set_uniform_4f(&mut self, name: &str, x: u32, y: u32, z: u32, w: u32) -> (outcome:
        Result<Option<DeviceCommand>, UniformNotFound>)
        ensures
            old(self).sets(final(self), name@, UniformValue::VecF4([x, y, z, w]), outcome),
    {
        self.set_uniform(name, UniformValue::VecF4([x, y, z, w]))
    }

    pub fn set_uniform_1f(&mut self, name: &str, x: u32) -> (outcome: Result<
        Option<DeviceCommand>,
        UniformNotFound,
    >)
        ensures
            old(self).sets(final(self), name@, UniformValue::Float(x), outcome),
    {
        self.set_uniform(name, UniformValue::Float(x))
    }

    pub fn set_uniform_1i(&mut self, name: &str, x: i32) -> (outcome: Result<
        Option<DeviceCommand>,
        UniformNotFound,
    >)
        ensures
            old(self).sets(final(self), name@, UniformValue::Int(x), outcome),
    {
        self.set_uniform(name, UniformValue::Int(x))
    }

    pub fn set_uniform_1ui(&mut self, name: &str, x: u32) -> (outcome: Result<
        Option<DeviceCommand>,
        UniformNotFound,
    >)
        ensures
            old(self).sets(final(self), name@, UniformValue::UInt(x), outcome),
    {
        self.set_uniform(name, UniformValue::UInt(x))
    }

    pub fn set_uniform_mat4(&mut self, name: &str, mat: &[u32; 16]) -> (outcome: Result<
        Option<DeviceCommand>,
        UniformNotFound,
    >)
        ensures
            old(self).sets(final(self), name@, UniformValue::Mat4(*mat), outcome),
    {
        self.set_uniform(name, UniformValue::Mat4(*mat))
    }

    pub fn set_uniform_mat3(&mut self, name: &str, mat: &[u32; 9]) -> (outcome: Result<
        Option<DeviceCommand>,
        UniformNotFound,
    >)
        ensures
            old(self).sets(final(self), name@, UniformValue::Mat3(*mat), outcome),
    {
        self.set_uniform(name, UniformValue::Mat3(*mat))
    }

    pub fn set_uniform_3fv(&mut self, name: &str, x: &[u32; 3]) -> (outcome: Result<
        Option<DeviceCommand>,
        UniformNotFound,
    >)
        ensures
            old(self).sets(final(self), name@, UniformValue::VecF3(*x), outcome),
    {
        self.set_uniform(name, UniformValue::VecF3(*x))
    }

    pub fn set_uniform_3f(&mut self, name: &str, x: u32, y: u32, z: u32) -> (outcome: Result<
        Option<DeviceCommand>,
        UniformNotFound,
    >)
        ensures
            old(self).sets(final(self), name@, UniformValue::VecF3([x, y, z]), outcome),
    {
        self.set_uniform(name, UniformValue::VecF3([x, y, z]))
    }
}

} // verus!
