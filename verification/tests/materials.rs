use opengl_rust::names::NameMap;
use opengl_rust::renderer::device::DeviceCommand;
use opengl_rust::renderer::material::{
    ActivationError, Material, MaterialProperty, PropertiesMap,
};
use opengl_rust::renderer::shader::{
    ShaderProgram, UniformLocationTable, UniformNotFound, UniformValue, UniformValueCache,
};
use opengl_rust::renderer::texture::{SlotsExhausted, TextureSlotAllocator, TEXTURE_UNITS};

const TEXTURE_A: u32 = 41;
const TEXTURE_B: u32 = 42;

fn program(id: u32, names: &[&str]) -> ShaderProgram {
    let mut program = ShaderProgram::new(id);
    let active: Vec<(String, i32)> =
        names.iter().enumerate().map(|(i, n)| (n.to_string(), 10 + i as i32)).collect();
    program.populate_uniform_indices(&active);
    program
}

fn set_uniform(location: i32, value: UniformValue) -> DeviceCommand {
    DeviceCommand::SetUniform { location, value }
}

fn bind(unit: u32, texture: u32) -> DeviceCommand {
    DeviceCommand::BindTexture { unit, texture }
}

#[test]
fn name_map_keeps_first_place_and_last_value() {
    let mut map: NameMap<i32> = NameMap::new();
    assert_eq!(map.len(), 0);
    map.insert("a", 1);
    map.insert("b", 2);
    map.insert("a", 3);
    assert_eq!(map.len(), 2);
    assert_eq!(map.find("a"), Some(0));
    assert_eq!(map.find("b"), Some(1));
    assert_eq!(map.find("c"), None);
    assert_eq!(map.get("a"), Some(&3));
    assert_eq!(map.get("c"), None);
    assert!(map.contains("b"));
    assert_eq!(map.name_at(1), "b");
    assert_eq!(*map.value_at(1), 2);
    let copy = map.duplicate();
    map.remove("a");
    map.remove("zzz");
    assert_eq!(map.len(), 1);
    assert_eq!(map.find("b"), Some(0));
    assert!(!map.contains("a"));
    assert_eq!(copy.len(), 2);
    assert_eq!(copy.get("a"), Some(&3));
}

#[test]
fn properties_set_inserts_or_replaces() {
    let mut properties = PropertiesMap::new();
    assert_eq!(properties.len(), 0);
    properties.set("x", MaterialProperty::Integer(1));
    properties.set_boolean("flag", true);
    properties.set_integer("x", 2);
    assert_eq!(properties.len(), 2);
    assert_eq!(properties.get("x"), Some(MaterialProperty::Integer(2)));
    assert_eq!(properties.get("flag"), Some(MaterialProperty::Boolean(true)));
    assert_eq!(properties.get("missing"), None);
    assert_eq!(properties.name_at(0), "x");
    assert_eq!(properties.value_at(1), MaterialProperty::Boolean(true));
}

#[test]
fn properties_setters_tag_their_values() {
    let mut properties = PropertiesMap::default();
    properties.set_uinteger("u", 7);
    properties.set_float("f", 1.5f32.to_bits());
    properties.set_vec3("v", [1, 2, 3]);
    properties.set_color("c", 4, 5, 6);
    properties.set_texture("t", TEXTURE_A);
    assert_eq!(properties.get("u"), Some(MaterialProperty::UInteger(7)));
    assert_eq!(properties.get("f"), Some(MaterialProperty::Float(1.5f32.to_bits())));
    assert_eq!(properties.get("v"), Some(MaterialProperty::Vec3([1, 2, 3])));
    assert_eq!(properties.get("c"), Some(MaterialProperty::Color(4, 5, 6)));
    assert_eq!(properties.get("t"), Some(MaterialProperty::Texture(TEXTURE_A)));
    properties.delete("v");
    properties.delete("nothing");
    assert_eq!(properties.len(), 4);
    assert_eq!(properties.get("v"), None);
    assert_eq!(properties.name_at(2), "c");
}

#[test]
fn properties_from_entries_lets_the_later_entry_win() {
    let properties = PropertiesMap::from(vec![
        ("a".to_string(), MaterialProperty::Integer(1)),
        ("b".to_string(), MaterialProperty::Integer(2)),
        ("a".to_string(), MaterialProperty::Integer(3)),
    ]);
    assert_eq!(properties.len(), 2);
    assert_eq!(properties.name_at(0), "a");
    assert_eq!(properties.value_at(0), MaterialProperty::Integer(3));
    assert_eq!(properties.name_at(1), "b");
    let copy = properties.clone();
    assert_eq!(copy.len(), 2);
    assert_eq!(copy.get("a"), Some(MaterialProperty::Integer(3)));
}

#[test]
fn override_wins_where_present() {
    let mut base = PropertiesMap::new();
    base.set("x", MaterialProperty::Integer(1));
    let mut overrides = PropertiesMap::new();
    overrides.set("x", MaterialProperty::Integer(2));
    assert_eq!(base.compose(&overrides).get("x"), Some(MaterialProperty::Integer(2)));
    let nothing = PropertiesMap::new();
    assert_eq!(base.compose(&nothing).get("x"), Some(MaterialProperty::Integer(1)));
    assert_eq!(base.compose(&nothing).get("y"), None);
    assert_eq!(base.get("x"), Some(MaterialProperty::Integer(1)));
    assert_eq!(overrides.get("x"), Some(MaterialProperty::Integer(2)));
}

#[test]
fn composition_visits_every_name_once() {
    let mut base = PropertiesMap::new();
    base.set_integer("a", 1);
    base.set_integer("b", 2);
    base.set_integer("c", 3);
    let mut overrides = PropertiesMap::new();
    overrides.set_integer("d", 40);
    overrides.set_integer("b", 20);
    overrides.set_integer("e", 50);
    let view = base.compose(&overrides);
    let entries: Vec<(String, MaterialProperty)> =
        view.entries().into_iter().map(|(n, v)| (n.clone(), v)).collect();
    assert_eq!(
        entries,
        vec![
            ("a".to_string(), MaterialProperty::Integer(1)),
            ("b".to_string(), MaterialProperty::Integer(20)),
            ("c".to_string(), MaterialProperty::Integer(3)),
            ("d".to_string(), MaterialProperty::Integer(40)),
            ("e".to_string(), MaterialProperty::Integer(50)),
        ]
    );
    assert_eq!(base.len(), 3);
    assert_eq!(overrides.len(), 3);
    assert_eq!(base.get("b"), Some(MaterialProperty::Integer(2)));
}

#[test]
fn location_table_resolves_declared_names_only() {
    let mut table = UniformLocationTable::new();
    assert!(!table.contains("model"));
    table.declare("model", 3);
    table.declare_all(&vec![("view".to_string(), 4), ("model".to_string(), 5)]);
    assert!(table.contains("model"));
    assert_eq!(table.resolve("model"), Ok(5));
    assert_eq!(table.resolve("view"), Ok(4));
    let error = table.resolve("shininess").unwrap_err();
    assert_eq!(error, UniformNotFound { name: "shininess".to_string() });
    assert_eq!(error.message(), "Uniform 'shininess' not found");
}

#[test]
fn cache_suppresses_the_second_of_two_equal_writes() {
    let mut cache = UniformValueCache::new();
    assert_eq!(cache.get("x"), None);
    assert!(cache.set("x", UniformValue::Int(1)));
    assert!(!cache.set("x", UniformValue::Int(1)));
    assert_eq!(cache.get("x"), Some(UniformValue::Int(1)));
    assert!(cache.set("x", UniformValue::Int(2)));
    assert!(cache.set("x", UniformValue::Int(1)));
    assert!(cache.set("y", UniformValue::Int(1)));
    assert!(!cache.set("y", UniformValue::Int(1)));
}

#[test]
fn cache_compares_bit_for_bit() {
    let mut cache = UniformValueCache::new();
    assert!(cache.set("f", UniformValue::Float(0.0f32.to_bits())));
    assert!(cache.set("f", UniformValue::Float((-0.0f32).to_bits())));
    let nan = f32::NAN.to_bits();
    assert!(cache.set("f", UniformValue::Float(nan)));
    assert!(!cache.set("f", UniformValue::Float(nan)));
    assert!(cache.set("f", UniformValue::UInt(nan)));
    assert!(cache.set("v", UniformValue::VecF3([1, 2, 3])));
    assert!(!cache.set("v", UniformValue::VecF3([1, 2, 3])));
    assert!(cache.set("v", UniformValue::VecF3([1, 2, 4])));
    assert!(cache.set("v", UniformValue::VecF4([1, 2, 4, 0])));
    let mut matrix = [0u32; 16];
    assert!(cache.set("m", UniformValue::Mat4(matrix)));
    assert!(!cache.set("m", UniformValue::Mat4(matrix)));
    matrix[15] = 1;
    assert!(cache.set("m", UniformValue::Mat4(matrix)));
    assert!(cache.set("n", UniformValue::Mat3([0; 9])));
    assert!(!cache.set("n", UniformValue::Mat3([0; 9])));
}

#[test]
fn uniform_values_are_equal_by_variant_and_bits() {
    assert_eq!(UniformValue::Int(1), UniformValue::Int(1));
    assert_ne!(UniformValue::Int(1), UniformValue::UInt(1));
    assert_ne!(UniformValue::Float(1), UniformValue::UInt(1));
    assert_eq!(UniformValue::VecF4([1, 2, 3, 4]), UniformValue::VecF4([1, 2, 3, 4]));
    assert_ne!(UniformValue::VecF4([1, 2, 3, 4]), UniformValue::VecF4([1, 2, 3, 5]));
    assert_ne!(UniformValue::Mat3([7; 9]), UniformValue::Mat3([8; 9]));
}

#[test]
fn program_hands_back_the_write_once() {
    let mut shader = program(7, &["model", "shininess"]);
    assert_eq!(shader.id(), 7);
    assert_eq!(shader.use_program(), DeviceCommand::UseProgram { program: 7 });
    assert!(shader.contains_uniform("model"));
    assert!(!shader.contains_uniform("normal_matrix"));
    assert_eq!(shader.get_uniform_location("shininess"), Ok(11));
    assert_eq!(
        shader.set_uniform_1i("shininess", 32),
        Ok(Some(set_uniform(11, UniformValue::Int(32))))
    );
    assert_eq!(shader.set_uniform_1i("shininess", 32), Ok(None));
    assert_eq!(
        shader.set_uniform("shininess", UniformValue::Int(64)),
        Ok(Some(set_uniform(11, UniformValue::Int(64))))
    );
    let error = shader.set_uniform_1i("missing", 1).unwrap_err();
    assert_eq!(error.name, "missing");
    assert_eq!(shader.get_uniform_location("missing").unwrap_err().name, "missing");
}

#[test]
fn typed_setters_wrap_their_arguments() {
    let mut shader = program(1, &["u"]);
    let one = 1.0f32.to_bits();
    assert_eq!(
        shader.set_uniform_4f("u", 1, 2, 3, 4),
        Ok(Some(set_uniform(10, UniformValue::VecF4([1, 2, 3, 4]))))
    );
    assert_eq!(shader.set_uniform_1f("u", one), Ok(Some(set_uniform(10, UniformValue::Float(one)))));
    assert_eq!(shader.set_uniform_1ui("u", 9), Ok(Some(set_uniform(10, UniformValue::UInt(9)))));
    assert_eq!(
        shader.set_uniform_3fv("u", &[1, 2, 3]),
        Ok(Some(set_uniform(10, UniformValue::VecF3([1, 2, 3]))))
    );
    assert_eq!(shader.set_uniform_3f("u", 1, 2, 3), Ok(None));
    assert_eq!(
        shader.set_uniform_mat4("u", &[5; 16]),
        Ok(Some(set_uniform(10, UniformValue::Mat4([5; 16]))))
    );
    assert_eq!(shader.set_uniform_mat4("u", &[5; 16]), Ok(None));
    assert_eq!(
        shader.set_uniform_mat3("u", &[6; 9]),
        Ok(Some(set_uniform(10, UniformValue::Mat3([6; 9]))))
    );
}

#[test]
fn allocator_gives_the_lowest_free_slot() {
    let mut allocator = TextureSlotAllocator::new(4);
    assert_eq!(allocator.capacity(), 4);
    assert_eq!(allocator.slot_of(TEXTURE_A), None);
    assert_eq!(allocator.update_texture_slots(&vec![TEXTURE_A, TEXTURE_B, TEXTURE_A]), Ok(()));
    assert_eq!(allocator.slot_of(TEXTURE_A), Some(0));
    assert_eq!(allocator.slot_of(TEXTURE_B), Some(1));
    assert_eq!(allocator.texture_at(0), Some(TEXTURE_A));
    assert_eq!(allocator.texture_at(2), None);
    assert_eq!(allocator.texture_at(9), None);
    assert_eq!(allocator.bind_commands(), vec![bind(0, TEXTURE_A), bind(1, TEXTURE_B)]);
    assert_eq!(allocator.update_texture_slots(&vec![TEXTURE_B, 50]), Ok(()));
    assert_eq!(allocator.slot_of(TEXTURE_A), None);
    assert_eq!(allocator.slot_of(TEXTURE_B), Some(1));
    assert_eq!(allocator.slot_of(50), Some(0));
    let copy = allocator.clone();
    assert_eq!(copy.bind_commands(), vec![bind(0, 50), bind(1, TEXTURE_B)]);
}

#[test]
fn freed_slot_is_reused() {
    let mut allocator = TextureSlotAllocator::new(TEXTURE_UNITS);
    let all: Vec<u32> = (100..116).collect();
    assert_eq!(allocator.update_texture_slots(&all), Ok(()));
    assert_eq!(allocator.slot_of(103), Some(3));
    let without: Vec<u32> = all.iter().copied().filter(|t| *t != 103).collect();
    assert_eq!(allocator.update_texture_slots(&without), Ok(()));
    assert_eq!(allocator.slot_of(103), None);
    assert_eq!(allocator.texture_at(3), None);
    let mut with_new = without.clone();
    with_new.push(999);
    assert_eq!(allocator.update_texture_slots(&with_new), Ok(()));
    assert_eq!(allocator.slot_of(999), Some(3));
    for texture in without {
        assert_eq!(allocator.slot_of(texture), Some(texture - 100));
    }
}

#[test]
fn freed_slot_is_reused_within_one_pass() {
    let mut allocator = TextureSlotAllocator::new(TEXTURE_UNITS);
    let all: Vec<u32> = (100..116).collect();
    assert_eq!(allocator.update_texture_slots(&all), Ok(()));
    let mut swapped: Vec<u32> = vec![999];
    swapped.extend(all.iter().copied().filter(|t| *t != 103));
    assert_eq!(allocator.update_texture_slots(&swapped), Ok(()));
    assert_eq!(allocator.slot_of(999), Some(3));
    assert_eq!(allocator.slot_of(115), Some(15));
}

#[test]
fn one_texture_too_many_changes_nothing() {
    let mut allocator = TextureSlotAllocator::new(2);
    assert_eq!(allocator.update_texture_slots(&vec![1, 2]), Ok(()));
    assert_eq!(
        allocator.update_texture_slots(&vec![3, 4, 5]),
        Err(SlotsExhausted { capacity: 2 })
    );
    assert_eq!(allocator.slot_of(1), Some(0));
    assert_eq!(allocator.slot_of(2), Some(1));
    assert_eq!(allocator.slot_of(3), None);
    assert_eq!(allocator.update_texture_slots(&vec![3, 3, 4, 4, 3]), Ok(()));
    assert_eq!(allocator.slot_of(3), Some(0));
    assert_eq!(allocator.slot_of(4), Some(1));
    assert_eq!(SlotsExhausted { capacity: 2 }.message(), "Exceeded maximum number of textures");
    let mut none = TextureSlotAllocator::new(0);
    assert_eq!(none.update_texture_slots(&vec![]), Ok(()));
    assert_eq!(none.update_texture_slots(&vec![1]), Err(SlotsExhausted { capacity: 0 }));
}

#[test]
fn slots_stay_while_the_textures_stay() {
    let mut allocator = TextureSlotAllocator::new(4);
    assert_eq!(allocator.update_texture_slots(&vec![7, 8, 9]), Ok(()));
    assert_eq!(allocator.update_texture_slots(&vec![8]), Ok(()));
    assert_eq!(allocator.update_texture_slots(&vec![9, 8, 7]), Ok(()));
    let before = allocator.bind_commands();
    assert_eq!(before, vec![bind(0, 9), bind(1, 8), bind(2, 7)]);
    assert_eq!(allocator.update_texture_slots(&vec![7, 9, 8, 8]), Ok(()));
    assert_eq!(allocator.bind_commands(), before);
}

#[test]
fn material_keeps_name_program_and_properties() {
    let mut material = Material::new("phong", 3);
    assert_eq!(material.name(), "phong");
    assert_eq!(material.shader(), 3);
    assert_eq!(material.properties().len(), 0);
    material.set_name("phong_textured");
    material.properties_mut().set_color("lightColor", 1, 2, 3);
    assert_eq!(material.name(), "phong_textured");
    assert_eq!(material.properties().get("lightColor"), Some(MaterialProperty::Color(1, 2, 3)));
    let copy = material.clone();
    assert_eq!(copy.name(), "phong_textured");
    assert_eq!(copy.properties().len(), 1);
}

#[test]
fn clone_with_overrides_merges_the_properties() {
    let mut properties = PropertiesMap::new();
    properties.set_integer("shininess", 32);
    properties.set_boolean("isFloor", false);
    let material = Material::new_with_properties("phong", 3, properties);
    let mut overrides = PropertiesMap::new();
    overrides.set_boolean("isFloor", true);
    overrides.set_integer("extra", 1);
    let floor = material.clone_with_overrides("floor", &overrides);
    assert_eq!(floor.name(), "floor");
    assert_eq!(floor.shader(), 3);
    assert_eq!(floor.properties().len(), 3);
    assert_eq!(floor.properties().name_at(0), "shininess");
    assert_eq!(floor.properties().name_at(1), "isFloor");
    assert_eq!(floor.properties().name_at(2), "extra");
    assert_eq!(floor.properties().get("isFloor"), Some(MaterialProperty::Boolean(true)));
    assert_eq!(material.properties().get("isFloor"), Some(MaterialProperty::Boolean(false)));
    assert_eq!(material.properties().len(), 2);
}

#[test]
fn activation_writes_each_property_and_binds_each_texture() {
    let mut shader = program(5, &["diffuse", "specular", "shininess", "isFloor", "tint", "k", "f", "v"]);
    let mut properties = PropertiesMap::new();
    properties.set_texture("diffuse", TEXTURE_A);
    properties.set_texture("specular", TEXTURE_B);
    properties.set_integer("shininess", 32);
    properties.set_boolean("isFloor", false);
    properties.set_color("tint", 1, 2, 3);
    properties.set_uinteger("k", 9);
    properties.set_float("f", 1.0f32.to_bits());
    properties.set_vec3("v", [4, 5, 6]);
    let mut material = Material::new_with_properties("phong", 5, properties);
    let mut overrides = PropertiesMap::new();
    overrides.set_boolean("isFloor", true);
    let commands = material.use_material(&mut shader, &overrides).unwrap();
    assert_eq!(
        commands,
        vec![
            DeviceCommand::UseProgram { program: 5 },
            set_uniform(10, UniformValue::Int(0)),
            set_uniform(11, UniformValue::Int(1)),
            set_uniform(12, UniformValue::Int(32)),
            set_uniform(13, UniformValue::Int(1)),
            set_uniform(14, UniformValue::VecF3([1, 2, 3])),
            set_uniform(15, UniformValue::UInt(9)),
            set_uniform(16, UniformValue::Float(1.0f32.to_bits())),
            set_uniform(17, UniformValue::VecF3([4, 5, 6])),
            bind(0, TEXTURE_A),
            bind(1, TEXTURE_B),
        ]
    );
    let plain = PropertiesMap::new();
    let commands = material.use_material(&mut shader, &plain).unwrap();
    assert_eq!(
        commands,
        vec![
            DeviceCommand::UseProgram { program: 5 },
            set_uniform(13, UniformValue::Int(0)),
            bind(0, TEXTURE_A),
            bind(1, TEXTURE_B),
        ]
    );
}

#[test]
fn second_activation_is_cached_but_still_binds() {
    let mut shader = program(5, &["diffuse", "shininess"]);
    let mut properties = PropertiesMap::new();
    properties.set_texture("diffuse", TEXTURE_A);
    properties.set_integer("shininess", 32);
    let mut material = Material::new_with_properties("phong", 5, properties);
    let overrides = PropertiesMap::new();
    let first = material.use_material(&mut shader, &overrides).unwrap();
    let second = material.use_material(&mut shader, &overrides).unwrap();
    let shininess = set_uniform(11, UniformValue::Int(32));
    let writes = first.iter().chain(second.iter()).filter(|c| **c == shininess).count();
    assert_eq!(writes, 1);
    assert!(first.contains(&shininess));
    assert_eq!(first.iter().filter(|c| **c == bind(0, TEXTURE_A)).count(), 1);
    assert_eq!(second, vec![DeviceCommand::UseProgram { program: 5 }, bind(0, TEXTURE_A)]);
}

#[test]
fn two_materials_of_one_program_share_its_cache() {
    let mut shader = program(5, &["shininess"]);
    let mut a = Material::new("a", 5);
    a.properties_mut().set_integer("shininess", 32);
    let mut b = Material::new("b", 5);
    b.properties_mut().set_integer("shininess", 64);
    let none = PropertiesMap::new();
    assert_eq!(a.use_material(&mut shader, &none).unwrap().len(), 2);
    assert_eq!(b.use_material(&mut shader, &none).unwrap().len(), 2);
    assert_eq!(
        a.use_material(&mut shader, &none).unwrap(),
        vec![DeviceCommand::UseProgram { program: 5 }, set_uniform(10, UniformValue::Int(32))]
    );
}

#[test]
fn override_texture_takes_the_freed_unit() {
    let mut shader = program(5, &["diffuse", "specular"]);
    let mut material = Material::new("phong", 5);
    material.properties_mut().set_texture("diffuse", TEXTURE_A);
    material.properties_mut().set_texture("specular", TEXTURE_B);
    let none = PropertiesMap::new();
    material.use_material(&mut shader, &none).unwrap();
    let mut overrides = PropertiesMap::new();
    overrides.set_texture("diffuse", 77);
    let commands = material.use_material(&mut shader, &overrides).unwrap();
    assert_eq!(
        commands,
        vec![DeviceCommand::UseProgram { program: 5 }, bind(0, 77), bind(1, TEXTURE_B)]
    );
}

#[test]
fn undeclared_uniform_fails_and_changes_nothing() {
    let mut shader = program(5, &["shininess"]);
    let mut material = Material::new("phong", 5);
    material.properties_mut().set_integer("shininess", 32);
    material.properties_mut().set_texture("diffuse", TEXTURE_A);
    material.properties_mut().set_integer("other", 1);
    let none = PropertiesMap::new();
    let error = material.use_material(&mut shader, &none).unwrap_err();
    assert_eq!(
        error,
        ActivationError::Uniform(UniformNotFound { name: "diffuse".to_string() })
    );
    assert_eq!(error.message(), "Uniform 'diffuse' not found");
    assert_eq!(
        shader.set_uniform_1i("shininess", 32),
        Ok(Some(set_uniform(10, UniformValue::Int(32))))
    );
}

#[test]
fn seventeen_textures_fail_and_change_nothing() {
    let names: Vec<String> = (0..17).map(|i| format!("t{}", i)).collect();
    let refs: Vec<&str> = names.iter().map(|n| n.as_str()).collect();
    let mut shader = program(5, &refs);
    let mut material = Material::new("many", 5);
    for (i, name) in names.iter().enumerate().take(16) {
        material.properties_mut().set_texture(name, 100 + i as u32);
    }
    let none = PropertiesMap::new();
    let commands = material.use_material(&mut shader, &none).unwrap();
    assert_eq!(commands.len(), 1 + 16 + 16);
    let mut overrides = PropertiesMap::new();
    overrides.set_texture("t16", 500);
    let error = material.use_material(&mut shader, &overrides).unwrap_err();
    assert_eq!(error, ActivationError::Textures(SlotsExhausted { capacity: 16 }));
    assert_eq!(error.message(), "Exceeded maximum number of textures");
    let again = material.use_material(&mut shader, &none).unwrap();
    assert_eq!(again.len(), 1 + 16);
    assert_eq!(again[1], bind(0, 100));
}
