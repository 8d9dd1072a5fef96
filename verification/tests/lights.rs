use opengl_rust::renderer::{
    CameraUniforms, CapacityError, LightUniforms, CAMERA_BLOCK_WORDS, COUNTS_OFFSET,
    DIRECTIONAL_OFFSET, LIGHT_BLOCK_WORDS, POINT_OFFSET, SPOT_OFFSET,
};
use opengl_rust::scene::light::{
    DirectionalLight, Light, LightKind, LightSource, PointLight, SpotLight,
};
use opengl_rust::scene::AmbientLight;

fn bits(values: [f32; 3]) -> [u32; 3] {
    [values[0].to_bits(), values[1].to_bits(), values[2].to_bits()]
}

fn floats(words: &[u32]) -> Vec<f32> {
    words.iter().map(|w| f32::from_bits(*w)).collect()
}

fn ambient(intensity: f32) -> AmbientLight {
    AmbientLight { color: bits([1.0, 1.0, 1.0]), intensity: intensity.to_bits() }
}

fn point_at(x: f32) -> Light {
    let mut light = Light::new_point_light();
    light.position = bits([x, 2.0, 3.0]);
    light
}

#[test]
fn default_light_is_a_white_point_light_at_the_origin() {
    let light = Light::default();
    assert!(light.is_point_light());
    assert!(!light.is_spot_light());
    assert!(!light.is_directional_light());
    assert_eq!(floats(&light.position), vec![0.0, 0.0, 0.0]);
    assert_eq!(floats(&light.color), vec![1.0, 1.0, 1.0]);
    assert_eq!(f32::from_bits(light.intensity), 1.0);
    let point = light.as_point_light().unwrap();
    assert_eq!(floats(&point.attenuation), vec![1.0, 0.09, 0.032]);
    assert!(light.as_spot_light().is_none());
    assert!(light.as_directional_light().is_none());
    assert_eq!(light, PointLight::new());
    assert_eq!(light.light_kind(), LightKind::Point);
}

#[test]
fn default_spot_light_points_down_negative_z() {
    let light = SpotLight::new();
    assert!(light.is_spot_light());
    assert_eq!(light.light_kind(), LightKind::Spot);
    let spot = light.as_spot_light().unwrap();
    assert_eq!(floats(&spot.direction), vec![0.0, 0.0, -1.0]);
    assert_eq!(floats(&spot.attenuation), vec![1.0, 0.09, 0.032]);
    let inner = f32::from_bits(spot.inner_cutoff_cos);
    let outer = f32::from_bits(spot.outer_cutoff_cos);
    assert!((inner - 12.5f32.to_radians().cos()).abs() < 1e-6);
    assert!((outer - 17.5f32.to_radians().cos()).abs() < 1e-6);
    assert_eq!(*spot, SpotLight::default());
    assert_eq!(light, Light::new_spot_light());
}

#[test]
fn default_directional_light_points_down_negative_z() {
    let light = DirectionalLight::new();
    assert!(light.is_directional_light());
    assert_eq!(light.light_kind(), LightKind::Directional);
    let directional = light.as_directional_light().unwrap();
    assert_eq!(floats(&directional.direction), vec![0.0, 0.0, -1.0]);
    assert_eq!(*directional, DirectionalLight::default());
    assert_eq!(light, Light::new_directional_light());
    assert_eq!(PointLight::default().attenuation, bits([1.0, 0.09, 0.032]));
}

#[test]
fn kind_specific_part_is_changed_in_place() {
    let mut light = Light::new_spot_light();
    light.as_spot_light_mut().unwrap().direction = bits([1.0, 0.0, 0.0]);
    assert_eq!(floats(&light.as_spot_light().unwrap().direction), vec![1.0, 0.0, 0.0]);
    assert!(light.as_point_light_mut().is_none());
    assert!(light.as_directional_light_mut().is_none());

    let mut light = Light::new_directional_light();
    light.as_directional_light_mut().unwrap().direction = bits([-0.2, -1.0, -0.3]);
    assert_eq!(floats(&light.as_directional_light().unwrap().direction), vec![-0.2, -1.0, -0.3]);
    assert!(light.as_spot_light_mut().is_none());

    let mut light = Light::new_point_light();
    light.as_point_light_mut().unwrap().attenuation = bits([1.0, 0.5, 0.25]);
    assert_eq!(floats(&light.as_point_light().unwrap().attenuation), vec![1.0, 0.5, 0.25]);
    assert_eq!(f32::from_bits(light.intensity), 1.0);
}

#[test]
fn a_light_is_its_common_part_and_its_source() {
    let source = LightSource::Directional(DirectionalLight { direction: bits([0.0, -1.0, 0.0]) });
    let light = Light {
        position: bits([1.0, 2.0, 3.0]),
        color: bits([0.5, 0.5, 0.5]),
        intensity: 0.4f32.to_bits(),
        source,
    };
    assert_eq!(light.source, source);
    assert_eq!(floats(&light.position), vec![1.0, 2.0, 3.0]);
    assert_eq!(f32::from_bits(light.intensity), 0.4);
}

#[test]
fn ambient_light_starts_white_and_dark() {
    let light = AmbientLight::new();
    assert_eq!(floats(&light.color), vec![1.0, 1.0, 1.0]);
    assert_eq!(f32::from_bits(light.intensity), 0.0);
}

#[test]
fn ten_point_lights_fit_and_are_counted() {
    let lights: Vec<Light> = (0..10).map(|i| point_at(i as f32)).collect();
    let block = LightUniforms::pack(&lights, &ambient(0.1)).unwrap();
    assert_eq!(block.nr_point_lights(), 10);
    assert_eq!(block.nr_spot_lights(), 0);
    assert_eq!(block.nr_directional_lights(), 0);
    assert_eq!(block.words().len(), LIGHT_BLOCK_WORDS);
    assert_eq!(block.words()[COUNTS_OFFSET], 10);
}

#[test]
fn eleven_point_lights_fail_naming_point() {
    let lights: Vec<Light> = (0..11).map(|i| point_at(i as f32)).collect();
    let error = LightUniforms::pack(&lights, &ambient(0.1)).unwrap_err();
    assert_eq!(error, CapacityError { kind: LightKind::Point });
    assert_eq!(error.kind.name(), "point");
    assert_eq!(error.message(), "Exceeded maximum number of point lights");
}

#[test]
fn six_spot_lights_fail_naming_spot() {
    let lights: Vec<Light> = (0..6).map(|_| Light::new_spot_light()).collect();
    let error = LightUniforms::pack(&lights, &ambient(0.0)).unwrap_err();
    assert_eq!(error.kind, LightKind::Spot);
    assert_eq!(error.message(), "Exceeded maximum number of spot lights");
    let lights: Vec<Light> = (0..5).map(|_| Light::new_spot_light()).collect();
    assert_eq!(LightUniforms::pack(&lights, &ambient(0.0)).unwrap().nr_spot_lights(), 5);
}

#[test]
fn six_directional_lights_fail_naming_directional() {
    let lights: Vec<Light> = (0..6).map(|_| Light::new_directional_light()).collect();
    let error = LightUniforms::pack(&lights, &ambient(0.0)).unwrap_err();
    assert_eq!(error.kind, LightKind::Directional);
    assert_eq!(error.message(), "Exceeded maximum number of directional lights");
    let lights: Vec<Light> = (0..5).map(|_| Light::new_directional_light()).collect();
    assert_eq!(LightUniforms::pack(&lights, &ambient(0.0)).unwrap().nr_directional_lights(), 5);
}

#[test]
fn the_first_kind_to_overflow_is_named() {
    let mut lights: Vec<Light> = Vec::new();
    for _ in 0..5 {
        lights.push(Light::new_spot_light());
    }
    for i in 0..10 {
        lights.push(point_at(i as f32));
    }
    lights.push(Light::new_directional_light());
    lights.push(point_at(10.0));
    lights.push(Light::new_spot_light());
    let error = LightUniforms::pack(&lights, &ambient(0.0)).unwrap_err();
    assert_eq!(error.kind, LightKind::Point);
}

#[test]
fn no_lights_pack_to_the_ambient_record_and_zeros() {
    let block = LightUniforms::pack(&Vec::new(), &ambient(0.25)).unwrap();
    let words = block.words();
    assert_eq!(floats(&words[0..8]), vec![1.0, 1.0, 1.0, 1.0, 0.25, 0.0, 0.0, 0.0]);
    assert!(words[8..].iter().all(|w| *w == 0));
}

#[test]
fn records_lie_at_their_offsets_in_field_order() {
    let mut point = Light::new_point_light();
    point.position = bits([1.0, 2.0, 3.0]);
    point.color = bits([0.1, 0.2, 0.3]);
    point.intensity = 0.7f32.to_bits();
    let mut spot = Light::new_spot_light();
    spot.position = bits([4.0, 5.0, 6.0]);
    spot.intensity = 0.9f32.to_bits();
    {
        let part = spot.as_spot_light_mut().unwrap();
        part.direction = bits([0.0, 1.0, 0.0]);
        part.inner_cutoff_cos = 0.5f32.to_bits();
        part.outer_cutoff_cos = 0.25f32.to_bits();
        part.attenuation = bits([1.0, 0.5, 0.125]);
    }
    let mut directional = Light::new_directional_light();
    directional.intensity = 0.4f32.to_bits();
    directional.as_directional_light_mut().unwrap().direction = bits([-0.2, -1.0, -0.3]);
    let second_point = point_at(9.0);

    let lights = vec![point, spot, directional, second_point];
    let block = LightUniforms::pack(&lights, &ambient(0.1)).unwrap();
    let words = block.words();

    assert_eq!(floats(&words[0..8]), vec![1.0, 1.0, 1.0, 1.0, 0.1, 0.0, 0.0, 0.0]);
    assert_eq!(
        floats(&words[DIRECTIONAL_OFFSET..DIRECTIONAL_OFFSET + 12]),
        vec![1.0, 1.0, 1.0, 1.0, -0.2, -1.0, -0.3, 1.0, 0.4, 0.0, 0.0, 0.0]
    );
    assert!(words[DIRECTIONAL_OFFSET + 12..POINT_OFFSET].iter().all(|w| *w == 0));
    assert_eq!(
        floats(&words[POINT_OFFSET..POINT_OFFSET + 12]),
        vec![0.1, 0.2, 0.3, 1.0, 1.0, 2.0, 3.0, 1.0, 1.0, 0.09, 0.032, 0.7]
    );
    assert_eq!(
        floats(&words[POINT_OFFSET + 12..POINT_OFFSET + 24]),
        vec![1.0, 1.0, 1.0, 1.0, 9.0, 2.0, 3.0, 1.0, 1.0, 0.09, 0.032, 1.0]
    );
    assert!(words[POINT_OFFSET + 24..SPOT_OFFSET].iter().all(|w| *w == 0));
    assert_eq!(
        floats(&words[SPOT_OFFSET..SPOT_OFFSET + 20]),
        vec![
            1.0, 1.0, 1.0, 1.0, 4.0, 5.0, 6.0, 1.0, 0.0, 1.0, 0.0, 1.0, 0.5, 0.25, 1.0, 0.5, 0.125,
            0.9, 0.0, 0.0
        ]
    );
    assert!(words[SPOT_OFFSET + 20..COUNTS_OFFSET].iter().all(|w| *w == 0));
    assert_eq!(&words[COUNTS_OFFSET..], &[2, 1, 1]);
    assert_eq!(block.nr_point_lights(), 2);
    assert_eq!(block.nr_spot_lights(), 1);
    assert_eq!(block.nr_directional_lights(), 1);
}

#[test]
fn camera_block_reads_back_what_was_packed() {
    let mut identity = [0.0f32.to_bits(); 16];
    for i in 0..4 {
        identity[i * 5] = 1.0f32.to_bits();
    }
    let eye = bits([1.0, 2.0, 3.0]);
    let block = CameraUniforms::pack(&identity, &identity, &eye);
    assert_eq!(block.view_matrix(), identity);
    assert_eq!(block.projection_matrix(), identity);
    assert_eq!(block.eye(), eye);
    assert_eq!(block.words().len(), CAMERA_BLOCK_WORDS);
    assert_eq!(floats(&block.words()[32..36]), vec![1.0, 2.0, 3.0, 1.0]);
}

#[test]
fn camera_block_keeps_its_parts_apart() {
    let mut view = [0u32; 16];
    let mut projection = [0u32; 16];
    for i in 0..16 {
        view[i] = (100 + i) as u32;
        projection[i] = (200 + i) as u32;
    }
    let eye = [301, 302, 303];
    let block = CameraUniforms::pack(&view, &projection, &eye);
    assert_eq!(block.view_matrix(), view);
    assert_eq!(block.projection_matrix(), projection);
    assert_eq!(block.eye(), eye);
    let words = block.words();
    assert_eq!(&words[0..16], &view);
    assert_eq!(&words[16..32], &projection);
    assert_eq!(&words[32..35], &eye);
    assert_eq!(words[35], 1.0f32.to_bits());
}
