//! The two fixed-layout blocks that are rebuilt every frame: the light block
//! and the camera block. A block is a sequence of 32-bit words, each the bit
//! pattern of a single or an integer count, in the order in which the device
//! reads them.

use vstd::prelude::*;

pub mod buffer;
pub mod device;
pub mod material;
pub mod pixels;
pub mod shader;
pub mod texture;

use crate::bits::{ONE, ZERO};
use crate::scene::AmbientLight;
use crate::scene::light::{Light, LightKind, LightSource};

verus! {

/// How many point lights a light block holds.
pub const MAX_POINT_LIGHTS: usize = 10;

/// How many spot lights a light block holds.
pub const MAX_SPOT_LIGHTS: usize = 5;

/// How many directional lights a light block holds.
pub const MAX_DIRECTIONAL_LIGHTS: usize = 5;

/// Words of the ambient record.
pub const AMBIENT_WORDS: usize = 8;

/// Words of one directional record.
pub const DIRECTIONAL_WORDS: usize = 12;

/// Words of one point record.
pub const POINT_WORDS: usize = 12;

/// Words of one spot record.
pub const SPOT_WORDS: usize = 20;

/// Words of a light block: the ambient record, five directional, ten point
/// and five spot records, and the three counts.
pub const LIGHT_BLOCK_WORDS: usize = 291;

/// Words of a camera block: two matrices and the padded eye position.
pub const CAMERA_BLOCK_WORDS: usize = 36;

/// Index of the first directional record in a light block.
pub const DIRECTIONAL_OFFSET: usize = 8;

/// Index of the first point record in a light block.
pub const POINT_OFFSET: usize = 68;

/// Index of the first spot record in a light block.
pub const SPOT_OFFSET: usize = 188;

/// Index of the three counts in a light block: point, spot, directional.
pub const COUNTS_OFFSET: usize = 288;

/// The most lights of one kind that a light block holds.
pub open spec fn max_lights(kind: LightKind) -> nat {
    match kind {
        LightKind::Point => MAX_POINT_LIGHTS as nat,
        LightKind::Spot => MAX_SPOT_LIGHTS as nat,
        LightKind::Directional => MAX_DIRECTIONAL_LIGHTS as nat,
    }
}

/// The words of one record of a kind.
pub open spec fn record_words(kind: LightKind) -> nat {
    match kind {
        LightKind::Point => POINT_WORDS as nat,
        LightKind::Spot => SPOT_WORDS as nat,
        LightKind::Directional => DIRECTIONAL_WORDS as nat,
    }
}

/// `n` words of zero.
pub open spec fn zeros(n: nat) -> Seq<u32> {
    Seq::new(n, |i: int| ZERO)
}

/// The record of the ambient light: colour with a fourth component of one,
/// intensity, three words of padding.
pub open spec fn ambient_record(ambient: AmbientLight) -> Seq<u32> {
    ambient.color@.push(ONE) + seq![ambient.intensity, ZERO, ZERO, ZERO]
}

/// The record of one light. Every three-component vector is followed by a
/// fourth component of one, but for the attenuation, which the intensity
/// follows directly.
pub open spec fn light_record(light: Light) -> Seq<u32> {
    match light.source {
        LightSource::Point(p) => light.color@.push(ONE) + light.position@.push(ONE)
            + p.attenuation@.push(light.intensity),
        LightSource::Spot(s) => light.color@.push(ONE) + light.position@.push(ONE)
            + s.direction@.push(ONE) + seq![s.inner_cutoff_cos, s.outer_cutoff_cos]
            + s.attenuation@ + seq![light.intensity, ZERO, ZERO],
        LightSource::Directional(d) => light.color@.push(ONE) + d.direction@.push(ONE) + seq![
            light.intensity,
            ZERO,
            ZERO,
            ZERO,
        ],
    }
}

/// The test for a light's being of a kind.
pub open spec fn is_kind(kind: LightKind) -> spec_fn(Light) -> bool {
    |light: Light| light.kind() == kind
}

/// The lights of one kind, in the order of the list.
pub open spec fn lights_of_kind(lights: Seq<Light>, kind: LightKind) -> Seq<Light> {
    lights.filter(is_kind(kind))
}

/// `light_record` as a function value.
pub open spec fn record_of() -> spec_fn(Light) -> Seq<u32> {
    |light: Light| light_record(light)
}

/// The records of the lights, one after the other.
pub open spec fn records(lights: Seq<Light>) -> Seq<u32> {
    lights.map_values(record_of()).flatten()
}

/// Whether no kind has more lights than a light block holds.
pub open spec fn fits(lights: Seq<Light>) -> bool {
    forall|kind: LightKind| #[trigger] lights_of_kind(lights, kind).len() <= max_lights(kind)
}

/// Whether with the light at `i` its kind has more lights than a light
/// block holds.
pub open spec fn overflows_at(lights: Seq<Light>, i: int) -> bool {
    lights_of_kind(lights.take(i + 1), lights[i].kind()).len() > max_lights(lights[i].kind())
}

/// The part of a light block that holds the lights of one kind: their
/// records in the order of the list, then zeros up to the kind's maximum.
pub open spec fn section(lights: Seq<Light>, kind: LightKind) -> Seq<u32> {
    let used = records(lights_of_kind(lights, kind));
    used + zeros((max_lights(kind) * record_words(kind) - used.len()) as nat)
}

/// The three counts that end a light block: point, spot, directional.
pub open spec fn counts(lights: Seq<Light>) -> Seq<u32> {
    seq![
        lights_of_kind(lights, LightKind::Point).len() as u32,
        lights_of_kind(lights, LightKind::Spot).len() as u32,
        lights_of_kind(lights, LightKind::Directional).len() as u32,
    ]
}

/// The light block of a scene.
pub open spec fn light_block(lights: Seq<Light>, ambient: AmbientLight) -> Seq<u32> {
    ambient_record(ambient) + section(lights, LightKind::Directional) + section(
        lights,
        LightKind::Point,
    ) + section(lights, LightKind::Spot) + counts(lights)
}

/// The camera block: view matrix, projection matrix, eye position with a
/// fourth component of one.
pub open spec fn camera_block(view: Seq<u32>, projection: Seq<u32>, eye: Seq<u32>) -> Seq<u32> {
    view + projection + eye.push(ONE)
}

/// A kind of light has more lights than a light block holds.
#[derive(Clone, Copy, Debug, PartialEq, Eq)]
pub struct CapacityError {
    pub kind: LightKind,
}

impl CapacityError {
    /// The words in which the fault is reported.
    pub fn message(&self) -> (message: String)
        ensures
            message@ == "Exceeded maximum number of "@ + self.kind.spec_name() + " lights"@,
    {
        String::from_str("Exceeded maximum number of ").concat(self.kind.name()).concat(" lights")
    }
}

/// Appending a light appends its record.
proof fn lemma_records_push(lights: Seq<Light>, light: Light)
    ensures
        records(lights.push(light)) == records(lights) + light_record(light),
{
    lights.lemma_push_map_commute(record_of(), light);
    lights.map_values(record_of()).lemma_flatten_push(light_record(light));
}

/// What one more light does to the lights of a kind.
proof fn lemma_lights_of_kind_step(lights: Seq<Light>, i: int, kind: LightKind)
    requires
        0 <= i < lights.len(),
    ensures
        lights_of_kind(lights.take(i + 1), kind) == if lights[i].kind() == kind {
            lights_of_kind(lights.take(i), kind).push(lights[i])
        } else {
            lights_of_kind(lights.take(i), kind)
        },
{
    assert(lights.take(i + 1) =~= lights.take(i).push(lights[i]));
    lights.take(i).lemma_filter_push(lights[i], is_kind(kind));
}

/// A list with an overflow somewhere does not fit.
proof fn lemma_overflow_does_not_fit(lights: Seq<Light>, i: int)
    requires
        0 <= i < lights.len(),
        overflows_at(lights, i),
    ensures
        !fits(lights),
{
    let kind = lights[i].kind();
    lights.lemma_filter_take_len(is_kind(kind), i + 1);
    assert(lights_of_kind(lights, kind).len() > max_lights(kind));
}

fn push_vec3(words: &mut Vec<u32>, v: &[u32; 3])
    ensures
        final(words)@ == old(words)@ + v@,
{
    words.push(v[0]);
    words.push(v[1]);
    words.push(v[2]);
    assert(words@ =~= old(words)@ + v@);
}

fn push_vec4(words: &mut Vec<u32>, v: &[u32; 3], w: u32)
    ensures
        final(words)@ == old(words)@ + v@.push(w),
{
    push_vec3(words, v);
    words.push(w);
    assert(words@ =~= old(words)@ + v@.push(w));
}

fn push_record(words: &mut Vec<u32>, light: &Light)
    ensures
        final(words)@ == old(words)@ + light_record(*light),
        light_record(*light).len() == record_words(light.kind()),
{
    push_vec4(words, &light.color, ONE);
    match &light.source {
        LightSource::Point(p) => {
            push_vec4(words, &light.position, ONE);
            push_vec4(words, &p.attenuation, light.intensity);
        },
        LightSource::Spot(s) => {
            push_vec4(words, &light.position, ONE);
            push_vec4(words, &s.direction, ONE);
            words.push(s.inner_cutoff_cos);
            words.push(s.outer_cutoff_cos);
            push_vec3(words, &s.attenuation);
            words.push(light.intensity);
            words.push(ZERO);
            words.push(ZERO);
        },
        LightSource::Directional(d) => {
            push_vec4(words, &d.direction, ONE);
            words.push(light.intensity);
            words.push(ZERO);
            words.push(ZERO);
            words.push(ZERO);
        },
    }
    assert(words@ =~= old(words)@ + light_record(*light));
}

fn pad_to(words: &mut Vec<u32>, len: usize)
    requires
        old(words).len() <= len,
    ensures
        final(words)@ == old(words)@ + zeros((len - old(words).len()) as nat),
{
    while words.len() < len
        invariant
            old(words).len() <= words.len() <= len,
            words@ == old(words)@ + zeros((words.len() - old(words).len()) as nat),
        decreases len - words.len(),
    {
        words.push(ZERO);
        assert(words@ =~= old(words)@ + zeros((words.len() - old(words).len()) as nat));
    }
    assert(words@ =~= old(words)@ + zeros((len - old(words).len()) as nat));
}

/// A packed light block.
#[derive(Debug, PartialEq, Eq)]
pub struct LightUniforms {
    words: Vec<u32>,
}

impl View for LightUniforms {
    type V = Seq<u32>;

    closed spec fn view(&self) -> Seq<u32> {
        self.words@
    }
}

impl LightUniforms {
    #[verifier::type_invariant]
    spec fn well_formed(self) -> bool {
        self.words.len() == LIGHT_BLOCK_WORDS
    }

    /// Packs the lights of a scene and its ambient light into one block.
    ///
    /// Each light goes to the next free record of its kind. Where a kind has
    /// more lights than the block holds, nothing is packed: the error names
    /// the kind of the first light in the list that found its kind full.
    pub fn pack(lights: &Vec<Light>, ambient: &AmbientLight) -> (packed: Result<
        LightUniforms,
        CapacityError,
    >)
        ensures
            match packed {
                Ok(block) => fits(lights@) && block@ == light_block(lights@, *ambient),
                Err(e) => !fits(lights@) && exists|i: int|
                    {
                        &&& 0 <= i < lights.len()
                        &&& #[trigger] overflows_at(lights@, i)
                        &&& forall|j: int| 0 <= j < i ==> !overflows_at(lights@, j)
                        &&& e.kind == lights[i].kind()
                    },
            },
    {
        let mut directional: Vec<u32> = Vec::new();
        let mut point: Vec<u32> = Vec::new();
        let mut spot: Vec<u32> = Vec::new();
        let mut nr_directional: usize = 0;
        let mut nr_point: usize = 0;
        let mut nr_spot: usize = 0;
        let mut i: usize = 0;
        proof {
            assert(lights@.take(0) =~= Seq::<Light>::empty());
            reveal(Seq::filter);
        }
        while i < lights.len()
            invariant
                i <= lights.len(),
                nr_directional == lights_of_kind(lights@.take(i as int), LightKind::Directional).len(),
                nr_point == lights_of_kind(lights@.take(i as int), LightKind::Point).len(),
                nr_spot == lights_of_kind(lights@.take(i as int), LightKind::Spot).len(),
                nr_directional <= MAX_DIRECTIONAL_LIGHTS,
                nr_point <= MAX_POINT_LIGHTS,
                nr_spot <= MAX_SPOT_LIGHTS,
                directional@ == records(lights_of_kind(lights@.take(i as int), LightKind::Directional)),
                point@ == records(lights_of_kind(lights@.take(i as int), LightKind::Point)),
                spot@ == records(lights_of_kind(lights@.take(i as int), LightKind::Spot)),
                directional.len() == nr_directional * DIRECTIONAL_WORDS,
                point.len() == nr_point * POINT_WORDS,
                spot.len() == nr_spot * SPOT_WORDS,
                forall|j: int| 0 <= j < i ==> !overflows_at(lights@, j),
            decreases lights.len() - i,
        {
            let light = &lights[i];
            proof {
                lemma_lights_of_kind_step(lights@, i as int, LightKind::Directional);
                lemma_lights_of_kind_step(lights@, i as int, LightKind::Point);
                lemma_lights_of_kind_step(lights@, i as int, LightKind::Spot);
                lemma_records_push(
                    lights_of_kind(lights@.take(i as int), light.kind()),
                    *light,
                );
            }
            match light.light_kind() {
                LightKind::Directional => {
                    if nr_directional >= MAX_DIRECTIONAL_LIGHTS {
                        proof {
                            assert(overflows_at(lights@, i as int));
                            lemma_overflow_does_not_fit(lights@, i as int);
                        }
                        return Err(CapacityError { kind: LightKind::Directional });
                    }
                    push_record(&mut directional, light);
                    nr_directional += 1;
                },
                LightKind::Point => {
                    if nr_point >= MAX_POINT_LIGHTS {
                        proof {
                            assert(overflows_at(lights@, i as int));
                            lemma_overflow_does_not_fit(lights@, i as int);
                        }
                        return Err(CapacityError { kind: LightKind::Point });
                    }
                    push_record(&mut point, light);
                    nr_point += 1;
                },
                LightKind::Spot => {
                    if nr_spot >= MAX_SPOT_LIGHTS {
                        proof {
                            assert(overflows_at(lights@, i as int));
                            lemma_overflow_does_not_fit(lights@, i as int);
                        }
                        return Err(CapacityError { kind: LightKind::Spot });
                    }
                    push_record(&mut spot, light);
                    nr_spot += 1;
                },
            }
            i += 1;
        }
        proof {
            assert(lights@.take(i as int) =~= lights@);
            assert forall|kind: LightKind| #[trigger]
                lights_of_kind(lights@, kind).len() <= max_lights(kind) by {
                match kind {
                    LightKind::Point => {},
                    LightKind::Spot => {},
                    LightKind::Directional => {},
                }
            }
        }
        pad_to(&mut directional, MAX_DIRECTIONAL_LIGHTS * DIRECTIONAL_WORDS);
        pad_to(&mut point, MAX_POINT_LIGHTS * POINT_WORDS);
        pad_to(&mut spot, MAX_SPOT_LIGHTS * SPOT_WORDS);
        let mut words: Vec<u32> = Vec::new();
        push_vec4(&mut words, &ambient.color, ONE);
        words.push(ambient.intensity);
        words.push(ZERO);
        words.push(ZERO);
        words.push(ZERO);
        assert(words@ =~= ambient_record(*ambient));
        words.append(&mut directional);
        words.append(&mut point);
        words.append(&mut spot);
        words.push(nr_point as u32);
        words.push(nr_spot as u32);
        words.push(nr_directional as u32);
        assert(words@ =~= light_block(lights@, *ambient));
        Ok(LightUniforms { words })
    }

    /// The words of the block, in the order in which the device reads them.
    pub fn words(&self) -> (words: &Vec<u32>)
        ensures
            words@ == self@,
            words.len() == LIGHT_BLOCK_WORDS,
    {
        proof {
            use_type_invariant(self);
        }
        &self.words
    }

    /// The count of point lights that the block holds.
    pub fn nr_point_lights(&self) -> (count: u32)
        ensures
            count == self@[COUNTS_OFFSET as int],
    {
        proof {
            use_type_invariant(self);
        }
        self.words[COUNTS_OFFSET]
    }

    /// The count of spot lights that the block holds.
    pub fn nr_spot_lights(&self) -> (count: u32)
        ensures
            count == self@[COUNTS_OFFSET + 1],
    {
        proof {
            use_type_invariant(self);
        }
        self.words[COUNTS_OFFSET + 1]
    }

    /// The count of directional lights that the block holds.
    pub fn nr_directional_lights(&self) -> (count: u32)
        ensures
            count == self@[COUNTS_OFFSET + 2],
    {
        proof {
            use_type_invariant(self);
        }
        self.words[COUNTS_OFFSET + 2]
    }
}

/// The record of a light has the words of its kind.
pub proof fn lemma_light_record_len(light: Light)
    ensures
        light_record(light).len() == record_words(light.kind()),
{
}

/// The records of lights that are all of one kind take, for each light, the
/// words of one record.
proof fn lemma_records_len_uniform(lights: Seq<Light>, kind: LightKind)
    requires
        forall|i: int| 0 <= i < lights.len() ==> (#[trigger] lights[i]).kind() == kind,
    ensures
        records(lights).len() == lights.len() * record_words(kind),
    decreases lights.len(),
{
    if lights.len() == 0 {
        assert(lights.map_values(record_of()) =~= Seq::<Seq<u32>>::empty());
    } else {
        let front = lights.drop_last();
        let last = lights.last();
        lemma_records_len_uniform(front, kind);
        assert(lights =~= front.push(last));
        lemma_records_push(front, last);
        lemma_light_record_len(last);
        assert((front.len() + 1) * record_words(kind) == front.len() * record_words(kind)
            + record_words(kind)) by (nonlinear_arith);
    }
}

/// The records of the lights of one kind take, for each such light, the
/// words of one record.
pub proof fn lemma_records_len(lights: Seq<Light>, kind: LightKind)
    ensures
        records(lights_of_kind(lights, kind)).len() == lights_of_kind(lights, kind).len()
            * record_words(kind),
{
    let of_kind = lights_of_kind(lights, kind);
    assert forall|i: int| 0 <= i < of_kind.len() implies (#[trigger] of_kind[i]).kind()
        == kind by {
        lights.lemma_filter_pred(is_kind(kind), i);
    }
    lemma_records_len_uniform(of_kind, kind);
}

/// Where the parts of a light block lie: the ambient record first, then the
/// directional, point and spot sections, then the counts of point, spot and
/// directional lights.
pub proof fn lemma_light_block_layout(lights: Seq<Light>, ambient: AmbientLight)
    requires
        fits(lights),
    ensures
        light_block(lights, ambient).len() == LIGHT_BLOCK_WORDS,
        ambient_record(ambient).len() == AMBIENT_WORDS,
        light_block(lights, ambient).subrange(0, DIRECTIONAL_OFFSET as int) == ambient_record(
            ambient,
        ),
        light_block(lights, ambient).subrange(DIRECTIONAL_OFFSET as int, POINT_OFFSET as int)
            == section(lights, LightKind::Directional),
        light_block(lights, ambient).subrange(POINT_OFFSET as int, SPOT_OFFSET as int) == section(
            lights,
            LightKind::Point,
        ),
        light_block(lights, ambient).subrange(SPOT_OFFSET as int, COUNTS_OFFSET as int) == section(
            lights,
            LightKind::Spot,
        ),
        light_block(lights, ambient)[COUNTS_OFFSET as int] == lights_of_kind(
            lights,
            LightKind::Point,
        ).len(),
        light_block(lights, ambient)[COUNTS_OFFSET + 1] == lights_of_kind(
            lights,
            LightKind::Spot,
        ).len(),
        light_block(lights, ambient)[COUNTS_OFFSET + 2] == lights_of_kind(
            lights,
            LightKind::Directional,
        ).len(),
{
    lemma_records_len(lights, LightKind::Directional);
    lemma_records_len(lights, LightKind::Point);
    lemma_records_len(lights, LightKind::Spot);
    assert(lights_of_kind(lights, LightKind::Directional).len() <= max_lights(
        LightKind::Directional,
    ));
    assert(lights_of_kind(lights, LightKind::Point).len() <= max_lights(LightKind::Point));
    assert(lights_of_kind(lights, LightKind::Spot).len() <= max_lights(LightKind::Spot));
    let block = light_block(lights, ambient);
    assert(records(lights_of_kind(lights, LightKind::Directional)).len() == lights_of_kind(
        lights,
        LightKind::Directional,
    ).len() * 12);
    assert(records(lights_of_kind(lights, LightKind::Point)).len() == lights_of_kind(
        lights,
        LightKind::Point,
    ).len() * 12);
    assert(records(lights_of_kind(lights, LightKind::Spot)).len() == lights_of_kind(
        lights,
        LightKind::Spot,
    ).len() * 20);
    assert(section(lights, LightKind::Directional).len() == 60);
    assert(section(lights, LightKind::Point).len() == 120);
    assert(section(lights, LightKind::Spot).len() == 100);
    assert(ambient_record(ambient).len() == 8);
    assert(block.subrange(0, DIRECTIONAL_OFFSET as int) =~= ambient_record(ambient));
    assert(block.subrange(DIRECTIONAL_OFFSET as int, POINT_OFFSET as int) =~= section(
        lights,
        LightKind::Directional,
    ));
    assert(block.subrange(POINT_OFFSET as int, SPOT_OFFSET as int) =~= section(
        lights,
        LightKind::Point,
    ));
    assert(block.subrange(SPOT_OFFSET as int, COUNTS_OFFSET as int) =~= section(
        lights,
        LightKind::Spot,
    ));
}

/// A packed camera block.
#[derive(Clone, Copy, Debug, PartialEq, Eq)]
pub struct CameraUniforms {
    words: [u32; 36],
}

impl View for CameraUniforms {
    type V = Seq<u32>;

    closed spec fn view(&self) -> Seq<u32> {
        self.words@
    }
}

impl CameraUniforms {
    /// Packs the view matrix, the projection matrix and the eye position,
    /// all three anew. The matrices are in column-major order.
    pub fn pack(view: &[u32; 16], projection: &[u32; 16], eye: &[u32; 3]) -> (block: CameraUniforms)
        ensures
            block@ == camera_block(view@, projection@, eye@),
    {
        let mut words: [u32; 36] = [ZERO;36];
        let mut i: usize = 0;
        while i < 16
            invariant
                i <= 16,
                forall|j: int| 0 <= j < i ==> words[j] == view[j],
                forall|j: int| 0 <= j < i ==> words[16 + j] == projection[j],
            decreases 16 - i,
        {
            words[i] = view[i];
            words[16 + i] = projection[i];
            i += 1;
        }
        words[32] = eye[0];
        words[33] = eye[1];
        words[34] = eye[2];
        words[35] = ONE;
        assert(words@ =~= camera_block(view@, projection@, eye@));
        CameraUniforms { words }
    }

    /// The words of the block, in the order in which the device reads them.
    pub fn words(&self) -> (words: &[u32; 36])
        ensures
            words@ == self@,
    {
        &self.words
    }

    /// The view matrix that the block holds.
    pub fn view_matrix(&self) -> (view: [u32; 16])
        ensures
            view@ == self@.subrange(0, 16),
    {
        let mut view: [u32; 16] = [ZERO;16];
        let mut i: usize = 0;
        while i < 16
            invariant
                i <= 16,
                forall|j: int| 0 <= j < i ==> view[j] == self.words[j],
            decreases 16 - i,
        {
            view[i] = self.words[i];
            i += 1;
        }
        assert(view@ =~= self@.subrange(0, 16));
        view
    }

    /// The projection matrix that the block holds.
    pub fn projection_matrix(&self) -> (projection: [u32; 16])
        ensures
            projection@ == self@.subrange(16, 32),
    {
        let mut projection: [u32; 16] = [ZERO;16];
        let mut i: usize = 0;
        while i < 16
            invariant
                i <= 16,
                forall|j: int| 0 <= j < i ==> projection[j] == self.words[16 + j],
            decreases 16 - i,
        {
            projection[i] = self.words[16 + i];
            i += 1;
        }
        assert(projection@ =~= self@.subrange(16, 32));
        projection
    }

    /// The eye position that the block holds, without its padding.
    pub fn eye(&self) -> (eye: [u32; 3])
        ensures
            eye@ == self@.subrange(32, 35),
    {
        let eye: [u32; 3] = [self.words[32], self.words[33], self.words[34]];
        assert(eye@ =~= self@.subrange(32, 35));
        eye
    }
}

/// What was packed into a camera block is read back from it unchanged: no
/// part overlaps another, nor the padding.
pub proof fn lemma_camera_block_round_trip(view: Seq<u32>, projection: Seq<u32>, eye: Seq<u32>)
    requires
        view.len() == 16,
        projection.len() == 16,
        eye.len() == 3,
    ensures
        camera_block(view, projection, eye).len() == CAMERA_BLOCK_WORDS,
        camera_block(view, projection, eye).subrange(0, 16) == view,
        camera_block(view, projection, eye).subrange(16, 32) == projection,
        camera_block(view, projection, eye).subrange(32, 35) == eye,
        camera_block(view, projection, eye)[35] == ONE,
{
    let block = camera_block(view, projection, eye);
    assert(block.subrange(0, 16) =~= view);
    assert(block.subrange(16, 32) =~= projection);
    assert(block.subrange(32, 35) =~= eye);
}

} // verus!
