//! Texture units: a small, fixed number of numbered slots of the device,
//! shared out among the textures that the material being bound refers to.

use vstd::prelude::*;
use crate::renderer::device::DeviceCommand;

verus! {

/// How many texture units a material has to share out.
pub const TEXTURE_UNITS: u16 = 16;

/// Whether no texture holds two slots.
pub open spec fn well_formed(slots: Seq<Option<u32>>) -> bool {
    forall|i: int, j: int|
        0 <= i < slots.len() && 0 <= j < slots.len() && i != j && slots[i] is Some ==> slots[i]
            != slots[j]
}

/// Whether a texture holds a slot.
pub open spec fn holds(slots: Seq<Option<u32>>, texture: u32) -> bool {
    slots.contains(Some(texture))
}

/// The index of the first free slot, or the number of slots where none is
/// free.
pub open spec fn first_free(slots: Seq<Option<u32>>) -> int
    decreases slots.len(),
{
    if slots.len() == 0 {
        0
    } else if slots[0] is None {
        0
    } else {
        1 + first_free(slots.drop_first())
    }
}

/// The slots after those of the textures that are no longer in use have
/// been freed.
pub open spec fn released(slots: Seq<Option<u32>>, used: Set<u32>) -> Seq<Option<u32>> {
    Seq::new(
        slots.len(),
        |i: int|
            match slots[i] {
                Some(texture) => if used.contains(texture) {
                    Some(texture)
                } else {
                    None
                },
                None => None,
            },
    )
}

/// The slots after one texture has been given a slot: a texture that holds
/// one keeps it, another takes the first free slot, and where none is free
/// there is no result.
pub open spec fn assigned(slots: Seq<Option<u32>>, texture: u32) -> Option<Seq<Option<u32>>> {
    if holds(slots, texture) {
        Some(slots)
    } else if first_free(slots) < slots.len() {
        Some(slots.update(first_free(slots), Some(texture)))
    } else {
        None
    }
}

/// The slots after the textures have been given their slots, one after the
/// other in the order of the list.
pub open spec fn assigned_all(slots: Seq<Option<u32>>, textures: Seq<u32>) -> Option<
    Seq<Option<u32>>,
>
    decreases textures.len(),
{
    if textures.len() == 0 {
        Some(slots)
    } else {
        match assigned_all(slots, textures.drop_last()) {
            Some(before) => assigned(before, textures.last()),
            None => None,
        }
    }
}

/// The slots after a binding pass that refers to the textures of the list:
/// first the slots of all other textures are freed, then each texture of
/// the list that holds no slot takes the first free one.
pub open spec fn rebalanced(slots: Seq<Option<u32>>, used: Seq<u32>) -> Option<Seq<Option<u32>>> {
    assigned_all(released(slots, used.to_set()), used)
}

/// The slot of each texture that holds one.
pub open spec fn bindings(slots: Seq<Option<u32>>) -> Map<u32, int> {
    Map::new(
        |texture: u32| holds(slots, texture),
        |texture: u32| slots.index_of(Some(texture)),
    )
}

/// The slots after a binding pass; a pass that finds no room leaves them
/// as they were.
pub open spec fn after_pass(slots: Seq<Option<u32>>, used: Seq<u32>) -> Seq<Option<u32>> {
    match rebalanced(slots, used) {
        Some(after) => after,
        None => slots,
    }
}

/// The slots after a run of binding passes.
pub open spec fn after_passes(slots: Seq<Option<u32>>, passes: Seq<Seq<u32>>) -> Seq<Option<u32>>
    decreases passes.len(),
{
    if passes.len() == 0 {
        slots
    } else {
        after_pass(after_passes(slots, passes.drop_last()), passes.last())
    }
}

/// The texture of a slot, or zero for a free slot.
spec fn texture_or_zero(slot: Option<u32>) -> u32 {
    match slot {
        Some(texture) => texture,
        None => 0,
    }
}

/// The commands that bind each texture that holds a slot to its texture
/// unit, in the order of the units.
pub open spec fn binds(slots: Seq<Option<u32>>) -> Seq<DeviceCommand>
    decreases slots.len(),
{
    if slots.len() == 0 {
        Seq::empty()
    } else {
        let before = binds(slots.drop_last());
        match slots.last() {
            Some(texture) => before.push(
                DeviceCommand::BindTexture { unit: (slots.len() - 1) as u32, texture },
            ),
            None => before,
        }
    }
}

/// More textures are in use at once than there are texture units.
#[derive(Clone, Copy, Debug, PartialEq, Eq)]
pub struct SlotsExhausted {
    /// The number of texture units.
    pub capacity: u16,
}

impl SlotsExhausted {
    /// The words in which the fault is reported.
    pub fn message(&self) -> (message: String)
        ensures
            message@ == "Exceeded maximum number of textures"@,
    {
        String::from_str("Exceeded maximum number of textures")
    }
}

/// What `first_free` finds: all slots before it are taken, and it is free
/// unless it is the number of slots.
pub proof fn lemma_first_free(slots: Seq<Option<u32>>)
    ensures
        0 <= first_free(slots) <= slots.len(),
        forall|j: int| 0 <= j < first_free(slots) ==> slots[j] is Some,
        first_free(slots) < slots.len() ==> slots[first_free(slots)] is None,
    decreases slots.len(),
{
    if slots.len() > 0 && slots[0] is Some {
        let rest = slots.drop_first();
        lemma_first_free(rest);
        assert forall|j: int| 0 <= j < first_free(slots) implies slots[j] is Some by {
            if j > 0 {
                assert(slots[j] == rest[j - 1]);
            }
        }
        if first_free(slots) < slots.len() {
            assert(slots[first_free(slots)] == rest[first_free(rest)]);
        }
    }
}

/// `first_free` is the one index before which all slots are taken and which
/// is itself free or the number of slots.
pub proof fn lemma_first_free_is(slots: Seq<Option<u32>>, i: int)
    requires
        0 <= i <= slots.len(),
        forall|j: int| 0 <= j < i ==> slots[j] is Some,
        i < slots.len() ==> slots[i] is None,
    ensures
        first_free(slots) == i,
{
    lemma_first_free(slots);
    let ff = first_free(slots);
    if ff < i {
        assert(slots[ff] is Some);
    } else if i < ff {
        assert(slots[i] is Some);
    }
}

/// Freeing slots keeps their number, and no texture comes to hold two.
pub proof fn lemma_released_well_formed(slots: Seq<Option<u32>>, used: Set<u32>)
    requires
        well_formed(slots),
    ensures
        well_formed(released(slots, used)),
        released(slots, used).len() == slots.len(),
{
}

/// Giving a texture a slot keeps the number of slots, and no texture comes
/// to hold two.
pub proof fn lemma_assigned_well_formed(slots: Seq<Option<u32>>, texture: u32)
    requires
        well_formed(slots),
        assigned(slots, texture) is Some,
    ensures
        well_formed(assigned(slots, texture)->0),
        assigned(slots, texture)->0.len() == slots.len(),
        holds(assigned(slots, texture)->0, texture),
{
    lemma_first_free(slots);
    let after = assigned(slots, texture)->0;
    if !holds(slots, texture) {
        let k = first_free(slots);
        assert(after[k] == Some(texture));
        assert forall|i: int, j: int|
            0 <= i < after.len() && 0 <= j < after.len() && i != j && after[i] is Some implies after[i]
            != after[j] by {
            if i == k {
                if after[j] == Some(texture) {
                    assert(slots[j] == Some(texture));
                }
            } else if j == k {
                if after[i] == Some(texture) {
                    assert(slots[i] == Some(texture));
                }
            }
        }
    }
}

fn list_contains(list: &Vec<u32>, texture: u32) -> (found: bool)
    ensures
        found == list@.contains(texture),
{
    let mut i: usize = 0;
    while i < list.len()
        invariant
            i <= list.len(),
            forall|j: int| 0 <= j < i ==> list[j] != texture,
        decreases list.len() - i,
    {
        if list[i] == texture {
            return true;
        }
        i += 1;
    }
    false
}

fn find_texture(slots: &Vec<Option<u32>>, texture: u32) -> (found: Option<usize>)
    ensures
        match found {
            Some(i) => i < slots.len() && slots[i as int] == Some(texture),
            None => !holds(slots@, texture),
        },
{
    let mut i: usize = 0;
    while i < slots.len()
        invariant
            i <= slots.len(),
            forall|j: int| 0 <= j < i ==> slots[j] != Some(texture),
        decreases slots.len() - i,
    {
        match slots[i] {
            Some(held) => {
                if held == texture {
                    return Some(i);
                }
            },
            None => {},
        }
        i += 1;
    }
    None
}

fn find_free(slots: &Vec<Option<u32>>) -> (found: Option<usize>)
    ensures
        match found {
            Some(i) => i < slots.len() && i == first_free(slots@),
            None => first_free(slots@) == slots.len(),
        },
{
    let mut i: usize = 0;
    while i < slots.len()
        invariant
            i <= slots.len(),
            forall|j: int| 0 <= j < i ==> slots[j] is Some,
        decreases slots.len() - i,
    {
        if slots[i].is_none() {
            proof {
                lemma_first_free_is(slots@, i as int);
            }
            return Some(i);
        }
        i += 1;
    }
    proof {
        lemma_first_free_is(slots@, i as int);
    }
    None
}

/// The texture units of one material and the textures that hold them.
pub struct TextureSlotAllocator {
    slots: Vec<Option<u32>>,
}

impl TextureSlotAllocator {
    /// The slots, each with the texture that holds it.
    pub closed spec fn slots(&self) -> Seq<Option<u32>> {
        self.slots@
    }

    /// No texture holds two slots, and the slots are few enough for the
    /// index of each to be the value of an integer uniform.
    #[verifier::type_invariant]
    pub open spec fn inv(&self) -> bool {
        &&& well_formed(self.slots())
        &&& self.slots().len() <= u16::MAX
    }

    /// An allocator of `capacity` slots, all free.
    pub fn new(capacity: u16) -> (allocator: TextureSlotAllocator)
        ensures
            allocator.slots() == Seq::new(capacity as nat, |i: int| None::<u32>),
    {
        let mut slots: Vec<Option<u32>> = Vec::new();
        let mut i: u16 = 0;
        while i < capacity
            invariant
                i <= capacity,
                slots@ == Seq::new(i as nat, |i: int| None::<u32>),
            decreases capacity - i,
        {
            slots.push(None);
            i += 1;
            assert(slots@ =~= Seq::new(i as nat, |i: int| None::<u32>));
        }
        TextureSlotAllocator { slots }
    }

    /// The number of slots.
    pub fn capacity(&self) -> (capacity: u16)
        ensures
            capacity == self.slots().len(),
    {
        proof {
            use_type_invariant(self);
        }
        self.slots.len() as u16
    }

    /// The slot that a texture holds, if it holds one.
    pub fn slot_of(&self, texture: u32) -> (slot: Option<u32>)
        ensures
            match slot {
                Some(i) => i < self.slots().len() && self.slots()[i as int] == Some(texture),
                None => !holds(self.slots(), texture),
            },
            well_formed(self.slots()),
    {
        proof {
            use_type_invariant(self);
        }
        match find_texture(&self.slots, texture) {
            Some(i) => Some(i as u32),
            None => None,
        }
    }

    /// The texture that holds a slot, if the slot is taken.
    pub fn texture_at(&self, slot: u32) -> (texture: Option<u32>)
        ensures
            texture == if slot < self.slots().len() {
                self.slots()[slot as int]
            } else {
                None
            },
    {
        if (slot as usize) < self.slots.len() {
            self.slots[slot as usize]
        } else {
            None
        }
    }

    /// The commands that bind each texture that holds a slot to its
    /// texture unit.
    pub fn bind_commands(&self) -> (commands: Vec<DeviceCommand>)
        ensures
            commands@ == binds(self.slots()),
    {
        proof {
            use_type_invariant(self);
        }
        let mut commands: Vec<DeviceCommand> = Vec::new();
        let mut i: usize = 0;
        while i < self.slots.len()
            invariant
                i <= self.slots.len(),
                self.slots.len() <= u16::MAX,
                commands@ == binds(self.slots@.take(i as int)),
            decreases self.slots.len() - i,
        {
            proof {
                assert(self.slots@.take(i + 1).drop_last() =~= self.slots@.take(i as int));
            }
            match self.slots[i] {
                Some(texture) => {
                    commands.push(DeviceCommand::BindTexture { unit: i as u32, texture });
                },
                None => {},
            }
            i += 1;
        }
        assert(self.slots@.take(i as int) =~= self.slots@);
        commands
    }

    /// Shares the slots out anew for a binding pass that refers to the
    /// textures of `used`. Textures that are no longer referred to lose
    /// their slots; textures that hold one keep it; each other texture of
    /// `used`, in the order of the list, takes the first free slot.
    ///
    /// Where a texture finds no slot free, which is where `used` names more
    /// textures than there are slots, nothing changes and the error gives
    /// the number of slots.
    pub fn update_texture_slots(&mut self, used: &Vec<u32>) -> (done: Result<(), SlotsExhausted>)
        ensures
            done is Ok <==> used@.to_set().len() <= old(self).slots().len(),
            match done {
                Ok(()) => rebalanced(old(self).slots(), used@) == Some(final(self).slots()),
                Err(e) => {
                    &&& rebalanced(old(self).slots(), used@) is None
                    &&& final(self).slots() == old(self).slots()
                    &&& e.capacity == old(self).slots().len()
                },
            },
            well_formed(old(self).slots()),
            well_formed(final(self).slots()),
            final(self).slots().len() == old(self).slots().len(),
    {
        proof {
            use_type_invariant(&*self);
            lemma_released_well_formed(self.slots(), used@.to_set());
            lemma_rebalanced_iff_fits(self.slots(), used@);
        }
        let capacity = self.slots.len();
        let mut next: Vec<Option<u32>> = Vec::new();
        let mut i: usize = 0;
        while i < capacity
            invariant
                i <= capacity,
                capacity == self.slots.len(),
                self.slots() == old(self).slots(),
                next.len() == i,
                forall|j: int|
                    0 <= j < i ==> next[j] == released(self.slots(), used@.to_set())[j],
            decreases capacity - i,
        {
            let kept = match self.slots[i] {
                Some(texture) => if list_contains(used, texture) {
                    Some(texture)
                } else {
                    None
                },
                None => None,
            };
            next.push(kept);
            i += 1;
        }
        assert(next@ =~= released(self.slots(), used@.to_set()));
        let mut k: usize = 0;
        while k < used.len()
            invariant
                k <= used.len(),
                next.len() == capacity,
                capacity <= u16::MAX,
                capacity == self.slots.len(),
                self.slots() == old(self).slots(),
                well_formed(old(self).slots()),
                rebalanced(old(self).slots(), used@) is Some <==> used@.to_set().len() <= old(
                    self,
                ).slots().len(),
                well_formed(next@),
                assigned_all(released(self.slots(), used@.to_set()), used@.take(k as int)) == Some(
                    next@,
                ),
            decreases used.len() - k,
        {
            let texture = used[k];
            proof {
                assert(used@.take(k + 1).drop_last() =~= used@.take(k as int));
                assert(used@.take(k + 1).last() == texture);
            }
            if find_texture(&next, texture).is_none() {
                match find_free(&next) {
                    Some(free) => {
                        proof {
                            lemma_assigned_well_formed(next@, texture);
                        }
                        next[free] = Some(texture);
                    },
                    None => {
                        proof {
                            assert(assigned_all(
                                released(self.slots(), used@.to_set()),
                                used@.take(k + 1),
                            ) is None);
                            lemma_assigned_all_fails_for_good(
                                released(self.slots(), used@.to_set()),
                                used@,
                                k + 1,
                            );
                        }
                        return Err(SlotsExhausted { capacity: capacity as u16 });
                    },
                }
            }
            k += 1;
        }
        assert(used@.take(k as int) =~= used@);
        core::mem::swap(&mut self.slots, &mut next);
        Ok(())
    }
}

impl Clone for TextureSlotAllocator {
    fn clone(&self) -> (copy: TextureSlotAllocator)
        ensures
            copy.slots() == self.slots(),
    {
        proof {
            use_type_invariant(self);
        }
        let mut slots: Vec<Option<u32>> = Vec::new();
        let mut i: usize = 0;
        while i < self.slots.len()
            invariant
                i <= self.slots.len(),
                slots@ == self.slots@.take(i as int),
            decreases self.slots.len() - i,
        {
            slots.push(self.slots[i]);
            i += 1;
            assert(slots@ =~= self.slots@.take(i as int));
        }
        assert(self.slots@.take(i as int) =~= self.slots@);
        TextureSlotAllocator { slots }
    }
}

/// Once a texture has found no slot free, the rest of the list does not
/// mend it.
pub proof fn lemma_assigned_all_fails_for_good(
    slots: Seq<Option<u32>>,
    textures: Seq<u32>,
    k: int,
)
    requires
        0 <= k <= textures.len(),
        assigned_all(slots, textures.take(k)) is None,
    ensures
        assigned_all(slots, textures) is None,
    decreases textures.len() - k,
{
    if k < textures.len() {
        assert(textures.take(k + 1).drop_last() =~= textures.take(k));
        lemma_assigned_all_fails_for_good(slots, textures, k + 1);
    } else {
        assert(textures.take(k) =~= textures);
    }
}

/// What giving slots to a list of textures keeps and what it brings: the
/// slots that were taken stay as they were, and the textures that hold a
/// slot afterwards are those that held one before and those of the list.
pub proof fn lemma_assigned_all(start: Seq<Option<u32>>, textures: Seq<u32>)
    requires
        well_formed(start),
        assigned_all(start, textures) is Some,
    ensures
        well_formed(assigned_all(start, textures)->0),
        assigned_all(start, textures)->0.len() == start.len(),
        forall|i: int|
            0 <= i < start.len() && start[i] is Some ==> assigned_all(start, textures)->0[i]
                == start[i],
        forall|texture: u32|
            holds(assigned_all(start, textures)->0, texture) <==> holds(start, texture)
                || textures.contains(texture),
    decreases textures.len(),
{
    let after = assigned_all(start, textures)->0;
    if textures.len() == 0 {
    } else {
        let front = textures.drop_last();
        let last = textures.last();
        lemma_assigned_all(start, front);
        let before = assigned_all(start, front)->0;
        lemma_assigned_well_formed(before, last);
        lemma_first_free(before);
        assert forall|texture: u32|
            holds(after, texture) <==> holds(start, texture) || textures.contains(texture) by {
            if holds(after, texture) {
                let i = after.index_of(Some(texture));
                assert(after[i] == Some(texture));
                if before[i] == Some(texture) {
                    assert(holds(before, texture));
                    if front.contains(texture) {
                        let j = front.index_of(texture);
                        assert(textures[j] == texture);
                    }
                } else {
                    assert(texture == last);
                    assert(textures[textures.len() - 1] == texture);
                }
            }
            if holds(start, texture) || front.contains(texture) {
                assert(holds(before, texture));
                let i = before.index_of(Some(texture));
                assert(before[i] == Some(texture));
                assert(after[i] == Some(texture));
            }
            if textures.contains(texture) && !front.contains(texture) {
                let j = textures.index_of(texture);
                assert(textures[j] == texture);
                if j < front.len() {
                    assert(front[j] == texture);
                }
                assert(texture == last);
            }
        }
    }
}

/// Where a list of textures finds no room, one texture of the list found
/// all slots taken by others.
proof fn lemma_assigned_all_failure(start: Seq<Option<u32>>, textures: Seq<u32>) -> (k: int)
    requires
        assigned_all(start, textures) is None,
    ensures
        0 <= k < textures.len(),
        assigned_all(start, textures.take(k)) is Some,
        assigned(assigned_all(start, textures.take(k))->0, textures[k]) is None,
    decreases textures.len(),
{
    let front = textures.drop_last();
    if assigned_all(start, front) is None {
        let k = lemma_assigned_all_failure(start, front);
        assert(front.take(k) =~= textures.take(k));
        k
    } else {
        assert(textures.take(textures.len() - 1) =~= front);
        textures.len() - 1
    }
}

/// A binding pass finds room for its textures exactly if there are no more
/// of them, counted once each, than there are slots.
pub proof fn lemma_rebalanced_iff_fits(slots: Seq<Option<u32>>, used: Seq<u32>)
    requires
        well_formed(slots),
    ensures
        rebalanced(slots, used) is Some <==> used.to_set().len() <= slots.len(),
{
    broadcast use vstd::seq_lib::seq_to_set_is_finite;

    let start = released(slots, used.to_set());
    lemma_released_well_formed(slots, used.to_set());
    if rebalanced(slots, used) is Some {
        let after = rebalanced(slots, used)->0;
        lemma_assigned_all(start, used);
        let held = after.map_values(|slot: Option<u32>| texture_or_zero(slot));
        assert forall|texture: u32| used.to_set().contains(texture) implies held.to_set().contains(
            texture,
        ) by {
            assert(holds(after, texture));
            let i = after.index_of(Some(texture));
            assert(after[i] == Some(texture));
            assert(held[i] == texture);
        }
        assert(used.to_set().subset_of(held.to_set()));
        vstd::set_lib::lemma_len_subset(used.to_set(), held.to_set());
        held.lemma_cardinality_of_set();
    } else {
        let k = lemma_assigned_all_failure(start, used);
        let prefix = used.take(k);
        let full = assigned_all(start, prefix)->0;
        let texture = used[k];
        lemma_assigned_all(start, prefix);
        lemma_first_free(full);
        let held = full.map_values(|slot: Option<u32>| texture_or_zero(slot)).push(texture);
        assert forall|i: int, j: int| 0 <= i < held.len() && 0 <= j < held.len() && i != j implies held[i]
            != held[j] by {
            if i < full.len() {
                assert(full[i] == Some(held[i]));
            }
            if j < full.len() {
                assert(full[j] == Some(held[j]));
            }
        }
        assert forall|t: u32| held.to_set().contains(t) implies used.to_set().contains(t) by {
            let i = held.index_of(t);
            assert(held[i] == t);
            if i < full.len() {
                assert(full[i] == Some(t));
                assert(holds(full, t));
                if holds(start, t) {
                    let j = start.index_of(Some(t));
                    assert(start[j] == Some(t));
                } else {
                    let j = prefix.index_of(t);
                    assert(prefix[j] == t);
                    assert(used[j] == t);
                }
            } else {
                assert(used[k] == t);
            }
        }
        assert(held.to_set().subset_of(used.to_set()));
        held.unique_seq_to_set();
        vstd::set_lib::lemma_len_subset(held.to_set(), used.to_set());
    }
}

/// After a binding pass no texture holds two slots, the slots are as many
/// as before, the textures that hold a slot are those that the pass refers
/// to, and those of them that held a slot before hold the same one.
pub proof fn lemma_rebalanced(slots: Seq<Option<u32>>, used: Seq<u32>)
    requires
        well_formed(slots),
        rebalanced(slots, used) is Some,
    ensures
        well_formed(rebalanced(slots, used)->0),
        rebalanced(slots, used)->0.len() == slots.len(),
        forall|texture: u32| holds(rebalanced(slots, used)->0, texture) <==> used.contains(texture),
        forall|i: int|
            0 <= i < slots.len() && slots[i] is Some && used.contains(slots[i]->0) ==> rebalanced(
                slots,
                used,
            )->0[i] == slots[i],
{
    let start = released(slots, used.to_set());
    lemma_released_well_formed(slots, used.to_set());
    lemma_assigned_all(start, used);
    let after = rebalanced(slots, used)->0;
    assert forall|texture: u32| holds(after, texture) <==> used.contains(texture) by {
        if holds(start, texture) {
            let i = start.index_of(Some(texture));
            assert(start[i] == Some(texture));
        }
    }
    assert forall|i: int|
        0 <= i < slots.len() && slots[i] is Some && used.contains(slots[i]->0) implies after[i]
        == slots[i] by {
        assert(start[i] == slots[i]);
    }
}

/// Each texture that holds a slot holds one that exists and no other, two
/// textures never hold the same slot, and no more textures hold a slot than
/// there are slots.
pub proof fn lemma_bindings(slots: Seq<Option<u32>>)
    requires
        well_formed(slots),
    ensures
        forall|texture: u32| #[trigger]
            bindings(slots).contains_key(texture) ==> 0 <= bindings(slots)[texture] < slots.len()
                && slots[bindings(slots)[texture]] == Some(texture),
        forall|i: int|
            0 <= i < slots.len() && (#[trigger] slots[i]) is Some ==> bindings(
                slots,
            )[slots[i]->0] == i,
        forall|a: u32, b: u32|
            bindings(slots).contains_key(a) && bindings(slots).contains_key(b) && a != b
                ==> #[trigger] bindings(slots)[a] != #[trigger] bindings(slots)[b],
        bindings(slots).dom().finite(),
        bindings(slots).dom().len() <= slots.len(),
{
    broadcast use vstd::seq_lib::seq_to_set_is_finite;

    assert forall|texture: u32| #[trigger] bindings(slots).contains_key(texture) implies 0
        <= bindings(slots)[texture] < slots.len() && slots[bindings(slots)[texture]] == Some(
        texture,
    ) by {
        let i = slots.index_of(Some(texture));
        assert(slots[i] == Some(texture));
    }
    assert forall|i: int| 0 <= i < slots.len() && (#[trigger] slots[i]) is Some implies bindings(
        slots,
    )[slots[i]->0] == i by {
        let j = slots.index_of(slots[i]);
        assert(slots[j] == slots[i]);
    }
    let held = slots.map_values(|slot: Option<u32>| texture_or_zero(slot));
    assert forall|texture: u32| bindings(slots).dom().contains(texture) implies held.to_set().contains(
        texture,
    ) by {
        let i = slots.index_of(Some(texture));
        assert(slots[i] == Some(texture));
        assert(held[i] == texture);
    }
    assert(bindings(slots).dom().subset_of(held.to_set()));
    vstd::set_lib::lemma_len_subset(bindings(slots).dom(), held.to_set());
    held.lemma_cardinality_of_set();
}

/// Whatever the binding passes, and whether or not each found room: no
/// texture ever holds two slots, two textures never hold the same slot, and
/// the textures that hold a slot are never more than the slots, whose
/// number does not change.
pub proof fn lemma_passes_keep_slots_apart(slots: Seq<Option<u32>>, passes: Seq<Seq<u32>>)
    requires
        well_formed(slots),
    ensures
        well_formed(after_passes(slots, passes)),
        after_passes(slots, passes).len() == slots.len(),
        bindings(after_passes(slots, passes)).dom().finite(),
        bindings(after_passes(slots, passes)).dom().len() <= slots.len(),
        forall|a: u32, b: u32|
            holds(after_passes(slots, passes), a) && holds(after_passes(slots, passes), b) && a
                != b ==> #[trigger] bindings(after_passes(slots, passes))[a]
                != #[trigger] bindings(after_passes(slots, passes))[b],
    decreases passes.len(),
{
    if passes.len() > 0 {
        let before = after_passes(slots, passes.drop_last());
        lemma_passes_keep_slots_apart(slots, passes.drop_last());
        if rebalanced(before, passes.last()) is Some {
            lemma_rebalanced(before, passes.last());
        }
    }
    lemma_bindings(after_passes(slots, passes));
}

/// A slot that a pass frees, or finds free, goes to the one texture that
/// the pass brings in, where all other slots stay with their textures.
pub proof fn lemma_freed_slot_is_reused(
    slots: Seq<Option<u32>>,
    used: Seq<u32>,
    freed: int,
    incoming: u32,
)
    requires
        well_formed(slots),
        0 <= freed < slots.len(),
        slots[freed] is Some ==> !used.contains(slots[freed]->0),
        forall|i: int|
            0 <= i < slots.len() && i != freed ==> slots[i] is Some && used.contains(slots[i]->0),
        used.contains(incoming),
        !holds(slots, incoming),
        forall|texture: u32|
            used.contains(texture) && texture != incoming ==> holds(slots, texture),
    ensures
        rebalanced(slots, used) == Some(slots.update(freed, Some(incoming))),
{
    let start = released(slots, used.to_set());
    assert(start =~= slots.update(freed, None));
    lemma_reuse_steps(slots, used, freed, incoming, used.len() as int);
    assert(used.take(used.len() as int) =~= used);
}

proof fn lemma_reuse_steps(
    slots: Seq<Option<u32>>,
    used: Seq<u32>,
    freed: int,
    incoming: u32,
    k: int,
)
    requires
        well_formed(slots),
        0 <= freed < slots.len(),
        slots[freed] is Some ==> !used.contains(slots[freed]->0),
        forall|i: int|
            0 <= i < slots.len() && i != freed ==> slots[i] is Some && used.contains(slots[i]->0),
        !holds(slots, incoming),
        forall|texture: u32|
            used.contains(texture) && texture != incoming ==> holds(slots, texture),
        0 <= k <= used.len(),
    ensures
        assigned_all(slots.update(freed, None), used.take(k)) == Some(
            if used.take(k).contains(incoming) {
                slots.update(freed, Some(incoming))
            } else {
                slots.update(freed, None)
            },
        ),
    decreases k,
{
    let start = slots.update(freed, None);
    let target = slots.update(freed, Some(incoming));
    if k > 0 {
        lemma_reuse_steps(slots, used, freed, incoming, k - 1);
        let front = used.take(k - 1);
        let texture = used[k - 1];
        assert(used.take(k).drop_last() =~= front);
        assert(used.take(k).last() == texture);
        assert(used.take(k) =~= front.push(texture));
        assert(used.contains(texture));
        if texture == incoming {
            assert(used.take(k)[k - 1] == incoming);
            if front.contains(incoming) {
                assert(target[freed] == Some(incoming));
            } else {
                assert forall|j: int| 0 <= j < start.len() implies start[j] != Some(incoming) by {
                    if j != freed {
                        assert(slots[j] != Some(incoming));
                    }
                }
                lemma_first_free_is(start, freed);
            }
        } else {
            let i = slots.index_of(Some(texture));
            assert(slots[i] == Some(texture));
            assert(i != freed);
            assert(start[i] == Some(texture));
            assert(target[i] == Some(texture));
            if used.take(k).contains(incoming) {
                let j = used.take(k).index_of(incoming);
                assert(used.take(k)[j] == incoming);
                assert(front[j] == incoming);
            }
            if front.contains(incoming) {
                let j = front.index_of(incoming);
                assert(front[j] == incoming);
                assert(used.take(k)[j] == incoming);
            }
        }
    } else {
        assert(used.take(0) =~= Seq::<u32>::empty());
    }
}

/// While the textures referred to stay the same, whatever their order and
/// however often each is named, every texture keeps its slot.
pub proof fn lemma_rebalanced_is_stable(slots: Seq<Option<u32>>, used: Seq<u32>)
    requires
        forall|texture: u32| holds(slots, texture) <==> used.contains(texture),
    ensures
        rebalanced(slots, used) == Some(slots),
{
    let start = released(slots, used.to_set());
    assert forall|i: int| 0 <= i < slots.len() implies start[i] == slots[i] by {
        if slots[i] is Some {
            assert(holds(slots, slots[i]->0));
        }
    }
    assert(start =~= slots);
    lemma_held_textures_stay(slots, used, used.len() as int);
    assert(used.take(used.len() as int) =~= used);
}

proof fn lemma_held_textures_stay(slots: Seq<Option<u32>>, used: Seq<u32>, k: int)
    requires
        forall|texture: u32| used.contains(texture) ==> holds(slots, texture),
        0 <= k <= used.len(),
    ensures
        assigned_all(slots, used.take(k)) == Some(slots),
    decreases k,
{
    if k > 0 {
        lemma_held_textures_stay(slots, used, k - 1);
        assert(used.take(k).drop_last() =~= used.take(k - 1));
        assert(used.take(k).last() == used[k - 1]);
        assert(used.contains(used[k - 1]));
    }
}

} // verus!
