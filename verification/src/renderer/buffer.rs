//! Writing a packed block into a buffer of the device: the region is
//! mapped, written through, and unmapped again. The device does the work;
//! what is decided here is which call comes next and how the write ended.

use vstd::prelude::*;

verus! {

/// The bytes of one word of a block.
pub const WORD_BYTES: usize = 4;

/// A region of a buffer, in bytes, as the device takes it.
#[derive(Clone, Copy, Debug, PartialEq, Eq)]
pub struct MapRange {
    pub offset: isize,
    pub size: isize,
}

impl MapRange {
    /// The region of `words` words that starts `offset` bytes into the
    /// buffer, where both the offset and the size in bytes can be handed to
    /// the device.
    pub fn new(offset: usize, words: usize) -> (range: Option<MapRange>)
        ensures
            range == if offset <= isize::MAX && words * WORD_BYTES <= isize::MAX {
                Some(MapRange { offset: offset as isize, size: (words * WORD_BYTES) as isize })
            } else {
                None
            },
    {
        if offset > isize::MAX as usize || words > isize::MAX as usize / WORD_BYTES {
            return None;
        }
        Some(MapRange { offset: offset as isize, size: (words * WORD_BYTES) as isize })
    }
}

/// Where a write stands.
#[derive(Clone, Copy, Debug, PartialEq, Eq, Structural)]
pub enum MapState {
    /// Nothing has been asked of the device yet.
    Unbound,
    /// The buffer is bound and the device has been asked for the region.
    AwaitingMap,
    /// The region is mapped: the block is written, the unmapping asked for.
    AwaitingUnmap,
    /// The buffer is unbound again and the outcome known.
    Done,
}

/// What the caller reports.
#[derive(Clone, Copy, Debug, PartialEq, Eq, Structural)]
pub enum MapEvent {
    /// The write is to begin.
    Start,
    /// The device has answered the mapping; `mapped` where it gave a region.
    MapReturned { mapped: bool },
    /// The device has answered the unmapping; `intact` where the contents
    /// of the region were kept.
    UnmapReturned { intact: bool },
}

/// What the caller is to do next.
#[derive(Clone, Copy, Debug, PartialEq, Eq, Structural)]
pub enum MapAction {
    /// Bind the buffer and map the region for writing.
    BindAndMap,
    /// Write the block through the mapped region, then unmap it.
    WriteAndUnmap,
    /// Unbind the buffer.
    Unbind,
    /// Nothing: the event does not belong here.
    Nothing,
}

/// Why a write failed.
#[derive(Clone, Copy, Debug, PartialEq, Eq, Structural)]
pub enum MapError {
    /// The device gave no region.
    MapFailed,
    /// The device lost the contents of the region.
    UnmapFailed,
}

impl MapError {
    /// The words in which the fault is reported.
    pub fn message(&self) -> (message: &'static str)
        ensures
            message@ == match self {
                MapError::MapFailed => "Failed to map buffer"@,
                MapError::UnmapFailed => "Failed to unmap buffer"@,
            },
    {
        match self {
            MapError::MapFailed => "Failed to map buffer",
            MapError::UnmapFailed => "Failed to unmap buffer",
        }
    }
}

/// One step of a write: the state after the event, what to do next, and the
/// outcome where the write has ended.
#[derive(Clone, Copy, Debug, PartialEq, Eq)]
pub struct MapStep {
    pub state: MapState,
    pub action: MapAction,
    pub outcome: Option<Result<(), MapError>>,
}

/// The step that an event brings about in a state. An event that does not
/// belong in the state changes nothing.
pub open spec fn next(state: MapState, event: MapEvent) -> MapStep {
    match (state, event) {
        (MapState::Unbound, MapEvent::Start) => MapStep {
            state: MapState::AwaitingMap,
            action: MapAction::BindAndMap,
            outcome: None,
        },
        (MapState::AwaitingMap, MapEvent::MapReturned { mapped: true }) => MapStep {
            state: MapState::AwaitingUnmap,
            action: MapAction::WriteAndUnmap,
            outcome: None,
        },
        (MapState::AwaitingMap, MapEvent::MapReturned { mapped: false }) => MapStep {
            state: MapState::Done,
            action: MapAction::Unbind,
            outcome: Some(Err(MapError::MapFailed)),
        },
        (MapState::AwaitingUnmap, MapEvent::UnmapReturned { intact: true }) => MapStep {
            state: MapState::Done,
            action: MapAction::Unbind,
            outcome: Some(Ok(())),
        },
        (MapState::AwaitingUnmap, MapEvent::UnmapReturned { intact: false }) => MapStep {
            state: MapState::Done,
            action: MapAction::Unbind,
            outcome: Some(Err(MapError::UnmapFailed)),
        },
        _ => MapStep { state, action: MapAction::Nothing, outcome: None },
    }
}

/// The step that an event brings about in a state.
pub fn map_step(state: MapState, event: MapEvent) -> (step: MapStep)
    ensures
        step == next(state, event),
{
    match (state, event) {
        (MapState::Unbound, MapEvent::Start) => MapStep {
            state: MapState::AwaitingMap,
            action: MapAction::BindAndMap,
            outcome: None,
        },
        (MapState::AwaitingMap, MapEvent::MapReturned { mapped }) => {
            if mapped {
                MapStep {
                    state: MapState::AwaitingUnmap,
                    action: MapAction::WriteAndUnmap,
                    outcome: None,
                }
            } else {
                MapStep {
                    state: MapState::Done,
                    action: MapAction::Unbind,
                    outcome: Some(Err(MapError::MapFailed)),
                }
            }
        },
        (MapState::AwaitingUnmap, MapEvent::UnmapReturned { intact }) => {
            if intact {
                MapStep { state: MapState::Done, action: MapAction::Unbind, outcome: Some(Ok(())) }
            } else {
                MapStep {
                    state: MapState::Done,
                    action: MapAction::Unbind,
                    outcome: Some(Err(MapError::UnmapFailed)),
                }
            }
        },
        _ => MapStep { state, action: MapAction::Nothing, outcome: None },
    }
}

/// The state after a run of events.
pub open spec fn run(state: MapState, events: Seq<MapEvent>) -> MapState
    decreases events.len(),
{
    if events.len() == 0 {
        state
    } else {
        next(run(state, events.drop_last()), events.last()).state
    }
}

/// What a run of events asked of the caller, in order.
pub open spec fn actions(state: MapState, events: Seq<MapEvent>) -> Seq<MapAction>
    decreases events.len(),
{
    if events.len() == 0 {
        Seq::empty()
    } else {
        let before = actions(state, events.drop_last());
        let step = next(run(state, events.drop_last()), events.last());
        if step.action == MapAction::Nothing {
            before
        } else {
            before.push(step.action)
        }
    }
}

/// The outcomes that a run of events reported, in order.
pub open spec fn outcomes(state: MapState, events: Seq<MapEvent>) -> Seq<Result<(), MapError>>
    decreases events.len(),
{
    if events.len() == 0 {
        Seq::empty()
    } else {
        let before = outcomes(state, events.drop_last());
        match next(run(state, events.drop_last()), events.last()).outcome {
            Some(outcome) => before.push(outcome),
            None => before,
        }
    }
}

/// Whatever the caller reports and in whatever order, a write is asked to
/// do one of three things and no other: map and, on failure, unbind; map,
/// write and unmap, and unbind; or a beginning of one of these. So a region
/// that was mapped is unmapped before any outcome is reported, the buffer
/// is unbound on every way out, and exactly one outcome is reported, with
/// the last step.
pub proof fn lemma_every_run_releases(events: Seq<MapEvent>)
    ensures
        match run(MapState::Unbound, events) {
            MapState::Unbound => {
                &&& actions(MapState::Unbound, events) == Seq::<MapAction>::empty()
                &&& outcomes(MapState::Unbound, events) == Seq::<Result<(), MapError>>::empty()
            },
            MapState::AwaitingMap => {
                &&& actions(MapState::Unbound, events) == seq![MapAction::BindAndMap]
                &&& outcomes(MapState::Unbound, events) == Seq::<Result<(), MapError>>::empty()
            },
            MapState::AwaitingUnmap => {
                &&& actions(MapState::Unbound, events) == seq![
                    MapAction::BindAndMap,
                    MapAction::WriteAndUnmap,
                ]
                &&& outcomes(MapState::Unbound, events) == Seq::<Result<(), MapError>>::empty()
            },
            MapState::Done => {
                ||| {
                    &&& actions(MapState::Unbound, events) == seq![
                        MapAction::BindAndMap,
                        MapAction::Unbind,
                    ]
                    &&& outcomes(MapState::Unbound, events) == seq![
                        Err::<(), MapError>(MapError::MapFailed),
                    ]
                }
                ||| {
                    &&& actions(MapState::Unbound, events) == seq![
                        MapAction::BindAndMap,
                        MapAction::WriteAndUnmap,
                        MapAction::Unbind,
                    ]
                    &&& (outcomes(MapState::Unbound, events) == seq![Ok::<(), MapError>(())]
                        || outcomes(MapState::Unbound, events) == seq![
                        Err::<(), MapError>(MapError::UnmapFailed),
                    ])
                }
            },
        },
    decreases events.len(),
{
    if events.len() > 0 {
        let front = events.drop_last();
        lemma_every_run_releases(front);
        let before = actions(MapState::Unbound, front);
        let reported = outcomes(MapState::Unbound, front);
        let step = next(run(MapState::Unbound, front), events.last());
        if step.action != MapAction::Nothing {
            assert(actions(MapState::Unbound, events) =~= before.push(step.action));
        }
        match step.outcome {
            Some(outcome) => {
                assert(outcomes(MapState::Unbound, events) =~= reported.push(outcome));
            },
            None => {},
        }
        match run(MapState::Unbound, events) {
            MapState::Unbound => {},
            MapState::AwaitingMap => {
                assert(actions(MapState::Unbound, events) =~= seq![MapAction::BindAndMap]);
            },
            MapState::AwaitingUnmap => {
                assert(actions(MapState::Unbound, events) =~= seq![
                    MapAction::BindAndMap,
                    MapAction::WriteAndUnmap,
                ]);
            },
            MapState::Done => {
                if run(MapState::Unbound, front) == MapState::AwaitingMap {
                    assert(actions(MapState::Unbound, events) =~= seq![
                        MapAction::BindAndMap,
                        MapAction::Unbind,
                    ]);
                    assert(outcomes(MapState::Unbound, events) =~= seq![
                        Err::<(), MapError>(MapError::MapFailed),
                    ]);
                } else if run(MapState::Unbound, front) == MapState::AwaitingUnmap {
                    assert(actions(MapState::Unbound, events) =~= seq![
                        MapAction::BindAndMap,
                        MapAction::WriteAndUnmap,
                        MapAction::Unbind,
                    ]);
                    if step.outcome == Some(Ok::<(), MapError>(())) {
                        assert(outcomes(MapState::Unbound, events) =~= seq![
                            Ok::<(), MapError>(()),
                        ]);
                    } else {
                        assert(outcomes(MapState::Unbound, events) =~= seq![
                            Err::<(), MapError>(MapError::UnmapFailed),
                        ]);
                    }
                }
            },
        }
    }
}

} // verus!
