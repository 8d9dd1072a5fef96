use opengl_rust::renderer::buffer::{
    map_step, MapAction, MapError, MapEvent, MapRange, MapState, MapStep,
};

#[test]
fn map_range_is_in_bytes() {
    assert_eq!(MapRange::new(0, 36), Some(MapRange { offset: 0, size: 144 }));
    assert_eq!(MapRange::new(16, 291), Some(MapRange { offset: 16, size: 1164 }));
    assert_eq!(MapRange::new(0, 0), Some(MapRange { offset: 0, size: 0 }));
    assert_eq!(MapRange::new(usize::MAX, 1), None);
    assert_eq!(MapRange::new(0, usize::MAX / 2), None);
    assert_eq!(MapRange::new(0, isize::MAX as usize / 4 + 1), None);
    assert!(MapRange::new(isize::MAX as usize, isize::MAX as usize / 4).is_some());
}

fn run(events: &[MapEvent]) -> (MapState, Vec<MapAction>, Vec<Result<(), MapError>>) {
    let mut state = MapState::Unbound;
    let mut actions = Vec::new();
    let mut outcomes = Vec::new();
    for event in events {
        let step = map_step(state, *event);
        state = step.state;
        if step.action != MapAction::Nothing {
            actions.push(step.action);
        }
        if let Some(outcome) = step.outcome {
            outcomes.push(outcome);
        }
    }
    (state, actions, outcomes)
}

#[test]
fn a_write_maps_writes_unmaps_and_unbinds() {
    let (state, actions, outcomes) = run(&[
        MapEvent::Start,
        MapEvent::MapReturned { mapped: true },
        MapEvent::UnmapReturned { intact: true },
    ]);
    assert_eq!(state, MapState::Done);
    assert_eq!(actions, vec![MapAction::BindAndMap, MapAction::WriteAndUnmap, MapAction::Unbind]);
    assert_eq!(outcomes, vec![Ok(())]);
}

#[test]
fn a_failed_map_unbinds_and_reports() {
    let (state, actions, outcomes) = run(&[
        MapEvent::Start,
        MapEvent::MapReturned { mapped: false },
        MapEvent::UnmapReturned { intact: true },
    ]);
    assert_eq!(state, MapState::Done);
    assert_eq!(actions, vec![MapAction::BindAndMap, MapAction::Unbind]);
    assert_eq!(outcomes, vec![Err(MapError::MapFailed)]);
    assert_eq!(MapError::MapFailed.message(), "Failed to map buffer");
}

#[test]
fn a_failed_unmap_unbinds_and_reports() {
    let (state, actions, outcomes) = run(&[
        MapEvent::Start,
        MapEvent::MapReturned { mapped: true },
        MapEvent::UnmapReturned { intact: false },
    ]);
    assert_eq!(state, MapState::Done);
    assert_eq!(actions, vec![MapAction::BindAndMap, MapAction::WriteAndUnmap, MapAction::Unbind]);
    assert_eq!(outcomes, vec![Err(MapError::UnmapFailed)]);
    assert_eq!(MapError::UnmapFailed.message(), "Failed to unmap buffer");
}

#[test]
fn events_out_of_turn_change_nothing() {
    let idle = MapStep { state: MapState::Unbound, action: MapAction::Nothing, outcome: None };
    assert_eq!(map_step(MapState::Unbound, MapEvent::MapReturned { mapped: true }), idle);
    assert_eq!(map_step(MapState::Unbound, MapEvent::UnmapReturned { intact: true }), idle);
    assert_eq!(map_step(MapState::AwaitingMap, MapEvent::Start).state, MapState::AwaitingMap);
    assert_eq!(
        map_step(MapState::AwaitingMap, MapEvent::UnmapReturned { intact: true }).action,
        MapAction::Nothing
    );
    assert_eq!(
        map_step(MapState::AwaitingUnmap, MapEvent::MapReturned { mapped: false }).outcome,
        None
    );
    assert_eq!(map_step(MapState::Done, MapEvent::Start).state, MapState::Done);
    let (state, actions, outcomes) =
        run(&[MapEvent::MapReturned { mapped: true }, MapEvent::Start, MapEvent::Start]);
    assert_eq!(state, MapState::AwaitingMap);
    assert_eq!(actions, vec![MapAction::BindAndMap]);
    assert!(outcomes.is_empty());
}
