use codex_toolkit::event_monitor::{
    monitor_target, Debounce, DebounceAction, DebounceEvent, EventMonitorRegistry,
    MONITOR_DEBOUNCE_SECS,
};
use codex_toolkit::path::{LocalPath, PathComponent};

fn name(text: &str) -> PathComponent {
    PathComponent::Normal(text.as_bytes().to_vec())
}

#[test]
fn a_monitor_watches_the_directory_of_its_file() {
    let path = LocalPath { components: vec![PathComponent::RootDir, name("etc"), name("hosts")] };
    let target = monitor_target(&path);
    assert_eq!(
        target.dir,
        LocalPath { components: vec![PathComponent::RootDir, name("etc")] }
    );
    assert_eq!(target.file_name, Some(b"hosts".to_vec()));
    assert!(target.is_hit(&vec![Some(b"other".to_vec()), Some(b"hosts".to_vec())]));
    assert!(!target.is_hit(&vec![Some(b"hosts~".to_vec()), None]));
    assert!(!target.is_hit(&Vec::new()));
}

#[test]
fn a_path_without_a_file_name_takes_every_event() {
    let root = monitor_target(&LocalPath { components: vec![PathComponent::RootDir] });
    assert_eq!(root.dir, LocalPath { components: vec![PathComponent::CurDir] });
    assert_eq!(root.file_name, None);
    assert!(root.is_hit(&Vec::new()));
}

fn run(events: &[DebounceEvent]) -> Vec<DebounceAction> {
    let mut state = Debounce::Idle;
    let mut actions = Vec::new();
    for event in events {
        let (after, action) = state.step(*event);
        state = after;
        actions.push(action);
    }
    actions
}

#[test]
fn a_burst_of_changes_fires_once() {
    assert_eq!(MONITOR_DEBOUNCE_SECS, 2);
    assert_eq!(
        run(&[
            DebounceEvent::Changed,
            DebounceEvent::Changed,
            DebounceEvent::Quiet,
            DebounceEvent::Quiet,
            DebounceEvent::Changed,
            DebounceEvent::Closed,
            DebounceEvent::Changed,
        ]),
        [
            DebounceAction::AwaitQuiet,
            DebounceAction::AwaitQuiet,
            DebounceAction::Fire,
            DebounceAction::AwaitChange,
            DebounceAction::AwaitQuiet,
            DebounceAction::Exit,
            DebounceAction::Exit,
        ]
    );
}

#[test]
fn a_registry_gives_each_monitor_its_own_id() {
    let mut registry: EventMonitorRegistry<&str, char> = EventMonitorRegistry::default();
    assert!(registry.is_empty());
    let started = |handle: char| -> Result<char, String> { Ok(handle) };
    assert_eq!(registry.add("/a", "look".to_string(), started('a')), Ok(0));
    assert_eq!(
        registry.add("/x", "look".to_string(), Err("no watcher".to_string())),
        Err("no watcher".to_string())
    );
    assert_eq!(registry.next_id(), 1);
    assert_eq!(registry.add("/b", "read".to_string(), started('b')), Ok(1));
    assert_eq!(registry.list(), vec![(0, &"/a", "look"), (1, &"/b", "read")]);

    assert!(registry.stop(7).is_none());
    let stopped = registry.stop(0).unwrap();
    assert_eq!((stopped.id, stopped.path, stopped.handle), (0, "/a", 'a'));
    assert!(registry.stop(0).is_none());
    assert_eq!(registry.list(), vec![(1, &"/b", "read")]);
    assert_eq!(registry.add("/c", "look".to_string(), started('c')), Ok(2));
    assert!(!registry.is_empty());
}
