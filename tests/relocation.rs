use img_dedup::{
    get_filename, get_filename_unchecked, Relocation, RelocationAction, RelocationEvent,
    RelocationState,
};

fn run(files: usize, events: &[RelocationEvent]) -> (Relocation, Vec<RelocationAction>) {
    let mut r = Relocation::new(files);
    let actions = events.iter().map(|&e| r.step(e)).collect();
    (r, actions)
}

fn move_count(actions: &[RelocationAction]) -> usize {
    actions.iter().filter(|a| matches!(a, RelocationAction::MoveFile(_))).count()
}

#[test]
fn successful_relocation_moves_each_file_once() {
    let (r, actions) = run(
        3,
        &[RelocationEvent::Start, RelocationEvent::DestinationReady, RelocationEvent::ProbeSucceeded, RelocationEvent::MoveFinished, RelocationEvent::MoveFinished, RelocationEvent::MoveFinished],
    );
    assert_eq!(
        actions,
        vec![
            RelocationAction::CheckDestination,
            RelocationAction::ProbeDestination,
            RelocationAction::MoveFile(0),
            RelocationAction::MoveFile(1),
            RelocationAction::MoveFile(2),
            RelocationAction::Finish,
        ]
    );
    assert_eq!(r.state, RelocationState::Done);
}

#[test]
fn failed_probe_moves_nothing() {
    let (r, actions) = run(4, &[RelocationEvent::Start, RelocationEvent::DestinationReady, RelocationEvent::ProbeFailed, RelocationEvent::MoveFinished, RelocationEvent::ProbeSucceeded]);
    assert_eq!(r.state, RelocationState::Aborted);
    assert_eq!(actions[2], RelocationAction::Abort);
    assert_eq!(move_count(&actions), 0);
}

#[test]
fn unwritable_destination_aborts_before_any_move() {
    let (r, actions) = run(2, &[RelocationEvent::Start, RelocationEvent::DestinationFailed, RelocationEvent::ProbeSucceeded, RelocationEvent::MoveFinished]);
    assert_eq!(
        actions,
        vec![
            RelocationAction::CheckDestination,
            RelocationAction::Abort,
            RelocationAction::Ignore,
            RelocationAction::Ignore,
        ]
    );
    assert_eq!(r.state, RelocationState::Aborted);
    assert_eq!(move_count(&actions), 0);
}

#[test]
fn nothing_to_move_leaves_destination_alone() {
    let (r, actions) = run(0, &[RelocationEvent::Start, RelocationEvent::DestinationReady, RelocationEvent::ProbeSucceeded]);
    assert_eq!(
        actions,
        vec![RelocationAction::ReportNothingToMove, RelocationAction::Ignore, RelocationAction::Ignore]
    );
    assert_eq!(r.state, RelocationState::Done);
}

#[test]
fn file_names_of_paths() {
    assert_eq!(get_filename_unchecked("/photos/cat.png"), "cat.png");
    assert_eq!(get_filename_unchecked("cat.png"), "cat.png");
    assert_eq!(get_filename("dir/sub/"), Some("sub"));
    assert_eq!(get_filename("dir/.."), None);
    assert_eq!(get_filename("/"), None);
}
