//! The relocation of duplicates: the destination is validated and probed
//! for writing before any file is moved; then each file is moved once, and
//! a failed move does not stop the others.
use vstd::prelude::*;

verus! {

/// What `std::path::Path::file_name` gives for a path: its last component,
/// or nothing where the path ends in `..` or has no components.
pub uninterp spec fn file_name_of(path: Seq<char>) -> Option<Seq<char>>;

/// The view of an optional string slice.
pub open spec fn opt_str_view(o: Option<&str>) -> Option<Seq<char>> {
    match o {
        Some(s) => Some(s@),
        None => None,
    }
}

/// Relies on `std::path::Path::file_name` for a path given as UTF-8 text;
/// the name is a piece of that text, so it is UTF-8 too.
#[verifier::external_body]
fn path_file_name(path: &str) -> (r: Option<&str>)
    ensures
        opt_str_view(r) == file_name_of(path@),
{
    match std::path::Path::new(path).file_name() {
        Some(name) => name.to_str(),
        None => None,
    }
}

/// The last component of a path that has one.
pub fn get_filename_unchecked(path: &str) -> (r: &str)
    requires
        file_name_of(path@) is Some,
    ensures
        r@ == file_name_of(path@)->0,
{
    match path_file_name(path) {
        Some(name) => name,
        None => {
            assert(false);
            path
        },
    }
}

/// The last component of a path, or `None` where the path ends in `..` or
/// has no components.
pub fn get_filename(path: &str) -> (r: Option<&str>)
    ensures
        opt_str_view(r) == file_name_of(path@),
{
    match path_file_name(path) {
        Some(_) => Some(get_filename_unchecked(path)),
        None => None,
    }
}

/// Where a relocation stands.
#[derive(Clone, Copy, Debug, PartialEq, Eq, Structural)]
pub enum RelocationState {
    Idle,
    ValidatingDestination,
    Probing,
    /// Moving the file at position `current`.
    Moving { current: usize },
    Done,
    Aborted,
}

/// What happened since the last step.
#[derive(Clone, Copy, Debug, PartialEq, Eq, Structural)]
pub enum RelocationEvent {
    Start,
    /// The destination exists (or was created) and can be listed.
    DestinationReady,
    DestinationFailed,
    /// A marker file was written to the destination and removed.
    ProbeSucceeded,
    ProbeFailed,
    /// The current move is over, whether it succeeded or not.
    MoveFinished,
}

/// What the caller is to do next.
#[derive(Clone, Copy, Debug, PartialEq, Eq, Structural)]
pub enum RelocationAction {
    /// There are no files: report that, and leave the destination alone.
    ReportNothingToMove,
    /// Create the destination if it is missing, else check it can be listed.
    CheckDestination,
    /// Write a marker file into the destination and remove it.
    ProbeDestination,
    /// Move the file at this position into the destination.
    MoveFile(usize),
    /// Every file has been attempted.
    Finish,
    /// The destination cannot be written: stop before moving anything.
    Abort,
    /// The event does not apply in this state.
    Ignore,
}

/// One step of the relocation of `files` files.
pub open spec fn relocation_step(files: nat, s: RelocationState, e: RelocationEvent) -> (
    RelocationState,
    RelocationAction,
) {
    match (s, e) {
        (RelocationState::Idle, RelocationEvent::Start) => if files == 0 {
            (RelocationState::Done, RelocationAction::ReportNothingToMove)
        } else {
            (RelocationState::ValidatingDestination, RelocationAction::CheckDestination)
        },
        (RelocationState::ValidatingDestination, RelocationEvent::DestinationReady) => (
            RelocationState::Probing,
            RelocationAction::ProbeDestination,
        ),
        (RelocationState::ValidatingDestination, RelocationEvent::DestinationFailed) => (
            RelocationState::Aborted,
            RelocationAction::Abort,
        ),
        (RelocationState::Probing, RelocationEvent::ProbeSucceeded) => (
            RelocationState::Moving { current: 0 },
            RelocationAction::MoveFile(0),
        ),
        (RelocationState::Probing, RelocationEvent::ProbeFailed) => (
            RelocationState::Aborted,
            RelocationAction::Abort,
        ),
        (RelocationState::Moving { current }, RelocationEvent::MoveFinished) => if current + 1 < files {
            (
                RelocationState::Moving { current: (current + 1) as usize },
                RelocationAction::MoveFile((current + 1) as usize),
            )
        } else {
            (RelocationState::Done, RelocationAction::Finish)
        },
        _ => (s, RelocationAction::Ignore),
    }
}

/// The relocation of a set of files, by position.
#[derive(Clone, Copy, Debug, PartialEq, Eq, Structural)]
pub struct Relocation {
    pub files: usize,
    pub state: RelocationState,
}

impl Relocation {
    /// A relocation of `files` files that has not started.
    pub fn new(files: usize) -> (r: Relocation)
        ensures
            r == (Relocation { files, state: RelocationState::Idle }),
    {
        Relocation { files, state: RelocationState::Idle }
    }

    /// Takes one event and says what to do next.
    pub fn step(&mut self, event: RelocationEvent) -> (r: RelocationAction)
        ensures
            final(self).files == old(self).files,
            (final(self).state, r) == relocation_step(old(self).files as nat, old(self).state, event),
    {
        let (state, action) = match (self.state, event) {
            (RelocationState::Idle, RelocationEvent::Start) => if self.files == 0 {
                (RelocationState::Done, RelocationAction::ReportNothingToMove)
            } else {
                (RelocationState::ValidatingDestination, RelocationAction::CheckDestination)
            },
            (RelocationState::ValidatingDestination, RelocationEvent::DestinationReady) => (
                RelocationState::Probing,
                RelocationAction::ProbeDestination,
            ),
            (RelocationState::ValidatingDestination, RelocationEvent::DestinationFailed) => (
                RelocationState::Aborted,
                RelocationAction::Abort,
            ),
            (RelocationState::Probing, RelocationEvent::ProbeSucceeded) => (
                RelocationState::Moving { current: 0 },
                RelocationAction::MoveFile(0),
            ),
            (RelocationState::Probing, RelocationEvent::ProbeFailed) => (
                RelocationState::Aborted,
                RelocationAction::Abort,
            ),
            (RelocationState::Moving { current }, RelocationEvent::MoveFinished) => if current
                < self.files && current + 1 < self.files {
                (
                    RelocationState::Moving { current: current + 1 },
                    RelocationAction::MoveFile(current + 1),
                )
            } else {
                (RelocationState::Done, RelocationAction::Finish)
            },
            _ => (self.state, RelocationAction::Ignore),
        };
        self.state = state;
        action
    }
}

/// The state and the actions of a relocation of `files` files after
/// `events`, from the start.
pub open spec fn relocation_run(files: nat, events: Seq<RelocationEvent>) -> (
    RelocationState,
    Seq<RelocationAction>,
)
    decreases events.len(),
{
    if events.len() == 0 {
        (RelocationState::Idle, Seq::empty())
    } else {
        let (s, acts) = relocation_run(files, events.drop_last());
        let (s2, a) = relocation_step(files, s, events.last());
        (s2, acts.push(a))
    }
}

/// The moves among `actions`, in order.
pub open spec fn moves(actions: Seq<RelocationAction>) -> Seq<RelocationAction> {
    actions.filter(|a: RelocationAction| a is MoveFile)
}

/// The moves of the first `n` files, in order.
pub open spec fn moves_of_first(n: nat) -> Seq<RelocationAction> {
    Seq::new(n, |k: int| RelocationAction::MoveFile(k as usize))
}

/// What the moves so far are, in each state.
pub open spec fn moves_match_state(files: nat, s: RelocationState, m: Seq<RelocationAction>) -> bool {
    match s {
        RelocationState::Moving { current } => current < files && m == moves_of_first((current + 1) as nat),
        RelocationState::Done => m == moves_of_first(files) || (files == 0 && m.len() == 0),
        RelocationState::ValidatingDestination | RelocationState::Probing => files > 0 && m.len() == 0,
        _ => m.len() == 0,
    }
}

proof fn lemma_run_moves(files: nat, events: Seq<RelocationEvent>)
    requires
        files <= usize::MAX,
    ensures
        moves_match_state(files, relocation_run(files, events).0, moves(relocation_run(files, events).1)),
    decreases events.len(),
{
    reveal(Seq::filter);
    if events.len() > 0 {
        lemma_run_moves(files, events.drop_last());
        let (s, acts) = relocation_run(files, events.drop_last());
        let (s2, a) = relocation_step(files, s, events.last());
        let pred = |x: RelocationAction| x is MoveFile;
        assert(acts.push(a).drop_last() =~= acts);
        let m = moves(acts);
        assert(relocation_run(files, events) == (s2, acts.push(a)));
        assert(moves(acts.push(a)) == if a is MoveFile {
            m.push(a)
        } else {
            m
        });
        if let RelocationState::Moving { current } = s {
            assert(m == moves_of_first((current + 1) as nat));
            if events.last() is MoveFinished && s2 is Moving {
                assert(current + 1 < files);
                assert(a == RelocationAction::MoveFile((current + 1) as usize));
                let want = moves_of_first((current + 2) as nat);
                assert(m.push(a).len() == want.len());
                assert forall|k: int| 0 <= k < want.len() implies m.push(a)[k] == want[k] by {
                    if k < m.len() {
                        assert(m[k] == RelocationAction::MoveFile(k as usize));
                    }
                }
                assert(m.push(a) =~= want);
            }
        }
        if s is Probing && s2 is Moving {
            assert(m.push(a) =~= moves_of_first(1));
        }
    }
}

/// Relocation is all-or-nothing at the validation boundary: a relocation
/// that aborted has moved nothing; one that is done has attempted every
/// file exactly once, in order; and at any point the moves so far are those
/// of the first few files, each once.
pub proof fn lemma_relocation_all_or_nothing(files: nat, events: Seq<RelocationEvent>)
    requires
        files <= usize::MAX,
    ensures
        relocation_run(files, events).0 is Aborted ==> moves(relocation_run(files, events).1).len() == 0,
        relocation_run(files, events).0 is Done ==> moves(relocation_run(files, events).1)
            == moves_of_first(files),
        exists|n: nat|
            n <= files && moves(relocation_run(files, events).1) == #[trigger] moves_of_first(n),
{
    lemma_run_moves(files, events);
    let m = moves(relocation_run(files, events).1);
    let s = relocation_run(files, events).0;
    if s is Done && m.len() == 0 {
        assert(m =~= moves_of_first(files));
    }
    match s {
        RelocationState::Moving { current } => {
            assert(m == moves_of_first((current + 1) as nat));
        },
        RelocationState::Done => {
            assert(m == moves_of_first(files));
        },
        _ => {
            assert(m =~= moves_of_first(0));
        },
    }
}

} // verus!
