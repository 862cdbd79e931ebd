use vstd::prelude::*;
use crate::paths::opt_view;
use crate::scan::{EntryModel, is_marker, marks_parent};

verus! {

/// Where a run stands.
#[derive(Clone, Copy, Debug, PartialEq, Eq, Structural)]
pub enum Stage {
    /// The walk of the repository is going on; markers are being collected.
    Scanning,
    /// The operator is asked to confirm; the run waits for a line of input.
    Confirming,
    /// The collected directories are being removed, in order.
    Removing,
    /// Every collected directory was removed.
    Finished,
    /// The run stopped on an error.
    Failed,
}

/// Why a run stopped.
#[derive(Debug, PartialEq, Eq)]
pub enum CleanError {
    /// The repository directory does not exist, or is no directory.
    InvalidRepository(String),
    /// The operator's confirmation could not be read.
    InputRead,
    /// This directory could not be removed.
    Deletion(String),
}

pub enum ErrorModel {
    InvalidRepository(Seq<char>),
    InputRead,
    Deletion(Seq<char>),
}

impl View for CleanError {
    type V = ErrorModel;

    open spec fn view(&self) -> ErrorModel {
        match self {
            CleanError::InvalidRepository(p) => ErrorModel::InvalidRepository(p@),
            CleanError::InputRead => ErrorModel::InputRead,
            CleanError::Deletion(p) => ErrorModel::Deletion(p@),
        }
    }
}

/// What the outside world reports to a run.
#[derive(Debug, PartialEq, Eq)]
pub enum Event {
    /// The walk met an entry: its final name component, and the directory
    /// that holds it.
    Entry { name: String, parent: Option<String> },
    /// The walk met an entry that could not be read.
    EntryUnreadable,
    /// The walk is over.
    WalkDone,
    /// A line of input arrived, or the input was closed; its content is not
    /// looked at.
    LineRead,
    /// Reading the input failed.
    InputFailed,
    /// The directory named by the last `Remove` action was removed.
    DirRemoved,
    /// The directory named by the last `Remove` action could not be removed.
    RemoveFailed,
}

pub enum EventModel {
    Entry(EntryModel),
    EntryUnreadable,
    WalkDone,
    LineRead,
    InputFailed,
    DirRemoved,
    RemoveFailed,
}

impl View for Event {
    type V = EventModel;

    open spec fn view(&self) -> EventModel {
        match self {
            Event::Entry { name, parent } => EventModel::Entry(
                EntryModel { name: name@, parent: opt_view(*parent) },
            ),
            Event::EntryUnreadable => EventModel::EntryUnreadable,
            Event::WalkDone => EventModel::WalkDone,
            Event::LineRead => EventModel::LineRead,
            Event::InputFailed => EventModel::InputFailed,
            Event::DirRemoved => EventModel::DirRemoved,
            Event::RemoveFailed => EventModel::RemoveFailed,
        }
    }
}

/// What a run asks the outside world to do next.
#[derive(Debug, PartialEq, Eq)]
pub enum Action {
    /// Show that the walk is at the entry of this name, then go on walking.
    Progress(String),
    /// Tell the operator how many directories were found, and read a line.
    Prompt(usize),
    /// Remove this directory and all it holds, then report the outcome.
    Remove(String),
    /// Report that this many directories were removed; the run is over.
    Finish(usize),
    /// Report the error; the run is over.
    Fail(CleanError),
    /// Nothing to do for this event.
    Wait,
}

pub enum ActionModel {
    Progress(Seq<char>),
    Prompt(nat),
    Remove(Seq<char>),
    Finish(nat),
    Fail(ErrorModel),
    Wait,
}

impl View for Action {
    type V = ActionModel;

    open spec fn view(&self) -> ActionModel {
        match self {
            Action::Progress(n) => ActionModel::Progress(n@),
            Action::Prompt(k) => ActionModel::Prompt(*k as nat),
            Action::Remove(p) => ActionModel::Remove(p@),
            Action::Finish(k) => ActionModel::Finish(*k as nat),
            Action::Fail(e) => ActionModel::Fail(e@),
            Action::Wait => ActionModel::Wait,
        }
    }
}

/// One run of the cleaner: the directories collected so far and how far their
/// removal has gone.
pub struct Cleanup {
    stage: Stage,
    silent: bool,
    candidates: Vec<String>,
    removed: usize,
}

pub struct CleanupModel {
    pub stage: Stage,
    pub silent: bool,
    pub candidates: Seq<Seq<char>>,
    pub removed: nat,
}

impl View for Cleanup {
    type V = CleanupModel;

    closed spec fn view(&self) -> CleanupModel {
        CleanupModel {
            stage: self.stage,
            silent: self.silent,
            candidates: self.candidates@.map_values(|s: String| s@),
            removed: self.removed as nat,
        }
    }
}

/// The states that a run can reach.
pub open spec fn model_wf(m: CleanupModel) -> bool {
    &&& m.removed <= m.candidates.len()
    &&& (m.stage == Stage::Scanning ==> m.removed == 0)
    &&& (m.stage == Stage::Confirming ==> m.candidates.len() > 0 && !m.silent && m.removed == 0)
    &&& (m.stage == Stage::Removing ==> m.removed < m.candidates.len())
    &&& (m.stage == Stage::Finished ==> m.removed == m.candidates.len())
}

/// A run that has just started walking the repository.
pub open spec fn initial(silent: bool) -> CleanupModel {
    CleanupModel { stage: Stage::Scanning, silent, candidates: Seq::empty(), removed: 0 }
}

/// `m` in another stage, with `removed` directories removed.
pub open spec fn moved(m: CleanupModel, stage: Stage, removed: nat) -> CleanupModel {
    CleanupModel { stage, silent: m.silent, candidates: m.candidates, removed }
}

/// The start of the removals: the first directory, or the end of the run
/// where there is none.
pub open spec fn begin_removal(m: CleanupModel) -> (CleanupModel, ActionModel) {
    if m.candidates.len() == 0 {
        (moved(m, Stage::Finished, 0), ActionModel::Finish(0))
    } else {
        (moved(m, Stage::Removing, 0), ActionModel::Remove(m.candidates[0]))
    }
}

/// The state after event `e` in state `m`, and the action asked for.
/// An event that the stage does not expect changes nothing.
pub open spec fn step_model(m: CleanupModel, e: EventModel) -> (CleanupModel, ActionModel) {
    match m.stage {
        Stage::Scanning => match e {
            EventModel::Entry(en) => {
                let c = if marks_parent(en) {
                    m.candidates.push(en.parent->0)
                } else {
                    m.candidates
                };
                (
                    CleanupModel { stage: m.stage, silent: m.silent, candidates: c, removed: 0 },
                    ActionModel::Progress(en.name),
                )
            },
            EventModel::WalkDone => if m.candidates.len() > 0 && !m.silent {
                (moved(m, Stage::Confirming, 0), ActionModel::Prompt(m.candidates.len()))
            } else {
                begin_removal(m)
            },
            _ => (m, ActionModel::Wait),
        },
        Stage::Confirming => match e {
            EventModel::LineRead => begin_removal(m),
            EventModel::InputFailed => (
                moved(m, Stage::Failed, m.removed),
                ActionModel::Fail(ErrorModel::InputRead),
            ),
            _ => (m, ActionModel::Wait),
        },
        Stage::Removing => match e {
            EventModel::DirRemoved => if m.removed + 1 < m.candidates.len() {
                (
                    moved(m, Stage::Removing, m.removed + 1),
                    ActionModel::Remove(m.candidates[m.removed + 1 as int]),
                )
            } else {
                (moved(m, Stage::Finished, m.removed + 1), ActionModel::Finish(m.removed + 1))
            },
            EventModel::RemoveFailed => (
                moved(m, Stage::Failed, m.removed),
                ActionModel::Fail(ErrorModel::Deletion(m.candidates[m.removed as int])),
            ),
            _ => (m, ActionModel::Wait),
        },
        _ => (m, ActionModel::Wait),
    }
}

impl Cleanup {
    /// The states that a run can reach.
    pub open spec fn wf(&self) -> bool {
        model_wf(self@)
    }

    /// Starts a run on the repository directory `repository`, of which
    /// `is_dir` tells whether it exists as a directory. With `silent` no
    /// confirmation is asked for.
    pub fn open(repository: String, is_dir: bool, silent: bool) -> (r: Result<Cleanup, CleanError>)
        ensures
            r is Ok <==> is_dir,
            r is Ok ==> r->Ok_0.wf() && r->Ok_0@ == initial(silent),
            r is Err ==> r->Err_0@ == ErrorModel::InvalidRepository(repository@),
    {
        if !is_dir {
            return Err(CleanError::InvalidRepository(repository));
        }
        let c = Cleanup { stage: Stage::Scanning, silent, candidates: Vec::new(), removed: 0 };
        assert(c@.candidates =~= Seq::empty());
        Ok(c)
    }

    /// The stage of the run.
    pub fn stage(&self) -> (r: Stage)
        ensures
            r == self@.stage,
    {
        self.stage
    }

    /// How many directories were removed so far.
    pub fn removed_count(&self) -> (r: usize)
        ensures
            r == self@.removed,
    {
        self.removed
    }

    /// The directories collected so far, in the order of their markers.
    pub fn candidates(&self) -> (r: Vec<String>)
        ensures
            r@.map_values(|s: String| s@) == self@.candidates,
    {
        let mut r: Vec<String> = Vec::new();
        let mut i: usize = 0;
        while i < self.candidates.len()
            invariant
                i <= self.candidates.len(),
                r@.map_values(|s: String| s@) =~= self@.candidates.subrange(0, i as int),
            decreases self.candidates.len() - i,
        {
            let ghost before = r@;
            r.push(self.candidates[i].clone());
            assert(r@.map_values(|s: String| s@) =~= before.map_values(|s: String| s@).push(
                self.candidates@[i as int]@,
            ));
            i = i + 1;
        }
        assert(self@.candidates.subrange(0, i as int) =~= self@.candidates);
        r
    }

    fn begin_removal(&mut self) -> (a: Action)
        requires
            model_wf(old(self)@),
            old(self)@.stage == Stage::Scanning || old(self)@.stage == Stage::Confirming,
        ensures
            (final(self)@, a@) == begin_removal(old(self)@),
            model_wf(final(self)@),
    {
        self.removed = 0;
        if self.candidates.len() == 0 {
            self.stage = Stage::Finished;
            Action::Finish(0)
        } else {
            self.stage = Stage::Removing;
            Action::Remove(self.candidates[0].clone())
        }
    }

    /// Takes in what happened and says what to do next.
    pub fn step(&mut self, event: Event) -> (a: Action)
        requires
            old(self).wf(),
        ensures
            final(self).wf(),
            (final(self)@, a@) == step_model(old(self)@, event@),
    {
        let ghost m = self@;
        match self.stage {
            Stage::Scanning => match event {
                Event::Entry { name, parent } => {
                    if is_marker(name.as_str()) {
                        if let Some(p) = parent {
                            self.candidates.push(p);
                            assert(self@.candidates =~= m.candidates.push(event@->Entry_0.parent->0));
                        }
                    }
                    Action::Progress(name)
                },
                Event::WalkDone => {
                    if self.candidates.len() > 0 && !self.silent {
                        self.stage = Stage::Confirming;
                        Action::Prompt(self.candidates.len())
                    } else {
                        self.begin_removal()
                    }
                },
                _ => Action::Wait,
            },
            Stage::Confirming => match event {
                Event::LineRead => self.begin_removal(),
                Event::InputFailed => {
                    self.stage = Stage::Failed;
                    Action::Fail(CleanError::InputRead)
                },
                _ => Action::Wait,
            },
            Stage::Removing => match event {
                Event::DirRemoved => {
                    let n = self.candidates.len();
                    assert(self.removed < self.candidates@.map_values(|s: String| s@).len());
                    assert(self.removed < n);
                    self.removed = self.removed + 1;
                    if self.removed < self.candidates.len() {
                        Action::Remove(self.candidates[self.removed].clone())
                    } else {
                        self.stage = Stage::Finished;
                        Action::Finish(self.removed)
                    }
                },
                Event::RemoveFailed => {
                    self.stage = Stage::Failed;
                    Action::Fail(CleanError::Deletion(self.candidates[self.removed].clone()))
                },
                _ => Action::Wait,
            },
            _ => Action::Wait,
        }
    }
}

} // verus!
