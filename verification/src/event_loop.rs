//! The decisions of the interactive session.
//!
//! One control loop owns the list and the screen. Two workers serve it: one
//! reads the keys, one fetches the upstream. Each worker hands the loop one
//! event and then waits for a signal. What is decided here is what the loop
//! does about an event, and what a worker does about what it sees; reading,
//! fetching, drawing and sending are left to the caller.

use crate::branches::{FetchStatus, UpstreamCommitsDiff};
use crate::change_list::{
    after_fetch_completed, can_fetch, next_selection, previous_selection, with_fetch_status,
    ChangeList, ChangeListView,
};
use vstd::prelude::*;

verus! {

/// The key of a key press.
#[derive(Clone, Copy, Debug, PartialEq, Eq)]
pub enum KeyCode {
    Up,
    Down,
    Enter,
    Esc,
    Char(char),
    /// Any other key.
    Other,
}

/// A key press. `control` says whether the control key, and no other
/// modifier, was held.
#[derive(Clone, Copy, Debug, PartialEq, Eq)]
pub struct KeyPress {
    pub code: KeyCode,
    pub control: bool,
}

/// What the screen shows.
#[derive(Clone, Copy, Debug, PartialEq, Eq)]
pub enum RenderMode {
    ChangeList,
    HelpScreen,
}

/// A staging command.
#[derive(Clone, Copy, Debug, PartialEq, Eq)]
pub enum StagingCommand {
    StageSelected,
    UnstageSelected,
    StageAll,
    UnstageAll,
}

/// What a key asks for.
#[derive(Clone, Copy, Debug, PartialEq, Eq)]
pub enum Command {
    SelectPrevious,
    SelectNext,
    Stage(StagingCommand),
    Refetch,
    ShowHelp,
    HideHelp,
    Commit,
    Quit,
    Nothing,
}

/// What a worker is told once its event is dealt with.
#[derive(Clone, Copy, Debug, PartialEq, Eq)]
pub enum Signal {
    Continue,
    Stop,
}

/// What reaches the control loop.
#[derive(Clone, Copy, Debug, PartialEq, Eq)]
pub enum Event {
    UserInput(KeyPress),
    UserInputError,
    FetchComplete(UpstreamCommitsDiff),
    FetchError,
}

/// One thing that the control loop does. What it does about an event it
/// does in the order given.
#[derive(Clone, Copy, Debug, PartialEq, Eq)]
pub enum Effect {
    /// Carry out a staging command, and take the changes of a new scan.
    Stage(StagingCommand),
    /// Draw the screen.
    Render,
    /// Tell the worker that reads the keys to go on or to stop.
    SignalInput(Signal),
    /// Tell the worker that fetches to fetch again or to stop.
    SignalFetch(Signal),
    /// Give the terminal back as it was.
    LeaveFullscreen,
    /// Run the commit step.
    RunCommit,
    /// End the loop.
    Exit,
    /// End the loop with the error that came with the event.
    Fail,
}

/// What a key asks for, by what the screen shows.
pub open spec fn command_for(event: KeyPress, mode: RenderMode) -> Command {
    match mode {
        RenderMode::ChangeList => match event.code {
            KeyCode::Up => Command::SelectPrevious,
            KeyCode::Down => Command::SelectNext,
            KeyCode::Char(key) => if key == ' ' {
                Command::Stage(StagingCommand::StageSelected)
            } else if key == 'r' {
                Command::Stage(StagingCommand::UnstageSelected)
            } else if key == 'a' {
                Command::Stage(StagingCommand::StageAll)
            } else if key == 'u' {
                Command::Stage(StagingCommand::UnstageAll)
            } else if key == 'f' {
                Command::Refetch
            } else if key == 'h' {
                Command::ShowHelp
            } else if key == 'c' && event.control {
                Command::Quit
            } else {
                Command::Nothing
            },
            KeyCode::Enter => Command::Commit,
            KeyCode::Esc => Command::Quit,
            KeyCode::Other => Command::Nothing,
        },
        RenderMode::HelpScreen => match event.code {
            KeyCode::Esc => Command::HideHelp,
            KeyCode::Char(key) => if key == 'c' && event.control {
                Command::Quit
            } else {
                Command::Nothing
            },
            _ => Command::Nothing,
        },
    }
}

/// What a key asks for, by what the screen shows.
pub fn handle_user_input(event: KeyPress, mode: RenderMode) -> (command: Command)
    ensures
        command == command_for(event, mode),
{
    match mode {
        RenderMode::ChangeList => match event.code {
            KeyCode::Up => Command::SelectPrevious,
            KeyCode::Down => Command::SelectNext,
            KeyCode::Char(key) => {
                if key == ' ' {
                    Command::Stage(StagingCommand::StageSelected)
                } else if key == 'r' {
                    Command::Stage(StagingCommand::UnstageSelected)
                } else if key == 'a' {
                    Command::Stage(StagingCommand::StageAll)
                } else if key == 'u' {
                    Command::Stage(StagingCommand::UnstageAll)
                } else if key == 'f' {
                    Command::Refetch
                } else if key == 'h' {
                    Command::ShowHelp
                } else if key == 'c' && event.control {
                    Command::Quit
                } else {
                    Command::Nothing
                }
            },
            KeyCode::Enter => Command::Commit,
            KeyCode::Esc => Command::Quit,
            KeyCode::Other => Command::Nothing,
        },
        RenderMode::HelpScreen => match event.code {
            KeyCode::Esc => Command::HideHelp,
            KeyCode::Char(key) => {
                if key == 'c' && event.control {
                    Command::Quit
                } else {
                    Command::Nothing
                }
            },
            _ => Command::Nothing,
        },
    }
}

/// The list after a command.
pub open spec fn list_after_command(list: ChangeListView, command: Command) -> ChangeListView {
    match command {
        Command::SelectPrevious => ChangeListView { selected: previous_selection(list), ..list },
        Command::SelectNext => ChangeListView { selected: next_selection(list), ..list },
        Command::Refetch => ChangeListView {
            upstream: with_fetch_status(list.upstream, FetchStatus::Fetching),
            ..list
        },
        _ => list,
    }
}

/// What the screen shows after a command.
pub open spec fn mode_after_command(mode: RenderMode, command: Command) -> RenderMode {
    match command {
        Command::ShowHelp => RenderMode::HelpScreen,
        Command::HideHelp => RenderMode::ChangeList,
        _ => mode,
    }
}

/// What the control loop does about a command.
pub open spec fn effects_of_command(list: ChangeListView, command: Command) -> Seq<Effect> {
    match command {
        Command::SelectPrevious | Command::SelectNext | Command::ShowHelp | Command::HideHelp => {
            seq![Effect::Render, Effect::SignalInput(Signal::Continue)]
        },
        Command::Stage(staging) => seq![
            Effect::Stage(staging),
            Effect::Render,
            Effect::SignalInput(Signal::Continue),
        ],
        Command::Refetch => if can_fetch(list.upstream) {
            seq![
                Effect::Render,
                Effect::SignalFetch(Signal::Continue),
                Effect::SignalInput(Signal::Continue),
            ]
        } else {
            seq![Effect::SignalInput(Signal::Continue)]
        },
        Command::Commit => seq![
            Effect::LeaveFullscreen,
            Effect::RunCommit,
            Effect::SignalInput(Signal::Stop),
            Effect::SignalFetch(Signal::Stop),
            Effect::Exit,
        ],
        Command::Quit => seq![
            Effect::SignalInput(Signal::Stop),
            Effect::SignalFetch(Signal::Stop),
            Effect::Exit,
        ],
        Command::Nothing => seq![Effect::SignalInput(Signal::Continue)],
    }
}

/// The list after an event.
pub open spec fn list_after_event(
    list: ChangeListView,
    mode: RenderMode,
    event: Event,
) -> ChangeListView {
    match event {
        Event::UserInput(key) => list_after_command(list, command_for(key, mode)),
        Event::UserInputError => list,
        Event::FetchComplete(commits_diff) => ChangeListView {
            upstream: after_fetch_completed(list.upstream, commits_diff),
            ..list
        },
        Event::FetchError => ChangeListView {
            upstream: with_fetch_status(list.upstream, FetchStatus::Failed),
            ..list
        },
    }
}

/// What the screen shows after an event.
pub open spec fn mode_after_event(mode: RenderMode, event: Event) -> RenderMode {
    match event {
        Event::UserInput(key) => mode_after_command(mode, command_for(key, mode)),
        _ => mode,
    }
}

/// What the control loop does about an event.
pub open spec fn effects_of_event(list: ChangeListView, mode: RenderMode, event: Event) -> Seq<
    Effect,
> {
    match event {
        Event::UserInput(key) => effects_of_command(list, command_for(key, mode)),
        Event::UserInputError => seq![Effect::SignalFetch(Signal::Stop), Effect::Fail],
        Event::FetchComplete(_) | Event::FetchError => if list.upstream is Some {
            seq![Effect::Render]
        } else {
            Seq::empty()
        },
    }
}

/// What the control loop does where one of its effects fails: after a key
/// both workers are stopped, and the loop ends with the error.
pub open spec fn effects_of_failure(event: Event) -> Seq<Effect> {
    match event {
        Event::UserInput(_) => seq![
            Effect::SignalInput(Signal::Stop),
            Effect::SignalFetch(Signal::Stop),
            Effect::Fail,
        ],
        _ => seq![Effect::Fail],
    }
}

/// Carries out what a command does to the list and to what the screen
/// shows, and gives what the control loop is to do then.
pub fn handle_command(list: &mut ChangeList, mode: &mut RenderMode, command: Command) -> (effects:
    Vec<Effect>)
    ensures
        final(list)@ == list_after_command(old(list)@, command),
        *final(mode) == mode_after_command(*old(mode), command),
        effects@ == effects_of_command(old(list)@, command),
{
    let mut effects: Vec<Effect> = Vec::new();
    match command {
        Command::SelectPrevious => {
            list.select_previous_change();
            effects.push(Effect::Render);
            effects.push(Effect::SignalInput(Signal::Continue));
        },
        Command::SelectNext => {
            list.select_next_change();
            effects.push(Effect::Render);
            effects.push(Effect::SignalInput(Signal::Continue));
        },
        Command::Stage(staging) => {
            effects.push(Effect::Stage(staging));
            effects.push(Effect::Render);
            effects.push(Effect::SignalInput(Signal::Continue));
        },
        Command::Refetch => {
            if list.begin_fetch() {
                effects.push(Effect::Render);
                effects.push(Effect::SignalFetch(Signal::Continue));
            }
            effects.push(Effect::SignalInput(Signal::Continue));
        },
        Command::ShowHelp => {
            *mode = RenderMode::HelpScreen;
            effects.push(Effect::Render);
            effects.push(Effect::SignalInput(Signal::Continue));
        },
        Command::HideHelp => {
            *mode = RenderMode::ChangeList;
            effects.push(Effect::Render);
            effects.push(Effect::SignalInput(Signal::Continue));
        },
        Command::Commit => {
            effects.push(Effect::LeaveFullscreen);
            effects.push(Effect::RunCommit);
            effects.push(Effect::SignalInput(Signal::Stop));
            effects.push(Effect::SignalFetch(Signal::Stop));
            effects.push(Effect::Exit);
        },
        Command::Quit => {
            effects.push(Effect::SignalInput(Signal::Stop));
            effects.push(Effect::SignalFetch(Signal::Stop));
            effects.push(Effect::Exit);
        },
        Command::Nothing => {
            effects.push(Effect::SignalInput(Signal::Continue));
        },
    }
    assert(effects@ =~= effects_of_command(old(list)@, command));
    effects
}

/// One turn of the control loop: carries out what an event does to the
/// list and to what the screen shows, and gives what the loop is to do
/// then.
pub fn handle_event(list: &mut ChangeList, mode: &mut RenderMode, event: Event) -> (effects: Vec<
    Effect,
>)
    ensures
        final(list)@ == list_after_event(old(list)@, *old(mode), event),
        *final(mode) == mode_after_event(*old(mode), event),
        effects@ == effects_of_event(old(list)@, *old(mode), event),
{
    match event {
        Event::UserInput(key) => {
            let command = handle_user_input(key, *mode);
            handle_command(list, mode, command)
        },
        Event::UserInputError => {
            let mut effects: Vec<Effect> = Vec::new();
            effects.push(Effect::SignalFetch(Signal::Stop));
            effects.push(Effect::Fail);
            assert(effects@ =~= effects_of_event(old(list)@, *old(mode), event));
            effects
        },
        Event::FetchComplete(commits_diff) => {
            let mut effects: Vec<Effect> = Vec::new();
            if list.upstream().is_some() {
                effects.push(Effect::Render);
            }
            list.fetch_completed(commits_diff);
            assert(effects@ =~= effects_of_event(old(list)@, *old(mode), event));
            effects
        },
        Event::FetchError => {
            let mut effects: Vec<Effect> = Vec::new();
            if list.upstream().is_some() {
                effects.push(Effect::Render);
            }
            list.fetch_failed();
            assert(effects@ =~= effects_of_event(old(list)@, *old(mode), event));
            effects
        },
    }
}

/// What the control loop does where one of its effects fails.
pub fn handle_failure(event: Event) -> (effects: Vec<Effect>)
    ensures
        effects@ == effects_of_failure(event),
{
    let mut effects: Vec<Effect> = Vec::new();
    match event {
        Event::UserInput(_) => {
            effects.push(Effect::SignalInput(Signal::Stop));
            effects.push(Effect::SignalFetch(Signal::Stop));
        },
        _ => {},
    }
    effects.push(Effect::Fail);
    assert(effects@ =~= effects_of_failure(event));
    effects
}

/// What the control loop owes its workers, whatever the event.
///
/// A key is answered by one signal to the worker that reads the keys, no
/// more and no fewer, so that no key is read before the one before it is
/// dealt with; no other event is answered to that worker. The worker that
/// fetches is told to fetch only where a fetch can start, so that no two
/// fetches overlap. Where a worker is told to stop, the loop ends.
pub proof fn lemma_control_loop_protocol(list: ChangeListView, mode: RenderMode, event: Event)
    ensures
        event is UserInput ==> exists|i: int|
            0 <= i < effects_of_event(list, mode, event).len() && (#[trigger] effects_of_event(
                list,
                mode,
                event,
            )[i]) is SignalInput && forall|j: int|
                0 <= j < effects_of_event(list, mode, event).len() && j != i ==> !(
                #[trigger] effects_of_event(list, mode, event)[j] is SignalInput),
        !(event is UserInput) ==> forall|j: int|
            0 <= j < effects_of_event(list, mode, event).len() ==> !(#[trigger] effects_of_event(
                list,
                mode,
                event,
            )[j] is SignalInput),
        effects_of_event(list, mode, event).contains(Effect::SignalFetch(Signal::Continue))
            ==> can_fetch(list.upstream) && list_after_event(list, mode, event).upstream
            == with_fetch_status(list.upstream, FetchStatus::Fetching),
        effects_of_event(list, mode, event).contains(Effect::SignalInput(Signal::Stop))
            || effects_of_event(list, mode, event).contains(Effect::SignalFetch(Signal::Stop))
            ==> effects_of_event(list, mode, event).last() == Effect::Exit || effects_of_event(
            list,
            mode,
            event,
        ).last() == Effect::Fail,
{
    let effects = effects_of_event(list, mode, event);
    match event {
        Event::UserInput(key) => {
            let at = match command_for(key, mode) {
                Command::Stage(_) => 2int,
                Command::Refetch => if can_fetch(list.upstream) {
                    2int
                } else {
                    0int
                },
                Command::Commit => 2int,
                Command::Quit | Command::Nothing => 0int,
                _ => 1int,
            };
            assert(effects[at] is SignalInput);
            assert forall|j: int| 0 <= j < effects.len() && j != at implies !(
            #[trigger] effects[j] is SignalInput) by {}
        },
        _ => {},
    }
}

/// What kind of key event the terminal reports.
#[derive(Clone, Copy, Debug, PartialEq, Eq)]
pub enum KeyEventKind {
    Press,
    Repeat,
    Release,
}

/// What was read from the terminal.
#[derive(Clone, Copy, Debug, PartialEq, Eq)]
pub enum TerminalEvent {
    Key { press: KeyPress, kind: KeyEventKind },
    /// Anything that is no key event.
    Other,
}

/// What the worker that reads the keys sees.
#[derive(Clone, Copy, Debug, PartialEq, Eq)]
pub enum InputObservation {
    /// The worker starts.
    Started,
    /// A read came back with an event.
    Read(TerminalEvent),
    /// A read failed.
    ReadFailed,
    /// The control loop answered.
    Signalled(Signal),
}

/// What the worker that reads the keys does next.
#[derive(Clone, Copy, Debug, PartialEq, Eq)]
pub enum InputAction {
    /// Read the next event from the terminal, and wait for it.
    Read,
    /// Send the event to the control loop, and wait for its signal.
    SendAndAwait(Event),
    /// Send the event to the control loop, and end.
    SendAndStop(Event),
    /// End.
    Stop,
}

/// What the worker that reads the keys does about what it sees: a key
/// press goes to the control loop, and nothing more is read before the loop
/// has answered; anything else that was read is passed over.
pub open spec fn input_worker_action(observation: InputObservation) -> InputAction {
    match observation {
        InputObservation::Started => InputAction::Read,
        InputObservation::Read(TerminalEvent::Key { press, kind: KeyEventKind::Press }) => {
            InputAction::SendAndAwait(Event::UserInput(press))
        },
        InputObservation::Read(_) => InputAction::Read,
        InputObservation::ReadFailed => InputAction::SendAndStop(Event::UserInputError),
        InputObservation::Signalled(Signal::Continue) => InputAction::Read,
        InputObservation::Signalled(Signal::Stop) => InputAction::Stop,
    }
}

/// What the worker that reads the keys does about what it sees.
pub fn input_worker_step(observation: InputObservation) -> (action: InputAction)
    ensures
        action == input_worker_action(observation),
{
    match observation {
        InputObservation::Started => InputAction::Read,
        InputObservation::Read(TerminalEvent::Key { press, kind: KeyEventKind::Press }) => {
            InputAction::SendAndAwait(Event::UserInput(press))
        },
        InputObservation::Read(_) => InputAction::Read,
        InputObservation::ReadFailed => InputAction::SendAndStop(Event::UserInputError),
        InputObservation::Signalled(Signal::Continue) => InputAction::Read,
        InputObservation::Signalled(Signal::Stop) => InputAction::Stop,
    }
}

/// The worker that reads the keys reads nothing while a key is with the
/// control loop: it reads at its start, after something that was no key
/// press, and after the signal to go on, and at no other time; and what it
/// sends and then waits for is a key press, one at a time.
pub proof fn lemma_input_worker_waits_for_its_signal(observation: InputObservation)
    ensures
        input_worker_action(observation) == InputAction::Read <==> observation
            == InputObservation::Started || observation == InputObservation::Signalled(
            Signal::Continue,
        ) || (observation matches InputObservation::Read(event) && !(event matches TerminalEvent::Key {
            kind: KeyEventKind::Press,
            ..
        })),
        input_worker_action(observation) matches InputAction::SendAndAwait(event)
            ==> event is UserInput,
        input_worker_action(observation) == InputAction::Stop <==> observation
            == InputObservation::Signalled(Signal::Stop),
{
}

/// What the worker that fetches does next.
#[derive(Clone, Copy, Debug, PartialEq, Eq)]
pub enum FetchAction {
    /// Fetch the upstream, and wait for the fetch.
    Fetch,
    /// Count the commits by which the branch and its upstream differ.
    CompareCommits,
    /// Send the event to the control loop, and wait for its signal.
    SendAndAwait(Event),
    /// Send the event to the control loop, and end.
    SendAndStop(Event),
    /// Wait for the signal of the control loop.
    AwaitSignal,
    /// End.
    Stop,
}

/// What the worker that fetches sees.
#[derive(Clone, Copy, Debug, PartialEq, Eq)]
pub enum FetchObservation {
    /// The worker could not be set up: the repository or the remote was
    /// not found.
    SetupFailed,
    /// The worker is set up.
    Started,
    /// A fetch came back; `succeeded` says how.
    Fetched { succeeded: bool },
    /// The commits were counted, or could not be.
    Compared(Option<UpstreamCommitsDiff>),
    /// The control loop answered.
    Signalled(Signal),
}

/// What the worker that fetches does about what it sees: once at its start
/// and once for every signal to go on it fetches and counts, where there is
/// an upstream, and hands the control loop what came of it.
pub open spec fn fetch_worker_action(
    has_upstream: bool,
    observation: FetchObservation,
) -> FetchAction {
    match observation {
        FetchObservation::SetupFailed => FetchAction::SendAndStop(Event::FetchError),
        FetchObservation::Started | FetchObservation::Signalled(Signal::Continue) => {
            if has_upstream {
                FetchAction::Fetch
            } else {
                FetchAction::AwaitSignal
            }
        },
        FetchObservation::Fetched { succeeded } => if succeeded {
            FetchAction::CompareCommits
        } else {
            FetchAction::SendAndAwait(Event::FetchError)
        },
        FetchObservation::Compared(Some(commits_diff)) => FetchAction::SendAndAwait(
            Event::FetchComplete(commits_diff),
        ),
        FetchObservation::Compared(None) => FetchAction::SendAndAwait(Event::FetchError),
        FetchObservation::Signalled(Signal::Stop) => FetchAction::Stop,
    }
}

/// What the worker that fetches does about what it sees.
pub fn fetch_worker_step(has_upstream: bool, observation: FetchObservation) -> (action:
    FetchAction)
    ensures
        action == fetch_worker_action(has_upstream, observation),
{
    match observation {
        FetchObservation::SetupFailed => FetchAction::SendAndStop(Event::FetchError),
        FetchObservation::Started | FetchObservation::Signalled(Signal::Continue) => {
            if has_upstream {
                FetchAction::Fetch
            } else {
                FetchAction::AwaitSignal
            }
        },
        FetchObservation::Fetched { succeeded } => {
            if succeeded {
                FetchAction::CompareCommits
            } else {
                FetchAction::SendAndAwait(Event::FetchError)
            }
        },
        FetchObservation::Compared(Some(commits_diff)) => FetchAction::SendAndAwait(
            Event::FetchComplete(commits_diff),
        ),
        FetchObservation::Compared(None) => FetchAction::SendAndAwait(Event::FetchError),
        FetchObservation::Signalled(Signal::Stop) => FetchAction::Stop,
    }
}

/// The worker that fetches fetches once at its start and once for every
/// signal to go on, and at no other time; what it sends is what came of a
/// fetch; and it ends when it is told to stop, or cannot be set up.
pub proof fn lemma_fetch_worker_fetches_on_signal(has_upstream: bool, observation: FetchObservation)
    ensures
        fetch_worker_action(has_upstream, observation) == FetchAction::Fetch <==> has_upstream && (
        observation == FetchObservation::Started || observation == FetchObservation::Signalled(
            Signal::Continue,
        )),
        fetch_worker_action(has_upstream, observation) matches FetchAction::SendAndAwait(event)
            ==> (event is FetchComplete || event is FetchError) && (observation is Fetched
            || observation is Compared),
        fetch_worker_action(has_upstream, observation) == FetchAction::Stop <==> observation
            == FetchObservation::Signalled(Signal::Stop),
        fetch_worker_action(has_upstream, observation) is SendAndStop <==> observation
            == FetchObservation::SetupFailed,
{
}

} // verus!
