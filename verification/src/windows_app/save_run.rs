//! Saving the settings, step by step: what is done in which order, and what
//! happens when a step fails.

use super::mount::{obstacle, MigrationFacts};
use super::settings::{
    apply_settings, move_question, save_and_restart, with_settings, SaveStep, SettingsError,
};
use crate::config::Config;
use crate::path::{same_place, LocalPath};
use crate::quark::request::pairs;
use crate::text::is_blank;
use vstd::prelude::*;

verus! {

/// What saving waits for.
#[derive(Debug)]
pub enum SaveStage {
    /// The user's answer. If it is yes, these are the settings, or why there are
    /// none.
    Asking(Result<Config, SettingsError>),
    /// That the program starts with the user's session, or does not.
    SettingStartup { config: Config, moves: bool },
    /// That the old directory is unregistered and deleted.
    Moving(Config),
    /// That the old directory is mounted again, after this error.
    Reconnecting(String),
    /// That the configuration is written.
    Writing(Config),
    /// That the program is started anew.
    Restarting,
}

/// What comes back.
#[derive(Debug)]
pub enum SaveEvent {
    /// The user's answer.
    Answered(bool),
    /// How the last action went.
    Done(Result<(), String>),
}

/// What to do.
#[derive(Debug)]
pub enum SaveAction {
    /// Ask the user.
    Ask(String),
    /// Have the program start with the user's session, or not.
    SetStartup(bool),
    /// Disconnect, then unregister and delete the old directory.
    MoveMount,
    /// Mount the old directory again.
    Reconnect,
    /// Write the configuration.
    Write,
    /// Start the program anew.
    Restart,
}

/// Where an event leads.
#[derive(Debug)]
pub enum SaveNext {
    Act(SaveStage, SaveAction),
    /// The settings are saved.
    Finished,
    /// The user does not want to go on.
    Cancelled,
    /// Saving has failed.
    Failed(String),
}

/// Where saving begins: with a question where the mount moves, and with the
/// first action where it does not.
pub fn begin_saving(
    config: &Config,
    mount: LocalPath,
    name: &str,
    facts: &MigrationFacts,
    roots: &Vec<(String, String)>,
    selection: isize,
    startup: bool,
) -> (r: Result<(SaveStage, SaveAction), SettingsError>)
    ensures
        ({
            let settings = with_settings(
                config@,
                mount@,
                name@,
                pairs(roots@),
                selection as int,
                startup,
            );
            if is_blank(name@) {
                r == Err::<(SaveStage, SaveAction), SettingsError>(SettingsError::BlankName)
            } else if same_place(config.mount_path@, mount@) {
                if is_blank(config.cookie@) {
                    r == Err::<(SaveStage, SaveAction), SettingsError>(SettingsError::NotLoggedIn)
                } else {
                    r matches Ok((SaveStage::SettingStartup { config: saved, moves }, action))
                        && saved@ == settings && !moves && action == SaveAction::SetStartup(startup)
                }
            } else {
                match obstacle(config.mount_path, mount, *facts) {
                    Some(e) => r == Err::<(SaveStage, SaveAction), SettingsError>(
                        SettingsError::Migration(e),
                    ),
                    None => r matches Ok((SaveStage::Asking(applied), SaveAction::Ask(question)))
                        && question@ == move_question(config.mount_path.text@, mount.text@)
                        && if is_blank(config.cookie@) {
                        applied == Err::<Config, SettingsError>(SettingsError::NotLoggedIn)
                    } else {
                        applied matches Ok(saved) && saved@ == settings
                    },
                }
            }
        }),
{
    let step = match save_and_restart(config, &mount, name, facts) {
        Ok(step) => step,
        Err(e) => {
            return Err(e);
        },
    };
    let applied = apply_settings(config, mount, name, roots, selection, startup);
    match step {
        SaveStep::AskFirst(question) => Ok((SaveStage::Asking(applied), SaveAction::Ask(question))),
        SaveStep::Save => match applied {
            Ok(saved) => Ok(
                (
                    SaveStage::SettingStartup { config: saved, moves: false },
                    SaveAction::SetStartup(startup),
                ),
            ),
            Err(e) => Err(e),
        },
    }
}

impl SaveStage {
    /// The events that can come.
    pub open spec fn awaits(&self, event: SaveEvent) -> bool {
        (*self is Asking) == (event is Answered)
    }
}

/// A stage and an action that an event leads to.
pub open spec fn saves_on(
    before: SaveStage,
    event: SaveEvent,
    after: SaveStage,
    action: SaveAction,
) -> bool {
    match (before, event) {
        (SaveStage::Asking(applied), SaveEvent::Answered(yes)) => {
            &&& yes
            &&& applied matches Ok(config)
            &&& after == (SaveStage::SettingStartup { config, moves: true })
            &&& action == SaveAction::SetStartup(config.start_on_login)
        },
        (SaveStage::SettingStartup { config, moves }, SaveEvent::Done(result)) => {
            &&& result is Ok
            &&& if moves {
                after == SaveStage::Moving(config) && action == SaveAction::MoveMount
            } else {
                after == SaveStage::Writing(config) && action == SaveAction::Write
            }
        },
        (SaveStage::Moving(config), SaveEvent::Done(result)) => match result {
            Ok(_) => after == SaveStage::Writing(config) && action == SaveAction::Write,
            Err(reason) => after == SaveStage::Reconnecting(reason) && action
                == SaveAction::Reconnect,
        },
        (SaveStage::Writing(_), SaveEvent::Done(result)) => {
            &&& result is Ok
            &&& after == SaveStage::Restarting
            &&& action == SaveAction::Restart
        },
        _ => false,
    }
}

/// The error that an event leads to.
pub open spec fn saving_fails(before: SaveStage, event: SaveEvent, reason: Seq<char>) -> bool {
    match (before, event) {
        (SaveStage::Asking(applied), SaveEvent::Answered(yes)) => yes && (applied matches Err(e)
            && reason == e.text()),
        (SaveStage::Reconnecting(failure), SaveEvent::Done(_)) => reason == failure@,
        (SaveStage::SettingStartup { .. }, SaveEvent::Done(result)) => result matches Err(e)
            && reason == e@,
        (SaveStage::Writing(_), SaveEvent::Done(result)) => result matches Err(e) && reason == e@,
        (SaveStage::Restarting, SaveEvent::Done(result)) => result matches Err(e) && reason == e@,
        _ => false,
    }
}

impl SaveStage {
    /// What to do after an event. Whether the old directory could be mounted
    /// again does not matter: the error is the one that made it necessary.
    pub fn after(self, event: SaveEvent) -> (r: SaveNext)
        requires
            self.awaits(event),
        ensures
            match r {
                SaveNext::Act(stage, action) => saves_on(self, event, stage, action),
                SaveNext::Failed(reason) => saving_fails(self, event, reason@),
                SaveNext::Finished => self is Restarting && (event matches SaveEvent::Done(result)
                    && result is Ok),
                SaveNext::Cancelled => self is Asking && event == SaveEvent::Answered(false),
            },
    {
        match (self, event) {
            (SaveStage::Asking(applied), SaveEvent::Answered(yes)) => {
                if !yes {
                    return SaveNext::Cancelled;
                }
                match applied {
                    Ok(config) => {
                        let startup = config.start_on_login;
                        SaveNext::Act(
                            SaveStage::SettingStartup { config, moves: true },
                            SaveAction::SetStartup(startup),
                        )
                    },
                    Err(e) => SaveNext::Failed(e.message()),
                }
            },
            (SaveStage::Reconnecting(failure), SaveEvent::Done(_)) => SaveNext::Failed(failure),
            (SaveStage::SettingStartup { config, moves }, SaveEvent::Done(Ok(_))) => {
                if moves {
                    SaveNext::Act(SaveStage::Moving(config), SaveAction::MoveMount)
                } else {
                    SaveNext::Act(SaveStage::Writing(config), SaveAction::Write)
                }
            },
            (SaveStage::Moving(config), SaveEvent::Done(Ok(_))) => SaveNext::Act(
                SaveStage::Writing(config),
                SaveAction::Write,
            ),
            (SaveStage::Moving(_), SaveEvent::Done(Err(reason))) => SaveNext::Act(
                SaveStage::Reconnecting(reason),
                SaveAction::Reconnect,
            ),
            (SaveStage::Writing(_), SaveEvent::Done(Ok(_))) => SaveNext::Act(
                SaveStage::Restarting,
                SaveAction::Restart,
            ),
            (SaveStage::Restarting, SaveEvent::Done(Ok(_))) => SaveNext::Finished,
            (_, SaveEvent::Done(Err(reason))) => SaveNext::Failed(reason),
            _ => {
                assert(false);
                SaveNext::Cancelled
            },
        }
    }
}

// ---------------------------------------------------------------------------
// Laws
// ---------------------------------------------------------------------------

/// A run of saving: each event leads from one stage to the next.
pub open spec fn saving_runs(
    stages: Seq<SaveStage>,
    events: Seq<SaveEvent>,
    actions: Seq<SaveAction>,
) -> bool {
    &&& stages.len() == events.len() + 1
    &&& actions.len() == events.len()
    &&& forall|i: int|
        0 <= i < events.len() ==> saves_on(
            stages[i],
            #[trigger] events[i],
            stages[i + 1],
            actions[i],
        )
}

/// Where saving begins.
pub open spec fn starts_saving(stage: SaveStage) -> bool {
    stage is Asking || (stage matches SaveStage::SettingStartup { moves, .. } && !moves)
}

/// The user has said yes among the first events.
pub open spec fn agreed(events: Seq<SaveEvent>, count: int) -> bool {
    exists|j: int| 0 <= j < count && #[trigger] events[j] == SaveEvent::Answered(true)
}

/// A stage that is on the way to deleting the old directory, or past it.
pub open spec fn may_delete(stage: SaveStage) -> bool {
    stage is Moving || stage is Reconnecting || (stage matches SaveStage::SettingStartup {
        moves,
        ..
    } && moves)
}

proof fn lemma_agreed_before(
    stages: Seq<SaveStage>,
    events: Seq<SaveEvent>,
    actions: Seq<SaveAction>,
    i: int,
)
    requires
        saving_runs(stages, events, actions),
        starts_saving(stages[0]),
        0 <= i < stages.len(),
        may_delete(stages[i]),
    ensures
        agreed(events, i),
    decreases i,
{
    if i > 0 {
        assert(saves_on(stages[i - 1], events[i - 1], stages[i], actions[i - 1]));
        if may_delete(stages[i - 1]) {
            lemma_agreed_before(stages, events, actions, i - 1);
        } else {
            assert(events[i - 1] == SaveEvent::Answered(true));
        }
    }
}

/// The old directory is not deleted unless the user has agreed to it before.
pub proof fn law_nothing_is_deleted_unasked(
    stages: Seq<SaveStage>,
    events: Seq<SaveEvent>,
    actions: Seq<SaveAction>,
    i: int,
)
    requires
        saving_runs(stages, events, actions),
        starts_saving(stages[0]),
        0 <= i < actions.len(),
        actions[i] is MoveMount,
    ensures
        agreed(events, i),
{
    assert(saves_on(stages[i], events[i], stages[i + 1], actions[i]));
    lemma_agreed_before(stages, events, actions, i);
}

/// Where the old directory could not be deleted, the configuration is not
/// written: all that is left to do is to mount the old directory again.
pub proof fn law_failed_move_writes_nothing(
    stages: Seq<SaveStage>,
    events: Seq<SaveEvent>,
    actions: Seq<SaveAction>,
    i: int,
)
    requires
        saving_runs(stages, events, actions),
        0 <= i < events.len(),
        stages[i] is Moving,
        events[i] matches SaveEvent::Done(result) && result is Err,
    ensures
        actions[i] is Reconnect,
        events.len() == i + 1,
{
    assert(saves_on(stages[i], events[i], stages[i + 1], actions[i]));
    if i + 1 < events.len() {
        assert(saves_on(stages[i + 1], events[i + 1], stages[i + 2], actions[i + 1]));
    }
}

/// What is written is what was set: the configuration of the stage before stays
/// the same until it is written.
pub proof fn law_settings_stay_until_written(
    before: SaveStage,
    event: SaveEvent,
    after: SaveStage,
    action: SaveAction,
)
    requires
        saves_on(before, event, after, action),
        after is Writing,
    ensures
        action is Write,
        before matches SaveStage::SettingStartup { config, .. } ==> after == SaveStage::Writing(
            config,
        ),
        before matches SaveStage::Moving(config) ==> after == SaveStage::Writing(config),
        before is SettingStartup || before is Moving,
{
}

} // verus!
