//! Putting new contents in the place of a remote file.
//!
//! The new contents are uploaded under a staged name. Then the old file is given
//! a backup name, the staged one its proper name, and the old one is deleted. If
//! one of these three steps fails, what was done is undone.

use super::client::QuarkClient;
use super::item::{ItemView, RemoteItem};
use crate::names::{
    backup_name, internal_name, law_replacement_names_are_internal, staged_name,
};
use crate::text::concat2;
use vstd::prelude::*;

verus! {

/// A change to one remote object.
#[derive(Debug)]
pub enum RemoteAction {
    /// Give the object with this id a name.
    Rename(String, String),
    /// Delete the object with this id.
    Delete(String),
}

/// A [`RemoteAction`] with its texts as sequences of characters.
pub enum ActionView {
    Rename(Seq<char>, Seq<char>),
    Delete(Seq<char>),
}

impl View for RemoteAction {
    type V = ActionView;

    open spec fn view(&self) -> ActionView {
        match *self {
            RemoteAction::Rename(id, name) => ActionView::Rename(id@, name@),
            RemoteAction::Delete(id) => ActionView::Delete(id@),
        }
    }
}

pub open spec fn action_views(actions: Seq<RemoteAction>) -> Seq<ActionView> {
    actions.map_values(|a: RemoteAction| a@)
}

/// The steps after the upload of the staged object.
#[derive(Clone, Copy, Debug, PartialEq, Eq, Structural)]
pub enum ReplaceStage {
    /// The old object gets its backup name.
    BackUp,
    /// The staged object gets its proper name.
    Publish,
    /// The old object is deleted.
    Discard,
}

/// A replacement whose staged object was uploaded.
pub struct Replacement {
    pub parent_id: String,
    pub old_id: String,
    pub name: String,
    pub staged_name: String,
    pub backup_name: String,
    pub staged: RemoteItem,
}

/// What to do after a step.
pub enum ReplaceNext {
    /// Take this step.
    Step(ReplaceStage),
    /// The replacement is done; this is the new item.
    Done(RemoteItem),
    /// Undo what was done with these actions, whether or not each succeeds, and
    /// report the error.
    Undo(Vec<RemoteAction>),
}

/// The name under which the new contents are uploaded.
pub fn staged_name_for(token: &str) -> (r: String)
    ensures
        r@ == staged_name(token@),
{
    concat2(".quarkdrive-upload-", token)
}

impl QuarkClient {
    /// Starts the replacement of a file once the new contents are uploaded under
    /// their staged name.
    pub fn replace_file(
        &self,
        parent_id: &str,
        old_id: &str,
        name: &str,
        token: &str,
        staged: RemoteItem,
    ) -> (r: Replacement)
        ensures
            r.parent_id@ == parent_id@,
            r.old_id@ == old_id@,
            r.name@ == name@,
            r.staged_name@ == staged_name(token@),
            r.backup_name@ == backup_name(token@),
            r.staged == staged,
    {
        Replacement {
            parent_id: parent_id.to_owned(),
            old_id: old_id.to_owned(),
            name: name.to_owned(),
            staged_name: staged_name_for(token),
            backup_name: concat2(".quarkdrive-backup-", token),
            staged,
        }
    }
}

impl Replacement {
    /// The action of a step.
    pub open spec fn forward(&self, stage: ReplaceStage) -> ActionView {
        match stage {
            ReplaceStage::BackUp => ActionView::Rename(self.old_id@, self.backup_name@),
            ReplaceStage::Publish => ActionView::Rename(self.staged.id@, self.name@),
            ReplaceStage::Discard => ActionView::Delete(self.old_id@),
        }
    }

    /// The actions that undo the steps before a step that failed.
    pub open spec fn backward(&self, stage: ReplaceStage) -> Seq<ActionView> {
        match stage {
            ReplaceStage::BackUp => seq![ActionView::Delete(self.staged.id@)],
            ReplaceStage::Publish => seq![
                ActionView::Rename(self.old_id@, self.name@),
                ActionView::Delete(self.staged.id@),
            ],
            ReplaceStage::Discard => seq![
                ActionView::Rename(self.staged.id@, self.staged_name@),
                ActionView::Rename(self.old_id@, self.name@),
                ActionView::Delete(self.staged.id@),
            ],
        }
    }

    /// The item after the replacement: the staged one under its proper name.
    pub open spec fn result(&self) -> ItemView {
        ItemView {
            parent_id: self.parent_id@,
            name: self.name@,
            is_directory: false,
            ..self.staged@
        }
    }

    /// The action of a step.
    pub fn action(&self, stage: ReplaceStage) -> (r: RemoteAction)
        ensures
            r@ == self.forward(stage),
    {
        match stage {
            ReplaceStage::BackUp => RemoteAction::Rename(
                self.old_id.clone(),
                self.backup_name.clone(),
            ),
            ReplaceStage::Publish => RemoteAction::Rename(
                self.staged.id.clone(),
                self.name.clone(),
            ),
            ReplaceStage::Discard => RemoteAction::Delete(self.old_id.clone()),
        }
    }

    /// What to do after a step, by whether it succeeded.
    pub fn after(&self, stage: ReplaceStage, succeeded: bool) -> (r: ReplaceNext)
        ensures
            match r {
                ReplaceNext::Step(next) => succeeded && match stage {
                    ReplaceStage::BackUp => next == ReplaceStage::Publish,
                    ReplaceStage::Publish => next == ReplaceStage::Discard,
                    ReplaceStage::Discard => false,
                },
                ReplaceNext::Done(item) => succeeded && stage == ReplaceStage::Discard && item@
                    == self.result(),
                ReplaceNext::Undo(actions) => !succeeded && action_views(actions@)
                    == self.backward(stage),
            },
    {
        if succeeded {
            return match stage {
                ReplaceStage::BackUp => ReplaceNext::Step(ReplaceStage::Publish),
                ReplaceStage::Publish => ReplaceNext::Step(ReplaceStage::Discard),
                ReplaceStage::Discard => ReplaceNext::Done(
                    RemoteItem {
                        id: self.staged.id.clone(),
                        parent_id: self.parent_id.clone(),
                        name: self.name.clone(),
                        is_directory: false,
                        size: self.staged.size,
                        created_at_ms: self.staged.created_at_ms,
                        modified_at_ms: self.staged.modified_at_ms,
                        version: self.staged.version.clone(),
                    },
                ),
            };
        }
        let mut actions: Vec<RemoteAction> = Vec::new();
        match stage {
            ReplaceStage::BackUp => {},
            ReplaceStage::Publish => {
                actions.push(RemoteAction::Rename(self.old_id.clone(), self.name.clone()));
            },
            ReplaceStage::Discard => {
                actions.push(
                    RemoteAction::Rename(self.staged.id.clone(), self.staged_name.clone()),
                );
                actions.push(RemoteAction::Rename(self.old_id.clone(), self.name.clone()));
            },
        }
        actions.push(RemoteAction::Delete(self.staged.id.clone()));
        assert(action_views(actions@) =~= self.backward(stage));
        ReplaceNext::Undo(actions)
    }
}

// ---------------------------------------------------------------------------
// What the actions do to a folder
// ---------------------------------------------------------------------------

/// The names of the objects of a folder, by id.
pub type Folder = Map<Seq<char>, Seq<char>>;

/// The folder after an action that succeeded.
pub open spec fn performed(folder: Folder, action: ActionView) -> Folder {
    match action {
        ActionView::Rename(id, name) => if folder.contains_key(id) {
            folder.insert(id, name)
        } else {
            folder
        },
        ActionView::Delete(id) => folder.remove(id),
    }
}

/// The folder after several actions that succeeded.
pub open spec fn all_performed(folder: Folder, actions: Seq<ActionView>) -> Folder
    decreases actions.len(),
{
    if actions.len() == 0 {
        folder
    } else {
        performed(all_performed(folder, actions.drop_last()), actions.last())
    }
}

impl Replacement {
    /// The old object is in the folder under its name, and the staged one is
    /// another that is not there yet.
    pub open spec fn fits(&self, folder: Folder) -> bool {
        &&& folder.contains_key(self.old_id@)
        &&& folder[self.old_id@] == self.name@
        &&& !folder.contains_key(self.staged.id@)
    }

    /// The folder just before a step.
    pub open spec fn before(&self, folder: Folder, stage: ReplaceStage) -> Folder {
        let uploaded = folder.insert(self.staged.id@, self.staged_name@);
        match stage {
            ReplaceStage::BackUp => uploaded,
            ReplaceStage::Publish => performed(uploaded, self.forward(ReplaceStage::BackUp)),
            ReplaceStage::Discard => performed(
                performed(uploaded, self.forward(ReplaceStage::BackUp)),
                self.forward(ReplaceStage::Publish),
            ),
        }
    }
}

/// If all steps succeed, the new object stands in the folder under the name that
/// the old one had, the old one is gone, and nothing else has changed.
pub proof fn law_replacement_swaps_the_file(r: Replacement, folder: Folder)
    requires
        r.fits(folder),
    ensures
        performed(r.before(folder, ReplaceStage::Discard), r.forward(ReplaceStage::Discard))
            == folder.remove(r.old_id@).insert(r.staged.id@, r.name@),
{
    assert(performed(r.before(folder, ReplaceStage::Discard), r.forward(ReplaceStage::Discard))
        =~= folder.remove(r.old_id@).insert(r.staged.id@, r.name@));
}

/// If a step fails and what undoes the steps before it succeeds, the folder is
/// as it was before the upload.
pub proof fn law_failed_replacement_is_undone(r: Replacement, folder: Folder, stage: ReplaceStage)
    requires
        r.fits(folder),
    ensures
        all_performed(r.before(folder, stage), r.backward(stage)) == folder,
{
    reveal_with_fuel(all_performed, 4);
    let undo = r.backward(stage);
    if stage == ReplaceStage::Discard {
        assert(undo.drop_last() =~= seq![undo[0], undo[1]]);
        assert(undo.drop_last().drop_last() =~= seq![undo[0]]);
    } else if stage == ReplaceStage::Publish {
        assert(undo.drop_last() =~= seq![undo[0]]);
    }
    assert(all_performed(r.before(folder, stage), undo) =~= folder);
}

/// A replacement that succeeds, step by step: the old object gets a name that no
/// listing shows, the new one takes the name, and the old one is deleted. What
/// comes out is the new object under that name, in that folder, with the size, the
/// times and the version of what was uploaded.
pub proof fn law_replacement_succeeds(
    client: QuarkClient,
    parent_id: &str,
    old_id: &str,
    name: &str,
    token: &str,
    staged: RemoteItem,
    r: Replacement,
    folder: Folder,
    steps: (RemoteAction, RemoteAction, RemoteAction),
    next: (ReplaceNext, ReplaceNext, ReplaceNext),
)
    requires
        call_ensures(
            QuarkClient::replace_file,
            (&client, parent_id, old_id, name, token, staged),
            r,
        ),
        call_ensures(Replacement::action, (&r, ReplaceStage::BackUp), steps.0),
        call_ensures(Replacement::action, (&r, ReplaceStage::Publish), steps.1),
        call_ensures(Replacement::action, (&r, ReplaceStage::Discard), steps.2),
        call_ensures(Replacement::after, (&r, ReplaceStage::BackUp, true), next.0),
        call_ensures(Replacement::after, (&r, ReplaceStage::Publish, true), next.1),
        call_ensures(Replacement::after, (&r, ReplaceStage::Discard, true), next.2),
        folder.contains_key(old_id@),
        folder[old_id@] == name@,
        !folder.contains_key(staged.id@),
    ensures
        next.0 == ReplaceNext::Step(ReplaceStage::Publish),
        next.1 == ReplaceNext::Step(ReplaceStage::Discard),
        next.2 matches ReplaceNext::Done(item) && {
            &&& item.id@ == staged.id@
            &&& item.parent_id@ == parent_id@
            &&& item.name@ == name@
            &&& !item.is_directory
            &&& item.size == staged.size
            &&& item.created_at_ms == staged.created_at_ms
            &&& item.modified_at_ms == staged.modified_at_ms
            &&& item.version@ == staged.version@
        },
        ({
            let uploaded = folder.insert(staged.id@, staged_name(token@));
            let first = performed(uploaded, steps.0@);
            let second = performed(first, steps.1@);
            let third = performed(second, steps.2@);
            &&& internal_name(uploaded[staged.id@])
            &&& first.contains_key(old_id@) && internal_name(first[old_id@])
            &&& internal_name(first[staged.id@])
            &&& second.contains_key(old_id@) && second[staged.id@] == name@
            &&& third == folder.remove(old_id@).insert(staged.id@, name@)
        }),
{
    law_replacement_names_are_internal(token@);
    let uploaded = folder.insert(staged.id@, staged_name(token@));
    let first = performed(uploaded, steps.0@);
    let second = performed(first, steps.1@);
    assert(performed(second, steps.2@) =~= folder.remove(old_id@).insert(staged.id@, name@));
}

/// Whichever step of a replacement fails, what is done then brings the folder back
/// to what it was before the upload.
pub proof fn law_failing_replacement_leaves_the_folder(
    client: QuarkClient,
    parent_id: &str,
    old_id: &str,
    name: &str,
    token: &str,
    staged: RemoteItem,
    r: Replacement,
    folder: Folder,
    steps: (RemoteAction, RemoteAction),
    stage: ReplaceStage,
    next: ReplaceNext,
)
    requires
        call_ensures(
            QuarkClient::replace_file,
            (&client, parent_id, old_id, name, token, staged),
            r,
        ),
        call_ensures(Replacement::action, (&r, ReplaceStage::BackUp), steps.0),
        call_ensures(Replacement::action, (&r, ReplaceStage::Publish), steps.1),
        call_ensures(Replacement::after, (&r, stage, false), next),
        folder.contains_key(old_id@),
        folder[old_id@] == name@,
        !folder.contains_key(staged.id@),
    ensures
        next is Undo,
        ({
            let uploaded = folder.insert(staged.id@, staged_name(token@));
            let reached = match stage {
                ReplaceStage::BackUp => uploaded,
                ReplaceStage::Publish => performed(uploaded, steps.0@),
                ReplaceStage::Discard => performed(performed(uploaded, steps.0@), steps.1@),
            };
            all_performed(reached, action_views(next->Undo_0@)) == folder
        }),
{
    law_failed_replacement_is_undone(r, folder, stage);
}

/// The name that the new contents are uploaded under is the one that the replacement
/// knows them by, so that what is undone is what was done.
pub proof fn law_staged_name_is_the_uploaded_one(
    client: QuarkClient,
    parent_id: &str,
    old_id: &str,
    name: &str,
    token: &str,
    staged: RemoteItem,
    uploaded: String,
    r: Replacement,
)
    requires
        call_ensures(staged_name_for, (token,), uploaded),
        call_ensures(
            QuarkClient::replace_file,
            (&client, parent_id, old_id, name, token, staged),
            r,
        ),
    ensures
        r.staged_name@ == uploaded@,
        r.backup_name@ != uploaded@,
        internal_name(uploaded@),
        internal_name(r.backup_name@),
        r.name@ == name@,
        r.old_id@ == old_id@,
        r.parent_id@ == parent_id@,
        r.staged == staged,
{
    law_replacement_names_are_internal(token@);
    reveal_strlit(".quarkdrive-upload-");
    reveal_strlit(".quarkdrive-backup-");
    assert(uploaded@[12] == 'u');
    assert(r.backup_name@[12] == 'b');
}

} // verus!
