//! An upload from its announcement to its end: what to send after each reply.

use super::client::QuarkClient;
use super::error::{ErrorView, QuarkError};
use super::item::{Envelope, ItemView, RemoteItem, UploadAuthData};
use super::request::{Request, RequestView};
use super::upload::{
    announce_request, announced, auth_request, authorised, commit_document, commit_meta,
    commit_request, finish_request, offer_request, offered, part_meta, part_request, part_size_in,
    uploaded_item, AnnounceStep, Announced, Commit, FileTimes, OfferStep, Prepared, Session, Target,
    UploadFile,
};
use crate::checksum::{base64_fits, base64_text, md5_hash, sha1_hash, FileHashes};
use crate::digits::hex_bytes;
use crate::json::{json_bytes, json_contents, reported};
use crate::text::texts;
use vstd::prelude::*;
use vstd::utf8::encode_utf8;

verus! {

// ---------------------------------------------------------------------------
// Stages, events and actions
// ---------------------------------------------------------------------------

/// What an upload waits for.
pub enum UploadStage {
    /// The reply to the announcement.
    Announcing { client: QuarkClient, file: UploadFile },
    /// The reply to the hashes.
    Offering(Prepared),
    /// More of the file.
    Reading(Session),
    /// The key for a part.
    AuthorisingPart { session: Session, part: Vec<u8>, date: String },
    /// The tag of the part that was sent.
    SendingPart(Session),
    /// The key for the commit.
    AuthorisingCommit { session: Session, commit: Commit, date: String },
    /// Word that the commit was taken in.
    Committing(Session),
    /// The last reply.
    Finishing(Session),
}

/// An upload under way, with the parts that were sent so far.
pub struct Upload {
    pub stage: UploadStage,
    pub sent: Ghost<Seq<Seq<u8>>>,
}

/// What comes back.
pub enum UploadEvent {
    /// A reply with a JSON value.
    Reply(serde_json::Value),
    /// Some of the file was read, at this date.
    Part { bytes: Vec<u8>, date: String },
    /// The file was read to its end, at this date; the bytes of the callback.
    End { callback: Vec<u8>, date: String },
    /// The reply to a request for a key.
    Authorised(Envelope<UploadAuthData>),
    /// A part was taken in, with or without a tag.
    Tagged(Option<String>),
    /// The commit was taken in.
    Committed,
}

/// What to do.
pub enum UploadAction {
    /// Send this and take in the JSON value of the reply.
    Ask(Request),
    /// Read so many bytes of the file, or fewer.
    Read(u64),
    /// Send this and take in the envelope with the key.
    Authorise(Request),
    /// Send this part and take in its tag.
    SendPart(Request),
    /// Send this commit.
    SendCommit(Request),
}

/// Where an event leads.
pub enum UploadStep {
    /// The upload is done.
    Done(RemoteItem),
    Continue(Upload, UploadAction),
}

// ---------------------------------------------------------------------------
// Where events lead
// ---------------------------------------------------------------------------

/// The parts, one after the other.
pub open spec fn concatenated(parts: Seq<Seq<u8>>) -> Seq<u8>
    decreases parts.len(),
{
    if parts.len() == 0 {
        Seq::empty()
    } else {
        concatenated(parts.drop_last()) + parts.last()
    }
}

/// Every part has at least one byte, and no more than `part_size`.
pub open spec fn sized(parts: Seq<Seq<u8>>, part_size: u64) -> bool {
    forall|i: int| 0 <= i < parts.len() ==> 0 < (#[trigger] parts[i]).len() <= part_size
}

impl Upload {
    /// There is a tag for every part that was sent, but for one that is on its
    /// way, what is committed lists all of them, and every part has its size.
    pub open spec fn wf(&self) -> bool {
        match self.stage {
            UploadStage::Announcing { .. } => self.sent@.len() == 0,
            UploadStage::Offering(_) => self.sent@.len() == 0,
            UploadStage::Reading(session) => {
                &&& self.sent@.len() == session.etags@.len()
                &&& sized(self.sent@, session.part_size)
            },
            UploadStage::AuthorisingPart { session, part, .. } => {
                &&& self.sent@.len() == session.etags@.len()
                &&& session.etags@.len() < u32::MAX
                &&& sized(self.sent@, session.part_size)
                &&& 0 < part@.len() <= session.part_size
            },
            UploadStage::SendingPart(session) => {
                &&& self.sent@.len() == session.etags@.len() + 1
                &&& sized(self.sent@, session.part_size)
            },
            UploadStage::AuthorisingCommit { session, commit, .. } => {
                &&& self.sent@.len() == session.etags@.len()
                &&& commit.xml@ == commit_document(texts(session.etags@))
                &&& sized(self.sent@, session.part_size)
            },
            UploadStage::Committing(session) => {
                &&& self.sent@.len() == session.etags@.len()
                &&& sized(self.sent@, session.part_size)
            },
            UploadStage::Finishing(session) => {
                &&& self.sent@.len() == session.etags@.len()
                &&& sized(self.sent@, session.part_size)
            },
        }
    }

    /// What was read of the file: the parts that were sent, and the one whose key
    /// has not come yet.
    pub open spec fn taken(&self) -> Seq<u8> {
        match self.stage {
            UploadStage::AuthorisingPart { part, .. } => concatenated(self.sent@) + part@,
            _ => concatenated(self.sent@),
        }
    }

    /// The events that can come. A part has at least one byte and no more than were
    /// asked for, there are no more parts than can be numbered, and the callback is
    /// the one that was announced, in a length that fits.
    pub open spec fn awaits(&self, event: UploadEvent) -> bool {
        match (self.stage, event) {
            (UploadStage::Announcing { .. }, UploadEvent::Reply(_)) => true,
            (UploadStage::Offering(_), UploadEvent::Reply(_)) => true,
            (UploadStage::Reading(session), UploadEvent::Part { bytes, .. }) => {
                &&& session.etags@.len() < u32::MAX
                &&& 0 < bytes@.len() <= session.part_size
            },
            (UploadStage::Reading(session), UploadEvent::End { callback, .. }) => {
                &&& callback@ == session.callback_sent()
                &&& base64_fits(callback@.len())
            },
            (UploadStage::AuthorisingPart { .. }, UploadEvent::Authorised(_)) => true,
            (UploadStage::SendingPart(_), UploadEvent::Tagged(_)) => true,
            (UploadStage::AuthorisingCommit { .. }, UploadEvent::Authorised(_)) => true,
            (UploadStage::Committing(_), UploadEvent::Committed) => true,
            (UploadStage::Finishing(_), UploadEvent::Reply(_)) => true,
            _ => false,
        }
    }
}

/// The request for a key, for what `auth_meta` describes.
pub open spec fn key_request(session: Session, auth_meta: Seq<char>) -> RequestView {
    auth_request(
        session.cookie@,
        json_bytes(json_contents(session.auth_info)),
        auth_meta,
        session.task_id@,
    )
}

/// An action that sends a request with a JSON value for a reply.
pub open spec fn asks(action: UploadAction, request: RequestView) -> bool {
    action matches UploadAction::Ask(r) && r@ == request
}

/// An action that asks for a key.
pub open spec fn asks_for_key(action: UploadAction, request: RequestView) -> bool {
    action matches UploadAction::Authorise(r) && r@ == request
}

/// Where an event leads that neither ends the upload nor fails.
pub open spec fn leads(
    before: Upload,
    event: UploadEvent,
    after: Upload,
    action: UploadAction,
) -> bool {
    match (before.stage, event) {
        (UploadStage::Announcing { client, file }, UploadEvent::Reply(reply)) => {
            &&& announced(json_contents(reply)) matches Ok(a)
            &&& !a.finished
            &&& after.sent@ == before.sent@
            &&& after.stage matches UploadStage::Offering(p)
            &&& p.cookie@ == client.cookie@
            &&& p.file == file
            &&& p.item@ == uploaded_item(file@, a.id)
            &&& p.task_id@ == a.task_id
            &&& json_contents(p.data) == a.data
            &&& p.part_size == part_size_in(json_contents(reply))
            &&& asks(action, offer_request(client.cookie@, file.md5@, file.sha1@, a.task_id))
        },
        (UploadStage::Offering(p), UploadEvent::Reply(reply)) => {
            &&& offered(p.file.size, json_contents(reply), json_contents(p.data)) matches Ok(
                Some(target),
            )
            &&& after.sent@ == before.sent@
            &&& after.stage matches UploadStage::Reading(session)
            &&& session.starts_from(p, target)
            &&& action == UploadAction::Read(p.part_size)
        },
        (UploadStage::Reading(session), UploadEvent::Part { bytes, date }) => {
            &&& after.sent@ == before.sent@
            &&& after.stage == (UploadStage::AuthorisingPart { session, part: bytes, date })
            &&& asks_for_key(
                action,
                key_request(
                    session,
                    part_meta(
                        session.bucket@,
                        session.obj_key@,
                        session.upload_id@,
                        session.next_number(),
                        date@,
                    ),
                ),
            )
        },
        (UploadStage::Reading(session), UploadEvent::End { callback, date }) => {
            &&& after.sent@ == before.sent@
            &&& after.stage matches UploadStage::AuthorisingCommit { session: s, commit, date: d }
            &&& s == session
            &&& d == date
            &&& commit.xml@ == commit_document(texts(session.etags@))
            &&& commit.content_md5@ == base64_text(md5_hash(encode_utf8(commit.xml@)))
            &&& commit.callback@ == base64_text(callback@)
            &&& asks_for_key(
                action,
                key_request(
                    session,
                    commit_meta(
                        session.bucket@,
                        session.obj_key@,
                        session.upload_id@,
                        commit.content_md5@,
                        commit.callback@,
                        date@,
                    ),
                ),
            )
        },
        (
            UploadStage::AuthorisingPart { session, part, date },
            UploadEvent::Authorised(reply),
        ) => {
            &&& !reply.refused()
            &&& reply.data matches Some(data)
            &&& after.sent@ == before.sent@.push(part@)
            &&& after.stage == UploadStage::SendingPart(session)
            &&& action matches UploadAction::SendPart(request)
            &&& request@ == part_request(
                session.address(),
                session.upload_id@,
                session.next_number(),
                date@,
                data.auth_key@,
                part@,
            )
        },
        (UploadStage::SendingPart(session), UploadEvent::Tagged(etag)) => {
            &&& etag matches Some(tag)
            &&& after.sent@ == before.sent@
            &&& after.stage matches UploadStage::Reading(s)
            &&& s.etags@ == session.etags@.push(tag)
            &&& s == (Session { etags: s.etags, ..session })
            &&& action == UploadAction::Read(session.part_size)
        },
        (
            UploadStage::AuthorisingCommit { session, commit, date },
            UploadEvent::Authorised(reply),
        ) => {
            &&& !reply.refused()
            &&& reply.data matches Some(data)
            &&& after.sent@ == before.sent@
            &&& after.stage == UploadStage::Committing(session)
            &&& action matches UploadAction::SendCommit(request)
            &&& request@ == commit_request(
                session.address(),
                session.upload_id@,
                commit.xml@,
                commit.content_md5@,
                commit.callback@,
                date@,
                data.auth_key@,
            )
        },
        (UploadStage::Committing(session), UploadEvent::Committed) => {
            &&& after.sent@ == before.sent@
            &&& after.stage == UploadStage::Finishing(session)
            &&& asks(
                action,
                finish_request(session.cookie@, session.obj_key@, session.task_id@),
            )
        },
        _ => false,
    }
}

/// The events that end an upload, and the item that it ends with.
pub open spec fn completes(before: Upload, event: UploadEvent, item: ItemView) -> bool {
    match (before.stage, event) {
        (UploadStage::Announcing { client, file }, UploadEvent::Reply(reply)) => {
            &&& announced(json_contents(reply)) matches Ok(a)
            &&& a.finished
            &&& item == uploaded_item(file@, a.id)
        },
        (UploadStage::Offering(p), UploadEvent::Reply(reply)) => {
            &&& offered(p.file.size, json_contents(reply), json_contents(p.data)) == Ok::<
                Option<Target>,
                ErrorView,
            >(None)
            &&& item == p.item@
        },
        (UploadStage::Finishing(session), UploadEvent::Reply(reply)) => {
            &&& reported(json_contents(reply)) is Ok
            &&& item == session.item@
        },
        _ => false,
    }
}

/// The events on which an upload fails, and its error.
pub open spec fn fails(before: Upload, event: UploadEvent, error: ErrorView) -> bool {
    match (before.stage, event) {
        (UploadStage::Announcing { .. }, UploadEvent::Reply(reply)) => announced(
            json_contents(reply),
        ) == Err::<Announced, ErrorView>(error),
        (UploadStage::Offering(p), UploadEvent::Reply(reply)) => offered(
            p.file.size,
            json_contents(reply),
            json_contents(p.data),
        ) == Err::<Option<Target>, ErrorView>(error),
        (UploadStage::AuthorisingPart { .. }, UploadEvent::Authorised(reply)) => no_key(
            reply,
            error,
        ),
        (UploadStage::AuthorisingCommit { .. }, UploadEvent::Authorised(reply)) => no_key(
            reply,
            error,
        ),
        (UploadStage::SendingPart(_), UploadEvent::Tagged(etag)) => etag is None && error
            == ErrorView::Malformed("upload part ETag"@),
        (UploadStage::Finishing(_), UploadEvent::Reply(reply)) => reported(json_contents(reply))
            == Err::<(), ErrorView>(error),
        _ => false,
    }
}

/// A reply without a key, and the error that it means.
pub open spec fn no_key(reply: Envelope<UploadAuthData>, error: ErrorView) -> bool {
    if reply.refused() {
        error == reply.refusal()
    } else {
        reply.data is None && error == ErrorView::Malformed("data"@)
    }
}

// ---------------------------------------------------------------------------
// Running
// ---------------------------------------------------------------------------

impl QuarkClient {
    /// Starts an upload by announcing it.
    pub fn upload_file(&self, file: UploadFile) -> (r: (Upload, UploadAction))
        ensures
            r.0.wf(),
            r.0.stage matches UploadStage::Announcing { client, file: f } && client.cookie@
                == self.cookie@ && f == file,
            asks(r.1, announce_request(self.cookie@, file@)),
    {
        let request = self.announce(&file);
        let upload = Upload {
            stage: UploadStage::Announcing { client: self.clone(), file },
            sent: Ghost(Seq::empty()),
        };
        (upload, UploadAction::Ask(request))
    }
}

impl Upload {
    /// What to do after an event.
    pub fn after(self, event: UploadEvent) -> (r: Result<UploadStep, QuarkError>)
        requires
            self.wf(),
            self.awaits(event),
        ensures
            match r {
                Ok(UploadStep::Continue(upload, action)) => leads(self, event, upload, action)
                    && upload.wf(),
                Ok(UploadStep::Done(item)) => completes(self, event, item@),
                Err(e) => fails(self, event, e@),
            },
    {
        let sent = self.sent;
        match (self.stage, event) {
            (UploadStage::Announcing { client, file }, UploadEvent::Reply(reply)) => {
                match client.upload_announced(file, &reply) {
                    Ok(AnnounceStep::Done(item)) => Ok(UploadStep::Done(item)),
                    Ok(AnnounceStep::Offer(prepared)) => {
                        let action = UploadAction::Ask(prepared.request());
                        let stage = UploadStage::Offering(prepared);
                        Ok(UploadStep::Continue(Upload { stage, sent }, action))
                    },
                    Err(e) => Err(e),
                }
            },
            (UploadStage::Offering(prepared), UploadEvent::Reply(reply)) => {
                match prepared.accept(&reply) {
                    Ok(OfferStep::Done(item)) => Ok(UploadStep::Done(item)),
                    Ok(OfferStep::Send(session)) => {
                        let action = UploadAction::Read(session.part_size);
                        let stage = UploadStage::Reading(session);
                        Ok(UploadStep::Continue(Upload { stage, sent }, action))
                    },
                    Err(e) => Err(e),
                }
            },
            (UploadStage::Reading(session), UploadEvent::Part { bytes, date }) => {
                let meta = session.part_meta(date.as_str());
                let action = UploadAction::Authorise(session.upload_auth(meta.as_str()));
                let stage = UploadStage::AuthorisingPart { session, part: bytes, date };
                Ok(UploadStep::Continue(Upload { stage, sent }, action))
            },
            (UploadStage::Reading(session), UploadEvent::End { callback, date }) => {
                let commit = session.commit(&callback);
                let meta = session.commit_meta(&commit, date.as_str());
                let action = UploadAction::Authorise(session.upload_auth(meta.as_str()));
                let stage = UploadStage::AuthorisingCommit { session, commit, date };
                Ok(UploadStep::Continue(Upload { stage, sent }, action))
            },
            (
                UploadStage::AuthorisingPart { session, part, date },
                UploadEvent::Authorised(reply),
            ) => {
                let key = match authorised(reply) {
                    Ok(key) => key,
                    Err(e) => {
                        return Err(e);
                    },
                };
                let sent: Ghost<Seq<Seq<u8>>> = Ghost(sent@.push(part@));
                let request = session.upload_part(date.as_str(), key.as_str(), part);
                let stage = UploadStage::SendingPart(session);
                Ok(UploadStep::Continue(Upload { stage, sent }, UploadAction::SendPart(request)))
            },
            (UploadStage::SendingPart(session), UploadEvent::Tagged(etag)) => {
                let mut session = session;
                match session.part_sent(etag) {
                    Ok(_) => {
                        let action = UploadAction::Read(session.part_size);
                        let stage = UploadStage::Reading(session);
                        Ok(UploadStep::Continue(Upload { stage, sent }, action))
                    },
                    Err(e) => Err(e),
                }
            },
            (
                UploadStage::AuthorisingCommit { session, commit, date },
                UploadEvent::Authorised(reply),
            ) => {
                let key = match authorised(reply) {
                    Ok(key) => key,
                    Err(e) => {
                        return Err(e);
                    },
                };
                let request = session.commit_upload(&commit, date.as_str(), key.as_str());
                let stage = UploadStage::Committing(session);
                Ok(UploadStep::Continue(Upload { stage, sent }, UploadAction::SendCommit(request)))
            },
            (UploadStage::Committing(session), UploadEvent::Committed) => {
                let action = UploadAction::Ask(session.finish());
                let stage = UploadStage::Finishing(session);
                Ok(UploadStep::Continue(Upload { stage, sent }, action))
            },
            (UploadStage::Finishing(session), UploadEvent::Reply(reply)) => {
                match session.finished(&reply) {
                    Ok(item) => Ok(UploadStep::Done(item)),
                    Err(e) => Err(e),
                }
            },
            _ => {
                assert(false);
                Err(QuarkError::Malformed("data"))
            },
        }
    }
}

// ---------------------------------------------------------------------------
// Laws
// ---------------------------------------------------------------------------

/// The bytes that an event brings.
pub open spec fn bytes_in(event: UploadEvent) -> Seq<u8> {
    match event {
        UploadEvent::Part { bytes, .. } => bytes@,
        _ => Seq::empty(),
    }
}

/// Nothing of the file is lost or doubled: what the upload has taken grows by
/// what was read, and by nothing else.
pub proof fn law_nothing_is_lost(
    before: Upload,
    event: UploadEvent,
    after: Upload,
    action: UploadAction,
)
    requires
        leads(before, event, after, action),
    ensures
        after.taken() == before.taken() + bytes_in(event),
{
    match (before.stage, event) {
        (
            UploadStage::AuthorisingPart { session, part, date },
            UploadEvent::Authorised(reply),
        ) => {
            assert(after.sent@.drop_last() =~= before.sent@);
        },
        _ => {},
    }
    assert(after.taken() =~= before.taken() + bytes_in(event));
}

/// Each part is sent under its own number, counted from 1.
pub proof fn law_parts_are_numbered(
    before: Upload,
    event: UploadEvent,
    after: Upload,
    action: UploadAction,
)
    requires
        before.wf(),
        leads(before, event, after, action),
        before.stage is AuthorisingPart,
    ensures
        before.stage->AuthorisingPart_session.next_number() == after.sent@.len(),
        after.sent@.last() == before.stage->AuthorisingPart_part@,
{
}

/// A run of an upload: each event leads from one state to the next.
pub open spec fn runs(
    states: Seq<Upload>,
    events: Seq<UploadEvent>,
    actions: Seq<UploadAction>,
) -> bool {
    &&& states.len() == events.len() + 1
    &&& actions.len() == events.len()
    &&& forall|i: int|
        0 <= i < events.len() ==> states[i].awaits(#[trigger] events[i]) && leads(
            states[i],
            events[i],
            states[i + 1],
            actions[i],
        )
}

/// The bytes that some events bring, one after the other.
pub open spec fn bytes_read(events: Seq<UploadEvent>) -> Seq<u8>
    decreases events.len(),
{
    if events.len() == 0 {
        Seq::empty()
    } else {
        bytes_read(events.drop_last()) + bytes_in(events.last())
    }
}

/// An upload that has come to its last request has sent the file as it was read:
/// its parts, one after the other, are the bytes that were read, each has at least
/// one byte and no more than the server wants, and there is a tag for each.
pub proof fn law_upload_sends_the_file(
    states: Seq<Upload>,
    events: Seq<UploadEvent>,
    actions: Seq<UploadAction>,
)
    requires
        runs(states, events, actions),
        states[0].stage is Announcing,
        states[0].sent@.len() == 0,
    ensures
        states.last().wf(),
        states.last().taken() == bytes_read(events),
        states.last().stage matches UploadStage::Finishing(session) ==> {
            &&& concatenated(states.last().sent@) == bytes_read(events)
            &&& sized(states.last().sent@, session.part_size)
            &&& session.etags@.len() == states.last().sent@.len()
        },
    decreases events.len(),
{
    if events.len() == 0 {
        assert(states.last() == states[0]);
    } else {
        let n = events.len() - 1;
        let s = states.drop_last();
        let e = events.drop_last();
        let a = actions.drop_last();
        assert(runs(s, e, a)) by {
            assert forall|i: int| 0 <= i < e.len() implies s[i].awaits(#[trigger] e[i]) && leads(
                s[i],
                e[i],
                s[i + 1],
                a[i],
            ) by {
                assert(e[i] == events[i]);
            }
        }
        law_upload_sends_the_file(s, e, a);
        assert(s.last() == states[n]);
        assert(states.last() == states[n + 1]);
        assert(states[n].awaits(events[n]));
        assert(leads(states[n], events[n], states[n + 1], actions[n]));
        law_nothing_is_lost(states[n], events[n], states[n + 1], actions[n]);
    }
}

/// The hashes that an upload offers are those of the parts that it sends, one
/// after the other, where the file was hashed as it was then read.
pub proof fn law_offered_hashes_fit_the_parts(
    states: Seq<Upload>,
    events: Seq<UploadEvent>,
    actions: Seq<UploadAction>,
    name: String,
    parent_id: String,
    size: u64,
    times: FileTimes,
    hashes: FileHashes,
    file: UploadFile,
)
    requires
        runs(states, events, actions),
        states[0].stage matches UploadStage::Announcing { file: f, .. } && f == file,
        states[0].sent@.len() == 0,
        states.last().stage is Finishing,
        call_ensures(UploadFile::new, (name, parent_id, size, times, hashes), file),
        hashes.content() == bytes_read(events),
    ensures
        file.md5@ == hex_bytes(md5_hash(concatenated(states.last().sent@))),
        file.sha1@ == hex_bytes(sha1_hash(concatenated(states.last().sent@))),
{
    law_upload_sends_the_file(states, events, actions);
}

/// The commit lists one tag for each part that was sent, in the order in which
/// they were sent.
pub proof fn law_commit_lists_every_part(
    before: Upload,
    event: UploadEvent,
    after: Upload,
    action: UploadAction,
)
    requires
        before.wf(),
        leads(before, event, after, action),
        before.stage is Reading,
        event is End,
    ensures
        after.stage is AuthorisingCommit,
        after.stage->AuthorisingCommit_commit.xml@ == commit_document(
            texts(before.stage->Reading_0.etags@),
        ),
        texts(before.stage->Reading_0.etags@).len() == after.sent@.len(),
{
}

} // verus!
