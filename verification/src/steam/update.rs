//! Workshop uploads: what an update request asks for, and the state of an
//! upload or item creation as its result comes in over a channel.
use vstd::prelude::*;
use std::path::PathBuf;
use std::sync::mpsc::Receiver;
use crate::text::{trim, trim_str};

verus! {

/// Visibility code for a public item.
pub const VIS_PUBLIC: u8 = 0;

/// Visibility code for an item only friends see.
pub const VIS_FRIENDS: u8 = 1;

/// Visibility code for a private item.
pub const VIS_PRIVATE: u8 = 2;

/// Visibility code for an unlisted item.
pub const VIS_UNLISTED: u8 = 3;

/// A file system path, from `std::path`.
#[verifier::external_type_specification]
#[verifier::external_body]
pub struct ExPathBuf(PathBuf);

/// Who may see a workshop item.
#[derive(PartialEq, Eq, Structural, Clone, Copy, Debug)]
pub enum Visibility {
    Public,
    FriendsOnly,
    Private,
    Unlisted,
}

/// The visibility a code stands for; unknown codes mean public.
pub open spec fn vis_spec(v: u8) -> Visibility {
    if v == VIS_FRIENDS {
        Visibility::FriendsOnly
    } else if v == VIS_PRIVATE {
        Visibility::Private
    } else if v == VIS_UNLISTED {
        Visibility::Unlisted
    } else {
        Visibility::Public
    }
}

/// The visibility a code stands for; unknown codes mean public.
pub fn vis_from_u8(v: u8) -> (res: Visibility)
    ensures
        res == vis_spec(v),
{
    match v {
        VIS_FRIENDS => Visibility::FriendsOnly,
        VIS_PRIVATE => Visibility::Private,
        VIS_UNLISTED => Visibility::Unlisted,
        _ => Visibility::Public,
    }
}

/// An update of a workshop item: the fields given are changed.
pub struct UpdateRequest {
    pub id: u64,
    pub title: Option<String>,
    pub description: Option<String>,
    pub visibility: u8,
    pub tags: Option<Vec<String>>,
    pub content_path: Option<PathBuf>,
    pub preview_path: Option<PathBuf>,
    pub change_note: String,
}

impl UpdateRequest {
    /// The change note sent with the upload: none when it is blank, otherwise
    /// the note as written.
    pub fn note_for_submit(&self) -> (res: Option<&str>)
        ensures
            match res {
                Some(n) => trim(self.change_note@).len() > 0 && n@ == self.change_note@,
                None => trim(self.change_note@).len() == 0,
            },
    {
        let trimmed = trim_str(self.change_note.as_str());
        if trimmed.as_str().is_empty() {
            None
        } else {
            Some(self.change_note.as_str())
        }
    }

    /// The visibility the request asks for.
    pub fn requested_visibility(&self) -> (res: Visibility)
        ensures
            res == vis_spec(self.visibility),
    {
        vis_from_u8(self.visibility)
    }
}

/// The state of an upload.
pub enum UpdateState {
    Uploading,
    Done { needs_legal_agreement: bool },
    Error(String),
}

impl Clone for UpdateState {
    fn clone(&self) -> (res: Self)
        ensures
            res == *self,
    {
        match self {
            UpdateState::Uploading => UpdateState::Uploading,
            UpdateState::Done { needs_legal_agreement } => UpdateState::Done {
                needs_legal_agreement: *needs_legal_agreement,
            },
            UpdateState::Error(e) => UpdateState::Error(e.clone()),
        }
    }
}

/// The state of an item creation.
pub enum CreateState {
    Creating,
    Done { needs_legal_agreement: bool },
    Error(String),
}

/// The state an upload ends in: whether the workshop legal agreement still
/// has to be accepted, or the error's text.
pub fn update_outcome(result: Result<bool, String>) -> (res: UpdateState)
    ensures
        res == match result {
            Ok(needs_legal_agreement) => UpdateState::Done { needs_legal_agreement },
            Err(e) => UpdateState::Error(e),
        },
{
    match result {
        Ok(needs_legal_agreement) => UpdateState::Done { needs_legal_agreement },
        Err(e) => UpdateState::Error(e),
    }
}

/// The state an item creation ends in.
pub fn create_outcome(result: Result<bool, String>) -> (res: CreateState)
    ensures
        res == match result {
            Ok(needs_legal_agreement) => CreateState::Done { needs_legal_agreement },
            Err(e) => CreateState::Error(e),
        },
{
    match result {
        Ok(needs_legal_agreement) => CreateState::Done { needs_legal_agreement },
        Err(e) => CreateState::Error(e),
    }
}

/// Calls `Receiver::try_recv`: a message if one is waiting. What arrives
/// depends on other threads, so nothing is stated of it.
#[verifier::external_body]
fn receive_now<T>(rx: &Receiver<T>) -> (res: Option<T>) {
    rx.try_recv().ok()
}

/// A running upload: the channel its result comes in on, the state so far,
/// and the handle that keeps it alive (Steam's watch handle).
pub struct UpdateJob<W> {
    rx: Receiver<UpdateState>,
    state: UpdateState,
    _watch: W,
}

impl<W> UpdateJob<W> {
    /// An upload that has been submitted and reports on `rx`.
    pub fn new(rx: Receiver<UpdateState>, watch: W) -> (res: Self)
        ensures
            res.state() == UpdateState::Uploading,
            res.channel() == rx,
            res.watch() == watch,
    {
        UpdateJob { rx, state: UpdateState::Uploading, _watch: watch }
    }

    /// The state so far.
    pub closed spec fn state(&self) -> UpdateState {
        self.state
    }

    /// The channel the upload's result comes in on.
    pub closed spec fn channel(&self) -> Receiver<UpdateState> {
        self.rx
    }

    /// The handle that keeps the upload running.
    pub closed spec fn watch(&self) -> W {
        self._watch
    }

    /// Takes in what the channel delivered: a message replaces the state,
    /// nothing leaves it.
    pub fn apply(&mut self, received: Option<UpdateState>) -> (res: UpdateState)
        ensures
            final(self).channel() == old(self).channel(),
            final(self).watch() == old(self).watch(),
            final(self).state() == match received {
                Some(s) => s,
                None => old(self).state(),
            },
            res == final(self).state(),
    {
        if let Some(s) = received {
            self.state = s;
        }
        self.state.clone()
    }

    /// Called each frame: takes in a waiting message, if any, through
    /// `apply`, and gives the current state. Which message was waiting, if
    /// any, depends on the upload.
    pub fn poll(&mut self) -> (res: UpdateState)
        ensures
            final(self).channel() == old(self).channel(),
            final(self).watch() == old(self).watch(),
            res == final(self).state(),
    {
        let received = receive_now(&self.rx);
        self.apply(received)
    }
}

/// A running item creation: the channel its result comes in on and the
/// state so far.
pub struct CreateJob {
    rx: Receiver<CreateState>,
    state: CreateState,
}

impl CreateJob {
    /// A creation that has been requested and reports on `rx`.
    pub fn new(rx: Receiver<CreateState>) -> (res: Self)
        ensures
            res.state() == CreateState::Creating,
            res.channel() == rx,
    {
        CreateJob { rx, state: CreateState::Creating }
    }

    /// The state so far.
    pub closed spec fn state(&self) -> CreateState {
        self.state
    }

    /// The channel the creation's result comes in on.
    pub closed spec fn channel(&self) -> Receiver<CreateState> {
        self.rx
    }

    /// Takes in what the channel delivered: a message replaces the state,
    /// nothing leaves it.
    pub fn apply(&mut self, received: Option<CreateState>) -> (res: &CreateState)
        ensures
            final(self).channel() == old(self).channel(),
            final(self).state() == match received {
                Some(s) => s,
                None => old(self).state(),
            },
            *res == final(self).state(),
    {
        if let Some(s) = received {
            self.state = s;
        }
        &self.state
    }

    /// Called each frame: takes in a waiting message, if any, through
    /// `apply`, and gives the current state. Which message was waiting, if
    /// any, depends on the creation.
    pub fn poll(&mut self) -> (res: &CreateState)
        ensures
            final(self).channel() == old(self).channel(),
            *res == final(self).state(),
    {
        let received = receive_now(&self.rx);
        self.apply(received)
    }
}

/// Every code stands for a visibility, and the four codes for the four
/// visibilities, each a different one.
pub proof fn lemma_visibility_codes()
    ensures
        vis_spec(VIS_PUBLIC) == Visibility::Public,
        vis_spec(VIS_FRIENDS) == Visibility::FriendsOnly,
        vis_spec(VIS_PRIVATE) == Visibility::Private,
        vis_spec(VIS_UNLISTED) == Visibility::Unlisted,
        forall|v: u8| v > VIS_UNLISTED ==> vis_spec(v) == Visibility::Public,
{
}

} // verus!
