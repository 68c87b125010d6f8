//! The decisions taken while answering a request for a stored image: serve it when it
//! is on disk, otherwise join or start the job that produces it and wait for that job.

use vstd::prelude::*;
use crate::config::Settings;
use crate::image_type::ImageType;
use crate::cached_images::{
    is_token_char, lemma_mirror_url_round_trip, medium_word, selected_type, small_word,
    spec_parse_mirror_url,
};

verus! {

/// How a processing job ended, as seen by a request that waited for it.
#[derive(Debug, Clone, Copy, PartialEq, Eq, Structural)]
pub enum JobOutcome {
    /// The job stored the image.
    Succeeded,
    /// The job reported an error.
    Failed,
    /// The job's result channel closed without an answer.
    ChannelClosed,
}

/// What the server observed since the last action.
#[derive(Debug, Clone, Copy, PartialEq, Eq, Structural)]
pub enum ImageRequestEvent {
    /// The request arrived.
    Begin,
    /// The local file was looked for; whether it exists.
    FileChecked(bool),
    /// The table of jobs in progress was consulted; whether a job for this image is in it.
    JobLookedUp(bool),
    /// A new job was registered and handed to the worker; whether the worker took it.
    JobSubmitted(bool),
    /// The awaited job ended.
    JobFinished(JobOutcome),
    /// The job's entry was removed from the table of jobs in progress.
    JobUnregistered,
}

/// The answer to an image request.
#[derive(Debug, Clone, Copy, PartialEq, Eq, Structural)]
pub enum ImageResponse {
    /// A permanent redirect to the stored image's public URL.
    Redirect,
    /// An internal server error.
    InternalError,
}

/// What the server is to do next.
#[derive(Debug, Clone, Copy, PartialEq, Eq, Structural)]
pub enum ImageRequestAction {
    /// Look whether the stored image exists on disk.
    CheckLocalFile,
    /// Look for a job in progress for this image.
    LookUpJob,
    /// Register a new job for this image and hand it to the worker.
    RegisterAndSubmitJob,
    /// Wait for the job's result.
    WaitForJob,
    /// Look again whether the stored image exists on disk.
    RecheckLocalFile,
    /// Remove this image's entry from the table of jobs in progress.
    UnregisterJob,
    /// Answer the request.
    Respond(ImageResponse),
}

/// Where a request stands.
#[derive(Debug, Clone, Copy, PartialEq, Eq, Structural)]
pub enum ImageRequestPhase {
    Start,
    CheckingFile,
    LookingUpJob,
    SubmittingJob,
    WaitingForJob,
    RecheckingFile,
    /// Removing the job's entry; whether the image is available.
    Unregistering(bool),
    Done,
}

/// How far a phase is from the end; every step from a phase other than `Done` lowers it.
pub open spec fn phase_rank(p: ImageRequestPhase) -> nat {
    match p {
        ImageRequestPhase::Start => 7,
        ImageRequestPhase::CheckingFile => 6,
        ImageRequestPhase::LookingUpJob => 5,
        ImageRequestPhase::SubmittingJob => 4,
        ImageRequestPhase::WaitingForJob => 3,
        ImageRequestPhase::RecheckingFile => 2,
        ImageRequestPhase::Unregistering(_) => 1,
        ImageRequestPhase::Done => 0,
    }
}

/// The next phase and action for an event; an event that does not belong to the phase
/// ends the request with an internal error.
pub open spec fn spec_step(p: ImageRequestPhase, e: ImageRequestEvent) -> (ImageRequestPhase, ImageRequestAction) {
    match (p, e) {
        (ImageRequestPhase::Start, ImageRequestEvent::Begin) => (
            ImageRequestPhase::CheckingFile,
            ImageRequestAction::CheckLocalFile,
        ),
        (ImageRequestPhase::CheckingFile, ImageRequestEvent::FileChecked(true)) => (
            ImageRequestPhase::Done,
            ImageRequestAction::Respond(ImageResponse::Redirect),
        ),
        (ImageRequestPhase::CheckingFile, ImageRequestEvent::FileChecked(false)) => (
            ImageRequestPhase::LookingUpJob,
            ImageRequestAction::LookUpJob,
        ),
        (ImageRequestPhase::LookingUpJob, ImageRequestEvent::JobLookedUp(true)) => (
            ImageRequestPhase::WaitingForJob,
            ImageRequestAction::WaitForJob,
        ),
        (ImageRequestPhase::LookingUpJob, ImageRequestEvent::JobLookedUp(false)) => (
            ImageRequestPhase::SubmittingJob,
            ImageRequestAction::RegisterAndSubmitJob,
        ),
        (ImageRequestPhase::SubmittingJob, ImageRequestEvent::JobSubmitted(true)) => (
            ImageRequestPhase::WaitingForJob,
            ImageRequestAction::WaitForJob,
        ),
        (ImageRequestPhase::SubmittingJob, ImageRequestEvent::JobSubmitted(false)) => (
            ImageRequestPhase::Unregistering(false),
            ImageRequestAction::UnregisterJob,
        ),
        (ImageRequestPhase::WaitingForJob, ImageRequestEvent::JobFinished(JobOutcome::Succeeded)) => (
            ImageRequestPhase::Unregistering(true),
            ImageRequestAction::UnregisterJob,
        ),
        (ImageRequestPhase::WaitingForJob, ImageRequestEvent::JobFinished(JobOutcome::Failed)) => (
            ImageRequestPhase::Unregistering(false),
            ImageRequestAction::UnregisterJob,
        ),
        (
            ImageRequestPhase::WaitingForJob,
            ImageRequestEvent::JobFinished(JobOutcome::ChannelClosed),
        ) => (ImageRequestPhase::RecheckingFile, ImageRequestAction::RecheckLocalFile),
        (ImageRequestPhase::RecheckingFile, ImageRequestEvent::FileChecked(exists)) => (
            ImageRequestPhase::Unregistering(exists),
            ImageRequestAction::UnregisterJob,
        ),
        (ImageRequestPhase::Unregistering(available), ImageRequestEvent::JobUnregistered) => (
            ImageRequestPhase::Done,
            ImageRequestAction::Respond(
                if available {
                    ImageResponse::Redirect
                } else {
                    ImageResponse::InternalError
                },
            ),
        ),
        _ => (ImageRequestPhase::Done, ImageRequestAction::Respond(ImageResponse::InternalError)),
    }
}

/// A request for a stored image, with the paths of that image.
pub struct ImageRequest {
    local_path: String,
    extern_path: String,
    phase: ImageRequestPhase,
}

impl ImageRequest {
    /// Where the request stands.
    pub closed spec fn phase(&self) -> ImageRequestPhase {
        self.phase
    }

    /// The local path of the requested image.
    pub closed spec fn spec_local_path(&self) -> Seq<char> {
        self.local_path@
    }

    /// The public URL of the requested image.
    pub closed spec fn spec_extern_path(&self) -> Seq<char> {
        self.extern_path@
    }

    /// A request for the image of the given type and name, not begun yet.
    pub fn new(image_type: ImageType, name: &String, settings: &Settings) -> (r: ImageRequest)
        ensures
            r.phase() == ImageRequestPhase::Start,
            r.spec_local_path() == image_type.spec_local_path(name@, *settings),
            r.spec_extern_path() == image_type.spec_extern_path(name@, *settings),
    {
        ImageRequest {
            local_path: image_type.local_path(name, settings),
            extern_path: image_type.extern_path(name, settings),
            phase: ImageRequestPhase::Start,
        }
    }

    /// The local path of the requested image.
    pub fn local_path(&self) -> (p: &String)
        ensures
            p@ == self.spec_local_path(),
    {
        &self.local_path
    }

    /// The public URL of the requested image, where a redirect points.
    pub fn extern_path(&self) -> (p: &String)
        ensures
            p@ == self.spec_extern_path(),
    {
        &self.extern_path
    }

    /// Takes in what was observed and says what to do next.
    pub fn step(&mut self, event: ImageRequestEvent) -> (action: ImageRequestAction)
        ensures
            (final(self).phase(), action) == spec_step(old(self).phase(), event),
            final(self).spec_local_path() == old(self).spec_local_path(),
            final(self).spec_extern_path() == old(self).spec_extern_path(),
            old(self).phase() != ImageRequestPhase::Done ==> phase_rank(final(self).phase())
                < phase_rank(old(self).phase()),
    {
        let (phase, action) = match (self.phase, event) {
            (ImageRequestPhase::Start, ImageRequestEvent::Begin) => (
                ImageRequestPhase::CheckingFile,
                ImageRequestAction::CheckLocalFile,
            ),
            (ImageRequestPhase::CheckingFile, ImageRequestEvent::FileChecked(true)) => (
                ImageRequestPhase::Done,
                ImageRequestAction::Respond(ImageResponse::Redirect),
            ),
            (ImageRequestPhase::CheckingFile, ImageRequestEvent::FileChecked(false)) => (
                ImageRequestPhase::LookingUpJob,
                ImageRequestAction::LookUpJob,
            ),
            (ImageRequestPhase::LookingUpJob, ImageRequestEvent::JobLookedUp(true)) => (
                ImageRequestPhase::WaitingForJob,
                ImageRequestAction::WaitForJob,
            ),
            (ImageRequestPhase::LookingUpJob, ImageRequestEvent::JobLookedUp(false)) => (
                ImageRequestPhase::SubmittingJob,
                ImageRequestAction::RegisterAndSubmitJob,
            ),
            (ImageRequestPhase::SubmittingJob, ImageRequestEvent::JobSubmitted(true)) => (
                ImageRequestPhase::WaitingForJob,
                ImageRequestAction::WaitForJob,
            ),
            (ImageRequestPhase::SubmittingJob, ImageRequestEvent::JobSubmitted(false)) => (
                ImageRequestPhase::Unregistering(false),
                ImageRequestAction::UnregisterJob,
            ),
            (
                ImageRequestPhase::WaitingForJob,
                ImageRequestEvent::JobFinished(JobOutcome::Succeeded),
            ) => (ImageRequestPhase::Unregistering(true), ImageRequestAction::UnregisterJob),
            (ImageRequestPhase::WaitingForJob, ImageRequestEvent::JobFinished(JobOutcome::Failed)) => (
                ImageRequestPhase::Unregistering(false),
                ImageRequestAction::UnregisterJob,
            ),
            (
                ImageRequestPhase::WaitingForJob,
                ImageRequestEvent::JobFinished(JobOutcome::ChannelClosed),
            ) => (ImageRequestPhase::RecheckingFile, ImageRequestAction::RecheckLocalFile),
            (ImageRequestPhase::RecheckingFile, ImageRequestEvent::FileChecked(exists)) => (
                ImageRequestPhase::Unregistering(exists),
                ImageRequestAction::UnregisterJob,
            ),
            (ImageRequestPhase::Unregistering(available), ImageRequestEvent::JobUnregistered) => (
                ImageRequestPhase::Done,
                ImageRequestAction::Respond(
                    if available {
                        ImageResponse::Redirect
                    } else {
                        ImageResponse::InternalError
                    },
                ),
            ),
            _ => (ImageRequestPhase::Done, ImageRequestAction::Respond(ImageResponse::InternalError)),
        };
        self.phase = phase;
        action
    }
}

/// The actions that a request beginning in phase `p` takes for a sequence of events.
pub open spec fn run_actions(p: ImageRequestPhase, events: Seq<ImageRequestEvent>) -> Seq<ImageRequestAction>
    decreases events.len(),
{
    if events.len() == 0 {
        Seq::empty()
    } else {
        let (next, action) = spec_step(p, events[0]);
        seq![action] + run_actions(next, events.drop_first())
    }
}

/// An event that shows the stored image to be available.
pub open spec fn shows_image_available(e: ImageRequestEvent) -> bool {
    e == ImageRequestEvent::FileChecked(true) || e == ImageRequestEvent::JobFinished(JobOutcome::Succeeded)
}

proof fn lemma_redirect_from_phase(p: ImageRequestPhase, events: Seq<ImageRequestEvent>)
    requires
        run_actions(p, events).contains(ImageRequestAction::Respond(ImageResponse::Redirect)),
    ensures
        p == ImageRequestPhase::Unregistering(true) || exists|i: int|
            0 <= i < events.len() && shows_image_available(#[trigger] events[i]),
    decreases events.len(),
{
    let r = ImageRequestAction::Respond(ImageResponse::Redirect);
    let acts = run_actions(p, events);
    let (next, action) = spec_step(p, events[0]);
    let rest = run_actions(next, events.drop_first());
    assert(acts == seq![action] + rest);
    if action == r {
        if p != ImageRequestPhase::Unregistering(true) {
            assert(shows_image_available(events[0]));
        }
    } else {
        let k = choose|k: int| 0 <= k < acts.len() && acts[k] == r;
        assert(rest[k - 1] == r);
        assert(rest.contains(r));
        lemma_redirect_from_phase(next, events.drop_first());
        if next == ImageRequestPhase::Unregistering(true) {
            assert(shows_image_available(events[0]));
        } else {
            let i = choose|i: int| 0 <= i < events.drop_first().len() && shows_image_available(#[trigger] events.drop_first()[i]);
            assert(events[i + 1] == events.drop_first()[i]);
        }
    }
}

/// A request is redirected to the stored image only after the image was seen to be
/// available: found on disk, or stored by the job it waited for.
pub proof fn lemma_redirect_only_when_available(events: Seq<ImageRequestEvent>)
    requires
        run_actions(ImageRequestPhase::Start, events).contains(
            ImageRequestAction::Respond(ImageResponse::Redirect),
        ),
    ensures
        exists|i: int| 0 <= i < events.len() && shows_image_available(#[trigger] events[i]),
{
    lemma_redirect_from_phase(ImageRequestPhase::Start, events);
}

} // verus!

verus! {

/// What a cached-images answer maps a mirror URL `{base}/small/{token}` or
/// `{base}/medium/{token}` to is the public URL that a request on the `small` or `medium`
/// route for that token is redirected to.
pub proof fn lemma_cached_answer_is_redirect_target(
    base: Seq<char>,
    token: Seq<char>,
    query: Seq<char>,
    settings: Settings,
)
    requires
        forall|i: int| 0 <= i < base.len() ==> base[i] != '?',
        token.len() > 0,
        forall|i: int| 0 <= i < token.len() ==> #[trigger] is_token_char(token[i]),
        query.len() == 0 || query[0] == '?',
    ensures
        spec_parse_mirror_url(base + seq!['/'] + small_word() + seq!['/'] + token + query, settings)
            == Some((ImageType::spec_small(settings), token)),
        spec_parse_mirror_url(base + seq!['/'] + medium_word() + seq!['/'] + token + query, settings)
            == Some((ImageType::spec_medium(settings), token)),
{
    lemma_mirror_url_round_trip(base, small_word(), token, query, settings);
    lemma_mirror_url_round_trip(base, medium_word(), token, query, settings);
    assert(selected_type(small_word(), settings) == ImageType::spec_small(settings));
    assert(medium_word() != small_word()) by {
        assert(medium_word().len() != small_word().len());
    }
    assert(selected_type(medium_word(), settings) == ImageType::spec_medium(settings));
}

} // verus!
