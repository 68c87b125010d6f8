use image_mirror::config::Settings;
use image_mirror::image_type::ImageType;
use image_mirror::serving::{ImageRequest, ImageRequestAction as A, ImageRequestEvent as E, ImageResponse, JobOutcome};

fn request() -> ImageRequest {
    let s = Settings::new("https://s/i/".to_string(), "./i/".to_string(), 250, 750, 3, String::new()).unwrap();
    ImageRequest::new(ImageType::Normal, &"abc".to_string(), &s)
}

#[test]
fn stored_image_is_redirected_to() {
    let mut r = request();
    assert_eq!(r.local_path(), "./i/abc_normal.webp");
    assert_eq!(r.extern_path(), "https://s/i/abc_normal.webp");
    assert_eq!(r.step(E::Begin), A::CheckLocalFile);
    assert_eq!(r.step(E::FileChecked(true)), A::Respond(ImageResponse::Redirect));
}

#[test]
fn new_job_succeeds() {
    let mut r = request();
    r.step(E::Begin);
    assert_eq!(r.step(E::FileChecked(false)), A::LookUpJob);
    assert_eq!(r.step(E::JobLookedUp(false)), A::RegisterAndSubmitJob);
    assert_eq!(r.step(E::JobSubmitted(true)), A::WaitForJob);
    assert_eq!(r.step(E::JobFinished(JobOutcome::Succeeded)), A::UnregisterJob);
    assert_eq!(r.step(E::JobUnregistered), A::Respond(ImageResponse::Redirect));
}

#[test]
fn joined_job_fails() {
    let mut r = request();
    r.step(E::Begin);
    r.step(E::FileChecked(false));
    assert_eq!(r.step(E::JobLookedUp(true)), A::WaitForJob);
    assert_eq!(r.step(E::JobFinished(JobOutcome::Failed)), A::UnregisterJob);
    assert_eq!(r.step(E::JobUnregistered), A::Respond(ImageResponse::InternalError));
}

#[test]
fn dead_worker() {
    let mut r = request();
    r.step(E::Begin);
    r.step(E::FileChecked(false));
    r.step(E::JobLookedUp(false));
    assert_eq!(r.step(E::JobSubmitted(false)), A::UnregisterJob);
    assert_eq!(r.step(E::JobUnregistered), A::Respond(ImageResponse::InternalError));
}

#[test]
fn closed_channel_rechecks_the_file() {
    for (exists, answer) in [(true, ImageResponse::Redirect), (false, ImageResponse::InternalError)] {
        let mut r = request();
        r.step(E::Begin);
        r.step(E::FileChecked(false));
        r.step(E::JobLookedUp(true));
        assert_eq!(r.step(E::JobFinished(JobOutcome::ChannelClosed)), A::RecheckLocalFile);
        assert_eq!(r.step(E::FileChecked(exists)), A::UnregisterJob);
        assert_eq!(r.step(E::JobUnregistered), A::Respond(answer));
    }
}

#[test]
fn stray_events_end_in_an_error() {
    let mut r = request();
    assert_eq!(r.step(E::FileChecked(true)), A::Respond(ImageResponse::InternalError));
    let mut r = request();
    r.step(E::Begin);
    r.step(E::FileChecked(false));
    assert_eq!(r.step(E::JobUnregistered), A::Respond(ImageResponse::InternalError));
}
