use netease_music_api::error::{AppError, DownloadError};
use netease_music_api::http_error::HttpFailureKind;
use netease_music_api::job::ResumeEvent::{
    AttemptCompleted, AttemptFatal, AttemptUrlExpired, EnterDownload, RefreshBudgetExhausted,
    RefreshSucceeded, SizeMismatch, UrlObtained,
};
use netease_music_api::job::ResumeState::{
    Assembled, Downloading, Failed, Init, Ready, Refreshing,
};
use netease_music_api::job::{kind_to_download_error, uses_refresh_loop, JobDriver, JobStep};

#[test]
fn init_url_obtained_to_ready() {
    let st = Init.advance(UrlObtained { resume_from: 0 }).unwrap();
    assert_eq!(st, Ready { resume_from: 0 });
    let st = Init.advance(UrlObtained { resume_from: 512 }).unwrap();
    assert_eq!(st, Ready { resume_from: 512 });
}

#[test]
fn ready_enter_download_carries_offset() {
    let st = Ready { resume_from: 256 }.advance(EnterDownload).unwrap();
    assert_eq!(st, Downloading { written: 256 });
}

#[test]
fn downloading_completed_to_assembled() {
    let st = Downloading { written: 1000 }.advance(AttemptCompleted).unwrap();
    assert_eq!(st, Assembled);
    assert!(st.is_terminal());
}

#[test]
fn downloading_url_expired_to_refreshing() {
    let st = Downloading { written: 400 }
        .advance(AttemptUrlExpired { written: 400 })
        .unwrap();
    assert_eq!(st, Refreshing { written: 400, refreshes_used: 0 });
    assert!(!st.is_terminal());
}

#[test]
fn downloading_fatal_to_failed() {
    let st = Downloading { written: 100 }
        .advance(AttemptFatal(DownloadError::DiskFull { need: 10, have: 1 }))
        .unwrap();
    assert!(matches!(st, Failed(DownloadError::DiskFull { .. })));
    assert!(st.is_terminal());
}

#[test]
fn refreshing_success_resumes_download() {
    let st = Refreshing { written: 400, refreshes_used: 1 }
        .advance(RefreshSucceeded { resume_from: 400 })
        .unwrap();
    assert_eq!(st, Downloading { written: 400 });
}

#[test]
fn refreshing_budget_exhausted_to_failed() {
    let st = Refreshing { written: 400, refreshes_used: 2 }
        .advance(RefreshBudgetExhausted)
        .unwrap();
    assert!(matches!(st, Failed(_)));
    assert!(st.is_terminal());
}

#[test]
fn refreshing_size_mismatch_restarts_from_zero() {
    let st = Refreshing { written: 400, refreshes_used: 1 }.advance(SizeMismatch).unwrap();
    assert_eq!(st, Ready { resume_from: 0 });
}

#[test]
fn illegal_init_to_completed() {
    let err = Init.advance(AttemptCompleted).unwrap_err();
    assert!(matches!(err, AppError::InvalidTransition(_)));
}

#[test]
fn illegal_downloading_url_obtained() {
    let err = Downloading { written: 0 }
        .advance(UrlObtained { resume_from: 0 })
        .unwrap_err();
    assert!(matches!(err, AppError::InvalidTransition(_)));
}

#[test]
fn illegal_ready_to_completed() {
    let err = Ready { resume_from: 0 }.advance(AttemptCompleted).unwrap_err();
    assert!(matches!(err, AppError::InvalidTransition(_)));
}

#[test]
fn illegal_assembled_any_event() {
    let err = Assembled.advance(EnterDownload).unwrap_err();
    assert!(matches!(err, AppError::InvalidTransition(_)));
}

#[test]
fn illegal_refreshing_enter_download_directly() {
    let err = Refreshing { written: 100, refreshes_used: 0 }
        .advance(EnterDownload)
        .unwrap_err();
    assert!(matches!(err, AppError::InvalidTransition(_)));
}

#[test]
fn is_terminal_exhaustive() {
    assert!(!Init.is_terminal());
    assert!(!Ready { resume_from: 0 }.is_terminal());
    assert!(!Downloading { written: 0 }.is_terminal());
    assert!(!Refreshing { written: 0, refreshes_used: 0 }.is_terminal());
    assert!(Assembled.is_terminal());
    assert!(Failed(DownloadError::Cancelled).is_terminal());
}

#[test]
fn full_path_with_one_refresh_cycle() {
    let mut st = Init;
    st = st.advance(UrlObtained { resume_from: 0 }).unwrap();
    st = st.advance(EnterDownload).unwrap();
    assert_eq!(st, Downloading { written: 0 });
    st = st.advance(AttemptUrlExpired { written: 400 }).unwrap();
    assert!(matches!(st, Refreshing { written: 400, .. }));
    st = st.advance(RefreshSucceeded { resume_from: 400 }).unwrap();
    assert_eq!(st, Downloading { written: 400 });
    st = st.advance(AttemptCompleted).unwrap();
    assert_eq!(st, Assembled);
    assert!(st.is_terminal());
}

#[test]
fn refused_transition_message_names_state_and_event() {
    let err = Ready { resume_from: 7 }.advance(AttemptCompleted).unwrap_err();
    match err {
        AppError::InvalidTransition(m) => {
            assert_eq!(m, "Ready { resume_from: 7 } -x-> AttemptCompleted");
        }
        other => panic!("unexpected {other:?}"),
    }
    let err = Failed(DownloadError::Other("a\"b".into()))
        .advance(AttemptFatal(DownloadError::DiskFull { need: 3, have: 4 }))
        .unwrap_err();
    match err {
        AppError::InvalidTransition(m) => {
            assert_eq!(
                m,
                "Failed(Other(\"a\\\"b\")) -x-> AttemptFatal(DiskFull { need: 3, have: 4 })"
            );
        }
        other => panic!("unexpected {other:?}"),
    }
}

#[test]
fn failure_causes_of_attempts() {
    assert_eq!(
        kind_to_download_error(&HttpFailureKind::AuthExpired),
        DownloadError::UrlExpired { status: 401 }
    );
    assert_eq!(
        kind_to_download_error(&HttpFailureKind::Permanent4xx { status: 416 }),
        DownloadError::UrlExpired { status: 416 }
    );
    assert_eq!(
        kind_to_download_error(&HttpFailureKind::Timeout),
        DownloadError::Timeout { secs: 0 }
    );
    assert_eq!(
        kind_to_download_error(&HttpFailureKind::Quota { retry_after: None }),
        DownloadError::Other("rate limited".into())
    );
    assert_eq!(
        kind_to_download_error(&HttpFailureKind::Network("boom".into())),
        DownloadError::Network("boom".into())
    );
}

#[test]
fn driver_refreshes_within_budget_then_fails() {
    assert!(uses_refresh_loop(true, true));
    assert!(!uses_refresh_loop(false, true));
    assert!(!uses_refresh_loop(true, false));
    let mut d = JobDriver::start(0, 1).unwrap();
    d.begin_attempt();
    let step = d
        .after_attempt(Some(HttpFailureKind::Permanent4xx { status: 403 }), 100)
        .unwrap();
    assert_eq!(step, JobStep::Refresh);
    assert_eq!(d.refreshes_used, 1);
    let step = d.after_refresh(Ok(1000), 1000, 100).unwrap();
    assert_eq!(step, JobStep::Attempt);
    assert_eq!(d.state, Downloading { written: 100 });
    d.begin_attempt();
    let step = d.after_attempt(Some(HttpFailureKind::AuthExpired), 300).unwrap();
    assert_eq!(step, JobStep::Failed(DownloadError::Other("refresh budget exhausted".into())));
    assert!(d.state.is_terminal());
}

#[test]
fn driver_size_mismatch_restarts_and_fatal_fails() {
    let mut d = JobDriver::start(50, 2).unwrap();
    d.begin_attempt();
    assert_eq!(d.state, Downloading { written: 50 });
    let step = d.after_attempt(Some(HttpFailureKind::Permanent4xx { status: 410 }), 60).unwrap();
    assert_eq!(step, JobStep::Refresh);
    let step = d.after_refresh(Ok(999), 1000, 60).unwrap();
    assert_eq!(step, JobStep::DiscardAndRestart);
    assert_eq!(d.state, Ready { resume_from: 0 });
    d.begin_attempt();
    let step = d.after_attempt(Some(HttpFailureKind::Permanent4xx { status: 416 }), 0).unwrap();
    assert_eq!(step, JobStep::Failed(DownloadError::UrlExpired { status: 416 }));
}

#[test]
fn driver_completes_and_refresh_error_is_refused() {
    let mut d = JobDriver::start(0, 2).unwrap();
    d.begin_attempt();
    assert_eq!(d.after_attempt(None, 10).unwrap(), JobStep::Done);
    assert_eq!(d.state, Assembled);

    let mut d = JobDriver::start(0, 2).unwrap();
    d.begin_attempt();
    d.after_attempt(Some(HttpFailureKind::Permanent4xx { status: 404 }), 5).unwrap();
    let err = d.after_refresh(Err("api down".into()), 1000, 5).unwrap_err();
    assert!(matches!(err, AppError::InvalidTransition(_)));
}
