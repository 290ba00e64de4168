use cosmic_gemini::browser::AppMessage;
use cosmic_gemini::client::{Error, Status};
use cosmic_gemini::config::PageStatus;
use cosmic_gemini::fetch::{
    check_image_size, connect_target, download_candidate, fetch_failure, image_requests,
    is_download, max_redirects, page_loaded, page_status, redirect_step, url_to_filename,
    RedirectStep,
};
use cosmic_gemini::model::AppModel;
use cosmic_gemini::tab::{Block, TabContent};

#[test]
fn invalid_scheme() {
    assert!(matches!(connect_target("http://example.com"), Err(Error::SchemeNotSupported)));
}

#[test]
fn gemini_target_defaults_to_port_1965() {
    let (host, port) = connect_target("gemini://example.com/page").unwrap();
    assert_eq!(host, "example.com");
    assert_eq!(port, 1965);
    let (_, port) = connect_target("gemini://example.com:1966/").unwrap();
    assert_eq!(port, 1966);
}

#[test]
fn unparsable_url_is_invalid() {
    assert!(matches!(connect_target("not a url"), Err(Error::InvalidUrl(_))));
}

#[test]
fn redirect_limits() {
    assert_eq!(max_redirects(true), 5);
    assert_eq!(max_redirects(false), 1);
}

#[test]
fn redirects_are_followed() {
    match redirect_step("gemini://a.com/x/y", Status::Redirect(31), " gemini://b.com/z ", 0, 5).unwrap() {
        RedirectStep::Follow(u) => assert_eq!(u, "gemini://b.com/z"),
        other => panic!("unexpected: {:?}", other),
    }
    match redirect_step("gemini://a.com/x/y", Status::Redirect(30), "other", 1, 5).unwrap() {
        RedirectStep::Follow(u) => assert_eq!(u, "gemini://a.com/x/other"),
        other => panic!("unexpected: {:?}", other),
    }
}

#[test]
fn too_many_redirects() {
    match redirect_step("gemini://a.com/", Status::Redirect(30), "/loop", 5, 5) {
        Err(Error::TooManyRedirects(m)) => assert_eq!(m, "/loop"),
        other => panic!("unexpected: {:?}", other),
    }
}

#[test]
fn non_redirect_is_done() {
    assert!(matches!(
        redirect_step("gemini://a.com/", Status::Success(20), "text/gemini", 0, 5),
        Ok(RedirectStep::Done)
    ));
}

#[test]
fn statuses_become_page_states() {
    assert!(matches!(page_status(Status::Input(10), "q"), PageStatus::Input { sensitive: false }));
    assert!(matches!(page_status(Status::Input(11), "q"), PageStatus::Input { sensitive: true }));
    assert!(matches!(page_status(Status::Success(20), "text/gemini"), PageStatus::Success));
    match page_status(Status::Redirect(30), "gemini://x/") {
        PageStatus::Redirect(t) => assert_eq!(t, "gemini://x/"),
        other => panic!("unexpected: {:?}", other),
    }
    assert!(matches!(page_status(Status::TempFail(40), ""), PageStatus::TempFail));
    assert!(matches!(page_status(Status::PermFail(51), ""), PageStatus::PermFail));
    assert!(matches!(page_status(Status::CertRequired(60), ""), PageStatus::CertRequired));
}

#[test]
fn binary_success_is_a_download() {
    assert!(is_download(Status::Success(20), "image/png"));
    assert!(!is_download(Status::Success(20), "text/gemini"));
    assert!(!is_download(Status::Success(20), ""));
    assert!(!is_download(Status::Redirect(30), "image/png"));
}

#[test]
fn certificate_failures_become_warnings() {
    match fetch_failure("gemini://x/".to_string(), "certificate for x changed".to_string()) {
        AppMessage::CertWarning { url, error } => {
            assert_eq!(url, "gemini://x/");
            assert_eq!(error, "certificate for x changed");
        }
        other => panic!("unexpected: {:?}", other),
    }
    assert!(matches!(
        fetch_failure("u".to_string(), "BadIdentity".to_string()),
        AppMessage::CertWarning { .. }
    ));
    match fetch_failure("u".to_string(), "timeout".to_string()) {
        AppMessage::PageLoaded(Err(e)) => assert_eq!(e, "timeout"),
        other => panic!("unexpected: {:?}", other),
    }
}

#[test]
fn responses_become_page_messages() {
    match page_loaded("gemini://x/".to_string(), Status::Success(20), "text/gemini".to_string(), Some("# Hi".to_string())) {
        AppMessage::PageLoaded(Ok(p)) => {
            assert_eq!(p.url, "gemini://x/");
            assert!(matches!(p.status, PageStatus::Success));
            assert_eq!(p.body.as_deref(), Some("# Hi"));
        }
        other => panic!("unexpected: {:?}", other),
    }
}

#[test]
fn download_names() {
    assert_eq!(url_to_filename("gemini://example.com/files/report.pdf"), "report.pdf");
    assert_eq!(url_to_filename("gemini://example.com/files/"), "example.com");
    assert_eq!(url_to_filename("not a url"), "download");
}

#[test]
fn download_candidates() {
    assert_eq!(download_candidate("report.pdf", 0), "report.pdf");
    assert_eq!(download_candidate("report.pdf", 1), "report_1.pdf");
    assert_eq!(download_candidate("archive.tar.gz", 12), "archive.tar_12.gz");
    assert_eq!(download_candidate("README", 3), "README_3");
    assert_eq!(download_candidate(".hidden", 2), ".hidden_2");
}

#[test]
fn pending_images_are_requested() {
    let mut m = AppModel::new();
    m.tabs[0].content = TabContent::Document(vec![
        Block::Paragraph("x".to_string()),
        Block::Image { alt: "a".to_string(), url: "gemini://x/a.png".to_string(), data: None },
        Block::Image { alt: "b".to_string(), url: "gemini://x/b.png".to_string(), data: Some(vec![1]) },
        Block::Image { alt: "c".to_string(), url: "gemini://x/c.png".to_string(), data: None },
    ]);
    let r = image_requests(&m, 0);
    assert_eq!(r, vec![(1, "gemini://x/a.png".to_string()), (3, "gemini://x/c.png".to_string())]);
    assert!(image_requests(&m, 5).is_empty());
}

#[test]
fn image_size_limit() {
    assert!(check_image_size(10 * 1024 * 1024).is_ok());
    assert_eq!(check_image_size(10 * 1024 * 1024 + 1).unwrap_err(), "Image exceeds 10MB limit");
}
