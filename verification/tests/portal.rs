use nova_wayland::platform::NovaError;
use nova_wayland::portal::{
    handle_token, request_path, screenshot, take_answer, PortalCapture, PortalReply, PortalRequest,
    PORTAL_TIMEOUT,
};
use nova_wayland::uri::{percent_decode, uri_to_path};

#[test]
fn request_path_matches_the_portal_convention() {
    assert_eq!(
        request_path(":1.234", "tok"),
        "/org/freedesktop/portal/desktop/request/1_234/tok"
    );
}

#[test]
fn uri_decoding_handles_spaces() {
    assert_eq!(
        std::path::PathBuf::from(uri_to_path("file:///home/a%20b/Screenshot%20(1).png").unwrap()),
        std::path::PathBuf::from("/home/a b/Screenshot (1).png")
    );
}

#[test]
fn uri_must_be_a_file_url() {
    assert!(uri_to_path("https://example.com/x.png").is_err());
}

fn nanos_now() -> u128 {
    std::time::SystemTime::now()
        .duration_since(std::time::UNIX_EPOCH)
        .map(|d| d.as_nanos())
        .unwrap_or(0)
}

#[test]
fn tokens_do_not_repeat() {
    let pid = 4321;
    assert_ne!(handle_token(pid, nanos_now()), handle_token(pid, nanos_now()));
}

/* ── Paths and tokens ───────────────────────────────────────────── */

#[test]
fn request_path_drops_every_leading_colon_and_keeps_later_ones() {
    assert_eq!(
        request_path("::1.2:3.4", "t"),
        "/org/freedesktop/portal/desktop/request/1_2:3_4/t"
    );
    assert_eq!(
        request_path("", ""),
        "/org/freedesktop/portal/desktop/request//"
    );
}

#[test]
fn token_holds_process_and_time() {
    assert_eq!(handle_token(0, 0), "nova_0_0");
    assert_eq!(
        handle_token(4294967295, 340282366920938463463374607431768211455),
        "nova_4294967295_340282366920938463463374607431768211455"
    );
}

#[test]
fn tokens_of_neighbours_differ() {
    assert_ne!(handle_token(1, 23), handle_token(12, 3));
    assert_ne!(handle_token(1, 2), handle_token(2, 2));
    assert_ne!(handle_token(1, 2), handle_token(1, 3));
}

#[test]
fn paths_of_different_tokens_differ() {
    assert_ne!(request_path(":1.2", "a"), request_path(":1.2", "b"));
}

/* ── URIs ───────────────────────────────────────────────────────── */

#[test]
fn uri_error_repeats_the_uri() {
    assert_eq!(
        uri_to_path("https://example.com/x.png"),
        Err(NovaError::msg("the portal returned an unusable URI: https://example.com/x.png"))
    );
    assert_eq!(uri_to_path(""), Err(NovaError::msg("the portal returned an unusable URI: ")));
    assert!(uri_to_path("File:///x").is_err());
}

#[test]
fn uri_decodes_multibyte_characters() {
    assert_eq!(uri_to_path("file:///%C3%A9%c3%a9é").unwrap(), "/ééé");
    assert_eq!(uri_to_path("file://").unwrap(), "");
}

#[test]
fn uri_with_bytes_that_are_no_text_gets_replacements() {
    assert_eq!(uri_to_path("file:///a%FFb").unwrap(), "/a\u{fffd}b");
}

#[test]
fn percent_without_an_escape_stands_for_itself() {
    assert_eq!(percent_decode(b"100%"), b"100%".to_vec());
    assert_eq!(percent_decode(b"%4"), b"%4".to_vec());
    assert_eq!(percent_decode(b"%zz%20"), b"%zz ".to_vec());
    assert_eq!(percent_decode(b"%%20"), b"% ".to_vec());
    assert_eq!(percent_decode(b"%-5"), b"%-5".to_vec());
}

#[test]
fn percent_takes_no_sign_for_a_digit() {
    assert_eq!(percent_decode(b"%+5"), b"%+5".to_vec());
    assert_eq!(uri_to_path("file:///a%+5").unwrap(), "/a%+5");
    assert_eq!(percent_decode(b"%5+"), b"%5+".to_vec());
    assert_eq!(percent_decode(b"%++"), b"%++".to_vec());
}

#[test]
fn percent_decoding_undoes_encoding() {
    let plain: Vec<u8> = (0..=255).collect();
    let mut upper = String::new();
    let mut lower = String::new();
    for b in &plain {
        upper.push_str(&format!("%{b:02X}"));
        lower.push_str(&format!("%{b:02x}"));
    }
    assert_eq!(percent_decode(upper.as_bytes()), plain);
    assert_eq!(percent_decode(lower.as_bytes()), plain);
}

#[test]
fn plain_text_decodes_to_itself() {
    assert_eq!(percent_decode(b"/home/a b/c.png"), b"/home/a b/c.png".to_vec());
    assert_eq!(percent_decode(b""), Vec::<u8>::new());
}

/* ── The exchange ───────────────────────────────────────────────── */

const PATH: &str = "/org/freedesktop/portal/desktop/request/1_7/nova_5_9";

fn played(replies: Vec<PortalReply>) -> PortalCapture {
    let mut capture = screenshot();
    for reply in replies {
        capture = capture.reply(reply);
    }
    capture
}

fn up_to_call() -> Vec<PortalReply> {
    vec![
        PortalReply::Done,
        PortalReply::Name(Some(":1.7".to_string())),
        PortalReply::Clock { pid: 5, nanos: 9 },
        PortalReply::Done,
        PortalReply::Done,
        PortalReply::Done,
        PortalReply::Done,
    ]
}

fn up_to_answer() -> Vec<PortalReply> {
    let mut replies = up_to_call();
    replies.push(PortalReply::Handle(PATH.to_string()));
    replies.push(PortalReply::Done);
    replies
}

fn call() -> PortalRequest {
    PortalRequest::Call {
        parent_window: String::new(),
        handle_token: "nova_5_9".to_string(),
        interactive: false,
    }
}

fn failure(words: &str) -> PortalRequest {
    PortalRequest::Failed(NovaError::msg(words))
}

fn after(mut replies: Vec<PortalReply>, last: PortalReply) -> PortalRequest {
    replies.push(last);
    played(replies).request()
}

#[test]
fn exchange_runs_in_order() {
    let mut replies = up_to_answer();
    replies.push(PortalReply::Answer { code: 0, uri: Some("file:///tmp/a%20b.png".to_string()) });
    replies.push(PortalReply::Loaded(vec![1, 2, 3]));
    replies.push(PortalReply::Done);
    let wanted = vec![
        PortalRequest::Connect,
        PortalRequest::ReadName,
        PortalRequest::ReadClock,
        PortalRequest::Address(PATH.to_string()),
        PortalRequest::Watch,
        PortalRequest::Subscribe,
        PortalRequest::Open,
        call(),
        PortalRequest::Wait,
        PortalRequest::ReadAnswer,
        PortalRequest::Load("/tmp/a b.png".to_string()),
        PortalRequest::Remove("/tmp/a b.png".to_string()),
    ];
    let mut capture = screenshot();
    for (reply, request) in replies.into_iter().zip(wanted) {
        assert_eq!(capture.request(), request);
        capture = capture.reply(reply);
    }
    assert_eq!(capture.request(), PortalRequest::Finished);
    assert_eq!(capture.image(), Some(vec![1, 2, 3]));
    assert_eq!(PORTAL_TIMEOUT, 120);
}

#[test]
fn subscription_comes_before_the_call() {
    let mut asked = Vec::new();
    let mut capture = screenshot();
    for reply in up_to_call() {
        asked.push(capture.request());
        capture = capture.reply(reply);
    }
    assert!(asked.contains(&PortalRequest::Subscribe));
    assert_eq!(capture.request(), call());
}

#[test]
fn each_step_of_the_exchange_can_fail() {
    let words = || PortalReply::Failed("oops".to_string());
    let wanted = [
        "could not reach the session bus for screen capture: oops",
        "",
        "",
        "bad portal request path: oops",
        "could not watch the portal request: oops",
        "could not subscribe to the portal: oops",
        "xdg-desktop-portal is not available: oops. Install xdg-desktop-portal and the backend \
         for your desktop (xdg-desktop-portal-gnome, -kde or -wlr).",
    ];
    for (i, message) in wanted.iter().enumerate() {
        if !message.is_empty() {
            let mut replies = up_to_call();
            replies.truncate(i);
            assert_eq!(after(replies, words()), failure(message));
        }
    }
    assert_eq!(
        after(up_to_call(), words()),
        failure("the screenshot portal refused: oops")
    );
    assert_eq!(
        after(up_to_answer(), words()),
        failure("could not read the portal response: oops")
    );
}

#[test]
fn bus_without_a_name_fails() {
    assert_eq!(
        after(vec![PortalReply::Done], PortalReply::Name(None)),
        failure("the session bus did not assign us a name")
    );
}

#[test]
fn unexpected_request_path_fails() {
    assert_eq!(
        after(up_to_call(), PortalReply::Handle("/other".to_string())),
        failure(
            "the screenshot portal used an unexpected request path (/other); \
             this desktop's portal backend may be out of date."
        )
    );
}

#[test]
fn silence_and_closing_fail() {
    let mut waiting = up_to_call();
    waiting.push(PortalReply::Handle(PATH.to_string()));
    let mut again = up_to_call();
    again.push(PortalReply::Handle(PATH.to_string()));
    assert_eq!(
        after(waiting, PortalReply::TimedOut),
        failure("the screenshot portal did not respond in time")
    );
    assert_eq!(
        after(again, PortalReply::Closed),
        failure("the screenshot portal closed without responding")
    );
}

#[test]
fn time_limit_covers_every_stage_up_to_the_answer() {
    for n in 0..up_to_answer().len() {
        let mut replies = up_to_answer();
        replies.truncate(n);
        let capture = played(replies);
        assert_eq!(capture.time_limit(), Some(PORTAL_TIMEOUT));
        assert_eq!(
            capture.reply(PortalReply::TimedOut).request(),
            failure("the screenshot portal did not respond in time")
        );
    }
    for last in [
        PortalCapture::Reading,
        PortalCapture::Loading { file: "f".to_string() },
        PortalCapture::Removing { file: "f".to_string(), bytes: vec![1] },
        PortalCapture::Captured { bytes: vec![1] },
        take_answer(1, None),
    ] {
        assert_eq!(last.time_limit(), None);
        let before = last.request();
        assert_eq!(last.reply(PortalReply::TimedOut).request(), before);
    }
}

#[test]
fn answer_codes_decide() {
    assert_eq!(
        take_answer(0, Some("file:///x.png")),
        PortalCapture::Loading { file: "/x.png".to_string() }
    );
    assert_eq!(
        take_answer(0, None).request(),
        failure("the portal reported success but returned no image")
    );
    assert_eq!(
        take_answer(0, Some("http://x")).request(),
        failure("the portal returned an unusable URI: http://x")
    );
    assert_eq!(
        take_answer(1, Some("file:///x.png")).request(),
        failure("The screen capture request was cancelled.")
    );
    assert_eq!(
        take_answer(2, None).request(),
        failure(
            "The desktop refused the screen capture request (code 2). \
             Check Settings → Privacy → Screen Sharing."
        )
    );
    assert_eq!(
        take_answer(4294967295, None).request(),
        failure(
            "The desktop refused the screen capture request (code 4294967295). \
             Check Settings → Privacy → Screen Sharing."
        )
    );
}

#[test]
fn unreadable_image_fails_with_its_path() {
    let mut replies = up_to_answer();
    replies.push(PortalReply::Answer { code: 0, uri: Some("file:///x.png".to_string()) });
    assert_eq!(
        after(replies, PortalReply::Failed("denied".to_string())),
        failure("could not read the captured image at /x.png: denied")
    );
}

#[test]
fn image_survives_a_file_that_cannot_be_removed() {
    let mut replies = up_to_answer();
    replies.push(PortalReply::Answer { code: 0, uri: Some("file:///x.png".to_string()) });
    replies.push(PortalReply::Loaded(vec![7]));
    replies.push(PortalReply::Failed("denied".to_string()));
    assert_eq!(played(replies).image(), Some(vec![7]));
}

#[test]
fn reply_that_answers_nothing_changes_nothing() {
    assert_eq!(screenshot().reply(PortalReply::Closed), screenshot());
    let failed = take_answer(1, None);
    assert_eq!(failed.reply(PortalReply::Done), take_answer(1, None));
    assert_eq!(screenshot().image(), None);
}
