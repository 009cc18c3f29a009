//! Screen capture through xdg-desktop-portal.
//!
//! The portal is asynchronous: the `Screenshot` method returns a handle to a Request object, and
//! the result arrives later as a `Response` signal on that object. The subscription has to be live
//! before the method is called, or a portal that answers at once wins the race and the response is
//! lost. [`PortalCapture`] is that exchange as a state machine: it says what to do next, and is
//! told how it went.
use crate::platform::{fails_with, lemma_fails_with, NovaError, Reason};
use crate::text::{
    all_digits, append_digits, chars_of, digits, fields, is_digit, lemma_digits_read_back,
    lemma_fields_next, lemma_fields_single, number, same_text,
};
use crate::uri::{
    lemma_path_is_the_rest, lossy_text, percent_decoded, uri_path_bytes, uri_to_path,
};
use vstd::prelude::*;
use vstd::string::*;
use vstd::utf8::*;

verus! {

/// Ceiling on the whole exchange, in seconds. Long, because a portal that has not yet been granted
/// permission shows a dialog and waits for the user.
pub const PORTAL_TIMEOUT: u64 = 120;

/* ── Requests and tokens ────────────────────────────────────────── */

/// A bus name without the colons at its front.
pub open spec fn without_colons(name: Seq<char>) -> Seq<char>
    decreases name.len(),
{
    if name.len() > 0 && name[0] == ':' {
        without_colons(name.skip(1))
    } else {
        name
    }
}

/// A bus name as an element of an object path: without the colons at its front, and with an
/// underscore for each dot.
pub open spec fn sender_element(name: Seq<char>) -> Seq<char> {
    without_colons(name).map_values(
        |c: char|
            if c == '.' {
                '_'
            } else {
                c
            },
    )
}

/// The object path of a portal request.
pub open spec fn request_path_of(name: Seq<char>, token: Seq<char>) -> Seq<char> {
    "/org/freedesktop/portal/desktop/request/"@ + sender_element(name) + "/"@ + token
}

/// Reconstructs the object path that the portal will use for a request: the caller's unique bus
/// name with the leading colon dropped and dots replaced by underscores, plus the token.
pub fn request_path(unique_name: &str, token: &str) -> (path: String)
    ensures
        path@ == request_path_of(unique_name@, token@),
{
    let chars = chars_of(unique_name);
    let mut start: usize = 0;
    assert(unique_name@.skip(0) =~= unique_name@);
    while start < chars.len() && chars[start] == ':'
        invariant
            chars@ == unique_name@,
            start <= chars@.len(),
            without_colons(unique_name@) == without_colons(unique_name@.skip(start as int)),
        decreases chars.len() - start,
    {
        assert(unique_name@.skip(start as int).skip(1) =~= unique_name@.skip(start + 1));
        start = start + 1;
    }
    let ghost bare = unique_name@.skip(start as int);
    let ghost element = sender_element(unique_name@);
    let mut path = "/org/freedesktop/portal/desktop/request/".to_owned();
    let ghost front = path@;
    let mut i: usize = start;
    assert(path@ =~= front + element.take(0));
    while i < chars.len()
        invariant
            chars@ == unique_name@,
            start <= i <= chars@.len(),
            bare == unique_name@.skip(start as int),
            bare == without_colons(unique_name@),
            element == sender_element(unique_name@),
            path@ == front + element.take(i - start),
        decreases chars.len() - i,
    {
        let ghost written = path@;
        assert(bare[i - start] == chars@[i as int]);
        if chars[i] == '.' {
            proof {
                reveal_strlit("_");
            }
            path.append("_");
        } else {
            path.append(unique_name.substring_char(i, i + 1));
        }
        assert(path@ =~= written.push(element[i - start]));
        i = i + 1;
        assert(element.take(i - start) =~= element.take(i - 1 - start).push(element[i - 1 - start]));
        assert(path@ =~= front + element.take(i - start));
    }
    assert(element.take(i - start) =~= element);
    path.append("/");
    path.append(token);
    path
}

/// The element that a bus name makes has neither a dot nor a colon at its front, as the elements
/// of an object path must not.
pub proof fn lemma_sender_element_is_clean(name: Seq<char>)
    ensures
        !sender_element(name).contains('.'),
        sender_element(name).len() > 0 ==> sender_element(name)[0] != ':',
    decreases name.len(),
{
    if name.len() > 0 && name[0] == ':' {
        lemma_sender_element_is_clean(name.skip(1));
    }
}

/// The token of a request that process `pid` makes `nanos` nanoseconds after the epoch.
pub open spec fn token_of(pid: u32, nanos: u128) -> Seq<char> {
    "nova_"@ + digits(pid as nat) + "_"@ + digits(nanos as nat)
}

/// A token unique to a request that process `pid` makes `nanos` nanoseconds after the epoch.
/// Reusing one would collide with a request still in flight.
pub fn handle_token(pid: u32, nanos: u128) -> (token: String)
    ensures
        token@ == token_of(pid, nanos),
{
    let mut token = "nova_".to_owned();
    append_digits(&mut token, pid as u128);
    token.append("_");
    append_digits(&mut token, nanos);
    token
}

/// Two requests share a token only if the same process made them at the same nanosecond.
pub proof fn lemma_tokens_distinct(pid1: u32, nanos1: u128, pid2: u32, nanos2: u128)
    requires
        token_of(pid1, nanos1) == token_of(pid2, nanos2),
    ensures
        pid1 == pid2,
        nanos1 == nanos2,
{
    reveal_strlit("nova_");
    reveal_strlit("_");
    let (p1, p2) = (digits(pid1 as nat), digits(pid2 as nat));
    let (l1, l2) = (p1.len() as int, p2.len() as int);
    let (n1, n2) = (digits(nanos1 as nat), digits(nanos2 as nat));
    let (t1, t2) = (token_of(pid1, nanos1), token_of(pid2, nanos2));
    lemma_digits_read_back(pid1 as nat);
    lemma_digits_read_back(pid2 as nat);
    lemma_digits_read_back(nanos1 as nat);
    lemma_digits_read_back(nanos2 as nat);
    assert(t1[5 + l1] == '_');
    assert(t2[5 + l2] == '_');
    if l1 < l2 {
        assert(t2[5 + l1] == p2[l1]);
        assert(is_digit(p2[l1]));
    } else if l2 < l1 {
        assert(t1[5 + l2] == p1[l2]);
        assert(is_digit(p1[l2]));
    }
    assert(p1 =~= t1.subrange(5, 5 + l1));
    assert(p2 =~= t2.subrange(5, 5 + l2));
    assert(n1 =~= t1.skip(6 + l1));
    assert(n2 =~= t2.skip(6 + l2));
}

/// Requests of one caller with different tokens have different object paths.
pub proof fn lemma_request_paths_distinct(name: Seq<char>, token1: Seq<char>, token2: Seq<char>)
    requires
        request_path_of(name, token1) == request_path_of(name, token2),
    ensures
        token1 == token2,
{
    let front = "/org/freedesktop/portal/desktop/request/"@ + sender_element(name) + "/"@;
    assert(token1 =~= request_path_of(name, token1).skip(front.len() as int));
    assert(token2 =~= request_path_of(name, token2).skip(front.len() as int));
}

/* ── The exchange ───────────────────────────────────────────────── */

/// How far a capture has got, as a mathematical value.
pub enum PortalView {
    /// The session bus has to be reached.
    Connecting,
    /// The bus has to tell the caller's unique name.
    Naming,
    /// The name is known; the process and the time make the token.
    Marking(Seq<char>),
    /// The request has a token and a path; the path has to be set on the request's proxy.
    Addressing(Seq<char>, Seq<char>),
    /// The request's proxy has to be built.
    Watching(Seq<char>, Seq<char>),
    /// The response of the request has to be subscribed to.
    Subscribing(Seq<char>, Seq<char>),
    /// The subscription is live; the portal's proxy has to be built.
    Opening(Seq<char>, Seq<char>),
    /// The portal has to be called.
    Calling(Seq<char>, Seq<char>),
    /// The response is awaited.
    Waiting,
    /// The response has to be read.
    Reading,
    /// The image has to be loaded from a file.
    Loading(Seq<char>),
    /// The image is loaded; its file has to be removed.
    Removing(Seq<char>, Seq<u8>),
    /// The image is known.
    Captured(Seq<u8>),
    /// The capture has failed.
    Failed(Reason),
}

/// What has to be done next, as a mathematical value.
pub enum PortalRequestView {
    Connect,
    ReadName,
    ReadClock,
    Address(Seq<char>),
    Watch,
    Subscribe,
    Open,
    Call { parent_window: Seq<char>, handle_token: Seq<char>, interactive: bool },
    Wait,
    ReadAnswer,
    Load(Seq<char>),
    Remove(Seq<char>),
    Finished,
    Failed(Reason),
}

/// How it went, as a mathematical value.
pub enum PortalReplyView {
    Done,
    Failed(Seq<char>),
    Name(Option<Seq<char>>),
    Clock(u32, u128),
    Handle(Seq<char>),
    TimedOut,
    Closed,
    Answer(u32, Option<Seq<char>>),
    Loaded(Seq<u8>),
}

/// What has to be done next in a capture.
pub open spec fn portal_request(state: PortalView) -> PortalRequestView {
    match state {
        PortalView::Connecting => PortalRequestView::Connect,
        PortalView::Naming => PortalRequestView::ReadName,
        PortalView::Marking(_) => PortalRequestView::ReadClock,
        PortalView::Addressing(_, path) => PortalRequestView::Address(path),
        PortalView::Watching(_, _) => PortalRequestView::Watch,
        PortalView::Subscribing(_, _) => PortalRequestView::Subscribe,
        PortalView::Opening(_, _) => PortalRequestView::Open,
        PortalView::Calling(token, _) => PortalRequestView::Call {
            parent_window: Seq::empty(),
            handle_token: token,
            interactive: false,
        },
        PortalView::Waiting => PortalRequestView::Wait,
        PortalView::Reading => PortalRequestView::ReadAnswer,
        PortalView::Loading(file) => PortalRequestView::Load(file),
        PortalView::Removing(file, _) => PortalRequestView::Remove(file),
        PortalView::Captured(_) => PortalRequestView::Finished,
        PortalView::Failed(reason) => PortalRequestView::Failed(reason),
    }
}

/// Whether the portal's answer has not come yet: the exchange is under way.
pub open spec fn exchanging(state: PortalView) -> bool {
    match state {
        PortalView::Connecting => true,
        PortalView::Naming => true,
        PortalView::Marking(_) => true,
        PortalView::Addressing(_, _) => true,
        PortalView::Watching(_, _) => true,
        PortalView::Subscribing(_, _) => true,
        PortalView::Opening(_, _) => true,
        PortalView::Calling(_, _) => true,
        PortalView::Waiting => true,
        _ => false,
    }
}

/// The seconds, counted from the start of the exchange, within which the request of a stage has to
/// be answered, if there is a limit.
pub open spec fn portal_limit(state: PortalView) -> Option<u64> {
    if exchanging(state) {
        Some(PORTAL_TIMEOUT)
    } else {
        None
    }
}

/// A capture that has failed for a reason in words.
pub open spec fn failed(words: Seq<char>) -> PortalView {
    PortalView::Failed(Reason::Message(words))
}

/// What follows from the portal's answer: a code, and the URI of the image, if there is one.
pub open spec fn after_answer(code: u32, uri: Option<Seq<char>>) -> PortalView {
    if code == 0 {
        match uri {
            None => failed("the portal reported success but returned no image"@),
            Some(uri) => if "file://"@.is_prefix_of(uri) {
                PortalView::Loading(lossy_text(uri_path_bytes(uri)))
            } else {
                failed("the portal returned an unusable URI: "@ + uri)
            },
        }
    } else if code == 1 {
        failed("The screen capture request was cancelled."@)
    } else {
        failed(
            "The desktop refused the screen capture request (code "@ + digits(code as nat)
                + "). Check Settings → Privacy → Screen Sharing."@,
        )
    }
}

/// How far a capture has got once a request has been answered. A reply that answers no request
/// changes nothing.
pub open spec fn portal_after(state: PortalView, reply: PortalReplyView) -> PortalView {
    match (state, reply) {
        (PortalView::Connecting, PortalReplyView::Done) => PortalView::Naming,
        (PortalView::Connecting, PortalReplyView::Failed(e)) => failed(
            "could not reach the session bus for screen capture: "@ + e,
        ),
        (PortalView::Naming, PortalReplyView::Name(Some(name))) => PortalView::Marking(name),
        (PortalView::Naming, PortalReplyView::Name(None)) => failed(
            "the session bus did not assign us a name"@,
        ),
        (PortalView::Marking(name), PortalReplyView::Clock(pid, nanos)) => PortalView::Addressing(
            token_of(pid, nanos),
            request_path_of(name, token_of(pid, nanos)),
        ),
        (PortalView::Addressing(token, path), PortalReplyView::Done) => PortalView::Watching(
            token,
            path,
        ),
        (PortalView::Addressing(_, _), PortalReplyView::Failed(e)) => failed(
            "bad portal request path: "@ + e,
        ),
        (PortalView::Watching(token, path), PortalReplyView::Done) => PortalView::Subscribing(
            token,
            path,
        ),
        (PortalView::Watching(_, _), PortalReplyView::Failed(e)) => failed(
            "could not watch the portal request: "@ + e,
        ),
        (PortalView::Subscribing(token, path), PortalReplyView::Done) => PortalView::Opening(
            token,
            path,
        ),
        (PortalView::Subscribing(_, _), PortalReplyView::Failed(e)) => failed(
            "could not subscribe to the portal: "@ + e,
        ),
        (PortalView::Opening(token, path), PortalReplyView::Done) => PortalView::Calling(
            token,
            path,
        ),
        (PortalView::Opening(_, _), PortalReplyView::Failed(e)) => failed(
            "xdg-desktop-portal is not available: "@ + e + INSTALL_PORTAL@,
        ),
        (PortalView::Calling(_, path), PortalReplyView::Handle(actual)) => if actual == path {
            PortalView::Waiting
        } else {
            failed(
                "the screenshot portal used an unexpected request path ("@ + actual
                    + OUT_OF_DATE@,
            )
        },
        (PortalView::Calling(_, _), PortalReplyView::Failed(e)) => failed(
            "the screenshot portal refused: "@ + e,
        ),
        (PortalView::Waiting, PortalReplyView::Done) => PortalView::Reading,
        (PortalView::Waiting, PortalReplyView::Closed) => failed(
            "the screenshot portal closed without responding"@,
        ),
        (PortalView::Reading, PortalReplyView::Answer(code, uri)) => after_answer(code, uri),
        (PortalView::Reading, PortalReplyView::Failed(e)) => failed(
            "could not read the portal response: "@ + e,
        ),
        (PortalView::Loading(file), PortalReplyView::Loaded(bytes)) => PortalView::Removing(
            file,
            bytes,
        ),
        (PortalView::Loading(file), PortalReplyView::Failed(e)) => failed(
            "could not read the captured image at "@ + file + ": "@ + e,
        ),
        (PortalView::Removing(_, bytes), PortalReplyView::Done) => PortalView::Captured(bytes),
        (PortalView::Removing(_, bytes), PortalReplyView::Failed(_)) => PortalView::Captured(bytes),
        (_, PortalReplyView::TimedOut) => if exchanging(state) {
            failed("the screenshot portal did not respond in time"@)
        } else {
            state
        },
        _ => state,
    }
}

/// What to do about a missing portal.
pub const INSTALL_PORTAL: &'static str =
    ". Install xdg-desktop-portal \
     and the backend for your desktop (xdg-desktop-portal-gnome, -kde or -wlr).";

/// What an unexpected request path may mean.
pub const OUT_OF_DATE: &'static str =
    "); \
     this desktop's portal backend may be out of date.";

/// What has to be done next in a capture.
#[derive(Debug, PartialEq, Eq)]
pub enum PortalRequest {
    /// Reach the session bus.
    Connect,
    /// Read the unique name that the bus has assigned.
    ReadName,
    /// Read the process identifier and the nanoseconds since the epoch.
    ReadClock,
    /// Start a proxy for the request object at a path.
    Address(String),
    /// Build that proxy.
    Watch,
    /// Subscribe to the `Response` signal of the request object.
    Subscribe,
    /// Build a proxy for the `Screenshot` interface.
    Open,
    /// Call `Screenshot` for a parent window, with the options `handle_token` and `interactive` and
    /// no others. The shot is taken without a picker; the first call still raises a one-time
    /// permission prompt on some desktops.
    Call { parent_window: String, handle_token: String, interactive: bool },
    /// Wait for the signal.
    Wait,
    /// Read the code and the URI out of the signal.
    ReadAnswer,
    /// Load a file.
    Load(String),
    /// Remove a file. It is an artefact of the capture, not something the user asked to keep.
    Remove(String),
    /// Nothing: the image is known.
    Finished,
    /// Nothing: the capture has failed.
    Failed(NovaError),
}

impl View for PortalRequest {
    type V = PortalRequestView;

    open spec fn view(&self) -> PortalRequestView {
        match self {
            PortalRequest::Connect => PortalRequestView::Connect,
            PortalRequest::ReadName => PortalRequestView::ReadName,
            PortalRequest::ReadClock => PortalRequestView::ReadClock,
            PortalRequest::Address(path) => PortalRequestView::Address(path@),
            PortalRequest::Watch => PortalRequestView::Watch,
            PortalRequest::Subscribe => PortalRequestView::Subscribe,
            PortalRequest::Open => PortalRequestView::Open,
            PortalRequest::Call { parent_window, handle_token, interactive } => {
                PortalRequestView::Call {
                    parent_window: parent_window@,
                    handle_token: handle_token@,
                    interactive: *interactive,
                }
            },
            PortalRequest::Wait => PortalRequestView::Wait,
            PortalRequest::ReadAnswer => PortalRequestView::ReadAnswer,
            PortalRequest::Load(file) => PortalRequestView::Load(file@),
            PortalRequest::Remove(file) => PortalRequestView::Remove(file@),
            PortalRequest::Finished => PortalRequestView::Finished,
            PortalRequest::Failed(error) => PortalRequestView::Failed(error@),
        }
    }
}

/// How it went.
#[derive(Debug, PartialEq, Eq)]
pub enum PortalReply {
    /// It is done.
    Done,
    /// It could not be done, for a reason in words.
    Failed(String),
    /// The unique name, if the bus has assigned one.
    Name(Option<String>),
    /// The process identifier and the nanoseconds since the epoch.
    Clock { pid: u32, nanos: u128 },
    /// The path of the request object that the portal uses.
    Handle(String),
    /// It was not done before the time limit of the exchange.
    TimedOut,
    /// The stream of signals ended.
    Closed,
    /// The portal's answer.
    Answer { code: u32, uri: Option<String> },
    /// The content of the file.
    Loaded(Vec<u8>),
}

impl View for PortalReply {
    type V = PortalReplyView;

    open spec fn view(&self) -> PortalReplyView {
        match self {
            PortalReply::Done => PortalReplyView::Done,
            PortalReply::Failed(words) => PortalReplyView::Failed(words@),
            PortalReply::Name(Some(name)) => PortalReplyView::Name(Some(name@)),
            PortalReply::Name(None) => PortalReplyView::Name(None),
            PortalReply::Clock { pid, nanos } => PortalReplyView::Clock(*pid, *nanos),
            PortalReply::Handle(path) => PortalReplyView::Handle(path@),
            PortalReply::TimedOut => PortalReplyView::TimedOut,
            PortalReply::Closed => PortalReplyView::Closed,
            PortalReply::Answer { code, uri: Some(uri) } => PortalReplyView::Answer(
                *code,
                Some(uri@),
            ),
            PortalReply::Answer { code, uri: None } => PortalReplyView::Answer(*code, None),
            PortalReply::Loaded(bytes) => PortalReplyView::Loaded(bytes@),
        }
    }
}

/// A screen capture through the portal.
#[derive(Debug, PartialEq, Eq)]
pub enum PortalCapture {
    Connecting,
    Naming,
    Marking { name: String },
    Addressing { token: String, path: String },
    Watching { token: String, path: String },
    Subscribing { token: String, path: String },
    Opening { token: String, path: String },
    Calling { token: String, path: String },
    Waiting,
    Reading,
    Loading { file: String },
    Removing { file: String, bytes: Vec<u8> },
    Captured { bytes: Vec<u8> },
    Failed(NovaError),
}

impl View for PortalCapture {
    type V = PortalView;

    open spec fn view(&self) -> PortalView {
        match self {
            PortalCapture::Connecting => PortalView::Connecting,
            PortalCapture::Naming => PortalView::Naming,
            PortalCapture::Marking { name } => PortalView::Marking(name@),
            PortalCapture::Addressing { token, path } => PortalView::Addressing(token@, path@),
            PortalCapture::Watching { token, path } => PortalView::Watching(token@, path@),
            PortalCapture::Subscribing { token, path } => PortalView::Subscribing(token@, path@),
            PortalCapture::Opening { token, path } => PortalView::Opening(token@, path@),
            PortalCapture::Calling { token, path } => PortalView::Calling(token@, path@),
            PortalCapture::Waiting => PortalView::Waiting,
            PortalCapture::Reading => PortalView::Reading,
            PortalCapture::Loading { file } => PortalView::Loading(file@),
            PortalCapture::Removing { file, bytes } => PortalView::Removing(file@, bytes@),
            PortalCapture::Captured { bytes } => PortalView::Captured(bytes@),
            PortalCapture::Failed(error) => PortalView::Failed(error@),
        }
    }
}

/// Captures the whole screen through the portal.
pub fn screenshot() -> (capture: PortalCapture)
    ensures
        capture@ == PortalView::Connecting,
{
    PortalCapture::Connecting
}

fn fail(words: &str) -> (capture: PortalCapture)
    ensures
        capture@ == failed(words@),
{
    PortalCapture::Failed(NovaError::msg(words))
}

fn fail_with(words: &str, detail: &str) -> (capture: PortalCapture)
    ensures
        capture@ == failed(words@ + detail@),
{
    let mut message = words.to_owned();
    message.append(detail);
    PortalCapture::Failed(NovaError::Message(message))
}

fn fail_around(words: &str, detail: &str, more: &str) -> (capture: PortalCapture)
    ensures
        capture@ == failed(words@ + detail@ + more@),
{
    let mut message = words.to_owned();
    message.append(detail);
    message.append(more);
    PortalCapture::Failed(NovaError::Message(message))
}

/// Decides what follows from the portal's answer: a code, and the URI of the image, if there is
/// one.
pub fn take_answer(code: u32, uri: Option<&str>) -> (capture: PortalCapture)
    ensures
        capture@ == after_answer(
            code,
            match uri {
                Some(uri) => Some(uri@),
                None => None,
            },
        ),
{
    if code == 0 {
        match uri {
            None => fail("the portal reported success but returned no image"),
            Some(uri) => match uri_to_path(uri) {
                Ok(file) => PortalCapture::Loading { file },
                Err(error) => PortalCapture::Failed(error),
            },
        }
    } else if code == 1 {
        fail("The screen capture request was cancelled.")
    } else {
        let mut words = "The desktop refused the screen capture request (code ".to_owned();
        append_digits(&mut words, code as u128);
        words.append("). Check Settings → Privacy → Screen Sharing.");
        PortalCapture::Failed(NovaError::Message(words))
    }
}

impl PortalCapture {
    /// What has to be done next.
    pub fn request(&self) -> (request: PortalRequest)
        ensures
            request@ == portal_request(self@),
    {
        match self {
            PortalCapture::Connecting => PortalRequest::Connect,
            PortalCapture::Naming => PortalRequest::ReadName,
            PortalCapture::Marking { .. } => PortalRequest::ReadClock,
            PortalCapture::Addressing { path, .. } => PortalRequest::Address(path.clone()),
            PortalCapture::Watching { .. } => PortalRequest::Watch,
            PortalCapture::Subscribing { .. } => PortalRequest::Subscribe,
            PortalCapture::Opening { .. } => PortalRequest::Open,
            PortalCapture::Calling { token, .. } => PortalRequest::Call {
                parent_window: String::new(),
                handle_token: token.clone(),
                interactive: false,
            },
            PortalCapture::Waiting => PortalRequest::Wait,
            PortalCapture::Reading => PortalRequest::ReadAnswer,
            PortalCapture::Loading { file } => PortalRequest::Load(file.clone()),
            PortalCapture::Removing { file, .. } => PortalRequest::Remove(file.clone()),
            PortalCapture::Captured { .. } => PortalRequest::Finished,
            PortalCapture::Failed(error) => PortalRequest::Failed(error.clone()),
        }
    }

    /// The seconds, counted from the start of the exchange, within which the request has to be
    /// answered, if there is a limit.
    pub fn time_limit(&self) -> (limit: Option<u64>)
        ensures
            limit == portal_limit(self@),
    {
        match self {
            PortalCapture::Reading => None,
            PortalCapture::Loading { .. } => None,
            PortalCapture::Removing { .. } => None,
            PortalCapture::Captured { .. } => None,
            PortalCapture::Failed(_) => None,
            _ => Some(PORTAL_TIMEOUT),
        }
    }

    /// Takes the answer to a request.
    pub fn reply(self, reply: PortalReply) -> (capture: PortalCapture)
        ensures
            capture@ == portal_after(self@, reply@),
    {
        match (self, reply) {
            (PortalCapture::Connecting, PortalReply::Done) => PortalCapture::Naming,
            (PortalCapture::Connecting, PortalReply::Failed(e)) => fail_with(
                "could not reach the session bus for screen capture: ",
                e.as_str(),
            ),
            (PortalCapture::Naming, PortalReply::Name(Some(name))) => PortalCapture::Marking {
                name,
            },
            (PortalCapture::Naming, PortalReply::Name(None)) => fail(
                "the session bus did not assign us a name",
            ),
            (PortalCapture::Marking { name }, PortalReply::Clock { pid, nanos }) => {
                let token = handle_token(pid, nanos);
                let path = request_path(name.as_str(), token.as_str());
                PortalCapture::Addressing { token, path }
            },
            (
                PortalCapture::Addressing { token, path },
                PortalReply::Done,
            ) => PortalCapture::Watching { token, path },
            (PortalCapture::Addressing { .. }, PortalReply::Failed(e)) => fail_with(
                "bad portal request path: ",
                e.as_str(),
            ),
            (
                PortalCapture::Watching { token, path },
                PortalReply::Done,
            ) => PortalCapture::Subscribing { token, path },
            (PortalCapture::Watching { .. }, PortalReply::Failed(e)) => fail_with(
                "could not watch the portal request: ",
                e.as_str(),
            ),
            (
                PortalCapture::Subscribing { token, path },
                PortalReply::Done,
            ) => PortalCapture::Opening { token, path },
            (PortalCapture::Subscribing { .. }, PortalReply::Failed(e)) => fail_with(
                "could not subscribe to the portal: ",
                e.as_str(),
            ),
            (PortalCapture::Opening { token, path }, PortalReply::Done) => PortalCapture::Calling {
                token,
                path,
            },
            (PortalCapture::Opening { .. }, PortalReply::Failed(e)) => fail_around(
                "xdg-desktop-portal is not available: ",
                e.as_str(),
                INSTALL_PORTAL,
            ),
            // Portals are supposed to use the token-derived path, but any path is allowed; if it
            // differs, the subscription is on the wrong object.
            (PortalCapture::Calling { token: _, path }, PortalReply::Handle(actual)) => {
                if same_text(actual.as_str(), path.as_str()) {
                    PortalCapture::Waiting
                } else {
                    fail_around(
                        "the screenshot portal used an unexpected request path (",
                        actual.as_str(),
                        OUT_OF_DATE,
                    )
                }
            },
            (PortalCapture::Calling { .. }, PortalReply::Failed(e)) => fail_with(
                "the screenshot portal refused: ",
                e.as_str(),
            ),
            (PortalCapture::Waiting, PortalReply::Done) => PortalCapture::Reading,
            (PortalCapture::Waiting, PortalReply::Closed) => fail(
                "the screenshot portal closed without responding",
            ),
            (PortalCapture::Reading, PortalReply::Answer { code, uri }) => match uri {
                Some(uri) => take_answer(code, Some(uri.as_str())),
                None => take_answer(code, None),
            },
            (PortalCapture::Reading, PortalReply::Failed(e)) => fail_with(
                "could not read the portal response: ",
                e.as_str(),
            ),
            (
                PortalCapture::Loading { file },
                PortalReply::Loaded(bytes),
            ) => PortalCapture::Removing { file, bytes },
            (PortalCapture::Loading { file }, PortalReply::Failed(e)) => {
                let mut words = "could not read the captured image at ".to_owned();
                words.append(file.as_str());
                words.append(": ");
                words.append(e.as_str());
                PortalCapture::Failed(NovaError::Message(words))
            },
            (
                PortalCapture::Removing { file: _, bytes },
                PortalReply::Done,
            ) => PortalCapture::Captured { bytes },
            (
                PortalCapture::Removing { file: _, bytes },
                PortalReply::Failed(_),
            ) => PortalCapture::Captured { bytes },
            (capture, PortalReply::TimedOut) => match capture.time_limit() {
                Some(_) => fail("the screenshot portal did not respond in time"),
                None => capture,
            },
            (capture, _) => capture,
        }
    }

    /// The bytes of the image, if it is known.
    pub fn image(self) -> (image: Option<Vec<u8>>)
        ensures
            match image {
                Some(bytes) => self@ == PortalView::Captured(bytes@),
                None => !(self@ is Captured),
            },
    {
        match self {
            PortalCapture::Captured { bytes } => Some(bytes),
            _ => None,
        }
    }
}

/* ── What holds of every exchange ───────────────────────────────── */

/// How far a capture has got after some replies.
pub open spec fn portal_run(replies: Seq<PortalReplyView>) -> PortalView
    decreases replies.len(),
{
    if replies.len() == 0 {
        PortalView::Connecting
    } else {
        portal_after(portal_run(replies.drop_last()), replies.last())
    }
}

/// The stages of a capture, in order.
pub open spec fn portal_rank(state: PortalView) -> nat {
    match state {
        PortalView::Connecting => 0,
        PortalView::Naming => 1,
        PortalView::Marking(_) => 2,
        PortalView::Addressing(_, _) => 3,
        PortalView::Watching(_, _) => 4,
        PortalView::Subscribing(_, _) => 5,
        PortalView::Opening(_, _) => 6,
        PortalView::Calling(_, _) => 7,
        PortalView::Waiting => 8,
        PortalView::Reading => 9,
        PortalView::Loading(_) => 10,
        PortalView::Removing(_, _) => 11,
        PortalView::Captured(_) => 12,
        PortalView::Failed(_) => 12,
    }
}

/// A capture never goes back: a reply leaves it where it is, or takes it to the next stage, or
/// makes it fail.
pub proof fn lemma_portal_advances(state: PortalView, reply: PortalReplyView)
    ensures
        ({
            let next = portal_after(state, reply);
            ||| next == state
            ||| portal_rank(next) == portal_rank(state) + 1
            ||| next is Failed
        }),
{
}

/// Whether a reply answers the request of a stage.
pub open spec fn portal_answers(state: PortalView, reply: PortalReplyView) -> bool {
    ||| portal_limit(state) is Some && reply is TimedOut
    ||| match portal_request(state) {
        PortalRequestView::ReadName => reply is Name,
        PortalRequestView::ReadClock => reply is Clock,
        PortalRequestView::Call { .. } => reply is Handle || reply is Failed,
        PortalRequestView::Wait => reply is Done || reply is Closed,
        PortalRequestView::ReadAnswer => reply is Answer || reply is Failed,
        PortalRequestView::Load(_) => reply is Loaded || reply is Failed,
        PortalRequestView::Finished => false,
        PortalRequestView::Failed(_) => false,
        _ => reply is Done || reply is Failed,
    }
}

/// A capture never gets stuck: every answer to its request takes it on, and it is over after
/// twelve.
pub proof fn lemma_portal_answers_advance(state: PortalView, reply: PortalReplyView)
    requires
        portal_answers(state, reply),
    ensures
        portal_rank(state) < portal_rank(portal_after(state, reply)) <= 12,
{
}

/// The time limit holds for the whole exchange: in every stage up to the portal's answer the
/// request has to be answered before it, and if it is not, the capture fails. Later stages have no
/// limit.
pub proof fn lemma_limit_covers_the_exchange(state: PortalView)
    ensures
        portal_limit(state) is Some <==> portal_rank(state) <= portal_rank(PortalView::Waiting),
        portal_limit(state) matches Some(seconds) ==> {
            &&& seconds == PORTAL_TIMEOUT
            &&& portal_after(state, PortalReplyView::TimedOut) == failed(
                "the screenshot portal did not respond in time"@,
            )
        },
        portal_limit(state) is None ==> portal_after(state, PortalReplyView::TimedOut) == state,
{
}

/// Whether some reply did what a stage asked for.
pub open spec fn passed(
    replies: Seq<PortalReplyView>,
    stage: spec_fn(PortalView, PortalReplyView) -> bool,
) -> bool {
    exists|k: int|
        0 <= k < replies.len() && #[trigger] stage(portal_run(replies.take(k)), replies[k])
}

proof fn lemma_passed_stays(
    replies: Seq<PortalReplyView>,
    stage: spec_fn(PortalView, PortalReplyView) -> bool,
)
    requires
        replies.len() > 0,
        passed(replies.drop_last(), stage) || stage(
            portal_run(replies.drop_last()),
            replies.last(),
        ),
    ensures
        passed(replies, stage),
{
    let before = replies.drop_last();
    if passed(before, stage) {
        let k = choose|k: int|
            0 <= k < before.len() && #[trigger] stage(portal_run(before.take(k)), before[k]);
        assert(before.take(k) =~= replies.take(k));
        assert(before[k] == replies[k]);
        assert(stage(portal_run(replies.take(k)), replies[k]));
    } else {
        let k = replies.len() - 1;
        assert(before =~= replies.take(k));
        assert(stage(portal_run(replies.take(k)), replies[k]));
    }
}

/// The subscription went live.
pub open spec fn subscribed(state: PortalView, reply: PortalReplyView) -> bool {
    state is Subscribing && reply is Done
}

/// The portal used the path that was subscribed to.
pub open spec fn handle_matched(state: PortalView, reply: PortalReplyView) -> bool {
    state is Calling && reply == PortalReplyView::Handle(state->Calling_1)
}

/// The portal granted the capture and named a file.
pub open spec fn granted(state: PortalView, reply: PortalReplyView) -> bool {
    &&& state is Reading
    &&& reply is Answer
    &&& reply->Answer_0 == 0
    &&& reply->Answer_1 is Some
    &&& "file://"@.is_prefix_of(reply->Answer_1->0)
}

/// The subscription is live before the portal is called, whatever the replies.
pub proof fn lemma_subscribed_before_call(replies: Seq<PortalReplyView>)
    requires
        6 <= portal_rank(portal_run(replies)) < 12 || portal_run(replies) is Captured,
    ensures
        passed(replies, |s: PortalView, r: PortalReplyView| subscribed(s, r)),
    decreases replies.len(),
{
    let stage = |s: PortalView, r: PortalReplyView| subscribed(s, r);
    let before = portal_run(replies.drop_last());
    lemma_portal_advances(before, replies.last());
    if before is Subscribing {
        assert(stage(before, replies.last()));
    } else {
        lemma_subscribed_before_call(replies.drop_last());
    }
    lemma_passed_stays(replies, stage);
}

/// Whether the bus assigned a name.
pub open spec fn named(replies: Seq<PortalReplyView>, name: Seq<char>) -> bool {
    passed(
        replies,
        |s: PortalView, r: PortalReplyView|
            s is Naming && r == PortalReplyView::Name(Some(name)),
    )
}

/// Whether a path is the one that a token makes with the name that the bus assigned.
pub open spec fn path_made_of(
    replies: Seq<PortalReplyView>,
    token: Seq<char>,
    path: Seq<char>,
) -> bool {
    exists|name: Seq<char>| #[trigger]
        named(replies, name) && path == request_path_of(name, token)
}

/// Whether a stage has the name that the bus assigned, or the path that its token makes with it.
pub open spec fn path_fits(replies: Seq<PortalReplyView>, state: PortalView) -> bool {
    match state {
        PortalView::Marking(name) => named(replies, name),
        PortalView::Addressing(token, path) => path_made_of(replies, token, path),
        PortalView::Watching(token, path) => path_made_of(replies, token, path),
        PortalView::Subscribing(token, path) => path_made_of(replies, token, path),
        PortalView::Opening(token, path) => path_made_of(replies, token, path),
        PortalView::Calling(token, path) => path_made_of(replies, token, path),
        _ => true,
    }
}

proof fn lemma_named_stays(replies: Seq<PortalReplyView>, name: Seq<char>)
    requires
        replies.len() > 0,
        named(replies.drop_last(), name) || portal_run(replies.drop_last()) is Naming
            && replies.last() == PortalReplyView::Name(Some(name)),
    ensures
        named(replies, name),
{
    lemma_passed_stays(
        replies,
        |s: PortalView, r: PortalReplyView|
            s is Naming && r == PortalReplyView::Name(Some(name)),
    );
}

proof fn lemma_path_stays(replies: Seq<PortalReplyView>, token: Seq<char>, path: Seq<char>)
    requires
        replies.len() > 0,
        path_made_of(replies.drop_last(), token, path),
    ensures
        path_made_of(replies, token, path),
{
    let name = choose|name: Seq<char>| #[trigger]
        named(replies.drop_last(), name) && path == request_path_of(name, token);
    lemma_named_stays(replies, name);
}

/// Whatever the replies, the path that is watched and that the portal has to use is the one that
/// the token of the call makes with the name that the bus assigned. The call is for no parent
/// window and without a picker.
pub proof fn lemma_call_fits_subscription(replies: Seq<PortalReplyView>)
    ensures
        path_fits(replies, portal_run(replies)),
        portal_run(replies) matches PortalView::Calling(token, path) ==> {
            &&& path_made_of(replies, token, path)
            &&& portal_request(portal_run(replies)) == (PortalRequestView::Call {
                parent_window: ""@,
                handle_token: token,
                interactive: false,
            })
        },
    decreases replies.len(),
{
    reveal_strlit("");
    assert(""@ =~= Seq::<char>::empty());
    if replies.len() > 0 {
        lemma_call_fits_subscription(replies.drop_last());
        match portal_run(replies.drop_last()) {
            PortalView::Naming => {
                if let PortalReplyView::Name(Some(name)) = replies.last() {
                    lemma_named_stays(replies, name);
                }
            },
            PortalView::Marking(name) => {
                lemma_named_stays(replies, name);
                if let PortalReplyView::Clock(pid, nanos) = replies.last() {
                    let token = token_of(pid, nanos);
                    assert(path_made_of(replies, token, request_path_of(name, token)));
                }
            },
            PortalView::Addressing(token, path) => lemma_path_stays(replies, token, path),
            PortalView::Watching(token, path) => lemma_path_stays(replies, token, path),
            PortalView::Subscribing(token, path) => lemma_path_stays(replies, token, path),
            PortalView::Opening(token, path) => lemma_path_stays(replies, token, path),
            PortalView::Calling(token, path) => lemma_path_stays(replies, token, path),
            _ => {},
        }
    }
}

/// A response is waited for only if the portal used the path that was subscribed to.
pub proof fn lemma_handle_matched_before_wait(replies: Seq<PortalReplyView>)
    requires
        8 <= portal_rank(portal_run(replies)) < 12 || portal_run(replies) is Captured,
    ensures
        passed(replies, |s: PortalView, r: PortalReplyView| handle_matched(s, r)),
    decreases replies.len(),
{
    let stage = |s: PortalView, r: PortalReplyView| handle_matched(s, r);
    let before = portal_run(replies.drop_last());
    lemma_portal_advances(before, replies.last());
    if before is Calling {
        assert(stage(before, replies.last()));
    } else {
        lemma_handle_matched_before_wait(replies.drop_last());
    }
    lemma_passed_stays(replies, stage);
}

/// A file is loaded only if the portal granted the capture and named a `file://` URI.
pub proof fn lemma_granted_before_load(replies: Seq<PortalReplyView>)
    requires
        10 <= portal_rank(portal_run(replies)) < 12 || portal_run(replies) is Captured,
    ensures
        passed(replies, |s: PortalView, r: PortalReplyView| granted(s, r)),
    decreases replies.len(),
{
    let stage = |s: PortalView, r: PortalReplyView| granted(s, r);
    let before = portal_run(replies.drop_last());
    lemma_portal_advances(before, replies.last());
    if before is Reading {
        assert(stage(before, replies.last()));
    } else {
        lemma_granted_before_load(replies.drop_last());
    }
    lemma_passed_stays(replies, stage);
}

/// The file of an image is removed before the image is handed out, and the image is what the file
/// held.
pub proof fn lemma_file_removed_before_end(state: PortalView, reply: PortalReplyView)
    requires
        portal_after(state, reply) is Captured,
        !(state is Captured),
    ensures
        state is Removing,
        portal_request(state) == PortalRequestView::Remove(state->Removing_0),
        portal_after(state, reply) == PortalView::Captured(state->Removing_1),
{
}

/// The file that is removed is the one that was loaded.
pub proof fn lemma_loaded_file_is_removed(file: Seq<char>, bytes: Seq<u8>)
    ensures
        portal_request(PortalView::Loading(file)) == PortalRequestView::Load(file),
        portal_request(
            portal_after(PortalView::Loading(file), PortalReplyView::Loaded(bytes)),
        ) == PortalRequestView::Remove(file),
{
}

/* ── What goes over the bus, and what comes of it ───────────────── */

/// The element that a bus name makes is the name behind its leading colons, character by character,
/// with an underscore for each dot.
pub proof fn lemma_sender_element_follows_name(name: Seq<char>, colons: int)
    requires
        0 <= colons <= name.len(),
        forall|j: int| 0 <= j < colons ==> #[trigger] name[j] == ':',
        colons < name.len() ==> name[colons] != ':',
    ensures
        sender_element(name).len() == name.len() - colons,
        forall|i: int|
            0 <= i < name.len() - colons ==> {
                &&& name[colons + i] == '.' ==> #[trigger] sender_element(name)[i] == '_'
                &&& name[colons + i] != '.' ==> sender_element(name)[i] == name[colons + i]
            },
    decreases colons,
{
    if colons > 0 {
        let rest = name.skip(1);
        assert(name[0] == ':');
        assert forall|j: int| 0 <= j < colons - 1 implies #[trigger] rest[j] == ':' by {
            assert(rest[j] == name[j + 1]);
        }
        lemma_sender_element_follows_name(rest, colons - 1);
        assert(without_colons(name) == without_colons(rest));
    } else {
        assert(without_colons(name) == name);
    }
}

/// The path of a request is the portal's path, the element of the sender, a slash and the token.
pub proof fn lemma_request_path_is_its_parts(name: Seq<char>, token: Seq<char>)
    ensures
        fails_with(
            request_path_of(name, token),
            "/org/freedesktop/portal/desktop/request/"@,
            sender_element(name),
            seq!['/'] + token,
        ),
{
    let front = "/org/freedesktop/portal/desktop/request/"@;
    reveal_strlit("/");
    assert("/"@ =~= seq!['/']);
    lemma_fails_with(front, sender_element(name), seq!['/'] + token);
    assert(request_path_of(name, token) =~= front + sender_element(name) + (seq!['/'] + token));
}

/// A token is made of its name, the process and the time, which read back, and of nothing that an
/// element of an object path must not hold.
pub proof fn lemma_token_reads_back(pid: u32, nanos: u128)
    ensures
        ({
            let token = token_of(pid, nanos);
            let parts = fields(token, '_');
            &&& parts.len() == 3
            &&& parts[0] == "nova"@
            &&& all_digits(parts[1])
            &&& number(parts[1]) == pid
            &&& all_digits(parts[2])
            &&& number(parts[2]) == nanos
            &&& forall|i: int|
                0 <= i < token.len() ==> is_digit(#[trigger] token[i]) || 'a' <= token[i] <= 'z'
                    || token[i] == '_'
        }),
{
    let (p, n) = (digits(pid as nat), digits(nanos as nat));
    let token = token_of(pid, nanos);
    reveal_strlit("nova_");
    reveal_strlit("nova");
    reveal_strlit("_");
    assert("nova_"@ =~= "nova"@.push('_'));
    assert("_"@ =~= seq!['_']);
    lemma_digits_read_back(pid as nat);
    lemma_digits_read_back(nanos as nat);
    assert forall|i: int| 0 <= i < p.len() implies #[trigger] p[i] != '_' by {
        assert(is_digit(p[i]));
    }
    assert forall|i: int| 0 <= i < n.len() implies #[trigger] n[i] != '_' by {
        assert(is_digit(n[i]));
    }
    let first = "nova"@;
    let second = first.push('_') + p;
    assert(token =~= second.push('_') + n);
    lemma_fields_single(first, '_');
    lemma_fields_next(first, p, '_');
    lemma_fields_next(second, n, '_');
    assert(fields(token, '_') =~= seq![first, p, n]);
    assert forall|i: int| 0 <= i < token.len() implies is_digit(#[trigger] token[i]) || 'a'
        <= token[i] <= 'z' || token[i] == '_' by {
        if i < 4 {
            assert(token[i] == first[i]);
        } else if 4 < i < second.len() {
            assert(token[i] == p[i - 5]);
            assert(is_digit(p[i - 5]));
        } else if i > second.len() {
            assert(token[i] == n[i - second.len() - 1]);
            assert(is_digit(n[i - second.len() - 1]));
        }
    }
}

/// The whole course of a capture that goes well: what is asked for at each stage, and that the bytes
/// of the file that the portal named are the image, whether the file could be removed or not.
pub proof fn lemma_portal_course(
    name: Seq<char>,
    pid: u32,
    nanos: u128,
    rest: Seq<char>,
    bytes: Seq<u8>,
    words: Seq<char>,
)
    ensures
        ({
            let token = token_of(pid, nanos);
            let path = request_path_of(name, token);
            let file = lossy_text(percent_decoded(encode_utf8(rest)));
            let done = PortalReplyView::Done;
            let s1 = portal_after(PortalView::Connecting, done);
            let s2 = portal_after(s1, PortalReplyView::Name(Some(name)));
            let s3 = portal_after(s2, PortalReplyView::Clock(pid, nanos));
            let s4 = portal_after(s3, done);
            let s5 = portal_after(s4, done);
            let s6 = portal_after(s5, done);
            let s7 = portal_after(s6, done);
            let s8 = portal_after(s7, PortalReplyView::Handle(path));
            let s9 = portal_after(s8, done);
            let s10 = portal_after(s9, PortalReplyView::Answer(0, Some("file://"@ + rest)));
            let s11 = portal_after(s10, PortalReplyView::Loaded(bytes));
            &&& portal_request(PortalView::Connecting) is Connect
            &&& portal_request(s1) is ReadName
            &&& portal_request(s2) is ReadClock
            &&& portal_request(s3) == PortalRequestView::Address(path)
            &&& portal_request(s4) is Watch
            &&& portal_request(s5) is Subscribe
            &&& portal_request(s6) is Open
            &&& portal_request(s7) is Call
            &&& portal_request(s7)->parent_window.len() == 0
            &&& portal_request(s7)->handle_token == token
            &&& !portal_request(s7)->interactive
            &&& portal_request(s8) is Wait
            &&& portal_request(s9) is ReadAnswer
            &&& portal_request(s10) == PortalRequestView::Load(file)
            &&& portal_request(s11) == PortalRequestView::Remove(file)
            &&& portal_after(s11, done) == PortalView::Captured(bytes)
            &&& portal_after(s11, PortalReplyView::Failed(words)) == PortalView::Captured(bytes)
            &&& portal_request(PortalView::Captured(bytes)) is Finished
        }),
{
    lemma_path_is_the_rest(rest);
}

/// Whether a capture has failed, with some detail between fixed words.
pub open spec fn failed_with(
    state: PortalView,
    front: Seq<char>,
    detail: Seq<char>,
    back: Seq<char>,
) -> bool {
    &&& state is Failed
    &&& state->Failed_0 is Message
    &&& fails_with(state->Failed_0->Message_0, front, detail, back)
    &&& portal_request(state) == PortalRequestView::Failed(state->Failed_0)
}

/// Whatever step of the exchange fails, the failure says which step it was and repeats why.
pub proof fn lemma_failures_repeat_why(
    name: Seq<char>,
    token: Seq<char>,
    path: Seq<char>,
    file: Seq<char>,
    why: Seq<char>,
)
    ensures
        ({
            let no = PortalReplyView::Failed(why);
            let end = Seq::<char>::empty();
            &&& failed_with(
                portal_after(PortalView::Connecting, no),
                "could not reach the session bus for screen capture: "@,
                why,
                end,
            )
            &&& portal_after(PortalView::Naming, PortalReplyView::Name(None)) == failed(
                "the session bus did not assign us a name"@,
            )
            &&& failed_with(
                portal_after(PortalView::Addressing(token, path), no),
                "bad portal request path: "@,
                why,
                end,
            )
            &&& failed_with(
                portal_after(PortalView::Watching(token, path), no),
                "could not watch the portal request: "@,
                why,
                end,
            )
            &&& failed_with(
                portal_after(PortalView::Subscribing(token, path), no),
                "could not subscribe to the portal: "@,
                why,
                end,
            )
            &&& failed_with(
                portal_after(PortalView::Opening(token, path), no),
                "xdg-desktop-portal is not available: "@,
                why,
                INSTALL_PORTAL@,
            )
            &&& failed_with(
                portal_after(PortalView::Calling(token, path), no),
                "the screenshot portal refused: "@,
                why,
                end,
            )
            &&& why != path ==> failed_with(
                portal_after(PortalView::Calling(token, path), PortalReplyView::Handle(why)),
                "the screenshot portal used an unexpected request path ("@,
                why,
                OUT_OF_DATE@,
            )
            &&& portal_after(PortalView::Waiting, PortalReplyView::Closed) == failed(
                "the screenshot portal closed without responding"@,
            )
            &&& failed_with(
                portal_after(PortalView::Reading, no),
                "could not read the portal response: "@,
                why,
                end,
            )
            &&& failed_with(
                portal_after(PortalView::Loading(file), no),
                "could not read the captured image at "@ + file + ": "@,
                why,
                end,
            )
            &&& fails_with(
                portal_after(PortalView::Loading(file), no)->Failed_0->Message_0,
                "could not read the captured image at "@,
                file,
                ": "@ + why,
            )
        }),
{
    let end = Seq::<char>::empty();
    lemma_fails_with("could not reach the session bus for screen capture: "@, why, end);
    lemma_fails_with("bad portal request path: "@, why, end);
    lemma_fails_with("could not watch the portal request: "@, why, end);
    lemma_fails_with("could not subscribe to the portal: "@, why, end);
    lemma_fails_with("xdg-desktop-portal is not available: "@, why, INSTALL_PORTAL@);
    lemma_fails_with("the screenshot portal refused: "@, why, end);
    lemma_fails_with("the screenshot portal used an unexpected request path ("@, why, OUT_OF_DATE@);
    lemma_fails_with("could not read the portal response: "@, why, end);
    lemma_fails_with("could not read the captured image at "@ + file + ": "@, why, end);
    lemma_fails_with("could not read the captured image at "@, file, ": "@ + why);
    assert("could not read the captured image at "@ + file + ": "@ + why
        =~= "could not read the captured image at "@ + file + (": "@ + why));
}

/// What the portal's answer leads to. Only the code zero with a `file://` URI has a file loaded, and
/// it is the file that the URI names; every other answer fails, and the failure repeats the URI or
/// the code.
pub proof fn lemma_answer_decides(code: u32, rest: Seq<char>, uri: Seq<char>)
    requires
        code > 1,
        !"file://"@.is_prefix_of(uri),
    ensures
        after_answer(0, Some("file://"@ + rest)) == PortalView::Loading(
            lossy_text(percent_decoded(encode_utf8(rest))),
        ),
        after_answer(0, None) == failed("the portal reported success but returned no image"@),
        failed_with(
            after_answer(0, Some(uri)),
            "the portal returned an unusable URI: "@,
            uri,
            Seq::empty(),
        ),
        after_answer(1, Some(uri)) == failed("The screen capture request was cancelled."@),
        after_answer(1, Some("file://"@ + rest)) == failed(
            "The screen capture request was cancelled."@,
        ),
        after_answer(1, None) == failed("The screen capture request was cancelled."@),
        after_answer(code, Some("file://"@ + rest)) == after_answer(code, None),
        after_answer(code, Some(uri)) == after_answer(code, None),
        failed_with(
            after_answer(code, None),
            "The desktop refused the screen capture request (code "@,
            digits(code as nat),
            "). Check Settings → Privacy → Screen Sharing."@,
        ),
        number(digits(code as nat)) == code,
{
    lemma_path_is_the_rest(rest);
    lemma_digits_read_back(code as nat);
    lemma_fails_with("the portal returned an unusable URI: "@, uri, Seq::empty());
    lemma_fails_with(
        "The desktop refused the screen capture request (code "@,
        digits(code as nat),
        "). Check Settings → Privacy → Screen Sharing."@,
    );
}

/// Only the answer to the request that is open moves a capture.
pub proof fn lemma_other_portal_replies_are_ignored(state: PortalView, reply: PortalReplyView)
    requires
        !portal_answers(state, reply),
    ensures
        portal_after(state, reply) == state,
{
}

/// What a request, a reply and a capture hold is what they are made of.
pub proof fn lemma_portal_views_are_faithful(
    request: PortalRequest,
    reply: PortalReply,
    capture: PortalCapture,
)
    ensures
        match request {
            PortalRequest::Address(path) => request@ == PortalRequestView::Address(path@),
            PortalRequest::Call { parent_window, handle_token, interactive } => request@ is Call
                && request@->parent_window == parent_window@ && request@->handle_token
                == handle_token@ && request@->interactive == interactive,
            PortalRequest::Load(file) => request@ == PortalRequestView::Load(file@),
            PortalRequest::Remove(file) => request@ == PortalRequestView::Remove(file@),
            PortalRequest::Failed(error) => request@ == PortalRequestView::Failed(error@),
            PortalRequest::Connect => request@ is Connect,
            PortalRequest::ReadName => request@ is ReadName,
            PortalRequest::ReadClock => request@ is ReadClock,
            PortalRequest::Watch => request@ is Watch,
            PortalRequest::Subscribe => request@ is Subscribe,
            PortalRequest::Open => request@ is Open,
            PortalRequest::Wait => request@ is Wait,
            PortalRequest::ReadAnswer => request@ is ReadAnswer,
            PortalRequest::Finished => request@ is Finished,
        },
        match reply {
            PortalReply::Done => reply@ is Done,
            PortalReply::Failed(words) => reply@ == PortalReplyView::Failed(words@),
            PortalReply::Name(Some(name)) => reply@ == PortalReplyView::Name(Some(name@)),
            PortalReply::Name(None) => reply@ == PortalReplyView::Name(None),
            PortalReply::Clock { pid, nanos } => reply@ == PortalReplyView::Clock(pid, nanos),
            PortalReply::Handle(path) => reply@ == PortalReplyView::Handle(path@),
            PortalReply::TimedOut => reply@ is TimedOut,
            PortalReply::Closed => reply@ is Closed,
            PortalReply::Answer { code, uri: Some(uri) } => reply@ == PortalReplyView::Answer(
                code,
                Some(uri@),
            ),
            PortalReply::Answer { code, uri: None } => reply@ == PortalReplyView::Answer(
                code,
                None,
            ),
            PortalReply::Loaded(bytes) => reply@ == PortalReplyView::Loaded(bytes@),
        },
        capture matches PortalCapture::Captured { bytes } ==> capture@ == PortalView::Captured(
            bytes@,
        ),
        capture matches PortalCapture::Loading { file } ==> capture@ == PortalView::Loading(file@),
        capture matches PortalCapture::Removing { file, bytes } ==> capture@
            == PortalView::Removing(file@, bytes@),
        capture matches PortalCapture::Failed(error) ==> capture@ == PortalView::Failed(error@),
{
}

} // verus!
