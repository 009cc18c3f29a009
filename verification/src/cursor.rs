//! The position of the pointer. Wayland has no protocol for it: only the compositor knows, and
//! only Hyprland tells.
use crate::platform::{command_line, Command, Compositor, NovaError, OutputView, Point, Reason};
use crate::script::{answers, Reply, ReplyView, Request, RequestView};
use crate::text::{
    blank, chars_of, decimal, digits, i32_of, is_digit, is_space, lemma_decimal_reads_back,
    lemma_digits_read_back, lemma_trimming, parse_i32, trim, trimmed, trimmed_front,
};
use vstd::prelude::*;
use vstd::string::*;

verus! {

/// Why the position cannot be told.
pub const NO_POSITION: &'static str =
    "Reading the cursor position is not possible on this Wayland compositor. \
     Hyprland is the only one that exposes it (via `hyprctl cursorpos`).";

/// The length of the text before the first comma; that of the whole text, if it has none.
pub open spec fn before_comma(text: Seq<char>) -> nat
    decreases text.len(),
{
    if text.len() == 0 || text[0] == ',' {
        0
    } else {
        1 + before_comma(text.skip(1))
    }
}

/// The coordinate that a text writes; zero if it writes none.
pub open spec fn coordinate(text: Seq<char>) -> i32 {
    match i32_of(trimmed(text)) {
        Some(value) => value,
        None => 0,
    }
}

/// The position that a text gives: two coordinates with a comma between them.
pub open spec fn position_in(text: Seq<char>) -> Option<Point> {
    let comma = before_comma(text) as int;
    if comma < text.len() {
        Some(Point { x: coordinate(text.take(comma)), y: coordinate(text.skip(comma + 1)) })
    } else {
        None
    }
}

fn read_coordinate(text: &str) -> (value: i32)
    ensures
        value == coordinate(text@),
{
    match parse_i32(trim(text)) {
        Some(value) => value,
        None => 0,
    }
}

/// Reads the position out of a text.
pub fn parse_position(text: &str) -> (position: Option<Point>)
    ensures
        position == position_in(text@),
{
    let chars = chars_of(text);
    let mut comma: usize = 0;
    assert(text@.skip(0) =~= text@);
    while comma < chars.len() && chars[comma] != ','
        invariant
            chars@ == text@,
            comma <= chars@.len(),
            before_comma(text@) == comma + before_comma(text@.skip(comma as int)),
        decreases chars.len() - comma,
    {
        assert(text@.skip(comma as int).skip(1) =~= text@.skip(comma + 1));
        comma = comma + 1;
    }
    if comma == chars.len() {
        return None;
    }
    let front = text.substring_char(0, comma);
    let back = text.substring_char(comma + 1, chars.len());
    assert(front@ =~= text@.take(comma as int));
    assert(back@ =~= text@.skip(comma + 1));
    Some(Point { x: read_coordinate(front), y: read_coordinate(back) })
}

/// How far the question for the position has got.
pub enum CursorView {
    /// It is not known whether hyprctl is installed.
    Probing,
    /// hyprctl is asked.
    Asking,
    /// The position is known.
    Known(Point),
    /// The position cannot be told.
    Failed(Reason),
}

/// How the question starts: only Hyprland is asked.
pub open spec fn cursor_start(compositor: Compositor) -> CursorView {
    if compositor is Hyprland {
        CursorView::Probing
    } else {
        CursorView::Failed(Reason::Message(NO_POSITION@))
    }
}

/// What has to be done next.
pub open spec fn cursor_request(state: CursorView) -> RequestView {
    match state {
        CursorView::Probing => RequestView::Probe("hyprctl"@),
        CursorView::Asking => RequestView::Run(command_line("hyprctl"@, seq!["cursorpos"@])),
        CursorView::Known(_) => RequestView::Finished,
        CursorView::Failed(reason) => RequestView::Failed(reason),
    }
}

/// How far the question has got once a request has been answered. A reply that answers no request
/// changes nothing.
pub open spec fn cursor_after(state: CursorView, reply: ReplyView) -> CursorView {
    match (state, reply) {
        (CursorView::Probing, ReplyView::Installed(yes)) => if yes {
            CursorView::Asking
        } else {
            CursorView::Failed(Reason::Message(NO_POSITION@))
        },
        (CursorView::Asking, ReplyView::Ran(Ok(output))) => match position_in(
            trimmed(output.stdout),
        ) {
            Some(point) => CursorView::Known(point),
            None => CursorView::Failed(Reason::Message(NO_POSITION@)),
        },
        (CursorView::Asking, ReplyView::Ran(Err(reason))) => CursorView::Failed(reason),
        _ => state,
    }
}

/// The question for the position of the pointer.
#[derive(Debug, PartialEq, Eq)]
pub enum CursorQuery {
    /// It is not known whether hyprctl is installed.
    Probing,
    /// hyprctl is asked.
    Asking,
    /// The position is known.
    Known(Point),
    /// The position cannot be told.
    Failed(NovaError),
}

impl View for CursorQuery {
    type V = CursorView;

    open spec fn view(&self) -> CursorView {
        match self {
            CursorQuery::Probing => CursorView::Probing,
            CursorQuery::Asking => CursorView::Asking,
            CursorQuery::Known(point) => CursorView::Known(*point),
            CursorQuery::Failed(error) => CursorView::Failed(error@),
        }
    }
}

/// Asks for the position of the pointer.
pub fn mouse_position(compositor: Compositor) -> (query: CursorQuery)
    ensures
        query@ == cursor_start(compositor),
{
    match compositor {
        Compositor::Hyprland => CursorQuery::Probing,
        _ => CursorQuery::Failed(NovaError::msg(NO_POSITION)),
    }
}

impl CursorQuery {
    /// What has to be done next.
    pub fn request(&self) -> (request: Request)
        ensures
            request@ == cursor_request(self@),
    {
        match self {
            CursorQuery::Probing => Request::Probe("hyprctl".to_owned()),
            CursorQuery::Asking => {
                let command = Command::new("hyprctl").arg("cursorpos");
                assert(command@.args =~= seq!["cursorpos"@]);
                Request::Run(command)
            },
            CursorQuery::Known(_) => Request::Finished,
            CursorQuery::Failed(error) => Request::Failed(error.clone()),
        }
    }

    /// Takes the answer to a request.
    pub fn reply(self, reply: Reply) -> (query: CursorQuery)
        ensures
            query@ == cursor_after(self@, reply@),
    {
        match (self, reply) {
            (CursorQuery::Probing, Reply::Installed(yes)) => if yes {
                CursorQuery::Asking
            } else {
                CursorQuery::Failed(NovaError::msg(NO_POSITION))
            },
            (CursorQuery::Asking, Reply::Ran(Ok(output))) => match parse_position(
                output.trimmed(),
            ) {
                Some(point) => CursorQuery::Known(point),
                None => CursorQuery::Failed(NovaError::msg(NO_POSITION)),
            },
            (CursorQuery::Asking, Reply::Ran(Err(error))) => CursorQuery::Failed(error),
            (query, _) => query,
        }
    }

    /// The position, if it is known.
    pub fn position(&self) -> (position: Option<Point>)
        ensures
            position == match self@ {
                CursorView::Known(point) => Some(point),
                _ => None,
            },
    {
        match self {
            CursorQuery::Known(point) => Some(*point),
            _ => None,
        }
    }
}

/// How far a question has got, as a number.
pub open spec fn cursor_rank(state: CursorView) -> nat {
    match state {
        CursorView::Probing => 0,
        CursorView::Asking => 1,
        _ => 2,
    }
}

/// A question never gets stuck: every answer to its request takes it on, and it is over after two.
pub proof fn lemma_cursor_answers_advance(state: CursorView, reply: ReplyView)
    requires
        answers(cursor_request(state), reply),
    ensures
        cursor_rank(state) < cursor_rank(cursor_after(state, reply)) <= 2,
{
}

/// Only Hyprland is ever asked: on any other compositor the position is refused at once, and no
/// reply changes that.
pub proof fn lemma_only_hyprland_tells(compositor: Compositor, reply: ReplyView)
    requires
        !(compositor is Hyprland),
    ensures
        cursor_start(compositor) == CursorView::Failed(Reason::Message(NO_POSITION@)),
        cursor_after(cursor_start(compositor), reply) == cursor_start(compositor),
{
}

proof fn lemma_before_comma(front: Seq<char>, back: Seq<char>)
    requires
        forall|i: int| 0 <= i < front.len() ==> front[i] != ',',
    ensures
        before_comma(front.push(',') + back) == front.len(),
    decreases front.len(),
{
    let text = front.push(',') + back;
    if front.len() == 0 {
        assert(text[0] == ',');
    } else {
        assert(text[0] == front[0]);
        assert(text.skip(1) =~= front.skip(1).push(',') + back);
        lemma_before_comma(front.skip(1), back);
    }
}

proof fn lemma_decimal_ends(n: i32)
    ensures
        decimal(n as int).len() > 0,
        !is_space(decimal(n as int)[0]),
        !is_space(decimal(n as int).last()),
        forall|i: int| 0 <= i < decimal(n as int).len() ==> #[trigger] decimal(n as int)[i] != ',',
{
    let size: nat = if n < 0 {
        (-n) as nat
    } else {
        n as nat
    };
    let text = decimal(n as int);
    lemma_digits_read_back(size);
    assert(is_digit(digits(size)[0]));
    assert(is_digit(digits(size).last()));
    assert(text.last() == digits(size).last());
    assert forall|i: int| 0 <= i < text.len() implies #[trigger] text[i] != ',' by {
        if n < 0 {
            if i > 0 {
                assert(text[i] == digits(size)[i - 1]);
                assert(is_digit(digits(size)[i - 1]));
            }
        } else {
            assert(is_digit(digits(size)[i]));
        }
    }
}

/// A position as Hyprland prints it is read back as that position.
pub proof fn lemma_position_reads_back(point: Point)
    ensures
        position_in(trimmed(decimal(point.x as int) + ", "@ + decimal(point.y as int))) == Some(
            point,
        ),
{
    let (x, y) = (decimal(point.x as int), decimal(point.y as int));
    let text = x + ", "@ + y;
    let back = seq![' '] + y;
    reveal_strlit(", ");
    lemma_decimal_ends(point.x);
    lemma_decimal_ends(point.y);
    lemma_decimal_reads_back(point.x);
    lemma_decimal_reads_back(point.y);
    assert(text =~= x.push(',') + back);
    assert(text[0] == x[0]);
    assert(text.last() == y.last());
    lemma_before_comma(x, back);
    assert(text.take(x.len() as int) =~= x);
    assert(text.skip(x.len() as int + 1) =~= back);
    assert(trimmed(text) == text);
    assert(trimmed(x) == x);
    assert(trimmed(back) == y) by {
        assert(back.skip(1) =~= y);
        assert(trimmed_front(y) == y);
    }
}

/// Two integers with a comma between them are read as a position, whatever whitespace stands around
/// each of them.
pub proof fn lemma_spaced_position_is_read(
    point: Point,
    a: Seq<char>,
    b: Seq<char>,
    c: Seq<char>,
    d: Seq<char>,
)
    requires
        blank(a),
        blank(b),
        blank(c),
        blank(d),
    ensures
        position_in(
            trimmed(
                a + (decimal(point.x as int) + b).push(',') + c + decimal(point.y as int) + d,
            ),
        ) == Some(point),
{
    let (x, y) = (decimal(point.x as int), decimal(point.y as int));
    let (front, back) = (x + b, c + y);
    let inner = front.push(',') + back;
    let none = Seq::<char>::empty();
    lemma_decimal_ends(point.x);
    lemma_decimal_ends(point.y);
    lemma_decimal_reads_back(point.x);
    lemma_decimal_reads_back(point.y);
    assert(inner[0] == x[0]);
    assert(inner.last() == y.last());
    lemma_trimming(a, inner, d);
    assert(a + (x + b).push(',') + c + y + d =~= a + inner + d);
    assert forall|i: int| 0 <= i < front.len() implies front[i] != ',' by {
        if i >= x.len() {
            assert(is_space(b[i - x.len()]));
        }
    }
    lemma_before_comma(front, back);
    assert(inner.take(front.len() as int) =~= front);
    assert(inner.skip(front.len() as int + 1) =~= back);
    lemma_trimming(none, x, b);
    assert(none + x + b =~= front);
    lemma_trimming(c, y, none);
    assert(c + y + none =~= back);
}

/// The first comma parts the coordinates; each is read by itself, so that one that cannot be read
/// counts as zero and leaves the other alone.
pub proof fn lemma_first_comma_parts(front: Seq<char>, back: Seq<char>)
    requires
        forall|i: int| 0 <= i < front.len() ==> front[i] != ',',
    ensures
        ({
            let position = position_in(front.push(',') + back);
            &&& position is Some
            &&& position->0.x == match i32_of(trimmed(front)) {
                Some(value) => value,
                None => 0,
            }
            &&& position->0.y == match i32_of(trimmed(back)) {
                Some(value) => value,
                None => 0,
            }
        }),
{
    let text = front.push(',') + back;
    lemma_before_comma(front, back);
    assert(text.take(front.len() as int) =~= front);
    assert(text.skip(front.len() as int + 1) =~= back);
}

/// A text without a comma gives no position.
pub proof fn lemma_no_comma_no_position(text: Seq<char>)
    requires
        forall|i: int| 0 <= i < text.len() ==> text[i] != ',',
    ensures
        position_in(text) is None,
{
    lemma_no_comma(text);
}

proof fn lemma_no_comma(text: Seq<char>)
    requires
        forall|i: int| 0 <= i < text.len() ==> text[i] != ',',
    ensures
        before_comma(text) == text.len(),
    decreases text.len(),
{
    if text.len() > 0 {
        assert(text[0] != ',');
        lemma_no_comma(text.skip(1));
    }
}

/// The whole course on Hyprland: hyprctl is looked for and asked; what it prints decides, and what
/// it reports does not. Without hyprctl, or a position in the answer, the position is refused; a
/// question that cannot be asked fails for the reason that it could not.
pub proof fn lemma_cursor_course(output: OutputView, reason: Reason)
    ensures
        ({
            let start = cursor_start(Compositor::Hyprland);
            let asking = cursor_after(start, ReplyView::Installed(true));
            let told = cursor_after(asking, ReplyView::Ran(Ok(output)));
            let refused = CursorView::Failed(Reason::Message(NO_POSITION@));
            &&& cursor_request(start) == RequestView::Probe("hyprctl"@)
            &&& cursor_after(start, ReplyView::Installed(false)) == refused
            &&& cursor_request(asking) is Run
            &&& cursor_request(asking)->Run_0.program == "hyprctl"@
            &&& cursor_request(asking)->Run_0.args.len() == 1
            &&& cursor_request(asking)->Run_0.args[0] == "cursorpos"@
            &&& cursor_after(asking, ReplyView::Ran(Err(reason))) == CursorView::Failed(reason)
            &&& match position_in(trimmed(output.stdout)) {
                Some(point) => told == CursorView::Known(point) && cursor_request(told)
                    is Finished,
                None => told == refused && cursor_request(told) == RequestView::Failed(
                    Reason::Message(NO_POSITION@),
                ),
            }
        }),
{
}

/// A query that is over stays so, and an answer to another request changes nothing.
pub proof fn lemma_cursor_stays(state: CursorView, reply: ReplyView)
    requires
        !answers(cursor_request(state), reply),
    ensures
        cursor_after(state, reply) == state,
{
}

} // verus!
