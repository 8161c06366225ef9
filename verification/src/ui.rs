//! What is shown on the terminal.

use crate::error::ErrorKind;
use crate::model::{Event, Presence, User};
use vstd::prelude::*;
use vstd::string::StringExecFns;

verus! {

/// The colours in use.
#[derive(Clone, Copy, Debug, PartialEq, Eq, Structural)]
pub enum Color {
    Black,
    White,
    Magenta,
    Red,
    Blue,
}

/// Something to be done with the terminal.
#[derive(Debug)]
pub enum TermOp {
    /// Write in that colour from here on.
    Fg(Color),
    /// Write on that colour from here on.
    Bg(Color),
    /// Go back to the usual colours.
    Reset,
    /// Go up one line.
    CursorUp,
    /// Go to the start of the line.
    CarriageReturn,
    /// Delete what stands from here to the end of the line.
    DeleteLine,
    /// Write that text.
    Write(String),
}

/// What is to be done with the terminal.
pub enum TermOpView {
    Fg(Color),
    Bg(Color),
    Reset,
    CursorUp,
    CarriageReturn,
    DeleteLine,
    Write(Seq<char>),
}

impl View for TermOp {
    type V = TermOpView;

    open spec fn view(&self) -> TermOpView {
        match self {
            TermOp::Fg(color) => TermOpView::Fg(*color),
            TermOp::Bg(color) => TermOpView::Bg(*color),
            TermOp::Reset => TermOpView::Reset,
            TermOp::CursorUp => TermOpView::CursorUp,
            TermOp::CarriageReturn => TermOpView::CarriageReturn,
            TermOp::DeleteLine => TermOpView::DeleteLine,
            TermOp::Write(text) => TermOpView::Write(text@),
        }
    }
}

/// What is to be done with the terminal, one after the other.
pub open spec fn ops_view(ops: Seq<TermOp>) -> Seq<TermOpView> {
    Seq::new(ops.len(), |i: int| ops[i]@)
}

/// The word for a presence.
pub open spec fn presence_word(presence: Presence) -> Seq<char> {
    match presence {
        Presence::Active => "Active"@,
        Presence::Away => "Away"@,
    }
}

/// How a user is called: `@nick [Name]`.
pub open spec fn user_title(user: User) -> Seq<char> {
    "@"@ + user.profile.display_name@ + " ["@ + user.profile.real_name@ + "]"@
}

/// How a channel is called in front of what is said in it: `#name` and a tab, or nothing if it has
/// no name.
pub open spec fn channel_title(name: Option<String>) -> Seq<char> {
    match name {
        Some(name) => "#"@ + name@ + "\t"@,
        None => Seq::empty(),
    }
}

/// What is shown at the start: a line that tells so, and an empty line in the place of the status.
pub open spec fn opening() -> Seq<TermOpView> {
    seq![
        TermOpView::Bg(Color::Black),
        TermOpView::Fg(Color::White),
        TermOpView::Write("Starting up… log mode\n"@),
        TermOpView::Reset,
        TermOpView::Write("\n"@),
    ]
}

/// What wipes out the last line.
pub open spec fn wiping() -> Seq<TermOpView> {
    seq![TermOpView::CursorUp, TermOpView::CarriageReturn, TermOpView::DeleteLine]
}

/// What shows an event in itself.
pub open spec fn event_line(event: Event) -> Seq<TermOpView> {
    match event {
        Event::PresenceChange { user, presence } => seq![
            TermOpView::Fg(Color::Magenta),
            TermOpView::Write(
                user_title(user) + " is now "@ + presence_word(presence) + "\n"@,
            ),
            TermOpView::Reset,
        ],
        Event::Message { user, channel, text, .. } => seq![
            TermOpView::Fg(Color::Red),
            TermOpView::Write(channel_title(channel.name)),
            TermOpView::Fg(Color::Blue),
            TermOpView::Write(user_title(user) + ": "@),
            TermOpView::Reset,
            TermOpView::Write(text@ + "\n"@),
        ],
    }
}

/// What shows the status line.
pub open spec fn status_row() -> Seq<TermOpView> {
    seq![TermOpView::Write("Status: <unsupported>\n"@)]
}

/// What shows an event: the status line is wiped out, the event is written in its place, and the
/// status line again below it.
pub open spec fn rendering(event: Event) -> Seq<TermOpView> {
    wiping() + event_line(event) + status_row()
}

/// A display of the events that come over a stream.
pub struct Ui<S> {
    stream: S,
}

impl<S> Ui<S> {
    /// The stream that is shown.
    pub closed spec fn spec_stream(self) -> S {
        self.stream
    }

    /// A display of that stream.
    pub fn new(stream: S) -> (ui: Self)
        ensures
            ui.spec_stream() == stream,
    {
        Ui { stream }
    }

    /// Starts the display, if there is a terminal: what is to be shown first, and the stream whose
    /// events are to be shown from then on, each by `render`.
    pub fn run(self, terminal: bool) -> (start: Result<(Vec<TermOp>, S), ErrorKind>)
        ensures
            terminal <==> start is Ok,
            start matches Ok((ops, stream)) ==> ops_view(ops@) == opening() && stream
                == self.spec_stream(),
            start matches Err(kind) ==> kind is MissingTerm,
    {
        if !terminal {
            return Err(ErrorKind::MissingTerm);
        }
        let ops = vec![
            TermOp::Bg(Color::Black),
            TermOp::Fg(Color::White),
            TermOp::Write("Starting up… log mode\n".to_string()),
            TermOp::Reset,
            TermOp::Write("\n".to_string()),
        ];
        assert(ops_view(ops@) =~= opening());
        Ok((ops, self.stream))
    }
}

impl Presence {
    /// The word for this presence.
    pub fn word(self) -> (word: &'static str)
        ensures
            word@ == presence_word(self),
    {
        match self {
            Presence::Active => "Active",
            Presence::Away => "Away",
        }
    }
}

fn title_of_user(user: &User) -> (title: String)
    ensures
        title@ == user_title(*user),
{
    let mut title = "@".to_string();
    title.append(user.profile.display_name.as_str());
    title.append(" [");
    title.append(user.profile.real_name.as_str());
    title.append("]");
    title
}

fn title_of_channel(name: &Option<String>) -> (title: String)
    ensures
        title@ == channel_title(*name),
{
    match name {
        Some(name) => {
            let mut title = "#".to_string();
            title.append(name.as_str());
            title.append("\t");
            title
        },
        None => String::new(),
    }
}

/// Shows an event.
pub fn render(event: &Event) -> (ops: Vec<TermOp>)
    ensures
        ops_view(ops@) == rendering(*event),
{
    let mut ops = vec![TermOp::CursorUp, TermOp::CarriageReturn, TermOp::DeleteLine];
    match event {
        Event::PresenceChange { user, presence } => {
            ops.push(TermOp::Fg(Color::Magenta));
            let mut line = title_of_user(user);
            line.append(" is now ");
            line.append(presence.word());
            line.append("\n");
            ops.push(TermOp::Write(line));
            ops.push(TermOp::Reset);
        },
        Event::Message { user, channel, text, .. } => {
            ops.push(TermOp::Fg(Color::Red));
            ops.push(TermOp::Write(title_of_channel(&channel.name)));
            ops.push(TermOp::Fg(Color::Blue));
            let mut speaker = title_of_user(user);
            speaker.append(": ");
            ops.push(TermOp::Write(speaker));
            ops.push(TermOp::Reset);
            let mut line = text.clone();
            line.append("\n");
            ops.push(TermOp::Write(line));
        },
    }
    ops.push(TermOp::Write("Status: <unsupported>\n".to_string()));
    assert(ops_view(ops@) =~= rendering(*event));
    ops
}

/// Whether colours other than the usual ones are left over by what was done with the terminal.
pub open spec fn coloured(ops: Seq<TermOpView>) -> bool
    decreases ops.len(),
{
    ops.len() > 0 && match ops.last() {
        TermOpView::Fg(_) | TermOpView::Bg(_) => true,
        TermOpView::Reset => false,
        _ => coloured(ops.drop_last()),
    }
}

/// Nothing that is shown leaves the terminal in other colours than the usual ones, and what users
/// say is written in the usual colours.
pub proof fn law_colours_are_put_back(event: Event)
    ensures
        !coloured(opening()),
        !coloured(rendering(event)),
        event matches Event::Message { text, .. } ==> {
            &&& rendering(event)[8] == TermOpView::Write(text@ + "\n"@)
            &&& !coloured(rendering(event).take(8))
        },
{
    reveal_with_fuel(coloured, 4);
    assert(opening().drop_last().last() == TermOpView::Reset);
    let ops = rendering(event);
    match event {
        Event::PresenceChange { .. } => {
            assert(ops.drop_last().last() == TermOpView::Reset);
        },
        Event::Message { .. } => {
            assert(ops.drop_last().drop_last().last() == TermOpView::Reset);
            assert(ops.take(8).last() == TermOpView::Reset);
        },
    }
}

/// Each event wipes out one line, and leaves the status line as the last one for the next event to
/// wipe out.
pub proof fn law_status_line_stays_last(event: Event)
    ensures
        wiping().is_prefix_of(rendering(event)),
        rendering(event).last() == status_row()[0],
{
    assert(rendering(event).subrange(0, 3) =~= wiping());
}

/// What stands on a screen that is wide and high enough: the lines above the cursor, the line of
/// the cursor and its column, and the lines below. Each character but the newline takes one place.
#[verifier::ext_equal]
pub struct Screen {
    pub above: Seq<Seq<char>>,
    pub line: Seq<char>,
    pub column: nat,
    pub below: Seq<Seq<char>>,
}

/// The screen before anything is shown.
pub open spec fn empty_screen() -> Screen {
    Screen { above: Seq::empty(), line: Seq::empty(), column: 0, below: Seq::empty() }
}

impl Screen {
    /// With a character written: the newline leads to the start of the next line, and any other
    /// character replaces the one at the cursor, if there is one.
    pub open spec fn put(self, c: char) -> Screen {
        if c == '\n' {
            Screen {
                above: self.above.push(self.line),
                line: if self.below.len() > 0 {
                    self.below.first()
                } else {
                    Seq::empty()
                },
                column: 0,
                below: if self.below.len() > 0 {
                    self.below.drop_first()
                } else {
                    self.below
                },
            }
        } else {
            let length = if self.column < self.line.len() {
                self.line.len()
            } else {
                self.column + 1
            };
            Screen {
                line: Seq::new(
                    length,
                    |i: int|
                        if i == self.column {
                            c
                        } else if i < self.line.len() {
                            self.line[i]
                        } else {
                            ' '
                        },
                ),
                column: self.column + 1,
                ..self
            }
        }
    }

    /// With a text written.
    pub open spec fn write(self, text: Seq<char>) -> Screen
        decreases text.len(),
    {
        if text.len() == 0 {
            self
        } else {
            self.write(text.drop_last()).put(text.last())
        }
    }

    /// With that done to the terminal.
    pub open spec fn after(self, op: TermOpView) -> Screen {
        match op {
            TermOpView::Fg(_) | TermOpView::Bg(_) | TermOpView::Reset => self,
            TermOpView::CursorUp => {
                if self.above.len() == 0 {
                    self
                } else {
                    Screen {
                        above: self.above.drop_last(),
                        line: self.above.last(),
                        column: self.column,
                        below: seq![self.line] + self.below,
                    }
                }
            },
            TermOpView::CarriageReturn => Screen { column: 0, ..self },
            TermOpView::DeleteLine => {
                if self.column < self.line.len() {
                    Screen { line: self.line.take(self.column as int), ..self }
                } else {
                    self
                }
            },
            TermOpView::Write(text) => self.write(text),
        }
    }

    /// With all that done to the terminal, one after the other.
    pub open spec fn after_all(self, ops: Seq<TermOpView>) -> Screen
        decreases ops.len(),
    {
        if ops.len() == 0 {
            self
        } else {
            self.after_all(ops.drop_last()).after(ops.last())
        }
    }
}

/// The line that is shown of an event.
pub open spec fn line_of(event: Event) -> Seq<char> {
    match event {
        Event::PresenceChange { user, presence } => user_title(user) + " is now "@ + presence_word(
            presence,
        ),
        Event::Message { user, channel, text, .. } => channel_title(channel.name) + (user_title(
            user,
        ) + ": "@) + text@,
    }
}

/// All that is done with the terminal from the start on, when these events came over the stream.
pub open spec fn performance(events: Seq<Event>) -> Seq<TermOpView>
    decreases events.len(),
{
    if events.len() == 0 {
        opening()
    } else {
        performance(events.drop_last()) + rendering(events.last())
    }
}

/// A text without newlines goes to the end of the line.
proof fn lemma_write_on(screen: Screen, text: Seq<char>)
    requires
        screen.column == screen.line.len(),
        !text.contains('\n'),
    ensures
        screen.write(text) == (Screen {
            line: screen.line + text,
            column: screen.column + text.len(),
            ..screen
        }),
    decreases text.len(),
{
    if text.len() == 0 {
        assert(screen.line + text =~= screen.line);
    } else {
        let front = text.drop_last();
        assert forall|i: int| 0 <= i < front.len() implies front[i] != '\n' by {
            assert(text[i] == front[i]);
            assert(text.contains(text[i]));
        }
        assert(text.contains(text[text.len() - 1]));
        lemma_write_on(screen, front);
        assert(screen.write(text).line =~= screen.line + text);
    }
}

/// A text that ends with its only newline goes to the end of the line, and the next line begins.
proof fn lemma_write_line(screen: Screen, text: Seq<char>)
    requires
        screen.column == screen.line.len(),
        !text.contains('\n'),
    ensures
        screen.write(text + "\n"@) == (Screen {
            line: screen.line + text,
            column: screen.column + text.len(),
            ..screen
        }).put('\n'),
{
    reveal_strlit("\n");
    let all = text + "\n"@;
    assert(all.drop_last() =~= text);
    assert(all.last() == '\n');
    lemma_write_on(screen, text);
}

/// What is done in a row leaves what both parts leave, one after the other.
proof fn lemma_after_in_a_row(screen: Screen, a: Seq<TermOpView>, b: Seq<TermOpView>)
    ensures
        screen.after_all(a + b) == screen.after_all(a).after_all(b),
    decreases b.len(),
{
    if b.len() == 0 {
        assert(a + b =~= a);
    } else {
        lemma_after_in_a_row(screen, a, b.drop_last());
        assert((a + b).drop_last() =~= a + b.drop_last());
    }
}

/// What the start leaves.
proof fn lemma_opening_shown()
    ensures
        empty_screen().after_all(opening()) == (Screen {
            above: seq!["Starting up… log mode"@, Seq::empty()],
            line: Seq::empty(),
            column: 0,
            below: Seq::empty(),
        }),
{
    let start = empty_screen();
    reveal_strlit("Starting up… log mode\n");
    reveal_strlit("Starting up… log mode");
    reveal_strlit("\n");
    let text = "Starting up… log mode"@;
    assert("Starting up… log mode\n"@ =~= text + "\n"@);
    lemma_write_line(start, text);
    let first = start.write("Starting up… log mode\n"@);
    assert(start.line + text =~= text);
    lemma_write_line(first, Seq::empty());
    assert(Seq::<char>::empty() + "\n"@ =~= "\n"@);
    assert(first.line + Seq::<char>::empty() =~= Seq::empty());
    let ops = opening();
    reveal_with_fuel(Screen::after_all, 6);
    assert(start.after_all(ops.drop_last().drop_last()) == first);
    assert(start.after_all(ops).above =~= seq![text, Seq::empty()]);
}

/// What an event leaves: its line in the place of the last one, and the status line below.
proof fn lemma_rendering_shown(screen: Screen, event: Event)
    requires
        screen.above.len() > 0,
        screen.line.len() == 0,
        screen.column == 0,
        screen.below.len() == 0,
        !line_of(event).contains('\n'),
    ensures
        screen.after_all(rendering(event)) == (Screen {
            above: screen.above.drop_last().push(line_of(event)).push("Status: <unsupported>"@),
            line: Seq::empty(),
            column: 0,
            below: Seq::empty(),
        }),
{
    let none = Seq::<char>::empty();
    // The last line is wiped out.
    let wiped = Screen {
        above: screen.above.drop_last(),
        line: none,
        column: 0,
        below: seq![none],
    };
    assert(screen.after_all(wiping()) == wiped) by {
        reveal_with_fuel(Screen::after_all, 4);
        let up = screen.after(TermOpView::CursorUp);
        let done = up.after(TermOpView::CarriageReturn).after(TermOpView::DeleteLine);
        assert(screen.after_all(wiping()) == done);
        assert(screen.line =~= none);
        assert(up.below =~= seq![none]);
        assert(done.line =~= none);
    }
    // The event is written in its place.
    let written = Screen {
        above: screen.above.drop_last().push(line_of(event)),
        line: none,
        column: 0,
        below: Seq::empty(),
    };
    assert(wiped.after_all(event_line(event)) == written) by {
        reveal_with_fuel(Screen::after_all, 7);
        match event {
            Event::PresenceChange { .. } => {
                lemma_write_line(wiped, line_of(event));
                assert(wiped.line + line_of(event) =~= line_of(event));
                assert(wiped.below.drop_first() =~= Seq::empty());
                assert(wiped.after_all(event_line(event)) == wiped.write(line_of(event) + "\n"@));
            },
            Event::Message { user, channel, text, .. } => {
                let place = channel_title(channel.name);
                let speaker = user_title(user) + ": "@;
                let all = line_of(event);
                lemma_parts_without_newline(place, speaker, text@);
                lemma_write_on(wiped, place);
                let placed = wiped.write(place);
                lemma_write_on(placed, speaker);
                let spoken = placed.write(speaker);
                lemma_write_line(spoken, text@);
                assert(spoken.line + text@ =~= all);
                assert(wiped.below.drop_first() =~= Seq::empty());
                assert(wiped.after_all(event_line(event)) == spoken.write(text@ + "\n"@));
            },
        }
    }
    // The status line comes below.
    assert(written.after_all(status_row()) == (Screen {
        above: written.above.push("Status: <unsupported>"@),
        ..written
    })) by {
        reveal_with_fuel(Screen::after_all, 2);
        reveal_strlit("Status: <unsupported>\n");
        reveal_strlit("Status: <unsupported>");
        reveal_strlit("\n");
        let status = "Status: <unsupported>"@;
        assert("Status: <unsupported>\n"@ =~= status + "\n"@);
        lemma_write_line(written, status);
        assert(written.line + status =~= status);
    }
    lemma_after_in_a_row(screen, wiping() + event_line(event), status_row());
    lemma_after_in_a_row(screen, wiping(), event_line(event));
}

/// No part of a text without newlines has one.
proof fn lemma_parts_without_newline(a: Seq<char>, b: Seq<char>, c: Seq<char>)
    requires
        !(a + b + c).contains('\n'),
    ensures
        !a.contains('\n'),
        !b.contains('\n'),
        !c.contains('\n'),
{
    let all = a + b + c;
    assert(forall|i: int| 0 <= i < a.len() ==> all[i] == a[i]);
    assert(forall|i: int| 0 <= i < b.len() ==> #[trigger] all[a.len() + i] == b[i]);
    assert(forall|i: int| 0 <= i < c.len() ==> #[trigger] all[a.len() + b.len() + i] == c[i]);
    assert(forall|i: int| 0 <= i < all.len() ==> all.contains(#[trigger] all[i]));
    if b.contains('\n') {
        let i = b.index_of('\n');
        assert(all[a.len() + i] == '\n');
    }
    if c.contains('\n') {
        let i = c.index_of('\n');
        assert(all[a.len() + b.len() + i] == '\n');
    }
}

/// The screen shows the line of the start, one line for each event in the order of the stream, and
/// below them the status line, just once; before the first event an empty line is in its place.
/// Names and texts with newlines in them take more lines, and are left out.
pub proof fn law_screen_shows_the_stream(events: Seq<Event>)
    requires
        forall|i: int| 0 <= i < events.len() ==> !line_of(#[trigger] events[i]).contains('\n'),
    ensures
        empty_screen().after_all(performance(events)) == (Screen {
            above: seq!["Starting up… log mode"@] + events.map_values(
                |event: Event| line_of(event),
            ) + seq![
                if events.len() == 0 {
                    Seq::empty()
                } else {
                    "Status: <unsupported>"@
                },
            ],
            line: Seq::empty(),
            column: 0,
            below: Seq::empty(),
        }),
    decreases events.len(),
{
    let start = empty_screen();
    let line = |event: Event| line_of(event);
    if events.len() == 0 {
        lemma_opening_shown();
        assert(start.after_all(performance(events)).above =~= seq!["Starting up… log mode"@]
            + events.map_values(line) + seq![Seq::empty()]);
    } else {
        let front = events.drop_last();
        assert(forall|i: int| 0 <= i < front.len() ==> front[i] == events[i]);
        law_screen_shows_the_stream(front);
        let before = start.after_all(performance(front));
        assert(!line_of(events[events.len() - 1]).contains('\n'));
        lemma_after_in_a_row(start, performance(front), rendering(events.last()));
        lemma_rendering_shown(before, events.last());
        assert(events.map_values(line) =~= front.map_values(line).push(line_of(events.last())));
        assert(start.after_all(performance(events)).above =~= seq!["Starting up… log mode"@]
            + events.map_values(line) + seq!["Status: <unsupported>"@]);
    }
}

/// A channel with a name is shown as `#`, then each character of the whole name, then a tab; one
/// without a name is not shown. So other names are shown otherwise.
pub proof fn law_channels_are_shown_by_their_whole_names(name: String, other: String)
    ensures
        ({
            let title = channel_title(Some(name));
            &&& title.len() == name@.len() + 2
            &&& title[0] == '#'
            &&& forall|i: int| 0 <= i < name@.len() ==> title[i + 1] == #[trigger] name@[i]
            &&& title.last() == '\t'
        }),
        channel_title(None).len() == 0,
        channel_title(Some(name)) == channel_title(Some(other)) ==> name@ == other@,
{
    reveal_strlit("#");
    reveal_strlit("\t");
    let title = channel_title(Some(name));
    let rival = channel_title(Some(other));
    assert(title.subrange(1, title.len() - 1) =~= name@);
    assert(rival.subrange(1, rival.len() - 1) =~= other@);
}

/// A user is shown as `@`, then the whole display name, then the whole real name in brackets.
pub proof fn law_users_are_shown_by_their_whole_names(user: User)
    ensures
        ({
            let title = user_title(user);
            let nick = user.profile.display_name@;
            let name = user.profile.real_name@;
            &&& title.len() == nick.len() + name.len() + 4
            &&& title[0] == '@'
            &&& forall|i: int| 0 <= i < nick.len() ==> title[i + 1] == #[trigger] nick[i]
            &&& title[nick.len() as int + 1] == ' '
            &&& title[nick.len() as int + 2] == '['
            &&& forall|i: int|
                0 <= i < name.len() ==> title[nick.len() + 3 + i] == #[trigger] name[i]
            &&& title.last() == ']'
        }),
{
    reveal_strlit("@");
    reveal_strlit(" [");
    reveal_strlit("]");
}

/// All the text that is written.
pub open spec fn written(ops: Seq<TermOpView>) -> Seq<char>
    decreases ops.len(),
{
    if ops.len() == 0 {
        Seq::empty()
    } else {
        match ops.last() {
            TermOpView::Write(text) => written(ops.drop_last()) + text,
            _ => written(ops.drop_last()),
        }
    }
}

/// That a user came or went is written as `@nick [Name] is now Active` or `Away`, and what a user
/// said as `#channel`, a tab, `@nick [Name]:`, a space and the whole text; a channel without a name
/// is left out. Then comes the status line. At the start there are two lines, the second one empty.
pub proof fn law_what_is_written(event: Event)
    ensures
        written(opening()) == "Starting up… log mode\n\n"@,
        event matches Event::PresenceChange { user, presence } ==> written(rendering(event))
            == "@"@ + user.profile.display_name@ + " ["@ + user.profile.real_name@ + "] is now "@
            + (match presence {
            Presence::Active => "Active\n"@,
            Presence::Away => "Away\n"@,
        }) + "Status: <unsupported>\n"@,
        event matches Event::Message { user, channel, text, .. } ==> written(rendering(event)) == (
        match channel.name {
            Some(name) => seq!['#'] + name@ + seq!['\t'],
            None => Seq::empty(),
        }) + "@"@ + user.profile.display_name@ + " ["@ + user.profile.real_name@ + "]: "@ + text@
            + "\nStatus: <unsupported>\n"@,
{
    reveal_strlit("@");
    reveal_strlit("#");
    reveal_strlit("\t");
    reveal_strlit("\n");
    reveal_strlit(" [");
    reveal_strlit("]");
    reveal_strlit(": ");
    reveal_strlit("]: ");
    reveal_strlit(" is now ");
    reveal_strlit("] is now ");
    reveal_strlit("Active");
    reveal_strlit("Active\n");
    reveal_strlit("Away");
    reveal_strlit("Away\n");
    reveal_strlit("Status: <unsupported>\n");
    reveal_strlit("\nStatus: <unsupported>\n");
    reveal_strlit("Starting up… log mode\n");
    reveal_strlit("Starting up… log mode\n\n");
    lemma_written_by(opening());
    lemma_written_by(rendering(event));
    assert(written(opening()) =~= "Starting up… log mode\n\n"@);
    match event {
        Event::PresenceChange { user, presence } => {
            assert(written(rendering(event)) =~= user_title(user) + " is now "@ + presence_word(
                presence,
            ) + "\n"@ + "Status: <unsupported>\n"@);
        },
        Event::Message { user, channel, text, .. } => {
            assert(written(rendering(event)) =~= channel_title(channel.name) + user_title(user)
                + ": "@ + text@ + "\n"@ + "Status: <unsupported>\n"@);
        },
    }
}

/// The first few steps of `written`.
proof fn lemma_written_by(ops: Seq<TermOpView>)
    requires
        ops.len() <= 10,
    ensures
        written(ops) == written_at(ops, 0) + written_at(ops, 1) + written_at(ops, 2) + written_at(
            ops,
            3,
        ) + written_at(ops, 4) + written_at(ops, 5) + written_at(ops, 6) + written_at(ops, 7)
            + written_at(ops, 8) + written_at(ops, 9),
    decreases ops.len(),
{
    if ops.len() > 0 {
        let n = ops.len() - 1;
        lemma_written_by(ops.drop_last());
        assert(forall|i: int|
            0 <= i < n ==> #[trigger] written_at(ops.drop_last(), i) == written_at(ops, i));
        assert(forall|i: int| i > n ==> #[trigger] written_at(ops, i) == Seq::<char>::empty());
        assert(forall|i: int|
            i >= n ==> #[trigger] written_at(ops.drop_last(), i) == Seq::<char>::empty());
        assert(written(ops) =~= written(ops.drop_last()) + written_at(ops, n));
    }
    assert(written(ops) =~= written_at(ops, 0) + written_at(ops, 1) + written_at(ops, 2)
        + written_at(ops, 3) + written_at(ops, 4) + written_at(ops, 5) + written_at(ops, 6)
        + written_at(ops, 7) + written_at(ops, 8) + written_at(ops, 9));
}

/// What is written at one place.
spec fn written_at(ops: Seq<TermOpView>, i: int) -> Seq<char> {
    if 0 <= i < ops.len() && ops[i] is Write {
        ops[i]->Write_0
    } else {
        Seq::empty()
    }
}

/// The colour of the text that is written, at that place among all that is done, or none.
pub open spec fn colour_of(ops: Seq<TermOpView>, i: int) -> Option<Color>
    decreases i,
{
    if i <= 0 || i > ops.len() {
        None
    } else {
        match ops[i - 1] {
            TermOpView::Fg(color) => Some(color),
            TermOpView::Reset => None,
            _ => colour_of(ops, i - 1),
        }
    }
}

/// Who came or went is written in magenta, a channel in red, who says something in blue, and what
/// they say and the status in the usual colour; first of all the last line is wiped out, and
/// nothing but the text, the colours and that is done to the terminal.
pub proof fn law_what_is_coloured(event: Event)
    ensures
        ({
            let ops = rendering(event);
            &&& ops[0] is CursorUp
            &&& ops[1] is CarriageReturn
            &&& ops[2] is DeleteLine
            &&& forall|i: int|
                3 <= i < ops.len() ==> !(#[trigger] ops[i] is CursorUp || ops[i] is CarriageReturn
                    || ops[i] is DeleteLine || ops[i] is Bg)
            &&& ops.last() is Write
            &&& colour_of(ops, ops.len() - 1) is None
            &&& event is PresenceChange ==> {
                &&& ops.len() == 7
                &&& ops[4] is Write
                &&& colour_of(ops, 4) == Some(Color::Magenta)
            }
            &&& event is Message ==> {
                &&& ops.len() == 10
                &&& ops[4] is Write
                &&& colour_of(ops, 4) == Some(Color::Red)
                &&& ops[6] is Write
                &&& colour_of(ops, 6) == Some(Color::Blue)
                &&& ops[8] is Write
                &&& colour_of(ops, 8) is None
            }
        }),
        ({
            let ops = opening();
            &&& ops.len() == 5
            &&& ops[0] == TermOpView::Bg(Color::Black)
            &&& colour_of(ops, 2) == Some(Color::White)
            &&& ops[2] is Write
            &&& ops[3] is Reset
            &&& ops[4] is Write
        }),
{
    reveal_with_fuel(colour_of, 4);
}

/// What is done to the terminal is seen as what it is, with the whole text.
pub proof fn law_ops_are_seen_whole(ops: Seq<TermOp>, text: String, color: Color)
    ensures
        ops_view(ops).len() == ops.len(),
        forall|i: int| 0 <= i < ops.len() ==> #[trigger] ops_view(ops)[i] == ops[i]@,
        TermOp::Write(text)@ == TermOpView::Write(text@),
        TermOp::Fg(color)@ == TermOpView::Fg(color),
        TermOp::Bg(color)@ == TermOpView::Bg(color),
        TermOp::Reset@ == TermOpView::Reset,
        TermOp::CursorUp@ == TermOpView::CursorUp,
        TermOp::CarriageReturn@ == TermOpView::CarriageReturn,
        TermOp::DeleteLine@ == TermOpView::DeleteLine,
{
}

/// The words for the two presences.
pub proof fn law_words_for_presences(presence: Presence, word: &'static str)
    requires
        call_ensures(Presence::word, (presence,), word),
    ensures
        presence is Active ==> word@ == "Active"@,
        presence is Away ==> word@ == "Away"@,
{
}

/// What is returned for an event is what shows it.
pub proof fn law_render(event: &Event, ops: Vec<TermOp>)
    requires
        call_ensures(render, (event,), ops),
    ensures
        ops_view(ops@) == rendering(*event),
{
}

/// A display that runs begins with the lines of the start, and goes on with the stream that it was
/// made with; without a terminal it does not run.
pub proof fn law_run<S>(ui: Ui<S>, stream: S, start: Result<(Vec<TermOp>, S), ErrorKind>)
    requires
        call_ensures(Ui::<S>::new, (stream,), ui),
    ensures
        call_ensures(Ui::<S>::run, (ui, true), start) ==> (start matches Ok((ops, shown))
            && ops_view(ops@) == opening() && shown == stream),
        call_ensures(Ui::<S>::run, (ui, false), start) ==> (start matches Err(kind)
            && kind is MissingTerm),
{
}

} // verus!
