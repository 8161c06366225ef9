use slack_log::clock::LocalTime;
use slack_log::error::ErrorKind;
use slack_log::model::{Channel, Event, Presence, Profile, User};
use slack_log::ui::{render, TermOp, Ui};

fn user() -> User {
    User {
        id: "U1".to_string(),
        team_id: "T1".to_string(),
        profile: Profile {
            status_text: "".to_string(),
            real_name_normalized: "Jane Doe".to_string(),
            real_name: "J\u{e1}ne Doe".to_string(),
            display_name_normalized: "jane".to_string(),
            display_name: "j\u{e1}ne".to_string(),
        },
        name: "jd".to_string(),
        real_name: "Jane D".to_string(),
    }
}

fn said(channel: Option<&str>) -> Event {
    Event::Message {
        user: user(),
        channel: Channel { id: "C1".to_string(), name: channel.map(|name| name.to_string()) },
        text: "hello\nworld".to_string(),
        time: LocalTime { seconds: 1, nanos: 2, offset: 3 },
    }
}

fn shown(ops: &[TermOp]) -> Vec<String> {
    ops.iter()
        .map(|op| match op {
            TermOp::Write(text) => text.clone(),
            other => format!("<{:?}>", other),
        })
        .collect()
}

#[test]
fn the_display_needs_a_terminal() {
    assert!(matches!(Ui::new(7).run(false), Err(ErrorKind::MissingTerm)));
}

#[test]
fn the_display_starts_up() {
    let (ops, stream) = Ui::new(7).run(true).unwrap();
    assert_eq!(stream, 7);
    assert_eq!(
        shown(&ops),
        vec!["<Bg(Black)>", "<Fg(White)>", "Starting up\u{2026} log mode\n", "<Reset>", "\n"]
    );
}

#[test]
fn presence_is_shown() {
    for &(presence, word) in &[(Presence::Active, "Active"), (Presence::Away, "Away")] {
        let ops = render(&Event::PresenceChange { user: user(), presence });
        let line = format!("@j\u{e1}ne [J\u{e1}ne Doe] is now {}\n", word);
        assert_eq!(
            shown(&ops),
            vec![
                "<CursorUp>",
                "<CarriageReturn>",
                "<DeleteLine>",
                "<Fg(Magenta)>",
                line.as_str(),
                "<Reset>",
                "Status: <unsupported>\n",
            ]
        );
    }
}

#[test]
fn messages_are_shown() {
    assert_eq!(
        shown(&render(&said(Some("general")))),
        vec![
            "<CursorUp>",
            "<CarriageReturn>",
            "<DeleteLine>",
            "<Fg(Red)>",
            "#general\t",
            "<Fg(Blue)>",
            "@j\u{e1}ne [J\u{e1}ne Doe]: ",
            "<Reset>",
            "hello\nworld\n",
            "Status: <unsupported>\n",
        ]
    );
}

#[test]
fn channels_without_a_name_are_not_shown() {
    assert_eq!(shown(&render(&said(None)))[4], "");
}

#[test]
fn colours_are_put_back() {
    let (opening, _) = Ui::new(()).run(true).unwrap();
    let away = Event::PresenceChange { user: user(), presence: Presence::Away };
    for ops in vec![opening, render(&said(Some("x"))), render(&away)] {
        let mut coloured = false;
        for op in &ops {
            match op {
                TermOp::Fg(_) | TermOp::Bg(_) => coloured = true,
                TermOp::Reset => coloured = false,
                _ => {}
            }
        }
        assert!(!coloured);
    }
}

#[test]
fn the_status_line_stays_last() {
    let away = Event::PresenceChange { user: user(), presence: Presence::Away };
    for event in vec![said(None), away] {
        let ops = render(&event);
        assert!(matches!(ops[0], TermOp::CursorUp));
        assert!(matches!(ops[1], TermOp::CarriageReturn));
        assert!(matches!(ops[2], TermOp::DeleteLine));
        assert_eq!(shown(&ops).last().unwrap(), "Status: <unsupported>\n");
    }
}

/// The lines of a terminal that does what it is told, but for colours.
fn screen(all: Vec<Vec<TermOp>>) -> Vec<String> {
    let mut lines: Vec<Vec<char>> = vec![vec![]];
    let (mut row, mut column) = (0, 0);
    for op in all.iter().flatten() {
        match op {
            TermOp::Fg(_) | TermOp::Bg(_) | TermOp::Reset => {}
            TermOp::CursorUp => row -= 1,
            TermOp::CarriageReturn => column = 0,
            TermOp::DeleteLine => lines[row].truncate(column),
            TermOp::Write(text) => {
                for c in text.chars() {
                    if c == '\n' {
                        row += 1;
                        column = 0;
                        if row == lines.len() {
                            lines.push(vec![]);
                        }
                    } else {
                        lines[row].truncate(column);
                        lines[row].push(c);
                        column += 1;
                    }
                }
            }
        }
    }
    lines.iter().map(|line| line.iter().collect()).collect()
}

#[test]
fn the_screen_shows_the_stream() {
    let (opening, _) = Ui::new(()).run(true).unwrap();
    let mut all = vec![opening];
    let message = Event::Message {
        user: user(),
        channel: Channel { id: "C1".to_string(), name: Some("general".to_string()) },
        text: "hi".to_string(),
        time: LocalTime { seconds: 1, nanos: 2, offset: 3 },
    };
    all.push(render(&message));
    all.push(render(&Event::PresenceChange { user: user(), presence: Presence::Away }));
    all.push(render(&message));
    assert_eq!(
        screen(all),
        vec![
            "Starting up\u{2026} log mode",
            "#general\t@j\u{e1}ne [J\u{e1}ne Doe]: hi",
            "@j\u{e1}ne [J\u{e1}ne Doe] is now Away",
            "#general\t@j\u{e1}ne [J\u{e1}ne Doe]: hi",
            "Status: <unsupported>",
            "",
        ]
    );
}

#[test]
fn the_screen_starts_with_an_empty_line_for_the_status() {
    let (opening, _) = Ui::new(()).run(true).unwrap();
    assert_eq!(screen(vec![opening]), vec!["Starting up\u{2026} log mode", "", ""]);
}
