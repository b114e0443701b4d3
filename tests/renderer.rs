use termbuf::framebuffer::diff::{compare, Changeset};
use termbuf::framebuffer::{Cell, Framebuffer};
use termbuf::renderer::{commands_for, Renderer, Terminal};
use termbuf::terminal::Color::{Green, Red};
use termbuf::terminal::{bg, configure, fg, rgb, Command, Sink, Style};

fn filled(character: char) -> Cell {
    Cell::Filled { character, foreground: fg(Green), background: bg(Red) }
}

/// Accepts a fixed number of writes, then refuses every one.
struct Budget {
    left: usize,
    text: String,
}

impl Sink for Budget {
    fn write_str(&mut self, s: &str) -> Result<(), String> {
        if self.left == 0 {
            return Err(String::from("broken pipe"));
        }
        self.left -= 1;
        self.text.push_str(s);
        Ok(())
    }
}

#[test]
fn add_renders_four_commands() {
    let cmds = commands_for(Changeset::Add { x: 3, y: 1, cell: filled('X') });
    assert_eq!(cmds.len(), 4);
    assert!(matches!(cmds[0], Command::MoveTo(3, 1)));
    assert!(matches!(cmds[1], Command::ApplyStyle(Style::Foreground(Green))));
    assert!(matches!(cmds[2], Command::ApplyStyle(Style::Background(Red))));
    assert!(matches!(&cmds[3], Command::Write(s) if s == "X"));
}

#[test]
fn update_renders_like_add() {
    let cell = Cell::Filled { character: 'u', foreground: fg(rgb(1, 2, 3)), background: bg(Green) };
    let cmds = commands_for(Changeset::Update { x: 0, y: 7, cell });
    assert_eq!(cmds.len(), 4);
    assert!(matches!(cmds[0], Command::MoveTo(0, 7)));
    assert!(matches!(cmds[1], Command::ApplyStyle(Style::Foreground(termbuf::terminal::Color::Rgb { r: 1, g: 2, b: 3 }))));
    assert!(matches!(cmds[2], Command::ApplyStyle(Style::Background(Green))));
    assert!(matches!(&cmds[3], Command::Write(s) if s == "u"));
}

#[test]
fn remove_renders_three_commands() {
    let cmds = commands_for(Changeset::Remove { x: 2, y: 5 });
    assert_eq!(cmds.len(), 3);
    assert!(matches!(cmds[0], Command::MoveTo(2, 5)));
    assert!(matches!(cmds[1], Command::ApplyStyle(Style::Reset)));
    assert!(matches!(&cmds[2], Command::Write(s) if s == " "));
}

#[test]
fn add_of_empty_cell_blanks() {
    let cmds = commands_for(Changeset::Add { x: 1, y: 1, cell: Cell::Empty });
    assert_eq!(cmds.len(), 3);
    assert!(matches!(cmds[1], Command::ApplyStyle(Style::Reset)));
    assert!(matches!(&cmds[2], Command::Write(s) if s == " "));
}

#[test]
fn submit_writes_each_change_in_order() {
    let mut term = Terminal::new(String::new());
    term.submit(vec![
        Changeset::Add { x: 0, y: 0, cell: filled('X') },
        Changeset::Remove { x: 1, y: 2 },
    ])
    .unwrap();
    assert_eq!(
        term.sink().as_str(),
        "\x1b[0;0H\x1b[32m\x1b[41mX\x1b[2;1H\x1b[0m "
    );
}

#[test]
fn submit_of_diff_redraws_only_changed_cells() {
    let a = Framebuffer::new(3, 2);
    let mut b = a.clone();
    b.set(2, 1, filled('Z'));
    let mut term = Terminal::new(String::from("#"));
    term.submit(compare(&a, &b)).unwrap();
    assert_eq!(term.into_sink(), "#\x1b[1;2H\x1b[32m\x1b[41mZ");
}

#[test]
fn submit_of_nothing_writes_nothing() {
    let mut term = Terminal::new(String::new());
    term.submit(Vec::new()).unwrap();
    assert_eq!(term.into_sink(), "");
}

#[test]
fn sink_failure_names_the_refused_command() {
    let mut term = Terminal::new(Budget { left: 5, text: String::new() });
    let err = term
        .submit(vec![
            Changeset::Add { x: 0, y: 0, cell: filled('A') },
            Changeset::Update { x: 4, y: 0, cell: filled('B') },
        ])
        .unwrap_err();
    assert!(matches!(err.command, Command::ApplyStyle(Style::Foreground(Green))));
    assert_eq!(err.cause, "broken pipe");
    assert_eq!(term.sink().text, "\x1b[0;0H\x1b[32m\x1b[41mA\x1b[0;4H");
}

#[test]
fn configure_reports_refused_clear() {
    let mut out = Budget { left: 0, text: String::new() };
    let err = configure(&mut out).unwrap_err();
    assert!(matches!(err.command, Command::Clear));
    assert_eq!(err.cause, "broken pipe");
    assert_eq!(out.text, "");
}
