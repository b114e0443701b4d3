use termbuf::terminal::{bg, configure, fg, rgb, Color, Command, Style, Visibility};

#[test]
fn named_colour_codes() {
    assert_eq!(Color::Black.fg(), "30");
    assert_eq!(Color::Red.fg(), "31");
    assert_eq!(Color::White.fg(), "37");
    assert_eq!(Color::BrightBlack.fg(), "90");
    assert_eq!(Color::BrightWhite.fg(), "97");
    assert_eq!(Color::Black.bg(), "40");
    assert_eq!(Color::Cyan.bg(), "46");
    assert_eq!(Color::BrightRed.bg(), "101");
    assert_eq!(Color::BrightWhite.bg(), "107");
}

#[test]
fn rgb_colour_codes() {
    assert_eq!(rgb(1, 22, 255).fg(), "1;22;255");
    assert_eq!(rgb(0, 100, 9).bg(), "0;100;9");
    assert_eq!(rgb(7, 8, 9), Color::Rgb { r: 7, g: 8, b: 9 });
}

#[test]
fn style_escapes() {
    assert_eq!(fg(Color::Green).encode(), "\x1b[32m");
    assert_eq!(bg(Color::Red).encode(), "\x1b[41m");
    assert_eq!(bg(Color::BrightBlue).encode(), "\x1b[104m");
    assert_eq!(fg(rgb(10, 20, 30)).encode(), "\x1b[38;2;10;20;30m");
    assert_eq!(bg(rgb(1, 2, 3)).encode(), "\x1b[48;2;1;2;3m");
    assert_eq!(Style::Reset.encode(), "\x1b[0m");
    assert_eq!(fg(Color::Green), Style::Foreground(Color::Green));
    assert_eq!(bg(Color::Green), Style::Background(Color::Green));
}

#[test]
fn command_escapes() {
    assert_eq!(Command::MoveTo(0, 0).encode(), "\x1b[0;0H");
    assert_eq!(Command::MoveTo(4, 9).encode(), "\x1b[9;4H");
    assert_eq!(Command::MoveTo(65535, 7).encode(), "\x1b[7;65535H");
    assert_eq!(Command::ApplyStyle(Style::Reset).encode(), "\x1b[0m");
    assert_eq!(Command::Write(String::from("héllo")).encode(), "héllo");
    assert_eq!(Command::Cursor(Visibility::Hidden).encode(), "\x1b[?25l");
    assert_eq!(Command::Cursor(Visibility::Show).encode(), "\x1b[?25h");
    assert_eq!(Command::Clear.encode(), "\x1b[2J");
}

#[test]
fn configure_clears_once() {
    let mut out = String::from("$");
    configure(&mut out).unwrap();
    assert_eq!(out, "$\x1b[2J");
}
