use termbuf::framebuffer::{render, Cell, Framebuffer, FramebufferErr};
use termbuf::terminal::Color::{Blue, Green, Red};
use termbuf::terminal::{bg, fg};

fn collect_cells(fb: &Framebuffer) -> Vec<((u16, u16), &Cell)> {
    let mut it = fb.iter();
    let mut cells = Vec::new();
    while let Some(item) = it.next() {
        cells.push(item);
    }
    cells
}

#[test]
fn set_and_get() {
    let mut fb = Framebuffer::new(3, 4);
    let cell = Cell::Filled {
        character: 'a',
        foreground: fg(Green),
        background: bg(Red),
    };
    fb.set(1, 1, cell.clone());
    let c = fb.get(1, 1);
    assert_eq!(cell, *c);
}

#[test]
fn capacity() {
    let fb = Framebuffer::new(3, 4);
    assert_eq!(fb.capacity(), 12);
}

#[test]
fn clear() {
    let mut fb = Framebuffer::new(3, 4);
    let cell = Cell::Filled {
        character: 'a',
        foreground: fg(Green),
        background: bg(Red),
    };
    fb.set(1, 1, cell.clone());
    let c = fb.get(1, 1);
    assert_eq!(cell, *c);

    fb.clear();
    assert_eq!(*fb.get(1, 2), Cell::Empty);
}

#[test]
fn height() {
    let fb = Framebuffer::new(3, 4);
    assert_eq!(fb.height(), 4);
}

#[test]
fn width() {
    let fb = Framebuffer::new(3, 4);
    assert_eq!(fb.width(), 3);
}

#[test]
fn iterator() {
    let mut fb = Framebuffer::new(2, 2);

    let cell_1 = Cell::Filled {
        character: 'X',
        foreground: fg(Green),
        background: bg(Red),
    };

    let cell_2 = Cell::Filled {
        character: 'Y',
        foreground: fg(Green),
        background: bg(Red),
    };

    fb.set(0, 0, cell_1.clone());
    fb.set(1, 1, cell_2.clone());

    let expected = vec![
        ((0, 0), &cell_1),
        ((1, 0), &Cell::Empty),
        ((0, 1), &Cell::Empty),
        ((1, 1), &cell_2),
    ];

    assert_eq!(collect_cells(&fb), expected);

    let mut fb_a = Framebuffer::new(2, 6);
    fb_a.set(
        0,
        0,
        Cell::Filled {
            character: '!',
            foreground: fg(Green),
            background: bg(Red),
        },
    );
    fb_a.set(
        1,
        3,
        Cell::Filled {
            character: '1',
            foreground: fg(Green),
            background: bg(Red),
        },
    );

    let cells = collect_cells(&fb_a);

    assert_eq!(cells.len(), 12);
    assert_eq!(
        cells,
        vec![
            (
                (0, 0),
                &Cell::Filled {
                    character: '!',
                    foreground: fg(Green),
                    background: bg(Red),
                }
            ),
            ((1, 0), &Cell::Empty),
            ((0, 1), &Cell::Empty),
            ((1, 1), &Cell::Empty),
            ((0, 2), &Cell::Empty),
            ((1, 2), &Cell::Empty),
            ((0, 3), &Cell::Empty),
            (
                (1, 3),
                &Cell::Filled {
                    character: '1',
                    foreground: fg(Green),
                    background: bg(Red),
                }
            ),
            ((0, 4), &Cell::Empty),
            ((1, 4), &Cell::Empty),
            ((0, 5), &Cell::Empty),
            ((1, 5), &Cell::Empty),
        ]
    );
}

#[test]
fn render_to_raw_buffer() {
    let mut fb = Framebuffer::new(2, 2);
    fb.set(
        0,
        0,
        Cell::Filled {
            character: 'X',
            foreground: fg(Green),
            background: bg(Red),
        },
    );
    fb.set(
        1,
        1,
        Cell::Filled {
            character: 'Y',
            foreground: fg(Green),
            background: bg(Red),
        },
    );

    let mut buf = String::new();

    render(&fb, &mut buf).expect("should be able to write to the buffer");
    assert_eq!(buf, String::from("X \n Y\n"));
}

#[test]
fn new_grid_is_all_empty() {
    let fb = Framebuffer::new(3, 2);
    let cells = collect_cells(&fb);
    assert_eq!(cells.len(), 6);
    assert!(cells.iter().all(|(_, c)| **c == Cell::Empty));
}

#[test]
fn zero_sized_grid_has_no_cells() {
    let fb = Framebuffer::new(0, 5);
    assert_eq!(fb.capacity(), 0);
    assert!(collect_cells(&fb).is_empty());
    let mut out = String::new();
    render(&fb, &mut out).unwrap();
    assert_eq!(out, "");
}

#[test]
fn set_replaces_without_shifting() {
    let mut fb = Framebuffer::new(2, 2);
    let a = Cell::Filled { character: 'a', foreground: fg(Green), background: bg(Red) };
    let b = Cell::Filled { character: 'b', foreground: fg(Blue), background: bg(Red) };
    fb.set(1, 0, a);
    fb.set(1, 0, b);
    assert_eq!(fb.capacity(), 4);
    assert_eq!(*fb.get(1, 0), b);
    assert_eq!(*fb.get(0, 0), Cell::Empty);
    assert_eq!(*fb.get(0, 1), Cell::Empty);
    assert_eq!(*fb.get(1, 1), Cell::Empty);
}

#[test]
fn largest_coordinates_address_last_cell() {
    let mut fb = Framebuffer::new(3, 4);
    let a = Cell::Filled { character: 'z', foreground: fg(Green), background: bg(Red) };
    fb.set(2, 3, a);
    let cells = collect_cells(&fb);
    assert_eq!(cells[11], ((2, 3), &a));
}

#[test]
fn cleared_grid_has_zero_capacity_and_empty_walk() {
    let mut fb = Framebuffer::new(3, 4);
    fb.clear();
    assert_eq!(fb.capacity(), 0);
    assert_eq!(fb.width(), 3);
    assert_eq!(fb.height(), 4);
    assert!(collect_cells(&fb).is_empty());
}

#[test]
fn resize_is_unimplemented() {
    let mut fb = Framebuffer::new(3, 4);
    let r = fb.resize(5, 5);
    assert!(matches!(r, Err(FramebufferErr::Unimplemented)));
    assert_eq!(fb.width(), 3);
    assert_eq!(fb.height(), 4);
    assert_eq!(fb.capacity(), 12);
}

#[test]
fn render_breaks_lines_at_width() {
    let mut fb = Framebuffer::new(3, 2);
    fb.set(2, 0, Cell::Filled { character: 'é', foreground: fg(Green), background: bg(Red) });
    fb.set(0, 1, Cell::Filled { character: 'q', foreground: fg(Green), background: bg(Red) });
    let mut out = String::from(">");
    render(&fb, &mut out).unwrap();
    assert_eq!(out, ">  é\nq  \n");
}
