use conge::buffer::Buffer;
use conge::console::Command;
use conge::console::Console;
use conge::pixel::attribute;
use conge::pixel::Color;
use conge::pixel::Pixel;

fn write_count(cmds: &[Command]) -> usize {
    cmds.iter().filter(|c| matches!(c, Command::Write(_))).count()
}

fn written_chars(cmds: &[Command]) -> Vec<char> {
    cmds.iter()
        .filter_map(|c| match c {
            Command::Write(ch) => Some(*ch),
            _ => None,
        })
        .collect()
}

#[test]
fn color_attribute_formula() {
    assert_eq!(attribute(Color::White, Color::Black), 7);
    assert_eq!(attribute(Color::Red, Color::Black), 1);
    assert_eq!(attribute(Color::Black, Color::White), 112);
    assert_eq!(attribute(Color::BrightWhite, Color::BrightWhite), 255);
    assert_eq!(attribute(Color::Gray, Color::Blue), 4 * 16 + 8);
}

#[test]
fn pixel_from_char_is_white_on_black() {
    let p = Pixel::from('x');
    assert_eq!(p, Pixel::new('x', Color::White, Color::Black));
}

#[test]
fn buffer_resize_fills_and_keeps_origin() {
    let mut b = Buffer::new();
    b.resize(3, 2);
    assert_eq!(b.get(0, 0), Pixel::filler());
    assert_eq!(b.get(2, 1), Pixel::filler());
    b.set(1, 1, Pixel::new('q', Color::Red, Color::Blue));
    b.resize(4, 3);
    assert_eq!(b.get(1, 1), Pixel::new('q', Color::Red, Color::Blue));
    assert_eq!(b.get(3, 2), Pixel::filler());
    b.resize(2, 2);
    assert_eq!(b.get(1, 1), Pixel::new('q', Color::Red, Color::Blue));
}

#[test]
fn buffer_fill_and_clear() {
    let mut b = Buffer::new();
    b.resize(2, 2);
    let red = Pixel::new('#', Color::Red, Color::Black);
    b.fill(red);
    assert_eq!(b.get(0, 0), red);
    assert_eq!(b.get(1, 1), red);
    b.clear();
    assert_eq!(b.get(0, 1), Pixel::filler());
}

#[test]
fn resize_forces_full_redraw() {
    let mut c = Console::new();
    c.resize(3, 2);
    // The draw grid is all filler; the committed grid was invalidated by the
    // resize, so every one of the six cells must be written.
    let cmds = c.draw();
    assert_eq!(write_count(&cmds), 6);
    // A second commit with nothing drawn emits no writes at all.
    let cmds = c.draw();
    assert_eq!(write_count(&cmds), 0);
}

#[test]
fn diff_commands_exact_stream() {
    let mut c = Console::new();
    c.resize(3, 2);
    c.draw();
    // Two adjacent cells change; the second write needs neither a move (the
    // cursor advanced there) nor a color set (the color is cached).
    c.pixel(1, 0, Pixel::new('A', Color::Red, Color::Black));
    c.pixel(2, 0, Pixel::new('B', Color::Red, Color::Black));
    let cmds = c.draw();
    assert_eq!(
        cmds,
        vec![
            Command::MoveCursor(1, 0),
            Command::SetColor(Color::Red, Color::Black),
            Command::Write('A'),
            Command::Write('B'),
            Command::MoveCursor(0, 0),
            Command::SetColor(Color::White, Color::Black),
        ]
    );
}

#[test]
fn no_adjacent_identical_color_sets() {
    let mut c = Console::new();
    c.resize(4, 2);
    c.draw();
    c.pixel(0, 0, Pixel::new('a', Color::Green, Color::Black));
    c.pixel(2, 0, Pixel::new('b', Color::Green, Color::Black));
    c.pixel(0, 1, Pixel::new('c', Color::Yellow, Color::Blue));
    let cmds = c.draw();
    for pair in cmds.windows(2) {
        if let (Command::SetColor(f0, b0), Command::SetColor(f1, b1)) = (&pair[0], &pair[1]) {
            assert!(!(f0 == f1 && b0 == b1));
        }
    }
    // The green color is set once, cached across the gap at column 1.
    let greens = cmds
        .iter()
        .filter(|k| matches!(k, Command::SetColor(Color::Green, Color::Black)))
        .count();
    assert_eq!(greens, 1);
}

#[test]
fn cursor_move_elided_only_after_left_neighbour() {
    let mut c = Console::new();
    c.resize(4, 1);
    c.draw();
    c.pixel(0, 0, Pixel::new('x', Color::White, Color::Black));
    c.pixel(1, 0, Pixel::new('y', Color::White, Color::Black));
    c.pixel(3, 0, Pixel::new('z', Color::White, Color::Black));
    let cmds = c.draw();
    // After the previous commit the cursor rests on the origin, so the write
    // of (0, 0) needs no move; (1, 0) follows its left neighbour; (3, 0) does
    // not and needs a move.
    assert_eq!(
        cmds,
        vec![
            Command::Write('x'),
            Command::Write('y'),
            Command::MoveCursor(3, 0),
            Command::Write('z'),
            Command::MoveCursor(0, 0),
        ]
    );
}

#[test]
fn text_truncates_at_right_edge() {
    let mut c = Console::new();
    c.resize(5, 1);
    c.draw();
    // "Hello" at column width - 2: exactly two characters fit.
    c.text(3, 0, "Hello");
    let cmds = c.draw();
    assert_eq!(write_count(&cmds), 2);
    assert_eq!(written_chars(&cmds), vec!['H', 'e']);
}

#[test]
fn text_ext_draws_in_requested_colors() {
    let mut c = Console::new();
    c.resize(4, 1);
    c.draw();
    c.text_ext(0, 0, "hi", Color::Cyan, Color::Magenta);
    let cmds = c.draw();
    assert_eq!(
        cmds,
        vec![
            Command::SetColor(Color::Cyan, Color::Magenta),
            Command::Write('h'),
            Command::Write('i'),
            Command::MoveCursor(0, 0),
            Command::SetColor(Color::White, Color::Black),
        ]
    );
}

#[test]
fn draw_clears_the_draw_grid() {
    let mut c = Console::new();
    c.resize(2, 1);
    c.draw();
    c.pixel(0, 0, Pixel::new('q', Color::White, Color::Black));
    let first = c.draw();
    assert_eq!(write_count(&first), 1);
    // The cell was not painted again, so the next commit repaints it with
    // the filler instead of keeping it.
    let second = c.draw();
    assert_eq!(written_chars(&second), vec![' ']);
    assert_eq!(c.dimensions(), (2, 1));
}
