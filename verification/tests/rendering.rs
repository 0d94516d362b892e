use termgame::renderer::changes::CellWrite;
use termgame::renderer::scene::compose;
use termgame::renderer::types::{Frame, Location, Renderer, Representation};

fn sprite(null_char: char, lines: &[&str]) -> Representation {
    Representation::new(null_char, lines.iter().map(|line| line.chars().collect()).collect())
        .unwrap()
}

fn at(x: i32, y: i32) -> Location {
    Location { x, y }
}

fn write(x: u16, y: u16, ch: char) -> CellWrite {
    CellWrite { x, y, ch }
}

/// The cells of `frame` that do not show a blank, in scan order.
fn drawn_cells(frame: &Frame) -> Vec<(u16, u16, char)> {
    let mut cells = Vec::new();
    for x in 0..frame.width() {
        for y in 0..frame.height() {
            let ch = frame.get(x, y).unwrap();
            if ch != ' ' {
                cells.push((x, y, ch));
            }
        }
    }
    cells
}

#[test]
fn blank_frame_shows_blanks_everywhere() {
    let frame = Frame::blank(4, 3);
    assert_eq!(frame.width(), 4);
    assert_eq!(frame.height(), 3);
    for x in 0..4 {
        for y in 0..3 {
            assert_eq!(frame.get(x, y), Some(' '));
        }
    }
}

#[test]
fn frame_has_no_cell_beyond_its_size() {
    let frame = Frame::blank(4, 3);
    assert_eq!(frame.get(4, 0), None);
    assert_eq!(frame.get(0, 3), None);
    assert_eq!(frame.get(u16::MAX, u16::MAX), None);
}

#[test]
fn frame_may_have_no_cells() {
    let narrow = Frame::blank(0, 5);
    assert_eq!((narrow.width(), narrow.height()), (0, 5));
    assert_eq!(narrow.get(0, 0), None);
    let flat = Frame::blank(5, 0);
    assert_eq!((flat.width(), flat.height()), (5, 0));
    assert_eq!(flat.get(0, 0), None);
}

#[test]
fn compose_of_nothing_is_blank() {
    let frame = compose(&Vec::new(), 3, 2);
    assert_eq!((frame.width(), frame.height()), (3, 2));
    assert_eq!(drawn_cells(&frame), vec![]);
}

#[test]
fn compose_maps_rows_to_y_and_columns_to_x() {
    let rep = sprite(' ', &["abc", "def"]);
    let origin = at(1, 2);
    let frame = compose(&vec![(&origin, &rep)], 6, 6);
    assert_eq!(
        drawn_cells(&frame),
        vec![(1, 2, 'a'), (1, 3, 'd'), (2, 2, 'b'), (2, 3, 'e'), (3, 2, 'c'), (3, 3, 'f')]
    );
}

#[test]
fn lone_centre_of_a_sprite_lands_one_cell_in() {
    let rep = sprite(' ', &["   ", " 5 ", "   "]);
    let place = at(5, 5);
    let mut renderer = Renderer::new(10, 10);
    let writes = renderer.render(&vec![(&place, &rep)]);
    assert_eq!(writes, vec![write(6, 6, '5')]);
    renderer.commit();
    assert_eq!(drawn_cells(renderer.frame()), vec![(6, 6, '5')]);
    assert_eq!(renderer.frame().get(6, 6), Some('5'));
}

#[test]
fn new_renderer_shows_a_blank_window() {
    let renderer = Renderer::new(7, 4);
    assert_eq!((renderer.frame().width(), renderer.frame().height()), (7, 4));
    assert_eq!(drawn_cells(renderer.frame()), vec![]);
}

#[test]
fn same_scene_twice_writes_nothing_the_second_time() {
    let ship = sprite('.', &[".^.", "/#\\"]);
    let rock = sprite(' ', &["()"]);
    let (a, b) = (at(2, 1), at(0, 0));
    let scene = vec![(&a, &ship), (&b, &rock)];
    let mut renderer = Renderer::new(8, 5);
    let first = renderer.render(&scene);
    assert_eq!(first.len(), 6);
    renderer.commit();
    assert_eq!(renderer.render(&scene), vec![]);
    renderer.commit();
    assert_eq!(renderer.render(&scene), vec![]);
}

#[test]
fn writes_come_column_by_column() {
    let rep = sprite(' ', &["ab", "cd"]);
    let place = at(0, 0);
    let mut renderer = Renderer::new(3, 3);
    assert_eq!(
        renderer.render(&vec![(&place, &rep)]),
        vec![write(0, 0, 'a'), write(0, 1, 'c'), write(1, 0, 'b'), write(1, 1, 'd')]
    );
}

#[test]
fn as_many_writes_as_cells_that_differ() {
    let before = sprite(' ', &["abcd", "efgh"]);
    let after = sprite(' ', &["abXd", "Yfgh"]);
    let place = at(1, 1);
    let mut renderer = Renderer::new(6, 4);
    renderer.render(&vec![(&place, &before)]);
    renderer.commit();
    assert_eq!(
        renderer.render(&vec![(&place, &after)]),
        vec![write(1, 2, 'Y'), write(3, 1, 'X')]
    );
}

#[test]
fn moved_sprite_is_wiped_where_it_was() {
    let rep = sprite(' ', &["##"]);
    let (left, right) = (at(0, 0), at(1, 0));
    let mut renderer = Renderer::new(4, 1);
    renderer.render(&vec![(&left, &rep)]);
    renderer.commit();
    assert_eq!(
        renderer.render(&vec![(&right, &rep)]),
        vec![write(0, 0, ' '), write(2, 0, '#')]
    );
}

#[test]
fn empty_scene_wipes_what_was_shown() {
    let rep = sprite(' ', &["#"]);
    let place = at(2, 1);
    let mut renderer = Renderer::new(4, 3);
    renderer.render(&vec![(&place, &rep)]);
    renderer.commit();
    assert_eq!(renderer.render(&Vec::new()), vec![write(2, 1, ' ')]);
}

#[test]
fn sprite_outside_the_window_writes_nothing() {
    let rep = sprite(' ', &["##", "##"]);
    for place in [
        at(10, 0),
        at(0, 10),
        at(-2, 0),
        at(0, -2),
        at(-5, -5),
        at(10, 10),
        at(i32::MAX, i32::MAX),
        at(i32::MIN, i32::MIN),
        at(i32::MAX, 0),
        at(0, i32::MIN),
    ] {
        let mut renderer = Renderer::new(10, 10);
        assert_eq!(renderer.render(&vec![(&place, &rep)]), vec![]);
        renderer.commit();
        assert_eq!(drawn_cells(renderer.frame()), vec![]);
    }
}

#[test]
fn sprite_outside_the_window_leaves_the_others_alone() {
    let seen = sprite(' ', &["ab"]);
    let unseen = sprite(' ', &["##", "##"]);
    let (here, far) = (at(1, 1), at(-2, 7));
    let with = compose(&vec![(&far, &unseen), (&here, &seen), (&far, &unseen)], 5, 5);
    let without = compose(&vec![(&here, &seen)], 5, 5);
    assert_eq!(drawn_cells(&with), drawn_cells(&without));
    assert_eq!(drawn_cells(&with), vec![(1, 1, 'a'), (2, 1, 'b')]);
}

#[test]
fn sprite_over_the_edge_is_clipped() {
    let rep = sprite(' ', &["abc", "def", "ghi"]);
    let top_left = at(-1, -1);
    let frame = compose(&vec![(&top_left, &rep)], 4, 4);
    assert_eq!(drawn_cells(&frame), vec![(0, 0, 'e'), (0, 1, 'h'), (1, 0, 'f'), (1, 1, 'i')]);
    let bottom_right = at(3, 2);
    let frame = compose(&vec![(&bottom_right, &rep)], 4, 4);
    assert_eq!(drawn_cells(&frame), vec![(3, 2, 'a'), (3, 3, 'd')]);
}

#[test]
fn sprite_larger_than_the_window_is_clipped() {
    let rep = sprite(' ', &["abcd", "efgh", "ijkl"]);
    let place = at(-1, -1);
    let frame = compose(&vec![(&place, &rep)], 2, 1);
    assert_eq!(drawn_cells(&frame), vec![(0, 0, 'f'), (1, 0, 'g')]);
}

#[test]
fn later_sprite_hides_earlier_one_where_they_overlap() {
    let a = sprite(' ', &["AAA", "AAA"]);
    let b = sprite(' ', &["BB", "BB"]);
    let (pa, pb) = (at(0, 0), at(2, 1));
    let frame = compose(&vec![(&pa, &a), (&pb, &b)], 5, 4);
    assert_eq!(frame.get(2, 1), Some('B'));
    assert_eq!(
        drawn_cells(&frame),
        vec![
            (0, 0, 'A'),
            (0, 1, 'A'),
            (1, 0, 'A'),
            (1, 1, 'A'),
            (2, 0, 'A'),
            (2, 1, 'B'),
            (2, 2, 'B'),
            (3, 1, 'B'),
            (3, 2, 'B'),
        ]
    );
    let frame = compose(&vec![(&pb, &b), (&pa, &a)], 5, 4);
    assert_eq!(frame.get(2, 1), Some('A'));
}

#[test]
fn transparent_cell_lets_the_sprite_below_show() {
    let below = sprite(' ', &["mmm", "mmm", "mmm"]);
    let ring = sprite('.', &["ooo", "o.o", "ooo"]);
    let place = at(1, 1);
    let frame = compose(&vec![(&place, &below), (&place, &ring)], 5, 5);
    assert_eq!(frame.get(2, 2), Some('m'));
    assert_eq!(frame.get(1, 1), Some('o'));
    assert_eq!(frame.get(3, 3), Some('o'));
}

#[test]
fn transparent_cell_never_draws() {
    let ring = sprite('.', &["ooo", "o.o", "ooo"]);
    let place = at(0, 0);
    let frame = compose(&vec![(&place, &ring)], 3, 3);
    assert_eq!(frame.get(1, 1), Some(' '));
    let dots = sprite('.', &["..", ".."]);
    let below = sprite(' ', &["ab", "cd"]);
    for scene in [
        vec![(&place, &below), (&place, &dots)],
        vec![(&place, &dots), (&place, &below)],
        vec![(&place, &dots), (&place, &below), (&place, &dots)],
    ] {
        let frame = compose(&scene, 2, 2);
        assert_eq!(
            drawn_cells(&frame),
            vec![(0, 0, 'a'), (0, 1, 'c'), (1, 0, 'b'), (1, 1, 'd')]
        );
    }
}

#[test]
fn blank_is_drawn_when_it_is_not_the_transparent_character() {
    let below = sprite(' ', &["mmm"]);
    let gap = sprite('.', &[" "]);
    let (pa, pb) = (at(0, 0), at(1, 0));
    let frame = compose(&vec![(&pa, &below), (&pb, &gap)], 3, 1);
    assert_eq!(frame.get(0, 0), Some('m'));
    assert_eq!(frame.get(1, 0), Some(' '));
    assert_eq!(frame.get(2, 0), Some('m'));
}

#[test]
fn render_does_not_advance_the_frame_before_commit() {
    let rep = sprite(' ', &["#"]);
    let place = at(0, 0);
    let mut renderer = Renderer::new(2, 2);
    assert_eq!(renderer.render(&vec![(&place, &rep)]), vec![write(0, 0, '#')]);
    assert_eq!(drawn_cells(renderer.frame()), vec![]);
    assert_eq!(renderer.render(&vec![(&place, &rep)]), vec![write(0, 0, '#')]);
    renderer.commit();
    assert_eq!(drawn_cells(renderer.frame()), vec![(0, 0, '#')]);
}

#[test]
fn abandoned_frame_is_never_shown() {
    let rep = sprite(' ', &["#"]);
    let other = sprite(' ', &["@"]);
    let (p, q) = (at(0, 0), at(1, 1));
    let mut renderer = Renderer::new(2, 2);
    renderer.render(&vec![(&p, &rep)]);
    renderer.commit();
    assert_eq!(
        renderer.render(&vec![(&q, &other)]),
        vec![write(0, 0, ' '), write(1, 1, '@')]
    );
    renderer.abandon();
    renderer.commit();
    assert_eq!(drawn_cells(renderer.frame()), vec![(0, 0, '#')]);
    assert_eq!(
        renderer.render(&vec![(&q, &other)]),
        vec![write(0, 0, ' '), write(1, 1, '@')]
    );
}

#[test]
fn commit_without_render_changes_nothing() {
    let mut renderer = Renderer::new(3, 3);
    renderer.commit();
    assert_eq!(drawn_cells(renderer.frame()), vec![]);
    assert_eq!((renderer.frame().width(), renderer.frame().height()), (3, 3));
}

#[test]
fn window_without_cells_needs_no_writes() {
    let rep = sprite(' ', &["#"]);
    let place = at(0, 0);
    for (width, height) in [(0, 0), (0, 4), (4, 0)] {
        let mut renderer = Renderer::new(width, height);
        assert_eq!(renderer.render(&vec![(&place, &rep)]), vec![]);
    }
}

#[test]
fn widest_window_is_addressed_to_its_last_cell() {
    let rep = sprite(' ', &["#"]);
    let place = at(65534, 0);
    let mut renderer = Renderer::new(u16::MAX, 1);
    assert_eq!(renderer.render(&vec![(&place, &rep)]), vec![write(65534, 0, '#')]);
}
