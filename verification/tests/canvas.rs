use string_canvas::canvas::{StringCanvas, PLACEMENT_HEIGHT, PLACEMENT_WIDTH};
use string_canvas::line_state::{Direction, LineState, Vec2};

fn text(lines: &[&str]) -> Vec<String> {
    lines.iter().map(|l| l.to_string()).collect()
}

fn at(x: usize, y: usize, direction: Direction) -> LineState {
    LineState { position: Vec2::new(x, y), direction }
}

fn draws_of(states: &[LineState]) -> Vec<(usize, usize, bool)> {
    states.iter().map(|s| (s.position.x, s.position.y, s.direction == Direction::Right)).collect()
}

fn placed(lines: &[&str], width: usize, states: Vec<LineState>) -> StringCanvas {
    StringCanvas::with_draws(text(lines), Vec2::new(width, 24), draws_of(&states))
        .expect("one draw for each line, each in the box")
}

#[test]
fn the_box_is_100_by_50() {
    assert_eq!(PLACEMENT_WIDTH, 100);
    assert_eq!(PLACEMENT_HEIGHT, 50);
}

#[test]
fn new_has_one_state_for_each_line() {
    for count in [0usize, 1, 2, 7, 100] {
        let lines: Vec<String> = (0..count).map(|i| format!("line {}", i)).collect();
        let canvas = StringCanvas::new(lines.clone(), Vec2::new(80, 24));
        assert_eq!(canvas.states().len(), count);
        assert_eq!(canvas.lines().len(), count);
        assert_eq!(canvas.lines(), &lines);
    }
}

#[test]
fn new_keeps_the_screen_size_and_starts_with_shift_one() {
    let canvas = StringCanvas::new(text(&["a", "b"]), Vec2::new(123, 45));
    assert_eq!(canvas.screen_size(), Vec2::new(123, 45));
    assert_eq!(canvas.shift(), 1);
}

#[test]
fn new_places_every_line_in_the_box() {
    let lines: Vec<String> = (0..5000).map(|i| i.to_string()).collect();
    let canvas = StringCanvas::new(lines, Vec2::new(80, 24));
    for state in canvas.states() {
        assert!(state.position.x < 100);
        assert!(state.position.y < 50);
    }
}

#[test]
fn new_draws_its_places_and_headings_at_random() {
    let lines: Vec<String> = (0..5000).map(|i| i.to_string()).collect();
    let canvas = StringCanvas::new(lines, Vec2::new(80, 24));
    let states = canvas.states();
    // 5000 draws that all gave the same column, row or heading did not come
    // from a generator
    assert!(states.iter().any(|s| s.position.x != states[0].position.x));
    assert!(states.iter().any(|s| s.position.y != states[0].position.y));
    assert!(states.iter().any(|s| s.direction == Direction::Right));
    assert!(states.iter().any(|s| s.direction == Direction::Left));
    // every column and every row of the box is hit, and none outside
    let mut columns = [0usize; 100];
    let mut rows = [0usize; 50];
    for s in states {
        columns[s.position.x] += 1;
        rows[s.position.y] += 1;
    }
    assert!(columns.iter().filter(|&&n| n > 0).count() > 90);
    assert!(rows.iter().all(|&n| n > 0));
    let right = states.iter().filter(|s| s.direction == Direction::Right).count();
    assert!(right > 2000 && right < 3000);
}

#[test]
fn new_on_an_empty_text_is_an_empty_canvas() {
    let mut canvas = StringCanvas::new(Vec::new(), Vec2::new(80, 24));
    assert!(canvas.states().is_empty());
    assert!(canvas.draw().is_empty());
    assert!(canvas.can_update());
    canvas.update();
    assert_eq!(canvas.shift(), 2);
    assert!(canvas.states().is_empty());
}

#[test]
fn with_draws_puts_each_line_where_its_draw_says() {
    let draws = vec![(0, 0, false), (99, 49, true), (7, 3, true)];
    let canvas = StringCanvas::with_draws(text(&["one", "two", "three"]), Vec2::new(80, 24), draws)
        .expect("made");
    assert_eq!(
        canvas.states(),
        &vec![at(0, 0, Direction::Left), at(99, 49, Direction::Right), at(7, 3, Direction::Right)]
    );
    assert_eq!(canvas.lines(), &text(&["one", "two", "three"]));
    assert_eq!(canvas.screen_size(), Vec2::new(80, 24));
    assert_eq!(canvas.shift(), 1);
}

#[test]
fn with_draws_heads_right_on_true_and_left_on_false() {
    let canvas =
        StringCanvas::with_draws(text(&["a", "b"]), Vec2::new(80, 24), vec![(5, 6, true), (5, 6, false)])
            .expect("made");
    assert_eq!(canvas.states()[0].direction, Direction::Right);
    assert_eq!(canvas.states()[1].direction, Direction::Left);
}

#[test]
fn with_draws_takes_the_column_first_and_the_row_second() {
    // 60 is a column of the box and no row of it
    assert!(StringCanvas::with_draws(text(&["a"]), Vec2::new(80, 24), vec![(60, 40, true)]).is_some());
    assert!(StringCanvas::with_draws(text(&["a"]), Vec2::new(80, 24), vec![(40, 60, true)]).is_none());
    let canvas =
        StringCanvas::with_draws(text(&["a"]), Vec2::new(80, 24), vec![(60, 40, true)]).expect("made");
    assert_eq!(canvas.states()[0].position, Vec2 { x: 60, y: 40 });
}

#[test]
fn with_draws_wants_one_draw_for_each_line() {
    let size = Vec2::new(80, 24);
    let one = vec![(1usize, 1usize, true)];
    assert!(StringCanvas::with_draws(text(&["a", "b"]), size, one.clone()).is_none());
    assert!(StringCanvas::with_draws(text(&[]), size, one.clone()).is_none());
    assert!(StringCanvas::with_draws(text(&["a"]), size, Vec::new()).is_none());
    assert!(StringCanvas::with_draws(text(&["a"]), size, one).is_some());
    assert!(StringCanvas::with_draws(text(&[]), size, Vec::new()).is_some());
}

#[test]
fn with_draws_wants_every_draw_in_the_box() {
    let size = Vec2::new(80, 24);
    assert!(StringCanvas::with_draws(text(&["a"]), size, vec![(99, 49, false)]).is_some());
    assert!(StringCanvas::with_draws(text(&["a"]), size, vec![(100, 0, false)]).is_none());
    assert!(StringCanvas::with_draws(text(&["a"]), size, vec![(0, 50, false)]).is_none());
    assert!(
        StringCanvas::with_draws(text(&["a", "b"]), size, vec![(99, 49, false), (100, 50, true)])
            .is_none()
    );
}

#[test]
fn set_size_moves_no_line() {
    let states = vec![at(5, 6, Direction::Right), at(70, 8, Direction::Left)];
    let mut canvas = placed(&["ab", "cd"], 80, states.clone());
    canvas.set_size(Vec2::new(10, 3));
    assert_eq!(canvas.screen_size(), Vec2::new(10, 3));
    assert_eq!(canvas.states(), &states);
    assert_eq!(canvas.shift(), 1);
    assert_eq!(canvas.lines(), &text(&["ab", "cd"]));
}

#[test]
fn set_size_counts_at_the_next_tick() {
    // "abcd" in column 6: on a screen of 80 the threshold is 76, on one of 10 it is 6
    let mut wide = placed(&["abcd"], 80, vec![at(6, 0, Direction::Right)]);
    let mut narrow = placed(&["abcd"], 80, vec![at(6, 0, Direction::Right)]);
    narrow.set_size(Vec2::new(10, 24));
    wide.update();
    narrow.update();
    assert_eq!(wide.states()[0], at(7, 0, Direction::Right));
    assert_eq!(narrow.states()[0], at(7, 0, Direction::Left));
}

#[test]
fn move_text_adds_one_to_the_shift() {
    let states = vec![at(5, 6, Direction::Right)];
    let mut canvas = placed(&["ab"], 80, states.clone());
    canvas.move_text();
    assert_eq!(canvas.shift(), 2);
    canvas.move_text();
    assert_eq!(canvas.shift(), 3);
    assert_eq!(canvas.states(), &states);
    assert_eq!(canvas.screen_size(), Vec2::new(80, 24));
}

#[test]
fn update_moves_by_the_shift_and_then_raises_it() {
    let mut canvas = placed(
        &["ab", "cd", "ef"],
        80,
        vec![at(10, 1, Direction::Right), at(10, 2, Direction::Left), at(3, 3, Direction::Left)],
    );
    assert!(canvas.can_update());
    canvas.update();
    // the shift was 1: every line went 1 column, and the shift is 2 now
    assert_eq!(canvas.shift(), 2);
    assert_eq!(
        canvas.states(),
        &vec![at(11, 1, Direction::Right), at(9, 2, Direction::Left), at(2, 3, Direction::Left)]
    );
    assert!(canvas.can_update());
    canvas.update();
    // every line went 2 columns, and the shift is 3 now
    assert_eq!(canvas.shift(), 3);
    assert_eq!(
        canvas.states(),
        &vec![at(13, 1, Direction::Right), at(7, 2, Direction::Left), at(0, 3, Direction::Right)]
    );
}

#[test]
fn the_first_tick_moves_one_column() {
    // width 10, length 3: the threshold is column 7, which is reached and not passed
    let mut canvas = placed(&["abc"], 10, vec![at(6, 0, Direction::Right)]);
    canvas.set_size(Vec2::new(10, 5));
    assert!(canvas.can_update());
    canvas.update();
    assert_eq!(canvas.states(), &vec![at(7, 0, Direction::Right)]);
    assert_eq!(canvas.shift(), 2);
}

#[test]
fn every_line_moves_once_in_its_own_direction() {
    let mut canvas =
        placed(&["ab", "cde"], 10, vec![at(0, 0, Direction::Right), at(4, 1, Direction::Left)]);
    assert!(canvas.can_update());
    canvas.update();
    assert_eq!(canvas.states(), &vec![at(1, 0, Direction::Right), at(3, 1, Direction::Left)]);
}

#[test]
fn a_line_heading_left_in_column_one_reaches_zero_and_turns() {
    let mut canvas = placed(&["ab"], 10, vec![at(1, 3, Direction::Left)]);
    assert!(canvas.can_update());
    canvas.update();
    assert_eq!(canvas.states(), &vec![at(0, 3, Direction::Right)]);
}

#[test]
fn update_turns_a_line_left_on_the_tick_that_crosses_the_threshold() {
    // width 20, length 5: the threshold is column 15
    let mut canvas = placed(
        &["hello", "world", "again"],
        20,
        vec![at(14, 0, Direction::Right), at(15, 0, Direction::Right), at(30, 0, Direction::Right)],
    );
    canvas.update();
    assert_eq!(
        canvas.states(),
        &vec![at(15, 0, Direction::Right), at(16, 0, Direction::Left), at(31, 0, Direction::Left)]
    );
}

#[test]
fn update_turns_a_line_right_only_in_column_zero() {
    let mut canvas =
        placed(&["a", "b"], 20, vec![at(1, 0, Direction::Left), at(2, 0, Direction::Left)]);
    canvas.update();
    assert_eq!(canvas.states(), &vec![at(0, 0, Direction::Right), at(1, 0, Direction::Left)]);
}

#[test]
fn update_measures_a_line_in_bytes() {
    // five characters, six bytes: the threshold is 20 - 6 = 14
    let mut canvas = placed(
        &["h\u{e9}llo", "hello"],
        20,
        vec![at(14, 0, Direction::Right), at(14, 0, Direction::Right)],
    );
    canvas.update();
    assert_eq!(canvas.states(), &vec![at(15, 0, Direction::Left), at(15, 0, Direction::Right)]);
}

#[test]
fn update_keeps_lines_and_size() {
    let mut canvas = placed(&["ab", "cd"], 80, vec![at(5, 6, Direction::Right), at(70, 8, Direction::Left)]);
    canvas.update();
    assert_eq!(canvas.lines(), &text(&["ab", "cd"]));
    assert_eq!(canvas.screen_size(), Vec2::new(80, 24));
    assert_eq!(canvas.states().len(), 2);
}

#[test]
fn can_update_says_when_a_tick_cannot_be_computed() {
    // a line heading left that would pass below zero
    assert!(!placed(&["a"], 20, vec![at(0, 0, Direction::Left)]).can_update());
    assert!(placed(&["a"], 20, vec![at(1, 0, Direction::Left)]).can_update());
    // a line heading right that is longer than the screen is wide
    assert!(!placed(&["abcdef"], 5, vec![at(1, 0, Direction::Right)]).can_update());
    assert!(placed(&["abcdef"], 6, vec![at(1, 0, Direction::Right)]).can_update());
    // heading left, the length does not count
    assert!(placed(&["abcdef"], 5, vec![at(2, 0, Direction::Left)]).can_update());
    // one line that cannot move stops the tick
    assert!(!placed(&["a", "b"], 20, vec![at(5, 0, Direction::Right), at(0, 0, Direction::Left)])
        .can_update());
    // the shift counts as it stands, not as it will be
    let mut canvas = placed(&["a"], 20, vec![at(2, 0, Direction::Left)]);
    canvas.move_text();
    assert!(canvas.can_update());
    canvas.move_text();
    assert!(!canvas.can_update());
}

#[test]
fn a_line_heading_left_runs_out_of_room_as_the_shift_grows() {
    let mut canvas = placed(&["a"], 80, vec![at(11, 0, Direction::Left)]);
    let mut columns = Vec::new();
    while canvas.can_update() {
        canvas.update();
        columns.push(canvas.states()[0].position.x);
        assert!(columns.len() < 100);
    }
    // 11 - 1 - 2 - 3 - 4 = 1, and 5 columns more cannot be gone
    assert_eq!(columns, vec![10, 8, 5, 1]);
    assert_eq!(canvas.shift(), 5);
    assert_eq!(canvas.states()[0].direction, Direction::Left);
}

#[test]
fn draw_paints_each_line_where_it_stands() {
    let canvas = placed(
        &["first", "", "third"],
        80,
        vec![at(1, 2, Direction::Right), at(3, 4, Direction::Left), at(99, 49, Direction::Left)],
    );
    let strokes = canvas.draw();
    assert_eq!(strokes.len(), 3);
    assert_eq!(strokes[0].position, Vec2::new(1, 2));
    assert_eq!(strokes[0].text, "first");
    assert_eq!(strokes[1].position, Vec2::new(3, 4));
    assert_eq!(strokes[1].text, "");
    assert_eq!(strokes[2].position, Vec2::new(99, 49));
    assert_eq!(strokes[2].text, "third");
}

#[test]
fn draw_follows_the_lines_after_a_tick() {
    let mut canvas = placed(&["ab"], 80, vec![at(10, 7, Direction::Right)]);
    canvas.update();
    let strokes = canvas.draw();
    assert_eq!(strokes.len(), 1);
    assert_eq!(strokes[0].position, Vec2::new(11, 7));
    assert_eq!(strokes[0].text, "ab");
}

#[test]
fn draw_twice_paints_the_same() {
    let lines: Vec<String> = (0..50).map(|i| format!("line {}", i)).collect();
    let mut canvas = StringCanvas::new(lines, Vec2::new(200, 50));
    for _ in 0..3 {
        let first: Vec<(Vec2, String)> =
            canvas.draw().iter().map(|s| (s.position, s.text.to_string())).collect();
        let second: Vec<(Vec2, String)> =
            canvas.draw().iter().map(|s| (s.position, s.text.to_string())).collect();
        assert_eq!(first, second);
        assert_eq!(first.len(), 50);
        if canvas.can_update() {
            canvas.update();
        }
    }
}

#[test]
fn draw_leaves_the_canvas_as_it_was() {
    let states = vec![at(1, 2, Direction::Right), at(3, 4, Direction::Left)];
    let canvas = placed(&["ab", "cd"], 80, states.clone());
    let _ = canvas.draw();
    assert_eq!(canvas.states(), &states);
    assert_eq!(canvas.shift(), 1);
    assert_eq!(canvas.screen_size(), Vec2::new(80, 24));
}

#[test]
fn required_size_is_300_by_300() {
    let states = vec![at(1, 2, Direction::Right)];
    let mut canvas = placed(&["ab"], 80, states.clone());
    assert_eq!(canvas.required_size(Vec2::new(0, 0)), Vec2::new(300, 300));
    assert_eq!(canvas.required_size(Vec2::new(1000, 1)), Vec2::new(300, 300));
    assert_eq!(canvas.states(), &states);
    assert_eq!(canvas.shift(), 1);
    assert_eq!(canvas.screen_size(), Vec2::new(80, 24));
}

#[test]
fn advance_lines_moves_by_the_shift_as_it_stands() {
    let mut canvas = placed(
        &["ab", "cd", "ef"],
        80,
        vec![at(10, 1, Direction::Right), at(10, 2, Direction::Left), at(1, 3, Direction::Left)],
    );
    assert!(canvas.can_advance_lines());
    canvas.advance_lines();
    assert_eq!(canvas.shift(), 1);
    assert_eq!(
        canvas.states(),
        &vec![at(11, 1, Direction::Right), at(9, 2, Direction::Left), at(0, 3, Direction::Right)]
    );
    canvas.advance_lines();
    assert_eq!(canvas.shift(), 1);
    assert_eq!(
        canvas.states(),
        &vec![at(12, 1, Direction::Right), at(8, 2, Direction::Left), at(1, 3, Direction::Right)]
    );
    assert_eq!(canvas.lines(), &text(&["ab", "cd", "ef"]));
    assert_eq!(canvas.screen_size(), Vec2::new(80, 24));
}

#[test]
fn update_is_advance_lines_and_then_move_text() {
    let states = vec![at(10, 1, Direction::Right), at(10, 2, Direction::Left), at(14, 3, Direction::Right)];
    let mut whole = placed(&["ab", "cd", "efghi"], 20, states.clone());
    let mut parts = placed(&["ab", "cd", "efghi"], 20, states);
    for _ in 0..3 {
        assert!(whole.can_update());
        whole.update();
        assert!(parts.can_advance_lines());
        parts.advance_lines();
        parts.move_text();
        assert_eq!(whole.states(), parts.states());
        assert_eq!(whole.shift(), parts.shift());
    }
    // the third line: 14 + 1 = 15, 15 + 2 = 17 past the threshold 15, 17 - 3 = 14
    assert_eq!(whole.shift(), 4);
    assert_eq!(
        whole.states(),
        &vec![at(16, 1, Direction::Right), at(4, 2, Direction::Left), at(14, 3, Direction::Left)]
    );
}

#[test]
fn can_advance_lines_says_when_the_lines_cannot_be_moved() {
    let canvas = placed(&["a"], 20, vec![at(1, 0, Direction::Left)]);
    assert!(canvas.can_advance_lines());
    assert!(canvas.can_update());
    assert!(!placed(&["a"], 20, vec![at(0, 0, Direction::Left)]).can_advance_lines());
    assert!(!placed(&["abc"], 2, vec![at(0, 0, Direction::Right)]).can_advance_lines());
    assert!(placed(&["abc"], 3, vec![at(0, 0, Direction::Right)]).can_advance_lines());
}

#[test]
fn a_line_bounces_between_the_edges_of_the_canvas() {
    // width 10, length 4: the threshold is column 6
    let mut canvas = placed(&["abcd"], 10, vec![at(3, 5, Direction::Right)]);
    let mut seen = Vec::new();
    for _ in 0..16 {
        assert!(canvas.can_advance_lines());
        canvas.advance_lines();
        let state = canvas.states()[0];
        assert_eq!(state.position.y, 5);
        seen.push((state.position.x, state.direction == Direction::Right));
    }
    assert_eq!(
        seen,
        vec![
            (4, true), (5, true), (6, true), (7, false), (6, false), (5, false), (4, false),
            (3, false), (2, false), (1, false), (0, true), (1, true), (2, true), (3, true),
            (4, true), (5, true),
        ]
    );
}
