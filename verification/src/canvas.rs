//! The canvas: the lines of a text, where each of them stands, and the step
//! that moves them all on every tick.

use crate::line_state::{Direction, LineState, Vec2};
use crate::random::{gen_range, gen_ratio};
use vstd::prelude::*;
use vstd::utf8::encode_utf8;

verus! {

/// The number of columns that a line may start in: columns `0..PLACEMENT_WIDTH`.
pub const PLACEMENT_WIDTH: usize = 100;

/// The number of rows that a line may start in: rows `0..PLACEMENT_HEIGHT`.
pub const PLACEMENT_HEIGHT: usize = 50;

/// The length of a line as the canvas measures it: its bytes in UTF-8.
pub open spec fn byte_len(line: Seq<char>) -> nat {
    encode_utf8(line).len()
}

/// Whether a line may start out in this state.
pub open spec fn is_initial(state: LineState) -> bool {
    state.position.x < PLACEMENT_WIDTH && state.position.y < PLACEMENT_HEIGHT
}

/// What a canvas holds, as mathematical values.
pub struct CanvasView {
    /// The lines, in the order of the text.
    pub lines: Seq<Seq<char>>,
    /// The size of the screen as the host last told it.
    pub screen_size: Vec2,
    /// One state for each line, in the order of the lines.
    pub states: Seq<LineState>,
    /// The number of columns that a line moves on a tick.
    pub shift: nat,
}

impl CanvasView {
    /// There is one state for each line.
    pub open spec fn wf(self) -> bool {
        self.states.len() == self.lines.len()
    }

    /// Whether every line can be moved by the shift in machine integers.
    pub open spec fn can_advance_lines(self) -> bool {
        forall|i: int|
            0 <= i < self.states.len() ==> (#[trigger] self.states[i]).can_advance(
                self.shift,
                self.screen_size.x as nat,
                byte_len(self.lines[i]),
            )
    }

    /// The canvas with every line moved by the shift, to the right or to the
    /// left as it is heading, and turned round where it has to.
    pub open spec fn lines_advanced(self) -> CanvasView {
        CanvasView {
            states: Seq::new(
                self.states.len(),
                |i: int|
                    self.states[i].advanced(
                        self.shift,
                        self.screen_size.x as nat,
                        byte_len(self.lines[i]),
                    ),
            ),
            ..self
        }
    }

    /// The canvas with a shift that is one column larger.
    pub open spec fn accelerated(self) -> CanvasView {
        CanvasView { shift: self.shift + 1, ..self }
    }

    /// Whether the next tick can be computed in machine integers: every line
    /// can be moved by the shift, and the shift can grow.
    pub open spec fn can_update(self) -> bool {
        self.shift < usize::MAX && self.can_advance_lines()
    }

    /// The canvas after one tick: every line moves by the shift as it stands,
    /// then the shift grows by one.
    pub open spec fn updated(self) -> CanvasView {
        self.lines_advanced().accelerated()
    }

    /// What a draw paints: each line at the place where it stands, in the
    /// order of the lines.
    pub open spec fn picture(self) -> Seq<(Vec2, Seq<char>)> {
        Seq::new(self.lines.len(), |i: int| (self.states[i].position, self.lines[i]))
    }

    /// Whether `strokes` are what a draw of this canvas hands out.
    pub open spec fn paints(self, strokes: Seq<Stroke>) -> bool {
        painted(strokes) == self.picture()
    }
}

/// What a row of strokes paints: each text with its place, in their order.
pub open spec fn painted(strokes: Seq<Stroke>) -> Seq<(Vec2, Seq<char>)> {
    Seq::new(strokes.len(), |i: int| strokes[i]@)
}

/// The state that a line starts in when the generator has drawn `column`,
/// `row` and `coin` for it: it stands where the two numbers say, heading
/// right where the coin came up true and left where it did not.
pub open spec fn placed(draw: (usize, usize, bool)) -> LineState {
    LineState {
        position: Vec2 { x: draw.0, y: draw.1 },
        direction: if draw.2 {
            Direction::Right
        } else {
            Direction::Left
        },
    }
}

/// Whether a draw lies in the box that lines start in.
pub open spec fn is_in_box(draw: (usize, usize, bool)) -> bool {
    draw.0 < PLACEMENT_WIDTH && draw.1 < PLACEMENT_HEIGHT
}

/// One line of text to be painted at one place of the screen.
#[derive(Clone, Copy, Debug)]
pub struct Stroke<'a> {
    pub position: Vec2,
    pub text: &'a str,
}

impl<'a> View for Stroke<'a> {
    type V = (Vec2, Seq<char>);

    open spec fn view(&self) -> (Vec2, Seq<char>) {
        (self.position, self.text@)
    }
}

/// The lines of a text bouncing between the edges of a screen.
pub struct StringCanvas {
    lines: Vec<String>,
    screen_size: Vec2,
    states: Vec<LineState>,
    shift: usize,
}

impl View for StringCanvas {
    type V = CanvasView;

    closed spec fn view(&self) -> CanvasView {
        CanvasView {
            lines: self.lines.deep_view(),
            screen_size: self.screen_size,
            states: self.states@,
            shift: self.shift as nat,
        }
    }
}

impl StringCanvas {
    /// There is one state for each line.
    pub open spec fn wf(&self) -> bool {
        self@.wf()
    }

    /// A canvas made of what the generator drew: one column, one row and one
    /// coin for each line.  Each line stands where its two numbers say,
    /// heading right where its coin came up true, and moves one column a
    /// tick.  The canvas is made where there is one draw for each line and
    /// every draw lies in the box that lines start in, and only there.
    pub fn with_draws(
        lines: Vec<String>,
        screen_size: Vec2,
        draws: Vec<(usize, usize, bool)>,
    ) -> (made: Option<StringCanvas>)
        ensures
            made is Some <==> (draws@.len() == lines@.len() && forall|i: int|
                0 <= i < draws@.len() ==> is_in_box(#[trigger] draws@[i])),
            made matches Some(canvas) ==> canvas.wf() && canvas@ == (CanvasView {
                lines: lines.deep_view(),
                screen_size,
                states: Seq::new(draws@.len(), |i: int| placed(draws@[i])),
                shift: 1,
            }),
    {
        if draws.len() != lines.len() {
            return None;
        }
        let mut states: Vec<LineState> = Vec::new();
        let mut i: usize = 0;
        while i < draws.len()
            invariant
                i <= draws@.len(),
                states@.len() == i,
                forall|j: int| 0 <= j < i ==> is_in_box(#[trigger] draws@[j]),
                forall|j: int| 0 <= j < i ==> #[trigger] states@[j] == placed(draws@[j]),
            decreases draws@.len() - i,
        {
            let (column, row, coin) = draws[i];
            if column >= PLACEMENT_WIDTH || row >= PLACEMENT_HEIGHT {
                return None;
            }
            let direction = if coin {
                Direction::Right
            } else {
                Direction::Left
            };
            states.push(LineState { position: Vec2 { x: column, y: row }, direction });
            i += 1;
        }
        assert(states@ =~= Seq::new(draws@.len(), |i: int| placed(draws@[i])));
        Some(StringCanvas { lines, screen_size, states, shift: 1 })
    }

    /// Draws a column, a row and a fair coin for each of `count` lines, in
    /// the box that lines start in.
    fn random_draws(count: usize) -> (draws: Vec<(usize, usize, bool)>)
        ensures
            draws@.len() == count,
            forall|i: int| 0 <= i < draws@.len() ==> is_in_box(#[trigger] draws@[i]),
    {
        let mut rng = rand::thread_rng();
        let mut draws: Vec<(usize, usize, bool)> = Vec::new();
        let mut i: usize = 0;
        while i < count
            invariant
                i <= count,
                draws@.len() == i,
                forall|j: int| 0 <= j < draws@.len() ==> is_in_box(#[trigger] draws@[j]),
            decreases count - i,
        {
            let column: usize = gen_range(&mut rng, 0, PLACEMENT_WIDTH);
            let row: usize = gen_range(&mut rng, 0, PLACEMENT_HEIGHT);
            let coin: bool = gen_ratio(&mut rng, 1, 2);
            draws.push((column, row, coin));
            i += 1;
        }
        draws
    }

    /// A canvas for `lines`: for each line a column, a row and a fair coin
    /// are drawn at random, and the canvas is the one that `with_draws` makes
    /// of them.
    pub fn new(lines: Vec<String>, screen_size: Vec2) -> (canvas: StringCanvas)
        ensures
            canvas.wf(),
            canvas@.lines == lines.deep_view(),
            canvas@.screen_size == screen_size,
            canvas@.shift == 1,
            canvas@.states.len() == lines@.len(),
            forall|i: int| 0 <= i < canvas@.states.len() ==> is_initial(#[trigger] canvas@.states[i]),
    {
        let draws = Self::random_draws(lines.len());
        let made = Self::with_draws(lines, screen_size, draws);
        let canvas = made.unwrap();
        assert forall|i: int| 0 <= i < canvas@.states.len() implies is_initial(
            #[trigger] canvas@.states[i],
        ) by {
            assert(is_in_box(draws@[i]));
        }
        canvas
    }

    /// The lines, in the order of the text.
    pub fn lines(&self) -> (lines: &Vec<String>)
        ensures
            lines.deep_view() == self@.lines,
    {
        &self.lines
    }

    /// The state of each line, in the order of the lines.
    pub fn states(&self) -> (states: &Vec<LineState>)
        ensures
            states@ == self@.states,
    {
        &self.states
    }

    /// The size of the screen as the host last told it.
    pub fn screen_size(&self) -> (size: Vec2)
        ensures
            size == self@.screen_size,
    {
        self.screen_size
    }

    /// The number of columns that a line moves on a tick.
    pub fn shift(&self) -> (shift: usize)
        ensures
            shift == self@.shift,
    {
        self.shift
    }

    /// Takes note of a new screen size.  No line is moved: the size counts
    /// from the next tick on.
    pub fn set_size(&mut self, size: Vec2)
        ensures
            final(self)@ == (CanvasView { screen_size: size, ..old(self)@ }),
    {
        self.screen_size = size;
    }

    /// Makes every line move one column more on each tick from now on.
    pub fn move_text(&mut self)
        requires
            old(self)@.shift < usize::MAX,
        ensures
            final(self)@ == old(self)@.accelerated(),
    {
        self.shift = self.shift + 1;
    }

    /// Tests whether `advance_lines` may be called.
    pub fn can_advance_lines(&self) -> (ok: bool)
        requires
            self.wf(),
        ensures
            ok == self@.can_advance_lines(),
    {
        let mut i: usize = 0;
        while i < self.states.len()
            invariant
                self.wf(),
                i <= self.states@.len(),
                forall|j: int|
                    0 <= j < i ==> (#[trigger] self@.states[j]).can_advance(
                        self@.shift,
                        self@.screen_size.x as nat,
                        byte_len(self@.lines[j]),
                    ),
            decreases self.states@.len() - i,
        {
            let len: usize = self.lines[i].as_str().as_bytes().len();
            if !self.states[i].may_advance(self.shift, self.screen_size.x, len) {
                assert(!self@.states[i as int].can_advance(
                    self@.shift,
                    self@.screen_size.x as nat,
                    byte_len(self@.lines[i as int]),
                ));
                return false;
            }
            i += 1;
        }
        true
    }

    /// Tests whether `update` may be called.
    pub fn can_update(&self) -> (ok: bool)
        requires
            self.wf(),
        ensures
            ok == self@.can_update(),
    {
        self.shift < usize::MAX && self.can_advance_lines()
    }

    /// Moves every line by the shift as it stands, to the right or to the
    /// left as the line is heading, and turns it round where it has passed
    /// the right edge or reached column 0.  The shift stays as it is.
    pub fn advance_lines(&mut self)
        requires
            old(self).wf(),
            old(self)@.can_advance_lines(),
        ensures
            final(self).wf(),
            final(self)@ == old(self)@.lines_advanced(),
    {
        let mut i: usize = 0;
        while i < self.states.len()
            invariant
                self.wf(),
                i <= self.states@.len(),
                self@.lines == old(self)@.lines,
                self@.screen_size == old(self)@.screen_size,
                self@.shift == old(self)@.shift,
                self@.states.len() == old(self)@.states.len(),
                old(self)@.can_advance_lines(),
                forall|j: int|
                    0 <= j < i ==> self@.states[j] == (#[trigger] old(self)@.states[j]).advanced(
                        self@.shift,
                        self@.screen_size.x as nat,
                        byte_len(self@.lines[j]),
                    ),
                forall|j: int|
                    i <= j < self@.states.len() ==> self@.states[j] == #[trigger] old(
                        self,
                    )@.states[j],
            decreases self.states@.len() - i,
        {
            let len: usize = self.lines[i].as_str().as_bytes().len();
            assert(self@.states[i as int] == old(self)@.states[i as int]);
            let next = self.states[i].advance(self.shift, self.screen_size.x, len);
            self.states.set(i, next);
            i += 1;
        }
        assert(self@.states =~= old(self)@.lines_advanced().states);
    }

    /// One tick: every line moves by the shift as it stands, to the right or
    /// to the left as it is heading, and turns round where it has passed the
    /// right edge or reached column 0; then the shift grows by one, so that
    /// the lines go faster from tick to tick.
    ///
    /// A tick can be computed where `can_update` says so: no line heading
    /// right is longer than the screen is wide or would leave the range of
    /// `usize`, no line heading left would pass below column 0, and the shift
    /// can still grow.
    pub fn update(&mut self)
        requires
            old(self).wf(),
            old(self)@.can_update(),
        ensures
            final(self).wf(),
            final(self)@ == old(self)@.updated(),
    {
        self.advance_lines();
        self.move_text();
    }

    /// What there is to paint: every line at the place where it stands, in
    /// the order of the lines.  The canvas is read and left as it is.
    pub fn draw(&self) -> (strokes: Vec<Stroke<'_>>)
        requires
            self.wf(),
        ensures
            self@.paints(strokes@),
    {
        let mut strokes: Vec<Stroke<'_>> = Vec::new();
        let mut i: usize = 0;
        while i < self.lines.len()
            invariant
                self.wf(),
                i <= self.lines@.len(),
                strokes@.len() == i,
                forall|j: int| 0 <= j < i ==> (#[trigger] strokes@[j])@ == self@.picture()[j],
            decreases self.lines@.len() - i,
        {
            strokes.push(Stroke { position: self.states[i].position, text: self.lines[i].as_str() });
            i += 1;
        }
        assert(painted(strokes@) =~= self@.picture());
        strokes
    }

    /// The room that the canvas asks of its host, whatever the host offers:
    /// 300 columns and 300 rows.
    pub fn required_size(&mut self, _constraint: Vec2) -> (size: Vec2)
        ensures
            size == (Vec2 { x: 300, y: 300 }),
            *final(self) == *old(self),
    {
        Vec2 { x: 300, y: 300 }
    }
}

/// Whatever moves the lines leaves one state for each line, and the lines as
/// they were.
pub proof fn one_state_for_each_line_stays(canvas: CanvasView)
    requires
        canvas.wf(),
    ensures
        canvas.accelerated().wf(),
        canvas.lines_advanced().wf(),
        canvas.updated().wf(),
        canvas.lines_advanced().lines == canvas.lines,
        canvas.updated().lines == canvas.lines,
{
}

/// On a tick a line moves by the shift that the canvas held when the tick
/// began, whatever the other lines do, and stays in its row.
pub proof fn tick_moves_by_the_shift_on_entry(canvas: CanvasView, i: int)
    requires
        canvas.wf(),
        0 <= i < canvas.states.len(),
        canvas.states[i].can_advance(
            canvas.shift,
            canvas.screen_size.x as nat,
            byte_len(canvas.lines[i]),
        ),
    ensures
        canvas.states[i].direction == Direction::Right ==> canvas.updated().states[i].position.x
            == canvas.states[i].position.x + canvas.shift,
        canvas.states[i].direction == Direction::Left ==> canvas.updated().states[i].position.x
            == canvas.states[i].position.x - canvas.shift,
        canvas.updated().states[i].position.y == canvas.states[i].position.y,
        canvas.updated().shift == canvas.shift + 1,
{
}

/// On a tick a line heading right turns left if the column that it reaches
/// on that tick exceeds the width of the screen less the length of the
/// line, and heads right otherwise.  A line heading left turns right if the
/// column that it reaches on that tick is 0, and heads left otherwise; the
/// width of the screen plays no part in that.
pub proof fn tick_flips_at_the_edges(canvas: CanvasView, i: int)
    requires
        canvas.wf(),
        0 <= i < canvas.states.len(),
        canvas.states[i].can_advance(
            canvas.shift,
            canvas.screen_size.x as nat,
            byte_len(canvas.lines[i]),
        ),
    ensures
        canvas.states[i].direction == Direction::Right ==> (canvas.updated().states[i].direction
            == Direction::Left <==> canvas.updated().states[i].position.x > canvas.screen_size.x
            - byte_len(canvas.lines[i])),
        canvas.states[i].direction == Direction::Left ==> (canvas.updated().states[i].direction
            == Direction::Right <==> canvas.updated().states[i].position.x == 0),
{
}

/// A line heading right that stands on the screen with all its length, and
/// that a tick does not carry past the edge, still stands on the screen
/// with all its length after the tick, heading right.
pub proof fn tick_keeps_a_line_on_the_screen(canvas: CanvasView, i: int)
    requires
        canvas.wf(),
        0 <= i < canvas.states.len(),
        canvas.states[i].direction == Direction::Right,
        canvas.states[i].position.x + canvas.shift + byte_len(canvas.lines[i])
            <= canvas.screen_size.x,
    ensures
        canvas.states[i].can_advance(
            canvas.shift,
            canvas.screen_size.x as nat,
            byte_len(canvas.lines[i]),
        ),
        canvas.updated().states[i].direction == Direction::Right,
        canvas.updated().states[i].position.x + byte_len(canvas.lines[i])
            <= canvas.screen_size.x,
{
}

/// Two draws of one canvas, with no tick between them, paint the same texts
/// at the same places: a draw reads the canvas and leaves it as it is, and
/// what it hands out is fixed by the lines and by where they stand.
pub proof fn draw_twice_paints_the_same(canvas: StringCanvas, first: Seq<Stroke>, second: Seq<Stroke>)
    requires
        canvas.wf(),
        canvas@.paints(first),
        canvas@.paints(second),
    ensures
        painted(first) == painted(second),
        first.len() == second.len(),
        forall|i: int|
            0 <= i < first.len() ==> (#[trigger] first[i]).position == second[i].position
                && first[i].text@ == second[i].text@,
{
    assert(painted(first).len() == first.len());
    assert(painted(second).len() == second.len());
    assert forall|i: int| 0 <= i < first.len() implies (#[trigger] first[i]).position
        == second[i].position && first[i].text@ == second[i].text@ by {
        assert(painted(first)[i] == first[i]@);
        assert(painted(second)[i] == second[i]@);
    }
}

} // verus!
