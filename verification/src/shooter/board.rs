//! What is drawn where: the field with the turret, the bullets and the
//! enemies, and the panel beside it.

use vstd::pervasive::unreached;
use vstd::prelude::*;
use crate::renderer::changes::CellWrite;
use crate::renderer::scene::{scene_of, Placed};
use crate::renderer::types::object::{
    grid, sprite_of_yaml, Location, MalformedSprite, Representation, Sprite,
};
use crate::renderer::types::renderer::Renderer;
use crate::shooter::S_SIZE;

verus! {

/// The character of the decimal digit `d`.
pub open spec fn digit(d: int) -> char {
    seq!['0', '1', '2', '3', '4', '5', '6', '7', '8', '9'][d]
}

/// The decimal digits of `n`, the most significant first, without leading
/// zeros.
pub open spec fn decimal(n: nat) -> Seq<char>
    decreases n,
{
    if n < 10 {
        seq![digit(n as int)]
    } else {
        decimal(n / 10).push(digit((n % 10) as int))
    }
}

/// The number that a row of decimal digits stands for.
pub open spec fn number_of(digits: Seq<char>) -> nat
    decreases digits.len(),
{
    if digits.len() == 0 {
        0
    } else {
        (number_of(digits.drop_last()) * 10 + (digits.last() as nat - '0' as nat)) as nat
    }
}

/// The decimal digits of a number are digits, start with a zero only for
/// zero itself, and stand for that number.
pub proof fn lemma_decimal_reads_back(n: nat)
    ensures
        decimal(n).len() >= 1,
        forall|i: int| 0 <= i < decimal(n).len() ==> '0' <= #[trigger] decimal(n)[i] <= '9',
        decimal(n)[0] == '0' <==> n == 0,
        number_of(decimal(n)) == n,
    decreases n,
{
    let digits = decimal(n);
    if n < 10 {
        assert(digits.drop_last() =~= Seq::empty());
        assert(number_of(digits.drop_last()) == 0);
    } else {
        lemma_decimal_reads_back(n / 10);
        assert(digits.drop_last() =~= decimal(n / 10));
    }
}

/// The character of a decimal digit.
fn digit_char(d: u16) -> (c: char)
    requires
        d < 10,
    ensures
        c == digit(d as int),
{
    match d {
        0 => '0',
        1 => '1',
        2 => '2',
        3 => '3',
        4 => '4',
        5 => '5',
        6 => '6',
        7 => '7',
        8 => '8',
        _ => '9',
    }
}

/// Writes `n` in decimal digits.
pub fn decimal_digits(n: u16) -> (digits: Vec<char>)
    ensures
        digits@ == decimal(n as nat),
        digits.len() > 0,
    decreases n,
{
    if n < 10 {
        let mut digits: Vec<char> = Vec::new();
        digits.push(digit_char(n));
        assert(digits@ =~= seq![digit(n as int)]);
        digits
    } else {
        let mut digits = decimal_digits(n / 10);
        digits.push(digit_char(n % 10));
        digits
    }
}

/// Reads the sprite that `contents` describes in YAML, puts it at the end
/// of `views` and returns its number there. If the description is faulty,
/// `views` stays as it is.
pub fn load_view(contents: &str, views: &mut Vec<Representation>) -> (r: Result<
    usize,
    MalformedSprite,
>)
    ensures
        match r {
            Ok(index) => {
                &&& index == old(views).len()
                &&& final(views).len() == index + 1
                &&& final(views)@.take(index as int) == old(views)@
                &&& sprite_of_yaml(contents@) == Ok::<Sprite, MalformedSprite>(final(views)[index as int]@)
            },
            Err(fault) => {
                &&& sprite_of_yaml(contents@) == Err::<Sprite, MalformedSprite>(fault)
                &&& final(views)@ == old(views)@
            },
        },
{
    match Representation::from_yaml(contents) {
        Ok(view) => {
            views.push(view);
            assert(views@.take(views.len() - 1) =~= old(views)@);
            Ok(views.len() - 1)
        },
        Err(fault) => Err(fault),
    }
}

/// What is to be drawn.
#[derive(Debug)]
pub struct Board {
    /// Where the turret stands.
    pub turret: Location,
    /// The number of the sprite of the turret.
    pub turret_view: usize,
    /// The number of the sprite of a bullet.
    pub bullet_view: usize,
    /// Where the bullets in flight are.
    pub bullets: Vec<Location>,
    /// The number of the sprite of an enemy.
    pub enemy_view: usize,
    /// Where the enemies are.
    pub enemies: Vec<Location>,
    /// Bullets in stock.
    pub ammo: u8,
    /// Enemies shot.
    pub score: u16,
}

/// Why a board could not be drawn.
#[derive(Clone, Copy, Debug, PartialEq, Eq, Structural)]
pub enum RenderError {
    /// There is no sprite with the number `index`.
    NoSuchView { index: usize },
}

/// The wall between the field and the panel: two bars wide, as high as the
/// field.
pub open spec fn wall() -> Sprite {
    Sprite { transparent: ' ', cells: Seq::new(S_SIZE.1 as nat, |row: int| seq!['|', '|']) }
}

/// A line of text as a sprite.
pub open spec fn label(text: Seq<char>) -> Sprite {
    Sprite { transparent: ' ', cells: seq![text] }
}

/// Where the bullet number `i` of the stock is shown on the panel.
pub open spec fn stock_place(i: int) -> Location {
    Location { x: (S_SIZE.0 + 13 + i) as i32, y: (S_SIZE.1 - 3) as i32 }
}

/// Where bullets are drawn: those in flight, then those in stock.
pub open spec fn bullet_places(board: Board) -> Seq<Location> {
    board.bullets@ + Seq::new(board.ammo as nat, |i: int| stock_place(i))
}

/// One sprite at each of the places.
pub open spec fn all_at(places: Seq<Location>, sprite: Sprite) -> Seq<Placed> {
    places.map_values(|at: Location| Placed { at, sprite })
}

/// What is always drawn: the turret, the wall, the two labels of the panel
/// and the score.
pub open spec fn fixtures(board: Board, views: Seq<Sprite>) -> Seq<Placed> {
    seq![
        Placed { at: board.turret, sprite: views[board.turret_view as int] },
        Placed { at: Location { x: (S_SIZE.0 + 1) as i32, y: 0 }, sprite: wall() },
        Placed {
            at: Location { x: (S_SIZE.0 + 7) as i32, y: (S_SIZE.1 - 3) as i32 },
            sprite: label(seq!['A', 'M', 'M', 'O', ':']),
        },
        Placed {
            at: Location { x: (S_SIZE.0 + 9) as i32, y: 2 },
            sprite: label(seq!['S', 'C', 'O', 'R', 'E', ':']),
        },
        Placed {
            at: Location { x: (S_SIZE.0 + 9) as i32, y: 3 },
            sprite: label(decimal(board.score as nat)),
        },
    ]
}

/// The scene that shows the board: what is always drawn, then the bullets,
/// then the enemies. `views` holds the sprites by number.
pub open spec fn scene(board: Board, views: Seq<Sprite>) -> Seq<Placed> {
    fixtures(board, views) + all_at(bullet_places(board), views[board.bullet_view as int]) + all_at(
        board.enemies@,
        views[board.enemy_view as int],
    )
}

/// The first sprite number that the scene needs and that `count` sprites do
/// not have: that of the turret, that of the bullets if there is any bullet
/// to draw, or that of the enemies if there is any enemy.
pub open spec fn missing_view(board: Board, count: nat) -> Option<usize> {
    if board.turret_view >= count {
        Some(board.turret_view)
    } else if bullet_places(board).len() > 0 && board.bullet_view >= count {
        Some(board.bullet_view)
    } else if board.enemies@.len() > 0 && board.enemy_view >= count {
        Some(board.enemy_view)
    } else {
        None
    }
}

/// The sprites of a list as mathematical values.
pub open spec fn sprites(views: Seq<Representation>) -> Seq<Sprite> {
    views.map_values(|view: Representation| view@)
}

/// A sprite of one line of text.
fn label_view(text: Vec<char>) -> (view: Representation)
    requires
        text.len() > 0,
    ensures
        view@ == label(text@),
{
    let mut data: Vec<Vec<char>> = Vec::new();
    data.push(text);
    assert(grid(data) =~= seq![text@]);
    assert(grid(data)[0] == text@);
    match Representation::new(' ', data) {
        Ok(view) => view,
        Err(_) => unreached(),
    }
}

/// The sprite of the wall.
fn wall_view() -> (view: Representation)
    ensures
        view@ == wall(),
{
    let mut data: Vec<Vec<char>> = Vec::new();
    let mut row: u16 = 0;
    while row < S_SIZE.1
        invariant
            row <= S_SIZE.1,
            data.len() == row,
            forall|k: int| 0 <= k < row ==> (#[trigger] data[k])@ == seq!['|', '|'],
        decreases S_SIZE.1 - row,
    {
        let mut bars: Vec<char> = Vec::new();
        bars.push('|');
        bars.push('|');
        assert(bars@ =~= seq!['|', '|']);
        data.push(bars);
        row = row + 1;
    }
    assert(grid(data) =~= wall().cells);
    assert(grid(data)[0] == data[0]@);
    match Representation::new(' ', data) {
        Ok(view) => view,
        Err(_) => unreached(),
    }
}

/// Stages the frame that shows `board` and returns the writes that make
/// the terminal show it. `views` holds the sprites by number.
///
/// Fails, and leaves the renderer as it is, if a sprite that the scene
/// needs is not among `views`.
pub fn render(board: &Board, views: &Vec<Representation>, renderer: &mut Renderer) -> (r: Result<
    Vec<CellWrite>,
    RenderError,
>)
    ensures
        match r {
            Ok(writes) => {
                &&& missing_view(*board, views@.len()) is None
                &&& (final(renderer)@, writes@) == old(renderer)@.render(
                    scene(*board, sprites(views@)),
                )
            },
            Err(RenderError::NoSuchView { index }) => {
                &&& missing_view(*board, views@.len()) == Some(index)
                &&& final(renderer)@ == old(renderer)@
            },
        },
{
    if board.turret_view >= views.len() {
        return Err(RenderError::NoSuchView { index: board.turret_view });
    }
    if (board.bullets.len() > 0 || board.ammo > 0) && board.bullet_view >= views.len() {
        return Err(RenderError::NoSuchView { index: board.bullet_view });
    }
    if board.enemies.len() > 0 && board.enemy_view >= views.len() {
        return Err(RenderError::NoSuchView { index: board.enemy_view });
    }
    let ghost expected = scene(*board, sprites(views@));

    let wall_view = wall_view();

    let mut ammo_text: Vec<char> = Vec::new();
    ammo_text.push('A');
    ammo_text.push('M');
    ammo_text.push('M');
    ammo_text.push('O');
    ammo_text.push(':');
    assert(ammo_text@ =~= seq!['A', 'M', 'M', 'O', ':']);
    let bullets_label_view = label_view(ammo_text);
    let bullets_label_location = Location { x: (S_SIZE.0 + 7) as i32, y: (S_SIZE.1 - 3) as i32 };

    let mut score_text: Vec<char> = Vec::new();
    score_text.push('S');
    score_text.push('C');
    score_text.push('O');
    score_text.push('R');
    score_text.push('E');
    score_text.push(':');
    assert(score_text@ =~= seq!['S', 'C', 'O', 'R', 'E', ':']);
    let score_label_view = label_view(score_text);
    let score_label_location = Location { x: (S_SIZE.0 + 9) as i32, y: 2 };

    let score_view = label_view(decimal_digits(board.score));
    let score_location = Location { x: (S_SIZE.0 + 9) as i32, y: 3 };

    let wall_location = Location { x: (S_SIZE.0 + 1) as i32, y: 0 };

    let mut bullets_locations: Vec<Location> = Vec::new();
    let mut i: usize = 0;
    while i < board.bullets.len()
        invariant
            i <= board.bullets.len(),
            bullets_locations@ == board.bullets@.take(i as int),
        decreases board.bullets.len() - i,
    {
        bullets_locations.push(board.bullets[i]);
        assert(bullets_locations@ =~= board.bullets@.take(i + 1));
        i = i + 1;
    }
    assert(board.bullets@.take(board.bullets.len() as int) =~= board.bullets@);
    let mut n: u8 = 0;
    while n < board.ammo
        invariant
            n <= board.ammo,
            bullets_locations@ == board.bullets@ + Seq::new(n as nat, |i: int| stock_place(i)),
        decreases board.ammo - n,
    {
        let x = S_SIZE.0 + 13;
        let y = S_SIZE.1 - 3;
        bullets_locations.push(Location { x: x as i32 + n as i32, y: y as i32 });
        assert(bullets_locations@ =~= board.bullets@ + Seq::new(
            (n + 1) as nat,
            |i: int| stock_place(i),
        ));
        n = n + 1;
    }
    assert(bullets_locations@ == bullet_places(*board));

    let mut render_queue: Vec<(&Location, &Representation)> = Vec::new();
    render_queue.push((&board.turret, &views[board.turret_view]));
    render_queue.push((&wall_location, &wall_view));
    render_queue.push((&bullets_label_location, &bullets_label_view));
    render_queue.push((&score_label_location, &score_label_view));
    render_queue.push((&score_location, &score_view));
    assert(scene_of(render_queue@) =~= fixtures(*board, sprites(views@)));

    let mut i: usize = 0;
    while i < bullets_locations.len()
        invariant
            i <= bullets_locations.len(),
            bullets_locations@ == bullet_places(*board),
            bullets_locations.len() > 0 ==> board.bullet_view < views.len(),
            scene_of(render_queue@) == fixtures(*board, sprites(views@)) + all_at(
                bullets_locations@.take(i as int),
                sprites(views@)[board.bullet_view as int],
            ),
        decreases bullets_locations.len() - i,
    {
        let ghost before = scene_of(render_queue@);
        render_queue.push((&bullets_locations[i], &views[board.bullet_view]));
        assert(scene_of(render_queue@) =~= before.push(
            Placed { at: bullets_locations[i as int], sprite: views[board.bullet_view as int]@ },
        ));
        assert(scene_of(render_queue@) =~= fixtures(*board, sprites(views@)) + all_at(
            bullets_locations@.take(i + 1),
            sprites(views@)[board.bullet_view as int],
        ));
        i = i + 1;
    }
    assert(bullets_locations@.take(bullets_locations.len() as int) =~= bullets_locations@);

    let mut i: usize = 0;
    while i < board.enemies.len()
        invariant
            i <= board.enemies.len(),
            board.enemies.len() > 0 ==> board.enemy_view < views.len(),
            scene_of(render_queue@) == fixtures(*board, sprites(views@)) + all_at(
                bullet_places(*board),
                sprites(views@)[board.bullet_view as int],
            ) + all_at(board.enemies@.take(i as int), sprites(views@)[board.enemy_view as int]),
        decreases board.enemies.len() - i,
    {
        let ghost before = scene_of(render_queue@);
        render_queue.push((&board.enemies[i], &views[board.enemy_view]));
        assert(scene_of(render_queue@) =~= before.push(
            Placed { at: board.enemies[i as int], sprite: views[board.enemy_view as int]@ },
        ));
        assert(scene_of(render_queue@) =~= fixtures(*board, sprites(views@)) + all_at(
            bullet_places(*board),
            sprites(views@)[board.bullet_view as int],
        ) + all_at(board.enemies@.take(i + 1), sprites(views@)[board.enemy_view as int]));
        i = i + 1;
    }
    assert(board.enemies@.take(board.enemies.len() as int) =~= board.enemies@);

    Ok(renderer.render(&render_queue))
}

} // verus!
