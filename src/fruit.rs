use vstd::prelude::*;
use rand::Rng;
use crate::player::Player;

verus! {

/// How many fruit sprites there are; a fruit's variant is one of 1 to this.
pub const NUM_FRUIT: u8 = 6;

/// New fruit appears at this height, just above the top of the screen.
pub const FRUIT_START_Y: i64 = 38500;

/// New fruit appears at an x between minus this and this.
pub const SPAWN_HALF_WIDTH: i64 = 35000;

/// A fruit below this height has reached the floor.
pub const FLOOR_Y: i64 = -10000;

/// A fruit below this height and close enough to the catcher is caught.
pub const CATCH_Y: i64 = -5500;

/// How far, left or right of the catcher, a fruit can be and still be caught.
pub const CATCH_HALF_WIDTH: i64 = 5000;

/// The fall speed with no points scored, per fixed tick.
pub const BASE_SPEED: i64 = 200;

/// How much each point adds to the fall speed, per fixed tick.
pub const SPEED_PER_POINT: i64 = 3;

/// A falling fruit and which sprite shows it.
#[derive(Clone, Copy, Debug, PartialEq, Eq, Structural)]
pub struct Fruit {
    pub x: i64,
    pub y: i64,
    pub variant: u8,
}

impl Fruit {
    pub open spec fn wf(&self) -> bool {
        1 <= self.variant <= NUM_FRUIT
    }

    /// A new fruit at `x` above the top of the screen, drawn with sprite `variant`.
    pub fn spawn_at(x: i64, variant: u8) -> (r: Fruit)
        requires
            1 <= variant <= NUM_FRUIT,
        ensures
            r.wf(),
            r.x == x,
            r.y == FRUIT_START_Y,
            r.variant == variant,
    {
        Fruit { x, y: FRUIT_START_Y, variant }
    }
}

/// Relies on rand::thread_rng and rand::Rng::gen_range on an inclusive range:
/// the value drawn lies in the range, which must not be empty.
#[verifier::external_body]
fn draw_in_range(lo: i64, hi: i64) -> (r: i64)
    requires
        lo <= hi,
    ensures
        lo <= r <= hi,
{
    rand::thread_rng().gen_range(lo..=hi)
}

/// A new fruit above the top of the screen, at a random x within the spawn
/// width and with a random sprite.
pub fn spawn_fruit() -> (r: Fruit)
    ensures
        r.wf(),
        -SPAWN_HALF_WIDTH <= r.x <= SPAWN_HALF_WIDTH,
        r.y == FRUIT_START_Y,
{
    let variant = draw_in_range(1, NUM_FRUIT as i64);
    let x = draw_in_range(-SPAWN_HALF_WIDTH, SPAWN_HALF_WIDTH);
    Fruit::spawn_at(x, variant as u8)
}

/// The fall speed, per fixed tick, once `score` points have been scored.
pub open spec fn speed_of(score: nat) -> int {
    BASE_SPEED + SPEED_PER_POINT * score
}

/// The fall speed, per fixed tick, once `score` points have been scored.
pub fn fall_speed(score: u32) -> (r: i64)
    ensures
        r == speed_of(score as nat),
{
    BASE_SPEED + SPEED_PER_POINT * (score as i64)
}

/// The fall speed grows with the score and never shrinks.
pub proof fn lemma_fall_speed_monotonic(a: nat, b: nat)
    requires
        a <= b,
    ensures
        speed_of(a) <= speed_of(b),
        speed_of(0) == BASE_SPEED,
{
}

/// What becomes of a fruit in one fixed tick.
#[derive(Clone, Copy, Debug, PartialEq, Eq, Structural)]
pub enum Fate {
    /// It falls on.
    Falls,
    /// The catcher has it: it is removed and a point is scored.
    Caught,
    /// It has reached the floor: the game is over. It still falls.
    Lands,
}

/// Whether a fruit at `x` is within catching distance of a catcher at `player_x`.
pub open spec fn within_reach(x: int, player_x: int) -> bool {
    player_x - CATCH_HALF_WIDTH <= x <= player_x + CATCH_HALF_WIDTH
}

/// What becomes of `f` in one tick, with the catcher at `player_x`. The floor
/// is tested first.
pub open spec fn fate(f: Fruit, player_x: int) -> Fate {
    if f.y < FLOOR_Y {
        Fate::Lands
    } else if f.y < CATCH_Y && within_reach(f.x as int, player_x) {
        Fate::Caught
    } else {
        Fate::Falls
    }
}

/// `f` one fall of `speed` lower.
pub open spec fn fallen(f: Fruit, speed: int) -> Fruit {
    Fruit { y: (f.y - speed) as i64, ..f }
}

/// A bound on the catcher's x far beyond where it can go.
pub const PLAYER_LIMIT: i64 = 1000000;

/// What becomes of `f` in one fixed tick, with the catcher at `player_x`.
pub fn fruit_fate(f: &Fruit, player_x: i64) -> (r: Fate)
    requires
        -PLAYER_LIMIT <= player_x <= PLAYER_LIMIT,
    ensures
        r == fate(*f, player_x as int),
{
    if f.y < FLOOR_Y {
        Fate::Lands
    } else if f.y < CATCH_Y && player_x - CATCH_HALF_WIDTH <= f.x && f.x <= player_x
        + CATCH_HALF_WIDTH {
        Fate::Caught
    } else {
        Fate::Falls
    }
}

/// The fruit left after one tick of `fruits`, in order: every fruit but those
/// caught, each one fall of `speed` lower.
pub open spec fn survivors(fruits: Seq<Fruit>, player_x: int, speed: int) -> Seq<Fruit>
    decreases fruits.len(),
{
    if fruits.len() == 0 {
        Seq::empty()
    } else {
        let rest = survivors(fruits.drop_last(), player_x, speed);
        let f = fruits.last();
        if fate(f, player_x) == Fate::Caught {
            rest
        } else {
            rest.push(fallen(f, speed))
        }
    }
}

/// How many of `fruits` meet the fate `k` in one tick.
pub open spec fn count_fate(fruits: Seq<Fruit>, player_x: int, k: Fate) -> nat
    decreases fruits.len(),
{
    if fruits.len() == 0 {
        0
    } else {
        count_fate(fruits.drop_last(), player_x, k) + if fate(fruits.last(), player_x) == k {
            1nat
        } else {
            0nat
        }
    }
}

/// What one tick of fruit movement signals: one score event per fruit caught
/// and one game-over event per fruit that reached the floor.
#[derive(Clone, Copy, Debug, PartialEq, Eq, Structural)]
pub struct TickEvents {
    pub score_events: usize,
    pub game_over_events: usize,
}

impl TickEvents {
    /// No event.
    pub fn none() -> (r: TickEvents)
        ensures
            r.score_events == 0,
            r.game_over_events == 0,
    {
        TickEvents { score_events: 0, game_over_events: 0 }
    }
}

/// Whether every fruit can fall once more at `speed` and stay within `i64`.
pub open spec fn can_fall(fruits: Seq<Fruit>, speed: int) -> bool {
    forall|i: int| 0 <= i < fruits.len() ==> fruits[i].y - speed >= i64::MIN
}

/// One fixed tick of every fruit, with `score` points scored so far: a fruit
/// that has reached the floor signals game over, a fruit the catcher has is
/// removed and signals a point, and every fruit not removed falls.
pub fn fruit_movement(fruits: &mut Vec<Fruit>, player: &Player, score: u32) -> (r: TickEvents)
    requires
        player.wf(),
        can_fall(old(fruits)@, speed_of(score as nat)),
    ensures
        final(fruits)@ == survivors(old(fruits)@, player.x as int, speed_of(score as nat)),
        r.score_events == count_fate(old(fruits)@, player.x as int, Fate::Caught),
        r.game_over_events == count_fate(old(fruits)@, player.x as int, Fate::Lands),
{
    let speed = fall_speed(score);
    let ghost s = fruits@;
    let ghost px = player.x as int;
    let mut kept: Vec<Fruit> = Vec::new();
    let mut score_events: usize = 0;
    let mut game_over_events: usize = 0;
    let mut i: usize = 0;
    while i < fruits.len()
        invariant
            s == fruits@,
            px == player.x,
            player.wf(),
            speed == speed_of(score as nat),
            can_fall(s, speed as int),
            0 <= i <= s.len(),
            kept@ == survivors(s.take(i as int), px, speed as int),
            score_events == count_fate(s.take(i as int), px, Fate::Caught),
            game_over_events == count_fate(s.take(i as int), px, Fate::Lands),
            score_events <= i,
            game_over_events <= i,
        decreases s.len() - i,
    {
        let f = fruits[i];
        assert(s.take(i + 1).drop_last() =~= s.take(i as int));
        assert(s.take(i + 1).last() == f);
        let k = fruit_fate(&f, player.x);
        match k {
            Fate::Caught => {
                score_events = score_events + 1;
            },
            Fate::Lands => {
                game_over_events = game_over_events + 1;
                kept.push(Fruit { y: f.y - speed, ..f });
            },
            Fate::Falls => {
                kept.push(Fruit { y: f.y - speed, ..f });
            },
        }
        i = i + 1;
    }
    assert(s.take(s.len() as int) =~= s);
    *fruits = kept;
    TickEvents { score_events, game_over_events }
}

/// Each fruit moves on its own: a tick of two runs of fruit, one after the
/// other, is the tick of each run, one after the other, and the fruit of each
/// fate are those of the first run and those of the second.
pub proof fn lemma_tick_splits(a: Seq<Fruit>, b: Seq<Fruit>, player_x: int, speed: int, k: Fate)
    ensures
        survivors(a + b, player_x, speed) == survivors(a, player_x, speed) + survivors(
            b,
            player_x,
            speed,
        ),
        count_fate(a + b, player_x, k) == count_fate(a, player_x, k) + count_fate(b, player_x, k),
    decreases b.len(),
{
    if b.len() == 0 {
        assert(a + b =~= a);
        assert(survivors(a, player_x, speed) + survivors(b, player_x, speed) =~= survivors(
            a,
            player_x,
            speed,
        ));
    } else {
        lemma_tick_splits(a, b.drop_last(), player_x, speed, k);
        assert((a + b).drop_last() =~= a + b.drop_last());
        assert((a + b).last() == b.last());
        let f = b.last();
        if fate(f, player_x) != Fate::Caught {
            assert(survivors(a, player_x, speed) + survivors(b.drop_last(), player_x, speed).push(
                fallen(f, speed),
            ) =~= (survivors(a, player_x, speed) + survivors(b.drop_last(), player_x, speed)).push(
                fallen(f, speed),
            ));
        }
    }
}

/// The tick of `before`, then `f`, then `after`, for the fate `k`.
proof fn lemma_tick_around(
    before: Seq<Fruit>,
    f: Fruit,
    after: Seq<Fruit>,
    player_x: int,
    speed: int,
    k: Fate,
)
    ensures
        survivors(before + seq![f] + after, player_x, speed) == survivors(before, player_x, speed)
            + (if fate(f, player_x) == Fate::Caught {
            Seq::<Fruit>::empty()
        } else {
            seq![fallen(f, speed)]
        }) + survivors(after, player_x, speed),
        count_fate(before + seq![f] + after, player_x, k) == count_fate(before, player_x, k) + (if fate(
            f,
            player_x,
        ) == k {
            1nat
        } else {
            0nat
        }) + count_fate(after, player_x, k),
{
    lemma_tick_splits(before + seq![f], after, player_x, speed, k);
    lemma_tick_splits(before, seq![f], player_x, speed, k);
    assert(seq![f].drop_last() =~= Seq::<Fruit>::empty());
    assert(seq![f].last() == f);
    assert(survivors(Seq::<Fruit>::empty(), player_x, speed) == Seq::<Fruit>::empty());
    assert(count_fate(Seq::<Fruit>::empty(), player_x, k) == 0);
    assert(Seq::<Fruit>::empty().push(fallen(f, speed)) =~= seq![fallen(f, speed)]);
}

/// A fruit above the floor and within the catching height, but out of the
/// catcher's reach, falls on untouched whatever other fruit there is: it stays,
/// one fall lower, and signals nothing.
pub proof fn lemma_out_of_reach_falls(
    before: Seq<Fruit>,
    f: Fruit,
    after: Seq<Fruit>,
    player_x: int,
    speed: int,
)
    requires
        FLOOR_Y < f.y < CATCH_Y,
        !within_reach(f.x as int, player_x),
    ensures
        fate(f, player_x) == Fate::Falls,
        survivors(before + seq![f] + after, player_x, speed) == survivors(before, player_x, speed)
            + seq![fallen(f, speed)] + survivors(after, player_x, speed),
        count_fate(before + seq![f] + after, player_x, Fate::Caught) == count_fate(
            before,
            player_x,
            Fate::Caught,
        ) + count_fate(after, player_x, Fate::Caught),
        count_fate(before + seq![f] + after, player_x, Fate::Lands) == count_fate(
            before,
            player_x,
            Fate::Lands,
        ) + count_fate(after, player_x, Fate::Lands),
{
    lemma_tick_around(before, f, after, player_x, speed, Fate::Caught);
    lemma_tick_around(before, f, after, player_x, speed, Fate::Lands);
}

/// A fruit above the floor, below the catching height and within the
/// catcher's reach is removed and signals exactly one point, whatever other
/// fruit there is.
pub proof fn lemma_in_reach_caught(
    before: Seq<Fruit>,
    f: Fruit,
    after: Seq<Fruit>,
    player_x: int,
    speed: int,
)
    requires
        FLOOR_Y <= f.y < CATCH_Y,
        within_reach(f.x as int, player_x),
    ensures
        fate(f, player_x) == Fate::Caught,
        survivors(before + seq![f] + after, player_x, speed) == survivors(before, player_x, speed)
            + survivors(after, player_x, speed),
        count_fate(before + seq![f] + after, player_x, Fate::Caught) == count_fate(
            before,
            player_x,
            Fate::Caught,
        ) + 1 + count_fate(after, player_x, Fate::Caught),
        count_fate(before + seq![f] + after, player_x, Fate::Lands) == count_fate(
            before,
            player_x,
            Fate::Lands,
        ) + count_fate(after, player_x, Fate::Lands),
{
    lemma_tick_around(before, f, after, player_x, speed, Fate::Caught);
    lemma_tick_around(before, f, after, player_x, speed, Fate::Lands);
    assert(survivors(before, player_x, speed) + Seq::<Fruit>::empty() =~= survivors(
        before,
        player_x,
        speed,
    ));
}

/// A fruit below the floor signals exactly one game over, whatever other fruit
/// there is, and is not caught.
pub proof fn lemma_below_floor_lands(
    before: Seq<Fruit>,
    f: Fruit,
    after: Seq<Fruit>,
    player_x: int,
    speed: int,
)
    requires
        f.y < FLOOR_Y,
    ensures
        fate(f, player_x) == Fate::Lands,
        survivors(before + seq![f] + after, player_x, speed) == survivors(before, player_x, speed)
            + seq![fallen(f, speed)] + survivors(after, player_x, speed),
        count_fate(before + seq![f] + after, player_x, Fate::Lands) == count_fate(
            before,
            player_x,
            Fate::Lands,
        ) + 1 + count_fate(after, player_x, Fate::Lands),
        count_fate(before + seq![f] + after, player_x, Fate::Caught) == count_fate(
            before,
            player_x,
            Fate::Caught,
        ) + count_fate(after, player_x, Fate::Caught),
{
    lemma_tick_around(before, f, after, player_x, speed, Fate::Caught);
    lemma_tick_around(before, f, after, player_x, speed, Fate::Lands);
}

/// Splits `fruits` around its `i`-th fruit.
proof fn lemma_split_at(fruits: Seq<Fruit>, i: int)
    requires
        0 <= i < fruits.len(),
    ensures
        fruits == fruits.take(i) + seq![fruits[i]] + fruits.skip(i + 1),
{
    assert(fruits =~= fruits.take(i) + seq![fruits[i]] + fruits.skip(i + 1));
}

/// A tick in which some fruit is caught signals at least one score event.
pub proof fn lemma_catch_signals_score(fruits: Seq<Fruit>, i: int, player_x: int, speed: int)
    requires
        0 <= i < fruits.len(),
        FLOOR_Y <= fruits[i].y < CATCH_Y,
        within_reach(fruits[i].x as int, player_x),
    ensures
        count_fate(fruits, player_x, Fate::Caught) >= 1,
        survivors(fruits, player_x, speed).len() < fruits.len(),
{
    lemma_split_at(fruits, i);
    lemma_in_reach_caught(fruits.take(i), fruits[i], fruits.skip(i + 1), player_x, speed);
    lemma_survivors_len(fruits.take(i), player_x, speed);
    lemma_survivors_len(fruits.skip(i + 1), player_x, speed);
}

/// A tick in which some fruit is below the floor signals at least one
/// game-over event.
pub proof fn lemma_floor_signals_game_over(fruits: Seq<Fruit>, i: int, player_x: int, speed: int)
    requires
        0 <= i < fruits.len(),
        fruits[i].y < FLOOR_Y,
    ensures
        count_fate(fruits, player_x, Fate::Lands) >= 1,
{
    lemma_split_at(fruits, i);
    lemma_below_floor_lands(fruits.take(i), fruits[i], fruits.skip(i + 1), player_x, speed);
}

/// A tick never adds fruit.
proof fn lemma_survivors_len(fruits: Seq<Fruit>, player_x: int, speed: int)
    ensures
        survivors(fruits, player_x, speed).len() <= fruits.len(),
    decreases fruits.len(),
{
    if fruits.len() > 0 {
        lemma_survivors_len(fruits.drop_last(), player_x, speed);
    }
}

} // verus!
