use vstd::prelude::*;
use crate::fruit::{
    Fate, Fruit, fallen, fate, TickEvents, can_fall, count_fate, fruit_movement, spawn_fruit, speed_of,
    survivors, FRUIT_START_Y, SPAWN_HALF_WIDTH,
};
use crate::player::{Player, PlayerInput, player_movement, player_step, PLAYER_Y};
use crate::score::{Score, score_text};

verus! {

/// Whether the game goes on. `Over` is final: nothing moves any more.
#[derive(Clone, Copy, Debug, PartialEq, Eq, Structural)]
pub enum GameState {
    Running,
    Over,
}

/// Everything one game holds: the catcher, the keys held, the fruit in the
/// air, the score and whether the game goes on.
pub struct Game {
    pub player: Player,
    pub input: PlayerInput,
    pub fruits: Vec<Fruit>,
    pub score: Score,
    pub state: GameState,
}

impl Game {
    pub open spec fn wf(&self) -> bool {
        &&& self.player.wf()
        &&& self.score.wf()
        &&& forall|i: int| 0 <= i < self.fruits@.len() ==> (#[trigger] self.fruits@[i]).wf()
    }

    /// Whether every fruit can take one more fall at the current speed
    /// without leaving the range of `i64`.
    pub open spec fn can_tick(&self) -> bool {
        can_fall(self.fruits@, speed_of(self.score.score as nat))
    }

    /// A new game: the catcher in the middle, no key held, no fruit, a score
    /// of zero on display.
    pub fn setup() -> (r: Game)
        ensures
            r.wf(),
            r.player.x == 0,
            r.player.y == PLAYER_Y,
            !r.input.move_left,
            !r.input.move_right,
            r.fruits@.len() == 0,
            r.score.score == 0,
            r.score.text@ == score_text(0),
            r.state == GameState::Running,
    {
        Game {
            player: Player::new(),
            input: PlayerInput::default(),
            fruits: Vec::new(),
            score: Score::default(),
            state: GameState::Running,
        }
    }

    /// Whether the game is over.
    pub fn is_over(&self) -> (r: bool)
        ensures
            r == (self.state == GameState::Over),
    {
        match self.state {
            GameState::Running => false,
            GameState::Over => true,
        }
    }

    /// Records which movement keys are held.
    pub fn get_input(&mut self, left_pressed: bool, right_pressed: bool)
        ensures
            final(self).input.move_left == left_pressed,
            final(self).input.move_right == right_pressed,
            final(self).player == old(self).player,
            final(self).fruits@ == old(self).fruits@,
            final(self).score == old(self).score,
            final(self).state == old(self).state,
    {
        self.input.get_input(left_pressed, right_pressed);
    }

    /// Whether the next fixed tick can be taken: see `can_tick`.
    pub fn tick_fits(&self) -> (r: bool)
        ensures
            r == self.can_tick(),
    {
        let speed = crate::fruit::fall_speed(self.score.score);
        let mut i: usize = 0;
        while i < self.fruits.len()
            invariant
                0 <= i <= self.fruits@.len(),
                speed == speed_of(self.score.score as nat),
                forall|j: int| 0 <= j < i ==> self.fruits@[j].y - speed >= i64::MIN,
            decreases self.fruits@.len() - i,
        {
            if self.fruits[i].y < i64::MIN + speed {
                return false;
            }
            i = i + 1;
        }
        true
    }

    /// One fixed tick: the catcher moves by the held keys, then every fruit
    /// moves against the catcher's new place. Once the game is over, nothing
    /// changes and nothing is signalled.
    pub fn fixed_update(&mut self) -> (r: TickEvents)
        requires
            old(self).wf(),
            old(self).can_tick(),
        ensures
            final(self).wf(),
            final(self).input == old(self).input,
            final(self).score == old(self).score,
            final(self).state == old(self).state,
            old(self).state == GameState::Over ==> {
                &&& final(self).player == old(self).player
                &&& final(self).fruits@ == old(self).fruits@
                &&& r.score_events == 0
                &&& r.game_over_events == 0
            },
            old(self).state == GameState::Running ==> {
                let px = final(self).player.x as int;
                let speed = speed_of(old(self).score.score as nat);
                &&& px == player_step(
                    old(self).player.x as int,
                    old(self).input.move_left,
                    old(self).input.move_right,
                )
                &&& final(self).player.y == old(self).player.y
                &&& final(self).fruits@ == survivors(old(self).fruits@, px, speed)
                &&& r.score_events == count_fate(old(self).fruits@, px, Fate::Caught)
                &&& r.game_over_events == count_fate(old(self).fruits@, px, Fate::Lands)
            },
    {
        if self.is_over() {
            return TickEvents::none();
        }
        player_movement(&mut self.player, &self.input);
        let ghost before = self.fruits@;
        let r = fruit_movement(&mut self.fruits, &self.player, self.score.score);
        proof {
            lemma_survivors_wf(before, self.player.x as int, speed_of(self.score.score as nat));
        }
        r
    }

    /// Takes in what the fixed ticks since the last call signalled: one point
    /// if any score event came, however many did, and the end of the game if
    /// any game-over event came.
    pub fn update(&mut self, events: TickEvents)
        requires
            old(self).wf(),
            events.score_events > 0 ==> old(self).score.score < u32::MAX,
        ensures
            final(self).wf(),
            final(self).score.score == old(self).score.score + if events.score_events > 0 {
                1int
            } else {
                0int
            },
            events.score_events == 0 ==> final(self).score.text@ == old(self).score.text@,
            final(self).state == if events.game_over_events > 0 {
                GameState::Over
            } else {
                old(self).state
            },
            final(self).player == old(self).player,
            final(self).input == old(self).input,
            final(self).fruits@ == old(self).fruits@,
    {
        self.score.score_increase(events.score_events > 0);
        self.game_over(events.game_over_events > 0);
    }

    /// Ends the game if a game-over event was queued. The end is final.
    pub fn game_over(&mut self, event_queued: bool)
        ensures
            final(self).state == if event_queued {
                GameState::Over
            } else {
                old(self).state
            },
            final(self).player == old(self).player,
            final(self).input == old(self).input,
            final(self).fruits@ == old(self).fruits@,
            final(self).score == old(self).score,
    {
        if event_queued {
            self.state = GameState::Over;
        }
    }

    /// Drops one new fruit from above the top of the screen, at a random x
    /// and with a random sprite, unless the game is over.
    pub fn spawn_fruit(&mut self)
        requires
            old(self).wf(),
        ensures
            final(self).wf(),
            final(self).player == old(self).player,
            final(self).input == old(self).input,
            final(self).score == old(self).score,
            final(self).state == old(self).state,
            old(self).state == GameState::Over ==> final(self).fruits@ == old(self).fruits@,
            old(self).state == GameState::Running ==> {
                &&& final(self).fruits@.len() == old(self).fruits@.len() + 1
                &&& final(self).fruits@.drop_last() == old(self).fruits@
                &&& final(self).fruits@.last().wf()
                &&& final(self).fruits@.last().y == FRUIT_START_Y
                &&& -SPAWN_HALF_WIDTH <= final(self).fruits@.last().x <= SPAWN_HALF_WIDTH
            },
            old(self).can_tick() ==> final(self).can_tick(),
    {
        if self.is_over() {
            return;
        }
        let f = spawn_fruit();
        self.fruits.push(f);
        assert(self.fruits@.drop_last() =~= old(self).fruits@);
    }
}

/// The fruit left after a tick are all well formed if they were before.
proof fn lemma_survivors_wf(fruits: Seq<Fruit>, player_x: int, speed: int)
    requires
        forall|i: int| 0 <= i < fruits.len() ==> (#[trigger] fruits[i]).wf(),
    ensures
        forall|i: int|
            0 <= i < survivors(fruits, player_x, speed).len() ==> (#[trigger] survivors(
                fruits,
                player_x,
                speed,
            )[i]).wf(),
    decreases fruits.len(),
{
    if fruits.len() > 0 {
        let d = fruits.drop_last();
        assert forall|i: int| 0 <= i < d.len() implies (#[trigger] d[i]).wf() by {
            assert(d[i] == fruits[i]);
        }
        lemma_survivors_wf(d, player_x, speed);
        let rest = survivors(d, player_x, speed);
        let f = fruits[fruits.len() - 1];
        assert(f.wf());
        if fate(f, player_x) != Fate::Caught {
            let all = rest.push(fallen(f, speed));
            assert forall|i: int| 0 <= i < all.len() implies (#[trigger] all[i]).wf() by {
                if i < rest.len() {
                    assert(all[i] == rest[i]);
                }
            }
        }
    }
}

} // verus!
