use vstd::prelude::*;

verus! {

/// Hundredths of a screen unit in one unit.
pub const UNIT: i64 = 100;

/// The catcher only steps further out while it is strictly inside this bound.
pub const PLAYER_BOUND: i64 = 34000;

/// How far the catcher moves in one fixed tick.
pub const PLAYER_STEP: i64 = 750;

/// The height at which the catcher stands.
pub const PLAYER_Y: i64 = -10000;

/// Which of the two movement keys are held, as last sampled.
pub struct PlayerInput {
    pub move_left: bool,
    pub move_right: bool,
}

impl PlayerInput {
    /// No key held.
    pub fn default() -> (r: PlayerInput)
        ensures
            !r.move_left,
            !r.move_right,
    {
        PlayerInput { move_left: false, move_right: false }
    }

    /// Stores the state of the left and right keys for the next movement step.
    pub fn get_input(&mut self, left_pressed: bool, right_pressed: bool)
        ensures
            final(self).move_left == left_pressed,
            final(self).move_right == right_pressed,
    {
        self.move_left = left_pressed;
        self.move_right = right_pressed;
    }
}

/// The catcher.
pub struct Player {
    pub x: i64,
    pub y: i64,
}

/// Where the catcher can ever be: a step that starts inside the bound ends
/// less than one step beyond it.
pub open spec fn player_x_reachable(x: int) -> bool {
    -(PLAYER_BOUND + PLAYER_STEP) <= x <= PLAYER_BOUND + PLAYER_STEP
}

/// The catcher's x after one tick: a step left if the left key is held and the
/// catcher is right of the left bound, then, from there, a step right if the
/// right key is held and the catcher is left of the right bound. Holding both
/// keys cancels out.
pub open spec fn player_step(x: int, left: bool, right: bool) -> int {
    let after_left = if left && x > -PLAYER_BOUND { x - PLAYER_STEP } else { x };
    if right && after_left < PLAYER_BOUND { after_left + PLAYER_STEP } else { after_left }
}

impl Player {
    pub open spec fn wf(&self) -> bool {
        player_x_reachable(self.x as int)
    }

    /// The catcher at the start of a game, in the middle of the screen.
    pub fn new() -> (r: Player)
        ensures
            r.wf(),
            r.x == 0,
            r.y == PLAYER_Y,
    {
        Player { x: 0, y: PLAYER_Y }
    }
}

/// Moves the catcher by one fixed tick of the held keys.
pub fn player_movement(player: &mut Player, input: &PlayerInput)
    requires
        old(player).wf(),
    ensures
        final(player).wf(),
        final(player).x == player_step(old(player).x as int, input.move_left, input.move_right),
        final(player).y == old(player).y,
{
    if input.move_left && player.x > -PLAYER_BOUND {
        player.x = player.x - PLAYER_STEP;
    }
    // two separate tests, so that holding both keys cancels out
    if input.move_right && player.x < PLAYER_BOUND {
        player.x = player.x + PLAYER_STEP;
    }
}

/// A movement step never takes the catcher out of its reachable range.
pub proof fn lemma_player_stays_reachable(x: int, left: bool, right: bool)
    requires
        player_x_reachable(x),
    ensures
        player_x_reachable(player_step(x, left, right)),
{
}

/// From within the bounds, a movement step keeps the catcher within them,
/// whatever keys are held, except for a lone step toward a wall that starts
/// strictly inside the bound but less than one step away from it.
pub proof fn lemma_player_within_bounds(x: int, left: bool, right: bool)
    requires
        -PLAYER_BOUND <= x <= PLAYER_BOUND,
        left && !right ==> (x <= -PLAYER_BOUND || x - PLAYER_STEP >= -PLAYER_BOUND),
        right && !left ==> (x >= PLAYER_BOUND || x + PLAYER_STEP <= PLAYER_BOUND),
    ensures
        -PLAYER_BOUND <= player_step(x, left, right) <= PLAYER_BOUND,
{
}

} // verus!
