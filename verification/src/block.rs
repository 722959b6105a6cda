//! A falling block: when it was spawned, how long it waits before it
//! starts to bounce, and the motion parameters it was spawned with.

use crate::clock::{clock_now, Timestamp};
use vstd::prelude::*;
use vstd::string::StringExecFns;

verus! {

/// A random draw from `[0, 1)` is a fraction of this denominator, two to
/// the power of 53.
pub open spec fn draw_scale() -> nat {
    0x20_0000_0000_0000
}

/// The numerator of the uniform draw that a random 64-bit word stands
/// for: its upper 53 bits.
pub open spec fn unit_draw(word: u64) -> nat {
    word as nat / 2048
}

/// The milliseconds of the bounce-start delay that two random words
/// give: a thousand times the product of their two draws from `[0, 1)`,
/// whole milliseconds only.
pub open spec fn bounce_delay_millis(first: u64, second: u64) -> nat {
    (1000 * (unit_draw(first) * unit_draw(second))) / (draw_scale() * draw_scale())
}

/// Computes the bounce-start delay, in milliseconds, from two random
/// words.
pub fn bounce_delay_from_draws(first: u64, second: u64) -> (millis: u16)
    ensures
        millis == bounce_delay_millis(first, second),
        millis < 1000,
{
    let a: u128 = (first / 2048) as u128;
    let b: u128 = (second / 2048) as u128;
    assert(a * b < 0x400_0000_0000_0000_0000_0000_0000) by (nonlinear_arith)
        requires
            0 <= a < 0x20_0000_0000_0000,
            0 <= b < 0x20_0000_0000_0000,
    ;
    assert(draw_scale() * draw_scale() == 0x400_0000_0000_0000_0000_0000_0000);
    let product: u128 = a * b;
    let millis: u128 = (1000 * product) / 0x400_0000_0000_0000_0000_0000_0000;
    millis as u16
}

/// The mathematical value of a block.
pub struct BlockView<V> {
    pub creation_time: Timestamp,
    /// In milliseconds.
    pub bounce_start_delay: nat,
    pub initial_x_velocity: V,
    pub initial_y_velocity: V,
    pub color: Seq<char>,
    pub gravity: V,
}

/// The block that is spawned at `now` with the random words `first` and
/// `second`.
pub open spec fn spawned<V>(
    now: Timestamp,
    first: u64,
    second: u64,
    x_vel: V,
    y_vel: V,
    color: Seq<char>,
    gravity: V,
) -> BlockView<V> {
    BlockView {
        creation_time: now,
        bounce_start_delay: bounce_delay_millis(first, second),
        initial_x_velocity: x_vel,
        initial_y_velocity: y_vel,
        color,
        gravity,
    }
}

/// One falling block. `V` is the number type of its velocities and of
/// its gravity, which the block stores and never computes with. A block
/// does not change once it is made.
pub struct Block<V> {
    creation_time: Timestamp,
    bounce_start_delay: u16,
    init_x_vel: V,
    init_y_vel: V,
    color: String,
    gravity: V,
}

impl<V> View for Block<V> {
    type V = BlockView<V>;

    closed spec fn view(&self) -> BlockView<V> {
        BlockView {
            creation_time: self.creation_time,
            bounce_start_delay: self.bounce_start_delay as nat,
            initial_x_velocity: self.init_x_vel,
            initial_y_velocity: self.init_y_vel,
            color: self.color@,
            gravity: self.gravity,
        }
    }
}

/// A 64-bit word from `rand::random`, which draws it from the thread's
/// generator. Nothing is claimed of it.
#[verifier::external_body]
pub(crate) fn random_word() -> (word: u64) {
    rand::random::<u64>()
}

impl<V> Block<V> {
    /// The bounce-start delay is less than a second.
    #[verifier::type_invariant]
    spec fn delay_below_a_second(self) -> bool {
        self.bounce_start_delay < 1000
    }

    /// The block that is spawned at `now` with the random words `first`
    /// and `second`.
    pub fn spawn_at(
        now: Timestamp,
        first: u64,
        second: u64,
        x_vel: V,
        y_vel: V,
        color: &str,
        gravity: V,
    ) -> (block: Block<V>)
        ensures
            block@ == spawned(now, first, second, x_vel, y_vel, color@, gravity),
            block@.bounce_start_delay < 1000,
    {
        Block {
            creation_time: now,
            bounce_start_delay: bounce_delay_from_draws(first, second),
            init_x_vel: x_vel,
            init_y_vel: y_vel,
            color: String::from_str(color),
            gravity,
        }
    }

    /// Spawns a block now: reads the clock for its creation time and
    /// draws two random words for its bounce-start delay.
    pub fn new(x_vel: V, y_vel: V, color: &str, gravity: V) -> (block: Block<V>)
        ensures
            exists|now: Timestamp, first: u64, second: u64|
                block@ == #[trigger] spawned(now, first, second, x_vel, y_vel, color@, gravity),
            block@.bounce_start_delay < 1000,
    {
        let now = clock_now();
        let first = random_word();
        let second = random_word();
        Block::spawn_at(now, first, second, x_vel, y_vel, color, gravity)
    }

    /// When the block was spawned.
    pub fn creation_time(&self) -> (at: Timestamp)
        ensures
            at == self@.creation_time,
    {
        self.creation_time
    }

    /// The milliseconds between the spawn and the start of the bounce:
    /// less than a thousand for every block.
    pub fn bounce_start_delay(&self) -> (millis: u16)
        ensures
            millis == self@.bounce_start_delay,
            millis < 1000,
    {
        proof {
            use_type_invariant(self);
        }
        self.bounce_start_delay
    }

    /// The horizontal velocity at the spawn.
    pub fn initial_x_velocity(&self) -> (v: &V)
        ensures
            *v == self@.initial_x_velocity,
    {
        &self.init_x_vel
    }

    /// The vertical velocity at the spawn.
    pub fn initial_y_velocity(&self) -> (v: &V)
        ensures
            *v == self@.initial_y_velocity,
    {
        &self.init_y_vel
    }

    /// The name of the block's color.
    pub fn color(&self) -> (name: &str)
        ensures
            name@ == self@.color,
    {
        self.color.as_str()
    }

    /// The coefficient of the block's downward acceleration.
    pub fn gravity(&self) -> (g: &V)
        ensures
            *g == self@.gravity,
    {
        &self.gravity
    }
}

} // verus!
