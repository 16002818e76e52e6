//! Random boards and random programs, drawn from the thread's generator.

use vstd::prelude::*;
use rand::distributions::{Bernoulli, BernoulliError, Uniform};
use rand::rngs::ThreadRng;
use rand::Rng;
use crate::board::{Board, Cell, Coord, PlayerMark};
use crate::bot::{Instruction, Program};

verus! {

/// `rand::rngs::ThreadRng`, a handle to the generator of the current thread.
/// Nothing is known of the numbers it will give.
#[verifier::external_type_specification]
#[verifier::external_body]
pub struct ExThreadRng(rand::rngs::ThreadRng);

/// `rand::distributions::Bernoulli`, a coin with a fixed chance of heads.
#[verifier::external_type_specification]
#[verifier::external_body]
pub struct ExBernoulli(rand::distributions::Bernoulli);

/// `rand::distributions::BernoulliError`, the refusal of a chance outside
/// zero to one.
#[verifier::external_type_specification]
#[verifier::external_body]
pub struct ExBernoulliError(rand::distributions::BernoulliError);

/// `rand::thread_rng` hands out the generator of the current thread. Nothing
/// is claimed of it. It gives up only where the system has no entropy to
/// seed the generator with.
pub assume_specification[ rand::thread_rng ]() -> (rng: ThreadRng);

/// `Bernoulli::from_ratio` makes a coin that shows heads `numerator` times
/// in `denominator`. It refuses exactly the ratios above one and those with
/// a zero denominator.
pub assume_specification[ Bernoulli::from_ratio ](
    numerator: u32,
    denominator: u32,
) -> (coin: Result<Bernoulli, BernoulliError>)
    ensures
        coin.is_ok() == (numerator <= denominator && denominator != 0),
;

/// `Rng::sample` on a `Bernoulli`: one toss of the coin. Either side may
/// come up, so nothing is claimed of the result.
#[verifier::external_body]
fn toss(rng: &mut ThreadRng, coin: &Bernoulli) -> (heads: bool) {
    rng.sample(coin)
}

/// `Rng::sample` on `Uniform::new(low, high)`: a byte drawn from `low` up
/// to, but not including, `high`. `Uniform::new` panics unless `low < high`.
#[verifier::external_body]
fn draw(rng: &mut ThreadRng, low: u8, high: u8) -> (drawn: u8)
    requires
        low < high,
    ensures
        low <= drawn < high,
{
    rng.sample(Uniform::new(low, high))
}

/// How many instructions a random program has.
pub const RANDOM_PROGRAM_LENGTH: usize = 0x100;

/// Random programs draw their opcodes from below this bound: the eight
/// moves, `CheckMark` and `PlaceMark`.
pub const RANDOM_OPCODE_BOUND: u8 = 10;

/// The mark that a toss decides on: X for heads, O for tails.
pub fn mark_for_toss(heads: bool) -> (mark: PlayerMark)
    ensures
        mark == if heads {
            PlayerMark::X
        } else {
            PlayerMark::O
        },
{
    if heads {
        PlayerMark::X
    } else {
        PlayerMark::O
    }
}

/// A cell left empty on tails and marked on heads, with a second toss for
/// the mark.
fn random_cell(rng: &mut ThreadRng, coin: &Bernoulli) -> Cell {
    if toss(rng, coin) {
        Some(mark_for_toss(toss(rng, coin)))
    } else {
        None
    }
}

/// Overwrites every cell of the board with a random one: empty half of the
/// time, else either mark with equal chance.
pub fn randomly_fill_board(board: &mut Board)
    ensures
        final(board)@.width == old(board)@.width,
        final(board)@.height == old(board)@.height,
        final(board)@.wf(),
{
    let mut rng = rand::thread_rng();
    let coin = Bernoulli::from_ratio(1, 2).unwrap();
    proof {
        use_type_invariant(&*board);
    }
    let width: Coord = board.width();
    let height: Coord = board.height();
    let mut y: Coord = 0;
    while y < height
        invariant
            board@.width == width,
            board@.height == height,
            board@.wf(),
        decreases height - y,
    {
        let mut x: Coord = 0;
        while x < width
            invariant
                y < height,
                board@.width == width,
                board@.height == height,
                board@.wf(),
            decreases width - x,
        {
            let cell = random_cell(&mut rng, &coin);
            board.set(x, y, cell);
            x += 1;
        }
        y += 1;
    }
}

/// A program of `RANDOM_PROGRAM_LENGTH` instructions, each decoded from an
/// opcode drawn from those below `RANDOM_OPCODE_BOUND`. Such a program holds
/// no jump.
pub fn generate_random_program() -> (program: Program)
    ensures
        program@.len() == RANDOM_PROGRAM_LENGTH,
        forall|index: int| 0 <= index < program@.len() ==> !(#[trigger] program@[index] is Jump),
{
    let mut rng = rand::thread_rng();
    let mut program: Program = Vec::new();
    while program.len() < RANDOM_PROGRAM_LENGTH
        invariant
            program@.len() <= RANDOM_PROGRAM_LENGTH,
            forall|index: int| 0 <= index < program@.len() ==> !(#[trigger] program@[index] is Jump),
        decreases RANDOM_PROGRAM_LENGTH - program@.len(),
    {
        let opcode: u8 = draw(&mut rng, 0, RANDOM_OPCODE_BOUND);
        program.push(Instruction::decode(opcode));
    }
    program
}

} // verus!
