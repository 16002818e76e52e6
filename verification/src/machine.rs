//! The mathematical model of a bot and of what a turn does to it and to the
//! board.

use vstd::prelude::*;
use vstd::arithmetic::div_mod::{
    lemma_add_mod_noop_right, lemma_fundamental_div_mod_converse_mod, lemma_mod_bound,
};
use crate::board::{lemma_put_at, Cell, Coord, Grid, PlayerMark};
use crate::bot::{Instruction, MoveDirection, TurnFault};

verus! {

/// The position `delta` steps from `coord` on a ring of `size` positions.
pub open spec fn wrap(coord: int, delta: int, size: int) -> int {
    (coord + delta) % size
}

/// How far `CheckMark` advances the instruction pointer of a bot that plays
/// `mark` when the cell under its head is `cell`.
pub open spec fn branch(cell: Cell, mark: PlayerMark) -> int {
    match cell {
        None => 1,
        Some(found) => if found == mark {
            2
        } else {
            3
        },
    }
}

/// The state of a bot.
pub struct Machine {
    pub program: Seq<Instruction>,
    pub instruction_pointer: int,
    pub mark: PlayerMark,
    pub head_x: int,
    pub head_y: int,
}

impl Machine {
    /// The instruction pointer names an instruction of the program, or is
    /// zero where the program is empty, and the head has no negative
    /// coordinate.
    pub open spec fn wf(self) -> bool {
        &&& 0 <= self.instruction_pointer
        &&& self.instruction_pointer < self.program.len() || self.instruction_pointer == 0
        &&& 0 <= self.head_x
        &&& 0 <= self.head_y
    }

    /// The head points at a cell of `grid`.
    pub open spec fn on(self, grid: Grid) -> bool {
        grid.in_bounds(self.head_x, self.head_y)
    }

    /// What stands in the way of a turn on `grid`, an empty program first.
    pub open spec fn check(self, grid: Grid) -> Result<(), TurnFault> {
        if self.program.len() == 0 {
            Err(TurnFault::EmptyProgram)
        } else {
            match grid.check(self.head_x as Coord, self.head_y as Coord) {
                Ok(()) => Ok(()),
                Err(fault) => Err(TurnFault::HeadOutOfBounds(fault)),
            }
        }
    }

    /// The instruction under the instruction pointer.
    pub open spec fn current(self) -> Instruction {
        self.program[self.instruction_pointer]
    }

    /// The machine with its instruction pointer `count` instructions ahead,
    /// wrapping at the end of the program.
    pub open spec fn skip(self, count: int) -> Machine {
        Machine {
            instruction_pointer: (self.instruction_pointer + count) % (self.program.len() as int),
            ..self
        }
    }

    /// The machine with its head one cell further in `direction`, each axis
    /// wrapping by itself at the edge of `grid`.
    pub open spec fn shift(self, direction: MoveDirection, grid: Grid) -> Machine {
        Machine {
            head_x: wrap(self.head_x, direction.dx(), grid.width as int),
            head_y: wrap(self.head_y, direction.dy(), grid.height as int),
            ..self
        }
    }

    /// What executing `instruction` makes of the machine and the grid.
    pub open spec fn execute(self, instruction: Instruction, grid: Grid) -> (Machine, Grid) {
        match instruction {
            Instruction::Move(direction) => (self.shift(direction, grid).skip(1), grid),
            Instruction::CheckMark => (
                self.skip(branch(grid.at(self.head_x, self.head_y), self.mark)),
                grid,
            ),
            Instruction::PlaceMark => (
                self.skip(1),
                grid.put(self.head_x, self.head_y, Some(self.mark)),
            ),
            Instruction::Jump(count) => (self.skip(count as int), grid),
        }
    }

    /// One micro-step: executing the current instruction.
    pub open spec fn step(self, grid: Grid) -> (Machine, Grid) {
        self.execute(self.current(), grid)
    }

    /// `count` micro-steps in a row.
    pub open spec fn steps(self, grid: Grid, count: nat) -> (Machine, Grid)
        decreases count,
    {
        if count == 0 {
            (self, grid)
        } else {
            let (machine, after) = self.step(grid);
            machine.steps(after, (count - 1) as nat)
        }
    }

    /// One turn of at most `budget` micro-steps: it ends with the first
    /// `PlaceMark` that is executed, or when the budget is used up.
    pub open spec fn run(self, grid: Grid, budget: nat) -> (Machine, Grid)
        decreases budget,
    {
        if budget == 0 {
            (self, grid)
        } else {
            let (machine, after) = self.step(grid);
            if self.current() == Instruction::PlaceMark {
                (machine, after)
            } else {
                machine.run(after, (budget - 1) as nat)
            }
        }
    }
}

/// The program that moves one step in each direction, clockwise from north.
pub open spec fn compass_tour() -> Seq<Instruction> {
    Seq::new(8, |opcode: int| Instruction::Move(MoveDirection::compass(opcode)))
}

/// A wrapped position lies on the ring.
pub proof fn lemma_wrap_in_range(coord: int, delta: int, size: int)
    requires
        size > 0,
    ensures
        0 <= wrap(coord, delta, size) < size,
{
    lemma_mod_bound(coord + delta, size);
}

/// Where a step stays on the axis, nothing wraps.
pub proof fn lemma_wrap_inside(coord: int, delta: int, size: int)
    requires
        0 <= coord + delta < size,
    ensures
        wrap(coord, delta, size) == coord + delta,
{
    lemma_fundamental_div_mod_converse_mod(coord + delta, size, 0, coord + delta);
}

/// A step below the first position lands on the last, and a step above the
/// last lands on the first.
pub proof fn lemma_wrap_at_edges(size: int)
    requires
        size > 0,
    ensures
        wrap(0, -1, size) == size - 1,
        wrap(size - 1, 1, size) == 0,
{
    lemma_fundamental_div_mod_converse_mod(-1, size, -1, size - 1);
    lemma_fundamental_div_mod_converse_mod(size, size, 1, 0);
}

/// Two steps in a row are one step by their sum.
pub proof fn lemma_wrap_wrap(coord: int, first: int, second: int, size: int)
    requires
        size > 0,
    ensures
        wrap(wrap(coord, first, size), second, size) == wrap(coord, first + second, size),
{
    lemma_add_mod_noop_right(second, coord + first, size);
}

/// Executing an instruction keeps the machine and the grid well formed and
/// the head on the grid. It changes neither the program, nor the mark, nor
/// the shape of the grid, and leaves the instruction pointer inside the
/// program.
pub proof fn lemma_execute_keeps(machine: Machine, instruction: Instruction, grid: Grid)
    requires
        machine.wf(),
        machine.program.len() > 0,
        grid.wf(),
        machine.on(grid),
    ensures
        ({
            let (next, after) = machine.execute(instruction, grid);
            &&& next.wf()
            &&& next.on(after)
            &&& after.wf()
            &&& next.program == machine.program
            &&& next.mark == machine.mark
            &&& next.instruction_pointer < next.program.len()
            &&& after.width == grid.width
            &&& after.height == grid.height
        }),
{
    let length = machine.program.len() as int;
    lemma_mod_bound(machine.instruction_pointer + 1, length);
    match instruction {
        Instruction::Move(direction) => {
            lemma_wrap_in_range(machine.head_x, direction.dx(), grid.width as int);
            lemma_wrap_in_range(machine.head_y, direction.dy(), grid.height as int);
        },
        Instruction::CheckMark => {
            lemma_mod_bound(machine.instruction_pointer + 2, length);
            lemma_mod_bound(machine.instruction_pointer + 3, length);
        },
        Instruction::PlaceMark => {
            lemma_put_at(grid, machine.head_x, machine.head_y, Some(machine.mark));
        },
        Instruction::Jump(count) => {
            lemma_mod_bound(machine.instruction_pointer + count, length);
        },
    }
}

/// A turn keeps what each of its instructions keeps.
pub proof fn lemma_run_keeps(machine: Machine, grid: Grid, budget: nat)
    requires
        machine.wf(),
        machine.program.len() > 0,
        grid.wf(),
        machine.on(grid),
    ensures
        ({
            let (last, after) = machine.run(grid, budget);
            &&& last.wf()
            &&& last.on(after)
            &&& after.wf()
            &&& last.program == machine.program
            &&& last.mark == machine.mark
            &&& last.instruction_pointer < last.program.len()
            &&& after.width == grid.width
            &&& after.height == grid.height
        }),
    decreases budget,
{
    if budget > 0 {
        lemma_execute_keeps(machine, machine.current(), grid);
        let (next, after) = machine.step(grid);
        if machine.current() != Instruction::PlaceMark {
            lemma_run_keeps(next, after, (budget - 1) as nat);
        }
    }
}

/// A move to the west from the first column lands on the last column, and
/// a move to the east from the last column lands on the first; neither
/// changes the row.
pub proof fn lemma_move_wraps_at_edges(machine: Machine, grid: Grid)
    requires
        grid.wf(),
        machine.on(grid),
    ensures
        machine.head_x == 0 ==> machine.execute(
            Instruction::Move(MoveDirection::Left),
            grid,
        ).0.head_x == grid.width - 1,
        machine.head_x == grid.width - 1 ==> machine.execute(
            Instruction::Move(MoveDirection::Right),
            grid,
        ).0.head_x == 0,
        machine.execute(Instruction::Move(MoveDirection::Left), grid).0.head_y == machine.head_y,
        machine.execute(Instruction::Move(MoveDirection::Right), grid).0.head_y == machine.head_y,
{
    lemma_wrap_at_edges(grid.width as int);
    lemma_wrap_inside(machine.head_y, 0, grid.height as int);
}

/// `CheckMark` changes nothing but the instruction pointer, which goes one
/// ahead over an empty cell, two over the bot's own mark and three over the
/// other mark, wrapping at the end of the program.
pub proof fn lemma_check_mark_branches(machine: Machine, grid: Grid)
    ensures
        ({
            let (next, after) = machine.execute(Instruction::CheckMark, grid);
            let cell = grid.at(machine.head_x, machine.head_y);
            let advance: int = if cell is None {
                1
            } else if cell == Some(machine.mark) {
                2
            } else {
                3
            };
            &&& after == grid
            &&& next == Machine {
                instruction_pointer: (machine.instruction_pointer + advance) % (
                machine.program.len() as int),
                ..machine
            }
        }),
{
}

/// A turn ends with the first `PlaceMark` that it executes, whatever is
/// left of the budget: where that is micro-step number `count`, counting
/// from zero, the turn is the first `count + 1` micro-steps.
pub proof fn lemma_run_ends_with_first_place_mark(
    machine: Machine,
    grid: Grid,
    budget: nat,
    count: nat,
)
    requires
        count < budget,
        forall|earlier: nat|
            earlier < count ==> (#[trigger] machine.steps(grid, earlier)).0.current()
                != Instruction::PlaceMark,
        machine.steps(grid, count).0.current() == Instruction::PlaceMark,
    ensures
        machine.run(grid, budget) == machine.steps(grid, count + 1),
    decreases count,
{
    let (next, after) = machine.step(grid);
    assert(machine.steps(grid, 0) == (machine, grid));
    if count == 0 {
        assert(machine.steps(grid, 1) == next.steps(after, 0));
    } else {
        assert forall|earlier: nat| earlier < count - 1 implies (#[trigger] next.steps(
            after,
            earlier,
        )).0.current() != Instruction::PlaceMark by {
            assert(machine.steps(grid, earlier + 1) == next.steps(after, earlier));
        }
        lemma_run_ends_with_first_place_mark(next, after, (budget - 1) as nat, (count - 1) as nat);
    }
}

/// A turn that meets no `PlaceMark` uses up its budget.
pub proof fn lemma_run_without_place_mark(machine: Machine, grid: Grid, budget: nat)
    requires
        forall|earlier: nat|
            earlier < budget ==> (#[trigger] machine.steps(grid, earlier)).0.current()
                != Instruction::PlaceMark,
    ensures
        machine.run(grid, budget) == machine.steps(grid, budget),
    decreases budget,
{
    if budget > 0 {
        let (next, after) = machine.step(grid);
        assert(machine.steps(grid, 0) == (machine, grid));
        assert forall|earlier: nat| earlier < budget - 1 implies (#[trigger] next.steps(
            after,
            earlier,
        )).0.current() != Instruction::PlaceMark by {
            assert(machine.steps(grid, earlier + 1) == next.steps(after, earlier));
        }
        lemma_run_without_place_mark(next, after, (budget - 1) as nat);
    }
}

/// One step in each of the eight directions, clockwise from north, brings
/// the head back to the cell it started from.
pub proof fn lemma_compass_shifts_cancel(machine: Machine, grid: Grid)
    requires
        grid.wf(),
        machine.on(grid),
    ensures
        machine.shift(MoveDirection::Up, grid).shift(MoveDirection::UpRight, grid).shift(
            MoveDirection::Right,
            grid,
        ).shift(MoveDirection::DownRight, grid).shift(MoveDirection::Down, grid).shift(
            MoveDirection::DownLeft,
            grid,
        ).shift(MoveDirection::Left, grid).shift(MoveDirection::UpLeft, grid) == machine,
{
    let w = grid.width as int;
    let h = grid.height as int;
    let x = machine.head_x;
    let y = machine.head_y;
    lemma_wrap_wrap(x, 0, 1, w);
    lemma_wrap_wrap(x, 1, 1, w);
    lemma_wrap_wrap(x, 2, 1, w);
    lemma_wrap_wrap(x, 3, 0, w);
    lemma_wrap_wrap(x, 3, -1, w);
    lemma_wrap_wrap(x, 2, -1, w);
    lemma_wrap_wrap(x, 1, -1, w);
    lemma_wrap_inside(x, 0, w);
    lemma_wrap_wrap(y, -1, -1, h);
    lemma_wrap_wrap(y, -2, 0, h);
    lemma_wrap_wrap(y, -2, 1, h);
    lemma_wrap_wrap(y, -1, 1, h);
    lemma_wrap_wrap(y, 0, 1, h);
    lemma_wrap_wrap(y, 1, 0, h);
    lemma_wrap_wrap(y, 1, -1, h);
    lemma_wrap_inside(y, 0, h);
}

/// A bot about to start on the compass tour is, eight micro-steps later,
/// exactly where and as it was, and so is the grid; a turn of that budget
/// does the same.
pub proof fn lemma_compass_tour_returns(machine: Machine, grid: Grid)
    requires
        grid.wf(),
        machine.on(grid),
        machine.program == compass_tour(),
        machine.instruction_pointer == 0,
    ensures
        machine.steps(grid, 8) == (machine, grid),
        machine.run(grid, 8) == (machine, grid),
{
    lemma_fundamental_div_mod_converse_mod(1, 8, 0, 1);
    lemma_fundamental_div_mod_converse_mod(2, 8, 0, 2);
    lemma_fundamental_div_mod_converse_mod(3, 8, 0, 3);
    lemma_fundamental_div_mod_converse_mod(4, 8, 0, 4);
    lemma_fundamental_div_mod_converse_mod(5, 8, 0, 5);
    lemma_fundamental_div_mod_converse_mod(6, 8, 0, 6);
    lemma_fundamental_div_mod_converse_mod(7, 8, 0, 7);
    lemma_fundamental_div_mod_converse_mod(8, 8, 1, 0);
    lemma_compass_shifts_cancel(machine, grid);
    reveal_with_fuel(Machine::steps, 9);
    reveal_with_fuel(Machine::run, 9);
}

/// A bot whose program only moves in one direction, on a grid so large
/// that the head does not reach an edge within the budget, moves its head
/// by as many cells as the budget has micro-steps, and marks nothing. This
/// holds of every budget, and so of a whole turn.
pub proof fn lemma_straight_run(
    machine: Machine,
    grid: Grid,
    direction: MoveDirection,
    budget: nat,
)
    requires
        machine.wf(),
        machine.program.len() > 0,
        forall|index: int|
            0 <= index < machine.program.len() ==> machine.program[index] == Instruction::Move(
                direction,
            ),
        grid.wf(),
        machine.on(grid),
        grid.in_bounds(
            machine.head_x + budget * direction.dx(),
            machine.head_y + budget * direction.dy(),
        ),
    ensures
        machine.run(grid, budget) == (
            Machine {
                instruction_pointer: (machine.instruction_pointer + budget) % (
                machine.program.len() as int),
                head_x: machine.head_x + budget * direction.dx(),
                head_y: machine.head_y + budget * direction.dy(),
                ..machine
            },
            grid,
        ),
    decreases budget,
{
    let length = machine.program.len() as int;
    let dx = direction.dx();
    let dy = direction.dy();
    if budget == 0 {
        lemma_fundamental_div_mod_converse_mod(
            machine.instruction_pointer,
            length,
            0,
            machine.instruction_pointer,
        );
        assert(budget * dx == 0 && budget * dy == 0) by (nonlinear_arith)
            requires
                budget == 0,
        ;
    } else {
        let rest = (budget - 1) as nat;
        assert(budget * dx == dx + rest * dx && budget * dy == dy + rest * dy) by (nonlinear_arith)
            requires
                budget == rest + 1,
        ;
        assert(0 <= machine.head_x + dx < grid.width) by (nonlinear_arith)
            requires
                0 <= machine.head_x < grid.width,
                0 <= machine.head_x + budget * dx < grid.width,
                -1 <= dx <= 1,
                budget >= 1,
        ;
        assert(0 <= machine.head_y + dy < grid.height) by (nonlinear_arith)
            requires
                0 <= machine.head_y < grid.height,
                0 <= machine.head_y + budget * dy < grid.height,
                -1 <= dy <= 1,
                budget >= 1,
        ;
        lemma_wrap_inside(machine.head_x, dx, grid.width as int);
        lemma_wrap_inside(machine.head_y, dy, grid.height as int);
        lemma_execute_keeps(machine, machine.current(), grid);
        let (next, after) = machine.step(grid);
        lemma_straight_run(next, after, direction, rest);
        lemma_add_mod_noop_right(rest as int, machine.instruction_pointer + 1, length);
        assert((next.instruction_pointer + rest) % length == (machine.instruction_pointer
            + budget) % length);
    }
}

/// Micro-steps add up: one more micro-step after `count` of them is
/// `count + 1` micro-steps.
pub proof fn lemma_steps_then_step(machine: Machine, grid: Grid, count: nat)
    ensures
        machine.steps(grid, count + 1) == machine.steps(grid, count).0.step(
            machine.steps(grid, count).1,
        ),
    decreases count,
{
    let (next, after) = machine.step(grid);
    assert(machine.steps(grid, 1) == next.steps(after, 0));
    if count > 0 {
        lemma_steps_then_step(next, after, (count - 1) as nat);
    }
}

/// Any number of micro-steps keeps what each instruction keeps.
pub proof fn lemma_steps_keep(machine: Machine, grid: Grid, count: nat)
    requires
        machine.wf(),
        machine.program.len() > 0,
        grid.wf(),
        machine.on(grid),
    ensures
        ({
            let (last, after) = machine.steps(grid, count);
            &&& last.wf()
            &&& last.on(after)
            &&& after.wf()
            &&& last.program == machine.program
            &&& last.mark == machine.mark
            &&& last.instruction_pointer < last.program.len()
            &&& after.width == grid.width
            &&& after.height == grid.height
        }),
    decreases count,
{
    if count > 0 {
        lemma_execute_keeps(machine, machine.current(), grid);
        let (next, after) = machine.step(grid);
        lemma_steps_keep(next, after, (count - 1) as nat);
    }
}

/// A turn that ends with a `PlaceMark` leaves the bot's mark in the cell
/// under the head.
pub proof fn lemma_finished_turn_marks_cell(
    machine: Machine,
    grid: Grid,
    budget: nat,
    count: nat,
)
    requires
        machine.wf(),
        machine.program.len() > 0,
        grid.wf(),
        machine.on(grid),
        count < budget,
        forall|earlier: nat|
            earlier < count ==> (#[trigger] machine.steps(grid, earlier)).0.current()
                != Instruction::PlaceMark,
        machine.steps(grid, count).0.current() == Instruction::PlaceMark,
    ensures
        ({
            let (last, after) = machine.run(grid, budget);
            after.at(last.head_x, last.head_y) == Some(machine.mark)
        }),
{
    lemma_run_ends_with_first_place_mark(machine, grid, budget, count);
    lemma_steps_then_step(machine, grid, count);
    lemma_steps_keep(machine, grid, count);
    let (placing, before) = machine.steps(grid, count);
    lemma_put_at(before, placing.head_x, placing.head_y, Some(placing.mark));
}

} // verus!
