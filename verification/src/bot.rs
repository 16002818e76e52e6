//! The bot: a program, an instruction pointer, a mark and a head on the board.

use vstd::prelude::*;
use vstd::arithmetic::div_mod::{lemma_fundamental_div_mod, lemma_fundamental_div_mod_converse_mod};
use crate::board::{Board, Coord, OutOfBounds, PlayerMark};
use crate::machine::{wrap, Machine};

verus! {

/// How many instructions a bot may execute in one turn.
pub const INSTRUCTIONS_PER_MOVE: usize = 25;

/// The opcode of the instruction that inspects the cell under the head.
pub const CHECK_MARK: u8 = 8;

/// The opcode of the instruction that marks the cell under the head.
pub const PLACE_MARK: u8 = 9;

/// The eight compass directions, clockwise from north. Up is towards row 0.
#[derive(Debug, Clone, Copy, PartialEq, Eq, Structural)]
pub enum MoveDirection {
    Up,
    UpRight,
    Right,
    DownRight,
    Down,
    DownLeft,
    Left,
    UpLeft,
}

/// One instruction of a bot's program.
#[derive(Debug, Clone, Copy, PartialEq, Eq, Structural)]
pub enum Instruction {
    /// Move the head one cell, wrapping at the edges of the board.
    Move(MoveDirection),
    /// Skip one, two or three instructions ahead, depending on the cell under
    /// the head.
    CheckMark,
    /// Put the bot's mark into the cell under the head.
    PlaceMark,
    /// Skip the given number of instructions ahead.
    Jump(u8),
}

/// A program: the instructions in the order of their addresses.
pub type Program = Vec<Instruction>;

/// Why a bot cannot take a turn on a board.
#[derive(Debug, Clone, Copy, PartialEq, Eq, Structural)]
pub enum TurnFault {
    /// The program holds no instruction.
    EmptyProgram,
    /// The head points at no cell of the board.
    HeadOutOfBounds(OutOfBounds),
}

impl MoveDirection {
    /// The direction with the given opcode; opcodes 0 to 7 go clockwise from
    /// north.
    pub open spec fn compass(opcode: int) -> MoveDirection {
        if opcode == 0 {
            MoveDirection::Up
        } else if opcode == 1 {
            MoveDirection::UpRight
        } else if opcode == 2 {
            MoveDirection::Right
        } else if opcode == 3 {
            MoveDirection::DownRight
        } else if opcode == 4 {
            MoveDirection::Down
        } else if opcode == 5 {
            MoveDirection::DownLeft
        } else if opcode == 6 {
            MoveDirection::Left
        } else {
            MoveDirection::UpLeft
        }
    }

    /// The change of the head's column: -1, 0 or 1.
    pub open spec fn dx(self) -> int {
        match self {
            MoveDirection::Up | MoveDirection::Down => 0,
            MoveDirection::UpRight | MoveDirection::Right | MoveDirection::DownRight => 1,
            MoveDirection::DownLeft | MoveDirection::Left | MoveDirection::UpLeft => -1,
        }
    }

    /// The change of the head's row: -1, 0 or 1.
    pub open spec fn dy(self) -> int {
        match self {
            MoveDirection::Left | MoveDirection::Right => 0,
            MoveDirection::DownRight | MoveDirection::Down | MoveDirection::DownLeft => 1,
            MoveDirection::UpLeft | MoveDirection::Up | MoveDirection::UpRight => -1,
        }
    }

    /// The column change as a machine integer.
    pub fn delta_x(self) -> (delta: i8)
        ensures
            delta == self.dx(),
    {
        match self {
            MoveDirection::Up | MoveDirection::Down => 0,
            MoveDirection::UpRight | MoveDirection::Right | MoveDirection::DownRight => 1,
            MoveDirection::DownLeft | MoveDirection::Left | MoveDirection::UpLeft => -1,
        }
    }

    /// The row change as a machine integer.
    pub fn delta_y(self) -> (delta: i8)
        ensures
            delta == self.dy(),
    {
        match self {
            MoveDirection::Left | MoveDirection::Right => 0,
            MoveDirection::DownRight | MoveDirection::Down | MoveDirection::DownLeft => 1,
            MoveDirection::UpLeft | MoveDirection::Up | MoveDirection::UpRight => -1,
        }
    }
}

impl Instruction {
    /// The instruction that an opcode stands for. Opcode 9 is always
    /// `PlaceMark`, never a jump by zero; a larger opcode jumps by its excess
    /// over 9.
    pub open spec fn decoded(opcode: u8) -> Instruction {
        if opcode < CHECK_MARK {
            Instruction::Move(MoveDirection::compass(opcode as int))
        } else if opcode == CHECK_MARK {
            Instruction::CheckMark
        } else if opcode == PLACE_MARK {
            Instruction::PlaceMark
        } else {
            Instruction::Jump((opcode - PLACE_MARK) as u8)
        }
    }

    /// Decodes one opcode.
    pub fn decode(opcode: u8) -> (instruction: Instruction)
        ensures
            instruction == Instruction::decoded(opcode),
    {
        match opcode {
            0 => Instruction::Move(MoveDirection::Up),
            1 => Instruction::Move(MoveDirection::UpRight),
            2 => Instruction::Move(MoveDirection::Right),
            3 => Instruction::Move(MoveDirection::DownRight),
            4 => Instruction::Move(MoveDirection::Down),
            5 => Instruction::Move(MoveDirection::DownLeft),
            6 => Instruction::Move(MoveDirection::Left),
            7 => Instruction::Move(MoveDirection::UpLeft),
            8 => Instruction::CheckMark,
            9 => Instruction::PlaceMark,
            _ => Instruction::Jump(opcode - PLACE_MARK),
        }
    }
}

/// No two opcodes stand for the same instruction, and the jumps are the
/// opcodes above `PLACE_MARK`, each jumping by its excess over it.
pub proof fn lemma_decoded_is_unambiguous(first: u8, second: u8)
    ensures
        Instruction::decoded(first) == Instruction::decoded(second) ==> first == second,
        Instruction::decoded(first) is Jump <==> first > PLACE_MARK,
        first > PLACE_MARK ==> Instruction::decoded(first) == Instruction::Jump(
            (first - PLACE_MARK) as u8,
        ),
{
}

/// Decodes a program given as opcodes, one instruction per byte.
pub fn decode_program(opcodes: &[u8]) -> (program: Program)
    ensures
        program@ == opcodes@.map_values(|opcode: u8| Instruction::decoded(opcode)),
{
    let mut program: Program = Vec::new();
    let mut index: usize = 0;
    while index < opcodes.len()
        invariant
            index <= opcodes.len(),
            program@ == opcodes@.take(index as int).map_values(
                |opcode: u8| Instruction::decoded(opcode),
            ),
        decreases opcodes.len() - index,
    {
        program.push(Instruction::decode(opcodes[index]));
        index += 1;
    }
    program
}

/// A bot: a program with its instruction pointer, the mark it plays and its
/// head.
#[derive(Debug)]
pub struct Bot {
    program: Program,
    instruction_pointer: usize,
    mark: PlayerMark,
    head_x: Coord,
    head_y: Coord,
}

impl View for Bot {
    type V = Machine;

    closed spec fn view(&self) -> Machine {
        Machine {
            program: self.program@,
            instruction_pointer: self.instruction_pointer as int,
            mark: self.mark,
            head_x: self.head_x as int,
            head_y: self.head_y as int,
        }
    }
}

/// One step of a coordinate along an axis of `size` cells.
fn stepped(coord: Coord, delta: i8, size: Coord) -> (moved: Coord)
    requires
        coord < size,
        -1 <= delta <= 1,
    ensures
        moved == wrap(coord as int, delta as int, size as int),
        moved < size,
{
    if delta == 0 {
        proof {
            lemma_fundamental_div_mod_converse_mod(coord as int, size as int, 0, coord as int);
        }
        coord
    } else if delta == 1 {
        if coord < size - 1 {
            proof {
                lemma_fundamental_div_mod_converse_mod(coord + 1, size as int, 0, coord + 1);
            }
            coord + 1
        } else {
            proof {
                lemma_fundamental_div_mod_converse_mod(coord + 1, size as int, 1, 0);
            }
            0
        }
    } else {
        if coord > 0 {
            proof {
                lemma_fundamental_div_mod_converse_mod(coord - 1, size as int, 0, coord - 1);
            }
            coord - 1
        } else {
            proof {
                lemma_fundamental_div_mod_converse_mod(coord - 1, size as int, -1, size - 1);
            }
            size - 1
        }
    }
}

impl Bot {
    /// Holds of every value of this type.
    #[verifier::type_invariant]
    pub open spec fn well_formed(self) -> bool {
        self@.wf()
    }

    /// A bot that plays `mark` by `program`, about to execute its first
    /// instruction, with its head on the centre of `board`.
    pub fn new(program: Program, mark: PlayerMark, board: &Board) -> (bot: Self)
        ensures
            bot@ == (Machine {
                program: program@,
                instruction_pointer: 0,
                mark,
                head_x: board@.width as int / 2,
                head_y: board@.height as int / 2,
            }),
            bot@.wf(),
            bot@.on(board@),
    {
        proof {
            use_type_invariant(board);
        }
        Self {
            program,
            instruction_pointer: 0,
            mark,
            head_x: board.width() / 2,
            head_y: board.height() / 2,
        }
    }

    /// The program, which never changes.
    pub fn program(&self) -> (program: &Program)
        ensures
            program@ == self@.program,
    {
        &self.program
    }

    /// The index of the instruction that is executed next.
    pub fn instruction_pointer(&self) -> (instruction_pointer: usize)
        ensures
            instruction_pointer == self@.instruction_pointer,
    {
        self.instruction_pointer
    }

    /// The mark that the bot plays.
    pub fn mark(&self) -> (mark: PlayerMark)
        ensures
            mark == self@.mark,
    {
        self.mark
    }

    /// The column of the head.
    pub fn head_x(&self) -> (head_x: Coord)
        ensures
            head_x == self@.head_x,
    {
        self.head_x
    }

    /// The row of the head.
    pub fn head_y(&self) -> (head_y: Coord)
        ensures
            head_y == self@.head_y,
    {
        self.head_y
    }

    /// Puts the head on `(x, y)`.
    pub fn set_head(&mut self, x: Coord, y: Coord)
        ensures
            final(self)@ == (Machine { head_x: x as int, head_y: y as int, ..old(self)@ }),
            final(self)@.wf(),
    {
        proof {
            use_type_invariant(&*self);
        }
        self.head_x = x;
        self.head_y = y;
    }

    /// Checks that the bot can take a turn on `board`: that it has a
    /// program and that its head is on the board.
    pub fn check_turn(&self, board: &Board) -> (checked: Result<(), TurnFault>)
        ensures
            checked == self@.check(board@),
            checked.is_ok() == (self@.program.len() > 0 && self@.on(board@)),
    {
        if self.program.len() == 0 {
            Err(TurnFault::EmptyProgram)
        } else {
            match board.check_bounds(self.head_x, self.head_y) {
                Ok(()) => Ok(()),
                Err(fault) => Err(TurnFault::HeadOutOfBounds(fault)),
            }
        }
    }

    /// Runs one turn: up to `INSTRUCTIONS_PER_MOVE` instructions, ending
    /// early with the first `PlaceMark`.
    pub fn make_move(&mut self, board: &mut Board)
        requires
            old(self)@.program.len() > 0,
            old(self)@.on(old(board)@),
        ensures
            (final(self)@, final(board)@) == old(self)@.run(
                old(board)@,
                INSTRUCTIONS_PER_MOVE as nat,
            ),
            final(self)@.wf(),
            final(self)@.on(final(board)@),
            final(board)@.wf(),
    {
        let ghost turn = old(self)@.run(old(board)@, INSTRUCTIONS_PER_MOVE as nat);
        let mut executed: usize = 0;
        proof {
            use_type_invariant(&*self);
            use_type_invariant(&*board);
        }
        while executed < INSTRUCTIONS_PER_MOVE
            invariant
                executed <= INSTRUCTIONS_PER_MOVE,
                self@.program.len() > 0,
                self@.wf(),
                self@.on(board@),
                board@.wf(),
                turn == old(self)@.run(old(board)@, INSTRUCTIONS_PER_MOVE as nat),
                self@.run(board@, (INSTRUCTIONS_PER_MOVE - executed) as nat) == turn,
            decreases INSTRUCTIONS_PER_MOVE - executed,
        {
            let ghost machine = self@;
            let ghost grid = board@;
            let ghost budget = (INSTRUCTIONS_PER_MOVE - executed) as nat;
            let instruction: Instruction = self.program[self.instruction_pointer];
            self.execute_instruction(instruction, board);
            executed += 1;
            assert(machine.run(grid, budget) == if instruction == Instruction::PlaceMark {
                (self@, board@)
            } else {
                self@.run(board@, (budget - 1) as nat)
            });
            if instruction == Instruction::PlaceMark {
                return ;
            }
        }
    }

    /// Executes one instruction, which need not be the current one, and
    /// moves the instruction pointer on.
    pub fn execute_instruction(&mut self, instruction: Instruction, board: &mut Board)
        requires
            old(self)@.program.len() > 0,
            old(self)@.on(old(board)@),
        ensures
            (final(self)@, final(board)@) == old(self)@.execute(instruction, old(board)@),
            final(self)@.wf(),
            final(self)@.on(final(board)@),
            final(board)@.wf(),
    {
        proof {
            use_type_invariant(&*self);
            use_type_invariant(&*board);
        }
        match instruction {
            Instruction::Move(direction) => {
                self.head_x = stepped(self.head_x, direction.delta_x(), board.width());
                self.head_y = stepped(self.head_y, direction.delta_y(), board.height());
                self.skip_instructions(1);
            },
            Instruction::CheckMark => {
                let advance: usize = match board.get(self.head_x, self.head_y) {
                    None => 1,
                    Some(mark) => if mark == self.mark {
                        2
                    } else {
                        3
                    },
                };
                self.skip_instructions(advance);
            },
            Instruction::PlaceMark => {
                board.set(self.head_x, self.head_y, Some(self.mark));
                self.skip_instructions(1);
            },
            Instruction::Jump(count) => {
                self.skip_instructions(count as usize);
            },
        }
    }

    /// Moves the instruction pointer `instructions` ahead, wrapping at the
    /// end of the program.
    pub fn skip_instructions(&mut self, instructions: usize)
        requires
            old(self)@.program.len() > 0,
        ensures
            final(self)@ == old(self)@.skip(instructions as int),
            final(self)@.wf(),
    {
        proof {
            use_type_invariant(&*self);
        }
        let length: usize = self.program.len();
        let ahead: usize = instructions % length;
        let room: usize = length - self.instruction_pointer;
        let ghost laps = instructions as int / length as int;
        let ghost target = self.instruction_pointer as int + instructions as int;
        proof {
            lemma_fundamental_div_mod(instructions as int, length as int);
        }
        if ahead < room {
            proof {
                assert(target == laps * length + (self.instruction_pointer + ahead)) by (nonlinear_arith)
                    requires
                        target == self.instruction_pointer + instructions,
                        instructions == length * laps + ahead,
                ;
                lemma_fundamental_div_mod_converse_mod(
                    target,
                    length as int,
                    laps,
                    self.instruction_pointer + ahead,
                );
            }
            self.instruction_pointer = self.instruction_pointer + ahead;
        } else {
            proof {
                assert(target == (laps + 1) * length + (ahead - room)) by (nonlinear_arith)
                    requires
                        target == self.instruction_pointer + instructions,
                        instructions == length * laps + ahead,
                        room == length - self.instruction_pointer,
                ;
                lemma_fundamental_div_mod_converse_mod(
                    target,
                    length as int,
                    laps + 1,
                    ahead - room,
                );
            }
            self.instruction_pointer = ahead - room;
        }
    }
}

} // verus!
