//! A ship sent round a fixed loop, to practise the engine's interface.
use vstd::prelude::*;
use crate::hlt::command::Command;
use crate::hlt::direction::Direction;
use crate::hlt::ship::Ship;
use crate::hlt::ShipId;

verus! {

/// One round of the loop, stored last step first: each command is popped
/// from the end.
pub open spec fn round(id: ShipId) -> Seq<Command> {
    seq![
        Command::Move(id, Direction::North),
        Command::Move(id, Direction::Still),
        Command::Move(id, Direction::East),
        Command::Move(id, Direction::Still),
        Command::Move(id, Direction::South),
        Command::Move(id, Direction::Still),
        Command::Move(id, Direction::South),
        Command::Move(id, Direction::Still),
        Command::Move(id, Direction::West),
        Command::Move(id, Direction::Still),
        Command::Move(id, Direction::West),
        Command::Move(id, Direction::Still),
        Command::Move(id, Direction::North),
        Command::Move(id, Direction::Still),
        Command::Move(id, Direction::East),
        Command::Move(id, Direction::Still),
    ]
}

/// The bot's state between turns.
pub struct FixedPattern {
    initial_turn: bool,
    programmed_commands: Vec<Command>,
}

impl FixedPattern {
    pub closed spec fn is_initial(&self) -> bool {
        self.initial_turn
    }

    /// The commands still to send, last one first.
    pub closed spec fn programmed(&self) -> Seq<Command> {
        self.programmed_commands@
    }

    pub fn new() -> (r: FixedPattern)
        ensures
            r.is_initial(),
            r.programmed() == Seq::<Command>::empty(),
    {
        FixedPattern { initial_turn: true, programmed_commands: Vec::new() }
    }

    /// The commands for this turn. The first turn spawns a ship; after that a
    /// round of the loop is programmed for `ship` whenever the last one is
    /// done, and one command of it is sent per turn.
    pub fn turn_commands(&mut self, ship: Option<&Ship>) -> (r: Vec<Command>)
        ensures
            ({
                let refill = !old(self).is_initial() && old(self).programmed().len() == 0
                    && ship is Some;
                let queue = if refill {
                    round(ship.unwrap().id)
                } else {
                    old(self).programmed()
                };
                let spawn = if old(self).is_initial() {
                    seq![Command::Spawn]
                } else {
                    Seq::<Command>::empty()
                };
                &&& !final(self).is_initial()
                &&& if queue.len() > 0 {
                    &&& r@ == spawn.push(queue.last())
                    &&& final(self).programmed() == queue.drop_last()
                } else {
                    &&& r@ == spawn
                    &&& final(self).programmed() == queue
                }
            }),
    {
        let mut command_queue: Vec<Command> = Vec::new();
        if self.initial_turn {
            // The first turn spawns a ship.
            command_queue.push(Command::spawn_ship());
            self.initial_turn = false;
        } else if self.programmed_commands.len() == 0 {
            // Program the next round.
            if let Some(s) = ship {
                self.programmed_commands.push(s.move_ship(Direction::North));
                self.programmed_commands.push(s.stay_still());
                self.programmed_commands.push(s.move_ship(Direction::East));
                self.programmed_commands.push(s.stay_still());
                self.programmed_commands.push(s.move_ship(Direction::South));
                self.programmed_commands.push(s.stay_still());
                self.programmed_commands.push(s.move_ship(Direction::South));
                self.programmed_commands.push(s.stay_still());
                self.programmed_commands.push(s.move_ship(Direction::West));
                self.programmed_commands.push(s.stay_still());
                self.programmed_commands.push(s.move_ship(Direction::West));
                self.programmed_commands.push(s.stay_still());
                self.programmed_commands.push(s.move_ship(Direction::North));
                self.programmed_commands.push(s.stay_still());
                self.programmed_commands.push(s.move_ship(Direction::East));
                self.programmed_commands.push(s.stay_still());
                proof {
                    assert(self.programmed_commands@ =~= round(s.id));
                }
            }
        }
        // Do one action per round.
        if let Some(command) = self.programmed_commands.pop() {
            command_queue.push(command);
        }
        command_queue
    }
}

} // verus!
