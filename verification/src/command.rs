//! The command processor: what a line of input asks for, and what carrying
//! it out does to the game state.

use crate::text::{parse_index, unsigned_value};
use crate::words::{lowercase, lowercase_all, same_text, split_words, texts, to_lowercase, words_of};
use vstd::prelude::*;
use vstd::string::*;

verus! {

/// A recognised command with its argument.
#[derive(Clone, Copy, Debug, PartialEq, Eq, Structural)]
pub enum Command {
    /// The active player attacks with the skill of the given number, counted
    /// from one as the skill listing shows it.
    Attack(usize),
    Run,
    Status,
    ShowEnemies,
    ShowInventory,
    /// The active player equips the carried item with the given id.
    Equip(usize),
    /// The active player unequips the worn item with the given id.
    Unequip(usize),
    /// The active player picks up a copy of the first catalog item.
    PickupSword,
    Help,
}

/// Why a command was not carried out. The game state is then unchanged.
#[derive(Clone, Copy, Debug, PartialEq, Eq, Structural)]
pub enum CommandError {
    /// The command word is not one of the recognised commands.
    UnknownCommand,
    /// The command needs a number and none was given.
    MissingArgument,
    /// The argument is not an unsigned decimal number that fits the machine.
    InvalidNumber,
    /// An attack needs an active player and an active enemy.
    NotEnoughToFight,
    /// Running away needs an active player and an active enemy.
    NotEnoughToRun,
    /// A status report needs an active player and an active enemy.
    NotEnoughForStatus,
    /// The command acts on the active player and there is none.
    NoActivePlayer,
    /// The active player knows no skill of that number.
    SkillNotFound,
    /// The active player carries no item with that id.
    ItemNotOwned,
    /// An item with that id is already worn.
    AlreadyEquipped,
    /// An item of that category is already worn.
    SlotTaken,
    /// The active player wears no item with that id.
    ItemNotEquipped,
    /// The item catalog is empty.
    CatalogEmpty,
}

impl CommandError {
    /// The sentence that describes the failure.
    pub open spec fn text(self) -> Seq<char> {
        match self {
            CommandError::UnknownCommand => "Unknown command. Type 'help' for a list of commands."@,
            CommandError::MissingArgument => "This command needs a number."@,
            CommandError::InvalidNumber => "That is not a valid number."@,
            CommandError::NotEnoughToFight => "Not enough entities to engage in combat."@,
            CommandError::NotEnoughToRun => "Not enough entities to run away."@,
            CommandError::NotEnoughForStatus => "Not enough entities to display status."@,
            CommandError::NoActivePlayer => "No character is active."@,
            CommandError::SkillNotFound => "Skill not found."@,
            CommandError::ItemNotOwned => "Item not in inventory."@,
            CommandError::AlreadyEquipped => "Item already equipped."@,
            CommandError::SlotTaken => "Item type already equipped."@,
            CommandError::ItemNotEquipped => "Item not found in equipment."@,
            CommandError::CatalogEmpty => "There is no item to pick up."@,
        }
    }

    pub fn message(&self) -> (s: &'static str)
        ensures
            s@ == self.text(),
    {
        match self {
            CommandError::UnknownCommand => "Unknown command. Type 'help' for a list of commands.",
            CommandError::MissingArgument => "This command needs a number.",
            CommandError::InvalidNumber => "That is not a valid number.",
            CommandError::NotEnoughToFight => "Not enough entities to engage in combat.",
            CommandError::NotEnoughToRun => "Not enough entities to run away.",
            CommandError::NotEnoughForStatus => "Not enough entities to display status.",
            CommandError::NoActivePlayer => "No character is active.",
            CommandError::SkillNotFound => "Skill not found.",
            CommandError::ItemNotOwned => "Item not in inventory.",
            CommandError::AlreadyEquipped => "Item already equipped.",
            CommandError::SlotTaken => "Item type already equipped.",
            CommandError::ItemNotEquipped => "Item not found in equipment.",
            CommandError::CatalogEmpty => "There is no item to pick up.",
        }
    }
}

/// The number that the first argument denotes: an unsigned decimal that
/// fits in `usize`.
pub open spec fn number_argument(args: Seq<Seq<char>>) -> Result<usize, CommandError> {
    if args.len() == 0 {
        Err(CommandError::MissingArgument)
    } else {
        match unsigned_value(args[0]) {
            Some(v) => if v <= usize::MAX {
                Ok(v as usize)
            } else {
                Err(CommandError::InvalidNumber)
            },
            None => Err(CommandError::InvalidNumber),
        }
    }
}

/// What is to be listed: the first argument of `show`.
pub open spec fn shown(args: Seq<Seq<char>>) -> Result<Command, CommandError> {
    if args.len() == 0 {
        Err(CommandError::MissingArgument)
    } else if args[0] == "enemies"@ {
        Ok(Command::ShowEnemies)
    } else if args[0] == "inventory"@ {
        Ok(Command::ShowInventory)
    } else {
        Err(CommandError::UnknownCommand)
    }
}

/// The command that a command word and its arguments stand for, all of them
/// already in lower case. The two listings are also recognised when written
/// as one text, `show enemies` and `show inventory`.
pub open spec fn interpreted(word: Seq<char>, args: Seq<Seq<char>>) -> Result<
    Command,
    CommandError,
> {
    if word == "attack"@ {
        match number_argument(args) {
            Ok(n) => Ok(Command::Attack(n)),
            Err(e) => Err(e),
        }
    } else if word == "run"@ {
        Ok(Command::Run)
    } else if word == "status"@ {
        Ok(Command::Status)
    } else if word == "show enemies"@ {
        Ok(Command::ShowEnemies)
    } else if word == "show inventory"@ {
        Ok(Command::ShowInventory)
    } else if word == "show"@ {
        shown(args)
    } else if word == "equip"@ {
        match number_argument(args) {
            Ok(n) => Ok(Command::Equip(n)),
            Err(e) => Err(e),
        }
    } else if word == "unequip"@ {
        match number_argument(args) {
            Ok(n) => Ok(Command::Unequip(n)),
            Err(e) => Err(e),
        }
    } else if word == "pickup_sword"@ {
        Ok(Command::PickupSword)
    } else if word == "help"@ {
        Ok(Command::Help)
    } else {
        Err(CommandError::UnknownCommand)
    }
}

fn read_number(args: &Vec<String>) -> (r: Result<usize, CommandError>)
    ensures
        r == number_argument(texts(args@)),
{
    if args.len() == 0 {
        return Err(CommandError::MissingArgument);
    }
    assert(texts(args@)[0] == args@[0]@);
    match parse_index(args[0].as_str()) {
        Some(n) => Ok(n),
        None => Err(CommandError::InvalidNumber),
    }
}

/// Reads a command from a command word and its arguments that are already
/// in lower case.
pub fn interpret(word: &str, args: &Vec<String>) -> (r: Result<Command, CommandError>)
    ensures
        r == interpreted(word@, texts(args@)),
{
    if same_text(word, "attack") {
        match read_number(args) {
            Ok(n) => Ok(Command::Attack(n)),
            Err(e) => Err(e),
        }
    } else if same_text(word, "run") {
        Ok(Command::Run)
    } else if same_text(word, "status") {
        Ok(Command::Status)
    } else if same_text(word, "show enemies") {
        Ok(Command::ShowEnemies)
    } else if same_text(word, "show inventory") {
        Ok(Command::ShowInventory)
    } else if same_text(word, "show") {
        if args.len() == 0 {
            return Err(CommandError::MissingArgument);
        }
        assert(texts(args@)[0] == args@[0]@);
        if same_text(args[0].as_str(), "enemies") {
            Ok(Command::ShowEnemies)
        } else if same_text(args[0].as_str(), "inventory") {
            Ok(Command::ShowInventory)
        } else {
            Err(CommandError::UnknownCommand)
        }
    } else if same_text(word, "equip") {
        match read_number(args) {
            Ok(n) => Ok(Command::Equip(n)),
            Err(e) => Err(e),
        }
    } else if same_text(word, "unequip") {
        match read_number(args) {
            Ok(n) => Ok(Command::Unequip(n)),
            Err(e) => Err(e),
        }
    } else if same_text(word, "pickup_sword") {
        Ok(Command::PickupSword)
    } else if same_text(word, "help") {
        Ok(Command::Help)
    } else {
        Err(CommandError::UnknownCommand)
    }
}

/// The lower-case forms of `args`, in order.
pub open spec fn lowered(args: Seq<Seq<char>>) -> Seq<Seq<char>> {
    args.map_values(|s: Seq<char>| lowercase(s))
}

/// Reads a command from a command word and its arguments, whatever their
/// case: both are folded to lower case and then interpreted.
pub fn parse_command(command: &str, args: &Vec<String>) -> (r: Result<Command, CommandError>)
    ensures
        r == interpreted(lowercase(command@), lowered(texts(args@))),
{
    let word = to_lowercase(command);
    let folded = lowercase_all(args);
    interpret(word.as_str(), &folded)
}

/// The command word and the arguments that a line of input splits into,
/// given its words: the first word in lower case, and the words after it.
/// A line without words gives an empty command word and no arguments.
pub open spec fn split_of(words: Seq<Seq<char>>) -> (Seq<char>, Seq<Seq<char>>) {
    if words.len() == 0 {
        (Seq::empty(), Seq::empty())
    } else {
        (lowercase(words[0]), words.subrange(1, words.len() as int))
    }
}

/// Parts the words of a line into the command word, folded to lower case,
/// and the arguments.
pub fn command_and_args(words: Vec<String>) -> (r: (String, Vec<String>))
    ensures
        (r.0@, texts(r.1@)) == split_of(texts(words@)),
{
    if words.len() == 0 {
        let args: Vec<String> = Vec::new();
        assert(texts(args@) =~= Seq::empty());
        return (String::new(), args);
    }
    assert(texts(words@)[0] == words@[0]@);
    let command = to_lowercase(words[0].as_str());
    let mut args: Vec<String> = Vec::new();
    let mut i: usize = 1;
    while i < words.len()
        invariant
            1 <= i <= words.len(),
            args@.len() == i - 1,
            forall|j: int| 0 <= j < i - 1 ==> (#[trigger] args@[j])@ == words@[j + 1]@,
        decreases words.len() - i,
    {
        args.push(words[i].clone());
        i = i + 1;
    }
    assert(texts(args@) =~= texts(words@).subrange(1, words.len() as int));
    (command, args)
}

/// Splits a line of input at white space into the command word, folded to
/// lower case, and the arguments.
pub fn split_command_args(input: &str) -> (r: (String, Vec<String>))
    ensures
        (r.0@, texts(r.1@)) == split_of(words_of(input@)),
{
    command_and_args(split_words(input))
}

} // verus!
