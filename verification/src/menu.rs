//! The decisions of the two input loops: what a word typed at the main
//! menu asks for, and which words end a game.

use crate::words::same_text;
use vstd::prelude::*;

verus! {

/// What the main menu does next.
#[derive(Clone, Copy, Debug, PartialEq, Eq, Structural)]
pub enum MenuAction {
    /// Enter the game with the active character.
    Start,
    /// A game was asked for and no character is loaded yet.
    NeedCharacter,
    CreateCharacter,
    LoadCharacter,
    ShowCharacters,
    Help,
    Exit,
    /// The word is no menu command.
    Invalid,
}

/// What a menu word asks for. Each command has a number and a name; a game
/// starts only once a character is loaded.
pub open spec fn menu_choice(word: Seq<char>, character_loaded: bool) -> MenuAction {
    if word == "1"@ || word == "start"@ {
        if character_loaded {
            MenuAction::Start
        } else {
            MenuAction::NeedCharacter
        }
    } else if word == "2"@ || word == "cc"@ {
        MenuAction::CreateCharacter
    } else if word == "3"@ || word == "lc"@ {
        MenuAction::LoadCharacter
    } else if word == "4"@ || word == "sc"@ {
        MenuAction::ShowCharacters
    } else if word == "5"@ || word == "help"@ {
        MenuAction::Help
    } else if word == "6"@ || word == "exit"@ {
        MenuAction::Exit
    } else {
        MenuAction::Invalid
    }
}

/// Reads a menu word that is already in lower case.
pub fn menu_action(word: &str, character_loaded: bool) -> (action: MenuAction)
    ensures
        action == menu_choice(word@, character_loaded),
{
    if same_text(word, "1") || same_text(word, "start") {
        if character_loaded {
            MenuAction::Start
        } else {
            MenuAction::NeedCharacter
        }
    } else if same_text(word, "2") || same_text(word, "cc") {
        MenuAction::CreateCharacter
    } else if same_text(word, "3") || same_text(word, "lc") {
        MenuAction::LoadCharacter
    } else if same_text(word, "4") || same_text(word, "sc") {
        MenuAction::ShowCharacters
    } else if same_text(word, "5") || same_text(word, "help") {
        MenuAction::Help
    } else if same_text(word, "6") || same_text(word, "exit") {
        MenuAction::Exit
    } else {
        MenuAction::Invalid
    }
}

/// Whether a command word, already in lower case, ends the game.
pub fn is_exit_word(word: &str) -> (exit: bool)
    ensures
        exit == (word@ == "exit"@ || word@ == "quit"@),
{
    same_text(word, "exit") || same_text(word, "quit")
}

} // verus!
