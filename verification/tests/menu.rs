use text_combat::entity::Entity;
use text_combat::menu::{is_exit_word, menu_action, MenuAction};
use text_combat::state::GameState;

#[test]
fn menu_words_by_number_and_by_name() {
    for loaded in [false, true] {
        assert_eq!(menu_action("2", loaded), MenuAction::CreateCharacter);
        assert_eq!(menu_action("cc", loaded), MenuAction::CreateCharacter);
        assert_eq!(menu_action("3", loaded), MenuAction::LoadCharacter);
        assert_eq!(menu_action("lc", loaded), MenuAction::LoadCharacter);
        assert_eq!(menu_action("4", loaded), MenuAction::ShowCharacters);
        assert_eq!(menu_action("sc", loaded), MenuAction::ShowCharacters);
        assert_eq!(menu_action("5", loaded), MenuAction::Help);
        assert_eq!(menu_action("help", loaded), MenuAction::Help);
        assert_eq!(menu_action("6", loaded), MenuAction::Exit);
        assert_eq!(menu_action("exit", loaded), MenuAction::Exit);
    }
}

#[test]
fn a_game_starts_only_with_a_character() {
    assert_eq!(menu_action("1", true), MenuAction::Start);
    assert_eq!(menu_action("start", true), MenuAction::Start);
    assert_eq!(menu_action("1", false), MenuAction::NeedCharacter);
    assert_eq!(menu_action("start", false), MenuAction::NeedCharacter);
}

#[test]
fn other_words_are_invalid() {
    assert_eq!(menu_action("", true), MenuAction::Invalid);
    assert_eq!(menu_action("7", true), MenuAction::Invalid);
    assert_eq!(menu_action("Start", true), MenuAction::Invalid);
    assert_eq!(menu_action("quit", false), MenuAction::Invalid);
    assert_eq!(menu_action("attack", false), MenuAction::Invalid);
}

#[test]
fn exit_and_quit_end_the_game() {
    assert!(is_exit_word("exit"));
    assert!(is_exit_word("quit"));
    assert!(!is_exit_word("Exit"));
    assert!(!is_exit_word("run"));
    assert!(!is_exit_word(""));
}

#[test]
fn select_player_counts_from_one() {
    let mut state = GameState::new();
    state.create_player(Entity::new(1, "Ann"));
    state.create_player(Entity::new(2, "Bob"));
    state.create_player(Entity::new(3, "Cy"));
    assert!(state.select_player("2"));
    assert_eq!(state.player_index, 1);
    assert!(state.select_player("+3"));
    assert_eq!(state.player_index, 2);
    assert!(state.select_player("1"));
    assert_eq!(state.player_index, 0);
}

#[test]
fn select_player_refuses_what_selects_nobody() {
    let mut state = GameState::new();
    assert!(!state.select_player("1"));
    state.create_player(Entity::new(1, "Ann"));
    state.create_player(Entity::new(2, "Bob"));
    state.set_player(1);
    let before = state.clone();
    assert!(!state.select_player("0"));
    assert!(!state.select_player("3"));
    assert!(!state.select_player(""));
    assert!(!state.select_player("two"));
    assert!(!state.select_player("-1"));
    assert!(!state.select_player("99999999999999999999999999"));
    assert_eq!(state, before);
}
