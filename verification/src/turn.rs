//! Carrying out a command on the game state: the attack round, running
//! away, and the changes to what the active player carries and wears.

use crate::combat::{
    attack_with_roll, combat_round, round_damage, struck, AttackEvent, AttackEventView,
};
use crate::command::{interpreted, lowered, parse_command, Command, CommandError};
use crate::dice::draw_below;
use crate::entity::{
    damage_value, draw_roll, entity_views, equip_outcome, equipped, lemma_found_has_id,
    roll_allowed, unequipped, EntityView, EquipOutcome,
};
use crate::item::first_with_id;
use crate::state::{with_item, GameState, GameStateView};
use crate::words::{lowercase, texts};
use vstd::prelude::*;

verus! {

impl GameStateView {
    /// Whether both sides have an active combatant.
    pub open spec fn can_fight(self) -> bool {
        self.has_active_player() && self.has_active_enemy()
    }

    /// The state with `player` in the place of the active player.
    pub open spec fn with_player(self, player: EntityView) -> GameStateView {
        GameStateView { players: self.players.update(self.player_index as int, player), ..self }
    }

    /// The state with `enemy` in the place of the active enemy.
    pub open spec fn with_enemy(self, enemy: EntityView) -> GameStateView {
        GameStateView { enemies: self.enemies.update(self.enemy_index as int, enemy), ..self }
    }

    /// The blow of the active player against the active enemy with the
    /// given roll.
    pub open spec fn strike_event(self, roll: u32) -> AttackEventView {
        AttackEventView {
            attacker_name: self.active_player().name,
            defender_name: self.active_enemy().name,
            damage: damage_value(self.active_player().stats.attack as int, roll as int) as u32,
        }
    }

    /// The state after that blow.
    pub open spec fn after_strike(self, roll: u32) -> GameStateView {
        self.with_enemy(struck(self.active_enemy(), self.strike_event(roll).damage))
    }

    /// The blow of the active enemy against the active player, without a
    /// skill.
    pub open spec fn counter_event(self) -> AttackEventView {
        AttackEventView {
            attacker_name: self.active_enemy().name,
            defender_name: self.active_player().name,
            damage: round_damage(
                self.active_enemy().stats.attack,
                self.active_player().stats.defense,
            ),
        }
    }

    /// The state after that blow.
    pub open spec fn after_counter(self) -> GameStateView {
        self.with_player(struck(self.active_player(), self.counter_event().damage))
    }

    /// Whether the active enemy is defeated: its `hp` is zero or less.
    pub open spec fn enemy_down(self) -> bool {
        self.active_enemy().stats.hp <= 0
    }

    /// The state after a defeated active enemy left the roster. The enemy
    /// index then selects the first of those that remain.
    pub open spec fn after_defeat(self) -> GameStateView {
        if self.enemy_down() {
            GameStateView {
                enemies: self.enemies.remove(self.enemy_index as int),
                enemy_index: 0,
                ..self
            }
        } else {
            self
        }
    }

    /// The state after a full attack round: the player's blow, the enemy's
    /// blow in return, and the removal of the enemy where it is defeated.
    pub open spec fn after_attack(self, roll: u32) -> GameStateView {
        self.after_strike(roll).after_counter().after_defeat()
    }

    /// Why an attack with the skill of the given number cannot start, if it
    /// cannot.
    pub open spec fn attack_refused(self, skill_number: usize) -> Option<CommandError> {
        if !self.can_fight() {
            Some(CommandError::NotEnoughToFight)
        } else if skill_number == 0 || skill_number > self.active_player().skills.len() {
            Some(CommandError::SkillNotFound)
        } else {
            None
        }
    }

    /// What the attack round reports.
    pub open spec fn attack_report(self, roll: u32) -> AttackReportView {
        AttackReportView {
            strike: self.strike_event(roll),
            counter: self.after_strike(roll).counter_event(),
            enemy_defeated: self.after_strike(roll).after_counter().enemy_down(),
            player_alive: self.after_strike(roll).after_counter().active_player().stats.hp > 0,
        }
    }

    /// The state after an attempt to run away: the enemy's blow, and then,
    /// where the player is still alive, the enemy at `pick` as the new
    /// active enemy. A `pick` that selects no enemy leaves the active enemy
    /// as it is.
    pub open spec fn after_run(self, pick: usize) -> GameStateView {
        let hit = self.after_counter();
        if hit.active_player().stats.hp > 0 && pick < self.enemies.len() {
            GameStateView { enemy_index: pick, ..hit }
        } else {
            hit
        }
    }

    /// What the attempt to run away reports.
    pub open spec fn run_report(self) -> RunReportView {
        RunReportView {
            strike: self.counter_event(),
            escaped: self.after_counter().active_player().stats.hp > 0,
        }
    }

    /// Why the active player cannot equip the carried item with the given
    /// id, if it cannot.
    pub open spec fn equip_refused(self, item_id: usize) -> Option<CommandError> {
        if !self.has_active_player() {
            Some(CommandError::NoActivePlayer)
        } else {
            match first_with_id(self.active_player().inventory, item_id as int) {
                None => Some(CommandError::ItemNotOwned),
                Some(item) => match equip_outcome(self.active_player(), item) {
                    EquipOutcome::Equipped => None,
                    EquipOutcome::NotInInventory => Some(CommandError::ItemNotOwned),
                    EquipOutcome::AlreadyEquipped => Some(CommandError::AlreadyEquipped),
                    EquipOutcome::SlotTaken => Some(CommandError::SlotTaken),
                },
            }
        }
    }

    /// The state after the active player equipped the first carried item
    /// with the given id.
    pub open spec fn after_equip_command(self, item_id: usize) -> GameStateView {
        self.with_player(
            equipped(
                self.active_player(),
                first_with_id(self.active_player().inventory, item_id as int)->0,
            ),
        )
    }

    /// Why the active player cannot unequip the worn item with the given
    /// id, if it cannot.
    pub open spec fn unequip_refused(self, item_id: usize) -> Option<CommandError> {
        if !self.has_active_player() {
            Some(CommandError::NoActivePlayer)
        } else if first_with_id(self.active_player().equipment, item_id as int) is None {
            Some(CommandError::ItemNotEquipped)
        } else {
            None
        }
    }

    /// The state after the active player unequipped the first worn item
    /// with the given id.
    pub open spec fn after_unequip_command(self, item_id: usize) -> GameStateView {
        self.with_player(
            unequipped(
                self.active_player(),
                first_with_id(self.active_player().equipment, item_id as int)->0,
            ),
        )
    }

    /// Why the active player cannot pick up the first catalog item, if it
    /// cannot.
    pub open spec fn pickup_refused(self) -> Option<CommandError> {
        if !self.has_active_player() {
            Some(CommandError::NoActivePlayer)
        } else if self.items.len() == 0 {
            Some(CommandError::CatalogEmpty)
        } else {
            None
        }
    }

    /// The state after the active player picked up a copy of the first
    /// catalog item.
    pub open spec fn after_pickup(self) -> GameStateView {
        self.with_player(with_item(self.active_player(), self.items[0]))
    }
}

/// What an attack round reports, with its events as views.
pub struct AttackReportView {
    pub strike: AttackEventView,
    pub counter: AttackEventView,
    pub enemy_defeated: bool,
    pub player_alive: bool,
}

/// The account of an attack round.
#[derive(Debug, PartialEq)]
pub struct AttackReport {
    /// The player's blow.
    pub strike: AttackEvent,
    /// The enemy's blow in return.
    pub counter: AttackEvent,
    /// Whether the enemy was defeated and left the roster.
    pub enemy_defeated: bool,
    /// Whether the player's `hp` is still above zero.
    pub player_alive: bool,
}

impl View for AttackReport {
    type V = AttackReportView;

    open spec fn view(&self) -> AttackReportView {
        AttackReportView {
            strike: self.strike@,
            counter: self.counter@,
            enemy_defeated: self.enemy_defeated,
            player_alive: self.player_alive,
        }
    }
}

/// What an attempt to run away reports, with its event as a view.
pub struct RunReportView {
    pub strike: AttackEventView,
    pub escaped: bool,
}

/// The account of an attempt to run away.
#[derive(Debug, PartialEq)]
pub struct RunReport {
    /// The enemy's blow.
    pub strike: AttackEvent,
    /// Whether the player survived it and got away.
    pub escaped: bool,
}

impl View for RunReport {
    type V = RunReportView;

    open spec fn view(&self) -> RunReportView {
        RunReportView { strike: self.strike@, escaped: self.escaped }
    }
}

impl GameState {
    fn strike_enemy(&mut self, roll: u32) -> (event: AttackEvent)
        requires
            old(self)@.can_fight(),
        ensures
            final(self)@ == old(self)@.after_strike(roll),
            event@ == old(self)@.strike_event(roll),
    {
        let ghost before = self.enemies@;
        let ei = self.enemy_index;
        let pi = self.player_index;
        assert(self@.players[pi as int] == self.players[pi as int]@);
        assert(self@.enemies[ei as int] == self.enemies[ei as int]@);
        let mut enemy = self.enemies[ei].clone();
        let event = attack_with_roll(&self.players[pi], &mut enemy, roll);
        self.enemies[ei] = enemy;
        assert(entity_views(self.enemies@) =~= entity_views(before).update(ei as int, enemy@));
        event
    }

    fn counter_player(&mut self) -> (event: AttackEvent)
        requires
            old(self)@.can_fight(),
        ensures
            final(self)@ == old(self)@.after_counter(),
            event@ == old(self)@.counter_event(),
    {
        let ghost before = self.players@;
        let ei = self.enemy_index;
        let pi = self.player_index;
        assert(self@.players[pi as int] == self.players[pi as int]@);
        assert(self@.enemies[ei as int] == self.enemies[ei as int]@);
        let mut player = self.players[pi].clone();
        let event = combat_round(&self.enemies[ei], &mut player);
        self.players[pi] = player;
        assert(entity_views(self.players@) =~= entity_views(before).update(pi as int, player@));
        event
    }

    /// The attack round with the roll already drawn. The active player
    /// strikes the active enemy with the skill of the given number, counted
    /// from one; the enemy strikes back without a skill; an enemy whose `hp`
    /// is then zero or less leaves the roster, and the first of those that
    /// remain becomes the active enemy.
    pub fn attack_with(&mut self, skill_number: usize, roll: u32) -> (r: Result<
        AttackReport,
        CommandError,
    >)
        ensures
            old(self)@.indices_valid() ==> final(self)@.indices_valid(),
            match r {
                Ok(report) => old(self)@.attack_refused(skill_number) is None && final(self)@
                    == old(self)@.after_attack(roll) && report@ == old(self)@.attack_report(roll),
                Err(e) => old(self)@.attack_refused(skill_number) == Some(e) && final(self)@
                    == old(self)@,
            },
    {
        if !(self.player_index < self.players.len() && self.enemy_index < self.enemies.len()) {
            return Err(CommandError::NotEnoughToFight);
        }
        assert(self@.players[self.player_index as int] == self.players[self.player_index as int]@);
        if skill_number == 0 || skill_number > self.players[self.player_index].skills.len() {
            return Err(CommandError::SkillNotFound);
        }
        let strike = self.strike_enemy(roll);
        let counter = self.counter_player();
        assert(self@.enemies.len() == self.enemies@.len());
        assert(self@.enemies[self.enemy_index as int] == self.enemies[self.enemy_index as int]@);
        let enemy_defeated = self.enemies[self.enemy_index].stats.hp <= 0;
        let player_alive = self.is_player_alive();
        if enemy_defeated {
            self.remove_enemy(self.enemy_index);
            self.set_enemy(0);
        }
        Ok(AttackReport { strike, counter, enemy_defeated, player_alive })
    }

    /// The attack round. Draws the roll below the power of the chosen
    /// skill and carries the round out with it. Where the enemy is defeated
    /// and others remain, one of them, drawn at random, becomes the active
    /// enemy.
    pub fn attack(&mut self, skill_number: usize) -> (r: Result<AttackReport, CommandError>)
        ensures
            old(self)@.indices_valid() ==> final(self)@.indices_valid(),
            match r {
                Ok(report) => old(self)@.attack_refused(skill_number) is None && exists|roll: u32|
                    roll_allowed(
                        old(self)@.active_player().skills[skill_number - 1].power,
                        roll,
                    ) && report@ == #[trigger] old(self)@.attack_report(roll) && final(self)@ == (
                    GameStateView {
                        enemy_index: final(self)@.enemy_index,
                        ..old(self)@.after_attack(roll)
                    }) && (if report@.enemy_defeated {
                        final(self)@.enemies.len() > 0 ==> final(self)@.has_active_enemy()
                    } else {
                        final(self)@.enemy_index == old(self)@.enemy_index
                    }),
                Err(e) => old(self)@.attack_refused(skill_number) == Some(e) && final(self)@
                    == old(self)@,
            },
    {
        if !(self.player_index < self.players.len() && self.enemy_index < self.enemies.len()) {
            return Err(CommandError::NotEnoughToFight);
        }
        assert(self@.players[self.player_index as int] == self.players[self.player_index as int]@);
        let player = &self.players[self.player_index];
        if skill_number == 0 || skill_number > player.skills.len() {
            return Err(CommandError::SkillNotFound);
        }
        assert(player@.skills[skill_number - 1] == player.skills[skill_number - 1]@);
        let roll = draw_roll(player.skills[skill_number - 1].power);
        let r = self.attack_with(skill_number, roll);
        match r {
            Ok(report) => {
                if report.enemy_defeated && self.enemies.len() > 0 {
                    let next = draw_below(self.enemies.len() as u64) as usize;
                    self.set_enemy(next);
                }
                Ok(report)
            },
            Err(e) => Err(e),
        }
    }

    /// Running away with the next enemy already chosen. The active enemy
    /// strikes the active player without a skill; where the player is then
    /// still alive, the enemy at `pick` becomes the active enemy.
    pub fn run_with(&mut self, pick: usize) -> (r: Result<RunReport, CommandError>)
        ensures
            old(self)@.indices_valid() ==> final(self)@.indices_valid(),
            match r {
                Ok(report) => old(self)@.can_fight() && final(self)@ == old(self)@.after_run(pick)
                    && report@ == old(self)@.run_report(),
                Err(e) => !old(self)@.can_fight() && e == CommandError::NotEnoughToRun && final(
                    self)@ == old(self)@,
            },
    {
        if !(self.player_index < self.players.len() && self.enemy_index < self.enemies.len()) {
            return Err(CommandError::NotEnoughToRun);
        }
        let strike = self.counter_player();
        let escaped = self.is_player_alive();
        if escaped && pick < self.enemies.len() {
            self.set_enemy(pick);
        }
        Ok(RunReport { strike, escaped })
    }

    /// Running away. The active enemy strikes the active player without a
    /// skill; where the player is then still alive, an enemy drawn at
    /// random becomes the active enemy.
    pub fn run(&mut self) -> (r: Result<RunReport, CommandError>)
        ensures
            old(self)@.indices_valid() ==> final(self)@.indices_valid(),
            match r {
                Ok(report) => old(self)@.can_fight() && report@ == old(self)@.run_report()
                    && exists|pick: usize|
                    pick < old(self)@.enemies.len() && final(self)@ == #[trigger] old(
                        self)@.after_run(pick),
                Err(e) => !old(self)@.can_fight() && e == CommandError::NotEnoughToRun && final(
                    self)@ == old(self)@,
            },
    {
        if !(self.player_index < self.players.len() && self.enemy_index < self.enemies.len()) {
            return Err(CommandError::NotEnoughToRun);
        }
        let pick = draw_below(self.enemies.len() as u64) as usize;
        self.run_with(pick)
    }

    /// The active player equips the first carried item with the id
    /// `item_id`.
    pub fn equip_by_id(&mut self, item_id: usize) -> (r: Result<(), CommandError>)
        ensures
            old(self)@.indices_valid() ==> final(self)@.indices_valid(),
            match r {
                Ok(_) => old(self)@.equip_refused(item_id) is None && final(self)@ == old(
                    self)@.after_equip_command(item_id),
                Err(e) => old(self)@.equip_refused(item_id) == Some(e) && final(self)@ == old(
                    self)@,
            },
    {
        if self.player_index >= self.players.len() {
            return Err(CommandError::NoActivePlayer);
        }
        let ghost before = self@;
        let player = self._get_player();
        let item = match player.get_item(item_id) {
            Some(item) => item.clone(),
            None => {
                assert(before.players.update(before.player_index as int, player@)
                    =~= before.players);
                return Err(CommandError::ItemNotOwned);
            },
        };
        let outcome = player.equip_item(item);
        proof {
            if outcome != EquipOutcome::Equipped {
                assert(before.players.update(before.player_index as int, player@)
                    =~= before.players);
            }
        }
        match outcome {
            EquipOutcome::Equipped => Ok(()),
            EquipOutcome::NotInInventory => Err(CommandError::ItemNotOwned),
            EquipOutcome::AlreadyEquipped => Err(CommandError::AlreadyEquipped),
            EquipOutcome::SlotTaken => Err(CommandError::SlotTaken),
        }
    }

    /// The active player unequips the first worn item with the id
    /// `item_id`.
    pub fn unequip_by_id(&mut self, item_id: usize) -> (r: Result<(), CommandError>)
        ensures
            old(self)@.indices_valid() ==> final(self)@.indices_valid(),
            match r {
                Ok(_) => old(self)@.unequip_refused(item_id) is None && final(self)@ == old(
                    self)@.after_unequip_command(item_id),
                Err(e) => old(self)@.unequip_refused(item_id) == Some(e) && final(self)@ == old(
                    self)@,
            },
    {
        if self.player_index >= self.players.len() {
            return Err(CommandError::NoActivePlayer);
        }
        let ghost before = self@;
        let player = self._get_player();
        let item = match player.get_equipment(item_id) {
            Some(item) => item.clone(),
            None => {
                assert(before.players.update(before.player_index as int, player@)
                    =~= before.players);
                return Err(CommandError::ItemNotEquipped);
            },
        };
        proof {
            lemma_found_has_id(player@.equipment, item_id as int);
        }
        player.unequip_item(item);
        Ok(())
    }

    /// The active player picks up a copy of the first catalog item.
    pub fn pickup_sword(&mut self) -> (r: Result<(), CommandError>)
        ensures
            old(self)@.indices_valid() ==> final(self)@.indices_valid(),
            match r {
                Ok(_) => old(self)@.pickup_refused() is None && final(self)@ == old(
                    self)@.after_pickup(),
                Err(e) => old(self)@.pickup_refused() == Some(e) && final(self)@ == old(self)@,
            },
    {
        if self.player_index >= self.players.len() {
            return Err(CommandError::NoActivePlayer);
        }
        if self.items.len() == 0 {
            return Err(CommandError::CatalogEmpty);
        }
        assert(self@.items[0] == self.items[0]@);
        let sword = self.items[0].clone();
        let player = self._get_player();
        player.add_item_to_inventory(sword);
        Ok(())
    }
}

/// What a command reports, with its events as views.
pub enum CommandReportView {
    Attack(AttackReportView),
    Run(RunReportView),
    Status,
    ShowEnemies,
    ShowInventory,
    Equipped,
    Unequipped,
    PickedUp,
    Help,
}

/// The account of a command that was carried out. The read-only commands
/// report only that they are due: what they show is read from the state.
#[derive(Debug, PartialEq)]
pub enum CommandReport {
    Attack(AttackReport),
    Run(RunReport),
    Status,
    ShowEnemies,
    ShowInventory,
    Equipped,
    Unequipped,
    PickedUp,
    Help,
}

impl View for CommandReport {
    type V = CommandReportView;

    open spec fn view(&self) -> CommandReportView {
        match self {
            CommandReport::Attack(report) => CommandReportView::Attack(report@),
            CommandReport::Run(report) => CommandReportView::Run(report@),
            CommandReport::Status => CommandReportView::Status,
            CommandReport::ShowEnemies => CommandReportView::ShowEnemies,
            CommandReport::ShowInventory => CommandReportView::ShowInventory,
            CommandReport::Equipped => CommandReportView::Equipped,
            CommandReport::Unequipped => CommandReportView::Unequipped,
            CommandReport::PickedUp => CommandReportView::PickedUp,
            CommandReport::Help => CommandReportView::Help,
        }
    }
}

/// Why `command` cannot be carried out in the state `s`, if it cannot.
pub open spec fn refused(s: GameStateView, command: Command) -> Option<CommandError> {
    match command {
        Command::Attack(skill_number) => s.attack_refused(skill_number),
        Command::Run => if s.can_fight() {
            None
        } else {
            Some(CommandError::NotEnoughToRun)
        },
        Command::Status => if s.can_fight() {
            None
        } else {
            Some(CommandError::NotEnoughForStatus)
        },
        Command::Equip(item_id) => s.equip_refused(item_id),
        Command::Unequip(item_id) => s.unequip_refused(item_id),
        Command::PickupSword => s.pickup_refused(),
        Command::ShowEnemies | Command::ShowInventory | Command::Help => None,
    }
}

/// Whether carrying out `command` in the state `s` may end in the state
/// `after` with the report `report`. The commands without chance allow one
/// ending; an attack allows one for each roll below the power of the chosen
/// skill and each choice of the next enemy, running away one for each
/// choice of the next enemy.
pub open spec fn carried_out(
    s: GameStateView,
    command: Command,
    after: GameStateView,
    report: CommandReportView,
) -> bool {
    match command {
        Command::Attack(skill_number) => exists|roll: u32|
            roll_allowed(s.active_player().skills[skill_number - 1].power, roll) && report
                == CommandReportView::Attack(#[trigger] s.attack_report(roll)) && after == (
            GameStateView { enemy_index: after.enemy_index, ..s.after_attack(roll) }) && (
            if s.attack_report(roll).enemy_defeated {
                after.enemies.len() > 0 ==> after.has_active_enemy()
            } else {
                after.enemy_index == s.enemy_index
            }),
        Command::Run => report == CommandReportView::Run(s.run_report()) && exists|pick: usize|
            pick < s.enemies.len() && after == #[trigger] s.after_run(pick),
        Command::Status => report == CommandReportView::Status && after == s,
        Command::ShowEnemies => report == CommandReportView::ShowEnemies && after == s,
        Command::ShowInventory => report == CommandReportView::ShowInventory && after == s,
        Command::Help => report == CommandReportView::Help && after == s,
        Command::Equip(item_id) => report == CommandReportView::Equipped && after
            == s.after_equip_command(item_id),
        Command::Unequip(item_id) => report == CommandReportView::Unequipped && after
            == s.after_unequip_command(item_id),
        Command::PickupSword => report == CommandReportView::PickedUp && after == s.after_pickup(),
    }
}

/// Carries out a command. A command that is refused leaves the state as it
/// is and gives the reason.
pub fn execute(state: &mut GameState, command: Command) -> (r: Result<CommandReport, CommandError>)
    ensures
        old(state)@.indices_valid() ==> final(state)@.indices_valid(),
        match r {
            Ok(report) => refused(old(state)@, command) is None && carried_out(
                old(state)@,
                command,
                final(state)@,
                report@,
            ),
            Err(e) => refused(old(state)@, command) == Some(e) && final(state)@ == old(state)@,
        },
{
    match command {
        Command::Attack(skill_number) => match state.attack(skill_number) {
            Ok(report) => Ok(CommandReport::Attack(report)),
            Err(e) => Err(e),
        },
        Command::Run => match state.run() {
            Ok(report) => Ok(CommandReport::Run(report)),
            Err(e) => Err(e),
        },
        Command::Status => {
            if state.player_index < state.players.len() && state.enemy_index
                < state.enemies.len() {
                Ok(CommandReport::Status)
            } else {
                Err(CommandError::NotEnoughForStatus)
            }
        },
        Command::ShowEnemies => Ok(CommandReport::ShowEnemies),
        Command::ShowInventory => Ok(CommandReport::ShowInventory),
        Command::Help => Ok(CommandReport::Help),
        Command::Equip(item_id) => match state.equip_by_id(item_id) {
            Ok(_) => Ok(CommandReport::Equipped),
            Err(e) => Err(e),
        },
        Command::Unequip(item_id) => match state.unequip_by_id(item_id) {
            Ok(_) => Ok(CommandReport::Unequipped),
            Err(e) => Err(e),
        },
        Command::PickupSword => match state.pickup_sword() {
            Ok(_) => Ok(CommandReport::PickedUp),
            Err(e) => Err(e),
        },
    }
}

/// Reads a command from a command word and its arguments, whatever their
/// case, and carries it out. A text that is no command, and a command that
/// is refused, leave the state as it is and give the reason.
pub fn process_command(state: &mut GameState, command: &str, args: Vec<String>) -> (r: Result<
    CommandReport,
    CommandError,
>)
    ensures
        old(state)@.indices_valid() ==> final(state)@.indices_valid(),
        match interpreted(lowercase(command@), lowered(texts(args@))) {
            Ok(parsed) => match r {
                Ok(report) => refused(old(state)@, parsed) is None && carried_out(
                    old(state)@,
                    parsed,
                    final(state)@,
                    report@,
                ),
                Err(e) => refused(old(state)@, parsed) == Some(e) && final(state)@ == old(state)@,
            },
            Err(e) => r == Err::<CommandReport, CommandError>(e) && final(state)@ == old(state)@,
        },
{
    match parse_command(command, &args) {
        Ok(parsed) => execute(state, parsed),
        Err(e) => Err(e),
    }
}

} // verus!
