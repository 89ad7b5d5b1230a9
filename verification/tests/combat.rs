use odsr_engine::{BattleParameters, BattleState, CombatError, TurnSide};

fn create_test_battle(pc_count: usize, npc_count: usize, starting_side: TurnSide) -> BattleState {
    let pcs: Vec<String> = (0..pc_count).map(|i| format!("PC{}", i + 1)).collect();
    let npcs: Vec<String> = (0..npc_count).map(|i| format!("NPC{}", i + 1)).collect();

    let params = BattleParameters::new(pcs, npcs, starting_side);
    BattleState::new(params)
}

#[test]
fn test_turn_switching_pc_to_npc() {
    // PC starts, should switch to NPC after ending PC turn
    let battle = create_test_battle(2, 2, TurnSide::PC);

    assert_eq!(battle.current_side(), TurnSide::PC);

    // Start and end PC1's turn
    let battle = battle.start_turn(TurnSide::PC, "PC1".to_string()).unwrap();
    let battle = battle.end_turn().unwrap();

    // Should switch to NPC side
    assert_eq!(battle.current_side(), TurnSide::NPC);
    assert!(battle.pc_taken_turns().contains("PC1"));
    assert_eq!(battle.pc_taken_turns().len(), 1);
}

#[test]
fn test_turn_switching_npc_to_pc() {
    // NPC starts, should switch to PC after ending NPC turn
    let battle = create_test_battle(2, 2, TurnSide::NPC);

    assert_eq!(battle.current_side(), TurnSide::NPC);

    // Start and end NPC1's turn
    let battle = battle.start_turn(TurnSide::NPC, "NPC1".to_string()).unwrap();
    let battle = battle.end_turn().unwrap();

    // Should switch to PC side
    assert_eq!(battle.current_side(), TurnSide::PC);
    assert!(battle.npc_taken_turns().contains("NPC1"));
    assert_eq!(battle.npc_taken_turns().len(), 1);
}

#[test]
fn test_turn_switching_stays_on_side_when_other_side_done() {
    // If all NPCs have taken their turn, ending a PC turn should keep it on PC side
    let battle = create_test_battle(2, 1, TurnSide::PC);

    // PC1 takes turn
    let battle = battle.start_turn(TurnSide::PC, "PC1".to_string()).unwrap();
    let battle = battle.end_turn().unwrap();
    assert_eq!(battle.current_side(), TurnSide::NPC);

    // NPC1 takes turn (only NPC)
    let battle = battle.start_turn(TurnSide::NPC, "NPC1".to_string()).unwrap();
    let battle = battle.end_turn().unwrap();

    // The logic switches to PC first, then checks if PC has remaining turns.
    // Since PC2 hasn't taken a turn yet, it switches to PC.
    assert_eq!(battle.current_side(), TurnSide::PC);

    // Now PC2 takes turn
    let battle = battle.start_turn(TurnSide::PC, "PC2".to_string()).unwrap();
    let battle = battle.end_turn().unwrap();

    // All NPCs are done, so should stay on PC side
    assert_eq!(battle.current_side(), TurnSide::PC);
}

#[test]
fn test_turn_switching_stays_on_side_when_all_pcs_done() {
    // If all PCs have taken their turn, ending an NPC turn should keep it on NPC side
    let battle = create_test_battle(1, 2, TurnSide::PC);

    // PC1 takes turn
    let battle = battle.start_turn(TurnSide::PC, "PC1".to_string()).unwrap();
    let battle = battle.end_turn().unwrap();
    assert_eq!(battle.current_side(), TurnSide::NPC);

    // NPC1 takes turn
    let battle = battle.start_turn(TurnSide::NPC, "NPC1".to_string()).unwrap();
    let battle = battle.end_turn().unwrap();

    // The logic checks the next side (PC) for remaining turns. Since PC1
    // already took a turn, there are 0 remaining PC turns, so it stays on NPC.
    assert_eq!(battle.current_side(), TurnSide::NPC);
}

#[test]
fn test_round_completion_basic() {
    let battle = create_test_battle(2, 2, TurnSide::PC);

    assert_eq!(battle.round(), 1);

    // Complete all turns: PC1, NPC1, PC2, NPC2
    let battle = battle.start_turn(TurnSide::PC, "PC1".to_string()).unwrap();
    let battle = battle.end_turn().unwrap();

    let battle = battle.start_turn(TurnSide::NPC, "NPC1".to_string()).unwrap();
    let battle = battle.end_turn().unwrap();

    let battle = battle.start_turn(TurnSide::PC, "PC2".to_string()).unwrap();
    let battle = battle.end_turn().unwrap();

    let battle = battle.start_turn(TurnSide::NPC, "NPC2".to_string()).unwrap();
    let battle = battle.end_turn().unwrap();

    // Verify all turns are taken
    assert_eq!(battle.pc_taken_turns().len(), 2);
    assert_eq!(battle.npc_taken_turns().len(), 2);
    assert!(battle.available().is_empty());

    // Complete the round
    let battle = battle.complete_round().unwrap();

    // Round should increment
    assert_eq!(battle.round(), 2);

    // Taken turns should be reset
    assert_eq!(battle.pc_taken_turns().len(), 0);
    assert_eq!(battle.npc_taken_turns().len(), 0);

    // Current side should reset to starting side
    assert_eq!(battle.current_side(), TurnSide::PC);
}

#[test]
fn test_round_completion_resets_to_starting_side() {
    // Test that round completion resets to the original starting side
    let battle = create_test_battle(1, 1, TurnSide::NPC);

    // Complete all turns
    let battle = battle.start_turn(TurnSide::NPC, "NPC1".to_string()).unwrap();
    let battle = battle.end_turn().unwrap();

    let battle = battle.start_turn(TurnSide::PC, "PC1".to_string()).unwrap();
    let battle = battle.end_turn().unwrap();

    // Complete round
    let battle = battle.complete_round().unwrap();

    // Should reset to NPC (starting side)
    assert_eq!(battle.current_side(), TurnSide::NPC);
    assert_eq!(battle.round(), 2);
}

#[test]
fn test_round_completion_fails_with_turn_in_progress() {
    let battle = create_test_battle(1, 1, TurnSide::PC);

    // Start a turn but don't end it
    let battle = battle.start_turn(TurnSide::PC, "PC1".to_string()).unwrap();

    // Try to complete round - should fail
    let result = battle.complete_round();
    assert!(result.is_err());
    assert!(result.unwrap_err().message().contains("turn is in progress"));
}

#[test]
fn test_round_completion_fails_when_not_all_turns_taken() {
    let battle = create_test_battle(2, 2, TurnSide::PC);

    // Only take some turns
    let battle = battle.start_turn(TurnSide::PC, "PC1".to_string()).unwrap();
    let battle = battle.end_turn().unwrap();

    let battle = battle.start_turn(TurnSide::NPC, "NPC1".to_string()).unwrap();
    let battle = battle.end_turn().unwrap();

    // Try to complete round - should fail (PC2 and NPC2 haven't taken turns)
    let result = battle.complete_round();
    assert!(result.is_err());
    assert!(result
        .unwrap_err()
        .message()
        .contains("Not all entities have taken their turn"));
}

#[test]
fn test_round_completion_fails_when_entities_still_available() {
    let battle = create_test_battle(2, 2, TurnSide::PC);

    // Take all turns but one
    let battle = battle.start_turn(TurnSide::PC, "PC1".to_string()).unwrap();
    let battle = battle.end_turn().unwrap();

    let battle = battle.start_turn(TurnSide::NPC, "NPC1".to_string()).unwrap();
    let battle = battle.end_turn().unwrap();

    let battle = battle.start_turn(TurnSide::PC, "PC2".to_string()).unwrap();
    let battle = battle.end_turn().unwrap();

    let battle = battle.start_turn(TurnSide::NPC, "NPC2".to_string()).unwrap();
    let battle = battle.end_turn().unwrap();

    // This should actually work since all turns are taken
    // But let me verify the available() check
    assert!(battle.available().is_empty());
    let result = battle.complete_round();
    assert!(result.is_ok());
}

#[test]
fn test_multiple_rounds() {
    let battle = create_test_battle(1, 1, TurnSide::PC);

    // Round 1
    let mut battle = battle.start_turn(TurnSide::PC, "PC1".to_string()).unwrap();
    battle = battle.end_turn().unwrap();
    battle = battle.start_turn(TurnSide::NPC, "NPC1".to_string()).unwrap();
    battle = battle.end_turn().unwrap();
    battle = battle.complete_round().unwrap();

    assert_eq!(battle.round(), 2);
    assert_eq!(battle.current_side(), TurnSide::PC);

    // Round 2
    battle = battle.start_turn(TurnSide::PC, "PC1".to_string()).unwrap();
    battle = battle.end_turn().unwrap();
    battle = battle.start_turn(TurnSide::NPC, "NPC1".to_string()).unwrap();
    battle = battle.end_turn().unwrap();
    battle = battle.complete_round().unwrap();

    assert_eq!(battle.round(), 3);
    assert_eq!(battle.current_side(), TurnSide::PC);
}

#[test]
fn test_turn_switching_alternates_correctly() {
    let battle = create_test_battle(2, 2, TurnSide::PC);

    let mut battle = battle;

    // PC1 -> NPC1 -> PC2 -> NPC2
    battle = battle.start_turn(TurnSide::PC, "PC1".to_string()).unwrap();
    battle = battle.end_turn().unwrap();
    assert_eq!(battle.current_side(), TurnSide::NPC);

    battle = battle.start_turn(TurnSide::NPC, "NPC1".to_string()).unwrap();
    battle = battle.end_turn().unwrap();
    assert_eq!(battle.current_side(), TurnSide::PC);

    battle = battle.start_turn(TurnSide::PC, "PC2".to_string()).unwrap();
    battle = battle.end_turn().unwrap();
    assert_eq!(battle.current_side(), TurnSide::NPC);

    battle = battle.start_turn(TurnSide::NPC, "NPC2".to_string()).unwrap();
    battle = battle.end_turn().unwrap();
    // After NPC2, all NPCs are done, so should stay on NPC side
    assert_eq!(battle.current_side(), TurnSide::NPC);
}

#[test]
fn test_end_turn_marks_entity_as_taken() {
    let battle = create_test_battle(2, 2, TurnSide::PC);

    let battle = battle.start_turn(TurnSide::PC, "PC1".to_string()).unwrap();
    assert!(!battle.pc_taken_turns().contains("PC1"));

    let battle = battle.end_turn().unwrap();
    assert!(battle.pc_taken_turns().contains("PC1"));
    assert_eq!(battle.pc_taken_turns().len(), 1);
}

#[test]
fn test_end_turn_clears_current_turn() {
    let battle = create_test_battle(1, 1, TurnSide::PC);

    let battle = battle.start_turn(TurnSide::PC, "PC1".to_string()).unwrap();
    assert!(battle.current_turn().is_some());

    let battle = battle.end_turn().unwrap();
    assert!(battle.current_turn().is_none());
}

#[test]
fn test_start_turn_error_cases() {
    let battle = create_test_battle(2, 1, TurnSide::PC);

    // Wrong side: NPCs do not act first here.
    assert_eq!(
        battle.start_turn(TurnSide::NPC, "NPC1".to_string()).unwrap_err(),
        CombatError::WrongSide
    );

    // Unknown entity on the active side.
    assert_eq!(
        battle.start_turn(TurnSide::PC, "PC9".to_string()).unwrap_err(),
        CombatError::UnknownEntity
    );

    // A second turn cannot start while one is in progress.
    let battle = battle.start_turn(TurnSide::PC, "PC1".to_string()).unwrap();
    assert_eq!(
        battle.start_turn(TurnSide::PC, "PC2".to_string()).unwrap_err(),
        CombatError::InvalidTransition
    );

    // Whoever acted already cannot act again this round.
    let battle = battle.end_turn().unwrap();
    let battle = battle.start_turn(TurnSide::NPC, "NPC1".to_string()).unwrap();
    let battle = battle.end_turn().unwrap();
    assert_eq!(
        battle.start_turn(TurnSide::PC, "PC1".to_string()).unwrap_err(),
        CombatError::AlreadyActed
    );
}

#[test]
fn test_end_and_cancel_need_turn_in_progress() {
    let battle = create_test_battle(1, 1, TurnSide::PC);

    assert_eq!(battle.end_turn().unwrap_err(), CombatError::NoTurnInProgress);
    assert_eq!(battle.cancel_turn().unwrap_err(), CombatError::NoTurnInProgress);
}

#[test]
fn test_cancel_turn_discards_without_marking_taken() {
    let battle = create_test_battle(1, 1, TurnSide::PC);

    let battle = battle.start_turn(TurnSide::PC, "PC1".to_string()).unwrap();
    let battle = battle.cancel_turn().unwrap();

    assert!(battle.current_turn().is_none());
    assert_eq!(battle.pc_taken_turns().len(), 0);
    // PC1 may act again immediately.
    assert!(battle.start_turn(TurnSide::PC, "PC1".to_string()).is_ok());
}

#[test]
fn test_available_order_and_exclusions() {
    let battle = create_test_battle(3, 1, TurnSide::PC);

    // Insertion order is preserved and observable.
    let available: Vec<String> = battle.available().into_iter().collect();
    assert_eq!(available, vec!["PC1", "PC2", "PC3"]);

    // The participant mid-turn is excluded.
    let battle = battle.start_turn(TurnSide::PC, "PC2".to_string()).unwrap();
    let available: Vec<String> = battle.available().into_iter().collect();
    assert_eq!(available, vec!["PC1", "PC3"]);

    // Whoever has acted is excluded too, keeping the order of the rest.
    let battle = battle.end_turn().unwrap();
    let battle = battle.start_turn(TurnSide::NPC, "NPC1".to_string()).unwrap();
    let battle = battle.end_turn().unwrap();
    let available: Vec<String> = battle.available().into_iter().collect();
    assert_eq!(available, vec!["PC1", "PC3"]);
}

#[test]
fn test_battle_parameters_dedup_and_order() {
    let params = BattleParameters::new(
        vec![
            "Hero".to_string(),
            "Mage".to_string(),
            "Hero".to_string(),
            "Scout".to_string(),
        ],
        vec!["Wolf".to_string()],
        TurnSide::NPC,
    );

    let pcs: Vec<String> = params.pcs().iter().cloned().collect();
    assert_eq!(pcs, vec!["Hero", "Mage", "Scout"]);
    assert_eq!(params.npcs().len(), 1);
    assert_eq!(params.starting_side(), TurnSide::NPC);
    assert_eq!(params.players(TurnSide::PC).len(), 3);
}

#[test]
fn test_battle_parameters_add_remove() {
    let mut params = BattleParameters::new(
        vec!["Hero".to_string()],
        vec!["Wolf".to_string()],
        TurnSide::PC,
    );

    params.add_pc("Mage".to_string());
    params.add_pc("Mage".to_string()); // idempotent
    assert_eq!(params.pcs().len(), 2);

    assert!(params.remove_pc(&"Hero".to_string()));
    assert!(!params.remove_pc(&"Hero".to_string()));
    let pcs: Vec<String> = params.pcs().iter().cloned().collect();
    assert_eq!(pcs, vec!["Mage"]);

    params.add_npc("Bear".to_string());
    assert!(params.remove_npc(&"Wolf".to_string()));
    let npcs: Vec<String> = params.npcs().iter().cloned().collect();
    assert_eq!(npcs, vec!["Bear"]);
}

#[test]
fn test_add_participant_mid_combat() {
    let battle = create_test_battle(1, 1, TurnSide::PC);

    let battle = battle.start_turn(TurnSide::PC, "PC1".to_string()).unwrap();
    let battle = battle.end_turn().unwrap();

    // A reinforcement joins the PC side mid-combat.
    let battle = battle.add_participant(TurnSide::PC, "PC2".to_string());
    assert!(battle.all_pcs().contains("PC2"));
    assert_eq!(battle.all_pcs().len(), 2);

    // Adding an existing name changes nothing.
    let battle = battle.add_participant(TurnSide::PC, "PC2".to_string());
    assert_eq!(battle.all_pcs().len(), 2);

    // The reinforcement still owes a turn this round, so completing fails.
    let battle = battle.start_turn(TurnSide::NPC, "NPC1".to_string()).unwrap();
    let battle = battle.end_turn().unwrap();
    assert_eq!(
        battle.complete_round().unwrap_err(),
        CombatError::IncompleteRound
    );

    let battle = battle.start_turn(TurnSide::PC, "PC2".to_string()).unwrap();
    let battle = battle.end_turn().unwrap();
    assert!(battle.complete_round().is_ok());
}

#[test]
fn test_remove_participant_strips_taken_set() {
    let battle = create_test_battle(2, 1, TurnSide::PC);

    let battle = battle.start_turn(TurnSide::PC, "PC1".to_string()).unwrap();
    let battle = battle.end_turn().unwrap();
    assert!(battle.pc_taken_turns().contains("PC1"));

    // Removing a participant that already acted also clears its taken entry.
    let (battle, removed) = battle.remove_participant(TurnSide::PC, &"PC1".to_string());
    assert!(removed);
    assert!(!battle.all_pcs().contains("PC1"));
    assert!(!battle.pc_taken_turns().contains("PC1"));

    // Unknown names report no change and do not fail.
    let (battle, removed) = battle.remove_participant(TurnSide::PC, &"PC9".to_string());
    assert!(!removed);
    assert_eq!(battle.all_pcs().len(), 1);
}

#[test]
fn test_remove_participant_clears_current_turn() {
    let battle = create_test_battle(2, 1, TurnSide::PC);

    let battle = battle.start_turn(TurnSide::PC, "PC1".to_string()).unwrap();
    assert!(battle.current_turn().is_some());

    // Removing the acting participant clears the turn in progress.
    let (battle, removed) = battle.remove_participant(TurnSide::PC, &"PC1".to_string());
    assert!(removed);
    assert!(battle.current_turn().is_none());

    // Removing somebody else leaves the turn alone.
    let battle = battle.start_turn(TurnSide::PC, "PC2".to_string()).unwrap();
    let (battle, removed) = battle.remove_participant(TurnSide::NPC, &"NPC1".to_string());
    assert!(removed);
    assert!(battle.current_turn().is_some());
}

#[test]
fn test_error_messages() {
    assert_eq!(
        CombatError::NoTurnInProgress.message(),
        "No turn in progress."
    );
    assert_eq!(CombatError::WrongSide.message(), "It is not that side's turn.");
    assert_eq!(
        CombatError::UnknownEntity.message(),
        "That entity is not in the battle."
    );
    assert_eq!(
        CombatError::AlreadyActed.message(),
        "That entity has already taken their turn this round."
    );
    assert_eq!(
        CombatError::EntitiesStillAvailable.message(),
        "There are still entities available to take their turn."
    );
}

#[test]
fn test_current_turn_reports_actor() {
    let battle = create_test_battle(1, 1, TurnSide::PC);
    assert!(battle.current_turn().is_none());

    let battle = battle.start_turn(TurnSide::PC, "PC1".to_string()).unwrap();
    let turn = battle.current_turn().unwrap();
    assert_eq!(turn.0, TurnSide::PC);
    assert_eq!(turn.1, "PC1");
}
