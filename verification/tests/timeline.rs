use hexfish::history::{check_history_cursor, redo_cursor, undo_target, visible_action_log};

#[test]
fn undo_steps_back_over_chance_outcomes() {
    // decision, chance, decision, chance, chance
    let is_chance = [false, true, false, true, true];
    assert_eq!(undo_target(&is_chance, 0), None);
    assert_eq!(undo_target(&is_chance, 1), Some(0));
    assert_eq!(undo_target(&is_chance, 2), Some(0));
    assert_eq!(undo_target(&is_chance, 5), Some(2));
    assert_eq!(undo_target(&[true, true], 2), None);
}

#[test]
fn redo_replays_a_decision_and_its_chance_outcomes() {
    let is_chance = [false, true, false, true, true];
    assert_eq!(redo_cursor(&is_chance, 0), Some(2));
    assert_eq!(redo_cursor(&is_chance, 2), Some(5));
    assert_eq!(redo_cursor(&is_chance, 5), None);
    assert_eq!(redo_cursor(&is_chance, 9), None);
    assert_eq!(redo_cursor(&[], 0), None);
}

#[test]
fn redo_comes_back_after_undo() {
    let is_chance = [false, true, false, true, true, false];
    for cursor in [2usize, 5, 6] {
        let target = undo_target(&is_chance, cursor).unwrap();
        assert_eq!(redo_cursor(&is_chance, target), Some(cursor));
    }
}

#[test]
fn the_game_log_shows_labelled_entries_with_their_cursors() {
    let labels: Vec<String> = vec!["Roll 8".into(), String::new(), "Build road".into(), String::new()];
    let (shown, cursors) = visible_action_log(&labels);
    assert_eq!(shown, vec!["Roll 8".to_string(), "Build road".to_string()]);
    assert_eq!(cursors, vec![1, 3]);
    let (none, no_cursors) = visible_action_log(&Vec::new());
    assert!(none.is_empty() && no_cursors.is_empty());
}

#[test]
fn cursors_past_the_end_are_refused() {
    assert_eq!(check_history_cursor(3, 3), Ok(()));
    assert_eq!(check_history_cursor(0, 0), Ok(()));
    assert_eq!(
        check_history_cursor(12, 3),
        Err("History cursor 12 is past the end of the game (3)".to_string())
    );
}
