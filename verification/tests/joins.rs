use holdem::table::model::{JoinError, Table};
use holdem::table::repository::TableRepository;
use holdem::table::service::{
    Join, JoinPhase, JoinStep, StoreReply, TableService, MAX_JOIN_ATTEMPTS,
};

fn service() -> TableService {
    TableService::new(TableRepository::new("tables".to_string()))
}

fn names(prefix: &str, count: usize) -> Vec<String> {
    (0..count).map(|i| format!("{}{}", prefix, i)).collect()
}

/// Answers the pending request of a join against a table held in memory.
fn answer(table: &mut Table, step: &JoinStep) -> StoreReply {
    match step {
        JoinStep::Load(_) => StoreReply::Found(vec![table.clone()]),
        JoinStep::Append(request) => {
            let player = match &request.expression_attribute_values[1].value {
                holdem::store::Attr::S(player) => player.clone(),
                other => panic!("unexpected value {:?}", other),
            };
            match table.seat(&player) {
                Ok(()) => StoreReply::Written,
                Err(_) => StoreReply::Rejected,
            }
        }
        JoinStep::Done(_) => panic!("the join is over"),
    }
}

/// Runs the joins of `players` against one table, one request per join in
/// turn, and returns their results in the order of the players.
fn run_round_robin(table: &mut Table, players: &[String]) -> Vec<Result<(), JoinError>> {
    let mut service = service();
    let mut joins: Vec<(Join, JoinStep)> = players
        .iter()
        .map(|player| service.add_player_to_table(&table.id.clone(), player))
        .collect();
    loop {
        let mut moved = false;
        for slot in joins.iter_mut() {
            if let JoinStep::Done(_) = slot.1 {
                continue;
            }
            let reply = answer(table, &slot.1);
            *slot = service.resume_join(slot.0.clone(), reply);
            moved = true;
        }
        if !moved {
            break;
        }
    }
    joins
        .into_iter()
        .map(|(_, step)| match step {
            JoinStep::Done(result) => result,
            other => panic!("unfinished join {:?}", other),
        })
        .collect()
}

#[test]
fn join_begins_with_a_read_of_the_table() {
    let (join, step) = service().add_player_to_table("t1", "p1");
    assert_eq!(join.table_id, "t1");
    assert_eq!(join.player_id, "p1");
    assert_eq!(join.rejected, 0);
    assert_eq!(join.phase, JoinPhase::Loading);
    assert_eq!(step, JoinStep::Load(TableRepository::new("tables".to_string()).find_table("t1")));
}

#[test]
fn join_of_a_free_seat_writes_and_succeeds() {
    let mut service = service();
    let (join, _) = service.add_player_to_table("t1", "p1");
    let table = Table::new("t1".to_string());
    let (join, step) = service.resume_join(join, StoreReply::Found(vec![table]));
    assert_eq!(join.phase, JoinPhase::Appending);
    assert_eq!(
        step,
        JoinStep::Append(TableRepository::new("tables".to_string()).add_player_to_table("t1", "p1"))
    );
    let (join, step) = service.resume_join(join, StoreReply::Written);
    assert_eq!(join.phase, JoinPhase::Finished(Ok(())));
    assert_eq!(step, JoinStep::Done(Ok(())));
}

#[test]
fn join_of_unknown_table_is_not_found() {
    let mut service = service();
    let (join, _) = service.add_player_to_table("t1", "p1");
    let (_, step) = service.resume_join(join, StoreReply::Found(Vec::new()));
    assert_eq!(step, JoinStep::Done(Err(JoinError::NotFound)));
    let (join, _) = service.add_player_to_table("t1", "p1");
    let other = Table::new("t2".to_string());
    let (_, step) = service.resume_join(join, StoreReply::Found(vec![other]));
    assert_eq!(step, JoinStep::Done(Err(JoinError::NotFound)));
}

#[test]
fn join_picks_the_table_by_its_id() {
    let mut service = service();
    let (join, _) = service.add_player_to_table("t2", "p1");
    let full = Table::with_roster("t1".to_string(), names("q", 10)).unwrap();
    let free = Table::new("t2".to_string());
    let (join, _) = service.resume_join(join, StoreReply::Found(vec![full, free]));
    assert_eq!(join.phase, JoinPhase::Appending);
}

#[test]
fn join_of_seated_player_is_already_seated_without_a_write() {
    let mut service = service();
    let (join, _) = service.add_player_to_table("t1", "p1");
    let table = Table::with_roster("t1".to_string(), vec!["p1".to_string()]).unwrap();
    let (_, step) = service.resume_join(join, StoreReply::Found(vec![table]));
    assert_eq!(step, JoinStep::Done(Err(JoinError::AlreadySeated)));
}

#[test]
fn join_of_full_table_is_table_full_without_a_write() {
    let mut service = service();
    let (join, _) = service.add_player_to_table("t1", "p1");
    let table = Table::with_roster("t1".to_string(), names("q", 10)).unwrap();
    let (_, step) = service.resume_join(join, StoreReply::Found(vec![table]));
    assert_eq!(step, JoinStep::Done(Err(JoinError::TableFull)));
}

#[test]
fn rejected_writes_are_retried_then_conflict() {
    assert_eq!(MAX_JOIN_ATTEMPTS, 3);
    let mut service = service();
    let table = Table::new("t1".to_string());
    let (mut join, mut step) = service.add_player_to_table("t1", "p1");
    for attempt in 1..=3u32 {
        assert!(matches!(step, JoinStep::Load(_)));
        let loaded = service.resume_join(join, StoreReply::Found(vec![table.clone()]));
        assert!(matches!(loaded.1, JoinStep::Append(_)));
        let rejected = service.resume_join(loaded.0, StoreReply::Rejected);
        join = rejected.0;
        step = rejected.1;
        if attempt < 3 {
            assert_eq!(join.rejected, attempt);
            assert_eq!(join.phase, JoinPhase::Loading);
        }
    }
    assert_eq!(step, JoinStep::Done(Err(JoinError::Conflict)));
    assert_eq!(join.phase, JoinPhase::Finished(Err(JoinError::Conflict)));
}

#[test]
fn store_failure_is_a_persistence_error() {
    let mut service = service();
    let (join, _) = service.add_player_to_table("t1", "p1");
    let (_, step) = service.resume_join(join, StoreReply::Failed);
    assert_eq!(step, JoinStep::Done(Err(JoinError::PersistenceError)));
    let (join, _) = service.add_player_to_table("t1", "p1");
    let (join, _) = service.resume_join(join, StoreReply::Found(vec![Table::new("t1".to_string())]));
    let (_, step) = service.resume_join(join, StoreReply::Failed);
    assert_eq!(step, JoinStep::Done(Err(JoinError::PersistenceError)));
}

#[test]
fn answer_that_does_not_fit_the_request_is_a_persistence_error() {
    let mut service = service();
    let (join, _) = service.add_player_to_table("t1", "p1");
    let (_, step) = service.resume_join(join, StoreReply::Written);
    assert_eq!(step, JoinStep::Done(Err(JoinError::PersistenceError)));
    let (join, _) = service.add_player_to_table("t1", "p1");
    let (join, _) = service.resume_join(join, StoreReply::Found(vec![Table::new("t1".to_string())]));
    let (_, step) = service.resume_join(join, StoreReply::Found(Vec::new()));
    assert_eq!(step, JoinStep::Done(Err(JoinError::PersistenceError)));
}

#[test]
fn finished_join_stays_finished() {
    let mut service = service();
    let (join, _) = service.add_player_to_table("t1", "p1");
    let (join, _) = service.resume_join(join, StoreReply::Found(Vec::new()));
    let (join, step) = service.resume_join(join, StoreReply::Written);
    assert_eq!(join.phase, JoinPhase::Finished(Err(JoinError::NotFound)));
    assert_eq!(step, JoinStep::Done(Err(JoinError::NotFound)));
}

#[test]
fn concurrent_joins_fill_exactly_the_free_seats() {
    for seated in 0..=10usize {
        for joiners in 0..=12usize {
            let mut table = Table::with_roster("t".to_string(), names("s", seated)).unwrap();
            let players = names("j", joiners);
            let results = run_round_robin(&mut table, &players);
            let free = 10 - seated;
            let succeeded = results.iter().filter(|r| r.is_ok()).count();
            assert_eq!(succeeded, free.min(joiners));
            assert!(results.iter().all(|r| matches!(
                r,
                Ok(()) | Err(JoinError::TableFull) | Err(JoinError::Conflict)
            )));
            assert_eq!(table.player_ids.len(), seated + succeeded);
            assert!(table.is_wf());
        }
    }
}

#[test]
fn three_joiners_for_two_seats() {
    let mut table = Table::with_roster("t".to_string(), names("s", 8)).unwrap();
    let players = names("j", 3);
    let results = run_round_robin(&mut table, &players);
    assert_eq!(results, vec![Ok(()), Ok(()), Err(JoinError::TableFull)]);
    let mut expected = names("s", 8);
    expected.push("j0".to_string());
    expected.push("j1".to_string());
    assert_eq!(table.player_ids, expected);
}

#[test]
fn same_player_joining_twice_at_once_is_seated_once() {
    let mut table = Table::new("t".to_string());
    let players = vec!["p1".to_string(), "p1".to_string()];
    let results = run_round_robin(&mut table, &players);
    assert_eq!(results, vec![Ok(()), Err(JoinError::AlreadySeated)]);
    assert_eq!(table.player_ids, vec!["p1".to_string()]);
}
