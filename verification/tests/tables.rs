use holdem::get_table_actions;
use holdem::store::{Attr, Field, StoreConfig};
use holdem::table::model::{JoinError, Table, MAX_SEATS};
use holdem::table::repository::TableRepository;
use holdem::table::service::TableService;

fn n(number: i64) -> Attr {
    Attr::N(number.to_string())
}

fn names(count: usize) -> Vec<String> {
    (0..count).map(|i| format!("p{}", i + 1)).collect()
}

fn table_with(count: usize) -> Table {
    Table::with_roster("t".to_string(), names(count)).unwrap()
}

#[test]
fn table_actions_are_join_and_create() {
    assert_eq!(get_table_actions(), vec!["Join Table", "Create Table"]);
}

#[test]
fn new_table_is_empty() {
    let table = Table::new("t1".to_string());
    assert_eq!(table.id(), "t1");
    assert!(table.player_ids().is_empty());
    assert!(table.is_wf());
    assert!(table.has_space());
}

#[test]
fn created_table_has_fresh_id_and_empty_roster() {
    let mut service = TableService::new(TableRepository::new("tables".to_string()));
    let first = service.create_table();
    let second = service.create_table();
    assert!(first.player_ids.is_empty());
    assert_eq!(first.id.len(), 36);
    assert_eq!(second.id.len(), 36);
    assert_ne!(first.id, second.id);
    let parsed = uuid::Uuid::parse_str(&first.id).unwrap();
    assert_eq!(parsed.get_version_num(), 4);
    assert_eq!(parsed.to_string(), first.id);
}

#[test]
fn eleventh_join_fails_with_table_full() {
    let mut table = TableRepository::new("tables".to_string()).create_table();
    assert_eq!(table.player_ids, Vec::<String>::new());
    assert_eq!(table.seat("p1"), Ok(()));
    assert_eq!(table.player_ids, vec!["p1".to_string()]);
    for i in 2..=10 {
        assert_eq!(table.seat(&format!("p{}", i)), Ok(()));
    }
    assert_eq!(table.player_ids, names(10));
    assert_eq!(table.seat("p11"), Err(JoinError::TableFull));
    assert_eq!(table.player_ids, names(10));
    assert!(table.is_wf());
}

#[test]
fn second_join_of_same_player_is_already_seated() {
    let mut table = Table::new("t".to_string());
    assert_eq!(table.seat("p1"), Ok(()));
    assert_eq!(table.seat("p1"), Err(JoinError::AlreadySeated));
    assert_eq!(table.seat("p2"), Ok(()));
    assert_eq!(table.seat("p1"), Err(JoinError::AlreadySeated));
    assert_eq!(table.player_ids, vec!["p1".to_string(), "p2".to_string()]);
}

#[test]
fn seated_player_at_full_table_is_already_seated() {
    let mut table = table_with(MAX_SEATS);
    assert_eq!(table.seat("p10"), Err(JoinError::AlreadySeated));
    assert_eq!(table.seat("p3"), Err(JoinError::AlreadySeated));
    assert_eq!(table.seat("other"), Err(JoinError::TableFull));
    assert_eq!(table.player_ids.len(), 10);
}

#[test]
fn is_seated_finds_only_seated_players() {
    let table = table_with(3);
    assert!(table.is_seated("p1"));
    assert!(table.is_seated("p3"));
    assert!(!table.is_seated("p4"));
    assert!(!table.is_seated(""));
}

#[test]
fn has_space_until_ten_are_seated() {
    assert!(table_with(0).has_space());
    assert!(table_with(9).has_space());
    assert!(!table_with(10).has_space());
}

#[test]
fn with_roster_refuses_invalid_rosters() {
    assert!(Table::with_roster("t".to_string(), names(10)).is_some());
    assert!(Table::with_roster("t".to_string(), names(11)).is_none());
    let twice = vec!["a".to_string(), "b".to_string(), "a".to_string()];
    assert!(Table::with_roster("t".to_string(), twice).is_none());
    let kept = Table::with_roster("t".to_string(), names(2)).unwrap();
    assert_eq!(kept.id, "t");
    assert_eq!(kept.player_ids, names(2));
}

#[test]
fn is_wf_tests_the_roster_invariant() {
    let mut table = Table { id: "t".to_string(), player_ids: names(11) };
    assert!(!table.is_wf());
    table.player_ids = vec!["a".to_string(), "a".to_string()];
    assert!(!table.is_wf());
    table.player_ids = names(10);
    assert!(table.is_wf());
}

#[test]
fn duplicate_copies_the_table() {
    let table = table_with(4);
    assert_eq!(table.duplicate(), table);
}

#[test]
fn join_request_is_a_conditional_append() {
    let request = TableRepository::new("tables".to_string()).add_player_to_table("t1", "p1");
    assert_eq!(request.table_name, "tables");
    assert_eq!(
        request.key,
        vec![Field { name: "id".to_string(), value: Attr::S("t1".to_string()) }]
    );
    assert_eq!(
        request.update_expression,
        "SET player_ids = list_append(player_ids, :player_id)"
    );
    assert_eq!(
        request.condition_expression,
        "size(player_ids) < :max_players AND NOT contains(player_ids, :player)"
    );
    assert_eq!(
        request.expression_attribute_values,
        vec![
            Field {
                name: ":player_id".to_string(),
                value: Attr::L(vec![Attr::S("p1".to_string())]),
            },
            Field { name: ":player".to_string(), value: Attr::S("p1".to_string()) },
            Field { name: ":max_players".to_string(), value: n(10) },
        ]
    );
}

#[test]
fn space_request_filters_by_roster_size() {
    let service = TableService::new(TableRepository::new("tables".to_string()));
    let request = service.get_tables_with_space();
    assert_eq!(request.table_name, "tables");
    assert_eq!(request.filter_expression, "size(player_ids) < :max_players");
    assert_eq!(
        request.expression_attribute_values,
        vec![Field { name: ":max_players".to_string(), value: n(10) }]
    );
}

#[test]
fn find_table_request_filters_by_id() {
    let request = TableRepository::new("tables".to_string()).find_table("t9");
    assert_eq!(request.table_name, "tables");
    assert_eq!(request.filter_expression, "id = :id");
    assert_eq!(
        request.expression_attribute_values,
        vec![Field { name: ":id".to_string(), value: Attr::S("t9".to_string()) }]
    );
}

#[test]
fn joinable_keeps_tables_with_space_in_order() {
    let service = TableService::new(TableRepository::new("tables".to_string()));
    let a = Table::with_roster("a".to_string(), names(9)).unwrap();
    let b = Table::with_roster("b".to_string(), names(10)).unwrap();
    let c = Table::with_roster("c".to_string(), names(0)).unwrap();
    let open = service.joinable(&vec![a.clone(), b, c.clone()]);
    assert_eq!(open, vec![a, c]);
    assert_eq!(service.joinable(&Vec::new()), Vec::<Table>::new());
}

#[test]
fn local_store_config() {
    let config = StoreConfig::local();
    assert_eq!(config.region, "us-east-2");
    assert_eq!(config.endpoint, "http://localhost:8000");
    assert_eq!(config.access_key_id, "123");
    assert_eq!(config.secret_access_key, "xyz");
}

#[test]
fn coordinator_keeps_its_repository() {
    let repository = TableRepository::new("tables".to_string());
    assert_eq!(repository.table_name, "tables");
    assert_eq!(TableService::new(repository.clone()).table_repository, repository);
}
