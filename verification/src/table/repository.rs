//! Storing tables: the requests that create, list and join them.

use crate::ident::{random_id, ID_LENGTH};
use crate::number::{decimal, format_number};
use crate::store::{
    attrs_view, field, fields_view, lemma_list_view, named, Attr, AttrView, Field, ScanRequest,
    ScanRequestView, UpdateRequest, UpdateRequestView,
};
use crate::table::model::{Table, MAX_SEATS};
use vstd::prelude::*;

verus! {

/// The change that a join asks for: the player is appended to the roster.
pub open spec fn join_update() -> Seq<char> {
    "SET player_ids = list_append(player_ids, :player_id)"@
}

/// The condition under which a join commits: a seat is free and the player
/// is not seated yet, both at write time.
pub open spec fn join_condition() -> Seq<char> {
    "size(player_ids) < :max_players AND NOT contains(player_ids, :player)"@
}

/// The filter that picks the tables with a free seat.
pub open spec fn space_filter() -> Seq<char> {
    "size(player_ids) < :max_players"@
}

/// The filter that picks one table.
pub open spec fn table_filter() -> Seq<char> {
    "id = :id"@
}

/// The conditional write that seats `player_id` at the table `table_id`.
pub open spec fn join_request(
    table_name: Seq<char>,
    table_id: Seq<char>,
    player_id: Seq<char>,
) -> UpdateRequestView {
    UpdateRequestView {
        table_name,
        key: seq![named("id"@, AttrView::S(table_id))],
        update_expression: join_update(),
        condition_expression: join_condition(),
        expression_attribute_values: seq![
            named(":player_id"@, AttrView::L(seq![AttrView::S(player_id)])),
            named(":player"@, AttrView::S(player_id)),
            named(":max_players"@, AttrView::N(decimal(MAX_SEATS as int))),
        ],
    }
}

/// The query for the tables with a free seat.
pub open spec fn space_request(table_name: Seq<char>) -> ScanRequestView {
    ScanRequestView {
        table_name,
        filter_expression: space_filter(),
        expression_attribute_values: seq![
            named(":max_players"@, AttrView::N(decimal(MAX_SEATS as int))),
        ],
    }
}

/// The query for the table `table_id`.
pub open spec fn table_request(table_name: Seq<char>, table_id: Seq<char>) -> ScanRequestView {
    ScanRequestView {
        table_name,
        filter_expression: table_filter(),
        expression_attribute_values: seq![named(":id"@, AttrView::S(table_id))],
    }
}

/// The requests that keep tables in one table of the store.
#[derive(Clone, Debug, PartialEq, Eq)]
pub struct TableRepository {
    pub table_name: String,
}

impl TableRepository {
    /// The repository of the tables kept in the store's table `table_name`.
    pub fn new(table_name: String) -> (repository: TableRepository)
        ensures
            repository.table_name == table_name,
    {
        TableRepository { table_name }
    }

    /// A new table under a fresh identifier, with nobody seated.
    pub fn create_table(&self) -> (table: Table)
        ensures
            table@.player_ids == Seq::<Seq<char>>::empty(),
            table@.id.len() == ID_LENGTH,
            table.wf(),
    {
        Table::new(random_id())
    }

    /// The conditional write that seats the player at the table.
    pub fn add_player_to_table(&self, table_id: &str, player_id: &str) -> (request: UpdateRequest)
        ensures
            request@ == join_request(self.table_name@, table_id@, player_id@),
    {
        let mut key: Vec<Field> = Vec::new();
        key.push(field("id", Attr::S(table_id.to_owned())));
        let mut appended: Vec<Attr> = Vec::new();
        appended.push(Attr::S(player_id.to_owned()));
        proof {
            lemma_list_view(appended);
            assert(attrs_view(appended@) =~= seq![AttrView::S(player_id@)]);
        }
        let mut values: Vec<Field> = Vec::new();
        values.push(field(":player_id", Attr::L(appended)));
        values.push(field(":player", Attr::S(player_id.to_owned())));
        values.push(field(":max_players", Attr::N(format_number(MAX_SEATS as i64))));
        proof {
            let model = join_request(self.table_name@, table_id@, player_id@);
            assert(fields_view(key@) =~= model.key);
            assert(fields_view(values@) =~= model.expression_attribute_values);
        }
        UpdateRequest {
            table_name: self.table_name.clone(),
            key,
            update_expression: "SET player_ids = list_append(player_ids, :player_id)".to_owned(),
            condition_expression:
                "size(player_ids) < :max_players AND NOT contains(player_ids, :player)".to_owned(),
            expression_attribute_values: values,
        }
    }

    /// The query for the tables with a free seat.
    pub fn get_tables_with_space(&self) -> (request: ScanRequest)
        ensures
            request@ == space_request(self.table_name@),
    {
        let mut values: Vec<Field> = Vec::new();
        values.push(field(":max_players", Attr::N(format_number(MAX_SEATS as i64))));
        assert(fields_view(values@) =~= space_request(
            self.table_name@,
        ).expression_attribute_values);
        ScanRequest {
            table_name: self.table_name.clone(),
            filter_expression: "size(player_ids) < :max_players".to_owned(),
            expression_attribute_values: values,
        }
    }

    /// The query for one table.
    pub fn find_table(&self, table_id: &str) -> (request: ScanRequest)
        ensures
            request@ == table_request(self.table_name@, table_id@),
    {
        let mut values: Vec<Field> = Vec::new();
        values.push(field(":id", Attr::S(table_id.to_owned())));
        assert(fields_view(values@) =~= table_request(
            self.table_name@,
            table_id@,
        ).expression_attribute_values);
        ScanRequest {
            table_name: self.table_name.clone(),
            filter_expression: "id = :id".to_owned(),
            expression_attribute_values: values,
        }
    }
}

} // verus!
