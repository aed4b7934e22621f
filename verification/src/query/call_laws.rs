//! What holds of every call of the functions that read the results of queries.
use crate::query::laws::{
    are_rows, is_first_member, is_no_member, is_table_of, law_cells_keep_their_texts,
    law_count_is_the_row_count, law_json_is_its_members, law_no_rows_make_an_empty_table,
    law_no_table_without_its_members, law_rows_of_strings_make_a_table, lemma_first_member,
};
use crate::query::{
    json_members, law_rows_are_kept, members_view, Count, Member, QueryError, Table,
};
use vstd::prelude::*;

verus! {

/// If the `row_count` is not 0 and the `rows` are objects with the same number of members, all of
/// them strings, a table is read: each text in its place, and the names of the first row as columns.
/// If the `row_count` is 0 the table is empty.
pub proof fn law_tables_are_read(
    members: Vec<Member>,
    table: Result<Table, QueryError>,
    count: int,
    at: int,
    width: nat,
)
    requires
        call_ensures(Table::from_members, (Some(members),), table),
        is_first_member(members_view(Some(members))->0, "row_count"@, count),
    ensures
        ({
            let members = members_view(Some(members))->0;
            &&& members[count].signed == Some(0i64) ==> (table matches Ok(table)
                && table.columns@.len() == 0 && table.rows@.len() == 0)
            &&& members[count].signed != Some(0i64) && is_first_member(members, "rows"@, at) && (
            members[at].elements matches Some(rows) && are_rows(rows, width)) ==> (table matches Ok(
                table,
            ) && is_table_of(table@, members[at].elements->0, width))
            &&& members[count].signed != Some(0i64) && is_no_member(members, "rows"@) ==> (
            table matches Err(QueryError::MissingRows))
            &&& members[count].signed != Some(0i64) && is_first_member(members, "rows"@, at)
                && members[at].elements is None ==> (table matches Err(QueryError::ExpectedArray))
        }),
{
    let views = members_view(Some(members))->0;
    law_no_table_without_its_members(views, count, at);
    if views[count].signed == Some(0i64) {
        law_no_rows_make_an_empty_table(views, count);
        let table = table->Ok_0;
        assert(table@.columns.len() == table.columns@.len());
        assert(table@.rows.len() == table.rows@.len());
    } else if is_first_member(views, "rows"@, at) && (views[at].elements matches Some(rows)
        && are_rows(rows, width)) {
        law_rows_of_strings_make_a_table(views, count, at, width);
    }
}

/// Without an object, or without a `row_count`, there is neither a table nor a count.
pub proof fn law_row_count_has_to_be_there(
    members: Vec<Member>,
    table: Result<Table, QueryError>,
    count: Result<Count, QueryError>,
    no_table: Result<Table, QueryError>,
    no_count: Result<Count, QueryError>,
)
    requires
        call_ensures(Table::from_members, (Some(members),), table),
        call_ensures(Count::from_members, (Some(members),), count),
        call_ensures(Table::from_members, (None::<Vec<Member>>,), no_table),
        call_ensures(Count::from_members, (None::<Vec<Member>>,), no_count),
    ensures
        no_table matches Err(QueryError::ExpectedObject),
        no_count matches Err(QueryError::ExpectedObject),
        is_no_member(members_view(Some(members))->0, "row_count"@) ==> {
            &&& table matches Err(QueryError::MissingRowCount)
            &&& count matches Err(QueryError::MissingRowCount)
        },
{
    let views = members_view(Some(members))->0;
    law_no_table_without_its_members(views, 0, 0);
    law_count_is_the_row_count(views, 0);
}

/// The count is the `row_count`, if that is an unsigned number that fits.
pub proof fn law_counts_are_read(members: Vec<Member>, count: Result<Count, QueryError>, at: int)
    requires
        call_ensures(Count::from_members, (Some(members),), count),
        is_first_member(members_view(Some(members))->0, "row_count"@, at),
    ensures
        match members_view(Some(members))->0[at].unsigned {
            Some(n) => n <= usize::MAX ==> (count matches Ok(count) && count@ == n),
            None => count matches Err(QueryError::ExpectedUnsigned),
        },
{
    law_count_is_the_row_count(members_view(Some(members))->0, at);
}

/// From JSON comes what comes from its members, and from what is not JSON nothing.
pub proof fn law_json_is_read_by_its_members(
    json: &[u8],
    members: Option<Vec<Member>>,
    table: Result<Table, QueryError>,
    count: Result<Count, QueryError>,
    member_table: Result<Table, QueryError>,
    member_count: Result<Count, QueryError>,
)
    requires
        call_ensures(Table::from_json, (json,), table),
        call_ensures(Count::from_json, (json,), count),
        call_ensures(Table::from_members, (members,), member_table),
        call_ensures(Count::from_members, (members,), member_count),
    ensures
        json_members(json@) is None ==> {
            &&& table matches Err(QueryError::Json(_))
            &&& count matches Err(QueryError::Json(_))
        },
        json_members(json@) == Some(members_view(members)) ==> {
            &&& table is Ok <==> member_table is Ok
            &&& table is Ok ==> table->Ok_0@ == member_table->Ok_0@
            &&& table is Err ==> table->Err_0@ == member_table->Err_0@
            &&& count is Ok <==> member_count is Ok
            &&& count is Ok ==> count->Ok_0@ == member_count->Ok_0@
            &&& count is Err ==> count->Err_0@ == member_count->Err_0@
        },
{
    law_json_is_its_members(members_view(members));
}

/// A table that is read has the text of each cell in its place.
pub proof fn law_tables_keep_the_texts(
    members: Vec<Member>,
    table: Table,
    count: int,
    at: int,
    i: int,
    j: int,
)
    requires
        call_ensures(Table::from_members, (Some(members),), Ok(table)),
        is_first_member(members_view(Some(members))->0, "row_count"@, count),
        members_view(Some(members))->0[count].signed != Some(0i64),
        is_first_member(members_view(Some(members))->0, "rows"@, at),
    ensures
        members_view(Some(members))->0[at].elements matches Some(rows) && {
            &&& table@.rows.len() == rows.len()
            &&& 0 <= i < rows.len() ==> (rows[i] matches Some(cells) && table@.rows[i].len()
                == cells.len() && (0 <= j < cells.len() ==> cells[j].text == Some(
                table@.rows[i][j],
            )))
        },
{
    let views = members_view(Some(members))->0;
    law_no_table_without_its_members(views, count, at);
    lemma_first_member(views, "row_count"@, count);
    lemma_first_member(views, "rows"@, at);
    let rows = views[at].elements->0;
    law_rows_are_kept(rows);
    if 0 <= i < rows.len() {
        law_cells_keep_their_texts(rows, i, j);
    }
}

} // verus!
