//! What holds of the results of queries, told by the members of the JSON that they come as.
use crate::query::{
    cell_names, cell_texts, columns_with, count_of, count_of_json, find_member, law_rows_are_kept,
    lemma_table_of_rows_prefix, table_of, table_of_json, table_of_rows, table_with, CellView,
    MemberView, QueryFault, TableView,
};
use vstd::prelude::*;

verus! {

/// The member at `i` is the first with the given name.
pub open spec fn is_first_member(members: Seq<MemberView>, name: Seq<char>, i: int) -> bool {
    &&& 0 <= i < members.len()
    &&& members[i].name == name
    &&& forall|j: int| 0 <= j < i ==> (#[trigger] members[j]).name != name
}

/// No member has the given name.
pub open spec fn is_no_member(members: Seq<MemberView>, name: Seq<char>) -> bool {
    forall|i: int| 0 <= i < members.len() ==> (#[trigger] members[i]).name != name
}

/// The member that is found is the first with the name.
pub proof fn lemma_first_member(members: Seq<MemberView>, name: Seq<char>, i: int)
    ensures
        is_first_member(members, name, i) ==> find_member(members, name) == Some(members[i]),
        is_no_member(members, name) ==> find_member(members, name) is None,
    decreases members.len(),
{
    if members.len() > 0 && members.first().name != name {
        let rest = members.drop_first();
        lemma_first_member(rest, name, i - 1);
        if is_first_member(members, name, i) {
            assert(i > 0);
            assert forall|j: int| 0 <= j < i - 1 implies (#[trigger] rest[j]).name != name by {
                assert(rest[j] == members[j + 1]);
            }
            assert(rest[i - 1] == members[i]);
        }
        if is_no_member(members, name) {
            assert forall|j: int| 0 <= j < rest.len() implies (#[trigger] rest[j]).name != name by {
                assert(rest[j] == members[j + 1]);
            }
        }
    } else if members.len() > 0 {
        assert(members[0].name == name);
    }
}

/// All rows are objects with `width` members, all of them strings, whatever their texts.
pub open spec fn are_rows(rows: Seq<Option<Seq<CellView>>>, width: nat) -> bool {
    forall|i: int|
        0 <= i < rows.len() ==> (#[trigger] rows[i] matches Some(cells) && is_row(cells, width))
}

/// A row of `width` strings.
pub open spec fn is_row(cells: Seq<CellView>, width: nat) -> bool {
    cells.len() == width && forall|j: int| 0 <= j < cells.len() ==> (#[trigger] cells[j]).text is Some
}

/// The table has the texts of the rows in its rows, each in its place, and the names of the first
/// row as its columns.
pub open spec fn is_table_of(table: TableView, rows: Seq<Option<Seq<CellView>>>, width: nat) -> bool {
    &&& table.rows.len() == rows.len()
    &&& forall|i: int| 0 <= i < rows.len() ==> (#[trigger] table.rows[i]).len() == width
    &&& forall|i: int, j: int|
        0 <= i < rows.len() && 0 <= j < width ==> Some(#[trigger] table.rows[i][j])
            == rows[i]->0[j].text
    &&& rows.len() == 0 ==> table.columns.len() == 0
    &&& rows.len() > 0 ==> table.columns.len() == width
    &&& forall|j: int|
        0 <= j < width && rows.len() > 0 ==> #[trigger] table.columns[j] == rows[0]->0[j].name
}

proof fn lemma_rows_make_a_table(rows: Seq<Option<Seq<CellView>>>, width: nat)
    requires
        are_rows(rows, width),
    ensures
        table_of_rows(rows) is Ok,
        is_table_of(table_of_rows(rows)->Ok_0, rows, width),
    decreases rows.len(),
{
    if rows.len() > 0 {
        let before = rows.drop_last();
        assert forall|i: int| 0 <= i < before.len() implies (#[trigger] before[i] matches Some(cells)
            && is_row(cells, width)) by {
            assert(before[i] == rows[i]);
        }
        lemma_rows_make_a_table(before, width);
        let earlier = table_of_rows(before)->Ok_0;
        let last = rows.len() - 1;
        assert(rows[last] matches Some(cells) && is_row(cells, width));
        let cells = rows[last]->0;
        assert(rows.last() == Some(cells));
        let columns = columns_with(earlier.columns, cells);
        assert(cell_names(cells).len() == width);
        assert(columns.len() == width);
        assert(cell_texts(cells) is Some);
        let texts = cell_texts(cells)->0;
        let table = table_of_rows(rows)->Ok_0;
        assert(table_of_rows(rows) == table_with(earlier, rows.last()));
        assert(table.rows == earlier.rows.push(texts));
        assert(table.columns == columns);
        assert forall|i: int| 0 <= i < rows.len() implies (#[trigger] table.rows[i]).len()
            == width by {
            if i < before.len() {
                assert(table.rows[i] == earlier.rows[i]);
            }
        }
        assert forall|i: int, j: int| 0 <= i < rows.len() && 0 <= j < width implies Some(
            #[trigger] table.rows[i][j],
        ) == rows[i]->0[j].text by {
            if i < before.len() {
                assert(table.rows[i] == earlier.rows[i]);
                assert(before[i] == rows[i]);
                assert(Some(earlier.rows[i][j]) == before[i]->0[j].text);
            } else {
                assert(cells[j].text is Some);
            }
        }
        assert forall|j: int| 0 <= j < width && rows.len() > 0 implies #[trigger] table.columns[j]
            == rows[0]->0[j].name by {
            if before.len() > 0 {
                assert(before[0] == rows[0]);
                assert(earlier.columns[j] == before[0]->0[j].name);
            }
        }
    }
}

/// If the `row_count` is not 0 and the `rows` are objects with the same number of members, all of
/// them strings, they make a table with as many rows: each text in its place, and the names of the
/// members of the first row as the columns.
pub proof fn law_rows_of_strings_make_a_table(
    members: Seq<MemberView>,
    count: int,
    at: int,
    width: nat,
)
    requires
        is_first_member(members, "row_count"@, count),
        members[count].signed != Some(0i64),
        is_first_member(members, "rows"@, at),
        members[at].elements matches Some(rows) && are_rows(rows, width),
    ensures
        table_of(Some(members)) matches Ok(table) && is_table_of(
            table,
            members[at].elements->0,
            width,
        ),
{
    lemma_first_member(members, "row_count"@, count);
    lemma_first_member(members, "rows"@, at);
    lemma_rows_make_a_table(members[at].elements->0, width);
}

/// If the `row_count` is 0 the table is empty, whatever the `rows` are.
pub proof fn law_no_rows_make_an_empty_table(members: Seq<MemberView>, count: int)
    requires
        is_first_member(members, "row_count"@, count),
        members[count].signed == Some(0i64),
    ensures
        table_of(Some(members)) matches Ok(table) && table.columns.len() == 0 && table.rows.len()
            == 0,
{
    lemma_first_member(members, "row_count"@, count);
}

/// There is no table without an object, without a `row_count`, and, if that is not 0, without `rows`
/// that are an array. The error says what is missing.
pub proof fn law_no_table_without_its_members(members: Seq<MemberView>, count: int, at: int)
    ensures
        table_of(None) == Err::<TableView, QueryFault>(QueryFault::ExpectedObject),
        is_no_member(members, "row_count"@) ==> table_of(Some(members)) == Err::<
            TableView,
            QueryFault,
        >(QueryFault::MissingRowCount),
        is_first_member(members, "row_count"@, count) && members[count].signed != Some(0i64)
            && is_no_member(members, "rows"@) ==> table_of(Some(members)) == Err::<
            TableView,
            QueryFault,
        >(QueryFault::MissingRows),
        is_first_member(members, "row_count"@, count) && members[count].signed != Some(0i64)
            && is_first_member(members, "rows"@, at) && members[at].elements is None ==> table_of(
            Some(members),
        ) == Err::<TableView, QueryFault>(QueryFault::ExpectedArray),
{
    lemma_first_member(members, "row_count"@, count);
    lemma_first_member(members, "rows"@, at);
}

/// What is wrong with a row that comes after rows of `width` strings: it is no object, it has another
/// number of members, or one of them is no string.
pub open spec fn is_wrong_row(row: Option<Seq<CellView>>, width: nat, fault: QueryFault) -> bool {
    match row {
        None => fault == QueryFault::ExpectedRowObject,
        Some(cells) => {
            ||| cells.len() != width && fault == (QueryFault::Inconsistent {
                columns: width,
                row: cells.len(),
            })
            ||| cells.len() == width && fault == QueryFault::ExpectedString && exists|j: int|
                0 <= j < cells.len() && (#[trigger] cells[j]).text is None
        },
    }
}

/// The first row that does not fit, after rows with the same number of strings, makes the whole an
/// error, whatever comes after it.
pub proof fn law_first_wrong_row_is_an_error(
    rows: Seq<Option<Seq<CellView>>>,
    at: int,
    width: nat,
    fault: QueryFault,
)
    requires
        0 <= at < rows.len(),
        at > 0 && width > 0,
        are_rows(rows.take(at), width),
        is_wrong_row(rows[at], width, fault),
    ensures
        table_of_rows(rows) == Err::<TableView, QueryFault>(fault),
{
    let good = rows.take(at);
    let upto = rows.take(at + 1);
    lemma_rows_make_a_table(good, width);
    assert(upto.drop_last() =~= good);
    assert(upto.last() == rows[at]);
    let table = table_of_rows(good)->Ok_0;
    assert(table.columns.len() == width);
    if let Some(cells) = rows[at] {
        if cells.len() == width {
            let j = choose|j: int| 0 <= j < cells.len() && (#[trigger] cells[j]).text is None;
            assert(cells[j].text is None);
            assert(cell_texts(cells) is None);
        }
    }
    assert(table_of_rows(upto) == Err::<TableView, QueryFault>(fault));
    lemma_table_of_rows_prefix(upto, rows.skip(at + 1));
    assert(upto + rows.skip(at + 1) =~= rows);
}

/// A first row that is no object, or in which there is anything but strings, is an error.
pub proof fn law_first_row_has_to_be_strings(rows: Seq<Option<Seq<CellView>>>)
    requires
        rows.len() > 0,
    ensures
        rows[0] is None ==> table_of_rows(rows) == Err::<TableView, QueryFault>(
            QueryFault::ExpectedRowObject,
        ),
        (rows[0] matches Some(cells) && exists|j: int|
            0 <= j < cells.len() && (#[trigger] cells[j]).text is None) ==> table_of_rows(rows)
            == Err::<TableView, QueryFault>(QueryFault::ExpectedString),
{
    let upto = rows.take(1);
    assert(upto.drop_last() =~= Seq::<Option<Seq<CellView>>>::empty());
    assert(upto.last() == rows[0]);
    assert(table_of_rows(upto.drop_last()) == Ok::<TableView, QueryFault>(
        TableView { columns: Seq::empty(), rows: Seq::empty() },
    ));
    if let Some(cells) = rows[0] {
        assert(cell_names(cells).len() == cells.len());
        if exists|j: int| 0 <= j < cells.len() && (#[trigger] cells[j]).text is None {
            let j = choose|j: int| 0 <= j < cells.len() && (#[trigger] cells[j]).text is None;
            assert(cells[j].text is None);
            assert(cell_texts(cells) is None);
        }
    }
    lemma_table_of_rows_prefix(upto, rows.skip(1));
    assert(upto + rows.skip(1) =~= rows);
}

/// A table that is read has the texts of all cells of all rows, each in its place, and no row in it
/// was anything but an object of strings.
pub proof fn law_cells_keep_their_texts(rows: Seq<Option<Seq<CellView>>>, i: int, j: int)
    requires
        0 <= i < rows.len(),
    ensures
        table_of_rows(rows) matches Ok(table) ==> {
            &&& table.rows.len() == rows.len()
            &&& rows[i] matches Some(cells) && table.rows[i].len() == cells.len() && (0 <= j
                < cells.len() ==> cells[j].text == Some(table.rows[i][j]))
        },
{
    law_rows_are_kept(rows);
    if let Ok(table) = table_of_rows(rows) {
        assert(rows[i] matches Some(cells) && cell_texts(cells) == Some(table.rows[i]));
        let cells = rows[i]->0;
        if 0 <= j < cells.len() {
            assert(cells[j].text is Some);
        }
    }
}

/// The number of rows is the `row_count`, if that is an unsigned number that fits.
pub proof fn law_count_is_the_row_count(members: Seq<MemberView>, count: int)
    ensures
        count_of(None) == Err::<usize, QueryFault>(QueryFault::ExpectedObject),
        is_no_member(members, "row_count"@) ==> count_of(Some(members)) == Err::<usize, QueryFault>(
            QueryFault::MissingRowCount,
        ),
        is_first_member(members, "row_count"@, count) ==> match members[count].unsigned {
            Some(n) => if n <= usize::MAX {
                count_of(Some(members)) matches Ok(found) && found == n
            } else {
                count_of(Some(members)) == Err::<usize, QueryFault>(QueryFault::TooLarge)
            },
            None => count_of(Some(members)) == Err::<usize, QueryFault>(
                QueryFault::ExpectedUnsigned,
            ),
        },
{
    lemma_first_member(members, "row_count"@, count);
}

/// What is not JSON is neither a table nor a count, and what is JSON is what its members are.
pub proof fn law_json_is_its_members(members: Option<Seq<MemberView>>)
    ensures
        table_of_json(None) == Err::<TableView, QueryFault>(QueryFault::Json),
        table_of_json(Some(members)) == table_of(members),
        count_of_json(None) == Err::<usize, QueryFault>(QueryFault::Json),
        count_of_json(Some(members)) == count_of(members),
{
}

} // verus!
