//! The results of queries, which come as JSON.
use crate::text::same_text;
use vstd::prelude::*;

pub mod call_laws;
pub mod laws;

verus! {

#[verifier::external_type_specification]
#[verifier::external_body]
pub struct ExJsonError(serde_json::Error);

/// A member of a JSON object that stands for a row: its name, and its text if it is a string.
#[derive(Debug)]
pub struct Cell {
    pub name: String,
    pub text: Option<String>,
}

/// A cell, as far as it is a value.
#[verifier::ext_equal]
pub struct CellView {
    pub name: Seq<char>,
    pub text: Option<Seq<char>>,
}

impl View for Cell {
    type V = CellView;

    open spec fn view(&self) -> CellView {
        CellView {
            name: self.name@,
            text: match self.text {
                Some(text) => Some(text@),
                None => None,
            },
        }
    }
}

/// Cells, as far as they are values.
pub open spec fn cells_view(cells: Option<Vec<Cell>>) -> Option<Seq<CellView>> {
    match cells {
        Some(cells) => Some(cells@.map_values(|cell: Cell| cell@)),
        None => None,
    }
}

/// A member of the JSON object that is the result of a query.
#[derive(Debug)]
pub struct Member {
    pub name: String,
    /// The value, if it is an integer that fits.
    pub signed: Option<i64>,
    /// The value, if it is an unsigned integer that fits.
    pub unsigned: Option<u64>,
    /// The elements of the value, if it is an array, and of each the members, if it is an object.
    pub elements: Option<Vec<Option<Vec<Cell>>>>,
}

/// A member, as far as it is a value.
#[verifier::ext_equal]
pub struct MemberView {
    pub name: Seq<char>,
    pub signed: Option<i64>,
    pub unsigned: Option<u64>,
    pub elements: Option<Seq<Option<Seq<CellView>>>>,
}

impl View for Member {
    type V = MemberView;

    open spec fn view(&self) -> MemberView {
        MemberView {
            name: self.name@,
            signed: self.signed,
            unsigned: self.unsigned,
            elements: match self.elements {
                Some(elements) => Some(
                    elements@.map_values(|cells: Option<Vec<Cell>>| cells_view(cells)),
                ),
                None => None,
            },
        }
    }
}

/// The members of a JSON object, as far as they are values.
pub open spec fn members_view(members: Option<Vec<Member>>) -> Option<Seq<MemberView>> {
    match members {
        Some(members) => Some(members@.map_values(|member: Member| member@)),
        None => None,
    }
}

/// What the `serde_json` crate makes of bytes: nothing where they are not JSON, and otherwise the
/// members of the object, if it is an object.
pub uninterp spec fn json_members(json: Seq<u8>) -> Option<Option<Seq<MemberView>>>;

/// No two names are the same.
pub open spec fn are_distinct(names: Seq<Seq<char>>) -> bool {
    forall|i: int, j: int| 0 <= i < j < names.len() ==> names[i] != names[j]
}

/// The names of cells.
pub open spec fn cell_names(cells: Seq<CellView>) -> Seq<Seq<char>> {
    cells.map_values(|cell: CellView| cell.name)
}

/// `serde_json::from_slice` into a `Value`, and of the value what a query result is made of: the
/// members of the object in the order of the map (`Value::as_object`, `Map::iter`), of each the
/// name, the integer that it is (`Value::as_i64`, `Value::as_u64`), and the elements of the array
/// that it is (`Value::as_array`), of each of those the members of the object that it is, and of
/// each of those the name and the string that it is (`Value::as_str`).
///
/// The result has a name only, but that the members of each of the inner objects have distinct
/// names. Which of the errors it is goes unsaid.
#[verifier::external_body]
fn parse_json(json: &[u8]) -> (members: Result<Option<Vec<Member>>, serde_json::Error>)
    ensures
        match members {
            Ok(members) => json_members(json@) == Some(members_view(members)),
            Err(_) => json_members(json@) is None,
        },
        members matches Ok(members) ==> (members_view(members) matches Some(members)
            ==> has_distinct_cells(members)),
{
    let value: serde_json::Value = serde_json::from_slice(json)?;
    Ok(value.as_object().map(|map| map.iter().map(|(name, value)| Member {
        name: name.clone(),
        signed: value.as_i64(),
        unsigned: value.as_u64(),
        elements: value.as_array().map(|array| array.iter().map(|element| {
            element.as_object().map(|map| map.iter().map(|(name, value)| Cell {
                name: name.clone(),
                text: value.as_str().map(str::to_owned),
            }).collect())
        }).collect()),
    }).collect()))
}

/// The cells of each row have distinct names.
pub open spec fn has_distinct_cells(members: Seq<MemberView>) -> bool {
    forall|i: int|
        0 <= i < members.len() ==> (#[trigger] members[i].elements matches Some(rows)
            ==> are_distinct_rows(rows))
}

/// The cells of each row have distinct names.
pub open spec fn are_distinct_rows(rows: Seq<Option<Seq<CellView>>>) -> bool {
    forall|i: int|
        0 <= i < rows.len() ==> (#[trigger] rows[i] matches Some(cells) ==> are_distinct(
            cell_names(cells),
        ))
}

/// What is wrong with the result of a query.
#[derive(Debug)]
pub enum QueryError {
    /// It is not JSON.
    Json(serde_json::Error),
    /// It is not an object.
    ExpectedObject,
    /// It has no `row_count`.
    MissingRowCount,
    /// It has no `rows`.
    MissingRows,
    /// Its `rows` are not an array.
    ExpectedArray,
    /// One of its rows is not an object.
    ExpectedRowObject,
    /// One of its rows has another number of columns than a row before.
    Inconsistent { columns: usize, row: usize },
    /// One of its cells is not a string.
    ExpectedString,
    /// Its `row_count` is not an unsigned integer.
    ExpectedUnsigned,
    /// Its `row_count` does not fit.
    TooLarge(std::num::TryFromIntError),
}

/// What is wrong with the result of a query, as far as it is a value.
pub enum QueryFault {
    Json,
    ExpectedObject,
    MissingRowCount,
    MissingRows,
    ExpectedArray,
    ExpectedRowObject,
    Inconsistent { columns: nat, row: nat },
    ExpectedString,
    ExpectedUnsigned,
    TooLarge,
}

impl View for QueryError {
    type V = QueryFault;

    open spec fn view(&self) -> QueryFault {
        match *self {
            QueryError::Json(_) => QueryFault::Json,
            QueryError::ExpectedObject => QueryFault::ExpectedObject,
            QueryError::MissingRowCount => QueryFault::MissingRowCount,
            QueryError::MissingRows => QueryFault::MissingRows,
            QueryError::ExpectedArray => QueryFault::ExpectedArray,
            QueryError::ExpectedRowObject => QueryFault::ExpectedRowObject,
            QueryError::Inconsistent { columns, row } => QueryFault::Inconsistent {
                columns: columns as nat,
                row: row as nat,
            },
            QueryError::ExpectedString => QueryFault::ExpectedString,
            QueryError::ExpectedUnsigned => QueryFault::ExpectedUnsigned,
            QueryError::TooLarge(_) => QueryFault::TooLarge,
        }
    }
}

/// A query result, as far as it is a value.
pub open spec fn query_outcome<T: View>(result: Result<T, QueryError>) -> Result<T::V, QueryFault> {
    match result {
        Ok(value) => Ok(value@),
        Err(error) => Err(error@),
    }
}

/// The member with the given name.
pub open spec fn find_member(members: Seq<MemberView>, name: Seq<char>) -> Option<MemberView>
    decreases members.len(),
{
    if members.len() == 0 {
        None
    } else if members.first().name == name {
        Some(members.first())
    } else {
        find_member(members.drop_first(), name)
    }
}

fn member<'a>(members: &'a Vec<Member>, name: &str) -> (found: Option<&'a Member>)
    ensures
        match found {
            Some(found) => find_member(members@.map_values(|member: Member| member@), name@)
                == Some(found@),
            None => find_member(members@.map_values(|member: Member| member@), name@) is None,
        },
{
    let ghost all = members@.map_values(|member: Member| member@);
    let mut i: usize = 0;
    assert(all.skip(0) =~= all);
    while i < members.len()
        invariant
            i <= members@.len(),
            all == members@.map_values(|member: Member| member@),
            find_member(all, name@) == find_member(all.skip(i as int), name@),
        decreases members@.len() - i,
    {
        assert(all.skip(i as int).first() == members@[i as int]@);
        assert(all.skip(i as int).drop_first() =~= all.skip(i + 1));
        if same_text(members[i].name.as_str(), name) {
            return Some(&members[i]);
        }
        i = i + 1;
    }
    None
}

/// A FreeSWITCH specific database query result.
#[derive(Clone, Debug)]
pub struct Table {
    pub columns: Vec<String>,
    pub rows: Vec<Vec<String>>,
}

/// A table, as far as it is a value.
#[verifier::ext_equal]
pub struct TableView {
    pub columns: Seq<Seq<char>>,
    pub rows: Seq<Seq<Seq<char>>>,
}

/// Texts, as far as they are values.
pub open spec fn texts_view(texts: Vec<String>) -> Seq<Seq<char>> {
    texts@.map_values(|text: String| text@)
}

impl View for Table {
    type V = TableView;

    open spec fn view(&self) -> TableView {
        TableView {
            columns: texts_view(self.columns),
            rows: self.rows@.map_values(|row: Vec<String>| texts_view(row)),
        }
    }
}

impl Default for Table {
    fn default() -> (table: Self)
        ensures
            table@ == (TableView { columns: Seq::empty(), rows: Seq::empty() }),
    {
        let table = Table { columns: Vec::new(), rows: Vec::new() };
        assert(table@ =~= TableView { columns: Seq::empty(), rows: Seq::empty() });
        table
    }
}

/// The texts of cells, if all of them are strings.
pub open spec fn cell_texts(cells: Seq<CellView>) -> Option<Seq<Seq<char>>> {
    if forall|i: int| 0 <= i < cells.len() ==> (#[trigger] cells[i]).text is Some {
        Some(cells.map_values(|cell: CellView| cell.text->0))
    } else {
        None
    }
}

/// The columns of a table when one more row comes: those of the first row that has any.
pub open spec fn columns_with(columns: Seq<Seq<char>>, cells: Seq<CellView>) -> Seq<Seq<char>> {
    if columns.len() == 0 {
        cell_names(cells)
    } else {
        columns
    }
}

/// A table with one more row.
pub open spec fn table_with(table: TableView, row: Option<Seq<CellView>>) -> Result<
    TableView,
    QueryFault,
> {
    match row {
        None => Err(QueryFault::ExpectedRowObject),
        Some(cells) => {
            let columns = columns_with(table.columns, cells);
            if cells.len() != columns.len() {
                Err(QueryFault::Inconsistent { columns: columns.len(), row: cells.len() })
            } else {
                match cell_texts(cells) {
                    None => Err(QueryFault::ExpectedString),
                    Some(texts) => Ok(TableView { columns, rows: table.rows.push(texts) }),
                }
            }
        },
    }
}

/// The table that is made of rows, or what is wrong with the first row that does not fit.
pub open spec fn table_of_rows(rows: Seq<Option<Seq<CellView>>>) -> Result<TableView, QueryFault>
    decreases rows.len(),
{
    if rows.len() == 0 {
        Ok(TableView { columns: Seq::empty(), rows: Seq::empty() })
    } else {
        match table_of_rows(rows.drop_last()) {
            Err(fault) => Err(fault),
            Ok(table) => table_with(table, rows.last()),
        }
    }
}

/// The table that a JSON object stands for.
///
/// There are no `rows` if `row_count` is 0.
pub open spec fn table_of(members: Option<Seq<MemberView>>) -> Result<TableView, QueryFault> {
    match members {
        None => Err(QueryFault::ExpectedObject),
        Some(members) => match find_member(members, "row_count"@) {
            None => Err(QueryFault::MissingRowCount),
            Some(row_count) => if row_count.signed == Some(0i64) {
                table_of_rows(Seq::empty())
            } else {
                match find_member(members, "rows"@) {
                    None => Err(QueryFault::MissingRows),
                    Some(rows) => match rows.elements {
                        None => Err(QueryFault::ExpectedArray),
                        Some(rows) => table_of_rows(rows),
                    },
                }
            },
        },
    }
}

/// The table that JSON stands for.
pub open spec fn table_of_json(document: Option<Option<Seq<MemberView>>>) -> Result<
    TableView,
    QueryFault,
> {
    match document {
        None => Err(QueryFault::Json),
        Some(members) => table_of(members),
    }
}

impl Table {
    /// Reads the result of a query.
    ///
    /// Even though the default CSV format is a lot shorter because it transfers table column
    /// headers once only, JSON is used here to get around escaping and encoding issues.
    pub fn from_json(json: &[u8]) -> (table: Result<Table, QueryError>)
        ensures
            query_outcome(table) == table_of_json(json_members(json@)),
            table matches Ok(table) ==> are_distinct(table@.columns),
    {
        match parse_json(json) {
            Err(error) => Err(QueryError::Json(error)),
            Ok(members) => {
                proof {
                    if let Some(members) = members_view(members) {
                        law_columns_are_distinct(members);
                    }
                }
                Table::from_members(members)
            },
        }
    }

    /// Reads the result of a query from the members of the JSON object that it is.
    pub fn from_members(members: Option<Vec<Member>>) -> (table: Result<Table, QueryError>)
        ensures
            query_outcome(table) == table_of(members_view(members)),
    {
        let members = match members {
            None => return Err(QueryError::ExpectedObject),
            Some(members) => members,
        };
        let row_count = match member(&members, "row_count") {
            None => return Err(QueryError::MissingRowCount),
            Some(row_count) => row_count,
        };
        if let Some(count) = row_count.signed {
            if count == 0 {
                return Ok(Table::default());
            }
        }
        let rows = match member(&members, "rows") {
            None => return Err(QueryError::MissingRows),
            Some(rows) => rows,
        };
        match &rows.elements {
            None => Err(QueryError::ExpectedArray),
            Some(rows) => Table::from_rows(rows),
        }
    }

    fn from_rows(rows: &Vec<Option<Vec<Cell>>>) -> (table: Result<Table, QueryError>)
        ensures
            query_outcome(table) == table_of_rows(
                rows@.map_values(|cells: Option<Vec<Cell>>| cells_view(cells)),
            ),
    {
        let ghost all = rows@.map_values(|cells: Option<Vec<Cell>>| cells_view(cells));
        let mut table = Table::default();
        let mut i: usize = 0;
        assert(all.take(0) =~= Seq::<Option<Seq<CellView>>>::empty());
        while i < rows.len()
            invariant
                i <= rows@.len(),
                all == rows@.map_values(|cells: Option<Vec<Cell>>| cells_view(cells)),
                table_of_rows(all.take(i as int)) == Ok::<TableView, QueryFault>(table@),
            decreases rows@.len() - i,
        {
            proof {
                assert(all.take(i + 1).drop_last() =~= all.take(i as int));
                assert(all.take(i + 1).last() == cells_view(rows@[i as int]));
                lemma_table_of_rows_prefix(all.take(i + 1), all.skip(i + 1));
                assert(all.take(i + 1) + all.skip(i + 1) =~= all);
            }
            match &rows[i] {
                None => return Err(QueryError::ExpectedRowObject),
                Some(cells) => match table.add_row(cells) {
                    Err(error) => return Err(error),
                    Ok(()) => {},
                },
            }
            i = i + 1;
        }
        assert(all.take(i as int) =~= all);
        Ok(table)
    }

    fn add_row(&mut self, cells: &Vec<Cell>) -> (result: Result<(), QueryError>)
        ensures
            match table_with(old(self)@, Some(cells@.map_values(|cell: Cell| cell@))) {
                Ok(table) => result is Ok && final(self)@ == table,
                Err(fault) => result matches Err(error) && error@ == fault,
            },
    {
        let ghost all = cells@.map_values(|cell: Cell| cell@);
        if self.columns.len() == 0 {
            self.columns = column_names(cells);
        }
        let ghost columns = columns_with(old(self)@.columns, all);
        assert(texts_view(self.columns) =~= columns);
        if cells.len() != self.columns.len() {
            return Err(
                QueryError::Inconsistent { columns: self.columns.len(), row: cells.len() },
            );
        }
        let mut row: Vec<String> = Vec::new();
        let mut i: usize = 0;
        while i < cells.len()
            invariant
                i <= cells@.len(),
                all == cells@.map_values(|cell: Cell| cell@),
                columns == columns_with(old(self)@.columns, all),
                all.len() == columns.len(),
                row@.len() == i,
                forall|j: int| 0 <= j < i ==> (#[trigger] all[j]).text == Some(row@[j]@),
            decreases cells@.len() - i,
        {
            assert(all[i as int] == cells@[i as int]@);
            match &cells[i].text {
                None => {
                    assert(cell_texts(all) is None);
                    return Err(QueryError::ExpectedString);
                },
                Some(text) => row.push(text.clone()),
            }
            i = i + 1;
        }
        let ghost before = self.rows@.map_values(|row: Vec<String>| texts_view(row));
        assert(cell_texts(all) is Some);
        assert(texts_view(row) =~= cell_texts(all)->0);
        self.rows.push(row);
        assert(self.rows@.map_values(|row: Vec<String>| texts_view(row)) =~= before.push(
            texts_view(row),
        ));
        Ok(())
    }
}

/// The names of cells.
fn column_names(cells: &Vec<Cell>) -> (names: Vec<String>)
    ensures
        texts_view(names) == cell_names(cells@.map_values(|cell: Cell| cell@)),
{
    let ghost all = cells@.map_values(|cell: Cell| cell@);
    let mut names: Vec<String> = Vec::new();
    let mut i: usize = 0;
    while i < cells.len()
        invariant
            i <= cells@.len(),
            names@.len() == i,
            forall|j: int| 0 <= j < i ==> (#[trigger] names@[j])@ == cells@[j].name@,
        decreases cells@.len() - i,
    {
        names.push(cells[i].name.clone());
        i = i + 1;
    }
    assert(texts_view(names) =~= cell_names(all));
    names
}

/// What is wrong with the first rows is wrong with all of them.
pub proof fn lemma_table_of_rows_prefix(
    first: Seq<Option<Seq<CellView>>>,
    more: Seq<Option<Seq<CellView>>>,
)
    ensures
        table_of_rows(first) is Err ==> table_of_rows(first + more) == table_of_rows(first),
    decreases more.len(),
{
    if more.len() == 0 {
        assert(first + more =~= first);
    } else {
        lemma_table_of_rows_prefix(first, more.drop_last());
        assert((first + more).drop_last() =~= first + more.drop_last());
    }
}

/// A row of a table has a cell for every column, but for the rows without cells that come before
/// the first row with any. There are as many rows as were given.
pub proof fn law_rows_fit_the_columns(rows: Seq<Option<Seq<CellView>>>)
    ensures
        table_of_rows(rows) matches Ok(table) ==> {
            &&& table.rows.len() == rows.len()
            &&& forall|i: int|
                0 <= i < table.rows.len() ==> {
                    ||| (#[trigger] table.rows[i]).len() == table.columns.len()
                    ||| forall|j: int| 0 <= j <= i ==> (#[trigger] table.rows[j]).len() == 0
                }
        },
    decreases rows.len(),
{
    if rows.len() > 0 {
        law_rows_fit_the_columns(rows.drop_last());
        if let Ok(table) = table_of_rows(rows) {
            let before = table_of_rows(rows.drop_last())->Ok_0;
            let cells = rows.last()->0;
            assert(cell_names(cells).len() == cells.len());
            assert(table.rows.last().len() == cells.len());
            assert forall|i: int| 0 <= i < table.rows.len() implies {
                ||| (#[trigger] table.rows[i]).len() == table.columns.len()
                ||| forall|j: int| 0 <= j <= i ==> (#[trigger] table.rows[j]).len() == 0
            } by {
                if i < before.rows.len() {
                    assert(table.rows[i] == before.rows[i]);
                    if before.columns.len() == 0 {
                        assert forall|j: int| 0 <= j <= i implies (#[trigger] table.rows[j]).len()
                            == 0 by {
                            assert(table.rows[j] == before.rows[j]);
                        }
                    } else if before.rows[i].len() != before.columns.len() {
                        assert forall|j: int| 0 <= j <= i implies (#[trigger] table.rows[j]).len()
                            == 0 by {
                            assert(table.rows[j] == before.rows[j]);
                        }
                    }
                }
            }
        }
    }
}

/// The rows of a table are the rows that were given, in their order, each with the texts of its
/// cells in their order.
pub proof fn law_rows_are_kept(rows: Seq<Option<Seq<CellView>>>)
    ensures
        table_of_rows(rows) matches Ok(table) ==> {
            &&& table.rows.len() == rows.len()
            &&& forall|i: int|
                0 <= i < rows.len() ==> (#[trigger] rows[i] matches Some(cells) && cell_texts(cells)
                    == Some(table.rows[i]))
        },
    decreases rows.len(),
{
    if rows.len() > 0 {
        law_rows_are_kept(rows.drop_last());
        if let Ok(table) = table_of_rows(rows) {
            let before = table_of_rows(rows.drop_last())->Ok_0;
            assert forall|i: int| 0 <= i < rows.len() implies (#[trigger] rows[i] matches Some(cells)
                && cell_texts(cells) == Some(table.rows[i])) by {
                if i < before.rows.len() {
                    assert(rows.drop_last()[i] == rows[i]);
                    assert(table.rows[i] == before.rows[i]);
                }
            }
        }
    }
}

/// A table whose first row has cells has as many cells in every row as it has columns.
pub proof fn law_table_is_rectangular(rows: Seq<Option<Seq<CellView>>>)
    requires
        rows.len() > 0,
        rows.first() matches Some(cells) ==> cells.len() > 0,
    ensures
        table_of_rows(rows) matches Ok(table) ==> {
            &&& table.columns == cell_names(rows.first()->0)
            &&& forall|i: int|
                0 <= i < table.rows.len() ==> (#[trigger] table.rows[i]).len()
                    == table.columns.len()
        },
    decreases rows.len(),
{
    law_rows_fit_the_columns(rows);
    law_rows_are_kept(rows);
    if rows.drop_last().len() > 0 {
        assert(rows.drop_last().first() == rows.first());
        law_table_is_rectangular(rows.drop_last());
    } else {
        assert(table_of_rows(rows.drop_last()) == Ok::<TableView, QueryFault>(
            TableView { columns: Seq::empty(), rows: Seq::empty() },
        ));
    }
    if let Ok(table) = table_of_rows(rows) {
        let cells = rows.first()->0;
        assert(rows[0] == Some(cells));
        assert(cell_names(cells).len() == cells.len());
        assert(table.rows[0].len() > 0);
    }
}

/// The columns of a table have distinct names where the members of each row do.
pub proof fn law_columns_are_distinct(members: Seq<MemberView>)
    requires
        has_distinct_cells(members),
    ensures
        table_of(Some(members)) matches Ok(table) ==> are_distinct(table.columns),
{
    lemma_member_is_found(members, "rows"@);
    if let Some(rows) = find_member(members, "rows"@) {
        if let Some(rows) = rows.elements {
            lemma_columns_are_distinct(rows);
        }
    }
}

proof fn lemma_columns_are_distinct(rows: Seq<Option<Seq<CellView>>>)
    requires
        are_distinct_rows(rows),
    ensures
        table_of_rows(rows) matches Ok(table) ==> are_distinct(table.columns),
    decreases rows.len(),
{
    if rows.len() > 0 {
        assert(are_distinct_rows(rows.drop_last())) by {
            assert forall|i: int| 0 <= i < rows.drop_last().len() implies (
            #[trigger] rows.drop_last()[i] matches Some(cells) ==> are_distinct(
                cell_names(cells),
            )) by {
                assert(rows.drop_last()[i] == rows[i]);
            }
        }
        lemma_columns_are_distinct(rows.drop_last());
        assert(rows.last() == rows[rows.len() - 1]);
    }
}

/// A member that is found is one of the members.
proof fn lemma_member_is_found(members: Seq<MemberView>, name: Seq<char>)
    ensures
        find_member(members, name) matches Some(member) ==> members.contains(member) && member.name
            == name,
    decreases members.len(),
{
    if members.len() > 0 {
        if members.first().name == name {
            assert(members.contains(members[0]));
        } else {
            lemma_member_is_found(members.drop_first(), name);
            if let Some(member) = find_member(members, name) {
                let i = choose|i: int|
                    0 <= i < members.drop_first().len() && members.drop_first()[i] == member;
                assert(members[i + 1] == member);
            }
        }
    }
}

/// A number of rows.
#[derive(Copy, Clone, PartialEq, Eq, Hash, PartialOrd, Ord, Debug)]
pub struct Count(usize);

impl View for Count {
    type V = usize;

    closed spec fn view(&self) -> usize {
        self.0
    }
}

/// The number of rows that a JSON object stands for.
pub open spec fn count_of(members: Option<Seq<MemberView>>) -> Result<usize, QueryFault> {
    match members {
        None => Err(QueryFault::ExpectedObject),
        Some(members) => match find_member(members, "row_count"@) {
            None => Err(QueryFault::MissingRowCount),
            Some(row_count) => match row_count.unsigned {
                None => Err(QueryFault::ExpectedUnsigned),
                Some(count) => if count <= usize::MAX {
                    Ok(count as usize)
                } else {
                    Err(QueryFault::TooLarge)
                },
            },
        },
    }
}

/// The number of rows that JSON stands for.
pub open spec fn count_of_json(document: Option<Option<Seq<MemberView>>>) -> Result<
    usize,
    QueryFault,
> {
    match document {
        None => Err(QueryFault::Json),
        Some(members) => count_of(members),
    }
}

impl Count {
    /// Reads the result of a query for a number of rows.
    pub fn from_json(json: &[u8]) -> (count: Result<Count, QueryError>)
        ensures
            query_outcome(count) == count_of_json(json_members(json@)),
    {
        match parse_json(json) {
            Err(error) => Err(QueryError::Json(error)),
            Ok(members) => Count::from_members(members),
        }
    }

    /// Reads the result of a query for a number of rows from the members of the JSON object that
    /// it is.
    pub fn from_members(members: Option<Vec<Member>>) -> (count: Result<Count, QueryError>)
        ensures
            query_outcome(count) == count_of(members_view(members)),
    {
        let members = match members {
            None => return Err(QueryError::ExpectedObject),
            Some(members) => members,
        };
        let row_count = match member(&members, "row_count") {
            None => return Err(QueryError::MissingRowCount),
            Some(row_count) => row_count,
        };
        let row_count: u64 = match row_count.unsigned {
            None => return Err(QueryError::ExpectedUnsigned),
            Some(row_count) => row_count,
        };
        match usize::try_from(row_count) {
            Ok(row_count) => Ok(Count(row_count)),
            Err(error) => Err(QueryError::TooLarge(error)),
        }
    }
}

impl vstd::std_specs::convert::FromSpecImpl<usize> for Count {
    closed spec fn obeys_from_spec() -> bool {
        true
    }

    closed spec fn from_spec(count: usize) -> Count {
        Count(count)
    }
}

impl From<usize> for Count {
    fn from(count: usize) -> (converted: Count)
        ensures
            converted@ == count,
    {
        Count(count)
    }
}

impl vstd::std_specs::convert::FromSpecImpl<Count> for usize {
    open spec fn obeys_from_spec() -> bool {
        true
    }

    open spec fn from_spec(count: Count) -> usize {
        count@
    }
}

impl From<Count> for usize {
    fn from(count: Count) -> (converted: usize)
        ensures
            converted == count@,
    {
        count.0
    }
}

} // verus!
