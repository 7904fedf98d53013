//! The messages that answer a query, and the columns of a row.

use vstd::prelude::*;

use crate::error::{ClientErrorView, DriverError, DriverErrorView, ReplicationClientError};
use crate::text::{same_but_for_case, same_text, same_text_but_for_case};

verus! {

/// The value of a column in a row.
#[derive(Debug)]
pub enum FieldValue {
    /// No value.
    Null,
    /// The value as text.
    Text(String),
    /// A value that cannot be read as text; the text says why.
    Unreadable(String),
}

/// A column of a row: its name and its value.
#[derive(Debug)]
pub struct Field {
    pub name: String,
    pub value: FieldValue,
}

/// A row of the answer to a query, column by column.
#[derive(Debug)]
pub struct QueryRow {
    pub fields: Vec<Field>,
}

/// A message of the answer to a query.
#[derive(Debug)]
pub enum QueryMessage {
    /// A row.
    Row(QueryRow),
    /// Anything else, such as the end of a command.
    Other,
}

/// The answer to a query: its messages, or the error of the request.
pub type QueryReply = Result<Vec<QueryMessage>, tokio_postgres::Error>;

/// The answer to a query, with its messages as a sequence.
pub type ReplySpec = Result<Seq<QueryMessage>, tokio_postgres::Error>;

/// The messages of an answer as a sequence.
pub open spec fn reply_view(reply: QueryReply) -> ReplySpec {
    match reply {
        Ok(messages) => Ok(messages@),
        Err(e) => Err(e),
    }
}

/// The first column whose name `picks` picks.
pub open spec fn first_picked(fields: Seq<Field>, picks: spec_fn(Seq<char>) -> bool) -> Option<
    int,
>
    decreases fields.len(),
{
    if fields.len() == 0 {
        None
    } else {
        match first_picked(fields.drop_last(), picks) {
            Some(i) => Some(i),
            None => if picks(fields.last().name@) {
                Some(fields.len() - 1)
            } else {
                None
            },
        }
    }
}

/// Whether a column has this very name.
pub open spec fn is_named(name: Seq<char>) -> spec_fn(Seq<char>) -> bool {
    |n: Seq<char>| n == name
}

/// Whether a column has this name but for the case of ASCII letters.
pub open spec fn is_named_alike(name: Seq<char>) -> spec_fn(Seq<char>) -> bool {
    |n: Seq<char>| same_but_for_case(n, name)
}

/// The column that a name means: the first of that name, or else the first whose name differs
/// from it in the case of ASCII letters only.
pub open spec fn column_named(fields: Seq<Field>, name: Seq<char>) -> Option<int> {
    match first_picked(fields, is_named(name)) {
        Some(i) => Some(i),
        None => first_picked(fields, is_named_alike(name)),
    }
}

/// A value as text: `None` where there is no value, an error where it cannot be read.
pub open spec fn text_of(value: FieldValue) -> Result<Option<Seq<char>>, DriverErrorView> {
    match value {
        FieldValue::Null => Ok(None),
        FieldValue::Text(text) => Ok(Some(text@)),
        FieldValue::Unreadable(why) => Err(DriverErrorView::Value(why@)),
    }
}

/// The value in the column that a name means.
pub open spec fn value_named(row: QueryRow, name: Seq<char>) -> Result<
    Option<Seq<char>>,
    DriverErrorView,
> {
    match column_named(row.fields@, name) {
        Some(i) => text_of(row.fields@[i].value),
        None => Err(DriverErrorView::Column(name)),
    }
}

/// The value in the column that a name means, where one is needed: a row without it lacks the
/// column `missing` of the table `table`.
pub open spec fn needed_value(
    row: QueryRow,
    name: Seq<char>,
    missing: Seq<char>,
    table: Seq<char>,
) -> Result<Seq<char>, ClientErrorView> {
    match value_named(row, name) {
        Err(e) => Err(ClientErrorView::TokioPostgresError(e)),
        Ok(None) => Err(ClientErrorView::MissingColumn(missing, table)),
        Ok(Some(text)) => Ok(text),
    }
}

proof fn lemma_first_picked_step(
    fields: Seq<Field>,
    i: int,
    picks: spec_fn(Seq<char>) -> bool,
)
    requires
        0 <= i < fields.len(),
        first_picked(fields.take(i), picks) is None,
    ensures
        first_picked(fields.take(i + 1), picks) == (if picks(fields[i].name@) {
            Some(i)
        } else {
            None
        }),
{
    assert(fields.take(i + 1).drop_last() == fields.take(i));
    assert(fields.take(i + 1).last() == fields[i]);
}

proof fn lemma_first_picked_stays(
    fields: Seq<Field>,
    i: int,
    n: int,
    picks: spec_fn(Seq<char>) -> bool,
)
    requires
        0 <= n <= fields.len(),
        first_picked(fields.take(n), picks) == Some(i),
    ensures
        first_picked(fields, picks) == Some(i),
    decreases fields.len() - n,
{
    if n == fields.len() {
        assert(fields.take(n) == fields);
    } else {
        assert(fields.take(n + 1).drop_last() == fields.take(n));
        lemma_first_picked_stays(fields, i, n + 1, picks);
    }
}

/// A column that is found stands in the row, its name is picked, and no earlier one is; where
/// none is found, no column's name is picked.
pub proof fn law_first_picked(fields: Seq<Field>, picks: spec_fn(Seq<char>) -> bool)
    ensures
        match first_picked(fields, picks) {
            Some(i) => {
                &&& 0 <= i < fields.len()
                &&& picks(fields[i].name@)
                &&& forall|j: int| 0 <= j < i ==> !picks((#[trigger] fields[j]).name@)
            },
            None => forall|j: int|
                0 <= j < fields.len() ==> !picks((#[trigger] fields[j]).name@),
        },
    decreases fields.len(),
{
    if fields.len() > 0 {
        let init = fields.drop_last();
        law_first_picked(init, picks);
        assert(forall|j: int| 0 <= j < init.len() ==> init[j] == fields[j]);
        match first_picked(init, picks) {
            Some(i) => {
                assert(fields[i] == init[i]);
            },
            None => {
                assert forall|j: int| 0 <= j < fields.len() - 1 implies !picks(
                    (#[trigger] fields[j]).name@,
                ) by {
                    assert(init[j] == fields[j]);
                }
            },
        }
    }
}

impl QueryRow {
    /// The position of the column that a name means.
    pub fn column_index(&self, name: &str) -> (r: Option<usize>)
        ensures
            match column_named(self.fields@, name@) {
                Some(i) => r matches Some(x) && x == i && x < self.fields@.len(),
                None => r is None,
            },
    {
        let ghost same = is_named(name@);
        let ghost alike = is_named_alike(name@);
        proof {
            law_first_picked(self.fields@, same);
            law_first_picked(self.fields@, alike);
        }
        let mut i: usize = 0;
        assert(self.fields@.take(0) == Seq::<Field>::empty());
        while i < self.fields.len()
            invariant
                i <= self.fields@.len(),
                same == is_named(name@),
                first_picked(self.fields@.take(i as int), same) is None,
            decreases self.fields@.len() - i,
        {
            proof {
                lemma_first_picked_step(self.fields@, i as int, same);
            }
            if same_text(self.fields[i].name.as_str(), name) {
                proof {
                    lemma_first_picked_stays(self.fields@, i as int, i + 1, same);
                }
                return Some(i);
            }
            i = i + 1;
        }
        assert(self.fields@.take(i as int) == self.fields@);
        let mut i: usize = 0;
        while i < self.fields.len()
            invariant
                i <= self.fields@.len(),
                same == is_named(name@),
                first_picked(self.fields@, same) is None,
                alike == is_named_alike(name@),
                first_picked(self.fields@.take(i as int), alike) is None,
            decreases self.fields@.len() - i,
        {
            proof {
                lemma_first_picked_step(self.fields@, i as int, alike);
            }
            if same_text_but_for_case(self.fields[i].name.as_str(), name) {
                proof {
                    lemma_first_picked_stays(self.fields@, i as int, i + 1, alike);
                }
                return Some(i);
            }
            i = i + 1;
        }
        assert(self.fields@.take(i as int) == self.fields@);
        None
    }

    /// The value in the column that a name means.
    pub fn try_get(&self, name: &str) -> (r: Result<Option<&String>, DriverError>)
        ensures
            match value_named(*self, name@) {
                Ok(Some(text)) => r matches Ok(Some(t)) && t@ == text,
                Ok(None) => r matches Ok(None),
                Err(e) => r matches Err(x) && x@ == e,
            },
    {
        match self.column_index(name) {
            Some(i) => match &self.fields[i].value {
                FieldValue::Null => Ok(None),
                FieldValue::Text(text) => Ok(Some(text)),
                FieldValue::Unreadable(why) => Err(DriverError::Value(why.clone())),
            },
            None => Err(DriverError::Column(name.to_owned())),
        }
    }

    /// The value in the column that a name means, where one is needed.
    pub fn need(&self, name: &str, missing: &str, table: &str) -> (r: Result<
        &String,
        ReplicationClientError,
    >)
        ensures
            match needed_value(*self, name@, missing@, table@) {
                Ok(text) => r matches Ok(t) && t@ == text,
                Err(e) => r matches Err(x) && x@ == e,
            },
    {
        match self.try_get(name) {
            Err(e) => Err(ReplicationClientError::TokioPostgresError(e)),
            Ok(None) => Err(
                ReplicationClientError::MissingColumn(missing.to_owned(), table.to_owned()),
            ),
            Ok(Some(text)) => Ok(text),
        }
    }
}

/// The first row among the messages.
pub open spec fn first_row(messages: Seq<QueryMessage>) -> Option<QueryRow>
    decreases messages.len(),
{
    if messages.len() == 0 {
        None
    } else {
        match messages[0] {
            QueryMessage::Row(row) => Some(row),
            QueryMessage::Other => first_row(messages.skip(1)),
        }
    }
}

/// Finds the first row among the messages.
pub fn find_first_row(messages: &Vec<QueryMessage>) -> (r: Option<&QueryRow>)
    ensures
        match first_row(messages@) {
            Some(row) => r matches Some(x) && *x == row,
            None => r is None,
        },
{
    let mut i: usize = 0;
    assert(messages@.skip(0) == messages@);
    while i < messages.len()
        invariant
            i <= messages@.len(),
            first_row(messages@) == first_row(messages@.skip(i as int)),
        decreases messages@.len() - i,
    {
        match &messages[i] {
            QueryMessage::Row(row) => {
                return Some(row);
            },
            QueryMessage::Other => {},
        }
        assert(messages@.skip(i as int).skip(1) == messages@.skip(i + 1));
        i = i + 1;
    }
    None
}

/// A name means the first column of that name; where no column has it, the first column whose
/// name agrees with it but for case; and no column where there is none of these.
pub proof fn law_column_named(fields: Seq<Field>, name: Seq<char>)
    ensures
        match column_named(fields, name) {
            Some(i) => {
                &&& 0 <= i < fields.len()
                &&& fields[i].name@ == name ==> forall|j: int|
                    0 <= j < i ==> (#[trigger] fields[j]).name@ != name
                &&& fields[i].name@ != name ==> {
                    &&& same_but_for_case(fields[i].name@, name)
                    &&& forall|j: int|
                        0 <= j < fields.len() ==> (#[trigger] fields[j]).name@ != name
                    &&& forall|j: int|
                        0 <= j < i ==> !same_but_for_case((#[trigger] fields[j]).name@, name)
                }
            },
            None => forall|j: int|
                0 <= j < fields.len() ==> !same_but_for_case((#[trigger] fields[j]).name@, name),
        },
{
    let same = is_named(name);
    let alike = is_named_alike(name);
    law_first_picked(fields, same);
    law_first_picked(fields, alike);
    match first_picked(fields, same) {
        Some(i) => {
            assert(same(fields[i].name@));
            assert forall|j: int| 0 <= j < i implies (#[trigger] fields[j]).name@ != name by {
                assert(!same(fields[j].name@));
            }
        },
        None => {
            assert forall|j: int| 0 <= j < fields.len() implies (#[trigger] fields[j]).name@
                != name by {
                assert(!same(fields[j].name@));
            }
            match first_picked(fields, alike) {
                Some(i) => {
                    assert(alike(fields[i].name@));
                    assert forall|j: int| 0 <= j < i implies !same_but_for_case(
                        (#[trigger] fields[j]).name@,
                        name,
                    ) by {
                        assert(!alike(fields[j].name@));
                    }
                },
                None => {
                    assert forall|j: int| 0 <= j < fields.len() implies !same_but_for_case(
                        (#[trigger] fields[j]).name@,
                        name,
                    ) by {
                        assert(!alike(fields[j].name@));
                    }
                },
            }
        },
    }
}

/// The value that a name means is the one in the first column of that name: no value, a text
/// as it is, or an error that says why it cannot be read.
pub proof fn law_value_named(row: QueryRow, name: Seq<char>, i: int)
    requires
        0 <= i < row.fields@.len(),
        row.fields@[i].name@ == name,
        forall|j: int| 0 <= j < i ==> (#[trigger] row.fields@[j]).name@ != name,
    ensures
        row.fields@[i].value is Null ==> value_named(row, name) == Ok::<
            Option<Seq<char>>,
            DriverErrorView,
        >(None),
        row.fields@[i].value matches FieldValue::Text(text) ==> value_named(row, name) == Ok::<
            Option<Seq<char>>,
            DriverErrorView,
        >(Some(text@)),
        row.fields@[i].value matches FieldValue::Unreadable(why) ==> value_named(row, name)
            == Err::<Option<Seq<char>>, DriverErrorView>(DriverErrorView::Value(why@)),
{
    law_column_named(row.fields@, name);
    assert(same_but_for_case(row.fields@[i].name@, name));
    let at = column_named(row.fields@, name)->0;
    assert(row.fields@[at].name@ == name);
}

/// The value that a name means is the one in the column that it means, whether the column has
/// this very name or agrees with it but for case.
pub proof fn law_value_in_column(row: QueryRow, name: Seq<char>, i: int)
    requires
        column_named(row.fields@, name) == Some(i),
    ensures
        row.fields@[i].value is Null ==> value_named(row, name) == Ok::<
            Option<Seq<char>>,
            DriverErrorView,
        >(None),
        row.fields@[i].value matches FieldValue::Text(text) ==> value_named(row, name) == Ok::<
            Option<Seq<char>>,
            DriverErrorView,
        >(Some(text@)),
        row.fields@[i].value matches FieldValue::Unreadable(why) ==> value_named(row, name)
            == Err::<Option<Seq<char>>, DriverErrorView>(DriverErrorView::Value(why@)),
{
}

/// A name that no column agrees with, not even but for case, is an error that holds the name.
pub proof fn law_value_not_named(row: QueryRow, name: Seq<char>)
    requires
        forall|j: int|
            0 <= j < row.fields@.len() ==> !same_but_for_case(
                (#[trigger] row.fields@[j]).name@,
                name,
            ),
    ensures
        value_named(row, name) == Err::<Option<Seq<char>>, DriverErrorView>(
            DriverErrorView::Column(name),
        ),
{
    law_column_named(row.fields@, name);
}

/// A value that is needed is the text in its column; a column without a value is reported as
/// missing, under the names given for that; an error of the row is passed on.
pub proof fn law_needed_value(
    row: QueryRow,
    name: Seq<char>,
    missing: Seq<char>,
    table: Seq<char>,
    text: Seq<char>,
)
    ensures
        needed_value(row, name, missing, table) == Ok::<Seq<char>, ClientErrorView>(text)
            <==> value_named(row, name) == Ok::<Option<Seq<char>>, DriverErrorView>(Some(text)),
        value_named(row, name) == Ok::<Option<Seq<char>>, DriverErrorView>(None)
            ==> needed_value(row, name, missing, table) == Err::<Seq<char>, ClientErrorView>(
            ClientErrorView::MissingColumn(missing, table),
        ),
        value_named(row, name) matches Err(e) ==> needed_value(row, name, missing, table)
            == Err::<Seq<char>, ClientErrorView>(ClientErrorView::TokioPostgresError(e)),
{
}

/// A row with no row before it is the first row.
pub proof fn law_first_row(messages: Seq<QueryMessage>, i: int)
    requires
        0 <= i < messages.len(),
        messages[i] is Row,
        forall|j: int| 0 <= j < i ==> !(#[trigger] messages[j] is Row),
    ensures
        first_row(messages) == Some(messages[i]->Row_0),
    decreases messages.len(),
{
    if i > 0 {
        let tail = messages.skip(1);
        assert(!(messages[0] is Row));
        assert(tail[i - 1] == messages[i]);
        assert forall|j: int| 0 <= j < i - 1 implies !(#[trigger] tail[j] is Row) by {
            assert(!(messages[j + 1] is Row));
        }
        law_first_row(tail, i - 1);
    }
}

/// There is no first row exactly where no message is a row.
pub proof fn law_no_first_row(messages: Seq<QueryMessage>)
    ensures
        first_row(messages) is None <==> forall|i: int|
            0 <= i < messages.len() ==> !(#[trigger] messages[i] is Row),
    decreases messages.len(),
{
    if messages.len() > 0 {
        let tail = messages.skip(1);
        law_no_first_row(tail);
        if messages[0] is Row {
            assert(first_row(messages) is Some);
        } else {
            assert(first_row(messages) == first_row(tail));
            if first_row(tail) is None {
                assert forall|i: int| 0 <= i < messages.len() implies !(
                #[trigger] messages[i] is Row) by {
                    if i > 0 {
                        assert(tail[i - 1] == messages[i]);
                    }
                }
            } else {
                let i = choose|i: int| 0 <= i < tail.len() && #[trigger] tail[i] is Row;
                assert(messages[i + 1] is Row);
            }
        }
    }
}

/// A message that is no row changes nothing about which row is the first.
pub proof fn law_first_row_among_others(before: Seq<QueryMessage>, after: Seq<QueryMessage>)
    ensures
        first_row(before + seq![QueryMessage::Other] + after) == first_row(before + after),
    decreases before.len(),
{
    let with = before + seq![QueryMessage::Other] + after;
    let without = before + after;
    if before.len() == 0 {
        assert(with.skip(1) == after);
        assert(without == after);
    } else {
        law_first_row_among_others(before.skip(1), after);
        assert(with.skip(1) == before.skip(1) + seq![QueryMessage::Other] + after);
        assert(without.skip(1) == before.skip(1) + after);
    }
}

/// The messages of a reply are those that came, all of them and in their order, and the error of
/// a request that failed is that error.
pub proof fn law_reply_view(reply: QueryReply)
    ensures
        reply matches Ok(messages) ==> reply_view(reply) == Ok::<
            Seq<QueryMessage>,
            tokio_postgres::Error,
        >(messages@),
        reply matches Err(e) ==> reply_view(reply) == Err::<
            Seq<QueryMessage>,
            tokio_postgres::Error,
        >(e),
{
}

} // verus!
