//! Reading the schemas of tables: a run of requests, one reply at a time.

use std::collections::HashMap;
use vstd::prelude::*;

use crate::client::ReplicationClient;
use crate::error::{ClientErrorView, ReplicationClientError};
use crate::message::{reply_view, QueryReply, ReplySpec};
use crate::queries::{columns_query, table_query};
use crate::replies::{columns_in_reply, names_view, table_id_in_reply};
use crate::table::{
    ColumnSchemaView, TableId, TableName, TableNameView, TableSchema, TableSchemaView,
};

verus! {

broadcast use vstd::std_specs::hash::group_hash_axioms;

/// A run that reads the schemas of tables and keeps those with a primary key.
#[derive(Debug)]
pub struct TableSchemasRun {
    /// The tables that are left to read, the current one first.
    pub remaining: Vec<TableName>,
    /// The id of the current table, once it is known.
    pub table_id: Option<TableId>,
    /// The schemas that are kept.
    pub schemas: HashMap<TableId, TableSchema>,
    /// The error that ended the run.
    pub failure: Option<ReplicationClientError>,
}

/// The state of a run, with its texts as sequences.
#[verifier::ext_equal]
pub struct SchemasRunView {
    pub remaining: Seq<TableNameView>,
    pub table_id: Option<TableId>,
    pub schemas: Map<TableId, TableSchemaView>,
    pub failure: Option<ClientErrorView>,
}

/// The schemas by id, as views.
pub open spec fn schemas_view(schemas: Map<TableId, TableSchema>) -> Map<
    TableId,
    TableSchemaView,
> {
    schemas.map_values(|t: TableSchema| t@)
}

impl View for TableSchemasRun {
    type V = SchemasRunView;

    open spec fn view(&self) -> SchemasRunView {
        SchemasRunView {
            remaining: names_view(self.remaining@),
            table_id: self.table_id,
            schemas: schemas_view(self.schemas@),
            failure: match self.failure {
                Some(e) => Some(e@),
                None => None,
            },
        }
    }
}

/// The state of a run before the first request.
pub open spec fn schemas_start(names: Seq<TableNameView>) -> SchemasRunView {
    SchemasRunView { remaining: names, table_id: None, schemas: Map::empty(), failure: None }
}

/// What is sent next: first the query for the id of a table, then the one for its columns.
pub open spec fn schemas_request(run: SchemasRunView) -> Option<Seq<char>> {
    if run.failure is Some || run.remaining.len() == 0 {
        None
    } else {
        match run.table_id {
            None => Some(table_query(run.remaining[0])),
            Some(table_id) => Some(columns_query(table_id)),
        }
    }
}

/// The run, ended by an error.
pub open spec fn failed(run: SchemasRunView, e: ClientErrorView) -> SchemasRunView {
    SchemasRunView { failure: Some(e), ..run }
}

/// The schemas with one more table, which is kept only if it has a primary key.
pub open spec fn with_table(
    schemas: Map<TableId, TableSchemaView>,
    table: TableSchemaView,
) -> Map<TableId, TableSchemaView> {
    if table.has_primary_keys() {
        schemas.insert(table.table_id, table)
    } else {
        schemas
    }
}

/// What a reply leads to: the state of the run, and the table that was left out for want of a
/// primary key.
pub open spec fn schemas_next(run: SchemasRunView, reply: ReplySpec) -> (
    SchemasRunView,
    Option<TableSchemaView>,
) {
    if schemas_request(run) is None {
        (run, None)
    } else {
        match run.table_id {
            None => match table_id_in_reply(reply) {
                Err(e) => (failed(run, e), None),
                Ok(None) => (failed(run, ClientErrorView::MissingTable(run.remaining[0])), None),
                Ok(Some(id)) => (SchemasRunView { table_id: Some(id), ..run }, None),
            },
            Some(table_id) => match columns_in_reply(reply) {
                Err(e) => (failed(run, e), None),
                Ok(column_schemas) => {
                    let table = TableSchemaView {
                        table_name: run.remaining[0],
                        table_id,
                        column_schemas,
                    };
                    let next = SchemasRunView {
                        remaining: run.remaining.skip(1),
                        table_id: None,
                        schemas: with_table(run.schemas, table),
                        failure: None,
                    };
                    (
                        next,
                        if table.has_primary_keys() {
                            None
                        } else {
                            Some(table)
                        },
                    )
                },
            },
        }
    }
}

/// What came of a run that is at its end.
pub open spec fn schemas_outcome(run: SchemasRunView) -> Result<
    Map<TableId, TableSchemaView>,
    ClientErrorView,
> {
    match run.failure {
        Some(e) => Err(e),
        None => Ok(run.schemas),
    }
}

impl ReplicationClient {
    /// Starts to read the schemas of tables.
    pub fn get_table_schemas(table_names: &[TableName]) -> (r: TableSchemasRun)
        ensures
            r@ == schemas_start(names_view(table_names@)),
    {
        let mut remaining: Vec<TableName> = Vec::new();
        let mut i: usize = 0;
        while i < table_names.len()
            invariant
                i <= table_names@.len(),
                remaining@ == table_names@.take(i as int),
            decreases table_names@.len() - i,
        {
            remaining.push(table_names[i].clone());
            i = i + 1;
        }
        let r = TableSchemasRun {
            remaining,
            table_id: None,
            schemas: HashMap::new(),
            failure: None,
        };
        assert(r@.remaining == names_view(table_names@));
        assert(r@.schemas == Map::<TableId, TableSchemaView>::empty());
        r
    }
}

impl TableSchemasRun {
    /// What is to be sent next; nothing where the run is at its end.
    pub fn next_query(&self) -> (r: Option<String>)
        ensures
            match schemas_request(self@) {
                Some(query) => r matches Some(x) && x@ == query,
                None => r is None,
            },
    {
        if self.failure.is_some() || self.remaining.len() == 0 {
            None
        } else {
            match self.table_id {
                None => Some(ReplicationClient::get_table_id_query(&self.remaining[0])),
                Some(table_id) => Some(ReplicationClient::get_column_schemas_query(table_id)),
            }
        }
    }

    /// Takes the reply to what was sent last. Returns the table that was read and left out for
    /// want of a primary key, if there is one.
    pub fn handle_reply(&mut self, reply: QueryReply) -> (r: Option<TableSchema>)
        ensures
            final(self)@ == schemas_next(old(self)@, reply_view(reply)).0,
            match schemas_next(old(self)@, reply_view(reply)).1 {
                Some(table) => r matches Some(x) && x@ == table,
                None => r is None,
            },
    {
        if self.failure.is_some() || self.remaining.len() == 0 {
            return None;
        }
        match self.table_id {
            None => {
                match ReplicationClient::get_table_id(reply) {
                    Err(e) => {
                        self.failure = Some(e);
                    },
                    Ok(None) => {
                        self.failure = Some(
                            ReplicationClientError::MissingTable(self.remaining[0].clone()),
                        );
                    },
                    Ok(Some(id)) => {
                        self.table_id = Some(id);
                    },
                }
                None
            },
            Some(table_id) => match ReplicationClient::get_column_schemas(reply) {
                Err(e) => {
                    self.failure = Some(e);
                    None
                },
                Ok(column_schemas) => {
                    let ghost before = self@;
                    let table_name = self.remaining.remove(0);
                    assert(names_view(self.remaining@) == before.remaining.skip(1));
                    self.table_id = None;
                    let table = TableSchema { table_name, table_id, column_schemas };
                    if table.has_primary_keys() {
                        self.schemas.insert(table_id, table);
                        assert(schemas_view(self.schemas@) == before.schemas.insert(
                            table_id,
                            table@,
                        ));
                        None
                    } else {
                        Some(table)
                    }
                },
            },
        }
    }

    /// What came of the run: the schemas by table id or the error, once it is at its end.
    pub fn finish(self) -> (r: Option<Result<HashMap<TableId, TableSchema>, ReplicationClientError>>)
        ensures
            if schemas_request(self@) is Some {
                r is None
            } else {
                match schemas_outcome(self@) {
                    Ok(schemas) => r matches Some(Ok(x)) && schemas_view(x@) == schemas,
                    Err(e) => r matches Some(Err(x)) && x@ == e,
                }
            },
    {
        match self.failure {
            Some(e) => Some(Err(e)),
            None => if self.remaining.len() == 0 {
                Some(Ok(self.schemas))
            } else {
                None
            },
        }
    }
}

/// The schema of one table, with a server that answers the query after `asked` others by
/// `server(asked, query)`, and after `asked` requests: its id is asked for, then its columns.
pub open spec fn schema_read(
    server: spec_fn(nat, Seq<char>) -> ReplySpec,
    asked: nat,
    table_name: TableNameView,
) -> Result<TableSchemaView, ClientErrorView> {
    match table_id_in_reply(server(asked, table_query(table_name))) {
        Err(e) => Err(e),
        Ok(None) => Err(ClientErrorView::MissingTable(table_name)),
        Ok(Some(table_id)) => match columns_in_reply(server(asked + 1, columns_query(table_id))) {
            Err(e) => Err(e),
            Ok(column_schemas) => Ok(TableSchemaView { table_name, table_id, column_schemas }),
        },
    }
}

/// The schemas of tables, read one after the other from such a server, two requests for each:
/// the first error ends the reading, and of two tables with one id the later stays.
pub open spec fn schemas_read(
    server: spec_fn(nat, Seq<char>) -> ReplySpec,
    names: Seq<TableNameView>,
) -> Result<Map<TableId, TableSchemaView>, ClientErrorView>
    decreases names.len(),
{
    if names.len() == 0 {
        Ok(Map::empty())
    } else {
        match schemas_read(server, names.drop_last()) {
            Err(e) => Err(e),
            Ok(schemas) => match schema_read(server, (2 * (names.len() - 1)) as nat, names.last()) {
                Err(e) => Err(e),
                Ok(table) => Ok(with_table(schemas, table)),
            },
        }
    }
}

/// Where a run gets to with such a server, after `asked` requests and in at most `rounds` more.
pub open spec fn schemas_run(
    server: spec_fn(nat, Seq<char>) -> ReplySpec,
    run: SchemasRunView,
    asked: nat,
    rounds: nat,
) -> SchemasRunView
    decreases rounds,
{
    match schemas_request(run) {
        Some(query) if rounds > 0 => schemas_run(
            server,
            schemas_next(run, server(asked, query)).0,
            asked + 1,
            (rounds - 1) as nat,
        ),
        _ => run,
    }
}

proof fn lemma_schemas_read_step(
    server: spec_fn(nat, Seq<char>) -> ReplySpec,
    names: Seq<TableNameView>,
    k: int,
)
    requires
        0 <= k < names.len(),
        schemas_read(server, names.take(k)) is Ok,
    ensures
        schemas_read(server, names.take(k + 1)) == match schema_read(
            server,
            (2 * k) as nat,
            names[k],
        ) {
            Err(e) => Err(e),
            Ok(table) => Ok(with_table(schemas_read(server, names.take(k))->Ok_0, table)),
        },
{
    assert(names.take(k + 1).drop_last() == names.take(k));
    assert(names.take(k + 1).last() == names[k]);
}

proof fn lemma_schemas_error_stays(
    server: spec_fn(nat, Seq<char>) -> ReplySpec,
    names: Seq<TableNameView>,
    k: int,
)
    requires
        0 <= k <= names.len(),
        schemas_read(server, names.take(k)) is Err,
    ensures
        schemas_read(server, names) == schemas_read(server, names.take(k)),
    decreases names.len() - k,
{
    if k == names.len() {
        assert(names.take(k) == names);
    } else {
        assert(names.take(k + 1).drop_last() == names.take(k));
        lemma_schemas_error_stays(server, names, k + 1);
    }
}

proof fn lemma_schemas_run_from(
    server: spec_fn(nat, Seq<char>) -> ReplySpec,
    names: Seq<TableNameView>,
    k: int,
)
    requires
        0 <= k <= names.len(),
        schemas_read(server, names.take(k)) is Ok,
    ensures
        ({
            let run = SchemasRunView {
                remaining: names.skip(k),
                table_id: None,
                schemas: schemas_read(server, names.take(k))->Ok_0,
                failure: None,
            };
            let end = schemas_run(server, run, (2 * k) as nat, (2 * (names.len() - k)) as nat);
            &&& schemas_request(end) is None
            &&& schemas_outcome(end) == schemas_read(server, names)
        }),
    decreases names.len() - k,
{
    let schemas = schemas_read(server, names.take(k))->Ok_0;
    let run = SchemasRunView { remaining: names.skip(k), table_id: None, schemas, failure: None };
    let rounds = (2 * (names.len() - k)) as nat;
    let asked = (2 * k) as nat;
    if k == names.len() {
        assert(names.take(k) == names);
    } else {
        let name = names[k];
        assert(run.remaining[0] == name);
        lemma_schemas_read_step(server, names, k);
        reveal_with_fuel(schemas_run, 3);
        let first = schemas_next(run, server(asked, table_query(name))).0;
        assert(schemas_run(server, run, asked, rounds) == schemas_run(
            server,
            first,
            asked + 1,
            (rounds - 1) as nat,
        ));
        match table_id_in_reply(server(asked, table_query(name))) {
            Ok(Some(table_id)) => {
                let second = schemas_next(first, server(asked + 1, columns_query(table_id))).0;
                assert(schemas_run(server, run, asked, rounds) == schemas_run(
                    server,
                    second,
                    asked + 2,
                    (rounds - 2) as nat,
                ));
                if schema_read(server, asked, name) is Ok {
                    assert(names.skip(k).skip(1) == names.skip(k + 1));
                    lemma_schemas_run_from(server, names, k + 1);
                } else {
                    lemma_schemas_error_stays(server, names, k + 1);
                }
            },
            _ => {
                lemma_schemas_error_stays(server, names, k + 1);
            },
        }
    }
}

/// Whatever the server answers, a run ends after two requests for each table at most, and what
/// comes of it is what comes of reading the tables one after the other.
pub proof fn law_schemas_run_ends(
    server: spec_fn(nat, Seq<char>) -> ReplySpec,
    names: Seq<TableNameView>,
)
    ensures
        ({
            let end = schemas_run(server, schemas_start(names), 0, 2 * names.len());
            &&& schemas_request(end) is None
            &&& schemas_outcome(end) == schemas_read(server, names)
        }),
{
    assert(names.take(0) == Seq::<TableNameView>::empty());
    assert(names.skip(0) == names);
    lemma_schemas_run_from(server, names, 0);
}

/// Whether `table` is what was read of the table at position `i`, and no table after it has a
/// primary key and the same id.
pub open spec fn last_with_its_id(
    server: spec_fn(nat, Seq<char>) -> ReplySpec,
    names: Seq<TableNameView>,
    i: int,
    table: TableSchemaView,
) -> bool {
    &&& 0 <= i < names.len()
    &&& schema_read(server, (2 * i) as nat, names[i]) == Ok::<TableSchemaView, ClientErrorView>(
        table,
    )
    &&& forall|j: int|
        i < j < names.len() ==> (schema_read(server, (2 * j) as nat, #[trigger] names[j]) matches Ok(
            other,
        ) ==> !(other.has_primary_keys() && other.table_id == table.table_id))
}

proof fn lemma_last_with_its_id_stays(
    server: spec_fn(nat, Seq<char>) -> ReplySpec,
    names: Seq<TableNameView>,
    i: int,
    table: TableSchemaView,
)
    requires
        names.len() > 0,
        last_with_its_id(server, names.drop_last(), i, table),
        schema_read(server, (2 * (names.len() - 1)) as nat, names.last()) matches Ok(other)
            ==> !(other.has_primary_keys() && other.table_id == table.table_id),
    ensures
        last_with_its_id(server, names, i, table),
{
    let init = names.drop_last();
    assert(names[i] == init[i]);
    assert forall|j: int| i < j < names.len() implies (schema_read(
        server,
        (2 * j) as nat,
        #[trigger] names[j],
    ) matches Ok(other) ==> !(other.has_primary_keys() && other.table_id
        == table.table_id)) by {
        if j < names.len() - 1 {
            assert(names[j] == init[j]);
        }
    }
}

/// Whether every table was read, and each with a primary key has its id among the kept ones.
spec fn all_are_read(
    server: spec_fn(nat, Seq<char>) -> ReplySpec,
    names: Seq<TableNameView>,
    schemas: Map<TableId, TableSchemaView>,
) -> bool {
    forall|i: int|
        0 <= i < names.len() ==> (schema_read(
            server,
            (2 * i) as nat,
            #[trigger] names[i],
        ) matches Ok(table) && (table.has_primary_keys() ==> schemas.contains_key(table.table_id)))
}

/// Whether a kept table has a primary key, and is the last with its id.
spec fn is_kept_rightly(
    server: spec_fn(nat, Seq<char>) -> ReplySpec,
    names: Seq<TableNameView>,
    schemas: Map<TableId, TableSchemaView>,
    id: TableId,
) -> bool {
    &&& schemas[id].table_id == id
    &&& schemas[id].has_primary_keys()
    &&& exists|i: int| #[trigger] last_with_its_id(server, names, i, schemas[id])
}

/// Whether the table at position `i` is the first that could not be read.
spec fn fails_first(
    server: spec_fn(nat, Seq<char>) -> ReplySpec,
    names: Seq<TableNameView>,
    i: int,
    e: ClientErrorView,
) -> bool {
    &&& 0 <= i < names.len()
    &&& schema_read(server, (2 * i) as nat, names[i]) == Err::<TableSchemaView, ClientErrorView>(e)
    &&& forall|j: int|
        0 <= j < i ==> schema_read(server, (2 * j) as nat, #[trigger] names[j]) is Ok
}

proof fn lemma_all_are_read_step(
    server: spec_fn(nat, Seq<char>) -> ReplySpec,
    names: Seq<TableNameView>,
    before: Map<TableId, TableSchemaView>,
    table: TableSchemaView,
)
    requires
        names.len() > 0,
        all_are_read(server, names.drop_last(), before),
        schema_read(server, (2 * (names.len() - 1)) as nat, names.last()) == Ok::<
            TableSchemaView,
            ClientErrorView,
        >(table),
    ensures
        all_are_read(server, names, with_table(before, table)),
{
    let init = names.drop_last();
    let schemas = with_table(before, table);
    assert forall|i: int| 0 <= i < names.len() implies (schema_read(
        server,
        (2 * i) as nat,
        #[trigger] names[i],
    ) matches Ok(t) && (t.has_primary_keys() ==> schemas.contains_key(t.table_id))) by {
        if i < init.len() {
            assert(names[i] == init[i]);
        }
    }
}

proof fn lemma_kept_rightly_step(
    server: spec_fn(nat, Seq<char>) -> ReplySpec,
    names: Seq<TableNameView>,
    before: Map<TableId, TableSchemaView>,
    table: TableSchemaView,
    id: TableId,
)
    requires
        names.len() > 0,
        before.contains_key(id) ==> is_kept_rightly(server, names.drop_last(), before, id),
        schema_read(server, (2 * (names.len() - 1)) as nat, names.last()) == Ok::<
            TableSchemaView,
            ClientErrorView,
        >(table),
        with_table(before, table).contains_key(id),
    ensures
        is_kept_rightly(server, names, with_table(before, table), id),
{
    if table.has_primary_keys() && id == table.table_id {
        assert(with_table(before, table)[id] == table);
        assert(last_with_its_id(server, names, names.len() - 1, table));
    } else {
        assert(with_table(before, table)[id] == before[id]);
        assert(before.contains_key(id));
        let i = choose|i: int| #[trigger]
            last_with_its_id(server, names.drop_last(), i, before[id]);
        lemma_last_with_its_id_stays(server, names, i, before[id]);
        assert(last_with_its_id(server, names, i, with_table(before, table)[id]));
    }
}

proof fn lemma_fails_first_step(
    server: spec_fn(nat, Seq<char>) -> ReplySpec,
    names: Seq<TableNameView>,
    i: int,
    e: ClientErrorView,
)
    requires
        names.len() > 0,
        fails_first(server, names.drop_last(), i, e),
    ensures
        fails_first(server, names, i, e),
{
    let init = names.drop_last();
    assert(names[i] == init[i]);
    assert forall|j: int| 0 <= j < i implies schema_read(
        server,
        (2 * j) as nat,
        #[trigger] names[j],
    ) is Ok by {
        assert(names[j] == init[j]);
    }
}

proof fn lemma_schemas_read(
    server: spec_fn(nat, Seq<char>) -> ReplySpec,
    names: Seq<TableNameView>,
)
    ensures
        match schemas_read(server, names) {
            Ok(schemas) => {
                &&& all_are_read(server, names, schemas)
                &&& forall|id: TableId| #[trigger]
                    schemas.contains_key(id) ==> is_kept_rightly(server, names, schemas, id)
            },
            Err(e) => exists|i: int| #[trigger] fails_first(server, names, i, e),
        },
    decreases names.len(),
{
    if names.len() > 0 {
        let init = names.drop_last();
        let last = names.len() - 1;
        lemma_schemas_read(server, init);
        match schemas_read(server, init) {
            Err(e) => {
                let i = choose|i: int| #[trigger] fails_first(server, init, i, e);
                lemma_fails_first_step(server, names, i, e);
            },
            Ok(before) => {
                match schema_read(server, (2 * last) as nat, names.last()) {
                    Err(e) => {
                        assert forall|j: int| 0 <= j < last implies schema_read(
                            server,
                            (2 * j) as nat,
                            #[trigger] names[j],
                        ) is Ok by {
                            assert(names[j] == init[j]);
                        }
                        assert(fails_first(server, names, last, e));
                    },
                    Ok(table) => {
                        lemma_all_are_read_step(server, names, before, table);
                        assert forall|id: TableId| #[trigger]
                            with_table(before, table).contains_key(id) implies is_kept_rightly(
                            server,
                            names,
                            with_table(before, table),
                            id,
                        ) by {
                            lemma_kept_rightly_step(server, names, before, table, id);
                        }
                    },
                }
            },
        }
    }
}

/// Where the reading succeeds, every table was read; a table is in the result, under its id,
/// exactly where it has a primary key, unless a later one with its id took its place; and there
/// is nothing else in it. Where it fails, the error is that of the first table that could not
/// be read.
pub proof fn law_schemas_read(
    server: spec_fn(nat, Seq<char>) -> ReplySpec,
    names: Seq<TableNameView>,
)
    ensures
        match schemas_read(server, names) {
            Ok(schemas) => {
                &&& forall|i: int|
                    0 <= i < names.len() ==> (schema_read(
                        server,
                        (2 * i) as nat,
                        #[trigger] names[i],
                    ) matches Ok(table) && (table.has_primary_keys() ==> schemas.contains_key(
                        table.table_id,
                    )))
                &&& forall|id: TableId| #[trigger]
                    schemas.contains_key(id) ==> {
                        &&& schemas[id].table_id == id
                        &&& schemas[id].has_primary_keys()
                        &&& exists|i: int| #[trigger]
                            last_with_its_id(server, names, i, schemas[id])
                    }
            },
            Err(e) => exists|i: int|
                {
                    &&& 0 <= i < names.len()
                    &&& schema_read(server, (2 * i) as nat, #[trigger] names[i]) == Err::<
                        TableSchemaView,
                        ClientErrorView,
                    >(e)
                    &&& forall|j: int|
                        0 <= j < i ==> schema_read(
                            server,
                            (2 * j) as nat,
                            #[trigger] names[j],
                        ) is Ok
                },
        },
{
    lemma_schemas_read(server, names);
    match schemas_read(server, names) {
        Ok(schemas) => {
            assert(all_are_read(server, names, schemas));
            assert forall|id: TableId| #[trigger] schemas.contains_key(id) implies {
                &&& schemas[id].table_id == id
                &&& schemas[id].has_primary_keys()
                &&& exists|i: int| #[trigger] last_with_its_id(server, names, i, schemas[id])
            } by {
                assert(is_kept_rightly(server, names, schemas, id));
            }
        },
        Err(e) => {
            let i = choose|i: int| #[trigger] fails_first(server, names, i, e);
            assert(names[i] == names[i]);
        },
    }
}

/// A run starts with all the tables left to read, in their order, and with nothing read.
pub proof fn law_schemas_start(names: Seq<TableNameView>)
    ensures
        schemas_start(names).remaining == names,
        schemas_start(names).table_id is None,
        schemas_start(names).failure is None,
        forall|id: TableId| !#[trigger] schemas_start(names).schemas.contains_key(id),
{
}

/// Nothing is sent exactly where the run failed or no table is left. Otherwise the first table
/// that is left is asked for: for its id, and for its columns by that id once it is known.
pub proof fn law_schemas_request(run: SchemasRunView)
    ensures
        schemas_request(run) is None <==> run.failure is Some || run.remaining.len() == 0,
        schemas_request(run) is Some && run.table_id is None ==> schemas_request(run) == Some(
            table_query(run.remaining[0]),
        ),
        schemas_request(run) is Some ==> (run.table_id matches Some(id) ==> schemas_request(run)
            == Some(columns_query(id))),
{
}

/// A run that is at its end takes no more replies.
pub proof fn law_schemas_end_stays(run: SchemasRunView, reply: ReplySpec)
    requires
        run.failure is Some || run.remaining.len() == 0,
    ensures
        schemas_next(run, reply).0 == run,
        schemas_next(run, reply).1 is None,
{
}

/// The answer to the query for an id changes neither the tables that are left nor the schemas
/// that are kept, and leaves no table out. The id is remembered; a table that is not there, or
/// an error, ends the run.
pub proof fn law_schemas_take_an_id(run: SchemasRunView, reply: ReplySpec)
    requires
        run.failure is None,
        run.remaining.len() > 0,
        run.table_id is None,
    ensures
        ({
            let (next, left_out) = schemas_next(run, reply);
            &&& left_out is None
            &&& next.remaining == run.remaining
            &&& next.schemas == run.schemas
            &&& match table_id_in_reply(reply) {
                Ok(Some(id)) => next.table_id == Some(id) && next.failure is None,
                Ok(None) => next.table_id is None && next.failure == Some(
                    ClientErrorView::MissingTable(run.remaining[0]),
                ),
                Err(e) => next.table_id is None && next.failure == Some(e),
            }
        }),
{
}

/// The answer to the query for the columns of a table ends its reading: the next table is next.
/// A table with a column of a primary key is kept under its id, with its name and its columns;
/// one without is left out, and handed back. The schemas under other ids are as they were.
pub proof fn law_schemas_take_columns(
    run: SchemasRunView,
    reply: ReplySpec,
    id: TableId,
    columns: Seq<ColumnSchemaView>,
    other: TableId,
)
    requires
        run.failure is None,
        run.remaining.len() > 0,
        run.table_id == Some(id),
        columns_in_reply(reply) == Ok::<Seq<ColumnSchemaView>, ClientErrorView>(columns),
    ensures
        ({
            let (next, left_out) = schemas_next(run, reply);
            let has_key = exists|i: int|
                0 <= i < columns.len() && (#[trigger] columns[i]).primary;
            &&& next.failure is None
            &&& next.table_id is None
            &&& next.remaining.len() == run.remaining.len() - 1
            &&& forall|i: int|
                0 <= i < next.remaining.len() ==> #[trigger] next.remaining[i] == run.remaining[i
                    + 1]
            &&& has_key ==> {
                &&& left_out is None
                &&& next.schemas.contains_key(id)
                &&& next.schemas[id].table_name == run.remaining[0]
                &&& next.schemas[id].table_id == id
                &&& next.schemas[id].column_schemas == columns
            }
            &&& !has_key ==> {
                &&& left_out matches Some(table) && table.table_name == run.remaining[0]
                    && table.table_id == id && table.column_schemas == columns
                &&& next.schemas == run.schemas
            }
            &&& other != id ==> {
                &&& next.schemas.contains_key(other) == run.schemas.contains_key(other)
                &&& run.schemas.contains_key(other) ==> next.schemas[other] == run.schemas[other]
            }
        }),
{
    let table = TableSchemaView { table_name: run.remaining[0], table_id: id, column_schemas: columns };
    let has_key = exists|i: int| 0 <= i < columns.len() && (#[trigger] columns[i]).primary;
    if has_key {
        let i = choose|i: int| 0 <= i < columns.len() && (#[trigger] columns[i]).primary;
        assert(table.column_schemas[i].primary);
        assert(table.has_primary_keys());
    }
    if table.has_primary_keys() {
        let i = choose|i: int|
            0 <= i < table.column_schemas.len() && (#[trigger] table.column_schemas[i]).primary;
        assert(columns[i].primary);
        assert(has_key);
    }
}

/// An error in the answer to the query for the columns of a table ends the run: nothing is kept
/// of the table, and it is not handed back.
pub proof fn law_schemas_fail_at_columns(run: SchemasRunView, reply: ReplySpec, e: ClientErrorView)
    requires
        run.failure is None,
        run.remaining.len() > 0,
        run.table_id is Some,
        columns_in_reply(reply) == Err::<Seq<ColumnSchemaView>, ClientErrorView>(e),
    ensures
        schemas_next(run, reply).0.failure == Some(e),
        schemas_next(run, reply).0.schemas == run.schemas,
        schemas_next(run, reply).0.remaining == run.remaining,
        schemas_next(run, reply).0.table_id == run.table_id,
        schemas_next(run, reply).1 is None,
{
}

/// One more table is kept, under its id and as it is, exactly where one of its columns belongs
/// to a primary key; what is kept under other ids is as it was.
pub proof fn law_with_table(
    schemas: Map<TableId, TableSchemaView>,
    table: TableSchemaView,
    other: TableId,
)
    ensures
        table.has_primary_keys() ==> with_table(schemas, table).contains_key(table.table_id)
            && with_table(schemas, table)[table.table_id] == table,
        !table.has_primary_keys() ==> with_table(schemas, table) == schemas,
        other != table.table_id ==> with_table(schemas, table).contains_key(other)
            == schemas.contains_key(other) && (schemas.contains_key(other) ==> with_table(
            schemas,
            table,
        )[other] == schemas[other]),
{
}

/// What came of a run is its error, whatever was read before it, or else what it kept.
pub proof fn law_schemas_outcome(run: SchemasRunView)
    ensures
        run.failure matches Some(e) ==> schemas_outcome(run) == Err::<
            Map<TableId, TableSchemaView>,
            ClientErrorView,
        >(e),
        run.failure is None ==> schemas_outcome(run) == Ok::<
            Map<TableId, TableSchemaView>,
            ClientErrorView,
        >(run.schemas),
{
}

/// The schema of a table has the name that was asked for, the id from the first answer, and the
/// columns from the second, which was asked for by that id; it is read exactly where both
/// answers can be. A table without an id is missing, under its name.
pub proof fn law_schema_read(
    server: spec_fn(nat, Seq<char>) -> ReplySpec,
    asked: nat,
    table_name: TableNameView,
)
    ensures
        ({
            let id = table_id_in_reply(server(asked, table_query(table_name)));
            let result = schema_read(server, asked, table_name);
            &&& result matches Ok(table) ==> {
                &&& table.table_name == table_name
                &&& id == Ok::<Option<TableId>, ClientErrorView>(Some(table.table_id))
                &&& columns_in_reply(server(asked + 1, columns_query(table.table_id))) == Ok::<
                    Seq<ColumnSchemaView>,
                    ClientErrorView,
                >(table.column_schemas)
            }
            &&& id == Ok::<Option<TableId>, ClientErrorView>(None) ==> result == Err::<
                TableSchemaView,
                ClientErrorView,
            >(ClientErrorView::MissingTable(table_name))
            &&& id matches Err(e) ==> result == Err::<TableSchemaView, ClientErrorView>(e)
            &&& id matches Ok(Some(id)) ==> match columns_in_reply(
                server(asked + 1, columns_query(id)),
            ) {
                Ok(_) => result is Ok,
                Err(e) => result == Err::<TableSchemaView, ClientErrorView>(e),
            }
        }),
{
}

/// Whether `table` is what the server told of the table at position `i`: its name was asked for
/// after two requests for each table before it, and its columns right after that.
pub open spec fn is_told_at(
    server: spec_fn(nat, Seq<char>) -> ReplySpec,
    names: Seq<TableNameView>,
    i: int,
    table: TableSchemaView,
) -> bool {
    &&& 0 <= i < names.len()
    &&& table.table_name == names[i]
    &&& table_id_in_reply(server((2 * i) as nat, table_query(names[i]))) == Ok::<
        Option<TableId>,
        ClientErrorView,
    >(Some(table.table_id))
    &&& columns_in_reply(server((2 * i + 1) as nat, columns_query(table.table_id))) == Ok::<
        Seq<ColumnSchemaView>,
        ClientErrorView,
    >(table.column_schemas)
}

/// What a run keeps is what the server told of one of the tables, under the id that it told, and
/// with a column of a primary key; and every table with such a column has its id among the kept
/// ones.
pub proof fn law_run_keeps_what_was_told(
    server: spec_fn(nat, Seq<char>) -> ReplySpec,
    names: Seq<TableNameView>,
    schemas: Map<TableId, TableSchemaView>,
)
    requires
        schemas_outcome(schemas_run(server, schemas_start(names), 0, 2 * names.len())) == Ok::<
            Map<TableId, TableSchemaView>,
            ClientErrorView,
        >(schemas),
    ensures
        forall|id: TableId| #[trigger]
            schemas.contains_key(id) ==> {
                &&& schemas[id].table_id == id
                &&& schemas[id].has_primary_keys()
                &&& exists|i: int| #[trigger] is_told_at(server, names, i, schemas[id])
            },
        forall|i: int, table: TableSchemaView| #[trigger]
            is_told_at(server, names, i, table) && table.has_primary_keys()
                ==> schemas.contains_key(table.table_id),
{
    law_schemas_run_ends(server, names);
    law_schemas_read(server, names);
    assert forall|id: TableId| #[trigger] schemas.contains_key(id) implies exists|i: int| #[trigger]
        is_told_at(server, names, i, schemas[id]) by {
        let i = choose|i: int| #[trigger] last_with_its_id(server, names, i, schemas[id]);
        law_schema_read(server, (2 * i) as nat, names[i]);
        assert(is_told_at(server, names, i, schemas[id]));
    }
    assert forall|i: int, table: TableSchemaView| #[trigger]
        is_told_at(server, names, i, table) && table.has_primary_keys() implies schemas.contains_key(
        table.table_id,
    ) by {
        law_schema_read(server, (2 * i) as nat, names[i]);
        let read = schema_read(server, (2 * i) as nat, names[i])->Ok_0;
        assert(read == table);
    }
}

/// The views of a run and of its schemas hold every table, under the same ids, and every name.
pub proof fn law_schemas_views(run: TableSchemasRun, id: TableId, i: int)
    ensures
        schemas_view(run.schemas@).contains_key(id) == run.schemas@.contains_key(id),
        run.schemas@.contains_key(id) ==> schemas_view(run.schemas@)[id] == run.schemas@[id]@,
        run@.schemas == schemas_view(run.schemas@),
        run@.table_id == run.table_id,
        run@.remaining.len() == run.remaining@.len(),
        0 <= i < run.remaining@.len() ==> run@.remaining[i] == run.remaining@[i]@,
        run.failure is None <==> run@.failure is None,
        run.failure matches Some(e) ==> run@.failure == Some(e@),
{
}

} // verus!
