//! Tables and their columns.

use vstd::prelude::*;
use vstd::string::*;

use crate::quote::{is_written_name, quote_identifier, quoted_identifier};
use crate::text::{decimal_text, law_decimal_text_parses, number_text, unsigned_value};

verus! {

/// The id of a table; Postgres calls it the relation id.
pub type TableId = u32;

/// The name of a table within its schema.
#[derive(Debug)]
pub struct TableName {
    pub schema: String,
    pub name: String,
}

/// A table name as a pair of texts.
#[verifier::ext_equal]
pub struct TableNameView {
    pub schema: Seq<char>,
    pub name: Seq<char>,
}

impl View for TableName {
    type V = TableNameView;

    open spec fn view(&self) -> TableNameView {
        TableNameView { schema: self.schema@, name: self.name@ }
    }
}

impl Clone for TableName {
    fn clone(&self) -> (r: TableName)
        ensures
            r == *self,
    {
        TableName { schema: self.schema.clone(), name: self.name.clone() }
    }
}

impl TableName {
    /// The name as a query writes it: schema and name quoted where they need it, with a dot
    /// between them.
    pub fn as_quoted_identifier(&self) -> (r: String)
        ensures
            r@ == quoted_identifier(self.schema@) + "."@ + quoted_identifier(self.name@),
            is_written_name(self.schema@, quoted_identifier(self.schema@)),
            is_written_name(self.name@, quoted_identifier(self.name@)),
    {
        let mut text = quote_identifier(self.schema.as_str());
        text.append(".");
        text.append(quote_identifier(self.name.as_str()).as_str());
        text
    }
}

/// What kind of type a column has. Element types are given by their ids.
#[derive(Clone, Copy, Debug, PartialEq, Eq, Structural)]
pub enum TypeKind {
    Simple,
    Pseudo,
    Array(u32),
    Range(u32),
    Multirange(u32),
    Other,
}

/// The type of a column.
#[derive(Debug)]
pub struct ColumnType {
    pub name: String,
    pub oid: u32,
    pub kind: TypeKind,
    pub schema: String,
}

/// A column type with its texts as sequences.
#[verifier::ext_equal]
pub struct ColumnTypeView {
    pub name: Seq<char>,
    pub oid: u32,
    pub kind: TypeKind,
    pub schema: Seq<char>,
}

impl View for ColumnType {
    type V = ColumnTypeView;

    open spec fn view(&self) -> ColumnTypeView {
        ColumnTypeView {
            name: self.name@,
            oid: self.oid,
            kind: self.kind,
            schema: self.schema@,
        }
    }
}

/// The built-in type that `tokio_postgres::types::Type::from_oid` finds for an id.
pub uninterp spec fn builtin_type(oid: u32) -> Option<ColumnTypeView>;

/// Calls `tokio_postgres::types::Type::from_oid`.
///
/// The contract names its result, and says that a type which is found has the id that was
/// asked for and stands in the schema `pg_catalog`.
#[verifier::external_body]
fn find_builtin_type(oid: u32) -> (r: Option<ColumnType>)
    ensures
        match r {
            Some(t) => builtin_type(oid) == Some(t@) && t.oid == oid && t.schema@
                == "pg_catalog"@,
            None => builtin_type(oid) is None,
        },
{
    let t = tokio_postgres::types::Type::from_oid(oid)?;
    let kind = match t.kind() {
        tokio_postgres::types::Kind::Simple => TypeKind::Simple,
        tokio_postgres::types::Kind::Pseudo => TypeKind::Pseudo,
        tokio_postgres::types::Kind::Array(e) => TypeKind::Array(e.oid()),
        tokio_postgres::types::Kind::Range(e) => TypeKind::Range(e.oid()),
        tokio_postgres::types::Kind::Multirange(e) => TypeKind::Multirange(e.oid()),
        _ => TypeKind::Other,
    };
    Some(ColumnType { name: t.name().to_string(), oid: t.oid(), kind, schema: t.schema().to_string() })
}

/// The type that stands for an id without a built-in type: simple, in the schema `pg_catalog`,
/// and named after the id.
pub open spec fn unnamed_type(oid: u32) -> ColumnTypeView {
    ColumnTypeView {
        name: "unnamed(oid: "@ + number_text(oid as nat, 10) + ")"@,
        oid,
        kind: TypeKind::Simple,
        schema: "pg_catalog"@,
    }
}

/// The type of a column whose type has the given id, where `builtin` is the built-in type with
/// that id.
pub open spec fn type_or_unnamed(oid: u32, builtin: Option<ColumnTypeView>) -> ColumnTypeView {
    match builtin {
        Some(t) => t,
        None => unnamed_type(oid),
    }
}

impl ColumnType {
    /// The type with the given id: the built-in one, or a simple type that is named after the
    /// id.
    pub fn from_oid(oid: u32) -> (r: ColumnType)
        ensures
            r@ == type_or_unnamed(oid, builtin_type(oid)),
            r.oid == oid,
            r.schema@ == "pg_catalog"@,
    {
        let builtin = find_builtin_type(oid);
        ColumnType::or_unnamed(oid, builtin)
    }

    /// The type that was found for an id, or the type that is named after the id.
    pub fn or_unnamed(oid: u32, builtin: Option<ColumnType>) -> (r: ColumnType)
        ensures
            match builtin {
                Some(t) => r == t,
                None => r@ == unnamed_type(oid),
            },
    {
        match builtin {
            Some(t) => t,
            None => {
                let mut name = "unnamed(oid: ".to_owned();
                name.append(decimal_text(oid).as_str());
                name.append(")");
                ColumnType {
                    name,
                    oid,
                    kind: TypeKind::Simple,
                    schema: "pg_catalog".to_owned(),
                }
            },
        }
    }
}

/// A column of a table.
#[derive(Debug)]
pub struct ColumnSchema {
    pub name: String,
    pub typ: ColumnType,
    pub modifier: i32,
    pub nullable: bool,
    pub primary: bool,
}

/// A column with its texts as sequences.
#[verifier::ext_equal]
pub struct ColumnSchemaView {
    pub name: Seq<char>,
    pub typ: ColumnTypeView,
    pub modifier: i32,
    pub nullable: bool,
    pub primary: bool,
}

impl View for ColumnSchema {
    type V = ColumnSchemaView;

    open spec fn view(&self) -> ColumnSchemaView {
        ColumnSchemaView {
            name: self.name@,
            typ: self.typ@,
            modifier: self.modifier,
            nullable: self.nullable,
            primary: self.primary,
        }
    }
}

/// The columns as a sequence of views.
pub open spec fn columns_view(columns: Seq<ColumnSchema>) -> Seq<ColumnSchemaView> {
    columns.map_values(|c: ColumnSchema| c@)
}

/// A table with its columns.
#[derive(Debug)]
pub struct TableSchema {
    pub table_name: TableName,
    pub table_id: TableId,
    pub column_schemas: Vec<ColumnSchema>,
}

/// A table with its texts as sequences.
#[verifier::ext_equal]
pub struct TableSchemaView {
    pub table_name: TableNameView,
    pub table_id: TableId,
    pub column_schemas: Seq<ColumnSchemaView>,
}

impl View for TableSchema {
    type V = TableSchemaView;

    open spec fn view(&self) -> TableSchemaView {
        TableSchemaView {
            table_name: self.table_name@,
            table_id: self.table_id,
            column_schemas: columns_view(self.column_schemas@),
        }
    }
}

impl TableSchemaView {
    /// Whether a column of the table belongs to its primary key.
    pub open spec fn has_primary_keys(self) -> bool {
        exists|i: int|
            0 <= i < self.column_schemas.len() && (#[trigger] self.column_schemas[i]).primary
    }
}

impl TableSchema {
    /// Whether a column of the table belongs to its primary key.
    pub fn has_primary_keys(&self) -> (r: bool)
        ensures
            r == self@.has_primary_keys(),
    {
        let mut i: usize = 0;
        while i < self.column_schemas.len()
            invariant
                i <= self.column_schemas@.len(),
                forall|j: int| 0 <= j < i ==> !(#[trigger] self@.column_schemas[j]).primary,
            decreases self.column_schemas@.len() - i,
        {
            if self.column_schemas[i].primary {
                assert(self@.column_schemas[i as int].primary);
                return true;
            }
            i = i + 1;
        }
        false
    }
}

/// A type that is named after its id is simple, stands in the schema `pg_catalog`, and its name
/// holds the id in decimal: two of them are the same only if their ids are.
pub proof fn law_unnamed_type(oid: u32, other: u32)
    ensures
        unnamed_type(oid).oid == oid,
        unnamed_type(oid).kind == TypeKind::Simple,
        unnamed_type(oid).schema == "pg_catalog"@,
        unsigned_value(
            unnamed_type(oid).name.subrange(
                "unnamed(oid: "@.len() as int,
                unnamed_type(oid).name.len() - 1,
            ),
            10,
            u32::MAX as nat,
        ) == Some(oid as nat),
        unnamed_type(oid).name.take("unnamed(oid: "@.len() as int) == "unnamed(oid: "@,
        unnamed_type(oid).name.last() == ')',
        unnamed_type(oid).name == unnamed_type(other).name ==> oid == other,
{
    reveal_strlit(")");
    law_decimal_text_parses(oid);
    law_decimal_text_parses(other);
    let head = "unnamed(oid: "@;
    assert(unnamed_type(oid).name.subrange(
        head.len() as int,
        unnamed_type(oid).name.len() - 1,
    ) == number_text(oid as nat, 10));
    assert(unnamed_type(other).name.subrange(
        head.len() as int,
        unnamed_type(other).name.len() - 1,
    ) == number_text(other as nat, 10));
    assert(unnamed_type(oid).name.take(head.len() as int) == head);
}

/// A built-in type is taken as it is, and only an id without one gets a type named after it.
pub proof fn law_type_or_unnamed(oid: u32, builtin: Option<ColumnTypeView>)
    ensures
        builtin matches Some(t) ==> type_or_unnamed(oid, builtin) == t,
        builtin is None ==> type_or_unnamed(oid, builtin) == unnamed_type(oid),
{
}

/// A table without columns has no primary key, and one more column gives it one only if the
/// column belongs to it; a primary key that is there stays.
pub proof fn law_primary_keys(table: TableSchemaView, column: ColumnSchemaView)
    ensures
        table.column_schemas.len() == 0 ==> !table.has_primary_keys(),
        (TableSchemaView {
            column_schemas: table.column_schemas.push(column),
            ..table
        }).has_primary_keys() <==> table.has_primary_keys() || column.primary,
{
    let more = TableSchemaView { column_schemas: table.column_schemas.push(column), ..table };
    if table.has_primary_keys() {
        let i = choose|i: int|
            0 <= i < table.column_schemas.len() && (#[trigger] table.column_schemas[i]).primary;
        assert(more.column_schemas[i].primary);
    }
    assert(more.column_schemas[table.column_schemas.len() as int] == column);
    if more.has_primary_keys() && !column.primary {
        let i = choose|i: int|
            0 <= i < more.column_schemas.len() && (#[trigger] more.column_schemas[i]).primary;
        assert(table.column_schemas[i].primary);
    }
}

/// The views of a table and of its parts hold every text, number and flag of them.
pub proof fn law_table_views(table: TableSchema, i: int)
    requires
        0 <= i < table.column_schemas@.len(),
    ensures
        table@.table_name.schema == table.table_name.schema@,
        table@.table_name.name == table.table_name.name@,
        table@.table_id == table.table_id,
        table@.column_schemas.len() == table.column_schemas@.len(),
        ({
            let column = table.column_schemas@[i];
            let view = table@.column_schemas[i];
            &&& view.name == column.name@
            &&& view.typ.name == column.typ.name@
            &&& view.typ.oid == column.typ.oid
            &&& view.typ.kind == column.typ.kind
            &&& view.typ.schema == column.typ.schema@
            &&& view.modifier == column.modifier
            &&& view.nullable == column.nullable
            &&& view.primary == column.primary
        }),
{
}

} // verus!
