//! What can go wrong between the client and the server.

use vstd::prelude::*;

use crate::table::{TableName, TableNameView};

verus! {

/// `tokio_postgres::Error`, which is carried through as it is.
#[verifier::external_type_specification]
#[verifier::external_body]
pub struct ExPostgresError(tokio_postgres::Error);

/// An error of the connection to the server.
#[derive(Debug)]
pub enum DriverError {
    /// The request failed.
    Request(tokio_postgres::Error),
    /// A row has no column of this name.
    Column(String),
    /// The value of a column cannot be read; the text says why.
    Value(String),
}

/// A connection error with its texts as sequences.
pub enum DriverErrorView {
    Request(tokio_postgres::Error),
    Column(Seq<char>),
    Value(Seq<char>),
}

impl View for DriverError {
    type V = DriverErrorView;

    open spec fn view(&self) -> DriverErrorView {
        match self {
            DriverError::Request(e) => DriverErrorView::Request(*e),
            DriverError::Column(name) => DriverErrorView::Column(name@),
            DriverError::Value(why) => DriverErrorView::Value(why@),
        }
    }
}

/// An error of the replication client.
#[derive(Debug)]
pub enum ReplicationClientError {
    /// The connection to the server failed.
    TokioPostgresError(DriverError),
    /// A column is missing from a table.
    MissingColumn(String, String),
    /// A publication does not exist.
    MissingPublication(String),
    /// An oid column does not hold a `u32`.
    OidColumnNotU32,
    /// A table has a replica identity that is not supported.
    ReplicaIdentityNotSupported(String),
    /// A type modifier column does not hold an `i32`.
    TypeModifierColumnNotI32,
    /// A column's type is not supported: column, type id and relation.
    UnsupportedType(String, u32, String),
    /// A table does not exist.
    MissingTable(TableName),
    /// A text is not a position in the log.
    InvalidPgLsn,
    /// A slot was not created.
    FailedToCreateSlot,
}

/// An error of the replication client with its texts as sequences.
pub enum ClientErrorView {
    TokioPostgresError(DriverErrorView),
    MissingColumn(Seq<char>, Seq<char>),
    MissingPublication(Seq<char>),
    OidColumnNotU32,
    ReplicaIdentityNotSupported(Seq<char>),
    TypeModifierColumnNotI32,
    UnsupportedType(Seq<char>, u32, Seq<char>),
    MissingTable(TableNameView),
    InvalidPgLsn,
    FailedToCreateSlot,
}

impl View for ReplicationClientError {
    type V = ClientErrorView;

    open spec fn view(&self) -> ClientErrorView {
        match self {
            ReplicationClientError::TokioPostgresError(e) => ClientErrorView::TokioPostgresError(
                e@,
            ),
            ReplicationClientError::MissingColumn(column, table) => ClientErrorView::MissingColumn(
                column@,
                table@,
            ),
            ReplicationClientError::MissingPublication(
                name,
            ) => ClientErrorView::MissingPublication(name@),
            ReplicationClientError::OidColumnNotU32 => ClientErrorView::OidColumnNotU32,
            ReplicationClientError::ReplicaIdentityNotSupported(
                identity,
            ) => ClientErrorView::ReplicaIdentityNotSupported(identity@),
            ReplicationClientError::TypeModifierColumnNotI32 => {
                ClientErrorView::TypeModifierColumnNotI32
            },
            ReplicationClientError::UnsupportedType(
                column,
                oid,
                relation,
            ) => ClientErrorView::UnsupportedType(column@, *oid, relation@),
            ReplicationClientError::MissingTable(name) => ClientErrorView::MissingTable(name@),
            ReplicationClientError::InvalidPgLsn => ClientErrorView::InvalidPgLsn,
            ReplicationClientError::FailedToCreateSlot => ClientErrorView::FailedToCreateSlot,
        }
    }
}

/// The error of the client for a request that failed.
pub open spec fn request_failed(e: tokio_postgres::Error) -> ClientErrorView {
    ClientErrorView::TokioPostgresError(DriverErrorView::Request(e))
}

impl From<tokio_postgres::Error> for ReplicationClientError {
    fn from(e: tokio_postgres::Error) -> (r: ReplicationClientError) {
        ReplicationClientError::TokioPostgresError(DriverError::Request(e))
    }
}

impl vstd::std_specs::convert::FromSpecImpl<tokio_postgres::Error> for ReplicationClientError {
    open spec fn obeys_from_spec() -> bool {
        true
    }

    open spec fn from_spec(e: tokio_postgres::Error) -> ReplicationClientError {
        ReplicationClientError::TokioPostgresError(DriverError::Request(e))
    }
}

/// A request that failed is reported with its own error, and with no other.
pub proof fn law_request_failed(a: tokio_postgres::Error, b: tokio_postgres::Error)
    ensures
        request_failed(a) matches ClientErrorView::TokioPostgresError(DriverErrorView::Request(e))
            && e == a,
        request_failed(a) == request_failed(b) <==> a == b,
{
}

/// The view of an error is the same error, with the same texts, ids and names.
pub proof fn law_error_views(error: ReplicationClientError)
    ensures
        match error {
            ReplicationClientError::TokioPostgresError(DriverError::Request(e)) => error@
                == request_failed(e),
            ReplicationClientError::TokioPostgresError(DriverError::Column(name)) => error@
                == ClientErrorView::TokioPostgresError(DriverErrorView::Column(name@)),
            ReplicationClientError::TokioPostgresError(DriverError::Value(why)) => error@
                == ClientErrorView::TokioPostgresError(DriverErrorView::Value(why@)),
            ReplicationClientError::MissingColumn(column, table) => error@
                == ClientErrorView::MissingColumn(column@, table@),
            ReplicationClientError::MissingPublication(name) => error@
                == ClientErrorView::MissingPublication(name@),
            ReplicationClientError::OidColumnNotU32 => error@ is OidColumnNotU32,
            ReplicationClientError::ReplicaIdentityNotSupported(identity) => error@
                == ClientErrorView::ReplicaIdentityNotSupported(identity@),
            ReplicationClientError::TypeModifierColumnNotI32 => error@ is TypeModifierColumnNotI32,
            ReplicationClientError::UnsupportedType(column, oid, relation) => error@
                == ClientErrorView::UnsupportedType(column@, oid, relation@),
            ReplicationClientError::MissingTable(name) => error@ == ClientErrorView::MissingTable(
                TableNameView { schema: name.schema@, name: name.name@ },
            ),
            ReplicationClientError::InvalidPgLsn => error@ is InvalidPgLsn,
            ReplicationClientError::FailedToCreateSlot => error@ is FailedToCreateSlot,
        },
{
}

} // verus!
