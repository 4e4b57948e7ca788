//! The wire envelope: the request/response object carrying command name,
//! typed payload, and integrity metadata, and the rules for checking and
//! recomputing that metadata.
//!
//! An inbound envelope's digest is recomputed over its command name, its
//! declared payload length, and the payload as serialized; a mismatch drops
//! the command. Outbound, digest and length are always recomputed from the
//! payload actually sent, and a request's nonce is echoed verbatim on its
//! response.

use vstd::prelude::*;
use vstd::string::StringSliceAdditionalSpecFns;

use crate::codec::{decode_model, parse_cql_value, DecodeError};
use crate::descriptors::{DeleteData, InsertData, RawData, SelectData, UpdateData};
use crate::integrity::{hash_input, sha512_hex, envelope_hash, verify_envelope_hash};
use crate::value::{Native, Value, ValueModel};

verus! {

/// Kinds of wire commands a client may issue.
#[derive(Clone, Copy, PartialEq, Eq, Structural, Debug)]
pub enum CommandKind {
    Connect,
    Select,
    Insert,
    Update,
    Delete,
    Raw,
    Unknown,
}

/// Credentials forwarded to the database driver.
pub struct CredentialsData {
    pub username: String,
    pub password: String,
}

/// A connect request: contact points, data center, credentials, and the
/// keyspace the connection will use.
pub struct ConnectData {
    pub contact_points: Vec<String>,
    pub local_data_center: String,
    pub credentials: CredentialsData,
    pub keyspace: String,
}

/// The response to a connect attempt.
pub struct ConnectResponse {
    pub result: String,
    pub error: Option<String>,
}

/// One result row: column name to value, in column order.
pub type Row = Vec<(String, Value)>;

/// The response to a read: rows of ordered column/value pairs, or an error.
pub struct QueryResult {
    pub result: Vec<Row>,
    pub error: Option<String>,
}

/// The response to an insert.
pub struct InsertResponse {
    pub success: bool,
    pub error: Option<String>,
}

/// The response to an update.
pub struct UpdateResponse {
    pub success: bool,
    pub error: Option<String>,
}

/// The response to a delete.
pub struct DeleteResponse {
    pub success: bool,
    pub error: Option<String>,
}

/// The typed payload of an envelope, by command.
pub enum CommandData {
    Select(SelectData),
    Insert(InsertData),
    Update(UpdateData),
    Delete(DeleteData),
    Raw(RawData),
    Connect(ConnectData),
    SelectResponse(QueryResult),
    InsertResponse(InsertResponse),
    UpdateResponse(UpdateResponse),
    DeleteResponse(DeleteResponse),
    ConnectResponse(ConnectResponse),
}

/// A wire envelope. The digest covers command name, payload length, and the
/// payload as serialized; the length counts payload and command-name bytes.
pub struct Command {
    pub hash: String,
    pub command: String,
    pub table: Option<String>,
    pub keyspace: Option<String>,
    pub data: CommandData,
    pub length: usize,
    pub nonce: Option<String>,
    pub type_: Option<String>,
}

/// The command kind a command name denotes.
pub open spec fn spec_classify(s: Seq<char>) -> CommandKind {
    if s == "connect"@ {
        CommandKind::Connect
    } else if s == "select"@ {
        CommandKind::Select
    } else if s == "insert"@ {
        CommandKind::Insert
    } else if s == "update"@ {
        CommandKind::Update
    } else if s == "delete"@ {
        CommandKind::Delete
    } else if s == "raw"@ {
        CommandKind::Raw
    } else {
        CommandKind::Unknown
    }
}

/// Classifies a command name.
pub fn classify_command(command: &String) -> (r: CommandKind)
    ensures
        r == spec_classify(command@),
{
    if *command == "connect".to_owned() {
        CommandKind::Connect
    } else if *command == "select".to_owned() {
        CommandKind::Select
    } else if *command == "insert".to_owned() {
        CommandKind::Insert
    } else if *command == "update".to_owned() {
        CommandKind::Update
    } else if *command == "delete".to_owned() {
        CommandKind::Delete
    } else if *command == "raw".to_owned() {
        CommandKind::Raw
    } else {
        CommandKind::Unknown
    }
}

/// Decides whether an inbound envelope's digest matches the digest of what
/// it actually carries: its command name, its declared length, and its
/// payload as serialized. On a mismatch the command is dropped and nothing
/// is executed.
pub fn verify_envelope(cmd: &Command, payload: &str) -> (ok: bool)
    ensures
        ok == (cmd.hash@ == sha512_hex(
            hash_input(cmd.command@, cmd.length as nat, payload@),
        )),
{
    verify_envelope_hash(&cmd.hash, cmd.command.as_str(), cmd.length, payload)
}

/// The integrity metadata of an outbound envelope: always recomputed from
/// the payload actually sent, with the request's nonce echoed verbatim so
/// clients can correlate concurrent in-flight requests.
pub struct SealedMeta {
    pub hash: String,
    pub length: usize,
    pub nonce: Option<String>,
}

/// Computes an outbound envelope's length and digest from the payload being
/// sent, overriding any stale values: the length counts payload and
/// command-name bytes, and the digest covers command name, that length, and
/// the payload. The request's nonce is echoed unchanged; a protocol-level
/// error response passes `None`.
pub fn seal_envelope(command: &str, payload: &str, nonce: Option<String>) -> (r: SealedMeta)
    requires
        payload.spec_bytes().len() + command.spec_bytes().len() <= usize::MAX,
    ensures
        r.length == payload.spec_bytes().len() + command.spec_bytes().len(),
        r.hash@ == sha512_hex(hash_input(command@, r.length as nat, payload@)),
        r.nonce == nonce,
{
    let length = payload.len() + command.len();
    let hash = envelope_hash(command, length, payload);
    SealedMeta { hash, length, nonce }
}

/// What one decoded result cell must hold: the column's name beside the
/// decoding of its native value, `Null` when the column is absent.
pub open spec fn cell_matches(cell: (String, Value), name: String, native: Option<Native>) -> bool {
    &&& cell.0 == name
    &&& Some(cell.1@) == (match native {
        Some(n) => decode_model(n@),
        None => Some(ValueModel::Null),
    })
}

/// Whether every present cell of the given rows decodes.
pub open spec fn rows_decodable(rows: Seq<Vec<Option<Native>>>, width: int) -> bool {
    forall|i: int, j: int|
        0 <= i < rows.len() && 0 <= j < width ==> ((#[trigger] rows[i]@[j]) matches Some(n)
            ==> decode_model(n@) is Some)
}

/// Decodes the driver's rows into response rows: each row maps every column
/// name, in column order, to the decoding of that column's native value.
/// Succeeds exactly when every present cell decodes.
#[verifier::loop_isolation(false)]
pub fn decode_rows(names: &Vec<String>, rows: Vec<Vec<Option<Native>>>) -> (r: Result<
    Vec<Row>,
    DecodeError,
>)
    requires
        forall|i: int| 0 <= i < rows@.len() ==> (#[trigger] rows@[i])@.len() == names@.len(),
    ensures
        r is Ok <==> rows_decodable(rows@, names@.len() as int),
        r matches Ok(out) ==> {
            &&& out@.len() == rows@.len()
            &&& forall|i: int, j: int|
                0 <= i < out@.len() && 0 <= j < names@.len() ==> cell_matches(
                    (#[trigger] out@[i]@[j]),
                    names@[j],
                    rows@[i]@[j],
                )
            &&& forall|i: int| 0 <= i < out@.len() ==> (#[trigger] out@[i])@.len() == names@.len()
        },
{
    let mut out: Vec<Row> = Vec::new();
    let ghost all = rows@;
    let mut rows = rows;
    while rows.len() > 0
        invariant
            out@.len() + rows@.len() == all.len(),
            rows@ == all.subrange(out@.len() as int, all.len() as int),
            forall|i: int| 0 <= i < all.len() ==> (#[trigger] all[i])@.len() == names@.len(),
            forall|i: int| 0 <= i < out@.len() ==> (#[trigger] out@[i])@.len() == names@.len(),
            forall|i: int, j: int|
                0 <= i < out@.len() && 0 <= j < names@.len() ==> cell_matches(
                    (#[trigger] out@[i]@[j]),
                    names@[j],
                    all[i]@[j],
                ),
        decreases rows@.len(),
    {
        let ghost done = out@.len() as int;
        let row = rows.remove(0);
        proof {
            assert(row == all[done]);
            assert(rows@ =~= all.subrange(done + 1, all.len() as int));
        }
        let mut fields: Row = Vec::new();
        let mut j: usize = 0;
        while j < names.len()
            invariant
                0 <= j <= names@.len(),
                fields@.len() == j,
                row@.len() == names@.len(),
                forall|k: int|
                    0 <= k < j ==> cell_matches((#[trigger] fields@[k]), names@[k], row@[k]),
            decreases names@.len() - j,
        {
            let value = match parse_cql_value(row[j].as_ref()) {
                Ok(v) => v,
                Err(e) => {
                    proof {
                        assert(all[done]@[j as int] is Some);
                        assert(decode_model(all[done]@[j as int]->0@) is None);
                    }
                    return Err(e);
                },
            };
            fields.push((names[j].clone(), value));
            j = j + 1;
        }
        out.push(fields);
    }
    proof {
        assert forall|i: int, j: int|
            0 <= i < all.len() && 0 <= j < names@.len() implies ((#[trigger] all[i]@[j])
            matches Some(n) ==> decode_model(n@) is Some) by {
            assert(cell_matches(out@[i]@[j], names@[j], all[i]@[j]));
        }
    }
    Ok(out)
}

} // verus!
