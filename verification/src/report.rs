//! Interpretation of decoded API responses into the lines the tool
//! prints, and the error reporter's single-line diagnostics.

use vstd::prelude::*;
use vstd::string::*;
use crate::decimal::spec_i64_str;
use crate::decimal::spec_u64_digits;
use crate::decimal::i64_to_string;
use crate::decimal::u64_to_string;
use crate::timestamp::spec_format_ts;
use crate::timestamp::spec_format_opt_ts;
use crate::timestamp::format_ts;
use crate::timestamp::format_opt_ts;
use crate::table::spec_table_lines;
use crate::table::render_table;

verus! {

/// One managed key record, as decoded from a list response.
pub struct ApiKeyRecord {
    pub id: i64,
    pub name: String,
    pub created_at: i64,
    pub last_used_at: Option<i64>,
    pub revoked_at: Option<i64>,
    pub notes: Option<String>,
}

/// A decoded create response body.
pub struct CreateKeyResponse {
    pub success: bool,
    pub error: bool,
    pub id: i64,
    pub name: String,
    pub key: String,
    pub created_at: i64,
}

/// A decoded list response body.
pub struct KeyListResponse {
    pub success: bool,
    pub error: bool,
    pub keys: Vec<ApiKeyRecord>,
}

/// A decoded revoke response body.
pub struct KeyRevokeResponse {
    pub success: bool,
    pub error: bool,
    pub id: i64,
    pub revoked: bool,
}

/// Whether an executable report — lines to print on success, one
/// diagnostic on failure — stands for the given mathematical one.
pub open spec fn report_matches(
    r: Result<Vec<String>, String>,
    s: Result<Seq<Seq<char>>, Seq<char>>,
) -> bool {
    match r {
        Ok(lines) => s == Ok::<Seq<Seq<char>>, Seq<char>>(lines.deep_view()),
        Err(m) => s == Err::<Seq<Seq<char>>, Seq<char>>(m@),
    }
}

/// The lines printed for a create response: the new key's identity,
/// its secret, and its creation time; a server-reported error yields
/// one diagnostic; a body with neither flag set prints nothing.
pub open spec fn spec_create_report(body: CreateKeyResponse) -> Result<Seq<Seq<char>>, Seq<char>> {
    if body.success {
        Ok(
            seq![
                "Created key "@ + spec_i64_str(body.id as int) + " ("@ + body.name@ + ")"@,
                "Key: "@ + body.key@,
                "Created at: "@ + spec_format_ts(body.created_at as int),
            ],
        )
    } else if body.error {
        Err("Server error while creating key."@)
    } else {
        Ok(Seq::<Seq<char>>::empty())
    }
}

/// Interprets a decoded create response.
pub fn create_report(body: &CreateKeyResponse) -> (r: Result<Vec<String>, String>)
    ensures
        report_matches(r, spec_create_report(*body)),
{
    if body.success {
        let mut line1 = String::from_str("Created key ");
        line1.append(i64_to_string(body.id).as_str());
        line1.append(" (");
        line1.append(body.name.as_str());
        line1.append(")");
        let mut line2 = String::from_str("Key: ");
        line2.append(body.key.as_str());
        let mut line3 = String::from_str("Created at: ");
        line3.append(format_ts(body.created_at).as_str());
        let mut lines: Vec<String> = Vec::new();
        lines.push(line1);
        lines.push(line2);
        lines.push(line3);
        proof {
            assert(lines.deep_view() =~= spec_create_report(*body)->Ok_0);
        }
        Ok(lines)
    } else if body.error {
        Err(String::from_str("Server error while creating key."))
    } else {
        let lines: Vec<String> = Vec::new();
        proof {
            assert(lines.deep_view() =~= Seq::<Seq<char>>::empty());
        }
        Ok(lines)
    }
}

/// The header row of the list table.
pub open spec fn spec_list_headers() -> Seq<Seq<char>> {
    seq!["ID"@, "Name"@, "Created"@, "Last Used"@, "Revoked"@, "Notes"@]
}

/// The table row for one key record: identifier, label, creation
/// time, optional last-use and revocation times, and the notes with
/// `-` for absent ones.
pub open spec fn spec_record_row(k: ApiKeyRecord) -> Seq<Seq<char>> {
    seq![
        spec_i64_str(k.id as int),
        k.name@,
        spec_format_ts(k.created_at as int),
        spec_format_opt_ts(k.last_used_at),
        spec_format_opt_ts(k.revoked_at),
        match k.notes {
            Some(s) => s@,
            None => seq!['-'],
        },
    ]
}

/// The lines printed for a list response: a fixed no-records message
/// when the listing is empty, the rendered table otherwise; a
/// server-reported error yields one diagnostic; a body with neither
/// flag set prints nothing.
pub open spec fn spec_list_report(body: KeyListResponse) -> Result<Seq<Seq<char>>, Seq<char>> {
    if body.success {
        if body.keys@.len() == 0 {
            Ok(seq!["No managed API keys found."@])
        } else {
            Ok(
                spec_table_lines(
                    spec_list_headers(),
                    body.keys@.map_values(|k: ApiKeyRecord| spec_record_row(k)),
                ),
            )
        }
    } else if body.error {
        Err("Server error while listing keys."@)
    } else {
        Ok(Seq::<Seq<char>>::empty())
    }
}

fn record_row(k: &ApiKeyRecord) -> (r: Vec<String>)
    ensures
        r.deep_view() == spec_record_row(*k),
{
    let mut cells: Vec<String> = Vec::new();
    cells.push(i64_to_string(k.id));
    cells.push(k.name.clone());
    cells.push(format_ts(k.created_at));
    cells.push(format_opt_ts(k.last_used_at));
    cells.push(format_opt_ts(k.revoked_at));
    match &k.notes {
        Some(s) => cells.push(s.clone()),
        None => {
            let dash = String::from_str("-");
            proof {
                reveal_strlit("-");
                assert(dash@ =~= seq!['-']);
            }
            cells.push(dash);
        },
    }
    proof {
        assert(cells.deep_view() =~= spec_record_row(*k));
    }
    cells
}

fn list_headers() -> (r: Vec<String>)
    ensures
        r.deep_view() == spec_list_headers(),
{
    let mut headers: Vec<String> = Vec::new();
    headers.push(String::from_str("ID"));
    headers.push(String::from_str("Name"));
    headers.push(String::from_str("Created"));
    headers.push(String::from_str("Last Used"));
    headers.push(String::from_str("Revoked"));
    headers.push(String::from_str("Notes"));
    proof {
        assert(headers.deep_view() =~= spec_list_headers());
    }
    headers
}

/// Interprets a decoded list response, rendering the table of records.
pub fn list_report(body: &KeyListResponse) -> (r: Result<Vec<String>, String>)
    ensures
        report_matches(r, spec_list_report(*body)),
{
    if body.success {
        if body.keys.len() == 0 {
            let mut lines: Vec<String> = Vec::new();
            lines.push(String::from_str("No managed API keys found."));
            proof {
                assert(lines.deep_view() =~= seq!["No managed API keys found."@]);
            }
            Ok(lines)
        } else {
            let headers = list_headers();
            let mut rows: Vec<Vec<String>> = Vec::new();
            let nkeys: usize = body.keys.len();
            let mut i: usize = 0;
            proof {
                assert(rows.deep_view() =~= body.keys@.subrange(0, 0).map_values(
                    |k: ApiKeyRecord| spec_record_row(k),
                ));
            }
            while i < nkeys
                invariant
                    nkeys == body.keys@.len(),
                    0 <= i <= nkeys,
                    rows.deep_view() == body.keys@.subrange(0, i as int).map_values(
                        |k: ApiKeyRecord| spec_record_row(k),
                    ),
                    rows@.len() == i,
                    forall|j: int| 0 <= j < rows@.len() ==> #[trigger] rows@[j]@.len() == 6,
                decreases nkeys - i,
            {
                let ghost before = rows.deep_view();
                let row = record_row(&body.keys[i]);
                rows.push(row);
                proof {
                    assert(rows.deep_view() =~= before.push(row.deep_view()));
                    assert(rows.deep_view() =~= body.keys@.subrange(0, i + 1 as int).map_values(
                        |k: ApiKeyRecord| spec_record_row(k),
                    ));
                    assert(row@.len() == row.deep_view().len());
                    assert(row.deep_view().len() == 6);
                }
                i = i + 1;
            }
            proof {
                assert(body.keys@.subrange(0, nkeys as int) =~= body.keys@);
                assert(headers.deep_view().len() == 6);
                assert(forall|j: int|
                    0 <= j < rows@.len() ==> #[trigger] rows@[j]@.len()
                        == headers@.len());
            }
            let lines = render_table(&headers, &rows);
            Ok(lines)
        }
    } else if body.error {
        Err(String::from_str("Server error while listing keys."))
    } else {
        let lines: Vec<String> = Vec::new();
        proof {
            assert(lines.deep_view() =~= Seq::<Seq<char>>::empty());
        }
        Ok(lines)
    }
}

/// The lines printed for a revoke response: whether this call revoked
/// the key or it was already revoked (also a success); a
/// server-reported error yields one diagnostic; a body with neither
/// flag set prints nothing.
pub open spec fn spec_revoke_report(body: KeyRevokeResponse) -> Result<Seq<Seq<char>>, Seq<char>> {
    if body.success {
        if body.revoked {
            Ok(seq!["Revoked key "@ + spec_i64_str(body.id as int) + "."@])
        } else {
            Ok(seq!["Key "@ + spec_i64_str(body.id as int) + " was already revoked."@])
        }
    } else if body.error {
        Err("Server error while revoking key."@)
    } else {
        Ok(Seq::<Seq<char>>::empty())
    }
}

/// Interprets a decoded revoke response.
pub fn revoke_report(body: &KeyRevokeResponse) -> (r: Result<Vec<String>, String>)
    ensures
        report_matches(r, spec_revoke_report(*body)),
{
    if body.success {
        let mut line = if body.revoked {
            String::from_str("Revoked key ")
        } else {
            String::from_str("Key ")
        };
        line.append(i64_to_string(body.id).as_str());
        if body.revoked {
            line.append(".");
        } else {
            line.append(" was already revoked.");
        }
        let mut lines: Vec<String> = Vec::new();
        lines.push(line);
        proof {
            assert(lines.deep_view() =~= spec_revoke_report(*body)->Ok_0);
        }
        Ok(lines)
    } else if body.error {
        Err(String::from_str("Server error while revoking key."))
    } else {
        let lines: Vec<String> = Vec::new();
        proof {
            assert(lines.deep_view() =~= Seq::<Seq<char>>::empty());
        }
        Ok(lines)
    }
}

/// A classified failure of one API call.
pub enum ApiFailure {
    /// The request could not be completed at all; the transport's own
    /// diagnostic is kept verbatim.
    Transport(String),
    /// The server answered with a non-2xx status, with the reason it
    /// supplied, if any.
    Status { code: u16, reason: Option<String> },
    /// A 2xx response whose body does not match the expected shape.
    InvalidPayload,
}

/// The one diagnostic line for a classified failure.
pub open spec fn spec_failure_message(f: ApiFailure) -> Seq<char> {
    match f {
        ApiFailure::Transport(d) => "Transport error: "@ + d@,
        ApiFailure::Status { code, reason } => match reason {
            Some(re) => "API error "@ + spec_u64_digits(code as nat) + ": "@ + re@,
            None => "API error "@ + spec_u64_digits(code as nat) + "."@,
        },
        ApiFailure::InvalidPayload => "Invalid response payload."@,
    }
}

impl ApiFailure {
    /// Renders the one diagnostic line for this failure.
    pub fn message(&self) -> (r: String)
        ensures
            r@ == spec_failure_message(*self),
    {
        match self {
            ApiFailure::Transport(d) => {
                let mut out = String::from_str("Transport error: ");
                out.append(d.as_str());
                out
            },
            ApiFailure::Status { code, reason } => {
                let mut out = String::from_str("API error ");
                out.append(u64_to_string(*code as u64).as_str());
                match reason {
                    Some(re) => {
                        out.append(": ");
                        out.append(re.as_str());
                    },
                    None => {
                        out.append(".");
                    },
                }
                out
            },
            ApiFailure::InvalidPayload => String::from_str("Invalid response payload."),
        }
    }
}

/// The diagnostic printed when the operator credential is not
/// configured.
pub fn missing_credential_message() -> (r: String)
    ensures
        r@ == "CURTAURL_API_KEY is required."@,
{
    String::from_str("CURTAURL_API_KEY is required.")
}

/// The request path of the create and list operations.
pub fn keys_path() -> (r: String)
    ensures
        r@ == "/api/keys"@,
{
    String::from_str("/api/keys")
}

/// The request path of the revoke operation for one key.
pub fn revoke_path(id: i64) -> (r: String)
    ensures
        r@ == "/api/keys/"@ + spec_i64_str(id as int) + "/revoke"@,
{
    let mut out = String::from_str("/api/keys/");
    out.append(i64_to_string(id).as_str());
    out.append("/revoke");
    out
}

} // verus!
