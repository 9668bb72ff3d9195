//! Timestamp formatting: an epoch-seconds value becomes an RFC 3339
//! UTC string when it is representable, and its plain decimal
//! rendering otherwise; an absent value becomes the placeholder `-`.

use vstd::prelude::*;
use vstd::string::*;
use chrono::TimeZone;
use chrono::Utc;
use crate::decimal::spec_i64_str;
use crate::decimal::i64_to_string;

verus! {

/// The RFC 3339 UTC rendering of an epoch-seconds value, when chrono
/// can represent that instant; what it is depends on the seconds value
/// alone.
pub uninterp spec fn rfc3339_utc_of(ts: int) -> Option<Seq<char>>;

/// Relies on chrono's `TimeZone::timestamp_opt` for `Utc` and
/// `DateTime::to_rfc3339`: the result is `Some` exactly when the
/// seconds value lies in chrono's representable range, and the
/// rendered text is a function of the seconds value alone.
#[verifier::external_body]
fn rfc3339_utc(ts: i64) -> (r: Option<String>)
    ensures
        match r {
            Some(s) => rfc3339_utc_of(ts as int) == Some(s@),
            None => rfc3339_utc_of(ts as int) is None,
        },
{
    Utc.timestamp_opt(ts, 0).single().map(|dt| dt.to_rfc3339())
}

/// What formatting an epoch-seconds value yields: the RFC 3339 UTC
/// text when representable, the decimal seconds value otherwise.
pub open spec fn spec_format_ts(ts: int) -> Seq<char> {
    match rfc3339_utc_of(ts) {
        Some(s) => s,
        None => spec_i64_str(ts),
    }
}

/// What formatting an optional epoch-seconds value yields: `-` when
/// absent, the formatted timestamp when present.
pub open spec fn spec_format_opt_ts(ts: Option<i64>) -> Seq<char> {
    match ts {
        Some(t) => spec_format_ts(t as int),
        None => seq!['-'],
    }
}

/// Formats an epoch-seconds value, falling back to its decimal
/// rendering when the instant is not representable.
pub fn format_ts(ts: i64) -> (r: String)
    ensures
        r@ == spec_format_ts(ts as int),
{
    match rfc3339_utc(ts) {
        Some(s) => s,
        None => i64_to_string(ts),
    }
}

/// Formats an optional epoch-seconds value, with `-` for an absent
/// one.
pub fn format_opt_ts(ts: Option<i64>) -> (r: String)
    ensures
        r@ == spec_format_opt_ts(ts),
{
    match ts {
        Some(t) => format_ts(t),
        None => {
            let out = String::from_str("-");
            proof {
                reveal_strlit("-");
                assert(out@ =~= seq!['-']);
            }
            out
        },
    }
}

/// Formatting an absent timestamp always yields the placeholder `-`,
/// and formatting a present one always yields exactly what formatting
/// its value yields.
pub proof fn lemma_format_optional(t: i64)
    ensures
        spec_format_opt_ts(None) == seq!['-'],
        spec_format_opt_ts(Some(t)) == spec_format_ts(t as int),
{
}

} // verus!
