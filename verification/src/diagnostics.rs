use vstd::prelude::*;
use vstd::string::StrSliceExecFns;

use crate::jsonrpc::value_elements;
use crate::jsonrpc::value_get;
use crate::jsonrpc::value_member;
use crate::jsonrpc::value_str;
use crate::jsonrpc::value_u64;
use crate::text::str_eq;

verus! {

/// Severity of a diagnostic, as the sidecar reports it.
#[derive(Debug, Clone, Copy, PartialEq, Eq, Structural)]
pub enum Severity {
    Error,
    Warning,
    Information,
    Hint,
}

/// One diagnostic for a document: a zero-based range, a severity, the
/// message, and an optional code.
#[derive(Debug, Clone, PartialEq, Eq)]
pub struct Diagnostic {
    pub line: u32,
    pub column: u32,
    pub end_line: u32,
    pub end_column: u32,
    pub severity: Severity,
    pub message: String,
    pub code: Option<String>,
}

/// How the sidecar's severity words map: unknown words count as
/// errors.
pub open spec fn severity_of(s: Seq<char>) -> Severity {
    if s == "ERROR"@ {
        Severity::Error
    } else if s == "WARNING"@ {
        Severity::Warning
    } else if s == "INFO"@ || s == "INFORMATION"@ {
        Severity::Information
    } else if s == "HINT"@ {
        Severity::Hint
    } else {
        Severity::Error
    }
}

pub fn parse_severity(s: &str) -> (r: Severity)
    ensures
        r == severity_of(s@),
{
    if str_eq(s, "ERROR") {
        Severity::Error
    } else if str_eq(s, "WARNING") {
        Severity::Warning
    } else if str_eq(s, "INFO") || str_eq(s, "INFORMATION") {
        Severity::Information
    } else if str_eq(s, "HINT") {
        Severity::Hint
    } else {
        Severity::Error
    }
}

/// The low 32 bits of a 64-bit value, as positions are narrowed.
pub open spec fn u64_low32(x: u64) -> u32 {
    (x % 0x1_0000_0000) as u32
}

/// A one-based line narrowed to a zero-based 32-bit line: one is
/// subtracted, stopping at zero.
pub open spec fn line_to_zero_based(l: u64) -> u32 {
    u64_low32(if l > 0 {
        (l - 1) as u64
    } else {
        0
    })
}

/// The column one past `c`, wrapping at the 64-bit boundary.
pub open spec fn column_after(c: u64) -> u64 {
    if c == u64::MAX {
        0
    } else {
        (c + 1) as u64
    }
}

/// Builds a diagnostic from the fields of one sidecar diagnostics
/// entry.  Lines arrive one-based and are shifted down; a missing
/// column is zero; a missing end line is the start line; a missing
/// end column is one past the start column.
pub fn diagnostic_from_fields(
    severity: &str,
    message: String,
    line: u64,
    column: Option<u64>,
    end_line: Option<u64>,
    end_column: Option<u64>,
    code: Option<String>,
) -> (d: Diagnostic)
    ensures
        d.severity == severity_of(severity@),
        d.message == message,
        d.code == code,
        d.line == line_to_zero_based(line),
        d.column == u64_low32(column.unwrap_or(0)),
        d.end_line == (match end_line {
            Some(l) => line_to_zero_based(l),
            None => line_to_zero_based(line),
        }),
        d.end_column == u64_low32(
            match end_column {
                Some(c) => c,
                None => column_after(column.unwrap_or(0)),
            },
        ),
{
    let col: u64 = match column {
        Some(c) => c,
        None => 0,
    };
    let line_wide: u64 = if line > 0 {
        line - 1
    } else {
        0
    };
    let line0: u32 = #[verifier::truncate] (line_wide as u32);
    assert((line_wide as u32) == (line_wide % 0x1_0000_0000) as u32) by (bit_vector);
    let end_line_wide: u64 = match end_line {
        Some(l) => if l > 0 {
            l - 1
        } else {
            0
        },
        None => line_wide,
    };
    let end_line0: u32 = #[verifier::truncate] (end_line_wide as u32);
    assert((end_line_wide as u32) == (end_line_wide % 0x1_0000_0000) as u32) by (bit_vector);
    let end_col_wide: u64 = match end_column {
        Some(c) => c,
        None => if col == u64::MAX {
            0
        } else {
            col + 1
        },
    };
    let col0: u32 = #[verifier::truncate] (col as u32);
    assert((col as u32) == (col % 0x1_0000_0000) as u32) by (bit_vector);
    let end_col0: u32 = #[verifier::truncate] (end_col_wide as u32);
    assert((end_col_wide as u32) == (end_col_wide % 0x1_0000_0000) as u32) by (bit_vector);
    Diagnostic {
        line: line0,
        column: col0,
        end_line: end_line0,
        end_column: end_col0,
        severity: parse_severity(severity),
        message,
        code,
    }
}

/// A member's number, read through the object key: absent when the
/// key is missing or the member is no unsigned integer.
pub open spec fn opt_field_u64(d: serde_json::Value, key: Seq<char>) -> Option<u64> {
    match value_member(d, key) {
        Some(x) => value_u64(x),
        None => None,
    }
}

/// A member's string content, read through the object key.
pub open spec fn opt_field_str(d: serde_json::Value, key: Seq<char>) -> Option<Seq<char>> {
    match value_member(d, key) {
        Some(x) => value_str(x),
        None => None,
    }
}

/// Whether one entry of the diagnostics array carries the three
/// required fields: a severity word, a message, and a line number.
pub open spec fn entry_kept(d: serde_json::Value) -> bool {
    &&& opt_field_str(d, "severity"@) is Some
    &&& opt_field_str(d, "message"@) is Some
    &&& opt_field_u64(d, "line"@) is Some
}

/// The kept entries of the array, in order.
pub open spec fn kept_entries(
    elems: Seq<serde_json::Value>,
    i: int,
    acc: Seq<serde_json::Value>,
) -> Seq<serde_json::Value>
    decreases elems.len() - i when 0 <= i <= elems.len()
{
    if i >= elems.len() {
        acc
    } else {
        kept_entries(
            elems,
            i + 1,
            if entry_kept(elems[i]) {
                acc.push(elems[i])
            } else {
                acc
            },
        )
    }
}

/// Agreement of one diagnostic with the entry it was read from: the
/// severity word mapped, the message taken over, and the positions
/// narrowed exactly as `diagnostic_from_fields` specifies.
pub open spec fn diag_matches_entry(dg: Diagnostic, d: serde_json::Value) -> bool {
    &&& (opt_field_str(d, "severity"@) matches Some(sv) && dg.severity == severity_of(sv))
    &&& (opt_field_str(d, "message"@) matches Some(mv) && dg.message@ == mv)
    &&& (opt_field_u64(d, "line"@) matches Some(ln) && dg.line == line_to_zero_based(ln))
    &&& dg.column == u64_low32(opt_field_u64(d, "column"@).unwrap_or(0))
    &&& dg.end_line == (match opt_field_u64(d, "endLine"@) {
        Some(el) => line_to_zero_based(el),
        None => dg.line,
    })
    &&& dg.end_column == u64_low32(
        match opt_field_u64(d, "endColumn"@) {
            Some(ec) => ec,
            None => column_after(opt_field_u64(d, "column"@).unwrap_or(0)),
        },
    )
    &&& (match opt_field_str(d, "code"@) {
        Some(cv) => dg.code matches Some(c) && c@ == cv,
        None => dg.code is None,
    })
}

/// Reads the sidecar's `analyze` result: its `diagnostics` array
/// yields one diagnostic per kept entry, in order; entries without a
/// severity word, a message, or a line are skipped, and without the
/// array nothing is reported.
pub fn parse_diagnostics(result: &serde_json::Value) -> (r: Vec<Diagnostic>)
    ensures
        ({
            match value_member(*result, "diagnostics"@) {
                Some(d) => match value_elements(d) {
                    Some(elems) => {
                        let kept = kept_entries(elems, 0, Seq::empty());
                        &&& r@.len() == kept.len()
                        &&& forall|k: int|
                            0 <= k < r@.len() ==> diag_matches_entry(#[trigger] r@[k], kept[k])
                    },
                    None => r@ == Seq::<Diagnostic>::empty(),
                },
                None => r@ == Seq::<Diagnostic>::empty(),
            }
        }),
{
    let mut out: Vec<Diagnostic> = Vec::new();
    let arr: &Vec<serde_json::Value> = match value_get(result, "diagnostics") {
        Some(d) => match d.as_array() {
            Some(a) => a,
            None => {
                return out;
            },
        },
        None => {
            return out;
        },
    };
    let ghost elems = arr@;
    let ghost mut cur: Seq<serde_json::Value> = Seq::empty();
    let mut i: usize = 0;
    while i < arr.len()
        invariant
            0 <= i <= arr@.len(),
            elems == arr@,
            kept_entries(elems, 0, Seq::empty()) == kept_entries(elems, i as int, cur),
            out@.len() == cur.len(),
            forall|k: int| 0 <= k < out@.len() ==> diag_matches_entry(#[trigger] out@[k], cur[k]),
        decreases arr@.len() - i,
    {
        let d = &arr[i];
        let ghost iold = i as int;
        i = i + 1;
        let severity: &str = match value_get(d, "severity") {
            Some(s) => match s.as_str() {
                Some(t) => t,
                None => {
                    proof {
                        assert(!entry_kept(elems[iold]));
                    }
                    continue ;
                },
            },
            None => {
                proof {
                    assert(!entry_kept(elems[iold]));
                }
                continue ;
            },
        };
        let message: String = match value_get(d, "message") {
            Some(m) => match m.as_str() {
                Some(t) => t.to_owned(),
                None => {
                    proof {
                        assert(!entry_kept(elems[iold]));
                    }
                    continue ;
                },
            },
            None => {
                proof {
                    assert(!entry_kept(elems[iold]));
                }
                continue ;
            },
        };
        let line: u64 = match value_get(d, "line") {
            Some(l) => match l.as_u64() {
                Some(n) => n,
                None => {
                    proof {
                        assert(!entry_kept(elems[iold]));
                    }
                    continue ;
                },
            },
            None => {
                proof {
                    assert(!entry_kept(elems[iold]));
                }
                continue ;
            },
        };
        let column: Option<u64> = match value_get(d, "column") {
            Some(c) => c.as_u64(),
            None => None,
        };
        let end_line: Option<u64> = match value_get(d, "endLine") {
            Some(l) => l.as_u64(),
            None => None,
        };
        let end_column: Option<u64> = match value_get(d, "endColumn") {
            Some(c) => c.as_u64(),
            None => None,
        };
        let code: Option<String> = match value_get(d, "code") {
            Some(c) => match c.as_str() {
                Some(t) => Some(t.to_owned()),
                None => None,
            },
            None => None,
        };
        let diag = diagnostic_from_fields(severity, message, line, column, end_line, end_column, code);
        proof {
            assert(entry_kept(elems[iold]));
            assert(diag_matches_entry(diag, elems[iold]));
        }
        out.push(diag);
        proof {
            cur = cur.push(elems[iold]);
        }
    }
    out
}

} // verus!
