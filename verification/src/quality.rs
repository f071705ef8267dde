//! The quality scanner: flags structurally anomalous records over a bounded
//! sample of the collection.

use vstd::prelude::*;
use vstd::string::StringExecFns;

use crate::text::dec_rep;
use crate::text::u64_to_string;
use crate::value::BiblioRecord;

verus! {

/// How many records the scanner inspects at most. Beyond this ceiling the
/// analysis is cut short and says so through a dataset-level issue; the
/// bound keeps interactive scans responsive on very large inputs.
pub const MAX_RECORDS_TO_ANALYZE: usize = 10000;

/// The reserved record index meaning "this issue concerns the dataset as a
/// whole, not one record".
pub const DATASET_ISSUE_INDEX: usize = usize::MAX;

/// One finding of the quality scanner: either a structural problem of the
/// record at `record_index`, or, under the sentinel index, a fact about the
/// dataset as a whole.
#[derive(Debug, Clone)]
pub struct RecordIssue {
    pub record_index: usize,
    pub issue_type: String,
    pub description: String,
}

/// How many records the scanner looks at for a collection of length `len`.
pub open spec fn scan_limit(len: int) -> int {
    if len < MAX_RECORDS_TO_ANALYZE {
        len
    } else {
        MAX_RECORDS_TO_ANALYZE as int
    }
}

/// The indices of the non-object records among the first `m`, in order.
pub open spec fn bad_indices(records: Seq<BiblioRecord>, m: int) -> Seq<int>
    decreases m,
{
    if m <= 0 || m > records.len() {
        Seq::empty()
    } else if !(records[m - 1] is Object) {
        bad_indices(records, m - 1).push(m - 1)
    } else {
        bad_indices(records, m - 1)
    }
}

/// The description of the dataset-level issue for a collection of `len`
/// records.
pub open spec fn limited_description(len: int) -> Seq<char> {
    "Dataset too large - only analyzed first 10000 of "@ + dec_rep(len as nat) + " records"@
}

/// What a correct issue list looks like: one structural issue per non-object
/// record among the inspected sample, in index order, then exactly one
/// dataset-level notice when the collection exceeded the ceiling.
pub open spec fn quality_matches(records: Seq<BiblioRecord>, issues: Seq<RecordIssue>) -> bool {
    let bad = bad_indices(records, scan_limit(records.len() as int));
    let limited = records.len() > MAX_RECORDS_TO_ANALYZE;
    &&& issues.len() == bad.len() + (if limited {
        1int
    } else {
        0int
    })
    &&& forall|i: int|
        0 <= i < bad.len() ==> (#[trigger] issues[i]).record_index == bad[i]
            && issues[i].issue_type@ == "Invalid Structure"@ && issues[i].description@
            == "Record is not a JSON object"@
    &&& limited ==> {
        let last = issues[issues.len() - 1];
        &&& last.record_index == DATASET_ISSUE_INDEX
        &&& last.issue_type@ == "Analysis Limited"@
        &&& last.description@ == limited_description(records.len() as int)
    }
}

/// Scans the first `MAX_RECORDS_TO_ANALYZE` records for structural
/// anomalies: every inspected record that is not an object yields one issue
/// naming its index. A collection over the ceiling yields exactly one
/// additional dataset-level issue, under the sentinel index, saying how many
/// of how many records were analyzed. Total: no input is rejected.
pub fn analyze_quality(records: &Vec<BiblioRecord>) -> (issues: Vec<RecordIssue>)
    ensures
        quality_matches(records@, issues@),
{
    let n = records.len();
    let m = if n < MAX_RECORDS_TO_ANALYZE {
        n
    } else {
        MAX_RECORDS_TO_ANALYZE
    };
    let mut issues: Vec<RecordIssue> = Vec::new();
    let mut i: usize = 0;
    while i < m
        invariant
            n == records@.len(),
            m == scan_limit(n as int),
            m <= n,
            i <= m,
            ({
                let bad = bad_indices(records@, i as int);
                &&& issues@.len() == bad.len()
                &&& forall|j: int|
                    0 <= j < bad.len() ==> (#[trigger] issues@[j]).record_index == bad[j]
                        && issues@[j].issue_type@ == "Invalid Structure"@
                        && issues@[j].description@ == "Record is not a JSON object"@
            }),
        decreases m - i,
    {
        match &records[i] {
            BiblioRecord::Object(_) => {
                proof {
                    assert(bad_indices(records@, i + 1) == bad_indices(records@, i as int));
                }
            },
            _ => {
                issues.push(
                    RecordIssue {
                        record_index: i,
                        issue_type: String::from_str("Invalid Structure"),
                        description: String::from_str("Record is not a JSON object"),
                    },
                );
                proof {
                    assert(bad_indices(records@, i + 1) == bad_indices(records@, i as int).push(
                        i as int,
                    ));
                }
            },
        }
        i = i + 1;
    }
    if n > MAX_RECORDS_TO_ANALYZE {
        let mut description = String::from_str("Dataset too large - only analyzed first 10000 of ");
        let count_text = u64_to_string(n as u64);
        description.append(count_text.as_str());
        description.append(" records");
        issues.push(
            RecordIssue {
                record_index: DATASET_ISSUE_INDEX,
                issue_type: String::from_str("Analysis Limited"),
                description,
            },
        );
    }
    issues
}

} // verus!
