//! Bulk-upload parsing: a single JSON array of records, or, failing that,
//! newline-delimited records parsed line by line, best effort. What each
//! record holds is decided by the JSON parser; the line structure and the
//! failure accounting are verified here.

use vstd::prelude::*;
use crate::models::CreateDocumentRequest;
use crate::outside::json_get;
use crate::outside::json_parse;
use crate::outside::json_to_string;
use crate::outside::json_wellformed;
use crate::text::joined;

verus! {

/// One record of a bulk upload, with the embedding the caller computed for
/// it (absent when the embedding provider failed or is unavailable).
pub struct IngestItem {
    pub request: CreateDocumentRequest,
    pub embedding: Option<Vec<i64>>,
}

/// What a bulk upload parsed into: the readable records, and how many
/// non-blank lines could not be read as a record.
pub struct IngestPlan {
    pub records: Vec<CreateDocumentRequest>,
    pub parse_failures: usize,
}

/// The line contains only spacing (blanks, tabs, carriage returns).
pub open spec fn is_blank(line: Seq<u8>) -> bool {
    forall|k: int| 0 <= k < line.len() ==> (#[trigger] line[k]) == 32 || line[k] == 9 || line[k] == 13
}

/// Whether the line contains only spacing bytes.
fn blank_line(line: &Vec<u8>) -> (r: bool)
    ensures
        r == is_blank(line@),
{
    let n = line.len();
    let mut i: usize = 0;
    while i < n
        invariant
            n == line@.len(),
            i <= n,
            forall|k: int| 0 <= k < i ==> (#[trigger] line@[k]) == 32 || line@[k] == 9 || line@[k]
                == 13,
        decreases n - i,
    {
        let b = line[i];
        if b != 32 && b != 9 && b != 13 {
            return false;
        }
        i = i + 1;
    }
    true
}

/// Appending one element to the last part appends it to the joined whole.
proof fn lemma_joined_snoc<A>(parts: Seq<Seq<A>>, sep: Seq<A>, x: A)
    requires
        parts.len() >= 1,
    ensures
        joined(parts.update(parts.len() - 1, parts.last().push(x)), sep) == joined(
            parts,
            sep,
        ).push(x),
{
    let updated = parts.update(parts.len() - 1, parts.last().push(x));
    if parts.len() == 1 {
        assert(joined(updated, sep) == updated[0]);
        assert(updated[0] == parts[0].push(x));
        assert(joined(parts, sep) == parts[0]);
    } else {
        assert(updated.drop_last() =~= parts.drop_last());
        assert(updated.last() == parts.last().push(x));
        assert(joined(updated, sep) == joined(parts.drop_last(), sep) + sep + parts.last().push(x));
        assert(joined(parts.drop_last(), sep) + sep + parts.last().push(x) =~= (joined(
            parts.drop_last(),
            sep,
        ) + sep + parts.last()).push(x));
    }
}

/// Splits bytes into the runs between newline bytes: at least one line, no
/// line contains a newline, and joining the lines with a newline restores
/// the input exactly.
pub fn split_lines(data: &Vec<u8>) -> (r: Vec<Vec<u8>>)
    ensures
        r@.len() >= 1,
        joined(r@.map_values(|l: Vec<u8>| l@), seq![10u8]) == data@,
        forall|k: int| 0 <= k < r@.len() ==> !(#[trigger] r@[k])@.contains(10u8),
{
    let ghost sep = seq![10u8];
    let n = data.len();
    let mut lines: Vec<Vec<u8>> = Vec::new();
    let mut cur: Vec<u8> = Vec::new();
    let mut i: usize = 0;
    proof {
        let parts0 = lines@.map_values(|l: Vec<u8>| l@).push(cur@);
        assert(parts0.len() == 1);
        assert(joined(parts0, sep) == cur@);
        assert(cur@ =~= data@.take(0));
    }
    while i < n
        invariant
            n == data@.len(),
            i <= n,
            joined(lines@.map_values(|l: Vec<u8>| l@).push(cur@), sep) == data@.take(i as int),
            !cur@.contains(10u8),
            forall|k: int| 0 <= k < lines@.len() ==> !(#[trigger] lines@[k])@.contains(10u8),
            sep == seq![10u8],
        decreases n - i,
    {
        let ghost parts = lines@.map_values(|l: Vec<u8>| l@).push(cur@);
        let b = data[i];
        if b == 10 {
            lines.push(cur);
            cur = Vec::new();
            proof {
                let parts2 = lines@.map_values(|l: Vec<u8>| l@).push(cur@);
                assert(parts2.drop_last() =~= parts);
                assert(parts2.len() >= 2);
                assert(joined(parts2, sep) == joined(parts, sep) + sep + cur@);
                assert(joined(parts, sep) + sep + cur@ =~= data@.take(i + 1));
            }
        } else {
            cur.push(b);
            proof {
                let parts2 = lines@.map_values(|l: Vec<u8>| l@).push(cur@);
                assert(parts2 =~= parts.update(parts.len() - 1, parts.last().push(b)));
                lemma_joined_snoc(parts, sep, b);
                assert(joined(parts2, sep) =~= data@.take(i + 1));
            }
        }
        i = i + 1;
    }
    let ghost done_lines = lines@;
    let ghost done_cur = cur@;
    lines.push(cur);
    proof {
        assert(lines@.map_values(|l: Vec<u8>| l@) =~= done_lines.map_values(
            |l: Vec<u8>| l@,
        ).push(done_cur));
        assert(data@.take(n as int) =~= data@);
    }
    lines
}

/// Reads one parsed JSON value as an upload record: the `content` string is
/// required, the `metadata` field, if present, is kept as its serialized
/// text. What the value holds only the parser knows, so nothing more can be
/// promised of the outcome.
pub fn record_of_value(v: &serde_json::Value) -> (r: Option<CreateDocumentRequest>)
{
    let content = match json_get(v, "content") {
        Some(cv) => match cv.as_str() {
            Some(s) => s.to_owned(),
            None => {
                return None;
            },
        },
        None => {
            return None;
        },
    };
    let metadata = match json_get(v, "metadata") {
        Some(mv) => json_to_string(mv),
        None => None,
    };
    Some(CreateDocumentRequest { content, metadata })
}

/// These are the lines of the input: newline-free parts whose newline-join
/// restores the bytes exactly (which determines the split uniquely).
pub open spec fn line_split_ok(data: Seq<u8>, ls: Seq<Seq<u8>>) -> bool {
    &&& ls.len() >= 1
    &&& joined(ls, seq![10u8]) == data
    &&& forall|k: int| 0 <= k < ls.len() ==> !(#[trigger] ls[k]).contains(10u8)
}

/// The accounting of a line-mode plan: every non-blank line yields exactly
/// one record or one counted failure, and a non-blank line that is not
/// well-formed JSON always counts as a failure. (Whether a well-formed line
/// carries the record fields only the parser knows.)
pub open spec fn line_plan_ok(ls: Seq<Seq<u8>>, plan: IngestPlan) -> bool {
    &&& plan.records@.len() + plan.parse_failures as int == ls.filter(
        |l: Seq<u8>| !is_blank(l),
    ).len()
    &&& plan.parse_failures as int >= ls.filter(
        |l: Seq<u8>| !is_blank(l) && !json_wellformed(l),
    ).len()
}

/// Parses a bulk upload. First the whole input is read as one JSON array of
/// records; if every element reads as a record, those are the plan and
/// nothing failed. Otherwise each non-blank line is read as one record, the
/// unreadable ones counted as parse failures, never aborting early. When the
/// input is not well-formed JSON at all, line mode is certain, and its
/// accounting is exact over the line structure: blank lines are skipped,
/// every other line becomes a record or a counted failure, and a line that
/// is not well-formed JSON always fails — so an input with no well-formed
/// line yields no records. Which well-formed values carry the record fields
/// rests on the parser and carries no further promise.
pub fn plan_ingest(data: &Vec<u8>) -> (r: IngestPlan)
    ensures
        !json_wellformed(data@) ==> exists|ls: Seq<Seq<u8>>|
            #[trigger] line_split_ok(data@, ls) && line_plan_ok(ls, r),
{
    match json_parse(data.as_slice()) {
        Some(whole) => {
            match whole.as_array() {
                Some(arr) => {
                    let n = arr.len();
                    let mut records: Vec<CreateDocumentRequest> = Vec::new();
                    let mut all_ok = true;
                    let mut i: usize = 0;
                    while i < n && all_ok
                        invariant
                            n == arr@.len(),
                            i <= n,
                        decreases n - i,
                    {
                        match record_of_value(&arr[i]) {
                            Some(rec) => records.push(rec),
                            None => {
                                all_ok = false;
                            },
                        }
                        i = i + 1;
                    }
                    if all_ok {
                        return IngestPlan { records, parse_failures: 0 };
                    }
                },
                None => {},
            }
        },
        None => {},
    }
    // fall back to one record per non-blank line, best effort
    let lines = split_lines(data);
    let ghost ls = lines@.map_values(|l: Vec<u8>| l@);
    let ghost nb = |l: Seq<u8>| !is_blank(l);
    let ghost nbw = |l: Seq<u8>| !is_blank(l) && !json_wellformed(l);
    let m = lines.len();
    let mut records: Vec<CreateDocumentRequest> = Vec::new();
    let mut parse_failures: usize = 0;
    let mut k: usize = 0;
    proof {
        assert(ls.take(0) =~= Seq::<Seq<u8>>::empty());
        reveal(Seq::filter);
    }
    while k < m
        invariant
            m == lines@.len(),
            ls == lines@.map_values(|l: Vec<u8>| l@),
            nb == (|l: Seq<u8>| !is_blank(l)),
            nbw == (|l: Seq<u8>| !is_blank(l) && !json_wellformed(l)),
            k <= m,
            parse_failures <= k,
            records@.len() + parse_failures as int == ls.take(k as int).filter(nb).len(),
            parse_failures as int >= ls.take(k as int).filter(nbw).len(),
        decreases m - k,
    {
        let line = &lines[k];
        proof {
            assert(ls.take(k + 1) =~= ls.take(k as int).push(ls[k as int]));
            ls.take(k as int).lemma_filter_push(ls[k as int], nb);
            ls.take(k as int).lemma_filter_push(ls[k as int], nbw);
            assert(ls[k as int] == line@);
        }
        if !blank_line(line) {
            let parsed = match json_parse(line.as_slice()) {
                Some(v) => record_of_value(&v),
                None => None,
            };
            match parsed {
                Some(rec) => records.push(rec),
                None => {
                    parse_failures = parse_failures + 1;
                },
            }
        }
        k = k + 1;
    }
    proof {
        assert(ls.take(m as int) =~= ls);
    }
    let plan = IngestPlan { records, parse_failures };
    proof {
        if !json_wellformed(data@) {
            assert(line_split_ok(data@, ls) && line_plan_ok(ls, plan));
        }
    }
    plan
}

} // verus!
