//! Serving a download, whole or as the byte range that a `Range` header asks
//! for (resumed downloads).

use vstd::prelude::*;

use crate::text::{
    decimal, decimal_string, field_at, find_separator, has_prefix, is_digit, lemma_decimal,
    lemma_decimal_avoids, lemma_parse_decimal, lemma_segment_end, lemma_segment_end_exact,
    parse_decimal, parse_unsigned, segment_end, starts_with,
};

verus! {

/// The range text of a `Range` header: what follows `bytes=`, or the whole
/// header where it does not start so.
pub open spec fn range_body(header: Seq<char>) -> Seq<char> {
    if has_prefix(header, "bytes="@) {
        header.skip("bytes="@.len() as int)
    } else {
        header
    }
}

/// The first byte asked for: the number before the first `-`, or 0 where it
/// does not read as a `u64`.
pub open spec fn range_start(body: Seq<char>) -> int {
    match parse_unsigned(field_at(body, '-', 0), u64::MAX as nat) {
        Some(v) => v as int,
        None => 0,
    }
}

/// The last byte asked for: the number after the first `-`, or the last byte
/// of the file where that part is missing or empty, or does not read as a
/// `u64`.
pub open spec fn range_end(body: Seq<char>, file_size: int) -> int {
    let e0 = segment_end(body, '-', 0);
    if e0 < body.len() && field_at(body, '-', e0 + 1).len() > 0 {
        match parse_unsigned(field_at(body, '-', e0 + 1), u64::MAX as nat) {
            Some(v) => v as int,
            None => file_size - 1,
        }
    } else {
        file_size - 1
    }
}

/// A range that can be served: the file is not empty, and the range runs
/// forward and ends inside the file. Any other range aborts the request.
pub open spec fn servable(start: int, end: int, file_size: int) -> bool {
    0 < file_size && start <= end && end < file_size
}

/// The `Content-Range` value of a partial response.
pub open spec fn content_range_text(start: nat, end: nat, file_size: nat) -> Seq<char> {
    "bytes "@ + decimal(start) + seq!['-'] + decimal(end) + seq!['/'] + decimal(file_size)
}

/// How a download is answered.
pub enum DownloadPlan {
    /// 200 with the whole file.
    Whole { length: u64 },
    /// 206 with bytes `start..=end` of the file.
    Partial { start: u64, end: u64, length: u64, content_range: String },
    /// The range cannot be served; the request is aborted.
    Unserved,
}

/// What the answer to a download of a `file_size`-byte file is, given its
/// `Range` header where it has one.
pub open spec fn download_plan_matches(p: DownloadPlan, range: Option<Seq<char>>, file_size: u64) -> bool {
    match range {
        None => p == DownloadPlan::Whole { length: file_size },
        Some(h) => {
            let b = range_body(h);
            let s = range_start(b);
            let e = range_end(b, file_size as int);
            if servable(s, e, file_size as int) {
                p matches DownloadPlan::Partial { start, end, length, content_range }
                    && start == s && end == e && length == e - s + 1 && content_range@
                    == content_range_text(s as nat, e as nat, file_size as nat)
            } else {
                p is Unserved
            }
        },
    }
}

/// Writes the `Content-Range` value of a partial response.
pub fn content_range(start: u64, end: u64, file_size: u64) -> (s: String)
    ensures
        s@ == content_range_text(start as nat, end as nat, file_size as nat),
{
    proof {
        reveal_strlit("-");
        reveal_strlit("/");
    }
    let mut s = String::from_str("bytes ");
    let t = decimal_string(start);
    s.append(t.as_str());
    s.append("-");
    let t = decimal_string(end);
    s.append(t.as_str());
    s.append("/");
    let t = decimal_string(file_size);
    s.append(t.as_str());
    assert("-"@ =~= seq!['-']);
    assert("/"@ =~= seq!['/']);
    s
}

/// Plans the answer to a download of a `file_size`-byte file.
pub fn plan_download(range: Option<&str>, file_size: u64) -> (p: DownloadPlan)
    ensures
        download_plan_matches(
            p,
            match range {
                Some(h) => Some(h@),
                None => None,
            },
            file_size,
        ),
{
    let header = match range {
        None => {
            return DownloadPlan::Whole { length: file_size };
        },
        Some(h) => h,
    };
    proof {
        reveal_strlit("bytes=");
    }
    let n = header.unicode_len();
    let body = if starts_with(header, "bytes=") {
        header.substring_char(6, n)
    } else {
        header
    };
    assert(body@ == range_body(header@));
    let m = body.unicode_len();
    let e0 = find_separator(body, '-', 0);
    proof {
        lemma_segment_end(body@, '-', 0);
    }
    let start: u64 = match parse_decimal(body.substring_char(0, e0), u64::MAX) {
        Some(v) => v,
        None => 0,
    };
    let mut has_end = false;
    let mut end: u64 = 0;
    if e0 < m {
        let e1 = find_separator(body, '-', e0 + 1);
        proof {
            lemma_segment_end(body@, '-', e0 + 1);
        }
        if e1 > e0 + 1 {
            match parse_decimal(body.substring_char(e0 + 1, e1), u64::MAX) {
                Some(v) => {
                    has_end = true;
                    end = v;
                },
                None => {},
            }
        }
    }
    if file_size == 0 {
        return DownloadPlan::Unserved;
    }
    if !has_end {
        end = file_size - 1;
    }
    assert(end == range_end(body@, file_size as int));
    if start <= end && end < file_size {
        let length = end - start + 1;
        let content_range = content_range(start, end, file_size);
        DownloadPlan::Partial { start, end, length, content_range }
    } else {
        DownloadPlan::Unserved
    }
}


/// The range `bytes=<a>-<b>` asks for bytes `a` through `b`; it is served,
/// as `b - a + 1` bytes, exactly when `a <= b` and `b` lies in the file.
pub proof fn lemma_closed_range(a: u64, b: u64, file_size: u64)
    ensures
        ({
            let body = range_body("bytes="@ + decimal(a as nat) + seq!['-'] + decimal(b as nat));
            &&& range_start(body) == a
            &&& range_end(body, file_size as int) == b
            &&& servable(a as int, b as int, file_size as int) == (a <= b && b < file_size)
        }),
{
    let lit = "bytes="@;
    let da = decimal(a as nat);
    let db = decimal(b as nat);
    let rest = da + seq!['-'] + db;
    let h = lit + da + seq!['-'] + db;
    assert(h =~= lit + rest);
    assert(h.subrange(0, lit.len() as int) =~= lit);
    assert(h.skip(lit.len() as int) =~= rest);
    assert(range_body(h) == rest);
    assert(!is_digit('-'));
    lemma_decimal_avoids(a as nat, '-');
    lemma_decimal_avoids(b as nat, '-');
    lemma_decimal(b as nat);
    let la = da.len() as int;
    let lb = db.len() as int;
    assert forall|k: int| 0 <= k < la implies rest[k] != '-' by {
        assert(rest[k] == da[k]);
    }
    lemma_segment_end_exact(rest, '-', 0, la);
    assert(rest.subrange(0, la) =~= da);
    assert forall|k: int| la + 1 <= k < la + 1 + lb implies rest[k] != '-' by {
        assert(rest[k] == db[k - la - 1]);
    }
    lemma_segment_end_exact(rest, '-', la + 1, la + 1 + lb);
    assert(rest.subrange(la + 1, la + 1 + lb) =~= db);
    lemma_parse_decimal(a as nat, u64::MAX as nat);
    lemma_parse_decimal(b as nat, u64::MAX as nat);
}

/// The open range `bytes=<a>-` asks for the rest of the file from byte `a`;
/// it is served exactly when `a` lies in the file.
pub proof fn lemma_open_range(a: u64, file_size: u64)
    ensures
        ({
            let body = range_body("bytes="@ + decimal(a as nat) + seq!['-']);
            &&& range_start(body) == a
            &&& range_end(body, file_size as int) == file_size - 1
            &&& servable(a as int, file_size - 1, file_size as int) == (a < file_size)
        }),
{
    let lit = "bytes="@;
    let da = decimal(a as nat);
    let rest = da + seq!['-'];
    let h = lit + da + seq!['-'];
    assert(h =~= lit + rest);
    assert(h.subrange(0, lit.len() as int) =~= lit);
    assert(h.skip(lit.len() as int) =~= rest);
    assert(range_body(h) == rest);
    assert(!is_digit('-'));
    lemma_decimal_avoids(a as nat, '-');
    let la = da.len() as int;
    assert forall|k: int| 0 <= k < la implies rest[k] != '-' by {
        assert(rest[k] == da[k]);
    }
    lemma_segment_end_exact(rest, '-', 0, la);
    assert(rest.subrange(0, la) =~= da);
    lemma_segment_end_exact(rest, '-', la + 1, la + 1);
    assert(rest.subrange(la + 1, la + 1).len() == 0);
    lemma_parse_decimal(a as nat, u64::MAX as nat);
}

} // verus!
