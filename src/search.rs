//! The rows of a file search's output.

use vstd::prelude::*;
use vstd::string::StringSliceAdditionalSpecFns;
use vstd::utf8::encode_utf8;

use crate::config::split_lines;
use crate::transaction_log::texts;

verus! {

/// A query and the rows found for it.
pub struct SearchResult {
    pub query: String,
    pub results: Vec<String>,
}

/// The lines longer than one byte, in order.
pub open spec fn kept_rows(lines: Seq<Seq<char>>) -> Seq<Seq<char>>
    decreases lines.len(),
{
    if lines.len() == 0 {
        seq![]
    } else if encode_utf8(lines.last()).len() > 1 {
        kept_rows(lines.drop_last()).push(lines.last())
    } else {
        kept_rows(lines.drop_last())
    }
}

/// The result of searching for `query`, from the search's `output`: its
/// lines, without those of at most one byte.
pub fn search_result(query: String, output: &str) -> (r: SearchResult)
    ensures
        r.query@ == query@,
        texts(r.results@) == kept_rows(split_lines(output@)),
{
    let n = output.unicode_len();
    let mut rows: Vec<String> = Vec::new();
    let mut start: usize = 0;
    let mut i: usize = 0;
    while i < n
        invariant
            n == output@.len(),
            start <= i <= n,
            split_lines(output@.take(i as int)).len() > 0,
            split_lines(output@.take(i as int)).last() == output@.subrange(start as int, i as int),
            texts(rows@) == kept_rows(split_lines(output@.take(i as int)).drop_last()),
        decreases n - i,
    {
        let ghost before = split_lines(output@.take(i as int));
        assert(output@.take(i + 1).drop_last() =~= output@.take(i as int));
        if output.get_char(i) == '\n' {
            let line = output.substring_char(start, i);
            if line.as_bytes().len() > 1 {
                rows.push(String::from_str(line));
            }
            assert(split_lines(output@.take(i + 1)).drop_last() =~= before);
            assert(texts(rows@) =~= kept_rows(before));
            start = i + 1;
        } else {
            assert(split_lines(output@.take(i + 1)).drop_last() =~= before.drop_last());
        }
        assert(split_lines(output@.take(i + 1)).last() =~= output@.subrange(start as int, i + 1));
        i = i + 1;
    }
    assert(output@.take(n as int) =~= output@);
    let line = output.substring_char(start, n);
    let ghost all = split_lines(output@);
    if line.as_bytes().len() > 1 {
        rows.push(String::from_str(line));
    }
    assert(all.drop_last().push(all.last()) =~= all);
    assert(texts(rows@) =~= kept_rows(all));
    SearchResult { query, results: rows }
}

} // verus!
