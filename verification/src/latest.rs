//! Reading the most recently registered problem id back out of the
//! solutions index: the id named by the textually last non-empty line.

use vstd::prelude::*;
use crate::commands::index_line_spec;
use crate::decimal::{
    dec_seq, dec_val, is_u64_decimal, lemma_dec_seq_digits, lemma_dec_seq_is_u64_decimal,
    lemma_dec_seq_val, parse_u64_decimal,
};
use crate::errors::AppError;

verus! {

/// The suffix of `s` after its last newline; all of `s` when it has
/// none.
pub open spec fn last_line(s: Seq<char>) -> Seq<char>
    decreases s.len(),
{
    if s.len() == 0 {
        Seq::empty()
    } else if s.last() == '\n' {
        Seq::empty()
    } else {
        last_line(s.drop_last()).push(s.last())
    }
}

/// The textually last non-empty line of `s`, or nothing when every
/// line is empty.
pub open spec fn last_non_empty_line(s: Seq<char>) -> Option<Seq<char>>
    decreases s.len(),
{
    if s.len() == 0 {
        None
    } else if s.last() == '\n' {
        last_non_empty_line(s.drop_last())
    } else {
        Some(last_line(s))
    }
}

/// The position of the first underscore of `line` at or after `i`.
pub open spec fn first_underscore_from(line: Seq<char>, i: int) -> Option<int>
    decreases line.len() - i,
{
    if i < 0 || i >= line.len() {
        None
    } else if line[i] == '_' {
        Some(i)
    } else {
        first_underscore_from(line, i + 1)
    }
}

/// The substring of an index line between its first underscore and its
/// trailing semicolon; nothing when the line has no underscore or does
/// not end in a semicolon.
pub open spec fn parsed_index_line(line: Seq<char>) -> Option<Seq<char>> {
    match first_underscore_from(line, 0) {
        None => None,
        Some(u) => if line.len() >= 1 && line.last() == ';' && u + 1 <= line.len() - 1 {
            Some(line.subrange(u + 1, line.len() - 1))
        } else {
            None
        },
    }
}

/// The problem id the index's last non-empty line registers, when that
/// line has the expected shape and the id fits in a `u64`.
pub open spec fn latest_id_of_index(index: Seq<char>) -> Option<nat> {
    match last_non_empty_line(index) {
        None => None,
        Some(line) => match parsed_index_line(line) {
            None => None,
            Some(digits) => if is_u64_decimal(digits) {
                Some(dec_val(digits))
            } else {
                None
            },
        },
    }
}

/// When `s` holds no newline from `k` on, and `k` sits just after a
/// newline or at the very start, the last line of `s` is the suffix
/// from `k`.
proof fn lemma_last_line_suffix(s: Seq<char>, k: int)
    requires
        0 <= k <= s.len(),
        k == 0 || s[k - 1] == '\n',
        forall|j: int| k <= j < s.len() ==> s[j] != '\n',
    ensures
        last_line(s) == s.subrange(k, s.len() as int),
    decreases s.len() - k,
{
    if k == s.len() {
        assert(s.subrange(k, s.len() as int) =~= Seq::<char>::empty());
        if s.len() > 0 {
            assert(s.last() == '\n');
        }
    } else {
        assert(s.last() != '\n');
        lemma_last_line_suffix(s.drop_last(), k);
        assert(s.drop_last().subrange(k, s.len() - 1) =~= s.subrange(k, s.len() - 1));
        assert(s.subrange(k, s.len() - 1).push(s.last()) =~= s.subrange(k, s.len() as int));
    }
}

/// When `line` holds no underscore before `m`, the search for the
/// first underscore may as well start at `m`.
proof fn lemma_first_underscore_skip(line: Seq<char>, m: int)
    requires
        0 <= m <= line.len(),
        forall|j: int| 0 <= j < m ==> line[j] != '_',
    ensures
        first_underscore_from(line, 0) == first_underscore_from(line, m),
    decreases m,
{
    if m > 0 {
        lemma_first_underscore_skip(line, m - 1);
        assert(line[m - 1] != '_');
        assert(first_underscore_from(line, m - 1) == first_underscore_from(line, m));
    }
}

/// Scaffolding then asking for the latest id round-trips: after one
/// registration line for `n` is appended to a well-formed index — one
/// that is empty or ends in a newline — the latest id read back is
/// exactly `n`.
pub proof fn lemma_latest_after_scaffold(index: Seq<char>, n: u64)
    requires
        index.len() == 0 || index.last() == '\n',
    ensures
        latest_id_of_index(index + index_line_spec(n)) == Some(n as nat),
{
    reveal_strlit("mod s_");
    reveal_strlit(";\n");
    lemma_dec_seq_digits(n as nat);
    lemma_dec_seq_val(n as nat);
    lemma_dec_seq_is_u64_decimal(n);
    let d = dec_seq(n as nat);
    let line = "mod s_"@ + d + seq![';'];
    let full = index + index_line_spec(n);
    assert(full.len() == index.len() + 6 + d.len() + 2);
    assert(";\n"@[1] == '\n');
    assert(full.last() == ";\n"@[1]);
    let body = full.drop_last();
    assert(body =~= index + line);
    assert(body.len() > 0);
    assert(body.last() == ';');
    assert(last_non_empty_line(full) == last_non_empty_line(body));
    assert(last_non_empty_line(body) == Some(last_line(body)));
    assert forall|j: int| 0 <= j < line.len() implies line[j] != '\n' by {
        if j < 6 {
            assert(line[j] == "mod s_"@[j]);
        } else if j < 6 + d.len() {
            assert(line[j] == d[j - 6]);
            assert(crate::decimal::is_dec_digit(d[j - 6]));
        } else {
            assert(line[j] == ';');
        }
    }
    assert forall|j: int| index.len() <= j < body.len() implies body[j] != '\n' by {
        assert(body[j] == line[j - index.len()]);
    }
    lemma_last_line_suffix(body, index.len() as int);
    assert(body.subrange(index.len() as int, body.len() as int) =~= line);
    assert(last_non_empty_line(full) == Some(line));
    assert forall|j: int| 0 <= j < 5 implies line[j] != '_' by {
        assert(line[j] == "mod s_"@[j]);
    }
    lemma_first_underscore_skip(line, 5);
    assert(line[5] == "mod s_"@[5]);
    assert(first_underscore_from(line, 5) == Some(5int));
    assert(line.subrange(6, line.len() - 1) =~= d);
    assert(parsed_index_line(line) == Some(d));
}

/// Reads the problem id registered by the last non-empty line of the
/// index. Succeeds exactly when that line exists, has an underscore, a
/// trailing semicolon, and decimal digits between them whose value
/// fits in a `u64`.
pub fn latest_problem_id(index: &str) -> (r: Result<u64, AppError>)
    ensures
        match latest_id_of_index(index@) {
            Some(v) => r matches Ok(id) && id as nat == v,
            None => r matches Err(e) && e is IndexUnparsable,
        },
{
    let len = index.unicode_len();
    proof {
        assert(index@.subrange(0, len as int) =~= index@);
    }
    let mut end = len;
    while end > 0 && index.get_char(end - 1) == '\n'
        invariant
            0 <= end <= len,
            len == index@.len(),
            last_non_empty_line(index@) == last_non_empty_line(index@.subrange(0, end as int)),
        decreases end,
    {
        proof {
            let pre = index@.subrange(0, end as int);
            assert(pre.last() == '\n');
            assert(pre.drop_last() =~= index@.subrange(0, end - 1));
        }
        end = end - 1;
    }
    if end == 0 {
        return Err(AppError::IndexUnparsable);
    }
    // The last non-empty line is now the span [start, end).
    proof {
        let pre = index@.subrange(0, end as int);
        assert(pre.last() == index@[end - 1]);
        assert(last_non_empty_line(index@) == Some(last_line(pre)));
    }
    let mut start = end;
    while start > 0 && index.get_char(start - 1) != '\n'
        invariant
            0 <= start <= end <= len,
            len == index@.len(),
            forall|j: int| start <= j < end ==> index@[j] != '\n',
        decreases start,
    {
        start = start - 1;
    }
    proof {
        let pre = index@.subrange(0, end as int);
        lemma_last_line_suffix(pre, start as int);
        assert(pre.subrange(start as int, end as int) =~= index@.subrange(
            start as int,
            end as int,
        ));
    }
    let ghost line = index@.subrange(start as int, end as int);
    // Find the first underscore of the line.
    let mut f = start;
    while f < end && index.get_char(f) != '_'
        invariant
            start <= f <= end <= len,
            len == index@.len(),
            forall|j: int| start <= j < f ==> index@[j] != '_',
        decreases end - f,
    {
        f = f + 1;
    }
    proof {
        lemma_first_underscore_skip(line, f - start);
    }
    if f == end {
        proof {
            assert(first_underscore_from(line, f - start) is None);
        }
        return Err(AppError::IndexUnparsable);
    }
    proof {
        assert(line[f - start] == index@[f as int]);
        assert(first_underscore_from(line, f - start) == Some(f - start));
    }
    // The line must close with a semicolon.
    if index.get_char(end - 1) != ';' {
        proof {
            assert(line.last() == index@[end - 1]);
        }
        return Err(AppError::IndexUnparsable);
    }
    proof {
        assert(line.last() == ';');
        assert(index@[f as int] == '_');
        assert(f < end - 1);
    }
    let digits = index.substring_char(f + 1, end - 1);
    proof {
        assert(line.subrange(f - start + 1, line.len() - 1) =~= index@.subrange(
            f + 1,
            end - 1,
        ));
        assert(parsed_index_line(line) == Some(digits@));
    }
    match parse_u64_decimal(digits) {
        Some(v) => Ok(v),
        None => Err(AppError::IndexUnparsable),
    }
}

} // verus!
