//! Names of archive files: the live file's stem with the archive number
//! appended, and the live file's extension.

use crate::text::{decimal, push_decimal};
use vstd::prelude::*;

verus! {

/// The index of the last occurrence of `c` in `s`, or -1 if there is none.
pub open spec fn last_index_of(s: Seq<char>, c: char) -> int
    decreases s.len(),
{
    if s.len() == 0 {
        -1
    } else if s.last() == c {
        s.len() - 1
    } else {
        last_index_of(s.drop_last(), c)
    }
}

/// Where the file name starts in a path: behind the last `/`.
pub open spec fn name_start(path: Seq<char>) -> int {
    last_index_of(path, '/') + 1
}

/// Where the stem of the file name ends in a path: at the last dot of the
/// file name, unless that dot opens the name; else at the end of the path.
pub open spec fn stem_end(path: Seq<char>) -> int {
    let dot = last_index_of(path.skip(name_start(path)), '.');
    if dot <= 0 {
        path.len() as int
    } else {
        name_start(path) + dot
    }
}

/// The path of archive `number` beside the live file `path`: directory and
/// stem, the number, and the extension if it is not empty.
pub open spec fn archive_name(path: Seq<char>, number: int) -> Seq<char> {
    let cut = stem_end(path);
    if cut + 1 < path.len() {
        path.take(cut) + decimal(number) + path.skip(cut)
    } else {
        path.take(cut) + decimal(number)
    }
}

/// The last occurrence is the one that no other follows.
pub proof fn lemma_last_index(s: Seq<char>, c: char, k: int)
    requires
        -1 <= k < s.len(),
        k >= 0 ==> s[k] == c,
        forall|j: int| k < j < s.len() ==> s[j] != c,
    ensures
        last_index_of(s, c) == k,
    decreases s.len(),
{
    if s.len() > 0 && k < s.len() - 1 {
        lemma_last_index(s.drop_last(), c, k);
    }
}

/// The index of the last `c` at or after `from`, if there is one.
fn last_index_from(text: &str, from: usize, c: char) -> (r: Option<usize>)
    requires
        from <= text@.len(),
    ensures
        match r {
            Some(k) => from <= k < text@.len() && last_index_of(text@.skip(from as int), c) == k
                - from,
            None => last_index_of(text@.skip(from as int), c) == -1,
        },
{
    let len = text.unicode_len();
    let ghost tail = text@.skip(from as int);
    let mut i: usize = len;
    while i > from
        invariant
            from <= i <= len,
            len == text@.len(),
            tail == text@.skip(from as int),
            forall|j: int| i - from <= j < tail.len() ==> tail[j] != c,
        decreases i,
    {
        if text.get_char(i - 1) == c {
            proof {
                lemma_last_index(tail, c, i - 1 - from);
            }
            return Some(i - 1);
        }
        i = i - 1;
    }
    proof {
        lemma_last_index(tail, c, -1);
    }
    None
}

/// The path of archive `number` beside the live file `file_path`.
pub fn archive_path(file_path: &str, number: i64) -> (r: String)
    ensures
        r@ == archive_name(file_path@, number as int),
{
    let len = file_path.unicode_len();
    let start: usize = match last_index_from(file_path, 0, '/') {
        Some(k) => k + 1,
        None => 0,
    };
    assert(file_path@.skip(0) =~= file_path@);
    let cut: usize = match last_index_from(file_path, start, '.') {
        Some(k) => if k > start {
            k
        } else {
            len
        },
        None => len,
    };
    let mut out = String::from_str(file_path.substring_char(0, cut));
    push_decimal(&mut out, number);
    if cut < len && cut + 1 < len {
        out.append(file_path.substring_char(cut, len));
    }
    assert(out@ =~= archive_name(file_path@, number as int));
    out
}

} // verus!
