//! The token that a request carries in its cookies.
//!
//! The header of the cookies is read as pieces parted by semicolons. Blanks
//! and tabs on either side of a piece do not count. The first piece that
//! starts with `auth_token=` holds the token: what is left of the piece when
//! that name, as often as it stands at the start, is taken off. A header
//! that holds a byte which is neither a visible ASCII character nor a tab is
//! not read at all.

use crate::custom_errors::app::{AppError, Failure};
use vstd::prelude::*;

verus! {

/// The separator of the pieces: a semicolon.
pub const SEPARATOR: u8 = 59;

/// The length of the name that stands before the token.
pub const NAME_LENGTH: usize = 11;

/// The name that stands before the token: `auth_token=`.
pub open spec fn token_name() -> Seq<u8> {
    seq![97u8, 117u8, 116u8, 104u8, 95u8, 116u8, 111u8, 107u8, 101u8, 110u8, 61u8]
}

/// A byte that may stand in a header that is read as text: a visible ASCII
/// character, a blank or a tab.
pub open spec fn visible(b: u8) -> bool {
    32 <= b < 127 || b == 9
}

/// A blank or a tab.
pub open spec fn is_space(b: u8) -> bool {
    b == 32 || b == 9
}

/// The length of the first piece: the place of the first semicolon, or the
/// length of the whole where there is none.
pub open spec fn piece_end(s: Seq<u8>) -> int
    decreases s.len(),
{
    if s.len() == 0 || s.first() == SEPARATOR {
        0
    } else {
        1 + piece_end(s.drop_first())
    }
}

/// The bytes without the blanks and tabs they start with.
pub open spec fn without_leading_space(s: Seq<u8>) -> Seq<u8>
    decreases s.len(),
{
    if s.len() > 0 && is_space(s.first()) {
        without_leading_space(s.drop_first())
    } else {
        s
    }
}

/// The bytes without the blanks and tabs they end with.
pub open spec fn without_trailing_space(s: Seq<u8>) -> Seq<u8>
    decreases s.len(),
{
    if s.len() > 0 && is_space(s.last()) {
        without_trailing_space(s.drop_last())
    } else {
        s
    }
}

/// The bytes without the blanks and tabs at either end.
pub open spec fn without_space(s: Seq<u8>) -> Seq<u8> {
    without_trailing_space(without_leading_space(s))
}

/// Whether the bytes start with the name of the token.
pub open spec fn named(s: Seq<u8>) -> bool {
    s.len() >= NAME_LENGTH && s.take(NAME_LENGTH as int) == token_name()
}

/// The bytes without the name of the token, as often as it stands at their
/// start.
pub open spec fn without_name(s: Seq<u8>) -> Seq<u8>
    decreases s.len(),
{
    if named(s) {
        without_name(s.skip(NAME_LENGTH as int))
    } else {
        s
    }
}

/// The token of the first piece that names one.
pub open spec fn token_of_pieces(s: Seq<u8>) -> Option<Seq<u8>>
    decreases s.len(),
{
    let end = piece_end(s);
    let piece = without_space(s.take(end));
    if named(piece) {
        Some(without_name(piece))
    } else if 0 <= end < s.len() {
        token_of_pieces(s.skip(end + 1))
    } else {
        None
    }
}

/// The token that a header of cookies holds, if it holds one.
pub open spec fn token_in(header: Seq<u8>) -> Option<Seq<u8>> {
    if forall|i: int| 0 <= i < header.len() ==> visible(#[trigger] header[i]) {
        token_of_pieces(header)
    } else {
        None
    }
}

/// The first piece ends at the first semicolon.
proof fn lemma_piece_end(s: Seq<u8>, n: int)
    requires
        0 <= n <= s.len(),
        forall|k: int| 0 <= k < n ==> s[k] != SEPARATOR,
        n == s.len() || s[n] == SEPARATOR,
    ensures
        piece_end(s) == n,
    decreases n,
{
    if n > 0 {
        assert(s.first() == s[0]);
        let rest = s.drop_first();
        assert forall|k: int| 0 <= k < n - 1 implies rest[k] != SEPARATOR by {
            assert(rest[k] == s[k + 1]);
        }
        lemma_piece_end(rest, n - 1);
    }
}

/// The leading blanks and tabs end at the first other byte.
proof fn lemma_without_leading_space(s: Seq<u8>, n: int)
    requires
        0 <= n <= s.len(),
        forall|k: int| 0 <= k < n ==> is_space(s[k]),
        n == s.len() || !is_space(s[n]),
    ensures
        without_leading_space(s) == s.skip(n),
    decreases n,
{
    if n > 0 {
        assert(is_space(s[0]));
        let rest = s.drop_first();
        assert forall|k: int| 0 <= k < n - 1 implies is_space(rest[k]) by {
            assert(rest[k] == s[k + 1]);
        }
        lemma_without_leading_space(rest, n - 1);
        assert(rest.skip(n - 1) == s.skip(n));
    } else {
        assert(s.skip(0) == s);
    }
}

/// The trailing blanks and tabs start after the last other byte.
proof fn lemma_without_trailing_space(s: Seq<u8>, n: int)
    requires
        0 <= n <= s.len(),
        forall|k: int| n <= k < s.len() ==> is_space(s[k]),
        n == 0 || !is_space(s[n - 1]),
    ensures
        without_trailing_space(s) == s.take(n),
    decreases s.len() - n,
{
    if n < s.len() {
        assert(is_space(s[s.len() - 1]));
        let rest = s.drop_last();
        assert forall|k: int| n <= k < rest.len() implies is_space(rest[k]) by {
            assert(rest[k] == s[k]);
        }
        lemma_without_trailing_space(rest, n);
        assert(rest.take(n) == s.take(n));
    } else {
        assert(s.take(n) == s);
    }
}

/// Whether the name of the token stands at a place of the header, before
/// another.
fn named_at(header: &[u8], lo: usize, hi: usize) -> (r: bool)
    requires
        lo <= hi <= header@.len(),
    ensures
        r == named(header@.subrange(lo as int, hi as int)),
{
    if hi - lo < NAME_LENGTH {
        return false;
    }
    let name: [u8; 11] = [97, 117, 116, 104, 95, 116, 111, 107, 101, 110, 61];
    let ghost piece = header@.subrange(lo as int, hi as int);
    let mut i: usize = 0;
    while i < NAME_LENGTH
        invariant
            i <= NAME_LENGTH,
            lo + NAME_LENGTH <= hi <= header@.len(),
            piece == header@.subrange(lo as int, hi as int),
            name@ == token_name(),
            forall|k: int| 0 <= k < i ==> piece[k] == token_name()[k],
        decreases NAME_LENGTH - i,
    {
        if header[lo + i] != name[i] {
            assert(piece.take(NAME_LENGTH as int)[i as int] != token_name()[i as int]);
            return false;
        }
        i += 1;
    }
    proof {
        assert(piece.take(NAME_LENGTH as int) =~= token_name());
    }
    true
}

/// The token that a header of cookies holds, if it holds one.
pub fn auth_token(header: &[u8]) -> (r: Option<Vec<u8>>)
    ensures
        match r {
            Some(token) => token_in(header@) == Some(token@),
            None => token_in(header@) is None,
        },
{
    let mut i: usize = 0;
    while i < header.len()
        invariant
            i <= header.len(),
            forall|k: int| 0 <= k < i ==> visible(#[trigger] header@[k]),
        decreases header.len() - i,
    {
        let b = header[i];
        if !(b >= 32 && b < 127 || b == 9) {
            return None;
        }
        i += 1;
    }
    let mut from: usize = 0;
    proof {
        assert(header@.skip(0) == header@);
    }
    loop
        invariant
            from <= header.len(),
            token_in(header@) == token_of_pieces(header@.skip(from as int)),
        decreases header.len() - from,
    {
        let ghost rest = header@.skip(from as int);
        let mut end: usize = from;
        while end < header.len() && header[end] != SEPARATOR
            invariant
                from <= end <= header.len(),
                forall|k: int| from <= k < end ==> header@[k] != SEPARATOR,
            decreases header.len() - end,
        {
            end += 1;
        }
        let mut lo: usize = from;
        while lo < end && (header[lo] == 32 || header[lo] == 9)
            invariant
                from <= lo <= end <= header.len(),
                forall|k: int| from <= k < lo ==> is_space(header@[k]),
            decreases end - lo,
        {
            lo += 1;
        }
        let mut hi: usize = end;
        while hi > lo && (header[hi - 1] == 32 || header[hi - 1] == 9)
            invariant
                lo <= hi <= end <= header.len(),
                forall|k: int| hi <= k < end ==> is_space(header@[k]),
            decreases hi - lo,
        {
            hi -= 1;
        }
        let ghost piece = header@.subrange(lo as int, hi as int);
        proof {
            lemma_piece_end(rest, end - from);
            let first = rest.take(end - from);
            assert(first == header@.subrange(from as int, end as int));
            lemma_without_leading_space(first, lo - from);
            let inner = first.skip(lo - from);
            assert(inner == header@.subrange(lo as int, end as int));
            lemma_without_trailing_space(inner, hi - lo);
            assert(inner.take(hi - lo) == piece);
            assert(without_space(first) == piece);
        }
        if named_at(header, lo, hi) {
            let mut start: usize = lo + NAME_LENGTH;
            proof {
                assert(piece.skip(NAME_LENGTH as int) == header@.subrange(
                    lo + NAME_LENGTH,
                    hi as int,
                ));
            }
            while named_at(header, start, hi)
                invariant
                    lo < start <= hi <= header.len(),
                    without_name(piece) == without_name(
                        header@.subrange(start as int, hi as int),
                    ),
                    piece == header@.subrange(lo as int, hi as int),
                decreases hi - start,
            {
                proof {
                    assert(header@.subrange(start as int, hi as int).skip(NAME_LENGTH as int)
                        == header@.subrange(start + NAME_LENGTH, hi as int));
                }
                start += NAME_LENGTH;
            }
            let mut token: Vec<u8> = Vec::new();
            let mut k: usize = start;
            while k < hi
                invariant
                    start <= k <= hi <= header.len(),
                    token@ == header@.subrange(start as int, k as int),
                decreases hi - k,
            {
                token.push(header[k]);
                proof {
                    assert(header@.subrange(start as int, k + 1) == header@.subrange(
                        start as int,
                        k as int,
                    ).push(header@[k as int]));
                }
                k += 1;
            }
            return Some(token);
        }
        if end == header.len() {
            return None;
        }
        proof {
            assert(rest.skip(end - from + 1) == header@.skip(end + 1));
        }
        from = end + 1;
    }
}

/// The token of a request, from the header of its cookies. A request without
/// that header, or without a token in it, is refused.
pub fn session_token(header: Option<&[u8]>) -> (r: Result<Vec<u8>, AppError>)
    ensures
        match r {
            Ok(token) => header is Some && token_in(header->0@) == Some(token@),
            Err(e) => (header is None || token_in(header->0@) is None) && e@
                == Failure::Unauthorized("Missing auth_token cookie"@),
        },
{
    let found = match header {
        Some(bytes) => auth_token(bytes),
        None => None,
    };
    match found {
        Some(token) => Ok(token),
        None => Err(AppError::unauthorized("Missing auth_token cookie")),
    }
}

} // verus!
