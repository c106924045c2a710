//! Plain text helpers: key-to-path conversion, splitting on a separator
//! and blank detection.

use vstd::prelude::*;

use crate::errors::StoreError;

verus! {

/// The string with every occurrence of one character replaced by another.
pub open spec fn replace_char(s: Seq<char>, from: char, to: char) -> Seq<char> {
    Seq::new(
        s.len(),
        |i: int|
            if s[i] == from {
                to
            } else {
                s[i]
            },
    )
}

/// How many times a character occurs.
pub open spec fn count_char(s: Seq<char>, c: char) -> int
    decreases s.len(),
{
    if s.len() == 0 {
        0
    } else {
        count_char(s.drop_last(), c) + if s.last() == c {
            1int
        } else {
            0int
        }
    }
}

/// Counting over a one-longer prefix adds the newly included character.
proof fn lemma_count_char_take(s: Seq<char>, c: char, i: int)
    requires
        0 <= i < s.len(),
    ensures
        count_char(s.take(i + 1), c) == count_char(s.take(i), c) + if s[i] == c {
            1int
        } else {
            0int
        },
{
    assert(s.take(i + 1).drop_last() =~= s.take(i));
    assert(s.take(i + 1).last() == s[i]);
}

/// Relies on the `Display` rendering of `char`: formatting a character
/// writes exactly that character.
#[verifier::external_body]
fn char_to_string(c: char) -> (r: String)
    ensures
        r@ =~= seq![c],
{
    c.to_string()
}

/// Replace every underscore of a key by the path separator.
pub fn underline_to_slash(input: &str) -> (r: String)
    ensures
        r@ == replace_char(input@, '_', '/'),
{
    let len = input.unicode_len();
    let mut out = String::new();
    proof {
        assert(out@ =~= replace_char(input@.take(0), '_', '/'));
    }
    for i in 0..len
        invariant
            len == input@.len(),
            out@ == replace_char(input@.take(i as int), '_', '/'),
    {
        proof {
            reveal_strlit("/");
        }
        let c = input.get_char(i);
        if c == '_' {
            out.append("/");
        } else {
            out.append(input.substring_char(i, i + 1));
        }
        proof {
            assert(out@ =~= replace_char(input@.take(i + 1), '_', '/'));
        }
    }
    proof {
        assert(input@.take(len as int) =~= input@);
    }
    out
}

/// The prefix of a key before its first underscore; the whole key when it
/// has none.
pub fn get_first_part(input: &str) -> (r: Result<&str, StoreError>)
    ensures
        match r {
            Result::Ok(part) => {
                exists|k: int|
                    {
                        &&& 0 <= k <= input@.len()
                        &&& part@ == #[trigger] input@.take(k)
                        &&& (forall|j: int| 0 <= j < k ==> input@[j] != '_')
                        &&& (k == input@.len() || input@[k] == '_')
                    }
            },
            Result::Err(_) => false,
        },
{
    let len = input.unicode_len();
    let mut k: usize = 0;
    while k < len && input.get_char(k) != '_'
        invariant
            len == input@.len(),
            0 <= k <= len,
            forall|j: int| 0 <= j < k ==> input@[j] != '_',
        decreases len - k,
    {
        k = k + 1;
    }
    let part = input.substring_char(0, k);
    proof {
        assert(part@ == input@.subrange(0, k as int));
        assert(input@.take(k as int) =~= input@.subrange(0, k as int));
    }
    Result::Ok(part)
}

/// Split on a delimiter, keep the first `n` parts, and join them with the
/// join character. A string with fewer than `n` parts is rejected rather
/// than returned whole.
pub fn take_first_n_parts(input: &str, delimiter: char, join: char, n: usize) -> (r: Result<
    String,
    StoreError,
>)
    ensures
        match r {
            Result::Ok(out) => {
                if n == 0 {
                    out@ == Seq::<char>::empty()
                } else {
                    &&& count_char(input@, delimiter) + 1 >= n as int
                    &&& exists|len_taken: int|
                        {
                            &&& 0 <= len_taken <= input@.len()
                            &&& count_char(#[trigger] input@.take(len_taken), delimiter)
                                == n as int - 1
                            &&& (len_taken == input@.len() || input@[len_taken] == delimiter)
                            &&& out@ == replace_char(input@.take(len_taken), delimiter, join)
                        }
                }
            },
            Result::Err(e) => e == StoreError::Conflict && count_char(input@, delimiter) + 1 < n as int,
        },
{
    let len = input.unicode_len();
    if n == 0 {
        return Result::Ok(String::new());
    }
    // First pass: count the delimiters, to reject short inputs up front.
    let mut count: usize = 0;
    for i in 0..len
        invariant
            len == input@.len(),
            count as int == count_char(input@.take(i as int), delimiter),
            count <= i,
    {
        proof {
            lemma_count_char_take(input@, delimiter, i as int);
        }
        if input.get_char(i) == delimiter {
            count = count + 1;
        }
    }
    proof {
        assert(input@.take(len as int) =~= input@);
    }
    if count < n - 1 {
        return Result::Err(StoreError::Conflict);
    }
    // Second pass: emit the first n parts, replacing each kept delimiter
    // by the join character.
    let mut out = String::new();
    let mut seps: usize = 0;
    proof {
        assert(out@ =~= replace_char(input@.take(0), delimiter, join));
    }
    for i in 0..len
        invariant
            len == input@.len(),
            n >= 1,
            count as int == count_char(input@, delimiter),
            count as int >= n as int - 1,
            seps as int == count_char(input@.take(i as int), delimiter),
            seps <= i,
            seps as int <= n as int - 1,
            out@ == replace_char(input@.take(i as int), delimiter, join),
    {
        proof {
            lemma_count_char_take(input@, delimiter, i as int);
        }
        let c = input.get_char(i);
        if c == delimiter {
            if seps == n - 1 {
                proof {
                    let lt = i as int;
                    assert(count_char(input@.take(lt), delimiter) == n as int - 1);
                    assert(input@[lt] == delimiter);
                    assert(out@ == replace_char(input@.take(lt), delimiter, join));
                }
                return Result::Ok(out);
            }
            seps = seps + 1;
            out.append(char_to_string(join).as_str());
        } else {
            out.append(input.substring_char(i, i + 1));
        }
        proof {
            assert(out@ =~= replace_char(input@.take(i + 1), delimiter, join));
        }
    }
    proof {
        let lt = len as int;
        assert(input@.take(lt) =~= input@);
        assert(count_char(input@.take(lt), delimiter) == n as int - 1);
        assert(out@ == replace_char(input@.take(lt), delimiter, join));
    }
    Result::Ok(out)
}

/// The character counts as white space.
pub open spec fn is_space_char(c: char) -> bool {
    ||| c == '\u{0009}'
    ||| c == '\u{000A}'
    ||| c == '\u{000B}'
    ||| c == '\u{000C}'
    ||| c == '\u{000D}'
    ||| c == '\u{0020}'
    ||| c == '\u{0085}'
    ||| c == '\u{00A0}'
    ||| c == '\u{1680}'
    ||| c == '\u{2000}'
    ||| c == '\u{2001}'
    ||| c == '\u{2002}'
    ||| c == '\u{2003}'
    ||| c == '\u{2004}'
    ||| c == '\u{2005}'
    ||| c == '\u{2006}'
    ||| c == '\u{2007}'
    ||| c == '\u{2008}'
    ||| c == '\u{2009}'
    ||| c == '\u{200A}'
    ||| c == '\u{2028}'
    ||| c == '\u{2029}'
    ||| c == '\u{202F}'
    ||| c == '\u{205F}'
    ||| c == '\u{3000}'
}

/// Whether the character counts as white space.
fn is_space(c: char) -> (r: bool)
    ensures
        r == is_space_char(c),
{
    c == '\u{0009}' || c == '\u{000A}' || c == '\u{000B}' || c == '\u{000C}' || c == '\u{000D}'
        || c == '\u{0020}' || c == '\u{0085}' || c == '\u{00A0}' || c == '\u{1680}' || c
        == '\u{2000}' || c == '\u{2001}' || c == '\u{2002}' || c == '\u{2003}' || c == '\u{2004}'
        || c == '\u{2005}' || c == '\u{2006}' || c == '\u{2007}' || c == '\u{2008}' || c
        == '\u{2009}' || c == '\u{200A}' || c == '\u{2028}' || c == '\u{2029}' || c == '\u{202F}'
        || c == '\u{205F}' || c == '\u{3000}'
}

/// Whether the string holds anything besides white space.
pub fn has_content(input: &str) -> (r: bool)
    ensures
        r == exists|i: int| 0 <= i < input@.len() && !is_space_char(#[trigger] input@[i]),
{
    let len = input.unicode_len();
    for i in 0..len
        invariant
            len == input@.len(),
            forall|j: int| 0 <= j < i ==> is_space_char(#[trigger] input@[j]),
    {
        if !is_space(input.get_char(i)) {
            return true;
        }
    }
    false
}

} // verus!
