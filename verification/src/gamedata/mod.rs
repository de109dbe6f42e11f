//! Lookup tables mapping numeric identifiers to display names, and the
//! save-file naming convention.

pub mod armors;
pub mod items;
pub mod key_items;
pub mod lightworld_items;
pub mod party_members;
pub mod phone_numbers;
pub mod spells;
pub mod weapons;

use vstd::prelude::*;
use vstd::string::StrSliceExecFns;
use crate::numtext::digit_val;
use crate::numtext::is_digit;

verus! {

/// Index of the last `/` in `s`, or `-1` when there is none.
pub open spec fn last_slash(s: Seq<char>) -> int
    decreases s.len(),
{
    if s.len() == 0 {
        -1
    } else if s.last() == '/' {
        s.len() - 1
    } else {
        last_slash(s.drop_last())
    }
}

/// What a save path names: a file called `filech<digit>_<digit>` encodes the
/// chapter and the save slot; any other name yields chapter and slot zero.
pub open spec fn spec_parse_filename(path: Seq<char>) -> (i32, i32) {
    let f = path.subrange(last_slash(path) + 1, path.len() as int);
    if f.len() == 9 && f.subrange(0, 6) == "filech"@ && is_digit(f[6]) && f[7] == '_' && is_digit(
        f[8],
    ) {
        (digit_val(f[6]) as i32, digit_val(f[8]) as i32)
    } else {
        (0, 0)
    }
}

/// Reads the chapter and save-slot numbers out of a save path, exactly as
/// [`spec_parse_filename`] describes.
pub fn parse_filename(path: &str) -> (r: (i32, i32))
    ensures
        r == spec_parse_filename(path@),
{
    proof {
        reveal_strlit("filech");
    }
    let n = path.unicode_len();
    // find the start of the last path segment
    let mut j: usize = n;
    proof {
        assert(path@.take(n as int) =~= path@);
    }
    while j > 0 && path.get_char(j - 1) != '/'
        invariant
            0 <= j <= n,
            n == path@.len(),
            last_slash(path@) == last_slash(path@.take(j as int)),
        decreases j,
    {
        proof {
            let t = path@.take(j as int);
            assert(t.last() == path@[j - 1]);
            assert(t.drop_last() =~= path@.take(j as int - 1));
        }
        j = j - 1;
    }
    proof {
        let t = path@.take(j as int);
        if j > 0 {
            assert(t.last() == path@[j - 1]);
        }
        assert(last_slash(path@) == j - 1);
    }
    let ghost f = path@.subrange(last_slash(path@) + 1, path@.len() as int);
    if n - j != 9 {
        return (0, 0);
    }
    let c0 = path.get_char(j);
    let c1 = path.get_char(j + 1);
    let c2 = path.get_char(j + 2);
    let c3 = path.get_char(j + 3);
    let c4 = path.get_char(j + 4);
    let c5 = path.get_char(j + 5);
    let c6 = path.get_char(j + 6);
    let c7 = path.get_char(j + 7);
    let c8 = path.get_char(j + 8);
    if c0 == 'f' && c1 == 'i' && c2 == 'l' && c3 == 'e' && c4 == 'c' && c5 == 'h' {
        proof {
            assert(f.len() == 9);
            assert("filech"@.len() == 6);
            assert(f[0] == path@[j as int] && f[1] == path@[j + 1] && f[2] == path@[j + 2] && f[3]
                == path@[j + 3] && f[4] == path@[j + 4] && f[5] == path@[j + 5]);
            assert("filech"@[0] == 'f' && "filech"@[1] == 'i' && "filech"@[2] == 'l' && "filech"@[3]
                == 'e' && "filech"@[4] == 'c' && "filech"@[5] == 'h');
            assert(f.subrange(0, 6) =~= "filech"@);
        }
        let v6 = c6 as u32;
        let v8 = c8 as u32;
        if 48 <= v6 && v6 <= 57 && c7 == '_' && 48 <= v8 && v8 <= 57 {
            ((v6 - 48) as i32, (v8 - 48) as i32)
        } else {
            (0, 0)
        }
    } else {
        proof {
            assert(f.subrange(0, 6) != "filech"@) by {
                assert(f[0] == path@[j as int] && f[1] == path@[j + 1] && f[2] == path@[j + 2]
                    && f[3] == path@[j + 3] && f[4] == path@[j + 4] && f[5] == path@[j + 5]);
                assert("filech"@[0] == 'f' && "filech"@[1] == 'i' && "filech"@[2] == 'l'
                    && "filech"@[3] == 'e' && "filech"@[4] == 'c' && "filech"@[5] == 'h');
                if f.subrange(0, 6) == "filech"@ {
                    assert(f[0] == 'f' && f[1] == 'i' && f[2] == 'l' && f[3] == 'e' && f[4] == 'c'
                        && f[5] == 'h');
                    assert(false);
                }
            }
        }
        (0, 0)
    }
}

} // verus!
