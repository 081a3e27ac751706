//! Random identifiers for task cgroups and container roots.

use vstd::prelude::*;

verus! {

/// An identifier character: an ASCII letter or digit.
pub open spec fn is_id_char(c: char) -> bool {
    ||| 65 <= (c as u32) && (c as u32) <= 90
    ||| 97 <= (c as u32) && (c as u32) <= 122
    ||| 48 <= (c as u32) && (c as u32) <= 57
}

/// All characters of the sequence are identifier characters.
pub open spec fn is_id_string(s: Seq<char>) -> bool {
    forall|i: int| 0 <= i < s.len() ==> is_id_char(#[trigger] s[i])
}

/// Relies on `rand::random_range` over `0..bound`: returns a value within
/// the range; the range is nonempty by the precondition.
#[verifier::external_body]
fn random_index(bound: usize) -> (r: usize)
    requires
        bound > 0,
    ensures
        r < bound,
{
    rand::random_range(0..bound)
}

/// Generate a random identifier of the given length over `A-Z a-z 0-9`.
pub fn generate_random_string(size: u8) -> (s: String)
    ensures
        s@.len() == size as int,
        is_id_string(s@),
{
    let charset = crate::text::chars_of_str("ABCDEFGHIJKLMNOPQRSTUVWXYZabcdefghijklmnopqrstuvwxyz0123456789");
    proof {
        reveal_strlit("ABCDEFGHIJKLMNOPQRSTUVWXYZabcdefghijklmnopqrstuvwxyz0123456789");
        assert(charset@.len() == 62);
        assert(forall|i: int| 0 <= i < charset@.len() ==> is_id_char(#[trigger] charset@[i]));
    }
    let mut out: Vec<char> = Vec::new();
    let mut k: u8 = 0;
    while k < size
        invariant
            0 <= k <= size,
            out@.len() == k as int,
            is_id_string(out@),
            charset@.len() == 62,
            is_id_string(charset@),
        decreases size - k,
    {
        let idx = random_index(62);
        out.push(charset[idx]);
        k = k + 1;
    }
    crate::text::string_from_chars(&out)
}

} // verus!
