//! Names of the temporary files that a regenerated source passes through
//! before it replaces the target.

use vstd::prelude::*;
use crate::text::cat;

verus! {

/// How many random characters a temporary file name has.
pub const TEMP_NAME_LEN: usize = 16;

/// The characters a temporary file name is drawn from.
pub open spec fn name_chars() -> Seq<char> {
    "ABCDEFGHIJKLMNOPQRSTUVWXYZabcdefghijklmnopqrstuvwxyz0123456789"@
}

/// The temporary file path for the given draws, each an index into the
/// character set.
pub open spec fn temp_path_of(draws: Seq<usize>) -> Seq<char> {
    "/tmp/processor_coder_"@ + draws.map_values(|d: usize| name_chars()[d as int]) + ".rs"@
}

/// Relies on `rand::random_range`: a value drawn from the half-open range
/// `0..bound`, which panics when that range is empty.
#[verifier::external_body]
fn random_below(bound: usize) -> (r: usize)
    requires
        bound > 0,
    ensures
        r < bound,
{
    rand::random_range(0..bound)
}

/// The temporary file path for the given draws.
pub fn temp_path_from(draws: &Vec<usize>) -> (r: String)
    requires
        forall|i: int| 0 <= i < draws@.len() ==> draws@[i] < name_chars().len(),
    ensures
        r@ == temp_path_of(draws@),
{
    let chars = "ABCDEFGHIJKLMNOPQRSTUVWXYZabcdefghijklmnopqrstuvwxyz0123456789";
    let mut middle = String::new();
    let mut i: usize = 0;
    while i < draws.len()
        invariant
            0 <= i <= draws@.len(),
            chars@ == name_chars(),
            forall|j: int| 0 <= j < draws@.len() ==> draws@[j] < name_chars().len(),
            middle@ == draws@.take(i as int).map_values(|d: usize| name_chars()[d as int]),
        decreases draws@.len() - i,
    {
        middle.push(chars.get_char(draws[i]));
        proof {
            assert(draws@.take(i + 1).map_values(|d: usize| name_chars()[d as int]) =~= draws@.take(
                i as int,
            ).map_values(|d: usize| name_chars()[d as int]).push(name_chars()[draws@[i as int] as int]));
        }
        i = i + 1;
    }
    proof {
        assert(draws@.take(draws@.len() as int) =~= draws@);
    }
    let mut r = cat("/tmp/processor_coder_", middle.as_str());
    r.append(".rs");
    r
}

/// A fresh temporary file path: sixteen characters drawn at random.
pub fn temp_file_path() -> (r: String)
    ensures
        exists|draws: Seq<usize>|
            draws.len() == TEMP_NAME_LEN && (forall|i: int|
                0 <= i < draws.len() ==> #[trigger] draws[i] < name_chars().len()) && r@
                == temp_path_of(draws),
{
    proof {
        reveal_strlit("ABCDEFGHIJKLMNOPQRSTUVWXYZabcdefghijklmnopqrstuvwxyz0123456789");
    }
    let mut draws: Vec<usize> = Vec::new();
    let mut i: usize = 0;
    while i < TEMP_NAME_LEN
        invariant
            0 <= i <= TEMP_NAME_LEN,
            draws@.len() == i,
            name_chars().len() == 62,
            forall|j: int| 0 <= j < draws@.len() ==> draws@[j] < name_chars().len(),
        decreases TEMP_NAME_LEN - i,
    {
        draws.push(random_below(62));
        i = i + 1;
    }
    temp_path_from(&draws)
}

} // verus!
