//! Values drawn at random.
use vstd::prelude::*;
use crate::digest;
use crate::text::cat2;

verus! {

/// The places of the hyphens in a hyphenated identifier.
pub open spec fn is_hyphen_place(i: int) -> bool {
    i == 8 || i == 13 || i == 18 || i == 23
}

/// Groups of 8, 4, 4, 4 and 12 lower-case hexadecimal digits, with hyphens between them.
pub open spec fn is_unique_name(s: Seq<char>) -> bool {
    s.len() == 36 && forall|i: int|
        0 <= i < 36 ==> if is_hyphen_place(i) {
            #[trigger] s[i] == '-'
        } else {
            digest::is_hex(s[i])
        }
}

/// A tag, and as many lower-case hexadecimal digits after it.
pub open spec fn is_tagged(s: Seq<char>, tag: Seq<char>, digits: nat) -> bool {
    &&& tag.is_prefix_of(s)
    &&& s.len() == tag.len() + digits
    &&& digest::all_hex(s.skip(tag.len() as int))
}

/// `uuid::Uuid::new_v4`, written without hyphens: 32 lower-case hexadecimal digits, which chance
/// decides.
#[verifier::external_body]
pub(crate) fn unique_simple() -> (r: String)
    ensures
        r@.len() == 32,
        digest::all_hex(r@),
{
    uuid::Uuid::new_v4().simple().to_string()
}

/// `uuid::Uuid::new_v4`, written with hyphens: groups of 8, 4, 4, 4 and 12 lower-case hexadecimal
/// digits, which chance decides.
#[verifier::external_body]
pub(crate) fn unique_hyphenated() -> (r: String)
    ensures
        is_unique_name(r@),
{
    uuid::Uuid::new_v4().to_string()
}

/// A tag and 32 digits that nothing else has: chance decides them.
pub(crate) fn tagged(tag: &str) -> (r: String)
    ensures
        is_tagged(r@, tag@, 32),
{
    let unique = unique_simple();
    let r = cat2(tag, unique.as_str());
    assert(tag@ =~= r@.subrange(0, tag@.len() as int));
    assert(r@.skip(tag@.len() as int) =~= unique@);
    r
}

/// A name that nothing else has: chance decides it.
pub fn unique_name() -> (r: String)
    ensures
        is_unique_name(r@),
{
    unique_hyphenated()
}

/// `rand::RngCore::fill_bytes` of the generator of the thread: 32 bytes, which chance decides.
#[verifier::external_body]
pub(crate) fn random_bytes() -> (r: Vec<u8>)
    ensures
        r@.len() == 32,
{
    let mut bytes = vec![0u8; 32];
    rand::RngCore::fill_bytes(&mut rand::thread_rng(), &mut bytes);
    bytes
}

/// `rand::Rng::gen_range` over the numbers below a bound: one of them, which chance decides.
#[verifier::external_body]
pub(crate) fn number_below(bound: u64) -> (r: u64)
    requires
        bound > 0,
    ensures
        r < bound,
{
    rand::Rng::gen_range(&mut rand::thread_rng(), 0u64..bound)
}

/// The milliseconds to wait before the next round of polling: the interval and up to a second
/// more, so that machines do not poll in step.
pub fn poll_delay(interval_millis: u64) -> (r: u64)
    requires
        interval_millis <= u64::MAX - 1000,
    ensures
        interval_millis <= r < interval_millis + 1000,
{
    interval_millis + number_below(1000)
}

} // verus!
