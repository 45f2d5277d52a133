//! Choosing the display output whose gamma ramp carries the brightness.
use vstd::prelude::*;

verus! {

/// Whether `b` is well-formed UTF-8, as `std::str::from_utf8` decides it.
pub uninterp spec fn utf8_valid(b: Seq<u8>) -> bool;

/// Relies on `std::str::from_utf8`: it succeeds exactly on well-formed
/// UTF-8, which depends on the bytes alone.
#[verifier::external_body]
fn is_utf8(b: &[u8]) -> (r: bool)
    ensures
        r == utf8_valid(b@),
{
    std::str::from_utf8(b).is_ok()
}

/// An output is the target when its name is text and begins with the
/// configured target name. The test is on a prefix, so `"eDP-1-2"` matches a
/// target of `"eDP-1"` as `"eDP-1"` itself does.
pub open spec fn matches_target(name: Seq<u8>, target: Seq<u8>) -> bool {
    utf8_valid(name) && target.len() <= name.len() && name.subrange(0, target.len() as int)
        == target
}

/// Matching is by prefix: any output whose name is the target name followed
/// by more text (and is valid UTF-8) matches, as the exact name does.
pub proof fn lemma_prefix_names_match(target: Seq<u8>, rest: Seq<u8>)
    requires
        utf8_valid(target + rest),
    ensures
        matches_target(target + rest, target),
{
    assert((target + rest).subrange(0, target.len() as int) =~= target);
}

/// Tests whether the output called `name` is the one to drive.
pub fn name_matches(name: &[u8], target: &[u8]) -> (r: bool)
    ensures
        r == matches_target(name@, target@),
{
    if !is_utf8(name) {
        return false;
    }
    if target.len() > name.len() {
        return false;
    }
    let mut i: usize = 0;
    while i < target.len()
        invariant
            target@.len() <= name@.len(),
            i <= target@.len(),
            forall|k: int| 0 <= k < i ==> name@[k] == target@[k],
        decreases target.len() - i,
    {
        if name[i] != target[i] {
            assert(name@.subrange(0, target@.len() as int)[i as int] != target@[i as int]);
            return false;
        }
        i += 1;
    }
    assert(name@.subrange(0, target@.len() as int) =~= target@);
    true
}

/// The CRTC to program for an output: its CRTC when the output matches the
/// target and is attached to one (a CRTC id of zero means none).
pub open spec fn crtc_to_program(name: Seq<u8>, crtc: u64, target: Seq<u8>) -> Option<u64> {
    if matches_target(name, target) && crtc != 0 {
        Some(crtc)
    } else {
        None
    }
}

/// Decides whether the output called `name`, attached to `crtc`, gets the
/// brightness ramp, and on which CRTC.
pub fn select_crtc(name: &[u8], crtc: u64, target: &[u8]) -> (r: Option<u64>)
    ensures
        r == crtc_to_program(name@, crtc, target@),
{
    if name_matches(name, target) && crtc != 0 {
        Some(crtc)
    } else {
        None
    }
}

} // verus!
