//! The `*at` flag bits that an operation may carry.
use nix::fcntl::AtFlags;
use vstd::prelude::*;

verus! {

pub const AT_SYMLINK_NOFOLLOW: i32 = 0x100;

pub const AT_EACCESS: i32 = 0x200;

pub const AT_SYMLINK_FOLLOW: i32 = 0x400;

pub const AT_NO_AUTOMOUNT: i32 = 0x800;

pub const AT_EMPTY_PATH: i32 = 0x1000;

/// Every bit that the platform names as an `*at` flag.
pub const AT_KNOWN: i32 = 0x1f00;

/// A flag set is recognised when it holds no bit outside the named flags.
pub open spec fn flags_known(bits: i32) -> bool {
    bits & AT_KNOWN == bits
}

/// Relies on nix's `AtFlags::from_bits` (bitflags): it returns the set exactly
/// when truncating to the named flags (on Linux 0x100, 0x200, 0x400, 0x800,
/// 0x1000) leaves the bits unchanged.
#[verifier::external_body]
fn at_flags_from_bits(bits: i32) -> (r: Option<i32>)
    ensures
        r == (if bits & AT_KNOWN == bits {
            Some(bits)
        } else {
            None
        }),
{
    AtFlags::from_bits(bits).map(|f| f.bits())
}

/// Whether a flag set is recognised by the platform.
pub fn known_flags(bits: i32) -> (r: bool)
    ensures
        r == flags_known(bits),
{
    at_flags_from_bits(bits).is_some()
}

/// The individually named flags, each on its own.
pub open spec fn named_flags_spec() -> Seq<i32> {
    seq![AT_SYMLINK_FOLLOW, AT_SYMLINK_NOFOLLOW, AT_NO_AUTOMOUNT, AT_EMPTY_PATH, AT_EACCESS]
}

pub fn named_flags() -> (r: Vec<i32>)
    ensures
        r@ == named_flags_spec(),
{
    vec![AT_SYMLINK_FOLLOW, AT_SYMLINK_NOFOLLOW, AT_NO_AUTOMOUNT, AT_EMPTY_PATH, AT_EACCESS]
}

} // verus!
