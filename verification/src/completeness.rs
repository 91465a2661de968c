//! Bits of a certificate's completeness flags: which fields were extracted.

use vstd::prelude::*;

verus! {

pub const SUBJECT: u32 = 0x001;

pub const ISSUER: u32 = 0x002;

pub const SERIAL_NUMBER: u32 = 0x004;

pub const NOT_BEFORE: u32 = 0x008;

pub const NOT_AFTER: u32 = 0x010;

pub const SANS: u32 = 0x020;

pub const KEY_ALGORITHM: u32 = 0x040;

pub const KEY_SIZE: u32 = 0x080;

pub const CHAIN_DEPTH: u32 = 0x100;

pub const ISSUER_FINGERPRINT: u32 = 0x200;

/// All required fields are present.
pub const ALL_REQUIRED: u32 = 0x0df;

/// Every one of the given bits is set.
pub open spec fn has_all(flags: u32, bits: u32) -> bool {
    flags & bits == bits
}

/// `ALL_REQUIRED` holds the subject, the issuer, the serial number, both ends of the
/// validity period, the key algorithm and the key size, and no other field.
pub proof fn all_required_fields(flags: u32)
    ensures
        has_all(flags, ALL_REQUIRED) <==> {
            &&& has_all(flags, SUBJECT)
            &&& has_all(flags, ISSUER)
            &&& has_all(flags, SERIAL_NUMBER)
            &&& has_all(flags, NOT_BEFORE)
            &&& has_all(flags, NOT_AFTER)
            &&& has_all(flags, KEY_ALGORITHM)
            &&& has_all(flags, KEY_SIZE)
        },
{
    assert(flags & 0x0df == 0x0df <==> {
        &&& flags & 0x001 == 0x001
        &&& flags & 0x002 == 0x002
        &&& flags & 0x004 == 0x004
        &&& flags & 0x008 == 0x008
        &&& flags & 0x010 == 0x010
        &&& flags & 0x040 == 0x040
        &&& flags & 0x080 == 0x080
    }) by (bit_vector);
}

/// Each field has a bit of its own: the subject the lowest, and then the issuer, the serial
/// number, the start and the end of the validity period, the alternative names, the key's
/// algorithm and size, the chain depth and the issuer's fingerprint.
pub proof fn every_field_has_its_bit(flags: u32)
    ensures
        has_all(flags, SUBJECT) <==> flags % 2 == 1,
        has_all(flags, ISSUER) <==> (flags / 2) % 2 == 1,
        has_all(flags, SERIAL_NUMBER) <==> (flags / 4) % 2 == 1,
        has_all(flags, NOT_BEFORE) <==> (flags / 8) % 2 == 1,
        has_all(flags, NOT_AFTER) <==> (flags / 16) % 2 == 1,
        has_all(flags, SANS) <==> (flags / 32) % 2 == 1,
        has_all(flags, KEY_ALGORITHM) <==> (flags / 64) % 2 == 1,
        has_all(flags, KEY_SIZE) <==> (flags / 128) % 2 == 1,
        has_all(flags, CHAIN_DEPTH) <==> (flags / 256) % 2 == 1,
        has_all(flags, ISSUER_FINGERPRINT) <==> (flags / 512) % 2 == 1,
{
    assert({
        &&& flags & 0x001 == 0x001 <==> flags % 2 == 1
        &&& flags & 0x002 == 0x002 <==> (flags / 2) % 2 == 1
        &&& flags & 0x004 == 0x004 <==> (flags / 4) % 2 == 1
        &&& flags & 0x008 == 0x008 <==> (flags / 8) % 2 == 1
        &&& flags & 0x010 == 0x010 <==> (flags / 16) % 2 == 1
        &&& flags & 0x020 == 0x020 <==> (flags / 32) % 2 == 1
        &&& flags & 0x040 == 0x040 <==> (flags / 64) % 2 == 1
        &&& flags & 0x080 == 0x080 <==> (flags / 128) % 2 == 1
        &&& flags & 0x100 == 0x100 <==> (flags / 256) % 2 == 1
        &&& flags & 0x200 == 0x200 <==> (flags / 512) % 2 == 1
    }) by (bit_vector);
}

} // verus!
