//! Capability-based security tokens.
//!
//! A token is an unforgeable reference to a set of rights: a unique
//! identifier and a bitmask of rights.
use vstd::prelude::*;
use vstd::string::StringSliceAdditionalSpecFns;
use crate::oracle::{hex_digits, push_str_bytes, speak_hex};

verus! {

/// No rights at all.
pub const RIGHT_NONE: u64 = 0;

/// Ability to read resource state.
pub const RIGHT_READ: u64 = 1;

/// Ability to modify resource state.
pub const RIGHT_WRITE: u64 = 2;

/// Ability to execute the resource.
pub const RIGHT_EXECUTE: u64 = 4;

/// Ability to delegate this token to another process.
pub const RIGHT_GRANT: u64 = 8;

/// Ability to map the resource into a virtual address space.
pub const RIGHT_MAP: u64 = 16;

/// Universal system-level rights: every bit set.
pub const RIGHT_GOD: u64 = 0xFFFF_FFFF_FFFF_FFFF;

/// A security capability: a unique identifier and a bitwise right mask.
#[derive(Debug, Clone, Copy, PartialEq, Eq, Structural)]
pub struct Token {
    /// Unique identifier for the token.
    pub id: u64,
    /// Bitmask representing the set of rights granted by this token.
    pub rights: u64,
}

/// The bytes of the diagnostic line that describes a token.
pub open spec fn token_display_bytes(id: u64, rights: u64) -> Seq<u8> {
    "[+] Token ID: 0x".spec_bytes() + hex_digits(id as nat) + " | Rights Map: 0x".spec_bytes()
        + hex_digits(rights as nat) + "\n".spec_bytes()
}

impl Token {
    /// Whether this token holds every right of `required`.
    pub open spec fn holds(self, required: u64) -> bool {
        self.rights & required == required
    }

    /// The initial system-level token: identifier 0 with every right.
    pub fn mint_genesis() -> (t: Token)
        ensures
            t == (Token { id: 0, rights: RIGHT_GOD }),
    {
        Token { id: 0, rights: RIGHT_GOD }
    }

    /// The diagnostic line that describes this token on the system console:
    /// its identifier and its rights map, both in hexadecimal.
    pub fn display(&self) -> (r: Vec<u8>)
        ensures
            r@ == token_display_bytes(self.id, self.rights),
    {
        let mut out: Vec<u8> = Vec::new();
        push_str_bytes(&mut out, "[+] Token ID: 0x");
        let mut id_hex = speak_hex(self.id);
        out.append(&mut id_hex);
        push_str_bytes(&mut out, " | Rights Map: 0x");
        let mut rights_hex = speak_hex(self.rights);
        out.append(&mut rights_hex);
        push_str_bytes(&mut out, "\n");
        out
    }

    /// Whether the token possesses all rights of `required`.
    pub fn has_right(&self, required: u64) -> (r: bool)
        ensures
            r == self.holds(required),
    {
        (self.rights & required) == required
    }
}

/// The genesis token holds every right.
pub proof fn lemma_genesis_holds_every_right(required: u64)
    ensures
        (Token { id: 0, rights: RIGHT_GOD }).holds(required),
{
    assert(0xFFFF_FFFF_FFFF_FFFFu64 & required == required) by (bit_vector);
}

/// Every token holds the empty right set.
pub proof fn lemma_every_token_holds_no_rights(t: Token)
    ensures
        t.holds(RIGHT_NONE),
{
    let r = t.rights;
    assert(r & 0u64 == 0u64) by (bit_vector);
}

/// Holding a combination of rights is holding each of them.
pub proof fn lemma_holds_union(t: Token, a: u64, b: u64)
    ensures
        t.holds(a | b) <==> (t.holds(a) && t.holds(b)),
{
    let r = t.rights;
    assert((r & (a | b) == (a | b)) <==> (r & a == a && r & b == b)) by (bit_vector);
}

/// A token that holds a set of rights holds every subset of it.
pub proof fn lemma_holds_subset(t: Token, a: u64, b: u64)
    requires
        t.holds(a),
        b & a == b,
    ensures
        t.holds(b),
{
    let r = t.rights;
    assert(r & a == a && b & a == b ==> r & b == b) by (bit_vector);
}

} // verus!
