//! Subdomain canonicalization: requested labels are case-folded and
//! admitted only when every character is a lowercase letter, a digit,
//! or a hyphen.  Resolution is therefore case-insensitive.
use crate::text::{chars_of_ascii, lower_byte, spec_lower_byte, spec_lower_bytes, string_from_ascii};
use vstd::prelude::*;
use vstd::string::StringSliceAdditionalSpecFns;

verus! {

/// Whether a byte is one of the characters allowed in a canonical
/// subdomain: a lowercase ASCII letter, a digit, or a hyphen.
pub open spec fn spec_subdomain_byte(b: u8) -> bool {
    (0x61 <= b <= 0x7a) || (0x30 <= b <= 0x39) || b == 0x2d
}

/// Executable check for a canonical-subdomain byte.
pub fn is_subdomain_byte(b: u8) -> (r: bool)
    ensures
        r == spec_subdomain_byte(b),
{
    (0x61 <= b && b <= 0x7a) || (0x30 <= b && b <= 0x39) || b == 0x2d
}

/// Whether a requested label is admissible: after case folding, every
/// byte is a lowercase letter, a digit, or a hyphen.
pub open spec fn spec_canonical_ok(bytes: Seq<u8>) -> bool {
    forall|i: int| 0 <= i < bytes.len() ==> spec_subdomain_byte(spec_lower_byte(#[trigger] bytes[i]))
}

/// Canonicalizes a requested subdomain: case-folds it, and rejects it
/// unless every resulting character is a lowercase letter, a digit, or
/// a hyphen.
pub fn canonicalize_sub_domain(s: &str) -> (r: Option<String>)
    ensures
        r is Some <==> spec_canonical_ok(s.spec_bytes()),
        r is Some ==> r->0@ == chars_of_ascii(spec_lower_bytes(s.spec_bytes())),
{
    let bytes: &[u8] = s.as_bytes();
    let n: usize = bytes.len();
    let mut out: Vec<u8> = Vec::new();
    let mut i: usize = 0;
    while i < n
        invariant
            n == bytes@.len(),
            bytes@ == s.spec_bytes(),
            0 <= i <= n,
            out@ == spec_lower_bytes(bytes@.take(i as int)),
            forall|j: int| 0 <= j < i ==> spec_subdomain_byte(spec_lower_byte(#[trigger] bytes@[j])),
        decreases n - i,
    {
        let lb: u8 = lower_byte(bytes[i]);
        if !is_subdomain_byte(lb) {
            return None;
        }
        out.push(lb);
        assert(out@ =~= spec_lower_bytes(bytes@.take(i + 1)));
        i = i + 1;
    }
    assert(bytes@.take(n as int) =~= bytes@);
    Some(string_from_ascii(out))
}

/// Whether two byte sequences differ at most in ASCII letter case.
pub open spec fn same_modulo_case(a: Seq<u8>, b: Seq<u8>) -> bool {
    a.len() == b.len() && forall|i: int|
        0 <= i < a.len() ==> spec_lower_byte(#[trigger] a[i]) == spec_lower_byte(#[trigger] b[i])
}

/// Canonicalization is case-insensitive: two requested labels that
/// differ only in letter case are both rejected or both admitted, and
/// when admitted they canonicalize to the same label — so they resolve
/// to the same owner.
pub proof fn lemma_canonicalize_case_insensitive(a: Seq<u8>, b: Seq<u8>)
    requires
        same_modulo_case(a, b),
    ensures
        spec_canonical_ok(a) <==> spec_canonical_ok(b),
        spec_lower_bytes(a) == spec_lower_bytes(b),
{
    assert(spec_lower_bytes(a) =~= spec_lower_bytes(b));
    if spec_canonical_ok(a) {
        assert forall|i: int| 0 <= i < b.len() implies spec_subdomain_byte(
            spec_lower_byte(#[trigger] b[i]),
        ) by {
            assert(spec_subdomain_byte(spec_lower_byte(a[i])));
        }
    }
    if spec_canonical_ok(b) {
        assert forall|i: int| 0 <= i < a.len() implies spec_subdomain_byte(
            spec_lower_byte(#[trigger] a[i]),
        ) by {
            assert(spec_subdomain_byte(spec_lower_byte(b[i])));
        }
    }
}

/// Whether a sequence of labels contains the given text.
pub open spec fn contains_text(list: Seq<String>, item: Seq<char>) -> bool {
    exists|i: int| 0 <= i < list.len() && (#[trigger] list[i])@ == item
}

/// Whether a list of labels contains the given one.
pub fn list_contains(list: &Vec<String>, item: &String) -> (r: bool)
    ensures
        r == contains_text(list@, item@),
{
    let n: usize = list.len();
    let mut i: usize = 0;
    while i < n
        invariant
            n == list@.len(),
            0 <= i <= n,
            forall|j: int| 0 <= j < i ==> (#[trigger] list@[j])@ != item@,
        decreases n - i,
    {
        if list[i] == *item {
            return true;
        }
        i = i + 1;
    }
    false
}

} // verus!
