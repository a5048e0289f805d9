//! Ed25519 signature container: the 64-byte wire form `R || s`, its
//! construction, serialization and hexadecimal rendering.
//!
//! The bytes are carried as given; whether they encode a valid curve point
//! and scalar is for the code that later verifies the signature to decide.

pub mod hex;

use vstd::prelude::*;
use vstd::string::StringExecFns;

pub use signature::{self, Error, SignatureEncoding};

verus! {

/// Size of a single component of an Ed25519 signature.
pub const COMPONENT_SIZE: usize = 32;

/// Size of an encoded Ed25519 signature in bytes.
pub const SIGNATURE_SIZE: usize = 64;

/// Size of an `R` or `s` component of an Ed25519 signature when serialized
/// as bytes.
pub type ComponentBytes = [u8; COMPONENT_SIZE];

/// Ed25519 signature serialized as a byte array.
pub type SignatureBytes = [u8; SIGNATURE_SIZE];

#[verifier::external_type_specification]
#[verifier::external_body]
pub struct ExError(signature::Error);

/// Relies on signature::Error::new: builds the opaque error value, with
/// nothing in it to tell one failure from another.
pub assume_specification[ signature::Error::new ]() -> signature::Error;

/// The wire form of a signature with components `r` and `s`: `r` followed by `s`.
pub open spec fn wire_form(r: Seq<u8>, s: Seq<u8>) -> Seq<u8> {
    r + s
}

/// The two components can be read back from the wire form.
pub proof fn lemma_wire_form_split(r: Seq<u8>, s: Seq<u8>)
    requires
        r.len() == COMPONENT_SIZE,
        s.len() == COMPONENT_SIZE,
    ensures
        wire_form(r, s).len() == SIGNATURE_SIZE,
        wire_form(r, s).subrange(0, COMPONENT_SIZE as int) == r,
        wire_form(r, s).subrange(COMPONENT_SIZE as int, SIGNATURE_SIZE as int) == s,
{
    assert(wire_form(r, s).subrange(0, COMPONENT_SIZE as int) =~= r);
    assert(wire_form(r, s).subrange(COMPONENT_SIZE as int, SIGNATURE_SIZE as int) =~= s);
}

/// Ed25519 signature.
///
/// This type represents a container for the byte serialization of an Ed25519
/// signature, and does not necessarily represent well-formed field or curve
/// elements.
#[derive(Copy, Clone, Eq)]
pub struct Signature {
    r: ComponentBytes,
    s: ComponentBytes,
}

impl View for Signature {
    type V = Seq<u8>;

    /// A signature is seen as its 64-byte wire form.
    closed spec fn view(&self) -> Seq<u8> {
        wire_form(self.r@, self.s@)
    }
}

/// Every signature has a wire form of exactly 64 bytes.
pub proof fn lemma_view_len(sig: Signature)
    ensures
        sig@.len() == SIGNATURE_SIZE,
{
    lemma_wire_form_split(sig.r@, sig.s@);
}

impl Signature {
    /// The `R` component: the first 32 bytes of the wire form.
    pub open spec fn r_bytes_spec(&self) -> Seq<u8> {
        self@.subrange(0, COMPONENT_SIZE as int)
    }

    /// The `s` component: the last 32 bytes of the wire form.
    pub open spec fn s_bytes_spec(&self) -> Seq<u8> {
        self@.subrange(COMPONENT_SIZE as int, SIGNATURE_SIZE as int)
    }

    /// Size of an encoded Ed25519 signature in bytes.
    pub const BYTE_SIZE: usize = SIGNATURE_SIZE;

    /// Parse an Ed25519 signature from its `R` and `s` components.
    pub fn from_components(r: ComponentBytes, s: ComponentBytes) -> (sig: Self)
        ensures
            sig@ == wire_form(r@, s@),
            sig == signature_of(wire_form(r@, s@)),
    {
        let sig = Signature { r, s };
        proof {
            lemma_signature_of(sig@);
            lemma_view_injective(sig, signature_of(sig@));
        }
        sig
    }

    /// Parse an Ed25519 signature from its 64-byte wire form: the first 32
    /// bytes are `R`, the remaining 32 are `s`.
    pub fn from_bytes(bytes: &SignatureBytes) -> (sig: Self)
        ensures
            sig@ == bytes@,
            sig == signature_of(bytes@),
    {
        let mut r: ComponentBytes = [0u8; COMPONENT_SIZE];
        let mut s: ComponentBytes = [0u8; COMPONENT_SIZE];
        let mut i: usize = 0;
        while i < COMPONENT_SIZE
            invariant
                0 <= i <= COMPONENT_SIZE,
                forall|j: int| 0 <= j < i ==> r@[j] == bytes@[j],
                forall|j: int| 0 <= j < i ==> s@[j] == bytes@[COMPONENT_SIZE + j],
            decreases COMPONENT_SIZE - i,
        {
            r[i] = bytes[i];
            s[i] = bytes[COMPONENT_SIZE + i];
            i = i + 1;
        }
        assert(wire_form(r@, s@) =~= bytes@);
        let sig = Signature { r, s };
        proof {
            lemma_choices(sig, *bytes);
        }
        sig
    }

    /// Parse an Ed25519 signature from a byte slice, which must hold exactly
    /// 64 bytes; any other length is reported as an opaque error.
    pub fn from_slice(bytes: &[u8]) -> (res: Result<Self, Error>)
        ensures
            res is Ok <==> bytes@.len() == SIGNATURE_SIZE,
            res matches Ok(sig) ==> sig@ == bytes@ && sig == signature_of(bytes@),
    {
        if bytes.len() != SIGNATURE_SIZE {
            return Err(Error::new());
        }
        let mut wire: SignatureBytes = [0u8; SIGNATURE_SIZE];
        let mut i: usize = 0;
        while i < SIGNATURE_SIZE
            invariant
                0 <= i <= SIGNATURE_SIZE,
                bytes@.len() == SIGNATURE_SIZE,
                forall|j: int| 0 <= j < i ==> wire@[j] == bytes@[j],
            decreases SIGNATURE_SIZE - i,
        {
            wire[i] = bytes[i];
            i = i + 1;
        }
        assert(wire@ =~= bytes@);
        Ok(Signature::from_bytes(&wire))
    }

    /// Bytes for the `R` component of a signature.
    pub fn r_bytes(&self) -> (r: &ComponentBytes)
        ensures
            r@ == self@.subrange(0, COMPONENT_SIZE as int),
    {
        proof {
            lemma_wire_form_split(self.r@, self.s@);
        }
        &self.r
    }

    /// Bytes for the `s` component of a signature.
    pub fn s_bytes(&self) -> (s: &ComponentBytes)
        ensures
            s@ == self@.subrange(COMPONENT_SIZE as int, SIGNATURE_SIZE as int),
    {
        proof {
            lemma_wire_form_split(self.r@, self.s@);
        }
        &self.s
    }

    /// Return the 64-byte wire form: `R` followed by `s`.
    pub fn to_bytes(&self) -> (bytes: SignatureBytes)
        ensures
            bytes@ == self@,
            bytes == array_of(self@),
    {
        let mut ret: SignatureBytes = [0u8; SIGNATURE_SIZE];
        let mut i: usize = 0;
        while i < COMPONENT_SIZE
            invariant
                0 <= i <= COMPONENT_SIZE,
                forall|j: int| 0 <= j < i ==> ret@[j] == self.r@[j],
                forall|j: int| 0 <= j < i ==> ret@[COMPONENT_SIZE + j] == self.s@[j],
            decreases COMPONENT_SIZE - i,
        {
            ret[i] = self.r[i];
            ret[COMPONENT_SIZE + i] = self.s[i];
            i = i + 1;
        }
        assert(ret@ =~= wire_form(self.r@, self.s@));
        proof {
            lemma_choices(*self, ret);
        }
        ret
    }

    /// Convert this signature into a byte vector holding its wire form.
    pub fn to_vec(&self) -> (v: Vec<u8>)
        ensures
            v@ == self@,
    {
        let bytes = self.to_bytes();
        let mut v: Vec<u8> = Vec::with_capacity(SIGNATURE_SIZE);
        let mut i: usize = 0;
        while i < SIGNATURE_SIZE
            invariant
                0 <= i <= SIGNATURE_SIZE,
                bytes@ == self@,
                v@ == bytes@.subrange(0, i as int),
            decreases SIGNATURE_SIZE - i,
        {
            v.push(bytes[i]);
            i = i + 1;
        }
        assert(v@ =~= bytes@);
        v
    }

    /// The whole signature as one string of uppercase hexadecimal digits:
    /// 128 characters, those of `R` then those of `s`.
    pub fn display(&self) -> (text: String)
        ensures
            text@ == hex::hex_of(self@, true),
    {
        proof {
            hex::lemma_hex_of_concat(self.r@, self.s@, true);
        }
        let mut text = String::new();
        hex::push_hex(&mut text, &self.r, true);
        hex::push_hex(&mut text, &self.s, true);
        assert(text@ =~= hex::hex_of(self@, true));
        text
    }

    /// A diagnostic dump naming the two components, each in uppercase
    /// hexadecimal: `ed25519::Signature { R: .., s: .. }`.
    pub fn debug(&self) -> (text: String)
        ensures
            text@ == "ed25519::Signature { R: "@ + hex::hex_of(self.r_bytes_spec(), true) + ", s: "@
                + hex::hex_of(self.s_bytes_spec(), true) + " }"@,
    {
        proof {
            lemma_wire_form_split(self.r@, self.s@);
        }
        let mut text = String::from_str("ed25519::Signature { R: ");
        hex::push_hex(&mut text, &self.r, true);
        text.append(", s: ");
        hex::push_hex(&mut text, &self.s, true);
        text.append(" }");
        assert(text@ =~= "ed25519::Signature { R: "@ + hex::hex_of(self.r_bytes_spec(), true) + ", s: "@
            + hex::hex_of(self.s_bytes_spec(), true) + " }"@);
        text
    }
}

/// The signature whose wire form is `bytes`; for each 64-byte sequence there
/// is exactly one.
pub open spec fn signature_of(bytes: Seq<u8>) -> Signature {
    choose|sig: Signature| sig@ == bytes
}

/// The 64-byte array that holds `bytes`.
pub open spec fn array_of(bytes: Seq<u8>) -> SignatureBytes {
    choose|a: SignatureBytes| a@ == bytes
}

/// Two signatures with the same wire form are the same signature.
pub proof fn lemma_view_injective(a: Signature, b: Signature)
    ensures
        a@ == b@ <==> a == b,
{
    lemma_wire_form_split(a.r@, a.s@);
    lemma_wire_form_split(b.r@, b.s@);
    if a@ == b@ {
        assert(a.r =~= b.r);
        assert(a.s =~= b.s);
    }
}

/// Two arrays with the same bytes are the same array.
pub proof fn lemma_array_view_injective(a: SignatureBytes, b: SignatureBytes)
    ensures
        a@ == b@ <==> a == b,
{
    if a@ == b@ {
        assert(a =~= b);
    }
}

/// An array whose first `n` entries are those of `bytes`.
spec fn array_prefix<const N: usize>(bytes: Seq<u8>, n: nat) -> [u8; N]
    decreases n,
{
    if n == 0 {
        vstd::array::spec_array_fill_for_copy_type::<u8, N>(0)
    } else {
        vstd::array::spec_array_update(array_prefix::<N>(bytes, (n - 1) as nat), n - 1, bytes[n - 1])
    }
}

proof fn lemma_array_prefix<const N: usize>(bytes: Seq<u8>, n: nat)
    requires
        n <= N,
        bytes.len() == N,
    ensures
        forall|i: int| 0 <= i < n ==> #[trigger] array_prefix::<N>(bytes, n)@[i] == bytes[i],
    decreases n,
{
    if n > 0 {
        let prev = array_prefix::<N>(bytes, (n - 1) as nat);
        lemma_array_prefix::<N>(bytes, (n - 1) as nat);
        assert(array_prefix::<N>(bytes, n)@ == prev@.update(n - 1, bytes[n - 1]));
    }
}

/// Every byte sequence of length `N` is the view of some array.
proof fn lemma_array_exists<const N: usize>(bytes: Seq<u8>) -> (a: [u8; N])
    requires
        bytes.len() == N,
    ensures
        a@ == bytes,
{
    let a = array_prefix::<N>(bytes, N as nat);
    lemma_array_prefix::<N>(bytes, N as nat);
    assert(a@ =~= bytes);
    a
}

/// Every 64-byte sequence is the wire form of a signature, which
/// `signature_of` names.
pub proof fn lemma_signature_of(bytes: Seq<u8>)
    requires
        bytes.len() == SIGNATURE_SIZE,
    ensures
        signature_of(bytes)@ == bytes,
{
    let r = lemma_array_exists::<32>(bytes.subrange(0, COMPONENT_SIZE as int));
    let s = lemma_array_exists::<32>(bytes.subrange(COMPONENT_SIZE as int, SIGNATURE_SIZE as int));
    let sig = Signature { r, s };
    assert(sig@ =~= bytes);
}

/// Every 64-byte sequence is held by an array, which `array_of` names.
pub proof fn lemma_array_of(bytes: Seq<u8>)
    requires
        bytes.len() == SIGNATURE_SIZE,
    ensures
        array_of(bytes)@ == bytes,
{
    let a = lemma_array_exists::<64>(bytes);
}

/// `signature_of` and `array_of` give back what was stored.
proof fn lemma_choices(sig: Signature, bytes: SignatureBytes)
    requires
        sig@ == bytes@,
    ensures
        signature_of(bytes@) == sig,
        array_of(sig@) == bytes,
{
    let s = signature_of(bytes@);
    let a = array_of(sig@);
    lemma_view_injective(s, sig);
    lemma_array_view_injective(a, bytes);
}

/// Reading a signature from 64 bytes and writing it back gives the same 64
/// bytes: `to_bytes(from_bytes(b)) == b`.
pub proof fn lemma_bytes_round_trip(b: SignatureBytes)
    ensures
        signature_of(b@)@ == b@,
        array_of(signature_of(b@)@) == b,
{
    lemma_signature_of(b@);
    lemma_array_of(b@);
    lemma_array_view_injective(array_of(b@), b);
}

/// A signature built from components `r` and `s` hands back exactly `r` as
/// its `R` component and `s` as its `s` component.
pub proof fn lemma_components_round_trip(r: ComponentBytes, s: ComponentBytes)
    ensures
        signature_of(wire_form(r@, s@)).r_bytes_spec() == r@,
        signature_of(wire_form(r@, s@)).s_bytes_spec() == s@,
{
    lemma_wire_form_split(r@, s@);
    lemma_signature_of(wire_form(r@, s@));
}

/// Two signatures read from bytes are equal exactly when the bytes are.
pub proof fn lemma_equality_structural(b1: SignatureBytes, b2: SignatureBytes)
    ensures
        signature_of(b1@) == signature_of(b2@) <==> b1 == b2,
{
    lemma_signature_of(b1@);
    lemma_signature_of(b2@);
    lemma_array_view_injective(b1, b2);
}

/// The display form of a signature built from `r` and `s` is the 64
/// uppercase digits of `r` followed by the 64 of `s`.
pub proof fn lemma_display_components(r: ComponentBytes, s: ComponentBytes)
    ensures
        hex::hex_of(signature_of(wire_form(r@, s@))@, true) == hex::hex_of(r@, true) + hex::hex_of(
            s@,
            true,
        ),
        hex::hex_of(signature_of(wire_form(r@, s@))@, true).len() == 2 * SIGNATURE_SIZE,
{
    lemma_wire_form_split(r@, s@);
    lemma_signature_of(wire_form(r@, s@));
    hex::lemma_hex_of_concat(r@, s@, true);
    hex::lemma_hex_of_len(wire_form(r@, s@), true);
}

/// Whether two components hold the same bytes.
fn components_equal(a: &ComponentBytes, b: &ComponentBytes) -> (eq: bool)
    ensures
        eq == (a@ == b@),
{
    let mut i: usize = 0;
    while i < COMPONENT_SIZE
        invariant
            0 <= i <= COMPONENT_SIZE,
            forall|j: int| 0 <= j < i ==> a@[j] == b@[j],
        decreases COMPONENT_SIZE - i,
    {
        if a[i] != b[i] {
            return false;
        }
        i = i + 1;
    }
    assert(a@ =~= b@);
    true
}

/// Signatures are equal when their bytes are; the comparison is not
/// constant-time, as a signature is no secret.
impl PartialEq for Signature {
    fn eq(&self, other: &Signature) -> (eq: bool) {
        proof {
            lemma_wire_form_split(self.r@, self.s@);
            lemma_wire_form_split(other.r@, other.s@);
        }
        components_equal(&self.r, &other.r) && components_equal(&self.s, &other.s)
    }
}

impl vstd::std_specs::cmp::PartialEqSpecImpl for Signature {
    open spec fn obeys_eq_spec() -> bool {
        true
    }

    open spec fn eq_spec(&self, other: &Signature) -> bool {
        self@ == other@
    }
}

impl SignatureEncoding for Signature {
    type Repr = SignatureBytes;

    fn to_bytes(&self) -> (bytes: SignatureBytes)
        ensures
            bytes@ == self@,
            bytes == array_of(self@),
    {
        Signature::to_bytes(self)
    }
}

impl From<Signature> for SignatureBytes {
    fn from(sig: Signature) -> (bytes: SignatureBytes) {
        let bytes = sig.to_bytes();
        proof {
            lemma_choices(sig, bytes);
        }
        bytes
    }
}

impl vstd::std_specs::convert::FromSpecImpl<Signature> for SignatureBytes {
    open spec fn obeys_from_spec() -> bool {
        true
    }

    open spec fn from_spec(sig: Signature) -> SignatureBytes {
        array_of(sig@)
    }
}

impl From<&Signature> for SignatureBytes {
    fn from(sig: &Signature) -> (bytes: SignatureBytes) {
        let bytes = sig.to_bytes();
        proof {
            lemma_choices(*sig, bytes);
        }
        bytes
    }
}

impl vstd::std_specs::convert::FromSpecImpl<&Signature> for SignatureBytes {
    open spec fn obeys_from_spec() -> bool {
        true
    }

    open spec fn from_spec(sig: &Signature) -> SignatureBytes {
        array_of(sig@)
    }
}

impl From<SignatureBytes> for Signature {
    fn from(bytes: SignatureBytes) -> (sig: Signature) {
        let sig = Signature::from_bytes(&bytes);
        proof {
            lemma_choices(sig, bytes);
        }
        sig
    }
}

impl vstd::std_specs::convert::FromSpecImpl<SignatureBytes> for Signature {
    open spec fn obeys_from_spec() -> bool {
        true
    }

    open spec fn from_spec(bytes: SignatureBytes) -> Signature {
        signature_of(bytes@)
    }
}

impl From<&SignatureBytes> for Signature {
    fn from(bytes: &SignatureBytes) -> (sig: Signature) {
        let sig = Signature::from_bytes(bytes);
        proof {
            lemma_choices(sig, *bytes);
        }
        sig
    }
}

impl vstd::std_specs::convert::FromSpecImpl<&SignatureBytes> for Signature {
    open spec fn obeys_from_spec() -> bool {
        true
    }

    open spec fn from_spec(bytes: &SignatureBytes) -> Signature {
        signature_of(bytes@)
    }
}

impl TryFrom<&[u8]> for Signature {
    type Error = Error;

    fn try_from(bytes: &[u8]) -> (res: Result<Signature, Error>)
        ensures
            res is Ok <==> bytes@.len() == SIGNATURE_SIZE,
            res matches Ok(sig) ==> sig@ == bytes@ && sig == signature_of(bytes@),
    {
        Signature::from_slice(bytes)
    }
}

/// `try_from` is `from_slice`, and its own contract says when it succeeds and
/// with what. The error it returns holds nothing that tells one error value
/// from another, so the exact-result form of std's contract is not claimed.
impl vstd::std_specs::convert::TryFromSpecImpl<&[u8]> for Signature {
    open spec fn obeys_try_from_spec() -> bool {
        false
    }

    open spec fn try_from_spec(bytes: &[u8]) -> Result<Signature, Error> {
        if bytes@.len() == SIGNATURE_SIZE {
            Ok(signature_of(bytes@))
        } else {
            Err(vstd::pervasive::arbitrary())
        }
    }
}

} // verus!
