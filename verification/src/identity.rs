use vstd::prelude::*;
use vstd::string::StrSliceExecFns;

verus! {

/// A lowercase hexadecimal digit: the only characters a canonical identity
/// string may hold besides its four hyphens.
pub open spec fn is_lower_hex_digit(c: char) -> bool {
    (48 <= c as u32 && c as u32 <= 57) || (97 <= c as u32 && c as u32 <= 102)
}

/// The four positions at which a canonical identity string holds a hyphen.
pub open spec fn is_hyphen_position(i: int) -> bool {
    i == 8 || i == 13 || i == 18 || i == 23
}

/// The canonical rendering of a project identity: a 128-bit UUID written as
/// exactly 36 characters, lowercase hexadecimal, with hyphens at positions
/// 8, 13, 18 and 23. This is the only representation ever persisted or
/// compared, and the only string accepted at the boundary where an identity
/// is constructed.
pub open spec fn is_canonical_uuid(s: Seq<char>) -> bool {
    &&& s.len() == 36
    &&& forall|i: int| 0 <= i < 36 && is_hyphen_position(i) ==> #[trigger] s[i] == '-'
    &&& forall|i: int| 0 <= i < 36 && !is_hyphen_position(i) ==> is_lower_hex_digit(#[trigger] s[i])
}

/// Decides whether `s` is a canonical identity string.
pub fn check_canonical_uuid(s: &str) -> (r: bool)
    ensures
        r == is_canonical_uuid(s@),
{
    let n = s.unicode_len();
    if n != 36 {
        return false;
    }
    let mut i: usize = 0;
    while i < 36
        invariant
            s@.len() == 36,
            i <= 36,
            forall|j: int| 0 <= j < i && is_hyphen_position(j) ==> #[trigger] s@[j] == '-',
            forall|j: int| 0 <= j < i && !is_hyphen_position(j) ==> is_lower_hex_digit(
                #[trigger] s@[j],
            ),
        decreases 36 - i,
    {
        let c = s.get_char(i);
        let u = c as u32;
        if i == 8 || i == 13 || i == 18 || i == 23 {
            if c != '-' {
                return false;
            }
        } else {
            if !((48 <= u && u <= 57) || (97 <= u && u <= 102)) {
                return false;
            }
        }
        i += 1;
    }
    true
}

/// The opaque, stable identity of one project: a UUID in its canonical
/// lowercase hyphenated rendering. It is the sole join key between a
/// project and its secrets directory, so a value of this type can only be
/// built from a string already in canonical form.
pub struct DevSecretsId {
    id: String,
}

impl View for DevSecretsId {
    type V = Seq<char>;

    closed spec fn view(&self) -> Seq<char> {
        self.id@
    }
}

/// The declaration of `uuid::Uuid`, so that values of it may pass through
/// signatures; the library never looks inside one.
#[verifier::external_type_specification]
#[verifier::external_body]
pub struct ExUuid(uuid::Uuid);

/// Relies on `uuid::Uuid::new_v4`: draws a fresh random UUID. Nothing can
/// be promised of a random value.
pub assume_specification[ uuid::Uuid::new_v4 ]() -> uuid::Uuid;

/// Relies on `uuid::fmt::Hyphenated` (via `Uuid::as_hyphenated` and
/// `ToString`): a UUID renders as exactly 36 characters, lowercase
/// hexadecimal with hyphens at positions 8, 13, 18 and 23.
#[verifier::external_body]
fn hyphenated_lower(u: &uuid::Uuid) -> (r: String)
    ensures
        is_canonical_uuid(r@),
{
    u.as_hyphenated().to_string()
}

impl DevSecretsId {
    #[verifier::type_invariant]
    spec fn canonical(self) -> bool {
        is_canonical_uuid(self.id@)
    }

    /// Generates a brand-new identity from a fresh random UUID.
    pub fn new_unique() -> (r: DevSecretsId)
        ensures
            is_canonical_uuid(r@),
    {
        let u = uuid::Uuid::new_v4();
        DevSecretsId::from_uuid(u)
    }

    /// Wraps an already-parsed UUID value, rendering it canonically.
    pub fn from_uuid(u: uuid::Uuid) -> (r: DevSecretsId)
        ensures
            is_canonical_uuid(r@),
    {
        DevSecretsId { id: hyphenated_lower(&u) }
    }

    /// Accepts a string as an identity exactly when it is already in
    /// canonical form; every other string is rejected at this boundary, so
    /// a non-canonical name can never be used as a directory key.
    pub fn from_canonical(s: &str) -> (r: Option<DevSecretsId>)
        ensures
            r is Some <==> is_canonical_uuid(s@),
            r matches Some(id) ==> id@ == s@,
    {
        if check_canonical_uuid(s) {
            Some(DevSecretsId { id: s.to_owned() })
        } else {
            None
        }
    }

    /// The canonical identity string.
    pub fn id_str(&self) -> (r: &str)
        ensures
            r@ == self@,
            is_canonical_uuid(self@),
    {
        proof {
            use_type_invariant(self);
        }
        self.id.as_str()
    }
}

} // verus!
