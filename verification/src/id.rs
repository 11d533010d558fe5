//! Typed identifiers with a canonical string form.
//!
//! An identifier renders as 36 characters: five groups of lowercase
//! hexadecimal digits of lengths 8, 4, 4, 4 and 12, separated by hyphens.
//! Parsing accepts exactly the strings of that shape, so rendering and
//! parsing are inverse of each other. Wrapping the same underlying form in
//! distinct types keeps a book identifier from being mistaken for a user
//! identifier.

use vstd::prelude::*;
use vstd::string::StrSliceExecFns;

use crate::errors::AppError;

verus! {

/// The character is one of the lowercase hexadecimal digits `0`-`9`, `a`-`f`.
pub open spec fn is_lower_hex_char(c: char) -> bool {
    (48 <= c as u32 && c as u32 <= 57) || (97 <= c as u32 && c as u32 <= 102)
}

/// Positions of the group separators in the canonical 36-character form.
pub open spec fn is_separator_pos(i: int) -> bool {
    i == 8 || i == 13 || i == 18 || i == 23
}

/// The canonical form of an identifier: 36 characters, a hyphen at each
/// separator position and a lowercase hexadecimal digit everywhere else.
pub open spec fn is_valid_id_seq(s: Seq<char>) -> bool {
    &&& s.len() == 36
    &&& forall|i: int| 0 <= i < 36 && is_separator_pos(i) ==> #[trigger] s[i] == '-'
    &&& forall|i: int| 0 <= i < 36 && !is_separator_pos(i) ==> is_lower_hex_char(#[trigger] s[i])
}

/// Decides whether a string is in the canonical identifier form.
pub fn check_id_str(s: &str) -> (r: bool)
    ensures
        r == is_valid_id_seq(s@),
{
    let n = s.unicode_len();
    if n != 36 {
        return false;
    }
    let mut i: usize = 0;
    while i < 36
        invariant
            s@.len() == 36,
            i <= 36,
            forall|j: int| 0 <= j < i && is_separator_pos(j) ==> #[trigger] s@[j] == '-',
            forall|j: int| 0 <= j < i && !is_separator_pos(j) ==> is_lower_hex_char(#[trigger] s@[j]),
        decreases 36 - i,
    {
        let c = s.get_char(i);
        if i == 8 || i == 13 || i == 18 || i == 23 {
            if c != '-' {
                return false;
            }
        } else {
            let cu = c as u32;
            if !((48 <= cu && cu <= 57) || (97 <= cu && cu <= 102)) {
                return false;
            }
        }
        i = i + 1;
    }
    true
}

/// Relies on `uuid::Uuid::new_v4` and the `Display` impl of `uuid::Uuid`:
/// a fresh version-4 identifier rendered in the hyphenated, lowercase
/// hexadecimal form (36 characters, hyphens after the 8th, 12th, 16th and
/// 20th digit). Nothing is claimed about which identifier comes back.
#[verifier::external_body]
fn fresh_id_string() -> (r: String)
    ensures
        is_valid_id_seq(r@),
{
    uuid::Uuid::new_v4().to_string()
}

/// A user's identifier. Always holds a string in the canonical form.
#[derive(Debug)]
pub struct UserId {
    repr: String,
}

impl View for UserId {
    type V = Seq<char>;

    closed spec fn view(&self) -> Seq<char> {
        self.repr@
    }
}

impl UserId {
    /// Every user identifier holds a canonical-form string.
    #[verifier::type_invariant]
    spec fn wf(self) -> bool {
        is_valid_id_seq(self.repr@)
    }

    /// A freshly generated identifier.
    pub fn new() -> (r: UserId)
        ensures
            is_valid_id_seq(r@),
    {
        let repr = fresh_id_string();
        UserId { repr }
    }

    /// Parses the canonical string form. Succeeds exactly on strings in
    /// that form; everything else is a conversion error.
    pub fn from_str(s: &str) -> (r: Result<UserId, AppError>)
        ensures
            r is Ok <==> is_valid_id_seq(s@),
            r is Ok ==> r->Ok_0@ == s@,
            r is Err ==> r->Err_0 is ConversionEntityError,
    {
        if check_id_str(s) {
            Ok(UserId { repr: s.to_owned() })
        } else {
            Err(AppError::ConversionEntityError("not a canonical user id".to_owned()))
        }
    }

    /// The canonical string form. Round-trip law: the result is itself in
    /// the canonical form, so `from_str` accepts it and returns an
    /// identifier whose view equals this one's.
    pub fn to_string(&self) -> (r: String)
        ensures
            r@ == self@,
            is_valid_id_seq(r@),
    {
        proof {
            use_type_invariant(self);
        }
        self.repr.clone()
    }
}

impl Clone for UserId {
    fn clone(&self) -> (r: UserId)
        ensures
            r == *self,
    {
        proof {
            use_type_invariant(self);
        }
        UserId { repr: self.repr.clone() }
    }
}

impl PartialEq for UserId {
    fn eq(&self, other: &UserId) -> (r: bool) {
        self.repr == other.repr
    }
}

impl vstd::std_specs::cmp::PartialEqSpecImpl for UserId {
    open spec fn obeys_eq_spec() -> bool {
        true
    }

    open spec fn eq_spec(&self, other: &UserId) -> bool {
        self@ == other@
    }
}

/// A book's identifier. Always holds a string in the canonical form.
#[derive(Debug)]
pub struct BookId {
    repr: String,
}

impl View for BookId {
    type V = Seq<char>;

    closed spec fn view(&self) -> Seq<char> {
        self.repr@
    }
}

impl BookId {
    /// Every book identifier holds a canonical-form string.
    #[verifier::type_invariant]
    spec fn wf(self) -> bool {
        is_valid_id_seq(self.repr@)
    }

    /// A freshly generated identifier.
    pub fn new() -> (r: BookId)
        ensures
            is_valid_id_seq(r@),
    {
        let repr = fresh_id_string();
        BookId { repr }
    }

    /// Parses the canonical string form. Succeeds exactly on strings in
    /// that form; everything else is a conversion error.
    pub fn from_str(s: &str) -> (r: Result<BookId, AppError>)
        ensures
            r is Ok <==> is_valid_id_seq(s@),
            r is Ok ==> r->Ok_0@ == s@,
            r is Err ==> r->Err_0 is ConversionEntityError,
    {
        if check_id_str(s) {
            Ok(BookId { repr: s.to_owned() })
        } else {
            Err(AppError::ConversionEntityError("not a canonical book id".to_owned()))
        }
    }

    /// The canonical string form. Round-trip law: the result is itself in
    /// the canonical form, so `from_str` accepts it and returns an
    /// identifier whose view equals this one's.
    pub fn to_string(&self) -> (r: String)
        ensures
            r@ == self@,
            is_valid_id_seq(r@),
    {
        proof {
            use_type_invariant(self);
        }
        self.repr.clone()
    }
}

impl Clone for BookId {
    fn clone(&self) -> (r: BookId)
        ensures
            r == *self,
    {
        proof {
            use_type_invariant(self);
        }
        BookId { repr: self.repr.clone() }
    }
}

impl PartialEq for BookId {
    fn eq(&self, other: &BookId) -> (r: bool) {
        self.repr == other.repr
    }
}

impl vstd::std_specs::cmp::PartialEqSpecImpl for BookId {
    open spec fn obeys_eq_spec() -> bool {
        true
    }

    open spec fn eq_spec(&self, other: &BookId) -> bool {
        self@ == other@
    }
}

} // verus!
