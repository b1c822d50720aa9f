//! Identifiers tagged with the kind of entity they name.

use std::marker::PhantomData;
use vstd::arithmetic::power::pow;
use vstd::prelude::*;
use vstd::std_specs::cmp::PartialEqSpecImpl;

verus! {

/// What `uuid::Uuid::parse_str` makes of a text: the 128-bit value it reads,
/// or `None` where it rejects the text.
pub uninterp spec fn uuid_parse(text: Seq<char>) -> Option<u128>;

/// The sixteen lower-case hexadecimal digits, each at the index of its value.
pub open spec fn hex_digits() -> Seq<char> {
    seq!['0', '1', '2', '3', '4', '5', '6', '7', '8', '9', 'a', 'b', 'c', 'd', 'e', 'f']
}

/// The `k`-th of the 32 hexadecimal digits of `value`, the most significant first.
pub open spec fn hex_digit_at(value: u128, k: int) -> char {
    hex_digits()[(value as int / pow(16, (31 - k) as nat)) % 16]
}

/// How many hyphens the hyphenated form has before position `i`.
pub open spec fn hyphens_before(i: int) -> int {
    if i > 23 {
        4
    } else if i > 18 {
        3
    } else if i > 13 {
        2
    } else if i > 8 {
        1
    } else {
        0
    }
}

/// The hyphenated lower-case form of a 128-bit value: 32 hexadecimal digits
/// in groups of 8, 4, 4, 4 and 12, with a hyphen between two groups.
pub open spec fn hyphenated_text(value: u128) -> Seq<char> {
    Seq::new(
        36,
        |i: int|
            if i == 8 || i == 13 || i == 18 || i == 23 {
                '-'
            } else {
                hex_digit_at(value, i - hyphens_before(i))
            },
    )
}

/// Whether a 128-bit value is laid out as a version 7 identifier: the
/// version field, the four bits from bit 76 up, holds 7, and the variant
/// field, the two bits from bit 62 up, holds the bits 1 and 0.
pub open spec fn is_version_7(value: u128) -> bool {
    (value >> 76u128) & 0xfu128 == 7u128 && (value >> 62u128) & 0x3u128 == 2u128
}

/// Calls `uuid::Uuid::now_v7`. The value depends on the clock and on random
/// bits. Claimed of every outcome: it is laid out as a version 7
/// identifier, since the crate writes the version and the variant into the
/// value whatever the clock and the random bits are.
#[verifier::external_body]
fn fresh_value() -> (value: u128)
    ensures
        is_version_7(value),
{
    uuid::Uuid::now_v7().as_u128()
}

/// Calls `uuid::Uuid::to_string` on the identifier with the given value.
/// Claimed: the text is the hyphenated lower-case form of the value, and
/// `uuid::Uuid::parse_str` reads the value back from it.
#[verifier::external_body]
fn text_of_value(value: u128) -> (text: String)
    ensures
        text@ == hyphenated_text(value),
        uuid_parse(text@) == Some(value),
{
    uuid::Uuid::from_u128(value).to_string()
}

/// Calls `uuid::Uuid::parse_str`. Claimed: the result is a function of the
/// text alone, named `uuid_parse`.
#[verifier::external_body]
fn parse_value(text: &str) -> (value: Option<u128>)
    ensures
        value == uuid_parse(text@),
{
    match uuid::Uuid::parse_str(text) {
        Ok(parsed) => Some(parsed.as_u128()),
        Err(_) => None,
    }
}

/// Tag of identifiers that name workspaces.
#[derive(Clone, Copy, Debug, PartialEq, Eq, Hash)]
pub struct WorkspaceMarker;

/// Tag of identifiers that name tabs.
#[derive(Clone, Copy, Debug, PartialEq, Eq, Hash)]
pub struct TabMarker;

/// A 128-bit identifier tagged with the kind `T` of the entity it names.
///
/// Two identifiers of one kind are the same exactly when their values are.
/// Identifiers of different kinds are different types.
#[derive(Debug, Hash)]
pub struct Id<T> {
    phantom: PhantomData<T>,
    value: u128,
}

impl<T> Clone for Id<T> {
    fn clone(&self) -> (copy: Self)
        ensures
            copy == *self,
    {
        *self
    }
}

impl<T> Copy for Id<T> {

}

impl<T> PartialEq for Id<T> {
    fn eq(&self, other: &Self) -> (equal: bool) {
        self.value == other.value
    }
}

impl<T> Eq for Id<T> {

}

impl<T> PartialEqSpecImpl for Id<T> {
    open spec fn obeys_eq_spec() -> bool {
        true
    }

    open spec fn eq_spec(&self, other: &Self) -> bool {
        self@ == other@
    }
}

impl<T> Default for Id<T> {
    /// A fresh identifier, as `generate` gives it: a version 7 identifier,
    /// and so never the reserved identifier with the value zero.
    fn default() -> (id: Self)
        ensures
            is_version_7(id@),
            id@ != 0,
    {
        Id::generate()
    }
}

impl<T> View for Id<T> {
    type V = u128;

    closed spec fn view(&self) -> u128 {
        self.value
    }
}

impl<T> Id<T> {
    /// The identifier of kind `T` with the given value.
    pub fn from_value(value: u128) -> (id: Self)
        ensures
            id@ == value,
            id == id_of::<T>(value),
    {
        Id { phantom: PhantomData, value }
    }

    /// The 128-bit value of the identifier.
    pub fn value(&self) -> (value: u128)
        ensures
            value == self@,
    {
        self.value
    }

    /// Whether two identifiers of the same kind have the same value.
    pub fn same(&self, other: &Self) -> (equal: bool)
        ensures
            equal == (self@ == other@),
    {
        self.value == other.value
    }

    /// A fresh identifier, drawn from the clock and from random bits. It is
    /// a version 7 identifier, and so never the reserved identifier with
    /// the value zero.
    pub fn generate() -> (id: Self)
        ensures
            is_version_7(id@),
            id@ != 0,
    {
        let value = fresh_value();
        assert(value != 0) by (bit_vector)
            requires
                (value >> 76u128) & 0xfu128 == 7u128,
        ;
        Id { phantom: PhantomData, value }
    }

    /// The hyphenated lower-case text of the identifier, as it names a
    /// directory on disk.
    pub fn to_text(&self) -> (text: String)
        ensures
            text@ == hyphenated_text(self@),
            uuid_parse(text@) == Some(self@),
    {
        text_of_value(self.value)
    }

    /// Reads an identifier from a text, in any of the forms that
    /// `uuid_parse` accepts.
    pub fn parse(text: &str) -> (id: Option<Self>)
        ensures
            match id {
                Some(id) => uuid_parse(text@) == Some(id@),
                None => uuid_parse(text@) is None,
            },
    {
        match parse_value(text) {
            Some(value) => Some(Id { phantom: PhantomData, value }),
            None => None,
        }
    }

    /// Identifiers of one kind with the same value are the same identifier.
    pub proof fn lemma_value_determines_id(a: Self, b: Self)
        requires
            a@ == b@,
        ensures
            a == b,
    {
    }
}

/// The identifier of kind `T` with the given value.
pub closed spec fn id_of<T>(value: u128) -> Id<T> {
    Id { phantom: PhantomData, value }
}

/// The identifier made of a value has that value.
pub broadcast proof fn lemma_id_of_value<T>(value: u128)
    ensures
        #[trigger] id_of::<T>(value)@ == value,
{
}

/// An identifier is the one made of its value.
pub broadcast proof fn lemma_id_of_view<T>(id: Id<T>)
    ensures
        #[trigger] id_of::<T>(id@) == id,
{
}

pub broadcast group group_id {
    lemma_id_of_value,
    lemma_id_of_view,
}

/// The values of a sequence of identifiers, in the same order.
pub open spec fn id_values<T>(ids: Seq<Id<T>>) -> Seq<u128> {
    ids.map_values(|id: Id<T>| id@)
}

/// A copy of a list of identifiers.
pub fn copy_ids<T>(ids: &Vec<Id<T>>) -> (copy: Vec<Id<T>>)
    ensures
        copy@ == ids@,
{
    let mut copy: Vec<Id<T>> = Vec::new();
    let mut index: usize = 0;
    while index < ids.len()
        invariant
            index <= ids.len(),
            copy@ == ids@.take(index as int),
        decreases ids.len() - index,
    {
        copy.push(ids[index]);
        proof {
            assert(ids@.take(index + 1) =~= ids@.take(index as int).push(ids@[index as int]));
        }
        index += 1;
    }
    proof {
        assert(ids@.take(index as int) =~= ids@);
    }
    copy
}

impl Id<WorkspaceMarker> {
    /// The reserved identifier of the home workspace kind: the value zero.
    pub fn home() -> (id: Self)
        ensures
            id@ == 0,
    {
        Id { phantom: PhantomData, value: 0 }
    }
}

} // verus!
