use vstd::prelude::*;
use vstd::std_specs::cmp::PartialEqSpecImpl;

verus! {

/// What a field has to offer to be searched by.
pub trait RecordCheck: PartialEq + Default + core::fmt::Display {

}

impl<T> RecordCheck for T where T: PartialEq + Default + core::fmt::Display {

}

/// A record as a value: the text of its three fields.
pub struct RecordView {
    pub uuid: Seq<char>,
    pub model: Seq<char>,
    pub attributes: Seq<char>,
}

/// One stored item: an identifier, a free-form category and a payload that
/// the store never looks into.
#[derive(Debug, Hash)]
pub struct Record {
    pub uuid: String,
    pub model: String,
    pub attributes: String,
}

impl View for Record {
    type V = RecordView;

    open spec fn view(&self) -> RecordView {
        RecordView { uuid: self.uuid@, model: self.model@, attributes: self.attributes@ }
    }
}

impl PartialEq for Record {
    /// Two records are equal when all three fields hold the same text.
    fn eq(&self, other: &Self) -> (r: bool) {
        self.uuid == other.uuid && self.model == other.model && self.attributes
            == other.attributes
    }
}

impl Eq for Record {

}

impl PartialEqSpecImpl for Record {
    open spec fn obeys_eq_spec() -> bool {
        true
    }

    open spec fn eq_spec(&self, other: &Self) -> bool {
        self@ == other@
    }
}

impl Clone for Record {
    fn clone(&self) -> (r: Self)
        ensures
            r == *self,
    {
        Record {
            uuid: self.uuid.clone(),
            model: self.model.clone(),
            attributes: self.attributes.clone(),
        }
    }
}

/// A digit of lower-case hexadecimal.
pub open spec fn is_lower_hex(c: char) -> bool {
    ('0' <= c && c <= '9') || ('a' <= c && c <= 'f')
}

/// The canonical text of a random identifier: 36 characters, five groups of
/// lower-case hexadecimal digits parted by hyphens, the version digit `4` and
/// a variant digit from `8` to `b`.
pub open spec fn is_random_uuid_text(s: Seq<char>) -> bool {
    &&& s.len() == 36
    &&& forall|i: int|
        0 <= i < 36 ==> if i == 8 || i == 13 || i == 18 || i == 23 {
            s[i] == '-'
        } else {
            is_lower_hex(#[trigger] s[i])
        }
    &&& s[14] == '4'
    &&& (s[19] == '8' || s[19] == '9' || s[19] == 'a' || s[19] == 'b')
}

/// `uuid::Uuid::new_v4` followed by `to_string`: sixteen random bytes with the
/// version and variant bits set, written in the hyphenated lower-case form.
/// Nothing is claimed of which identifier comes out, only of its shape.
#[verifier::external_body]
fn random_uuid_text() -> (text: String)
    ensures
        is_random_uuid_text(text@),
{
    uuid::Uuid::new_v4().to_string()
}

impl Record {
    /// A record of the given model with a fresh identifier and no attributes.
    pub fn new(model: String) -> (r: Self)
        ensures
            r.model == model,
            r.attributes@ == Seq::<char>::empty(),
            is_random_uuid_text(r.uuid@),
    {
        let uuid = random_uuid_text();
        Record { uuid, model, attributes: String::new() }
    }
}

} // verus!
