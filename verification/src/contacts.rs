//! Contact lists with two phone numbers per entry, validated offline.

use vstd::prelude::*;
use vstd::string::*;
use crate::offline_validation::{is_valid_number, us_number_valid};
use crate::{clone_text, text_of};

verus! {

/// An entry of a contact list.
#[derive(Debug)]
pub struct Contact {
    pub entity_id: String,
    pub internal_id: String,
    pub main_phone: Option<String>,
    pub office_phone: Option<String>,
}

/// What a contact is, as mathematics.
pub struct ContactView {
    pub entity_id: Seq<char>,
    pub internal_id: Seq<char>,
    pub main_phone: Option<Seq<char>>,
    pub office_phone: Option<Seq<char>>,
}

impl View for Contact {
    type V = ContactView;

    open spec fn view(&self) -> ContactView {
        ContactView {
            entity_id: self.entity_id@,
            internal_id: self.internal_id@,
            main_phone: text_of(self.main_phone),
            office_phone: text_of(self.office_phone),
        }
    }
}

impl Clone for Contact {
    fn clone(&self) -> (r: Self)
        ensures
            r == *self,
    {
        Contact {
            entity_id: self.entity_id.clone(),
            internal_id: self.internal_id.clone(),
            main_phone: clone_text(&self.main_phone),
            office_phone: clone_text(&self.office_phone),
        }
    }
}

/// The views of a list of contacts, in order.
pub open spec fn contacts_view(contacts: Seq<Contact>) -> Seq<ContactView> {
    contacts.map_values(|c: Contact| c@)
}

/// A phone number that is not given passes; one that is given passes where it
/// is valid.
pub open spec fn phone_passes(phone: Option<Seq<char>>) -> bool {
    match phone {
        Some(text) => us_number_valid(text),
        None => true,
    }
}

/// A contact is valid where both of its phone numbers pass.
pub open spec fn contact_valid(contact: ContactView) -> bool {
    phone_passes(contact.main_phone) && phone_passes(contact.office_phone)
}

/// The contacts that are not valid, in the order of the input.
pub open spec fn invalid_contacts(contacts: Seq<ContactView>) -> Seq<ContactView> {
    contacts.filter(|c: ContactView| !contact_valid(c))
}

/// Whether an optional phone number passes.
pub fn is_valid_optional_number(phone: &Option<String>) -> (r: bool)
    ensures
        r == phone_passes(text_of(*phone)),
{
    match phone {
        Some(text) => is_valid_number(text.as_str()),
        None => true,
    }
}

/// Whether both phone numbers of a contact pass.
pub fn is_valid_contact(contact: &Contact) -> (r: bool)
    ensures
        r == contact_valid(contact@),
{
    is_valid_optional_number(&contact.main_phone) && is_valid_optional_number(
        &contact.office_phone,
    )
}

/// The contacts with a phone number that does not pass, unchanged and in the
/// order of the input.
pub fn get_invalid_contacts(contacts: Vec<Contact>) -> (r: Vec<Contact>)
    ensures
        contacts_view(r@) == invalid_contacts(contacts_view(contacts@)),
{
    let ghost input = contacts_view(contacts@);
    let ghost fails = |c: ContactView| !contact_valid(c);
    let mut kept: Vec<Contact> = Vec::new();
    let mut i: usize = 0;
    while i < contacts.len()
        invariant
            i <= contacts@.len(),
            input == contacts_view(contacts@),
            fails == |c: ContactView| !contact_valid(c),
            contacts_view(kept@) == input.take(i as int).filter(fails),
        decreases contacts@.len() - i,
    {
        let ghost before = contacts_view(kept@);
        proof {
            assert(input.take(i + 1).drop_last() =~= input.take(i as int));
            assert(input.take(i + 1).last() == contacts@[i as int]@);
            reveal_with_fuel(Seq::filter, 2);
        }
        if !is_valid_contact(&contacts[i]) {
            let contact = contacts[i].clone();
            kept.push(contact);
            assert(contacts_view(kept@) =~= before.push(contact@));
        } else {
            assert(contacts_view(kept@) =~= before);
        }
        i += 1;
    }
    proof {
        assert(input.take(i as int) =~= input);
    }
    kept
}

} // verus!
