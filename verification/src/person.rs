//! The person record and the validated payload that creates one.
//!
//! A `Person` is the stored entity; a `NewPerson` carries already-validated
//! input into the registry. Both are modelled by ghost views over plain
//! sequences, and a stored record is always well formed: its free-text
//! fields are within their bounds and its birthdate is a valid date.

use crate::date::Date;
use crate::validate::Name;
use crate::validate::Nick;
use crate::validate::Tech;
use crate::validate::NAME_MAX;
use crate::validate::TECH_MAX;
use crate::validate::within;
use vstd::prelude::*;

verus! {

/// Mathematical model of a stored person record.
pub ghost struct PersonView {
    pub id: u128,
    pub name: Seq<char>,
    pub nick: Seq<char>,
    pub birthdate: Date,
    pub stack: Option<Seq<Seq<char>>>,
}

impl PersonView {
    /// The record invariant: every free-text field is within its bound and
    /// the birthdate is a valid calendar date.
    pub open spec fn wf(self) -> bool {
        &&& within(self.name, NAME_MAX as int)
        &&& within(self.nick, NAME_MAX as int)
        &&& self.birthdate.valid()
        &&& match self.stack {
            Some(entries) => forall|i: int|
                0 <= i < entries.len() ==> within(#[trigger] entries[i], TECH_MAX as int),
            None => true,
        }
    }
}

/// A stored person record. `stack` distinguishes "no stack recorded"
/// (`None`) from an empty stack (`Some` of an empty list).
pub struct Person {
    pub id: u128,
    pub name: String,
    pub nick: String,
    pub birthdate: Date,
    pub stack: Option<Vec<String>>,
}

impl View for Person {
    type V = PersonView;

    open spec fn view(&self) -> PersonView {
        PersonView {
            id: self.id,
            name: self.name@,
            nick: self.nick@,
            birthdate: self.birthdate,
            stack: match self.stack {
                Some(entries) => Some(entries.deep_view()),
                None => None,
            },
        }
    }
}

impl Person {
    /// A fresh copy of the record, equal to it field for field.
    pub fn duplicate(&self) -> (r: Person)
        ensures
            r@ == self@,
    {
        let stack = match &self.stack {
            Some(entries) => Some(clone_strings(entries)),
            None => None,
        };
        Person {
            id: self.id,
            name: self.name.clone(),
            nick: self.nick.clone(),
            birthdate: self.birthdate,
            stack,
        }
    }
}

/// Element-wise copy of a list of texts, preserving every text.
fn clone_strings(v: &Vec<String>) -> (r: Vec<String>)
    ensures
        r.deep_view() == v.deep_view(),
{
    let mut out: Vec<String> = Vec::new();
    let n = v.len();
    for i in 0..n
        invariant
            n == v.len(),
            out.len() == i,
            forall|j: int| 0 <= j < i ==> (#[trigger] out@[j])@ == v@[j]@,
    {
        out.push(v[i].clone());
    }
    proof {
        assert(out.deep_view() =~= v.deep_view());
    }
    out
}

/// Mathematical model of a validated create payload.
pub ghost struct NewPersonView {
    pub name: Seq<char>,
    pub nick: Seq<char>,
    pub birthdate: Date,
    pub stack: Option<Seq<Seq<char>>>,
}

impl NewPersonView {
    /// Validity carried over from the validated input types.
    pub open spec fn wf(self) -> bool {
        &&& within(self.name, NAME_MAX as int)
        &&& within(self.nick, NAME_MAX as int)
        &&& self.birthdate.valid()
        &&& match self.stack {
            Some(entries) => forall|i: int|
                0 <= i < entries.len() ==> within(#[trigger] entries[i], TECH_MAX as int),
            None => true,
        }
    }
}

/// The validated payload accepted by the registry's insert operation.
/// Its text fields can only come out of the validating conversions, so a
/// `NewPerson` with a valid birthdate is well formed by construction.
pub struct NewPerson {
    pub name: Name,
    pub nick: Nick,
    pub birthdate: Date,
    pub stack: Option<Vec<Tech>>,
}

impl View for NewPerson {
    type V = NewPersonView;

    open spec fn view(&self) -> NewPersonView {
        NewPersonView {
            name: self.name@,
            nick: self.nick@,
            birthdate: self.birthdate,
            stack: match self.stack {
                Some(entries) => Some(entries.deep_view()),
                None => None,
            },
        }
    }
}

/// The record that the registry assembles from a payload and a fresh
/// identifier: the identifier plus the payload's fields, unchanged.
pub open spec fn assembled(id: u128, np: NewPersonView) -> PersonView {
    PersonView { id, name: np.name, nick: np.nick, birthdate: np.birthdate, stack: np.stack }
}

/// A well-formed payload assembles into a well-formed record.
pub proof fn lemma_assembled_wf(id: u128, np: NewPersonView)
    requires
        np.wf(),
    ensures
        assembled(id, np).wf(),
        assembled(id, np).id == id,
{
}

/// Wire round trip, with the identifier invisible on input: a stored
/// record's fields, written out (the birthdate in its wire form) and taken
/// in again as a create payload, reproduce the record. The payload's texts
/// re-validate unchanged because the record invariant bounds them, its
/// birthdate text parses back to the same date, and assembling it under
/// the record's identifier yields the record itself.
pub proof fn lemma_wire_round_trip(p: PersonView)
    requires
        p.wf(),
    ensures
        crate::date::is_date_chars(crate::date::date_chars(p.birthdate)),
        crate::date::parsed_date(crate::date::date_chars(p.birthdate)) == p.birthdate,
        ({
            let np = NewPersonView {
                name: p.name,
                nick: p.nick,
                birthdate: crate::date::parsed_date(crate::date::date_chars(p.birthdate)),
                stack: p.stack,
            };
            np.wf() && assembled(p.id, np) == p
        }),
{
    crate::date::lemma_date_round_trip(p.birthdate);
}

} // verus!
