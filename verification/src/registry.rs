//! The person registry: the single source of truth for all records.
//!
//! The registry owns a map from 128-bit identifier to record. Identifiers
//! are generated internally from a time-ordered UUID scheme, never supplied
//! by callers, and the registry checks freshness itself, so every stored
//! identifier is unique for the life of the process. Records are never
//! mutated or removed once stored.

use crate::person::assembled;
use crate::person::lemma_assembled_wf;
use crate::person::NewPerson;
use crate::person::Person;
use crate::person::PersonView;
use std::collections::HashMap;
use vstd::prelude::*;
use vstd::std_specs::iter::IteratorSpec;

verus! {

broadcast use vstd::std_specs::hash::group_hash_axioms;

/// Relies on `uuid::Uuid::now_v7`: a fresh version-7 UUID drawn from the
/// current time and random bits, handed back as its 128-bit value through
/// `Uuid::as_u128`. Nothing is assumed of the value; the registry tests
/// freshness against its own map before storing under it. The call can
/// panic on an environment fault — a failing OS random source, or a
/// system clock before the Unix epoch — which no precondition can rule
/// out; an unwind then escapes through the insert operation.
#[verifier::external_body]
fn generate_id() -> u128 {
    uuid::Uuid::now_v7().as_u128()
}

/// The model of a stored map: each record replaced by its view.
pub open spec fn models(m: Map<u128, Person>) -> Map<u128, PersonView> {
    m.map_values(|p: Person| p@)
}

/// The in-memory store of person records, keyed by identifier.
pub struct Registry {
    people: HashMap<u128, Person>,
}

impl View for Registry {
    type V = Map<u128, PersonView>;

    closed spec fn view(&self) -> Map<u128, PersonView> {
        models(self.people@)
    }
}

impl Registry {
    /// The registry invariant: every record is well formed and stored
    /// under its own identifier.
    pub closed spec fn wf(&self) -> bool {
        forall|k: u128|
            self.people@.contains_key(k) ==> (#[trigger] self.people@[k])@.id == k
                && self.people@[k]@.wf()
    }

    /// What the invariant means for the model: records are keyed by their
    /// own identifier and satisfy the record invariant.
    pub proof fn lemma_wf_records(&self)
        requires
            self.wf(),
        ensures
            forall|k: u128|
                self@.contains_key(k) ==> (#[trigger] self@[k]).id == k && self@[k].wf(),
            self@.dom().finite(),
    {
        assert(self@.dom() =~= self.people@.dom());
    }

    /// A fresh, empty registry.
    pub fn new() -> (r: Registry)
        ensures
            r.wf(),
            r@ == Map::<u128, PersonView>::empty(),
            r@.len() == 0,
    {
        let r = Registry { people: HashMap::new() };
        proof {
            assert(r@ =~= Map::<u128, PersonView>::empty());
        }
        r
    }

    /// Number of records currently stored.
    pub fn count(&self) -> (n: usize)
        ensures
            n == self@.len(),
    {
        proof {
            assert(self@.dom() =~= self.people@.dom());
        }
        self.people.len()
    }

    /// Whether a record is stored under the given identifier.
    pub fn contains(&self, id: u128) -> (b: bool)
        ensures
            b == self@.contains_key(id),
    {
        proof {
            assert(self@.dom() =~= self.people@.dom());
        }
        self.people.contains_key(&id)
    }

    /// Looks an identifier up: the matching record on an exact match,
    /// nothing exactly when no record was ever stored under it.
    pub fn get(&self, id: u128) -> (r: Option<Person>)
        requires
            self.wf(),
        ensures
            match r {
                Some(p) => self@.contains_key(id) && p@ == self@[id] && p@.id == id && p@.wf(),
                None => !self@.contains_key(id),
            },
    {
        proof {
            assert(self@.dom() =~= self.people@.dom());
        }
        match self.people.get(&id) {
            Some(p) => Some(p.duplicate()),
            None => None,
        }
    }

    /// Stores the record assembled from a validated payload under a fresh
    /// identifier chosen by the caller. Every prior record is kept; the
    /// count grows by exactly one.
    pub fn insert_with_id(&mut self, id: u128, new_person: NewPerson) -> (p: Person)
        requires
            old(self).wf(),
            !old(self)@.contains_key(id),
            new_person@.wf(),
        ensures
            final(self).wf(),
            p@ == assembled(id, new_person@),
            p@.id == id,
            p@.wf(),
            final(self)@ == old(self)@.insert(id, p@),
            final(self)@.len() == old(self)@.len() + 1,
    {
        proof {
            assert(old(self)@.dom() =~= old(self).people@.dom());
            lemma_assembled_wf(id, new_person@);
        }
        let NewPerson { name, nick, birthdate, stack } = new_person;
        let stack_strings = match stack {
            Some(entries) => Some(techs_to_strings(entries)),
            None => None,
        };
        let person = Person {
            id,
            name: name.into_string(),
            nick: nick.into_string(),
            birthdate,
            stack: stack_strings,
        };
        let stored = person.duplicate();
        self.people.insert(id, stored);
        proof {
            assert(person@.stack == new_person@.stack);
            assert(person@ == assembled(id, new_person@));
            assert(self@ =~= old(self)@.insert(id, person@));
            assert(self@.dom() =~= old(self)@.dom().insert(id));
        }
        person
    }

    /// Generates a fresh time-ordered identifier, assembles the record and
    /// stores it. Succeeds whenever the generated identifier is new, which
    /// the registry tests itself; only a clash with a stored identifier
    /// (practically impossible, and impossible in an empty store) stores
    /// nothing and reports it.
    pub fn insert(&mut self, new_person: NewPerson) -> (r: Option<Person>)
        requires
            old(self).wf(),
            new_person@.wf(),
        ensures
            final(self).wf(),
            match r {
                Some(p) => {
                    &&& !old(self)@.contains_key(p@.id)
                    &&& p@ == assembled(p@.id, new_person@)
                    &&& p@.wf()
                    &&& final(self)@ == old(self)@.insert(p@.id, p@)
                    &&& final(self)@.len() == old(self)@.len() + 1
                },
                None => final(self)@ == old(self)@ && old(self)@.len() > 0,
            },
    {
        let id = generate_id();
        if self.contains(id) {
            proof {
                assert(self@.dom().contains(id));
                assert(self@.dom() =~= self.people@.dom());
                assert(self@.dom().len() > 0);
            }
            None
        } else {
            Some(self.insert_with_id(id, new_person))
        }
    }

    /// A snapshot of every stored record: one copy per record, each equal
    /// to the stored one, with no identifier repeated and none left out.
    /// No particular order is promised.
    pub fn list(&self) -> (r: Vec<Person>)
        requires
            self.wf(),
        ensures
            r@.len() == self@.len(),
            forall|i: int|
                0 <= i < r@.len() ==> self@.contains_key((#[trigger] r@[i])@.id) && r@[i]@
                    == self@[r@[i]@.id],
            forall|i: int, j: int| 0 <= i < j < r@.len() ==> r@[i]@.id != r@[j]@.id,
            forall|k: u128|
                #[trigger] self@.contains_key(k) ==> exists|i: int|
                    0 <= i < r@.len() && (#[trigger] r@[i])@.id == k,
    {
        let ghost m = self.people@;
        let ghost itr = vstd::std_specs::hash::spec_hash_map_iter(&self.people);
        let mut out: Vec<Person> = Vec::new();
        for kv in it: self.people.iter()
            invariant
                it.seq() == itr.remaining(),
                it.seq().no_duplicates(),
                out@.len() == it.index(),
                forall|i: int|
                    0 <= i < it.index() ==> (#[trigger] out@[i])@ == (*it.seq()[i].1)@,
        {
            out.push(kv.1.duplicate());
        }
        proof {
            let s = itr.remaining();
            assert(out@.len() == s.len());
            assert(self@.dom() =~= m.dom());
            assert forall|i: int| 0 <= i < out@.len() implies self@.contains_key(
                (#[trigger] out@[i])@.id,
            ) && out@[i]@ == self@[out@[i]@.id] by {
                let k = *s[i].0;
                assert(m.contains_key(k) && m[k] == *s[i].1);
                assert(out@[i]@.id == k);
            }
            assert forall|i: int, j: int| 0 <= i < j < out@.len() implies out@[i]@.id
                != out@[j]@.id by {
                if out@[i]@.id == out@[j]@.id {
                    let ki = *s[i].0;
                    let kj = *s[j].0;
                    assert(m.contains_key(ki) && m[ki] == *s[i].1);
                    assert(m.contains_key(kj) && m[kj] == *s[j].1);
                    assert(ki == kj);
                    assert(s[i] == s[j]);
                    assert(s.no_duplicates());
                    assert(false);
                }
            }
            assert forall|k: u128| #[trigger] self@.contains_key(k) implies exists|i: int|
                0 <= i < out@.len() && (#[trigger] out@[i])@.id == k by {
                assert(m.contains_key(k));
                assert(s.contains((&k, &m[k])));
                let i = choose|i: int| 0 <= i < s.len() && s[i] == (&k, &m[k]);
                assert(out@[i]@ == m[k]@);
                assert(out@[i]@.id == k);
            }
        }
        out
    }
}

/// Element-wise unwrapping of validated technology labels into plain
/// texts, preserving every label.
fn techs_to_strings(v: Vec<crate::validate::Tech>) -> (r: Vec<String>)
    ensures
        r.deep_view() == v.deep_view(),
{
    let mut out: Vec<String> = Vec::new();
    let n = v.len();
    for i in 0..n
        invariant
            n == v.len(),
            out.len() == i,
            forall|j: int| 0 <= j < i ==> (#[trigger] out@[j])@ == v@[j]@,
    {
        out.push(v[i].to_text());
    }
    proof {
        assert(out.deep_view() =~= v.deep_view());
    }
    out
}

/// No insert is lost and none is duplicated: storing a record under a
/// fresh identifier keeps every prior record unchanged, adds the new one,
/// and raises the count by exactly one.
pub proof fn lemma_insert_no_lost_write(m: Map<u128, PersonView>, id: u128, p: PersonView)
    requires
        m.dom().finite(),
        !m.contains_key(id),
    ensures
        m.insert(id, p).len() == m.len() + 1,
        m.insert(id, p).contains_key(id),
        m.insert(id, p)[id] == p,
        forall|k: u128|
            k != id ==> #[trigger] m.insert(id, p).contains_key(k) == m.contains_key(k),
        forall|k: u128| m.contains_key(k) && k != id ==> #[trigger] m.insert(id, p)[k] == m[k],
{
    assert(m.insert(id, p).dom() =~= m.dom().insert(id));
}

/// A lookup immediately after an insert of that identifier yields exactly
/// the record inserted.
pub proof fn lemma_get_after_insert(m: Map<u128, PersonView>, id: u128, p: PersonView)
    ensures
        m.insert(id, p).contains_key(id),
        m.insert(id, p)[id] == p,
{
}

/// The store after a run of insertions, the i-th storing record `ps[i]`
/// under identifier `ids[i]`.
pub open spec fn stored_after(
    m: Map<u128, PersonView>,
    ids: Seq<u128>,
    ps: Seq<PersonView>,
) -> Map<u128, PersonView>
    decreases ids.len(),
{
    if ids.len() == 0 {
        m
    } else {
        stored_after(m.insert(ids[0], ps[0]), ids.drop_first(), ps.drop_first())
    }
}

/// However many insertions run — the write lock serialises them, each
/// under a fresh identifier distinct from every other — the store
/// afterward still holds every prior record, holds each of the N new ones
/// under its identifier, and has grown by exactly N: no write is lost and
/// none is duplicated.
pub proof fn lemma_concurrent_inserts_counted(
    m: Map<u128, PersonView>,
    ids: Seq<u128>,
    ps: Seq<PersonView>,
)
    requires
        m.dom().finite(),
        ids.no_duplicates(),
        ids.len() == ps.len(),
        forall|i: int| 0 <= i < ids.len() ==> !m.contains_key(#[trigger] ids[i]),
    ensures
        stored_after(m, ids, ps).len() == m.len() + ids.len(),
        forall|i: int|
            0 <= i < ids.len() ==> stored_after(m, ids, ps).contains_key(#[trigger] ids[i]),
        forall|k: u128|
            m.contains_key(k) ==> #[trigger] stored_after(m, ids, ps).contains_key(k),
    decreases ids.len(),
{
    if ids.len() > 0 {
        let m1 = m.insert(ids[0], ps[0]);
        assert(m1.dom() =~= m.dom().insert(ids[0]));
        let tail_ids = ids.drop_first();
        let tail_ps = ps.drop_first();
        assert forall|i: int| 0 <= i < tail_ids.len() implies !m1.contains_key(
            #[trigger] tail_ids[i],
        ) by {
            assert(tail_ids[i] == ids[i + 1]);
        }
        lemma_concurrent_inserts_counted(m1, tail_ids, tail_ps);
        assert forall|i: int| 0 <= i < ids.len() implies stored_after(m, ids, ps).contains_key(
            #[trigger] ids[i],
        ) by {
            if i == 0 {
                assert(m1.contains_key(ids[0]));
            } else {
                assert(tail_ids[i - 1] == ids[i]);
            }
        }
    }
}

} // verus!
