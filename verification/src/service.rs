//! The rental service: the identifier counter and the record map composed
//! into the four operations, over durable storage.
//!
//! The service's mathematical state is `records()`, the map from id to
//! stored record, and `next_id()`, the id the counter will assign next.
//! Every stored entry is kept decodable, within the size bound, keyed by its
//! own id, and below the counter — so an id, once assigned, is never
//! assigned again, also after deletes.

use vstd::prelude::*;
use vstd::pervasive::unreached;
use crate::codec::decode_rental;
use crate::codec::encode_rental;
use crate::codec::lemma_codec_round_trip;
use crate::codec::lemma_valid_input_fits;
use crate::codec::spec_decode_record;
use crate::codec::spec_encode_record;
use crate::rental::Error;
use crate::rental::InputView;
use crate::rental::MAX_RECORD_BYTES;
use crate::rental::Rental;
use crate::rental::RentalInput;
use crate::rental::RentalView;
use crate::rental::make_record;
use crate::rental::record_of;
use crate::rental::valid_input;
use crate::rental::validate_input;
use crate::storage::DurableStore;
use crate::storage::counter_value;
use crate::storage::store_contents;

verus! {

/// A record map with nothing in it.
pub open spec fn no_records() -> Map<u64, RentalView> {
    Map::empty()
}

/// The persistent-record service.
pub struct RentalService {
    store: DurableStore,
}

impl RentalService {
    /// The id the next successful add will assign: the count of ids handed
    /// out so far.
    pub closed spec fn next_id(self) -> u64 {
        counter_value(self.store)
    }

    /// The raw bytes stored under each id.
    pub closed spec fn stored(self) -> Map<u64, Seq<u8>> {
        store_contents(self.store)
    }

    /// The stored records, as mathematical values.
    pub open spec fn records(self) -> Map<u64, RentalView> {
        Map::new(
            |k: u64| self.stored().contains_key(k),
            |k: u64| spec_decode_record(self.stored()[k]).unwrap(),
        )
    }

    /// Well-formed: every stored entry is a decodable encoding within the
    /// size bound, of a record carrying its own key as id, and every stored
    /// id is below the counter.
    pub open spec fn wf(self) -> bool {
        forall|k: u64| #[trigger] self.stored().contains_key(k) ==> {
            &&& spec_decode_record(self.stored()[k]) is Some
            &&& spec_decode_record(self.stored()[k]).unwrap().id == k
            &&& self.stored()[k].len() <= MAX_RECORD_BYTES
            &&& k < self.next_id()
        }
    }

    /// Opens the service over freshly initialized storage: no records, and
    /// the first id to be assigned is 0.
    pub fn new() -> (s: RentalService)
        ensures
            s.wf(),
            s.next_id() == 0,
            s.records() == no_records(),
    {
        let s = RentalService { store: DurableStore::init() };
        proof {
            assert(s.records() =~= no_records());
        }
        s
    }

    /// The id the next successful add will assign, as a value: lets a
    /// caller see when the counter is about to reach its limit.
    pub fn peek_next_id(&self) -> (r: u64)
        ensures
            r == self.next_id(),
    {
        self.store.counter_read()
    }

    /// Point lookup: an owned copy of the record stored under the id, or
    /// absence.
    pub fn _get_rental(&self, id: u64) -> (r: Option<Rental>)
        requires
            self.wf(),
        ensures
            match r {
                Some(rec) => self.records().contains_key(id) && rec@ == self.records()[id],
                None => !self.records().contains_key(id),
            },
    {
        match self.store.get_bytes(id) {
            Some(bytes) => match decode_rental(&bytes) {
                Some(rec) => Some(rec),
                // Well-formedness: storage holds only decodable encodings.
                None => unreached(),
            },
            None => None,
        }
    }

    /// Returns the record stored under the id, or reports that the id does
    /// not exist.
    pub fn get_rental(&self, id: u64) -> (r: Result<Rental, Error>)
        requires
            self.wf(),
        ensures
            self.records().contains_key(id) ==> (r matches Ok(rec) && rec@ == self.records()[id]),
            !self.records().contains_key(id) ==> (r matches Err(e) && e == (Error::NotFound {
                id,
            })),
    {
        match self._get_rental(id) {
            Some(rec) => Ok(rec),
            None => Err(Error::NotFound { id }),
        }
    }

    /// Stores an owned record under its own id, inserting or overwriting.
    pub fn do_insert_study_group(&mut self, rental: &Rental)
        requires
            old(self).wf(),
            spec_encode_record(rental@).len() <= MAX_RECORD_BYTES,
            rental@.id < old(self).next_id(),
        ensures
            final(self).wf(),
            final(self).next_id() == old(self).next_id(),
            final(self).records() == old(self).records().insert(rental@.id, rental@),
    {
        let bytes = encode_rental(rental);
        proof {
            lemma_codec_round_trip(rental@);
        }
        self.store.insert_bytes(rental.id, bytes);
        proof {
            assert forall|k: u64| #[trigger] self.stored().contains_key(k) implies {
                &&& spec_decode_record(self.stored()[k]) is Some
                &&& spec_decode_record(self.stored()[k]).unwrap().id == k
                &&& self.stored()[k].len() <= MAX_RECORD_BYTES
                &&& k < self.next_id()
            } by {
                if k != rental@.id {
                    assert(old(self).stored().contains_key(k));
                }
            }
            assert(self.records() =~= old(self).records().insert(rental@.id, rental@));
        }
    }

    /// Validates the input; on success assigns the next id, stores the
    /// record built from the input with no update timestamp, and returns
    /// it. An invalid input is rejected without consuming an id.
    pub fn add_rental(&mut self, input: RentalInput) -> (r: Result<Rental, Error>)
        requires
            old(self).wf(),
            old(self).next_id() < u64::MAX,
        ensures
            final(self).wf(),
            valid_input(input@) ==> {
                let rv = record_of(input@, old(self).next_id(), None);
                &&& r matches Ok(rec) && rec@ == rv
                &&& final(self).next_id() == old(self).next_id() + 1
                &&& final(self).records() == old(self).records().insert(old(self).next_id(), rv)
            },
            !valid_input(input@) ==> {
                &&& r matches Err(e) && e == Error::InvalidInput
                &&& final(self).next_id() == old(self).next_id()
                &&& final(self).records() == old(self).records()
            },
    {
        let ghost iv = input@;
        if !validate_input(&input) {
            return Err(Error::InvalidInput);
        }
        let id = self.store.counter_read();
        self.store.counter_write(id + 1);
        proof {
            assert(self.records() =~= old(self).records());
        }
        let rec = make_record(input, id, None);
        proof {
            lemma_valid_input_fits(iv, id, None);
        }
        self.do_insert_study_group(&rec);
        Ok(rec)
    }

    /// Looks the id up; if present, validates the input, then overwrites
    /// every caller-settable field and stamps the record with the given
    /// update time. The id does not change and no id is consumed.
    pub fn update_rental(&mut self, id: u64, input: RentalInput, now: u64) -> (r: Result<
        Rental,
        Error,
    >)
        requires
            old(self).wf(),
        ensures
            final(self).wf(),
            final(self).next_id() == old(self).next_id(),
            !old(self).records().contains_key(id) ==> {
                &&& r matches Err(e) && e == (Error::NotFound { id })
                &&& final(self).records() == old(self).records()
            },
            old(self).records().contains_key(id) && !valid_input(input@) ==> {
                &&& r matches Err(e) && e == Error::InvalidInput
                &&& final(self).records() == old(self).records()
            },
            old(self).records().contains_key(id) && valid_input(input@) ==> {
                let rv = record_of(input@, id, Some(now));
                &&& r matches Ok(rec) && rec@ == rv
                &&& final(self).records() == old(self).records().insert(id, rv)
            },
    {
        let ghost iv = input@;
        match self._get_rental(id) {
            Some(_existing) => {
                if !validate_input(&input) {
                    return Err(Error::InvalidInput);
                }
                let rec = make_record(input, id, Some(now));
                proof {
                    lemma_valid_input_fits(iv, id, Some(now));
                }
                self.do_insert_study_group(&rec);
                Ok(rec)
            },
            None => Err(Error::NotFound { id }),
        }
    }

    /// Removes the record stored under the id and returns it, or reports
    /// that the id does not exist. The counter is untouched: the id is not
    /// made available again.
    pub fn delete_rental(&mut self, id: u64) -> (r: Result<Rental, Error>)
        requires
            old(self).wf(),
        ensures
            final(self).wf(),
            final(self).next_id() == old(self).next_id(),
            old(self).records().contains_key(id) ==> (r matches Ok(rec) && rec@ == old(
                self,
            ).records()[id] && final(self).records() == old(self).records().remove(id)),
            !old(self).records().contains_key(id) ==> {
                &&& r matches Err(e) && e == (Error::NotFound { id })
                &&& final(self).records() == old(self).records()
            },
    {
        match self.store.remove_bytes(id) {
            Some(bytes) => match decode_rental(&bytes) {
                Some(rec) => {
                    proof {
                        assert(self.records() =~= old(self).records().remove(id));
                    }
                    Ok(rec)
                },
                // Well-formedness: storage holds only decodable encodings.
                None => unreached(),
            },
            None => {
                proof {
                    assert(old(self).stored().remove(id) =~= old(self).stored());
                    assert(self.records() =~= old(self).records());
                }
                Err(Error::NotFound { id })
            },
        }
    }
}

/// Law: ids are never reused. Every stored id is below the id the counter
/// will assign next, so a successful add always stores under a fresh id,
/// also after any deletes.
pub proof fn lemma_stored_ids_below_next(s: RentalService)
    requires
        s.wf(),
    ensures
        forall|k: u64| #[trigger] s.records().contains_key(k) ==> k < s.next_id(),
{
}

/// Law: after a successful add of a valid input, the record stored under
/// the assigned id — what a get of that id returns — carries exactly the
/// input's fields, the assigned id, and no update timestamp.
pub proof fn lemma_get_after_add(pre: RentalService, post: RentalService, iv: InputView)
    requires
        valid_input(iv),
        post.records() == pre.records().insert(pre.next_id(), record_of(iv, pre.next_id(), None)),
    ensures
        post.records().contains_key(pre.next_id()),
        post.records()[pre.next_id()] == record_of(iv, pre.next_id(), None),
        post.records()[pre.next_id()].updated_at is None,
{
}

/// Law: after a delete of an id, a get of that id finds nothing.
pub proof fn lemma_get_after_delete(pre: RentalService, post: RentalService, id: u64)
    requires
        post.records() == pre.records().remove(id),
    ensures
        !post.records().contains_key(id),
{
}

} // verus!
