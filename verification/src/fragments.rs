//! Joining the two parts of an AIS message that came in two sentences.
//!
//! A part that comes alone is kept under a key made of what the two parts
//! have in common and of its own number. When the other part comes, the kept
//! one leaves the store and the two payloads are joined, part 1 first.

use vstd::prelude::*;
use vstd::string::*;
use hashbrown::HashMap;
use crate::text::{decimal, decimal_text, text_of};

verus! {

/// Payloads of parts that wait for their other part, kept in a
/// `hashbrown::HashMap` by their keys.
#[verifier::external_body]
pub struct FragmentStore {
    map: HashMap<String, String>,
}

/// The payloads that a `FragmentStore` holds, by their keys.
pub uninterp spec fn stored(store: FragmentStore) -> Map<Seq<char>, Seq<char>>;

/// `n` is the number of entries of `map`, which are finitely many.
pub open spec fn counts<K, V>(map: Map<K, V>, n: usize) -> bool {
    map.dom().finite() && map.len() == n
}

impl View for FragmentStore {
    type V = Map<Seq<char>, Seq<char>>;

    open spec fn view(&self) -> Map<Seq<char>, Seq<char>> {
        stored(*self)
    }
}

impl Clone for FragmentStore {
    fn clone(&self) -> (copy: Self)
        ensures
            copy@ == self@,
    {
        self.raw_clone()
    }
}

impl FragmentStore {
    /// `HashMap::clone`: the copy holds the same payloads under the same keys.
    #[verifier::external_body]
    pub(crate) fn raw_clone(&self) -> (copy: FragmentStore)
        ensures
            stored(copy) == stored(*self),
    {
        FragmentStore { map: self.map.clone() }
    }

    /// `HashMap::new`: a map without entries.
    #[verifier::external_body]
    pub(crate) fn raw_new() -> (store: FragmentStore)
        ensures
            stored(store) == (Map::<Seq<char>, Seq<char>>::empty()),
    {
        FragmentStore { map: HashMap::new() }
    }

    /// `HashMap::insert`: `value` stands under `key`, in place of what stood
    /// there; the other entries stay. Keys are the same where their
    /// characters are.
    #[verifier::external_body]
    pub(crate) fn raw_insert(&mut self, key: String, value: String)
        ensures
            stored(*final(self)) == stored(*old(self)).insert(key@, value@),
    {
        self.map.insert(key, value);
    }

    /// `HashMap::remove`: the entry under `key` leaves the map and its value
    /// is returned; `None`, and the map as it was, where there is none.
    #[verifier::external_body]
    pub(crate) fn raw_remove(&mut self, key: &str) -> (value: Option<String>)
        ensures
            stored(*final(self)) == stored(*old(self)).remove(key@),
            text_of(value) == if stored(*old(self)).contains_key(key@) {
                Some(stored(*old(self))[key@])
            } else {
                None
            },
    {
        self.map.remove(key)
    }

    /// `HashMap::contains_key`: whether an entry stands under `key`.
    #[verifier::external_body]
    pub(crate) fn raw_contains_key(&self, key: &str) -> (found: bool)
        ensures
            found == stored(*self).contains_key(key@),
    {
        self.map.contains_key(key)
    }

    /// `HashMap::len`: the number of entries, of which a map holds finitely
    /// many.
    #[verifier::external_body]
    pub(crate) fn raw_len(&self) -> (n: usize)
        ensures
            counts(stored(*self), n),
    {
        self.map.len()
    }

    /// `HashMap::clear`: no entry stays.
    #[verifier::external_body]
    pub(crate) fn raw_clear(&mut self)
        ensures
            stored(*final(self)) == (Map::<Seq<char>, Seq<char>>::empty()),
    {
        self.map.clear()
    }
}

/// What an AIS sentence says of itself beside its payload.
#[derive(Clone, Debug, PartialEq)]
pub struct AisFragment {
    /// Whether the sentence is a `!VDO`, about the own vessel.
    pub own_vessel: bool,
    /// The number of sentences that the message came in.
    pub fragment_count: u8,
    /// The number of this sentence among them, from 1 on.
    pub fragment_number: u8,
    /// The number that the sentences of one message share, if it was given.
    pub message_id: Option<u64>,
    /// The radio channel code; empty where the sentence has none.
    pub radio_channel_code: String,
    /// The armored payload of this sentence.
    pub payload: String,
}

/// An `AisFragment` with its texts as sequences of characters.
pub struct AisFragmentView {
    pub own_vessel: bool,
    pub fragment_count: u8,
    pub fragment_number: u8,
    pub message_id: Option<u64>,
    pub radio_channel_code: Seq<char>,
    pub payload: Seq<char>,
}

impl View for AisFragment {
    type V = AisFragmentView;

    open spec fn view(&self) -> AisFragmentView {
        AisFragmentView {
            own_vessel: self.own_vessel,
            fragment_count: self.fragment_count,
            fragment_number: self.fragment_number,
            message_id: self.message_id,
            radio_channel_code: self.radio_channel_code@,
            payload: self.payload@,
        }
    }
}

/// The name of an AIS sentence: `!VDO` about the own vessel, `!VDM` about
/// another.
pub open spec fn sentence_name(own_vessel: bool) -> Seq<char> {
    if own_vessel {
        "!VDO"@
    } else {
        "!VDM"@
    }
}

/// The key under which a part is kept: the sentence type, the number of
/// parts, the number of the part, the message identifier and the radio
/// channel code, with commas between them.
pub open spec fn fragment_key(
    sentence_type: Seq<char>,
    message_id: u64,
    fragment_count: u8,
    fragment_number: u8,
    radio_channel_code: Seq<char>,
) -> Seq<char> {
    sentence_type + ","@ + decimal_text(fragment_count as nat) + ","@ + decimal_text(
        fragment_number as nat,
    ) + ","@ + decimal_text(message_id as nat) + ","@ + radio_channel_code
}

/// The key of part `number` of the message that `fragment` is a part of.
pub open spec fn key_of(fragment: AisFragmentView, number: u8) -> Seq<char> {
    fragment_key(
        sentence_name(fragment.own_vessel),
        fragment.message_id.unwrap_or(0),
        fragment.fragment_count,
        number,
        fragment.radio_channel_code,
    )
}

/// The store after `fragment` has come, and the payload of the message where
/// it is complete with it.
///
/// A message in one part is complete at once. Of a message in two parts, a
/// part whose other part waits in the store completes the message: the other
/// part leaves the store, and the payload is that of part 1, then that of
/// part 2. A part that finds no other part is kept, in place of what was
/// kept under its own key. Nothing comes of a part with another number than 1
/// or 2, of one in two parts without a message identifier, or of one of a
/// message in more parts than two or in none.
pub open spec fn reassembled(store: Map<Seq<char>, Seq<char>>, fragment: AisFragmentView) -> (
    Map<Seq<char>, Seq<char>>,
    Option<Seq<char>>,
) {
    let first = key_of(fragment, 1);
    let second = key_of(fragment, 2);
    if fragment.fragment_count == 1 {
        (store, Some(fragment.payload))
    } else if fragment.fragment_count == 2 && fragment.message_id is Some {
        if fragment.fragment_number == 1 {
            if store.contains_key(second) {
                (store.remove(second), Some(fragment.payload + store[second]))
            } else {
                (store.insert(first, fragment.payload), None)
            }
        } else if fragment.fragment_number == 2 {
            if store.contains_key(first) {
                (store.remove(first), Some(store[first] + fragment.payload))
            } else {
                (store.insert(second, fragment.payload), None)
            }
        } else {
            (store, None)
        }
    } else {
        (store, None)
    }
}

/// Whether `first` and `second` are the two parts of one message in two
/// parts: part 1 and part 2, with the same sentence type, message identifier
/// and radio channel code.
pub open spec fn two_parts(first: AisFragmentView, second: AisFragmentView) -> bool {
    &&& first.fragment_count == 2
    &&& second.fragment_count == 2
    &&& first.fragment_number == 1
    &&& second.fragment_number == 2
    &&& first.message_id is Some
    &&& second.message_id == first.message_id
    &&& second.own_vessel == first.own_vessel
    &&& second.radio_channel_code == first.radio_channel_code
}

/// Neither part of the message that `fragment` belongs to waits in `store`.
pub open spec fn none_pending(store: Map<Seq<char>, Seq<char>>, fragment: AisFragmentView) -> bool {
    !store.contains_key(key_of(fragment, 1)) && !store.contains_key(key_of(fragment, 2))
}

/// The keys of part 1 and of part 2 of a message are not the same.
pub proof fn lemma_keys_differ(
    sentence_type: Seq<char>,
    message_id: u64,
    fragment_count: u8,
    radio_channel_code: Seq<char>,
)
    ensures
        fragment_key(sentence_type, message_id, fragment_count, 1, radio_channel_code)
            != fragment_key(sentence_type, message_id, fragment_count, 2, radio_channel_code),
{
    reveal_strlit(",");
    let head = sentence_type + ","@ + decimal_text(fragment_count as nat) + ","@;
    let first = fragment_key(sentence_type, message_id, fragment_count, 1, radio_channel_code);
    let second = fragment_key(sentence_type, message_id, fragment_count, 2, radio_channel_code);
    assert(decimal_text(1) == seq!['1']);
    assert(decimal_text(2) == seq!['2']);
    assert(first[head.len() as int] == '1');
    assert(second[head.len() as int] == '2');
}

/// Part 1, then part 2: the first leaves the message incomplete and waits in
/// the store, the second completes it with the payload of part 1 followed by
/// that of part 2, and the store is again as it was.
pub proof fn lemma_parts_in_order(
    store: Map<Seq<char>, Seq<char>>,
    first: AisFragmentView,
    second: AisFragmentView,
)
    requires
        two_parts(first, second),
        none_pending(store, first),
    ensures
        reassembled(store, first).1 is None,
        reassembled(reassembled(store, first).0, second).1 == Some(first.payload + second.payload),
        reassembled(reassembled(store, first).0, second).0 == store,
{
    lemma_keys_differ(
        sentence_name(first.own_vessel),
        first.message_id.unwrap(),
        2,
        first.radio_channel_code,
    );
    let key = key_of(first, 1);
    assert(store.insert(key, first.payload).remove(key) =~= store);
}

/// Part 2, then part 1: the message is completed by the second sentence with
/// the same payload as when the parts come in order, and the store is again
/// as it was.
pub proof fn lemma_parts_reversed(
    store: Map<Seq<char>, Seq<char>>,
    first: AisFragmentView,
    second: AisFragmentView,
)
    requires
        two_parts(first, second),
        none_pending(store, first),
    ensures
        reassembled(store, second).1 is None,
        reassembled(reassembled(store, second).0, first).1 == Some(first.payload + second.payload),
        reassembled(reassembled(store, second).0, first).0 == store,
        reassembled(reassembled(store, second).0, first).1 == reassembled(
            reassembled(store, first).0,
            second,
        ).1,
{
    lemma_keys_differ(
        sentence_name(first.own_vessel),
        first.message_id.unwrap(),
        2,
        first.radio_channel_code,
    );
    lemma_parts_in_order(store, first, second);
    let key = key_of(first, 2);
    assert(store.insert(key, second.payload).remove(key) =~= store);
}

/// A store of finitely many payloads stays one, whatever part comes.
pub proof fn lemma_store_stays_finite(store: Map<Seq<char>, Seq<char>>, fragment: AisFragmentView)
    requires
        store.dom().finite(),
    ensures
        reassembled(store, fragment).0.dom().finite(),
{
}

/// Whether part 1 of the message that `fragment` belongs to waits in `store`
/// and part 2 does not.
pub open spec fn first_pending(store: Map<Seq<char>, Seq<char>>, fragment: AisFragmentView) -> bool {
    store.contains_key(key_of(fragment, 1)) && !store.contains_key(key_of(fragment, 2))
}

/// Part 1 alone: the message is incomplete, part 1 waits, and the store holds
/// one payload more than before.
pub proof fn lemma_part_one_kept(store: Map<Seq<char>, Seq<char>>, first: AisFragmentView)
    requires
        store.dom().finite(),
        first.fragment_count == 2,
        first.fragment_number == 1,
        first.message_id is Some,
        none_pending(store, first),
    ensures
        reassembled(store, first).1 is None,
        reassembled(store, first).0.dom().finite(),
        reassembled(store, first).0.len() == store.len() + 1,
        first_pending(reassembled(store, first).0, first),
{
    lemma_keys_differ(
        sentence_name(first.own_vessel),
        first.message_id.unwrap(),
        2,
        first.radio_channel_code,
    );
    assert(store.insert(key_of(first, 1), first.payload).dom() =~= store.dom().insert(
        key_of(first, 1),
    ));
}

/// Part 1 again while part 1 waits: the message stays incomplete, part 1
/// still waits alone, and the store holds as many payloads as before. So it
/// goes on for as long as only parts 1 come.
pub proof fn lemma_part_one_repeated(store: Map<Seq<char>, Seq<char>>, first: AisFragmentView)
    requires
        store.dom().finite(),
        first.fragment_count == 2,
        first.fragment_number == 1,
        first.message_id is Some,
        first_pending(store, first),
    ensures
        reassembled(store, first).1 is None,
        reassembled(store, first).0.dom() == store.dom(),
        reassembled(store, first).0.len() == store.len(),
        first_pending(reassembled(store, first).0, first),
{
    assert(store.insert(key_of(first, 1), first.payload).dom() =~= store.dom());
}

/// The key under which a part is kept.
pub fn make_fragment_key(
    sentence_type: &str,
    message_id: u64,
    fragment_count: u8,
    fragment_number: u8,
    radio_channel_code: &str,
) -> (key: String)
    ensures
        key@ == fragment_key(
            sentence_type@,
            message_id,
            fragment_count,
            fragment_number,
            radio_channel_code@,
        ),
{
    let key = String::from_str(sentence_type).concat(",").concat(
        decimal(fragment_count as u64).as_str(),
    ).concat(",").concat(decimal(fragment_number as u64).as_str()).concat(",").concat(
        decimal(message_id).as_str(),
    ).concat(",").concat(radio_channel_code);
    assert(key@ =~= fragment_key(
        sentence_type@,
        message_id,
        fragment_count,
        fragment_number,
        radio_channel_code@,
    ));
    key
}

/// Takes a part into the store, or a message out of it: returns the payload
/// of the message where `fragment` completes it.
pub fn reassemble(store: &mut FragmentStore, fragment: AisFragment) -> (payload: Option<String>)
    ensures
        (final(store)@, text_of(payload)) == reassembled(old(store)@, fragment@),
{
    if fragment.fragment_count == 1 {
        return Some(fragment.payload);
    }
    if fragment.fragment_count != 2 {
        return None;
    }
    let message_id = match fragment.message_id {
        Some(id) => id,
        None => {
            return None;
        },
    };
    let name = if fragment.own_vessel {
        "!VDO"
    } else {
        "!VDM"
    };
    let first = make_fragment_key(
        name,
        message_id,
        fragment.fragment_count,
        1,
        fragment.radio_channel_code.as_str(),
    );
    let second = make_fragment_key(
        name,
        message_id,
        fragment.fragment_count,
        2,
        fragment.radio_channel_code.as_str(),
    );
    if fragment.fragment_number == 1 {
        match store.raw_remove(second.as_str()) {
            Some(other) => Some(fragment.payload.concat(other.as_str())),
            None => {
                proof {
                    assert(old(store)@.remove(second@) =~= old(store)@);
                }
                store.raw_insert(first, fragment.payload);
                None
            },
        }
    } else if fragment.fragment_number == 2 {
        match store.raw_remove(first.as_str()) {
            Some(other) => Some(other.concat(fragment.payload.as_str())),
            None => {
                proof {
                    assert(old(store)@.remove(first@) =~= old(store)@);
                }
                store.raw_insert(second, fragment.payload);
                None
            },
        }
    } else {
        None
    }
}

} // verus!
