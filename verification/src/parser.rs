//! The parser: sentences in, messages out, with the parts of messages in two
//! sentences kept between calls.

use vstd::prelude::*;
use vstd::string::*;
use crate::ais::{dispatch, dispatched, Station};
use crate::armor::{decode, decoded};
use crate::checksum::validated;
use crate::error::{outcome, ParseError, ParseErrorView};
use crate::fragments::{
    first_pending, lemma_part_one_kept, lemma_part_one_repeated, lemma_parts_in_order,
    lemma_parts_reversed, lemma_store_stays_finite, none_pending, reassemble, reassembled,
    two_parts, AisFragmentView, FragmentStore,
};
use crate::message::{
    GnssSentence, GnssSentenceView, NmeaMessage, NmeaMessageView, ParsedMessage,
    ParsedMessageView,
};
use crate::sentence::{
    body_of, check_sentence, expected_of, find_body_end, find_start, find_type, fragment,
    fragment_of, no_sentence_message, route, route_of, start_of, type_of, Route,
};
use crate::static_data::{StaticDataCache, VesselStaticData};
use crate::tag_block::{parsed, TagBlock};
use crate::text::{find_char, skip_spaces, text_of, to_chars, trimmed_start};

verus! {

/// A parser of sentences. It keeps what has to last from one sentence to the
/// next: the parts of messages whose other part has not come, and the static
/// data that waits for its continuation.
pub struct NmeaParser {
    saved_fragments: FragmentStore,
    saved_vsds: StaticDataCache,
}

/// What a parser keeps.
pub struct ParserView {
    /// The payloads of the parts that wait, by their keys.
    pub fragments: Map<Seq<char>, Seq<char>>,
    /// The static data that waits, by MMSI.
    pub static_data: Map<u32, VesselStaticData>,
}

impl View for NmeaParser {
    type V = ParserView;

    closed spec fn view(&self) -> ParserView {
        ParserView { fragments: self.saved_fragments@, static_data: self.saved_vsds@ }
    }
}

/// The message of a payload that is complete: what its bits are routed to.
/// A payload that cannot be turned into bits is an error.
pub open spec fn completed(payload: Seq<char>, station: Station, own_vessel: bool) -> Result<
    ParsedMessageView,
    ParseErrorView,
> {
    match decoded(payload) {
        Ok(bits) => dispatched(bits, station, own_vessel),
        Err(e) => Err(e),
    }
}

/// What comes of a part of an AIS message, and the store after it.
pub open spec fn joined(
    store: Map<Seq<char>, Seq<char>>,
    fragment: AisFragmentView,
    station: Station,
) -> (Result<ParsedMessageView, ParseErrorView>, Map<Seq<char>, Seq<char>>) {
    let (after, payload) = reassembled(store, fragment);
    match payload {
        Some(p) => (completed(p, station, fragment.own_vessel), after),
        None => (Ok(ParsedMessageView::Incomplete), after),
    }
}

/// What a sentence parses to, from its start marker on, and the store of
/// parts after it. The checksum is taken over the body less its marker.
pub open spec fn parsed_framed(store: Map<Seq<char>, Seq<char>>, sentence: Seq<char>) -> (
    Result<ParsedMessageView, ParseErrorView>,
    Map<Seq<char>, Seq<char>>,
) {
    let body = body_of(sentence);
    match validated(body.drop_first(), expected_of(sentence)) {
        Err(e) => (Err(e), store),
        Ok(_) => match type_of(body) {
            Err(e) => (Err(e), store),
            Ok(token) => match route_of(token) {
                Err(e) => (Err(e), store),
                Ok(Route::Gnss { kind, nav_system }) => (
                    Ok(ParsedMessageView::Gnss(GnssSentenceView { kind, nav_system, sentence: body })),
                    store,
                ),
                Ok(Route::Ais { own_vessel, station }) => match fragment_of(body, own_vessel) {
                    Err(e) => (Err(e), store),
                    Ok(fragment) => joined(store, fragment, station),
                },
            },
        },
    }
}

/// What a line parses to, and the store of parts after it. What stands in
/// front of the first `$` or `!` is left out; a line without either holds no
/// sentence.
pub open spec fn parsed_sentence(store: Map<Seq<char>, Seq<char>>, line: Seq<char>) -> (
    Result<ParsedMessageView, ParseErrorView>,
    Map<Seq<char>, Seq<char>>,
) {
    match start_of(line) {
        None => (Err(ParseErrorView::InvalidSentence(no_sentence_message(line))), store),
        Some(start) => parsed_framed(store, line.skip(start)),
    }
}

/// What a line parses to that may start with a tag block, and the store of
/// parts after it. A line that starts with a backslash has a tag block up to
/// its next backslash; the sentence is looked for behind it, white space left
/// out.
pub open spec fn parsed_with_tags(store: Map<Seq<char>, Seq<char>>, line: Seq<char>) -> (
    Result<NmeaMessageView, ParseErrorView>,
    Map<Seq<char>, Seq<char>>,
) {
    if line.len() > 0 && line[0] == '\\' {
        match line.skip(1).index_of_first('\\') {
            None => (
                Err(ParseErrorView::InvalidSentence("Tag block not properly closed"@)),
                store,
            ),
            Some(close) => match parsed(line.take(close + 2)) {
                Err(e) => (Err(e), store),
                Ok(tag) => {
                    let (result, after) = parsed_sentence(
                        store,
                        trimmed_start(line.skip(close + 2)),
                    );
                    match result {
                        Ok(message) => (
                            Ok(NmeaMessageView { message, tag_block: Some(tag) }),
                            after,
                        ),
                        Err(e) => (Err(e), after),
                    }
                },
            },
        }
    } else {
        let (result, after) = parsed_sentence(store, line);
        match result {
            Ok(message) => (Ok(NmeaMessageView { message, tag_block: None }), after),
            Err(e) => (Err(e), after),
        }
    }
}

/// The result of `parsed_with_tags` without the tag block.
pub open spec fn without_tags(result: Result<NmeaMessageView, ParseErrorView>) -> Result<
    ParsedMessageView,
    ParseErrorView,
> {
    match result {
        Ok(both) => Ok(both.message),
        Err(e) => Err(e),
    }
}

/// A parser that keeps finitely many parts keeps finitely many after any
/// line.
pub proof fn lemma_parser_stays_finite(store: Map<Seq<char>, Seq<char>>, line: Seq<char>)
    requires
        store.dom().finite(),
    ensures
        parsed_sentence(store, line).1.dom().finite(),
        parsed_with_tags(store, line).1.dom().finite(),
{
    assert forall|fragment: AisFragmentView, station: Station|
        (#[trigger] joined(store, fragment, station)).1.dom().finite() by {
        lemma_store_stays_finite(store, fragment);
    }
}

/// The part of an AIS message that a line carries, and the station that
/// sent it, where the line holds an AIS sentence whose framing is in order.
pub open spec fn carried(line: Seq<char>) -> Option<(AisFragmentView, Station)> {
    match start_of(line) {
        None => None,
        Some(start) => {
            let sentence = line.skip(start);
            let body = body_of(sentence);
            match (validated(body.drop_first(), expected_of(sentence)), type_of(body)) {
                (Ok(_), Ok(token)) => match route_of(token) {
                    Ok(Route::Ais { own_vessel, station }) => match fragment_of(body, own_vessel) {
                        Ok(part) => Some((part, station)),
                        Err(_) => None,
                    },
                    _ => None,
                },
                _ => None,
            }
        },
    }
}

/// The store of parts after the same line has been parsed `times` times.
pub open spec fn store_after(store: Map<Seq<char>, Seq<char>>, line: Seq<char>, times: nat) -> Map<
    Seq<char>,
    Seq<char>,
>
    decreases times,
{
    if times == 0 {
        store
    } else {
        parsed_sentence(store_after(store, line, (times - 1) as nat), line).1
    }
}

/// A line that carries a part of an AIS message parses to what comes of that
/// part.
pub proof fn lemma_carried_part_is_joined(store: Map<Seq<char>, Seq<char>>, line: Seq<char>)
    requires
        carried(line) is Some,
    ensures
        parsed_sentence(store, line) == joined(
            store,
            carried(line).unwrap().0,
            carried(line).unwrap().1,
        ),
{
}

/// A sentence that carries part 1 of a message in two parts, parsed once or
/// many times in a row while no part of that message waited before: each
/// time the message is incomplete, and afterwards the parser keeps exactly
/// one part more than before, which is part 1.
pub proof fn lemma_part_one_sent_repeatedly(
    store: Map<Seq<char>, Seq<char>>,
    line: Seq<char>,
    times: nat,
)
    requires
        store.dom().finite(),
        carried(line) is Some,
        carried(line).unwrap().0.fragment_count == 2,
        carried(line).unwrap().0.fragment_number == 1,
        carried(line).unwrap().0.message_id is Some,
        none_pending(store, carried(line).unwrap().0),
        times >= 1,
    ensures
        parsed_sentence(store_after(store, line, (times - 1) as nat), line).0 == Ok::<
            ParsedMessageView,
            ParseErrorView,
        >(ParsedMessageView::Incomplete),
        store_after(store, line, times).dom().finite(),
        store_after(store, line, times).len() == store.len() + 1,
        first_pending(store_after(store, line, times), carried(line).unwrap().0),
    decreases times,
{
    let part = carried(line).unwrap().0;
    let before = store_after(store, line, (times - 1) as nat);
    lemma_carried_part_is_joined(before, line);
    if times == 1 {
        lemma_part_one_kept(store, part);
    } else {
        lemma_part_one_sent_repeatedly(store, line, (times - 1) as nat);
        lemma_part_one_repeated(before, part);
    }
}

/// A message that comes in one sentence is complete at once, and the store
/// stays as it is.
pub proof fn lemma_one_part_is_complete(
    store: Map<Seq<char>, Seq<char>>,
    whole: AisFragmentView,
    station: Station,
)
    requires
        whole.fragment_count == 1,
    ensures
        joined(store, whole, station) == (
            completed(whole.payload, station, whole.own_vessel),
            store,
        ),
{
}

/// The two parts of a message, whichever comes first: the first sentence
/// leaves the message incomplete, the second gives the message that the
/// payload of part 1 followed by that of part 2 gives when it comes in one
/// sentence, and the store is again as it was.
pub proof fn lemma_two_parts_join(
    store: Map<Seq<char>, Seq<char>>,
    first: AisFragmentView,
    second: AisFragmentView,
    station: Station,
)
    requires
        two_parts(first, second),
        none_pending(store, first),
    ensures
        joined(store, first, station).0 == Ok::<ParsedMessageView, ParseErrorView>(
            ParsedMessageView::Incomplete,
        ),
        joined(joined(store, first, station).1, second, station) == (
            completed(first.payload + second.payload, station, first.own_vessel),
            store,
        ),
        joined(store, second, station).0 == Ok::<ParsedMessageView, ParseErrorView>(
            ParsedMessageView::Incomplete,
        ),
        joined(joined(store, second, station).1, first, station) == (
            completed(first.payload + second.payload, station, first.own_vessel),
            store,
        ),
{
    lemma_parts_in_order(store, first, second);
    lemma_parts_reversed(store, first, second);
}

impl NmeaParser {
    /// A parser that keeps nothing yet.
    pub fn new() -> (parser: NmeaParser)
        ensures
            parser@.fragments == Map::<Seq<char>, Seq<char>>::empty(),
            parser@.static_data == Map::<u32, VesselStaticData>::empty(),
    {
        NmeaParser {
            saved_fragments: FragmentStore::raw_new(),
            saved_vsds: StaticDataCache::raw_new(),
        }
    }

    /// Drops what the parser keeps: the parts that wait and the static data.
    pub fn reset(&mut self)
        ensures
            final(self)@.fragments == Map::<Seq<char>, Seq<char>>::empty(),
            final(self)@.static_data == Map::<u32, VesselStaticData>::empty(),
            final(self)@.fragments.len() == 0,
            final(self)@.static_data.len() == 0,
    {
        self.saved_fragments.raw_clear();
        self.saved_vsds.raw_clear();
    }

    /// Keeps `value` under `key`, in place of what was kept there.
    pub fn push_string(&mut self, key: String, value: String)
        ensures
            final(self)@.fragments == old(self)@.fragments.insert(key@, value@),
            final(self)@.static_data == old(self)@.static_data,
            old(self)@.fragments.dom().finite() ==> final(self)@.fragments.dom().finite(),
    {
        self.saved_fragments.raw_insert(key, value);
    }

    /// Takes out what is kept under `key`.
    pub fn pull_string(&mut self, key: String) -> (value: Option<String>)
        ensures
            final(self)@.fragments == old(self)@.fragments.remove(key@),
            final(self)@.static_data == old(self)@.static_data,
            old(self)@.fragments.dom().finite() ==> final(self)@.fragments.dom().finite(),
            text_of(value) == if old(self)@.fragments.contains_key(key@) {
                Some(old(self)@.fragments[key@])
            } else {
                None
            },
    {
        self.saved_fragments.raw_remove(key.as_str())
    }

    /// Whether anything is kept under `key`.
    pub fn contains_key(&self, key: String) -> (found: bool)
        ensures
            found == self@.fragments.contains_key(key@),
    {
        self.saved_fragments.raw_contains_key(key.as_str())
    }

    /// The number of parts that wait, which are finitely many.
    pub fn strings_count(&self) -> (n: usize)
        ensures
            self@.fragments.dom().finite(),
            n == self@.fragments.len(),
    {
        self.saved_fragments.raw_len()
    }

    /// Keeps `vsd` under `mmsi`, in place of what was kept there.
    pub fn push_vsd(&mut self, mmsi: u32, vsd: VesselStaticData)
        ensures
            final(self)@.static_data == old(self)@.static_data.insert(mmsi, vsd),
            final(self)@.fragments == old(self)@.fragments,
            old(self)@.static_data.dom().finite() ==> final(self)@.static_data.dom().finite(),
    {
        self.saved_vsds.raw_insert(mmsi, vsd);
    }

    /// Takes out the static data that is kept under `mmsi`.
    pub fn pull_vsd(&mut self, mmsi: u32) -> (vsd: Option<VesselStaticData>)
        ensures
            final(self)@.static_data == old(self)@.static_data.remove(mmsi),
            final(self)@.fragments == old(self)@.fragments,
            old(self)@.static_data.dom().finite() ==> final(self)@.static_data.dom().finite(),
            vsd == if old(self)@.static_data.contains_key(mmsi) {
                Some(old(self)@.static_data[mmsi])
            } else {
                None
            },
    {
        self.saved_vsds.raw_remove(mmsi)
    }

    /// The number of vessels whose static data waits, which are finitely
    /// many.
    pub fn vsds_count(&self) -> (n: usize)
        ensures
            self@.static_data.dom().finite(),
            n == self@.static_data.len(),
    {
        self.saved_vsds.raw_len()
    }

    /// Parses the sentence of the line `chars[from..]`.
    fn parse_from(&mut self, line: &str, chars: &Vec<char>, from: usize) -> (result: Result<
        ParsedMessage,
        ParseError,
    >)
        requires
            chars@ == line@,
            from <= chars.len(),
        ensures
            (outcome(result), final(self)@.fragments) == parsed_sentence(
                old(self)@.fragments,
                chars@.skip(from as int),
            ),
            final(self)@.static_data == old(self)@.static_data,
    {
        let start = match find_start(chars, from) {
            Some(start) => start,
            None => {
                assert(line@.subrange(from as int, chars.len() as int) =~= chars@.skip(from as int));
                return Err(
                    ParseError::InvalidSentence(
                        String::from_str("Invalid NMEA sentence: ").concat(
                            line.substring_char(from, chars.len()),
                        ),
                    ),
                );
            },
        };
        let ghost sentence = chars@.skip(start as int);
        proof {
            let prefixed = chars@.skip(from as int);
            assert(prefixed.skip(start - from) =~= sentence);
            prefixed.index_of_first_ensures('$');
            prefixed.index_of_first_ensures('!');
            assert(sentence[0] == '$' || sentence[0] == '!');
            sentence.index_of_last_ensures('*');
        }
        let end = find_body_end(chars, start);
        proof {
            assert(body_of(sentence) =~= chars@.subrange(start as int, end as int));
        }
        match check_sentence(line, chars, start, end) {
            Ok(()) => {},
            Err(e) => {
                return Err(e);
            },
        }
        let comma = match find_type(line, chars, start, end) {
            Ok(comma) => comma,
            Err(e) => {
                return Err(e);
            },
        };
        match route(line, chars, start, comma) {
            Err(e) => Err(e),
            Ok(Route::Gnss { kind, nav_system }) => Ok(
                ParsedMessage::Gnss(
                    GnssSentence {
                        kind,
                        nav_system,
                        sentence: String::from_str(line.substring_char(start, end)),
                    },
                ),
            ),
            Ok(Route::Ais { own_vessel, station }) => {
                let part = match fragment(line, chars, start, end, own_vessel) {
                    Ok(part) => part,
                    Err(e) => {
                        return Err(e);
                    },
                };
                match reassemble(&mut self.saved_fragments, part) {
                    None => Ok(ParsedMessage::Incomplete),
                    Some(payload) => match decode(payload.as_str()) {
                        Ok(bits) => dispatch(bits, station, own_vessel),
                        Err(e) => Err(e),
                    },
                }
            },
        }
    }

    /// Parses one line: a sentence, with or without a tag block in front of
    /// it. A sentence that is one part of a message in two parts gives
    /// `ParsedMessage::Incomplete` until the other part has come.
    pub fn parse_sentence_with_tags(&mut self, sentence: &str) -> (result: Result<
        NmeaMessage,
        ParseError,
    >)
        ensures
            (outcome(result), final(self)@.fragments) == parsed_with_tags(
                old(self)@.fragments,
                sentence@,
            ),
            final(self)@.static_data == old(self)@.static_data,
            old(self)@.fragments.dom().finite() ==> final(self)@.fragments.dom().finite(),
    {
        proof {
            if old(self)@.fragments.dom().finite() {
                lemma_parser_stays_finite(old(self)@.fragments, sentence@);
            }
        }
        let chars = to_chars(sentence);
        if chars.len() > 0 && chars[0] == '\\' {
            let ghost rest = chars@.skip(1);
            proof {
                assert(chars@.subrange(1, chars.len() as int) =~= rest);
                rest.index_of_first_ensures('\\');
            }
            let close = match find_char(&chars, 1, chars.len(), '\\') {
                Some(close) => close,
                None => {
                    return Err(
                        ParseError::InvalidSentence(
                            String::from_str("Tag block not properly closed"),
                        ),
                    );
                },
            };
            assert(chars@.take(close - 1 + 2) =~= sentence@.subrange(0, close + 1));
            let tag_block = match TagBlock::parse(sentence.substring_char(0, close + 1)) {
                Ok(tag_block) => tag_block,
                Err(e) => {
                    return Err(e);
                },
            };
            let from = skip_spaces(&chars, close + 1);
            match self.parse_from(sentence, &chars, from) {
                Ok(message) => Ok(NmeaMessage::new(message, Some(tag_block))),
                Err(e) => Err(e),
            }
        } else {
            assert(chars@.skip(0) =~= sentence@);
            match self.parse_from(sentence, &chars, 0) {
                Ok(message) => Ok(NmeaMessage::new(message, None)),
                Err(e) => Err(e),
            }
        }
    }

    /// Parses one line as `parse_sentence_with_tags` does, and returns the
    /// message without the tag block.
    pub fn parse_sentence(&mut self, sentence: &str) -> (result: Result<ParsedMessage, ParseError>)
        ensures
            outcome(result) == without_tags(
                parsed_with_tags(old(self)@.fragments, sentence@).0,
            ),
            final(self)@.fragments == parsed_with_tags(old(self)@.fragments, sentence@).1,
            final(self)@.static_data == old(self)@.static_data,
            old(self)@.fragments.dom().finite() ==> final(self)@.fragments.dom().finite(),
    {
        match self.parse_sentence_with_tags(sentence) {
            Ok(both) => Ok(both.message),
            Err(e) => Err(e),
        }
    }
}

impl Clone for NmeaParser {
    fn clone(&self) -> (copy: NmeaParser)
        ensures
            copy@ == self@,
    {
        NmeaParser {
            saved_fragments: self.saved_fragments.clone(),
            saved_vsds: self.saved_vsds.clone(),
        }
    }
}

impl Default for NmeaParser {
    fn default() -> (parser: NmeaParser)
        ensures
            parser@.fragments == Map::<Seq<char>, Seq<char>>::empty(),
            parser@.static_data == Map::<u32, VesselStaticData>::empty(),
    {
        NmeaParser::new()
    }
}

/// Parses one line with a parser that keeps nothing: a sentence that is one
/// part of a message in two parts gives `ParsedMessage::Incomplete`.
pub fn parse_sentence_with_tags(sentence: &str) -> (result: Result<NmeaMessage, ParseError>)
    ensures
        outcome(result) == parsed_with_tags(Map::empty(), sentence@).0,
{
    let mut parser = NmeaParser::new();
    parser.parse_sentence_with_tags(sentence)
}

} // verus!
