//! The framing of a sentence: where it starts, where its body ends and its
//! checksum stands, what type it is of, and what an AIS sentence says of the
//! part of a message that it carries.

use vstd::prelude::*;
use vstd::string::*;
use crate::ais::{station_of, Station};
use crate::checksum::{checksum_range, corrupted, matches_hex, validated};
use crate::error::{ParseError, ParseErrorView};
use crate::fragments::{AisFragment, AisFragmentView};
use crate::gnss::{kind_for, system_of, GnssSentenceKind, NavigationSystem};
use crate::text::{
    find_char, parse_u64, parse_u8, parts_of, rfind_char, split, split_ranges, u64_of, u8_of,
};

verus! {

/// Where the sentence starts in a line: at the first `$` or `!`.
pub open spec fn start_of(line: Seq<char>) -> Option<int> {
    match (line.index_of_first('$'), line.index_of_first('!')) {
        (Some(dollar), Some(bang)) => Some(
            if dollar < bang {
                dollar
            } else {
                bang
            },
        ),
        (Some(dollar), None) => Some(dollar),
        (None, Some(bang)) => Some(bang),
        (None, None) => None,
    }
}

/// Where the body of a sentence ends: at its last `*`, or at its end where it
/// has none.
pub open spec fn body_end(sentence: Seq<char>) -> int {
    match sentence.index_of_last('*') {
        Some(star) => star,
        None => sentence.len() as int,
    }
}

/// The body of a sentence: what stands in front of its last `*`.
pub open spec fn body_of(sentence: Seq<char>) -> Seq<char> {
    sentence.take(body_end(sentence))
}

/// The checksum that a sentence gives of itself: the two characters behind
/// its last `*`. Empty where it has no `*`, or fewer than two characters
/// behind it.
pub open spec fn expected_of(sentence: Seq<char>) -> Seq<char> {
    let star = body_end(sentence);
    if star + 3 <= sentence.len() {
        sentence.subrange(star + 1, star + 3)
    } else {
        Seq::empty()
    }
}

/// The message of the error for a line that holds no sentence.
pub open spec fn no_sentence_message(line: Seq<char>) -> Seq<char> {
    "Invalid NMEA sentence: "@ + line
}

/// Whether `c` may stand in the type of a sentence: an ASCII letter or digit,
/// or one of the two start markers.
pub open spec fn is_type_char(c: char) -> bool {
    ('0' <= c <= '9') || ('a' <= c <= 'z') || ('A' <= c <= 'Z') || c == '$' || c == '!'
}

/// The type of a sentence, marker and talker included: what stands in front
/// of the first comma of its body. A body without a comma is an error, and so
/// is a type that holds another character than letters, digits and markers.
pub open spec fn type_of(body: Seq<char>) -> Result<Seq<char>, ParseErrorView> {
    match body.index_of_first(',') {
        None => Err(ParseErrorView::InvalidSentence(no_sentence_message(body))),
        Some(comma) => {
            let token = body.take(comma);
            if forall|i: int| 0 <= i < token.len() ==> is_type_char(#[trigger] token[i]) {
                Ok(token)
            } else {
                Err(
                    ParseErrorView::InvalidSentence(
                        "Invalid characters in sentence type: "@ + token,
                    ),
                )
            }
        },
    }
}

/// The marker and the three letters of a sentence type: of a type of six
/// characters, the marker and the last three, the talker left out; any other
/// type as it is.
pub open spec fn short_type(token: Seq<char>) -> Seq<char> {
    if token.len() == 6 {
        seq![token[0], token[3], token[4], token[5]]
    } else {
        token
    }
}

/// Where a sentence goes by its type.
#[derive(Clone, Copy, Debug, PartialEq)]
pub enum Route {
    /// A GNSS sentence of a known type.
    Gnss { kind: GnssSentenceKind, nav_system: NavigationSystem },
    /// An AIS sentence: `!VDM`, or `!VDO` about the own vessel.
    Ais { own_vessel: bool, station: Station },
}

/// The message of the error for a sentence type that is not handled.
pub open spec fn unsupported_message(short: Seq<char>) -> Seq<char> {
    "Unsupported sentence type: "@ + short
}

/// Where a sentence of the type `token` goes. Behind `$` stands a talker of
/// two characters or more, which names the satellite system; behind `!` one
/// that names the station. A type that is none of the known ones is not
/// handled.
pub open spec fn route_of(token: Seq<char>) -> Result<Route, ParseErrorView> {
    let short = short_type(token);
    let unsupported = Err::<Route, ParseErrorView>(
        ParseErrorView::UnsupportedSentenceType(unsupported_message(short)),
    );
    if token.len() > 0 && token[0] == '$' {
        match system_of(token.skip(1)) {
            Err(e) => Err(e),
            Ok(nav_system) => if short.len() == 4 {
                match kind_for(short[1], short[2], short[3]) {
                    Some(kind) => Ok(Route::Gnss { kind, nav_system }),
                    None => unsupported,
                }
            } else {
                unsupported
            },
        }
    } else if token.len() > 0 && token[0] == '!' {
        match station_of(token.skip(1)) {
            Err(e) => Err(e),
            Ok(station) => if short.len() == 4 && short[1] == 'V' && short[2] == 'D' && (short[3]
                == 'M' || short[3] == 'O') {
                Ok(Route::Ais { own_vessel: short[3] == 'O', station })
            } else {
                unsupported
            },
        }
    } else {
        unsupported
    }
}

/// The message of the error for a number of parts, or a number of the part,
/// that is no number.
pub open spec fn bad_count_message(field: Seq<char>) -> Seq<char> {
    "Failed to parse fragment count: "@ + field
}

/// What an AIS sentence with the body `body` says of its part of a message.
/// The fields of the body stand between commas: behind the sentence type the
/// number of parts, the number of this part, the message identifier, the
/// radio channel code and the payload. A field that the body does not reach
/// counts as zero or as empty. A number of parts or of the part that is no
/// number of eight bits is an error; a message identifier that is no number
/// counts as not given.
pub open spec fn fragment_of(body: Seq<char>, own_vessel: bool) -> Result<
    AisFragmentView,
    ParseErrorView,
> {
    let fields = split(body, ',');
    let n = fields.len();
    if n > 1 && u8_of(fields[1]) is None {
        Err(ParseErrorView::CorruptedSentence(bad_count_message(fields[1])))
    } else if n > 2 && u8_of(fields[2]) is None {
        Err(ParseErrorView::CorruptedSentence(bad_count_message(fields[2])))
    } else {
        Ok(
            AisFragmentView {
                own_vessel,
                fragment_count: if n > 1 {
                    u8_of(fields[1]).unwrap()
                } else {
                    0
                },
                fragment_number: if n > 2 {
                    u8_of(fields[2]).unwrap()
                } else {
                    0
                },
                message_id: if n > 3 {
                    u64_of(fields[3])
                } else {
                    None
                },
                radio_channel_code: if n > 4 {
                    fields[4]
                } else {
                    Seq::empty()
                },
                payload: if n > 5 {
                    fields[5]
                } else {
                    Seq::empty()
                },
            },
        )
    }
}

/// Finds where the sentence starts in `chars[from..]`, as an index of `chars`.
pub fn find_start(chars: &Vec<char>, from: usize) -> (start: Option<usize>)
    requires
        from <= chars.len(),
    ensures
        match start {
            Some(i) => from <= i < chars.len() && start_of(chars@.skip(from as int)) == Some(
                i - from,
            ),
            None => start_of(chars@.skip(from as int)) is None,
        },
{
    proof {
        let line = chars@.skip(from as int);
        assert(chars@.subrange(from as int, chars.len() as int) =~= line);
        line.index_of_first_ensures('$');
        line.index_of_first_ensures('!');
    }
    let dollar = find_char(chars, from, chars.len(), '$');
    let bang = find_char(chars, from, chars.len(), '!');
    match (dollar, bang) {
        (Some(d), Some(b)) => Some(
            if d < b {
                d
            } else {
                b
            },
        ),
        (Some(d), None) => Some(d),
        (None, Some(b)) => Some(b),
        (None, None) => None,
    }
}

/// Finds where the body of the sentence `chars[start..]` ends, as an index
/// of `chars`.
pub fn find_body_end(chars: &Vec<char>, start: usize) -> (end: usize)
    requires
        start <= chars.len(),
    ensures
        start <= end <= chars.len(),
        end - start == body_end(chars@.skip(start as int)),
{
    proof {
        assert(chars@.subrange(start as int, chars.len() as int) =~= chars@.skip(start as int));
        chars@.skip(start as int).index_of_last_ensures('*');
    }
    match rfind_char(chars, start, chars.len(), '*') {
        Some(star) => star,
        None => chars.len(),
    }
}

/// Holds the checksum of the body `chars[start..end]`, less its first
/// character, against the two characters behind `chars[end]`, where they are
/// there.
pub fn check_sentence(line: &str, chars: &Vec<char>, start: usize, end: usize) -> (result: Result<
    (),
    ParseError,
>)
    requires
        chars@ == line@,
        start < end <= chars.len(),
        end - start == body_end(chars@.skip(start as int)),
    ensures
        match result {
            Ok(()) => validated(
                body_of(chars@.skip(start as int)).drop_first(),
                expected_of(chars@.skip(start as int)),
            ) is Ok,
            Err(e) => validated(
                body_of(chars@.skip(start as int)).drop_first(),
                expected_of(chars@.skip(start as int)),
            ) == Err::<(), ParseErrorView>(e@),
        },
{
    let ghost sentence = chars@.skip(start as int);
    proof {
        assert(body_of(sentence).drop_first() =~= chars@.subrange(start + 1, end as int));
    }
    if chars.len() - end < 3 {
        assert(expected_of(sentence) =~= Seq::<char>::empty());
        return Ok(());
    }
    let ghost expected = chars@.subrange(end + 1, end + 3);
    assert(expected_of(sentence) =~= expected);
    let sum = checksum_range(chars, start + 1, end);
    let mut given: Vec<char> = Vec::new();
    given.push(chars[end + 1]);
    given.push(chars[end + 2]);
    assert(given@ =~= expected);
    if matches_hex(&given, sum) {
        Ok(())
    } else {
        Err(ParseError::CorruptedSentence(corrupted(sum, line.substring_char(end + 1, end + 3))))
    }
}

/// Whether `c` may stand in the type of a sentence.
pub fn type_char(c: char) -> (allowed: bool)
    ensures
        allowed == is_type_char(c),
{
    ('0' <= c && c <= '9') || ('a' <= c && c <= 'z') || ('A' <= c && c <= 'Z') || c == '$' || c
        == '!'
}

/// Finds the type of the sentence whose body is `chars[start..end]`: returns
/// where the type ends, as an index of `chars`.
pub fn find_type(line: &str, chars: &Vec<char>, start: usize, end: usize) -> (result: Result<
    usize,
    ParseError,
>)
    requires
        chars@ == line@,
        start <= end <= chars.len(),
    ensures
        match result {
            Ok(comma) => start <= comma < end && type_of(chars@.subrange(start as int, end as int))
                == Ok::<Seq<char>, ParseErrorView>(chars@.subrange(start as int, comma as int)),
            Err(e) => type_of(chars@.subrange(start as int, end as int)) == Err::<
                Seq<char>,
                ParseErrorView,
            >(e@),
        },
{
    let ghost body = chars@.subrange(start as int, end as int);
    proof {
        body.index_of_first_ensures(',');
    }
    let comma = match find_char(chars, start, end, ',') {
        Some(comma) => comma,
        None => {
            return Err(
                ParseError::InvalidSentence(
                    String::from_str("Invalid NMEA sentence: ").concat(
                        line.substring_char(start, end),
                    ),
                ),
            );
        },
    };
    let ghost token = body.take(comma - start);
    assert(token =~= chars@.subrange(start as int, comma as int));
    let mut i: usize = start;
    while i < comma
        invariant
            start <= i <= comma < end <= chars.len(),
            chars@ == line@,
            body == chars@.subrange(start as int, end as int),
            body.index_of_first(',') == Some(comma - start),
            token == body.take(comma - start),
            token == chars@.subrange(start as int, comma as int),
            forall|j: int| 0 <= j < i - start ==> is_type_char(#[trigger] token[j]),
        decreases comma - i,
    {
        if !type_char(chars[i]) {
            assert(!is_type_char(token[i - start]));
            return Err(
                ParseError::InvalidSentence(
                    String::from_str("Invalid characters in sentence type: ").concat(
                        line.substring_char(start, comma),
                    ),
                ),
            );
        }
        i += 1;
    }
    Ok(comma)
}

/// Tells where the sentence of the type `chars[start..end]` goes.
pub fn route(line: &str, chars: &Vec<char>, start: usize, end: usize) -> (result: Result<
    Route,
    ParseError,
>)
    requires
        chars@ == line@,
        start <= end <= chars.len(),
    ensures
        match result {
            Ok(r) => route_of(chars@.subrange(start as int, end as int)) == Ok::<
                Route,
                ParseErrorView,
            >(r),
            Err(e) => route_of(chars@.subrange(start as int, end as int)) == Err::<
                Route,
                ParseErrorView,
            >(e@),
        },
{
    let ghost token = chars@.subrange(start as int, end as int);
    let n = end - start;
    let (a, b, c) = if n == 6 {
        (chars[start + 3], chars[start + 4], chars[start + 5])
    } else if n == 4 {
        (chars[start + 1], chars[start + 2], chars[start + 3])
    } else {
        (' ', ' ', ' ')
    };
    let four = n == 6 || n == 4;
    proof {
        let short = short_type(token);
        assert(short.len() == 4 <==> four);
        if four {
            assert(short[1] == a && short[2] == b && short[3] == c);
        }
        if n >= 1 {
            assert(token.skip(1).len() == n - 1);
            if n >= 3 {
                assert(token.skip(1)[0] == chars@[start + 1]);
                assert(token.skip(1)[1] == chars@[start + 2]);
            }
        }
    }
    if n > 0 && chars[start] == '$' {
        if n < 3 {
            return Err(ParseError::InvalidSentence(String::from_str("Invalid talker identifier")));
        }
        let nav_system = NavigationSystem::for_letters(chars[start + 1], chars[start + 2]);
        if four {
            match GnssSentenceKind::for_letters(a, b, c) {
                Some(kind) => {
                    return Ok(Route::Gnss { kind, nav_system });
                },
                None => {},
            }
        }
    } else if n > 0 && chars[start] == '!' {
        if n < 3 {
            return Err(
                ParseError::InvalidSentence(String::from_str("Invalid station identifier")),
            );
        }
        let station = Station::for_letters(chars[start + 1], chars[start + 2]);
        if four && a == 'V' && b == 'D' && (c == 'M' || c == 'O') {
            return Ok(Route::Ais { own_vessel: c == 'O', station });
        }
    }
    let short = if n == 6 {
        String::from_str(line.substring_char(start, start + 1)).concat(
            line.substring_char(start + 3, end),
        )
    } else {
        String::from_str(line.substring_char(start, end))
    };
    assert(short@ =~= short_type(token));
    Err(
        ParseError::UnsupportedSentenceType(
            String::from_str("Unsupported sentence type: ").concat(short.as_str()),
        ),
    )
}

/// Reads what the AIS sentence with the body `chars[start..end]` says of its
/// part of a message.
pub fn fragment(line: &str, chars: &Vec<char>, start: usize, end: usize, own_vessel: bool) -> (result:
    Result<AisFragment, ParseError>)
    requires
        chars@ == line@,
        start <= end <= chars.len(),
    ensures
        match result {
            Ok(f) => fragment_of(chars@.subrange(start as int, end as int), own_vessel) == Ok::<
                AisFragmentView,
                ParseErrorView,
            >(f@),
            Err(e) => fragment_of(chars@.subrange(start as int, end as int), own_vessel) == Err::<
                AisFragmentView,
                ParseErrorView,
            >(e@),
        },
{
    let ranges = split_ranges(chars, start, end, ',');
    let n = ranges.len();
    let ghost fields = split(chars@.subrange(start as int, end as int), ',');
    proof {
        assert forall|k: int| 0 <= k < n implies #[trigger] fields[k] == chars@.subrange(
            ranges[k].0 as int,
            ranges[k].1 as int,
        ) by {
            assert(fields[k] == parts_of(chars@, ranges@)[k]);
        }
    }
    let mut fragment_count: u8 = 0;
    if n > 1 {
        let (from, to) = ranges[1];
        match parse_u8(chars, from, to) {
            Some(count) => {
                fragment_count = count;
            },
            None => {
                return Err(
                    ParseError::CorruptedSentence(
                        String::from_str("Failed to parse fragment count: ").concat(
                            line.substring_char(from, to),
                        ),
                    ),
                );
            },
        }
    }
    let mut fragment_number: u8 = 0;
    if n > 2 {
        let (from, to) = ranges[2];
        match parse_u8(chars, from, to) {
            Some(number) => {
                fragment_number = number;
            },
            None => {
                return Err(
                    ParseError::CorruptedSentence(
                        String::from_str("Failed to parse fragment count: ").concat(
                            line.substring_char(from, to),
                        ),
                    ),
                );
            },
        }
    }
    let message_id = if n > 3 {
        parse_u64(chars, ranges[3].0, ranges[3].1)
    } else {
        None
    };
    let radio_channel_code = if n > 4 {
        String::from_str(line.substring_char(ranges[4].0, ranges[4].1))
    } else {
        String::new()
    };
    let payload = if n > 5 {
        String::from_str(line.substring_char(ranges[5].0, ranges[5].1))
    } else {
        String::new()
    };
    Ok(
        AisFragment {
            own_vessel,
            fragment_count,
            fragment_number,
            message_id,
            radio_channel_code,
            payload,
        },
    )
}

} // verus!
