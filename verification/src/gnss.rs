//! The satellite systems and sentence types of GNSS receivers. A sentence of
//! one of these types is told apart and handed on as it is: its fields are
//! plain text between commas, left to the reader.

use vstd::prelude::*;
use vstd::string::*;
use crate::error::{ParseError, ParseErrorView};
use crate::text::to_chars;

verus! {

/// The satellite system that a talker identifier names.
#[derive(Clone, Copy, Debug, PartialEq, Eq, Structural)]
pub enum NavigationSystem {
    /// Several systems combined (`GN`).
    Combination,
    /// GPS (`GP`).
    Gps,
    /// GLONASS (`GL`).
    Glonass,
    /// Galileo (`GA`).
    Galileo,
    /// BeiDou (`BD`).
    Beidou,
    /// NavIC (`GI`).
    Navic,
    /// QZSS (`QZ`).
    Qzss,
    /// Any other talker.
    Other,
}

/// The sentence types that are told apart, each by its three letters.
#[derive(Clone, Copy, Debug, PartialEq, Eq, Structural)]
pub enum GnssSentenceKind {
    /// Global positioning system fix data.
    Gga,
    /// Recommended minimum specific GNSS data.
    Rmc,
    /// GNSS fix data.
    Gns,
    /// DOP and active satellites.
    Gsa,
    /// Satellites in view.
    Gsv,
    /// Track made good and ground speed.
    Vtg,
    /// Geographic position, latitude and longitude.
    Gll,
    /// Almanac data.
    Alm,
    /// Datum reference.
    Dtm,
    /// MSK receiver signal.
    Mss,
    /// Multiple data identifier.
    Stn,
    /// Dual ground and water speed.
    Vbw,
    /// Time and date.
    Zda,
    /// Depth of water.
    Dpt,
    /// Depth below surface.
    Dbs,
    /// Water temperature.
    Mtw,
    /// Water speed and heading.
    Vhw,
    /// True heading.
    Hdt,
    /// Wind speed and angle.
    Mwv,
}

/// The system that the two characters of a talker identifier name.
pub open spec fn system_for(first: char, second: char) -> NavigationSystem {
    if first == 'G' && second == 'N' {
        NavigationSystem::Combination
    } else if first == 'G' && second == 'P' {
        NavigationSystem::Gps
    } else if first == 'G' && second == 'L' {
        NavigationSystem::Glonass
    } else if first == 'G' && second == 'A' {
        NavigationSystem::Galileo
    } else if first == 'B' && second == 'D' {
        NavigationSystem::Beidou
    } else if first == 'G' && second == 'I' {
        NavigationSystem::Navic
    } else if first == 'Q' && second == 'Z' {
        NavigationSystem::Qzss
    } else {
        NavigationSystem::Other
    }
}

/// The system that a talker names by its first two characters; an error for
/// a talker of fewer than two.
pub open spec fn system_of(talker: Seq<char>) -> Result<NavigationSystem, ParseErrorView> {
    if talker.len() < 2 {
        Err(ParseErrorView::InvalidSentence("Invalid talker identifier"@))
    } else {
        Ok(system_for(talker[0], talker[1]))
    }
}

/// The sentence type that three letters name, if it is one that is known.
pub open spec fn kind_for(a: char, b: char, c: char) -> Option<GnssSentenceKind> {
    if a == 'G' && b == 'G' && c == 'A' {
        Some(GnssSentenceKind::Gga)
    } else if a == 'R' && b == 'M' && c == 'C' {
        Some(GnssSentenceKind::Rmc)
    } else if a == 'G' && b == 'N' && c == 'S' {
        Some(GnssSentenceKind::Gns)
    } else if a == 'G' && b == 'S' && c == 'A' {
        Some(GnssSentenceKind::Gsa)
    } else if a == 'G' && b == 'S' && c == 'V' {
        Some(GnssSentenceKind::Gsv)
    } else if a == 'V' && b == 'T' && c == 'G' {
        Some(GnssSentenceKind::Vtg)
    } else if a == 'G' && b == 'L' && c == 'L' {
        Some(GnssSentenceKind::Gll)
    } else if a == 'A' && b == 'L' && c == 'M' {
        Some(GnssSentenceKind::Alm)
    } else if a == 'D' && b == 'T' && c == 'M' {
        Some(GnssSentenceKind::Dtm)
    } else if a == 'M' && b == 'S' && c == 'S' {
        Some(GnssSentenceKind::Mss)
    } else if a == 'S' && b == 'T' && c == 'N' {
        Some(GnssSentenceKind::Stn)
    } else if a == 'V' && b == 'B' && c == 'W' {
        Some(GnssSentenceKind::Vbw)
    } else if a == 'Z' && b == 'D' && c == 'A' {
        Some(GnssSentenceKind::Zda)
    } else if a == 'D' && b == 'P' && c == 'T' {
        Some(GnssSentenceKind::Dpt)
    } else if a == 'D' && b == 'B' && c == 'S' {
        Some(GnssSentenceKind::Dbs)
    } else if a == 'M' && b == 'T' && c == 'W' {
        Some(GnssSentenceKind::Mtw)
    } else if a == 'V' && b == 'H' && c == 'W' {
        Some(GnssSentenceKind::Vhw)
    } else if a == 'H' && b == 'D' && c == 'T' {
        Some(GnssSentenceKind::Hdt)
    } else if a == 'M' && b == 'W' && c == 'V' {
        Some(GnssSentenceKind::Mwv)
    } else {
        None
    }
}

impl NavigationSystem {
    /// The system named by the two characters `first` and `second`.
    pub fn for_letters(first: char, second: char) -> (system: NavigationSystem)
        ensures
            system == system_for(first, second),
    {
        if first == 'G' && second == 'N' {
            NavigationSystem::Combination
        } else if first == 'G' && second == 'P' {
            NavigationSystem::Gps
        } else if first == 'G' && second == 'L' {
            NavigationSystem::Glonass
        } else if first == 'G' && second == 'A' {
            NavigationSystem::Galileo
        } else if first == 'B' && second == 'D' {
            NavigationSystem::Beidou
        } else if first == 'G' && second == 'I' {
            NavigationSystem::Navic
        } else if first == 'Q' && second == 'Z' {
            NavigationSystem::Qzss
        } else {
            NavigationSystem::Other
        }
    }

    /// The system that a talker identifier names, such as `GP` or the `GPRMC`
    /// that starts with it.
    pub fn from_talker(talker: &str) -> (result: Result<NavigationSystem, ParseError>)
        ensures
            match result {
                Ok(system) => system_of(talker@) == Ok::<NavigationSystem, ParseErrorView>(system),
                Err(e) => system_of(talker@) == Err::<NavigationSystem, ParseErrorView>(e@),
            },
    {
        let chars = to_chars(talker);
        if chars.len() < 2 {
            Err(ParseError::InvalidSentence(String::from_str("Invalid talker identifier")))
        } else {
            Ok(NavigationSystem::for_letters(chars[0], chars[1]))
        }
    }
}

impl GnssSentenceKind {
    /// The sentence type that the three letters name.
    pub fn for_letters(a: char, b: char, c: char) -> (kind: Option<GnssSentenceKind>)
        ensures
            kind == kind_for(a, b, c),
    {
        if a == 'G' && b == 'G' && c == 'A' {
            Some(GnssSentenceKind::Gga)
        } else if a == 'R' && b == 'M' && c == 'C' {
            Some(GnssSentenceKind::Rmc)
        } else if a == 'G' && b == 'N' && c == 'S' {
            Some(GnssSentenceKind::Gns)
        } else if a == 'G' && b == 'S' && c == 'A' {
            Some(GnssSentenceKind::Gsa)
        } else if a == 'G' && b == 'S' && c == 'V' {
            Some(GnssSentenceKind::Gsv)
        } else if a == 'V' && b == 'T' && c == 'G' {
            Some(GnssSentenceKind::Vtg)
        } else if a == 'G' && b == 'L' && c == 'L' {
            Some(GnssSentenceKind::Gll)
        } else if a == 'A' && b == 'L' && c == 'M' {
            Some(GnssSentenceKind::Alm)
        } else if a == 'D' && b == 'T' && c == 'M' {
            Some(GnssSentenceKind::Dtm)
        } else if a == 'M' && b == 'S' && c == 'S' {
            Some(GnssSentenceKind::Mss)
        } else if a == 'S' && b == 'T' && c == 'N' {
            Some(GnssSentenceKind::Stn)
        } else if a == 'V' && b == 'B' && c == 'W' {
            Some(GnssSentenceKind::Vbw)
        } else if a == 'Z' && b == 'D' && c == 'A' {
            Some(GnssSentenceKind::Zda)
        } else if a == 'D' && b == 'P' && c == 'T' {
            Some(GnssSentenceKind::Dpt)
        } else if a == 'D' && b == 'B' && c == 'S' {
            Some(GnssSentenceKind::Dbs)
        } else if a == 'M' && b == 'T' && c == 'W' {
            Some(GnssSentenceKind::Mtw)
        } else if a == 'V' && b == 'H' && c == 'W' {
            Some(GnssSentenceKind::Vhw)
        } else if a == 'H' && b == 'D' && c == 'T' {
            Some(GnssSentenceKind::Hdt)
        } else if a == 'M' && b == 'W' && c == 'V' {
            Some(GnssSentenceKind::Mwv)
        } else {
            None
        }
    }
}

} // verus!
