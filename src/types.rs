use vstd::prelude::*;
use crate::text::{
    chars_of, lower_seq, lowered_range_is, parse_i64, parse_i64_spec, parse_u64, parse_u64_spec,
};

verus! {

/// A field value as read from the store: its string form, its
/// unsigned-integer form and its signed-integer form, each where it has one.
#[derive(Debug)]
pub struct RawValue {
    pub text: Option<String>,
    pub number: Option<u64>,
    pub integer: Option<i64>,
}

/// Why a record could not be decoded; each variant names the field at fault.
#[derive(Clone, Copy, Debug, PartialEq, Eq, Structural)]
pub enum DecodeError {
    /// `baseurl` is absent, empty, or has no string form.
    BaseUrl,
    /// `region` has no string form.
    Region,
    /// `location` has no string form.
    Location,
    /// `tier` is neither an unsigned integer nor "tor".
    Tier,
    /// `proto` has no string form, or a protocol token is not recognised.
    Protocol,
}

/// Geographic class of a mirror.
#[derive(Clone, Copy, Debug, PartialEq, Eq, Structural)]
pub enum Region {
    /// Africa
    AF,
    /// Antarctica
    AN,
    /// Asia
    AS,
    /// Europe
    EU,
    /// North America
    NA,
    /// Oceania
    OC,
    /// South and Central America
    SA,
    /// Default
    Default,
    /// Globally available
    World,
    /// Unknown
    Unknown,
}

/// A mirror's class: a numeric rank, a Tor mirror, or not known.
#[derive(Clone, Copy, Debug, PartialEq, Eq, Structural)]
pub enum Tier {
    /// Regular mirrors
    Numeric(u64),
    /// Tor mirrors
    Tor,
    Unknown,
}

/// A transfer protocol a mirror serves.
#[derive(Clone, Copy, Debug, PartialEq, Eq, Structural)]
pub enum Protocol {
    Ftp,
    Http,
    Https,
    Rsync,
}

pub open spec fn text_view(v: RawValue) -> Option<Seq<char>> {
    match v.text {
        Some(s) => Some(s@),
        None => None,
    }
}

/// Whether the value is an integer other than 0, signed or unsigned.
pub open spec fn nonzero_integer(v: RawValue) -> bool {
    (v.number is Some && v.number->Some_0 != 0) || (v.integer is Some && v.integer->Some_0 != 0)
}

/// The region that a text names, ignoring letter case; `Unknown` for any
/// other text.
pub open spec fn region_of_text(t: Seq<char>) -> Region {
    let l = lower_seq(t);
    if l == "af"@ {
        Region::AF
    } else if l == "an"@ {
        Region::AN
    } else if l == "as"@ {
        Region::AS
    } else if l == "eu"@ {
        Region::EU
    } else if l == "na"@ {
        Region::NA
    } else if l == "oc"@ {
        Region::OC
    } else if l == "sa"@ {
        Region::SA
    } else if l == "default"@ {
        Region::Default
    } else if l == "world"@ {
        Region::World
    } else {
        Region::Unknown
    }
}

pub open spec fn region_of(v: RawValue) -> Result<Region, DecodeError> {
    match text_view(v) {
        Some(t) => Ok(region_of_text(t)),
        None => Err(DecodeError::Region),
    }
}

/// The code a region is written with in the public listing.
pub open spec fn region_code(r: Region) -> Seq<char> {
    match r {
        Region::AF => "AF"@,
        Region::AN => "AN"@,
        Region::AS => "AS"@,
        Region::EU => "EU"@,
        Region::NA => "NA"@,
        Region::OC => "OC"@,
        Region::SA => "SA"@,
        Region::Default => "Default"@,
        Region::World => "World"@,
        Region::Unknown => "Unknown"@,
    }
}

/// An unsigned integer is a numeric tier; otherwise the text "tor", in any
/// letter case, is the Tor tier; anything else is an error.
pub open spec fn tier_of(v: RawValue) -> Result<Tier, DecodeError> {
    match v.number {
        Some(n) => Ok(Tier::Numeric(n)),
        None => match text_view(v) {
            Some(t) => if lower_seq(t) == "tor"@ {
                Ok(Tier::Tor)
            } else {
                Err(DecodeError::Tier)
            },
            None => Err(DecodeError::Tier),
        },
    }
}

/// The word a non-numeric tier is written with.
pub open spec fn tier_word(t: Tier) -> Seq<char> {
    match t {
        Tier::Tor => "tor"@,
        _ => "unknown"@,
    }
}

/// Whether `v` is the public form of `t`: a bare number for a numeric
/// tier, else its word.
pub open spec fn tier_encoded(t: Tier, v: RawValue) -> bool {
    match t {
        Tier::Numeric(n) => v.number == Some(n) && v.text is None,
        _ => v.number is None && text_view(v) == Some(tier_word(t)),
    }
}

/// The protocol that a token names, ignoring letter case.
pub open spec fn protocol_of_token(t: Seq<char>) -> Option<Protocol> {
    let l = lower_seq(t);
    if l == "ftp"@ {
        Some(Protocol::Ftp)
    } else if l == "http"@ {
        Some(Protocol::Http)
    } else if l == "https"@ {
        Some(Protocol::Https)
    } else if l == "rsync"@ {
        Some(Protocol::Rsync)
    } else {
        None
    }
}

pub open spec fn protocol_of(v: RawValue) -> Result<Protocol, DecodeError> {
    match text_view(v) {
        Some(t) => match protocol_of_token(t) {
            Some(p) => Ok(p),
            None => Err(DecodeError::Protocol),
        },
        None => Err(DecodeError::Protocol),
    }
}

/// The lowercase token a protocol is written with.
pub open spec fn protocol_name(p: Protocol) -> Seq<char> {
    match p {
        Protocol::Ftp => "ftp"@,
        Protocol::Http => "http"@,
        Protocol::Https => "https"@,
        Protocol::Rsync => "rsync"@,
    }
}

/// Whether the whole of `v`, lowered, is `kw`.
fn lowered_is(v: &Vec<char>, kw: &str) -> (r: bool)
    ensures
        r == (lower_seq(v@) == kw@),
{
    let n = v.len();
    assert(v@.subrange(0, n as int) =~= v@);
    lowered_range_is(v, 0, n, kw)
}

impl RawValue {
    /// A string value as the store hands it out: its integer forms are the
    /// string read as an unsigned and as a signed decimal, where it is one.
    pub fn from_text(s: String) -> (r: RawValue)
        ensures
            text_view(r) == Some(s@),
            r.number == parse_u64_spec(s@),
            r.integer == parse_i64_spec(s@),
    {
        let number = parse_u64(s.as_str());
        let integer = parse_i64(s.as_str());
        RawValue { text: Some(s), number, integer }
    }

    /// A value with neither a string nor an integer form.
    pub fn empty() -> (r: RawValue)
        ensures
            r.text is None,
            r.number is None,
            r.integer is None,
    {
        RawValue { text: None, number: None, integer: None }
    }
}

impl Region {
    /// Decodes a region from its text, ignoring letter case; unrecognised text
    /// is `Unknown`. Fails only when the value has no string form.
    pub fn from_value(v: &RawValue) -> (r: Result<Region, DecodeError>)
        ensures
            r == region_of(*v),
    {
        match &v.text {
            None => Err(DecodeError::Region),
            Some(s) => {
                let c = chars_of(s.as_str());
                if lowered_is(&c, "af") {
                    Ok(Region::AF)
                } else if lowered_is(&c, "an") {
                    Ok(Region::AN)
                } else if lowered_is(&c, "as") {
                    Ok(Region::AS)
                } else if lowered_is(&c, "eu") {
                    Ok(Region::EU)
                } else if lowered_is(&c, "na") {
                    Ok(Region::NA)
                } else if lowered_is(&c, "oc") {
                    Ok(Region::OC)
                } else if lowered_is(&c, "sa") {
                    Ok(Region::SA)
                } else if lowered_is(&c, "default") {
                    Ok(Region::Default)
                } else if lowered_is(&c, "world") {
                    Ok(Region::World)
                } else {
                    Ok(Region::Unknown)
                }
            },
        }
    }

    /// The code the region is written with in the public listing.
    pub fn code(&self) -> (r: &'static str)
        ensures
            r@ == region_code(*self),
    {
        match self {
            Region::AF => "AF",
            Region::AN => "AN",
            Region::AS => "AS",
            Region::EU => "EU",
            Region::NA => "NA",
            Region::OC => "OC",
            Region::SA => "SA",
            Region::Default => "Default",
            Region::World => "World",
            Region::Unknown => "Unknown",
        }
    }
}

impl Tier {
    /// Decodes a tier: an unsigned integer first, then the text "tor" in any
    /// letter case; anything else fails.
    pub fn from_value(v: &RawValue) -> (r: Result<Tier, DecodeError>)
        ensures
            r == tier_of(*v),
    {
        match v.number {
            Some(n) => Ok(Tier::Numeric(n)),
            None => match &v.text {
                Some(s) => {
                    let c = chars_of(s.as_str());
                    if lowered_is(&c, "tor") {
                        Ok(Tier::Tor)
                    } else {
                        Err(DecodeError::Tier)
                    }
                },
                None => Err(DecodeError::Tier),
            },
        }
    }

    /// The public form of the tier: a bare number for a numeric tier, else
    /// the word "tor" or "unknown".
    pub fn to_raw(&self) -> (r: RawValue)
        ensures
            tier_encoded(*self, r),
    {
        match self {
            Tier::Numeric(n) => RawValue { text: None, number: Some(*n), integer: None },
            Tier::Tor => RawValue {
                text: Some(String::from_str("tor")),
                number: None,
                integer: None,
            },
            Tier::Unknown => RawValue {
                text: Some(String::from_str("unknown")),
                number: None,
                integer: None,
            },
        }
    }
}

impl Protocol {
    /// Looks a protocol up by its token, ignoring letter case.
    pub fn try_from(value: &str) -> (r: Result<Protocol, DecodeError>)
        ensures
            r == (match protocol_of_token(value@) {
                Some(p) => Ok(p),
                None => Err(DecodeError::Protocol),
            }),
    {
        let c = chars_of(value);
        assert(c@.subrange(0, c@.len() as int) =~= value@);
        match Protocol::from_chars(&c, 0, c.len()) {
            Some(p) => Ok(p),
            None => Err(DecodeError::Protocol),
        }
    }

    /// Looks up the protocol that `v[start..end]` names, ignoring letter case.
    pub fn from_chars(v: &Vec<char>, start: usize, end: usize) -> (r: Option<Protocol>)
        requires
            start <= end <= v@.len(),
        ensures
            r == protocol_of_token(v@.subrange(start as int, end as int)),
    {
        if lowered_range_is(v, start, end, "ftp") {
            Some(Protocol::Ftp)
        } else if lowered_range_is(v, start, end, "http") {
            Some(Protocol::Http)
        } else if lowered_range_is(v, start, end, "https") {
            Some(Protocol::Https)
        } else if lowered_range_is(v, start, end, "rsync") {
            Some(Protocol::Rsync)
        } else {
            None
        }
    }

    /// Decodes one protocol from a value's string form.
    pub fn from_value(v: &RawValue) -> (r: Result<Protocol, DecodeError>)
        ensures
            r == protocol_of(*v),
    {
        match &v.text {
            Some(s) => Protocol::try_from(s.as_str()),
            None => Err(DecodeError::Protocol),
        }
    }

    /// The lowercase token of the protocol.
    pub fn name(&self) -> (r: &'static str)
        ensures
            r@ == protocol_name(*self),
    {
        match self {
            Protocol::Ftp => "ftp",
            Protocol::Http => "http",
            Protocol::Https => "https",
            Protocol::Rsync => "rsync",
        }
    }

    /// The lowercase token of the protocol, as an owned string.
    pub fn to_string(&self) -> (r: String)
        ensures
            r@ == protocol_name(*self),
    {
        String::from_str(self.name())
    }
}

} // verus!
