use vstd::prelude::*;
use crate::text::chars_of;
use crate::types::{
    nonzero_integer, protocol_of_token, region_of, text_view, tier_of, DecodeError, Protocol,
    RawValue, Region, Tier,
};

verus! {

/// One download mirror.
#[derive(Debug)]
pub struct Mirror {
    pub id: u64,
    pub baseurl: String,
    pub region: Region,
    pub location: String,
    pub tier: Tier,
    pub enabled: bool,
    pub protocols: Vec<Protocol>,
}

/// What a `Mirror` holds, with its strings and list as sequences.
pub struct MirrorView {
    pub id: u64,
    pub baseurl: Seq<char>,
    pub region: Region,
    pub location: Seq<char>,
    pub tier: Tier,
    pub enabled: bool,
    pub protocols: Seq<Protocol>,
}

impl View for Mirror {
    type V = MirrorView;

    open spec fn view(&self) -> MirrorView {
        MirrorView {
            id: self.id,
            baseurl: self.baseurl@,
            region: self.region,
            location: self.location@,
            tier: self.tier,
            enabled: self.enabled,
            protocols: self.protocols@,
        }
    }
}

/// A raw record: field names with their values, as the store hands them
/// out. No name occurs twice.
pub struct Record {
    fields: Vec<(String, RawValue)>,
}

impl View for Record {
    type V = Seq<(String, RawValue)>;

    closed spec fn view(&self) -> Seq<(String, RawValue)> {
        self.fields@
    }
}

/// No two fields share a name.
pub open spec fn names_unique(s: Seq<(String, RawValue)>) -> bool {
    forall|i: int, j: int| 0 <= i < j < s.len() ==> s[i].0@ != s[j].0@
}

/// The value of the first field named `k`.
pub open spec fn field_of(rec: Seq<(String, RawValue)>, k: Seq<char>) -> Option<RawValue>
    decreases rec.len(),
{
    if rec.len() == 0 {
        None
    } else if rec[0].0@ == k {
        Some(rec[0].1)
    } else {
        field_of(rec.subrange(1, rec.len() as int), k)
    }
}

pub open spec fn opt_seq(p: Option<Protocol>) -> Seq<Protocol> {
    match p {
        Some(x) => seq![x],
        None => Seq::empty(),
    }
}

/// The protocols named by the comma-separated tokens of `s` from the token
/// that starts at `start`, where `start..i` holds no comma; unrecognised
/// tokens are left out, the order of the others is kept.
pub open spec fn protocols_from(s: Seq<char>, start: int, i: int) -> Seq<Protocol>
    decreases s.len() - i,
{
    if i >= s.len() {
        opt_seq(protocol_of_token(s.subrange(start, s.len() as int)))
    } else if s[i] == ',' {
        opt_seq(protocol_of_token(s.subrange(start, i))) + protocols_from(s, i + 1, i + 1)
    } else {
        protocols_from(s, start, i + 1)
    }
}

/// The protocols named by a comma-separated list.
pub open spec fn protocol_list(s: Seq<char>) -> Seq<Protocol> {
    protocols_from(s, 0, 0)
}

pub open spec fn region_field(rec: Seq<(String, RawValue)>) -> Result<Region, DecodeError> {
    match field_of(rec, "region"@) {
        Some(v) => region_of(v),
        None => Ok(Region::Unknown),
    }
}

pub open spec fn location_field(rec: Seq<(String, RawValue)>) -> Result<Seq<char>, DecodeError> {
    match field_of(rec, "location"@) {
        Some(v) => match text_view(v) {
            Some(t) => Ok(t),
            None => Err(DecodeError::Location),
        },
        None => Ok("unkonwn"@),
    }
}

pub open spec fn tier_field(rec: Seq<(String, RawValue)>) -> Result<Tier, DecodeError> {
    match field_of(rec, "tier"@) {
        Some(v) => tier_of(v),
        None => Ok(Tier::Unknown),
    }
}

pub open spec fn enabled_field(rec: Seq<(String, RawValue)>) -> bool {
    match field_of(rec, "enabled"@) {
        Some(v) => nonzero_integer(v),
        None => false,
    }
}

pub open spec fn protocols_field(rec: Seq<(String, RawValue)>) -> Result<Seq<Protocol>, DecodeError> {
    match field_of(rec, "proto"@) {
        Some(v) => match text_view(v) {
            Some(t) => Ok(protocol_list(t)),
            None => Err(DecodeError::Protocol),
        },
        None => Ok(Seq::empty()),
    }
}

pub open spec fn baseurl_field(rec: Seq<(String, RawValue)>) -> Result<Seq<char>, DecodeError> {
    match field_of(rec, "baseurl"@) {
        Some(v) => match text_view(v) {
            Some(t) => if t.len() > 0 {
                Ok(t)
            } else {
                Err(DecodeError::BaseUrl)
            },
            None => Err(DecodeError::BaseUrl),
        },
        None => Err(DecodeError::BaseUrl),
    }
}

/// Decoding of a record, with id 0: the first failing field, in the order
/// baseurl, region, location, tier, proto, gives the error.
pub open spec fn mirror_of(rec: Seq<(String, RawValue)>) -> Result<MirrorView, DecodeError> {
    if baseurl_field(rec) is Err {
        Err(DecodeError::BaseUrl)
    } else if region_field(rec) is Err {
        Err(region_field(rec)->Err_0)
    } else if location_field(rec) is Err {
        Err(location_field(rec)->Err_0)
    } else if tier_field(rec) is Err {
        Err(tier_field(rec)->Err_0)
    } else if protocols_field(rec) is Err {
        Err(protocols_field(rec)->Err_0)
    } else {
        Ok(
            MirrorView {
                id: 0,
                baseurl: baseurl_field(rec)->Ok_0,
                region: region_field(rec)->Ok_0,
                location: location_field(rec)->Ok_0,
                tier: tier_field(rec)->Ok_0,
                enabled: enabled_field(rec),
                protocols: protocols_field(rec)->Ok_0,
            },
        )
    }
}

/// Decoding results as a function of the outcome: `Ok` holds the view.
pub open spec fn decoded_as(r: Result<Mirror, DecodeError>, s: Result<MirrorView, DecodeError>) -> bool {
    match r {
        Ok(m) => s == Ok::<MirrorView, DecodeError>(m@),
        Err(e) => s == Err::<MirrorView, DecodeError>(e),
    }
}

/// Position of the first field named `k`.
fn find_field(rec: &Vec<(String, RawValue)>, k: &str) -> (r: Option<usize>)
    ensures
        match r {
            Some(i) => i < rec@.len() && rec@[i as int].0@ == k@ && field_of(rec@, k@) == Some(
                rec@[i as int].1,
            ),
            None => field_of(rec@, k@) is None && forall|j: int|
                0 <= j < rec@.len() ==> #[trigger] rec@[j].0@ != k@,
        },
{
    let key = String::from_str(k);
    let mut i: usize = 0;
    assert(rec@.subrange(0, rec@.len() as int) =~= rec@);
    while i < rec.len()
        invariant
            key@ == k@,
            i <= rec@.len(),
            forall|j: int| 0 <= j < i ==> #[trigger] rec@[j].0@ != k@,
            field_of(rec@, k@) == field_of(rec@.subrange(i as int, rec@.len() as int), k@),
        decreases rec@.len() - i,
    {
        let ghost rest = rec@.subrange(i as int, rec@.len() as int);
        assert(rest[0] == rec@[i as int]);
        if rec[i].0 == key {
            return Some(i);
        }
        assert(rest.subrange(1, rest.len() as int) =~= rec@.subrange(i + 1, rec@.len() as int));
        i += 1;
    }
    None
}

/// The protocols named by a comma-separated list; unrecognised tokens are
/// dropped and the order of the others is kept.
pub fn protocols_from_text(s: &str) -> (r: Vec<Protocol>)
    ensures
        r@ == protocol_list(s@),
{
    let c = chars_of(s);
    let n = c.len();
    let mut out: Vec<Protocol> = Vec::new();
    let mut start: usize = 0;
    let mut i: usize = 0;
    while i < n
        invariant
            c@ == s@,
            n == c@.len(),
            start <= i <= n,
            out@ + protocols_from(s@, start as int, i as int) == protocol_list(s@),
        decreases n - i,
    {
        if c[i] == ',' {
            let p = Protocol::from_chars(&c, start, i);
            let ghost before = out@;
            match p {
                Some(x) => out.push(x),
                None => {},
            }
            assert(out@ =~= before + opt_seq(p));
            assert(before + (opt_seq(p) + protocols_from(s@, i + 1, i + 1)) =~= out@
                + protocols_from(s@, i + 1, i + 1));
            start = i + 1;
        }
        i += 1;
    }
    let p = Protocol::from_chars(&c, start, n);
    let ghost before = out@;
    match p {
        Some(x) => out.push(x),
        None => {},
    }
    assert(out@ =~= before + opt_seq(p));
    out
}

impl Mirror {
    /// Decodes a raw record into a mirror with id 0. `baseurl` must be
    /// present; the other fields fall back to defaults when absent.
    pub fn from_value(rec: &Record) -> (r: Result<Mirror, DecodeError>)
        ensures
            decoded_as(r, mirror_of(rec@)),
    {
        let mut mirror = Mirror::default();
        match find_field(&rec.fields, "baseurl") {
            Some(i) => match &rec.fields[i].1.text {
                Some(s) => {
                    if s.unicode_len() == 0 {
                        return Err(DecodeError::BaseUrl);
                    }
                    mirror.baseurl = s.clone();
                },
                None => {
                    return Err(DecodeError::BaseUrl);
                },
            },
            None => {
                return Err(DecodeError::BaseUrl);
            },
        }
        match find_field(&rec.fields, "region") {
            Some(i) => match Region::from_value(&rec.fields[i].1) {
                Ok(r) => {
                    mirror.region = r;
                },
                Err(e) => {
                    return Err(e);
                },
            },
            None => {},
        }
        match find_field(&rec.fields, "location") {
            Some(i) => match &rec.fields[i].1.text {
                Some(s) => {
                    mirror.location = s.clone();
                },
                None => {
                    return Err(DecodeError::Location);
                },
            },
            None => {},
        }
        match find_field(&rec.fields, "tier") {
            Some(i) => match Tier::from_value(&rec.fields[i].1) {
                Ok(t) => {
                    mirror.tier = t;
                },
                Err(e) => {
                    return Err(e);
                },
            },
            None => {},
        }
        match find_field(&rec.fields, "enabled") {
            Some(i) => {
                let v = &rec.fields[i].1;
                mirror.enabled = match (v.number, v.integer) {
                    (Some(u), _) if u != 0 => true,
                    (_, Some(n)) => n != 0,
                    _ => false,
                };
            },
            None => {},
        }
        match find_field(&rec.fields, "proto") {
            Some(i) => match &rec.fields[i].1.text {
                Some(s) => {
                    mirror.protocols = protocols_from_text(s.as_str());
                },
                None => {
                    return Err(DecodeError::Protocol);
                },
            },
            None => {},
        }
        Ok(mirror)
    }
}

/// With unique names, the field named like the `j`-th is the `j`-th.
proof fn lemma_field_unique(s: Seq<(String, RawValue)>, j: int)
    requires
        names_unique(s),
        0 <= j < s.len(),
    ensures
        field_of(s, s[j].0@) == Some(s[j].1),
    decreases s.len(),
{
    if j > 0 {
        let t = s.subrange(1, s.len() as int);
        assert(s[0].0@ != s[j].0@);
        assert(t[j - 1] == s[j]);
        lemma_field_unique(t, j - 1);
    }
}

proof fn lemma_field_push(s: Seq<(String, RawValue)>, x: (String, RawValue), k: Seq<char>)
    ensures
        field_of(s.push(x), k) == (match field_of(s, k) {
            Some(v) => Some(v),
            None => if x.0@ == k {
                Some(x.1)
            } else {
                None
            },
        }),
    decreases s.len(),
{
    let p = s.push(x);
    if s.len() == 0 {
        assert(p[0] == x);
        assert(p.subrange(1, p.len() as int) =~= Seq::<(String, RawValue)>::empty());
        assert(field_of(p.subrange(1, p.len() as int), k) is None);
    } else {
        assert(p[0] == s[0]);
        assert(p.subrange(1, p.len() as int) =~= s.subrange(1, s.len() as int).push(x));
        lemma_field_push(s.subrange(1, s.len() as int), x, k);
    }
}

proof fn lemma_field_update(
    s: Seq<(String, RawValue)>,
    j: int,
    x: (String, RawValue),
    k: Seq<char>,
)
    requires
        0 <= j < s.len(),
        s[j].0@ == x.0@,
        k != x.0@,
    ensures
        field_of(s.update(j, x), k) == field_of(s, k),
    decreases s.len(),
{
    let u = s.update(j, x);
    if j == 0 {
        assert(u.subrange(1, u.len() as int) =~= s.subrange(1, s.len() as int));
    } else {
        assert(u.subrange(1, u.len() as int) =~= s.subrange(1, s.len() as int).update(j - 1, x));
        lemma_field_update(s.subrange(1, s.len() as int), j - 1, x, k);
    }
}

impl Record {
    /// The record's invariant: no two fields share a name.
    pub open spec fn wf(&self) -> bool {
        names_unique(self@)
    }

    /// A record without fields.
    pub fn new() -> (r: Record)
        ensures
            r@.len() == 0,
            r.wf(),
    {
        Record { fields: Vec::new() }
    }

    /// Sets the field `name` to `value`, replacing any value it had.
    pub fn insert(&mut self, name: String, value: RawValue)
        requires
            old(self).wf(),
        ensures
            final(self).wf(),
            field_of(final(self)@, name@) == Some(value),
            forall|k: Seq<char>| k != name@ ==> field_of(final(self)@, k) == field_of(old(self)@, k),
    {
        let ghost before = self.fields@;
        let ghost n = name@;
        let found = find_field(&self.fields, name.as_str());
        match found {
            Some(i) => {
                let ghost x = (name, value);
                self.fields.set(i, (name, value));
                proof {
                    assert(self.fields@ == before.update(i as int, x));
                    assert forall|k: Seq<char>| k != n implies field_of(self.fields@, k)
                        == field_of(before, k) by {
                        lemma_field_update(before, i as int, x, k);
                    }
                    lemma_field_unique(self.fields@, i as int);
                }
            },
            None => {
                let ghost x = (name, value);
                self.fields.push((name, value));
                proof {
                    assert(self.fields@ == before.push(x));
                    assert forall|k: Seq<char>| k != n implies field_of(self.fields@, k)
                        == field_of(before, k) by {
                        lemma_field_push(before, x, k);
                    }
                    lemma_field_push(before, x, n);
                }
            },
        }
    }
}

impl Default for Mirror {
    /// A mirror with id 0, placeholder texts, unknown region and tier,
    /// disabled, with no protocols.
    fn default() -> (r: Mirror)
        ensures
            r@ == (MirrorView {
                id: 0,
                baseurl: "unknown"@,
                region: Region::Unknown,
                location: "unkonwn"@,
                tier: Tier::Unknown,
                enabled: false,
                protocols: Seq::empty(),
            }),
    {
        let r = Mirror {
            id: 0,
            baseurl: String::from_str("unknown"),
            region: Region::Unknown,
            location: String::from_str("unkonwn"),
            tier: Tier::Unknown,
            enabled: false,
            protocols: Vec::new(),
        };
        assert(r.protocols@ =~= Seq::<Protocol>::empty());
        r
    }
}

} // verus!
