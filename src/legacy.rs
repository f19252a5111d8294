use vstd::prelude::*;
use crate::mirror::{Mirror, MirrorView, Record};
use crate::store::{mirrors_from_records, mirrors_of, views};
use crate::types::{protocol_name, DecodeError, Protocol, Region, Tier};

verus! {

/// The older, narrower public shape of a mirror.
#[derive(Debug)]
pub struct LegacyMirror {
    pub region: Region,
    pub baseurl: String,
    pub location: String,
    pub tier: Tier,
    pub enabled: bool,
}

pub struct LegacyView {
    pub region: Region,
    pub baseurl: Seq<char>,
    pub location: Seq<char>,
    pub tier: Tier,
    pub enabled: bool,
}

impl View for LegacyMirror {
    type V = LegacyView;

    open spec fn view(&self) -> LegacyView {
        LegacyView {
            region: self.region,
            baseurl: self.baseurl@,
            location: self.location@,
            tier: self.tier,
            enabled: self.enabled,
        }
    }
}

/// The protocol a legacy URL uses: the first listed, or HTTP when none is.
pub open spec fn first_protocol(ps: Seq<Protocol>) -> Protocol {
    if ps.len() > 0 {
        ps[0]
    } else {
        Protocol::Http
    }
}

/// `<protocol>://<baseurl>/`
pub open spec fn legacy_url(p: Protocol, base: Seq<char>) -> Seq<char> {
    protocol_name(p) + "://"@ + base + "/"@
}

pub open spec fn legacy_of(m: MirrorView) -> LegacyView {
    LegacyView {
        region: m.region,
        baseurl: legacy_url(first_protocol(m.protocols), m.baseurl),
        location: m.location,
        tier: m.tier,
        enabled: m.enabled,
    }
}

/// The legacy list: the enabled mirrors only, each projected, in order.
pub open spec fn legacy_list(ms: Seq<MirrorView>) -> Seq<LegacyView>
    decreases ms.len(),
{
    if ms.len() == 0 {
        Seq::empty()
    } else if ms.last().enabled {
        legacy_list(ms.drop_last()).push(legacy_of(ms.last()))
    } else {
        legacy_list(ms.drop_last())
    }
}

pub open spec fn legacy_views(ls: Seq<LegacyMirror>) -> Seq<LegacyView> {
    ls.map_values(|l: LegacyMirror| l@)
}

impl LegacyMirror {
    /// Projects a mirror: the same region, location, tier and flag, and one
    /// URL built from its first protocol (HTTP when it lists none).
    pub fn from(value: &Mirror) -> (r: LegacyMirror)
        ensures
            r@ == legacy_of(value@),
    {
        let p = if value.protocols.len() > 0 {
            value.protocols[0]
        } else {
            Protocol::Http
        };
        let url = String::from_str(p.name()).concat("://").concat(value.baseurl.as_str()).concat(
            "/",
        );
        LegacyMirror {
            region: value.region,
            baseurl: url,
            location: value.location.clone(),
            tier: value.tier,
            enabled: value.enabled,
        }
    }
}

/// The legacy view of a mirror list: disabled mirrors are left out, the
/// others projected in order.
pub fn legacy_mirrors(mirrors: &Vec<Mirror>) -> (r: Vec<LegacyMirror>)
    ensures
        legacy_views(r@) == legacy_list(views(mirrors@)),
{
    let mut out: Vec<LegacyMirror> = Vec::new();
    let mut i: usize = 0;
    assert(legacy_views(out@) =~= Seq::<LegacyView>::empty());
    assert(views(mirrors@).subrange(0, 0) =~= Seq::<MirrorView>::empty());
    while i < mirrors.len()
        invariant
            i <= mirrors@.len(),
            legacy_views(out@) == legacy_list(views(mirrors@).subrange(0, i as int)),
        decreases mirrors@.len() - i,
    {
        let ghost pre = views(mirrors@).subrange(0, i as int);
        let ghost post = views(mirrors@).subrange(0, i + 1);
        assert(post.drop_last() =~= pre);
        assert(post.last() == mirrors@[i as int]@);
        if mirrors[i].enabled {
            let l = LegacyMirror::from(&mirrors[i]);
            let ghost before = out@;
            out.push(l);
            assert(legacy_views(out@) =~= legacy_views(before).push(l@));
        }
        i += 1;
    }
    assert(views(mirrors@).subrange(0, mirrors@.len() as int) =~= views(mirrors@));
    out
}

/// Decodes every fetched record, then projects the legacy list; one record
/// that fails to decode fails the whole list.
pub fn legacy_from_records(records: &Vec<(u64, Record)>) -> (r: Result<
    Vec<LegacyMirror>,
    DecodeError,
>)
    ensures
        match r {
            Ok(ls) => mirrors_of(records@) is Ok && legacy_views(ls@) == legacy_list(
                mirrors_of(records@)->Ok_0,
            ),
            Err(e) => mirrors_of(records@) == Err::<Seq<MirrorView>, DecodeError>(e),
        },
{
    match mirrors_from_records(records) {
        Ok(ms) => Ok(legacy_mirrors(&ms)),
        Err(e) => Err(e),
    }
}

} // verus!
