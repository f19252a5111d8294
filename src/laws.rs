use vstd::prelude::*;
use crate::legacy::{first_protocol, legacy_list, legacy_of, legacy_url};
use crate::mirror::{
    opt_seq, protocol_list, protocols_from,
    baseurl_field, enabled_field, field_of, location_field, mirror_of, protocols_field,
    region_field, tier_field, MirrorView, Record,
};
use crate::store::{mirror_at, mirrors_of};
use crate::text::lower_seq;
use crate::types::{
    nonzero_integer, protocol_name, protocol_of_token, region_code, region_of, region_of_text, text_view, tier_encoded,
    tier_of, DecodeError, Protocol, RawValue, Region, Tier,
};

verus! {

/// A record whose `baseurl` is a non-empty string and whose other fields are
/// well formed decodes, and keeps that `baseurl` exactly.
pub proof fn lemma_baseurl_kept(rec: Seq<(String, RawValue)>, url: Seq<char>)
    requires
        baseurl_field(rec) == Ok::<Seq<char>, DecodeError>(url),
        region_field(rec) is Ok,
        location_field(rec) is Ok,
        tier_field(rec) is Ok,
        protocols_field(rec) is Ok,
    ensures
        mirror_of(rec) is Ok,
        mirror_of(rec)->Ok_0.baseurl == url,
{
}

/// A decoded mirror never has an empty `baseurl`.
pub proof fn lemma_baseurl_nonempty(rec: Seq<(String, RawValue)>)
    ensures
        mirror_of(rec) is Ok ==> mirror_of(rec)->Ok_0.baseurl.len() > 0,
{
}

/// A record without `baseurl` never decodes, whatever else it holds.
pub proof fn lemma_baseurl_required(rec: Seq<(String, RawValue)>)
    requires
        field_of(rec, "baseurl"@) is None,
    ensures
        mirror_of(rec) == Err::<MirrorView, DecodeError>(DecodeError::BaseUrl),
{
}

/// Each region's code decodes to that region.
proof fn lemma_region_code(r: Region)
    ensures
        region_of_text(region_code(r)) == r,
{
    reveal_strlit("af");
    reveal_strlit("an");
    reveal_strlit("as");
    reveal_strlit("eu");
    reveal_strlit("na");
    reveal_strlit("oc");
    reveal_strlit("sa");
    reveal_strlit("default");
    reveal_strlit("world");
    reveal_strlit("unknown");
    reveal_strlit("AF");
    reveal_strlit("AN");
    reveal_strlit("AS");
    reveal_strlit("EU");
    reveal_strlit("NA");
    reveal_strlit("OC");
    reveal_strlit("SA");
    reveal_strlit("Default");
    reveal_strlit("World");
    reveal_strlit("Unknown");
    let l = lower_seq(region_code(r));
    match r {
        Region::AF => {
            assert(l =~= "af"@);
        },
        Region::AN => {
            assert(l =~= "an"@);
            assert(l[1] != "af"@[1]);
        },
        Region::AS => {
            assert(l =~= "as"@);
            assert(l[1] != "af"@[1]);
            assert(l[1] != "an"@[1]);
        },
        Region::EU => {
            assert(l =~= "eu"@);
            assert(l[0] != "af"@[0]);
            assert(l[0] != "an"@[0]);
            assert(l[0] != "as"@[0]);
        },
        Region::NA => {
            assert(l =~= "na"@);
            assert(l[0] != "af"@[0]);
            assert(l[0] != "an"@[0]);
            assert(l[0] != "as"@[0]);
            assert(l[0] != "eu"@[0]);
        },
        Region::OC => {
            assert(l =~= "oc"@);
            assert(l[0] != "af"@[0]);
            assert(l[0] != "an"@[0]);
            assert(l[0] != "as"@[0]);
            assert(l[0] != "eu"@[0]);
            assert(l[0] != "na"@[0]);
        },
        Region::SA => {
            assert(l =~= "sa"@);
            assert(l[0] != "af"@[0]);
            assert(l[0] != "an"@[0]);
            assert(l[0] != "as"@[0]);
            assert(l[0] != "eu"@[0]);
            assert(l[0] != "na"@[0]);
            assert(l[0] != "oc"@[0]);
        },
        Region::Default => {
            assert(l =~= "default"@);
        },
        Region::World => {
            assert(l =~= "world"@);
        },
        Region::Unknown => {
            assert(l =~= "unknown"@);
            assert(l[0] != "default"@[0]);
        },
    }
}

/// Region decoding never fails on text, ignores letter case, and gives each
/// known code its region.
pub proof fn lemma_region_total(v: RawValue, t: Seq<char>, r: Region)
    requires
        text_view(v) is Some,
    ensures
        region_of(v) is Ok,
        lower_seq(t) == lower_seq(text_view(v)->Some_0) ==> region_of_text(t) == region_of(v)->Ok_0,
        r != Region::Unknown && lower_seq(t) == lower_seq(region_code(r)) ==> region_of_text(t) == r,
{
    lemma_region_code(r);
}

/// An unsigned integer is a numeric tier; failing that, "tor" in any letter
/// case is the Tor tier; any other value fails.
pub proof fn lemma_tier_decoding(v: RawValue)
    ensures
        v.number is Some ==> tier_of(v) == Ok::<Tier, DecodeError>(Tier::Numeric(v.number->Some_0)),
        v.number is None && text_view(v) is Some && lower_seq(text_view(v)->Some_0) == "tor"@
            ==> tier_of(v) == Ok::<Tier, DecodeError>(Tier::Tor),
        v.number is None && !(text_view(v) is Some && lower_seq(text_view(v)->Some_0) == "tor"@)
            ==> tier_of(v) == Err::<Tier, DecodeError>(DecodeError::Tier),
{
}

/// Whether `s` holds no comma.
pub open spec fn no_comma(s: Seq<char>) -> bool {
    forall|i: int| 0 <= i < s.len() ==> s[i] != ','
}

proof fn lemma_skip_token(s: Seq<char>, start: int, i: int, e: int)
    requires
        0 <= start <= i <= e <= s.len(),
        forall|j: int| i <= j < e ==> s[j] != ',',
    ensures
        protocols_from(s, start, i) == protocols_from(s, start, e),
    decreases e - i,
{
    if i < e {
        lemma_skip_token(s, start, i + 1, e);
    }
}

proof fn lemma_shift(pre: Seq<char>, b: Seq<char>, st: int, i: int)
    requires
        0 <= st <= i <= b.len(),
    ensures
        protocols_from(pre + b, pre.len() + st, pre.len() + i) == protocols_from(b, st, i),
    decreases b.len() - i,
{
    let s = pre + b;
    let pl = pre.len() as int;
    if i >= b.len() {
        assert(s.subrange(pl + st, s.len() as int) =~= b.subrange(st, b.len() as int));
    } else {
        assert(s[pl + i] == b[i]);
        if b[i] == ',' {
            assert(s.subrange(pl + st, pl + i) =~= b.subrange(st, i));
            lemma_shift(pre, b, i + 1, i + 1);
        } else {
            lemma_shift(pre, b, st, i + 1);
        }
    }
}

/// A protocol list is read token by token: a text without commas is one
/// token, which gives its protocol or nothing; a leading token followed by a
/// comma gives its protocol, if any, ahead of those of the rest, in order.
pub proof fn lemma_protocol_tokens(a: Seq<char>, b: Seq<char>)
    requires
        no_comma(a),
    ensures
        protocol_list(a) == opt_seq(protocol_of_token(a)),
        protocol_list(a + seq![','] + b) == opt_seq(protocol_of_token(a)) + protocol_list(b),
{
    let n = a.len() as int;
    lemma_skip_token(a, 0, 0, n);
    assert(a.subrange(0, n) =~= a);
    let pre = a + seq![','];
    let s = pre + b;
    assert(a + seq![','] + b == s);
    assert forall|j: int| 0 <= j < n implies s[j] != ',' by {
        assert(s[j] == a[j]);
    }
    lemma_skip_token(s, 0, 0, n);
    assert(s[n] == ',');
    assert(s.subrange(0, n) =~= a);
    lemma_shift(pre, b, 0, 0);
}

/// `enabled` is false when absent, and otherwise true exactly for an
/// integer other than 0, negative ones included.
pub proof fn lemma_enabled_flag(rec: Seq<(String, RawValue)>)
    ensures
        field_of(rec, "enabled"@) is None ==> !enabled_field(rec),
        field_of(rec, "enabled"@) is Some ==> enabled_field(rec) == nonzero_integer(
            field_of(rec, "enabled"@)->Some_0,
        ),
        mirror_of(rec) is Ok ==> mirror_of(rec)->Ok_0.enabled == enabled_field(rec),
{
}

/// One record that fails to decode fails the whole batch, so no mirror of
/// it reaches the caller.
pub proof fn lemma_batch_all_or_nothing(rs: Seq<(u64, Record)>, k: int)
    requires
        0 <= k < rs.len(),
        mirror_at(rs[k].0, rs[k].1@) is Err,
    ensures
        mirrors_of(rs) is Err,
    decreases rs.len(),
{
    if k == rs.len() - 1 {
    } else {
        assert(rs.drop_last()[k] == rs[k]);
        lemma_batch_all_or_nothing(rs.drop_last(), k);
    }
}

/// Disabled mirrors never reach the legacy list: every entry is enabled,
/// and a disabled mirror adds nothing to it.
pub proof fn lemma_legacy_enabled_only(ms: Seq<MirrorView>, m: MirrorView)
    ensures
        forall|i: int| 0 <= i < legacy_list(ms).len() ==> #[trigger] legacy_list(ms)[i].enabled,
        !m.enabled ==> legacy_list(ms.push(m)) == legacy_list(ms),
        m.enabled ==> legacy_list(ms.push(m)) == legacy_list(ms).push(legacy_of(m)),
    decreases ms.len(),
{
    assert(ms.push(m).drop_last() =~= ms);
    if ms.len() > 0 {
        lemma_legacy_enabled_only(ms.drop_last(), ms.last());
        assert(ms.drop_last().push(ms.last()) =~= ms);
    }
}

/// A mirror listing no protocol gets an HTTP URL in the legacy list.
pub proof fn lemma_legacy_default_http(m: MirrorView)
    requires
        m.protocols.len() == 0,
    ensures
        legacy_of(m).baseurl == "http://"@ + m.baseurl + "/"@,
{
    reveal_strlit("http");
    reveal_strlit("://");
    reveal_strlit("http://");
    assert(first_protocol(m.protocols) == Protocol::Http);
    assert(protocol_name(Protocol::Http) + "://"@ =~= "http://"@);
}

/// Written forms decode back: a protocol's token, a region's code and a
/// tier's public form give the same value again (a tier other than
/// `Unknown`, which no stored value decodes to).
pub proof fn lemma_round_trip(p: Protocol, r: Region, t: Tier, v: RawValue)
    requires
        t != Tier::Unknown,
        tier_encoded(t, v),
    ensures
        protocol_of_token(protocol_name(p)) == Some(p),
        region_of_text(region_code(r)) == r,
        tier_of(v) == Ok::<Tier, DecodeError>(t),
{
    reveal_strlit("ftp");
    reveal_strlit("http");
    reveal_strlit("https");
    reveal_strlit("rsync");
    reveal_strlit("tor");
    let lp = lower_seq(protocol_name(p));
    match p {
        Protocol::Ftp => assert(lp =~= "ftp"@),
        Protocol::Http => assert(lp =~= "http"@),
        Protocol::Https => assert(lp =~= "https"@),
        Protocol::Rsync => {
            assert(lp =~= "rsync"@);
            assert(lp[0] != "https"@[0]);
        },
    }
    lemma_region_code(r);
    if t == Tier::Tor {
        assert(lower_seq("tor"@) =~= "tor"@);
    }
}

} // verus!
