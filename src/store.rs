use vstd::prelude::*;
use crate::mirror::{decoded_as, mirror_of, Mirror, MirrorView, Record};
use crate::types::DecodeError;

verus! {

/// Decoding of the record stored under `id`: the key's id replaces whatever
/// the decoder put there.
pub open spec fn mirror_at(id: u64, rec: Seq<(String, crate::types::RawValue)>) -> Result<
    MirrorView,
    DecodeError,
> {
    match mirror_of(rec) {
        Ok(m) => Ok(MirrorView { id, ..m }),
        Err(e) => Err(e),
    }
}

pub open spec fn views(ms: Seq<Mirror>) -> Seq<MirrorView> {
    ms.map_values(|m: Mirror| m@)
}

/// Decoding of a batch of records, in order: the first record that fails to
/// decode fails the whole batch with its error.
pub open spec fn mirrors_of(rs: Seq<(u64, Record)>) -> Result<Seq<MirrorView>, DecodeError>
    decreases rs.len(),
{
    if rs.len() == 0 {
        Ok(Seq::empty())
    } else {
        match mirrors_of(rs.drop_last()) {
            Err(e) => Err(e),
            Ok(ms) => match mirror_at(rs.last().0, rs.last().1@) {
                Ok(m) => Ok(ms.push(m)),
                Err(e) => Err(e),
            },
        }
    }
}

/// Decodes the record stored under `id` into the mirror with that id.
pub fn mirror_with_id(id: u64, rec: &Record) -> (r: Result<Mirror, DecodeError>)
    ensures
        decoded_as(r, mirror_at(id, rec@)),
{
    match Mirror::from_value(rec) {
        Ok(m) => {
            let mut m = m;
            m.id = id;
            Ok(m)
        },
        Err(e) => Err(e),
    }
}

/// Decodes every fetched record, keeping their order; one failure fails the
/// whole batch and no mirror is returned.
pub fn mirrors_from_records(records: &Vec<(u64, Record)>) -> (r: Result<Vec<Mirror>, DecodeError>)
    ensures
        match r {
            Ok(ms) => mirrors_of(records@) == Ok::<Seq<MirrorView>, DecodeError>(views(ms@)),
            Err(e) => mirrors_of(records@) == Err::<Seq<MirrorView>, DecodeError>(e),
        },
{
    let mut out: Vec<Mirror> = Vec::new();
    let mut i: usize = 0;
    assert(views(out@) =~= Seq::<MirrorView>::empty());
    while i < records.len()
        invariant
            i <= records@.len(),
            mirrors_of(records@.subrange(0, i as int)) == Ok::<Seq<MirrorView>, DecodeError>(
                views(out@),
            ),
        decreases records@.len() - i,
    {
        let ghost pre = records@.subrange(0, i as int);
        let ghost post = records@.subrange(0, i + 1);
        assert(post.drop_last() =~= pre);
        assert(post.last() == records@[i as int]);
        match mirror_with_id(records[i].0, &records[i].1) {
            Ok(m) => {
                let ghost before = out@;
                out.push(m);
                assert(views(out@) =~= views(before).push(m@));
            },
            Err(e) => {
                proof {
                    lemma_failure_spreads(records@, i as int + 1);
                }
                return Err(e);
            },
        }
        i += 1;
    }
    assert(records@.subrange(0, records@.len() as int) =~= records@);
    Ok(out)
}

/// A batch whose prefix fails to decode fails with the same error.
proof fn lemma_failure_spreads(rs: Seq<(u64, Record)>, n: int)
    requires
        0 <= n <= rs.len(),
        mirrors_of(rs.subrange(0, n)) is Err,
    ensures
        mirrors_of(rs) == mirrors_of(rs.subrange(0, n)),
    decreases rs.len() - n,
{
    if n < rs.len() {
        let next = rs.subrange(0, n + 1);
        assert(next.drop_last() =~= rs.subrange(0, n));
        lemma_failure_spreads(rs, n + 1);
    } else {
        assert(rs.subrange(0, n) =~= rs);
    }
}

} // verus!
