//! Loading the index from packed tables: each table is gzip-compressed and
//! then base64-encoded.

use vstd::prelude::*;
use crate::decode::{load_model, tables_view, LoadError};
use crate::index::TzSearch;
use std::io::Read;

verus! {

/// The bytes that base64 text decodes to, if it is valid base64.
pub uninterp spec fn base64_decoded(b: Seq<u8>) -> Option<Seq<u8>>;

/// The bytes that a gzip stream decompresses to, if it is a valid stream.
pub uninterp spec fn gunzipped(b: Seq<u8>) -> Option<Seq<u8>>;

/// Relies on rustc_serialize's `FromBase64::from_base64` on a byte slice:
/// the decoded bytes, or an error on malformed input.
#[verifier::external_body]
fn decode_base64(b: &[u8]) -> (r: Option<Vec<u8>>)
    ensures
        match r {
            Some(v) => base64_decoded(b@) == Some(v@),
            None => base64_decoded(b@) is None,
        },
{
    rustc_serialize::base64::FromBase64::from_base64(b).ok()
}

/// Relies on flate2's `read::GzDecoder` read to its end: the decompressed
/// bytes, or an error on a malformed stream.
#[verifier::external_body]
fn decode_gzip(b: &[u8]) -> (r: Option<Vec<u8>>)
    ensures
        match r {
            Some(v) => gunzipped(b@) == Some(v@),
            None => gunzipped(b@) is None,
        },
{
    let mut out = Vec::new();
    match flate2::read::GzDecoder::new(b).read_to_end(&mut out) {
        Ok(_) => Some(out),
        Err(_) => None,
    }
}

/// The raw bytes of one packed table.
pub open spec fn unpacked(b: Seq<u8>) -> Result<Seq<u8>, LoadError> {
    match base64_decoded(b) {
        None => Err(LoadError::BadBase64),
        Some(d) => match gunzipped(d) {
            None => Err(LoadError::BadGzip),
            Some(u) => Ok(u),
        },
    }
}

/// The raw bytes of packed tables, or the fault of the first that fails.
pub open spec fn unpacked_all(s: Seq<Seq<u8>>) -> Result<Seq<Seq<u8>>, LoadError>
    decreases s.len(),
{
    if s.len() == 0 {
        Ok(Seq::empty())
    } else {
        match unpacked_all(s.drop_last()) {
            Err(e) => Err(e),
            Ok(p) => match unpacked(s.last()) {
                Err(e) => Err(e),
                Ok(u) => Ok(p.push(u)),
            },
        }
    }
}

/// What loading packed zoom-level tables and a packed leaf table gives: the
/// first table that does not unpack decides, the levels before the leaves.
pub open spec fn load_packed_model(levels: Seq<Seq<u8>>, leaves: Seq<u8>, n: nat) -> Result<
    (Seq<Seq<crate::index::TileLooker>>, Seq<crate::index::ZoneModel>),
    LoadError,
> {
    match unpacked_all(levels) {
        Err(e) => Err(e),
        Ok(ls) => match unpacked(leaves) {
            Err(e) => Err(e),
            Ok(lv) => load_model(ls, lv, n),
        },
    }
}

proof fn lemma_unpacked_prefix_err(s: Seq<Seq<u8>>, k: int)
    requires
        0 <= k <= s.len(),
        unpacked_all(s.take(k)) is Err,
    ensures
        unpacked_all(s) == unpacked_all(s.take(k)),
    decreases s.len() - k,
{
    if k < s.len() {
        assert(s.take(k + 1).drop_last() =~= s.take(k));
        lemma_unpacked_prefix_err(s, k + 1);
    } else {
        assert(s.take(k) =~= s);
    }
}

fn unpack(b: &[u8]) -> (r: Result<Vec<u8>, LoadError>)
    ensures
        match unpacked(b@) {
            Ok(u) => r is Ok && r->Ok_0@ == u,
            Err(e) => r is Err && r->Err_0 == e,
        },
{
    match decode_base64(b) {
        None => Err(LoadError::BadBase64),
        Some(d) => match decode_gzip(d.as_slice()) {
            None => Err(LoadError::BadGzip),
            Some(u) => Ok(u),
        },
    }
}

impl TzSearch {
    /// Builds the index from six packed zoom-level tables, coarsest first,
    /// and a packed leaf table of `num_leaves` records.
    pub fn new(packed_levels: &Vec<Vec<u8>>, packed_leaves: &[u8], num_leaves: usize) -> (r: Result<
        TzSearch,
        LoadError,
    >)
        ensures
            match load_packed_model(tables_view(packed_levels@), packed_leaves@, num_leaves as nat) {
                Ok((ls, zs)) => r is Ok && r->Ok_0.wf() && r->Ok_0.levels_model() == ls
                    && r->Ok_0.leaves_model() == zs,
                Err(e) => r is Err && r->Err_0 == e,
            },
    {
        let ghost s = tables_view(packed_levels@);
        let mut raw: Vec<Vec<u8>> = Vec::new();
        let mut k: usize = 0;
        assert(s.take(0) =~= Seq::<Seq<u8>>::empty());
        assert(tables_view(raw@) =~= Seq::<Seq<u8>>::empty());
        while k < packed_levels.len()
            invariant
                s == tables_view(packed_levels@),
                k <= s.len(),
                unpacked_all(s.take(k as int)) == Ok::<Seq<Seq<u8>>, LoadError>(tables_view(raw@)),
            decreases s.len() - k,
        {
            assert(s.take(k as int + 1).drop_last() =~= s.take(k as int));
            assert(s[k as int] == packed_levels@[k as int]@);
            match unpack(packed_levels[k].as_slice()) {
                Ok(u) => {
                    let ghost before = raw@;
                    raw.push(u);
                    assert(tables_view(raw@) =~= tables_view(before).push(u@));
                },
                Err(e) => {
                    proof {
                        lemma_unpacked_prefix_err(s, k as int + 1);
                    }
                    return Err(e);
                },
            }
            k = k + 1;
        }
        assert(s.take(k as int) =~= s);
        let leaves = match unpack(packed_leaves) {
            Ok(u) => u,
            Err(e) => {
                return Err(e);
            },
        };
        TzSearch::from_tables(&raw, leaves.as_slice(), num_leaves)
    }
}

} // verus!
