//! Multi-segment manifest keys and segment-completion detection.
//!
//! A manifest key of the shape `<prefix>/<start>_<total>/index.m3u8`
//! (with `<start>` and `<total>` nonempty digit runs) announces one
//! segment of a multi-segment clip whose expected segment count is
//! `<total>`.  A key of any other shape routes to single-object legacy
//! handling, for which no listing is performed.  The detector compares
//! the keys listed under `<prefix>` that match the same shape against the
//! expected count: only an exact match is complete — whether too few or
//! too many matched, dispatch is inhibited and the unit deferred.

use vstd::prelude::*;
use vstd::multiset::Multiset;

use crate::bytestr::{
    bytes_range, lemma_lex_le_total, lemma_lex_le_trans, lex_le, lex_leq, views_of,
};
use crate::digits::{all_digits, dec_value, is_ascii_digit, parse_u64};
use crate::errors::HarvestError;

verus! {

/// The file name a multi-segment manifest must carry (`index.m3u8`).
pub open spec fn manifest_name() -> Seq<u8> {
    seq![105u8, 110u8, 100u8, 101u8, 120u8, 46u8, 109u8, 51u8, 117u8, 56u8]
}

/// `c` reads `<start>_<total>` with the underscore at `i`: nonempty digit
/// runs on both sides.
pub open spec fn component_split_at(c: Seq<u8>, i: int) -> bool {
    &&& 1 <= i < c.len() - 1
    &&& c[i] == 95
    &&& forall|j: int| 0 <= j < c.len() && j != i ==> is_ascii_digit(#[trigger] c[j])
}

/// Whether `c` reads `<start>_<total>`.
pub open spec fn valid_component(c: Seq<u8>) -> bool {
    exists|i: int| component_split_at(c, i)
}

/// Whether `key` splits at the slash at `j` into
/// `<prefix>/<start>_<total>/index.m3u8`.
pub open spec fn manifest_split_at(key: Seq<u8>, j: int) -> bool {
    &&& 0 <= j
    &&& j + 12 <= key.len()
    &&& key[j] == 47
    &&& key[key.len() - 11] == 47
    &&& key.subrange(key.len() - 10, key.len() as int) == manifest_name()
    &&& valid_component(key.subrange(j + 1, key.len() - 11))
}

/// Whether `key` names one segment manifest of a multi-segment clip.
pub open spec fn matches_manifest(key: Seq<u8>) -> bool {
    exists|j: int| manifest_split_at(key, j)
}

/// No slash stands between a split's slash and the component's closing
/// slash: the component is made of digits and one underscore only.
proof fn lemma_component_has_no_slash(key: Seq<u8>, j: int, m: int)
    requires
        manifest_split_at(key, j),
        j < m,
        m + 11 < key.len(),
    ensures
        key[m] != 47,
{
    let c = key.subrange(j + 1, key.len() - 11);
    let i = choose|i: int| component_split_at(c, i);
    assert(component_split_at(c, i));
    let p = m - j - 1;
    assert(c[p] == key[m]);
    if p == i {
        assert(c[p] == 95);
    } else {
        assert(is_ascii_digit(c[p]));
    }
}

/// The parts of a multi-segment manifest key.
pub struct ManifestParts {
    /// Common path prefix shared by all segments of the clip.
    pub prefix: Vec<u8>,
    /// Digits of the segment start field.
    pub start: Vec<u8>,
    /// Digits of the expected segment count.
    pub total: Vec<u8>,
}

/// The file name as a byte string.
fn manifest_name_bytes() -> (r: Vec<u8>)
    ensures
        r@ == manifest_name(),
{
    let mut r: Vec<u8> = Vec::new();
    r.push(105);
    r.push(110);
    r.push(100);
    r.push(101);
    r.push(120);
    r.push(46);
    r.push(109);
    r.push(51);
    r.push(117);
    r.push(56);
    proof {
        assert(r@ =~= manifest_name());
    }
    r
}

/// Finds the underscore splitting `c` into `<start>_<total>`, if `c` has
/// that shape.
fn split_component(c: &Vec<u8>) -> (r: Option<usize>)
    ensures
        r is Some <==> valid_component(c@),
        r matches Some(u) ==> component_split_at(c@, u as int),
{
    let mut i: usize = 0;
    let mut upos: usize = 0;
    let mut seen = false;
    while i < c.len()
        invariant
            0 <= i <= c@.len(),
            seen ==> upos < i && c@[upos as int] == 95,
            forall|t: int| 0 <= t < i && !(seen && t == upos) ==> is_ascii_digit(#[trigger] c@[t]),
        decreases c@.len() - i,
    {
        let b = c[i];
        if b == 95 {
            if seen {
                proof {
                    assert forall|k: int| !component_split_at(c@, k) by {
                        if component_split_at(c@, k) {
                            if k == upos as int {
                                assert(is_ascii_digit(c@[i as int]));
                            } else {
                                assert(is_ascii_digit(c@[upos as int]));
                            }
                        }
                    }
                }
                return None;
            }
            seen = true;
            upos = i;
        } else if b < 48 || b > 57 {
            proof {
                assert forall|k: int| !component_split_at(c@, k) by {
                    if component_split_at(c@, k) {
                        if k == i as int {
                            assert(c@[i as int] == 95);
                        } else {
                            assert(is_ascii_digit(c@[i as int]));
                        }
                    }
                }
            }
            return None;
        }
        i = i + 1;
    }
    if !seen {
        proof {
            assert forall|k: int| !component_split_at(c@, k) by {
                if component_split_at(c@, k) {
                    assert(is_ascii_digit(c@[k]));
                }
            }
        }
        return None;
    }
    if upos == 0 || upos + 1 == c.len() {
        proof {
            assert forall|k: int| !component_split_at(c@, k) by {
                if component_split_at(c@, k) {
                    if k != upos as int {
                        assert(is_ascii_digit(c@[upos as int]));
                    }
                }
            }
        }
        return None;
    }
    assert(component_split_at(c@, upos as int));
    Some(upos)
}

/// Finds the last slash strictly before `end`, if any.
fn find_last_slash(key: &Vec<u8>, end: usize) -> (r: Option<usize>)
    requires
        end <= key@.len(),
    ensures
        r matches Some(m) ==> m < end && key@[m as int] == 47 && (forall|q: int|
            m < q < end ==> key@[q] != 47),
        r is None ==> forall|q: int| 0 <= q < end ==> key@[q] != 47,
{
    let mut m = end;
    while m > 0
        invariant
            m <= end <= key@.len(),
            forall|q: int| m <= q < end ==> key@[q] != 47,
        decreases m,
    {
        m = m - 1;
        if key[m] == 47 {
            return Some(m);
        }
    }
    None
}

/// Parses a manifest key into its parts.  Succeeds exactly on keys of
/// the shape `<prefix>/<start>_<total>/index.m3u8`; any other key routes
/// to single-object legacy handling, for which nothing is listed.
pub fn parse_manifest_key(key: &Vec<u8>) -> (r: Option<ManifestParts>)
    ensures
        r is Some <==> matches_manifest(key@),
        r matches Some(p) ==> {
            &&& key@ == p.prefix@ + seq![47u8] + p.start@ + seq![95u8] + p.total@ + seq![47u8]
                + manifest_name()
            &&& p.start@.len() > 0
            &&& all_digits(p.start@)
            &&& p.total@.len() > 0
            &&& all_digits(p.total@)
        },
{
    let n = key.len();
    if n < 15 {
        proof {
            assert forall|j: int| !manifest_split_at(key@, j) by {
                if manifest_split_at(key@, j) {
                    let c = key@.subrange(j + 1, key@.len() - 11);
                    let i = choose|i: int| component_split_at(c, i);
                    assert(component_split_at(c, i));
                    assert(c.len() >= 3);
                }
            }
        }
        return None;
    }
    if key[n - 11] != 47 {
        proof {
            assert forall|j: int| !manifest_split_at(key@, j) by {}
        }
        return None;
    }
    let name = manifest_name_bytes();
    let mut t: usize = 0;
    while t < 10
        invariant
            0 <= t <= 10,
            n == key@.len(),
            n >= 15,
            name@ == manifest_name(),
            forall|q: int| 0 <= q < t ==> key@[n - 10 + q] == manifest_name()[q],
        decreases 10 - t,
    {
        if key[n - 10 + t] != name[t] {
            proof {
                assert forall|j: int| !manifest_split_at(key@, j) by {
                    if manifest_split_at(key@, j) {
                        assert(key@.subrange(n - 10, n as int)[t as int]
                            == manifest_name()[t as int]);
                    }
                }
            }
            return None;
        }
        t = t + 1;
    }
    proof {
        assert(key@.subrange(n - 10, n as int) =~= manifest_name());
    }
    let m = match find_last_slash(key, n - 11) {
        Some(m) => m,
        None => {
            proof {
                assert forall|j: int| !manifest_split_at(key@, j) by {
                    if manifest_split_at(key@, j) {
                        assert(0 <= j < n - 11);
                        assert(key@[j] == 47);
                    }
                }
            }
            return None;
        },
    };
    let c = bytes_range(key, m + 1, n - 11);
    match split_component(&c) {
        None => {
            proof {
                assert forall|j: int| !manifest_split_at(key@, j) by {
                    if manifest_split_at(key@, j) {
                        let cj = key@.subrange(j + 1, key@.len() - 11);
                        let i = choose|i: int| component_split_at(cj, i);
                        assert(component_split_at(cj, i));
                        assert(cj.len() >= 3);
                        if j < m as int {
                            lemma_component_has_no_slash(key@, j, m as int);
                        } else if j > m as int {
                            assert(key@[j] != 47);
                        } else {
                            assert(cj =~= c@);
                            assert(valid_component(c@));
                        }
                    }
                }
            }
            None
        },
        Some(u) => {
            let prefix = bytes_range(key, 0, m);
            let start = bytes_range(key, m + 1, m + 1 + u);
            let total = bytes_range(key, m + 1 + u + 1, n - 11);
            proof {
                assert(component_split_at(c@, u as int));
                assert(valid_component(key@.subrange(m as int + 1, key@.len() - 11))) by {
                    assert(key@.subrange(m as int + 1, key@.len() - 11) =~= c@);
                }
                assert(manifest_split_at(key@, m as int));
                assert(matches_manifest(key@));
                assert(start@ =~= c@.subrange(0, u as int));
                assert(total@ =~= c@.subrange(u as int + 1, c@.len() as int));
                assert forall|q: int| 0 <= q < start@.len() implies is_ascii_digit(start@[q]) by {
                    assert(start@[q] == c@[q]);
                }
                assert forall|q: int| 0 <= q < total@.len() implies is_ascii_digit(total@[q]) by {
                    assert(total@[q] == c@[u as int + 1 + q]);
                }
                assert(key@ =~= prefix@ + seq![47u8] + start@ + seq![95u8] + total@ + seq![47u8]
                    + manifest_name());
            }
            Some(ManifestParts { prefix, start, total })
        },
    }
}

/// Reads the expected segment count from its digits; a value out of
/// counter range is a data-format error.
pub fn expected_total(total: &Vec<u8>) -> (r: Result<u64, HarvestError>)
    ensures
        r is Ok <==> (total@.len() > 0 && all_digits(total@) && dec_value(total@) <= u64::MAX),
        r matches Ok(v) ==> v == dec_value(total@),
        r matches Err(e) ==> e == HarvestError::MalformedCount,
{
    match parse_u64(total) {
        Some(v) => Ok(v),
        None => Err(HarvestError::MalformedCount),
    }
}

/// The listed keys that themselves match the manifest shape, in listing
/// order.
pub open spec fn manifest_filter(s: Seq<Seq<u8>>) -> Seq<Seq<u8>> {
    s.filter(|k: Seq<u8>| matches_manifest(k))
}

/// Keeps the listed keys that match the manifest shape.
fn filter_manifest_keys(listed: &Vec<Vec<u8>>) -> (r: Vec<Vec<u8>>)
    ensures
        views_of(r@) == manifest_filter(views_of(listed@)),
{
    let mut r: Vec<Vec<u8>> = Vec::new();
    let mut i: usize = 0;
    proof {
        reveal_with_fuel(Seq::filter, 2);
        assert(views_of(listed@).subrange(0, 0) =~= Seq::<Seq<u8>>::empty());
        assert(views_of(r@) =~= manifest_filter(views_of(listed@).subrange(0, 0)));
    }
    while i < listed.len()
        invariant
            0 <= i <= listed@.len(),
            views_of(r@) == manifest_filter(views_of(listed@).subrange(0, i as int)),
        decreases listed@.len() - i,
    {
        let keep = parse_manifest_key(&listed[i]).is_some();
        proof {
            reveal_with_fuel(Seq::filter, 2);
            let s = views_of(listed@);
            let t = s.subrange(0, i as int + 1);
            assert(t.drop_last() =~= s.subrange(0, i as int));
            assert(t.last() == listed@[i as int]@);
            assert(manifest_filter(t) == if matches_manifest(t.last()) {
                manifest_filter(t.drop_last()).push(t.last())
            } else {
                manifest_filter(t.drop_last())
            });
        }
        if keep {
            r.push(crate::bytestr::copy_bytes(&listed[i]));
            proof {
                assert(views_of(r@) =~= manifest_filter(
                    views_of(listed@).subrange(0, i as int + 1),
                ));
            }
        } else {
            proof {
                assert(views_of(r@) =~= manifest_filter(
                    views_of(listed@).subrange(0, i as int + 1),
                ));
            }
        }
        i = i + 1;
    }
    proof {
        assert(views_of(listed@).subrange(0, i as int) =~= views_of(listed@));
    }
    r
}

/// Whether a list of keys is in ascending lexicographic order.
pub open spec fn sorted_lex(s: Seq<Seq<u8>>) -> bool {
    forall|i: int, j: int| 0 <= i < j < s.len() ==> lex_le(#[trigger] s[i], #[trigger] s[j])
}

/// Inserts `x` into a sorted list, keeping it sorted.
fn insert_sorted(out: &mut Vec<Vec<u8>>, x: Vec<u8>)
    requires
        sorted_lex(views_of(old(out)@)),
    ensures
        sorted_lex(views_of(final(out)@)),
        views_of(final(out)@).to_multiset() == views_of(old(out)@).to_multiset().insert(x@),
{
    let mut p: usize = 0;
    let mut go = true;
    while go && p < out.len()
        invariant
            0 <= p <= out@.len(),
            *out == *old(out),
            forall|t: int| 0 <= t < p ==> lex_le(#[trigger] views_of(out@)[t], x@),
            !go ==> p < out@.len() && !lex_le(views_of(out@)[p as int], x@),
        decreases out@.len() - p + (if go {
            1int
        } else {
            0int
        }),
    {
        if lex_leq(&out[p], &x) {
            p = p + 1;
        } else {
            go = false;
        }
    }
    let ghost old_views = views_of(out@);
    let ghost xv = x@;
    out.insert(p, x);
    proof {
        let new_views = views_of(out@);
        assert(new_views =~= old_views.insert(p as int, xv));
        assert(new_views =~= old_views.subrange(0, p as int) + seq![xv] + old_views.subrange(
            p as int,
            old_views.len() as int,
        ));
        // order: everything before p is at most x, everything from p on is
        // at least x
        assert forall|t: int| p <= t < old_views.len() implies lex_le(xv, old_views[t]) by {
            lemma_lex_le_total(old_views[p as int], xv);
            assert(lex_le(xv, old_views[p as int]));
            if t > p {
                lemma_lex_le_trans(xv, old_views[p as int], old_views[t]);
            }
        }
        assert forall|i: int, j: int| 0 <= i < j < new_views.len() implies lex_le(
            new_views[i],
            new_views[j],
        ) by {
            if i < p && j < p {
            } else if i < p && j == p {
                assert(new_views[i] == old_views[i]);
            } else if i == p {
                assert(new_views[j] == old_views[j - 1]);
            } else if i < p && j > p {
                assert(new_views[i] == old_views[i]);
                assert(new_views[j] == old_views[j - 1]);
            } else {
                assert(new_views[i] == old_views[i - 1]);
                assert(new_views[j] == old_views[j - 1]);
            }
        }
        // contents: one more copy of x, nothing else changed
        broadcast use vstd::seq_lib::lemma_seq_union_to_multiset_commutative;
        broadcast use vstd::seq_lib::group_to_multiset_ensures;

        let a = old_views.subrange(0, p as int);
        let b = old_views.subrange(p as int, old_views.len() as int);
        assert(old_views =~= a + b);
        assert(seq![xv] =~= Seq::<Seq<u8>>::empty().push(xv));
        assert(Seq::<Seq<u8>>::empty().push(xv).to_multiset() =~= Multiset::<Seq<u8>>::empty()
            .insert(xv));
        assert(new_views =~= a + (seq![xv] + b));
        assert(new_views.to_multiset() =~= old_views.to_multiset().insert(xv));
    }
}

/// Sorts a list of keys into ascending lexicographic order.
pub fn sort_keys(keys: Vec<Vec<u8>>) -> (r: Vec<Vec<u8>>)
    ensures
        sorted_lex(views_of(r@)),
        views_of(r@).to_multiset() == views_of(keys@).to_multiset(),
{
    let mut rest = keys;
    let mut out: Vec<Vec<u8>> = Vec::new();
    proof {
        broadcast use vstd::seq_lib::group_to_multiset_ensures;

        assert(views_of(out@) =~= Seq::<Seq<u8>>::empty());
        assert(views_of(rest@) =~= views_of(keys@));
        assert(views_of(out@).to_multiset().add(views_of(rest@).to_multiset()) =~= views_of(keys@)
            .to_multiset());
    }
    loop
        invariant
            sorted_lex(views_of(out@)),
            views_of(out@).to_multiset().add(views_of(rest@).to_multiset()) == views_of(keys@)
                .to_multiset(),
        decreases rest@.len(),
    {
        let ghost rest_views = views_of(rest@);
        match rest.pop() {
            Some(x) => {
                proof {
                    broadcast use vstd::seq_lib::group_to_multiset_ensures;

                    assert(views_of(rest@) =~= rest_views.drop_last());
                    assert(rest_views.drop_last() =~= rest_views.remove(rest_views.len() - 1));
                    assert(rest_views.remove(rest_views.len() - 1).to_multiset() =~= rest_views
                        .to_multiset().remove(x@));
                    assert(rest_views.to_multiset().count(x@) > 0) by {
                        assert(rest_views[rest_views.len() - 1] == x@);
                        assert(rest_views.contains(x@));
                    }
                }
                let ghost out_views = views_of(out@);
                insert_sorted(&mut out, x);
                proof {
                    assert(views_of(out@).to_multiset().add(views_of(rest@).to_multiset())
                        =~= views_of(keys@).to_multiset()) by {
                        assert(views_of(out@).to_multiset() == out_views.to_multiset().insert(x@));
                        assert(views_of(keys@).to_multiset() == out_views.to_multiset().add(
                            rest_views.to_multiset(),
                        ));
                    }
                }
            },
            None => {
                proof {
                    broadcast use vstd::seq_lib::group_to_multiset_ensures;

                    assert(views_of(rest@) =~= Seq::<Seq<u8>>::empty());
                    assert(views_of(rest@).to_multiset().len() == 0);
                    assert(views_of(out@).to_multiset().add(views_of(rest@).to_multiset())
                        =~= views_of(out@).to_multiset());
                }
                return out;
            },
        }
    }
}

/// Decides whether the full expected segment set has arrived.  Exactly
/// when the number of listed keys matching the manifest shape equals
/// `expected`, the matched keys are returned in ascending lexicographic
/// order — which is also chronological, by construction of the start
/// field.  On any other count the clip is deferred: no error, no work.
pub fn complete_segments(expected: u64, listed: &Vec<Vec<u8>>) -> (r: Option<Vec<Vec<u8>>>)
    ensures
        r is Some <==> manifest_filter(views_of(listed@)).len() == expected,
        r matches Some(v) ==> {
            &&& sorted_lex(views_of(v@))
            &&& views_of(v@).to_multiset() == manifest_filter(views_of(listed@)).to_multiset()
            &&& v@.len() == expected
        },
{
    let matched = filter_manifest_keys(listed);
    let count = matched.len();
    if (count as u64) == expected {
        let sorted = sort_keys(matched);
        proof {
            broadcast use vstd::seq_lib::group_to_multiset_ensures;

            assert(views_of(sorted@).to_multiset().len() == views_of(sorted@).len());
        }
        Some(sorted)
    } else {
        None
    }
}

} // verus!
