//! Request ids and the removal of duplicate tracks.

use vstd::prelude::*;
use crate::models::Song;
use rand::Rng;

verus! {

/// How many characters a request id has.
pub const ID_LENGTH: usize = 5;

/// An ASCII letter or digit.
pub open spec fn is_ascii_alphanumeric(c: char) -> bool {
    ('0' <= c && c <= '9') || ('A' <= c && c <= 'Z') || ('a' <= c && c <= 'z')
}

/// `rand::rng().sample_iter(&rand::distr::Alphanumeric)`, cut after `len`
/// samples: each sample is one of the 62 ASCII letters and digits, so the
/// string has `len` characters, all of them alphanumeric. Which ones is left
/// open: they are random.
#[verifier::external_body]
fn sample_alphanumeric(len: usize) -> (r: String)
    ensures
        r@.len() == len,
        forall|i: int| 0 <= i < r@.len() ==> is_ascii_alphanumeric(#[trigger] r@[i]),
{
    rand::rng().sample_iter(&rand::distr::Alphanumeric).take(len).map(char::from).collect()
}

/// A fresh random id for one request: `ID_LENGTH` ASCII letters and digits.
pub fn generate_rand_id() -> (r: String)
    ensures
        r@.len() == ID_LENGTH,
        forall|i: int| 0 <= i < r@.len() ==> is_ascii_alphanumeric(#[trigger] r@[i]),
{
    sample_alphanumeric(ID_LENGTH)
}

/// Some track of `s` has the identity `id`.
pub open spec fn has_identity(s: Seq<Song>, id: (Seq<char>, Seq<char>)) -> bool {
    exists|i: int| 0 <= i < s.len() && #[trigger] s[i].identity() == id
}

/// No two tracks of `s` have the same identity.
pub open spec fn distinct(s: Seq<Song>) -> bool {
    forall|i: int, j: int|
        0 <= i < j < s.len() ==> #[trigger] s[i].identity() != #[trigger] s[j].identity()
}

/// `s` without its duplicates: a track stays exactly if no track before it in
/// `s` has its identity, and the tracks that stay keep their order.
pub open spec fn dedupe(s: Seq<Song>) -> Seq<Song>
    decreases s.len(),
{
    if s.len() == 0 {
        Seq::empty()
    } else if has_identity(s.drop_last(), s.last().identity()) {
        dedupe(s.drop_last())
    } else {
        dedupe(s.drop_last()).push(s.last())
    }
}

/// The positions in `s` of the tracks that `dedupe` keeps, in order.
pub open spec fn kept_positions(s: Seq<Song>) -> Seq<int>
    decreases s.len(),
{
    if s.len() == 0 {
        Seq::empty()
    } else if has_identity(s.drop_last(), s.last().identity()) {
        kept_positions(s.drop_last())
    } else {
        kept_positions(s.drop_last()).push(s.len() - 1)
    }
}

/// `out` is drawn from `s` at the positions `at`: these rise strictly, each is
/// the first place in `s` where its track's identity occurs, and `out` holds
/// the tracks found there.
pub open spec fn drawn_from_first_occurrences(s: Seq<Song>, out: Seq<Song>, at: Seq<int>) -> bool {
    &&& at.len() == out.len()
    &&& forall|k: int| 0 <= k < at.len() ==> 0 <= #[trigger] at[k] < s.len()
    &&& forall|k: int| 0 <= k < at.len() ==> #[trigger] out[k] == s[at[k]]
    &&& forall|k: int|
        0 <= k < at.len() ==> !has_identity(s.take(#[trigger] at[k]), s[at[k]].identity())
    &&& forall|k: int, l: int| 0 <= k < l < at.len() ==> #[trigger] at[k] < #[trigger] at[l]
}

/// Removing duplicates neither adds nor loses an identity, and never makes the
/// sequence longer.
pub proof fn lemma_dedupe_identities(s: Seq<Song>)
    ensures
        dedupe(s).len() <= s.len(),
        forall|id: (Seq<char>, Seq<char>)| has_identity(dedupe(s), id) <==> has_identity(s, id),
    decreases s.len(),
{
    if s.len() > 0 {
        let front = s.drop_last();
        let last = s.last();
        lemma_dedupe_identities(front);
        assert forall|id: (Seq<char>, Seq<char>)| has_identity(dedupe(s), id) implies has_identity(
            s,
            id,
        ) by {
            let i = choose|i: int| 0 <= i < dedupe(s).len() && dedupe(s)[i].identity() == id;
            if i < dedupe(front).len() {
                assert(dedupe(front)[i].identity() == id);
                assert(has_identity(front, id));
                let j = choose|j: int| 0 <= j < front.len() && front[j].identity() == id;
                assert(s[j].identity() == id);
            } else {
                assert(s[s.len() - 1].identity() == id);
            }
        }
        assert forall|id: (Seq<char>, Seq<char>)| has_identity(s, id) implies has_identity(
            dedupe(s),
            id,
        ) by {
            let j = choose|j: int| 0 <= j < s.len() && s[j].identity() == id;
            if j < front.len() {
                assert(front[j].identity() == id);
                assert(has_identity(front, id));
                assert(has_identity(dedupe(front), id));
                let i = choose|i: int| 0 <= i < dedupe(front).len() && dedupe(front)[i].identity() == id;
                assert(dedupe(s)[i].identity() == id);
            } else if has_identity(front, last.identity()) {
                assert(s[j] == last);
                assert(has_identity(front, id));
                assert(has_identity(dedupe(front), id));
            } else {
                assert(dedupe(s)[dedupe(front).len() as int].identity() == id);
            }
        }
    }
}

/// What `dedupe` returns holds no identity twice.
pub proof fn lemma_dedupe_distinct(s: Seq<Song>)
    ensures
        distinct(dedupe(s)),
    decreases s.len(),
{
    if s.len() > 0 {
        let front = s.drop_last();
        lemma_dedupe_distinct(front);
        lemma_dedupe_identities(front);
        if !has_identity(front, s.last().identity()) {
            let out = dedupe(s);
            assert forall|i: int, j: int| 0 <= i < j < out.len() implies out[i].identity()
                != out[j].identity() by {
                if j == out.len() - 1 {
                    assert(dedupe(front)[i].identity() == out[i].identity());
                    if out[i].identity() == out[j].identity() {
                        assert(has_identity(dedupe(front), s.last().identity()));
                    }
                } else {
                    assert(dedupe(front)[i].identity() == out[i].identity());
                    assert(dedupe(front)[j].identity() == out[j].identity());
                }
            }
        }
    }
}

/// A sequence that holds no identity twice is left as it is.
pub proof fn lemma_dedupe_of_distinct(s: Seq<Song>)
    requires
        distinct(s),
    ensures
        dedupe(s) == s,
    decreases s.len(),
{
    if s.len() > 0 {
        let front = s.drop_last();
        assert forall|i: int, j: int| 0 <= i < j < front.len() implies front[i].identity()
            != front[j].identity() by {
            assert(s[i].identity() != s[j].identity());
        }
        lemma_dedupe_of_distinct(front);
        if has_identity(front, s.last().identity()) {
            let i = choose|i: int| 0 <= i < front.len() && front[i].identity() == s.last().identity();
            assert(s[i].identity() != s[s.len() - 1].identity());
        }
        assert(front.push(s.last()) =~= s);
    } else {
        assert(dedupe(s) =~= s);
    }
}

/// Removing duplicates is idempotent: a second pass changes nothing, in
/// content or in order.
pub proof fn lemma_dedupe_idempotent(s: Seq<Song>)
    ensures
        dedupe(dedupe(s)) == dedupe(s),
{
    lemma_dedupe_distinct(s);
    lemma_dedupe_of_distinct(dedupe(s));
}

/// The tracks that `dedupe` keeps stand in `s` at `kept_positions(s)`.
pub proof fn lemma_kept_positions(s: Seq<Song>)
    ensures
        drawn_from_first_occurrences(s, dedupe(s), kept_positions(s)),
    decreases s.len(),
{
    if s.len() > 0 {
        let front = s.drop_last();
        lemma_kept_positions(front);
        let at = kept_positions(s);
        let out = dedupe(s);
        let n = kept_positions(front).len();
        assert forall|k: int| 0 <= k < at.len() implies 0 <= #[trigger] at[k] < s.len() && out[k]
            == s[at[k]] && !has_identity(s.take(at[k]), s[at[k]].identity()) by {
            if k < n {
                let p = kept_positions(front)[k];
                assert(at[k] == p);
                assert(out[k] == dedupe(front)[k]);
                assert(front.take(p) =~= s.take(p));
            } else {
                assert(at[k] == s.len() - 1);
                assert(s.take(s.len() - 1) =~= front);
            }
        }
        assert forall|k: int, l: int| 0 <= k < l < at.len() implies #[trigger] at[k]
            < #[trigger] at[l] by {
            if l < n {
                assert(at[k] == kept_positions(front)[k]);
                assert(at[l] == kept_positions(front)[l]);
            } else {
                assert(at[k] == kept_positions(front)[k]);
            }
        }
    }
}

/// What `dedupe` returns holds no two tracks with equal title and album, holds
/// every identity that `s` holds, and is drawn from `s`: each of its tracks is
/// the first of its identity in `s`, and they come in the order they have there.
pub proof fn lemma_dedupe_correct(s: Seq<Song>)
    ensures
        distinct(dedupe(s)),
        forall|id: (Seq<char>, Seq<char>)| has_identity(dedupe(s), id) <==> has_identity(s, id),
        exists|at: Seq<int>| drawn_from_first_occurrences(s, dedupe(s), at),
{
    lemma_dedupe_distinct(s);
    lemma_dedupe_identities(s);
    lemma_kept_positions(s);
}

/// Appending tracks and removing duplicates again leaves what was already
/// free of duplicates in front, untouched.
pub proof fn lemma_dedupe_extends(kept: Seq<Song>, more: Seq<Song>)
    ensures
        dedupe(kept).len() <= dedupe(kept + more).len(),
        dedupe(kept + more).take(dedupe(kept).len() as int) == dedupe(kept),
    decreases more.len(),
{
    if more.len() == 0 {
        assert(kept + more =~= kept);
        assert(dedupe(kept).take(dedupe(kept).len() as int) =~= dedupe(kept));
    } else {
        let all = kept + more;
        assert(all.drop_last() =~= kept + more.drop_last());
        lemma_dedupe_extends(kept, more.drop_last());
        let n = dedupe(kept).len() as int;
        assert(dedupe(all).take(n) =~= dedupe(all.drop_last()).take(n));
    }
}

/// Whether a track before position `i` has the identity of the track at `i`.
fn seen_before(arr: &Vec<Song>, i: usize) -> (r: bool)
    requires
        i < arr.len(),
    ensures
        r == has_identity(arr@.take(i as int), arr@[i as int].identity()),
{
    let mut k: usize = 0;
    while k < i
        invariant
            k <= i < arr.len(),
            !has_identity(arr@.take(k as int), arr@[i as int].identity()),
        decreases i - k,
    {
        if arr[k].same_identity(&arr[i]) {
            assert(arr@.take(i as int)[k as int].identity() == arr@[i as int].identity());
            return true;
        }
        proof {
            let id = arr@[i as int].identity();
            let next = arr@.take(k + 1);
            if has_identity(next, id) {
                let j = choose|j: int| 0 <= j < next.len() && #[trigger] next[j].identity() == id;
                if j < k {
                    assert(arr@.take(k as int)[j].identity() == id);
                }
            }
        }
        k += 1;
    }
    false
}

/// Removes from `arr` every track whose title and album an earlier track of
/// `arr` already has, keeps the others in their order, and returns how many
/// were removed.
pub fn remove_duplicates(arr: &mut Vec<Song>) -> (removed: usize)
    ensures
        final(arr)@ == dedupe(old(arr)@),
        removed == old(arr)@.len() - final(arr)@.len(),
{
    let ghost before = arr@;
    let initial_len = arr.len();
    let mut i: usize = 0;
    let mut removed: usize = 0;
    while i < arr.len()
        invariant
            i <= arr.len(),
            i + removed <= before.len() == initial_len,
            arr@.len() + removed == before.len(),
            arr@.take(i as int) == dedupe(before.take(i + removed)),
            arr@.skip(i as int) == before.skip(i + removed),
        decreases arr.len() - i,
    {
        let ghost j = i + removed;
        let ghost rest = arr@.skip(i as int);
        proof {
            lemma_dedupe_identities(before.take(j));
            assert(arr@[i as int] == arr@.skip(i as int)[0]);
            assert(before[j] == before.skip(j)[0]);
            assert(before.take(j + 1).drop_last() =~= before.take(j));
        }
        if seen_before(arr, i) {
            arr.remove(i);
            removed += 1;
            proof {
                assert(arr@.take(i as int) =~= dedupe(before.take(j + 1)));
                assert forall|k: int| 0 <= k < arr@.len() - i implies arr@.skip(i as int)[k]
                    == before.skip(j + 1)[k] by {
                    assert(rest[k + 1] == before.skip(j)[k + 1]);
                }
                assert(arr@.skip(i as int) =~= before.skip(j + 1));
            }
        } else {
            i += 1;
            proof {
                assert(arr@.take(i as int) =~= arr@.take(i - 1).push(arr@[i - 1]));
                assert forall|k: int| 0 <= k < arr@.len() - i implies arr@.skip(i as int)[k]
                    == before.skip(j + 1)[k] by {
                    assert(rest[k + 1] == before.skip(j)[k + 1]);
                }
                assert(arr@.skip(i as int) =~= before.skip(j + 1));
            }
        }
    }
    proof {
        assert(arr@.take(i as int) =~= arr@);
        assert(before.take(i + removed) =~= before);
    }
    removed
}

} // verus!
