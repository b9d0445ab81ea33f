//! The candidate engine: filtering the catalog down to viable
//! candidates, shuffling them into a random traversal order, and
//! building the display-ready listing of the whole catalog.

use vstd::prelude::*;
use vstd::seq_lib::group_to_multiset_ensures;

use crate::schedule::{hours_display_spec, viable_spec, Day, Hours, Restaurant, RestaurantView};
use crate::time::Time;

verus! {

/// The viability predicate at a fixed day and time, as a function of the
/// restaurant alone.
pub open spec fn viable_pred(day: Day, time: Time) -> spec_fn(RestaurantView) -> bool {
    |x: RestaurantView| viable_spec(x, day, time)
}

/// The complement of `viable_pred`.
pub open spec fn not_viable_pred(day: Day, time: Time) -> spec_fn(RestaurantView) -> bool {
    |x: RestaurantView| !viable_spec(x, day, time)
}

/// Filters the catalog down to the restaurants viable at the given day
/// and time, preserving catalog order.
pub fn get_viable(list: &Vec<Restaurant>, day: Day, time: Time) -> (r: Vec<Restaurant>)
    requires
        time.wf(),
    ensures
        r.deep_view() == list.deep_view().filter(viable_pred(day, time)),
{
    let ghost dv = list.deep_view();
    let ghost pred = viable_pred(day, time);
    let mut r: Vec<Restaurant> = Vec::new();
    let mut i: usize = 0;
    while i < list.len()
        invariant
            0 <= i <= list@.len(),
            time.wf(),
            dv == list.deep_view(),
            dv.len() == list@.len(),
            pred == viable_pred(day, time),
            r.deep_view() == dv.take(i as int).filter(pred),
        decreases list@.len() - i,
    {
        let ghost prefix = dv.take(i as int);
        let ghost prev = r.deep_view();
        proof {
            reveal(Seq::filter);
            assert(dv.take(i + 1).drop_last() =~= prefix);
            assert(dv.take(i + 1).last() == dv[i as int]);
            assert(dv.take(i + 1).filter(pred) == if pred(dv[i as int]) {
                prefix.filter(pred).push(dv[i as int])
            } else {
                prefix.filter(pred)
            });
        }
        let x = &list[i];
        assert(x@ == dv[i as int]);
        if x.is_viable(day, time) {
            r.push(x.clone());
            proof {
                assert(r.deep_view() =~= prev.push(dv[i as int]));
            }
        }
        i = i + 1;
    }
    proof {
        assert(dv.take(dv.len() as int) =~= dv);
    }
    r
}

/// The sequence with the items at `i` and `j` exchanged.
pub open spec fn swap_seq<T>(s: Seq<T>, i: int, j: int) -> Seq<T> {
    s.update(i, s[j]).update(j, s[i])
}

/// Exchanging two items keeps the length and the multiset of items.
pub proof fn lemma_swap_seq_multiset<T>(s: Seq<T>, i: int, j: int)
    requires
        0 <= i < s.len(),
        0 <= j < s.len(),
    ensures
        swap_seq(s, i, j).len() == s.len(),
        swap_seq(s, i, j).to_multiset() == s.to_multiset(),
{
    broadcast use group_to_multiset_ensures;

    assert(swap_seq(s, i, j).to_multiset() =~= s.to_multiset());
}

/// Exchanges the items at `i` and `j`.
fn swap_items<T>(vec: &mut Vec<T>, i: usize, j: usize)
    requires
        i < old(vec)@.len(),
        j < old(vec)@.len(),
    ensures
        final(vec)@ == swap_seq(old(vec)@, i as int, j as int),
{
    if i != j {
        let lo = if i < j {
            i
        } else {
            j
        };
        let hi = if i < j {
            j
        } else {
            i
        };
        let x_hi = vec.remove(hi);
        let x_lo = vec.remove(lo);
        vec.insert(lo, x_hi);
        vec.insert(hi, x_lo);
        proof {
            assert(vec@ =~= swap_seq(old(vec)@, i as int, j as int));
        }
    } else {
        proof {
            assert(vec@ =~= swap_seq(old(vec)@, i as int, j as int));
        }
    }
}

/// The state of the sequence after the first `k` rounds of the shuffle:
/// round `i` (0-based) exchanges the item at `picks[i]` with the one at
/// position `len - i - 1`, the current tail of the shrinking range.
pub open spec fn shuffle_rounds<T>(s: Seq<T>, picks: Seq<usize>, k: int) -> Seq<T>
    decreases k,
{
    if k <= 0 {
        s
    } else {
        let prev = shuffle_rounds(s, picks, k - 1);
        swap_seq(prev, picks[k - 1] as int, s.len() - k)
    }
}

/// Performs an in-place Fisher-Yates shuffle, driven by a caller-supplied
/// stream of draws: round `i` must be handed an index drawn uniformly
/// from `[0, len - i)` for every permutation to be equally likely.
///
/// Whatever the draws, the result is a permutation: the length and the
/// multiset of items are preserved.
pub fn shuffle<T>(vec: &mut Vec<T>, picks: &Vec<usize>)
    requires
        picks@.len() >= old(vec)@.len(),
        forall|i: int| 0 <= i < old(vec)@.len() ==> picks@[i] < old(vec)@.len() - i,
    ensures
        final(vec)@ == shuffle_rounds(old(vec)@, picks@, old(vec)@.len() as int),
        final(vec)@.len() == old(vec)@.len(),
        final(vec)@.to_multiset() == old(vec)@.to_multiset(),
{
    let ghost s = old(vec)@;
    let len = vec.len();
    let mut i: usize = 0;
    while i < len
        invariant
            0 <= i <= len == s.len(),
            picks@.len() >= s.len(),
            forall|k: int| 0 <= k < s.len() ==> picks@[k] < s.len() - k,
            vec@ == shuffle_rounds(s, picks@, i as int),
            vec@.len() == s.len(),
            vec@.to_multiset() == s.to_multiset(),
        decreases len - i,
    {
        let j = len - i;
        let idx = picks[i];
        proof {
            lemma_swap_seq_multiset(vec@, idx as int, j - 1);
        }
        swap_items(vec, idx, j - 1);
        i = i + 1;
    }
}

/// Lexicographic order on character sequences, by code point, with a
/// prefix ordered before its extensions. This is the order `str`
/// comparison gives, since UTF-8 byte order agrees with code-point order.
pub open spec fn lex_le(a: Seq<char>, b: Seq<char>) -> bool
    decreases a.len(),
{
    if a.len() == 0 {
        true
    } else if b.len() == 0 {
        false
    } else if a[0] as int == b[0] as int {
        lex_le(a.drop_first(), b.drop_first())
    } else {
        (a[0] as int) < (b[0] as int)
    }
}

/// The lexicographic order is total.
pub proof fn lemma_lex_le_total(a: Seq<char>, b: Seq<char>)
    ensures
        lex_le(a, b) || lex_le(b, a),
    decreases a.len(),
{
    if a.len() > 0 && b.len() > 0 && a[0] as int == b[0] as int {
        lemma_lex_le_total(a.drop_first(), b.drop_first());
    }
}

/// The lexicographic order is transitive.
pub proof fn lemma_lex_le_trans(a: Seq<char>, b: Seq<char>, c: Seq<char>)
    requires
        lex_le(a, b),
        lex_le(b, c),
    ensures
        lex_le(a, c),
    decreases a.len(),
{
    if a.len() > 0 && c.len() > 0 {
        if a[0] as int == b[0] as int && b[0] as int == c[0] as int {
            lemma_lex_le_trans(a.drop_first(), b.drop_first(), c.drop_first());
        }
    }
}

/// Compares two strings in the lexicographic order `lex_le`.
fn str_le(a: &str, b: &str) -> (r: bool)
    ensures
        r == lex_le(a@, b@),
{
    let alen = a.unicode_len();
    let blen = b.unicode_len();
    let mut i: usize = 0;
    proof {
        assert(a@.skip(0) =~= a@);
        assert(b@.skip(0) =~= b@);
    }
    while i < alen && i < blen
        invariant
            0 <= i <= alen,
            i <= blen,
            alen == a@.len(),
            blen == b@.len(),
            lex_le(a@, b@) == lex_le(a@.skip(i as int), b@.skip(i as int)),
        decreases alen - i,
    {
        let ca = a.get_char(i);
        let cb = b.get_char(i);
        if (ca as u32) == (cb as u32) {
            proof {
                assert(a@.skip(i as int).drop_first() =~= a@.skip(i + 1));
                assert(b@.skip(i as int).drop_first() =~= b@.skip(i + 1));
            }
            i = i + 1;
        } else {
            proof {
                assert(a@.skip(i as int)[0] == a@[i as int]);
                assert(b@.skip(i as int)[0] == b@[i as int]);
            }
            return (ca as u32) < (cb as u32);
        }
    }
    alen <= blen
}

/// The catalog entries in a row of restaurants read in ascending name
/// order.
pub open spec fn sorted_by_name(s: Seq<RestaurantView>) -> bool {
    forall|i: int, j: int| 0 <= i < j < s.len() ==> lex_le(s[i].name, s[j].name)
}

/// Sorts the restaurants by name, ascending in the order `lex_le`; the
/// length and the multiset of entries are preserved.
pub fn sort_by_name(vec: &mut Vec<Restaurant>)
    ensures
        final(vec)@.len() == old(vec)@.len(),
        final(vec).deep_view().to_multiset() == old(vec).deep_view().to_multiset(),
        sorted_by_name(final(vec).deep_view()),
{
    let ghost dv0 = old(vec).deep_view();
    let n = vec.len();
    if n <= 1 {
        return ;
    }
    let mut i: usize = 1;
    while i < n
        invariant
            1 <= i <= n,
            n == vec@.len(),
            vec.deep_view().to_multiset() == dv0.to_multiset(),
            vec.deep_view().len() == dv0.len(),
            sorted_by_name(vec.deep_view().take(i as int)),
        decreases n - i,
    {
        let mut j: usize = i;
        proof {
            let s = vec.deep_view();
            assert forall|a: int, b: int| 0 <= a < b < i implies lex_le(
                s[a].name,
                s[b].name,
            ) by {
                assert(s.take(i as int)[a] == s[a]);
                assert(s.take(i as int)[b] == s[b]);
            }
        }
        while j > 0 && !str_le(vec[j - 1].name.as_str(), vec[j].name.as_str())
            invariant
                0 <= j <= i < n,
                n == vec@.len(),
                vec.deep_view().to_multiset() == dv0.to_multiset(),
                vec.deep_view().len() == dv0.len(),
                forall|a: int, b: int|
                    0 <= a < b <= i && a != j && b != j ==> lex_le(
                        #[trigger] vec.deep_view()[a].name,
                        #[trigger] vec.deep_view()[b].name,
                    ),
                forall|b: int|
                    j < b <= i ==> lex_le(
                        vec.deep_view()[j as int].name,
                        #[trigger] vec.deep_view()[b].name,
                    ),
            decreases j,
        {
            let ghost prev = vec.deep_view();
            proof {
                lemma_lex_le_total(prev[j - 1].name, prev[j as int].name);
            }
            swap_items(vec, j - 1, j);
            proof {
                assert(vec.deep_view() =~= swap_seq(prev, j - 1, j as int));
                lemma_swap_seq_multiset(prev, j - 1, j as int);
            }
            j = j - 1;
        }
        proof {
            let s = vec.deep_view();
            assert forall|a: int, b: int| 0 <= a < b <= i implies lex_le(
                s[a].name,
                s[b].name,
            ) by {
                if b == j {
                    if a < j - 1 {
                        lemma_lex_le_trans(s[a].name, s[j - 1].name, s[j as int].name);
                    }
                }
            }
            assert(sorted_by_name(s.take(i + 1)));
        }
        i = i + 1;
    }
    proof {
        assert(vec.deep_view().take(n as int) =~= vec.deep_view());
    }
}

/// Splitting a sequence by a predicate and its complement accounts for
/// every item.
pub proof fn lemma_filter_complement_len<T>(s: Seq<T>, pred: spec_fn(T) -> bool, npred: spec_fn(T) -> bool)
    requires
        forall|x: T| #[trigger] npred(x) == !pred(x),
    ensures
        s.filter(pred).len() + s.filter(npred).len() == s.len(),
    decreases s.len(),
{
    reveal(Seq::filter);
    if s.len() > 0 {
        lemma_filter_complement_len(s.drop_last(), pred, npred);
    }
}

/// Every item a filter keeps is an item of the sequence.
pub proof fn lemma_filter_subset<T>(s: Seq<T>, pred: spec_fn(T) -> bool)
    ensures
        forall|i: int|
            0 <= i < s.filter(pred).len() ==> s.contains(#[trigger] s.filter(pred)[i]),
    decreases s.len(),
{
    reveal(Seq::filter);
    if s.len() > 0 {
        let dl = s.drop_last();
        lemma_filter_subset(dl, pred);
        assert forall|i: int|
            0 <= i < s.filter(pred).len() implies s.contains(s.filter(pred)[i]) by {
            if i < dl.filter(pred).len() {
                assert(dl.contains(dl.filter(pred)[i]));
                let m = choose|m: int| 0 <= m < dl.len() && dl[m] == dl.filter(pred)[i];
                assert(s[m] == dl.filter(pred)[i]);
            } else {
                assert(s.filter(pred)[i] == s.last());
                assert(s[s.len() - 1] == s.last());
            }
        }
    }
}

/// Splits the catalog into the restaurants viable at the given day and
/// time and the rest, each side in catalog order.
fn partition_by_viability(list: &Vec<Restaurant>, day: Day, time: Time) -> (r: (
    Vec<Restaurant>,
    Vec<Restaurant>,
))
    requires
        time.wf(),
    ensures
        r.0.deep_view() == list.deep_view().filter(viable_pred(day, time)),
        r.1.deep_view() == list.deep_view().filter(not_viable_pred(day, time)),
{
    let ghost dv = list.deep_view();
    let ghost pred = viable_pred(day, time);
    let ghost npred = not_viable_pred(day, time);
    let mut keep: Vec<Restaurant> = Vec::new();
    let mut rest: Vec<Restaurant> = Vec::new();
    let mut i: usize = 0;
    while i < list.len()
        invariant
            0 <= i <= list@.len(),
            time.wf(),
            dv == list.deep_view(),
            dv.len() == list@.len(),
            pred == viable_pred(day, time),
            npred == not_viable_pred(day, time),
            keep.deep_view() == dv.take(i as int).filter(pred),
            rest.deep_view() == dv.take(i as int).filter(npred),
        decreases list@.len() - i,
    {
        let ghost prefix = dv.take(i as int);
        let ghost keep_prev = keep.deep_view();
        let ghost rest_prev = rest.deep_view();
        proof {
            reveal(Seq::filter);
            assert(dv.take(i + 1).drop_last() =~= prefix);
            assert(dv.take(i + 1).last() == dv[i as int]);
            assert(dv.take(i + 1).filter(pred) == if pred(dv[i as int]) {
                prefix.filter(pred).push(dv[i as int])
            } else {
                prefix.filter(pred)
            });
            assert(dv.take(i + 1).filter(npred) == if npred(dv[i as int]) {
                prefix.filter(npred).push(dv[i as int])
            } else {
                prefix.filter(npred)
            });
        }
        let x = &list[i];
        assert(x@ == dv[i as int]);
        if x.is_viable(day, time) {
            keep.push(x.clone());
            proof {
                assert(keep.deep_view() =~= keep_prev.push(dv[i as int]));
            }
        } else {
            rest.push(x.clone());
            proof {
                assert(rest.deep_view() =~= rest_prev.push(dv[i as int]));
            }
        }
        i = i + 1;
    }
    proof {
        assert(dv.take(dv.len() as int) =~= dv);
    }
    (keep, rest)
}

/// The display label of an optional open/close window: the window's
/// label, or nothing when the day is closed.
pub open spec fn opt_hours_display(o: Option<Hours>) -> Seq<char> {
    match o {
        Some(h) => hours_display_spec(h),
        None => Seq::empty(),
    }
}

/// The listing row a restaurant contributes at a given day and time: its
/// name, the display label of that day's window, and its viability flag.
pub open spec fn row_of(x: RestaurantView, day: Day, time: Time) -> (Seq<char>, Seq<char>, bool) {
    (x.name, opt_hours_display(x.hours.on(day)), viable_spec(x, day, time))
}

/// The row a restaurant contributes, as a function of the restaurant
/// alone.
pub open spec fn row_fn(day: Day, time: Time) -> spec_fn(RestaurantView) -> (
    Seq<char>,
    Seq<char>,
    bool,
) {
    |x: RestaurantView| row_of(x, day, time)
}

/// The mathematical image of a vector of listing rows.
pub open spec fn rows_view(rows: Seq<(String, String, bool)>) -> Seq<(Seq<char>, Seq<char>, bool)> {
    rows.map_values(|t: (String, String, bool)| (t.0@, t.1@, t.2))
}

/// One block of the listing is correct for a source set of restaurants
/// when it is the row-by-row image of some name-sorted arrangement of
/// exactly those restaurants.
pub open spec fn listing_segment_ok(
    rows: Seq<(Seq<char>, Seq<char>, bool)>,
    src: Seq<RestaurantView>,
    day: Day,
    time: Time,
) -> bool {
    exists|p: Seq<RestaurantView>|
        {
            &&& p.to_multiset() == src.to_multiset()
            &&& sorted_by_name(p)
            &&& rows == p.map_values(row_fn(day, time))
        }
}

/// The full listing is correct for a catalog: one row per catalog entry,
/// the viable entries first, each of the two blocks sorted by name and
/// drawn from exactly the viable (respectively non-viable) part of the
/// catalog.
pub open spec fn listing_ok(
    rows: Seq<(Seq<char>, Seq<char>, bool)>,
    catalog: Seq<RestaurantView>,
    day: Day,
    time: Time,
) -> bool {
    let k = catalog.filter(viable_pred(day, time)).len() as int;
    &&& rows.len() == catalog.len()
    &&& forall|i: int| 0 <= i < rows.len() ==> ((#[trigger] rows[i].2) <==> i < k)
    &&& listing_segment_ok(rows.subrange(0, k), catalog.filter(viable_pred(day, time)), day, time)
    &&& listing_segment_ok(
        rows.subrange(k, rows.len() as int),
        catalog.filter(not_viable_pred(day, time)),
        day,
        time,
    )
}

/// Builds the row of each restaurant, in order.
fn make_rows(src: &Vec<Restaurant>, day: Day, time: Time) -> (rows: Vec<(String, String, bool)>)
    requires
        time.wf(),
        forall|i: int| 0 <= i < src.deep_view().len() ==> (#[trigger] src.deep_view()[i]).wf(),
    ensures
        rows_view(rows@) == src.deep_view().map_values(row_fn(day, time)),
{
    let ghost dv = src.deep_view();
    let mut rows: Vec<(String, String, bool)> = Vec::new();
    let mut i: usize = 0;
    while i < src.len()
        invariant
            0 <= i <= src@.len(),
            time.wf(),
            dv == src.deep_view(),
            dv.len() == src@.len(),
            forall|k: int| 0 <= k < dv.len() ==> (#[trigger] dv[k]).wf(),
            rows_view(rows@) == dv.take(i as int).map_values(row_fn(day, time)),
        decreases src@.len() - i,
    {
        let ghost prev = rows_view(rows@);
        let x = &src[i];
        assert(x@ == dv[i as int]);
        let name = x.name.clone();
        let label = match x.get_hours(day) {
            Some(h) => h.to_display(),
            None => String::new(),
        };
        let flag = x.is_viable(day, time);
        rows.push((name, label, flag));
        proof {
            assert(rows_view(rows@) =~= prev.push(row_of(dv[i as int], day, time)));
            assert(dv.take(i + 1).map_values(row_fn(day, time)) =~= prev.push(
                row_of(dv[i as int], day, time),
            ));
        }
        i = i + 1;
    }
    proof {
        assert(dv.take(dv.len() as int) =~= dv);
    }
    rows
}

/// Builds the display-ready listing of the whole catalog: every entry as
/// a (name, hours label, viable) row, the viable entries grouped first,
/// each group sorted by name ascending.
pub fn tuplify(list: &Vec<Restaurant>, day: Day, time: Time) -> (rows: Vec<(String, String, bool)>)
    requires
        time.wf(),
        forall|i: int| 0 <= i < list.deep_view().len() ==> (#[trigger] list.deep_view()[i]).wf(),
    ensures
        listing_ok(rows_view(rows@), list.deep_view(), day, time),
{
    broadcast use group_to_multiset_ensures;

    let ghost dv = list.deep_view();
    let ghost pred = viable_pred(day, time);
    let ghost npred = not_viable_pred(day, time);
    let (mut keep, mut rest) = partition_by_viability(list, day, time);
    let ghost keep0 = keep.deep_view();
    let ghost rest0 = rest.deep_view();
    sort_by_name(&mut keep);
    sort_by_name(&mut rest);
    proof {
        lemma_filter_subset(dv, pred);
        lemma_filter_subset(dv, npred);
        assert forall|i: int| 0 <= i < keep.deep_view().len() implies (
        #[trigger] keep.deep_view()[i]).wf() by {
            let x = keep.deep_view()[i];
            assert(keep.deep_view().contains(x));
            assert(keep.deep_view().to_multiset().count(x) > 0);
            assert(keep0.to_multiset().count(x) > 0);
            assert(keep0.contains(x));
            let m = choose|m: int| 0 <= m < keep0.len() && keep0[m] == x;
            assert(dv.contains(keep0[m]));
            let w = choose|w: int| 0 <= w < dv.len() && dv[w] == x;
            assert(dv[w].wf());
        }
        assert forall|i: int| 0 <= i < rest.deep_view().len() implies (
        #[trigger] rest.deep_view()[i]).wf() by {
            let x = rest.deep_view()[i];
            assert(rest.deep_view().contains(x));
            assert(rest.deep_view().to_multiset().count(x) > 0);
            assert(rest0.to_multiset().count(x) > 0);
            assert(rest0.contains(x));
            let m = choose|m: int| 0 <= m < rest0.len() && rest0[m] == x;
            assert(dv.contains(rest0[m]));
            let w = choose|w: int| 0 <= w < dv.len() && dv[w] == x;
            assert(dv[w].wf());
        }
    }
    let mut rows = make_rows(&keep, day, time);
    let mut tail_rows = make_rows(&rest, day, time);
    let ghost head_v = rows_view(rows@);
    let ghost tail_v = rows_view(tail_rows@);
    let ghost k = keep0.len() as int;
    rows.append(&mut tail_rows);
    proof {
        lemma_filter_complement_len(dv, pred, npred);
        let all = rows_view(rows@);
        assert(all =~= head_v + tail_v);
        assert(keep.deep_view().len() == k);
        assert(all.subrange(0, k) =~= head_v);
        assert(all.subrange(k, all.len() as int) =~= tail_v);
        assert(listing_segment_ok(all.subrange(0, k), keep0, day, time)) by {
            let p = keep.deep_view();
            assert(p.to_multiset() == keep0.to_multiset());
            assert(head_v == p.map_values(row_fn(day, time)));
        }
        assert(listing_segment_ok(all.subrange(k, all.len() as int), rest0, day, time)) by {
            let p = rest.deep_view();
            assert(p.to_multiset() == rest0.to_multiset());
            assert(tail_v == p.map_values(row_fn(day, time)));
        }
        assert forall|i: int| 0 <= i < all.len() implies ((#[trigger] all[i].2) <==> i < k) by {
            if i < k {
                let p = keep.deep_view();
                assert(all[i] == p.map_values(row_fn(day, time))[i]);
                assert(all[i] == row_of(p[i], day, time));
                assert(p.contains(p[i]));
                assert(p.to_multiset().count(p[i]) > 0);
                assert(keep0.to_multiset().count(p[i]) > 0);
                assert(keep0.contains(p[i]));
                let m = choose|m: int| 0 <= m < keep0.len() && keep0[m] == p[i];
                assert(pred(keep0[m]));
            } else {
                let p = rest.deep_view();
                assert(all[i] == tail_v[i - k]);
                assert(all[i] == row_of(p[i - k], day, time));
                assert(p.contains(p[i - k]));
                assert(p.to_multiset().count(p[i - k]) > 0);
                assert(rest0.to_multiset().count(p[i - k]) > 0);
                assert(rest0.contains(p[i - k]));
                let m = choose|m: int| 0 <= m < rest0.len() && rest0[m] == p[i - k];
                assert(npred(rest0[m]));
            }
        }
    }
    rows
}

} // verus!
