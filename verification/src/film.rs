use vstd::prelude::*;
use vstd::string::*;
use crate::text::{
    spec_eq_ignore_case, spec_lex_le, eq_ignore_case, str_le, lemma_lex_le_total,
    lemma_lex_le_trans,
};

verus! {

broadcast use vstd::seq_lib::group_to_multiset_ensures;

/// One film entry of a cinema's calendar snapshot.
#[derive(Debug, Clone, PartialEq, Eq)]
pub struct Film {
    pub name: String,
    pub show_type: String,
}

/// Order of the film listing: lexicographic by name, by code point.
pub open spec fn spec_film_le(a: Film, b: Film) -> bool {
    spec_lex_le(a.name@, b.name@)
}

/// A film list is sorted when each entry's name is at most the next one's.
pub open spec fn spec_films_sorted(s: Seq<Film>) -> bool {
    forall|i: int| 0 <= i && i + 1 < s.len() ==> #[trigger] spec_film_le(s[i], s[i + 1])
}

proof fn lemma_film_le_chain(s: Seq<Film>, i: int, j: int)
    requires
        spec_films_sorted(s),
        0 <= i < j < s.len(),
    ensures
        spec_film_le(s[i], s[j]),
    decreases j - i,
{
    if j == i + 1 {
        assert(spec_film_le(s[i], s[i + 1]));
    } else {
        lemma_film_le_chain(s, i, j - 1);
        let k = j - 1;
        assert(spec_film_le(s[k], s[k + 1]));
        lemma_lex_le_trans(s[i].name@, s[k].name@, s[j].name@);
    }
}

/// The order a sorted film list puts entries in holds between any two of
/// them, not only between neighbours: names never decrease anywhere in the
/// list.
pub proof fn lemma_films_sorted_pairwise(s: Seq<Film>)
    requires
        spec_films_sorted(s),
    ensures
        forall|i: int, j: int|
            0 <= i < j < s.len() ==> #[trigger] spec_film_le(s[i], s[j]),
{
    assert forall|i: int, j: int| 0 <= i < j < s.len() implies #[trigger] spec_film_le(
        s[i],
        s[j],
    ) by {
        lemma_film_le_chain(s, i, j);
    }
}

/// Where an insertion-sort pass places `f` in `s`: after every entry whose
/// name is at most `f`'s, so that entries with equal names keep their
/// original order.
pub open spec fn spec_insert_film(s: Seq<Film>, f: Film) -> Seq<Film>
    decreases s.len(),
{
    if s.len() == 0 {
        seq![f]
    } else if spec_film_le(s.last(), f) {
        s.push(f)
    } else {
        spec_insert_film(s.drop_last(), f).push(s.last())
    }
}

/// The film list sorted by name, entries inserted in their original order.
pub open spec fn spec_sort_films(s: Seq<Film>) -> Seq<Film>
    decreases s.len(),
{
    if s.len() == 0 {
        Seq::empty()
    } else {
        spec_insert_film(spec_sort_films(s.drop_last()), s.last())
    }
}

proof fn lemma_insert_film_sorted(s: Seq<Film>, f: Film)
    requires
        spec_films_sorted(s),
    ensures
        spec_films_sorted(spec_insert_film(s, f)),
        spec_insert_film(s, f).len() == s.len() + 1,
        spec_insert_film(s, f).last() == f || (s.len() > 0 && spec_insert_film(s, f).last()
            == s.last()),
    decreases s.len(),
{
    if s.len() == 0 {
    } else if spec_film_le(s.last(), f) {
        let r = s.push(f);
        assert forall|i: int| 0 <= i && i + 1 < r.len() implies #[trigger] spec_film_le(
            r[i],
            r[i + 1],
        ) by {
            if i + 1 < s.len() {
                assert(spec_film_le(s[i], s[i + 1]));
            }
        }
    } else {
        let d = s.drop_last();
        assert(spec_films_sorted(d)) by {
            assert forall|i: int| 0 <= i && i + 1 < d.len() implies #[trigger] spec_film_le(
                d[i],
                d[i + 1],
            ) by {
                assert(spec_film_le(s[i], s[i + 1]));
            }
        }
        lemma_insert_film_sorted(d, f);
        let inner = spec_insert_film(d, f);
        let r = inner.push(s.last());
        assert(spec_film_le(inner.last(), s.last())) by {
            if inner.last() == f {
                lemma_lex_le_total(s.last().name@, f.name@);
            } else {
                assert(inner.last() == d.last());
                let i = s.len() - 2;
                assert(spec_film_le(s[i], s[i + 1]));
            }
        }
        assert forall|i: int| 0 <= i && i + 1 < r.len() implies #[trigger] spec_film_le(
            r[i],
            r[i + 1],
        ) by {
            if i + 1 < inner.len() {
                assert(spec_film_le(inner[i], inner[i + 1]));
            }
        }
    }
}

proof fn lemma_insert_film_multiset(s: Seq<Film>, f: Film)
    ensures
        spec_insert_film(s, f).to_multiset() =~= s.to_multiset().insert(f),
    decreases s.len(),
{
    if s.len() == 0 {
        assert(seq![f] =~= Seq::<Film>::empty().push(f));
    } else if spec_film_le(s.last(), f) {
    } else {
        let d = s.drop_last();
        lemma_insert_film_multiset(d, f);
        assert(s =~= d.push(s.last()));
    }
}

/// Inserting `f` at the position the scan finds is the same as the
/// insertion the sorting order describes.
proof fn lemma_insert_film_at(s: Seq<Film>, f: Film, j: int)
    requires
        0 <= j <= s.len(),
        forall|k: int| j <= k < s.len() ==> !spec_film_le(#[trigger] s[k], f),
        j > 0 ==> spec_film_le(s[j - 1], f),
    ensures
        spec_insert_film(s, f) == s.insert(j, f),
    decreases s.len(),
{
    if s.len() == 0 {
        assert(spec_insert_film(s, f) =~= s.insert(0, f));
    } else if spec_film_le(s.last(), f) {
        assert(j == s.len());
        assert(s.push(f) =~= s.insert(j, f));
    } else {
        let d = s.drop_last();
        lemma_insert_film_at(d, f, j);
        assert(d.insert(j, f).push(s.last()) =~= s.insert(j, f));
    }
}

proof fn lemma_sort_films_props(s: Seq<Film>)
    ensures
        spec_films_sorted(spec_sort_films(s)),
        spec_sort_films(s).to_multiset() =~= s.to_multiset(),
        spec_sort_films(s).len() == s.len(),
    decreases s.len(),
{
    if s.len() == 0 {
    } else {
        let d = s.drop_last();
        lemma_sort_films_props(d);
        lemma_insert_film_sorted(spec_sort_films(d), s.last());
        lemma_insert_film_multiset(spec_sort_films(d), s.last());
        assert(s =~= d.push(s.last()));
    }
}

/// Sorting is a no-op on a list that is already sorted: resorting keeps
/// every entry in place.
pub proof fn lemma_sort_of_sorted_is_identity(s: Seq<Film>)
    requires
        spec_films_sorted(s),
    ensures
        spec_sort_films(s) == s,
    decreases s.len(),
{
    if s.len() == 0 {
        assert(spec_sort_films(s) =~= s);
    } else {
        let d = s.drop_last();
        assert(spec_films_sorted(d)) by {
            assert forall|i: int| 0 <= i && i + 1 < d.len() implies #[trigger] spec_film_le(
                d[i],
                d[i + 1],
            ) by {
                assert(spec_film_le(s[i], s[i + 1]));
            }
        }
        lemma_sort_of_sorted_is_identity(d);
        if d.len() > 0 {
            let i = s.len() - 2;
            assert(spec_film_le(s[i], s[i + 1]));
        }
        assert(spec_insert_film(d, s.last()) =~= s);
    }
}

/// Places `f` among already-sorted films, after every entry whose name is
/// at most `f`'s.
fn insert_film(v: &mut Vec<Film>, f: Film)
    ensures
        final(v)@ == spec_insert_film(old(v)@, f),
{
    let mut j: usize = v.len();
    loop
        invariant
            j <= v.len(),
            v@ == old(v)@,
            forall|k: int| j <= k < v@.len() ==> !spec_film_le(#[trigger] v@[k], f),
        ensures
            j <= v.len(),
            v@ == old(v)@,
            forall|k: int| j <= k < v@.len() ==> !spec_film_le(#[trigger] v@[k], f),
            j > 0 ==> spec_film_le(v@[j - 1], f),
        decreases j,
    {
        if j == 0 {
            break ;
        }
        if str_le(v[j - 1].name.as_str(), f.name.as_str()) {
            break ;
        }
        j -= 1;
    }
    proof {
        lemma_insert_film_at(v@, f, j as int);
    }
    v.insert(j, f);
}

/// Sorts films by name, case-sensitively and by code point. Entries with
/// equal names keep their original order; a list that is already sorted
/// comes back unchanged.
pub fn sort_films(films: Vec<Film>) -> (r: Vec<Film>)
    ensures
        r@ == spec_sort_films(films@),
        spec_films_sorted(r@),
        r@.to_multiset() == films@.to_multiset(),
        spec_films_sorted(films@) ==> r@ == films@,
{
    let ghost orig = films@;
    let mut rest = films;
    let mut r: Vec<Film> = Vec::new();
    proof {
        assert(orig.subrange(0, 0) =~= Seq::<Film>::empty());
        assert(orig.subrange(0, orig.len() as int) =~= orig);
    }
    while rest.len() > 0
        invariant
            rest.len() <= orig.len(),
            rest@ == orig.subrange(orig.len() - rest.len(), orig.len() as int),
            r@ == spec_sort_films(orig.subrange(0, orig.len() - rest.len())),
        decreases rest.len(),
    {
        let ghost i = orig.len() - rest@.len();
        let f = rest.remove(0);
        proof {
            assert(f == orig[i as int]);
            assert(rest@ =~= orig.subrange(i + 1, orig.len() as int));
        }
        insert_film(&mut r, f);
        proof {
            let pre = orig.subrange(0, i as int);
            let cur = orig.subrange(0, i + 1);
            assert(cur.drop_last() =~= pre);
            assert(cur.last() == orig[i as int]);
        }
    }
    proof {
        assert(orig.subrange(0, orig.len() as int) =~= orig);
        lemma_sort_films_props(orig);
        if spec_films_sorted(orig) {
            lemma_sort_of_sorted_is_identity(orig);
        }
    }
    r
}

/// The films whose show type matches `t` ignoring case, in their original
/// order.
pub open spec fn spec_filter_films(s: Seq<Film>, t: Seq<char>) -> Seq<Film>
    decreases s.len(),
{
    if s.len() == 0 {
        Seq::empty()
    } else {
        let rest = spec_filter_films(s.drop_last(), t);
        if spec_eq_ignore_case(s.last().show_type@, t) {
            rest.push(s.last())
        } else {
            rest
        }
    }
}

/// Filtering is case-insensitive: two show-type queries with the same
/// lower-case form select the same films.
pub proof fn lemma_filter_case_insensitive(films: Seq<Film>, a: Seq<char>, b: Seq<char>)
    ensures
        spec_eq_ignore_case(a, b) ==> spec_filter_films(films, a) == spec_filter_films(
            films,
            b,
        ),
    decreases films.len(),
{
    if films.len() == 0 {
    } else {
        lemma_filter_case_insensitive(films.drop_last(), a, b);
    }
}

/// Keeps the films whose show type equals `show_type` ignoring case.
pub fn filter_films(films: Vec<Film>, show_type: &str) -> (r: Vec<Film>)
    ensures
        r@ == spec_filter_films(films@, show_type@),
{
    let ghost orig = films@;
    let mut rest = films;
    let mut r: Vec<Film> = Vec::new();
    proof {
        assert(orig.subrange(0, 0) =~= Seq::<Film>::empty());
    }
    while rest.len() > 0
        invariant
            rest.len() <= orig.len(),
            rest@ == orig.subrange(orig.len() - rest.len(), orig.len() as int),
            r@ == spec_filter_films(orig.subrange(0, orig.len() - rest.len()), show_type@),
        decreases rest.len(),
    {
        let ghost i = orig.len() - rest@.len();
        let f = rest.remove(0);
        proof {
            assert(f == orig[i as int]);
            assert(rest@ =~= orig.subrange(i + 1, orig.len() as int));
        }
        let matches = eq_ignore_case(f.show_type.as_str(), show_type);
        proof {
            let pre = orig.subrange(0, i as int);
            let cur = orig.subrange(0, i + 1);
            assert(cur.drop_last() =~= pre);
            assert(cur.last() == orig[i as int]);
        }
        if matches {
            r.push(f);
        }
    }
    proof {
        assert(orig.subrange(0, orig.len() as int) =~= orig);
    }
    r
}

/// The film listing a caller sees: sorted by name and, when a show type is
/// given, filtered by it ignoring case.
pub fn films_for_listing(films: Vec<Film>, show_type: Option<&str>) -> (r: Vec<Film>)
    ensures
        match show_type {
            None => r@ == spec_sort_films(films@),
            Some(t) => r@ == spec_filter_films(spec_sort_films(films@), t@),
        },
{
    let sorted = sort_films(films);
    match show_type {
        None => sorted,
        Some(t) => filter_films(sorted, t),
    }
}

} // verus!
