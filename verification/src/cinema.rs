use vstd::prelude::*;
use vstd::string::*;
use crate::error::Error;
use crate::text::{spec_lex_le, str_le, lemma_lex_le_total};

verus! {

broadcast use vstd::seq_lib::group_to_multiset_ensures;

/// One cinema of the chain, with its market, as a cached calendar file
/// describes it.
#[derive(Debug, Clone, PartialEq, Eq)]
pub struct Cinema {
    pub id: String,
    pub name: String,
    pub slug: String,
    pub market_id: String,
    pub market_name: String,
    pub market_slug: String,
}

/// A raw identifier is acceptable when it is one to four decimal digits.
pub open spec fn spec_valid_identifier(s: Seq<char>) -> bool {
    &&& 1 <= s.len() <= 4
    &&& forall|i: int| 0 <= i < s.len() ==> 48 <= #[trigger] (s[i] as int) <= 57
}

/// The normalized form: the digits left-padded with zeros to width four.
pub open spec fn spec_normalized_id(s: Seq<char>) -> Seq<char> {
    Seq::new((4 - s.len()) as nat, |i: int| '0') + s
}

impl Cinema {
    /// Normalizes a raw cinema identifier: one to four decimal digits are
    /// zero-padded to width four; anything else is rejected.
    pub fn to_cinema_id(s: &str) -> (r: Result<String, Error>)
        ensures
            r is Ok <==> spec_valid_identifier(s@),
            r matches Ok(id) ==> id@ == spec_normalized_id(s@) && id@.len() == 4,
            r is Err ==> (r matches Err(e) && e == Error::InvalidIdentifier),
    {
        let n = s.unicode_len();
        if n < 1 || n > 4 {
            return Err(Error::InvalidIdentifier);
        }
        let mut i: usize = 0;
        while i < n
            invariant
                n == s@.len(),
                i <= n,
                forall|j: int| 0 <= j < i ==> 48 <= #[trigger] (s@[j] as int) <= 57,
            decreases n - i,
        {
            let c = s.get_char(i) as u32;
            if c < 48 || c > 57 {
                assert(!(48 <= s@[i as int] as int <= 57));
                return Err(Error::InvalidIdentifier);
            }
            i += 1;
        }
        let mut out = String::new();
        let mut k: usize = n;
        proof {
            reveal_strlit("0");
            assert(out@ =~= Seq::new((n - n) as nat, |i: int| '0'));
        }
        while k < 4
            invariant
                n <= k <= 4,
                n == s@.len(),
                out@ == Seq::new((k - n) as nat, |i: int| '0'),
            decreases 4 - k,
        {
            out.append("0");
            proof {
                reveal_strlit("0");
                assert(out@ =~= Seq::new((k + 1 - n) as nat, |i: int| '0'));
            }
            k += 1;
        }
        out.append(s);
        Ok(out)
    }

    /// The built-in catalog of cinema identifiers the bulk path walks when
    /// it is not restricted to local data.
    pub fn list() -> (r: Vec<Cinema>)
        ensures
            r@.len() == 5,
            r@[0].id@ == "0002"@ && r@[0].name@ == "Ritz"@ && r@[0].slug@ == "ritz"@,
            r@[1].id@ == "0003"@ && r@[1].name@ == "Village"@ && r@[1].slug@ == "village"@,
            r@[2].id@ == "0004"@ && r@[2].name@ == "South Lamar"@ && r@[2].slug@
                == "south-lamar"@,
            r@[3].id@ == "0006"@ && r@[3].name@ == "Slaughter Lane"@ && r@[3].slug@
                == "slaughter-lane"@,
            r@[4].id@ == "0007"@ && r@[4].name@ == "Mueller"@ && r@[4].slug@ == "mueller"@,
            forall|i: int|
                0 <= i < 5 ==> (#[trigger] r@[i].market_id@ == "0100"@ && r@[i].market_name@
                    == "Austin"@ && r@[i].market_slug@ == "austin"@),
    {
        let mut r: Vec<Cinema> = Vec::new();
        r.push(Cinema {
            id: String::from_str("0002"),
            name: String::from_str("Ritz"),
            slug: String::from_str("ritz"),
            market_id: String::from_str("0100"),
            market_name: String::from_str("Austin"),
            market_slug: String::from_str("austin"),
        });
        r.push(Cinema {
            id: String::from_str("0003"),
            name: String::from_str("Village"),
            slug: String::from_str("village"),
            market_id: String::from_str("0100"),
            market_name: String::from_str("Austin"),
            market_slug: String::from_str("austin"),
        });
        r.push(Cinema {
            id: String::from_str("0004"),
            name: String::from_str("South Lamar"),
            slug: String::from_str("south-lamar"),
            market_id: String::from_str("0100"),
            market_name: String::from_str("Austin"),
            market_slug: String::from_str("austin"),
        });
        r.push(Cinema {
            id: String::from_str("0006"),
            name: String::from_str("Slaughter Lane"),
            slug: String::from_str("slaughter-lane"),
            market_id: String::from_str("0100"),
            market_name: String::from_str("Austin"),
            market_slug: String::from_str("austin"),
        });
        r.push(Cinema {
            id: String::from_str("0007"),
            name: String::from_str("Mueller"),
            slug: String::from_str("mueller"),
            market_id: String::from_str("0100"),
            market_name: String::from_str("Austin"),
            market_slug: String::from_str("austin"),
        });
        r
    }
}

/// Order of the cinema listing: lexicographic by identifier, by code
/// point.
pub open spec fn spec_cinema_le(a: Cinema, b: Cinema) -> bool {
    spec_lex_le(a.id@, b.id@)
}

/// A cinema list is sorted when each entry's identifier is at most the
/// next one's.
pub open spec fn spec_cinemas_sorted(s: Seq<Cinema>) -> bool {
    forall|i: int| 0 <= i && i + 1 < s.len() ==> #[trigger] spec_cinema_le(s[i], s[i + 1])
}

/// Where an insertion-sort pass places `c` in `s`: after every entry whose
/// identifier is at most `c`'s.
pub open spec fn spec_insert_cinema(s: Seq<Cinema>, c: Cinema) -> Seq<Cinema>
    decreases s.len(),
{
    if s.len() == 0 {
        seq![c]
    } else if spec_cinema_le(s.last(), c) {
        s.push(c)
    } else {
        spec_insert_cinema(s.drop_last(), c).push(s.last())
    }
}

/// The cinema list sorted by identifier.
pub open spec fn spec_sort_cinemas(s: Seq<Cinema>) -> Seq<Cinema>
    decreases s.len(),
{
    if s.len() == 0 {
        Seq::empty()
    } else {
        spec_insert_cinema(spec_sort_cinemas(s.drop_last()), s.last())
    }
}

proof fn lemma_insert_cinema_sorted(s: Seq<Cinema>, c: Cinema)
    requires
        spec_cinemas_sorted(s),
    ensures
        spec_cinemas_sorted(spec_insert_cinema(s, c)),
        spec_insert_cinema(s, c).len() == s.len() + 1,
        spec_insert_cinema(s, c).last() == c || (s.len() > 0 && spec_insert_cinema(s, c).last()
            == s.last()),
    decreases s.len(),
{
    if s.len() == 0 {
    } else if spec_cinema_le(s.last(), c) {
        let r = s.push(c);
        assert forall|i: int| 0 <= i && i + 1 < r.len() implies #[trigger] spec_cinema_le(
            r[i],
            r[i + 1],
        ) by {
            if i + 1 < s.len() {
                assert(spec_cinema_le(s[i], s[i + 1]));
            }
        }
    } else {
        let d = s.drop_last();
        assert(spec_cinemas_sorted(d)) by {
            assert forall|i: int| 0 <= i && i + 1 < d.len() implies #[trigger] spec_cinema_le(
                d[i],
                d[i + 1],
            ) by {
                assert(spec_cinema_le(s[i], s[i + 1]));
            }
        }
        lemma_insert_cinema_sorted(d, c);
        let inner = spec_insert_cinema(d, c);
        let r = inner.push(s.last());
        assert(spec_cinema_le(inner.last(), s.last())) by {
            if inner.last() == c {
                lemma_lex_le_total(s.last().id@, c.id@);
            } else {
                assert(inner.last() == d.last());
                let i = s.len() - 2;
                assert(spec_cinema_le(s[i], s[i + 1]));
            }
        }
        assert forall|i: int| 0 <= i && i + 1 < r.len() implies #[trigger] spec_cinema_le(
            r[i],
            r[i + 1],
        ) by {
            if i + 1 < inner.len() {
                assert(spec_cinema_le(inner[i], inner[i + 1]));
            }
        }
    }
}

proof fn lemma_insert_cinema_multiset(s: Seq<Cinema>, c: Cinema)
    ensures
        spec_insert_cinema(s, c).to_multiset() =~= s.to_multiset().insert(c),
    decreases s.len(),
{
    if s.len() == 0 {
        assert(seq![c] =~= Seq::<Cinema>::empty().push(c));
    } else if spec_cinema_le(s.last(), c) {
    } else {
        let d = s.drop_last();
        lemma_insert_cinema_multiset(d, c);
        assert(s =~= d.push(s.last()));
    }
}

proof fn lemma_insert_cinema_at(s: Seq<Cinema>, c: Cinema, j: int)
    requires
        0 <= j <= s.len(),
        forall|k: int| j <= k < s.len() ==> !spec_cinema_le(#[trigger] s[k], c),
        j > 0 ==> spec_cinema_le(s[j - 1], c),
    ensures
        spec_insert_cinema(s, c) == s.insert(j, c),
    decreases s.len(),
{
    if s.len() == 0 {
        assert(spec_insert_cinema(s, c) =~= s.insert(0, c));
    } else if spec_cinema_le(s.last(), c) {
        assert(j == s.len());
        assert(s.push(c) =~= s.insert(j, c));
    } else {
        let d = s.drop_last();
        lemma_insert_cinema_at(d, c, j);
        assert(d.insert(j, c).push(s.last()) =~= s.insert(j, c));
    }
}

proof fn lemma_sort_cinemas_props(s: Seq<Cinema>)
    ensures
        spec_cinemas_sorted(spec_sort_cinemas(s)),
        spec_sort_cinemas(s).to_multiset() =~= s.to_multiset(),
        spec_sort_cinemas(s).len() == s.len(),
    decreases s.len(),
{
    if s.len() == 0 {
    } else {
        let d = s.drop_last();
        lemma_sort_cinemas_props(d);
        lemma_insert_cinema_sorted(spec_sort_cinemas(d), s.last());
        lemma_insert_cinema_multiset(spec_sort_cinemas(d), s.last());
        assert(s =~= d.push(s.last()));
    }
}

/// Places `c` among already-sorted cinemas, after every entry whose
/// identifier is at most `c`'s.
fn insert_cinema(v: &mut Vec<Cinema>, c: Cinema)
    ensures
        final(v)@ == spec_insert_cinema(old(v)@, c),
{
    let mut j: usize = v.len();
    loop
        invariant
            j <= v.len(),
            v@ == old(v)@,
            forall|k: int| j <= k < v@.len() ==> !spec_cinema_le(#[trigger] v@[k], c),
        ensures
            j <= v.len(),
            v@ == old(v)@,
            forall|k: int| j <= k < v@.len() ==> !spec_cinema_le(#[trigger] v@[k], c),
            j > 0 ==> spec_cinema_le(v@[j - 1], c),
        decreases j,
    {
        if j == 0 {
            break ;
        }
        if str_le(v[j - 1].id.as_str(), c.id.as_str()) {
            break ;
        }
        j -= 1;
    }
    proof {
        lemma_insert_cinema_at(v@, c, j as int);
    }
    v.insert(j, c);
}

/// Sorts a cinema list by identifier, the order the local listing is
/// printed in.
pub fn sort_cinemas_by_id(cinemas: Vec<Cinema>) -> (r: Vec<Cinema>)
    ensures
        r@ == spec_sort_cinemas(cinemas@),
        spec_cinemas_sorted(r@),
        r@.to_multiset() == cinemas@.to_multiset(),
{
    let ghost orig = cinemas@;
    let mut rest = cinemas;
    let mut r: Vec<Cinema> = Vec::new();
    proof {
        assert(orig.subrange(0, 0) =~= Seq::<Cinema>::empty());
        assert(orig.subrange(0, orig.len() as int) =~= orig);
    }
    while rest.len() > 0
        invariant
            rest.len() <= orig.len(),
            rest@ == orig.subrange(orig.len() - rest.len(), orig.len() as int),
            r@ == spec_sort_cinemas(orig.subrange(0, orig.len() - rest.len())),
        decreases rest.len(),
    {
        let ghost i = orig.len() - rest@.len();
        let c = rest.remove(0);
        proof {
            assert(c == orig[i as int]);
            assert(rest@ =~= orig.subrange(i + 1, orig.len() as int));
        }
        insert_cinema(&mut r, c);
        proof {
            let pre = orig.subrange(0, i as int);
            let cur = orig.subrange(0, i + 1);
            assert(cur.drop_last() =~= pre);
            assert(cur.last() == orig[i as int]);
        }
    }
    proof {
        assert(orig.subrange(0, orig.len() as int) =~= orig);
        lemma_sort_cinemas_props(orig);
    }
    r
}

/// The one-line description of a cinema: its identifier, its name, and its
/// market's name in parentheses.
pub fn print_cinema_info_for(cinema: &Cinema) -> (line: String)
    ensures
        line@ == cinema.id@ + " "@ + cinema.name@ + " ("@ + cinema.market_name@ + ")"@,
{
    let mut line = String::new();
    line.append(cinema.id.as_str());
    line.append(" ");
    line.append(cinema.name.as_str());
    line.append(" (");
    line.append(cinema.market_name.as_str());
    line.append(")");
    proof {
        assert(line@ =~= cinema.id@ + " "@ + cinema.name@ + " ("@ + cinema.market_name@
            + ")"@);
    }
    line
}

} // verus!
