use vstd::prelude::*;
use vstd::string::*;

verus! {

/// The text folded to lower case, as Unicode case mapping folds it: the
/// result depends on the characters alone.
pub uninterp spec fn lower_of(s: Seq<char>) -> Seq<char>;

/// Relies on str::to_lowercase: the lower-case form depends on the
/// characters alone.
#[verifier::external_body]
fn lowercase(s: &str) -> (r: String)
    ensures
        r@ == lower_of(s@),
{
    s.to_lowercase()
}

/// Two texts are equal ignoring case when their lower-case forms are
/// equal: the comparison the show-type filter uses.
pub open spec fn spec_eq_ignore_case(a: Seq<char>, b: Seq<char>) -> bool {
    lower_of(a) == lower_of(b)
}

/// Compares two texts ignoring case, by their lower-case forms.
pub fn eq_ignore_case(a: &str, b: &str) -> (r: bool)
    ensures
        r == spec_eq_ignore_case(a@, b@),
{
    let la = lowercase(a);
    let lb = lowercase(b);
    la == lb
}

/// Lexicographic order on texts by code point: the order film names are
/// sorted in.
pub open spec fn spec_lex_le(a: Seq<char>, b: Seq<char>) -> bool
    decreases a.len(),
{
    if a.len() == 0 {
        true
    } else if b.len() == 0 {
        false
    } else if (a[0] as int) < (b[0] as int) {
        true
    } else if (a[0] as int) > (b[0] as int) {
        false
    } else {
        spec_lex_le(a.drop_first(), b.drop_first())
    }
}

/// The order is total: of any two texts, one is less than or equal to the
/// other.
pub proof fn lemma_lex_le_total(a: Seq<char>, b: Seq<char>)
    ensures
        spec_lex_le(a, b) || spec_lex_le(b, a),
    decreases a.len(),
{
    if a.len() == 0 {
    } else if b.len() == 0 {
    } else if (a[0] as int) == (b[0] as int) {
        lemma_lex_le_total(a.drop_first(), b.drop_first());
    }
}

/// The order is transitive.
pub proof fn lemma_lex_le_trans(a: Seq<char>, b: Seq<char>, c: Seq<char>)
    requires
        spec_lex_le(a, b),
        spec_lex_le(b, c),
    ensures
        spec_lex_le(a, c),
    decreases a.len(),
{
    if a.len() == 0 {
    } else {
        if b.len() == 0 {
        } else if c.len() == 0 {
        } else if (a[0] as int) == (b[0] as int) && (b[0] as int) == (c[0] as int) {
            lemma_lex_le_trans(a.drop_first(), b.drop_first(), c.drop_first());
        }
    }
}

/// Compares the suffixes of `a` and `b` that start at `i`, code point by
/// code point.
fn str_le_from(a: &str, b: &str, i: usize, la: usize, lb: usize) -> (r: bool)
    requires
        la == a@.len(),
        lb == b@.len(),
        i <= la,
        i <= lb,
    ensures
        r == spec_lex_le(a@.subrange(i as int, la as int), b@.subrange(i as int, lb as int)),
    decreases la - i,
{
    let ghost sa = a@.subrange(i as int, la as int);
    let ghost sb = b@.subrange(i as int, lb as int);
    if i == la {
        true
    } else if i == lb {
        false
    } else {
        let ca = a.get_char(i) as u32;
        let cb = b.get_char(i) as u32;
        if ca < cb {
            true
        } else if ca > cb {
            false
        } else {
            let r = str_le_from(a, b, i + 1, la, lb);
            proof {
                assert(sa.drop_first() =~= a@.subrange(i + 1, la as int));
                assert(sb.drop_first() =~= b@.subrange(i + 1, lb as int));
            }
            r
        }
    }
}

/// Decides `spec_lex_le(a@, b@)`.
pub fn str_le(a: &str, b: &str) -> (r: bool)
    ensures
        r == spec_lex_le(a@, b@),
{
    let la = a.unicode_len();
    let lb = b.unicode_len();
    let r = str_le_from(a, b, 0, la, lb);
    proof {
        assert(a@.subrange(0, la as int) =~= a@);
        assert(b@.subrange(0, lb as int) =~= b@);
    }
    r
}

} // verus!
