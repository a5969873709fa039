use vstd::prelude::*;
use crate::model::FsItem;
use crate::text::chars_of;

verus! {

/// What `str::to_lowercase` makes of a text.
pub uninterp spec fn lower_of(s: Seq<char>) -> Seq<char>;

/// Relies on str::to_lowercase: the lower-case form of each character, by
/// Unicode's rules; the result depends on the text alone.
#[verifier::external_body]
fn lowercase(s: &str) -> (r: String)
    ensures
        r@ == lower_of(s@),
{
    s.to_lowercase()
}

/// Lexicographic order on character sequences, a prefix coming first. On
/// strings it agrees with the byte order of their UTF-8 forms.
pub open spec fn lex_le(a: Seq<char>, b: Seq<char>) -> bool
    decreases a.len(),
{
    if a.len() == 0 {
        true
    } else if b.len() == 0 {
        false
    } else if a[0] != b[0] {
        a[0] < b[0]
    } else {
        lex_le(a.drop_first(), b.drop_first())
    }
}

proof fn lemma_lex_total(a: Seq<char>, b: Seq<char>)
    ensures
        lex_le(a, b) || lex_le(b, a),
    decreases a.len(),
{
    if a.len() > 0 && b.len() > 0 && a[0] == b[0] {
        lemma_lex_total(a.drop_first(), b.drop_first());
    }
}

/// Order of a directory listing: directories before files, and within each
/// group names compared without regard to case.
pub open spec fn listed_before(a: FsItem, b: FsItem) -> bool {
    ||| (a.is_dir && !b.is_dir)
    ||| (a.is_dir == b.is_dir && lex_le(lower_of(a.name@), lower_of(b.name@)))
}

fn lex_le_vec(a: &Vec<char>, b: &Vec<char>) -> (r: bool)
    ensures
        r == lex_le(a@, b@),
{
    let mut i: usize = 0;
    assert(a@.skip(0) =~= a@);
    assert(b@.skip(0) =~= b@);
    while i < a.len() && i < b.len() && a[i] == b[i]
        invariant
            i <= a@.len(),
            i <= b@.len(),
            lex_le(a@, b@) == lex_le(a@.skip(i as int), b@.skip(i as int)),
        decreases a@.len() - i,
    {
        assert(a@.skip(i as int).drop_first() =~= a@.skip(i + 1));
        assert(b@.skip(i as int).drop_first() =~= b@.skip(i + 1));
        i = i + 1;
    }
    if i == a.len() {
        true
    } else if i == b.len() {
        false
    } else {
        a[i] < b[i]
    }
}

proof fn lemma_listed_total(a: FsItem, b: FsItem)
    ensures
        listed_before(a, b) || listed_before(b, a),
{
    lemma_lex_total(lower_of(a.name@), lower_of(b.name@));
}

fn listed_before_exec(a: &FsItem, ka: &Vec<char>, b: &FsItem, kb: &Vec<char>) -> (r: bool)
    requires
        ka@ == lower_of(a.name@),
        kb@ == lower_of(b.name@),
    ensures
        r == listed_before(*a, *b),
{
    (a.is_dir && !b.is_dir) || (a.is_dir == b.is_dir && lex_le_vec(ka, kb))
}

/// Neither entry goes before the other: same kind, same name up to case.
pub open spec fn same_rank(a: FsItem, b: FsItem) -> bool {
    listed_before(a, b) && listed_before(b, a)
}

/// `idx` says where each entry of `r` stood in `items`: each entry is taken
/// from its own place, and entries of the same rank keep their order.
pub open spec fn placed_stably(r: Seq<FsItem>, items: Seq<FsItem>, idx: Seq<int>) -> bool {
    &&& idx.len() == r.len()
    &&& forall|i: int| 0 <= i < r.len() ==> 0 <= #[trigger] idx[i] < items.len() && r[i] == items[idx[i]]
    &&& forall|i: int, j: int| 0 <= i < j < r.len() ==> #[trigger] idx[i] != #[trigger] idx[j]
    &&& forall|i: int, j: int|
        0 <= i < j < r.len() && same_rank(#[trigger] r[i], #[trigger] r[j]) ==> idx[i] < idx[j]
}

/// `placed_stably`, with every position taken from below `bound`.
spec fn placed_below(r: Seq<FsItem>, items: Seq<FsItem>, idx: Seq<int>, bound: int) -> bool {
    &&& placed_stably(r, items, idx)
    &&& forall|i: int| 0 <= i < r.len() ==> #[trigger] idx[i] < bound
}

proof fn lemma_insert_placed(
    out: Seq<FsItem>,
    idx: Seq<int>,
    items: Seq<FsItem>,
    p: int,
    x: FsItem,
    done: int,
)
    requires
        placed_below(out, items, idx, done),
        0 <= p <= out.len(),
        0 <= done < items.len(),
        x == items[done],
        forall|q: int| p <= q < out.len() ==> !listed_before(#[trigger] out[q], x),
    ensures
        placed_below(out.insert(p, x), items, idx.insert(p, done), done + 1),
{
    let r = out.insert(p, x);
    let ix = idx.insert(p, done);
    assert forall|i: int| 0 <= i < r.len() implies 0 <= #[trigger] ix[i] < items.len() && r[i]
        == items[ix[i]] && ix[i] < done + 1 by {
        if i > p {
            assert(ix[i] == idx[i - 1]);
        }
    }
    assert forall|i: int, j: int| 0 <= i < j < r.len() implies #[trigger] ix[i] != #[trigger] ix[j] by {
        let oi = if i < p { i } else { i - 1 };
        let oj = if j < p { j } else { j - 1 };
        if i != p && j != p {
            assert(ix[i] == idx[oi] && ix[j] == idx[oj]);
        } else if i == p {
            assert(ix[j] == idx[oj]);
        } else {
            assert(ix[i] == idx[oi]);
        }
    }
    assert forall|i: int, j: int|
        0 <= i < j < r.len() && same_rank(#[trigger] r[i], #[trigger] r[j]) implies ix[i] < ix[j] by {
        let oi = if i < p { i } else { i - 1 };
        let oj = if j < p { j } else { j - 1 };
        if i != p && j != p {
            assert(ix[i] == idx[oi] && ix[j] == idx[oj]);
            assert(r[i] == out[oi] && r[j] == out[oj]);
        } else if j == p {
            assert(ix[i] == idx[oi]);
        } else {
            assert(r[j] == out[oj]);
            assert(!listed_before(out[oj], x));
        }
    }
}

/// Puts a directory listing in display order: directories first, then by
/// name without regard to case. The result holds the same entries, each as
/// often as before, each entry comes no later than the next, and entries of
/// the same rank keep the order they had.
pub fn sort_listing(items: Vec<FsItem>) -> (r: Vec<FsItem>)
    ensures
        r@.to_multiset() == items@.to_multiset(),
        exists|idx: Seq<int>| #[trigger] placed_stably(r@, items@, idx),
        forall|i: int| 0 <= i < r@.len() - 1 ==> listed_before(#[trigger] r@[i], r@[i + 1]),
{
    broadcast use vstd::seq_lib::group_to_multiset_ensures, vstd::multiset::group_multiset_axioms;

    let ghost orig = items@;
    let mut rest = items;
    let mut out: Vec<FsItem> = Vec::new();
    let mut keys: Vec<Vec<char>> = Vec::new();
    let ghost mut idx: Seq<int> = Seq::empty();
    assert(rest@ =~= orig.subrange(0, orig.len() as int));
    assert(out@.to_multiset().add(rest@.to_multiset()) =~= orig.to_multiset()) by {
        assert(out@ =~= Seq::<FsItem>::empty());
    }
    while rest.len() > 0
        invariant
            out@.to_multiset().add(rest@.to_multiset()) == orig.to_multiset(),
            keys@.len() == out@.len(),
            forall|i: int| 0 <= i < keys@.len() ==> (#[trigger] keys@[i])@ == lower_of(out@[i].name@),
            forall|i: int| 0 <= i < out@.len() - 1 ==> listed_before(#[trigger] out@[i], out@[i + 1]),
            rest@.len() <= orig.len(),
            rest@ == orig.subrange(orig.len() - rest@.len(), orig.len() as int),
            placed_below(out@, orig, idx, orig.len() - rest@.len()),
        decreases rest@.len(),
    {
        let ghost old_rest = rest@;
        let ghost done: int = orig.len() - rest@.len();
        let x = rest.remove(0);
        assert(x == orig[done]);
        let lower = lowercase(x.name.as_str());
        let kx = chars_of(lower.as_str());
        let mut p: usize = out.len();
        while p > 0 && !listed_before_exec(&out[p - 1], &keys[p - 1], &x, &kx)
            invariant
                p <= out@.len(),
                keys@.len() == out@.len(),
                kx@ == lower_of(x.name@),
                forall|i: int| 0 <= i < keys@.len() ==> (#[trigger] keys@[i])@ == lower_of(out@[i].name@),
                forall|q: int| p <= q < out@.len() ==> !listed_before(#[trigger] out@[q], x),
            decreases p,
        {
            p = p - 1;
        }
        let ghost old_out = out@;
        proof {
            if p < old_out.len() {
                lemma_listed_total(old_out[p as int], x);
            }
        }
        let ghost old_idx = idx;
        out.insert(p, x);
        keys.insert(p, kx);
        proof {
            idx = old_idx.insert(p as int, done);
            lemma_insert_placed(old_out, old_idx, orig, p as int, x, done);
            assert(rest@ =~= orig.subrange(orig.len() - rest@.len(), orig.len() as int));
            assert(old_rest[0] == x);
            assert(old_rest.contains(x));
            old_rest.to_multiset_ensures();
            assert(old_rest.to_multiset().count(x) > 0);
            assert(out@ == old_out.insert(p as int, x));
            assert(rest@ == old_rest.remove(0));
            vstd::seq_lib::to_multiset_insert(old_out, p as int, x);
            vstd::seq_lib::to_multiset_remove(old_rest, 0);
            assert(out@.to_multiset() == old_out.to_multiset().insert(x));
            assert(rest@.to_multiset() == old_rest.to_multiset().remove(x));
            assert(out@.to_multiset().add(rest@.to_multiset()) =~= old_out.to_multiset().add(
                old_rest.to_multiset(),
            ));
        }
    }
    assert(placed_stably(out@, orig, idx));
    out
}

} // verus!
