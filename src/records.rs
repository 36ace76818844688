//! List operations on records keyed by a string identifier, and the sorted,
//! duplicate-free lists of service identifiers that accounts link to.

use crate::models::{str_views, Account, Service, ServiceType};
use vstd::prelude::*;

verus! {

/// A record identified by a string.
pub trait Keyed {
    spec fn key(&self) -> Seq<char>;

    fn key_ref(&self) -> (r: &String)
        ensures
            r@ == self.key(),
    ;
}

impl Keyed for ServiceType {
    open spec fn key(&self) -> Seq<char> {
        self.id@
    }

    fn key_ref(&self) -> (r: &String) {
        &self.id
    }
}

impl Keyed for Service {
    open spec fn key(&self) -> Seq<char> {
        self.id@
    }

    fn key_ref(&self) -> (r: &String) {
        &self.id
    }
}

impl Keyed for Account {
    open spec fn key(&self) -> Seq<char> {
        self.id@
    }

    fn key_ref(&self) -> (r: &String) {
        &self.id
    }
}

impl Keyed for String {
    open spec fn key(&self) -> Seq<char> {
        self@
    }

    fn key_ref(&self) -> (r: &String) {
        self
    }
}

/// Whether some record of `s` has key `id`.
pub open spec fn has_key<T: Keyed>(s: Seq<T>, id: Seq<char>) -> bool {
    exists|i: int| 0 <= i < s.len() && #[trigger] s[i].key() == id
}

/// The index of the first record with key `id`, if any.
pub fn find_key<T: Keyed>(v: &Vec<T>, id: &String) -> (r: Option<usize>)
    ensures
        r is None <==> !has_key(v@, id@),
        r matches Some(i) ==> i < v@.len() && v@[i as int].key() == id@ && forall|j: int|
            0 <= j < i ==> #[trigger] v@[j].key() != id@,
{
    let mut i: usize = 0;
    while i < v.len()
        invariant
            i <= v@.len(),
            forall|j: int| 0 <= j < i ==> #[trigger] v@[j].key() != id@,
        decreases v@.len() - i,
    {
        if v[i].key_ref().eq(id) {
            return Some(i);
        }
        i += 1;
    }
    None
}

/// Whether `ids` holds `id`.
pub fn contains_str(ids: &Vec<String>, id: &String) -> (r: bool)
    ensures
        r == str_views(ids@).contains(id@),
{
    let mut i: usize = 0;
    while i < ids.len()
        invariant
            i <= ids@.len(),
            forall|j: int| 0 <= j < i ==> ids@[j]@ != id@,
        decreases ids@.len() - i,
    {
        if ids[i].eq(id) {
            assert(str_views(ids@)[i as int] == id@);
            return true;
        }
        i += 1;
    }
    proof {
        if str_views(ids@).contains(id@) {
            let k = choose|k: int| 0 <= k < str_views(ids@).len() && str_views(ids@)[k] == id@;
            assert(ids@[k]@ == id@);
        }
    }
    false
}

pub proof fn lemma_filter_step<T>(s: Seq<T>, j: int, f: spec_fn(T) -> bool)
    requires
        0 <= j < s.len(),
    ensures
        s.take(j + 1).filter(f) == if f(s[j]) {
            s.take(j).filter(f).push(s[j])
        } else {
            s.take(j).filter(f)
        },
{
    reveal(Seq::filter);
    assert(s.take(j + 1).drop_last() =~= s.take(j));
    assert(s.take(j + 1).last() == s[j]);
}

/// Keeps the records whose key `ids` does not hold.
pub open spec fn keep_unlisted<T: Keyed>(ids: Seq<Seq<char>>) -> spec_fn(T) -> bool {
    |x: T| !ids.contains(x.key())
}

/// Keeps the records whose key is not `id`.
pub open spec fn keep_other<T: Keyed>(id: Seq<char>) -> spec_fn(T) -> bool {
    |x: T| x.key() != id
}

/// Removes, in place and in order, the records whose key `ids` holds.
pub fn remove_keys<T: Keyed>(v: &mut Vec<T>, ids: &Vec<String>)
    ensures
        final(v)@ == old(v)@.filter(keep_unlisted::<T>(str_views(ids@))),
{
    let ghost orig = v@;
    let ghost f = keep_unlisted::<T>(str_views(ids@));
    let mut i: usize = 0;
    let ghost mut j: int = 0;
    while i < v.len()
        invariant
            0 <= j <= orig.len(),
            i == orig.take(j).filter(f).len(),
            v@ == orig.take(j).filter(f) + orig.skip(j),
            f == keep_unlisted::<T>(str_views(ids@)),
        decreases v@.len() - i,
    {
        proof {
            lemma_filter_step(orig, j, f);
            assert(v@[i as int] == orig[j]);
        }
        let drop = contains_str(ids, v[i].key_ref());
        if drop {
            v.remove(i);
            proof {
                assert(v@ =~= orig.take(j + 1).filter(f) + orig.skip(j + 1));
            }
        } else {
            i += 1;
            proof {
                assert(v@ =~= orig.take(j + 1).filter(f) + orig.skip(j + 1));
            }
        }
        proof {
            j = j + 1;
        }
    }
    proof {
        assert(orig.take(j) =~= orig);
        assert(v@ =~= orig.filter(f));
    }
}

/// Removes, in place and in order, the records with key `id`; tells whether
/// there was one.
pub fn remove_key<T: Keyed>(v: &mut Vec<T>, id: &String) -> (removed: bool)
    ensures
        final(v)@ == old(v)@.filter(keep_other::<T>(id@)),
        removed == has_key(old(v)@, id@),
{
    let ghost orig = v@;
    let ghost f = keep_other::<T>(id@);
    let mut i: usize = 0;
    let mut removed = false;
    let ghost mut j: int = 0;
    while i < v.len()
        invariant
            0 <= j <= orig.len(),
            i == orig.take(j).filter(f).len(),
            v@ == orig.take(j).filter(f) + orig.skip(j),
            f == keep_other::<T>(id@),
            removed == exists|k: int| 0 <= k < j && #[trigger] orig[k].key() == id@,
        decreases v@.len() - i,
    {
        proof {
            lemma_filter_step(orig, j, f);
            assert(v@[i as int] == orig[j]);
        }
        if v[i].key_ref().eq(id) {
            v.remove(i);
            removed = true;
            proof {
                assert(v@ =~= orig.take(j + 1).filter(f) + orig.skip(j + 1));
            }
        } else {
            i += 1;
            proof {
                assert(v@ =~= orig.take(j + 1).filter(f) + orig.skip(j + 1));
            }
        }
        proof {
            j = j + 1;
        }
    }
    proof {
        assert(orig.take(j) =~= orig);
        assert(v@ =~= orig.filter(f));
    }
    removed
}

/// Lexicographic order on strings by code point, which is the order of their
/// UTF-8 bytes.
pub open spec fn str_le(a: Seq<char>, b: Seq<char>) -> bool
    decreases a.len(),
{
    if a.len() == 0 {
        true
    } else if b.len() == 0 {
        false
    } else if a[0] != b[0] {
        (a[0] as u32) < (b[0] as u32)
    } else {
        str_le(a.drop_first(), b.drop_first())
    }
}

/// Whether the strings are in ascending order.
pub open spec fn sorted_strs(s: Seq<Seq<char>>) -> bool {
    forall|i: int, j: int| 0 <= i < j < s.len() ==> str_le(#[trigger] s[i], #[trigger] s[j])
}

proof fn lemma_str_le_antisymmetric(a: Seq<char>, b: Seq<char>)
    requires
        str_le(a, b),
        str_le(b, a),
    ensures
        a == b,
    decreases a.len(),
{
    if a.len() == 0 {
        assert(b.len() == 0);
        assert(a =~= b);
    } else {
        assert(a[0] == b[0]);
        lemma_str_le_antisymmetric(a.drop_first(), b.drop_first());
        assert(a =~= seq![a[0]] + a.drop_first());
        assert(b =~= seq![b[0]] + b.drop_first());
    }
}

proof fn lemma_str_le_transitive(a: Seq<char>, b: Seq<char>, c: Seq<char>)
    requires
        str_le(a, b),
        str_le(b, c),
    ensures
        str_le(a, c),
    decreases a.len(),
{
    if a.len() > 0 && b.len() > 0 && c.len() > 0 && a[0] == b[0] && b[0] == c[0] {
        lemma_str_le_transitive(a.drop_first(), b.drop_first(), c.drop_first());
    }
}

/// Relies on `slice::sort` for `String`, which orders strings by their UTF-8
/// bytes: the strings are permuted into ascending order.
#[verifier::external_body]
fn sort_strings(v: &mut Vec<String>)
    ensures
        str_views(final(v)@).to_multiset() == str_views(old(v)@).to_multiset(),
        sorted_strs(str_views(final(v)@)),
{
    v.sort();
}

proof fn lemma_str_views_push(s: Seq<String>, x: String)
    ensures
        str_views(s.push(x)) == str_views(s).push(x@),
{
    assert(str_views(s.push(x)) =~= str_views(s).push(x@));
}

/// The sorted strings without repeats.
fn dedup_sorted(v: &Vec<String>) -> (r: Vec<String>)
    requires
        sorted_strs(str_views(v@)),
    ensures
        sorted_strs(str_views(r@)),
        str_views(r@).no_duplicates(),
        forall|x: Seq<char>| str_views(r@).contains(x) <==> str_views(v@).contains(x),
{
    let mut r: Vec<String> = Vec::new();
    let mut i: usize = 0;
    while i < v.len()
        invariant
            i <= v@.len(),
            sorted_strs(str_views(v@)),
            sorted_strs(str_views(r@)),
            str_views(r@).no_duplicates(),
            forall|x: Seq<char>|
                str_views(r@).contains(x) <==> str_views(v@.take(i as int)).contains(x),
            i > 0 ==> r@.len() > 0 && r@.last()@ == v@[i - 1]@,
        decreases v@.len() - i,
    {
        let ghost rv = str_views(r@);
        let ghost x = v@[i as int]@;
        proof {
            lemma_str_views_push(v@.take(i as int), v@[i as int]);
            assert(v@.take(i + 1) =~= v@.take(i as int).push(v@[i as int]));
        }
        let ghost mut grew = false;
        if r.len() == 0 || !r[r.len() - 1].eq(&v[i]) {
            proof {
                grew = true;
                assert forall|k: int| 0 <= k < rv.len() implies str_le(rv[k], x) && rv[k] != x by {
                    assert(rv.contains(rv[k]));
                    let m = choose|m: int|
                        0 <= m < i && str_views(v@.take(i as int))[m] == rv[k];
                    assert(str_views(v@)[m] == rv[k]);
                    assert(str_views(v@)[i as int] == x);
                    let last = rv.len() - 1;
                    assert(str_views(v@)[i - 1] == rv[last]);
                    if k < last {
                        lemma_str_le_transitive(rv[k], rv[last], x);
                        if rv[k] == x {
                            lemma_str_le_antisymmetric(rv[k], rv[last]);
                        }
                    }
                }
            }
            r.push(v[i].clone());
            proof {
                lemma_str_views_push(r@.drop_last(), v@[i as int]);
                assert(str_views(r@) =~= rv.push(x));
            }
        }
        proof {
            let t = str_views(v@.take(i as int));
            let nr = str_views(r@);
            assert(str_views(v@.take(i + 1)) == t.push(x));
            assert(nr.contains(x)) by {
                assert(nr[nr.len() - 1] == x);
            }
            assert forall|y: Seq<char>| nr.contains(y) <==> t.push(x).contains(y) by {
                if y == x {
                    assert(t.push(x)[t.len() as int] == x);
                }
                if t.push(x).contains(y) {
                    let k = choose|k: int| 0 <= k < t.len() + 1 && t.push(x)[k] == y;
                    if k < t.len() {
                        assert(t[k] == y);
                    }
                }
                if t.contains(y) {
                    let k = choose|k: int| 0 <= k < t.len() && t[k] == y;
                    assert(t.push(x)[k] == y);
                }
                if nr.contains(y) && y != x {
                    let k = choose|k: int| 0 <= k < nr.len() && nr[k] == y;
                    if grew {
                        assert(nr == rv.push(x));
                        assert(rv[k] == y);
                    } else {
                        assert(nr == rv);
                    }
                    assert(rv.contains(y));
                    assert(t.contains(y));
                }
                if t.contains(y) {
                    assert(rv.contains(y));
                    let k = choose|k: int| 0 <= k < rv.len() && rv[k] == y;
                    if grew {
                        assert(nr == rv.push(x));
                    }
                    assert(nr[k] == y);
                }
            }
        }
        i += 1;
    }
    proof {
        assert(v@.take(i as int) =~= v@);
    }
    r
}

/// Whether `u` holds exactly what `a` or `b` holds.
pub open spec fn is_union(u: Seq<Seq<char>>, a: Seq<Seq<char>>, b: Seq<Seq<char>>) -> bool {
    forall|x: Seq<char>| #[trigger] u.contains(x) <==> (a.contains(x) || b.contains(x))
}

/// Sets `links` to the ascending, repeat-free union of its identifiers and
/// those of `extra`.
pub fn merge_links(links: &mut Vec<String>, extra: Vec<String>)
    ensures
        sorted_strs(str_views(final(links)@)),
        str_views(final(links)@).no_duplicates(),
        is_union(str_views(final(links)@), str_views(old(links)@), str_views(extra@)),
{
    broadcast use vstd::seq_lib::group_to_multiset_ensures;

    let ghost before = str_views(links@);
    let mut extra = extra;
    let ghost added = str_views(extra@);
    links.append(&mut extra);
    assert(str_views(links@) =~= before + added);
    let ghost joined = str_views(links@);
    sort_strings(links);
    assert forall|x: Seq<char>| str_views(links@).contains(x) <==> joined.contains(x) by {
        assert(str_views(links@).to_multiset().count(x) == joined.to_multiset().count(x));
    }
    assert forall|x: Seq<char>| joined.contains(x) <==> (before.contains(x) || added.contains(x)) by {
        if joined.contains(x) {
            let k = choose|k: int| 0 <= k < joined.len() && joined[k] == x;
            if k >= before.len() {
                assert(added[k - before.len()] == x);
            }
        }
        if before.contains(x) {
            let k = choose|k: int| 0 <= k < before.len() && before[k] == x;
            assert(joined[k] == x);
        }
        if added.contains(x) {
            let k = choose|k: int| 0 <= k < added.len() && added[k] == x;
            assert(joined[before.len() + k] == x);
        }
    }
    let r = dedup_sorted(links);
    *links = r;
}

/// Whether `i` is the index of the first record of `s` with key `id`.
pub open spec fn is_first_key<T: Keyed>(s: Seq<T>, id: Seq<char>, i: int) -> bool {
    &&& 0 <= i < s.len()
    &&& s[i].key() == id
    &&& forall|j: int| 0 <= j < i ==> #[trigger] s[j].key() != id
}

/// `after` is `before` with the first record of `x`'s key replaced by `x`.
pub open spec fn replaced_first<T: Keyed>(before: Seq<T>, after: Seq<T>, x: T) -> bool {
    exists|i: int| is_first_key(before, x.key(), i) && after == before.update(i, x)
}

/// Replaces the first record with `x`'s key by `x`; hands `x` back when
/// there is none.
pub fn replace_first<T: Keyed>(v: &mut Vec<T>, x: T) -> (r: Result<(), T>)
    ensures
        r is Err ==> !has_key(old(v)@, x.key()) && final(v)@ == old(v)@ && r->Err_0 == x,
        r is Ok ==> has_key(old(v)@, x.key()) && replaced_first(old(v)@, final(v)@, x),
{
    match find_key(v, x.key_ref()) {
        None => Err(x),
        Some(i) => {
            let ghost before = v@;
            v[i] = x;
            proof {
                assert(is_first_key(before, x.key(), i as int));
            }
            Ok(())
        },
    }
}

/// `after` is `before` with `extra` added to its links, which are kept
/// ascending and free of repeats.
pub open spec fn links_merged(before: Account, after: Account, extra: Seq<Seq<char>>) -> bool {
    &&& after.id == before.id
    &&& after.label == before.label
    &&& after.notes == before.notes
    &&& after.tags == before.tags
    &&& sorted_strs(str_views(after.linked_services@))
    &&& str_views(after.linked_services@).no_duplicates()
    &&& is_union(str_views(after.linked_services@), str_views(before.linked_services@), extra)
}

/// Adds `extra` to the links of the account at `i`.
pub fn merge_into_account(accounts: &mut Vec<Account>, i: usize, extra: Vec<String>)
    requires
        i < old(accounts)@.len(),
    ensures
        final(accounts)@.len() == old(accounts)@.len(),
        forall|k: int|
            0 <= k < old(accounts)@.len() && k != i ==> #[trigger] final(accounts)@[k] == old(
                accounts,
            )@[k],
        links_merged(old(accounts)@[i as int], final(accounts)@[i as int], str_views(extra@)),
{
    let ghost extra_ids = str_views(extra@);
    let mut acc = accounts.remove(i);
    let ghost prior = acc;
    merge_links(&mut acc.linked_services, extra);
    assert(links_merged(prior, acc, extra_ids));
    accounts.insert(i, acc);
    assert(accounts@[i as int] == acc);
}

/// `after` is `before` with the identifiers `ids` holds taken out of every
/// account's links.
pub open spec fn links_pruned(before: Seq<Account>, after: Seq<Account>, ids: Seq<Seq<char>>) -> bool {
    &&& after.len() == before.len()
    &&& forall|i: int|
        0 <= i < before.len() ==> {
            &&& (#[trigger] after[i]).id == before[i].id
            &&& after[i].label == before[i].label
            &&& after[i].notes == before[i].notes
            &&& after[i].tags == before[i].tags
            &&& after[i].linked_services@ == before[i].linked_services@.filter(
                keep_unlisted::<String>(ids),
            )
        }
}

/// Takes the identifiers `ids` holds out of every account's links.
pub fn prune_links(accounts: &mut Vec<Account>, ids: &Vec<String>)
    ensures
        links_pruned(old(accounts)@, final(accounts)@, str_views(ids@)),
{
    let ghost orig = accounts@;
    let mut i: usize = 0;
    while i < accounts.len()
        invariant
            accounts@.len() == orig.len(),
            i <= orig.len(),
            forall|k: int| i <= k < orig.len() ==> #[trigger] accounts@[k] == orig[k],
            forall|k: int|
                0 <= k < i ==> {
                    &&& (#[trigger] accounts@[k]).id == orig[k].id
                    &&& accounts@[k].label == orig[k].label
                    &&& accounts@[k].notes == orig[k].notes
                    &&& accounts@[k].tags == orig[k].tags
                    &&& accounts@[k].linked_services@ == orig[k].linked_services@.filter(
                        keep_unlisted::<String>(str_views(ids@)),
                    )
                },
        decreases orig.len() - i,
    {
        let mut acc = accounts.remove(i);
        remove_keys(&mut acc.linked_services, ids);
        accounts.insert(i, acc);
        i += 1;
    }
}

} // verus!
