//! Directory listings: their entries, and the order in which the file
//! trees show them (directories first, then by name).
use vstd::prelude::*;
use vstd::assert_multisets_equal;
use crate::text::{chars_of, to_string};

verus! {

/// One entry of a directory listing.
#[derive(Debug)]
pub struct DirEntry {
    pub name: String,
    pub is_dir: bool,
}

/// Code-point lexicographic order on names (the order of their UTF-8 bytes).
pub open spec fn name_lt(a: Seq<char>, b: Seq<char>) -> bool
    decreases a.len(),
{
    if a.len() == 0 {
        b.len() > 0
    } else if b.len() == 0 {
        false
    } else if (a[0] as u32) < (b[0] as u32) {
        true
    } else if a[0] == b[0] {
        name_lt(a.drop_first(), b.drop_first())
    } else {
        false
    }
}

/// Listing order: directories before files, then by name.
pub open spec fn entry_lt(a: (Seq<char>, bool), b: (Seq<char>, bool)) -> bool {
    (a.1 && !b.1) || (a.1 == b.1 && name_lt(a.0, b.0))
}


/// What the listing order looks at: the name and whether it is a directory.
pub open spec fn entry_key(e: DirEntry) -> (Seq<char>, bool) {
    (e.name@, e.is_dir)
}

pub open spec fn entry_keys(es: Seq<DirEntry>) -> Seq<(Seq<char>, bool)> {
    es.map_values(|e: DirEntry| entry_key(e))
}

/// No later entry comes before an earlier one.
pub open spec fn sorted_keys(ks: Seq<(Seq<char>, bool)>) -> bool {
    forall|i: int, j: int| 0 <= i < j < ks.len() ==> !entry_lt(#[trigger] ks[j], #[trigger] ks[i])
}

proof fn lemma_name_lt_irreflexive(a: Seq<char>)
    ensures
        !name_lt(a, a),
    decreases a.len(),
{
    if a.len() > 0 {
        lemma_name_lt_irreflexive(a.drop_first());
    }
}

proof fn lemma_name_lt_transitive(a: Seq<char>, b: Seq<char>, c: Seq<char>)
    requires
        name_lt(a, b),
        name_lt(b, c),
    ensures
        name_lt(a, c),
    decreases a.len(),
{
    if a.len() > 0 && b.len() > 0 && c.len() > 0 && a[0] == b[0] && b[0] == c[0] {
        lemma_name_lt_transitive(a.drop_first(), b.drop_first(), c.drop_first());
    }
}

/// The listing order is transitive.
pub proof fn lemma_entry_lt_transitive(a: (Seq<char>, bool), b: (Seq<char>, bool), c: (Seq<char>, bool))
    requires
        entry_lt(a, b),
        entry_lt(b, c),
    ensures
        entry_lt(a, c),
{
    if a.1 == b.1 && b.1 == c.1 {
        lemma_name_lt_transitive(a.0, b.0, c.0);
    }
}

/// No entry comes before itself.
pub proof fn lemma_entry_lt_irreflexive(a: (Seq<char>, bool))
    ensures
        !entry_lt(a, a),
{
    lemma_name_lt_irreflexive(a.0);
}

/// Inserting into a sequence adds the element to its multiset.
pub proof fn lemma_insert_to_multiset<A>(s: Seq<A>, j: int, x: A)
    requires
        0 <= j <= s.len(),
    ensures
        s.insert(j, x).to_multiset() =~= s.to_multiset().insert(x),
{
    broadcast use vstd::seq_lib::group_to_multiset_ensures;

    let t = s.insert(j, x);
    assert(t.remove(j) =~= s);
    assert(t[j] == x);
    assert(t.remove(j).to_multiset() == t.to_multiset().remove(x));
    assert(t.contains(x));
    assert_multisets_equal!(t.to_multiset(), s.to_multiset().insert(x));
}

/// `a` comes before `b` in name order.
pub fn name_less(a: &[char], b: &[char]) -> (r: bool)
    ensures
        r == name_lt(a@, b@),
{
    let mut i: usize = 0;
    assert(a@.skip(0) =~= a@);
    assert(b@.skip(0) =~= b@);
    while i < a.len() && i < b.len()
        invariant
            i <= a@.len(),
            i <= b@.len(),
            name_lt(a@, b@) == name_lt(a@.skip(i as int), b@.skip(i as int)),
        decreases a@.len() - i,
    {
        let x = a[i] as u32;
        let y = b[i] as u32;
        if x < y {
            return true;
        }
        if a[i] != b[i] {
            return false;
        }
        assert(a@.skip(i as int).drop_first() =~= a@.skip(i + 1));
        assert(b@.skip(i as int).drop_first() =~= b@.skip(i + 1));
        i = i + 1;
    }
    i == a.len() && i < b.len()
}


/// Whether entry `a` comes before entry `b` in listing order.
pub fn entry_before(a_name: &str, a_dir: bool, b_name: &str, b_dir: bool) -> (r: bool)
    ensures
        r == entry_lt((a_name@, a_dir), (b_name@, b_dir)),
{
    if a_dir != b_dir {
        a_dir
    } else {
        let x = chars_of(a_name);
        let y = chars_of(b_name);
        name_less(&x, &y)
    }
}

/// The entries in listing order: directories first, then by name; entries
/// that compare equal keep their order.
pub fn sort_entries(entries: Vec<DirEntry>) -> (r: Vec<DirEntry>)
    ensures
        sorted_keys(entry_keys(r@)),
        entry_keys(r@).to_multiset() == entry_keys(entries@).to_multiset(),
{
    broadcast use vstd::seq_lib::group_to_multiset_ensures;

    let mut sorted: Vec<DirEntry> = Vec::new();
    let mut i: usize = 0;
    while i < entries.len()
        invariant
            i <= entries@.len(),
            sorted_keys(entry_keys(sorted@)),
            entry_keys(sorted@).to_multiset() == entry_keys(entries@.take(i as int)).to_multiset(),
        decreases entries@.len() - i,
    {
        let name = entries[i].name.as_str();
        let is_dir = entries[i].is_dir;
        let ghost key = entry_key(entries@[i as int]);
        let mut j: usize = 0;
        while j < sorted.len()
            invariant
                j <= sorted@.len(),
                key == (name@, is_dir),
                forall|k: int| 0 <= k < j ==> !entry_lt(key, #[trigger] entry_keys(sorted@)[k]),
            ensures
                j <= sorted@.len(),
                forall|k: int| 0 <= k < j ==> !entry_lt(key, #[trigger] entry_keys(sorted@)[k]),
                j < sorted@.len() ==> entry_lt(key, entry_keys(sorted@)[j as int]),
            decreases sorted@.len() - j,
        {
            let before = entry_before(name, is_dir, sorted[j].name.as_str(), sorted[j].is_dir);
            assert(entry_keys(sorted@)[j as int] == entry_key(sorted@[j as int]));
            if before {
                break;
            }
            j = j + 1;
        }
        let entry = DirEntry { name: to_string(name), is_dir };
        assert(entry_key(entry) == key);
        let ghost old_keys = entry_keys(sorted@);
        sorted.insert(j, entry);
        proof {
            let ks = entry_keys(sorted@);
            assert(ks =~= old_keys.insert(j as int, key));
            assert forall|a: int, b: int| 0 <= a < b < ks.len() implies !entry_lt(
                #[trigger] ks[b],
                #[trigger] ks[a],
            ) by {
                if a < j && b == j {
                } else if a == j && b > j {
                    let m = old_keys[j as int];
                    if entry_lt(ks[b], key) {
                        if b == j + 1 {
                            lemma_entry_lt_transitive(m, key, m);
                            lemma_entry_lt_irreflexive(m);
                        } else {
                            lemma_entry_lt_transitive(old_keys[b - 1], key, m);
                        }
                    }
                } else if a < j && b < j {
                    assert(ks[a] == old_keys[a] && ks[b] == old_keys[b]);
                } else if a < j && b > j {
                    assert(ks[a] == old_keys[a] && ks[b] == old_keys[b - 1]);
                } else {
                    assert(ks[a] == old_keys[a - 1] && ks[b] == old_keys[b - 1]);
                }
            }
            lemma_insert_to_multiset(old_keys, j as int, key);
            assert(entry_keys(entries@.take(i + 1)) =~= entry_keys(entries@.take(i as int)).push(key));
            vstd::seq_lib::to_multiset_build(entry_keys(entries@.take(i as int)), key);
        }
        i = i + 1;
    }
    assert(entries@.take(entries@.len() as int) =~= entries@);
    sorted
}

/// In a sorted listing every directory comes before every file.
pub proof fn lemma_directories_first(ks: Seq<(Seq<char>, bool)>, i: int, j: int)
    requires
        sorted_keys(ks),
        0 <= i < j < ks.len(),
        ks[j].1,
    ensures
        ks[i].1,
{
    assert(!entry_lt(ks[j], ks[i]));
}

} // verus!
