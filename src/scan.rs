//! Selection of the image files of one folder listing, in sorted order.

use vstd::prelude::*;
use crate::validate::names;

verus! {

/// Index of the last `'.'` before position `i`, or -1.
pub open spec fn last_dot(s: Seq<char>, i: int) -> int
    decreases i,
{
    if i <= 0 {
        -1
    } else if s[i - 1] == '.' {
        i - 1
    } else {
        last_dot(s, i - 1)
    }
}

/// The text after the last dot of a file name; a name without a dot, or
/// whose only dot leads it, has none.
pub open spec fn extension_of(s: Seq<char>) -> Option<Seq<char>> {
    let k = last_dot(s, s.len() as int);
    if k > 0 {
        Some(s.subrange(k + 1, s.len() as int))
    } else {
        None
    }
}

/// `c` is the lower-case ASCII letter or character `lower`, in either case.
pub open spec fn same_letter(c: char, lower: char) -> bool {
    c == lower || ('a' <= lower <= 'z' && c as u32 == lower as u32 - 32)
}

pub open spec fn equal_ignoring_case(a: Seq<char>, lower: Seq<char>) -> bool {
    &&& a.len() == lower.len()
    &&& forall|i: int| 0 <= i < a.len() ==> same_letter(#[trigger] a[i], lower[i])
}

/// The accepted extensions, in lower case.
pub open spec fn image_extensions() -> Seq<Seq<char>> {
    seq![
        seq!['j', 'p', 'g'],
        seq!['j', 'p', 'e', 'g'],
        seq!['p', 'n', 'g'],
        seq!['b', 'm', 'p'],
        seq!['t', 'i', 'f', 'f'],
        seq!['w', 'e', 'b', 'p'],
    ]
}

pub open spec fn is_image_extension(e: Seq<char>) -> bool {
    exists|k: int| 0 <= k < image_extensions().len() && equal_ignoring_case(e, #[trigger] image_extensions()[k])
}

/// Whether a file name carries one of the accepted image extensions, in
/// any case.
pub open spec fn is_image_name(s: Seq<char>) -> bool {
    match extension_of(s) {
        Some(e) => is_image_extension(e),
        None => false,
    }
}

fn extension_at(k: usize) -> (r: Vec<char>)
    requires
        k < 6,
    ensures
        r@ == image_extensions()[k as int],
{
    let r = if k == 0 {
        vec!['j', 'p', 'g']
    } else if k == 1 {
        vec!['j', 'p', 'e', 'g']
    } else if k == 2 {
        vec!['p', 'n', 'g']
    } else if k == 3 {
        vec!['b', 'm', 'p']
    } else if k == 4 {
        vec!['t', 'i', 'f', 'f']
    } else {
        vec!['w', 'e', 'b', 'p']
    };
    proof {
        assert(r@ =~= image_extensions()[k as int]);
    }
    r
}

fn matches_ignoring_case(a: &Vec<char>, lower: &Vec<char>) -> (r: bool)
    ensures
        r == equal_ignoring_case(a@, lower@),
{
    if a.len() != lower.len() {
        return false;
    }
    let mut i: usize = 0;
    while i < a.len()
        invariant
            a@.len() == lower@.len(),
            i <= a@.len(),
            forall|j: int| 0 <= j < i ==> same_letter(#[trigger] a@[j], lower@[j]),
        decreases a@.len() - i,
    {
        let c = a[i];
        let l = lower[i];
        if !(c == l || ('a' <= l && l <= 'z' && c as u32 == l as u32 - 32)) {
            return false;
        }
        i = i + 1;
    }
    true
}

/// Whether the extension `e` is an accepted one, in any case.
pub fn has_image_extension(e: &Vec<char>) -> (r: bool)
    ensures
        r == is_image_extension(e@),
{
    let mut k: usize = 0;
    while k < 6
        invariant
            k <= 6,
            forall|j: int| 0 <= j < k ==> !equal_ignoring_case(e@, #[trigger] image_extensions()[j]),
        decreases 6 - k,
    {
        let x = extension_at(k);
        if matches_ignoring_case(e, &x) {
            return true;
        }
        k = k + 1;
    }
    false
}

/// Whether a file name carries one of the accepted image extensions.
pub fn is_image_file_name(name: &String) -> (r: bool)
    ensures
        r == is_image_name(name@),
{
    let s = name.as_str();
    let n = s.unicode_len();
    let mut i: usize = n;
    while i > 0 && s.get_char(i - 1) != '.'
        invariant
            i <= n,
            n == s@.len(),
            last_dot(s@, i as int) == last_dot(s@, n as int),
        decreases i,
    {
        i = i - 1;
    }
    if i <= 1 {
        return false;
    }
    let mut ext: Vec<char> = Vec::new();
    let mut j: usize = i;
    while j < n
        invariant
            i <= j <= n,
            n == s@.len(),
            ext@ == s@.subrange(i as int, j as int),
        decreases n - j,
    {
        ext.push(s.get_char(j));
        proof {
            assert(ext@ =~= s@.subrange(i as int, j + 1));
        }
        j = j + 1;
    }
    has_image_extension(&ext)
}

/// Lexicographic order of names by character, which is the order of their
/// UTF-8 bytes.
pub open spec fn name_le(a: Seq<char>, b: Seq<char>) -> bool
    decreases a.len(),
{
    if a.len() == 0 {
        true
    } else if b.len() == 0 {
        false
    } else if a[0] != b[0] {
        a[0] < b[0]
    } else {
        name_le(a.drop_first(), b.drop_first())
    }
}

pub open spec fn sorted_names(s: Seq<Seq<char>>) -> bool {
    forall|i: int, j: int| 0 <= i < j < s.len() ==> name_le(#[trigger] s[i], #[trigger] s[j])
}

pub proof fn lemma_name_le_total(a: Seq<char>, b: Seq<char>)
    ensures
        name_le(a, b) || name_le(b, a),
    decreases a.len(),
{
    if a.len() > 0 && b.len() > 0 && a[0] == b[0] {
        lemma_name_le_total(a.drop_first(), b.drop_first());
    }
}

pub proof fn lemma_name_le_transitive(a: Seq<char>, b: Seq<char>, c: Seq<char>)
    requires
        name_le(a, b),
        name_le(b, c),
    ensures
        name_le(a, c),
    decreases a.len(),
{
    if a.len() > 0 && b.len() > 0 && c.len() > 0 && a[0] == b[0] && b[0] == c[0] {
        lemma_name_le_transitive(a.drop_first(), b.drop_first(), c.drop_first());
    }
}

/// Whether `a` comes no later than `b` in name order.
pub fn name_less_or_equal(a: &String, b: &String) -> (r: bool)
    ensures
        r == name_le(a@, b@),
{
    let sa = a.as_str();
    let sb = b.as_str();
    let na = sa.unicode_len();
    let nb = sb.unicode_len();
    let mut i: usize = 0;
    proof {
        assert(sa@.skip(0) =~= sa@);
        assert(sb@.skip(0) =~= sb@);
    }
    while i < na && i < nb
        invariant
            na == sa@.len(),
            nb == sb@.len(),
            sa@ == a@,
            sb@ == b@,
            i <= na,
            i <= nb,
            name_le(sa@, sb@) == name_le(sa@.skip(i as int), sb@.skip(i as int)),
        decreases na - i,
    {
        let ca = sa.get_char(i);
        let cb = sb.get_char(i);
        proof {
            assert(sa@.skip(i as int)[0] == ca);
            assert(sb@.skip(i as int)[0] == cb);
        }
        if ca != cb {
            proof {
                assert(sa@.skip(i as int).len() > 0 && sb@.skip(i as int).len() > 0);
                assert(name_le(sa@.skip(i as int), sb@.skip(i as int)) == (ca < cb));
            }
            return ca < cb;
        }
        proof {
            assert(sa@.skip(i as int).drop_first() =~= sa@.skip(i + 1));
            assert(sb@.skip(i as int).drop_first() =~= sb@.skip(i + 1));
        }
        i = i + 1;
    }
    proof {
        assert(sa@.skip(i as int).len() == na - i);
        assert(sb@.skip(i as int).len() == nb - i);
    }
    i == na
}

/// One entry of a directory listing: its name, and whether it is a regular
/// file.
#[derive(Clone, Debug)]
pub struct DirEntryInfo {
    pub name: String,
    pub is_file: bool,
}

pub open spec fn is_image_entry(e: DirEntryInfo) -> bool {
    e.is_file && is_image_name(e.name@)
}

/// The names of the image files among `entries`, in listing order.
pub open spec fn image_entries(entries: Seq<DirEntryInfo>) -> Seq<Seq<char>> {
    entries.filter(|e: DirEntryInfo| is_image_entry(e)).map_values(|e: DirEntryInfo| e.name@)
}

/// Inserts `x` into the sorted `r` after every name that does not follow it.
fn insert_sorted(r: &mut Vec<String>, x: String)
    requires
        sorted_names(names(old(r)@)),
    ensures
        sorted_names(names(final(r)@)),
        names(final(r)@).to_multiset() == names(old(r)@).to_multiset().insert(x@),
{
    let mut p: usize = 0;
    while p < r.len() && name_less_or_equal(&r[p], &x)
        invariant
            p <= r@.len(),
            r@ == old(r)@,
            forall|k: int| 0 <= k < p ==> name_le(#[trigger] r@[k]@, x@),
        decreases r@.len() - p,
    {
        p = p + 1;
    }
    let ghost s = names(r@);
    proof {
        assert forall|k: int| p <= k < s.len() implies name_le(x@, #[trigger] s[k]) by {
            lemma_name_le_total(s[p as int], x@);
            if k > p {
                lemma_name_le_transitive(x@, s[p as int], s[k]);
            }
        }
    }
    let ghost xv = x@;
    r.insert(p, x);
    proof {
        assert(names(r@) =~= s.insert(p as int, xv));
        vstd::seq_lib::to_multiset_insert(s, p as int, xv);
        let t = names(r@);
        assert forall|i: int, j: int| 0 <= i < j < t.len() implies name_le(
            #[trigger] t[i],
            #[trigger] t[j],
        ) by {
            if j < p {
                assert(t[i] == s[i] && t[j] == s[j]);
            } else if j == p {
                assert(t[i] == s[i]);
            } else if i < p {
                assert(t[i] == s[i] && t[j] == s[j - 1]);
                lemma_name_le_transitive(s[i], xv, s[j - 1]);
            } else if i == p {
                assert(t[j] == s[j - 1]);
            } else {
                assert(t[i] == s[i - 1] && t[j] == s[j - 1]);
            }
        }
    }
}

/// The names of the image files among `entries` (regular files with an
/// accepted extension), sorted by name.
pub fn select_image_files(entries: &Vec<DirEntryInfo>) -> (r: Vec<String>)
    ensures
        sorted_names(names(r@)),
        names(r@).to_multiset() == image_entries(entries@).to_multiset(),
{
    let ghost pred = |e: DirEntryInfo| is_image_entry(e);
    let mut r: Vec<String> = Vec::new();
    let mut i: usize = 0;
    proof {
        assert(names(r@) =~= image_entries(entries@.take(0)));
    }
    while i < entries.len()
        invariant
            i <= entries@.len(),
            pred == (|e: DirEntryInfo| is_image_entry(e)),
            sorted_names(names(r@)),
            names(r@).to_multiset() == image_entries(entries@.take(i as int)).to_multiset(),
        decreases entries@.len() - i,
    {
        let e = &entries[i];
        let ghost before = entries@.take(i as int);
        proof {
            assert(entries@.take(i + 1) =~= before.push(*e));
            before.lemma_filter_push(*e, pred);
        }
        if e.is_file && is_image_file_name(&e.name) {
            insert_sorted(&mut r, e.name.clone());
            proof {
                assert(image_entries(before.push(*e)) =~= image_entries(before).push(e.name@));
                vstd::seq_lib::to_multiset_build(image_entries(before), e.name@);
            }
        } else {
            proof {
                assert(image_entries(before.push(*e)) =~= image_entries(before));
            }
        }
        i = i + 1;
    }
    proof {
        assert(entries@.take(entries@.len() as int) =~= entries@);
    }
    r
}

} // verus!
