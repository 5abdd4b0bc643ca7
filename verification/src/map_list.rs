use vstd::prelude::*;
use vstd::string::StringSliceAdditionalSpecFns;
use vstd::utf8::encode_utf8;

use crate::strings::ends_with_bytes;

verus! {

broadcast use vstd::seq_lib::group_to_multiset_ensures;

/// `a` comes before `b`, or equals it, in the byte order in which Rust
/// compares strings: the first differing byte decides, and a prefix comes
/// first.
pub open spec fn lex_le(a: Seq<u8>, b: Seq<u8>) -> bool
    decreases a.len(),
{
    if a.len() == 0 {
        true
    } else if b.len() == 0 {
        false
    } else if a[0] != b[0] {
        a[0] < b[0]
    } else {
        lex_le(a.drop_first(), b.drop_first())
    }
}

/// `s` ends with `suffix`.
pub open spec fn has_suffix(s: Seq<u8>, suffix: Seq<u8>) -> bool {
    suffix.len() <= s.len() && s.subrange(s.len() - suffix.len(), s.len() as int) == suffix
}

/// A file name that the map list offers: one that ends with `.toml`.
pub open spec fn is_map_file(name: Seq<char>) -> bool {
    has_suffix(encode_utf8(name), ".toml".spec_bytes())
}

/// The characters of each string.
pub open spec fn string_views(v: Seq<String>) -> Seq<Seq<char>> {
    v.map_values(|s: String| s@)
}

/// The entries that the map list offers for these file names: `maps/` and
/// the name, for each name that ends with `.toml`, in the order given.
pub open spec fn map_entries(names: Seq<Seq<char>>) -> Seq<Seq<char>>
    decreases names.len(),
{
    if names.len() == 0 {
        Seq::<Seq<char>>::empty()
    } else if is_map_file(names.last()) {
        map_entries(names.drop_last()).push("maps/"@ + names.last())
    } else {
        map_entries(names.drop_last())
    }
}

/// The strings are in byte order.
pub open spec fn sorted_by_bytes(v: Seq<Seq<char>>) -> bool {
    forall|i: int, j: int| 0 <= i < j < v.len() ==> lex_le(encode_utf8(#[trigger] v[i]), encode_utf8(#[trigger] v[j]))
}

/// Byte order is total: of two sequences, one comes first.
pub proof fn lemma_lex_le_total(a: Seq<u8>, b: Seq<u8>)
    ensures
        lex_le(a, b) || lex_le(b, a),
    decreases a.len(),
{
    if a.len() > 0 && b.len() > 0 && a[0] == b[0] {
        lemma_lex_le_total(a.drop_first(), b.drop_first());
    }
}

/// Byte order is transitive.
pub proof fn lemma_lex_le_transitive(a: Seq<u8>, b: Seq<u8>, c: Seq<u8>)
    requires
        lex_le(a, b),
        lex_le(b, c),
    ensures
        lex_le(a, c),
    decreases a.len(),
{
    if a.len() > 0 && b.len() > 0 && c.len() > 0 && a[0] == b[0] && b[0] == c[0] {
        lemma_lex_le_transitive(a.drop_first(), b.drop_first(), c.drop_first());
    }
}

/// Whether `a` comes before `b`, or equals it, in byte order.
pub fn bytes_le(a: &[u8], b: &[u8]) -> (r: bool)
    ensures
        r == lex_le(a@, b@),
{
    let mut i: usize = 0;
    assert(a@.skip(0) =~= a@ && b@.skip(0) =~= b@);
    loop
        invariant
            i <= a.len(),
            i <= b.len(),
            lex_le(a@, b@) == lex_le(a@.skip(i as int), b@.skip(i as int)),
        decreases a.len() - i,
    {
        if i == a.len() {
            return true;
        }
        if i == b.len() {
            return false;
        }
        if a[i] != b[i] {
            return a[i] < b[i];
        }
        assert(a@.skip(i as int).drop_first() =~= a@.skip(i + 1));
        assert(b@.skip(i as int).drop_first() =~= b@.skip(i + 1));
        i = i + 1;
    }
}

/// Puts `entry` into `list`, which is in byte order, where it keeps that order.
fn insert_sorted(list: &mut Vec<String>, entry: String)
    requires
        sorted_by_bytes(string_views(old(list)@)),
    ensures
        sorted_by_bytes(string_views(final(list)@)),
        string_views(final(list)@).to_multiset() == string_views(old(list)@).to_multiset().insert(
            entry@,
        ),
{
    let ghost old_views = string_views(list@);
    let mut p: usize = 0;
    while p < list.len()
        invariant
            p <= list.len(),
            string_views(list@) == old_views,
            sorted_by_bytes(old_views),
            forall|k: int| 0 <= k < p ==> lex_le(encode_utf8(#[trigger] old_views[k]), encode_utf8(entry@)),
        ensures
            p <= list.len(),
            string_views(list@) == old_views,
            forall|k: int| 0 <= k < p ==> lex_le(encode_utf8(#[trigger] old_views[k]), encode_utf8(entry@)),
            p < list.len() ==> lex_le(encode_utf8(entry@), encode_utf8(old_views[p as int])),
        decreases list.len() - p,
    {
        if !bytes_le(list[p].as_str().as_bytes(), entry.as_str().as_bytes()) {
            proof {
                assert(old_views[p as int] == list@[p as int]@);
                lemma_lex_le_total(encode_utf8(old_views[p as int]), encode_utf8(entry@));
            }
            break;
        }
        p = p + 1;
    }
    proof {
        assert forall|k: int| p <= k < old_views.len() implies lex_le(
            encode_utf8(entry@),
            encode_utf8(#[trigger] old_views[k]),
        ) by {
            if k > p {
                lemma_lex_le_transitive(
                    encode_utf8(entry@),
                    encode_utf8(old_views[p as int]),
                    encode_utf8(old_views[k]),
                );
            }
        }
    }
    let ghost e = entry@;
    list.insert(p, entry);
    proof {
        let nv = string_views(list@);
        assert(nv =~= old_views.insert(p as int, e));
        vstd::seq_lib::to_multiset_insert(old_views, p as int, e);
        assert forall|i: int, j: int| 0 <= i < j < nv.len() implies lex_le(
            encode_utf8(#[trigger] nv[i]),
            encode_utf8(#[trigger] nv[j]),
        ) by {
            if j < p {
            } else if j == p {
            } else if i < p {
                lemma_lex_le_transitive(encode_utf8(nv[i]), encode_utf8(e), encode_utf8(nv[j]));
            } else if i == p {
            } else {
                assert(nv[i] == old_views[i - 1] && nv[j] == old_views[j - 1]);
            }
        }
    }
}

/// The map files to offer in the UI: `maps/<name>` for each file name that
/// ends with `.toml`, in byte order.
pub fn map_choices(file_names: &Vec<String>) -> (r: Vec<String>)
    ensures
        sorted_by_bytes(string_views(r@)),
        string_views(r@).to_multiset() == map_entries(string_views(file_names@)).to_multiset(),
{
    let mut out: Vec<String> = Vec::new();
    let mut i: usize = 0;
    let ghost names = string_views(file_names@);
    assert(names.take(0) =~= Seq::<Seq<char>>::empty());
    assert(string_views(out@) =~= Seq::<Seq<char>>::empty());
    while i < file_names.len()
        invariant
            i <= file_names.len(),
            names == string_views(file_names@),
            sorted_by_bytes(string_views(out@)),
            string_views(out@).to_multiset() == map_entries(names.take(i as int)).to_multiset(),
        decreases file_names.len() - i,
    {
        let name = file_names[i].as_str();
        assert(names.take(i + 1).drop_last() =~= names.take(i as int));
        assert(names.take(i + 1).last() == name@);
        if ends_with_bytes(name.as_bytes(), ".toml".as_bytes()) {
            let mut entry = String::from_str("maps/");
            entry.append(name);
            proof {
                vstd::seq_lib::to_multiset_build(map_entries(names.take(i as int)), entry@);
            }
            insert_sorted(&mut out, entry);
        }
        i = i + 1;
    }
    assert(names.take(i as int) =~= names);
    out
}

proof fn lemma_prefix_injective(p: Seq<char>, a: Seq<char>, b: Seq<char>)
    requires
        p + a == p + b,
    ensures
        a == b,
{
    assert((p + a).skip(p.len() as int) =~= a);
    assert((p + b).skip(p.len() as int) =~= b);
}

/// The entries offered are exactly `maps/` followed by a given name whose
/// UTF-8 bytes end with `.toml`: every such name gives its entry, and nothing
/// else is offered.
pub proof fn law_map_entries_are_the_toml_names(names: Seq<Seq<char>>, e: Seq<char>)
    ensures
        map_entries(names).contains(e) <==> exists|i: int|
            0 <= i < names.len() && has_suffix(encode_utf8(#[trigger] names[i]), ".toml".spec_bytes())
                && e == "maps/"@ + names[i],
    decreases names.len(),
{
    if names.len() > 0 {
        let init = names.drop_last();
        let last = names.last();
        let n1 = names.len() - 1;
        law_map_entries_are_the_toml_names(init, e);
        let lhs = map_entries(names).contains(e);
        let rhs = exists|i: int|
            0 <= i < names.len() && has_suffix(encode_utf8(#[trigger] names[i]), ".toml".spec_bytes())
                && e == "maps/"@ + names[i];
        let in_init = exists|i: int|
            0 <= i < init.len() && has_suffix(encode_utf8(#[trigger] init[i]), ".toml".spec_bytes())
                && e == "maps/"@ + init[i];
        let at_last = has_suffix(encode_utf8(last), ".toml".spec_bytes()) && e == "maps/"@ + last;
        // The names' condition splits into the first names and the last one.
        if rhs {
            let i = choose|i: int|
                0 <= i < names.len() && has_suffix(encode_utf8(#[trigger] names[i]), ".toml".spec_bytes())
                    && e == "maps/"@ + names[i];
            if i < n1 {
                assert(init[i] == names[i]);
                assert(in_init);
            } else {
                assert(at_last);
            }
        }
        if in_init {
            let i = choose|i: int|
                0 <= i < init.len() && has_suffix(encode_utf8(#[trigger] init[i]), ".toml".spec_bytes())
                    && e == "maps/"@ + init[i];
            assert(names[i] == init[i]);
            assert(rhs);
        }
        if at_last {
            assert(names[n1] == last);
            assert(rhs);
        }
        assert(rhs <==> in_init || at_last);
        // The entries split the same way.
        let before = map_entries(init);
        if is_map_file(last) {
            let after = before.push("maps/"@ + last);
            assert(map_entries(names) == after);
            if after.contains(e) {
                let k = choose|k: int| 0 <= k < after.len() && after[k] == e;
                if k < before.len() {
                    assert(before[k] == e);
                    assert(before.contains(e));
                }
            }
            if before.contains(e) {
                let k = choose|k: int| 0 <= k < before.len() && before[k] == e;
                assert(after[k] == e);
            }
            if at_last {
                assert(after[before.len() as int] == e);
            }
            assert(lhs <==> before.contains(e) || at_last);
        } else {
            assert(map_entries(names) == before);
            assert(!at_last);
        }
    }
}

/// A file name is offered, as `maps/<name>`, exactly when it is among the
/// given names and its UTF-8 bytes end with `.toml`; this holds of every list
/// that `map_choices` may return.
pub proof fn law_map_choice_offered_iff_toml_file(names: Seq<Seq<char>>, offered: Seq<Seq<char>>, n: Seq<char>)
    requires
        offered.to_multiset() == map_entries(names).to_multiset(),
    ensures
        offered.contains("maps/"@ + n) <==> (names.contains(n) && has_suffix(
            encode_utf8(n),
            ".toml".spec_bytes(),
        )),
{
    let e = "maps/"@ + n;
    law_map_entries_are_the_toml_names(names, e);
    vstd::seq_lib::to_multiset_contains(offered, e);
    vstd::seq_lib::to_multiset_contains(map_entries(names), e);
    if map_entries(names).contains(e) {
        let i = choose|i: int|
            0 <= i < names.len() && has_suffix(encode_utf8(#[trigger] names[i]), ".toml".spec_bytes())
                && e == "maps/"@ + names[i];
        lemma_prefix_injective("maps/"@, n, names[i]);
    }
    if names.contains(n) && has_suffix(encode_utf8(n), ".toml".spec_bytes()) {
        let i = choose|i: int| 0 <= i < names.len() && names[i] == n;
        assert(has_suffix(encode_utf8(names[i]), ".toml".spec_bytes()));
    }
}

} // verus!
