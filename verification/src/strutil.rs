//! Byte-level string helpers: the rolling hash behind cache keys, hex
//! and decimal rendering, separator joins, and a byte-lexicographic
//! order with a sort, used to make filter-predicate order irrelevant.

use vstd::prelude::*;

verus! {

use vstd::multiset::Multiset;
use vstd::string::StringSliceAdditionalSpecFns;

/// The UTF-8 bytes of a string value, as the row store and the hash see them.
pub open spec fn str_bytes(s: Seq<char>) -> Seq<u8> {
    vstd::utf8::encode_utf8(s)
}

/// The djb2 rolling hash over a byte sequence: start at 5381, then for
/// each byte multiply by 33 and add the byte, both wrapping in `u32`.
pub open spec fn spec_djb2(bytes: Seq<u8>) -> u32
    decreases bytes.len(),
{
    if bytes.len() == 0 {
        5381u32
    } else {
        vstd::wrapping::u32_specs::wrapping_add(
            vstd::wrapping::u32_specs::wrapping_mul(spec_djb2(bytes.drop_last()), 33),
            bytes.last() as u32,
        )
    }
}

/// djb2 hash of a byte slice, used to derive short cache-key digests.
pub fn djb2(bytes: &[u8]) -> (r: u32)
    ensures
        r == spec_djb2(bytes@),
{
    let mut hash: u32 = 5381;
    let mut i: usize = 0;
    while i < bytes.len()
        invariant
            0 <= i <= bytes@.len(),
            hash == spec_djb2(bytes@.take(i as int)),
        decreases bytes@.len() - i,
    {
        hash = hash.wrapping_mul(33).wrapping_add(bytes[i] as u32);
        proof {
            assert(bytes@.take(i + 1).drop_last() =~= bytes@.take(i as int));
            assert(bytes@.take(i + 1).last() == bytes@[i as int]);
        }
        i = i + 1;
    }
    proof {
        assert(bytes@.take(bytes@.len() as int) =~= bytes@);
    }
    hash
}

/// The lowercase hexadecimal digit for a value below 16.
pub open spec fn spec_hex_digit(d: nat) -> char {
    if d == 0 { '0' } else if d == 1 { '1' } else if d == 2 { '2' } else if d == 3 { '3' }
    else if d == 4 { '4' } else if d == 5 { '5' } else if d == 6 { '6' } else if d == 7 { '7' }
    else if d == 8 { '8' } else if d == 9 { '9' } else if d == 10 { 'a' } else if d == 11 { 'b' }
    else if d == 12 { 'c' } else if d == 13 { 'd' } else if d == 14 { 'e' } else { 'f' }
}

/// Lowercase hexadecimal rendering of `n` without leading zeroes,
/// as the `{:x}` format would print it.
pub open spec fn spec_hex(n: nat) -> Seq<char>
    decreases n,
{
    if n < 16 {
        seq![spec_hex_digit(n)]
    } else {
        spec_hex(n / 16).push(spec_hex_digit(n % 16))
    }
}

/// Decimal rendering of `n`, as `{}` would print it.
pub open spec fn spec_dec(n: nat) -> Seq<char>
    decreases n,
{
    if n < 10 {
        seq![spec_hex_digit(n)]
    } else {
        spec_dec(n / 10).push(spec_hex_digit(n % 10))
    }
}

fn digit_char(d: u32) -> (c: char)
    requires
        d < 16,
    ensures
        c == spec_hex_digit(d as nat),
{
    if d == 0 { '0' } else if d == 1 { '1' } else if d == 2 { '2' } else if d == 3 { '3' }
    else if d == 4 { '4' } else if d == 5 { '5' } else if d == 6 { '6' } else if d == 7 { '7' }
    else if d == 8 { '8' } else if d == 9 { '9' } else if d == 10 { 'a' } else if d == 11 { 'b' }
    else if d == 12 { 'c' } else if d == 13 { 'd' } else if d == 14 { 'e' } else { 'f' }
}

/// Appends the lowercase hex rendering of `n` to `s`.
pub fn append_hex(s: &mut String, n: u32)
    ensures
        final(s)@ == old(s)@ + spec_hex(n as nat),
    decreases n,
{
    if n >= 16 {
        append_hex(s, n / 16);
    }
    let c = digit_char(n % 16);
    append_char(s, c);
    proof {
        if n < 16 {
            assert(old(s)@ + spec_hex(n as nat) =~= old(s)@.push(spec_hex_digit(n as nat)));
        } else {
            assert(old(s)@ + spec_hex(n as nat) =~= (old(s)@ + spec_hex(n as nat / 16)).push(
                spec_hex_digit(n as nat % 16),
            ));
        }
    }
}

/// Appends the decimal rendering of `n` to `s`.
pub fn append_dec(s: &mut String, n: u32)
    ensures
        final(s)@ == old(s)@ + spec_dec(n as nat),
    decreases n,
{
    if n >= 10 {
        append_dec(s, n / 10);
    }
    let c = digit_char(n % 10);
    append_char(s, c);
    proof {
        if n < 10 {
            assert(old(s)@ + spec_dec(n as nat) =~= old(s)@.push(spec_hex_digit(n as nat)));
        } else {
            assert(old(s)@ + spec_dec(n as nat) =~= (old(s)@ + spec_dec(n as nat / 10)).push(
                spec_hex_digit(n as nat % 10),
            ));
        }
    }
}

/// Relies on `String::push`: appends the given character to the end
/// of the string.
#[verifier::external_body]
pub(crate) fn append_char(s: &mut String, c: char)
    ensures
        final(s)@ == old(s)@.push(c),
{
    s.push(c)
}

/// The views of a list of strings, as character sequences.
pub open spec fn strings_views(v: Seq<String>) -> Seq<Seq<char>> {
    v.map_values(|s: String| s@)
}

/// Whether `v` holds a string whose characters are `s`.
pub fn contains_string(v: &Vec<String>, s: &String) -> (r: bool)
    ensures
        r == strings_views(v@).contains(s@),
{
    let ghost target = s@;
    let mut i: usize = 0;
    while i < v.len()
        invariant
            0 <= i <= v@.len(),
            target == s@,
            forall|j: int| 0 <= j < i ==> strings_views(v@)[j] != target,
        decreases v@.len() - i,
    {
        if string_eq(&v[i], s) {
            proof {
                assert(strings_views(v@)[i as int] == target);
            }
            return true;
        }
        i = i + 1;
    }
    proof {
        assert(forall|j: int| 0 <= j < v@.len() ==> strings_views(v@)[j] != target);
    }
    false
}

/// Copies a list of strings, keeping the characters of each.
pub fn clone_strings(v: &Vec<String>) -> (r: Vec<String>)
    ensures
        strings_views(r@) == strings_views(v@),
{
    let mut out: Vec<String> = Vec::new();
    let mut i: usize = 0;
    while i < v.len()
        invariant
            0 <= i <= v@.len(),
            strings_views(out@) =~= strings_views(v@).take(i as int),
        decreases v@.len() - i,
    {
        out.push(v[i].clone());
        proof {
            assert(strings_views(out@) =~= strings_views(v@).take(i as int).push(v@[i as int]@));
            assert(strings_views(v@).take(i + 1) =~= strings_views(v@).take(i as int).push(
                strings_views(v@)[i as int],
            ));
        }
        i = i + 1;
    }
    proof {
        assert(strings_views(v@).take(v@.len() as int) =~= strings_views(v@));
    }
    out
}

/// Equality of two strings, by character content.
pub fn string_eq(a: &String, b: &String) -> (r: bool)
    ensures
        r == (a@ == b@),
{
    a.eq(b)
}

/// What trimming a string yields: the text with leading and trailing
/// whitespace removed. A function of the text alone.
pub uninterp spec fn trim_of(s: Seq<char>) -> Seq<char>;

/// Relies on `str::trim`: removes leading and trailing whitespace.
/// An empty string stays empty.
#[verifier::external_body]
pub(crate) fn trim_str(s: &str) -> (r: String)
    ensures
        r@ == trim_of(s@),
        s@.len() == 0 ==> r@.len() == 0,
{
    s.trim().to_owned()
}

/// What lowercasing a string yields. A function of the characters
/// alone.
pub uninterp spec fn lower_of(s: Seq<char>) -> Seq<char>;

/// Relies on `str::to_lowercase`: the lowercase equivalent of the
/// text, depending on its characters alone.
#[verifier::external_body]
pub(crate) fn lowercase(s: &str) -> (r: String)
    ensures
        r@ == lower_of(s@),
{
    s.to_lowercase()
}

/// The parts joined with a single separator byte between them.
pub open spec fn spec_join(parts: Seq<Seq<u8>>, sep: u8) -> Seq<u8>
    decreases parts.len(),
{
    if parts.len() == 0 {
        Seq::empty()
    } else if parts.len() == 1 {
        parts[0]
    } else {
        spec_join(parts.drop_last(), sep).push(sep) + parts.last()
    }
}

/// Appends every byte of `part` to `out`.
pub fn extend_bytes(out: &mut Vec<u8>, part: &[u8])
    ensures
        final(out)@ == old(out)@ + part@,
{
    let mut j: usize = 0;
    while j < part.len()
        invariant
            0 <= j <= part@.len(),
            out@ == old(out)@ + part@.take(j as int),
        decreases part@.len() - j,
    {
        out.push(part[j]);
        proof {
            assert(old(out)@ + part@.take(j + 1) =~= (old(out)@ + part@.take(j as int)).push(
                part@[j as int],
            ));
        }
        j = j + 1;
    }
    proof {
        assert(part@.take(part@.len() as int) =~= part@);
    }
}

/// The views of a list of strings, as byte sequences.
pub open spec fn strings_bytes(v: Seq<String>) -> Seq<Seq<u8>> {
    v.map_values(|s: String| str_bytes(s@))
}

/// Joins the UTF-8 bytes of the given strings with a separator byte,
/// as `[str]::join` would for a one-character separator.
pub fn join_string_bytes(parts: &Vec<String>, sep: u8) -> (r: Vec<u8>)
    ensures
        r@ == spec_join(strings_bytes(parts@), sep),
{
    let mut out: Vec<u8> = Vec::new();
    let mut i: usize = 0;
    while i < parts.len()
        invariant
            0 <= i <= parts@.len(),
            out@ == spec_join(strings_bytes(parts@).take(i as int), sep),
        decreases parts@.len() - i,
    {
        if i > 0 {
            out.push(sep);
        }
        extend_bytes(&mut out, parts[i].as_str().as_bytes());
        proof {
            let all = strings_bytes(parts@);
            assert(all.take(i + 1).drop_last() =~= all.take(i as int));
            assert(all.take(i + 1).last() == all[i as int]);
            if i == 0 {
                assert(spec_join(all.take(1), sep) == all[0]);
            }
        }
        i = i + 1;
    }
    proof {
        assert(strings_bytes(parts@).take(parts@.len() as int) =~= strings_bytes(parts@));
    }
    out
}

/// Joins byte strings with a separator byte.
pub fn join_bytes(parts: &Vec<Vec<u8>>, sep: u8) -> (r: Vec<u8>)
    ensures
        r@ == spec_join(byte_views(parts@), sep),
{
    let mut out: Vec<u8> = Vec::new();
    let mut i: usize = 0;
    while i < parts.len()
        invariant
            0 <= i <= parts@.len(),
            out@ == spec_join(byte_views(parts@).take(i as int), sep),
        decreases parts@.len() - i,
    {
        if i > 0 {
            out.push(sep);
        }
        extend_bytes(&mut out, parts[i].as_slice());
        proof {
            let all = byte_views(parts@);
            assert(all.take(i + 1).drop_last() =~= all.take(i as int));
            assert(all.take(i + 1).last() == all[i as int]);
            if i == 0 {
                assert(spec_join(all.take(1), sep) == all[0]);
            }
        }
        i = i + 1;
    }
    proof {
        assert(byte_views(parts@).take(parts@.len() as int) =~= byte_views(parts@));
    }
    out
}

/// The views of a list of byte vectors.
pub open spec fn byte_views(v: Seq<Vec<u8>>) -> Seq<Seq<u8>> {
    v.map_values(|b: Vec<u8>| b@)
}

/// Byte-lexicographic "less than or equal" on byte strings; this is the
/// order `Ord` gives UTF-8 strings.
pub open spec fn bytes_le(a: Seq<u8>, b: Seq<u8>) -> bool
    decreases a.len(),
{
    if a.len() == 0 {
        true
    } else if b.len() == 0 {
        false
    } else if a[0] < b[0] {
        true
    } else if a[0] > b[0] {
        false
    } else {
        bytes_le(a.drop_first(), b.drop_first())
    }
}

/// The order as a function value, for `sort_by`.
pub open spec fn bytes_le_fn() -> spec_fn(Seq<u8>, Seq<u8>) -> bool {
    |a: Seq<u8>, b: Seq<u8>| bytes_le(a, b)
}

proof fn lemma_bytes_le_reflexive(a: Seq<u8>)
    ensures
        bytes_le(a, a),
    decreases a.len(),
{
    if a.len() > 0 {
        lemma_bytes_le_reflexive(a.drop_first());
    }
}

proof fn lemma_bytes_le_antisymmetric(a: Seq<u8>, b: Seq<u8>)
    requires
        bytes_le(a, b),
        bytes_le(b, a),
    ensures
        a == b,
    decreases a.len(),
{
    if a.len() == 0 {
        assert(b.len() == 0);
        assert(a =~= b);
    } else {
        lemma_bytes_le_antisymmetric(a.drop_first(), b.drop_first());
        assert(a =~= seq![a[0]] + a.drop_first());
        assert(b =~= seq![b[0]] + b.drop_first());
    }
}

proof fn lemma_bytes_le_transitive(a: Seq<u8>, b: Seq<u8>, c: Seq<u8>)
    requires
        bytes_le(a, b),
        bytes_le(b, c),
    ensures
        bytes_le(a, c),
    decreases a.len(),
{
    if a.len() > 0 && b.len() > 0 && c.len() > 0 && a[0] == b[0] && b[0] == c[0] {
        lemma_bytes_le_transitive(a.drop_first(), b.drop_first(), c.drop_first());
    }
}

proof fn lemma_bytes_le_connected(a: Seq<u8>, b: Seq<u8>)
    ensures
        bytes_le(a, b) || bytes_le(b, a),
    decreases a.len(),
{
    if a.len() > 0 && b.len() > 0 && a[0] == b[0] {
        lemma_bytes_le_connected(a.drop_first(), b.drop_first());
    }
}

/// `bytes_le` is a total order, so sorting by it has a unique result.
pub proof fn lemma_bytes_le_total_ordering()
    ensures
        vstd::relations::total_ordering(bytes_le_fn()),
{
    let leq = bytes_le_fn();
    assert forall|a: Seq<u8>| #[trigger] leq(a, a) by {
        lemma_bytes_le_reflexive(a);
    }
    assert forall|a: Seq<u8>, b: Seq<u8>| #[trigger] leq(a, b) && #[trigger] leq(b, a) implies a
        == b by {
        lemma_bytes_le_antisymmetric(a, b);
    }
    assert forall|a: Seq<u8>, b: Seq<u8>, c: Seq<u8>|
        #[trigger] leq(a, b) && #[trigger] leq(b, c) implies leq(a, c) by {
        lemma_bytes_le_transitive(a, b, c);
    }
    assert forall|a: Seq<u8>, b: Seq<u8>| #[trigger] leq(a, b) || #[trigger] leq(b, a) by {
        lemma_bytes_le_connected(a, b);
    }
}

/// Byte-lexicographic comparison of two byte strings.
pub fn bytes_le_exec(a: &Vec<u8>, b: &Vec<u8>) -> (r: bool)
    ensures
        r == bytes_le(a@, b@),
{
    let mut i: usize = 0;
    proof {
        assert(a@.skip(0) =~= a@);
        assert(b@.skip(0) =~= b@);
    }
    loop
        invariant
            0 <= i <= a@.len(),
            i <= b@.len(),
            a@.take(i as int) =~= b@.take(i as int),
            bytes_le(a@, b@) == bytes_le(a@.skip(i as int), b@.skip(i as int)),
            bytes_le(b@, a@) == bytes_le(b@.skip(i as int), a@.skip(i as int)),
        decreases a@.len() - i,
    {
        if i == a.len() {
            proof {
                assert(bytes_le(a@.skip(i as int), b@.skip(i as int)));
            }
            return true;
        }
        if i == b.len() {
            proof {
                assert(!bytes_le(a@.skip(i as int), b@.skip(i as int)));
            }
            return false;
        }
        let x = a[i];
        let y = b[i];
        if x < y {
            return true;
        }
        if x > y {
            return false;
        }
        proof {
            let sa = a@.skip(i as int);
            let sb = b@.skip(i as int);
            assert(sa.drop_first() =~= a@.skip(i + 1));
            assert(sb.drop_first() =~= b@.skip(i + 1));
            assert(a@.take(i + 1) =~= a@.take(i as int).push(x));
            assert(b@.take(i + 1) =~= b@.take(i as int).push(y));
        }
        i = i + 1;
    }
}

/// Sorts byte strings in byte-lexicographic order; the result is the
/// canonical `sort_by` of the input, so any two inputs holding the same
/// multiset of byte strings sort to the same sequence.
pub fn sort_byte_strings(v: Vec<Vec<u8>>) -> (r: Vec<Vec<u8>>)
    ensures
        byte_views(r@) == byte_views(v@).sort_by(bytes_le_fn()),
        byte_views(r@).to_multiset() == byte_views(v@).to_multiset(),
        vstd::relations::sorted_by(byte_views(r@), bytes_le_fn()),
{
    let mut out: Vec<Vec<u8>> = Vec::new();
    let mut i: usize = 0;
    proof {
        lemma_bytes_le_total_ordering();
        assert(byte_views(out@) =~= byte_views(v@).take(0));
    }
    while i < v.len()
        invariant
            0 <= i <= v@.len(),
            vstd::relations::sorted_by(byte_views(out@), bytes_le_fn()),
            byte_views(out@).to_multiset() == byte_views(v@).take(i as int).to_multiset(),
        decreases v@.len() - i,
    {
        let x = v[i].clone();
        proof {
            assert(x@ == v@[i as int]@);
        }
        insert_sorted(&mut out, x);
        proof {
            let prev = byte_views(v@).take(i as int);
            let cur = byte_views(v@).take(i + 1);
            assert(cur =~= prev.push(v@[i as int]@));
            vstd::seq_lib::to_multiset_build(prev, v@[i as int]@);
        }
        i = i + 1;
    }
    proof {
        assert(byte_views(v@).take(v@.len() as int) =~= byte_views(v@));
        lemma_bytes_le_total_ordering();
        byte_views(v@).lemma_sort_by_ensures(bytes_le_fn());
        vstd::seq_lib::lemma_sorted_unique(
            byte_views(out@),
            byte_views(v@).sort_by(bytes_le_fn()),
            bytes_le_fn(),
        );
    }
    out
}

/// Inserts `x` into a sorted vector, keeping it sorted.
fn insert_sorted(out: &mut Vec<Vec<u8>>, x: Vec<u8>)
    requires
        vstd::relations::sorted_by(byte_views(old(out)@), bytes_le_fn()),
    ensures
        vstd::relations::sorted_by(byte_views(final(out)@), bytes_le_fn()),
        byte_views(final(out)@).to_multiset() == byte_views(old(out)@).to_multiset().insert(x@),
{
    proof {
        lemma_bytes_le_total_ordering();
    }
    let mut k: usize = 0;
    while k < out.len() && bytes_le_exec(&out[k], &x)
        invariant
            0 <= k <= out@.len(),
            forall|j: int| 0 <= j < k ==> bytes_le(#[trigger] byte_views(out@)[j], x@),
            out@ == old(out)@,
        decreases out@.len() - k,
    {
        k = k + 1;
    }
    out.insert(k, x);
    proof {
        let s = byte_views(old(out)@);
        let t = byte_views(out@);
        assert(out@ == old(out)@.insert(k as int, x));
        assert(t =~= s.insert(k as int, x@));
        lemma_insert_preserves_sorted(s, k as int, x@);
        lemma_multiset_of_insert(s, k as int, x@);
    }
}

/// Inserting at a position that respects the order keeps a sequence sorted.
proof fn lemma_insert_preserves_sorted(s: Seq<Seq<u8>>, k: int, x: Seq<u8>)
    requires
        0 <= k <= s.len(),
        vstd::relations::sorted_by(s, bytes_le_fn()),
        forall|j: int| 0 <= j < k ==> bytes_le(#[trigger] s[j], x),
        k < s.len() ==> !bytes_le(s[k], x),
    ensures
        vstd::relations::sorted_by(s.insert(k, x), bytes_le_fn()),
{
    let t = s.insert(k, x);
    assert forall|p: int, q: int| 0 <= p < q < t.len() implies bytes_le_fn()(t[p], t[q]) by {
        lemma_bytes_le_connected(x, if q == k { x } else { t[q] });
        if p < k && q == k {
            assert(t[p] == s[p]);
            assert(bytes_le(s[p], x));
        } else if p == k && q > k {
            assert(t[q] == s[q - 1]);
            if q - 1 == k {
                lemma_bytes_le_connected(x, s[k]);
            } else {
                lemma_bytes_le_connected(x, s[q - 1]);
                if !bytes_le(x, s[q - 1]) {
                    assert(bytes_le(s[q - 1], x));
                    assert(k < s.len());
                    assert(bytes_le_fn()(s[k], s[q - 1]));
                    lemma_bytes_le_transitive(s[k], s[q - 1], x);
                    assert(false);
                }
            }
        } else if p < k && q > k {
            assert(t[p] == s[p] && t[q] == s[q - 1]);
            if p == q - 1 {
                lemma_bytes_le_reflexive(s[p]);
            } else {
                assert(bytes_le_fn()(s[p], s[q - 1]));
            }
        } else if q < k {
            assert(t[p] == s[p] && t[q] == s[q]);
        } else if p > k {
            assert(t[p] == s[p - 1] && t[q] == s[q - 1]);
        }
    }
}

/// Inserting an element anywhere adds exactly it to the multiset.
proof fn lemma_multiset_of_insert(s: Seq<Seq<u8>>, k: int, x: Seq<u8>)
    requires
        0 <= k <= s.len(),
    ensures
        s.insert(k, x).to_multiset() == s.to_multiset().insert(x),
{
    broadcast use vstd::seq_lib::group_to_multiset_ensures;
    broadcast use vstd::multiset::group_multiset_axioms;

    let t = s.insert(k, x);
    let left = s.take(k);
    let right = s.skip(k);
    assert(t =~= left + (seq![x] + right));
    assert(s =~= left + right);
    vstd::seq_lib::lemma_multiset_commutative(left, seq![x] + right);
    vstd::seq_lib::lemma_multiset_commutative(seq![x], right);
    vstd::seq_lib::lemma_multiset_commutative(left, right);
    assert(seq![x] =~= Seq::<Seq<u8>>::empty().push(x));
    vstd::seq_lib::to_multiset_build(Seq::<Seq<u8>>::empty(), x);
    assert(seq![x].to_multiset() =~= Multiset::empty().insert(x));
    assert(t.to_multiset() =~= s.to_multiset().insert(x));
}

} // verus!
