use vstd::prelude::*;
use vstd::string::StrSliceExecFns;
use vstd::string::StringExecFns;

verus! {

broadcast use vstd::string::group_string_axioms;

/// The characters of `s`, in order, as a vector.
pub fn chars_of(s: &str) -> (out: Vec<char>)
    ensures
        out@ == s@,
{
    let mut out: Vec<char> = Vec::new();
    for c in it: s.chars()
        invariant
            it.seq() == s@,
            out@ == s@.take(it.index()),
    {
        out.push(c);
    }
    out
}

/// Whether `c` occurs in `s`.
pub fn contains_char(s: &str, c: char) -> (found: bool)
    ensures
        found == s@.contains(c),
{
    let cs = chars_of(s);
    let mut i: usize = 0;
    while i < cs.len()
        invariant
            cs@ == s@,
            i <= cs.len(),
            forall|j: int| 0 <= j < i ==> cs@[j] != c,
        decreases cs.len() - i,
    {
        if cs[i] == c {
            assert(s@[i as int] == c);
            return true;
        }
        i = i + 1;
    }
    false
}

/// A fresh `String` holding the characters of `s`.
pub fn owned(s: &str) -> (out: String)
    ensures
        out@ == s@,
{
    String::from_str(s)
}

/// The text of `a` followed by the text of `b`.
pub fn concat(a: &str, b: &str) -> (out: String)
    ensures
        out@ == a@ + b@,
{
    let mut out = String::from_str(a);
    out.append(b);
    out
}

/// Location of the entry `name` inside the directory `base`, with `/` as separator:
/// `name` itself under an empty base, otherwise `name` after `base` and one separator.
pub open spec fn join_spec(base: Seq<char>, name: Seq<char>) -> Seq<char> {
    if base.len() == 0 {
        name
    } else if base.last() == '/' {
        base + name
    } else {
        base + seq!['/'] + name
    }
}

/// Joins a directory and an entry name as `join_spec` describes.
pub fn join_path(base: &str, name: &str) -> (out: String)
    ensures
        out@ == join_spec(base@, name@),
{
    let n = base.unicode_len();
    if n == 0 {
        owned(name)
    } else if base.get_char(n - 1) == '/' {
        concat(base, name)
    } else {
        let sep = "/";
        proof {
            reveal_strlit("/");
        }
        let mut out = concat(base, sep);
        out.append(name);
        assert(out@ == base@ + seq!['/'] + name@);
        out
    }
}

/// Lexicographic order on texts, character by character (a prefix comes first).
pub open spec fn text_le(a: Seq<char>, b: Seq<char>) -> bool
    decreases a.len(),
{
    if a.len() == 0 {
        true
    } else if b.len() == 0 {
        false
    } else if a[0] != b[0] {
        (a[0] as int) < (b[0] as int)
    } else {
        text_le(a.drop_first(), b.drop_first())
    }
}

pub proof fn lemma_text_le_reflexive(a: Seq<char>)
    ensures
        text_le(a, a),
    decreases a.len(),
{
    if a.len() > 0 {
        lemma_text_le_reflexive(a.drop_first());
    }
}

pub proof fn lemma_text_le_total(a: Seq<char>, b: Seq<char>)
    ensures
        text_le(a, b) || text_le(b, a),
    decreases a.len(),
{
    if a.len() > 0 && b.len() > 0 && a[0] == b[0] {
        lemma_text_le_total(a.drop_first(), b.drop_first());
    }
}

pub proof fn lemma_text_le_transitive(a: Seq<char>, b: Seq<char>, c: Seq<char>)
    requires
        text_le(a, b),
        text_le(b, c),
    ensures
        text_le(a, c),
    decreases a.len(),
{
    if a.len() > 0 && b.len() > 0 && c.len() > 0 && a[0] == b[0] && b[0] == c[0] {
        lemma_text_le_transitive(a.drop_first(), b.drop_first(), c.drop_first());
    }
}

/// Compares two texts in the order `text_le` describes.
pub fn chars_le(a: &Vec<char>, b: &Vec<char>) -> (le: bool)
    ensures
        le == text_le(a@, b@),
{
    let mut i: usize = 0;
    assert(a@.skip(0) =~= a@);
    assert(b@.skip(0) =~= b@);
    while i < a.len() && i < b.len()
        invariant
            i <= a.len(),
            i <= b.len(),
            text_le(a@, b@) == text_le(a@.skip(i as int), b@.skip(i as int)),
        decreases a.len() - i,
    {
        if a[i] != b[i] {
            assert(a@.skip(i as int)[0] == a@[i as int]);
            assert(b@.skip(i as int)[0] == b@[i as int]);
            return a[i] < b[i];
        }
        assert(a@.skip(i as int).drop_first() =~= a@.skip(i + 1));
        assert(b@.skip(i as int).drop_first() =~= b@.skip(i + 1));
        i = i + 1;
    }
    i == a.len()
}


pub proof fn lemma_text_le_antisymmetric(a: Seq<char>, b: Seq<char>)
    requires
        text_le(a, b),
        text_le(b, a),
    ensures
        a == b,
    decreases a.len(),
{
    if a.len() > 0 && b.len() > 0 {
        lemma_text_le_antisymmetric(a.drop_first(), b.drop_first());
        assert(a =~= seq![a[0]] + a.drop_first());
        assert(b =~= seq![b[0]] + b.drop_first());
    }
}

/// `text_le` as a relation value.
pub open spec fn text_order() -> spec_fn(Seq<char>, Seq<char>) -> bool {
    |a: Seq<char>, b: Seq<char>| text_le(a, b)
}

pub proof fn lemma_text_order_total()
    ensures
        vstd::relations::total_ordering(text_order()),
{
    assert forall|x: Seq<char>| #[trigger] text_order()(x, x) by {
        lemma_text_le_reflexive(x);
    }
    assert forall|x: Seq<char>, y: Seq<char>|
        #[trigger] text_order()(x, y) && #[trigger] text_order()(y, x) implies x == y by {
        lemma_text_le_antisymmetric(x, y);
    }
    assert forall|x: Seq<char>, y: Seq<char>, z: Seq<char>|
        #[trigger] text_order()(x, y) && #[trigger] text_order()(y, z) implies text_order()(
        x,
        z,
    ) by {
        lemma_text_le_transitive(x, y, z);
    }
    assert forall|x: Seq<char>, y: Seq<char>|
        #[trigger] text_order()(x, y) || #[trigger] text_order()(y, x) by {
        lemma_text_le_total(x, y);
    }
}

/// The abstract value of a sequence of texts.
pub open spec fn texts(v: Seq<String>) -> Seq<Seq<char>> {
    v.map_values(|s: String| s@)
}

proof fn lemma_insert_multiset(s: Seq<Seq<char>>, j: int, x: Seq<char>)
    requires
        0 <= j <= s.len(),
    ensures
        s.insert(j, x).to_multiset() =~= s.to_multiset().insert(x),
{
    broadcast use vstd::seq_lib::group_to_multiset_ensures;
    broadcast use vstd::multiset::group_multiset_axioms;

    let a = s.subrange(0, j);
    let b = s.subrange(j, s.len() as int);
    assert(s =~= a + b);
    vstd::seq_lib::lemma_multiset_commutative(a, b);
    vstd::seq_lib::lemma_multiset_commutative(a.push(x), b);
    assert(a.push(x).to_multiset() =~= a.to_multiset().insert(x));
}

/// The texts of `v`, in the order `text_le` describes (a stable arrangement of equal
/// texts is immaterial: equal texts are the same text).
pub fn sort_texts(v: &Vec<String>) -> (out: Vec<String>)
    ensures
        texts(out@) == texts(v@).sort_by(text_order()),
{
    let mut out: Vec<String> = Vec::new();
    let mut keys: Vec<Vec<char>> = Vec::new();
    let mut i: usize = 0;
    proof {
        lemma_text_order_total();
        assert(texts(out@) =~= texts(v@).take(0));
    }
    while i < v.len()
        invariant
            i <= v.len(),
            keys.len() == out.len(),
            forall|k: int| 0 <= k < keys.len() ==> (#[trigger] keys@[k])@ == out@[k]@,
            vstd::relations::sorted_by(texts(out@), text_order()),
            texts(out@).to_multiset() == texts(v@).take(i as int).to_multiset(),
        decreases v.len() - i,
    {
        let x = v[i].clone();
        let xk = chars_of(x.as_str());
        let mut j: usize = 0;
        while j < out.len() && !chars_le(&xk, &keys[j])
            invariant
                j <= out.len(),
                keys.len() == out.len(),
                xk@ == x@,
                forall|k: int| 0 <= k < keys.len() ==> (#[trigger] keys@[k])@ == out@[k]@,
                forall|k: int| 0 <= k < j ==> !text_le(x@, #[trigger] out@[k]@),
            decreases out.len() - j,
        {
            j = j + 1;
        }
        let ghost old_out = texts(out@);
        proof {
            lemma_insert_multiset(old_out, j as int, x@);
            assert(texts(v@).take(i + 1) =~= texts(v@).take(i as int).push(x@));
            broadcast use vstd::seq_lib::group_to_multiset_ensures;
        }
        out.insert(j, x);
        keys.insert(j, xk);
        proof {
            assert(texts(out@) =~= old_out.insert(j as int, x@));
            assert forall|a: int, b: int| 0 <= a < b < texts(out@).len() implies #[trigger] text_order()(
                texts(out@)[a],
                texts(out@)[b],
            ) by {
                let o = texts(out@);
                if b < j {
                    assert(o[a] == old_out[a] && o[b] == old_out[b]);
                } else if a > j {
                    assert(o[a] == old_out[a - 1] && o[b] == old_out[b - 1]);
                } else if a == j {
                    // x <= old_out[j] <= old_out[b - 1]
                    assert(j < old_out.len());
                    assert(text_le(x@, old_out[j as int]));
                    if b - 1 > j {
                        assert(text_order()(old_out[j as int], old_out[b - 1]));
                        lemma_text_le_transitive(x@, old_out[j as int], old_out[b - 1]);
                    }
                } else if b == j {
                    assert(!text_le(x@, old_out[a]));
                    lemma_text_le_total(x@, old_out[a]);
                } else {
                    // a < j < b
                    assert(o[a] == old_out[a] && o[b] == old_out[b - 1]);
                }
            }
            assert forall|k: int| 0 <= k < keys.len() implies (#[trigger] keys@[k])@ == out@[k]@ by {
                if k < j {
                } else if k == j {
                } else {
                }
            }
        }
        i = i + 1;
    }
    proof {
        assert(texts(v@).take(v.len() as int) =~= texts(v@));
        texts(v@).lemma_sort_by_ensures(text_order());
        vstd::seq_lib::lemma_sorted_unique(
            texts(out@),
            texts(v@).sort_by(text_order()),
            text_order(),
        );
    }
    out
}

} // verus!
