//! Text helpers shared by the track records and the filters: splitting a tag
//! field at commas, trimming leading white space, dropping repeated entries
//! and ordering strings.
use vstd::prelude::*;

verus! {

/// The character sequences held by a sequence of strings.
pub open spec fn texts(v: Seq<String>) -> Seq<Seq<char>> {
    v.map_values(|s: String| s@)
}

/// The pieces of `s` between commas: one more piece than `s` has commas.
pub open spec fn split_at_commas(s: Seq<char>) -> Seq<Seq<char>>
    decreases s.len(),
{
    if s.len() == 0 {
        seq![Seq::empty()]
    } else {
        let prev = split_at_commas(s.drop_last());
        if s.last() == ',' {
            prev.push(Seq::empty())
        } else {
            prev.update(prev.len() - 1, prev.last().push(s.last()))
        }
    }
}

/// Whether `c` has the Unicode White_Space property: the 25 code points that
/// the Unicode Character Database lists for it.
pub open spec fn white_space(c: char) -> bool {
    let n = c as u32;
    ||| 0x09 <= n <= 0x0D
    ||| n == 0x20
    ||| n == 0x85
    ||| n == 0xA0
    ||| n == 0x1680
    ||| 0x2000 <= n <= 0x200A
    ||| n == 0x2028
    ||| n == 0x2029
    ||| n == 0x202F
    ||| n == 0x205F
    ||| n == 0x3000
}

/// `s` without the white space it starts with.
pub open spec fn trim_leading(s: Seq<char>) -> Seq<char>
    decreases s.len(),
{
    if s.len() > 0 && white_space(s[0]) {
        trim_leading(s.drop_first())
    } else {
        s
    }
}

/// `s` without the white space it ends with.
pub open spec fn trim_trailing(s: Seq<char>) -> Seq<char>
    decreases s.len(),
{
    if s.len() > 0 && white_space(s.last()) {
        trim_trailing(s.drop_last())
    } else {
        s
    }
}

/// `s` without white space at either end.
pub open spec fn trim_both(s: Seq<char>) -> Seq<char> {
    trim_trailing(trim_leading(s))
}

/// The tags of a comma-separated tag field, each without leading white space.
pub open spec fn tag_texts(field: Seq<char>) -> Seq<Seq<char>> {
    split_at_commas(field).map_values(|p: Seq<char>| trim_leading(p))
}

/// `s` with every entry after its first occurrence dropped.
pub open spec fn dedup(s: Seq<Seq<char>>) -> Seq<Seq<char>>
    decreases s.len(),
{
    if s.len() == 0 {
        s
    } else {
        let prev = dedup(s.drop_last());
        if prev.contains(s.last()) {
            prev
        } else {
            prev.push(s.last())
        }
    }
}

/// Lexicographic order of texts, character by character by code point.
pub open spec fn text_le(a: Seq<char>, b: Seq<char>) -> bool
    decreases a.len(),
{
    if a.len() == 0 {
        true
    } else if b.len() == 0 {
        false
    } else if a[0] != b[0] {
        (a[0] as u32) < (b[0] as u32)
    } else {
        text_le(a.drop_first(), b.drop_first())
    }
}

pub open spec fn sorted_texts(s: Seq<Seq<char>>) -> bool {
    forall|i: int, j: int| 0 <= i < j < s.len() ==> text_le(#[trigger] s[i], #[trigger] s[j])
}

/// Relies on `char::is_whitespace`, which tells whether a character has the
/// Unicode White_Space property.
#[verifier::external_body]
fn is_white_space(c: char) -> (r: bool)
    ensures
        r == white_space(c),
{
    c.is_whitespace()
}

/// Splits `s` at every comma, as `str::split(',')` does.
pub fn split_commas(s: &str) -> (r: Vec<String>)
    ensures
        texts(r@) == split_at_commas(s@),
{
    let n = s.unicode_len();
    let mut pieces: Vec<String> = Vec::new();
    let mut start: usize = 0;
    let mut i: usize = 0;
    proof {
        assert(s@.subrange(0, 0) =~= Seq::<char>::empty());
        assert(texts(pieces@).push(s@.subrange(0, 0)) =~= seq![Seq::<char>::empty()]);
    }
    while i < n
        invariant
            n == s@.len(),
            start <= i <= n,
            texts(pieces@).push(s@.subrange(start as int, i as int)) == split_at_commas(
                s@.subrange(0, i as int),
            ),
        decreases n - i,
    {
        let c = s.get_char(i);
        let ghost prefix = s@.subrange(0, i + 1);
        proof {
            assert(prefix.drop_last() =~= s@.subrange(0, i as int));
            assert(prefix.last() == c);
        }
        if c == ',' {
            let piece = s.substring_char(start, i).to_owned();
            let ghost before = pieces@;
            pieces.push(piece);
            proof {
                assert(texts(pieces@) =~= texts(before).push(s@.subrange(start as int, i as int)));
                assert(s@.subrange(i + 1, i + 1) =~= Seq::<char>::empty());
            }
            start = i + 1;
        } else {
            proof {
                assert(s@.subrange(start as int, i + 1) =~= s@.subrange(start as int, i as int).push(
                    c,
                ));
                let prev = split_at_commas(s@.subrange(0, i as int));
                assert(texts(pieces@).push(s@.subrange(start as int, i + 1)) =~= prev.update(
                    prev.len() - 1,
                    prev.last().push(c),
                ));
            }
        }
        i = i + 1;
    }
    let last = s.substring_char(start, n).to_owned();
    let ghost before = pieces@;
    pieces.push(last);
    proof {
        assert(s@.subrange(0, n as int) =~= s@);
        assert(texts(pieces@) =~= texts(before).push(s@.subrange(start as int, n as int)));
    }
    pieces
}

/// `s` without the white space it starts with.
pub fn trim_start(s: &str) -> (r: String)
    ensures
        r@ == trim_leading(s@),
{
    let n = s.unicode_len();
    let mut k: usize = 0;
    proof {
        assert(s@.subrange(0, n as int) =~= s@);
    }
    while k < n && is_white_space(s.get_char(k))
        invariant
            n == s@.len(),
            k <= n,
            trim_leading(s@) == trim_leading(s@.subrange(k as int, n as int)),
        decreases n - k,
    {
        proof {
            let t = s@.subrange(k as int, n as int);
            assert(t.drop_first() =~= s@.subrange(k + 1, n as int));
        }
        k = k + 1;
    }
    s.substring_char(k, n).to_owned()
}

/// `s` without white space at either end.
pub fn trim(s: &str) -> (r: String)
    ensures
        r@ == trim_both(s@),
{
    let lead = trim_start(s);
    let t = lead.as_str();
    let n = t.unicode_len();
    let mut e: usize = n;
    proof {
        assert(t@.subrange(0, n as int) =~= t@);
    }
    while e > 0 && is_white_space(t.get_char(e - 1))
        invariant
            n == t@.len(),
            e <= n,
            t@ == trim_leading(s@),
            trim_both(s@) == trim_trailing(t@.subrange(0, e as int)),
        decreases e,
    {
        proof {
            assert(t@.subrange(0, e as int).drop_last() =~= t@.subrange(0, e - 1));
        }
        e = e - 1;
    }
    t.substring_char(0, e).to_owned()
}

/// The pieces of `field` between commas, each without white space at either
/// end.
pub open spec fn trimmed_pieces(field: Seq<char>) -> Seq<Seq<char>> {
    split_at_commas(field).map_values(|p: Seq<char>| trim_both(p))
}

/// The pieces of `field` between commas, each without white space at either
/// end.
pub fn trimmed_list(field: &str) -> (r: Vec<String>)
    ensures
        texts(r@) == trimmed_pieces(field@),
{
    let pieces = split_commas(field);
    let mut out: Vec<String> = Vec::new();
    let mut i: usize = 0;
    while i < pieces.len()
        invariant
            i <= pieces@.len(),
            texts(pieces@) == split_at_commas(field@),
            out@.len() == i,
            forall|j: int| 0 <= j < i ==> (#[trigger] out@[j])@ == trim_both(pieces@[j]@),
        decreases pieces@.len() - i,
    {
        let t = trim(pieces[i].as_str());
        out.push(t);
        i = i + 1;
    }
    proof {
        assert(texts(out@) =~= trimmed_pieces(field@));
    }
    out
}

/// The tags of a comma-separated tag field, each without leading white space.
pub fn tag_list(field: &str) -> (r: Vec<String>)
    ensures
        texts(r@) == tag_texts(field@),
{
    let pieces = split_commas(field);
    let mut tags: Vec<String> = Vec::new();
    let mut i: usize = 0;
    while i < pieces.len()
        invariant
            i <= pieces@.len(),
            texts(pieces@) == split_at_commas(field@),
            tags@.len() == i,
            forall|j: int| 0 <= j < i ==> (#[trigger] tags@[j])@ == trim_leading(pieces@[j]@),
        decreases pieces@.len() - i,
    {
        let t = trim_start(pieces[i].as_str());
        tags.push(t);
        i = i + 1;
    }
    proof {
        assert(texts(tags@) =~= tag_texts(field@));
    }
    tags
}

/// The entries of `v` with every repetition dropped, first occurrences kept
/// in order.
pub fn distinct(v: &Vec<String>) -> (r: Vec<String>)
    ensures
        texts(r@) == dedup(texts(v@)),
{
    let mut out: Vec<String> = Vec::new();
    let mut i: usize = 0;
    proof {
        assert(texts(v@).take(0) =~= Seq::<Seq<char>>::empty());
        assert(texts(out@) =~= Seq::<Seq<char>>::empty());
    }
    while i < v.len()
        invariant
            i <= v@.len(),
            texts(out@) == dedup(texts(v@).take(i as int)),
        decreases v@.len() - i,
    {
        let mut found = false;
        let mut j: usize = 0;
        while j < out.len()
            invariant
                j <= out@.len(),
                i < v@.len(),
                found <==> exists|k: int| 0 <= k < j && (#[trigger] out@[k])@ == v@[i as int]@,
            decreases out@.len() - j,
        {
            if out[j] == v[i] {
                found = true;
            }
            j = j + 1;
        }
        proof {
            if found {
                let k = choose|k: int| 0 <= k < j && (#[trigger] out@[k])@ == v@[i as int]@;
                assert(texts(out@)[k] == v@[i as int]@);
            }
            if texts(out@).contains(v@[i as int]@) {
                let k = choose|k: int| 0 <= k < out@.len() && texts(out@)[k] == v@[i as int]@;
                assert(out@[k]@ == v@[i as int]@);
            }
            assert(texts(v@).take(i + 1).drop_last() =~= texts(v@).take(i as int));
        }
        if !found {
            let ghost before = out@;
            out.push(v[i].clone());
            proof {
                assert(texts(out@) =~= texts(before).push(v@[i as int]@));
            }
        }
        i = i + 1;
    }
    proof {
        assert(texts(v@).take(v@.len() as int) =~= texts(v@));
    }
    out
}

/// A deduplicated sequence has no repetitions, and holds exactly what `s`
/// holds.
pub proof fn lemma_dedup(s: Seq<Seq<char>>)
    ensures
        dedup(s).no_duplicates(),
        forall|x: Seq<char>| dedup(s).contains(x) <==> s.contains(x),
    decreases s.len(),
{
    if s.len() > 0 {
        let prev = s.drop_last();
        let d = dedup(prev);
        lemma_dedup(prev);
        assert(s =~= prev.push(s.last()));
        assert forall|x: Seq<char>| dedup(s).contains(x) <==> s.contains(x) by {
            vstd::seq_lib::lemma_seq_contains_after_push(prev, s.last(), x);
            vstd::seq_lib::lemma_seq_contains_after_push(d, s.last(), x);
        }
        if !d.contains(s.last()) {
            let e = d.push(s.last());
            assert forall|i: int, j: int| 0 <= i < e.len() && 0 <= j < e.len() && i != j implies e[i]
                != e[j] by {
                if j == d.len() {
                    assert(e[i] == d[i] && d.contains(d[i]));
                } else if i == d.len() {
                    assert(e[j] == d[j] && d.contains(d[j]));
                } else {
                    assert(e[i] == d[i] && e[j] == d[j]);
                }
            }
        }
    }
}

/// Whether `v` holds a string equal to `s`.
pub fn contains_text(v: &Vec<String>, s: &String) -> (r: bool)
    ensures
        r == texts(v@).contains(s@),
{
    let mut i: usize = 0;
    while i < v.len()
        invariant
            i <= v@.len(),
            forall|k: int| 0 <= k < i ==> (#[trigger] v@[k])@ != s@,
        decreases v@.len() - i,
    {
        if v[i] == *s {
            proof {
                assert(texts(v@)[i as int] == s@);
            }
            return true;
        }
        i = i + 1;
    }
    proof {
        if texts(v@).contains(s@) {
            let k = choose|k: int| 0 <= k < v@.len() && texts(v@)[k] == s@;
            assert(v@[k]@ == s@);
        }
    }
    false
}

} // verus!
