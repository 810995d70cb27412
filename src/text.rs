//! Comparisons of text.

use vstd::prelude::*;

verus! {

/// Whether two texts are the same, character for character.
pub fn same(a: &str, b: &str) -> (r: bool)
    ensures
        r == (a@ == b@),
{
    let n = a.unicode_len();
    if n != b.unicode_len() {
        return false;
    }
    let mut i: usize = 0;
    while i < n
        invariant
            n == a@.len(),
            n == b@.len(),
            i <= n,
            forall|k: int| 0 <= k < i ==> a@[k] == b@[k],
        decreases n - i,
    {
        if a.get_char(i) != b.get_char(i) {
            return false;
        }
        i += 1;
    }
    assert(a@ =~= b@);
    true
}

/// The index of the first `c` in `s`.
pub open spec fn char_index(s: Seq<char>, c: char) -> Option<int>
    decreases s.len(),
{
    if s.len() == 0 {
        None
    } else if s.last() == c && char_index(s.drop_last(), c) is None {
        Some(s.len() - 1)
    } else {
        char_index(s.drop_last(), c)
    }
}

proof fn lemma_char_index_step(s: Seq<char>, c: char, i: int)
    requires
        0 <= i < s.len(),
    ensures
        char_index(s.take(i + 1), c) == (if char_index(s.take(i), c) is None && s[i] == c {
            Some(i)
        } else {
            char_index(s.take(i), c)
        }),
{
    assert(s.take(i + 1).drop_last() =~= s.take(i));
}

proof fn lemma_char_index_none(s: Seq<char>, c: char)
    ensures
        char_index(s, c) is None <==> !s.contains(c),
    decreases s.len(),
{
    if s.len() > 0 {
        lemma_char_index_none(s.drop_last(), c);
        if s.contains(c) && s.last() != c {
            let k = choose|k: int| 0 <= k < s.len() && s[k] == c;
            assert(s.drop_last()[k] == c);
        }
        if s.drop_last().contains(c) {
            let k = choose|k: int| 0 <= k < s.drop_last().len() && s.drop_last()[k] == c;
            assert(s[k] == c);
        }
    }
}

/// Splits `s` at its first `c`: the text before it and the text after it.
pub fn split_once(s: &str, c: char) -> (r: Option<(String, String)>)
    ensures
        match char_index(s@, c) {
            Some(i) => r matches Some((a, b)) && a@ == s@.subrange(0, i) && b@ == s@.subrange(
                i + 1,
                s@.len() as int,
            ),
            None => r is None,
        },
        r is None <==> !s@.contains(c),
        r matches Some((a, b)) ==> !a@.contains(c),
{
    proof {
        lemma_char_index_none(s@, c);
    }
    let n = s.unicode_len();
    let mut i: usize = 0;
    while i < n
        invariant
            n == s@.len(),
            i <= n,
            char_index(s@.take(i as int), c) is None,
            forall|x: int| 0 <= x < i ==> s@[x] != c,
        decreases n - i,
    {
        proof {
            lemma_char_index_step(s@, c, i as int);
        }
        if s.get_char(i) == c {
            proof {
                assert(char_index(s@.take(i + 1 as int), c) == Some(i as int));
                lemma_char_index_prefix(s@, c, i + 1);
            }
            let a = s.substring_char(0, i).to_owned();
            assert(!a@.contains(c)) by {
                if a@.contains(c) {
                    let x = choose|x: int| 0 <= x < a@.len() && a@[x] == c;
                    assert(s@[x] == c);
                }
            }
            let b = s.substring_char(i + 1, n).to_owned();
            return Some((a, b));
        }
        i += 1;
    }
    assert(s@.take(i as int) =~= s@);
    None
}

proof fn lemma_char_index_prefix(s: Seq<char>, c: char, j: int)
    requires
        0 <= j <= s.len(),
        char_index(s.take(j), c) is Some,
    ensures
        char_index(s, c) == char_index(s.take(j), c),
    decreases s.len() - j,
{
    if j < s.len() {
        lemma_char_index_step(s, c, j);
        lemma_char_index_prefix(s, c, j + 1);
    } else {
        assert(s.take(j) =~= s);
    }
}

/// The texts of `parts`, with one space between each two.
pub fn join_words(parts: &Vec<String>) -> (r: String)
    ensures
        r@ == crate::command::joined(parts@.map_values(|p: String| p@)),
{
    let ghost t = parts@.map_values(|p: String| p@);
    let mut out = String::new();
    let mut i: usize = 0;
    while i < parts.len()
        invariant
            i <= parts.len(),
            t == parts@.map_values(|p: String| p@),
            out@ == crate::command::joined(t.take(i as int)),
        decreases parts.len() - i,
    {
        if i > 0 {
            out.append(" ");
        }
        out.append(parts[i].as_str());
        assert(t.take(i + 1 as int).drop_last() =~= t.take(i as int));
        assert(out@ =~= crate::command::joined(t.take(i + 1 as int)));
        i += 1;
    }
    assert(t.take(i as int) =~= t);
    out
}

} // verus!
