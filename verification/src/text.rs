//! Character and word level helpers shared by the driver and the plugins.

use vstd::prelude::*;
use vstd::string::*;

verus! {

/// The characters that carry the Unicode `White_Space` property, which is
/// what `char::is_whitespace` (and so `str::split_whitespace`) tests for.
pub open spec fn is_white_space(c: char) -> bool {
    let v = c as u32;
    ||| 0x09 <= v <= 0x0d
    ||| v == 0x20
    ||| v == 0x85
    ||| v == 0xa0
    ||| v == 0x1680
    ||| 0x2000 <= v <= 0x200a
    ||| v == 0x2028
    ||| v == 0x2029
    ||| v == 0x202f
    ||| v == 0x205f
    ||| v == 0x3000
}

/// Tests whether `c` has the Unicode `White_Space` property.
pub fn is_whitespace(c: char) -> (b: bool)
    ensures
        b == is_white_space(c),
{
    let v = c as u32;
    (0x09 <= v && v <= 0x0d) || v == 0x20 || v == 0x85 || v == 0xa0 || v == 0x1680 || (0x2000
        <= v && v <= 0x200a) || v == 0x2028 || v == 0x2029 || v == 0x202f || v == 0x205f || v
        == 0x3000
}


/// Reads the first `n` characters of `s` from left to right: the words that
/// are complete (each ended by a white space character) and the word that is
/// still being read.
pub open spec fn scan_words(s: Seq<char>, n: nat) -> (Seq<Seq<char>>, Seq<char>)
    decreases n,
{
    if n == 0 || n > s.len() {
        (Seq::empty(), Seq::empty())
    } else {
        let prev = scan_words(s, (n - 1) as nat);
        let c = s[n - 1];
        if is_white_space(c) {
            if prev.1.len() > 0 {
                (prev.0.push(prev.1), Seq::empty())
            } else {
                prev
            }
        } else {
            (prev.0, prev.1.push(c))
        }
    }
}

/// The maximal runs of non white space characters of `s`, in order: the
/// words that `str::split_whitespace` yields.
pub open spec fn split_words(s: Seq<char>) -> Seq<Seq<char>> {
    let end = scan_words(s, s.len());
    if end.1.len() > 0 {
        end.0.push(end.1)
    } else {
        end.0
    }
}

/// The views of a vector of strings.
pub open spec fn string_views(v: Seq<String>) -> Seq<Seq<char>> {
    v.map_values(|w: String| w@)
}

/// Splits `s` into its words, the maximal runs of characters that are not
/// white space.
pub fn split_whitespace(s: &str) -> (words: Vec<String>)
    ensures
        string_views(words@) == split_words(s@),
        exists|starts: Seq<int>| runs_of(s@, string_views(words@), starts),
{
    proof {
        lemma_split_words_are_the_runs(s@);
    }
    let n = s.unicode_len();
    let mut words: Vec<String> = Vec::new();
    let mut start: usize = 0;
    let mut i: usize = 0;
    while i < n
        invariant
            n == s@.len(),
            start <= i <= n,
            string_views(words@) == scan_words(s@, i as nat).0,
            s@.subrange(start as int, i as int) == scan_words(s@, i as nat).1,
        decreases n - i,
    {
        let c = s.get_char(i);
        let ghost prev = scan_words(s@, i as nat);
        assert(scan_words(s@, (i + 1) as nat) == (if is_white_space(c) {
            if prev.1.len() > 0 {
                (prev.0.push(prev.1), Seq::<char>::empty())
            } else {
                prev
            }
        } else {
            (prev.0, prev.1.push(c))
        }));
        if is_whitespace(c) {
            if start < i {
                let w = s.substring_char(start, i);
                words.push(String::from_str(w));
                assert(string_views(words@) =~= prev.0.push(prev.1));
            }
            start = i + 1;
            assert(s@.subrange(start as int, (i + 1) as int) =~= Seq::<char>::empty());
        } else {
            assert(s@.subrange(start as int, (i + 1) as int) =~= s@.subrange(
                start as int,
                i as int,
            ).push(c));
        }
        i = i + 1;
    }
    if start < n {
        let w = s.substring_char(start, n);
        words.push(String::from_str(w));
        assert(string_views(words@) =~= scan_words(s@, n as nat).0.push(
            scan_words(s@, n as nat).1,
        ));
    }
    words
}

/// A word: a non-empty run of characters none of which is white space.
pub open spec fn is_word(w: Seq<char>) -> bool {
    w.len() > 0 && forall|j: int| 0 <= j < w.len() ==> !is_white_space(#[trigger] w[j])
}

proof fn lemma_scan_words_are_words(s: Seq<char>, n: nat)
    requires
        n <= s.len(),
    ensures
        forall|i: int| 0 <= i < scan_words(s, n).0.len() ==> is_word(#[trigger] scan_words(s, n).0[i]),
        forall|j: int|
            0 <= j < scan_words(s, n).1.len() ==> !is_white_space(#[trigger] scan_words(s, n).1[j]),
    decreases n,
{
    if n > 0 {
        lemma_scan_words_are_words(s, (n - 1) as nat);
        let prev = scan_words(s, (n - 1) as nat);
        let c = s[n - 1];
        let p = scan_words(s, n);
        if is_white_space(c) {
            if prev.1.len() > 0 {
                assert forall|i: int| 0 <= i < p.0.len() implies is_word(#[trigger] p.0[i]) by {
                    if i < prev.0.len() {
                        assert(p.0[i] == prev.0[i]);
                    } else {
                        assert(p.0[i] == prev.1);
                    }
                }
            }
        } else {
            assert forall|j: int| 0 <= j < p.1.len() implies !is_white_space(#[trigger] p.1[j]) by {
                if j < prev.1.len() {
                    assert(p.1[j] == prev.1[j]);
                }
            }
        }
    }
}

/// Every word that `split_words` yields is non-empty and holds no white
/// space.
pub proof fn lemma_split_words_are_words(s: Seq<char>)
    ensures
        forall|i: int| 0 <= i < split_words(s).len() ==> is_word(#[trigger] split_words(s)[i]),
{
    lemma_scan_words_are_words(s, s.len());
    let end = scan_words(s, s.len());
    assert forall|i: int| 0 <= i < split_words(s).len() implies is_word(#[trigger] split_words(s)[i]) by {
        if i < end.0.len() {
            assert(split_words(s)[i] == end.0[i]);
        } else {
            assert(split_words(s)[i] == end.1);
        }
    }
}

/// `w` is a whole word of `s` found at position `p`: it is the text there,
/// it holds no white space, and neither the character before it nor the one
/// after it (where there are such characters) is anything but white space.
pub open spec fn is_run_at(s: Seq<char>, p: int, w: Seq<char>) -> bool {
    &&& 0 <= p
    &&& p + w.len() <= s.len()
    &&& s.subrange(p, p + w.len()) == w
    &&& is_word(w)
    &&& (p == 0 || is_white_space(s[p - 1]))
    &&& (p + w.len() == s.len() || is_white_space(s[p + w.len()]))
}

/// `words` are the whole words of `s`, found at the positions `starts`, in
/// the order of the text, and every character of `s` that is not white space
/// lies in one of them.
pub open spec fn runs_of(s: Seq<char>, words: Seq<Seq<char>>, starts: Seq<int>) -> bool {
    &&& starts.len() == words.len()
    &&& forall|j: int| 0 <= j < words.len() ==> is_run_at(s, #[trigger] starts[j], words[j])
    &&& forall|j: int|
        0 <= j < words.len() - 1 ==> #[trigger] starts[j] + words[j].len() < starts[j + 1]
    &&& forall|i: int|
        0 <= i < s.len() && !is_white_space(#[trigger] s[i]) ==> exists|j: int|
            0 <= j < words.len() && #[trigger] starts[j] <= i < starts[j] + words[j].len()
}

spec fn scan_inv(s: Seq<char>, n: nat, starts: Seq<int>) -> bool {
    let p = scan_words(s, n);
    let d = p.0;
    let cur = p.1;
    let cs = n - cur.len();
    &&& n <= s.len()
    &&& starts.len() == d.len()
    &&& forall|j: int|
        0 <= j < d.len() ==> is_run_at(s, #[trigger] starts[j], d[j]) && starts[j] + d[j].len()
            < n
    &&& forall|j: int| 0 <= j < d.len() - 1 ==> #[trigger] starts[j] + d[j].len() < starts[j + 1]
    &&& 0 <= cs
    &&& cur == s.subrange(cs, n as int)
    &&& (cs == 0 || is_white_space(s[cs - 1]))
    &&& d.len() > 0 ==> starts[d.len() - 1] + d[d.len() - 1].len() < cs
    &&& forall|i: int|
        0 <= i < n && !is_white_space(#[trigger] s[i]) ==> (cs <= i || exists|j: int|
            0 <= j < d.len() && #[trigger] starts[j] <= i < starts[j] + d[j].len())
}

proof fn lemma_scan_runs_close_word(s: Seq<char>, n: nat, old_starts: Seq<int>) -> (starts: Seq<
    int,
>)
    requires
        1 <= n <= s.len(),
        scan_inv(s, (n - 1) as nat, old_starts),
        is_white_space(s[n - 1]),
        scan_words(s, (n - 1) as nat).1.len() > 0,
    ensures
        scan_inv(s, n, starts),
{
    lemma_scan_words_are_words(s, (n - 1) as nat);
    let prev = scan_words(s, (n - 1) as nat);
    let d = prev.0;
    let cur = prev.1;
    let cs = (n - 1) - cur.len();
    let p = scan_words(s, n);
    let starts = old_starts.push(cs);
    assert(p.0 == d.push(cur));
    assert(p.1 == Seq::<char>::empty());
    assert(is_word(cur));
    assert(is_run_at(s, cs, cur));
    assert forall|j: int| 0 <= j < p.0.len() implies is_run_at(s, #[trigger] starts[j], p.0[j])
        && starts[j] + p.0[j].len() < n by {
        if j < d.len() {
            assert(starts[j] == old_starts[j]);
            assert(p.0[j] == d[j]);
        }
    }
    assert forall|j: int| 0 <= j < p.0.len() - 1 implies #[trigger] starts[j] + p.0[j].len()
        < starts[j + 1] by {
        assert(starts[j] == old_starts[j]);
        assert(p.0[j] == d[j]);
        if j + 1 < d.len() {
            assert(starts[j + 1] == old_starts[j + 1]);
        }
    }
    assert(p.1 =~= s.subrange(n as int, n as int));
    assert forall|i: int| 0 <= i < n && !is_white_space(#[trigger] s[i]) implies (n <= i
        || exists|j: int| 0 <= j < p.0.len() && #[trigger] starts[j] <= i < starts[j] + p.0[j].len()) by {
        if i < cs {
            let j0 = choose|j: int|
                0 <= j < d.len() && #[trigger] old_starts[j] <= i < old_starts[j] + d[j].len();
            assert(starts[j0] == old_starts[j0] && p.0[j0] == d[j0]);
        } else {
            let last = d.len() as int;
            assert(starts[last] == cs && p.0[last] == cur);
        }
    }
    starts
}

proof fn lemma_scan_runs_skip_blank(s: Seq<char>, n: nat, starts: Seq<int>)
    requires
        1 <= n <= s.len(),
        scan_inv(s, (n - 1) as nat, starts),
        is_white_space(s[n - 1]),
        scan_words(s, (n - 1) as nat).1.len() == 0,
    ensures
        scan_inv(s, n, starts),
{
    let prev = scan_words(s, (n - 1) as nat);
    let p = scan_words(s, n);
    assert(p == prev);
    assert(p.1 =~= s.subrange(n as int, n as int));
    assert forall|i: int| 0 <= i < n && !is_white_space(#[trigger] s[i]) implies (n <= i
        || exists|j: int| 0 <= j < p.0.len() && #[trigger] starts[j] <= i < starts[j] + p.0[j].len()) by {
        assert(i < n - 1);
    }
}

proof fn lemma_scan_runs_extend_word(s: Seq<char>, n: nat, starts: Seq<int>)
    requires
        1 <= n <= s.len(),
        scan_inv(s, (n - 1) as nat, starts),
        !is_white_space(s[n - 1]),
    ensures
        scan_inv(s, n, starts),
{
    let prev = scan_words(s, (n - 1) as nat);
    let d = prev.0;
    let cur = prev.1;
    let cs = (n - 1) - cur.len();
    let p = scan_words(s, n);
    assert(p.0 == d);
    assert(p.1 == cur.push(s[n - 1]));
    assert(s.subrange(cs, n as int) =~= cur.push(s[n - 1]));
    assert(n - p.1.len() == cs);
    assert forall|i: int| 0 <= i < n && !is_white_space(#[trigger] s[i]) implies (cs <= i
        || exists|j: int| 0 <= j < p.0.len() && #[trigger] starts[j] <= i < starts[j] + p.0[j].len()) by {
        if i < n - 1 {
        }
    }
}

proof fn lemma_scan_runs(s: Seq<char>, n: nat) -> (starts: Seq<int>)
    requires
        n <= s.len(),
    ensures
        scan_inv(s, n, starts),
    decreases n,
{
    if n == 0 {
        let p = scan_words(s, 0);
        assert(p == (Seq::<Seq<char>>::empty(), Seq::<char>::empty()));
        assert(p.1 =~= s.subrange(0, 0));
        Seq::empty()
    } else {
        let old_starts = lemma_scan_runs(s, (n - 1) as nat);
        if is_white_space(s[n - 1]) {
            if scan_words(s, (n - 1) as nat).1.len() > 0 {
                lemma_scan_runs_close_word(s, n, old_starts)
            } else {
                lemma_scan_runs_skip_blank(s, n, old_starts);
                old_starts
            }
        } else {
            lemma_scan_runs_extend_word(s, n, old_starts);
            old_starts
        }
    }
}

/// The words that `split_words` yields are exactly the whole words of the
/// text in order: each is a maximal run of characters that are not white
/// space, and no such character of the text is left out.
pub proof fn lemma_split_words_are_the_runs(s: Seq<char>)
    ensures
        exists|starts: Seq<int>| runs_of(s, split_words(s), starts),
{
    let old_starts = lemma_scan_runs(s, s.len());
    lemma_scan_words_are_words(s, s.len());
    let end = scan_words(s, s.len());
    let d = end.0;
    let cur = end.1;
    let n = s.len();
    let cs = n - cur.len();
    if cur.len() > 0 {
        let starts = old_starts.push(cs as int);
        let w = split_words(s);
        assert(w == d.push(cur));
        assert(is_run_at(s, cs as int, cur));
        assert forall|j: int| 0 <= j < w.len() implies is_run_at(s, #[trigger] starts[j], w[j]) by {
            if j < d.len() {
                assert(starts[j] == old_starts[j]);
                assert(w[j] == d[j]);
            }
        }
        assert forall|j: int| 0 <= j < w.len() - 1 implies #[trigger] starts[j] + w[j].len()
            < starts[j + 1] by {
            assert(starts[j] == old_starts[j]);
            assert(w[j] == d[j]);
            if j + 1 < d.len() {
                assert(starts[j + 1] == old_starts[j + 1]);
            }
        }
        assert forall|i: int| 0 <= i < s.len() && !is_white_space(#[trigger] s[i]) implies exists|
            j: int,
        | 0 <= j < w.len() && #[trigger] starts[j] <= i < starts[j] + w[j].len() by {
            if i < cs {
                let j0 = choose|j: int|
                    0 <= j < d.len() && #[trigger] old_starts[j] <= i < old_starts[j] + d[j].len();
                assert(starts[j0] == old_starts[j0] && w[j0] == d[j0]);
            } else {
                let last = d.len() as int;
                assert(starts[last] == cs && w[last] == cur);
            }
        }
        assert(runs_of(s, w, starts));
    } else {
        assert(split_words(s) == d);
        assert(runs_of(s, split_words(s), old_starts));
    }
}

} // verus!
