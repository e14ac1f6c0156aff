//! Plain text as sequences of characters: white space, classes of
//! characters, runs, and substring search.

use vstd::prelude::*;

verus! {

/// Whether `c` has the Unicode property `White_Space`.
pub open spec fn is_whitespace(c: char) -> bool {
    let n = c as u32;
    ||| 0x0009 <= n <= 0x000D
    ||| n == 0x0020
    ||| n == 0x0085
    ||| n == 0x00A0
    ||| n == 0x1680
    ||| 0x2000 <= n <= 0x200A
    ||| n == 0x2028
    ||| n == 0x2029
    ||| n == 0x202F
    ||| n == 0x205F
    ||| n == 0x3000
}

/// Tells whether `c` is white space.
pub fn is_space(c: char) -> (r: bool)
    ensures
        r == is_whitespace(c),
{
    let n: u32 = c as u32;
    (0x0009 <= n && n <= 0x000D) || n == 0x0020 || n == 0x0085 || n == 0x00A0 || n == 0x1680 || (
    0x2000 <= n && n <= 0x200A) || n == 0x2028 || n == 0x2029 || n == 0x202F || n == 0x205F || n
        == 0x3000
}

/// A class of characters at which a scan of a text stops.
#[derive(Clone, Copy, Debug)]
pub enum CharClass {
    /// The line feed, which ends a line.
    LineFeed,
    /// White space, which ends a token.
    Space,
    /// Anything but white space, which starts a token.
    Ink,
}

impl CharClass {
    /// Whether `c` belongs to the class.
    pub open spec fn has(self, c: char) -> bool {
        match self {
            CharClass::LineFeed => c == '\n',
            CharClass::Space => is_whitespace(c),
            CharClass::Ink => !is_whitespace(c),
        }
    }

    /// Tells whether `c` belongs to the class.
    pub fn holds(&self, c: char) -> (r: bool)
        ensures
            r == self.has(c),
    {
        match self {
            CharClass::LineFeed => c == '\n',
            CharClass::Space => is_space(c),
            CharClass::Ink => !is_space(c),
        }
    }
}

/// The number of characters of `s` that stand before its first character of
/// `class`; the length of `s` where it has none.
pub open spec fn run_before(s: Seq<char>, class: CharClass) -> nat
    decreases s.len(),
{
    if s.len() == 0 || class.has(s[0]) {
        0
    } else {
        1 + run_before(s.drop_first(), class)
    }
}

/// Whether `n` is where the first character of `class` stands in `s`, or the
/// length of `s` where it has none.
pub open spec fn is_run_before(s: Seq<char>, class: CharClass, n: int) -> bool {
    &&& 0 <= n <= s.len()
    &&& forall|i: int| 0 <= i < n ==> !class.has(#[trigger] s[i])
    &&& n < s.len() ==> class.has(s[n])
}

/// `run_before` is the one number that `is_run_before` accepts.
pub proof fn lemma_run_before(s: Seq<char>, class: CharClass)
    ensures
        is_run_before(s, class, run_before(s, class) as int),
        forall|n: int| is_run_before(s, class, n) ==> n == run_before(s, class),
    decreases s.len(),
{
    if s.len() == 0 || class.has(s[0]) {
        assert forall|n: int| is_run_before(s, class, n) implies n == 0 by {
            if n > 0 {
                assert(!class.has(s[0]));
            }
        }
    } else {
        let t = s.drop_first();
        let m = run_before(t, class) as int;
        lemma_run_before(t, class);
        assert forall|i: int| 0 <= i < m + 1 implies !class.has(#[trigger] s[i]) by {
            if i > 0 {
                assert(s[i] == t[i - 1]);
            }
        }
        if m + 1 < s.len() {
            assert(s[m + 1] == t[m]);
        }
        assert forall|n: int| is_run_before(s, class, n) implies n == m + 1 by {
            assert(n > 0);
            assert forall|i: int| 0 <= i < n - 1 implies !class.has(#[trigger] t[i]) by {
                assert(t[i] == s[i + 1]);
            }
            if n - 1 < t.len() {
                assert(t[n - 1] == s[n]);
            }
            assert(is_run_before(t, class, n - 1));
        }
    }
}

/// Finds in `s[from..]` the first character of `class`: its index, or the
/// length of `s` where there is none.
pub fn scan(s: &[char], from: usize, class: CharClass) -> (end: usize)
    requires
        from <= s.len(),
    ensures
        from <= end <= s.len(),
        end == from + run_before(s@.skip(from as int), class),
{
    let mut i: usize = from;
    while i < s.len() && !class.holds(s[i])
        invariant
            from <= i <= s.len(),
            forall|j: int| from <= j < i ==> !class.has(#[trigger] s@[j]),
        decreases s.len() - i,
    {
        i += 1;
    }
    proof {
        let t = s@.skip(from as int);
        assert forall|j: int| 0 <= j < i - from implies !class.has(#[trigger] t[j]) by {
            assert(t[j] == s@[from + j]);
        }
        assert(is_run_before(t, class, i - from));
        lemma_run_before(t, class);
    }
    i
}

/// Whether `needle` stands in `hay` at offset `i`.
pub open spec fn occurs_at(hay: Seq<char>, needle: Seq<char>, i: int) -> bool {
    &&& 0 <= i
    &&& i + needle.len() <= hay.len()
    &&& hay.subrange(i, i + needle.len()) == needle
}

/// Whether `needle` is a substring of `hay`. The empty text is a substring
/// of every text.
pub open spec fn has_substring(hay: Seq<char>, needle: Seq<char>) -> bool {
    exists|i: int| occurs_at(hay, needle, i)
}

/// Tells whether `needle` stands in `hay` at offset `i`.
pub fn starts_at(hay: &[char], needle: &[char], i: usize) -> (r: bool)
    ensures
        r == occurs_at(hay@, needle@, i as int),
{
    if needle.len() > hay.len() || i > hay.len() - needle.len() {
        return false;
    }
    let mut k: usize = 0;
    while k < needle.len()
        invariant
            k <= needle.len(),
            i + needle.len() <= hay.len(),
            forall|j: int| 0 <= j < k ==> hay@[i + j] == needle@[j],
        decreases needle.len() - k,
    {
        if hay[i + k] != needle[k] {
            proof {
                let window = hay@.subrange(i as int, i + needle.len());
                assert(window[k as int] == hay@[i + k]);
            }
            return false;
        }
        k += 1;
    }
    assert(hay@.subrange(i as int, i + needle.len()) =~= needle@);
    true
}

/// Tells whether `needle` is a substring of `hay`.
pub fn contains_chars(hay: &[char], needle: &[char]) -> (r: bool)
    ensures
        r == has_substring(hay@, needle@),
{
    if needle.len() > hay.len() {
        return false;
    }
    let last: usize = hay.len() - needle.len();
    let mut i: usize = 0;
    while i < last
        invariant
            i <= last,
            last == hay.len() - needle.len(),
            forall|j: int| 0 <= j < i ==> !occurs_at(hay@, needle@, j),
        decreases last - i,
    {
        if starts_at(hay, needle, i) {
            return true;
        }
        i += 1;
    }
    starts_at(hay, needle, last)
}

/// The characters of `s`, in order.
pub fn chars_of(s: &str) -> (v: Vec<char>)
    ensures
        v@ == s@,
{
    let mut v: Vec<char> = Vec::new();
    for c in it: s.chars()
        invariant
            it.seq() == s@,
            v@ == it.seq().take(it.index()),
    {
        v.push(c);
    }
    v
}

/// Tells whether `needle` is a substring of `hay`.
pub fn contains_text(hay: &str, needle: &str) -> (r: bool)
    ensures
        r == has_substring(hay@, needle@),
{
    let h = chars_of(hay);
    let n = chars_of(needle);
    contains_chars(h.as_slice(), n.as_slice())
}

} // verus!
