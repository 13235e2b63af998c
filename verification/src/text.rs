//! Character-level helpers for string slices.

use vstd::prelude::*;

verus! {

/// The characters that carry the Unicode `White_Space` property.
pub open spec fn is_white_space(c: char) -> bool {
    let n = c as u32;
    ||| 0x09 <= n <= 0x0D
    ||| n == 0x20
    ||| n == 0x85
    ||| n == 0xA0
    ||| n == 0x1680
    ||| 0x2000 <= n <= 0x200A
    ||| n == 0x2028
    ||| n == 0x2029
    ||| n == 0x202F
    ||| n == 0x205F
    ||| n == 0x3000
}

/// Tells whether `c` is Unicode white space.
pub fn is_space(c: char) -> (r: bool)
    ensures
        r == is_white_space(c),
{
    let n: u32 = c as u32;
    (0x09 <= n && n <= 0x0D) || n == 0x20 || n == 0x85 || n == 0xA0 || n == 0x1680 || (0x2000 <= n
        && n <= 0x200A) || n == 0x2028 || n == 0x2029 || n == 0x202F || n == 0x205F || n == 0x3000
}

/// The characters of `s`, in order.
pub fn chars_of(s: &str) -> (r: Vec<char>)
    ensures
        r@ == s@,
{
    let mut out: Vec<char> = Vec::new();
    for c in it: s.chars()
        invariant
            out@ == it.seq().take(it.index() as int),
    {
        out.push(c);
    }
    out
}

/// A copy of the characters of `v` from index `lo` up to, not including, `hi`.
pub fn slice(v: &Vec<char>, lo: usize, hi: usize) -> (r: Vec<char>)
    requires
        lo <= hi <= v.len(),
    ensures
        r@ == v@.subrange(lo as int, hi as int),
{
    let mut out: Vec<char> = Vec::new();
    let mut i: usize = lo;
    while i < hi
        invariant
            lo <= i <= hi <= v.len(),
            out@ == v@.subrange(lo as int, i as int),
        decreases hi - i,
    {
        out.push(v[i]);
        i += 1;
    }
    out
}

/// Tells whether two character vectors hold the same text.
pub fn same(a: &Vec<char>, b: &Vec<char>) -> (r: bool)
    ensures
        r == (a@ == b@),
{
    if a.len() != b.len() {
        return false;
    }
    let mut i: usize = 0;
    while i < a.len()
        invariant
            a.len() == b.len(),
            i <= a.len(),
            forall|j: int| 0 <= j < i ==> a@[j] == b@[j],
        decreases a.len() - i,
    {
        if a[i] != b[i] {
            return false;
        }
        i += 1;
    }
    assert(a@ =~= b@);
    true
}

/// `i` is the index of the first occurrence of `c` in `s`.
pub open spec fn is_first(s: Seq<char>, c: char, i: int) -> bool {
    &&& 0 <= i < s.len()
    &&& s[i] == c
    &&& forall|j: int| 0 <= j < i ==> s[j] != c
}

/// The index of the first occurrence of `c` in `s`, if there is one.
pub open spec fn first_index(s: Seq<char>, c: char) -> Option<int> {
    if s.contains(c) {
        Some(choose|i: int| is_first(s, c, i))
    } else {
        None
    }
}

/// A first occurrence is the only first occurrence.
pub proof fn lemma_first_index(s: Seq<char>, c: char, i: int)
    requires
        is_first(s, c, i),
    ensures
        first_index(s, c) == Some(i),
{
    let k = choose|k: int| is_first(s, c, k);
    assert(is_first(s, c, k));
}

/// The index of the first occurrence of `c` in `v`.
pub fn position(v: &Vec<char>, c: char) -> (r: Option<usize>)
    ensures
        r is Some <==> v@.contains(c),
        match r {
            Some(i) => is_first(v@, c, i as int) && first_index(v@, c) == Some(i as int),
            None => first_index(v@, c) is None,
        },
{
    let mut i: usize = 0;
    while i < v.len()
        invariant
            i <= v.len(),
            forall|j: int| 0 <= j < i ==> v@[j] != c,
        decreases v.len() - i,
    {
        if v[i] == c {
            proof {
                lemma_first_index(v@, c, i as int);
            }
            return Some(i);
        }
        i += 1;
    }
    None
}

/// The text before the first `c` in `s` and the text after it.
pub open spec fn split_once(s: Seq<char>, c: char) -> Option<(Seq<char>, Seq<char>)> {
    match first_index(s, c) {
        Some(i) => Some((s.take(i), s.skip(i + 1))),
        None => None,
    }
}

/// `pattern` stands in `s` at index `i`.
pub open spec fn occurs(s: Seq<char>, pattern: Seq<char>, i: int) -> bool {
    &&& 0 <= i
    &&& i + pattern.len() <= s.len()
    &&& s.subrange(i, i + pattern.len()) == pattern
}

/// `pattern` occurs in `s` as a run of consecutive characters.
pub open spec fn has_infix(s: Seq<char>, pattern: Seq<char>) -> bool {
    exists|i: int| occurs(s, pattern, i)
}

/// Tells whether `pattern` stands in `v` at index `at`.
pub fn occurs_at(v: &Vec<char>, pattern: &Vec<char>, at: usize) -> (r: bool)
    ensures
        r == occurs(v@, pattern@, at as int),
{
    if pattern.len() > v.len() || at > v.len() - pattern.len() {
        return false;
    }
    let mut k: usize = 0;
    while k < pattern.len()
        invariant
            at + pattern.len() <= v.len(),
            k <= pattern.len(),
            forall|j: int| 0 <= j < k ==> v@[at + j] == pattern@[j],
        decreases pattern.len() - k,
    {
        if v[at + k] != pattern[k] {
            return false;
        }
        k += 1;
    }
    assert(v@.subrange(at as int, at + pattern.len()) =~= pattern@);
    true
}

/// Tells whether `pattern` occurs anywhere in `v`.
pub fn contains(v: &Vec<char>, pattern: &Vec<char>) -> (r: bool)
    ensures
        r == has_infix(v@, pattern@),
{
    if pattern.len() > v.len() {
        return false;
    }
    let last: usize = v.len() - pattern.len();
    let mut i: usize = 0;
    loop
        invariant
            last == v.len() - pattern.len(),
            i <= last,
            forall|j: int| 0 <= j < i ==> !occurs(v@, pattern@, j),
        decreases last - i,
    {
        if occurs_at(v, pattern, i) {
            return true;
        }
        if i == last {
            return false;
        }
        i += 1;
    }
}

/// Tells whether `v` begins with `prefix`.
pub fn starts_with(v: &Vec<char>, prefix: &Vec<char>) -> (r: bool)
    ensures
        r == prefix@.is_prefix_of(v@),
{
    if prefix.len() > v.len() {
        return false;
    }
    let r = occurs_at(v, prefix, 0);
    r
}

/// A set of characters that can be stripped from the ends of a text.
#[derive(Clone, Copy, Debug)]
pub enum CharClass {
    /// Unicode white space.
    Space,
    /// One given character.
    Exactly(char),
}

impl CharClass {
    /// `c` belongs to the class.
    pub open spec fn holds(self, c: char) -> bool {
        match self {
            CharClass::Space => is_white_space(c),
            CharClass::Exactly(d) => c == d,
        }
    }

    /// Tells whether `c` belongs to the class.
    pub fn accepts(&self, c: char) -> (r: bool)
        ensures
            r == self.holds(c),
    {
        match self {
            CharClass::Space => is_space(c),
            CharClass::Exactly(d) => c == *d,
        }
    }
}

/// `a` characters at the front of `s` belong to `class`, and no more.
pub open spec fn is_lead(s: Seq<char>, class: CharClass, a: int) -> bool {
    &&& 0 <= a <= s.len()
    &&& forall|j: int| 0 <= j < a ==> class.holds(#[trigger] s[j])
    &&& a < s.len() ==> !class.holds(s[a])
}

/// From index `b` on every character of `s` belongs to `class`, and `b` is
/// the least such index.
pub open spec fn is_trail(s: Seq<char>, class: CharClass, b: int) -> bool {
    &&& 0 <= b <= s.len()
    &&& forall|j: int| b <= j < s.len() ==> class.holds(#[trigger] s[j])
    &&& 0 < b ==> !class.holds(s[b - 1])
}

/// The number of characters at the front of `s` that belong to `class`.
pub open spec fn lead(s: Seq<char>, class: CharClass) -> int {
    choose|a: int| is_lead(s, class, a)
}

/// The index at which the run of `class` characters at the back of `s` starts.
pub open spec fn trail(s: Seq<char>, class: CharClass) -> int {
    choose|b: int| is_trail(s, class, b)
}

/// `s` without the characters of `class` at its front, and then without
/// those at the back of what is left.
pub open spec fn strip(s: Seq<char>, class: CharClass) -> Seq<char> {
    let rest = s.skip(lead(s, class));
    rest.take(trail(rest, class))
}

/// The front run of a text has one length only.
pub proof fn lemma_lead(s: Seq<char>, class: CharClass, a: int)
    requires
        is_lead(s, class, a),
    ensures
        lead(s, class) == a,
{
    assert(is_lead(s, class, lead(s, class)));
}

/// The back run of a text has one start only.
pub proof fn lemma_trail(s: Seq<char>, class: CharClass, b: int)
    requires
        is_trail(s, class, b),
    ensures
        trail(s, class) == b,
{
    assert(is_trail(s, class, trail(s, class)));
}

/// `v` with the characters of `class` removed from both ends.
pub fn stripped(v: &Vec<char>, class: CharClass) -> (r: Vec<char>)
    ensures
        r@ == strip(v@, class),
{
    let mut a: usize = 0;
    while a < v.len() && class.accepts(v[a])
        invariant
            a <= v.len(),
            forall|j: int| 0 <= j < a ==> class.holds(#[trigger] v@[j]),
        decreases v.len() - a,
    {
        a += 1;
    }
    let mut b: usize = v.len();
    while b > a && class.accepts(v[b - 1])
        invariant
            a <= b <= v.len(),
            forall|j: int| b <= j < v.len() ==> class.holds(#[trigger] v@[j]),
        decreases b,
    {
        b -= 1;
    }
    proof {
        lemma_lead(v@, class, a as int);
        let rest = v@.skip(a as int);
        lemma_trail(rest, class, b - a);
    }
    slice(v, a, b)
}

} // verus!
