//! Character-sequence helpers shared by the string-processing logic:
//! conversions between `str`/`String` and `Vec<char>`, comparisons against
//! literals, whitespace trimming, ASCII case folding, and the decimal
//! rendering of `u64` ids.

use vstd::prelude::*;

verus! {

/// Collects the characters of a string slice into a vector.
pub fn str_to_chars(s: &str) -> (r: Vec<char>)
    ensures
        r@ == s@,
{
    let len = s.unicode_len();
    let mut r: Vec<char> = Vec::new();
    let mut i: usize = 0;
    while i < len
        invariant
            i <= len,
            len == s@.len(),
            r@ == s@.subrange(0, i as int),
        decreases len - i,
    {
        r.push(s.get_char(i));
        i = i + 1;
        proof {
            assert(r@ =~= s@.subrange(0, i as int));
        }
    }
    proof {
        assert(r@ =~= s@);
    }
    r
}

/// Relies on `String: FromIterator<char>`: collecting chars yields the string
/// whose character sequence is exactly the input.
#[verifier::external_body]
pub(crate) fn chars_to_string(v: &Vec<char>) -> (s: String)
    ensures
        s@ == v@,
{
    v.iter().collect()
}

/// Whether the character vector holds exactly the characters of `s`.
pub fn chars_eq_str(v: &Vec<char>, s: &str) -> (r: bool)
    ensures
        r == (v@ == s@),
{
    let n = s.unicode_len();
    if v.len() != n {
        proof {
            if v@ == s@ {
                assert(v@.len() == s@.len());
            }
        }
        return false;
    }
    let mut i: usize = 0;
    while i < n
        invariant
            0 <= i <= n,
            n == s@.len(),
            v@.len() == n,
            forall|k: int| 0 <= k < i ==> v@[k] == s@[k],
        decreases n - i,
    {
        if v[i] != s.get_char(i) {
            return false;
        }
        i = i + 1;
    }
    proof {
        assert(v@ =~= s@);
    }
    true
}

/// Whether the character vector starts with the characters of `s`.
pub fn chars_starts_with_str(v: &Vec<char>, s: &str) -> (r: bool)
    ensures
        r == (v@.len() >= s@.len() && v@.subrange(0, s@.len() as int) == s@),
{
    let n = s.unicode_len();
    if v.len() < n {
        return false;
    }
    let mut i: usize = 0;
    while i < n
        invariant
            0 <= i <= n,
            n == s@.len(),
            v@.len() >= n,
            forall|k: int| 0 <= k < i ==> v@[k] == s@[k],
        decreases n - i,
    {
        if v[i] != s.get_char(i) {
            proof {
                if v@.subrange(0, s@.len() as int) == s@ {
                    assert(v@.subrange(0, s@.len() as int)[i as int] == s@[i as int]);
                }
            }
            return false;
        }
        i = i + 1;
    }
    proof {
        assert(v@.subrange(0, s@.len() as int) =~= s@);
    }
    true
}

/// The suffix of a character vector from position `from`.
pub fn chars_suffix(v: &Vec<char>, from: usize) -> (r: Vec<char>)
    requires
        from <= v@.len(),
    ensures
        r@ == v@.subrange(from as int, v@.len() as int),
{
    let mut r: Vec<char> = Vec::new();
    let mut i: usize = from;
    while i < v.len()
        invariant
            from <= i <= v@.len(),
            r@ == v@.subrange(from as int, i as int),
        decreases v@.len() - i,
    {
        r.push(v[i]);
        i = i + 1;
        proof {
            assert(r@ =~= v@.subrange(from as int, i as int));
        }
    }
    r
}

/// Whether two string slices hold the same characters.
pub fn str_eq(a: &str, b: &str) -> (r: bool)
    ensures
        r == (a@ == b@),
{
    let n = a.unicode_len();
    if n != b.unicode_len() {
        proof {
            if a@ == b@ {
                assert(a@.len() == b@.len());
            }
        }
        return false;
    }
    let mut i: usize = 0;
    while i < n
        invariant
            0 <= i <= n,
            n == a@.len(),
            n == b@.len(),
            forall|k: int| 0 <= k < i ==> a@[k] == b@[k],
        decreases n - i,
    {
        if a.get_char(i) != b.get_char(i) {
            return false;
        }
        i = i + 1;
    }
    proof {
        assert(a@ =~= b@);
    }
    true
}

/// The whitespace characters that trimming removes.
pub open spec fn is_ws(c: char) -> bool {
    c == ' ' || c == '\t' || c == '\n' || c == '\r'
}

/// Executable test for [`is_ws`].
pub fn is_ws_char(c: char) -> (r: bool)
    ensures
        r == is_ws(c),
{
    c == ' ' || c == '\t' || c == '\n' || c == '\r'
}

/// The sequence with its leading whitespace removed.
pub open spec fn trim_front(s: Seq<char>) -> Seq<char>
    decreases s.len(),
{
    if s.len() > 0 && is_ws(s[0]) {
        trim_front(s.subrange(1, s.len() as int))
    } else {
        s
    }
}

/// The sequence with its trailing whitespace removed.
pub open spec fn trim_back(s: Seq<char>) -> Seq<char>
    decreases s.len(),
{
    if s.len() > 0 && is_ws(s[s.len() - 1]) {
        trim_back(s.subrange(0, s.len() - 1))
    } else {
        s
    }
}

/// The sequence with leading and trailing whitespace removed.
pub open spec fn spec_trim(s: Seq<char>) -> Seq<char> {
    trim_back(trim_front(s))
}

proof fn lemma_trim_front_subrange(s: Seq<char>, i: int)
    requires
        0 <= i <= s.len(),
        forall|k: int| 0 <= k < i ==> is_ws(s[k]),
    ensures
        trim_front(s) == trim_front(s.subrange(i, s.len() as int)),
    decreases i,
{
    if i > 0 {
        assert(is_ws(s[0]));
        let s1 = s.subrange(1, s.len() as int);
        assert(trim_front(s) == trim_front(s1));
        assert(forall|k: int| 0 <= k < i - 1 ==> is_ws(#[trigger] s1[k]));
        lemma_trim_front_subrange(s1, i - 1);
        assert(s1.subrange(i - 1, s1.len() as int) =~= s.subrange(i, s.len() as int));
    } else {
        assert(s.subrange(0, s.len() as int) =~= s);
    }
}

proof fn lemma_trim_back_subrange(s: Seq<char>, j: int)
    requires
        0 <= j <= s.len(),
        forall|k: int| j <= k < s.len() ==> is_ws(s[k]),
    ensures
        trim_back(s) == trim_back(s.subrange(0, j)),
    decreases s.len() - j,
{
    if j < s.len() {
        assert(is_ws(s[s.len() - 1]));
        let s1 = s.subrange(0, s.len() - 1);
        assert(trim_back(s) == trim_back(s1));
        assert(forall|k: int| j <= k < s1.len() ==> is_ws(#[trigger] s1[k]));
        lemma_trim_back_subrange(s1, j);
        assert(s1.subrange(0, j) =~= s.subrange(0, j));
    } else {
        assert(s.subrange(0, s.len() as int) =~= s);
    }
}

/// A trimmed-front sequence is either empty or starts with non-whitespace.
pub proof fn lemma_trim_front_no_ws(s: Seq<char>)
    ensures
        trim_front(s).len() == 0 || !is_ws(trim_front(s)[0]),
    decreases s.len(),
{
    if s.len() > 0 && is_ws(s[0]) {
        lemma_trim_front_no_ws(s.subrange(1, s.len() as int));
    }
}

/// A trimmed-back sequence is either empty or ends with non-whitespace.
pub proof fn lemma_trim_back_no_ws(s: Seq<char>)
    ensures
        trim_back(s).len() == 0 || !is_ws(trim_back(s)[trim_back(s).len() - 1]),
    decreases s.len(),
{
    if s.len() > 0 && is_ws(s[s.len() - 1]) {
        lemma_trim_back_no_ws(s.subrange(0, s.len() - 1));
    }
}

/// Trimming the back keeps the first character (when any character is left).
pub proof fn lemma_trim_back_prefix(s: Seq<char>)
    ensures
        trim_back(s).len() <= s.len(),
        forall|k: int| 0 <= k < trim_back(s).len() ==> trim_back(s)[k] == s[k],
    decreases s.len(),
{
    if s.len() > 0 && is_ws(s[s.len() - 1]) {
        let s1 = s.subrange(0, s.len() - 1);
        lemma_trim_back_prefix(s1);
        assert(forall|k: int| 0 <= k < trim_back(s).len() ==> trim_back(s)[k] == s1[k]);
        assert(forall|k: int| 0 <= k < trim_back(s).len() ==> s1[k] == s[k]);
    }
}

/// Trimming an already-trimmed sequence changes nothing.
pub proof fn lemma_trim_idempotent(s: Seq<char>)
    ensures
        spec_trim(spec_trim(s)) == spec_trim(s),
{
    let tf = trim_front(s);
    let t = spec_trim(s);
    lemma_trim_front_no_ws(s);
    lemma_trim_back_prefix(tf);
    if t.len() > 0 {
        assert(tf.len() > 0);
        assert(t[0] == tf[0]);
        assert(!is_ws(t[0]));
    }
    assert(trim_front(t) == t);
    lemma_trim_back_no_ws(tf);
    assert(trim_back(t) == t);
}

/// Removes leading and trailing whitespace.
pub fn trim_chars(v: &Vec<char>) -> (r: Vec<char>)
    ensures
        r@ == spec_trim(v@),
{
    let len = v.len();
    let mut i: usize = 0;
    while i < len && is_ws_char(v[i])
        invariant
            0 <= i <= len,
            len == v@.len(),
            forall|k: int| 0 <= k < i ==> is_ws(v@[k]),
        decreases len - i,
    {
        i = i + 1;
    }
    proof {
        lemma_trim_front_subrange(v@, i as int);
    }
    let ghost front = v@.subrange(i as int, len as int);
    assert(trim_front(v@) == front);
    let mut j: usize = len;
    while j > i && is_ws_char(v[j - 1])
        invariant
            i <= j <= len,
            len == v@.len(),
            forall|k: int| j <= k < len ==> is_ws(v@[k]),
        decreases j,
    {
        j = j - 1;
    }
    proof {
        assert(forall|k: int| j - i <= k < front.len() ==> is_ws(#[trigger] front[k]));
        lemma_trim_back_subrange(front, j - i);
        assert(front.subrange(0, j - i) =~= v@.subrange(i as int, j as int));
        if j > i {
            assert(!is_ws(front[j - i - 1]));
            assert(trim_back(front.subrange(0, j - i)) == front.subrange(0, j - i));
        } else {
            assert(front.subrange(0, 0) =~= Seq::<char>::empty());
        }
    }
    let mut r: Vec<char> = Vec::new();
    let mut k: usize = i;
    while k < j
        invariant
            i <= k <= j <= len,
            len == v@.len(),
            r@ == v@.subrange(i as int, k as int),
        decreases j - k,
    {
        r.push(v[k]);
        proof {
            assert(r@ =~= v@.subrange(i as int, k + 1 as int));
        }
        k = k + 1;
    }
    proof {
        assert(r@ =~= v@.subrange(i as int, j as int));
    }
    r
}

/// Removes trailing whitespace.
pub fn trim_end_chars(v: &Vec<char>) -> (r: Vec<char>)
    ensures
        r@ == trim_back(v@),
{
    let len = v.len();
    let mut j: usize = len;
    while j > 0 && is_ws_char(v[j - 1])
        invariant
            0 <= j <= len,
            len == v@.len(),
            forall|k: int| j <= k < len ==> is_ws(v@[k]),
        decreases j,
    {
        j = j - 1;
    }
    proof {
        lemma_trim_back_subrange(v@, j as int);
        if j > 0 {
            assert(!is_ws(v@[j - 1]));
            assert(v@.subrange(0, j as int).last() == v@[j - 1]);
        }
    }
    let mut r: Vec<char> = Vec::new();
    let mut k: usize = 0;
    while k < j
        invariant
            0 <= k <= j <= v@.len(),
            r@ == v@.subrange(0, k as int),
        decreases j - k,
    {
        r.push(v[k]);
        k = k + 1;
        proof {
            assert(r@ =~= v@.subrange(0, k as int));
        }
    }
    proof {
        assert(r@ =~= v@.subrange(0, j as int));
        if j == v@.len() {
            assert(v@.subrange(0, j as int) =~= v@);
        }
    }
    r
}

/// The position of the first newline at or after `i`, or -1.
pub open spec fn find_nl_from(s: Seq<char>, i: int) -> int
    decreases s.len() - i,
{
    if i < 0 || i >= s.len() {
        -1
    } else if s[i] == '\n' {
        i
    } else {
        find_nl_from(s, i + 1)
    }
}

/// Finds the first newline in `v` at or after position `from`.
pub fn find_newline(v: &Vec<char>, from: usize) -> (r: Option<usize>)
    requires
        from <= v@.len(),
    ensures
        match r {
            Some(i) => from <= i && i < v@.len() && i == find_nl_from(v@, from as int),
            None => find_nl_from(v@, from as int) < 0,
        },
{
    let mut i: usize = from;
    while i < v.len()
        invariant
            from <= i,
            i <= v@.len(),
            find_nl_from(v@, from as int) == find_nl_from(v@, i as int),
        decreases v@.len() - i,
    {
        if v[i] == '\n' {
            return Some(i);
        }
        i = i + 1;
    }
    None
}

/// ASCII lower-casing of one character; other characters are unchanged.
pub open spec fn lower_char(c: char) -> char {
    if 'A' <= c && c <= 'Z' {
        (c as u8 + 32) as char
    } else {
        c
    }
}

/// A sequence, character-wise ASCII lower-cased.
pub open spec fn lower_seq(s: Seq<char>) -> Seq<char> {
    s.map_values(|c: char| lower_char(c))
}

/// Executable ASCII lower-casing of one character.
pub fn to_lower_char(c: char) -> (r: char)
    ensures
        r == lower_char(c),
{
    if 'A' <= c && c <= 'Z' {
        (c as u8 + 32) as char
    } else {
        c
    }
}

/// Lower-cases a character vector (ASCII range only).
pub fn lower_chars(v: &Vec<char>) -> (r: Vec<char>)
    ensures
        r@ == lower_seq(v@),
{
    let mut r: Vec<char> = Vec::new();
    let mut i: usize = 0;
    while i < v.len()
        invariant
            0 <= i <= v@.len(),
            r@ == lower_seq(v@.subrange(0, i as int)),
        decreases v@.len() - i,
    {
        r.push(to_lower_char(v[i]));
        i = i + 1;
        proof {
            assert(r@ =~= lower_seq(v@.subrange(0, i as int)));
        }
    }
    proof {
        assert(v@.subrange(0, v@.len() as int) =~= v@);
    }
    r
}

/// The decimal digit character for a value below ten.
pub open spec fn dec_digit(d: nat) -> char
    recommends
        d < 10,
{
    ((48 + d) as u8) as char
}

/// The decimal rendering of a natural number, most significant digit first.
pub open spec fn dec_str(n: nat) -> Seq<char>
    decreases n,
{
    if n < 10 {
        seq![dec_digit(n)]
    } else {
        dec_str(n / 10) + seq![dec_digit(n % 10)]
    }
}

/// Appends the decimal rendering of `n` to `out`.
pub fn push_dec_u64(n: u64, out: &mut Vec<char>)
    ensures
        final(out)@ == old(out)@ + dec_str(n as nat),
    decreases n,
{
    if n >= 10 {
        push_dec_u64(n / 10, out);
    }
    let d = (n % 10) as u8;
    out.push((48 + d) as char);
    proof {
        if n < 10 {
            assert(old(out)@ + dec_str(n as nat) =~= final(out)@);
        } else {
            assert(old(out)@ + dec_str(n as nat) =~= final(out)@);
        }
    }
}

/// The decimal rendering of a `u64`, as a character vector.
pub fn u64_to_chars(n: u64) -> (r: Vec<char>)
    ensures
        r@ == dec_str(n as nat),
{
    let mut r: Vec<char> = Vec::new();
    push_dec_u64(n, &mut r);
    proof {
        assert(r@ =~= dec_str(n as nat));
    }
    r
}

/// The decimal rendering of a `u64`, as a `String`.
pub fn u64_to_string(n: u64) -> (r: String)
    ensures
        r@ == dec_str(n as nat),
{
    let v = u64_to_chars(n);
    chars_to_string(&v)
}

} // verus!
