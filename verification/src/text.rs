use vstd::prelude::*;
use vstd::string::*;
use vstd::utf8::*;

verus! {

/// `std::str::from_utf8`: the bytes are accepted exactly when they are
/// well-formed UTF-8, and the text that comes back encodes to those bytes.
#[verifier::external_body]
fn utf8_text(input: &[u8]) -> (res: Option<&str>)
    ensures
        res is Some <==> valid_utf8(input@),
        res matches Some(s) ==> s.spec_bytes() == input@,
{
    std::str::from_utf8(input).ok()
}

/// `String::push`: appends one character at the end.
pub assume_specification[ String::push ](s: &mut String, ch: char)
    ensures
        final(s)@ == old(s)@.push(ch),
;

/// The characters of `s`, in order.
pub fn chars_of(s: &str) -> (v: Vec<char>)
    ensures
        v@ == s@,
{
    let mut v: Vec<char> = Vec::new();
    for c in it: s.chars()
        invariant
            it.seq() == s@,
            v@ == it.seq().take(it.index()),
    {
        v.push(c);
        assert(it.seq().take(it.index() + 1) =~= it.seq().take(it.index()).push(c));
    }
    assert(v@ =~= s@);
    v
}

/// The text made of the characters of `chars`.
pub fn text_of(chars: &[char]) -> (s: String)
    ensures
        s@ == chars@,
{
    let mut s = String::new();
    let n = chars.len();
    let mut i: usize = 0;
    while i < n
        invariant
            i <= n,
            n == chars@.len(),
            s@ == chars@.take(i as int),
        decreases n - i,
    {
        s.push(chars[i]);
        i += 1;
        assert(chars@.take(i as int) =~= chars@.take(i - 1).push(chars@[i - 1]));
    }
    assert(chars@.take(n as int) =~= chars@);
    s
}

/// Decodes a byte buffer as UTF-8 text.  `None` exactly when the bytes are not
/// well-formed UTF-8.
pub fn decode(input: &[u8]) -> (res: Option<Vec<char>>)
    ensures
        res is Some <==> valid_utf8(input@),
        res matches Some(v) ==> v@ == decode_utf8(input@),
{
    match utf8_text(input) {
        Some(s) => {
            proof {
                encode_utf8_decode_utf8(s@);
            }
            Some(chars_of(s))
        },
        None => None,
    }
}

/// The first position at or after `from` at which `s` holds `c`; the length of
/// `s` when there is none.
pub open spec fn find_from(s: Seq<char>, c: char, from: int) -> int
    decreases s.len() - from,
{
    if from >= s.len() {
        s.len() as int
    } else if from >= 0 && s[from] == c {
        from
    } else {
        find_from(s, c, from + 1)
    }
}

/// What `find_from` returns: a position in range that holds `c`, with no `c`
/// before it, or the length when `c` does not occur from `from` on.
pub proof fn lemma_find_from(s: Seq<char>, c: char, from: int)
    requires
        0 <= from <= s.len(),
    ensures
        from <= find_from(s, c, from) <= s.len(),
        find_from(s, c, from) < s.len() ==> s[find_from(s, c, from)] == c,
        forall|j: int| from <= j < find_from(s, c, from) ==> s[j] != c,
    decreases s.len() - from,
{
    if from < s.len() && s[from] != c {
        lemma_find_from(s, c, from + 1);
    }
}

/// Any position that bounds a run without `c` and either holds `c` or is the
/// end is the one `find_from` returns.
pub proof fn lemma_find_from_unique(s: Seq<char>, c: char, from: int, at: int)
    requires
        0 <= from <= at <= s.len(),
        at < s.len() ==> s[at] == c,
        forall|j: int| from <= j < at ==> s[j] != c,
    ensures
        find_from(s, c, from) == at,
    decreases at - from,
{
    if from < at {
        lemma_find_from_unique(s, c, from + 1, at);
    }
}

/// Finds the first `c` in `s` at or after `from`.
pub fn find_char(s: &[char], c: char, from: usize) -> (at: usize)
    ensures
        at == find_from(s@, c, from as int),
        at <= s@.len(),
        from <= s@.len() ==> from <= at,
        at < s@.len() ==> s@[at as int] == c,
        forall|j: int| from <= j < at ==> s@[j] != c,
{
    let n = s.len();
    if from >= n {
        return n;
    }
    let mut i: usize = from;
    while i < n && s[i] != c
        invariant
            from <= i <= n,
            n == s@.len(),
            forall|j: int| from <= j < i ==> s@[j] != c,
        decreases n - i,
    {
        i += 1;
    }
    proof {
        lemma_find_from_unique(s@, c, from as int, i as int);
    }
    i
}

/// Whether `s` is, character for character, the text `lit`.
pub fn is_text(s: &[char], lit: &str) -> (same: bool)
    ensures
        same == (s@ == lit@),
{
    let n = s.len();
    let mut ok = true;
    let mut k: usize = 0;
    for c in it: lit.chars()
        invariant
            it.seq() == lit@,
            n == s@.len(),
            ok ==> k == it.index() && k <= n && s@.take(k as int) == lit@.take(k as int),
            !ok ==> s@ != lit@,
    {
        if ok {
            if k < n && s[k] == c {
                k += 1;
                assert(s@.take(k as int) =~= s@.take(k - 1).push(c));
                assert(lit@.take(k as int) =~= lit@.take(k - 1).push(c));
            } else {
                ok = false;
                assert(s@ != lit@) by {
                    if s@ == lit@ {
                        assert(s@[k as int] == c);
                    }
                }
            }
        }
    }
    proof {
        if ok {
            assert(lit@.take(k as int) =~= lit@);
            if k == n {
                assert(s@.take(k as int) =~= s@);
            }
        }
    }
    ok && k == n
}

/// Whether two texts are the same, character for character.
pub fn same_text(a: &str, b: &str) -> (same: bool)
    ensures
        same == (a@ == b@),
{
    let x = a.as_bytes();
    let y = b.as_bytes();
    proof {
        encode_utf8_decode_utf8(a@);
        encode_utf8_decode_utf8(b@);
    }
    let n = x.len();
    if n != y.len() {
        return false;
    }
    let mut i: usize = 0;
    while i < n
        invariant
            i <= n,
            n == x@.len(),
            n == y@.len(),
            x@ == a.spec_bytes(),
            y@ == b.spec_bytes(),
            forall|j: int| 0 <= j < i ==> x@[j] == y@[j],
        decreases n - i,
    {
        if x[i] != y[i] {
            return false;
        }
        i += 1;
    }
    assert(x@ =~= y@);
    true
}

/// A text, unless it is empty.
pub open spec fn non_empty(t: Seq<char>) -> Option<Seq<char>> {
    if t.len() > 0 {
        Some(t)
    } else {
        None
    }
}

/// A copy of `t`, unless `t` is empty.
pub fn no_empty_str(t: &str) -> (res: Option<String>)
    ensures
        match res {
            Some(s) => non_empty(t@) == Some(s@),
            None => non_empty(t@) is None,
        },
{
    if t.is_empty() {
        None
    } else {
        Some(t.to_owned())
    }
}

} // verus!
