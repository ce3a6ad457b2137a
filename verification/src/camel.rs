//! Finding the camel-case components at the start and at the end of a
//! name. Positions are byte offsets into the name's UTF-8 text.

use vstd::prelude::*;
use vstd::string::*;
use crate::text::chars_of;

verus! {

/// Whether the character has the Unicode property `Uppercase`, as
/// `char::is_uppercase` tells it.
pub uninterp spec fn char_is_uppercase(c: char) -> bool;

/// Whether the character has the Unicode property `Lowercase`, as
/// `char::is_lowercase` tells it.
pub uninterp spec fn char_is_lowercase(c: char) -> bool;

/// Asks `char::is_uppercase`. The result is `true` exactly for the
/// characters with the Unicode property `Uppercase`.
#[verifier::external_body]
fn is_uppercase(c: char) -> (r: bool)
    ensures
        r == char_is_uppercase(c),
{
    c.is_uppercase()
}

/// Asks `char::is_lowercase`. The result is `true` exactly for the
/// characters with the Unicode property `Lowercase`.
#[verifier::external_body]
fn is_lowercase(c: char) -> (r: bool)
    ensures
        r == char_is_lowercase(c),
{
    c.is_lowercase()
}

/// What the scans read of one character: its case, and the number of
/// bytes it takes in UTF-8.
#[derive(Clone, Copy, Debug, PartialEq, Eq, Structural)]
pub struct Letter {
    pub upper: bool,
    pub lower: bool,
    pub width: usize,
}

/// The number of bytes that the character takes in UTF-8.
pub open spec fn width_of(c: char) -> int {
    if (c as u32) < 0x80 {
        1
    } else if (c as u32) < 0x800 {
        2
    } else if (c as u32) < 0x10000 {
        3
    } else {
        4
    }
}

/// What the scans read of the character `c`.
pub open spec fn letter_of(c: char) -> Letter {
    Letter { upper: char_is_uppercase(c), lower: char_is_lowercase(c), width: width_of(c) as usize }
}

/// What the scans read of the characters of `s`.
pub open spec fn letters_of(s: Seq<char>) -> Seq<Letter> {
    s.map_values(|c: char| letter_of(c))
}

/// The byte offset at which the letter `k` starts: the sum of the widths
/// of the letters before it.
pub open spec fn byte_index(letters: Seq<Letter>, k: int) -> int
    decreases k,
{
    if k <= 0 {
        0
    } else {
        byte_index(letters, k - 1) + letters[k - 1].width
    }
}

proof fn lemma_byte_index_grows(letters: Seq<Letter>, j: int, k: int)
    requires
        0 <= j <= k,
    ensures
        byte_index(letters, j) <= byte_index(letters, k),
    decreases k - j,
{
    if j < k {
        lemma_byte_index_grows(letters, j, k - 1);
    }
}

proof fn lemma_byte_index_shift(s: Seq<char>, k: int)
    requires
        1 <= k <= s.len(),
    ensures
        byte_index(letters_of(s), k) == width_of(s[0]) + byte_index(letters_of(s.drop_first()), k - 1),
    decreases k,
{
    let all = letters_of(s);
    let rest = letters_of(s.drop_first());
    if k > 1 {
        lemma_byte_index_shift(s, k - 1);
        assert(rest[k - 2] == all[k - 1]);
        assert(byte_index(all, k) == byte_index(all, k - 1) + all[k - 1].width);
        assert(byte_index(rest, k - 1) == byte_index(rest, k - 2) + rest[k - 2].width);
    } else {
        assert(byte_index(all, 1) == byte_index(all, 0) + all[0].width);
        assert(byte_index(all, 0) == 0);
        assert(byte_index(rest, 0) == 0);
    }
}

/// The byte offset behind the last character is the length of the UTF-8
/// text.
proof fn lemma_encoded_len(s: Seq<char>)
    ensures
        vstd::utf8::encode_utf8(s).len() == byte_index(letters_of(s), s.len() as int),
    decreases s.len(),
{
    if s.len() > 0 {
        lemma_encoded_len(s.drop_first());
        lemma_byte_index_shift(s, s.len() as int);
        vstd::utf8::char_is_scalar(s[0]);
    }
}

/// The length of the text in bytes.
fn byte_len(s: &str) -> (n: usize)
    ensures
        n == byte_index(letters_of(s@), s@.len() as int),
{
    proof {
        lemma_encoded_len(s@);
    }
    s.as_bytes().len()
}

fn utf8_width(c: char) -> (w: usize)
    ensures
        w == width_of(c),
{
    let code = c as u32;
    if code < 0x80 {
        1
    } else if code < 0x800 {
        2
    } else if code < 0x10000 {
        3
    } else {
        4
    }
}

/// Reads the case and the width of each character of `s`.
pub fn classify(s: &str) -> (letters: Vec<Letter>)
    ensures
        letters@ == letters_of(s@),
        byte_index(letters@, letters@.len() as int) <= usize::MAX,
{
    let chars = chars_of(s);
    let n = chars.len();
    let mut letters: Vec<Letter> = Vec::new();
    let mut k: usize = 0;
    while k < n
        invariant
            k <= n == chars.len(),
            chars@ == s@,
            letters@ == letters_of(s@).take(k as int),
        decreases n - k,
    {
        let c = chars[k];
        letters.push(Letter { upper: is_uppercase(c), lower: is_lowercase(c), width: utf8_width(c) });
        assert(letters@ =~= letters_of(s@).take(k + 1));
        k += 1;
    }
    assert(letters_of(s@).take(n as int) =~= letters_of(s@));
    // The widths add up to the length of the text in bytes.
    let _ = byte_len(s);
    letters
}

/// The scan of `camel_until` from the letter `k` on: `up` tells whether
/// the last letter was an uppercase one, and `last` is where the last
/// component began.
pub open spec fn until_from(letters: Seq<Letter>, k: int, up: bool, last: int) -> int
    decreases letters.len() - k,
{
    if k < 0 || k >= letters.len() {
        if up {
            last
        } else {
            byte_index(letters, letters.len() as int)
        }
    } else if up {
        if letters[k].lower {
            until_from(letters, k + 1, false, last)
        } else {
            last
        }
    } else if letters[k].upper {
        until_from(letters, k + 1, true, byte_index(letters, k))
    } else if !letters[k].lower {
        byte_index(letters, k)
    } else {
        until_from(letters, k + 1, false, last)
    }
}

/// The byte offset behind the camel-case components with which a name of
/// the given letters begins: 0 if the name does not begin with an
/// uppercase letter; else the offset of the first letter that is neither
/// uppercase nor lowercase, or of the last component if that is an
/// uppercase letter alone or followed by another uppercase letter, or the
/// length of the name.
pub open spec fn camel_until_spec(letters: Seq<Letter>) -> int {
    if letters.len() == 0 || !letters[0].upper {
        0
    } else {
        until_from(letters, 1, true, 0)
    }
}

/// Finds the end of the camel-case components at the start of a name,
/// given what `classify` read of it.
pub fn camel_until(letters: &Vec<Letter>) -> (r: usize)
    requires
        byte_index(letters@, letters@.len() as int) <= usize::MAX,
    ensures
        r == camel_until_spec(letters@),
{
    let n = letters.len();
    if n == 0 || !letters[0].upper {
        return 0;
    }
    proof {
        lemma_byte_index_grows(letters@, 1, n as int);
    }
    let mut up = true;
    let mut last_i: usize = 0;
    let mut i: usize = letters[0].width;
    let mut k: usize = 1;
    assert(byte_index(letters@, 1) == byte_index(letters@, 0) + letters@[0].width);
    while k < n
        invariant
            1 <= k <= n == letters.len(),
            letters@[0].upper,
            byte_index(letters@, n as int) <= usize::MAX,
            i == byte_index(letters@, k as int),
            0 <= last_i <= i,
            until_from(letters@, k as int, up, last_i as int) == until_from(letters@, 1, true, 0),
        decreases n - k,
    {
        let c = letters[k];
        proof {
            lemma_byte_index_grows(letters@, k + 1, n as int);
        }
        if up {
            if c.lower {
                up = false;
            } else {
                return last_i;
            }
        } else if c.upper {
            up = true;
            last_i = i;
        } else if !c.lower {
            return i;
        }
        i += c.width;
        k += 1;
    }
    if up {
        last_i
    } else {
        i
    }
}

/// Return the index of the character after the first camel-case component
/// of `s`.
pub fn camel_case_until(s: &str) -> (r: usize)
    ensures
        r == camel_until_spec(letters_of(s@)),
{
    let letters = classify(s);
    camel_until(&letters)
}

/// The scan of `camel_from` backwards from the letter before `k`: `down`
/// tells whether the last letter seen was a lowercase one, and `last` is
/// where the last component seen begins.
pub open spec fn from_before(letters: Seq<Letter>, k: int, down: bool, last: int) -> int
    decreases k,
{
    if k <= 0 || k > letters.len() {
        last
    } else if down {
        if letters[k - 1].upper {
            from_before(letters, k - 1, false, byte_index(letters, k - 1))
        } else if !letters[k - 1].lower {
            last
        } else {
            from_before(letters, k - 1, true, last)
        }
    } else if letters[k - 1].lower {
        from_before(letters, k - 1, true, last)
    } else {
        last
    }
}

/// The byte offset at which the camel-case components begin with which a
/// name of the given letters ends: the length of the name if it does not
/// end in a lowercase letter.
pub open spec fn camel_from_spec(letters: Seq<Letter>) -> int {
    let end = byte_index(letters, letters.len() as int);
    if letters.len() == 0 || !letters.last().lower {
        end
    } else {
        from_before(letters, letters.len() - 1, true, end)
    }
}

/// Finds the start of the camel-case components at the end of a name,
/// given what `classify` read of it.
pub fn camel_from(letters: &Vec<Letter>) -> (r: usize)
    requires
        byte_index(letters@, letters@.len() as int) <= usize::MAX,
    ensures
        r == camel_from_spec(letters@),
{
    let n = letters.len();
    let mut offsets: Vec<usize> = Vec::new();
    let mut total: usize = 0;
    let mut j: usize = 0;
    while j < n
        invariant
            j <= n == letters.len(),
            byte_index(letters@, n as int) <= usize::MAX,
            offsets.len() == j,
            total == byte_index(letters@, j as int),
            forall|t: int| 0 <= t < j ==> #[trigger] offsets[t] == byte_index(letters@, t),
        decreases n - j,
    {
        proof {
            lemma_byte_index_grows(letters@, j + 1, n as int);
        }
        offsets.push(total);
        total += letters[j].width;
        j += 1;
    }
    if n == 0 || !letters[n - 1].lower {
        return total;
    }
    let mut down = true;
    let mut last_i = total;
    let mut k: usize = n - 1;
    while k > 0
        invariant
            k < n == letters.len(),
            letters@[n - 1].lower,
            offsets.len() == n,
            forall|t: int| 0 <= t < n ==> #[trigger] offsets[t] == byte_index(letters@, t),
            from_before(letters@, k as int, down, last_i as int) == from_before(
                letters@,
                n - 1,
                true,
                byte_index(letters@, n as int),
            ),
        decreases k,
    {
        let c = letters[k - 1];
        if down {
            if c.upper {
                down = false;
                last_i = offsets[k - 1];
            } else if !c.lower {
                return last_i;
            }
        } else if c.lower {
            down = true;
        } else {
            return last_i;
        }
        k -= 1;
    }
    last_i
}

/// Return index of the last camel-case component of `s`.
pub fn camel_case_from(s: &str) -> (r: usize)
    ensures
        r == camel_from_spec(letters_of(s@)),
{
    let letters = classify(s);
    camel_from(&letters)
}

/// Whether no letter is both an uppercase and a lowercase one.
pub open spec fn single_cased(letters: Seq<Letter>) -> bool {
    forall|i: int| 0 <= i < letters.len() ==> !((#[trigger] letters[i]).upper && letters[i].lower)
}

/// Whether every letter at the positions `a..b` is an uppercase or a
/// lowercase one, and no two uppercase letters stand side by side.
pub open spec fn cased_run(letters: Seq<Letter>, a: int, b: int) -> bool {
    &&& forall|i: int| a <= i < b ==> (#[trigger] letters[i]).upper || letters[i].lower
    &&& forall|i: int| a <= i && i + 1 < b ==> !((#[trigger] letters[i]).upper && letters[i + 1].upper)
}

/// Whether the letters at the positions `a..b` are camel-case components:
/// none at all, or cased letters that begin with an uppercase one and end
/// with a lowercase one, without two uppercase letters side by side.
pub open spec fn camel_run(letters: Seq<Letter>, a: int, b: int) -> bool {
    a == b || (a < b && letters[a].upper && letters[b - 1].lower && cased_run(letters, a, b))
}

proof fn lemma_until_from(letters: Seq<Letter>, k: int, up: bool, j: int)
    requires
        single_cased(letters),
        1 <= k <= letters.len(),
        0 <= j <= k,
        letters[0].upper,
        cased_run(letters, 0, k),
        camel_run(letters, 0, j),
        up ==> letters[k - 1].upper && j == k - 1,
        !up ==> letters[k - 1].lower,
    ensures
        exists|m: int|
            0 <= m <= letters.len() && until_from(letters, k, up, byte_index(letters, j)) == #[trigger] byte_index(
                letters,
                m,
            ) && camel_run(letters, 0, m),
    decreases letters.len() - k,
{
    let n = letters.len() as int;
    let last = byte_index(letters, j);
    if k >= n {
        if up {
            assert(until_from(letters, k, up, last) == byte_index(letters, j));
        } else {
            assert(until_from(letters, k, up, last) == byte_index(letters, n));
            assert(camel_run(letters, 0, n));
        }
    } else if up {
        if letters[k].lower {
            assert(cased_run(letters, 0, k + 1));
            lemma_until_from(letters, k + 1, false, j);
        } else {
            assert(until_from(letters, k, up, last) == byte_index(letters, j));
        }
    } else if letters[k].upper {
        assert(!letters[k - 1].upper);
        assert(cased_run(letters, 0, k + 1));
        assert(camel_run(letters, 0, k));
        lemma_until_from(letters, k + 1, true, k);
    } else if !letters[k].lower {
        assert(until_from(letters, k, up, last) == byte_index(letters, k));
        assert(camel_run(letters, 0, k));
    } else {
        assert(!letters[k - 1].upper);
        assert(cased_run(letters, 0, k + 1));
        lemma_until_from(letters, k + 1, false, j);
    }
}

/// What `camel_until` finds: the offset behind a prefix of the name that
/// consists of camel-case components. The prefix holds cased letters
/// only, begins with an uppercase letter, ends with a lowercase one, and
/// has no two uppercase letters side by side; or it is empty.
pub proof fn lemma_camel_until(letters: Seq<Letter>)
    requires
        single_cased(letters),
    ensures
        exists|m: int|
            0 <= m <= letters.len() && camel_until_spec(letters) == #[trigger] byte_index(letters, m)
                && camel_run(letters, 0, m),
{
    if letters.len() == 0 || !letters[0].upper {
        assert(camel_until_spec(letters) == byte_index(letters, 0));
        assert(camel_run(letters, 0, 0));
    } else {
        assert(byte_index(letters, 0) == 0);
        lemma_until_from(letters, 1, true, 0);
    }
}

proof fn lemma_from_before(letters: Seq<Letter>, k: int, down: bool, j: int)
    requires
        single_cased(letters),
        0 <= k < letters.len(),
        k <= j <= letters.len(),
        letters[letters.len() - 1].lower,
        cased_run(letters, k, letters.len() as int),
        camel_run(letters, j, letters.len() as int),
        down ==> letters[k].lower,
        !down ==> letters[k].upper && j == k,
    ensures
        exists|m: int|
            0 <= m <= letters.len() && from_before(letters, k, down, byte_index(letters, j)) == #[trigger] byte_index(
                letters,
                m,
            ) && camel_run(letters, m, letters.len() as int),
    decreases k,
{
    let n = letters.len() as int;
    let last = byte_index(letters, j);
    if k <= 0 {
        assert(from_before(letters, k, down, last) == byte_index(letters, j));
    } else if down {
        if letters[k - 1].upper {
            assert(!letters[k].upper);
            assert(cased_run(letters, k - 1, n));
            assert(camel_run(letters, k - 1, n));
            lemma_from_before(letters, k - 1, false, k - 1);
        } else if !letters[k - 1].lower {
            assert(from_before(letters, k, down, last) == byte_index(letters, j));
        } else {
            assert(cased_run(letters, k - 1, n));
            lemma_from_before(letters, k - 1, true, j);
        }
    } else if letters[k - 1].lower {
        assert(!letters[k - 1].upper);
        assert(cased_run(letters, k - 1, n));
        lemma_from_before(letters, k - 1, true, j);
    } else {
        assert(from_before(letters, k, down, last) == byte_index(letters, j));
    }
}

/// What `camel_from` finds: the offset in front of a suffix of the name
/// that consists of camel-case components. The suffix holds cased letters
/// only, begins with an uppercase letter, ends with a lowercase one, and
/// has no two uppercase letters side by side; or it is empty.
pub proof fn lemma_camel_from(letters: Seq<Letter>)
    requires
        single_cased(letters),
    ensures
        exists|m: int|
            0 <= m <= letters.len() && camel_from_spec(letters) == #[trigger] byte_index(letters, m)
                && camel_run(letters, m, letters.len() as int),
{
    let n = letters.len() as int;
    if n == 0 || !letters.last().lower {
        assert(camel_from_spec(letters) == byte_index(letters, n));
        assert(camel_run(letters, n, n));
    } else {
        assert(camel_run(letters, n, n));
        assert(cased_run(letters, n - 1, n));
        lemma_from_before(letters, n - 1, true, n);
    }
}

} // verus!
