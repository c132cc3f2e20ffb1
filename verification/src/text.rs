//! Texts as sequences of characters: access by position, search, and
//! trimming of white space.

use vstd::prelude::*;

verus! {

/// Whether `word` stands in `s` at position `i`.
pub open spec fn has_word_at(s: Seq<char>, i: int, word: Seq<char>) -> bool {
    0 <= i && i + word.len() <= s.len() && s.subrange(i, i + word.len()) == word
}


/// Whether `s` begins with `word`.
pub open spec fn starts_with(s: Seq<char>, word: Seq<char>) -> bool {
    has_word_at(s, 0, word)
}

/// The position of the first `c` at or after `i`, or the end of the text
/// where there is none.
pub open spec fn find_char(s: Seq<char>, c: char, i: int) -> int
    decreases s.len() - i,
{
    if 0 <= i < s.len() && s[i] != c {
        find_char(s, c, i + 1)
    } else {
        i
    }
}

/// White space, as Unicode defines it (the property `White_Space`).
pub open spec fn is_space(c: char) -> bool {
    let u = c as u32;
    ||| 0x9 <= u <= 0xD
    ||| u == 0x20
    ||| u == 0x85
    ||| u == 0xA0
    ||| u == 0x1680
    ||| 0x2000 <= u <= 0x200A
    ||| u == 0x2028
    ||| u == 0x2029
    ||| u == 0x202F
    ||| u == 0x205F
    ||| u == 0x3000
}

/// The first position in `[i, end)` that holds no white space, or `end`.
pub open spec fn skip_spaces(s: Seq<char>, i: int, end: int) -> int
    decreases end - i,
{
    if 0 <= i < end <= s.len() && is_space(s[i]) {
        skip_spaces(s, i + 1, end)
    } else {
        i
    }
}

/// The position after the last character in `[start, j)` that is no white
/// space, or `start`.
pub open spec fn drop_spaces(s: Seq<char>, start: int, j: int) -> int
    decreases j - start,
{
    if 0 <= start < j <= s.len() && is_space(s[j - 1]) {
        drop_spaces(s, start, j - 1)
    } else {
        j
    }
}

/// The text without the white space at its start and at its end.
pub open spec fn trimmed(s: Seq<char>) -> Seq<char> {
    let from = skip_spaces(s, 0, s.len() as int);
    s.subrange(from, drop_spaces(s, from, s.len() as int))
}

/// `find_char` moves forward over other characters only and stays inside
/// the text.
pub proof fn lemma_find_char(s: Seq<char>, c: char, i: int)
    ensures
        i <= find_char(s, c, i),
        0 <= i <= s.len() ==> find_char(s, c, i) <= s.len(),
        forall|k: int| i <= k < find_char(s, c, i) ==> 0 <= k < s.len() && #[trigger] s[k] != c,
        0 <= find_char(s, c, i) < s.len() ==> s[find_char(s, c, i)] == c,
    decreases s.len() - i,
{
    if 0 <= i < s.len() && s[i] != c {
        lemma_find_char(s, c, i + 1);
    }
}

/// Skipping white space inside a part of a text is skipping it in the part
/// taken by itself.
pub proof fn lemma_skip_spaces_part(s: Seq<char>, start: int, end: int, i: int)
    requires
        0 <= start <= i <= end <= s.len(),
    ensures
        skip_spaces(s, i, end) == start + skip_spaces(
            s.subrange(start, end),
            i - start,
            end - start,
        ),
        i <= skip_spaces(s, i, end) <= end,
    decreases end - i,
{
    if i < end && is_space(s[i]) {
        lemma_skip_spaces_part(s, start, end, i + 1);
    }
}

/// Dropping white space at the end of a part of a text is dropping it in
/// the part taken by itself.
pub proof fn lemma_drop_spaces_part(s: Seq<char>, start: int, end: int, from: int, j: int)
    requires
        0 <= start <= from <= j <= end <= s.len(),
    ensures
        drop_spaces(s, from, j) == start + drop_spaces(
            s.subrange(start, end),
            from - start,
            j - start,
        ),
        from <= drop_spaces(s, from, j) <= j,
    decreases j - from,
{
    if from < j && is_space(s[j - 1]) {
        lemma_drop_spaces_part(s, start, end, from, j - 1);
    }
}

/// The characters of `text`, for access by position.
pub fn to_chars(text: &str) -> (r: Vec<char>)
    ensures
        r@ == text@,
{
    let mut chars: Vec<char> = Vec::new();
    for c in it: text.chars()
        invariant
            chars@ == it.seq().take(it.index() as int),
            it.seq() == text@,
    {
        chars.push(c);
    }
    chars
}


/// Whether `word` stands in `chars` at position `i`; if so, the position
/// after it.
pub fn word_at(chars: &Vec<char>, i: usize, word: &str) -> (r: Option<usize>)
    requires
        i <= chars@.len(),
    ensures
        r == if has_word_at(chars@, i as int, word@) {
            Some((i + word@.len()) as usize)
        } else {
            None
        },
        r matches Some(end) ==> end == i + word@.len() && end <= chars@.len(),
{
    let n = word.unicode_len();
    if n > chars.len() - i {
        return None;
    }
    let mut k: usize = 0;
    while k < n
        invariant
            k <= n,
            n == word@.len(),
            i + n <= chars@.len() <= usize::MAX,
            chars@.subrange(i as int, i + k) == word@.subrange(0, k as int),
        decreases n - k,
    {
        if chars[i + k] != word.get_char(k) {
            return None;
        }
        k += 1;
    }
    assert(word@.subrange(0, n as int) =~= word@);
    Some(i + n)
}

/// The position of the first `c` at or after `i`, or the number of
/// characters where there is none.
pub fn find(chars: &Vec<char>, c: char, i: usize) -> (r: usize)
    requires
        i <= chars@.len(),
    ensures
        r == find_char(chars@, c, i as int),
        i <= r <= chars@.len(),
{
    let mut j = i;
    while j < chars.len() && chars[j] != c
        invariant
            i <= j <= chars@.len(),
            find_char(chars@, c, i as int) == find_char(chars@, c, j as int),
        decreases chars@.len() - j,
    {
        j += 1;
    }
    j
}

/// Whether the character is white space.
pub fn space(c: char) -> (r: bool)
    ensures
        r == is_space(c),
{
    let u = c as u32;
    (0x9 <= u && u <= 0xD) || u == 0x20 || u == 0x85 || u == 0xA0 || u == 0x1680 || (0x2000 <= u
        && u <= 0x200A) || u == 0x2028 || u == 0x2029 || u == 0x202F || u == 0x205F || u == 0x3000
}

/// Trims the part `[start, end)` of a text: the bounds of what is left of
/// it without the white space at its start and at its end.
pub fn trim_range(chars: &Vec<char>, start: usize, end: usize) -> (r: (usize, usize))
    requires
        start <= end <= chars@.len(),
    ensures
        start <= r.0 <= r.1 <= end,
        chars@.subrange(r.0 as int, r.1 as int) == trimmed(
            chars@.subrange(start as int, end as int),
        ),
{
    let mut from = start;
    while from < end && space(chars[from])
        invariant
            start <= from <= end <= chars@.len(),
            skip_spaces(chars@, start as int, end as int) == skip_spaces(
                chars@,
                from as int,
                end as int,
            ),
        decreases end - from,
    {
        from += 1;
    }
    let mut to = end;
    while from < to && space(chars[to - 1])
        invariant
            from <= to <= end <= chars@.len(),
            drop_spaces(chars@, from as int, end as int) == drop_spaces(
                chars@,
                from as int,
                to as int,
            ),
        decreases to - from,
    {
        to -= 1;
    }
    proof {
        lemma_skip_spaces_part(chars@, start as int, end as int, start as int);
        lemma_drop_spaces_part(chars@, start as int, end as int, from as int, end as int);
    }
    (from, to)
}

} // verus!
