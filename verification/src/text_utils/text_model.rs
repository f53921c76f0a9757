//! The mathematical model of text shared by the range helpers: how many
//! UTF-8 bytes a character sequence takes, and where (line, column) a
//! prefix of a text ends, with columns counted in bytes or in characters.

use vstd::prelude::*;
use vstd::std_specs::iter::IteratorSpec;

verus! {

broadcast use vstd::string::group_string_axioms;

/// Number of UTF-8 bytes that encode `c`.
pub open spec fn char_width(c: char) -> nat {
    vstd::utf8::encode_scalar(c as u32).len()
}

/// Number of UTF-8 bytes that encode the character sequence `s`.
pub open spec fn utf8_len(s: Seq<char>) -> nat
    decreases s.len(),
{
    if s.len() == 0 {
        0
    } else {
        utf8_len(s.drop_last()) + char_width(s.last())
    }
}

/// Position reached after walking over `s` from (0, 0): a newline moves to
/// the start of the next line, any other character advances the column by
/// its UTF-8 width (tree-sitter's byte columns).
pub open spec fn byte_point_after(s: Seq<char>) -> (nat, nat)
    decreases s.len(),
{
    if s.len() == 0 {
        (0, 0)
    } else {
        let p = byte_point_after(s.drop_last());
        if s.last() == '\n' {
            (p.0 + 1, 0)
        } else {
            (p.0, p.1 + char_width(s.last()))
        }
    }
}

/// Position reached after walking over `s` from (0, 0), with the column
/// counted in characters.
pub open spec fn char_point_after(s: Seq<char>) -> (nat, nat)
    decreases s.len(),
{
    if s.len() == 0 {
        (0, 0)
    } else {
        let p = char_point_after(s.drop_last());
        if s.last() == '\n' {
            (p.0 + 1, 0)
        } else {
            (p.0, p.1 + 1)
        }
    }
}

/// Index of the first occurrence of `c` in `s`, if any.
pub open spec fn first_index_of(s: Seq<char>, c: char) -> Option<nat> {
    if exists|i: int| 0 <= i < s.len() && s[i] == c {
        let i = choose|i: int| 0 <= i < s.len() && s[i] == c && forall|j: int| 0 <= j < i ==> s[j] != c;
        Some(i as nat)
    } else {
        None
    }
}

/// Byte offset of the first occurrence of `c` in `s`, as `str::find` reports it.
pub open spec fn find_byte_offset(s: Seq<char>, c: char) -> Option<nat> {
    match first_index_of(s, c) {
        Some(i) => Some(utf8_len(s.take(i as int))),
        None => None,
    }
}

pub proof fn lemma_char_width_bounds(c: char)
    ensures
        1 <= char_width(c) <= 4,
        char_width(c) == 1 <==> (c as u32) < 0x80,
{
    vstd::utf8::char_is_scalar(c);
}

pub proof fn lemma_first_index_of(s: Seq<char>, c: char)
    ensures
        match first_index_of(s, c) {
            Some(i) => i < s.len() && s[i as int] == c && forall|j: int| 0 <= j < i ==> s[j] != c,
            None => forall|j: int| 0 <= j < s.len() ==> s[j] != c,
        },
{
    if exists|i: int| 0 <= i < s.len() && s[i] == c {
        let w = choose|i: int| 0 <= i < s.len() && s[i] == c;
        lemma_least_witness(s, c, w);
    }
}

proof fn lemma_least_witness(s: Seq<char>, c: char, w: int)
    requires
        0 <= w < s.len(),
        s[w] == c,
    ensures
        exists|i: int| 0 <= i < s.len() && s[i] == c && forall|j: int| 0 <= j < i ==> s[j] != c,
    decreases w,
{
    if exists|j: int| 0 <= j < w && s[j] == c {
        let j = choose|j: int| 0 <= j < w && s[j] == c;
        lemma_least_witness(s, c, j);
    } else {
        assert(forall|j: int| 0 <= j < w ==> s[j] != c);
    }
}

pub proof fn lemma_utf8_len_push(s: Seq<char>, c: char)
    ensures
        utf8_len(s.push(c)) == utf8_len(s) + char_width(c),
        byte_point_after(s.push(c)) == (if c == '\n' {
            (byte_point_after(s).0 + 1, 0nat)
        } else {
            (byte_point_after(s).0, byte_point_after(s).1 + char_width(c))
        }),
        char_point_after(s.push(c)) == (if c == '\n' {
            (char_point_after(s).0 + 1, 0nat)
        } else {
            (char_point_after(s).0, char_point_after(s).1 + 1)
        }),
{
    assert(s.push(c).drop_last() =~= s);
}

pub proof fn lemma_take_next(s: Seq<char>, k: int)
    requires
        0 <= k < s.len(),
    ensures
        s.take(k + 1) == s.take(k).push(s[k]),
        utf8_len(s.take(k + 1)) == utf8_len(s.take(k)) + char_width(s[k]),
{
    assert(s.take(k + 1) =~= s.take(k).push(s[k]));
    lemma_utf8_len_push(s.take(k), s[k]);
}

proof fn lemma_encode_utf8_push(s: Seq<char>, c: char)
    ensures
        vstd::utf8::encode_utf8(s.push(c)) == vstd::utf8::encode_utf8(s) + vstd::utf8::encode_scalar(
            c as u32,
        ),
    decreases s.len(),
{
    if s.len() == 0 {
        assert(s.push(c).drop_first() =~= Seq::<char>::empty());
        assert(vstd::utf8::encode_utf8(Seq::<char>::empty()) =~= Seq::<u8>::empty());
        assert(vstd::utf8::encode_utf8(s.push(c)) =~= vstd::utf8::encode_scalar(c as u32));
    } else {
        assert(s.push(c).drop_first() =~= s.drop_first().push(c));
        lemma_encode_utf8_push(s.drop_first(), c);
        assert(vstd::utf8::encode_utf8(s.push(c)) =~= vstd::utf8::encode_utf8(s)
            + vstd::utf8::encode_scalar(c as u32));
    }
}

/// The byte length that `str::len` reports is the model's UTF-8 length.
pub proof fn lemma_utf8_len_is_encoded_len(s: Seq<char>)
    ensures
        utf8_len(s) == vstd::utf8::encode_utf8(s).len(),
    decreases s.len(),
{
    if s.len() > 0 {
        lemma_utf8_len_is_encoded_len(s.drop_last());
        lemma_encode_utf8_push(s.drop_last(), s.last());
        assert(s.drop_last().push(s.last()) =~= s);
    }
}

pub proof fn lemma_utf8_len_bounds(s: Seq<char>)
    ensures
        s.len() <= utf8_len(s) <= 4 * s.len(),
    decreases s.len(),
{
    if s.len() > 0 {
        lemma_utf8_len_bounds(s.drop_last());
        lemma_char_width_bounds(s.last());
    }
}

/// Prefix lengths grow with the prefix.
pub proof fn lemma_utf8_len_take_monotone(s: Seq<char>, i: int, j: int)
    requires
        0 <= i <= j <= s.len(),
    ensures
        utf8_len(s.take(i)) <= utf8_len(s.take(j)),
        i < j ==> utf8_len(s.take(i)) < utf8_len(s.take(j)),
    decreases j - i,
{
    if i < j {
        lemma_utf8_len_take_monotone(s, i, j - 1);
        lemma_take_next(s, j - 1);
        lemma_char_width_bounds(s[j - 1]);
    }
}

/// The byte length of the whole text is that of its full prefix.
pub proof fn lemma_take_all(s: Seq<char>)
    ensures
        s.take(s.len() as int) == s,
{
    assert(s.take(s.len() as int) =~= s);
}

/// Bytes of the text after the first `k` characters.
pub proof fn lemma_utf8_len_split(s: Seq<char>, k: int)
    requires
        0 <= k <= s.len(),
    ensures
        utf8_len(s) == utf8_len(s.take(k)) + utf8_len(s.skip(k)),
    decreases s.len() - k,
{
    if k == s.len() {
        lemma_take_all(s);
        assert(s.skip(k) =~= Seq::<char>::empty());
    } else {
        lemma_utf8_len_split(s, k + 1);
        lemma_take_next(s, k);
        lemma_utf8_len_skip_first(s.skip(k));
        assert(s.skip(k).drop_first() =~= s.skip(k + 1));
        assert(s.skip(k)[0] == s[k]);
    }
}

pub proof fn lemma_utf8_len_skip_first(s: Seq<char>)
    requires
        s.len() > 0,
    ensures
        utf8_len(s) == char_width(s[0]) + utf8_len(s.drop_first()),
    decreases s.len(),
{
    if s.len() == 1 {
        assert(s.drop_last() =~= Seq::<char>::empty());
        assert(s.drop_first() =~= Seq::<char>::empty());
    } else {
        lemma_utf8_len_skip_first(s.drop_last());
        assert(s.drop_last().drop_first() =~= s.drop_first().drop_last());
        assert(s.drop_first().last() == s.last());
    }
}

/// `char::len_utf8`: the number of bytes that encode `c` in UTF-8.
pub fn char_len_utf8(c: char) -> (n: usize)
    ensures
        n == char_width(c),
        1 <= n <= 4,
{
    proof {
        vstd::utf8::char_is_scalar(c);
    }
    let v = c as u32;
    if v < 0x80 {
        1
    } else if v < 0x800 {
        2
    } else if v < 0x10000 {
        3
    } else {
        4
    }
}

/// Byte length of a text: `str::len`, stated over the model.
pub fn text_len(text: &str) -> (n: usize)
    ensures
        n == utf8_len(text@),
        text@.len() <= n,
{
    proof {
        lemma_utf8_len_is_encoded_len(text@);
        lemma_utf8_len_bounds(text@);
    }
    text.as_bytes().len()
}

/// Where the first occurrence of a character sits in a text.
pub struct CharLocation {
    /// Byte offset of the character (what `str::find` returns).
    pub byte_offset: usize,
    /// Index of the character among the text's characters.
    pub char_index: usize,
    /// Line of the character, counting newlines before it.
    pub line: usize,
    /// Byte column of the character within its line.
    pub byte_column: usize,
    /// Character column of the character within its line.
    pub char_column: usize,
}

/// The model of a [`CharLocation`] for the character at index `k`.
pub open spec fn location_at(s: Seq<char>, k: nat) -> CharLocation {
    CharLocation {
        byte_offset: utf8_len(s.take(k as int)) as usize,
        char_index: k as usize,
        line: byte_point_after(s.take(k as int)).0 as usize,
        byte_column: byte_point_after(s.take(k as int)).1 as usize,
        char_column: char_point_after(s.take(k as int)).1 as usize,
    }
}

pub proof fn lemma_points_bounded(s: Seq<char>)
    ensures
        byte_point_after(s).0 == char_point_after(s).0,
        byte_point_after(s).0 <= s.len(),
        byte_point_after(s).1 <= utf8_len(s),
        char_point_after(s).1 <= s.len(),
    decreases s.len(),
{
    if s.len() > 0 {
        lemma_points_bounded(s.drop_last());
    }
}

/// Finds the first occurrence of `c` in `text` and reports where it sits.
pub fn locate_char(text: &str, c: char) -> (r: Option<CharLocation>)
    ensures
        text@.len() <= utf8_len(text@) <= usize::MAX,
        match first_index_of(text@, c) {
            Some(k) => r == Some(location_at(text@, k)),
            None => r is None,
        },
{
    proof {
        lemma_utf8_len_is_encoded_len(text@);
        lemma_utf8_len_bounds(text@);
        lemma_first_index_of(text@, c);
    }
    let total: usize = text_len(text);
    let mut it = text.chars();
    let mut k: usize = 0;
    let mut byte_offset: usize = 0;
    let mut line: usize = 0;
    let mut byte_column: usize = 0;
    let mut char_column: usize = 0;
    loop
        invariant
            total == utf8_len(text@),
            text@.len() <= total,
            0 <= k <= text@.len(),
            it.remaining() == text@.skip(k as int),
            forall|j: int| 0 <= j < k ==> text@[j] != c,
            byte_offset == utf8_len(text@.take(k as int)),
            line == byte_point_after(text@.take(k as int)).0,
            byte_column == byte_point_after(text@.take(k as int)).1,
            char_column == char_point_after(text@.take(k as int)).1,
            match first_index_of(text@, c) {
                Some(i) => i < text@.len() && text@[i as int] == c && forall|j: int|
                    0 <= j < i ==> text@[j] != c,
                None => forall|j: int| 0 <= j < text@.len() ==> text@[j] != c,
            },
        decreases text@.len() - k,
    {
        let ghost prev = it.remaining();
        match it.next() {
            Some(ch) => {
                proof {
                    assert(prev.len() > 0);
                    assert(ch == text@[k as int]);
                    lemma_take_next(text@, k as int);
                    lemma_utf8_len_push(text@.take(k as int), ch);
                    lemma_utf8_len_take_monotone(text@, k as int + 1, text@.len() as int);
                    lemma_take_all(text@);
                    lemma_points_bounded(text@.take(k as int + 1));
                    lemma_points_bounded(text@.take(k as int));
                }
                if ch == c {
                    proof {
                        assert(first_index_of(text@, c) == Some(k as nat));
                    }
                    return Some(
                        CharLocation { byte_offset, char_index: k, line, byte_column, char_column },
                    );
                }
                let w = char_len_utf8(ch);
                byte_offset = byte_offset + w;
                if ch == '\n' {
                    line = line + 1;
                    byte_column = 0;
                    char_column = 0;
                } else {
                    byte_column = byte_column + w;
                    char_column = char_column + 1;
                }
                k = k + 1;
                proof {
                    assert(text@.skip(k as int) =~= prev.drop_first());
                }
            },
            None => {
                proof {
                    assert(prev.len() == 0);
                    assert(k == text@.len());
                }
                return None;
            },
        }
    }
}

/// Index of the first prefix of `s` (of length 0 through `s.len()`) that
/// ends at `point`, with byte columns.
pub open spec fn point_index(s: Seq<char>, point: (nat, nat)) -> Option<nat> {
    if exists|k: int| 0 <= k <= s.len() && byte_point_after(s.take(k)) == point {
        let k = choose|k: int|
            0 <= k <= s.len() && byte_point_after(s.take(k)) == point && forall|j: int|
                0 <= j < k ==> byte_point_after(s.take(j)) != point;
        Some(k as nat)
    } else {
        None
    }
}

/// Byte offset of the first prefix of `s` that ends at `point`.
pub open spec fn point_byte_offset(s: Seq<char>, point: (nat, nat)) -> Option<nat> {
    match point_index(s, point) {
        Some(k) => Some(utf8_len(s.take(k as int))),
        None => None,
    }
}

proof fn lemma_least_point(s: Seq<char>, point: (nat, nat), w: int)
    requires
        0 <= w <= s.len(),
        byte_point_after(s.take(w)) == point,
    ensures
        exists|k: int|
            0 <= k <= s.len() && byte_point_after(s.take(k)) == point && forall|j: int|
                0 <= j < k ==> byte_point_after(s.take(j)) != point,
    decreases w,
{
    if exists|j: int| 0 <= j < w && byte_point_after(s.take(j)) == point {
        let j = choose|j: int| 0 <= j < w && byte_point_after(s.take(j)) == point;
        lemma_least_point(s, point, j);
    }
}

pub proof fn lemma_point_index(s: Seq<char>, point: (nat, nat))
    ensures
        match point_index(s, point) {
            Some(k) => k <= s.len() && byte_point_after(s.take(k as int)) == point && forall|j: int|
                0 <= j < k ==> byte_point_after(s.take(j)) != point,
            None => forall|j: int| 0 <= j <= s.len() ==> byte_point_after(s.take(j)) != point,
        },
{
    if exists|k: int| 0 <= k <= s.len() && byte_point_after(s.take(k)) == point {
        let w = choose|k: int| 0 <= k <= s.len() && byte_point_after(s.take(k)) == point;
        lemma_least_point(s, point, w);
    }
}

/// Finds the byte offset at which the walk over `text` first reaches
/// (`row`, `column`), columns counted in bytes.
pub fn locate_point(text: &str, row: usize, column: usize) -> (r: Option<usize>)
    ensures
        text@.len() <= utf8_len(text@) <= usize::MAX,
        match point_byte_offset(text@, (row as nat, column as nat)) {
            Some(offset) => r == Some(offset as usize) && offset <= utf8_len(text@),
            None => r is None,
        },
{
    let ghost target = (row as nat, column as nat);
    proof {
        lemma_utf8_len_is_encoded_len(text@);
        lemma_utf8_len_bounds(text@);
        lemma_point_index(text@, target);
    }
    let total: usize = text_len(text);
    let mut it = text.chars();
    let mut k: usize = 0;
    let mut byte_offset: usize = 0;
    let mut line: usize = 0;
    let mut byte_column: usize = 0;
    loop
        invariant
            total == utf8_len(text@),
            text@.len() <= total,
            0 <= k <= text@.len(),
            it.remaining() == text@.skip(k as int),
            forall|j: int| 0 <= j < k ==> byte_point_after(text@.take(j)) != target,
            byte_offset == utf8_len(text@.take(k as int)),
            byte_offset <= total,
            line == byte_point_after(text@.take(k as int)).0,
            byte_column == byte_point_after(text@.take(k as int)).1,
            target == (row as nat, column as nat),
            match point_index(text@, target) {
                Some(i) => i <= text@.len() && byte_point_after(text@.take(i as int)) == target
                    && forall|j: int| 0 <= j < i ==> byte_point_after(text@.take(j)) != target,
                None => forall|j: int|
                    0 <= j <= text@.len() ==> byte_point_after(text@.take(j)) != target,
            },
        decreases text@.len() - k,
    {
        proof {
            lemma_utf8_len_take_monotone(text@, k as int, text@.len() as int);
            lemma_take_all(text@);
        }
        if line == row && byte_column == column {
            proof {
                assert(point_index(text@, target) == Some(k as nat));
            }
            return Some(byte_offset);
        }
        let ghost prev = it.remaining();
        match it.next() {
            Some(ch) => {
                proof {
                    assert(prev.len() > 0);
                    assert(ch == text@[k as int]);
                    lemma_take_next(text@, k as int);
                    lemma_utf8_len_push(text@.take(k as int), ch);
                    lemma_utf8_len_take_monotone(text@, k as int + 1, text@.len() as int);
                    lemma_points_bounded(text@.take(k as int + 1));
                }
                let w = char_len_utf8(ch);
                byte_offset = byte_offset + w;
                if ch == '\n' {
                    line = line + 1;
                    byte_column = 0;
                } else {
                    byte_column = byte_column + w;
                }
                k = k + 1;
                proof {
                    assert(text@.skip(k as int) =~= prev.drop_first());
                }
            },
            None => {
                proof {
                    assert(prev.len() == 0);
                    assert(k == text@.len());
                    assert(point_index(text@, target) is None);
                }
                return None;
            },
        }
    }
}

} // verus!
