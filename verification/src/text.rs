//! Text and byte helpers shared by the other modules.

use vstd::prelude::*;
use vstd::string::StringSliceAdditionalSpecFns;
use vstd::utf8::*;

verus! {

/// Lowercase form of `c` if it is an ASCII capital letter, else `c` itself.
pub open spec fn ascii_lower_char(c: char) -> char {
    if 'A' <= c && c <= 'Z' {
        ((c as u8) + 32) as char
    } else {
        c
    }
}

/// `s` with every ASCII capital letter replaced by its lowercase form.
pub open spec fn ascii_lower(s: Seq<char>) -> Seq<char> {
    Seq::new(s.len(), |i: int| ascii_lower_char(s[i]))
}

/// Lowercasing twice is lowercasing once: a lowercased text holds no ASCII
/// capital letter.
pub proof fn lemma_ascii_lower_twice(s: Seq<char>)
    ensures
        ascii_lower(ascii_lower(s)) == ascii_lower(s),
{
    assert forall|i: int| 0 <= i < s.len() implies ascii_lower_char(ascii_lower_char(s[i]))
        == ascii_lower_char(s[i]) by {
        let c = s[i];
        if 'A' <= c && c <= 'Z' {
            let l = ((c as u8) + 32) as char;
            assert('a' <= l && l <= 'z');
        }
    }
    assert(ascii_lower(ascii_lower(s)) =~= ascii_lower(s));
}

/// The text whose characters are the bytes of `b`, one character per byte.
pub open spec fn byte_chars(b: Seq<u8>) -> Seq<char> {
    Seq::new(b.len(), |i: int| b[i] as char)
}

/// The bytes of a text of ASCII characters, one byte per character.
pub open spec fn ascii_bytes(s: Seq<char>) -> Seq<u8> {
    Seq::new(s.len(), |i: int| s[i] as u8)
}

/// `s` starts with `prefix`.
pub open spec fn starts_with(s: Seq<u8>, prefix: Seq<u8>) -> bool {
    prefix.len() <= s.len() && s.take(prefix.len() as int) == prefix
}

/// What `str::to_lowercase` returns for the text `s`: its lowercase form by the
/// Unicode rules.
pub uninterp spec fn unicode_lowercase(s: Seq<char>) -> Seq<char>;

/// What `String::from_utf8_lossy` returns for the bytes `b`: the text they
/// encode, with U+FFFD in place of every malformed sequence.
pub uninterp spec fn utf8_lossy(b: Seq<u8>) -> Seq<char>;

/// Calls `String::push`, which appends one character to the string.
#[verifier::external_body]
pub(crate) fn push_char(s: &mut String, c: char)
    ensures
        final(s)@ == old(s)@.push(c),
{
    s.push(c)
}

/// Calls `str::to_lowercase`. The result depends on the text alone; it is
/// known here only by its name, `unicode_lowercase`.
#[verifier::external_body]
pub(crate) fn to_lowercase(s: &str) -> (lower: String)
    ensures
        lower@ == unicode_lowercase(s@),
{
    s.to_lowercase()
}

/// Calls `String::from_utf8_lossy` and takes ownership of what it returns.
/// Well-formed UTF-8 is decoded as it stands; for other input the result is
/// known only by its name, `utf8_lossy`.
#[verifier::external_body]
pub(crate) fn from_utf8_lossy(bytes: &[u8]) -> (text: String)
    ensures
        text@ == utf8_lossy(bytes@),
        valid_utf8(bytes@) ==> text@ == decode_utf8(bytes@),
{
    String::from_utf8_lossy(bytes).into_owned()
}

/// Tells whether two byte slices hold the same bytes.
pub fn bytes_eq(a: &[u8], b: &[u8]) -> (same: bool)
    ensures
        same == (a@ == b@),
{
    if a.len() != b.len() {
        return false;
    }
    let mut i: usize = 0;
    while i < a.len()
        invariant
            a@.len() == b@.len(),
            i <= a@.len(),
            a@.take(i as int) == b@.take(i as int),
        decreases a@.len() - i,
    {
        if a[i] != b[i] {
            return false;
        }
        proof {
            assert(a@.take(i + 1) == a@.take(i as int).push(a@[i as int]));
            assert(b@.take(i + 1) == b@.take(i as int).push(b@[i as int]));
        }
        i = i + 1;
    }
    proof {
        assert(a@.take(a@.len() as int) == a@);
        assert(b@.take(b@.len() as int) == b@);
    }
    true
}

/// Tells whether two strings hold the same text.
pub fn str_eq(a: &str, b: &str) -> (same: bool)
    ensures
        same == (a@ == b@),
{
    proof {
        encode_utf8_decode_utf8(a@);
        encode_utf8_decode_utf8(b@);
    }
    bytes_eq(a.as_bytes(), b.as_bytes())
}

/// Tells whether `s` starts with the bytes of `prefix`.
pub fn bytes_start_with(s: &[u8], prefix: &[u8]) -> (yes: bool)
    ensures
        yes == starts_with(s@, prefix@),
{
    if prefix.len() > s.len() {
        return false;
    }
    let mut i: usize = 0;
    while i < prefix.len()
        invariant
            prefix@.len() <= s@.len(),
            i <= prefix@.len(),
            s@.take(i as int) == prefix@.take(i as int),
        decreases prefix@.len() - i,
    {
        if s[i] != prefix[i] {
            proof {
                assert(s@.take(prefix@.len() as int)[i as int] != prefix@[i as int]);
            }
            return false;
        }
        proof {
            assert(s@.take(i + 1) == s@.take(i as int).push(s@[i as int]));
            assert(prefix@.take(i + 1) == prefix@.take(i as int).push(prefix@[i as int]));
        }
        i = i + 1;
    }
    proof {
        assert(prefix@.take(prefix@.len() as int) == prefix@);
    }
    true
}

/// The bytes of a text of ASCII characters.
pub(crate) fn literal_bytes(text: &'static str) -> (bytes: &'static [u8])
    requires
        is_ascii_chars(text@),
    ensures
        bytes@ == ascii_bytes(text@),
{
    proof {
        is_ascii_chars_encode_utf8(text@);
        assert(text.spec_bytes() =~= ascii_bytes(text@));
    }
    text.as_bytes()
}

/// Copies a string.
pub(crate) fn copy_str(s: &str) -> (copy: String)
    ensures
        copy@ == s@,
{
    s.to_owned()
}

/// Lowercases the ASCII capital letters of `s` and leaves every other
/// character as it is.
pub fn to_ascii_lowercase(s: &str) -> (lower: String)
    ensures
        lower@ == ascii_lower(s@),
{
    let mut out = String::new();
    for c in it: s.chars()
        invariant
            it.seq() == s@,
            out@ == ascii_lower(s@.take(it.index() as int)),
    {
        let lc: char = if 'A' <= c && c <= 'Z' {
            ((c as u8) + 32) as char
        } else {
            c
        };
        push_char(&mut out, lc);
        assert(s@.take(it.index() + 1) == s@.take(it.index() as int).push(c));
    }
    assert(s@.take(s@.len() as int) == s@);
    out
}

/// The text of `b`, one character per byte.
pub fn bytes_to_text(b: &[u8]) -> (text: String)
    ensures
        text@ == byte_chars(b@),
{
    let mut out = String::new();
    let mut i: usize = 0;
    while i < b.len()
        invariant
            i <= b@.len(),
            out@ == byte_chars(b@.take(i as int)),
        decreases b@.len() - i,
    {
        push_char(&mut out, b[i] as char);
        proof {
            assert(b@.take(i + 1) == b@.take(i as int).push(b@[i as int]));
        }
        i = i + 1;
    }
    proof {
        assert(b@.take(b@.len() as int) == b@);
    }
    out
}

/// The pieces of `s` between occurrences of `sep`, in order. There is always
/// at least one piece; a piece is empty where two separators meet or where
/// `s` starts or ends with one.
pub open spec fn split_on(s: Seq<char>, sep: char) -> Seq<Seq<char>>
    decreases s.len(),
{
    if s.len() == 0 {
        seq![Seq::<char>::empty()]
    } else {
        let before = split_on(s.drop_last(), sep);
        if s.last() == sep {
            before.push(Seq::<char>::empty())
        } else {
            before.drop_last().push(before.last().push(s.last()))
        }
    }
}

/// `split_on` never returns an empty list.
pub proof fn lemma_split_on_nonempty(s: Seq<char>, sep: char)
    ensures
        split_on(s, sep).len() >= 1,
    decreases s.len(),
{
    if s.len() > 0 {
        lemma_split_on_nonempty(s.drop_last(), sep);
    }
}

/// The pieces put together again, with `sep` between them.
pub open spec fn join_with(pieces: Seq<Seq<char>>, sep: char) -> Seq<char>
    decreases pieces.len(),
{
    if pieces.len() == 0 {
        Seq::empty()
    } else if pieces.len() == 1 {
        pieces[0]
    } else {
        join_with(pieces.drop_last(), sep).push(sep) + pieces.last()
    }
}

/// Splitting loses nothing and leaves no separator behind: the pieces,
/// joined with the separator, are the text again, and no piece holds the
/// separator.
pub proof fn lemma_split_on_joins_back(s: Seq<char>, sep: char)
    ensures
        join_with(split_on(s, sep), sep) == s,
        forall|i: int, j: int|
            0 <= i < split_on(s, sep).len() && 0 <= j < split_on(s, sep)[i].len() ==> split_on(
                s,
                sep,
            )[i][j] != sep,
    decreases s.len(),
{
    let pieces = split_on(s, sep);
    if s.len() == 0 {
        assert(pieces.len() == 1);
        assert(join_with(pieces, sep) == Seq::<char>::empty());
    } else {
        let front = s.drop_last();
        let before = split_on(front, sep);
        lemma_split_on_joins_back(front, sep);
        lemma_split_on_nonempty(front, sep);
        if s.last() == sep {
            assert(pieces == before.push(Seq::<char>::empty()));
            assert(pieces.drop_last() == before);
            assert(join_with(pieces, sep) == join_with(before, sep).push(sep) + Seq::<
                char,
            >::empty());
            assert(front.push(sep) == s);
            assert forall|i: int, j: int|
                0 <= i < pieces.len() && 0 <= j < pieces[i].len() implies pieces[i][j] != sep by {
                assert(pieces[i] == before[i]);
            }
        } else {
            let grown = before.last().push(s.last());
            assert(pieces == before.drop_last().push(grown));
            assert(pieces.drop_last() == before.drop_last());
            if before.len() == 1 {
                assert(join_with(before, sep) == before[0]);
                assert(join_with(pieces, sep) == grown);
            } else {
                assert(join_with(before, sep) == join_with(before.drop_last(), sep).push(sep)
                    + before.last());
                assert(join_with(pieces, sep) == join_with(before.drop_last(), sep).push(sep)
                    + grown);
                assert(join_with(before.drop_last(), sep).push(sep) + grown == (join_with(
                    before.drop_last(),
                    sep,
                ).push(sep) + before.last()).push(s.last()));
            }
            assert(front.push(s.last()) == s);
            assert forall|i: int, j: int|
                0 <= i < pieces.len() && 0 <= j < pieces[i].len() implies pieces[i][j] != sep by {
                if i < pieces.len() - 1 {
                    assert(pieces[i] == before[i]);
                } else if j < before.last().len() {
                    assert(pieces[i][j] == before[before.len() - 1][j]);
                }
            }
        }
    }
}

/// The views of the strings of `v`, in order.
pub open spec fn texts(v: Seq<String>) -> Seq<Seq<char>> {
    Seq::new(v.len(), |i: int| v[i]@)
}

/// Splits `s` at every occurrence of `sep`.
pub fn split(s: &str, sep: char) -> (pieces: Vec<String>)
    ensures
        texts(pieces@) == split_on(s@, sep),
{
    let mut done: Vec<String> = Vec::new();
    let mut current = String::new();
    proof {
        assert(texts(done@).push(current@) =~= split_on(s@.take(0), sep));
    }
    for c in it: s.chars()
        invariant
            it.seq() == s@,
            texts(done@).push(current@) == split_on(s@.take(it.index() as int), sep),
    {
        proof {
            let prev = s@.take(it.index() as int);
            let next = s@.take(it.index() + 1);
            assert(next.drop_last() == prev);
            assert(next.last() == c);
            assert(texts(done@).push(current@).drop_last() == texts(done@));
        }
        if c == sep {
            let ghost before = texts(done@);
            done.push(current);
            current = String::new();
            proof {
                assert(texts(done@) == before.push(done@.last()@));
            }
        } else {
            push_char(&mut current, c);
        }
    }
    proof {
        assert(s@.take(s@.len() as int) == s@);
    }
    let ghost before = texts(done@);
    done.push(current);
    proof {
        assert(texts(done@) == before.push(done@.last()@));
    }
    done
}

} // verus!
