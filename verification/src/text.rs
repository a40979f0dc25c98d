//! Strings as sequences of characters: comparison, search, splitting, joining,
//! padding.
use vstd::prelude::*;
use vstd::string::*;

verus! {

/// The contents of a list of strings.
pub open spec fn texts(v: Seq<String>) -> Seq<Seq<char>> {
    v.map_values(|s: String| s@)
}

/// `String::push` appends the given character to the end of the string.
pub assume_specification[ String::push ](s: &mut String, c: char)
    ensures
        final(s)@ == old(s)@.push(c),
;

/// The characters of a string.
pub fn chars_of(s: &str) -> (r: Vec<char>)
    ensures
        r@ == s@,
{
    let mut r: Vec<char> = Vec::new();
    for c in it: s.chars()
        invariant
            r@ == it.seq().take(it.index() as int),
            it.seq() == s@,
    {
        r.push(c);
        assert(it.seq().take(it.index() + 1) =~= it.seq().take(it.index() as int).push(c));
    }
    assert(s@.take(s@.len() as int) =~= s@);
    r
}

/// The string made of the given characters, from `from` up to `to`.
pub fn text_of(v: &Vec<char>, from: usize, to: usize) -> (r: String)
    requires
        from <= to <= v@.len(),
    ensures
        r@ == v@.subrange(from as int, to as int),
{
    let mut r: String = String::new();
    let mut i: usize = from;
    while i < to
        invariant
            from <= i <= to <= v@.len(),
            r@ == v@.subrange(from as int, i as int),
        decreases to - i,
    {
        r.push(v[i]);
        i = i + 1;
        assert(v@.subrange(from as int, i as int) == v@.subrange(from as int, i - 1).push(
            v@[i - 1],
        ));
    }
    r
}

/// Whether `v` holds the characters of `p` from position `at` on.
pub open spec fn holds_at(v: Seq<char>, p: Seq<char>, at: int) -> bool {
    0 <= at && at + p.len() <= v.len() && v.subrange(at, at + p.len()) == p
}

/// Whether `v` holds the characters of `p` from position `at` on.
fn matches_at(v: &Vec<char>, p: &Vec<char>, at: usize) -> (r: bool)
    ensures
        r == holds_at(v@, p@, at as int),
{
    if p.len() > v.len() || at > v.len() - p.len() {
        return false;
    }
    let mut i: usize = 0;
    while i < p.len()
        invariant
            i <= p@.len(),
            at + p.len() <= v.len(),
            forall|j: int| 0 <= j < i ==> v@[at + j] == p@[j],
        decreases p@.len() - i,
    {
        if v[at + i] != p[i] {
            assert(v@.subrange(at as int, at + p@.len())[i as int] != p@[i as int]);
            return false;
        }
        i = i + 1;
    }
    assert(v@.subrange(at as int, at + p@.len()) =~= p@);
    true
}

/// Whether two strings are equal.
pub fn same(a: &str, b: &str) -> (r: bool)
    ensures
        r == (a@ == b@),
{
    let v: Vec<char> = chars_of(a);
    let p: Vec<char> = chars_of(b);
    assert(v@.len() == p@.len() ==> v@.subrange(0, v@.len() as int) == v@);
    v.len() == p.len() && matches_at(&v, &p, 0)
}

/// Whether `p` occurs somewhere in `s`.
pub open spec fn contains_text(s: Seq<char>, p: Seq<char>) -> bool {
    exists|i: int| holds_at(s, p, i)
}

/// Whether `p` occurs somewhere in `s`.
pub fn contains(s: &str, p: &str) -> (r: bool)
    ensures
        r == contains_text(s@, p@),
{
    let v: Vec<char> = chars_of(s);
    let q: Vec<char> = chars_of(p);
    let mut i: usize = 0;
    while i < v.len()
        invariant
            i <= v@.len(),
            v@ == s@,
            q@ == p@,
            forall|j: int| 0 <= j < i ==> !holds_at(v@, q@, j),
        decreases v@.len() - i,
    {
        if matches_at(&v, &q, i) {
            return true;
        }
        i = i + 1;
    }
    if matches_at(&v, &q, i) {
        return true;
    }
    assert forall|j: int| !holds_at(s@, p@, j) by {
        if 0 <= j && j + p@.len() <= s@.len() && j >= i {
            assert(j == i);
        }
    }
    false
}

/// Whether `s` begins with `p`.
pub open spec fn begins_with(s: Seq<char>, p: Seq<char>) -> bool {
    holds_at(s, p, 0)
}

/// Whether `s` begins with `p`.
pub fn starts_with(s: &str, p: &str) -> (r: bool)
    ensures
        r == begins_with(s@, p@),
{
    matches_at(&chars_of(s), &chars_of(p), 0)
}

/// What follows the prefix `p` in `s`, if `s` begins with it.
pub fn strip_prefix(s: &str, p: &str) -> (r: Option<String>)
    ensures
        r is Some <==> begins_with(s@, p@),
        r matches Some(rest) ==> s@ == p@ + rest@,
        r matches Some(rest) ==> rest@ == s@.skip(p@.len() as int),
{
    let v: Vec<char> = chars_of(s);
    let q: Vec<char> = chars_of(p);
    if matches_at(&v, &q, 0) {
        let n: usize = q.len();
        let rest: String = text_of(&v, n, v.len());
        assert(s@ == p@ + rest@) by {
            assert(s@ =~= s@.subrange(0, n as int) + s@.subrange(n as int, s@.len() as int));
        }
        Some(rest)
    } else {
        None
    }
}

/// The characters with the Unicode property White_Space.
pub open spec fn white_space(c: char) -> bool {
    let u = c as u32;
    ||| 0x9 <= u <= 0xD
    ||| u == 0x20
    ||| u == 0x85
    ||| u == 0xA0
    ||| u == 0x1680
    ||| 0x2000 <= u <= 0x200A
    ||| u == 0x2028
    ||| u == 0x2029
    ||| u == 0x202F
    ||| u == 0x205F
    ||| u == 0x3000
}

pub fn is_white_space(c: char) -> (r: bool)
    ensures
        r == white_space(c),
{
    let u: u32 = c as u32;
    (0x9 <= u && u <= 0xD) || u == 0x20 || u == 0x85 || u == 0xA0 || u == 0x1680 || (0x2000 <= u
        && u <= 0x200A) || u == 0x2028 || u == 0x2029 || u == 0x202F || u == 0x205F || u == 0x3000
}

/// `s` without the white space at its start.
pub open spec fn trim_start_of(s: Seq<char>) -> Seq<char>
    decreases s.len(),
{
    if s.len() > 0 && white_space(s[0]) {
        trim_start_of(s.skip(1))
    } else {
        s
    }
}

/// `s` without the white space at its end.
pub open spec fn trim_end_of(s: Seq<char>) -> Seq<char>
    decreases s.len(),
{
    if s.len() > 0 && white_space(s.last()) {
        trim_end_of(s.drop_last())
    } else {
        s
    }
}

/// `s` without the white space at either end.
pub open spec fn trimmed(s: Seq<char>) -> Seq<char> {
    trim_end_of(trim_start_of(s))
}

/// `s` without the white space at either end.
pub fn trim(s: &str) -> (r: String)
    ensures
        r@ == trimmed(s@),
{
    let v: Vec<char> = chars_of(s);
    let mut from: usize = 0;
    assert(v@.skip(0) == s@);
    while from < v.len() && is_white_space(v[from])
        invariant
            from <= v@.len(),
            trim_start_of(v@.skip(from as int)) == trim_start_of(s@),
        decreases v@.len() - from,
    {
        assert(v@.skip(from as int).skip(1) == v@.skip(from + 1));
        from = from + 1;
    }
    assert(trim_start_of(v@.skip(from as int)) == v@.skip(from as int));
    let ghost body = v@.skip(from as int);
    let mut to: usize = v.len();
    assert(v@.subrange(from as int, to as int) == body);
    while to > from && is_white_space(v[to - 1])
        invariant
            from <= to <= v@.len(),
            trim_end_of(v@.subrange(from as int, to as int)) == trim_end_of(body),
        decreases to - from,
    {
        assert(v@.subrange(from as int, to as int).drop_last() == v@.subrange(
            from as int,
            to - 1,
        ));
        to = to - 1;
    }
    text_of(&v, from, to)
}

/// `s` without the slashes at its end.
pub open spec fn without_slashes(s: Seq<char>) -> Seq<char>
    decreases s.len(),
{
    if s.len() > 0 && s.last() == '/' {
        without_slashes(s.drop_last())
    } else {
        s
    }
}

/// `s` without the slashes at its end.
pub fn trim_end_slashes(s: &str) -> (r: String)
    ensures
        r@ == without_slashes(s@),
{
    let v: Vec<char> = chars_of(s);
    let mut to: usize = v.len();
    assert(v@.subrange(0, to as int) == s@);
    while to > 0 && v[to - 1] == '/'
        invariant
            to <= v@.len(),
            without_slashes(v@.subrange(0, to as int)) == without_slashes(s@),
        decreases to,
    {
        assert(v@.subrange(0, to as int).drop_last() == v@.subrange(0, to - 1));
        to = to - 1;
    }
    text_of(&v, 0, to)
}

/// The words of `s`, which white space separates, after the word `word` that is
/// being read.
pub open spec fn words_after(word: Seq<char>, s: Seq<char>) -> Seq<Seq<char>>
    decreases s.len(),
{
    if s.len() == 0 {
        if word.len() == 0 {
            Seq::empty()
        } else {
            seq![word]
        }
    } else if white_space(s[0]) {
        if word.len() == 0 {
            words_after(word, s.skip(1))
        } else {
            seq![word] + words_after(Seq::empty(), s.skip(1))
        }
    } else {
        words_after(word.push(s[0]), s.skip(1))
    }
}

/// The words of `s`, which white space separates.
pub open spec fn words(s: Seq<char>) -> Seq<Seq<char>> {
    words_after(Seq::empty(), s)
}

/// The words of `s`, which white space separates.
pub fn split_white_space(s: &str) -> (r: Vec<String>)
    ensures
        texts(r@) == words(s@),
{
    let v: Vec<char> = chars_of(s);
    let mut r: Vec<String> = Vec::new();
    let mut word: String = String::new();
    let mut empty: bool = true;
    let mut i: usize = 0;
    assert(v@.skip(0) == s@);
    assert(texts(r@) =~= Seq::<Seq<char>>::empty());
    while i < v.len()
        invariant
            i <= v@.len(),
            empty == (word@.len() == 0),
            texts(r@) + words_after(word@, v@.skip(i as int)) == words(s@),
        decreases v@.len() - i,
    {
        let c: char = v[i];
        assert(v@.skip(i as int).skip(1) == v@.skip(i + 1));
        let ghost before = texts(r@);
        let ghost old_word = word@;
        if is_white_space(c) {
            if !empty {
                r.push(word);
                word = String::new();
                empty = true;
                assert(texts(r@) =~= before.push(old_word));
                assert(before + (seq![old_word] + words_after(Seq::empty(), v@.skip(i + 1)))
                    =~= texts(r@) + words_after(word@, v@.skip(i + 1)));
            } else {
                assert(word@ =~= Seq::<char>::empty());
            }
        } else {
            word.push(c);
            empty = false;
        }
        i = i + 1;
    }
    let ghost before = texts(r@);
    let ghost old_word = word@;
    if !empty {
        r.push(word);
        assert(texts(r@) =~= before.push(old_word));
        assert(before + seq![old_word] =~= texts(r@));
    } else {
        assert(before + Seq::<Seq<char>>::empty() =~= before);
    }
    r
}

/// The given parts in order, with `sep` between them.
pub open spec fn joined(parts: Seq<Seq<char>>, sep: Seq<char>) -> Seq<char>
    decreases parts.len(),
{
    if parts.len() == 0 {
        Seq::empty()
    } else if parts.len() == 1 {
        parts[0]
    } else {
        joined(parts.drop_last(), sep) + sep + parts.last()
    }
}

/// The given parts in order, from `from` on, with `sep` between them.
pub fn join_from(parts: &Vec<String>, from: usize, sep: &str) -> (r: String)
    requires
        from <= parts@.len(),
    ensures
        r@ == joined(texts(parts@).skip(from as int), sep@),
{
    let mut r: String = String::new();
    let mut i: usize = from;
    let ghost all = texts(parts@).skip(from as int);
    assert(all.take(0) =~= Seq::<Seq<char>>::empty());
    while i < parts.len()
        invariant
            from <= i <= parts@.len(),
            all == texts(parts@).skip(from as int),
            r@ == joined(all.take(i - from), sep@),
        decreases parts@.len() - i,
    {
        assert(all.take(i - from + 1).drop_last() =~= all.take(i - from));
        assert(all[i - from] == parts@[i as int]@);
        if i > from {
            r.append(sep);
        }
        r.append(parts[i].as_str());
        i = i + 1;
    }
    assert(all.take(all.len() as int) =~= all);
    r
}

/// The given parts in order, with `sep` between them.
pub fn join(parts: &Vec<String>, sep: &str) -> (r: String)
    ensures
        r@ == joined(texts(parts@), sep@),
{
    assert(texts(parts@).skip(0) =~= texts(parts@));
    join_from(parts, 0, sep)
}

/// `n` spaces.
pub open spec fn spaces(n: nat) -> Seq<char> {
    Seq::new(n, |i: int| ' ')
}

/// `s`, with spaces before it up to `width` characters.
pub open spec fn padded(s: Seq<char>, width: nat) -> Seq<char> {
    if s.len() >= width {
        s
    } else {
        spaces((width - s.len()) as nat) + s
    }
}

/// Appends `s`, with spaces before it up to `width` characters.
pub fn push_padded(out: &mut String, s: &str, width: usize)
    ensures
        final(out)@ == old(out)@ + padded(s@, width as nat),
{
    let mut n: usize = s.unicode_len();
    let ghost start = out@;
    let ghost len = s@.len();
    assert(start + spaces(0) =~= start);
    let ghost mut put: nat = 0;
    while n < width
        invariant
            len <= n,
            put == n - len,
            n <= width || put == 0,
            out@ == start + spaces(put),
        decreases width - n,
    {
        out.push(' ');
        n = n + 1;
        proof {
            assert(start + spaces(put).push(' ') =~= (start + spaces(put)).push(' '));
            assert(spaces(put + 1) =~= spaces(put).push(' '));
            put = put + 1;
        }
    }
    out.append(s);
    proof {
        if len >= width {
            assert(start + spaces(0) + s@ =~= start + s@);
        } else {
            assert(start + spaces(put) + s@ =~= start + (spaces(put) + s@));
        }
    }
}

/// Whether every character is white space.
pub open spec fn blank(s: Seq<char>) -> bool {
    forall|i: int| 0 <= i < s.len() ==> white_space(#[trigger] s[i])
}

/// Whether no character is white space.
pub open spec fn solid(s: Seq<char>) -> bool {
    forall|i: int| 0 <= i < s.len() ==> !white_space(#[trigger] s[i])
}

proof fn lemma_trim_start(s: Seq<char>) -> (a: Seq<char>)
    ensures
        s == a + trim_start_of(s),
        blank(a),
        trim_start_of(s).len() > 0 ==> !white_space(trim_start_of(s)[0]),
    decreases s.len(),
{
    if s.len() > 0 && white_space(s[0]) {
        let b = lemma_trim_start(s.skip(1));
        let a = seq![s[0]] + b;
        assert(s =~= seq![s[0]] + s.skip(1));
        assert(s =~= a + trim_start_of(s));
        a
    } else {
        assert(s =~= Seq::<char>::empty() + s);
        Seq::empty()
    }
}

proof fn lemma_trim_end(s: Seq<char>) -> (b: Seq<char>)
    ensures
        s == trim_end_of(s) + b,
        blank(b),
        trim_end_of(s).len() > 0 ==> !white_space(trim_end_of(s).last()),
        trim_end_of(s).len() > 0 ==> trim_end_of(s)[0] == s[0],
    decreases s.len(),
{
    if s.len() > 0 && white_space(s.last()) {
        let a = lemma_trim_end(s.drop_last());
        let b = a.push(s.last());
        assert(s =~= s.drop_last().push(s.last()));
        assert(s =~= trim_end_of(s) + b);
        b
    } else {
        assert(s =~= s + Seq::<char>::empty());
        Seq::empty()
    }
}

/// Trimming takes white space off either end of a text and nothing else, and leaves none
/// there.
pub proof fn law_trim_takes_white_space(s: Seq<char>)
    ensures
        exists|a: Seq<char>, b: Seq<char>|
            blank(a) && blank(b) && s == #[trigger] (a + trimmed(s) + b),
        trimmed(s).len() > 0 ==> !white_space(trimmed(s)[0]) && !white_space(trimmed(s).last()),
{
    let a = lemma_trim_start(s);
    let b = lemma_trim_end(trim_start_of(s));
    assert(s =~= a + trimmed(s) + b);
}

proof fn lemma_words(word: Seq<char>, s: Seq<char>)
    requires
        solid(word),
    ensures
        forall|i: int|
            0 <= i < words_after(word, s).len() ==> (#[trigger] words_after(word, s)[i]).len() > 0
                && solid(words_after(word, s)[i]),
    decreases s.len(),
{
    if s.len() > 0 {
        if white_space(s[0]) {
            lemma_words(Seq::empty(), s.skip(1));
            let rest = words_after(Seq::empty(), s.skip(1));
            if word.len() > 0 {
                assert(words_after(word, s) == seq![word] + rest);
                assert forall|i: int| 0 <= i < words_after(word, s).len() implies (
                #[trigger] words_after(word, s)[i]).len() > 0 && solid(
                    words_after(word, s)[i],
                ) by {
                    if i > 0 {
                        assert(words_after(word, s)[i] == rest[i - 1]);
                    }
                }
            } else {
                assert(word =~= Seq::<char>::empty());
                assert(words_after(word, s) == rest);
            }
        } else {
            lemma_words(word.push(s[0]), s.skip(1));
            assert(words_after(word, s) == words_after(word.push(s[0]), s.skip(1)));
        }
    } else if word.len() > 0 {
        assert(words_after(word, s) == seq![word]);
    }
}

proof fn lemma_first_word(word: Seq<char>, t: Seq<char>, rest: Seq<char>)
    requires
        solid(t),
        word.len() + t.len() > 0,
        rest.len() == 0 || white_space(rest[0]),
    ensures
        words_after(word, t + rest) == seq![word + t] + words(rest),
    decreases t.len(),
{
    if t.len() > 0 {
        let all = t + rest;
        assert(all.skip(1) =~= t.skip(1) + rest);
        assert(all[0] == t[0]);
        lemma_first_word(word.push(t[0]), t.skip(1), rest);
        assert(word.push(t[0]) + t.skip(1) =~= word + t);
    } else {
        assert(t + rest =~= rest);
        assert(word + t =~= word);
        if rest.len() > 0 {
            assert(words(rest) == words_after(Seq::empty(), rest.skip(1)));
        } else {
            assert(words(rest) =~= Seq::empty());
            assert(seq![word] + words(rest) =~= seq![word]);
        }
    }
}

/// Words are not empty and hold no white space; a text begins with the word that runs up to
/// its first white space, and white space before the first word does not matter.
pub proof fn law_words_are_between_white_space(t: Seq<char>, rest: Seq<char>, c: char)
    ensures
        forall|i: int|
            0 <= i < words(rest).len() ==> (#[trigger] words(rest)[i]).len() > 0 && solid(
                words(rest)[i],
            ),
        solid(t) && t.len() > 0 && (rest.len() == 0 || white_space(rest[0])) ==> words(t + rest)
            == seq![t] + words(rest),
        white_space(c) ==> words(seq![c] + rest) == words(rest),
{
    lemma_words(Seq::empty(), rest);
    if solid(t) && t.len() > 0 && (rest.len() == 0 || white_space(rest[0])) {
        lemma_first_word(Seq::empty(), t, rest);
        assert(Seq::<char>::empty() + t =~= t);
    }
    assert((seq![c] + rest).skip(1) =~= rest);
}

/// A string in lower case, by the Unicode case mappings.
pub uninterp spec fn lowercase(s: Seq<char>) -> Seq<char>;

/// An ASCII character in lower case.
pub open spec fn ascii_lower(c: char) -> char {
    if 'A' <= c && c <= 'Z' {
        (c as u8 + 32) as u8 as char
    } else {
        c
    }
}

/// `str::to_lowercase` returns the lower-case equivalent of the string; of a string
/// of ASCII characters alone, each letter's own lower-case letter.
#[verifier::external_body]
pub(crate) fn to_lowercase(s: &str) -> (r: String)
    ensures
        r@ == lowercase(s@),
        (forall|i: int| 0 <= i < s@.len() ==> (#[trigger] s@[i] as u32) < 128) ==> r@
            == s@.map_values(|c: char| ascii_lower(c)),
{
    s.to_lowercase()
}

} // verus!
