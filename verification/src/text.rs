//! Text as sequences of characters: character classes, trimming, splitting
//! and joining, each with the mathematical function it computes.

use vstd::prelude::*;
use vstd::std_specs::iter::IteratorSpec;

verus! {

/// `String::push` appends exactly one character.
pub assume_specification[ String::push ](s: &mut String, c: char)
    ensures
        final(s)@ == old(s)@.push(c),
;

/// The characters of `s`, in order.
pub fn chars_of(s: &str) -> (out: Vec<char>)
    ensures
        out@ == s@,
{
    let mut out: Vec<char> = Vec::new();
    for c in it: s.chars()
        invariant
            out@ == it.seq().take(it.index() as int),
            it.seq() == s@,
    {
        out.push(c);
    }
    out
}

/// The string whose characters are `cs`.
pub fn string_of(cs: &[char]) -> (out: String)
    ensures
        out@ == cs@,
{
    let mut out = String::new();
    let mut i: usize = 0;
    while i < cs.len()
        invariant
            i <= cs.len(),
            out@ == cs@.take(i as int),
        decreases cs.len() - i,
    {
        out.push(cs[i]);
        i += 1;
    }
    out
}

/// Appends the characters `cs` to `out`.
pub fn push_chars(out: &mut Vec<char>, cs: &[char])
    ensures
        final(out)@ == old(out)@ + cs@,
{
    let mut i: usize = 0;
    while i < cs.len()
        invariant
            i <= cs.len(),
            out@ == old(out)@ + cs@.take(i as int),
        decreases cs.len() - i,
    {
        out.push(cs[i]);
        i += 1;
    }
}

/// Appends the characters of `s` to `out`.
pub fn push_str(out: &mut Vec<char>, s: &str)
    ensures
        final(out)@ == old(out)@ + s@,
{
    let cs = chars_of(s);
    push_chars(out, cs.as_slice());
}

/// Whether two character slices hold the same characters.
pub fn chars_eq(a: &[char], b: &[char]) -> (same: bool)
    ensures
        same == (a@ == b@),
{
    if a.len() != b.len() {
        return false;
    }
    let mut i: usize = 0;
    while i < a.len()
        invariant
            i <= a.len(),
            a.len() == b.len(),
            a@.take(i as int) == b@.take(i as int),
        decreases a.len() - i,
    {
        if a[i] != b[i] {
            return false;
        }
        assert(a@.take(i + 1) =~= a@.take(i as int).push(a@[i as int]));
        assert(b@.take(i + 1) =~= b@.take(i as int).push(b@[i as int]));
        i += 1;
    }
    assert(a@ =~= a@.take(a.len() as int));
    assert(b@ =~= b@.take(b.len() as int));
    true
}

/// Unicode `White_Space`: the characters that trimming and tokenising skip.
pub open spec fn is_whitespace(c: char) -> bool {
    let u = c as u32;
    ||| 0x09 <= u <= 0x0D
    ||| u == 0x20
    ||| u == 0x85
    ||| u == 0xA0
    ||| u == 0x1680
    ||| 0x2000 <= u <= 0x200A
    ||| u == 0x2028
    ||| u == 0x2029
    ||| u == 0x202F
    ||| u == 0x205F
    ||| u == 0x3000
}

/// Whether `c` is white space.
pub fn char_is_whitespace(c: char) -> (b: bool)
    ensures
        b == is_whitespace(c),
{
    let u: u32 = c as u32;
    (0x09 <= u && u <= 0x0D) || u == 0x20 || u == 0x85 || u == 0xA0 || u == 0x1680 || (0x2000 <= u
        && u <= 0x200A) || u == 0x2028 || u == 0x2029 || u == 0x202F || u == 0x205F || u == 0x3000
}

/// An ASCII letter.
pub open spec fn is_ascii_alphabetic(c: char) -> bool {
    ('a' <= c <= 'z') || ('A' <= c <= 'Z')
}

/// Whether `c` is an ASCII letter.
pub fn char_is_ascii_alphabetic(c: char) -> (b: bool)
    ensures
        b == is_ascii_alphabetic(c),
{
    ('a' <= c && c <= 'z') || ('A' <= c && c <= 'Z')
}

/// A decimal digit.
pub open spec fn is_digit(c: char) -> bool {
    '0' <= c <= '9'
}

/// Whether `c` is a decimal digit.
pub fn char_is_digit(c: char) -> (b: bool)
    ensures
        b == is_digit(c),
{
    '0' <= c && c <= '9'
}

/// `c` with an ASCII lower-case letter replaced by its capital.
pub open spec fn ascii_upper(c: char) -> char {
    if 'a' <= c <= 'z' {
        ((c as u32 - 32) as u8) as char
    } else {
        c
    }
}

/// `c` with an ASCII lower-case letter replaced by its capital.
pub fn char_ascii_upper(c: char) -> (u: char)
    ensures
        u == ascii_upper(c),
{
    if 'a' <= c && c <= 'z' {
        let b: u8 = (c as u32 - 32) as u8;
        b as char
    } else {
        c
    }
}

/// Equality that takes an ASCII letter and its capital for the same character.
pub open spec fn eq_ignore_ascii_case(a: Seq<char>, b: Seq<char>) -> bool {
    &&& a.len() == b.len()
    &&& forall|i: int| 0 <= i < a.len() ==> ascii_upper(#[trigger] a[i]) == ascii_upper(b[i])
}

/// Whether the two texts are equal where an ASCII letter and its capital
/// count as the same character.
pub fn chars_eq_ignore_ascii_case(a: &[char], b: &[char]) -> (same: bool)
    ensures
        same == eq_ignore_ascii_case(a@, b@),
{
    if a.len() != b.len() {
        return false;
    }
    let mut i: usize = 0;
    while i < a.len()
        invariant
            i <= a.len(),
            a.len() == b.len(),
            forall|k: int| 0 <= k < i ==> ascii_upper(#[trigger] a@[k]) == ascii_upper(b@[k]),
        decreases a.len() - i,
    {
        if char_ascii_upper(a[i]) != char_ascii_upper(b[i]) {
            return false;
        }
        i += 1;
    }
    true
}

/// `s` without its leading white space.
pub open spec fn trim_start(s: Seq<char>) -> Seq<char>
    decreases s.len(),
{
    if s.len() > 0 && is_whitespace(s[0]) {
        trim_start(s.skip(1))
    } else {
        s
    }
}

/// `s` without its trailing white space.
pub open spec fn trim_end(s: Seq<char>) -> Seq<char>
    decreases s.len(),
{
    if s.len() > 0 && is_whitespace(s.last()) {
        trim_end(s.drop_last())
    } else {
        s
    }
}

/// `s` without leading and trailing white space.
pub open spec fn trim(s: Seq<char>) -> Seq<char> {
    trim_end(trim_start(s))
}

/// `s` without its trailing ASCII letters.
pub open spec fn trim_end_alphabetic(s: Seq<char>) -> Seq<char>
    decreases s.len(),
{
    if s.len() > 0 && is_ascii_alphabetic(s.last()) {
        trim_end_alphabetic(s.drop_last())
    } else {
        s
    }
}

/// Neither end of `s` is white space.
pub open spec fn is_trimmed(s: Seq<char>) -> bool {
    s.len() > 0 ==> !is_whitespace(s[0]) && !is_whitespace(s.last())
}

/// Trimming leaves a trimmed text as it is.
pub proof fn lemma_trim_of_trimmed(s: Seq<char>)
    requires
        is_trimmed(s),
    ensures
        trim(s) == s,
{
}

/// What is left when leading white space is trimmed is the end of the text,
/// and it begins with no white space.
pub proof fn lemma_trim_start_shape(s: Seq<char>)
    ensures
        trim_start(s).len() <= s.len(),
        trim_start(s) == s.skip(s.len() - trim_start(s).len()),
        trim_start(s).len() > 0 ==> !is_whitespace(trim_start(s)[0]),
    decreases s.len(),
{
    if s.len() > 0 && is_whitespace(s[0]) {
        lemma_trim_start_shape(s.skip(1));
        let t = trim_start(s.skip(1));
        assert(s.skip(1).skip(s.skip(1).len() - t.len()) =~= s.skip(s.len() - t.len()));
    } else {
        assert(s.skip(0) =~= s);
    }
}

/// What is left when trailing white space is trimmed is the start of the
/// text, and it ends in no white space.
pub proof fn lemma_trim_end_shape(s: Seq<char>)
    ensures
        trim_end(s).len() <= s.len(),
        trim_end(s) == s.take(trim_end(s).len() as int),
        trim_end(s).len() > 0 ==> !is_whitespace(trim_end(s).last()),
    decreases s.len(),
{
    if s.len() > 0 && is_whitespace(s.last()) {
        lemma_trim_end_shape(s.drop_last());
        let t = trim_end(s.drop_last());
        assert(s.drop_last().take(t.len() as int) =~= s.take(t.len() as int));
    } else {
        assert(s.take(s.len() as int) =~= s);
    }
}

/// What `trim` returns has no white space at either end.
pub proof fn lemma_trim_is_trimmed(s: Seq<char>)
    ensures
        is_trimmed(trim(s)),
{
    lemma_trim_start_shape(s);
    let a = trim_start(s);
    lemma_trim_end_shape(a);
    let b = trim_end(a);
    if b.len() > 0 {
        assert(b[0] == a[0]);
    }
}

/// What `trim` returns is a part of `s`, so it holds only characters of `s`.
pub proof fn lemma_trim_is_part(s: Seq<char>)
    ensures
        forall|i: int|
            0 <= i < trim(s).len() ==> exists|j: int| 0 <= j < s.len() && s[j] == #[trigger] trim(s)[i],
        (forall|j: int| 0 <= j < s.len() ==> (#[trigger] s[j] as u32) < 128) ==> (forall|i: int|
            0 <= i < trim(s).len() ==> (#[trigger] trim(s)[i] as u32) < 128),
{
    lemma_trim_start_shape(s);
    let a = trim_start(s);
    lemma_trim_end_shape(a);
    let b = trim_end(a);
    let k = s.len() - a.len();
    assert forall|i: int| 0 <= i < b.len() implies exists|j: int|
        0 <= j < s.len() && s[j] == #[trigger] b[i] by {
        assert(b[i] == a[i]);
        assert(a[i] == s[i + k]);
    }
    if forall|j: int| 0 <= j < s.len() ==> (#[trigger] s[j] as u32) < 128 {
        assert forall|i: int| 0 <= i < b.len() implies (#[trigger] b[i] as u32) < 128 by {
            assert(b[i] == a[i]);
            assert(a[i] == s[i + k]);
        }
    }
}

/// The part of `s` between its leading and its trailing white space.
pub fn trim_chars(s: &[char]) -> (out: &[char])
    ensures
        out@ == trim(s@),
{
    let n = s.len();
    let mut i: usize = 0;
    assert(s@.skip(0) =~= s@);
    while i < n && char_is_whitespace(s[i])
        invariant
            i <= n,
            n == s.len(),
            trim_start(s@) == trim_start(s@.skip(i as int)),
        decreases n - i,
    {
        assert(s@.skip(i as int).skip(1) =~= s@.skip(i + 1));
        i += 1;
    }
    assert(s@.skip(i as int) =~= s@.subrange(i as int, n as int));
    let mut j: usize = n;
    while j > i && char_is_whitespace(s[j - 1])
        invariant
            i <= j <= n,
            n == s.len(),
            trim(s@) == trim_end(s@.subrange(i as int, j as int)),
        decreases j,
    {
        assert(s@.subrange(i as int, j as int).drop_last() =~= s@.subrange(i as int, j - 1));
        j -= 1;
    }
    vstd::slice::slice_subrange(s, i, j)
}

/// `s` without its trailing ASCII letters.
pub fn trim_end_alphabetic_chars(s: &[char]) -> (out: &[char])
    ensures
        out@ == trim_end_alphabetic(s@),
{
    let mut j: usize = s.len();
    assert(s@ =~= s@.take(j as int));
    while j > 0 && char_is_ascii_alphabetic(s[j - 1])
        invariant
            j <= s.len(),
            trim_end_alphabetic(s@) == trim_end_alphabetic(s@.take(j as int)),
        decreases j,
    {
        assert(s@.take(j as int).drop_last() =~= s@.take(j - 1));
        j -= 1;
    }
    vstd::slice::slice_subrange(s, 0, j)
}

/// The views of a sequence of character vectors.
pub open spec fn views(v: Seq<Vec<char>>) -> Seq<Seq<char>> {
    v.map_values(|x: Vec<char>| x@)
}

/// The fields of `s` between occurrences of `sep`: a separator opens a new
/// field, any other character extends the last one.
pub open spec fn split(s: Seq<char>, sep: char) -> Seq<Seq<char>>
    decreases s.len(),
{
    if s.len() == 0 {
        seq![Seq::<char>::empty()]
    } else {
        let before = split(s.drop_last(), sep);
        if s.last() == sep {
            before.push(Seq::<char>::empty())
        } else {
            before.drop_last().push(before.last().push(s.last()))
        }
    }
}

/// A text has at least one field.
pub proof fn lemma_split_nonempty(s: Seq<char>, sep: char)
    ensures
        split(s, sep).len() >= 1,
    decreases s.len(),
{
    if s.len() > 0 {
        lemma_split_nonempty(s.drop_last(), sep);
    }
}

/// The fields of `s` between occurrences of `sep`.
pub fn split_chars(s: &[char], sep: char) -> (out: Vec<Vec<char>>)
    ensures
        views(out@) == split(s@, sep),
        out@.len() >= 1,
{
    let mut done: Vec<Vec<char>> = Vec::new();
    let mut cur: Vec<char> = Vec::new();
    let mut i: usize = 0;
    assert(views(done@).push(cur@) =~= split(s@.take(0), sep));
    while i < s.len()
        invariant
            i <= s.len(),
            views(done@).push(cur@) == split(s@.take(i as int), sep),
        decreases s.len() - i,
    {
        let c = s[i];
        assert(s@.take(i + 1).drop_last() =~= s@.take(i as int));
        if c == sep {
            let ghost before = views(done@).push(cur@);
            done.push(cur);
            cur = Vec::new();
            assert(views(done@) =~= before);
        } else {
            let ghost before = views(done@).push(cur@);
            cur.push(c);
            assert(views(done@).push(cur@) =~= before.drop_last().push(before.last().push(c)));
        }
        i += 1;
    }
    assert(s@.take(s.len() as int) =~= s@);
    let ghost before = views(done@).push(cur@);
    done.push(cur);
    assert(views(done@) =~= before);
    done
}

/// `parts` written one after another with `sep` between neighbours.
pub open spec fn join(parts: Seq<Seq<char>>, sep: Seq<char>) -> Seq<char>
    decreases parts.len(),
{
    if parts.len() == 0 {
        Seq::<char>::empty()
    } else if parts.len() == 1 {
        parts[0]
    } else {
        join(parts.drop_last(), sep) + sep + parts.last()
    }
}

/// `parts` written one after another with `sep` between neighbours.
pub fn join_chars(parts: &Vec<Vec<char>>, sep: &[char]) -> (out: Vec<char>)
    ensures
        out@ == join(views(parts@), sep@),
{
    let mut out: Vec<char> = Vec::new();
    let mut i: usize = 0;
    while i < parts.len()
        invariant
            i <= parts.len(),
            out@ == join(views(parts@).take(i as int), sep@),
        decreases parts.len() - i,
    {
        assert(views(parts@).take(i + 1).drop_last() =~= views(parts@).take(i as int));
        if i > 0 {
            push_chars(&mut out, sep);
        }
        push_chars(&mut out, parts[i].as_slice());
        assert(out@ =~= join(views(parts@).take(i + 1), sep@));
        i += 1;
    }
    assert(views(parts@).take(parts.len() as int) =~= views(parts@));
    out
}

/// The maximal runs of characters of `s` that hold no white space, in order.
pub open spec fn tokens(s: Seq<char>) -> Seq<Seq<char>>
    decreases s.len(),
{
    if s.len() == 0 {
        Seq::<Seq<char>>::empty()
    } else {
        let before = tokens(s.drop_last());
        if is_whitespace(s.last()) {
            before
        } else if s.len() >= 2 && !is_whitespace(s[s.len() - 2]) && before.len() > 0 {
            before.drop_last().push(before.last().push(s.last()))
        } else {
            before.push(seq![s.last()])
        }
    }
}

/// The maximal runs of characters of `s` that hold no white space, in order.
pub fn split_whitespace_chars(s: &[char]) -> (out: Vec<Vec<char>>)
    ensures
        views(out@) == tokens(s@),
{
    let mut done: Vec<Vec<char>> = Vec::new();
    let mut cur: Vec<char> = Vec::new();
    let mut i: usize = 0;
    assert(s@.take(0) =~= Seq::<char>::empty());
    while i < s.len()
        invariant
            i <= s.len(),
            cur@.len() > 0 <==> (i > 0 && !is_whitespace(s@[i - 1])),
            tokens(s@.take(i as int)) == if cur@.len() > 0 {
                views(done@).push(cur@)
            } else {
                views(done@)
            },
        decreases s.len() - i,
    {
        let c = s[i];
        let ghost before = tokens(s@.take(i as int));
        assert(s@.take(i + 1).drop_last() =~= s@.take(i as int));
        if char_is_whitespace(c) {
            if cur.len() > 0 {
                done.push(cur);
                cur = Vec::new();
                assert(views(done@) =~= before);
            }
        } else {
            let ghost next = s@.take(i + 1);
            assert(next.last() == c);
            if cur.len() > 0 {
                assert(next[next.len() - 2] == s@[i - 1]);
                let ghost old_cur = cur@;
                cur.push(c);
                assert(before.drop_last() =~= views(done@));
                assert(before.last() == old_cur);
                assert(tokens(next) == before.drop_last().push(before.last().push(c)));
            } else {
                if i > 0 {
                    assert(next[next.len() - 2] == s@[i - 1]);
                }
                cur.push(c);
                assert(cur@ =~= seq![c]);
                assert(tokens(next) == before.push(seq![c]));
            }
        }
        i += 1;
    }
    assert(s@.take(s.len() as int) =~= s@);
    if cur.len() > 0 {
        let ghost before = views(done@).push(cur@);
        done.push(cur);
        assert(views(done@) =~= before);
    }
    done
}

/// No character of `s` is `c`.
pub open spec fn free_of(s: Seq<char>, c: char) -> bool {
    forall|i: int| 0 <= i < s.len() ==> #[trigger] s[i] != c
}

/// Text without a separator, written after a text, extends the last field.
pub proof fn lemma_split_append(a: Seq<char>, b: Seq<char>, sep: char)
    requires
        free_of(b, sep),
    ensures
        split(a, sep).len() >= 1,
        split(a + b, sep) == split(a, sep).drop_last().push(split(a, sep).last() + b),
    decreases b.len(),
{
    lemma_split_nonempty(a, sep);
    let fields = split(a, sep);
    if b.len() == 0 {
        assert(a + b =~= a);
        assert(fields.last() + b =~= fields.last());
        assert(fields.drop_last().push(fields.last()) =~= fields);
    } else {
        let front = b.drop_last();
        assert forall|i: int| 0 <= i < front.len() implies #[trigger] front[i] != sep by {
            assert(front[i] == b[i]);
        }
        lemma_split_append(a, front, sep);
        assert((a + b).drop_last() =~= a + front);
        assert((a + b).last() == b.last());
        assert(b.last() == b[b.len() - 1]);
        let inner = fields.drop_last().push(fields.last() + front);
        assert(inner.drop_last() =~= fields.drop_last());
        assert(inner.last() == fields.last() + front);
        assert((fields.last() + front).push(b.last()) =~= fields.last() + b);
    }
}

/// A separator written after a text opens a new, empty field.
pub proof fn lemma_split_separator(a: Seq<char>, sep: char)
    ensures
        split(a + seq![sep], sep) == split(a, sep).push(Seq::<char>::empty()),
{
    assert((a + seq![sep]).drop_last() =~= a);
    assert((a + seq![sep]).last() == sep);
}

/// Cutting a joined line at the separator gives the fields back, where no
/// field holds the separator.
pub proof fn lemma_split_join(parts: Seq<Seq<char>>, sep: char)
    requires
        parts.len() >= 1,
        forall|i: int| 0 <= i < parts.len() ==> free_of(#[trigger] parts[i], sep),
    ensures
        split(join(parts, seq![sep]), sep) == parts,
    decreases parts.len(),
{
    if parts.len() == 1 {
        let empty = Seq::<char>::empty();
        lemma_split_append(empty, parts[0], sep);
        assert(empty + parts[0] =~= parts[0]);
        assert(split(empty, sep) =~= seq![empty]);
        assert(seq![empty].drop_last().push(seq![empty].last() + parts[0]) =~= parts);
    } else {
        let front = parts.drop_last();
        assert forall|i: int| 0 <= i < front.len() implies free_of(#[trigger] front[i], sep) by {
            assert(front[i] == parts[i]);
        }
        lemma_split_join(front, sep);
        let line = join(front, seq![sep]);
        lemma_split_separator(line, sep);
        lemma_split_append(line + seq![sep], parts.last(), sep);
        let opened = front.push(Seq::<char>::empty());
        assert(opened.drop_last() =~= front);
        assert(opened.last() + parts.last() =~= parts.last());
        assert(front.push(parts.last()) =~= parts);
    }
}

/// A joined line begins as its first field begins and ends as its last
/// field ends.
pub proof fn lemma_join_ends(parts: Seq<Seq<char>>, sep: Seq<char>)
    requires
        parts.len() >= 1,
        parts[0].len() > 0,
        parts.last().len() > 0,
    ensures
        join(parts, sep).len() > 0,
        join(parts, sep)[0] == parts[0][0],
        join(parts, sep).last() == parts.last().last(),
    decreases parts.len(),
{
    if parts.len() > 1 {
        let front = parts.drop_last();
        lemma_join_starts(front, sep);
    }
}

/// A joined line begins as its first field begins.
pub proof fn lemma_join_starts(parts: Seq<Seq<char>>, sep: Seq<char>)
    requires
        parts.len() >= 1,
        parts[0].len() > 0,
    ensures
        join(parts, sep).len() > 0,
        join(parts, sep)[0] == parts[0][0],
    decreases parts.len(),
{
    if parts.len() > 1 {
        let front = parts.drop_last();
        lemma_join_starts(front, sep);
    }
}

/// A joined line holds a character only where a field or the separator holds it.
pub proof fn lemma_join_free(parts: Seq<Seq<char>>, sep: Seq<char>, c: char)
    requires
        free_of(sep, c),
        forall|i: int| 0 <= i < parts.len() ==> free_of(#[trigger] parts[i], c),
    ensures
        free_of(join(parts, sep), c),
    decreases parts.len(),
{
    if parts.len() >= 2 {
        let front = parts.drop_last();
        assert forall|i: int| 0 <= i < front.len() implies free_of(#[trigger] front[i], c) by {
            assert(front[i] == parts[i]);
        }
        lemma_join_free(front, sep, c);
        let a = join(front, sep);
        let whole = a + sep + parts.last();
        assert(free_of(parts.last(), c));
        assert forall|i: int| 0 <= i < whole.len() implies #[trigger] whole[i] != c by {
            if i < a.len() {
                assert(whole[i] == a[i]);
            } else if i < a.len() + sep.len() {
                assert(whole[i] == sep[i - a.len()]);
            } else {
                assert(whole[i] == parts.last()[i - a.len() - sep.len()]);
            }
        }
    } else if parts.len() == 1 {
        assert(free_of(parts[0], c));
    }
}

/// A joined line of two or more fields whose last field is empty ends as the
/// separator ends.
pub proof fn lemma_join_ends_open(parts: Seq<Seq<char>>, sep: Seq<char>)
    requires
        parts.len() >= 2,
        parts.last().len() == 0,
        sep.len() > 0,
    ensures
        join(parts, sep).len() > 0,
        join(parts, sep).last() == sep.last(),
{
}

/// A word: a text that is not empty and holds no white space.
pub open spec fn is_word(s: Seq<char>) -> bool {
    s.len() > 0 && forall|i: int| 0 <= i < s.len() ==> !is_whitespace(#[trigger] s[i])
}

/// Words with one space between neighbours, and nothing else.
pub open spec fn is_spaced_words(s: Seq<char>) -> bool {
    join(tokens(s), seq![' ']) == s
}

/// White space at the end of a text adds no token.
pub proof fn lemma_tokens_trim_end(s: Seq<char>)
    ensures
        tokens(trim_end(s)) == tokens(s),
    decreases s.len(),
{
    if s.len() > 0 && is_whitespace(s.last()) {
        lemma_tokens_trim_end(s.drop_last());
    }
}

/// Every token is a word, and a text that ends in no white space has a token.
pub proof fn lemma_tokens_are_words(s: Seq<char>)
    ensures
        forall|i: int| 0 <= i < tokens(s).len() ==> is_word(#[trigger] tokens(s)[i]),
        s.len() > 0 && !is_whitespace(s.last()) ==> tokens(s).len() > 0,
    decreases s.len(),
{
    if s.len() > 0 {
        let front = s.drop_last();
        lemma_tokens_are_words(front);
        let before = tokens(front);
        let c = s.last();
        if is_whitespace(c) {
        } else if s.len() >= 2 && !is_whitespace(s[s.len() - 2]) && before.len() > 0 {
            let grown = before.last().push(c);
            assert(is_word(before[before.len() - 1]));
            assert forall|j: int| 0 <= j < grown.len() implies !is_whitespace(#[trigger] grown[j]) by {
                if j < before.last().len() {
                    assert(grown[j] == before.last()[j]);
                }
            }
            let after = before.drop_last().push(grown);
            assert forall|i: int| 0 <= i < after.len() implies is_word(#[trigger] after[i]) by {
                if i < after.len() - 1 {
                    assert(after[i] == before[i]);
                }
            }
        } else {
            let after = before.push(seq![c]);
            assert forall|i: int| 0 <= i < after.len() implies is_word(#[trigger] after[i]) by {
                if i < after.len() - 1 {
                    assert(after[i] == before[i]);
                } else {
                    assert(after[i] =~= seq![c]);
                }
            }
        }
    }
}

/// The tokens of two texts, one after the other, are the tokens of the
/// first and then those of the second, where white space parts the two.
pub proof fn lemma_tokens_concat(a: Seq<char>, b: Seq<char>)
    requires
        a.len() == 0 || is_whitespace(a.last()) || b.len() == 0 || is_whitespace(b[0]),
    ensures
        tokens(a + b) == tokens(a) + tokens(b),
    decreases b.len(),
{
    if b.len() == 0 {
        assert(a + b =~= a);
        assert(tokens(a) + tokens(b) =~= tokens(a));
    } else {
        let front = b.drop_last();
        let c = b.last();
        if front.len() > 0 {
            assert(front[0] == b[0]);
        }
        lemma_tokens_concat(a, front);
        lemma_tokens_are_words(front);
        assert((a + b).drop_last() =~= a + front);
        assert((a + b).last() == c);
        let ta = tokens(a);
        let tf = tokens(front);
        if is_whitespace(c) {
        } else if front.len() > 0 {
            assert((a + b)[(a + b).len() - 2] == front.last());
            assert(b[b.len() - 2] == front.last());
            if !is_whitespace(front.last()) {
                assert(tf.len() > 0);
                assert((ta + tf).drop_last() =~= ta + tf.drop_last());
                assert((ta + tf).last() == tf.last());
                assert((ta + tf.drop_last()).push(tf.last().push(c)) =~= ta + tf.drop_last().push(
                    tf.last().push(c),
                ));
            } else {
                assert((ta + tf).push(seq![c]) =~= ta + tf.push(seq![c]));
            }
        } else {
            assert(b =~= seq![c]);
            assert(b[0] == c);
            if a.len() > 0 {
                assert((a + b)[(a + b).len() - 2] == a.last());
            }
            assert(tf =~= Seq::<Seq<char>>::empty());
            assert((ta + tf).push(seq![c]) =~= ta + tf.push(seq![c]));
        }
    }
}

/// A word is its own single token.
pub proof fn lemma_tokens_of_word(w: Seq<char>)
    requires
        is_word(w),
    ensures
        tokens(w) == seq![w],
    decreases w.len(),
{
    let front = w.drop_last();
    let c = w.last();
    assert(c == w[w.len() - 1]);
    if front.len() == 0 {
        assert(tokens(front) =~= Seq::<Seq<char>>::empty());
        assert(w =~= seq![c]);
        assert(tokens(front).push(seq![c]) =~= seq![w]);
    } else {
        assert forall|i: int| 0 <= i < front.len() implies !is_whitespace(#[trigger] front[i]) by {
            assert(front[i] == w[i]);
        }
        lemma_tokens_of_word(front);
        assert(w[w.len() - 2] == front.last());
        assert(front.last() == front[front.len() - 1]);
        assert(seq![front].drop_last().push(seq![front].last().push(c)) =~= seq![front.push(c)]);
        assert(front.push(c) =~= w);
    }
}

/// White space is trimmed from the end of a text only as far as the last
/// character that is none.
pub proof fn lemma_trim_end_after(a: Seq<char>, b: Seq<char>)
    requires
        a.len() > 0,
        !is_whitespace(a.last()),
    ensures
        trim_end(a + b) == a + trim_end(b),
    decreases b.len(),
{
    if b.len() == 0 {
        assert(a + b =~= a);
        assert(a + trim_end(b) =~= a);
    } else if is_whitespace(b.last()) {
        lemma_trim_end_after(a, b.drop_last());
        assert((a + b).drop_last() =~= a + b.drop_last());
        assert((a + b).last() == b.last());
    } else {
        assert((a + b).last() == b.last());
    }
}

/// Whether no character of `s` is `c`.
pub fn chars_free_of(s: &[char], c: char) -> (free: bool)
    ensures
        free == free_of(s@, c),
{
    let mut i: usize = 0;
    while i < s.len()
        invariant
            i <= s.len(),
            forall|k: int| 0 <= k < i ==> #[trigger] s@[k] != c,
        decreases s.len() - i,
    {
        if s[i] == c {
            return false;
        }
        i += 1;
    }
    true
}

/// Whether `s` is a word.
pub fn chars_are_word(s: &[char]) -> (word: bool)
    ensures
        word == is_word(s@),
{
    if s.len() == 0 {
        return false;
    }
    let mut i: usize = 0;
    while i < s.len()
        invariant
            i <= s.len(),
            forall|k: int| 0 <= k < i ==> !is_whitespace(#[trigger] s@[k]),
        decreases s.len() - i,
    {
        if char_is_whitespace(s[i]) {
            return false;
        }
        i += 1;
    }
    true
}

/// Whether neither end of `s` is white space.
pub fn chars_are_trimmed(s: &[char]) -> (trimmed: bool)
    ensures
        trimmed == is_trimmed(s@),
{
    s.len() == 0 || (!char_is_whitespace(s[0]) && !char_is_whitespace(s[s.len() - 1]))
}

/// Whether `s` is words with one space between neighbours, and nothing else.
pub fn chars_are_spaced_words(s: &[char]) -> (spaced: bool)
    ensures
        spaced == is_spaced_words(s@),
{
    let words = split_whitespace_chars(s);
    let space: Vec<char> = vec![' '];
    assert(space@ =~= seq![' ']);
    let joined = join_chars(&words, space.as_slice());
    chars_eq(joined.as_slice(), s)
}

} // verus!
