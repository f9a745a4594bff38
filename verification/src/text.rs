//! Text primitives over sequences of characters.
//!
//! Every function here works on characters, never on bytes. The specification
//! functions describe text as `Seq<char>`; the executable functions take `&str`
//! and hand back owned strings.

use vstd::prelude::*;

verus! {

/// `String::push` appends one character at the end.
pub assume_specification[ String::push ](s: &mut String, c: char)
    ensures
        final(s)@ == old(s)@.push(c),
;

/// Whether a character has the Unicode `White_Space` property.
pub open spec fn is_space(c: char) -> bool {
    let n = c as u32;
    ||| 0x09 <= n <= 0x0d
    ||| n == 0x20
    ||| n == 0x85
    ||| n == 0xa0
    ||| n == 0x1680
    ||| 0x2000 <= n <= 0x200a
    ||| n == 0x2028
    ||| n == 0x2029
    ||| n == 0x202f
    ||| n == 0x205f
    ||| n == 0x3000
}

/// The text without its leading white space.
pub open spec fn trim_start(s: Seq<char>) -> Seq<char>
    decreases s.len(),
{
    if s.len() > 0 && is_space(s[0]) {
        trim_start(s.drop_first())
    } else {
        s
    }
}

/// The text without its trailing white space.
pub open spec fn trim_end(s: Seq<char>) -> Seq<char>
    decreases s.len(),
{
    if s.len() > 0 && is_space(s.last()) {
        trim_end(s.drop_last())
    } else {
        s
    }
}

/// The text without the white space around it.
pub open spec fn trim(s: Seq<char>) -> Seq<char> {
    trim_end(trim_start(s))
}

/// Whether nothing but white space is in the text.
pub open spec fn is_blank(s: Seq<char>) -> bool {
    forall|i: int| 0 <= i < s.len() ==> is_space(#[trigger] s[i])
}

/// Whether `part` occurs in `s` as a run of consecutive characters.
pub open spec fn has_part(s: Seq<char>, part: Seq<char>) -> bool {
    exists|i: int| part_at(s, part, i)
}

/// Whether `part` stands in `s` at position `i`.
pub open spec fn part_at(s: Seq<char>, part: Seq<char>, i: int) -> bool {
    0 <= i <= s.len() - part.len() && s.subrange(i, i + part.len()) == part
}

/// A character with `A` to `Z` mapped to `a` to `z`.
pub open spec fn lower_char(c: char) -> char {
    if 'A' <= c && c <= 'Z' {
        ((c as u32) + 32) as char
    } else {
        c
    }
}

/// A text with `A` to `Z` mapped to `a` to `z`.
pub open spec fn lower(s: Seq<char>) -> Seq<char> {
    s.map_values(|c: char| lower_char(c))
}

/// The texts one after the other, with `sep` between two neighbours.
pub open spec fn join(parts: Seq<Seq<char>>, sep: Seq<char>) -> Seq<char>
    decreases parts.len(),
{
    if parts.len() == 0 {
        Seq::empty()
    } else if parts.len() == 1 {
        parts[0]
    } else {
        join(parts.drop_last(), sep) + sep + parts.last()
    }
}

/// The decimal digit for a number below ten.
pub open spec fn digit(n: nat) -> char {
    ((n % 10) + 48) as char
}

/// The shortest decimal notation of a number.
pub open spec fn decimal(n: nat) -> Seq<char>
    decreases n,
{
    if n < 10 {
        seq![digit(n)]
    } else {
        decimal(n / 10).push(digit(n % 10))
    }
}

/// The text up to the first occurrence of `c`, or all of it where `c` does not occur.
pub open spec fn before(s: Seq<char>, c: char) -> Seq<char>
    decreases s.len(),
{
    if s.len() == 0 || s[0] == c {
        Seq::empty()
    } else {
        seq![s[0]] + before(s.drop_first(), c)
    }
}

/// Whether `a` comes before `b` in the order that compares character by character.
pub open spec fn text_less(a: Seq<char>, b: Seq<char>) -> bool
    decreases a.len(),
{
    if b.len() == 0 {
        false
    } else if a.len() == 0 {
        true
    } else if a[0] == b[0] {
        text_less(a.drop_first(), b.drop_first())
    } else {
        a[0] < b[0]
    }
}

/// Decides [`is_space`].
pub fn char_is_space(c: char) -> (r: bool)
    ensures
        r == is_space(c),
{
    let n: u32 = c as u32;
    (0x09 <= n && n <= 0x0d) || n == 0x20 || n == 0x85 || n == 0xa0 || n == 0x1680 || (0x2000 <= n
        && n <= 0x200a) || n == 0x2028 || n == 0x2029 || n == 0x202f || n == 0x205f || n == 0x3000
}

/// The characters of a text, in order.
pub fn chars_of(s: &str) -> (r: Vec<char>)
    ensures
        r@ == s@,
{
    let mut out: Vec<char> = Vec::new();
    for c in it: s.chars()
        invariant
            it.seq() == s@,
            out@ == s@.take(it.index() as int),
    {
        out.push(c);
        assert(s@.take(it.index() as int + 1) =~= s@.take(it.index() as int).push(c));
    }
    assert(s@.take(s@.len() as int) =~= s@);
    out
}

/// Whether two texts are the same.
pub fn same(a: &str, b: &str) -> (r: bool)
    ensures
        r == (a@ == b@),
{
    let left = a.to_owned();
    let right = b.to_owned();
    left == right
}

/// The characters from position `from` up to, but not including, position `to`.
pub fn slice(s: &str, from: usize, to: usize) -> (r: String)
    requires
        from <= to <= s@.len(),
    ensures
        r@ == s@.subrange(from as int, to as int),
{
    s.substring_char(from, to).to_owned()
}

/// One text behind the other.
pub fn concat(a: &str, b: &str) -> (r: String)
    ensures
        r@ == a@ + b@,
{
    let mut out = a.to_owned();
    out.append(b);
    out
}

/// A text that may be missing, once more.
pub fn copied(text: &Option<String>) -> (r: Option<String>)
    ensures
        r.deep_view() == text.deep_view(),
{
    match text {
        Some(t) => Some(t.clone()),
        None => None,
    }
}

/// [`trim`]: the text without the white space around it.
pub fn trimmed(s: &str) -> (r: String)
    ensures
        r@ == trim(s@),
{
    let cs = chars_of(s);
    let n: usize = cs.len();
    let mut from: usize = 0;
    assert(s@.skip(0) =~= s@);
    while from < n && char_is_space(cs[from])
        invariant
            from <= n,
            n == cs@.len(),
            cs@ == s@,
            trim_start(s@) == trim_start(s@.skip(from as int)),
        decreases n - from,
    {
        assert(s@.skip(from as int).drop_first() =~= s@.skip(from as int + 1));
        from = from + 1;
    }
    let ghost rest = s@.skip(from as int);
    assert(trim_start(s@) == rest);
    let mut to: usize = n;
    assert(rest.take(n - from) =~= rest);
    while to > from && char_is_space(cs[to - 1])
        invariant
            from <= to <= n,
            n == cs@.len(),
            cs@ == s@,
            rest == s@.skip(from as int),
            trim_end(rest) == trim_end(rest.take(to - from)),
        decreases to,
    {
        assert(rest.take(to - from).drop_last() =~= rest.take(to - from - 1));
        to = to - 1;
    }
    assert(rest.take(to - from) =~= s@.subrange(from as int, to as int));
    slice(s, from, to)
}

/// Whether nothing is left of the text once the white space around it is gone.
pub fn trims_to_nothing(s: &str) -> (r: bool)
    ensures
        r == (trim(s@).len() == 0),
{
    let t = trimmed(s);
    t.as_str().is_empty()
}

/// Whether `s` begins with `part`.
pub fn has_prefix(s: &str, part: &str) -> (r: bool)
    ensures
        r == part@.is_prefix_of(s@),
{
    let n: usize = part.unicode_len();
    if n > s.unicode_len() {
        return false;
    }
    same(s.substring_char(0, n), part)
}

/// What follows `part` where `s` begins with it.
pub fn after_prefix(s: &str, part: &str) -> (r: Option<String>)
    ensures
        match r {
            Some(rest) => part@.is_prefix_of(s@) && rest@ == s@.skip(part@.len() as int),
            None => !part@.is_prefix_of(s@),
        },
{
    if has_prefix(s, part) {
        let n: usize = part.unicode_len();
        let len: usize = s.unicode_len();
        Some(slice(s, n, len))
    } else {
        None
    }
}

/// [`has_part`]: whether `part` occurs in `s`.
pub fn contains(s: &str, part: &str) -> (r: bool)
    ensures
        r == has_part(s@, part@),
{
    let n: usize = s.unicode_len();
    let k: usize = part.unicode_len();
    if k > n {
        return false;
    }
    let last: usize = n - k;
    let mut i: usize = 0;
    while i <= last
        invariant
            n == s@.len(),
            k == part@.len(),
            k <= n,
            last == n - k,
            0 <= i <= last + 1,
            forall|j: int| 0 <= j < i ==> !part_at(s@, part@, j),
        decreases last + 1 - i,
    {
        if same(s.substring_char(i, i + k), part) {
            assert(part_at(s@, part@, i as int));
            return true;
        }
        if i == last {
            return false;
        }
        i = i + 1;
    }
    false
}

/// [`lower`]: the text with `A` to `Z` mapped to `a` to `z`.
pub fn lowered(s: &str) -> (r: String)
    ensures
        r@ == lower(s@),
{
    let cs = chars_of(s);
    let mut out = String::new();
    let mut i: usize = 0;
    while i < cs.len()
        invariant
            cs@ == s@,
            i <= cs@.len(),
            out@ == lower(s@.take(i as int)),
        decreases cs@.len() - i,
    {
        let c = cs[i];
        let d = if 'A' <= c && c <= 'Z' {
            (c as u8 + 32) as char
        } else {
            c
        };
        assert(d == lower_char(c));
        out.push(d);
        assert(s@.take(i as int + 1) =~= s@.take(i as int).push(c));
        assert(lower(s@.take(i as int + 1)) =~= lower(s@.take(i as int)).push(d));
        i = i + 1;
    }
    assert(s@.take(i as int) =~= s@);
    out
}

/// [`join`]: the texts with `sep` between two neighbours.
pub fn joined(parts: &Vec<String>, sep: &str) -> (r: String)
    ensures
        r@ == join(parts.deep_view(), sep@),
{
    let mut out = String::new();
    let mut i: usize = 0;
    let ghost all = parts.deep_view();
    assert(all.take(0) =~= Seq::empty());
    while i < parts.len()
        invariant
            all == parts.deep_view(),
            i <= parts@.len(),
            out@ == join(all.take(i as int), sep@),
        decreases parts@.len() - i,
    {
        proof {
            let next = all.take(i as int + 1);
            assert(next.drop_last() =~= all.take(i as int));
            assert(next.last() == parts@[i as int]@);
        }
        if i > 0 {
            out.append(sep);
        }
        out.append(parts[i].as_str());
        assert(out@ =~= join(all.take(i as int + 1), sep@));
        i = i + 1;
    }
    assert(all.take(i as int) =~= all);
    out
}

/// [`decimal`]: the shortest decimal notation of a number.
pub fn decimal_of(n: u64) -> (r: String)
    ensures
        r@ == decimal(n as nat),
    decreases n,
{
    if n < 10 {
        let mut out = String::new();
        out.push((n as u8 + 48) as char);
        assert(out@ =~= seq![digit(n as nat)]);
        out
    } else {
        let mut out = decimal_of(n / 10);
        out.push(((n % 10) as u8 + 48) as char);
        out
    }
}

/// [`before`]: the text up to the first occurrence of `c`.
pub fn cut_before(s: &str, c: char) -> (r: String)
    ensures
        r@ == before(s@, c),
{
    let cs = chars_of(s);
    let mut i: usize = 0;
    assert(s@.skip(0) =~= s@);
    assert(s@.take(0) + before(s@, c) =~= before(s@, c));
    while i < cs.len() && cs[i] != c
        invariant
            cs@ == s@,
            i <= cs@.len(),
            before(s@, c) == s@.take(i as int) + before(s@.skip(i as int), c),
        decreases cs@.len() - i,
    {
        assert(s@.skip(i as int).drop_first() =~= s@.skip(i as int + 1));
        assert(s@.take(i as int) + (seq![s@[i as int]] + before(s@.skip(i as int + 1), c))
            =~= s@.take(i as int + 1) + before(s@.skip(i as int + 1), c));
        i = i + 1;
    }
    assert(before(s@.skip(i as int), c) =~= Seq::empty());
    assert(before(s@, c) =~= s@.subrange(0, i as int));
    slice(s, 0, i)
}

/// [`text_less`]: whether `a` comes before `b`.
pub fn comes_before(a: &str, b: &str) -> (r: bool)
    ensures
        r == text_less(a@, b@),
{
    let x = chars_of(a);
    let y = chars_of(b);
    let mut i: usize = 0;
    assert(a@.skip(0) =~= a@);
    assert(b@.skip(0) =~= b@);
    while i < x.len() && i < y.len() && x[i] == y[i]
        invariant
            x@ == a@,
            y@ == b@,
            i <= x@.len(),
            i <= y@.len(),
            text_less(a@, b@) == text_less(a@.skip(i as int), b@.skip(i as int)),
        decreases x@.len() - i,
    {
        assert(a@.skip(i as int).drop_first() =~= a@.skip(i as int + 1));
        assert(b@.skip(i as int).drop_first() =~= b@.skip(i as int + 1));
        i = i + 1;
    }
    if i >= y.len() {
        return false;
    }
    if i >= x.len() {
        return true;
    }
    x[i] < y[i]
}

/// The text without one carriage return at its end.
pub open spec fn without_return(s: Seq<char>) -> Seq<char> {
    if s.len() > 0 && s.last() == '\r' {
        s.drop_last()
    } else {
        s
    }
}

/// The lines of a text. A line ends with a line feed, which may have a carriage
/// return before it; what follows the last line feed is a line too, as it stands,
/// unless it is empty.
pub open spec fn lines(s: Seq<char>) -> Seq<Seq<char>>
    decreases s.len(),
{
    let head = before(s, '\n');
    if s.len() == 0 {
        Seq::empty()
    } else if head.len() >= s.len() {
        seq![s]
    } else {
        seq![without_return(head)] + lines(s.skip(head.len() as int + 1))
    }
}

/// The characters up to the first white space.
pub open spec fn first_word(s: Seq<char>) -> Seq<char>
    decreases s.len(),
{
    if s.len() == 0 || is_space(s[0]) {
        Seq::empty()
    } else {
        seq![s[0]] + first_word(s.drop_first())
    }
}

/// The runs of characters between white space.
pub open spec fn words(s: Seq<char>) -> Seq<Seq<char>>
    decreases s.len(),
{
    if s.len() == 0 {
        Seq::empty()
    } else if is_space(s[0]) {
        words(s.drop_first())
    } else {
        let w = first_word(s);
        if w.len() == 0 || w.len() > s.len() {
            Seq::empty()
        } else {
            seq![w] + words(s.skip(w.len() as int))
        }
    }
}

fn position_of(cs: &Vec<char>, from: usize, c: char) -> (r: usize)
    requires
        from <= cs@.len(),
    ensures
        from <= r <= cs@.len(),
        before(cs@.skip(from as int), c) == cs@.subrange(from as int, r as int),
        r < cs@.len() ==> cs@[r as int] == c,
{
    let ghost rest = cs@.skip(from as int);
    let mut i: usize = from;
    assert(rest.skip(0) =~= rest);
    assert(cs@.subrange(from as int, from as int) + before(rest, c) =~= before(rest, c));
    while i < cs.len() && cs[i] != c
        invariant
            from <= i <= cs@.len(),
            rest == cs@.skip(from as int),
            before(rest, c) == cs@.subrange(from as int, i as int) + before(
                cs@.skip(i as int),
                c,
            ),
        decreases cs@.len() - i,
    {
        proof {
            let here = cs@.skip(i as int);
            assert(here.drop_first() =~= cs@.skip(i as int + 1));
            assert(cs@.subrange(from as int, i as int) + (seq![here[0]] + before(
                cs@.skip(i as int + 1),
                c,
            )) =~= cs@.subrange(from as int, i as int + 1) + before(cs@.skip(i as int + 1), c));
        }
        i = i + 1;
    }
    assert(before(cs@.skip(i as int), c) =~= Seq::empty());
    assert(before(rest, c) =~= cs@.subrange(from as int, i as int));
    i
}

/// [`lines`]: the lines of a text.
pub fn lines_of(s: &str) -> (r: Vec<String>)
    ensures
        r.deep_view() == lines(s@),
{
    let cs = chars_of(s);
    let mut out: Vec<String> = Vec::new();
    let mut from: usize = 0;
    assert(s@.skip(0) =~= s@);
    assert(out.deep_view() + lines(s@) =~= lines(s@));
    while from < cs.len()
        invariant
            cs@ == s@,
            from <= cs@.len(),
            lines(s@) == out.deep_view() + lines(s@.skip(from as int)),
        decreases cs@.len() - from,
    {
        let ghost rest = s@.skip(from as int);
        let ghost given = out.deep_view();
        let end: usize = position_of(&cs, from, '\n');
        if end >= cs.len() {
            let last = slice(s, from, end);
            assert(last@ =~= rest);
            assert(before(rest, '\n').len() == rest.len());
            out.push(last);
            assert(out.deep_view() =~= given + seq![rest]);
            return out;
        }
        let to: usize = if end > from && cs[end - 1] == '\r' {
            end - 1
        } else {
            end
        };
        let line = slice(s, from, to);
        let ghost content = line@;
        proof {
            assert(content =~= without_return(before(rest, '\n')));
            assert(rest.skip(end - from + 1) =~= s@.skip(end as int + 1));
        }
        out.push(line);
        assert(out.deep_view() =~= given.push(content));
        assert(given + (seq![content] + lines(s@.skip(end as int + 1))) =~= given.push(content)
            + lines(s@.skip(end as int + 1)));
        from = end + 1;
    }
    assert(lines(s@.skip(from as int)) =~= Seq::empty());
    assert(lines(s@) =~= out.deep_view());
    out
}

/// [`words`]: the runs of characters between white space.
pub fn words_of(s: &str) -> (r: Vec<String>)
    ensures
        r.deep_view() == words(s@),
{
    let cs = chars_of(s);
    let mut out: Vec<String> = Vec::new();
    let mut i: usize = 0;
    assert(s@.skip(0) =~= s@);
    assert(out.deep_view() + words(s@) =~= words(s@));
    while i < cs.len()
        invariant
            cs@ == s@,
            i <= cs@.len(),
            words(s@) == out.deep_view() + words(s@.skip(i as int)),
        decreases cs@.len() - i,
    {
        let ghost rest = s@.skip(i as int);
        if char_is_space(cs[i]) {
            assert(rest.drop_first() =~= s@.skip(i as int + 1));
            i = i + 1;
        } else {
            let from: usize = i;
            assert(s@.subrange(from as int, from as int) + first_word(rest) =~= first_word(rest));
            while i < cs.len() && !char_is_space(cs[i])
                invariant
                    cs@ == s@,
                    from <= i <= cs@.len(),
                    from < cs@.len(),
                    rest == s@.skip(from as int),
                    !is_space(cs@[from as int]),
                    first_word(rest) == s@.subrange(from as int, i as int) + first_word(
                        s@.skip(i as int),
                    ),
                decreases cs@.len() - i,
            {
                proof {
                    let here = s@.skip(i as int);
                    assert(here.drop_first() =~= s@.skip(i as int + 1));
                    assert(s@.subrange(from as int, i as int) + (seq![here[0]] + first_word(
                        s@.skip(i as int + 1),
                    )) =~= s@.subrange(from as int, i as int + 1) + first_word(
                        s@.skip(i as int + 1),
                    ));
                }
                i = i + 1;
            }
            assert(first_word(s@.skip(i as int)) =~= Seq::empty());
            let word = slice(s, from, i);
            let ghost content = word@;
            let ghost given = out.deep_view();
            proof {
                assert(first_word(rest) =~= content);
                assert(first_word(rest) == seq![rest[0]] + first_word(rest.drop_first()));
                assert(content.len() > 0);
                assert(rest.skip(content.len() as int) =~= s@.skip(i as int));
            }
            out.push(word);
            assert(out.deep_view() =~= given.push(content));
            assert(given + (seq![content] + words(s@.skip(i as int))) =~= given.push(content)
                + words(s@.skip(i as int)));
        }
    }
    assert(words(s@.skip(i as int)) =~= Seq::empty());
    assert(words(s@) =~= out.deep_view());
    out
}

/// Trimming twice is trimming once.
pub proof fn trim_is_idempotent(s: Seq<char>)
    ensures
        trim(trim(s)) == trim(s),
{
    trim_start_starts_with_no_space(s);
    let t = trim_start(s);
    trim_end_ends_with_no_space(t);
}

proof fn trim_start_starts_with_no_space(s: Seq<char>)
    ensures
        trim_start(s).len() > 0 ==> !is_space(trim_start(s)[0]),
    decreases s.len(),
{
    if s.len() > 0 && is_space(s[0]) {
        trim_start_starts_with_no_space(s.drop_first());
    }
}

proof fn trim_end_ends_with_no_space(s: Seq<char>)
    ensures
        trim_end(s).len() > 0 ==> !is_space(trim_end(s).last()) && trim_end(s)[0] == s[0],
    decreases s.len(),
{
    if s.len() > 0 && is_space(s.last()) {
        trim_end_ends_with_no_space(s.drop_last());
    }
}

/// Exactly the blank texts trim to nothing.
pub proof fn blank_text_trims_to_nothing(s: Seq<char>)
    ensures
        trim(s).len() == 0 <==> is_blank(s),
    decreases s.len(),
{
    if s.len() == 0 {
    } else if is_space(s[0]) {
        blank_text_trims_to_nothing(s.drop_first());
        if is_blank(s.drop_first()) {
            assert forall|i: int| 0 <= i < s.len() implies is_space(#[trigger] s[i]) by {
                if i > 0 {
                    assert(s.drop_first()[i - 1] == s[i]);
                }
            }
        }
        if is_blank(s) {
            assert forall|i: int| 0 <= i < s.drop_first().len() implies is_space(
                #[trigger] s.drop_first()[i],
            ) by {
                assert(s.drop_first()[i] == s[i + 1]);
            }
        }
    } else {
        trim_end_keeps_the_first(s);
        assert(!is_blank(s));
    }
}

proof fn trim_end_keeps_the_first(s: Seq<char>)
    requires
        s.len() > 0,
        !is_space(s[0]),
    ensures
        trim_end(s).len() > 0,
    decreases s.len(),
{
    if is_space(s.last()) {
        assert(s.len() > 1);
        trim_end_keeps_the_first(s.drop_last());
    }
}

/// What is left of a text is a piece of it: only white space was taken away on either
/// side, and none is left at its ends.
pub proof fn trimming_takes_only_white_space_away(s: Seq<char>) -> (bounds: (int, int))
    ensures
        0 <= bounds.0 <= bounds.1 <= s.len(),
        trim(s) == s.subrange(bounds.0, bounds.1),
        forall|i: int| 0 <= i < bounds.0 ==> is_space(#[trigger] s[i]),
        forall|i: int| bounds.1 <= i < s.len() ==> is_space(#[trigger] s[i]),
        trim(s).len() > 0 ==> !is_space(trim(s)[0]) && !is_space(trim(s).last()),
{
    let from = trimmed_at_the_start(s);
    let t = trim_start(s);
    let to = trimmed_at_the_end(t);
    trim_start_starts_with_no_space(s);
    trim_end_ends_with_no_space(t);
    assert(t.take(to) =~= s.subrange(from, from + to));
    assert forall|i: int| from + to <= i < s.len() implies is_space(#[trigger] s[i]) by {
        assert(t[i - from] == s[i]);
    }
    (from, from + to)
}

proof fn trimmed_at_the_start(s: Seq<char>) -> (from: int)
    ensures
        0 <= from <= s.len(),
        trim_start(s) == s.skip(from),
        forall|i: int| 0 <= i < from ==> is_space(#[trigger] s[i]),
    decreases s.len(),
{
    if s.len() > 0 && is_space(s[0]) {
        let rest = s.drop_first();
        let below = trimmed_at_the_start(rest);
        assert(rest.skip(below) =~= s.skip(below + 1));
        assert forall|i: int| 0 <= i < below + 1 implies is_space(#[trigger] s[i]) by {
            if i > 0 {
                assert(rest[i - 1] == s[i]);
            }
        }
        below + 1
    } else {
        assert(s.skip(0) =~= s);
        0
    }
}

proof fn trimmed_at_the_end(s: Seq<char>) -> (to: int)
    ensures
        0 <= to <= s.len(),
        trim_end(s) == s.take(to),
        forall|i: int| to <= i < s.len() ==> is_space(#[trigger] s[i]),
    decreases s.len(),
{
    if s.len() > 0 && is_space(s.last()) {
        let rest = s.drop_last();
        let below = trimmed_at_the_end(rest);
        assert(rest.take(below) =~= s.take(below));
        assert forall|i: int| below <= i < s.len() implies is_space(#[trigger] s[i]) by {
            if i < rest.len() {
                assert(rest[i] == s[i]);
            }
        }
        below
    } else {
        assert(s.take(s.len() as int) =~= s);
        s.len() as int
    }
}

/// Of the characters of ASCII the space, the tab, the line breaks and the form feeds are
/// white space, and nothing else.
pub proof fn ascii_white_space(c: char)
    requires
        (c as u32) < 128,
    ensures
        is_space(c) <==> {
            ||| c == ' '
            ||| c == '\t'
            ||| c == '\n'
            ||| c == '\r'
            ||| c as u32 == 11
            ||| c as u32 == 12
        },
{
}

/// Whether two characters are the same but for the case of ASCII letters.
pub open spec fn same_letter(c: char, letter: char) -> bool {
    c == letter || 'a' <= letter && letter <= 'z' && c as int + 32 == letter as int
}

/// Whether a text spells a word, which is written in small letters, in any mix of capital
/// and small letters.
pub open spec fn spells(text: Seq<char>, word: Seq<char>) -> bool {
    &&& text.len() == word.len()
    &&& forall|i: int| 0 <= i < word.len() ==> same_letter(#[trigger] text[i], word[i])
}

/// Whether a word, which is written in small letters, stands somewhere in a text, in any
/// mix of capital and small letters.
pub open spec fn mentions(text: Seq<char>, word: Seq<char>) -> bool {
    exists|i: int|
        0 <= i <= text.len() - word.len() && spells(
            #[trigger] text.subrange(i, i + word.len()),
            word,
        )
}

/// Whether a text has no capital letters of ASCII.
pub open spec fn is_small(word: Seq<char>) -> bool {
    forall|i: int| 0 <= i < word.len() ==> !('A' <= #[trigger] word[i] && word[i] <= 'Z')
}

/// A word in small letters is part of a lowered text exactly where the text mentions it.
pub proof fn lowered_texts_have_what_is_mentioned(text: Seq<char>, word: Seq<char>)
    requires
        is_small(word),
    ensures
        has_part(lower(text), word) <==> mentions(text, word),
{
    let low = lower(text);
    let n = word.len() as int;
    if has_part(low, word) {
        let i = choose|i: int| part_at(low, word, i);
        let piece = text.subrange(i, i + n);
        assert forall|k: int| 0 <= k < n implies same_letter(#[trigger] piece[k], word[k]) by {
            assert(low.subrange(i, i + n)[k] == lower_char(text[i + k]));
        }
        assert(spells(piece, word));
    }
    if mentions(text, word) {
        let i = choose|i: int|
            0 <= i <= text.len() - n && spells(#[trigger] text.subrange(i, i + n), word);
        let piece = text.subrange(i, i + n);
        assert forall|k: int| 0 <= k < n implies low.subrange(i, i + n)[k] == word[k] by {
            assert(same_letter(piece[k], word[k]));
            assert(!('A' <= word[k] && word[k] <= 'Z'));
        }
        assert(low.subrange(i, i + n) =~= word);
        assert(part_at(low, word, i));
    }
}

/// A text mentions every word that it spells between two others.
pub proof fn words_between_others_are_mentioned(
    head: Seq<char>,
    spelled: Seq<char>,
    tail: Seq<char>,
    word: Seq<char>,
)
    requires
        spells(spelled, word),
    ensures
        mentions(head + spelled + tail, word),
{
    let all = head + spelled + tail;
    let at = head.len() as int;
    assert(all.subrange(at, at + word.len()) =~= spelled);
}

/// To join one more text puts the separator and the text behind what was there; a text
/// alone stays as it is, and no texts give none.
pub proof fn joining_one_more(parts: Seq<Seq<char>>, sep: Seq<char>, more: Seq<char>)
    ensures
        join(Seq::empty(), sep).len() == 0,
        join(seq![more], sep) == more,
        parts.len() > 0 ==> join(parts.push(more), sep) == join(parts, sep) + sep + more,
{
    assert(parts.push(more).drop_last() =~= parts);
}

/// The number that decimal digits stand for.
pub open spec fn number_of(digits: Seq<char>) -> int
    decreases digits.len(),
{
    if digits.len() == 0 {
        0
    } else {
        10 * number_of(digits.drop_last()) + (digits.last() as int - '0' as int)
    }
}

/// The decimal notation of a number stands for that number, holds nothing but digits, and
/// does not begin with a zero unless it is zero.
pub proof fn decimals_stand_for_their_number(n: nat)
    ensures
        number_of(decimal(n)) == n,
        decimal(n).len() > 0,
        forall|i: int|
            0 <= i < decimal(n).len() ==> '0' <= #[trigger] decimal(n)[i] && decimal(n)[i] <= '9',
        n > 0 ==> decimal(n)[0] != '0',
    decreases n,
{
    if n < 10 {
        assert(decimal(n).drop_last() =~= Seq::empty());
        assert(decimal(n).last() as int == n + 48);
        assert(number_of(Seq::empty()) == 0);
    } else {
        decimals_stand_for_their_number(n / 10);
        assert(decimal(n).drop_last() =~= decimal(n / 10));
        assert(decimal(n).last() as int == n % 10 + 48);
        assert(decimal(n)[0] == decimal(n / 10)[0]);
    }
}

/// A text up to a character holds everything before its first occurrence and nothing else.
pub proof fn text_up_to_a_character(s: Seq<char>, c: char)
    ensures
        before(s, c).is_prefix_of(s),
        !before(s, c).contains(c),
        before(s, c).len() == s.len() || s[before(s, c).len() as int] == c,
    decreases s.len(),
{
    if s.len() > 0 && s[0] != c {
        let rest = s.drop_first();
        text_up_to_a_character(rest, c);
        let part = before(rest, c);
        assert(seq![s[0]] + part =~= s.subrange(0, part.len() as int + 1));
        assert forall|i: int| 0 <= i < before(s, c).len() implies before(s, c)[i] != c by {
            if i > 0 {
                assert(before(s, c)[i] == part[i - 1]);
                assert(part.contains(part[i - 1]));
            }
        }
    } else {
        assert(before(s, c) =~= s.subrange(0, 0));
    }
}

/// A text before a character that it does not hold is cut right there.
pub proof fn cut_at_the_first(head: Seq<char>, c: char, tail: Seq<char>)
    requires
        !head.contains(c),
    ensures
        before(head + seq![c] + tail, c) == head,
        before(head, c) == head,
    decreases head.len(),
{
    let all = head + seq![c] + tail;
    if head.len() == 0 {
        assert(all[0] == c);
        assert(before(all, c) =~= head);
        assert(before(head, c) =~= head);
    } else {
        let rest = head.drop_first();
        assert(head.contains(head[0]));
        assert forall|d: char| rest.contains(d) implies head.contains(d) by {
            let i = choose|i: int| 0 <= i < rest.len() && rest[i] == d;
            assert(head[i + 1] == d);
        }
        cut_at_the_first(rest, c, tail);
        assert(all[0] == head[0]);
        assert(all.drop_first() =~= rest + seq![c] + tail);
        assert(seq![head[0]] + rest =~= head);
    }
}

/// Each line break ends a line, with or without a carriage return before it, and what
/// follows the last one is a line as it stands, unless nothing follows.
pub proof fn line_breaks_end_lines(line: Seq<char>, rest: Seq<char>)
    requires
        !line.contains('\n'),
    ensures
        line.len() > 0 ==> lines(line) == seq![line],
        lines(Seq::empty()).len() == 0,
        (line.len() == 0 || line.last() != '\r') ==> lines(line + seq!['\n'] + rest) == seq![line]
            + lines(rest),
        lines(line + seq!['\r', '\n'] + rest) == seq![line] + lines(rest),
{
    cut_at_the_first(line, '\n', rest);
    let all = line + seq!['\n'] + rest;
    assert(all.skip(line.len() as int + 1) =~= rest);
    let returned = line.push('\r');
    assert forall|i: int| 0 <= i < returned.len() implies returned[i] != '\n' by {
        if i < line.len() {
            assert(line.contains(line[i]));
        }
    }
    cut_at_the_first(returned, '\n', rest);
    let both = line + seq!['\r', '\n'] + rest;
    assert(both =~= returned + seq!['\n'] + rest);
    assert(both.skip(returned.len() as int + 1) =~= rest);
    assert(returned.drop_last() =~= line);
}

proof fn first_word_is_whole(word: Seq<char>, rest: Seq<char>)
    requires
        forall|i: int| 0 <= i < word.len() ==> !is_space(#[trigger] word[i]),
        rest.len() == 0 || is_space(rest[0]),
    ensures
        first_word(word + rest) == word,
    decreases word.len(),
{
    let all = word + rest;
    if word.len() == 0 {
        assert(all =~= rest);
        assert(first_word(all) =~= word);
    } else {
        let below = word.drop_first();
        assert(!is_space(word[0]));
        assert forall|i: int| 0 <= i < below.len() implies !is_space(#[trigger] below[i]) by {
            assert(below[i] == word[i + 1]);
        }
        first_word_is_whole(below, rest);
        assert(all[0] == word[0]);
        assert(all.drop_first() =~= below + rest);
        assert(seq![word[0]] + below =~= word);
    }
}

/// The words of a text are what stands between white space: a word comes first and whole
/// where the text begins with it, and white space before it makes no difference.
pub proof fn white_space_parts_words(word: Seq<char>, space: char, rest: Seq<char>)
    requires
        word.len() > 0,
        forall|i: int| 0 <= i < word.len() ==> !is_space(#[trigger] word[i]),
        is_space(space),
    ensures
        words(word) == seq![word],
        words(word + seq![space] + rest) == seq![word] + words(rest),
        words(seq![space] + rest) == words(rest),
        words(Seq::empty()).len() == 0,
{
    assert(!is_space(word[0]));
    first_word_is_whole(word, Seq::empty());
    assert(word + Seq::<char>::empty() =~= word);
    assert(word.skip(word.len() as int) =~= Seq::empty());
    let none = Seq::<Seq<char>>::empty();
    assert(words(Seq::<char>::empty()) == none);
    assert(words(word) == seq![word] + words(word.skip(word.len() as int)));
    assert(seq![word] + none =~= seq![word]);
    let more = seq![space] + rest;
    assert(more[0] == space);
    assert(more.drop_first() =~= rest);
    first_word_is_whole(word, more);
    let all = word + seq![space] + rest;
    assert(all =~= word + more);
    assert(all[0] == word[0]);
    assert(all.skip(word.len() as int) =~= more);
    assert(words(more) == words(rest));
    assert(words(all) == seq![word] + words(all.skip(word.len() as int)));
}

} // verus!
