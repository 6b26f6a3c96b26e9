//! Character-level helpers shared by the parsers of this crate.
use vstd::prelude::*;
use vstd::string::*;
use vstd::std_specs::iter::IteratorSpec;

verus! {

broadcast use vstd::string::group_string_axioms;

/// The characters of `s`, in order.
pub fn char_vec(s: &str) -> (v: Vec<char>)
    ensures
        v@ == s@,
{
    let mut v: Vec<char> = Vec::new();
    for c in it: s.chars()
        invariant
            v@ == it.seq().take(it.index() as int),
            it.seq() == s@,
    {
        v.push(c);
    }
    v
}

} // verus!

verus! {

/// The characters with Unicode's White_Space property, which std's
/// `char::is_whitespace` tests for.
pub open spec fn is_unicode_whitespace(c: char) -> bool {
    let u = c as u32;
    (0x9 <= u && u <= 0xd) || u == 0x20 || u == 0x85 || u == 0xa0 || u == 0x1680 || (0x2000 <= u
        && u <= 0x200a) || u == 0x2028 || u == 0x2029 || u == 0x202f || u == 0x205f || u == 0x3000
}

pub fn is_whitespace(c: char) -> (res: bool)
    ensures
        res == is_unicode_whitespace(c),
{
    let u = c as u32;
    (0x9 <= u && u <= 0xd) || u == 0x20 || u == 0x85 || u == 0xa0 || u == 0x1680 || (0x2000 <= u
        && u <= 0x200a) || u == 0x2028 || u == 0x2029 || u == 0x202f || u == 0x205f || u == 0x3000
}

/// A text with nothing but whitespace in it (what `str::trim` empties).
pub open spec fn is_blank(s: Seq<char>) -> bool {
    forall|i: int| 0 <= i < s.len() ==> is_unicode_whitespace(#[trigger] s[i])
}

pub fn blank(s: &str) -> (res: bool)
    ensures
        res == is_blank(s@),
{
    let chars = char_vec(s);
    let mut i: usize = 0;
    while i < chars.len()
        invariant
            chars@ == s@,
            i <= chars@.len(),
            forall|j: int| 0 <= j < i ==> is_unicode_whitespace(#[trigger] s@[j]),
        decreases chars@.len() - i,
    {
        if !is_whitespace(chars[i]) {
            return false;
        }
        i = i + 1;
    }
    true
}

/// The code of a character after ASCII lowercasing, as
/// `char::to_ascii_lowercase` maps it.
pub open spec fn ascii_lower_code(c: char) -> u32 {
    let u = c as u32;
    if 65 <= u && u <= 90 {
        (u + 32) as u32
    } else {
        u
    }
}

/// Two texts equal up to ASCII case, as `str::eq_ignore_ascii_case` compares them.
pub open spec fn eq_ignore_ascii_case(a: Seq<char>, b: Seq<char>) -> bool {
    a.len() == b.len() && forall|i: int|
        0 <= i < a.len() ==> ascii_lower_code(#[trigger] a[i]) == ascii_lower_code(b[i])
}

pub fn ascii_lower(c: char) -> (res: u32)
    ensures
        res == ascii_lower_code(c),
{
    let u = c as u32;
    if 65 <= u && u <= 90 {
        u + 32
    } else {
        u
    }
}

pub fn chars_eq_ignore_ascii_case(a: &[char], b: &[char]) -> (res: bool)
    ensures
        res == eq_ignore_ascii_case(a@, b@),
{
    if a.len() != b.len() {
        return false;
    }
    let mut i: usize = 0;
    while i < a.len()
        invariant
            a@.len() == b@.len(),
            i <= a@.len(),
            forall|j: int| 0 <= j < i ==> ascii_lower_code(#[trigger] a@[j]) == ascii_lower_code(b@[j]),
        decreases a@.len() - i,
    {
        if ascii_lower(a[i]) != ascii_lower(b[i]) {
            return false;
        }
        i = i + 1;
    }
    true
}

pub fn str_eq_ignore_ascii_case(a: &str, b: &str) -> (res: bool)
    ensures
        res == eq_ignore_ascii_case(a@, b@),
{
    let x = char_vec(a);
    let y = char_vec(b);
    chars_eq_ignore_ascii_case(x.as_slice(), y.as_slice())
}

/// Whether `s` begins with `prefix`.
pub open spec fn starts_with(s: Seq<char>, prefix: Seq<char>) -> bool {
    prefix.len() <= s.len() && s.take(prefix.len() as int) == prefix
}

pub fn chars_start_with(s: &[char], prefix: &[char]) -> (res: bool)
    ensures
        res == starts_with(s@, prefix@),
{
    if prefix.len() > s.len() {
        return false;
    }
    let mut i: usize = 0;
    while i < prefix.len()
        invariant
            prefix@.len() <= s@.len(),
            i <= prefix@.len(),
            forall|j: int| 0 <= j < i ==> #[trigger] s@[j] == prefix@[j],
        decreases prefix@.len() - i,
    {
        if s[i] != prefix[i] {
            proof {
                assert(s@.take(prefix@.len() as int)[i as int] != prefix@[i as int]);
            }
            return false;
        }
        i = i + 1;
    }
    proof {
        assert(s@.take(prefix@.len() as int) =~= prefix@);
    }
    true
}

pub fn text_starts_with(s: &str, prefix: &str) -> (res: bool)
    ensures
        res == starts_with(s@, prefix@),
{
    let x = char_vec(s);
    let y = char_vec(prefix);
    chars_start_with(x.as_slice(), y.as_slice())
}

pub fn text_eq(a: &str, b: &str) -> (res: bool)
    ensures
        res == (a@ == b@),
{
    let x = char_vec(a);
    let y = char_vec(b);
    let r = x.len() == y.len() && chars_start_with(x.as_slice(), y.as_slice());
    proof {
        if r {
            assert(a@.take(b@.len() as int) =~= a@);
        }
        if a@ == b@ {
            assert(a@.take(b@.len() as int) =~= a@);
        }
    }
    r
}

/// The whitespace-separated words of a text, as `str::split_whitespace`
/// yields them: `current` is the part of a word read so far.
pub open spec fn words_from(s: Seq<char>, i: int, current: Seq<char>) -> Seq<Seq<char>>
    decreases s.len() - i,
{
    if i >= s.len() {
        if current.len() > 0 {
            seq![current]
        } else {
            Seq::empty()
        }
    } else if is_unicode_whitespace(s[i]) {
        (if current.len() > 0 {
            seq![current]
        } else {
            Seq::empty()
        }) + words_from(s, i + 1, Seq::empty())
    } else {
        words_from(s, i + 1, current.push(s[i]))
    }
}

pub open spec fn words(s: Seq<char>) -> Seq<Seq<char>> {
    words_from(s, 0, Seq::empty())
}

/// The whitespace-separated words of `s`.
pub fn split_whitespace(s: &str) -> (res: Vec<String>)
    ensures
        res@.map_values(|w: String| w@) == words(s@),
{
    let chars = char_vec(s);
    let n = chars.len();
    let mut out: Vec<String> = Vec::new();
    let mut start: usize = 0;
    let mut i: usize = 0;
    proof {
        assert(s@.subrange(0, 0) =~= Seq::<char>::empty());
        assert(out@.map_values(|w: String| w@) + words(s@) =~= words(s@));
    }
    while i < n
        invariant
            chars@ == s@,
            n == s@.len(),
            start <= i <= n,
            words(s@) == out@.map_values(|w: String| w@) + words_from(
                s@,
                i as int,
                s@.subrange(start as int, i as int),
            ),
        decreases n - i,
    {
        let ghost before = out@.map_values(|w: String| w@);
        if is_whitespace(chars[i]) {
            if start < i {
                let w = s.substring_char(start, i).to_owned();
                out.push(w);
                proof {
                    assert(out@.map_values(|w: String| w@) =~= before.push(w@));
                    assert(before + (seq![w@] + words_from(s@, i + 1, Seq::empty())) =~= before.push(w@) + words_from(s@, i + 1, Seq::empty()));
                }
            } else {
                proof {
                    assert(s@.subrange(start as int, i as int).len() == 0);
                    assert(Seq::<Seq<char>>::empty() + words_from(s@, i + 1, Seq::empty()) =~= words_from(s@, i + 1, Seq::empty()));
                }
            }
            i = i + 1;
            start = i;
            proof {
                assert(s@.subrange(start as int, i as int) =~= Seq::<char>::empty());
            }
        } else {
            proof {
                assert(s@.subrange(start as int, i as int).push(s@[i as int]) =~= s@.subrange(start as int, i + 1));
            }
            i = i + 1;
        }
    }
    if start < n {
        let w = s.substring_char(start, n).to_owned();
        let ghost before = out@.map_values(|w: String| w@);
        out.push(w);
        proof {
            assert(out@.map_values(|w: String| w@) =~= before.push(w@));
            assert(before + seq![w@] =~= before.push(w@));
        }
    } else {
        proof {
            let before = out@.map_values(|w: String| w@);
            assert(before + Seq::<Seq<char>>::empty() =~= before);
        }
    }
    out
}

/// Index of the first `c` in `s` at or after `from`, or `s.len()`.
pub open spec fn index_of_from(s: Seq<char>, c: char, from: int) -> int
    decreases s.len() - from,
{
    if from >= s.len() {
        s.len() as int
    } else if s[from] == c {
        from
    } else {
        index_of_from(s, c, from + 1)
    }
}

/// The first `c` at or after `from` is one, and none comes before it.
pub proof fn lemma_index_of_from(s: Seq<char>, c: char, from: int)
    requires
        0 <= from <= s.len(),
    ensures
        from <= index_of_from(s, c, from) <= s.len(),
        index_of_from(s, c, from) < s.len() ==> s[index_of_from(s, c, from)] == c,
        forall|j: int| from <= j < index_of_from(s, c, from) ==> #[trigger] s[j] != c,
    decreases s.len() - from,
{
    if from < s.len() && s[from] != c {
        lemma_index_of_from(s, c, from + 1);
    }
}


/// The parts of a text between the occurrences of `sep`, as `str::split`
/// with a character yields them: the empty text has one empty part.
pub open spec fn split_on(s: Seq<char>, sep: char) -> Seq<Seq<char>>
    decreases s.len(),
{
    if s.len() == 0 {
        seq![Seq::<char>::empty()]
    } else {
        let rest = split_on(s.drop_first(), sep);
        if s[0] == sep {
            seq![Seq::<char>::empty()] + rest
        } else {
            rest.update(0, seq![s[0]] + rest[0])
        }
    }
}

/// Parts joined with `sep` between them, as `[T]::join` joins texts.
pub open spec fn join_with(parts: Seq<Seq<char>>, sep: char) -> Seq<char>
    decreases parts.len(),
{
    if parts.len() == 0 {
        Seq::empty()
    } else if parts.len() == 1 {
        parts[0]
    } else {
        parts[0] + seq![sep] + join_with(parts.drop_first(), sep)
    }
}

/// No character of `s` is `sep`.
pub open spec fn free_of(s: Seq<char>, sep: char) -> bool {
    forall|i: int| 0 <= i < s.len() ==> #[trigger] s[i] != sep
}

/// Splitting a text gives at least one part.
pub proof fn lemma_split_nonempty(s: Seq<char>, sep: char)
    ensures
        split_on(s, sep).len() >= 1,
    decreases s.len(),
{
    if s.len() > 0 {
        lemma_split_nonempty(s.drop_first(), sep);
    }
}

/// A text without the separator is one part.
pub proof fn lemma_split_free(s: Seq<char>, sep: char)
    requires
        free_of(s, sep),
    ensures
        split_on(s, sep) == seq![s],
    decreases s.len(),
{
    if s.len() > 0 {
        lemma_split_free(s.drop_first(), sep);
        assert(seq![s[0]] + s.drop_first() =~= s);
        assert(seq![s.drop_first()].update(0, seq![s[0]] + s.drop_first()) =~= seq![s]);
    } else {
        assert(s =~= Seq::<char>::empty());
    }
}

/// Splitting at one separator splits the two sides apart.
pub proof fn lemma_split_concat(a: Seq<char>, b: Seq<char>, sep: char)
    ensures
        split_on(a + seq![sep] + b, sep) == split_on(a, sep) + split_on(b, sep),
    decreases a.len(),
{
    let s = a + seq![sep] + b;
    if a.len() == 0 {
        assert(s.drop_first() =~= b);
        assert(split_on(a, sep) =~= seq![Seq::<char>::empty()]);
    } else {
        assert(s.drop_first() =~= a.drop_first() + seq![sep] + b);
        lemma_split_concat(a.drop_first(), b, sep);
        lemma_split_nonempty(a.drop_first(), sep);
        let ra = split_on(a.drop_first(), sep);
        let rb = split_on(b, sep);
        if a[0] == sep {
            assert(seq![Seq::<char>::empty()] + (ra + rb) =~= (seq![Seq::<char>::empty()] + ra) + rb);
        } else {
            assert((ra + rb).update(0, seq![a[0]] + (ra + rb)[0]) =~= ra.update(0, seq![a[0]] + ra[0]) + rb);
        }
    }
}

/// Splitting parts joined with a separator none of them holds gives the
/// parts back.
pub proof fn lemma_split_join(parts: Seq<Seq<char>>, sep: char)
    requires
        parts.len() >= 1,
        forall|i: int| 0 <= i < parts.len() ==> free_of(#[trigger] parts[i], sep),
    ensures
        split_on(join_with(parts, sep), sep) == parts,
    decreases parts.len(),
{
    if parts.len() == 1 {
        assert(free_of(parts[0], sep));
        lemma_split_free(parts[0], sep);
        assert(seq![parts[0]] =~= parts);
    } else {
        let rest = parts.drop_first();
        assert forall|i: int| 0 <= i < rest.len() implies free_of(#[trigger] rest[i], sep) by {
            assert(rest[i] == parts[i + 1]);
        }
        lemma_split_join(rest, sep);
        assert(free_of(parts[0], sep));
        lemma_split_free(parts[0], sep);
        lemma_split_concat(parts[0], join_with(rest, sep), sep);
        assert(seq![parts[0]] + rest =~= parts);
    }
}

/// The parts of `s` between the occurrences of `sep`.
pub fn split_text(s: &str, sep: char) -> (res: Vec<String>)
    ensures
        res@.map_values(|p: String| p@) == split_on(s@, sep),
{
    let chars = char_vec(s);
    let n = chars.len();
    let mut out: Vec<String> = Vec::new();
    let mut start: usize = 0;
    let mut i: usize = 0;
    proof {
        assert(s@.subrange(0, n as int) =~= s@);
        assert(out@.map_values(|p: String| p@) + split_on(s@, sep) =~= split_on(s@, sep));
    }
    while i < n
        invariant
            chars@ == s@,
            n == s@.len(),
            start <= i <= n,
            split_on(s@, sep) == out@.map_values(|p: String| p@) + split_on(
                s@.subrange(start as int, n as int),
                sep,
            ),
            free_of(s@.subrange(start as int, i as int), sep),
        decreases n - i,
    {
        if chars[i] == sep {
            let part = s.substring_char(start, i).to_owned();
            let ghost before = out@.map_values(|p: String| p@);
            proof {
                let head = s@.subrange(start as int, i as int);
                let tail = s@.subrange(i + 1, n as int);
                assert(s@.subrange(start as int, n as int) =~= head + seq![sep] + tail);
                lemma_split_concat(head, tail, sep);
                lemma_split_free(head, sep);
            }
            out.push(part);
            proof {
                assert(out@.map_values(|p: String| p@) =~= before.push(part@));
                assert(before + (seq![part@] + split_on(s@.subrange(i + 1, n as int), sep))
                    =~= before.push(part@) + split_on(s@.subrange(i + 1, n as int), sep));
            }
            i = i + 1;
            start = i;
            proof {
                assert(free_of(s@.subrange(start as int, i as int), sep));
            }
        } else {
            proof {
                let prev = s@.subrange(start as int, i as int);
                let next = s@.subrange(start as int, i + 1);
                assert forall|j: int| 0 <= j < next.len() implies #[trigger] next[j] != sep by {
                    if j < prev.len() {
                        assert(next[j] == prev[j]);
                    }
                }
            }
            i = i + 1;
        }
    }
    let part = s.substring_char(start, n).to_owned();
    let ghost before = out@.map_values(|p: String| p@);
    proof {
        lemma_split_free(s@.subrange(start as int, n as int), sep);
    }
    out.push(part);
    proof {
        assert(out@.map_values(|p: String| p@) =~= before.push(part@));
        assert(before + seq![part@] =~= before.push(part@));
    }
    out
}

/// The parts joined with `sep` between them.
pub fn join_text(parts: &[String], sep: &str) -> (res: String)
    requires
        sep@.len() == 1,
    ensures
        res@ == join_with(parts@.map_values(|p: String| p@), sep@[0]),
{
    let ghost views = parts@.map_values(|p: String| p@);
    let mut out = String::new();
    if parts.len() == 0 {
        return out;
    }
    let n = parts.len();
    let mut i: usize = n - 1;
    out.append(parts[i].as_str());
    proof {
        assert(views.subrange(i as int, n as int) =~= seq![views[i as int]]);
    }
    while i > 0
        invariant
            views == parts@.map_values(|p: String| p@),
            n == parts@.len(),
            sep@.len() == 1,
            0 <= i < n,
            out@ == join_with(views.subrange(i as int, n as int), sep@[0]),
        decreases i,
    {
        let ghost tail = views.subrange(i as int, n as int);
        let mut next = String::new();
        next.append(parts[i - 1].as_str());
        next.append(sep);
        next.append(out.as_str());
        proof {
            let whole = views.subrange(i - 1, n as int);
            assert(whole.drop_first() =~= tail);
            assert(whole[0] == views[i - 1]);
            assert(sep@ =~= seq![sep@[0]]);
            assert(next@ =~= whole[0] + seq![sep@[0]] + join_with(tail, sep@[0]));
        }
        out = next;
        i = i - 1;
    }
    proof {
        assert(views.subrange(0, n as int) =~= views);
    }
    out
}


/// The decimal digit `d` as a character.
pub open spec fn decimal_digit(d: int) -> char {
    ((('0' as int) + d) as u32) as char
}

/// The decimal text of a number, without leading zeros ("0" for zero).
pub open spec fn decimal(n: nat) -> Seq<char>
    decreases n,
{
    if n < 10 {
        seq![decimal_digit(n as int)]
    } else {
        decimal(n / 10).push(decimal_digit((n % 10) as int))
    }
}

/// The decimal text of a number padded with zeros to at least `width`
/// characters, as `format!("{n:0width$}")` writes it.
pub open spec fn zero_padded(n: nat, width: nat) -> Seq<char> {
    let d = decimal(n);
    if d.len() >= width {
        d
    } else {
        Seq::new((width - d.len()) as nat, |i: int| '0') + d
    }
}

/// The text of the digits in `ds`, from the last to the first.
spec fn digits_text_reversed(ds: Seq<u8>) -> Seq<char>
    decreases ds.len(),
{
    if ds.len() == 0 {
        Seq::empty()
    } else {
        seq![decimal_digit(ds.last() as int)] + digits_text_reversed(ds.drop_last())
    }
}

fn digit_text(d: u8) -> (res: &'static str)
    requires
        d < 10,
    ensures
        res@ == seq![decimal_digit(d as int)],
{
    let digits = "0123456789";
    proof {
        reveal_strlit("0123456789");
    }
    let res = digits.substring_char(d as usize, d as usize + 1);
    proof {
        assert(res@ =~= seq![decimal_digit(d as int)]);
    }
    res
}

/// The decimal text of a number.
pub fn format_decimal(n: u64) -> (res: String)
    ensures
        res@ == decimal(n as nat),
{
    let mut ds: Vec<u8> = Vec::new();
    let mut m: u64 = n;
    if n == 0 {
        ds.push(0);
        proof {
            assert(ds@.drop_last() =~= Seq::<u8>::empty());
        }
    } else {
        while m > 0
            invariant
                forall|k: int| 0 <= k < ds@.len() ==> #[trigger] ds@[k] < 10,
                decimal(n as nat) == (if m == 0 {
                    Seq::<char>::empty()
                } else {
                    decimal(m as nat)
                }) + digits_text_reversed(ds@),
            decreases m,
        {
            let d = (m % 10) as u8;
            let ghost before = ds@;
            ds.push(d);
            proof {
                assert(ds@.drop_last() =~= before);
                assert(digits_text_reversed(ds@) == seq![decimal_digit(d as int)]
                    + digits_text_reversed(before));
                if m >= 10 {
                    assert(decimal(m as nat) == decimal((m / 10) as nat).push(
                        decimal_digit((m % 10) as int),
                    ));
                    assert(decimal((m / 10) as nat).push(decimal_digit(d as int)) + digits_text_reversed(before)
                        =~= decimal((m / 10) as nat) + (seq![decimal_digit(d as int)]
                        + digits_text_reversed(before)));
                } else {
                    assert(decimal(m as nat) == seq![decimal_digit(d as int)]);
                    assert(Seq::<char>::empty() + (seq![decimal_digit(d as int)]
                        + digits_text_reversed(before)) =~= seq![decimal_digit(d as int)]
                        + digits_text_reversed(before));
                }
            }
            m = m / 10;
        }
        proof {
            assert(Seq::<char>::empty() + digits_text_reversed(ds@) =~= digits_text_reversed(ds@));
        }
    }
    let mut out = String::new();
    let mut i: usize = ds.len();
    proof {
        assert(ds@.take(ds@.len() as int) =~= ds@);
        assert(out@ + digits_text_reversed(ds@) =~= digits_text_reversed(ds@));
    }
    while i > 0
        invariant
            i <= ds@.len(),
            forall|k: int| 0 <= k < ds@.len() ==> #[trigger] ds@[k] < 10,
            digits_text_reversed(ds@) == out@ + digits_text_reversed(ds@.take(i as int)),
        decreases i,
    {
        let d = ds[i - 1];
        proof {
            let t = ds@.take(i as int);
            assert(t.drop_last() =~= ds@.take(i - 1));
            assert(t.last() == d);
            assert(digits_text_reversed(t) == seq![decimal_digit(d as int)] + digits_text_reversed(ds@.take(i - 1)));
            assert(out@ + (seq![decimal_digit(d as int)] + digits_text_reversed(ds@.take(i - 1)))
                =~= (out@ + seq![decimal_digit(d as int)]) + digits_text_reversed(ds@.take(i - 1)));
        }
        out.append(digit_text(d));
        i = i - 1;
    }
    proof {
        assert(ds@.take(0) =~= Seq::<u8>::empty());
        assert(out@ + Seq::<char>::empty() =~= out@);
    }
    out
}

proof fn lemma_decimal_nonempty(n: nat)
    ensures
        decimal(n).len() >= 1,
    decreases n,
{
    if n >= 10 {
        lemma_decimal_nonempty(n / 10);
    }
}

/// The decimal text of a number padded with zeros to at least `width`
/// characters.
pub fn format_zero_padded(n: u64, width: usize) -> (res: String)
    ensures
        res@ == zero_padded(n as nat, width as nat),
{
    let digits = format_decimal(n);
    let len = crate::text::char_vec(digits.as_str()).len();
    if len >= width {
        return digits;
    }
    let mut out = String::new();
    let mut k: usize = 0;
    while k < width - len
        invariant
            len < width,
            k <= width - len,
            out@ == Seq::new(k as nat, |i: int| '0'),
        decreases width - len - k,
    {
        out.append("0");
        proof {
            reveal_strlit("0");
            assert("0"@ =~= seq!['0']);
            assert(out@ =~= Seq::new((k + 1) as nat, |i: int| '0'));
        }
        k = k + 1;
    }
    out.append(digits.as_str());
    out
}

/// A character is an ASCII decimal digit.
pub open spec fn is_digit(c: char) -> bool {
    '0' <= c && c <= '9'
}

/// The number a text of decimal digits stands for.
pub open spec fn digits_value(s: Seq<char>) -> nat
    decreases s.len(),
{
    if s.len() == 0 {
        0
    } else {
        digits_value(s.drop_last()) * 10 + ((s.last() as int) - ('0' as int)) as nat
    }
}

/// Every character of a text is a decimal digit.
pub open spec fn all_digits(s: Seq<char>) -> bool {
    forall|i: int| 0 <= i < s.len() ==> is_digit(#[trigger] s[i])
}

/// A text without its leading `+`, if it has one.
pub open spec fn unsigned_body(s: Seq<char>) -> Seq<char> {
    if s.len() > 0 && s[0] == '+' {
        s.drop_first()
    } else {
        s
    }
}

/// The number a text of one digit or more stands for, where it fits in a
/// `u64`.
pub open spec fn parsed_digits(body: Seq<char>) -> Option<u64> {
    if body.len() > 0 && all_digits(body) && digits_value(body) <= u64::MAX {
        Some(digits_value(body) as u64)
    } else {
        None
    }
}

/// What `str::parse::<u64>` reads from a text: an optional `+`, then one
/// digit or more whose value fits in a `u64`.
pub open spec fn parsed_u64(s: Seq<char>) -> Option<u64> {
    parsed_digits(unsigned_body(s))
}

proof fn lemma_digits_value_grows(s: Seq<char>, i: int)
    requires
        0 <= i <= s.len(),
        forall|k: int| 0 <= k < s.len() ==> is_digit(#[trigger] s[k]),
    ensures
        digits_value(s.take(i)) <= digits_value(s),
    decreases s.len() - i,
{
    if i < s.len() {
        lemma_digits_value_grows(s, i + 1);
        assert(s.take(i + 1).drop_last() =~= s.take(i));
        assert(s.take(i + 1).last() == s[i]);
    } else {
        assert(s.take(i) =~= s);
    }
}

/// The number a text stands for, as `str::parse::<u64>` reads it.
pub fn parse_u64(text: &str) -> (res: Option<u64>)
    ensures
        res == parsed_u64(text@),
{
    let chars = char_vec(text);
    let mut start: usize = 0;
    if chars.len() > 0 && chars[0] == '+' {
        start = 1;
    }
    let ghost body = unsigned_body(text@);
    proof {
        assert(body =~= text@.subrange(start as int, text@.len() as int));
    }
    if start == chars.len() {
        return None;
    }
    let mut value: u64 = 0;
    let mut i: usize = start;
    while i < chars.len()
        invariant
            chars@ == text@,
            body == text@.subrange(start as int, text@.len() as int),
            body == unsigned_body(text@),
            body.len() > 0,
            start <= i <= chars@.len(),
            forall|k: int| 0 <= k < i - start ==> is_digit(#[trigger] body[k]),
            value == digits_value(body.take(i - start)),
        decreases chars@.len() - i,
    {
        let c = chars[i];
        if !('0' <= c && c <= '9') {
            proof {
                assert(body[i - start] == c);
                assert(!is_digit(body[i - start]));
                assert(!all_digits(body));
                assert(parsed_u64(text@) is None);
            }
            return None;
        }
        let d = (c as u32 - '0' as u32) as u64;
        proof {
            let t = body.take(i - start + 1);
            assert(t.drop_last() =~= body.take(i - start));
            assert(t.last() == c);
            assert(body[i - start] == c);
        }
        if value > 1_844_674_407_370_955_161 || (value == 1_844_674_407_370_955_161 && d > 5) {
            proof {
                assert(digits_value(body.take(i - start + 1)) == value * 10 + d);
                assert(value * 10 + d > u64::MAX);
                if all_digits(body) {
                    lemma_digits_value_grows(body, i - start + 1);
                    assert(digits_value(body) > u64::MAX);
                }
                assert(parsed_u64(text@) is None);
            }
            return None;
        }
        value = value * 10 + d;
        i = i + 1;
    }
    proof {
        assert(body.take(body.len() as int) =~= body);
    }
    Some(value)
}


/// The decimal text of a signed number, with `-` before a negative one.
pub open spec fn signed_decimal(n: int) -> Seq<char> {
    if n < 0 {
        seq!['-'] + decimal((-n) as nat)
    } else {
        decimal(n as nat)
    }
}

/// The decimal text of a signed number.
pub fn format_signed(n: i64) -> (res: String)
    ensures
        res@ == signed_decimal(n as int),
{
    if n < 0 {
        let magnitude = (0 - (n as i128)) as u64;
        let mut out = String::new();
        out.append("-");
        let digits = format_decimal(magnitude);
        out.append(digits.as_str());
        proof {
            reveal_strlit("-");
            assert("-"@ =~= seq!['-']);
        }
        out
    } else {
        format_decimal(n as u64)
    }
}

/// What is left of a text after a prefix, if it starts with it.
pub open spec fn strip_prefix(s: Seq<char>, prefix: Seq<char>) -> Option<Seq<char>> {
    if starts_with(s, prefix) {
        Some(s.skip(prefix.len() as int))
    } else {
        None
    }
}

/// What is left of a text after a prefix, if it starts with it.
pub fn strip_text_prefix<'a>(s: &'a str, prefix: &str) -> (res: Option<&'a str>)
    ensures
        match strip_prefix(s@, prefix@) {
            Some(rest) => res matches Some(r) && r@ == rest,
            None => res is None,
        },
{
    if !text_starts_with(s, prefix) {
        return None;
    }
    let start = char_vec(prefix).len();
    let end = char_vec(s).len();
    let rest = s.substring_char(start, end);
    proof {
        assert(rest@ =~= s@.skip(prefix@.len() as int));
    }
    Some(rest)
}

/// The decimal text of a number is digits only, starts with a digit, and
/// stands for the number.
pub proof fn lemma_decimal_digits(n: nat)
    ensures
        decimal(n).len() >= 1,
        all_digits(decimal(n)),
        digits_value(decimal(n)) == n,
        is_digit(decimal(n)[0]),
    decreases n,
{
    if n < 10 {
        let c = decimal_digit(n as int);
        assert(c as int == 48 + n);
        assert(decimal(n).drop_last() =~= Seq::<char>::empty());
        assert(decimal(n).last() == c);
        assert(digits_value(decimal(n)) == digits_value(Seq::<char>::empty()) * 10 + ((c as int)
            - ('0' as int)) as nat);
    } else {
        lemma_decimal_digits(n / 10);
        let s = decimal(n / 10);
        let c = decimal_digit((n % 10) as int);
        assert(c as int == 48 + n % 10);
        assert(decimal(n).drop_last() =~= s);
        assert(decimal(n).last() == c);
        assert(digits_value(decimal(n)) == digits_value(s) * 10 + ((c as int) - ('0' as int)) as nat);
        assert((n / 10) * 10 + n % 10 == n) by (nonlinear_arith);
        assert(decimal(n)[0] == s[0]);
        assert forall|i: int| 0 <= i < decimal(n).len() implies is_digit(#[trigger] decimal(n)[i]) by {
            if i < s.len() {
                assert(decimal(n)[i] == s[i]);
            }
        }
    }
}

/// Law: `str::parse::<u64>` reads a number's decimal text back as the number.
pub proof fn lemma_parse_decimal(n: u64)
    ensures
        parsed_u64(decimal(n as nat)) == Some(n),
{
    lemma_decimal_digits(n as nat);
    let d = decimal(n as nat);
    assert(d[0] != '+');
    assert(unsigned_body(d) == d);
}

/// A prefix is stripped off a text that starts with it.
pub proof fn lemma_strip_prefix(prefix: Seq<char>, rest: Seq<char>)
    ensures
        strip_prefix(prefix + rest, prefix) == Some(rest),
{
    assert((prefix + rest).take(prefix.len() as int) =~= prefix);
    assert((prefix + rest).skip(prefix.len() as int) =~= rest);
}
} // verus!
