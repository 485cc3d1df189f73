//! Character-level text operations, each proved against a mathematical
//! description over `Seq<char>`.

use vstd::prelude::*;

verus! {

/// `String::push` appends one character.
pub assume_specification[ String::push ](string: &mut String, ch: char)
    ensures
        final(string)@ == old(string)@.push(ch),
;

/// The Unicode `White_Space` property, which `char::is_whitespace` and
/// `str::trim` use.
pub open spec fn is_white_space(c: char) -> bool {
    let u = c as u32;
    ||| 0x09 <= u <= 0x0D
    ||| u == 0x20
    ||| u == 0x85
    ||| u == 0xA0
    ||| u == 0x1680
    ||| 0x2000 <= u <= 0x200A
    ||| u == 0x2028
    ||| u == 0x2029
    ||| u == 0x202F
    ||| u == 0x205F
    ||| u == 0x3000
}

/// The texts that `v` holds.
pub open spec fn views(v: Seq<String>) -> Seq<Seq<char>> {
    v.map_values(|s: String| s@)
}

/// The characters that a trim removes from both ends.
#[derive(Clone, Copy, PartialEq, Eq, Structural)]
pub enum Strip {
    WhiteSpace,
    Quote,
}

impl Strip {
    pub open spec fn matches(self, c: char) -> bool {
        match self {
            Strip::WhiteSpace => is_white_space(c),
            Strip::Quote => c == '"',
        }
    }

    pub fn test(&self, c: char) -> (b: bool)
        ensures
            b == self.matches(c),
    {
        match self {
            Strip::WhiteSpace => {
                let u = c as u32;
                (0x09 <= u && u <= 0x0D) || u == 0x20 || u == 0x85 || u == 0xA0 || u == 0x1680
                    || (0x2000 <= u && u <= 0x200A) || u == 0x2028 || u == 0x2029 || u == 0x202F
                    || u == 0x205F || u == 0x3000
            },
            Strip::Quote => c == '"',
        }
    }
}

/// `s` without its longest prefix of matching characters.
pub open spec fn trim_start_by(s: Seq<char>, strip: Strip) -> Seq<char>
    decreases s.len(),
{
    if s.len() > 0 && strip.matches(s[0]) {
        trim_start_by(s.drop_first(), strip)
    } else {
        s
    }
}

/// `s` without its longest suffix of matching characters.
pub open spec fn trim_end_by(s: Seq<char>, strip: Strip) -> Seq<char>
    decreases s.len(),
{
    if s.len() > 0 && strip.matches(s.last()) {
        trim_end_by(s.drop_last(), strip)
    } else {
        s
    }
}

/// `s` without matching characters at either end (`str::trim_matches`).
pub open spec fn trim_by(s: Seq<char>, strip: Strip) -> Seq<char> {
    trim_end_by(trim_start_by(s, strip), strip)
}

/// `str::trim`.
pub open spec fn trim(s: Seq<char>) -> Seq<char> {
    trim_by(s, Strip::WhiteSpace)
}

/// `char::to_ascii_lowercase`.
pub open spec fn ascii_lower_char(c: char) -> char {
    if 'A' <= c <= 'Z' {
        ((c as u32) + 32) as char
    } else {
        c
    }
}

/// `str::to_ascii_lowercase`.
pub open spec fn ascii_lower(s: Seq<char>) -> Seq<char> {
    s.map_values(|c: char| ascii_lower_char(c))
}

/// The part of `s` after the last character that `seps` holds: the first item of
/// `str::rsplit` with those separators.
pub open spec fn after_last_of(s: Seq<char>, seps: Seq<char>) -> Seq<char>
    decreases s.len(),
{
    if s.len() == 0 {
        s
    } else if seps.contains(s.last()) {
        Seq::empty()
    } else {
        after_last_of(s.drop_last(), seps).push(s.last())
    }
}

/// The part of `s` before the first `sep`: the first item of `str::split`.
pub open spec fn before_first(s: Seq<char>, sep: char) -> Seq<char>
    decreases s.len(),
{
    if s.len() == 0 {
        s
    } else if s[0] == sep {
        Seq::empty()
    } else {
        seq![s[0]] + before_first(s.drop_first(), sep)
    }
}

/// The pieces of `s` between occurrences of `sep`, as `str::split` yields them.
pub open spec fn split_on(s: Seq<char>, sep: char) -> Seq<Seq<char>>
    decreases s.len(),
{
    if s.len() == 0 {
        seq![Seq::empty()]
    } else {
        let prev = split_on(s.drop_last(), sep);
        if s.last() == sep {
            prev.push(Seq::empty())
        } else {
            prev.update(prev.len() - 1, prev.last().push(s.last()))
        }
    }
}

/// A line ended by `\n` loses a `\r` before that `\n`.
pub open spec fn strip_cr(line: Seq<char>) -> Seq<char> {
    if line.len() > 0 && line.last() == '\r' {
        line.drop_last()
    } else {
        line
    }
}

/// `str::lines`: the pieces between `\n`s, each ended piece without a final
/// `\r`; the last piece counts only when it is not empty.
pub open spec fn lines(s: Seq<char>) -> Seq<Seq<char>> {
    let pieces = split_on(s, '\n');
    let ended = Seq::new((pieces.len() - 1) as nat, |i: int| strip_cr(pieces[i]));
    if pieces.last().len() == 0 {
        ended
    } else {
        ended.push(pieces.last())
    }
}

/// The sequences of `s` that are not empty, in their order.
pub open spec fn non_empty(s: Seq<Seq<char>>) -> Seq<Seq<char>>
    decreases s.len(),
{
    if s.len() == 0 {
        s
    } else if s.last().len() == 0 {
        non_empty(s.drop_last())
    } else {
        non_empty(s.drop_last()).push(s.last())
    }
}

/// The decimal digits of `n`, most significant first.
pub open spec fn decimal(n: nat) -> Seq<char>
    decreases n,
{
    if n < 10 {
        seq![digit_char(n)]
    } else {
        decimal(n / 10).push(digit_char(n % 10))
    }
}

pub open spec fn digit_char(d: nat) -> char {
    ((48 + d) as u8) as char
}

/// How `{}` writes an integer: a minus sign before the digits of a negative one.
pub open spec fn signed_decimal(i: int) -> Seq<char> {
    if i < 0 {
        seq!['-'] + decimal((-i) as nat)
    } else {
        decimal(i as nat)
    }
}

/// The characters of `s`.
pub fn chars_of(s: &str) -> (v: Vec<char>)
    ensures
        v@ == s@,
{
    let mut v: Vec<char> = Vec::new();
    for c in it: s.chars()
        invariant
            v@ == it.seq().take(it.index() as int),
            it.seq() == s@,
    {
        v.push(c);
    }
    v
}

/// A `String` holding the characters of `v`.
pub fn string_of(v: &[char]) -> (s: String)
    ensures
        s@ == v@,
{
    let mut s = String::new();
    for i in 0..v.len()
        invariant
            s@ == v@.take(i as int),
    {
        s.push(v[i]);
        assert(v@.take(i + 1) == v@.take(i as int).push(v@[i as int]));
    }
    s
}

/// Appends the characters of `t` to `s`.
pub fn push_chars(s: &mut String, t: &[char])
    ensures
        final(s)@ == old(s)@ + t@,
{
    let ghost start = s@;
    for i in 0..t.len()
        invariant
            s@ == start + t@.take(i as int),
    {
        s.push(t[i]);
        assert(t@.take(i + 1) == t@.take(i as int).push(t@[i as int]));
    }
    assert(t@.take(t@.len() as int) == t@);
}

/// Appends the characters of `t` to `s`.
pub fn push_str(s: &mut String, t: &str)
    ensures
        final(s)@ == old(s)@ + t@,
{
    let v = chars_of(t);
    push_chars(s, v.as_slice());
}

/// A `String` with the characters of `t`.
pub fn owned(t: &str) -> (s: String)
    ensures
        s@ == t@,
{
    let mut s = String::new();
    push_str(&mut s, t);
    s
}

/// Whether two character sequences are equal.
pub fn chars_eq(a: &[char], b: &[char]) -> (r: bool)
    ensures
        r == (a@ == b@),
{
    if a.len() != b.len() {
        return false;
    }
    let mut i: usize = 0;
    while i < a.len()
        invariant
            a@.len() == b@.len(),
            i <= a@.len(),
            forall|k: int| 0 <= k < i ==> a@[k] == b@[k],
        decreases a.len() - i,
    {
        if a[i] != b[i] {
            return false;
        }
        i += 1;
    }
    assert(a@ =~= b@);
    true
}

/// Whether `a` and `b` hold the same text.
pub fn str_eq(a: &str, b: &str) -> (r: bool)
    ensures
        r == (a@ == b@),
{
    let va = chars_of(a);
    let vb = chars_of(b);
    chars_eq(va.as_slice(), vb.as_slice())
}

proof fn lemma_trim_start_skip(s: Seq<char>, i: int, strip: Strip)
    requires
        0 <= i < s.len(),
        strip.matches(s[i]),
    ensures
        trim_start_by(s.skip(i), strip) == trim_start_by(s.skip(i + 1), strip),
{
    assert(s.skip(i).drop_first() =~= s.skip(i + 1));
}

proof fn lemma_trim_end_take(s: Seq<char>, j: int, strip: Strip)
    requires
        0 < j <= s.len(),
        strip.matches(s[j - 1]),
    ensures
        trim_end_by(s.take(j), strip) == trim_end_by(s.take(j - 1), strip),
{
    assert(s.take(j).drop_last() =~= s.take(j - 1));
}

/// `v` without matching characters at either end.
pub fn trim_chars(v: &[char], strip: Strip) -> (r: Vec<char>)
    ensures
        r@ == trim_by(v@, strip),
{
    let mut i: usize = 0;
    assert(v@.skip(0) == v@);
    while i < v.len() && strip.test(v[i])
        invariant
            i <= v@.len(),
            trim_start_by(v@, strip) == trim_start_by(v@.skip(i as int), strip),
        decreases v.len() - i,
    {
        proof {
            lemma_trim_start_skip(v@, i as int, strip);
        }
        i += 1;
    }
    let ghost rest = v@.skip(i as int);
    assert(trim_start_by(rest, strip) == rest);
    assert(rest.take(v@.len() - i) == rest);
    let mut j: usize = v.len();
    while j > i && strip.test(v[j - 1])
        invariant
            i <= j <= v@.len(),
            rest == v@.skip(i as int),
            trim_end_by(rest, strip) == trim_end_by(rest.take(j - i), strip),
        decreases j,
    {
        proof {
            lemma_trim_end_take(rest, (j - i) as int, strip);
        }
        j -= 1;
    }
    assert(trim_end_by(rest.take(j - i), strip) == rest.take(j - i));
    let mut r: Vec<char> = Vec::new();
    let mut k: usize = i;
    while k < j
        invariant
            i <= k <= j <= v@.len(),
            rest == v@.skip(i as int),
            r@ == rest.take(k - i),
        decreases j - k,
    {
        r.push(v[k]);
        assert(rest.take(k + 1 - i) == rest.take(k - i).push(v@[k as int]));
        k += 1;
    }
    r
}

/// `t` with ASCII capitals turned into small letters.
pub fn ascii_lower_chars(v: &[char]) -> (r: Vec<char>)
    ensures
        r@ == ascii_lower(v@),
{
    let mut r: Vec<char> = Vec::new();
    for i in 0..v.len()
        invariant
            r@ == ascii_lower(v@.take(i as int)),
    {
        let c = v[i];
        let lc = if 'A' <= c && c <= 'Z' {
            ((c as u8) + 32) as char
        } else {
            c
        };
        r.push(lc);
        assert(ascii_lower(v@.take(i + 1)) =~= ascii_lower(v@.take(i as int)).push(lc));
    }
    assert(v@.take(v@.len() as int) == v@);
    r
}

/// The part of `v` after its last character among `seps`.
pub fn after_last_of_chars(v: &[char], seps: &[char]) -> (r: Vec<char>)
    ensures
        r@ == after_last_of(v@, seps@),
{
    let mut start: usize = 0;
    for i in 0..v.len()
        invariant
            start <= i,
            after_last_of(v@.take(i as int), seps@) == v@.subrange(start as int, i as int),
    {
        let ghost pre = v@.take(i as int);
        assert(v@.take(i + 1).drop_last() == pre);
        let mut is_sep = false;
        for k in 0..seps.len()
            invariant
                i < v@.len(),
                is_sep == seps@.take(k as int).contains(v@[i as int]),
        {
            if seps[k] == v[i] {
                is_sep = true;
            }
            assert(seps@.take(k + 1) =~= seps@.take(k as int).push(seps@[k as int]));
            assert(seps@.take(k + 1)[k as int] == seps@[k as int]);
        }
        assert(seps@.take(seps@.len() as int) == seps@);
        if is_sep {
            start = i + 1;
            assert(v@.subrange(start as int, i + 1) =~= Seq::<char>::empty());
        } else {
            assert(v@.subrange(start as int, i + 1) =~= v@.subrange(start as int, i as int).push(
                v@[i as int],
            ));
        }
    }
    assert(v@.take(v@.len() as int) == v@);
    let mut r: Vec<char> = Vec::new();
    let mut k: usize = start;
    while k < v.len()
        invariant
            start <= k <= v@.len(),
            r@ == v@.subrange(start as int, k as int),
        decreases v.len() - k,
    {
        r.push(v[k]);
        assert(v@.subrange(start as int, k + 1) == v@.subrange(start as int, k as int).push(
            v@[k as int],
        ));
        k += 1;
    }
    r
}

pub proof fn lemma_before_first_prefix(s: Seq<char>, sep: char, i: int)
    requires
        0 <= i <= s.len(),
        forall|k: int| 0 <= k < i ==> s[k] != sep,
    ensures
        before_first(s, sep) == s.take(i) + before_first(s.skip(i), sep),
    decreases i,
{
    if i > 0 {
        lemma_before_first_prefix(s.drop_first(), sep, i - 1);
        assert(s.drop_first().skip(i - 1) =~= s.skip(i));
        assert(s.take(i) =~= seq![s[0]] + s.drop_first().take(i - 1));
    } else {
        assert(s.skip(0) =~= s);
    }
}

/// The part of `v` before its first `sep`.
pub fn before_first_chars(v: &[char], sep: char) -> (r: Vec<char>)
    ensures
        r@ == before_first(v@, sep),
{
    let mut r: Vec<char> = Vec::new();
    let mut i: usize = 0;
    while i < v.len() && v[i] != sep
        invariant
            i <= v@.len(),
            r@ == v@.take(i as int),
            forall|k: int| 0 <= k < i ==> v@[k] != sep,
        decreases v.len() - i,
    {
        r.push(v[i]);
        assert(v@.take(i + 1) == v@.take(i as int).push(v@[i as int]));
        i += 1;
    }
    proof {
        lemma_before_first_prefix(v@, sep, i as int);
        let rest = v@.skip(i as int);
        if rest.len() > 0 {
            assert(rest[0] == sep);
        }
        assert(r@ + before_first(rest, sep) =~= r@);
    }
    r
}

/// The lines of `v`, as `str::lines` yields them.
pub fn lines_of(v: &[char]) -> (r: Vec<Vec<char>>)
    ensures
        r@.map_values(|l: Vec<char>| l@) == lines(v@),
{
    let mut done: Vec<Vec<char>> = Vec::new();
    let mut current: Vec<char> = Vec::new();
    for i in 0..v.len()
        invariant
            split_on(v@.take(i as int), '\n').len() == done@.len() + 1,
            forall|k: int|
                0 <= k < done@.len() ==> #[trigger] done@[k]@ == strip_cr(
                    split_on(v@.take(i as int), '\n')[k],
                ),
            current@ == split_on(v@.take(i as int), '\n').last(),
    {
        let ghost pre = v@.take(i as int);
        assert(v@.take(i + 1).drop_last() == pre);
        if v[i] == '\n' {
            let mut line = current;
            let n = line.len();
            if n > 0 && line[n - 1] == '\r' {
                line.pop();
            }
            done.push(line);
            current = Vec::new();
        } else {
            current.push(v[i]);
        }
    }
    assert(v@.take(v@.len() as int) == v@);
    let ghost pieces = split_on(v@, '\n');
    let ghost ended = Seq::new((pieces.len() - 1) as nat, |i: int| strip_cr(pieces[i]));
    assert(done@.map_values(|l: Vec<char>| l@) =~= ended);
    if current.len() > 0 {
        done.push(current);
        assert(done@.map_values(|l: Vec<char>| l@) =~= ended.push(pieces.last()));
    }
    done
}

/// The decimal digits of `n`.
pub fn decimal_chars(n: u64) -> (r: Vec<char>)
    ensures
        r@ == decimal(n as nat),
    decreases n,
{
    if n < 10 {
        let mut r: Vec<char> = Vec::new();
        r.push(((48 + n) as u8) as char);
        r
    } else {
        let mut r = decimal_chars(n / 10);
        r.push(((48 + n % 10) as u8) as char);
        r
    }
}

/// Appends `n` in decimal, as `{}` writes it.
pub fn push_u64(s: &mut String, n: u64)
    ensures
        final(s)@ == old(s)@ + decimal(n as nat),
{
    let d = decimal_chars(n);
    push_chars(s, d.as_slice());
}

/// Appends `i` in decimal, as `{}` writes it.
pub fn push_i64(s: &mut String, i: i64)
    ensures
        final(s)@ == old(s)@ + signed_decimal(i as int),
{
    if i < 0 {
        let m: u64 = if i == i64::MIN {
            0x8000_0000_0000_0000u64
        } else {
            (-i) as u64
        };
        s.push('-');
        let ghost mid = s@;
        push_u64(s, m);
        assert(s@ =~= old(s)@ + (seq!['-'] + decimal(m as nat)));
    } else {
        push_u64(s, i as u64);
    }
}

/// Every sequence that `non_empty` keeps is one of the given ones, and none is empty.
pub proof fn lemma_non_empty(s: Seq<Seq<char>>)
    ensures
        forall|i: int| 0 <= i < non_empty(s).len() ==> (#[trigger] non_empty(s)[i]).len() > 0,
        forall|i: int| 0 <= i < non_empty(s).len() ==> s.contains(#[trigger] non_empty(s)[i]),
    decreases s.len(),
{
    if s.len() > 0 {
        lemma_non_empty(s.drop_last());
        let prev = non_empty(s.drop_last());
        assert forall|i: int| 0 <= i < non_empty(s).len() implies s.contains(
            #[trigger] non_empty(s)[i],
        ) by {
            if s.last().len() == 0 || i < prev.len() {
                assert(s.drop_last().contains(prev[i]));
                let j = choose|j: int| 0 <= j < s.drop_last().len() && s.drop_last()[j] == prev[i];
                assert(s[j] == prev[i]);
            } else {
                assert(s[s.len() - 1] == non_empty(s)[i]);
            }
        }
    }
}

/// A text without separators is its own last part.
pub proof fn lemma_after_last_of_plain(b: Seq<char>, seps: Seq<char>)
    requires
        forall|k: int| 0 <= k < b.len() ==> !seps.contains(b[k]),
    ensures
        after_last_of(b, seps) == b,
    decreases b.len(),
{
    if b.len() > 0 {
        lemma_after_last_of_plain(b.drop_last(), seps);
        assert(b.drop_last().push(b.last()) =~= b);
    }
}

/// After a separator, the last part of a text is what follows it, when that
/// holds no separator.
pub proof fn lemma_after_last_of_suffix(a: Seq<char>, b: Seq<char>, seps: Seq<char>)
    requires
        a.len() > 0,
        seps.contains(a.last()),
        forall|k: int| 0 <= k < b.len() ==> !seps.contains(b[k]),
    ensures
        after_last_of(a + b, seps) == b,
    decreases b.len(),
{
    if b.len() == 0 {
        assert(a + b =~= a);
    } else {
        lemma_after_last_of_suffix(a, b.drop_last(), seps);
        assert((a + b).drop_last() =~= a + b.drop_last());
        assert((a + b).last() == b.last());
        assert(b.drop_last().push(b.last()) =~= b);
    }
}

/// Taking the last part and lowering ASCII letters can be done in either order,
/// when no separator is an ASCII letter.
pub proof fn lemma_after_last_of_lower(s: Seq<char>, seps: Seq<char>)
    requires
        forall|k: int|
            0 <= k < seps.len() ==> !('A' <= #[trigger] seps[k] <= 'Z') && !('a' <= seps[k] <= 'z'),
    ensures
        ascii_lower(after_last_of(s, seps)) == after_last_of(ascii_lower(s), seps),
    decreases s.len(),
{
    if s.len() > 0 {
        let c = s.last();
        let lc = ascii_lower_char(c);
        lemma_after_last_of_lower(s.drop_last(), seps);
        assert(ascii_lower(s).drop_last() =~= ascii_lower(s.drop_last()));
        assert(ascii_lower(s).last() == lc);
        if seps.contains(c) {
            let j = choose|j: int| 0 <= j < seps.len() && seps[j] == c;
            assert(!('A' <= seps[j] <= 'Z'));
            assert(lc == c);
            assert(ascii_lower(Seq::<char>::empty()) =~= Seq::<char>::empty());
        } else {
            if seps.contains(lc) {
                let j = choose|j: int| 0 <= j < seps.len() && seps[j] == lc;
                assert(!('a' <= seps[j] <= 'z'));
                if 'A' <= c <= 'Z' {
                    assert(lc as u32 == c as u32 + 32);
                    assert('a' <= lc <= 'z');
                    assert(false);
                }
            }
            assert(ascii_lower(after_last_of(s.drop_last(), seps).push(c)) =~= ascii_lower(
                after_last_of(s.drop_last(), seps),
            ).push(lc));
        }
    }
}

/// A text without `sep` is one piece.
pub proof fn lemma_split_on_plain(x: Seq<char>, sep: char)
    requires
        forall|k: int| 0 <= k < x.len() ==> x[k] != sep,
    ensures
        split_on(x, sep) == seq![x],
    decreases x.len(),
{
    if x.len() > 0 {
        lemma_split_on_plain(x.drop_last(), sep);
        assert(x.drop_last().push(x.last()) =~= x);
        assert(seq![x.drop_last()].update(0, x.drop_last().push(x.last())) =~= seq![x]);
    } else {
        assert(x =~= Seq::<char>::empty());
    }
}

/// A text without line breaks is one line, whether or not a `\n` ends it; a
/// `\r` before that `\n` is dropped.
pub proof fn lemma_lines_single(x: Seq<char>)
    requires
        x.len() > 0,
        forall|k: int| 0 <= k < x.len() ==> x[k] != '\n',
    ensures
        lines(x) == seq![x],
        lines(x.push('\n')) == seq![strip_cr(x)],
{
    lemma_split_on_plain(x, '\n');
    assert(lines(x) =~= seq![x]);
    assert(x.push('\n').drop_last() =~= x);
    assert(split_on(x.push('\n'), '\n') == seq![x].push(Seq::<char>::empty()));
    assert(lines(x.push('\n')) =~= seq![strip_cr(x)]);
}

/// A text whose ends are not stripped is left as it is.
pub proof fn lemma_trim_keeps(x: Seq<char>, strip: Strip)
    requires
        x.len() > 0,
        !strip.matches(x[0]),
        !strip.matches(x.last()),
    ensures
        trim_by(x, strip) == x,
{
}

/// `non_empty` keeps a single text that is not empty.
pub proof fn lemma_non_empty_single(x: Seq<char>)
    requires
        x.len() > 0,
    ensures
        non_empty(seq![x]) == seq![x],
{
    assert(seq![x].drop_last() =~= Seq::<Seq<char>>::empty());
    assert(seq![x].last() == x);
    assert(non_empty(Seq::<Seq<char>>::empty()) == Seq::<Seq<char>>::empty());
    assert(Seq::<Seq<char>>::empty().push(x) =~= seq![x]);
}

} // verus!
