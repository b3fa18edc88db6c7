use vstd::prelude::*;

verus! {

/// Appends one character to a `String` (std `String::push`).
#[verifier::external_body]
pub(crate) fn push_char(s: &mut String, c: char)
    ensures
        final(s)@ == old(s)@.push(c),
{
    s.push(c);
}

/// The characters of a string slice, in order.
pub fn to_chars(s: &str) -> (res: Vec<char>)
    ensures
        res@ == s@,
{
    let mut out: Vec<char> = Vec::new();
    for c in it: s.chars()
        invariant
            out@ == it.seq().take(it.index() as int),
    {
        out.push(c);
    }
    out
}

/// Builds a `String` from a sequence of characters.
pub fn from_chars(v: &Vec<char>) -> (res: String)
    ensures
        res@ == v@,
{
    let mut out = String::new();
    let n = v.len();
    let mut i: usize = 0;
    while i < n
        invariant
            n == v@.len(),
            i <= n,
            out@ == v@.take(i as int),
        decreases n - i,
    {
        push_char(&mut out, v[i]);
        assert(v@.take(i as int).push(v@[i as int]) =~= v@.take(i as int + 1));
        i = i + 1;
    }
    assert(v@.take(n as int) =~= v@);
    out
}

/// Whether two string slices hold the same characters.
pub fn eq(a: &str, b: &str) -> (res: bool)
    ensures
        res == (a@ == b@),
{
    let x = to_chars(a);
    let y = to_chars(b);
    chars_eq(&x, &y)
}

/// Whether two character vectors are equal.
pub fn chars_eq(x: &Vec<char>, y: &Vec<char>) -> (res: bool)
    ensures
        res == (x@ == y@),
{
    if x.len() != y.len() {
        return false;
    }
    let n = x.len();
    let mut i: usize = 0;
    while i < n
        invariant
            n == x@.len(),
            n == y@.len(),
            i <= n,
            forall|j: int| 0 <= j < i ==> x@[j] == y@[j],
        decreases n - i,
    {
        if x[i] != y[i] {
            return false;
        }
        i = i + 1;
    }
    assert(x@ =~= y@);
    true
}


/// Unicode `White_Space`: the characters `char::is_whitespace` accepts.
pub open spec fn is_ws(c: char) -> bool {
    ||| ('\u{9}' <= c && c <= '\u{d}')
    ||| c == ' '
    ||| c == '\u{85}'
    ||| c == '\u{a0}'
    ||| c == '\u{1680}'
    ||| ('\u{2000}' <= c && c <= '\u{200a}')
    ||| c == '\u{2028}'
    ||| c == '\u{2029}'
    ||| c == '\u{202f}'
    ||| c == '\u{205f}'
    ||| c == '\u{3000}'
}

/// `char::is_whitespace`.
pub fn is_whitespace(c: char) -> (res: bool)
    ensures
        res == is_ws(c),
{
    ('\u{9}' <= c && c <= '\u{d}') || c == ' ' || c == '\u{85}' || c == '\u{a0}' || c == '\u{1680}'
        || ('\u{2000}' <= c && c <= '\u{200a}') || c == '\u{2028}' || c == '\u{2029}' || c
        == '\u{202f}' || c == '\u{205f}' || c == '\u{3000}'
}

pub open spec fn is_ascii_digit(c: char) -> bool {
    '0' <= c && c <= '9'
}

pub open spec fn is_ascii_alpha(c: char) -> bool {
    ('a' <= c && c <= 'z') || ('A' <= c && c <= 'Z')
}

pub open spec fn is_ascii_alnum(c: char) -> bool {
    is_ascii_digit(c) || is_ascii_alpha(c)
}

pub open spec fn is_ascii_hex(c: char) -> bool {
    is_ascii_digit(c) || ('a' <= c && c <= 'f') || ('A' <= c && c <= 'F')
}

pub fn ascii_digit(c: char) -> (res: bool)
    ensures
        res == is_ascii_digit(c),
{
    '0' <= c && c <= '9'
}

pub fn ascii_alnum(c: char) -> (res: bool)
    ensures
        res == is_ascii_alnum(c),
{
    ('0' <= c && c <= '9') || ('a' <= c && c <= 'z') || ('A' <= c && c <= 'Z')
}

pub fn ascii_hex(c: char) -> (res: bool)
    ensures
        res == is_ascii_hex(c),
{
    ('0' <= c && c <= '9') || ('a' <= c && c <= 'f') || ('A' <= c && c <= 'F')
}

/// `char::to_ascii_lowercase`.
pub open spec fn lower(c: char) -> char {
    if 'A' <= c && c <= 'Z' {
        ((c as u32) + 32) as char
    } else {
        c
    }
}

pub open spec fn spec_lowercase(s: Seq<char>) -> Seq<char> {
    s.map_values(|c: char| lower(c))
}

/// `str::to_ascii_lowercase`.
pub fn to_ascii_lowercase(s: &str) -> (res: String)
    ensures
        res@ == spec_lowercase(s@),
{
    let v = to_chars(s);
    let mut out: Vec<char> = Vec::new();
    let n = v.len();
    let mut i: usize = 0;
    while i < n
        invariant
            n == v@.len(),
            v@ == s@,
            i <= n,
            out@ == spec_lowercase(v@.take(i as int)),
        decreases n - i,
    {
        let c = v[i];
        let l = if 'A' <= c && c <= 'Z' {
            let code: u8 = ((c as u32) + 32) as u8;
            code as char
        } else {
            c
        };
        out.push(l);
        assert(spec_lowercase(v@.take(i as int + 1)) =~= spec_lowercase(v@.take(i as int)).push(
            lower(c),
        ));
        i = i + 1;
    }
    assert(v@.take(n as int) =~= v@);
    from_chars(&out)
}

/// Drops leading whitespace.
pub open spec fn trim_start(s: Seq<char>) -> Seq<char>
    decreases s.len(),
{
    if s.len() > 0 && is_ws(s[0]) {
        trim_start(s.drop_first())
    } else {
        s
    }
}

/// Drops trailing whitespace.
pub open spec fn trim_end(s: Seq<char>) -> Seq<char>
    decreases s.len(),
{
    if s.len() > 0 && is_ws(s.last()) {
        trim_end(s.drop_last())
    } else {
        s
    }
}

/// `str::trim`: drops leading and trailing whitespace.
pub open spec fn spec_trim(s: Seq<char>) -> Seq<char> {
    trim_end(trim_start(s))
}

/// The index of the first character that is not whitespace (or the length).
fn skip_ws(v: &Vec<char>) -> (res: usize)
    ensures
        res <= v@.len(),
        trim_start(v@) == v@.skip(res as int),
{
    let n = v.len();
    let mut i: usize = 0;
    assert(v@.skip(0) =~= v@);
    while i < n && is_whitespace(v[i])
        invariant
            n == v@.len(),
            i <= n,
            trim_start(v@) == trim_start(v@.skip(i as int)),
        decreases n - i,
    {
        assert(v@.skip(i as int).drop_first() =~= v@.skip(i as int + 1));
        i = i + 1;
    }
    i
}

/// Characters `from..to` of a vector.
pub fn slice_chars(v: &Vec<char>, from: usize, to: usize) -> (res: Vec<char>)
    requires
        from <= to <= v@.len(),
    ensures
        res@ == v@.subrange(from as int, to as int),
{
    let mut out: Vec<char> = Vec::new();
    let mut i = from;
    while i < to
        invariant
            from <= i <= to,
            to <= v@.len(),
            out@ == v@.subrange(from as int, i as int),
        decreases to - i,
    {
        out.push(v[i]);
        assert(v@.subrange(from as int, i as int + 1) =~= v@.subrange(from as int, i as int).push(
            v@[i as int],
        ));
        i = i + 1;
    }
    out
}

/// `str::trim` on a character vector.
pub fn trim_chars(v: &Vec<char>) -> (res: Vec<char>)
    ensures
        res@ == spec_trim(v@),
{
    let start = skip_ws(v);
    let mut end = v.len();
    let ghost t = v@.skip(start as int);
    assert(t.take(t.len() as int) =~= t);
    while end > start && is_whitespace(v[end - 1])
        invariant
            start <= end <= v@.len(),
            t == v@.skip(start as int),
            trim_end(t) == trim_end(v@.subrange(start as int, end as int)),
        decreases end,
    {
        assert(v@.subrange(start as int, end as int).drop_last() =~= v@.subrange(
            start as int,
            end as int - 1,
        ));
        end = end - 1;
    }
    assert(t =~= v@.subrange(start as int, v@.len() as int));
    slice_chars(v, start, end)
}

/// `str::trim`.
pub fn trim(s: &str) -> (res: String)
    ensures
        res@ == spec_trim(s@),
{
    let v = to_chars(s);
    let t = trim_chars(&v);
    from_chars(&t)
}

/// The words of `s` and the word being read, after scanning `s` left to right.
pub open spec fn scan_words(s: Seq<char>) -> (Seq<Seq<char>>, Seq<char>)
    decreases s.len(),
{
    if s.len() == 0 {
        (Seq::empty(), Seq::empty())
    } else {
        let (words, cur) = scan_words(s.drop_last());
        let c = s.last();
        if is_ws(c) {
            if cur.len() > 0 {
                (words.push(cur), Seq::empty())
            } else {
                (words, Seq::empty())
            }
        } else {
            (words, cur.push(c))
        }
    }
}

/// `str::split_whitespace`: the maximal runs of non-whitespace characters.
pub open spec fn split_ws(s: Seq<char>) -> Seq<Seq<char>> {
    let (words, cur) = scan_words(s);
    if cur.len() > 0 {
        words.push(cur)
    } else {
        words
    }
}

/// `str::split_whitespace`.
pub fn split_whitespace(s: &str) -> (res: Vec<String>)
    ensures
        res@.len() == split_ws(s@).len(),
        forall|i: int| 0 <= i < res@.len() ==> #[trigger] res@[i]@ == split_ws(s@)[i],
{
    let v = to_chars(s);
    let n = v.len();
    let mut words: Vec<String> = Vec::new();
    let mut cur: Vec<char> = Vec::new();
    let mut i: usize = 0;
    while i < n
        invariant
            n == v@.len(),
            v@ == s@,
            i <= n,
            words@.len() == scan_words(v@.take(i as int)).0.len(),
            forall|k: int|
                0 <= k < words@.len() ==> #[trigger] words@[k]@ == scan_words(
                    v@.take(i as int),
                ).0[k],
            cur@ == scan_words(v@.take(i as int)).1,
        decreases n - i,
    {
        let c = v[i];
        assert(v@.take(i as int + 1).drop_last() =~= v@.take(i as int));
        if is_whitespace(c) {
            if cur.len() > 0 {
                let w = from_chars(&cur);
                words.push(w);
            }
            cur = Vec::new();
        } else {
            cur.push(c);
        }
        i = i + 1;
    }
    assert(v@.take(n as int) =~= v@);
    if cur.len() > 0 {
        let w = from_chars(&cur);
        words.push(w);
    }
    words
}

/// The strings of `list` joined with `sep` between neighbours.
pub open spec fn seq_join(list: Seq<Seq<char>>, sep: Seq<char>) -> Seq<char>
    decreases list.len(),
{
    if list.len() == 0 {
        Seq::empty()
    } else if list.len() == 1 {
        list[0]
    } else {
        seq_join(list.drop_last(), sep) + sep + list.last()
    }
}

/// The views of a vector of strings.
pub open spec fn views(v: Seq<String>) -> Seq<Seq<char>> {
    v.map_values(|s: String| s@)
}

/// Appends a string slice to a `String`.
pub fn push_str(out: &mut String, s: &str)
    ensures
        final(out)@ == old(out)@ + s@,
{
    let v = to_chars(s);
    let n = v.len();
    let mut i: usize = 0;
    let ghost start = out@;
    while i < n
        invariant
            n == v@.len(),
            v@ == s@,
            i <= n,
            out@ == start + v@.take(i as int),
        decreases n - i,
    {
        push_char(out, v[i]);
        assert(start + v@.take(i as int + 1) =~= (start + v@.take(i as int)).push(v@[i as int]));
        i = i + 1;
    }
    assert(v@.take(n as int) =~= v@);
}

/// `[String]::join`.
pub fn join(list: &Vec<String>, sep: &str) -> (res: String)
    ensures
        res@ == seq_join(views(list@), sep@),
{
    let mut out = String::new();
    let n = list.len();
    let mut i: usize = 0;
    while i < n
        invariant
            n == list@.len(),
            i <= n,
            out@ == seq_join(views(list@).take(i as int), sep@),
        decreases n - i,
    {
        assert(views(list@).take(i as int + 1).drop_last() =~= views(list@).take(i as int));
        if i != 0 {
            push_str(&mut out, sep);
        } else {
            assert(out@ =~= Seq::<char>::empty());
        }
        push_str(&mut out, list[i].as_str());
        i = i + 1;
    }
    assert(views(list@).take(n as int) =~= views(list@));
    out
}

/// `concat` of two strings.
pub fn concat2(a: &str, b: &str) -> (res: String)
    ensures
        res@ == a@ + b@,
{
    let mut out = String::new();
    push_str(&mut out, a);
    push_str(&mut out, b);
    assert(out@ =~= a@ + b@);
    out
}

/// `concat` of three strings.
pub fn concat3(a: &str, b: &str, c: &str) -> (res: String)
    ensures
        res@ == a@ + b@ + c@,
{
    let mut out = String::new();
    push_str(&mut out, a);
    push_str(&mut out, b);
    push_str(&mut out, c);
    assert(out@ =~= a@ + b@ + c@);
    out
}

/// A copy of a string slice.
pub fn owned(s: &str) -> (res: String)
    ensures
        res@ == s@,
{
    let mut out = String::new();
    push_str(&mut out, s);
    assert(out@ =~= s@);
    out
}

/// `pat` occurs in `s` at position `i`.
pub open spec fn occurs_at(s: Seq<char>, pat: Seq<char>, i: int) -> bool {
    0 <= i && i + pat.len() <= s.len() && s.subrange(i, i + pat.len()) == pat
}

pub open spec fn spec_starts_with(s: Seq<char>, pat: Seq<char>) -> bool {
    occurs_at(s, pat, 0)
}

pub open spec fn spec_ends_with(s: Seq<char>, pat: Seq<char>) -> bool {
    occurs_at(s, pat, s.len() - pat.len())
}

pub open spec fn spec_contains(s: Seq<char>, pat: Seq<char>) -> bool {
    exists|i: int| occurs_at(s, pat, i)
}

/// Whether `pat` occurs in `v` at position `i`.
pub fn matches_at(v: &Vec<char>, pat: &Vec<char>, i: usize) -> (res: bool)
    ensures
        res == occurs_at(v@, pat@, i as int),
{
    if pat.len() > v.len() || i > v.len() - pat.len() {
        return false;
    }
    let n = pat.len();
    let mut k: usize = 0;
    while k < n
        invariant
            n == pat@.len(),
            i + n <= v@.len(),
            v@.len() <= usize::MAX,
            k <= n,
            forall|j: int| 0 <= j < k ==> v@[i + j] == pat@[j],
        decreases n - k,
    {
        if v[i + k] != pat[k] {
            assert(v@.subrange(i as int, i + n)[k as int] != pat@[k as int]);
            return false;
        }
        k = k + 1;
    }
    assert(v@.subrange(i as int, i + n) =~= pat@);
    true
}

/// `str::starts_with`.
pub fn starts_with(s: &str, pat: &str) -> (res: bool)
    ensures
        res == spec_starts_with(s@, pat@),
{
    let v = to_chars(s);
    let p = to_chars(pat);
    matches_at(&v, &p, 0)
}

/// `str::ends_with`.
pub fn ends_with(s: &str, pat: &str) -> (res: bool)
    ensures
        res == spec_ends_with(s@, pat@),
{
    let v = to_chars(s);
    let p = to_chars(pat);
    if p.len() > v.len() {
        return false;
    }
    matches_at(&v, &p, v.len() - p.len())
}

/// `str::contains`.
pub fn contains(s: &str, pat: &str) -> (res: bool)
    ensures
        res == spec_contains(s@, pat@),
{
    let v = to_chars(s);
    let p = to_chars(pat);
    if p.len() > v.len() {
        return false;
    }
    let last = v.len() - p.len();
    let mut i: usize = 0;
    loop
        invariant_except_break
            last == v@.len() - p@.len(),
            v@ == s@,
            p@ == pat@,
            i <= last,
            forall|j: int| 0 <= j < i ==> !occurs_at(v@, p@, j),
        ensures
            forall|j: int| 0 <= j <= last ==> !occurs_at(v@, p@, j),
        decreases last - i,
    {
        if matches_at(&v, &p, i) {
            assert(occurs_at(s@, pat@, i as int));
            return true;
        }
        if i == last {
            break;
        }
        i = i + 1;
    }
    false
}

/// `str::replace` with a non-empty pattern: every non-overlapping occurrence of
/// `pat`, found from the left, becomes `to`.
pub open spec fn spec_replace(s: Seq<char>, pat: Seq<char>, to: Seq<char>) -> Seq<char>
    decreases s.len(),
{
    if s.len() == 0 || pat.len() == 0 {
        s
    } else if occurs_at(s, pat, 0) {
        to + spec_replace(s.skip(pat.len() as int), pat, to)
    } else {
        seq![s[0]] + spec_replace(s.drop_first(), pat, to)
    }
}

/// `str::replace` with an empty pattern: `to` before every character and at
/// the end.
pub open spec fn spec_insert_everywhere(s: Seq<char>, to: Seq<char>) -> Seq<char>
    decreases s.len(),
{
    if s.len() == 0 {
        to
    } else {
        spec_insert_everywhere(s.drop_last(), to).push(s.last()) + to
    }
}

fn insert_everywhere(v: &Vec<char>, t: &Vec<char>) -> (res: Vec<char>)
    ensures
        res@ == spec_insert_everywhere(v@, t@),
{
    let mut out: Vec<char> = Vec::new();
    append_chars(&mut out, t);
    assert(out@ =~= spec_insert_everywhere(v@.take(0), t@));
    let n = v.len();
    let mut i: usize = 0;
    while i < n
        invariant
            n == v@.len(),
            i <= n,
            out@ == spec_insert_everywhere(v@.take(i as int), t@),
        decreases n - i,
    {
        out.push(v[i]);
        append_chars(&mut out, t);
        assert(v@.take(i as int + 1).drop_last() =~= v@.take(i as int));
        i = i + 1;
    }
    assert(v@.take(n as int) =~= v@);
    out
}

fn append_chars(out: &mut Vec<char>, t: &Vec<char>)
    ensures
        final(out)@ == old(out)@ + t@,
{
    let ghost before = out@;
    let mut k: usize = 0;
    while k < t.len()
        invariant
            k <= t@.len(),
            out@ == before + t@.take(k as int),
        decreases t@.len() - k,
    {
        out.push(t[k]);
        assert(before + t@.take(k as int + 1) =~= (before + t@.take(k as int)).push(t@[k as int]));
        k = k + 1;
    }
    assert(t@.take(t@.len() as int) =~= t@);
}

/// `str::replace`: with a non-empty pattern see `spec_replace`; an empty
/// pattern puts `to` before every character and at the end.
pub fn replace(s: &str, pat: &str, to: &str) -> (res: String)
    ensures
        pat@.len() > 0 ==> res@ == spec_replace(s@, pat@, to@),
        pat@.len() == 0 ==> res@ == spec_insert_everywhere(s@, to@),
{
    if pat.is_empty() {
        let v = to_chars(s);
        let t = to_chars(to);
        let out = insert_everywhere(&v, &t);
        return from_chars(&out);
    }
    let v = to_chars(s);
    let p = to_chars(pat);
    let t = to_chars(to);
    let n = v.len();
    let mut out: Vec<char> = Vec::new();
    let mut i: usize = 0;
    assert(v@.skip(0) =~= v@);
    while i < n
        invariant
            n == v@.len(),
            v@ == s@,
            p@ == pat@,
            t@ == to@,
            p@.len() > 0,
            i <= n,
            spec_replace(v@, p@, t@) == out@ + spec_replace(v@.skip(i as int), p@, t@),
        decreases n - i,
    {
        let ghost rest = v@.skip(i as int);
        if matches_at(&v, &p, i) {
            assert(rest.subrange(0, p@.len() as int) =~= v@.subrange(i as int, i + p@.len()));
            assert(rest.skip(p@.len() as int) =~= v@.skip(i + p@.len()));
            let mut k: usize = 0;
            let ghost before = out@;
            while k < t.len()
                invariant
                    k <= t@.len(),
                    out@ == before + t@.take(k as int),
                decreases t@.len() - k,
            {
                out.push(t[k]);
                assert(before + t@.take(k as int + 1) =~= (before + t@.take(k as int)).push(
                    t@[k as int],
                ));
                k = k + 1;
            }
            assert(t@.take(t@.len() as int) =~= t@);
            assert(out@ + spec_replace(v@.skip(i + p@.len()), p@, t@) =~= before + (t@
                + spec_replace(v@.skip(i + p@.len()), p@, t@)));
            i = i + p.len();
        } else {
            assert(i + p@.len() <= n ==> rest.subrange(0, p@.len() as int) =~= v@.subrange(
                i as int,
                i + p@.len(),
            ));
            assert(rest.drop_first() =~= v@.skip(i as int + 1));
            let ghost before = out@;
            out.push(v[i]);
            assert(before + (seq![v@[i as int]] + spec_replace(v@.skip(i as int + 1), p@, t@))
                =~= out@ + spec_replace(v@.skip(i as int + 1), p@, t@));
            i = i + 1;
        }
    }
    assert(v@.skip(n as int) =~= Seq::<char>::empty());
    assert(out@ + Seq::<char>::empty() =~= out@);
    from_chars(&out)
}


/// The decimal digit character of `d < 10`.
pub open spec fn digit_char(d: nat) -> char {
    ((d + 48) as u8) as char
}

/// The decimal representation of `n`, without leading zeros.
pub open spec fn dec(n: nat) -> Seq<char>
    decreases n,
{
    if n < 10 {
        seq![digit_char(n)]
    } else {
        dec(n / 10).push(digit_char(n % 10))
    }
}

fn push_dec(out: &mut String, n: u64)
    ensures
        final(out)@ == old(out)@ + dec(n as nat),
    decreases n,
{
    if n < 10 {
        let b: u8 = (n as u8) + 48;
        push_char(out, b as char);
        assert(old(out)@ + dec(n as nat) =~= old(out)@.push(b as char));
    } else {
        push_dec(out, n / 10);
        let b: u8 = ((n % 10) as u8) + 48;
        push_char(out, b as char);
        assert(old(out)@ + dec(n as nat) =~= old(out)@ + dec((n / 10) as nat) + seq![b as char]);
    }
}

/// The decimal text of a number is all digits, and reads back as the number.
pub proof fn lemma_dec_reads_back(n: nat)
    ensures
        dec(n).len() > 0,
        all_digits(dec(n)),
        digits_value(dec(n)) == n,
    decreases n,
{
    if n < 10 {
        assert(dec(n).drop_last() =~= Seq::<char>::empty());
        assert((digit_char(n) as nat) == n + 48);
        assert(digits_value(Seq::<char>::empty()) == 0);
        assert(digits_value(dec(n)) == digits_value(dec(n).drop_last()) * 10 + ((dec(n).last() as nat)
            - 48) as nat);
    } else {
        lemma_dec_reads_back(n / 10);
        let d = (n % 10) as nat;
        assert((digit_char(d) as nat) == d + 48);
        assert(dec(n).drop_last() =~= dec(n / 10));
        assert(dec(n).last() == digit_char(d));
        assert(digits_value(dec(n)) == digits_value(dec(n / 10)) * 10 + d);
        assert forall|i: int| 0 <= i < dec(n).len() implies is_ascii_digit(#[trigger] dec(n)[i]) by {
            if i < dec(n).len() - 1 {
                assert(dec(n)[i] == dec(n / 10)[i]);
            }
        }
    }
}

/// `u64::to_string`.
pub fn u64_to_string(n: u64) -> (res: String)
    ensures
        res@ == dec(n as nat),
{
    let mut out = String::new();
    push_dec(&mut out, n);
    assert(out@ =~= dec(n as nat));
    out
}

/// The value of a string of decimal digits.
pub open spec fn digits_value(s: Seq<char>) -> nat
    decreases s.len(),
{
    if s.len() == 0 {
        0
    } else {
        digits_value(s.drop_last()) * 10 + ((s.last() as nat) - 48) as nat
    }
}

pub open spec fn all_digits(s: Seq<char>) -> bool {
    forall|i: int| 0 <= i < s.len() ==> is_ascii_digit(#[trigger] s[i])
}

/// The digits that `u32::from_str` reads: everything after one optional `+`.
pub open spec fn unsigned_body(s: Seq<char>) -> Seq<char> {
    if s.len() > 0 && s[0] == '+' {
        s.drop_first()
    } else {
        s
    }
}

/// `str::parse::<u32>().ok()`: an optional `+`, then at least one ASCII digit,
/// with a value that fits in `u32`.
pub open spec fn spec_parse_u32(s: Seq<char>) -> Option<u32> {
    let body = unsigned_body(s);
    if body.len() > 0 && all_digits(body) && digits_value(body) <= u32::MAX {
        Some(digits_value(body) as u32)
    } else {
        None
    }
}

proof fn lemma_digits_value_grows(s: Seq<char>, i: int)
    requires
        0 <= i <= s.len(),
        all_digits(s),
    ensures
        digits_value(s.take(i)) <= digits_value(s),
    decreases s.len() - i,
{
    if i < s.len() {
        lemma_digits_value_grows(s, i + 1);
        assert(s.take(i + 1).drop_last() =~= s.take(i));
    } else {
        assert(s.take(i) =~= s);
    }
}

/// `str::parse::<u32>().ok()` on a character vector.
pub fn parse_u32_chars(v: &Vec<char>) -> (res: Option<u32>)
    ensures
        res == spec_parse_u32(v@),
{
    let start: usize = if v.len() > 0 && v[0] == '+' {
        1
    } else {
        0
    };
    let ghost body = unsigned_body(v@);
    assert(body =~= v@.skip(start as int));
    let n = v.len();
    if start == n {
        return None;
    }
    let mut val: u64 = 0;
    let mut i = start;
    while i < n
        invariant
            start <= i <= n,
            n == v@.len(),
            body == v@.skip(start as int),
            body == unsigned_body(v@),
            body.len() > 0,
            all_digits(body.take(i - start)),
            val as nat == digits_value(body.take(i - start)),
            val <= u32::MAX,
        decreases n - i,
    {
        let c = v[i];
        if !ascii_digit(c) {
            assert(body[i - start] == c);
            return None;
        }
        let d: u64 = ((c as u32) - 48) as u64;
        let next: u64 = val * 10 + d;
        assert(body.take(i - start + 1).drop_last() =~= body.take(i - start));
        assert(body.take(i - start + 1).last() == c);
        if next > 0xffff_ffff {
            proof {
                if all_digits(body) {
                    lemma_digits_value_grows(body, i - start + 1);
                }
            }
            return None;
        }
        val = next;
        i = i + 1;
    }
    assert(body.take(n - start) =~= body);
    Some(val as u32)
}

/// `str::parse::<u32>().ok()`.
pub fn parse_u32(s: &str) -> (res: Option<u32>)
    ensures
        res == spec_parse_u32(s@),
{
    let v = to_chars(s);
    parse_u32_chars(&v)
}


/// The lowercase hexadecimal digit of `n < 16`.
pub open spec fn hex_digit(n: nat) -> char {
    if n < 10 {
        ((n + 48) as u8) as char
    } else {
        ((n + 87) as u8) as char
    }
}

/// Bytes as lowercase hexadecimal, two digits per byte, high nibble first.
pub open spec fn spec_hex_lower(b: Seq<u8>) -> Seq<char>
    decreases b.len(),
{
    if b.len() == 0 {
        Seq::empty()
    } else {
        spec_hex_lower(b.drop_last()) + seq![
            hex_digit((b.last() / 16) as nat),
            hex_digit((b.last() % 16) as nat),
        ]
    }
}

fn hex_char(n: u8) -> (res: char)
    requires
        n < 16,
    ensures
        res == hex_digit(n as nat),
{
    if n < 10 {
        (n + 48) as char
    } else {
        (n + 87) as char
    }
}

/// Bytes as lowercase hexadecimal (the `{:02x}` format of each byte).
pub fn hex_lower(b: &[u8]) -> (res: String)
    ensures
        res@ == spec_hex_lower(b@),
{
    let mut out = String::new();
    let n = b.len();
    let mut i: usize = 0;
    while i < n
        invariant
            n == b@.len(),
            i <= n,
            out@ == spec_hex_lower(b@.take(i as int)),
        decreases n - i,
    {
        let x = b[i];
        assert(b@.take(i as int + 1).drop_last() =~= b@.take(i as int));
        let ghost before = out@;
        push_char(&mut out, hex_char(x / 16));
        push_char(&mut out, hex_char(x % 16));
        assert(out@ =~= before + seq![hex_digit((x / 16) as nat), hex_digit((x % 16) as nat)]);
        i = i + 1;
    }
    assert(b@.take(n as int) =~= b@);
    out
}

proof fn lemma_hex_len(b: Seq<u8>)
    ensures
        spec_hex_lower(b).len() == 2 * b.len(),
    decreases b.len(),
{
    if b.len() > 0 {
        lemma_hex_len(b.drop_last());
    }
}

pub broadcast proof fn hex_lower_len(b: Seq<u8>)
    ensures
        #[trigger] spec_hex_lower(b).len() == 2 * b.len(),
{
    lemma_hex_len(b);
}


/// The pieces of `s` around each `sep`, and the piece being read, after
/// scanning `s` left to right.
pub open spec fn scan_split(s: Seq<char>, sep: char) -> (Seq<Seq<char>>, Seq<char>)
    decreases s.len(),
{
    if s.len() == 0 {
        (Seq::empty(), Seq::empty())
    } else {
        let (pieces, cur) = scan_split(s.drop_last(), sep);
        if s.last() == sep {
            (pieces.push(cur), Seq::empty())
        } else {
            (pieces, cur.push(s.last()))
        }
    }
}

/// `str::split(sep)`: the pieces between separators, empty ones included.
pub open spec fn spec_split(s: Seq<char>, sep: char) -> Seq<Seq<char>> {
    let (pieces, cur) = scan_split(s, sep);
    pieces.push(cur)
}

/// No piece of a split holds the separator, nor a character `c` that the
/// text does not hold.
pub proof fn lemma_split_pieces_avoid(s: Seq<char>, sep: char, c: char)
    requires
        c == sep || forall|j: int| 0 <= j < s.len() ==> s[j] != c,
    ensures
        forall|k: int, i: int|
            0 <= k < spec_split(s, sep).len() && 0 <= i < spec_split(s, sep)[k].len() ==> spec_split(
                s,
                sep,
            )[k][i] != c,
{
    lemma_scan_split_avoids(s, sep, c);
    let (pieces, cur) = scan_split(s, sep);
    assert forall|k: int, i: int|
        0 <= k < pieces.push(cur).len() && 0 <= i < pieces.push(cur)[k].len() implies pieces.push(
            cur,
        )[k][i] != c by {
        if k < pieces.len() {
            assert(pieces.push(cur)[k] == pieces[k]);
        }
    }
}

proof fn lemma_scan_split_avoids(s: Seq<char>, sep: char, c: char)
    requires
        c == sep || forall|j: int| 0 <= j < s.len() ==> s[j] != c,
    ensures
        forall|k: int, i: int|
            0 <= k < scan_split(s, sep).0.len() && 0 <= i < scan_split(s, sep).0[k].len()
                ==> scan_split(s, sep).0[k][i] != c,
        forall|i: int| 0 <= i < scan_split(s, sep).1.len() ==> scan_split(s, sep).1[i] != c,
    decreases s.len(),
{
    if s.len() > 0 {
        let t = s.drop_last();
        assert forall|j: int| 0 <= j < t.len() implies t[j] == s[j] by {}
        lemma_scan_split_avoids(t, sep, c);
        let (pieces, cur) = scan_split(t, sep);
        let last = s.last();
        assert(last == s[s.len() - 1]);
        if last == sep {
            assert forall|k: int, i: int|
                0 <= k < pieces.push(cur).len() && 0 <= i < pieces.push(cur)[k].len() implies pieces.push(
                    cur,
                )[k][i] != c by {
                if k < pieces.len() {
                    assert(pieces.push(cur)[k] == pieces[k]);
                }
            }
        } else {
            assert forall|i: int| 0 <= i < cur.push(last).len() implies cur.push(last)[i] != c by {
                if i < cur.len() {
                    assert(cur.push(last)[i] == cur[i]);
                }
            }
        }
    }
}

/// Scanning on past text without separators only extends the current piece.
pub proof fn lemma_scan_split_extends(a: Seq<char>, b: Seq<char>, sep: char)
    requires
        forall|j: int| 0 <= j < b.len() ==> b[j] != sep,
    ensures
        scan_split(a + b, sep) == (scan_split(a, sep).0, scan_split(a, sep).1 + b),
    decreases b.len(),
{
    if b.len() == 0 {
        assert(a + b =~= a);
        assert(scan_split(a, sep).1 + b =~= scan_split(a, sep).1);
    } else {
        let b0 = b.drop_last();
        assert forall|j: int| 0 <= j < b0.len() implies b0[j] != sep by {
            assert(b0[j] == b[j]);
        }
        lemma_scan_split_extends(a, b0, sep);
        assert((a + b).drop_last() =~= a + b0);
        assert((a + b).last() == b[b.len() - 1]);
        assert((scan_split(a, sep).1 + b0).push(b.last()) =~= scan_split(a, sep).1 + b);
    }
}

/// The split of pieces joined by a separator they do not hold gives them back.
pub proof fn lemma_split_of_four(p0: Seq<char>, p1: Seq<char>, p2: Seq<char>, p3: Seq<char>, sep: char)
    requires
        forall|j: int| 0 <= j < p0.len() ==> p0[j] != sep,
        forall|j: int| 0 <= j < p1.len() ==> p1[j] != sep,
        forall|j: int| 0 <= j < p2.len() ==> p2[j] != sep,
        forall|j: int| 0 <= j < p3.len() ==> p3[j] != sep,
    ensures
        spec_split(p0 + seq![sep] + p1 + seq![sep] + p2 + seq![sep] + p3, sep) == seq![p0, p1, p2, p3],
{
    let e = Seq::<char>::empty();
    lemma_scan_split_extends(e, p0, sep);
    assert(e + p0 =~= p0);
    assert(scan_split(e, sep) == (Seq::<Seq<char>>::empty(), e));
    assert(e + p0 =~= p0);
    let s1 = p0 + seq![sep];
    assert(s1.drop_last() =~= p0);
    assert(scan_split(s1, sep) == (seq![p0], e));
    lemma_scan_split_extends(s1, p1, sep);
    assert(e + p1 =~= p1);
    let s2 = s1 + p1 + seq![sep];
    assert(s2.drop_last() =~= s1 + p1);
    assert(scan_split(s2, sep) == (seq![p0, p1], e));
    lemma_scan_split_extends(s2, p2, sep);
    assert(e + p2 =~= p2);
    let s3 = s2 + p2 + seq![sep];
    assert(s3.drop_last() =~= s2 + p2);
    assert(scan_split(s3, sep) == (seq![p0, p1, p2], e));
    lemma_scan_split_extends(s3, p3, sep);
    assert(e + p3 =~= p3);
    assert(s3 + p3 =~= p0 + seq![sep] + p1 + seq![sep] + p2 + seq![sep] + p3);
    assert(seq![p0, p1, p2].push(p3) =~= seq![p0, p1, p2, p3]);
}

/// `str::split` on one character.
pub fn split_char(s: &str, sep: char) -> (res: Vec<String>)
    ensures
        views(res@) == spec_split(s@, sep),
{
    let v = to_chars(s);
    let n = v.len();
    let mut pieces: Vec<String> = Vec::new();
    let mut cur: Vec<char> = Vec::new();
    let mut i: usize = 0;
    while i < n
        invariant
            n == v@.len(),
            v@ == s@,
            i <= n,
            views(pieces@) == scan_split(v@.take(i as int), sep).0,
            cur@ == scan_split(v@.take(i as int), sep).1,
        decreases n - i,
    {
        let c = v[i];
        assert(v@.take(i as int + 1).drop_last() =~= v@.take(i as int));
        if c == sep {
            let w = from_chars(&cur);
            let ghost before = pieces@;
            pieces.push(w);
            assert(views(pieces@) =~= views(before).push(w@));
            cur = Vec::new();
        } else {
            cur.push(c);
        }
        i = i + 1;
    }
    assert(v@.take(n as int) =~= v@);
    let w = from_chars(&cur);
    let ghost before = pieces@;
    pieces.push(w);
    assert(views(pieces@) =~= views(before).push(w@));
    pieces
}

/// The position of the first `c` in `s`.
pub open spec fn first_index_of(s: Seq<char>, c: char) -> Option<int>
    decreases s.len(),
{
    if s.len() == 0 {
        None
    } else if s[0] == c {
        Some(0)
    } else {
        match first_index_of(s.drop_first(), c) {
            Some(i) => Some(i + 1),
            None => None,
        }
    }
}

/// What `first_index_of` finds: the first position of `c`, or none when `c` is absent.
pub proof fn lemma_first_index_of(s: Seq<char>, c: char)
    ensures
        first_index_of(s, c) matches Some(i) ==> 0 <= i < s.len() && s[i] == c && forall|j: int|
            0 <= j < i ==> s[j] != c,
        first_index_of(s, c) is None ==> forall|j: int| 0 <= j < s.len() ==> s[j] != c,
    decreases s.len(),
{
    if s.len() > 0 {
        lemma_first_index_of(s.drop_first(), c);
        if s[0] != c {
            assert forall|j: int| 1 <= j < s.len() implies s[j] == s.drop_first()[j - 1] by {}
        }
    }
}

/// The position of the first `c` in `v`.
pub fn find_char(v: &Vec<char>, c: char) -> (res: Option<usize>)
    ensures
        match res {
            Some(i) => first_index_of(v@, c) == Some(i as int),
            None => first_index_of(v@, c) is None,
        },
        res matches Some(i) ==> i < v@.len() && v@[i as int] == c,
{
    let n = v.len();
    let mut i: usize = 0;
    while i < n
        invariant
            n == v@.len(),
            i <= n,
            forall|j: int| 0 <= j < i ==> v@[j] != c,
        decreases n - i,
    {
        if v[i] == c {
            proof {
                lemma_first_index_of(v@, c);
                match first_index_of(v@, c) {
                    Some(k) => {
                        assert(k == i);
                    },
                    None => {},
                }
            }
            return Some(i);
        }
        i = i + 1;
    }
    proof {
        lemma_first_index_of(v@, c);
        match first_index_of(v@, c) {
            Some(k) => {
                assert(v@[k] == c);
            },
            None => {},
        }
    }
    None
}


/// `${key}` placeholders replaced by their values, one pair after another in
/// the given order.
pub open spec fn spec_substitute(t: Seq<char>, vars: Seq<(Seq<char>, Seq<char>)>) -> Seq<char>
    decreases vars.len(),
{
    if vars.len() == 0 {
        t
    } else {
        spec_replace(
            spec_substitute(t, vars.drop_last()),
            "${"@ + vars.last().0 + "}"@,
            vars.last().1,
        )
    }
}

/// The value of the first pair whose key is `key`, if any.
pub open spec fn first_binding(vars: Seq<(Seq<char>, Seq<char>)>, key: Seq<char>) -> Option<Seq<char>>
    decreases vars.len(),
{
    if vars.len() == 0 {
        None
    } else {
        match first_binding(vars.drop_last(), key) {
            Some(v) => Some(v),
            None => if vars.last().0 == key {
                Some(vars.last().1)
            } else {
                None
            },
        }
    }
}

/// The first binding of `key` is the value at `j` when position `j` holds
/// `key` and no earlier one does.
pub proof fn lemma_first_binding_at(vars: Seq<(Seq<char>, Seq<char>)>, key: Seq<char>, j: int)
    requires
        0 <= j < vars.len(),
        vars[j].0 == key,
        forall|i: int| 0 <= i < j ==> (#[trigger] vars[i]).0 != key,
    ensures
        first_binding(vars, key) == Some(vars[j].1),
    decreases vars.len(),
{
    if j < vars.len() - 1 {
        let d = vars.drop_last();
        assert(d[j] == vars[j]);
        assert forall|i: int| 0 <= i < j implies (#[trigger] d[i]).0 != key by {
            assert(d[i] == vars[i]);
        }
        lemma_first_binding_at(d, key, j);
    } else {
        lemma_first_binding_none(vars.drop_last(), key);
    }
}

/// A binding that is found is one of the pairs.
pub proof fn lemma_first_binding_found(vars: Seq<(Seq<char>, Seq<char>)>, key: Seq<char>)
    ensures
        first_binding(vars, key) matches Some(v) ==> exists|k: int|
            0 <= k < vars.len() && vars[k] == (key, v),
    decreases vars.len(),
{
    if vars.len() > 0 {
        let d = vars.drop_last();
        lemma_first_binding_found(d, key);
        match first_binding(d, key) {
            Some(v) => {
                let k = choose|k: int| 0 <= k < d.len() && d[k] == (key, v);
                assert(vars[k] == d[k]);
            },
            None => {
                if vars.last().0 == key {
                    assert(vars[vars.len() - 1] == (key, vars.last().1));
                }
            },
        }
    }
}

/// No pair has key `key`: there is no binding of it.
pub proof fn lemma_first_binding_none(vars: Seq<(Seq<char>, Seq<char>)>, key: Seq<char>)
    requires
        forall|i: int| 0 <= i < vars.len() ==> (#[trigger] vars[i]).0 != key,
    ensures
        first_binding(vars, key) is None,
    decreases vars.len(),
{
    if vars.len() > 0 {
        let d = vars.drop_last();
        assert forall|i: int| 0 <= i < d.len() implies (#[trigger] d[i]).0 != key by {
            assert(d[i] == vars[i]);
        }
        lemma_first_binding_none(d, key);
    }
}

/// The template that is the single placeholder `${key}`.
pub open spec fn placeholder(key: Seq<char>) -> Seq<char> {
    "${"@ + key + "}"@
}

/// Replacing a pattern whose first character never occurs changes nothing.
proof fn lemma_replace_without_first_char(s: Seq<char>, pat: Seq<char>, to: Seq<char>)
    requires
        pat.len() > 0,
        !s.contains(pat[0]),
    ensures
        spec_replace(s, pat, to) == s,
    decreases s.len(),
{
    if s.len() > 0 {
        if occurs_at(s, pat, 0) {
            assert(s.subrange(0, pat.len() as int)[0] == s[0]);
            assert(s.contains(s[0]));
        }
        assert(!s.drop_first().contains(pat[0])) by {
            if s.drop_first().contains(pat[0]) {
                let i = choose|i: int| 0 <= i < s.drop_first().len() && s.drop_first()[i] == pat[0];
                assert(s[i + 1] == pat[0]);
            }
        }
        lemma_replace_without_first_char(s.drop_first(), pat, to);
        assert(seq![s[0]] + s.drop_first() =~= s);
    }
}

/// In the template `${key}`, a placeholder for another key is not found.
proof fn lemma_other_placeholder_absent(key: Seq<char>, other: Seq<char>, to: Seq<char>)
    requires
        !key.contains('$'),
        !key.contains('}'),
        other != key,
    ensures
        spec_replace(placeholder(key), placeholder(other), to) == placeholder(key),
{
    reveal_strlit("${");
    reveal_strlit("}");
    let t = placeholder(key);
    let p = placeholder(other);
    assert(t[0] == '$');
    assert(p[0] == '$');
    if occurs_at(t, p, 0) {
        let m = p.len() as int;
        assert(t.subrange(0, m)[m - 1] == t[m - 1]);
        assert(p[m - 1] == '}');
        if m < t.len() {
            assert(t[m - 1] == key[m - 3]);
            assert(key.contains(key[m - 3]));
        } else {
            assert(t.subrange(0, m) =~= t);
            assert(key =~= t.subrange(2, t.len() - 1));
            assert(other =~= p.subrange(2, p.len() - 1));
        }
    }
    let r = t.drop_first();
    assert(!r.contains('$')) by {
        if r.contains('$') {
            let i = choose|i: int| 0 <= i < r.len() && r[i] == '$';
            if i < 1 {
                assert(r[i] == '{');
            } else if i < r.len() - 1 {
                assert(r[i] == key[i - 1]);
                assert(key.contains(key[i - 1]));
            } else {
                assert(r[i] == '}');
            }
        }
    }
    lemma_replace_without_first_char(r, p, to);
    assert(seq![t[0]] + r =~= t);
}

/// A template that is the single placeholder `${key}` becomes the value of
/// the first pair with that key, and stays as it is when no pair has it;
/// this holds when the key holds no `$` or `}` and no value holds a `$`.
pub proof fn law_placeholder_takes_first_binding(vars: Seq<(Seq<char>, Seq<char>)>, key: Seq<char>)
    requires
        !key.contains('$'),
        !key.contains('}'),
        forall|i: int| 0 <= i < vars.len() ==> !(#[trigger] vars[i]).1.contains('$'),
    ensures
        spec_substitute(placeholder(key), vars) == match first_binding(vars, key) {
            Some(v) => v,
            None => placeholder(key),
        },
    decreases vars.len(),
{
    reveal_strlit("${");
    reveal_strlit("}");
    if vars.len() > 0 {
        let d = vars.drop_last();
        assert forall|i: int| 0 <= i < d.len() implies !(#[trigger] d[i]).1.contains('$') by {
            assert(d[i] == vars[i]);
        }
        law_placeholder_takes_first_binding(d, key);
        let last = vars.last();
        let p = placeholder(last.0);
        let t = placeholder(key);
        assert(p[0] == '$');
        assert(spec_substitute(t, vars) == spec_replace(spec_substitute(t, d), p, last.1));
        match first_binding(d, key) {
            Some(v) => {
                lemma_first_binding_found(d, key);
                let k = choose|k: int| 0 <= k < d.len() && d[k] == (key, v);
                assert(d[k] == vars[k]);
                lemma_replace_without_first_char(v, p, last.1);
                assert(first_binding(vars, key) == Some(v));
            },
            None => {
                assert(spec_substitute(t, d) == t);
                if last.0 == key {
                    assert(occurs_at(t, t, 0)) by {
                        assert(t.subrange(0, t.len() as int) =~= t);
                    }
                    assert(t.skip(t.len() as int) =~= Seq::<char>::empty());
                    assert(spec_replace(Seq::<char>::empty(), t, last.1) == Seq::<char>::empty());
                    assert(last.1 + Seq::<char>::empty() =~= last.1);
                    assert(spec_replace(t, t, last.1) == last.1);
                    assert(first_binding(vars, key) == Some(last.1));
                } else {
                    lemma_other_placeholder_absent(key, last.0, last.1);
                    assert(first_binding(vars, key) is None);
                }
            },
        }
    }
}

/// A list of string pairs as plain sequences.
pub open spec fn pair_views(v: Seq<(String, String)>) -> Seq<(Seq<char>, Seq<char>)> {
    v.map_values(|p: (String, String)| (p.0@, p.1@))
}

/// Replaces each `${key}` placeholder of `template` by its value, pair by pair.
pub fn substitute(template: &str, vars: &Vec<(String, String)>) -> (res: String)
    ensures
        res@ == spec_substitute(template@, pair_views(vars@)),
{
    let mut out = owned(template);
    let n = vars.len();
    let mut i: usize = 0;
    proof {
        reveal_strlit("${");
        reveal_strlit("}");
    }
    while i < n
        invariant
            n == vars@.len(),
            i <= n,
            out@ == spec_substitute(template@, pair_views(vars@).take(i as int)),
        decreases n - i,
    {
        assert(pair_views(vars@).take(i as int + 1).drop_last() =~= pair_views(vars@).take(
            i as int,
        ));
        proof {
            reveal_strlit("${");
            reveal_strlit("}");
        }
        let pat = concat3("${", vars[i].0.as_str(), "}");
        out = replace(out.as_str(), pat.as_str(), vars[i].1.as_str());
        i = i + 1;
    }
    assert(pair_views(vars@).take(n as int) =~= pair_views(vars@));
    out
}


/// `trim_end_matches(c)`: drops every trailing `c`.
pub open spec fn trim_end_char(s: Seq<char>, c: char) -> Seq<char>
    decreases s.len(),
{
    if s.len() > 0 && s.last() == c {
        trim_end_char(s.drop_last(), c)
    } else {
        s
    }
}

/// `str::trim_end_matches` with one character.
pub fn trim_end_matches(s: &str, c: char) -> (res: String)
    ensures
        res@ == trim_end_char(s@, c),
{
    let v = to_chars(s);
    let mut end = v.len();
    assert(v@.take(end as int) =~= v@);
    while end > 0 && v[end - 1] == c
        invariant
            end <= v@.len(),
            trim_end_char(v@, c) == trim_end_char(v@.take(end as int), c),
        decreases end,
    {
        assert(v@.take(end as int).drop_last() =~= v@.take(end as int - 1));
        end = end - 1;
    }
    let t = slice_chars(&v, 0, end);
    assert(t@ =~= v@.take(end as int));
    from_chars(&t)
}


/// Whether `s` is one of the strings of `v`.
pub fn contains_str(v: &Vec<String>, s: &str) -> (res: bool)
    ensures
        res == views(v@).contains(s@),
{
    let n = v.len();
    let mut i: usize = 0;
    while i < n
        invariant
            n == v@.len(),
            i <= n,
            forall|k: int| 0 <= k < i ==> (#[trigger] v@[k])@ != s@,
        decreases n - i,
    {
        if eq(v[i].as_str(), s) {
            assert(views(v@)[i as int] == s@);
            return true;
        }
        i = i + 1;
    }
    assert(!views(v@).contains(s@)) by {
        if views(v@).contains(s@) {
            let k = choose|k: int| 0 <= k < views(v@).len() && views(v@)[k] == s@;
            assert(v@[k]@ == s@);
        }
    }
    false
}


/// Drops every leading `c`.
pub open spec fn trim_start_char(s: Seq<char>, c: char) -> Seq<char>
    decreases s.len(),
{
    if s.len() > 0 && s[0] == c {
        trim_start_char(s.drop_first(), c)
    } else {
        s
    }
}

/// `str::trim_matches` with one character: drops every leading and trailing `c`.
pub open spec fn spec_trim_matches(s: Seq<char>, c: char) -> Seq<char> {
    trim_end_char(trim_start_char(s, c), c)
}

/// `str::trim_matches` with one character.
pub fn trim_matches(s: &str, c: char) -> (res: String)
    ensures
        res@ == spec_trim_matches(s@, c),
{
    let v = to_chars(s);
    let n = v.len();
    let mut start: usize = 0;
    assert(v@.skip(0) =~= v@);
    while start < n && v[start] == c
        invariant
            n == v@.len(),
            start <= n,
            trim_start_char(v@, c) == trim_start_char(v@.skip(start as int), c),
        decreases n - start,
    {
        assert(v@.skip(start as int).drop_first() =~= v@.skip(start as int + 1));
        start = start + 1;
    }
    let ghost t = v@.skip(start as int);
    let mut end = n;
    assert(t =~= v@.subrange(start as int, n as int));
    while end > start && v[end - 1] == c
        invariant
            start <= end <= n,
            n == v@.len(),
            t == v@.skip(start as int),
            trim_end_char(t, c) == trim_end_char(v@.subrange(start as int, end as int), c),
        decreases end,
    {
        assert(v@.subrange(start as int, end as int).drop_last() =~= v@.subrange(
            start as int,
            end as int - 1,
        ));
        end = end - 1;
    }
    let r = slice_chars(&v, start, end);
    from_chars(&r)
}

/// `str::eq_ignore_ascii_case`.
pub fn eq_ignore_ascii_case(a: &str, b: &str) -> (res: bool)
    ensures
        res == (spec_lowercase(a@) == spec_lowercase(b@)),
{
    let x = to_ascii_lowercase(a);
    let y = to_ascii_lowercase(b);
    eq(x.as_str(), y.as_str())
}

} // verus!
