//! Character-level text helpers: whitespace trimming, collapsing runs of blanks,
//! stripping the query of a URL, decimal integers and splitting on a separator.
use vstd::prelude::*;

verus! {

// ---------------------------------------------------------------------------
// Conversions between `str`/`String` and character vectors
// ---------------------------------------------------------------------------

/// The characters of `s`, in order.
pub fn chars_of(s: &str) -> (v: Vec<char>)
    ensures
        v@ == s@,
{
    let mut v: Vec<char> = Vec::new();
    for c in it: s.chars()
        invariant
            v@ == it.seq().take(it.index() as int),
            it.seq() == s@,
    {
        v.push(c);
    }
    v
}

/// Collects characters into a `String` (std's `FromIterator<char>` for `String`).
#[verifier::external_body]
pub(crate) fn string_of(v: &Vec<char>) -> (s: String)
    ensures
        s@ == v@,
{
    v.iter().collect()
}

// ---------------------------------------------------------------------------
// Whitespace and trimming
// ---------------------------------------------------------------------------

/// Unicode `White_Space`, the property that `char::is_whitespace` and `str::trim` use.
pub open spec fn is_whitespace(c: char) -> bool {
    let u = c as u32;
    ||| 0x9 <= u <= 0xD
    ||| u == 0x20
    ||| u == 0x85
    ||| u == 0xA0
    ||| u == 0x1680
    ||| 0x2000 <= u <= 0x200A
    ||| u == 0x2028
    ||| u == 0x2029
    ||| u == 0x202F
    ||| u == 0x205F
    ||| u == 0x3000
}

/// `s` without its leading whitespace.
pub open spec fn trim_start(s: Seq<char>) -> Seq<char>
    decreases s.len(),
{
    if s.len() > 0 && is_whitespace(s[0]) {
        trim_start(s.drop_first())
    } else {
        s
    }
}

/// `s` without its trailing whitespace.
pub open spec fn trim_end(s: Seq<char>) -> Seq<char>
    decreases s.len(),
{
    if s.len() > 0 && is_whitespace(s.last()) {
        trim_end(s.drop_last())
    } else {
        s
    }
}

/// `s` without leading and trailing whitespace, as `str::trim` gives it.
pub open spec fn trim(s: Seq<char>) -> Seq<char> {
    trim_end(trim_start(s))
}

/// Whether `c` is Unicode whitespace.
pub fn is_whitespace_char(c: char) -> (b: bool)
    ensures
        b == is_whitespace(c),
{
    let u = c as u32;
    (0x9 <= u && u <= 0xD) || u == 0x20 || u == 0x85 || u == 0xA0 || u == 0x1680 || (0x2000
        <= u && u <= 0x200A) || u == 0x2028 || u == 0x2029 || u == 0x202F || u == 0x205F || u
        == 0x3000
}

/// The characters `s[from..to]`.
pub fn slice_chars(s: &Vec<char>, from: usize, to: usize) -> (r: Vec<char>)
    requires
        from <= to <= s.len(),
    ensures
        r@ == s@.subrange(from as int, to as int),
{
    let mut r: Vec<char> = Vec::new();
    let mut k = from;
    while k < to
        invariant
            from <= k <= to <= s.len(),
            r@ == s@.subrange(from as int, k as int),
        decreases to - k,
    {
        r.push(s[k]);
        k = k + 1;
    }
    r
}

/// `s` without leading and trailing whitespace.
pub fn trim_chars(s: &Vec<char>) -> (r: Vec<char>)
    ensures
        r@ == trim(s@),
{
    let n = s.len();
    let mut i: usize = 0;
    assert(s@.skip(0) =~= s@);
    while i < n && is_whitespace_char(s[i])
        invariant
            i <= n == s.len(),
            trim_start(s@) == trim_start(s@.skip(i as int)),
        decreases n - i,
    {
        assert(s@.skip(i as int).drop_first() =~= s@.skip(i + 1));
        i = i + 1;
    }
    assert(trim_start(s@.skip(i as int)) == s@.skip(i as int));
    assert(s@.skip(i as int) =~= s@.subrange(i as int, n as int));
    let mut j: usize = n;
    while j > i && is_whitespace_char(s[j - 1])
        invariant
            i <= j <= n == s.len(),
            trim_start(s@) == s@.subrange(i as int, n as int),
            trim(s@) == trim_end(s@.subrange(i as int, j as int)),
        decreases j,
    {
        assert(s@.subrange(i as int, j as int).drop_last() =~= s@.subrange(i as int, j - 1));
        j = j - 1;
    }
    slice_chars(s, i, j)
}

/// `s` without leading and trailing whitespace, as `str::trim` gives it.
pub fn trim_str(s: &str) -> (r: String)
    ensures
        r@ == trim(s@),
{
    let v = chars_of(s);
    let t = trim_chars(&v);
    string_of(&t)
}


// ---------------------------------------------------------------------------
// Collapsing runs of blanks
// ---------------------------------------------------------------------------

/// A space or a newline: the characters that collapse into one another.
pub open spec fn is_blank(c: char) -> bool {
    c == ' ' || c == '\n'
}

/// What a run of two blanks collapses into: a newline if either is one, else a space.
pub open spec fn merged_blank(a: char, b: char) -> char {
    if a == '\n' || b == '\n' {
        '\n'
    } else {
        ' '
    }
}

/// Appends `c` to already collapsed text `r`: a tab is dropped, and a blank that follows
/// a blank merges with it.
pub open spec fn collapse_step(r: Seq<char>, c: char) -> Seq<char> {
    if c == '\t' {
        r
    } else if r.len() > 0 && is_blank(r.last()) && is_blank(c) {
        r.drop_last().push(merged_blank(r.last(), c))
    } else {
        r.push(c)
    }
}

/// `s` with its tabs removed and each run of spaces and newlines collapsed into one
/// character: a newline if the run holds one, else a space.
pub open spec fn collapse_blanks(s: Seq<char>) -> Seq<char>
    decreases s.len(),
{
    if s.len() == 0 {
        s
    } else {
        collapse_step(collapse_blanks(s.drop_last()), s.last())
    }
}

/// What `replace_extra_spaces` gives: the trimmed text with tabs dropped and runs of
/// blanks collapsed.
pub open spec fn extra_spaces_replaced(s: Seq<char>) -> Seq<char> {
    collapse_blanks(trim(s))
}

/// Text with no tab and no two blanks side by side.
pub open spec fn is_collapsed(r: Seq<char>) -> bool {
    &&& forall|i: int| 0 <= i < r.len() ==> #[trigger] r[i] != '\t'
    &&& forall|i: int, j: int|
        0 <= i && j == i + 1 && j < r.len() ==> !(is_blank(#[trigger] r[i]) && is_blank(
            #[trigger] r[j],
        ))
}

/// Strips `s`, drops its tabs and collapses each run of spaces and newlines into a
/// single character (a newline where the run held one, else a space).
pub fn replace_extra_spaces(s: &str) -> (r: String)
    ensures
        r@ == extra_spaces_replaced(s@),
{
    let v = chars_of(s);
    let t = trim_chars(&v);
    let n = t.len();
    let mut out: Vec<char> = Vec::new();
    let mut i: usize = 0;
    while i < n
        invariant
            i <= n == t.len(),
            out@ == collapse_blanks(t@.take(i as int)),
        decreases n - i,
    {
        let c = t[i];
        assert(t@.take(i + 1).drop_last() =~= t@.take(i as int));
        assert(t@.take(i + 1).last() == c);
        if c == '\t' {
        } else if out.len() > 0 && (out[out.len() - 1] == ' ' || out[out.len() - 1] == '\n') && (c
            == ' ' || c == '\n') {
            let last = out.len() - 1;
            let m = if out[last] == '\n' || c == '\n' {
                '\n'
            } else {
                ' '
            };
            let ghost before = out@;
            out.set(last, m);
            assert(out@ =~= before.drop_last().push(m));
        } else {
            out.push(c);
        }
        i = i + 1;
    }
    assert(t@.take(n as int) =~= t@);
    string_of(&out)
}

// ---------------------------------------------------------------------------
// URLs
// ---------------------------------------------------------------------------

/// The characters at which the query or the fragment of a URL starts.
pub open spec fn starts_query(c: char) -> bool {
    c == '?' || c == '#'
}

/// `s` up to, not including, its first `?` or `#`: the URL without query and fragment.
pub open spec fn url_without_query(s: Seq<char>) -> Seq<char>
    decreases s.len(),
{
    if s.len() == 0 || starts_query(s[0]) {
        Seq::empty()
    } else {
        seq![s[0]] + url_without_query(s.drop_first())
    }
}

proof fn lemma_url_without_query_at(s: Seq<char>, i: int)
    requires
        0 <= i <= s.len(),
        forall|j: int| 0 <= j < i ==> !starts_query(#[trigger] s[j]),
        i == s.len() || starts_query(s[i]),
    ensures
        url_without_query(s) == s.take(i),
    decreases i,
{
    if i == 0 {
        assert(s.take(0) =~= Seq::<char>::empty());
    } else {
        assert(!starts_query(s[0]));
        let t = s.drop_first();
        assert forall|j: int| 0 <= j < i - 1 implies !starts_query(#[trigger] t[j]) by {
            assert(t[j] == s[j + 1]);
        }
        lemma_url_without_query_at(t, i - 1);
        assert(seq![s[0]] + t.take(i - 1) =~= s.take(i));
    }
}

/// Removes the query and the fragment of a URL: the text up to its first `?` or `#`.
pub fn url_cleaner(s: &str) -> (r: String)
    ensures
        r@ == url_without_query(s@),
{
    let v = chars_of(s);
    let n = v.len();
    let mut i: usize = 0;
    while i < n && !(v[i] == '?' || v[i] == '#')
        invariant
            i <= n == v.len(),
            forall|j: int| 0 <= j < i ==> !starts_query(#[trigger] v@[j]),
        decreases n - i,
    {
        i = i + 1;
    }
    proof {
        lemma_url_without_query_at(v@, i as int);
    }
    let r = slice_chars(&v, 0, i);
    assert(r@ =~= v@.take(i as int));
    string_of(&r)
}


// ---------------------------------------------------------------------------
// Decimal integers
// ---------------------------------------------------------------------------

/// An ASCII decimal digit.
pub open spec fn is_digit(c: char) -> bool {
    48 <= (c as u32) <= 57
}

/// The value of an ASCII digit.
pub open spec fn digit_value(c: char) -> int {
    (c as u32) - 48
}

/// The value of a string of digits, most significant first.
pub open spec fn digits_value(d: Seq<char>) -> int
    decreases d.len(),
{
    if d.len() == 0 {
        0
    } else {
        digits_value(d.drop_last()) * 10 + digit_value(d.last())
    }
}

/// A non-empty string of ASCII digits.
pub open spec fn all_digits(d: Seq<char>) -> bool {
    d.len() > 0 && forall|i: int| 0 <= i < d.len() ==> is_digit(#[trigger] d[i])
}

/// The integer that `s` writes: an optional `+` or `-` followed by one or more digits,
/// nothing else.
pub open spec fn int_of(s: Seq<char>) -> Option<int> {
    if s.len() > 0 && s[0] == '-' && all_digits(s.drop_first()) {
        Some(-digits_value(s.drop_first()))
    } else if s.len() > 0 && s[0] == '+' && all_digits(s.drop_first()) {
        Some(digits_value(s.drop_first()))
    } else if all_digits(s) {
        Some(digits_value(s))
    } else {
        None
    }
}

/// What `str::parse::<i32>` gives on `s`, as an `Option`: the integer `s` writes, if it
/// fits in an `i32`.
pub open spec fn parsed_i32(s: Seq<char>) -> Option<i32> {
    match int_of(s) {
        Some(v) => if i32::MIN <= v <= i32::MAX {
            Some(v as i32)
        } else {
            None
        },
        None => None,
    }
}

proof fn lemma_digits_value_nonneg(d: Seq<char>)
    requires
        forall|i: int| 0 <= i < d.len() ==> is_digit(#[trigger] d[i]),
    ensures
        digits_value(d) >= 0,
    decreases d.len(),
{
    if d.len() > 0 {
        let e = d.drop_last();
        assert forall|i: int| 0 <= i < e.len() implies is_digit(#[trigger] e[i]) by {
            assert(e[i] == d[i]);
        }
        lemma_digits_value_nonneg(e);
        assert(is_digit(d[d.len() - 1]));
    }
}

/// The value of a prefix of a digit string is at most the value of the whole.
proof fn lemma_digits_value_prefix(d: Seq<char>, k: int)
    requires
        0 <= k <= d.len(),
        forall|i: int| 0 <= i < d.len() ==> is_digit(#[trigger] d[i]),
    ensures
        digits_value(d.take(k)) <= digits_value(d),
    decreases d.len(),
{
    if k < d.len() {
        let e = d.drop_last();
        assert forall|i: int| 0 <= i < e.len() implies is_digit(#[trigger] e[i]) by {
            assert(e[i] == d[i]);
        }
        lemma_digits_value_prefix(e, k);
        assert(e.take(k) =~= d.take(k));
        lemma_digits_value_nonneg(e);
        assert(is_digit(d[d.len() - 1]));
    } else {
        assert(d.take(k) =~= d);
    }
}

/// Parses a decimal `i32` as `str::parse::<i32>` does: an optional sign followed by
/// digits; `None` where the text is anything else or the value does not fit.
pub fn parse_i32(s: &Vec<char>) -> (r: Option<i32>)
    ensures
        r == parsed_i32(s@),
{
    let n = s.len();
    if n == 0 {
        return None;
    }
    let signed = s[0] == '-' || s[0] == '+';
    let start: usize = if signed {
        1
    } else {
        0
    };
    if start == n {
        assert(!all_digits(s@.drop_first()));
        assert(!is_digit(s@[0]));
        return None;
    }
    let ghost rest = s@.subrange(start as int, n as int);
    assert(signed ==> rest =~= s@.drop_first());
    assert(!signed ==> rest =~= s@);
    let mut acc: i64 = 0;
    let mut i: usize = start;
    while i < n
        invariant
            start <= i <= n == s.len(),
            start == 0 || start == 1,
            n > 0,
            signed == (s@[0] == '-' || s@[0] == '+'),
            start == (if signed { 1usize } else { 0usize }),
            rest == s@.subrange(start as int, n as int),
            acc == digits_value(rest.take(i - start)),
            0 <= acc <= 0x8000_0000,
            forall|k: int| start <= k < i ==> is_digit(#[trigger] s@[k]),
        decreases n - i,
    {
        let c = s[i];
        if !(48 <= (c as u32) && (c as u32) <= 57) {
            assert(rest[i - start] == c);
            assert(!all_digits(rest));
            assert(signed ==> !is_digit(s@[0]));
            return None;
        }
        let d = (c as u32 - 48) as i64;
        assert(rest.take(i - start + 1).drop_last() =~= rest.take(i - start));
        assert(rest.take(i - start + 1).last() == c);
        acc = acc * 10 + d;
        i = i + 1;
        assert(acc == digits_value(rest.take(i - start)));
        if acc > 0x8000_0000 {
            proof {
                if all_digits(rest) {
                    lemma_digits_value_prefix(rest, i - start);
                    assert(digits_value(rest) > 0x8000_0000);
                    if signed {
                        assert(rest =~= s@.drop_first());
                    } else {
                        assert(rest =~= s@);
                    }
                } else {
                    assert(signed ==> !is_digit(s@[0]));
                }
            }
            return None;
        }
    }
    assert(rest.take(n - start) =~= rest);
    assert forall|k: int| 0 <= k < rest.len() implies is_digit(#[trigger] rest[k]) by {
        assert(rest[k] == s@[k + start]);
    }
    if s[0] == '-' {
        if acc <= 0x8000_0000 {
            Some((-acc) as i32)
        } else {
            None
        }
    } else {
        assert(!signed ==> all_digits(s@));
        if acc <= 0x7fff_ffff {
            Some(acc as i32)
        } else {
            None
        }
    }
}

/// The ASCII digit for `d`, where `0 <= d < 10`.
pub open spec fn digit_char(d: nat) -> char {
    ((d + 48) as u8) as char
}

/// The decimal digits of `n`, most significant first, without leading zeros.
pub open spec fn digits_of(n: nat) -> Seq<char>
    decreases n,
{
    if n < 10 {
        seq![digit_char(n)]
    } else {
        digits_of(n / 10).push(digit_char(n % 10))
    }
}

/// `n` written in decimal, with a leading `-` when negative: what `Display` writes
/// for an integer.
pub open spec fn decimal(n: int) -> Seq<char> {
    if n < 0 {
        seq!['-'] + digits_of((-n) as nat)
    } else {
        digits_of(n as nat)
    }
}

fn push_digits(v: &mut Vec<char>, n: u64)
    ensures
        final(v)@ == old(v)@ + digits_of(n as nat),
    decreases n,
{
    if n >= 10 {
        push_digits(v, n / 10);
    }
    let d = (n % 10) as u8;
    v.push((d + 48) as char);
    assert(digits_of(n as nat) == if n < 10 {
        seq![digit_char(n as nat)]
    } else {
        digits_of((n / 10) as nat).push(digit_char((n % 10) as nat))
    });
}

/// `n` written in decimal.
pub fn decimal_of(n: i64) -> (r: Vec<char>)
    ensures
        r@ == decimal(n as int),
{
    let mut v: Vec<char> = Vec::new();
    if n < 0 {
        v.push('-');
        let m: u64 = if n == i64::MIN {
            0x8000_0000_0000_0000
        } else {
            (-n) as u64
        };
        push_digits(&mut v, m);
        assert(v@ =~= seq!['-'] + digits_of((-n) as nat));
    } else {
        push_digits(&mut v, n as u64);
        assert(v@ =~= digits_of(n as nat));
    }
    v
}

// ---------------------------------------------------------------------------
// Splitting
// ---------------------------------------------------------------------------

/// The pieces of `s` between occurrences of `sep`, as `str::split` gives them: one
/// more piece than there are separators, empty pieces included.
pub open spec fn split_on(s: Seq<char>, sep: char) -> Seq<Seq<char>>
    decreases s.len(),
{
    if s.len() == 0 {
        seq![Seq::<char>::empty()]
    } else {
        let p = split_on(s.drop_last(), sep);
        if s.last() == sep {
            p.push(Seq::<char>::empty())
        } else {
            p.update(p.len() - 1, p.last().push(s.last()))
        }
    }
}

/// Splits `s` at each `sep`.
pub fn split_chars(s: &Vec<char>, sep: char) -> (r: Vec<Vec<char>>)
    ensures
        r@.len() == split_on(s@, sep).len(),
        forall|k: int| 0 <= k < r@.len() ==> #[trigger] r@[k]@ == split_on(s@, sep)[k],
{
    let n = s.len();
    let mut done: Vec<Vec<char>> = Vec::new();
    let mut cur: Vec<char> = Vec::new();
    let mut i: usize = 0;
    assert(s@.take(0) =~= Seq::<char>::empty());
    while i < n
        invariant
            i <= n == s.len(),
            split_on(s@.take(i as int), sep).len() == done@.len() + 1,
            forall|k: int|
                0 <= k < done@.len() ==> #[trigger] done@[k]@ == split_on(
                    s@.take(i as int),
                    sep,
                )[k],
            cur@ == split_on(s@.take(i as int), sep).last(),
        decreases n - i,
    {
        let c = s[i];
        let ghost p = split_on(s@.take(i as int), sep);
        assert(s@.take(i + 1).drop_last() =~= s@.take(i as int));
        assert(s@.take(i + 1).last() == c);
        if c == sep {
            let piece = cur;
            done.push(piece);
            cur = Vec::new();
        } else {
            cur.push(c);
        }
        i = i + 1;
    }
    assert(s@.take(n as int) =~= s@);
    done.push(cur);
    done
}


// ---------------------------------------------------------------------------
// Laws
// ---------------------------------------------------------------------------

proof fn lemma_trim_start_shape(s: Seq<char>)
    ensures
        trim_start(s).len() <= s.len(),
        trim_start(s) == s.skip(s.len() - trim_start(s).len()),
        trim_start(s).len() > 0 ==> !is_whitespace(trim_start(s)[0]),
    decreases s.len(),
{
    if s.len() > 0 && is_whitespace(s[0]) {
        lemma_trim_start_shape(s.drop_first());
        assert(s.drop_first().skip(s.len() - 1 - trim_start(s).len()) =~= s.skip(
            s.len() - trim_start(s).len(),
        ));
    } else {
        assert(s.skip(0) =~= s);
    }
}

proof fn lemma_trim_end_shape(s: Seq<char>)
    ensures
        trim_end(s).len() <= s.len(),
        trim_end(s) == s.take(trim_end(s).len() as int),
        trim_end(s).len() > 0 ==> !is_whitespace(trim_end(s).last()),
    decreases s.len(),
{
    if s.len() > 0 && is_whitespace(s.last()) {
        lemma_trim_end_shape(s.drop_last());
        assert(s.drop_last().take(trim_end(s).len() as int) =~= s.take(
            trim_end(s).len() as int,
        ));
    } else {
        assert(s.take(s.len() as int) =~= s);
    }
}

/// What `trim` gives is empty or starts and ends with a character that is not
/// whitespace.
proof fn lemma_trim_ends(s: Seq<char>)
    ensures
        trim(s).len() > 0 ==> !is_whitespace(trim(s)[0]) && !is_whitespace(trim(s).last()),
{
    let a = trim_start(s);
    lemma_trim_start_shape(s);
    lemma_trim_end_shape(a);
    if trim(s).len() > 0 {
        assert(trim(s)[0] == a[0]);
    }
}

/// Text that is empty or starts and ends with a character that is not whitespace is
/// its own trim.
proof fn lemma_trim_fixed(s: Seq<char>)
    requires
        s.len() > 0 ==> !is_whitespace(s[0]) && !is_whitespace(s.last()),
    ensures
        trim(s) == s,
{
}

/// Trimming twice is trimming once.
pub proof fn lemma_trim_idempotent(s: Seq<char>)
    ensures
        trim(trim(s)) == trim(s),
{
    lemma_trim_ends(s);
    lemma_trim_fixed(trim(s));
}

proof fn lemma_collapse_collapsed(s: Seq<char>)
    ensures
        is_collapsed(collapse_blanks(s)),
    decreases s.len(),
{
    if s.len() > 0 {
        let r = collapse_blanks(s.drop_last());
        lemma_collapse_collapsed(s.drop_last());
        let c = s.last();
        let out = collapse_blanks(s);
        if c == '\t' {
        } else if r.len() > 0 && is_blank(r.last()) && is_blank(c) {
            assert forall|i: int| 0 <= i < out.len() implies #[trigger] out[i] != '\t' by {
                if i < out.len() - 1 {
                    assert(out[i] == r[i]);
                }
            }
            assert forall|i: int, j: int|
                0 <= i && j == i + 1 && j < out.len() implies !(is_blank(#[trigger] out[i])
                && is_blank(#[trigger] out[j])) by {
                assert(out[i] == r[i]);
                if j < out.len() - 1 {
                    assert(out[j] == r[j]);
                } else {
                    assert(is_blank(r[j]));
                }
            }
        } else {
            assert forall|i: int| 0 <= i < out.len() implies #[trigger] out[i] != '\t' by {
                if i < out.len() - 1 {
                    assert(out[i] == r[i]);
                }
            }
            assert forall|i: int, j: int|
                0 <= i && j == i + 1 && j < out.len() implies !(is_blank(#[trigger] out[i])
                && is_blank(#[trigger] out[j])) by {
                assert(out[i] == r[i]);
                if j < out.len() - 1 {
                    assert(out[j] == r[j]);
                }
            }
        }
    }
}

proof fn lemma_collapse_fixed(r: Seq<char>)
    requires
        is_collapsed(r),
    ensures
        collapse_blanks(r) == r,
    decreases r.len(),
{
    if r.len() > 0 {
        let p = r.drop_last();
        assert forall|i: int| 0 <= i < p.len() implies #[trigger] p[i] != '\t' by {
            assert(p[i] == r[i]);
        }
        assert forall|i: int, j: int|
            0 <= i && j == i + 1 && j < p.len() implies !(is_blank(#[trigger] p[i]) && is_blank(
            #[trigger] p[j],
        )) by {
            assert(p[i] == r[i]);
            assert(p[j] == r[j]);
        }
        lemma_collapse_fixed(p);
        assert(r[r.len() - 1] != '\t');
        if p.len() > 0 {
            assert(!(is_blank(r[r.len() - 2]) && is_blank(r[r.len() - 1])));
        }
        assert(p.push(r.last()) =~= r);
    }
}

proof fn lemma_blanks_are_whitespace()
    ensures
        is_whitespace(' '),
        is_whitespace('\n'),
        is_whitespace('\t'),
{
    assert((' ' as u32) == 0x20);
    assert(('\n' as u32) == 0xA);
    assert(('\t' as u32) == 0x9);
}

proof fn lemma_digit_char(k: nat)
    requires
        k < 10,
    ensures
        digit_value(digit_char(k)) == k,
        is_digit(digit_char(k)),
{
    assert((((k + 48) as u8) as char) as u32 == k + 48);
}

proof fn lemma_collapse_first(t: Seq<char>)
    requires
        t.len() > 0,
        !is_whitespace(t[0]),
    ensures
        collapse_blanks(t).len() > 0,
        collapse_blanks(t)[0] == t[0],
    decreases t.len(),
{
    lemma_blanks_are_whitespace();
    if t.len() == 1 {
        assert(t.drop_last() =~= Seq::<char>::empty());
        assert(collapse_blanks(Seq::<char>::empty()) == Seq::<char>::empty());
        assert(t.last() == t[0]);
    } else {
        let p = t.drop_last();
        assert(p[0] == t[0]);
        lemma_collapse_first(p);
        let r = collapse_blanks(p);
        let c = t.last();
        if c != '\t' && r.len() > 0 && is_blank(r.last()) && is_blank(c) {
            assert(r.len() >= 2);
            assert(collapse_blanks(t)[0] == r[0]);
        }
    }
}

/// The text `replace_extra_spaces` gives holds no tab, no space or newline next to
/// another, and no leading or trailing whitespace.
pub proof fn lemma_replace_extra_spaces_tidy(s: Seq<char>)
    ensures
        is_collapsed(extra_spaces_replaced(s)),
        trim(extra_spaces_replaced(s)) == extra_spaces_replaced(s),
{
    let t = trim(s);
    lemma_trim_ends(s);
    lemma_collapse_collapsed(t);
    let y = collapse_blanks(t);
    if t.len() > 0 {
        lemma_collapse_first(t);
        assert(t.drop_last().push(t.last()) =~= t);
    }
    lemma_trim_fixed(y);
}

/// `replace_extra_spaces` leaves its own output unchanged.
pub proof fn lemma_replace_extra_spaces_idempotent(s: Seq<char>)
    ensures
        extra_spaces_replaced(extra_spaces_replaced(s)) == extra_spaces_replaced(s),
{
    lemma_replace_extra_spaces_tidy(s);
    lemma_collapse_fixed(extra_spaces_replaced(s));
}

proof fn lemma_url_without_query_shape(s: Seq<char>)
    ensures
        url_without_query(s).len() <= s.len(),
        url_without_query(s) == s.take(url_without_query(s).len() as int),
        forall|j: int|
            0 <= j < url_without_query(s).len() ==> !starts_query(#[trigger] url_without_query(s)[j]),
    decreases s.len(),
{
    if s.len() > 0 && !starts_query(s[0]) {
        let t = s.drop_first();
        lemma_url_without_query_shape(t);
        let u = url_without_query(s);
        assert(u =~= seq![s[0]] + url_without_query(t));
        assert(seq![s[0]] + t.take(url_without_query(t).len() as int) =~= s.take(u.len() as int));
        assert forall|j: int| 0 <= j < u.len() implies !starts_query(#[trigger] u[j]) by {
            if j > 0 {
                assert(u[j] == url_without_query(t)[j - 1]);
            }
        }
    } else {
        assert(s.take(0) =~= Seq::<char>::empty());
    }
}

/// Cleaning a cleaned URL changes nothing.
pub proof fn lemma_url_cleaner_idempotent(s: Seq<char>)
    ensures
        url_without_query(url_without_query(s)) == url_without_query(s),
{
    let u = url_without_query(s);
    lemma_url_without_query_shape(s);
    lemma_url_without_query_at(u, u.len() as int);
    assert(u.take(u.len() as int) =~= u);
}

/// The decimal digits of `n` are digits, and they are worth `n`.
pub proof fn lemma_digits_of(n: nat)
    ensures
        all_digits(digits_of(n)),
        digits_value(digits_of(n)) == n,
    decreases n,
{
    lemma_digit_char(n % 10);
    if n >= 10 {
        lemma_digits_of(n / 10);
        let d = digits_of(n);
        assert(d.drop_last() =~= digits_of(n / 10));
        assert(d.last() == digit_char(n % 10));
        assert(digits_value(d) == digits_value(digits_of(n / 10)) * 10 + (n % 10));
        assert((n / 10) * 10 + n % 10 == n);
        assert(digits_value(d) == n);
        assert forall|i: int| 0 <= i < d.len() implies is_digit(#[trigger] d[i]) by {
            if i < d.len() - 1 {
                assert(d[i] == digits_of(n / 10)[i]);
            }
        }
    } else {
        let d = digits_of(n);
        lemma_digit_char(n);
        assert(d.drop_last() =~= Seq::<char>::empty());
        assert(d.last() == digit_char(n));
        assert(digits_value(Seq::<char>::empty()) == 0);
        assert(digits_value(d) == n);
    }
}

/// Parsing what `decimal` writes gives back the number.
pub proof fn lemma_parse_decimal_roundtrip(n: i32)
    ensures
        parsed_i32(decimal(n as int)) == Some(n),
{
    let s = decimal(n as int);
    if n < 0 {
        lemma_digits_of((-n) as nat);
        assert(s.drop_first() =~= digits_of((-n) as nat));
    } else {
        lemma_digits_of(n as nat);
        assert(is_digit(s[0]));
    }
}


/// Splitting never gives fewer than one piece.
pub proof fn lemma_split_nonempty(s: Seq<char>, sep: char)
    ensures
        split_on(s, sep).len() >= 1,
    decreases s.len(),
{
    if s.len() > 0 {
        lemma_split_nonempty(s.drop_last(), sep);
    }
}

/// Appending text without a separator extends the last piece.
pub proof fn lemma_split_extend(p: Seq<char>, t: Seq<char>, sep: char)
    requires
        forall|i: int| 0 <= i < t.len() ==> #[trigger] t[i] != sep,
    ensures
        split_on(p + t, sep) == split_on(p, sep).update(
            split_on(p, sep).len() - 1,
            split_on(p, sep).last() + t,
        ),
    decreases t.len(),
{
    let q = split_on(p, sep);
    lemma_split_nonempty(p, sep);
    if t.len() == 0 {
        assert(p + t =~= p);
        assert(q.last() + t =~= q.last());
        assert(q.update(q.len() - 1, q.last()) =~= q);
    } else {
        let t0 = t.drop_last();
        lemma_split_extend(p, t0, sep);
        assert((p + t).drop_last() =~= p + t0);
        assert((p + t).last() == t.last());
        assert(t[t.len() - 1] != sep);
        let r = split_on(p + t0, sep);
        assert(r.last() =~= q.last() + t0);
        assert((q.last() + t0).push(t.last()) =~= q.last() + t);
        assert(r.update(r.len() - 1, r.last().push(t.last())) =~= q.update(
            q.len() - 1,
            q.last() + t,
        ));
    }
}

/// Appending a separator starts a new, empty piece.
pub proof fn lemma_split_sep(p: Seq<char>, sep: char)
    ensures
        split_on(p + seq![sep], sep) == split_on(p, sep).push(Seq::<char>::empty()),
{
    assert((p + seq![sep]).drop_last() =~= p);
}

/// Text without a separator is a single piece.
pub proof fn lemma_split_single(t: Seq<char>, sep: char)
    requires
        forall|i: int| 0 <= i < t.len() ==> #[trigger] t[i] != sep,
    ensures
        split_on(t, sep) == seq![t],
{
    lemma_split_extend(Seq::<char>::empty(), t, sep);
    assert(Seq::<char>::empty() + t =~= t);
    assert(seq![Seq::<char>::empty()].update(0, Seq::<char>::empty() + t) =~= seq![t]);
}

/// Appending a separator and then text without one adds that text as a new piece.
pub proof fn lemma_split_append_piece(p: Seq<char>, t: Seq<char>, sep: char)
    requires
        forall|i: int| 0 <= i < t.len() ==> #[trigger] t[i] != sep,
    ensures
        split_on(p + seq![sep] + t, sep) == split_on(p, sep).push(t),
{
    lemma_split_sep(p, sep);
    lemma_split_extend(p + seq![sep], t, sep);
    let q = split_on(p, sep).push(Seq::<char>::empty());
    assert(Seq::<char>::empty() + t =~= t);
    assert(q.update(q.len() - 1, q.last() + t) =~= split_on(p, sep).push(t));
}

/// A non-negative number written in decimal holds only digits and is worth itself.
pub proof fn lemma_decimal_digits(n: int)
    requires
        n >= 0,
    ensures
        all_digits(decimal(n)),
        digits_value(decimal(n)) == n,
        forall|i: int| 0 <= i < decimal(n).len() ==> #[trigger] decimal(n)[i] != ':',
{
    lemma_digits_of(n as nat);
    assert forall|i: int| 0 <= i < decimal(n).len() implies #[trigger] decimal(n)[i] != ':' by {
        assert(is_digit(decimal(n)[i]));
        assert((':' as u32) == 58);
    }
}


/// The code points of Unicode `White_Space`, listed one by one.
pub open spec fn is_white_space_code_point(u: u32) -> bool {
    u == 0x9 || u == 0xA || u == 0xB || u == 0xC || u == 0xD || u == 0x20 || u == 0x85 || u
        == 0xA0 || u == 0x1680 || u == 0x2000 || u == 0x2001 || u == 0x2002 || u == 0x2003 || u
        == 0x2004 || u == 0x2005 || u == 0x2006 || u == 0x2007 || u == 0x2008 || u == 0x2009 || u
        == 0x200A || u == 0x2028 || u == 0x2029 || u == 0x202F || u == 0x205F || u == 0x3000
}

proof fn lemma_trim_start_push(s: Seq<char>, c: char)
    requires
        !is_whitespace(c),
    ensures
        trim_start(s.push(c)) == trim_start(s).push(c),
    decreases s.len(),
{
    if s.len() > 0 && is_whitespace(s[0]) {
        assert(s.push(c).drop_first() =~= s.drop_first().push(c));
        lemma_trim_start_push(s.drop_first(), c);
    } else if s.len() == 0 {
        assert(s.push(c)[0] == c);
    } else {
        assert(s.push(c)[0] == s[0]);
    }
}

proof fn lemma_trim_end_keeps_first(y: Seq<char>)
    requires
        y.len() > 0,
        !is_whitespace(y[0]),
    ensures
        trim_end(y).len() > 0,
        trim_end(y)[0] == y[0],
    decreases y.len(),
{
    lemma_trim_end_shape(y);
    if is_whitespace(y.last()) {
        assert(y.len() > 1);
        assert(y.drop_last()[0] == y[0]);
        lemma_trim_end_keeps_first(y.drop_last());
    }
}

/// Trimming removes only Unicode `White_Space`: a character outside it that ends
/// (or starts) the text still ends (or starts) the trimmed text.
pub proof fn lemma_trim_keeps_non_white_space(s: Seq<char>, c: char)
    requires
        !is_white_space_code_point(c as u32),
    ensures
        trim(s.push(c)).len() > 0,
        trim(s.push(c)).last() == c,
        trim(seq![c] + s).len() > 0,
        trim(seq![c] + s)[0] == c,
{
    assert(!is_whitespace(c));
    lemma_trim_start_push(s, c);
    let a = trim_start(s).push(c);
    assert(a.last() == c);
    assert(trim_end(a) == a);
    let b = seq![c] + s;
    assert(b[0] == c);
    assert(trim_start(b) == b);
    lemma_trim_end_keeps_first(b);
}

/// `str::trim` on text that is not whitespace at either end leaves it unchanged.
pub proof fn lemma_trim_keeps_inner_text(s: Seq<char>)
    requires
        s.len() > 0,
        !is_white_space_code_point(s[0] as u32),
        !is_white_space_code_point(s.last() as u32),
    ensures
        trim(s) == s,
{
    lemma_trim_fixed(s);
}


proof fn lemma_leading_zero_value(d: Seq<char>)
    ensures
        digits_value(seq!['0'] + d) == digits_value(d),
    decreases d.len(),
{
    assert((('0' as u32) as int) == 48);
    if d.len() == 0 {
        let z = seq!['0'] + d;
        assert(z.drop_last() =~= Seq::<char>::empty());
        assert(z.last() == '0');
        assert(digits_value(Seq::<char>::empty()) == 0);
    } else {
        lemma_leading_zero_value(d.drop_last());
        let z = seq!['0'] + d;
        assert(z.drop_last() =~= seq!['0'] + d.drop_last());
        assert(z.last() == d.last());
    }
}

/// A leading zero changes nothing: `0` followed by the decimal digits of a natural
/// number parses as that number.
pub proof fn lemma_parse_zero_padded(n: i32)
    requires
        n >= 0,
    ensures
        parsed_i32(seq!['0'] + decimal(n as int)) == Some(n),
{
    let d = decimal(n as int);
    let z = seq!['0'] + d;
    lemma_decimal_digits(n as int);
    lemma_leading_zero_value(d);
    assert(('0' as u32) == 48);
    assert forall|i: int| 0 <= i < z.len() implies is_digit(#[trigger] z[i]) by {
        if i > 0 {
            assert(z[i] == d[i - 1]);
        }
    }
    assert(z[0] == '0');
}


proof fn lemma_url_without_query_stop(s: Seq<char>)
    ensures
        url_without_query(s).len() < s.len() ==> starts_query(s[url_without_query(s).len() as int]),
    decreases s.len(),
{
    if s.len() > 0 && !starts_query(s[0]) {
        let t = s.drop_first();
        lemma_url_without_query_stop(t);
        assert(url_without_query(s).len() == 1 + url_without_query(t).len());
    }
}

/// Cleaning a URL keeps it up to, not including, its first `?` or `#`: the result is
/// a prefix of the URL without `?` or `#`, and the URL goes on, if at all, with one
/// of them.
pub proof fn lemma_url_cleaner_cuts_at_query(s: Seq<char>)
    ensures
        url_without_query(s).len() <= s.len(),
        url_without_query(s) == s.take(url_without_query(s).len() as int),
        forall|j: int|
            0 <= j < url_without_query(s).len() ==> #[trigger] url_without_query(s)[j] != '?'
                && url_without_query(s)[j] != '#',
        url_without_query(s).len() < s.len() ==> s[url_without_query(s).len() as int] == '?'
            || s[url_without_query(s).len() as int] == '#',
{
    lemma_url_without_query_shape(s);
    lemma_url_without_query_stop(s);
    let u = url_without_query(s);
    assert forall|j: int| 0 <= j < u.len() implies #[trigger] u[j] != '?' && u[j] != '#' by {
        assert(!starts_query(u[j]));
    }
}

/// Text that is already trimmed and has no tab and no two blanks side by side is left
/// unchanged by `replace_extra_spaces`.
pub proof fn lemma_replace_extra_spaces_keeps_tidy_text(s: Seq<char>)
    requires
        trim(s) == s,
        forall|i: int| 0 <= i < s.len() ==> #[trigger] s[i] != '\t',
        forall|i: int, j: int|
            0 <= i && j == i + 1 && j < s.len() ==> !((#[trigger] s[i] == ' ' || s[i] == '\n') && (
                #[trigger] s[j] == ' ' || s[j] == '\n')),
    ensures
        extra_spaces_replaced(s) == s,
{
    assert forall|i: int, j: int|
        0 <= i && j == i + 1 && j < s.len() implies !(is_blank(#[trigger] s[i]) && is_blank(
        #[trigger] s[j],
    )) by {
        assert(!((s[i] == ' ' || s[i] == '\n') && (s[j] == ' ' || s[j] == '\n')));
    }
    lemma_collapse_fixed(s);
}

/// What parses as an `i32` is an optional sign followed by digits only.
pub proof fn lemma_parsed_only_digits(s: Seq<char>)
    requires
        parsed_i32(s) is Some,
    ensures
        s.len() > 0,
        forall|i: int|
            0 <= i < s.len() ==> 48 <= (#[trigger] s[i] as u32) <= 57 || (i == 0 && (s[i] == '-'
                || s[i] == '+')),
        s.len() > 1 || 48 <= (s[0] as u32) <= 57,
{
    if s.len() > 0 && (s[0] == '-' || s[0] == '+') && all_digits(s.drop_first()) {
        assert forall|i: int|
            0 <= i < s.len() implies 48 <= (#[trigger] s[i] as u32) <= 57 || (i == 0 && (s[i]
            == '-' || s[i] == '+')) by {
            if i > 0 {
                assert(s[i] == s.drop_first()[i - 1]);
                assert(is_digit(s.drop_first()[i - 1]));
            }
        }
    } else {
        assert(all_digits(s));
        assert forall|i: int|
            0 <= i < s.len() implies 48 <= (#[trigger] s[i] as u32) <= 57 || (i == 0 && (s[i]
            == '-' || s[i] == '+')) by {
            assert(is_digit(s[i]));
        }
    }
}


/// A number outside the `i32` range, written in decimal, does not parse as an `i32`.
pub proof fn lemma_parse_out_of_range(n: int)
    requires
        n < i32::MIN || n > i32::MAX,
    ensures
        parsed_i32(decimal(n)) is None,
{
    let s = decimal(n);
    if n < 0 {
        lemma_digits_of((-n) as nat);
        assert(s.drop_first() =~= digits_of((-n) as nat));
    } else {
        lemma_digits_of(n as nat);
        assert(is_digit(s[0]));
        assert(('-' as u32) == 45 && ('+' as u32) == 43);
    }
}

/// A leading `+` is allowed: `+` followed by the decimal digits of a natural number
/// parses as that number.
pub proof fn lemma_parse_plus_sign(n: i32)
    requires
        n >= 0,
    ensures
        parsed_i32(seq!['+'] + decimal(n as int)) == Some(n),
{
    let s = seq!['+'] + decimal(n as int);
    lemma_digits_of(n as nat);
    assert(s.drop_first() =~= decimal(n as int));
    assert(s[0] == '+');
}

proof fn lemma_collapse_run(x: char, r: Seq<char>)
    requires
        !is_blank(x),
        x != '\t',
        r.len() > 0,
        forall|i: int| 0 <= i < r.len() ==> #[trigger] r[i] == ' ' || r[i] == '\n',
    ensures
        collapse_blanks(seq![x] + r) == seq![
            x,
            if exists|i: int| 0 <= i < r.len() && #[trigger] r[i] == '\n' {
                '\n'
            } else {
                ' '
            },
        ],
    decreases r.len(),
{
    let xs = seq![x];
    assert(xs.drop_last() =~= Seq::<char>::empty());
    assert(collapse_blanks(Seq::<char>::empty()) == Seq::<char>::empty());
    assert(collapse_blanks(xs) =~= xs);
    let t = xs + r;
    assert(t.drop_last() =~= xs + r.drop_last());
    assert(t.last() == r.last());
    let c = r.last();
    assert(c == r[r.len() - 1]);
    if r.len() == 1 {
        assert(r.drop_last() =~= Seq::<char>::empty());
        assert(xs + r.drop_last() =~= xs);
        if c == '\n' {
            assert(r[0] == '\n');
        } else {
            assert(forall|i: int| 0 <= i < r.len() ==> r[i] != '\n');
        }
        assert(collapse_blanks(t) =~= xs.push(c));
    } else {
        let p = r.drop_last();
        assert forall|i: int| 0 <= i < p.len() implies #[trigger] p[i] == ' ' || p[i] == '\n' by {
            assert(p[i] == r[i]);
        }
        lemma_collapse_run(x, p);
        let had = exists|i: int| 0 <= i < p.len() && #[trigger] p[i] == '\n';
        let has = exists|i: int| 0 <= i < r.len() && #[trigger] r[i] == '\n';
        if had {
            let k = choose|i: int| 0 <= i < p.len() && #[trigger] p[i] == '\n';
            assert(r[k] == '\n');
        }
        if has {
            let k = choose|i: int| 0 <= i < r.len() && #[trigger] r[i] == '\n';
            if k < r.len() - 1 {
                assert(p[k] == '\n');
            }
        }
        assert(has == (had || c == '\n'));
        let m: char = if had {
            '\n'
        } else {
            ' '
        };
        assert(collapse_blanks(xs + p) == seq![x, m]);
        assert(seq![x, m].drop_last().push(merged_blank(m, c)) =~= seq![
            x,
            if has {
                '\n'
            } else {
                ' '
            },
        ]);
    }
}

/// A run of spaces and newlines between two characters that are not whitespace
/// becomes a single character: a newline where the run holds one, a space otherwise.
pub proof fn lemma_replace_extra_spaces_run(x: char, r: Seq<char>, y: char)
    requires
        !is_white_space_code_point(x as u32),
        !is_white_space_code_point(y as u32),
        r.len() > 0,
        forall|i: int| 0 <= i < r.len() ==> #[trigger] r[i] == ' ' || r[i] == '\n',
    ensures
        extra_spaces_replaced(seq![x] + r + seq![y]) == seq![
            x,
            if exists|i: int| 0 <= i < r.len() && #[trigger] r[i] == '\n' {
                '\n'
            } else {
                ' '
            },
            y,
        ],
{
    lemma_blanks_are_whitespace();
    let s = seq![x] + r + seq![y];
    assert(s[0] == x);
    assert(s.last() == y);
    lemma_trim_keeps_inner_text(s);
    lemma_collapse_run(x, r);
    assert(s.drop_last() =~= seq![x] + r);
    assert(!is_whitespace(y));
}

/// A tab between two characters that are not whitespace is dropped.
pub proof fn lemma_replace_extra_spaces_drops_tab(x: char, y: char)
    requires
        !is_white_space_code_point(x as u32),
        !is_white_space_code_point(y as u32),
    ensures
        extra_spaces_replaced(seq![x, '\t', y]) == seq![x, y],
{
    lemma_blanks_are_whitespace();
    let s = seq![x, '\t', y];
    lemma_trim_keeps_inner_text(s);
    assert(s.drop_last() =~= seq![x, '\t']);
    assert(seq![x, '\t'].drop_last() =~= seq![x]);
    assert(seq![x].drop_last() =~= Seq::<char>::empty());
    assert(collapse_blanks(Seq::<char>::empty()) == Seq::<char>::empty());
    assert(collapse_blanks(seq![x]) =~= seq![x]);
    assert(collapse_blanks(seq![x, '\t']) =~= seq![x]);
    assert(seq![x].push(y) =~= seq![x, y]);
}

} // verus!
