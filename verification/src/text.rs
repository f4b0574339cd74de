//! Text building blocks: decimal numbers, zero padding, line splitting and
//! substring removal, each stated over `Seq<char>`.

use vstd::prelude::*;

verus! {

/// The character of a decimal digit `d` (`0 <= d < 10`).
pub open spec fn digit_char(d: nat) -> char {
    ((48 + d) as u32) as char
}

/// The decimal representation of `n`, without sign or leading zeros.
pub open spec fn decimal(n: nat) -> Seq<char>
    decreases n,
{
    if n < 10 {
        seq![digit_char(n)]
    } else {
        decimal(n / 10).push(digit_char(n % 10))
    }
}

/// `s` left-padded with `'0'` to a width of at least two characters,
/// as the `{:02}` format does for a non-negative number.
pub open spec fn zero_pad2(s: Seq<char>) -> Seq<char> {
    if s.len() < 2 {
        seq!['0'] + s
    } else {
        s
    }
}

/// Appends one character to a `String` (`String::push`).
#[verifier::external_body]
pub(crate) fn push_char(s: &mut String, c: char)
    ensures
        final(s)@ == old(s)@.push(c),
{
    s.push(c);
}

/// Appends the decimal representation of `n` to `s`.
pub fn push_decimal(s: &mut String, n: u64)
    ensures
        final(s)@ == old(s)@ + decimal(n as nat),
    decreases n,
{
    let ghost start = s@;
    if n >= 10 {
        push_decimal(s, n / 10);
    }
    let d: u8 = (n % 10) as u8;
    let c: char = (48u8 + d) as char;
    assert(c == digit_char((n % 10) as nat));
    push_char(s, c);
    assert(s@ =~= start + decimal(n as nat));
}

/// The decimal representation of `n` as a new `String`.
pub fn decimal_string(n: u64) -> (res: String)
    ensures
        res@ == decimal(n as nat),
{
    let mut s = String::new();
    push_decimal(&mut s, n);
    assert(s@ =~= decimal(n as nat));
    s
}


/// The characters of `s`, in order.
pub fn chars_of(s: &str) -> (res: Vec<char>)
    ensures
        res@ == s@,
{
    let mut out: Vec<char> = Vec::new();
    for c in it: s.chars()
        invariant
            out@ == it.seq().take(it.index() as int),
            it.seq() == s@,
    {
        out.push(c);
    }
    out
}

/// The lines of `s` as `str::split("\n")` yields them: every `'\n'` ends a
/// line, and the text after the last `'\n'` (possibly empty) is the last line.
pub open spec fn split_lines(s: Seq<char>) -> Seq<Seq<char>>
    decreases s.len(),
{
    if s.len() == 0 {
        seq![Seq::<char>::empty()]
    } else {
        let prev = split_lines(s.drop_last());
        if s.last() == '\n' {
            prev.push(Seq::<char>::empty())
        } else {
            prev.update(prev.len() - 1, prev.last().push(s.last()))
        }
    }
}

/// The pieces of `parts` joined with `'\n'` between neighbours.
pub open spec fn join_lines(parts: Seq<Seq<char>>) -> Seq<char>
    decreases parts.len(),
{
    if parts.len() == 0 {
        Seq::<char>::empty()
    } else if parts.len() == 1 {
        parts[0]
    } else {
        join_lines(parts.drop_last()) + seq!['\n'] + parts.last()
    }
}

/// There is always at least one line.
pub proof fn lemma_split_lines_nonempty(s: Seq<char>)
    ensures
        split_lines(s).len() >= 1,
    decreases s.len(),
{
    if s.len() > 0 {
        lemma_split_lines_nonempty(s.drop_last());
    }
}

/// Splitting into lines loses nothing: joining the lines with `'\n'` gives back
/// the text, and no line holds a `'\n'`.
pub proof fn lemma_split_join_lines(s: Seq<char>)
    ensures
        join_lines(split_lines(s)) == s,
        forall|i: int| 0 <= i < split_lines(s).len() ==> !(#[trigger] split_lines(s)[i]).contains('\n'),
    decreases s.len(),
{
    if s.len() > 0 {
        let t = s.drop_last();
        lemma_split_join_lines(t);
        lemma_split_lines_nonempty(t);
        let prev = split_lines(t);
        if s.last() == '\n' {
            let cur = prev.push(Seq::<char>::empty());
            assert(cur.drop_last() =~= prev);
            assert(join_lines(cur) =~= t + seq!['\n'] + Seq::<char>::empty());
            assert(s =~= t.push('\n'));
            assert forall|i: int| 0 <= i < cur.len() implies !(#[trigger] cur[i]).contains('\n') by {
                if i < prev.len() {
                    assert(cur[i] == prev[i]);
                }
            }
        } else {
            let cur = prev.update(prev.len() - 1, prev.last().push(s.last()));
            if prev.len() == 1 {
                assert(join_lines(cur) == cur[0]);
                assert(cur[0] =~= t.push(s.last()));
            } else {
                assert(cur.drop_last() =~= prev.drop_last());
                assert(join_lines(prev) == join_lines(prev.drop_last()) + seq!['\n'] + prev.last());
                assert(join_lines(cur) =~= join_lines(prev).push(s.last()));
            }
            assert(s =~= t.push(s.last()));
            assert forall|i: int| 0 <= i < cur.len() implies !(#[trigger] cur[i]).contains('\n') by {
                if i < prev.len() - 1 {
                    assert(cur[i] == prev[i]);
                } else {
                    let l = prev.last();
                    assert(!l.contains('\n'));
                    if cur[i].contains('\n') {
                        let k = choose|k: int| 0 <= k < cur[i].len() && cur[i][k] == '\n';
                        if k < l.len() {
                            assert(l[k] == '\n');
                        }
                    }
                }
            }
        }
    }
}

/// `s` with every occurrence of `pat` removed, matching left to right without
/// overlap, as `str::replace(pat, "")` does; an empty `pat` removes nothing.
pub open spec fn remove_all(s: Seq<char>, pat: Seq<char>) -> Seq<char>
    decreases s.len(),
{
    if pat.len() == 0 || s.len() == 0 {
        s
    } else if pat.len() <= s.len() && s.take(pat.len() as int) == pat {
        remove_all(s.skip(pat.len() as int), pat)
    } else {
        seq![s[0]] + remove_all(s.skip(1), pat)
    }
}

/// `s` with every `'\\'` turned into `'/'`.
pub open spec fn slash_path(s: Seq<char>) -> Seq<char> {
    s.map_values(|c: char| if c == '\\' { '/' } else { c })
}

/// Whether `pat` occurs in `s` at position `at`.
fn occurs_at(s: &Vec<char>, at: usize, pat: &Vec<char>) -> (res: bool)
    requires
        at + pat.len() <= s.len(),
    ensures
        res == (s@.subrange(at as int, at + pat.len()) == pat@),
{
    let mut j: usize = 0;
    while j < pat.len()
        invariant
            at + pat.len() <= s.len(),
            j <= pat.len(),
            forall|k: int| 0 <= k < j ==> s@[at + k] == pat@[k],
        decreases pat.len() - j,
    {
        if s[at + j] != pat[j] {
            assert(s@.subrange(at as int, at + pat.len())[j as int] != pat@[j as int]);
            return false;
        }
        j = j + 1;
    }
    assert(s@.subrange(at as int, at + pat.len()) =~= pat@);
    true
}

/// `s` with every occurrence of `pat` removed (`s.replace(pat, "")`).
pub fn remove_all_of(s: &str, pat: &str) -> (res: String)
    ensures
        res@ == remove_all(s@, pat@),
{
    let sv = chars_of(s);
    let pv = chars_of(pat);
    let n = sv.len();
    let m = pv.len();
    let mut out = String::new();
    let mut i: usize = 0;
    assert(sv@.skip(0) =~= sv@);
    assert(out@ + remove_all(sv@, pv@) =~= remove_all(sv@, pv@));
    while i < n
        invariant
            n == sv.len(),
            m == pv.len(),
            sv@ == s@,
            pv@ == pat@,
            i <= n,
            out@ + remove_all(sv@.skip(i as int), pv@) == remove_all(sv@, pv@),
        decreases n - i,
    {
        let ghost rest = sv@.skip(i as int);
        if m > 0 && m <= n - i && occurs_at(&sv, i, &pv) {
            assert(rest.take(m as int) =~= sv@.subrange(i as int, i + m));
            assert(rest.skip(m as int) =~= sv@.skip(i + m));
            i = i + m;
        } else {
            if m > 0 && m <= n - i {
                assert(rest.take(m as int) =~= sv@.subrange(i as int, i + m));
            }
            assert(rest.skip(1) =~= sv@.skip(i + 1));
            let ghost before = out@;
            push_char(&mut out, sv[i]);
            if m == 0 {
                assert(remove_all(rest, pv@) == rest);
                assert(remove_all(sv@.skip(i + 1), pv@) == sv@.skip(i + 1));
                assert(out@ + sv@.skip(i + 1) =~= before + rest);
            } else {
                assert(out@ + remove_all(sv@.skip(i + 1), pv@) =~= before + remove_all(rest, pv@));
            }
            i = i + 1;
        }
    }
    assert(sv@.skip(n as int) =~= Seq::<char>::empty());
    assert(out@ + remove_all(sv@.skip(n as int), pv@) =~= out@);
    out
}

/// `s` with every backslash turned into a slash (`s.replace("\\", "/")`).
pub fn to_slash_path(s: &str) -> (res: String)
    ensures
        res@ == slash_path(s@),
{
    let sv = chars_of(s);
    let mut out = String::new();
    let mut i: usize = 0;
    while i < sv.len()
        invariant
            sv@ == s@,
            i <= sv.len(),
            out@ == slash_path(sv@.take(i as int)),
        decreases sv.len() - i,
    {
        let c = sv[i];
        let d = if c == '\\' { '/' } else { c };
        push_char(&mut out, d);
        i = i + 1;
        assert(out@ =~= slash_path(sv@.take(i as int)));
    }
    assert(sv@.take(sv.len() as int) =~= sv@);
    out
}

/// The lines of `s` (`s.split("\n")`), each as a `String`.
pub fn split_lines_of(s: &str) -> (res: Vec<String>)
    ensures
        res@.map_values(|l: String| l@) == split_lines(s@),
{
    let sv = chars_of(s);
    let mut lines: Vec<String> = Vec::new();
    let mut cur = String::new();
    let mut i: usize = 0;
    while i < sv.len()
        invariant
            sv@ == s@,
            i <= sv.len(),
            lines@.map_values(|l: String| l@).push(cur@) == split_lines(sv@.take(i as int)),
        decreases sv.len() - i,
    {
        let ghost pre = sv@.take(i as int);
        let ghost old_lines = lines@.map_values(|l: String| l@);
        let ghost old_cur = cur@;
        let c = sv[i];
        assert(sv@.take(i + 1).drop_last() =~= pre);
        assert(sv@.take(i + 1).last() == c);
        if c == '\n' {
            let done = cur;
            cur = String::new();
            lines.push(done);
            assert(lines@.map_values(|l: String| l@) =~= old_lines.push(old_cur));
            assert(lines@.map_values(|l: String| l@).push(cur@) =~= split_lines(sv@.take(i + 1)));
        } else {
            push_char(&mut cur, c);
            assert(lines@.map_values(|l: String| l@) =~= old_lines);
            assert(lines@.map_values(|l: String| l@).push(cur@) =~= old_lines.push(old_cur).update(
                old_lines.len() as int,
                old_cur.push(c),
            ));
        }
        i = i + 1;
    }
    assert(sv@.take(sv.len() as int) =~= sv@);
    lines.push(cur);
    lines
}


/// Turning backslashes into slashes keeps the length, leaves no backslash, and
/// changes no other character.
pub proof fn lemma_slash_path(s: Seq<char>)
    ensures
        slash_path(s).len() == s.len(),
        !slash_path(s).contains('\\'),
        forall|i: int| 0 <= i < s.len() && s[i] != '\\' ==> #[trigger] slash_path(s)[i] == s[i],
{
    if slash_path(s).contains('\\') {
        let k = choose|k: int| 0 <= k < slash_path(s).len() && slash_path(s)[k] == '\\';
        assert(slash_path(s)[k] == (if s[k] == '\\' { '/' } else { s[k] }));
    }
}

/// A decimal representation is made of digits and starts with a non-zero digit
/// unless the number is 0.
pub proof fn lemma_decimal_digits(n: nat)
    ensures
        decimal(n).len() >= 1,
        n >= 10 ==> decimal(n).len() >= 2,
        n > 0 ==> decimal(n)[0] != '0',
        forall|i: int| 0 <= i < decimal(n).len() ==> '0' <= #[trigger] decimal(n)[i] <= '9',
    decreases n,
{
    if n >= 10 {
        lemma_decimal_digits(n / 10);
        let d = decimal(n);
        assert(d =~= decimal(n / 10).push(digit_char(n % 10)));
        assert forall|i: int| 0 <= i < d.len() implies '0' <= #[trigger] d[i] <= '9' by {
            if i < d.len() - 1 {
                assert(d[i] == decimal(n / 10)[i]);
            }
        }
        assert(d[0] == decimal(n / 10)[0]);
    }
}

/// The number that a string of decimal digits stands for, most significant
/// digit first.
pub open spec fn digits_value(s: Seq<char>) -> int
    decreases s.len(),
{
    if s.len() == 0 {
        0
    } else {
        digits_value(s.drop_last()) * 10 + (s.last() as int - 48)
    }
}

/// The digit character of `d` stands for `d`.
proof fn lemma_digit_char_value(d: nat)
    requires
        d < 10,
    ensures
        digit_char(d) as int - 48 == d,
{
    assert(((48 + d) as u32) as char as int == 48 + d);
}

/// A decimal representation reads back as the number it was made from.
pub proof fn lemma_decimal_value(n: nat)
    ensures
        digits_value(decimal(n)) == n,
    decreases n,
{
    let d = decimal(n);
    if n < 10 {
        lemma_digit_char_value(n);
        assert(d.drop_last() =~= Seq::<char>::empty());
        assert(digits_value(d.drop_last()) == 0);
        assert(d.last() == digit_char(n));
    } else {
        lemma_decimal_value(n / 10);
        lemma_digit_char_value(n % 10);
        assert(d.drop_last() =~= decimal(n / 10));
        assert(d.last() == digit_char(n % 10));
        assert(n == (n / 10) * 10 + n % 10);
    }
}

/// A leading `'0'` does not change what a digit string stands for.
pub proof fn lemma_leading_zero_value(s: Seq<char>)
    ensures
        digits_value(seq!['0'] + s) == digits_value(s),
    decreases s.len(),
{
    let t = seq!['0'] + s;
    if s.len() == 0 {
        assert(t.drop_last() =~= Seq::<char>::empty());
        assert(digits_value(t.drop_last()) == 0);
        assert(t.last() == '0');
        assert('0' as int == 48);
    } else {
        lemma_leading_zero_value(s.drop_last());
        assert(t.drop_last() =~= seq!['0'] + s.drop_last());
        assert(t.last() == s.last());
        assert(digits_value(t) == digits_value(t.drop_last()) * 10 + (t.last() as int - 48));
    }
}

/// Different numbers have different decimal representations.
pub proof fn lemma_decimal_injective(a: nat, b: nat)
    requires
        decimal(a) == decimal(b),
    ensures
        a == b,
    decreases a,
{
    lemma_decimal_digits(a);
    lemma_decimal_digits(b);
    if a >= 10 && b >= 10 {
        assert(decimal(a).last() == digit_char(a % 10));
        assert(decimal(b).last() == digit_char(b % 10));
        assert(decimal(a).drop_last() =~= decimal(a / 10));
        assert(decimal(b).drop_last() =~= decimal(b / 10));
        lemma_decimal_injective(a / 10, b / 10);
    } else if a < 10 && b < 10 {
        assert(decimal(a)[0] == decimal(b)[0]);
    }
}

/// Different numbers stay different when zero-padded to two digits.
pub proof fn lemma_zero_pad2_injective(a: nat, b: nat)
    requires
        zero_pad2(decimal(a)) == zero_pad2(decimal(b)),
    ensures
        a == b,
{
    lemma_decimal_digits(a);
    lemma_decimal_digits(b);
    let da = decimal(a);
    let db = decimal(b);
    if da.len() < 2 && db.len() < 2 {
        assert(da =~= zero_pad2(da).drop_first());
        assert(db =~= zero_pad2(db).drop_first());
    } else if da.len() < 2 {
        assert(zero_pad2(da)[0] == '0');
        assert(db.len() == 2);
        assert(b >= 10);
    } else if db.len() < 2 {
        assert(zero_pad2(db)[0] == '0');
        assert(a >= 10);
    }
    lemma_decimal_injective(a, b);
}

} // verus!
