use vstd::prelude::*;

verus! {

broadcast use vstd::string::group_string_axioms;

/// The characters of `s`, in order.
pub fn chars_of(s: &str) -> (v: Vec<char>)
    ensures
        v@ == s@,
{
    let mut v: Vec<char> = Vec::new();
    for c in it: s.chars()
        invariant
            it.seq() == s@,
            v@ == it.seq().take(it.index() as int),
    {
        v.push(c);
    }
    v
}


/// Whether two character sequences are equal, compared one character at a time.
pub fn chars_equal(a: &Vec<char>, b: &Vec<char>) -> (r: bool)
    ensures
        r == (a@ == b@),
{
    if a.len() != b.len() {
        return false;
    }
    let mut i: usize = 0;
    while i < a.len()
        invariant
            a.len() == b.len(),
            i <= a.len(),
            forall|j: int| 0 <= j < i ==> a@[j] == b@[j],
        decreases a.len() - i,
    {
        if a[i] != b[i] {
            return false;
        }
        i = i + 1;
    }
    assert(a@ =~= b@);
    true
}

/// Whether two strings hold the same characters.
pub fn str_equal(a: &str, b: &str) -> (r: bool)
    ensures
        r == (a@ == b@),
{
    let va = chars_of(a);
    let vb = chars_of(b);
    chars_equal(&va, &vb)
}

/// `pat` occurs in `s` starting at position `i`.
pub open spec fn occurs_at(s: Seq<char>, pat: Seq<char>, i: int) -> bool {
    0 <= i && i + pat.len() <= s.len() && s.subrange(i, i + pat.len()) == pat
}

/// `pat` occurs somewhere in `s` (what `str::contains` with a string pattern answers).
pub open spec fn contains_seq(s: Seq<char>, pat: Seq<char>) -> bool {
    exists|i: int| occurs_at(s, pat, i)
}

fn occurs_at_exec(s: &Vec<char>, pat: &Vec<char>, i: usize) -> (r: bool)
    requires
        i + pat.len() <= s.len(),
    ensures
        r == occurs_at(s@, pat@, i as int),
{
    let mut j: usize = 0;
    while j < pat.len()
        invariant
            i + pat.len() <= s.len(),
            j <= pat.len(),
            forall|k: int| 0 <= k < j ==> s@[i + k] == pat@[k],
        decreases pat.len() - j,
    {
        if s[i + j] != pat[j] {
            assert(s@.subrange(i as int, i + pat.len())[j as int] != pat@[j as int]);
            return false;
        }
        j = j + 1;
    }
    assert(s@.subrange(i as int, i + pat.len()) =~= pat@);
    true
}

/// Whether `pat` occurs in `s`.
pub fn contains_chars(s: &Vec<char>, pat: &Vec<char>) -> (r: bool)
    ensures
        r == contains_seq(s@, pat@),
{
    if pat.len() > s.len() {
        assert(!contains_seq(s@, pat@));
        return false;
    }
    if pat.len() == 0 {
        assert(s@.subrange(0, 0) =~= pat@);
        assert(occurs_at(s@, pat@, 0));
        return true;
    }
    let last = s.len() - pat.len();
    let mut i: usize = 0;
    while i <= last
        invariant
            last == s.len() - pat.len(),
            1 <= pat.len() <= s.len(),
            i <= last + 1,
            forall|k: int| 0 <= k < i ==> !occurs_at(s@, pat@, k),
        decreases last + 1 - i,
    {
        if occurs_at_exec(s, pat, i) {
            return true;
        }
        i = i + 1;
    }
    assert forall|k: int| !occurs_at(s@, pat@, k) by {
        if 0 <= k && k + pat.len() <= s.len() {
            assert(k < i);
        }
    }
    false
}

/// The decimal digit character for `d < 10`.
pub open spec fn digit_char(d: nat) -> char {
    if d == 0 { '0' }
    else if d == 1 { '1' }
    else if d == 2 { '2' }
    else if d == 3 { '3' }
    else if d == 4 { '4' }
    else if d == 5 { '5' }
    else if d == 6 { '6' }
    else if d == 7 { '7' }
    else if d == 8 { '8' }
    else { '9' }
}

/// The decimal representation of `n`, without sign or leading zeros.
pub open spec fn decimal(n: nat) -> Seq<char>
    decreases n,
{
    if n < 10 {
        seq![digit_char(n)]
    } else {
        decimal(n / 10).push(digit_char(n % 10))
    }
}

fn digit_str(d: u64) -> (s: &'static str)
    requires
        d < 10,
    ensures
        s@ == seq![digit_char(d as nat)],
{
    proof {
        reveal_strlit("0");
        reveal_strlit("1");
        reveal_strlit("2");
        reveal_strlit("3");
        reveal_strlit("4");
        reveal_strlit("5");
        reveal_strlit("6");
        reveal_strlit("7");
        reveal_strlit("8");
        reveal_strlit("9");
    }
    if d == 0 { "0" }
    else if d == 1 { "1" }
    else if d == 2 { "2" }
    else if d == 3 { "3" }
    else if d == 4 { "4" }
    else if d == 5 { "5" }
    else if d == 6 { "6" }
    else if d == 7 { "7" }
    else if d == 8 { "8" }
    else { "9" }
}

/// Appends the decimal representation of `n` to `s`.
pub fn push_decimal(s: &mut String, n: u64)
    ensures
        final(s)@ == old(s)@ + decimal(n as nat),
    decreases n,
{
    if n >= 10 {
        push_decimal(s, n / 10);
    }
    s.append(digit_str(n % 10));
    assert(old(s)@ + decimal(n as nat) =~= old(s)@ + (if n >= 10 { decimal((n / 10) as nat) } else { Seq::empty() }) + seq![digit_char((n % 10) as nat)]);
}

proof fn lemma_digit_char_injective(a: nat, b: nat)
    requires
        a < 10,
        b < 10,
        digit_char(a) == digit_char(b),
    ensures
        a == b,
{
}

/// A decimal representation is never empty, and it is one character long exactly for `n < 10`.
pub proof fn lemma_decimal_len(n: nat)
    ensures
        decimal(n).len() >= 1,
        (decimal(n).len() == 1) == (n < 10),
    decreases n,
{
    if n >= 10 {
        lemma_decimal_len(n / 10);
    }
}

/// A decimal representation starts with a digit.
pub proof fn lemma_decimal_first_is_digit(n: nat)
    ensures
        decimal(n).len() >= 1,
        is_ascii_digit(decimal(n)[0]),
    decreases n,
{
    lemma_decimal_len(n);
    if n >= 10 {
        lemma_decimal_first_is_digit(n / 10);
        assert(decimal(n)[0] == decimal(n / 10)[0]);
    }
}

/// Distinct numbers have distinct decimal representations.
pub proof fn lemma_decimal_injective(a: nat, b: nat)
    requires
        decimal(a) == decimal(b),
    ensures
        a == b,
    decreases a,
{
    lemma_decimal_len(a);
    lemma_decimal_len(b);
    let da = decimal(a);
    let db = decimal(b);
    assert(da.last() == digit_char(a % 10));
    assert(db.last() == digit_char(b % 10));
    lemma_digit_char_injective(a % 10, b % 10);
    if a >= 10 && b >= 10 {
        assert(da.drop_last() =~= decimal(a / 10));
        assert(db.drop_last() =~= decimal(b / 10));
        lemma_decimal_injective(a / 10, b / 10);
    }
}


/// `name` adjoined to the directory `dir`, as `PathBuf::push` does on Unix: an absolute
/// `name` replaces `dir`; otherwise a `/` separates the two unless `dir` is empty or
/// already ends with one.
pub open spec fn join_path(dir: Seq<char>, name: Seq<char>) -> Seq<char> {
    if name.len() > 0 && name[0] == '/' {
        name
    } else if dir.len() == 0 || dir.last() == '/' {
        dir + name
    } else {
        dir + seq!['/'] + name
    }
}

/// The path `dir` with `name` adjoined.
pub fn join_path_string(dir: &str, name: &str) -> (r: String)
    ensures
        r@ == join_path(dir@, name@),
{
    let name_len = name.unicode_len();
    if name_len > 0 && name.get_char(0) == '/' {
        return name.to_owned();
    }
    let dir_len = dir.unicode_len();
    let mut r = dir.to_owned();
    if dir_len > 0 && dir.get_char(dir_len - 1) != '/' {
        proof {
            reveal_strlit("/");
        }
        r.append("/");
    }
    r.append(name);
    r
}

/// What follows the last `/` of `s`; all of `s` where it holds none.
pub open spec fn after_last_slash(s: Seq<char>) -> Seq<char>
    decreases s.len(),
{
    if s.len() == 0 {
        s
    } else if s.last() == '/' {
        Seq::empty()
    } else {
        after_last_slash(s.drop_last()).push(s.last())
    }
}

/// The last segment of a URL path: what follows its last `/`, where the path starts with
/// `/`; none otherwise.
pub open spec fn last_path_segment(path: Seq<char>) -> Option<Seq<char>> {
    if path.len() > 0 && path[0] == '/' {
        Some(after_last_slash(path))
    } else {
        None
    }
}

/// The characters of an optional string.
pub open spec fn opt_string_view(o: Option<String>) -> Option<Seq<char>> {
    match o {
        Some(s) => Some(s@),
        None => None,
    }
}

/// `s` without its leading `/`, if it has one (what `str::strip_prefix("/")` gives).
pub open spec fn strip_leading_slash(s: Seq<char>) -> Option<Seq<char>> {
    if s.len() > 0 && s[0] == '/' {
        Some(s.subrange(1, s.len() as int))
    } else {
        None
    }
}

/// `s` without its leading `/`, if it has one.
pub fn strip_leading_slash_str(s: &str) -> (r: Option<String>)
    ensures
        opt_string_view(r) == strip_leading_slash(s@),
{
    let len = s.unicode_len();
    if len > 0 && s.get_char(0) == '/' {
        Some(s.substring_char(1, len).to_owned())
    } else {
        None
    }
}


/// An ASCII decimal digit.
pub open spec fn is_ascii_digit(c: char) -> bool {
    '0' <= c <= '9'
}

/// Every character is an ASCII decimal digit.
pub open spec fn all_ascii_digits(s: Seq<char>) -> bool {
    forall|i: int| 0 <= i < s.len() ==> is_ascii_digit(#[trigger] s[i])
}

/// The value of an ASCII decimal digit.
pub open spec fn digit_value(c: char) -> nat {
    ((c as u32) - ('0' as u32)) as nat
}

/// The value of a string of decimal digits.
pub open spec fn digits_value(s: Seq<char>) -> nat
    decreases s.len(),
{
    if s.len() == 0 {
        0
    } else {
        digits_value(s.drop_last()) * 10 + digit_value(s.last())
    }
}

/// The digits of an unsigned number's text: a leading `+` is dropped.
pub open spec fn unsigned_digits(s: Seq<char>) -> Seq<char> {
    if s.len() > 0 && s[0] == '+' {
        s.subrange(1, s.len() as int)
    } else {
        s
    }
}

/// What `u64::from_str` gives for `s`: an optional `+`, then one or more ASCII digits whose
/// value fits in 64 bits; anything else is no number.
pub open spec fn parsed_u64(s: Seq<char>) -> Option<u64> {
    let d = unsigned_digits(s);
    if d.len() > 0 && all_ascii_digits(d) && digits_value(d) <= u64::MAX {
        Some(digits_value(d) as u64)
    } else {
        None
    }
}

proof fn lemma_digits_value_grows(s: Seq<char>, k: int)
    requires
        0 <= k <= s.len(),
    ensures
        digits_value(s.take(k)) <= digits_value(s),
    decreases s.len() - k,
{
    if k < s.len() {
        lemma_digits_value_grows(s, k + 1);
        assert(s.take(k + 1).drop_last() =~= s.take(k));
        let a = digits_value(s.take(k));
        let b = digits_value(s.take(k + 1));
        assert(b == a * 10 + digit_value(s.take(k + 1).last()));
        assert(a <= a * 10) by (nonlinear_arith);
    } else {
        assert(s.take(k) =~= s);
    }
}

/// Parses `s` as `u64::from_str` does.
pub fn parse_u64(s: &str) -> (r: Option<u64>)
    ensures
        r == parsed_u64(s@),
{
    let cs = chars_of(s);
    let ghost d = unsigned_digits(s@);
    let mut start: usize = 0;
    if cs.len() > 0 && cs[0] == '+' {
        start = 1;
    }
    assert(d =~= cs@.subrange(start as int, cs.len() as int));
    if start == cs.len() {
        return None;
    }
    let mut value: u64 = 0;
    let mut i: usize = start;
    while i < cs.len()
        invariant
            start <= i <= cs.len(),
            d == cs@.subrange(start as int, cs.len() as int),
            d == unsigned_digits(s@),
            all_ascii_digits(d.take(i - start)),
            value as nat == digits_value(d.take(i - start)),
        decreases cs.len() - i,
    {
        let c = cs[i];
        assert(d[i - start] == c);
        if !('0' <= c && c <= '9') {
            assert(!is_ascii_digit(d[i - start]));
            assert(!all_ascii_digits(d));
            assert(parsed_u64(s@) is None);
            return None;
        }
        let dv: u64 = (c as u32 - '0' as u32) as u64;
        assert(d.take(i - start + 1).drop_last() =~= d.take(i - start));
        assert(d.take(i - start + 1).last() == c);
        if value > (u64::MAX - dv) / 10 {
            assert(value * 10 + dv > u64::MAX) by (nonlinear_arith)
                requires
                    value > (u64::MAX - dv) / 10,
                    dv <= 9,
            ;
            assert(digit_value(c) == dv);
            assert(digits_value(d.take(i - start + 1)) == value * 10 + dv);
            proof {
                lemma_digits_value_grows(d, i - start + 1);
            }
            assert(parsed_u64(s@) is None);
            return None;
        }
        assert(value * 10 + dv <= u64::MAX) by (nonlinear_arith)
            requires
                value <= (u64::MAX - dv) / 10,
                dv <= 9,
        ;
        value = value * 10 + dv;
        i = i + 1;
    }
    assert(d.take(cs.len() - start) =~= d);
    Some(value)
}

proof fn lemma_decimal_digits(n: nat)
    ensures
        all_ascii_digits(decimal(n)),
        digits_value(decimal(n)) == n,
    decreases n,
{
    let d = n % 10;
    assert(is_ascii_digit(digit_char(d)) && digit_value(digit_char(d)) == d) by {
        assert(d < 10);
    }
    if n >= 10 {
        lemma_decimal_digits(n / 10);
        let s = decimal(n);
        assert(s.drop_last() =~= decimal(n / 10));
        assert(s.last() == digit_char(d));
        assert(digits_value(s) == digits_value(s.drop_last()) * 10 + digit_value(s.last()));
        assert(n == (n / 10) * 10 + n % 10) by (nonlinear_arith);
        assert forall|i: int| 0 <= i < s.len() implies is_ascii_digit(#[trigger] s[i]) by {
            if i < s.len() - 1 {
                assert(s[i] == decimal(n / 10)[i]);
            }
        }
    } else {
        let s = decimal(n);
        assert(s.drop_last() =~= Seq::<char>::empty());
        assert(digits_value(s) == digits_value(s.drop_last()) * 10 + digit_value(s.last()));
    }
}

/// A number written in decimal reads back as itself: `parsed_u64` undoes `decimal` for
/// every 64-bit number.
pub proof fn law_decimal_read_back(n: u64)
    ensures
        parsed_u64(decimal(n as nat)) == Some(n),
{
    lemma_decimal_digits(n as nat);
    lemma_decimal_first_is_digit(n as nat);
    assert(unsigned_digits(decimal(n as nat)) == decimal(n as nat));
}

/// A name that does not start with `/` is placed inside the directory: the joined path
/// starts with the directory and ends with the name, and holds nothing else but, where
/// needed, one separating `/`.
pub proof fn law_join_path_places_name_in_dir(dir: Seq<char>, name: Seq<char>)
    requires
        !(name.len() > 0 && name[0] == '/'),
    ensures
        join_path(dir, name).len() >= dir.len() + name.len(),
        join_path(dir, name).len() <= dir.len() + name.len() + 1,
        join_path(dir, name).subrange(0, dir.len() as int) == dir,
        join_path(dir, name).subrange(
            join_path(dir, name).len() - name.len(),
            join_path(dir, name).len() as int,
        ) == name,
{
    let j = join_path(dir, name);
    assert(j.subrange(0, dir.len() as int) =~= dir);
    assert(j.subrange(j.len() - name.len(), j.len() as int) =~= name);
}

} // verus!
