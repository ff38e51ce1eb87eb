use vstd::prelude::*;
use vstd::string::*;

verus! {

/// Whether two string slices hold the same characters.
pub fn str_eq(a: &str, b: &str) -> (r: bool)
    ensures
        r == (a@ == b@),
{
    let x = String::from_str(a);
    let y = String::from_str(b);
    x == y
}

/// The view of an optional string.
pub open spec fn opt_view(s: Option<String>) -> Option<Seq<char>> {
    match s {
        Some(t) => Some(t@),
        None => None,
    }
}

/// Copies an optional string.
pub fn opt_clone(s: &Option<String>) -> (r: Option<String>)
    ensures
        opt_view(r) == opt_view(*s),
{
    match s {
        Some(t) => Some(t.clone()),
        None => None,
    }
}

/// The character that stands for a decimal digit.
pub open spec fn digit_char(d: nat) -> char {
    if d == 0 {
        '0'
    } else if d == 1 {
        '1'
    } else if d == 2 {
        '2'
    } else if d == 3 {
        '3'
    } else if d == 4 {
        '4'
    } else if d == 5 {
        '5'
    } else if d == 6 {
        '6'
    } else if d == 7 {
        '7'
    } else if d == 8 {
        '8'
    } else {
        '9'
    }
}

/// The decimal notation of a natural number, without sign or leading zeros.
pub open spec fn spec_decimal(n: nat) -> Seq<char>
    decreases n,
{
    if n < 10 {
        seq![digit_char(n)]
    } else {
        spec_decimal(n / 10).push(digit_char(n % 10))
    }
}

fn digit_str(d: u64) -> (s: &'static str)
    requires
        d < 10,
    ensures
        s@ == seq![digit_char(d as nat)],
{
    proof {
        reveal_strlit("0");
        reveal_strlit("1");
        reveal_strlit("2");
        reveal_strlit("3");
        reveal_strlit("4");
        reveal_strlit("5");
        reveal_strlit("6");
        reveal_strlit("7");
        reveal_strlit("8");
        reveal_strlit("9");
    }
    let s = if d == 0 {
        "0"
    } else if d == 1 {
        "1"
    } else if d == 2 {
        "2"
    } else if d == 3 {
        "3"
    } else if d == 4 {
        "4"
    } else if d == 5 {
        "5"
    } else if d == 6 {
        "6"
    } else if d == 7 {
        "7"
    } else if d == 8 {
        "8"
    } else {
        "9"
    };
    assert(s@ =~= seq![digit_char(d as nat)]);
    s
}

/// Writes a number in decimal notation.
pub fn decimal(n: u64) -> (s: String)
    ensures
        s@ == spec_decimal(n as nat),
    decreases n,
{
    if n < 10 {
        String::from_str(digit_str(n))
    } else {
        let mut s = decimal(n / 10);
        s.append(digit_str(n % 10));
        assert(s@ =~= spec_decimal(n as nat));
        s
    }
}

/// A text followed by a number in decimal notation.
pub fn text_and_number(prefix: &str, n: u64) -> (s: String)
    ensures
        s@ == prefix@ + spec_decimal(n as nat),
{
    let mut s = String::from_str(prefix);
    let d = decimal(n);
    s.append(d.as_str());
    s
}

/// Two texts, one after the other.
pub fn text_and_text(prefix: &str, rest: &str) -> (s: String)
    ensures
        s@ == prefix@ + rest@,
{
    let mut s = String::from_str(prefix);
    s.append(rest);
    s
}

/// Three texts, one after the other.
pub fn three_texts(a: &str, b: &str, c: &str) -> (s: String)
    ensures
        s@ == a@ + b@ + c@,
{
    let mut s = String::from_str(a);
    s.append(b);
    s.append(c);
    s
}

/// A number in decimal notation followed by a text.
pub fn number_and_text(n: usize, tail: &str) -> (s: String)
    ensures
        s@ == spec_decimal(n as nat) + tail@,
{
    let mut s = decimal(n as u64);
    s.append(tail);
    s
}

/// A label, a colon, a number and a text, as in "Work: 12 folders".
pub fn label_number_text(label: &str, n: usize, tail: &str) -> (s: String)
    ensures
        s@ == label@ + ": "@ + spec_decimal(n as nat) + tail@,
{
    let mut s = String::from_str(label);
    s.append(": ");
    let d = decimal(n as u64);
    s.append(d.as_str());
    s.append(tail);
    s
}

/// The view of a result whose error is a text.
pub open spec fn result_text_view<T>(r: Result<T, String>) -> Result<T, Seq<char>> {
    match r {
        Ok(v) => Ok(v),
        Err(e) => Err(e@),
    }
}

/// Whether a character is white space: one of the 25 characters that have the property
/// White_Space of Unicode. These are the tab, the line feed and the three controls
/// behind it, the space, the next line control, the no-break space, the Ogham space
/// mark, the spaces of fixed width, the line and paragraph separators, the narrow
/// no-break space, the medium mathematical space and the ideographic space.
pub open spec fn is_whitespace(c: char) -> bool {
    let u = c as u32;
    ||| 0x09 <= u <= 0x0D
    ||| u == 0x20
    ||| u == 0x85
    ||| u == 0xA0
    ||| u == 0x1680
    ||| 0x2000 <= u <= 0x200A
    ||| u == 0x2028
    ||| u == 0x2029
    ||| u == 0x202F
    ||| u == 0x205F
    ||| u == 0x3000
}

/// Whether a character is white space.
pub fn char_is_whitespace(c: char) -> (r: bool)
    ensures
        r == is_whitespace(c),
{
    let u = c as u32;
    (0x09 <= u && u <= 0x0D) || u == 0x20 || u == 0x85 || u == 0xA0 || u == 0x1680 || (0x2000 <= u
        && u <= 0x200A) || u == 0x2028 || u == 0x2029 || u == 0x202F || u == 0x205F || u
        == 0x3000
}

/// `s` without the white space at its start.
pub open spec fn trim_start(s: Seq<char>) -> Seq<char>
    decreases s.len(),
{
    if s.len() > 0 && is_whitespace(s[0]) {
        trim_start(s.drop_first())
    } else {
        s
    }
}

/// `s` without the white space at its end.
pub open spec fn trim_end(s: Seq<char>) -> Seq<char>
    decreases s.len(),
{
    if s.len() > 0 && is_whitespace(s.last()) {
        trim_end(s.drop_last())
    } else {
        s
    }
}

/// `s` without the white space at its start and at its end.
pub open spec fn spec_trim(s: Seq<char>) -> Seq<char> {
    trim_end(trim_start(s))
}

/// The bounds of `chars[from..to]` without the white space at its start and end.
pub fn trim_bounds(chars: &Vec<char>, from: usize, to: usize) -> (r: (usize, usize))
    requires
        from <= to <= chars.len(),
    ensures
        from <= r.0 <= r.1 <= to,
        chars@.subrange(r.0 as int, r.1 as int) == spec_trim(chars@.subrange(from as int, to as int)),
{
    let mut a = from;
    while a < to && char_is_whitespace(chars[a])
        invariant
            from <= a <= to <= chars.len(),
            trim_start(chars@.subrange(from as int, to as int)) == trim_start(
                chars@.subrange(a as int, to as int),
            ),
        decreases to - a,
    {
        assert(chars@.subrange(a as int, to as int).drop_first() =~= chars@.subrange(
            a + 1,
            to as int,
        ));
        a = a + 1;
    }
    let mut b = to;
    while b > a && char_is_whitespace(chars[b - 1])
        invariant
            a <= b <= to <= chars.len(),
            trim_end(chars@.subrange(a as int, to as int)) == trim_end(
                chars@.subrange(a as int, b as int),
            ),
        decreases b,
    {
        assert(chars@.subrange(a as int, b as int).drop_last() =~= chars@.subrange(
            a as int,
            b - 1,
        ));
        b = b - 1;
    }
    (a, b)
}

/// The characters of a string, one by one.
pub fn chars_of(s: &str) -> (v: Vec<char>)
    ensures
        v@ == s@,
{
    let mut v: Vec<char> = Vec::new();
    for c in it: s.chars()
        invariant
            v@ == it.seq().take(it.index() as int),
            it.seq() == s@,
    {
        v.push(c);
    }
    v
}

/// A text that neither starts nor ends with white space is left as it is.
pub proof fn lemma_trim_leaves_tight_text(s: Seq<char>)
    requires
        s.len() > 0,
        !is_whitespace(s[0]),
        !is_whitespace(s.last()),
    ensures
        spec_trim(s) == s,
{
}

/// A string without the white space at its start and at its end.
pub fn trimmed(s: &str) -> (r: String)
    ensures
        r@ == spec_trim(s@),
{
    let chars = chars_of(s);
    let (a, b) = trim_bounds(&chars, 0, chars.len());
    assert(chars@.subrange(0, chars.len() as int) =~= s@);
    String::from_str(s.substring_char(a, b))
}

/// Whether a string holds nothing but white space.
pub fn is_blank(s: &str) -> (r: bool)
    ensures
        r == (spec_trim(s@).len() == 0),
{
    let chars = chars_of(s);
    let (a, b) = trim_bounds(&chars, 0, chars.len());
    assert(chars@.subrange(0, chars.len() as int) =~= s@);
    a == b
}

/// The test for one character.
pub open spec fn is_char(c: char) -> spec_fn(char) -> bool {
    |x: char| x == c
}

/// The place of the first `c` in `chars[from..]`.
pub fn find_char(chars: &Vec<char>, from: usize, c: char) -> (r: Option<usize>)
    requires
        from <= chars.len(),
    ensures
        match r {
            Some(k) => from <= k < chars.len() && crate::seqs::first_match(
                chars@.subrange(from as int, chars.len() as int),
                is_char(c),
            ) == Some(k - from),
            None => crate::seqs::first_match(
                chars@.subrange(from as int, chars.len() as int),
                is_char(c),
            ) is None,
        },
{
    let ghost s = chars@.subrange(from as int, chars.len() as int);
    let mut i: usize = from;
    while i < chars.len()
        invariant
            from <= i <= chars.len(),
            s == chars@.subrange(from as int, chars.len() as int),
            forall|j: int| 0 <= j < i - from ==> !is_char(c)(#[trigger] s[j]),
        decreases chars.len() - i,
    {
        assert(s[i - from] == chars@[i as int]);
        if chars[i] == c {
            proof {
                crate::seqs::lemma_first_match(s, is_char(c), Some(i - from));
            }
            return Some(i);
        }
        i = i + 1;
    }
    proof {
        crate::seqs::lemma_first_match(s, is_char(c), None);
    }
    None
}

/// The parts of `s` between its commas, each without the white space around it, and
/// without the parts that are then empty.
pub open spec fn spec_list_items(s: Seq<char>) -> Seq<Seq<char>>
    decreases s.len(),
{
    match crate::seqs::first_match(s, is_char(',')) {
        Some(k) => {
            let head = spec_trim(s.subrange(0, k));
            let rest = if 0 <= k < s.len() {
                spec_list_items(s.subrange(k + 1, s.len() as int))
            } else {
                Seq::empty()
            };
            if head.len() > 0 {
                seq![head] + rest
            } else {
                rest
            }
        },
        None => if spec_trim(s).len() > 0 {
            seq![spec_trim(s)]
        } else {
            Seq::empty()
        },
    }
}

/// Splits a list written with commas into its items, as `spec_list_items` says.
pub fn list_items(text: &str) -> (out: Vec<String>)
    ensures
        crate::seqs::view_all(out@) == spec_list_items(text@),
{
    let chars = chars_of(text);
    let n = chars.len();
    let mut out: Vec<String> = Vec::new();
    let mut pos: usize = 0;
    let mut done = false;
    proof {
        assert(chars@.subrange(0, n as int) =~= text@);
        assert(crate::seqs::view_all(out@) + spec_list_items(chars@.subrange(0, n as int))
            =~= spec_list_items(text@));
    }
    while !done
        invariant
            pos <= n,
            n == chars.len(),
            chars@ == text@,
            !done ==> crate::seqs::view_all(out@) + spec_list_items(
                chars@.subrange(pos as int, n as int),
            ) == spec_list_items(text@),
            done ==> crate::seqs::view_all(out@) == spec_list_items(text@),
        decreases n - pos + (if done { 0int } else { 1int }),
    {
        let ghost s = chars@.subrange(pos as int, n as int);
        let ghost before = crate::seqs::view_all(out@);
        let found = find_char(&chars, pos, ',');
        let end = match found {
            Some(k) => k,
            None => n,
        };
        let (a, b) = trim_bounds(&chars, pos, end);
        proof {
            assert(chars@.subrange(pos as int, end as int) =~= s.subrange(0, end - pos));
            if found is None {
                assert(s.subrange(0, end - pos) =~= s);
            }
        }
        if a < b {
            let item = String::from_str(text.substring_char(a, b));
            out.push(item);
            assert(crate::seqs::view_all(out@) =~= before + seq![chars@.subrange(a as int, b as int)]);
        }
        match found {
            Some(k) => {
                proof {
                    assert(s.subrange(k - pos + 1, s.len() as int) =~= chars@.subrange(
                        k + 1,
                        n as int,
                    ));
                    let head = spec_trim(s.subrange(0, k - pos));
                    let rest = spec_list_items(chars@.subrange(k + 1, n as int));
                    if head.len() > 0 {
                        assert(before + (seq![head] + rest) =~= (before + seq![head]) + rest);
                    }
                }
                pos = k + 1;
            },
            None => {
                proof {
                    let whole = spec_trim(s);
                    if whole.len() > 0 {
                        assert(before + seq![whole] =~= crate::seqs::view_all(out@));
                    } else {
                        assert(before + Seq::<Seq<char>>::empty() =~= before);
                    }
                }
                done = true;
            },
        }
    }
    out
}

/// Whether a character is one of the ten decimal digits.
pub open spec fn is_digit(c: char) -> bool {
    '0' <= c <= '9'
}

/// The value of a decimal digit character.
pub open spec fn digit_value(c: char) -> nat {
    (c as u32 - '0' as u32) as nat
}

/// Whether every character of `s` is a decimal digit.
pub open spec fn all_digits(s: Seq<char>) -> bool {
    forall|i: int| 0 <= i < s.len() ==> is_digit(#[trigger] s[i])
}

/// The number that a sequence of decimal digits denotes; the empty sequence denotes zero.
pub open spec fn digits_value(s: Seq<char>) -> nat
    decreases s.len(),
{
    if s.len() == 0 {
        0
    } else {
        digits_value(s.drop_last()) * 10 + digit_value(s.last())
    }
}

/// `s` without a leading `+`, if it has one.
pub open spec fn without_plus(s: Seq<char>) -> Seq<char> {
    if s.len() > 0 && s[0] == '+' {
        s.subrange(1, s.len() as int)
    } else {
        s
    }
}

/// Why a string is not an unsigned 64-bit decimal number.
#[derive(Clone, Copy, Debug, PartialEq, Eq, Structural)]
pub enum IntFault {
    /// The string is empty.
    Empty,
    /// A character that is no digit stands where a digit is needed.
    InvalidDigit,
    /// The digits denote more than fits in 64 bits.
    PosOverflow,
}

/// The number of digits that `s` starts with.
pub open spec fn digit_prefix_len(s: Seq<char>) -> nat
    decreases s.len(),
{
    if s.len() > 0 && is_digit(s[0]) {
        1 + digit_prefix_len(s.drop_first())
    } else {
        0
    }
}

/// What reading `s` as an unsigned 64-bit decimal number gives. The notation is an optional
/// `+`, then at least one digit. Reading goes from left to right and stops at the first
/// fault: digits that no longer fit are reported before a later character that is no digit.
pub open spec fn spec_parse_int(s: Seq<char>) -> Result<u64, IntFault> {
    let body = without_plus(s);
    let p = digit_prefix_len(body) as int;
    if s.len() == 0 {
        Err(IntFault::Empty)
    } else if body.len() == 0 {
        Err(IntFault::InvalidDigit)
    } else if digits_value(body.take(p)) > u64::MAX {
        Err(IntFault::PosOverflow)
    } else if p < body.len() {
        Err(IntFault::InvalidDigit)
    } else {
        Ok(digits_value(body) as u64)
    }
}

/// The number that `s` denotes, if it denotes one.
pub open spec fn spec_parse_u64(s: Seq<char>) -> Option<u64> {
    match spec_parse_int(s) {
        Ok(v) => Some(v),
        Err(_) => None,
    }
}

/// A longer digit sequence with the same leading part denotes at least as much.
pub proof fn lemma_digits_value_monotonic(s: Seq<char>, k: int)
    requires
        0 <= k <= s.len(),
    ensures
        digits_value(s.take(k)) <= digits_value(s),
    decreases s.len() - k,
{
    if k == s.len() {
        assert(s.take(k) =~= s);
    } else {
        lemma_digits_value_monotonic(s, k + 1);
        assert(s.take(k + 1).drop_last() =~= s.take(k));
    }
}

/// The digit prefix of `s` has length `k` exactly when the first `k` characters are digits
/// and the next one, if there is one, is not.
pub proof fn lemma_digit_prefix_len(s: Seq<char>, k: int)
    requires
        0 <= k <= s.len(),
        all_digits(s.take(k)),
        k == s.len() || !is_digit(s[k]),
    ensures
        digit_prefix_len(s) == k,
    decreases s.len(),
{
    if k == 0 {
    } else {
        assert(s.take(k)[0] == s[0]);
        let t = s.drop_first();
        assert(t.take(k - 1) =~= s.take(k).drop_first());
        assert forall|i: int| 0 <= i < t.take(k - 1).len() implies is_digit(
            #[trigger] t.take(k - 1)[i],
        ) by {
            assert(t.take(k - 1)[i] == s.take(k)[i + 1]);
        }
        lemma_digit_prefix_len(t, k - 1);
    }
}

/// The digit prefix of `s` is at least as long as any leading part made of digits.
pub proof fn lemma_digit_prefix_at_least(s: Seq<char>, k: int)
    requires
        0 <= k <= s.len(),
        all_digits(s.take(k)),
    ensures
        k <= digit_prefix_len(s) <= s.len(),
        all_digits(s.take(digit_prefix_len(s) as int)),
    decreases s.len(),
{
    let t = s.drop_first();
    if s.len() > 0 && is_digit(s[0]) {
        let j = if k == 0 { 0 } else { k - 1 };
        assert forall|i: int| 0 <= i < t.take(j).len() implies is_digit(#[trigger] t.take(j)[i]) by {
            assert(t.take(j)[i] == s.take(k)[i + 1]);
        }
        lemma_digit_prefix_at_least(t, j);
        let p = digit_prefix_len(s) as int;
        assert forall|i: int| 0 <= i < s.take(p).len() implies is_digit(#[trigger] s.take(p)[i]) by {
            if i > 0 {
                assert(s.take(p)[i] == t.take(p - 1)[i - 1]);
            }
        }
    } else {
        if k > 0 {
            assert(s.take(k)[0] == s[0]);
        }
    }
}

/// Reads the characters `chars[from..to]` as an unsigned 64-bit decimal number.
pub fn parse_u64(chars: &Vec<char>, from: usize, to: usize) -> (r: Result<u64, IntFault>)
    requires
        from <= to <= chars.len(),
    ensures
        r == spec_parse_int(chars@.subrange(from as int, to as int)),
{
    let ghost s = chars@.subrange(from as int, to as int);
    if from == to {
        return Err(IntFault::Empty);
    }
    let mut start = from;
    if chars[start] == '+' {
        start = start + 1;
    }
    let ghost body = chars@.subrange(start as int, to as int);
    assert(body =~= without_plus(s));
    if start == to {
        return Err(IntFault::InvalidDigit);
    }
    let mut value: u64 = 0;
    let mut i = start;
    while i < to
        invariant
            from < to,
            start <= i <= to <= chars.len(),
            start < to,
            body == chars@.subrange(start as int, to as int),
            body == without_plus(s),
            s == chars@.subrange(from as int, to as int),
            all_digits(body.take(i - start)),
            value == digits_value(body.take(i - start)),
        decreases to - i,
    {
        let c = chars[i];
        assert(body[i - start] == c);
        if !('0' <= c && c <= '9') {
            proof {
                lemma_digit_prefix_len(body, i - start);
            }
            return Err(IntFault::InvalidDigit);
        }
        let d = (c as u32 - '0' as u32) as u64;
        assert(body.take(i - start + 1).drop_last() =~= body.take(i - start));
        assert(body.take(i - start + 1).last() == c);
        if value > (u64::MAX - d) / 10 {
            proof {
                let k = i - start + 1;
                lemma_digit_prefix_at_least(body, k);
                let p = digit_prefix_len(body) as int;
                lemma_digits_value_monotonic(body.take(p), k);
                assert(body.take(p).take(k) =~= body.take(k));
            }
            return Err(IntFault::PosOverflow);
        }
        value = value * 10 + d;
        i = i + 1;
    }
    proof {
        assert(body.take(i - start) =~= body);
        lemma_digit_prefix_len(body, body.len() as int);
    }
    Ok(value)
}

/// Reading back the decimal notation of a number gives the number.
pub proof fn lemma_parse_decimal_roundtrip(n: u64)
    ensures
        spec_parse_u64(spec_decimal(n as nat)) == Some(n),
{
    lemma_decimal_digits(n as nat);
    let s = spec_decimal(n as nat);
    assert(without_plus(s) == s);
    assert(s.take(s.len() as int) =~= s);
    lemma_digit_prefix_len(s, s.len() as int);
}

/// The decimal notation of a number consists of digits that denote the number.
pub proof fn lemma_decimal_digits(n: nat)
    ensures
        spec_decimal(n).len() > 0,
        all_digits(spec_decimal(n)),
        digits_value(spec_decimal(n)) == n,
        spec_decimal(n)[0] != '+',
    decreases n,
{
    if n < 10 {
        let s = spec_decimal(n);
        assert(s.drop_last() =~= Seq::<char>::empty());
        assert(digits_value(s.drop_last()) == 0);
    } else {
        lemma_decimal_digits(n / 10);
        let s = spec_decimal(n);
        assert(s.drop_last() =~= spec_decimal(n / 10));
    }
}

} // verus!
