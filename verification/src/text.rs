//! Text primitives: searching, trimming, ASCII case folding and decimal
//! numerals, each stated over the characters of a string.
use vstd::prelude::*;

verus! {

/// `String::push` of std appends one character and changes nothing else.
pub assume_specification[ String::push ](text: &mut String, c: char)
    ensures
        final(text)@ == old(text)@.push(c),
;

/// `needle` stands in `s` from position `i` on.
pub open spec fn occurs_at(s: Seq<char>, needle: Seq<char>, i: int) -> bool {
    0 <= i && i + needle.len() <= s.len() && s.subrange(i, i + needle.len()) == needle
}

/// `needle` stands somewhere in `s`.
pub open spec fn occurs(s: Seq<char>, needle: Seq<char>) -> bool {
    exists|i: int| occurs_at(s, needle, i)
}

/// The Unicode `White_Space` characters.
pub open spec fn is_white(c: char) -> bool {
    let u = c as u32;
    ||| 0x9 <= u <= 0xD
    ||| u == 0x20
    ||| u == 0x85
    ||| u == 0xA0
    ||| u == 0x1680
    ||| 0x2000 <= u <= 0x200A
    ||| u == 0x2028
    ||| u == 0x2029
    ||| u == 0x202F
    ||| u == 0x205F
    ||| u == 0x3000
}

/// `s` holds nothing but white space.
pub open spec fn blank(s: Seq<char>) -> bool {
    forall|i: int| 0 <= i < s.len() ==> is_white(#[trigger] s[i])
}

/// `s` without the white space at its two ends.
pub open spec fn trimmed(s: Seq<char>) -> Seq<char>
    decreases s.len(),
{
    if s.len() == 0 {
        s
    } else if is_white(s.first()) {
        trimmed(s.drop_first())
    } else if is_white(s.last()) {
        trimmed(s.drop_last())
    } else {
        s
    }
}

/// One character with an ASCII capital replaced by its small letter.
pub open spec fn lower_char(c: char) -> char {
    if 'A' <= c <= 'Z' {
        (c as u32 + 32) as char
    } else {
        c
    }
}

/// `s` with every ASCII capital replaced by its small letter.
pub open spec fn lowered(s: Seq<char>) -> Seq<char> {
    s.map_values(|c: char| lower_char(c))
}

/// An ASCII letter, an ASCII digit or an underscore.
pub open spec fn is_word_char(c: char) -> bool {
    ||| 'a' <= c <= 'z'
    ||| 'A' <= c <= 'Z'
    ||| '0' <= c <= '9'
    ||| c == '_'
}

/// The decimal digit for `d`.
pub open spec fn digit_char(d: nat) -> char {
    (48 + d) as char
}

/// The decimal numeral of `n`, without leading zeros.
pub open spec fn decimal_text(n: nat) -> Seq<char>
    decreases n,
{
    if n < 10 {
        seq![digit_char(n)]
    } else {
        decimal_text(n / 10).push(digit_char(n % 10))
    }
}

/// `s` is a run of at least one decimal digit.
pub open spec fn all_digits(s: Seq<char>) -> bool {
    s.len() > 0 && forall|i: int| 0 <= i < s.len() ==> '0' <= #[trigger] s[i] <= '9'
}

/// The number that a run of decimal digits denotes.
pub open spec fn digits_value(s: Seq<char>) -> nat
    decreases s.len(),
{
    if s.len() == 0 {
        0
    } else {
        digits_value(s.drop_last()) * 10 + (s.last() as u32 - 48) as nat
    }
}

/// The digits of a numeral that may start with a plus sign.
pub open spec fn unsigned_digits(s: Seq<char>) -> Seq<char> {
    if s.len() > 0 && s[0] == '+' {
        s.drop_first()
    } else {
        s
    }
}

/// The `u64` that `s` denotes: decimal digits after at most one plus sign, and
/// nothing for any other text or for a number that does not fit.
pub open spec fn u64_from_text(s: Seq<char>) -> Option<u64> {
    let digits = unsigned_digits(s);
    if all_digits(digits) && digits_value(digits) <= u64::MAX {
        Some(digits_value(digits) as u64)
    } else {
        None
    }
}

/// The texts of a list of strings.
pub open spec fn name_texts(names: Seq<String>) -> Seq<Seq<char>> {
    names.map_values(|s: String| s@)
}

/// The text of a string that may be missing.
pub open spec fn text_option(s: Option<String>) -> Option<Seq<char>> {
    match s {
        Some(text) => Some(text@),
        None => None,
    }
}

/// A copy of a string that may be missing.
pub fn copy_option(s: &Option<String>) -> (copied: Option<String>)
    ensures
        copied == *s,
{
    match s {
        Some(text) => Some(text.clone()),
        None => None,
    }
}

/// The characters of `s`, in order.
pub fn chars_of(s: &str) -> (chars: Vec<char>)
    ensures
        chars@ == s@,
{
    let mut chars: Vec<char> = Vec::new();
    for c in it: s.chars()
        invariant
            chars@ == it.seq().take(it.index() as int),
            it.seq() == s@,
    {
        chars.push(c);
    }
    chars
}

/// The string of the characters `chars[from..to]`.
pub fn string_of(chars: &Vec<char>, from: usize, to: usize) -> (s: String)
    requires
        from <= to <= chars@.len(),
    ensures
        s@ == chars@.subrange(from as int, to as int),
{
    let mut s = String::new();
    let mut i: usize = from;
    while i < to
        invariant
            from <= i <= to <= chars@.len(),
            s@ == chars@.subrange(from as int, i as int),
        decreases to - i,
    {
        s.push(chars[i]);
        i += 1;
    }
    s
}

/// Whether two texts hold the same characters.
pub fn same_text(a: &str, b: &str) -> (same: bool)
    ensures
        same == (a@ == b@),
{
    a.to_owned() == b.to_owned()
}

/// Whether `needle` stands in `chars` from position `i` on.
fn matches_at(chars: &Vec<char>, needle: &Vec<char>, i: usize) -> (found: bool)
    requires
        i <= chars@.len(),
    ensures
        found == occurs_at(chars@, needle@, i as int),
{
    let total: usize = chars.len();
    if total - i < needle.len() {
        return false;
    }
    let mut k: usize = 0;
    while k < needle.len()
        invariant
            0 <= k <= needle@.len(),
            total == chars@.len(),
            i + needle@.len() <= chars@.len(),
            forall|j: int| 0 <= j < k ==> chars@[i + j] == needle@[j],
        decreases needle@.len() - k,
    {
        if chars[i + k] != needle[k] {
            assert(chars@.subrange(i as int, i + needle@.len())[k as int] != needle@[k as int]);
            return false;
        }
        k += 1;
    }
    assert(chars@.subrange(i as int, i + needle@.len()) =~= needle@);
    true
}

/// The first position at or after `from` at which `needle` stands in `chars`.
pub fn find_from(chars: &Vec<char>, needle: &Vec<char>, from: usize) -> (position: Option<usize>)
    requires
        from <= chars@.len(),
    ensures
        match position {
            Some(p) => from <= p && occurs_at(chars@, needle@, p as int) && forall|i: int|
                from <= i < p ==> !occurs_at(chars@, needle@, i),
            None => forall|i: int| from <= i ==> !occurs_at(chars@, needle@, i),
        },
{
    let mut i: usize = from;
    loop
        invariant
            from <= i <= chars@.len(),
            forall|j: int| from <= j < i ==> !occurs_at(chars@, needle@, j),
        decreases chars@.len() - i,
    {
        if matches_at(chars, needle, i) {
            return Some(i);
        }
        if i == chars.len() {
            return None;
        }
        i += 1;
    }
}

/// Whether `needle` stands somewhere in `s`.
pub fn contains(s: &str, needle: &str) -> (found: bool)
    ensures
        found == occurs(s@, needle@),
{
    let chars = chars_of(s);
    let wanted = chars_of(needle);
    match find_from(&chars, &wanted, 0) {
        Some(p) => {
            assert(occurs_at(s@, needle@, p as int));
            true
        },
        None => {
            assert forall|i: int| !occurs_at(s@, needle@, i) by {
                if 0 <= i {
                    assert(!occurs_at(chars@, wanted@, i));
                }
            }
            false
        },
    }
}

/// Whether `c` is a Unicode `White_Space` character.
pub fn is_whitespace(c: char) -> (white: bool)
    ensures
        white == is_white(c),
{
    let u: u32 = c as u32;
    (0x9 <= u && u <= 0xD) || u == 0x20 || u == 0x85 || u == 0xA0 || u == 0x1680 || (0x2000 <= u
        && u <= 0x200A) || u == 0x2028 || u == 0x2029 || u == 0x202F || u == 0x205F || u == 0x3000
}

/// Whether `s` holds nothing but white space.
pub fn is_blank(s: &str) -> (empty: bool)
    ensures
        empty == blank(s@),
{
    let chars = chars_of(s);
    let mut i: usize = 0;
    while i < chars.len()
        invariant
            i <= chars@.len(),
            chars@ == s@,
            forall|j: int| 0 <= j < i ==> is_white(#[trigger] s@[j]),
        decreases chars@.len() - i,
    {
        if !is_whitespace(chars[i]) {
            assert(!is_white(s@[i as int]));
            return false;
        }
        i += 1;
    }
    true
}

/// `s` without the white space at its two ends.
pub fn trim(s: &str) -> (kept: String)
    ensures
        kept@ == trimmed(s@),
{
    let chars = chars_of(s);
    let mut from: usize = 0;
    let mut to: usize = chars.len();
    assert(s@.subrange(0, to as int) =~= s@);
    while from < to && is_whitespace(chars[from])
        invariant
            from <= to,
            to == chars@.len(),
            chars@ == s@,
            trimmed(s@) == trimmed(s@.subrange(from as int, to as int)),
        ensures
            from <= to,
            to == chars@.len(),
            trimmed(s@) == trimmed(s@.subrange(from as int, to as int)),
            from < to ==> !is_white(s@[from as int]),
        decreases to - from,
    {
        assert(s@.subrange(from as int, to as int).drop_first() =~= s@.subrange(from + 1, to as int));
        from += 1;
    }
    while from < to && is_whitespace(chars[to - 1])
        invariant
            from <= to <= chars@.len(),
            chars@ == s@,
            trimmed(s@) == trimmed(s@.subrange(from as int, to as int)),
            from < to ==> !is_white(s@[from as int]),
        ensures
            from <= to <= chars@.len(),
            trimmed(s@) == trimmed(s@.subrange(from as int, to as int)),
            from < to ==> !is_white(s@[from as int]) && !is_white(s@[to - 1]),
        decreases to - from,
    {
        assert(s@.subrange(from as int, to as int).drop_last() =~= s@.subrange(from as int, to - 1));
        to -= 1;
    }
    assert(trimmed(s@) == s@.subrange(from as int, to as int));
    string_of(&chars, from, to)
}

/// Trimming leaves nothing exactly where there is nothing but white space.
pub proof fn law_blank_trims_to_nothing(s: Seq<char>)
    ensures
        blank(s) <==> trimmed(s).len() == 0,
    decreases s.len(),
{
    if s.len() > 0 {
        if is_white(s.first()) {
            law_blank_trims_to_nothing(s.drop_first());
            if blank(s.drop_first()) {
                assert forall|i: int| 0 <= i < s.len() implies is_white(#[trigger] s[i]) by {
                    if i > 0 {
                        assert(s.drop_first()[i - 1] == s[i]);
                    }
                }
            }
        } else if is_white(s.last()) {
            law_blank_trims_to_nothing(s.drop_last());
            assert(s.drop_last()[0] == s[0]);
        }
    }
}

/// `s` with every ASCII capital replaced by its small letter.
pub fn ascii_lowercase(s: &str) -> (lower: String)
    ensures
        lower@ == lowered(s@),
{
    let chars = chars_of(s);
    let mut lower = String::new();
    let mut i: usize = 0;
    while i < chars.len()
        invariant
            i <= chars@.len(),
            chars@ == s@,
            lower@ == lowered(s@.take(i as int)),
        decreases chars@.len() - i,
    {
        let c = chars[i];
        let folded = if 'A' <= c && c <= 'Z' {
            (c as u8 + 32) as char
        } else {
            c
        };
        assert(folded == lower_char(c));
        lower.push(folded);
        assert(s@.take(i + 1) =~= s@.take(i as int).push(c));
        assert(lowered(s@.take(i + 1)) =~= lowered(s@.take(i as int)).push(folded));
        i += 1;
    }
    assert(s@.take(chars@.len() as int) =~= s@);
    lower
}

/// Whether two texts are the same up to the case of ASCII letters.
pub fn same_ignoring_case(a: &str, b: &str) -> (same: bool)
    ensures
        same == (lowered(a@) == lowered(b@)),
{
    ascii_lowercase(a) == ascii_lowercase(b)
}

/// Whether `c` is an ASCII letter, an ASCII digit or an underscore.
pub fn is_word(c: char) -> (word: bool)
    ensures
        word == is_word_char(c),
{
    ('a' <= c && c <= 'z') || ('A' <= c && c <= 'Z') || ('0' <= c && c <= '9') || c == '_'
}

/// The decimal numeral of `n`.
pub fn decimal(n: u128) -> (text: String)
    ensures
        text@ == decimal_text(n as nat),
    decreases n,
{
    if n < 10 {
        let mut text = String::new();
        text.push((48 + n as u8) as char);
        assert(text@ =~= decimal_text(n as nat));
        text
    } else {
        let mut text = decimal(n / 10);
        text.push((48 + (n % 10) as u8) as char);
        text
    }
}

/// The number that a text of decimal digits denotes, if it is one and fits.
pub fn parse_u64(s: &str) -> (number: Option<u64>)
    ensures
        number == u64_from_text(s@),
{
    let chars = chars_of(s);
    let from: usize = if chars.len() > 0 && chars[0] == '+' {
        1
    } else {
        0
    };
    let ghost digits = unsigned_digits(s@);
    assert(digits =~= s@.subrange(from as int, s@.len() as int));
    if from == chars.len() {
        return None;
    }
    let mut value: u64 = 0;
    let mut i: usize = from;
    while i < chars.len()
        invariant
            from <= i <= chars@.len(),
            from <= 1,
            chars@ == s@,
            digits == s@.subrange(from as int, s@.len() as int),
            forall|j: int| from <= j < i ==> '0' <= #[trigger] s@[j] <= '9',
            value == digits_value(digits.take(i - from)),
            digits == unsigned_digits(s@),
        decreases chars@.len() - i,
    {
        let c = chars[i];
        let k = Ghost(i - from);
        if c < '0' || '9' < c {
            assert(digits[k@] == c);
            return None;
        }
        let d: u64 = (c as u8 - 48) as u64;
        assert(digits.take(k@ + 1).drop_last() =~= digits.take(k@));
        assert(digits_value(digits.take(k@ + 1)) == value * 10 + d);
        if value > (u64::MAX - d) / 10 {
            proof {
                lemma_digits_value_grows(digits, k@ + 1);
                assert(digits_value(digits) > u64::MAX);
            }
            return None;
        }
        value = value * 10 + d;
        i += 1;
    }
    assert(digits.take(digits.len() as int) =~= digits);
    assert(all_digits(digits));
    Some(value)
}

/// A prefix of a run of digits denotes no larger number than the run.
proof fn lemma_digits_value_grows(digits: Seq<char>, k: int)
    requires
        0 <= k <= digits.len(),
    ensures
        digits_value(digits.take(k)) <= digits_value(digits),
    decreases digits.len() - k,
{
    if k == digits.len() {
        assert(digits.take(k) =~= digits);
    } else {
        lemma_digits_value_grows(digits, k + 1);
        assert(digits.take(k + 1).drop_last() =~= digits.take(k));
    }
}

/// Reading back a decimal numeral gives the number that was written.
pub proof fn law_decimal_reads_back(n: u64)
    ensures
        u64_from_text(decimal_text(n as nat)) == Some(n),
{
    lemma_decimal_text(n as nat);
}

/// What a decimal numeral consists of, and the number that its digits denote.
proof fn lemma_decimal_text(n: nat)
    ensures
        all_digits(decimal_text(n)),
        digits_value(decimal_text(n)) == n,
        decimal_text(n)[0] != '+',
    decreases n,
{
    if n < 10 {
        let s = decimal_text(n);
        assert(s.drop_last() =~= Seq::<char>::empty());
        assert(digits_value(s.drop_last()) == 0);
    } else {
        lemma_decimal_text(n / 10);
        let s = decimal_text(n);
        assert(s.drop_last() =~= decimal_text(n / 10));
    }
}

/// A text holds another exactly where it is that other with something before and
/// something behind it.
pub proof fn law_occurrence_is_containment(s: Seq<char>, needle: Seq<char>)
    ensures
        occurs(s, needle) <==> exists|before: Seq<char>, behind: Seq<char>|
            s == #[trigger] (before + needle + behind),
{
    if occurs(s, needle) {
        let i = choose|i: int| occurs_at(s, needle, i);
        let before = s.subrange(0, i);
        let behind = s.subrange(i + needle.len(), s.len() as int);
        assert(s.subrange(i, i + needle.len()) == needle);
        assert(s =~= before + needle + behind);
    }
    if exists|before: Seq<char>, behind: Seq<char>| s == #[trigger] (before + needle + behind) {
        let (before, behind) = choose|before: Seq<char>, behind: Seq<char>|
            s == #[trigger] (before + needle + behind);
        assert(s.subrange(before.len() as int, (before.len() + needle.len()) as int) =~= needle);
        assert(occurs_at(s, needle, before.len() as int));
    }
}

/// Trimming takes white space off the two ends, all of it, and nothing else.
pub proof fn law_trimming_takes_the_ends_off(s: Seq<char>)
    ensures
        exists|before: Seq<char>, behind: Seq<char>|
            {
                &&& s == #[trigger] (before + trimmed(s) + behind)
                &&& forall|i: int| 0 <= i < before.len() ==> is_white(#[trigger] before[i])
                &&& forall|i: int| 0 <= i < behind.len() ==> is_white(#[trigger] behind[i])
            },
        trimmed(s).len() > 0 ==> !is_white(trimmed(s)[0]) && !is_white(
            trimmed(s)[trimmed(s).len() - 1],
        ),
    decreases s.len(),
{
    let none = Seq::<char>::empty();
    if s.len() == 0 {
        assert(s =~= none + trimmed(s) + none);
    } else if is_white(s.first()) {
        let rest = s.drop_first();
        law_trimming_takes_the_ends_off(rest);
        let (before, behind) = choose|before: Seq<char>, behind: Seq<char>|
            {
                &&& rest == #[trigger] (before + trimmed(rest) + behind)
                &&& forall|i: int| 0 <= i < before.len() ==> is_white(#[trigger] before[i])
                &&& forall|i: int| 0 <= i < behind.len() ==> is_white(#[trigger] behind[i])
            };
        let longer = seq![s.first()] + before;
        assert(s =~= seq![s.first()] + rest);
        assert(s =~= longer + trimmed(s) + behind);
    } else if is_white(s.last()) {
        let rest = s.drop_last();
        law_trimming_takes_the_ends_off(rest);
        let (before, behind) = choose|before: Seq<char>, behind: Seq<char>|
            {
                &&& rest == #[trigger] (before + trimmed(rest) + behind)
                &&& forall|i: int| 0 <= i < before.len() ==> is_white(#[trigger] before[i])
                &&& forall|i: int| 0 <= i < behind.len() ==> is_white(#[trigger] behind[i])
            };
        let longer = behind.push(s.last());
        assert(s =~= rest.push(s.last()));
        assert(s =~= before + trimmed(s) + longer);
    } else {
        assert(s =~= none + trimmed(s) + none);
    }
}

/// Lowering moves the ASCII capitals to their small letters and leaves every
/// other character where and as it is.
pub proof fn law_lowering_moves_capitals_only(s: Seq<char>)
    ensures
        lowered(s).len() == s.len(),
        forall|i: int|
            0 <= i < s.len() ==> (#[trigger] lowered(s)[i]) as int == if 65 <= s[i] as int <= 90 {
                s[i] as int + 32
            } else {
                s[i] as int
            },
{
}

/// A character of a word is an ASCII digit, capital or small letter, or an
/// underscore.
pub proof fn law_word_characters(c: char)
    ensures
        is_word_char(c) <==> 48 <= c as int <= 57 || 65 <= c as int <= 90 || 97 <= c as int <= 122
            || c as int == 95,
{
}

/// A numeral with one more digit denotes ten times the number and the digit.
pub proof fn law_decimal_appends_digits(n: nat, d: nat)
    requires
        d < 10,
    ensures
        n > 0 ==> decimal_text(n * 10 + d) == decimal_text(n).push((48 + d) as char),
        decimal_text(d) == seq![(48 + d) as char],
{
    if n > 0 {
        assert((n * 10 + d) / 10 == n);
        assert((n * 10 + d) % 10 == d);
    }
}

/// A text is read as a number exactly where it is a numeral of that number,
/// possibly behind zeros and behind one plus sign.
pub proof fn law_numbers_are_read_exactly(s: Seq<char>, n: u64)
    ensures
        u64_from_text(s) == Some(n) ==> {
            let digits = if s.len() > 0 && s[0] == '+' {
                s.subrange(1, s.len() as int)
            } else {
                s
            };
            &&& digits.len() > 0
            &&& digits_value(digits) == n
            &&& forall|i: int| 0 <= i < digits.len() ==> 48 <= (#[trigger] digits[i]) as int <= 57
        },
        s.len() > 0 && digits_value(s) == n && (forall|i: int|
            0 <= i < s.len() ==> 48 <= (#[trigger] s[i]) as int <= 57) ==> u64_from_text(s)
            == Some(n) && u64_from_text(seq!['+'] + s) == Some(n),
{
    if s.len() > 0 && s[0] == '+' {
        assert(s.subrange(1, s.len() as int) =~= s.drop_first());
    }
    let signed = seq!['+'] + s;
    assert(signed.drop_first() =~= s);
    if s.len() > 0 && digits_value(s) == n && (forall|i: int|
        0 <= i < s.len() ==> 48 <= (#[trigger] s[i]) as int <= 57) {
        assert forall|i: int| 0 <= i < s.len() implies '0' <= #[trigger] s[i] <= '9' by {
            assert(48 <= s[i] as int <= 57);
        }
        assert(s[0] != '+');
        assert(unsigned_digits(s) == s);
        assert(unsigned_digits(signed) == s);
    }
}

/// A run of digits denotes its digits by their places.
pub proof fn law_digits_count_by_their_place(digits: Seq<char>, c: char)
    ensures
        digits_value(Seq::<char>::empty()) == 0,
        48 <= c as int <= 57 ==> digits_value(digits.push(c)) == digits_value(digits) * 10 + (
        c as int - 48),
{
    assert(digits.push(c).drop_last() =~= digits);
}

/// The texts of strings are theirs, one for one.
pub proof fn law_texts_are_those_of_the_strings(names: Seq<String>, name: String)
    ensures
        name_texts(names).len() == names.len(),
        forall|i: int| 0 <= i < names.len() ==> #[trigger] name_texts(names)[i] == names[i]@,
        text_option(Some(name)) == Some(name@),
        text_option(None) is None,
{
}

/// White space is what Unicode calls so: the tabs and line ends from 9 to 13, the
/// plain, next-line, no-break and ideographic spaces, and the typographic ones.
pub proof fn law_white_space(c: char)
    ensures
        is_white(c) <==> {
            let u = c as int;
            ||| 9 <= u <= 13
            ||| u == 32
            ||| u == 133
            ||| u == 160
            ||| u == 5760
            ||| 8192 <= u <= 8202
            ||| u == 8232
            ||| u == 8233
            ||| u == 8239
            ||| u == 8287
            ||| u == 12288
        },
{
}

/// A text is blank exactly where all of it is white space.
pub proof fn law_blank_texts(s: Seq<char>, c: char)
    ensures
        blank(Seq::<char>::empty()),
        blank(s.push(c)) <==> blank(s) && is_white(c),
{
    if blank(s.push(c)) {
        assert forall|i: int| 0 <= i < s.len() implies is_white(#[trigger] s[i]) by {
            assert(s.push(c)[i] == s[i]);
        }
        assert(s.push(c)[s.len() as int] == c);
    }
    if blank(s) && is_white(c) {
        assert forall|i: int| 0 <= i < s.push(c).len() implies is_white(
            #[trigger] s.push(c)[i],
        ) by {
            if i < s.len() {
                assert(s.push(c)[i] == s[i]);
            }
        }
    }
}

/// A number that is written out is read back as itself.
pub proof fn law_numbers_written_are_read(
    n: u64,
    text: String,
    written: &str,
    read: Option<u64>,
)
    requires
        call_ensures(decimal, (n as u128,), text),
        written@ == text@,
        call_ensures(parse_u64, (written,), read),
    ensures
        read == Some(n),
{
    law_decimal_reads_back(n);
}

/// What is searched for is found exactly where it stands, whatever stands around
/// it, and two texts agree without regard to case exactly where they do in small
/// letters.
pub proof fn law_searches_find_what_stands_there(
    s: &str,
    needle: &str,
    found: bool,
    same: bool,
)
    requires
        call_ensures(contains, (s, needle), found),
        call_ensures(same_ignoring_case, (s, needle), same),
    ensures
        found <==> exists|before: Seq<char>, behind: Seq<char>|
            s@ == #[trigger] (before + needle@ + behind),
        same <==> lowered(s@) == lowered(needle@),
{
    law_occurrence_is_containment(s@, needle@);
}

} // verus!
