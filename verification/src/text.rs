//! Text helpers shared by every module: comparison, trimming, and decimal
//! numbers in both directions.

use vstd::prelude::*;
use vstd::string::*;

verus! {

/// Compares two pieces of text character by character.
pub fn same_text(left: &str, right: &str) -> (same: bool)
    ensures
        same == (left@ == right@),
{
    let left_owned: String = left.to_owned();
    let right_owned: String = right.to_owned();
    left_owned == right_owned
}

/// The Unicode `White_Space` property.
pub open spec fn white_space(c: char) -> bool {
    let code = c as int;
    ||| 0x09 <= code <= 0x0D
    ||| code == 0x20
    ||| code == 0x85
    ||| code == 0xA0
    ||| code == 0x1680
    ||| 0x2000 <= code <= 0x200A
    ||| code == 0x2028
    ||| code == 0x2029
    ||| code == 0x202F
    ||| code == 0x205F
    ||| code == 0x3000
}

/// Whether a character has the Unicode `White_Space` property.
pub fn is_white_space(c: char) -> (white: bool)
    ensures
        white == white_space(c),
{
    let code: u32 = c as u32;
    (0x09 <= code && code <= 0x0D) || code == 0x20 || code == 0x85 || code == 0xA0 || code == 0x1680
        || (0x2000 <= code && code <= 0x200A) || code == 0x2028 || code == 0x2029 || code == 0x202F
        || code == 0x205F || code == 0x3000
}

/// Whether text holds nothing but white space.
pub open spec fn blank(s: Seq<char>) -> bool {
    forall|i: int| 0 <= i < s.len() ==> white_space(#[trigger] s[i])
}

/// Text without its leading and trailing white space.
pub open spec fn trim(s: Seq<char>) -> Seq<char>
    decreases s.len(),
{
    if s.len() == 0 {
        s
    } else if white_space(s.first()) {
        trim(s.drop_first())
    } else if white_space(s.last()) {
        trim(s.drop_last())
    } else {
        s
    }
}

/// Trimming leaves nothing exactly when the text was blank.
pub proof fn law_blank_text_trims_to_nothing(s: Seq<char>)
    ensures
        (trim(s).len() == 0) == blank(s),
    decreases s.len(),
{
    if s.len() > 0 {
        if white_space(s.first()) {
            law_blank_text_trims_to_nothing(s.drop_first());
            assert(blank(s.drop_first()) ==> blank(s)) by {
                if blank(s.drop_first()) {
                    assert forall|i: int| 0 <= i < s.len() implies white_space(#[trigger] s[i]) by {
                        if i > 0 {
                            assert(s.drop_first()[i - 1] == s[i]);
                        }
                    }
                }
            }
            assert(blank(s) ==> blank(s.drop_first()));
        } else if white_space(s.last()) {
            law_blank_text_trims_to_nothing(s.drop_last());
            assert(!blank(s)) by {
                assert(s[0] == s.first());
            }
            assert(s.drop_last()[0] == s.first());
        } else {
            assert(s[0] == s.first());
        }
    }
}

/// Text without its leading and trailing white space.
pub fn trimmed(s: &str) -> (out: String)
    ensures
        out@ == trim(s@),
{
    let len: usize = s.unicode_len();
    let mut from: usize = 0;
    let mut to: usize = len;
    assert(s@.subrange(0, len as int) =~= s@);
    while from < to && is_white_space(s.get_char(from))
        invariant
            from <= to,
            to == len,
            len == s@.len(),
            trim(s@) == trim(s@.subrange(from as int, to as int)),
        decreases to - from,
    {
        proof {
            let piece = s@.subrange(from as int, to as int);
            assert(piece.drop_first() =~= s@.subrange(from + 1, to as int));
        }
        from = from + 1;
    }
    while from < to && is_white_space(s.get_char(to - 1))
        invariant
            from <= to <= len,
            len == s@.len(),
            from < to ==> !white_space(s@[from as int]),
            trim(s@) == trim(s@.subrange(from as int, to as int)),
        decreases to - from,
    {
        proof {
            let piece = s@.subrange(from as int, to as int);
            assert(piece.first() == s@[from as int]);
            assert(piece.last() == s@[to - 1]);
            assert(piece.drop_last() =~= s@.subrange(from as int, to - 1));
        }
        to = to - 1;
    }
    s.substring_char(from, to).to_owned()
}

/// Whether text is empty once trimmed.
pub fn is_blank(s: &str) -> (empty: bool)
    ensures
        empty == blank(s@),
{
    let len: usize = s.unicode_len();
    let mut i: usize = 0;
    while i < len
        invariant
            i <= len,
            len == s@.len(),
            forall|k: int| 0 <= k < i ==> white_space(#[trigger] s@[k]),
        decreases len - i,
    {
        if !is_white_space(s.get_char(i)) {
            assert(!white_space(s@[i as int]));
            return false;
        }
        i = i + 1;
    }
    true
}

/// The decimal digit for a value below ten.
pub open spec fn digit(d: int) -> char {
    (48 + d) as char
}

/// A natural number in decimal.
pub open spec fn decimal(n: nat) -> Seq<char>
    decreases n,
{
    if n < 10 {
        seq![digit(n as int)]
    } else {
        decimal(n / 10).push(digit((n % 10) as int))
    }
}

/// An integer in decimal, with a leading minus sign where it is negative.
pub open spec fn signed_decimal(n: int) -> Seq<char> {
    if n < 0 {
        "-"@ + decimal((-n) as nat)
    } else {
        decimal(n as nat)
    }
}

fn digit_text(d: u128) -> (out: &'static str)
    requires
        d < 10,
    ensures
        out@ == seq![digit(d as int)],
{
    proof {
        reveal_strlit("0");
        reveal_strlit("1");
        reveal_strlit("2");
        reveal_strlit("3");
        reveal_strlit("4");
        reveal_strlit("5");
        reveal_strlit("6");
        reveal_strlit("7");
        reveal_strlit("8");
        reveal_strlit("9");
    }
    if d == 0 {
        "0"
    } else if d == 1 {
        "1"
    } else if d == 2 {
        "2"
    } else if d == 3 {
        "3"
    } else if d == 4 {
        "4"
    } else if d == 5 {
        "5"
    } else if d == 6 {
        "6"
    } else if d == 7 {
        "7"
    } else if d == 8 {
        "8"
    } else {
        "9"
    }
}

/// Renders an unsigned number in decimal.
pub fn decimal_text(n: u128) -> (out: String)
    ensures
        out@ == decimal(n as nat),
    decreases n,
{
    if n < 10 {
        digit_text(n).to_owned()
    } else {
        let mut out: String = decimal_text(n / 10);
        out.append(digit_text(n % 10));
        assert(out@ =~= decimal(n as nat));
        out
    }
}

/// Renders a signed number in decimal.
pub fn signed_decimal_text(n: i64) -> (out: String)
    ensures
        out@ == signed_decimal(n as int),
{
    if n < 0 {
        let magnitude: u128 = (-(n as i128)) as u128;
        let mut out: String = "-".to_owned();
        let digits: String = decimal_text(magnitude);
        out.append(digits.as_str());
        out
    } else {
        decimal_text(n as u128)
    }
}

/// Lexicographic order on characters by code point, the order of Rust strings.
pub open spec fn text_before(left: Seq<char>, right: Seq<char>) -> bool
    decreases left.len(),
{
    if right.len() == 0 {
        false
    } else if left.len() == 0 {
        true
    } else if left.first() != right.first() {
        (left.first() as int) < (right.first() as int)
    } else {
        text_before(left.drop_first(), right.drop_first())
    }
}

/// Text order is total: of two different texts exactly one comes first.
pub proof fn lemma_text_order_total(left: Seq<char>, right: Seq<char>)
    ensures
        left == right ==> !text_before(left, right) && !text_before(right, left),
        left != right ==> (text_before(left, right) != text_before(right, left)),
    decreases left.len(),
{
    if left.len() == 0 || right.len() == 0 {
        assert(left.len() == 0 && right.len() == 0 ==> left =~= right);
    } else if left.first() == right.first() {
        lemma_text_order_total(left.drop_first(), right.drop_first());
        if left.drop_first() == right.drop_first() {
            assert(left =~= seq![left.first()] + left.drop_first());
            assert(right =~= seq![right.first()] + right.drop_first());
        }
    }
}

/// Text order is transitive.
pub proof fn lemma_text_order_transitive(a: Seq<char>, b: Seq<char>, c: Seq<char>)
    requires
        text_before(a, b),
        text_before(b, c),
    ensures
        text_before(a, c),
    decreases a.len(),
{
    if a.len() > 0 && b.len() > 0 && c.len() > 0 && a.first() == b.first() && b.first() == c.first() {
        lemma_text_order_transitive(a.drop_first(), b.drop_first(), c.drop_first());
    }
}

/// Whether one piece of text sorts before another.
pub fn comes_before(left: &str, right: &str) -> (before: bool)
    ensures
        before == text_before(left@, right@),
{
    let left_len: usize = left.unicode_len();
    let right_len: usize = right.unicode_len();
    let mut i: usize = 0;
    assert(left@.skip(0) =~= left@);
    assert(right@.skip(0) =~= right@);
    while i < left_len && i < right_len
        invariant
            i <= left_len,
            i <= right_len,
            left_len == left@.len(),
            right_len == right@.len(),
            text_before(left@, right@) == text_before(left@.skip(i as int), right@.skip(i as int)),
        decreases left_len - i,
    {
        let l: char = left.get_char(i);
        let r: char = right.get_char(i);
        assert(left@.skip(i as int).first() == l);
        assert(right@.skip(i as int).first() == r);
        if l != r {
            return (l as u32) < (r as u32);
        }
        assert(left@.skip(i as int).drop_first() =~= left@.skip(i + 1));
        assert(right@.skip(i as int).drop_first() =~= right@.skip(i + 1));
        i = i + 1;
    }
    i < right_len
}

/// Whether every character is an ASCII digit.
pub open spec fn all_digits(s: Seq<char>) -> bool {
    forall|i: int| 0 <= i < s.len() ==> 48 <= (#[trigger] s[i]) as int <= 57
}

/// The value of a run of decimal digits.
pub open spec fn digits_value(s: Seq<char>) -> nat
    decreases s.len(),
{
    if s.len() == 0 {
        0
    } else {
        digits_value(s.drop_last()) * 10 + ((s.last() as int) - 48) as nat
    }
}

/// What unsigned decimal text denotes: digits, after an optional plus sign.
pub open spec fn unsigned_value(s: Seq<char>) -> Option<nat> {
    let body = if s.len() > 0 && s[0] == '+' {
        s.skip(1)
    } else {
        s
    };
    if body.len() > 0 && all_digits(body) {
        Some(digits_value(body))
    } else {
        None
    }
}

/// What signed decimal text denotes: digits, after an optional sign.
pub open spec fn signed_value(s: Seq<char>) -> Option<int> {
    if s.len() > 0 && s[0] == '-' {
        let body = s.skip(1);
        if body.len() > 0 && all_digits(body) {
            Some(-(digits_value(body) as int))
        } else {
            None
        }
    } else {
        match unsigned_value(s) {
            Some(value) => Some(value as int),
            None => None,
        }
    }
}

/// Digits read after more digits never make a number smaller.
proof fn lemma_prefix_value(s: Seq<char>, n: int)
    requires
        0 <= n <= s.len(),
        all_digits(s),
    ensures
        digits_value(s.take(n)) <= digits_value(s),
    decreases s.len() - n,
{
    if n == s.len() {
        assert(s.take(n) =~= s);
    } else {
        lemma_prefix_value(s, n + 1);
        assert(s.take(n + 1).drop_last() =~= s.take(n));
        assert(48 <= s[n] as int <= 57);
    }
}

/// The value of the digits from `from` on, as far as it stays within `limit`.
fn digits_from(s: &str, from: usize, limit: u128) -> (value: Option<u128>)
    requires
        from <= s@.len(),
        limit <= 0xFFFF_FFFF_FFFF_FFFF,
    ensures
        match value {
            Some(v) => {
                let body = s@.skip(from as int);
                body.len() > 0 && all_digits(body) && digits_value(body) == v && v <= limit
            },
            None => {
                let body = s@.skip(from as int);
                !(body.len() > 0 && all_digits(body) && digits_value(body) <= limit)
            },
        },
{
    let len: usize = s.unicode_len();
    if from == len {
        return None;
    }
    let ghost body = s@.skip(from as int);
    let mut i: usize = from;
    let mut total: u128 = 0;
    let mut over: bool = false;
    assert(body.take(0) =~= Seq::empty());
    while i < len
        invariant
            from <= i <= len,
            len == s@.len(),
            body == s@.skip(from as int),
            limit <= 0xFFFF_FFFF_FFFF_FFFF,
            all_digits(body.take(i - from)),
            !over ==> total == digits_value(body.take(i - from)) && total <= limit,
            over ==> digits_value(body.take(i - from)) > limit,
        decreases len - i,
    {
        let c: char = s.get_char(i);
        let code: u32 = c as u32;
        assert(body[i - from] == c);
        if code < 48 || code > 57 {
            return None;
        }
        proof {
            let next = body.take(i - from + 1);
            assert(next.drop_last() =~= body.take(i - from));
            assert(next.last() == c);
            assert forall|k: int| 0 <= k < next.len() implies 48 <= (#[trigger] next[k]) as int <= 57 by {
                if k < i - from {
                    assert(body.take(i - from)[k] == next[k]);
                }
            }
        }
        if !over {
            total = total * 10 + (code - 48) as u128;
            if total > limit {
                over = true;
            }
        }
        i = i + 1;
    }
    assert(body.take(len - from) =~= body);
    if over {
        None
    } else {
        Some(total)
    }
}

/// Reads an unsigned number as `u64::from_str` does.
pub fn parse_u64(s: &str) -> (value: Option<u64>)
    ensures
        value == match unsigned_value(s@) {
            Some(v) => if v <= u64::MAX {
                Some(v as u64)
            } else {
                None
            },
            None => None,
        },
{
    let len: usize = s.unicode_len();
    let from: usize = if len > 0 && s.get_char(0) == '+' {
        1
    } else {
        0
    };
    assert(s@.skip(0) =~= s@);
    match digits_from(s, from, 0xFFFF_FFFF_FFFF_FFFF) {
        Some(v) => Some(v as u64),
        None => None,
    }
}

/// Reads a signed number as `i64::from_str` does.
pub fn parse_i64(s: &str) -> (value: Option<i64>)
    ensures
        value == match signed_value(s@) {
            Some(v) => if i64::MIN <= v <= i64::MAX {
                Some(v as i64)
            } else {
                None
            },
            None => None,
        },
{
    let len: usize = s.unicode_len();
    assert(s@.skip(0) =~= s@);
    if len > 0 && s.get_char(0) == '-' {
        match digits_from(s, 1, 0x8000_0000_0000_0000) {
            Some(v) => Some((-(v as i128)) as i64),
            None => None,
        }
    } else {
        let from: usize = if len > 0 && s.get_char(0) == '+' {
            1
        } else {
            0
        };
        match digits_from(s, from, 0x7FFF_FFFF_FFFF_FFFF) {
            Some(v) => Some(v as i64),
            None => None,
        }
    }
}

/// Reading back a rendered number gives the number.
pub proof fn law_numbers_read_back(n: nat)
    ensures
        unsigned_value(decimal(n)) == Some(n),
{
    lemma_decimal_digits(n);
}

/// A rendered number is digits, and these have its value.
pub proof fn lemma_decimal_digits(n: nat)
    ensures
        decimal(n).len() > 0,
        all_digits(decimal(n)),
        digits_value(decimal(n)) == n,
        decimal(n)[0] != '+',
        decimal(n)[0] != '-',
    decreases n,
{
    if n < 10 {
        assert(decimal(n).drop_last() =~= Seq::empty());
        assert(digits_value(Seq::<char>::empty()) == 0);
    } else {
        lemma_decimal_digits(n / 10);
        assert(decimal(n).drop_last() =~= decimal(n / 10));
        assert(decimal(n)[0] == decimal(n / 10)[0]);
    }
}

/// The lower-case hexadecimal digit for a value below sixteen.
pub open spec fn hex_digit(d: int) -> char {
    if d < 10 {
        (48 + d) as char
    } else {
        (87 + d) as char
    }
}

/// A number in hexadecimal, padded with zeros to a width.
pub open spec fn hexadecimal(n: nat, width: nat) -> Seq<char>
    decreases width,
{
    if width == 0 {
        Seq::empty()
    } else {
        hexadecimal(n / 16, (width - 1) as nat).push(hex_digit((n % 16) as int))
    }
}

fn hex_digit_text(d: u64) -> (out: &'static str)
    requires
        d < 16,
    ensures
        out@ == seq![hex_digit(d as int)],
{
    proof {
        reveal_strlit("a");
        reveal_strlit("b");
        reveal_strlit("c");
        reveal_strlit("d");
        reveal_strlit("e");
        reveal_strlit("f");
    }
    if d < 10 {
        digit_text(d as u128)
    } else if d == 10 {
        "a"
    } else if d == 11 {
        "b"
    } else if d == 12 {
        "c"
    } else if d == 13 {
        "d"
    } else if d == 14 {
        "e"
    } else {
        "f"
    }
}

fn hex_text(n: u64, width: u32) -> (out: String)
    ensures
        out@ == hexadecimal(n as nat, width as nat),
    decreases width,
{
    if width == 0 {
        String::new()
    } else {
        let mut out: String = hex_text(n / 16, width - 1);
        out.append(hex_digit_text(n % 16));
        assert(out@ =~= hexadecimal(n as nat, width as nat));
        out
    }
}

/// Renders a 64-bit number as sixteen hexadecimal digits.
pub fn hex16(n: u64) -> (out: String)
    ensures
        out@ == hexadecimal(n as nat, 16),
{
    hex_text(n, 16)
}

/// Whether text begins with a prefix.
pub open spec fn begins_with(s: Seq<char>, prefix: Seq<char>) -> bool {
    prefix.len() <= s.len() && s.take(prefix.len() as int) == prefix
}

/// Whether text begins with a prefix.
pub fn starts_with(s: &str, prefix: &str) -> (starts: bool)
    ensures
        starts == begins_with(s@, prefix@),
{
    let len: usize = s.unicode_len();
    let prefix_len: usize = prefix.unicode_len();
    if prefix_len > len {
        return false;
    }
    assert(s@.subrange(0, prefix_len as int) =~= s@.take(prefix_len as int));
    same_text(s.substring_char(0, prefix_len), prefix)
}

/// What an optional text holds.
pub open spec fn optional(text: Option<String>) -> Option<Seq<char>> {
    match text {
        Some(t) => Some(t@),
        None => None,
    }
}

/// What stands behind a prefix, where text begins with it.
pub open spec fn behind(s: Seq<char>, prefix: Seq<char>) -> Option<Seq<char>> {
    if begins_with(s, prefix) {
        Some(s.skip(prefix.len() as int))
    } else {
        None
    }
}

/// What stands behind a prefix, where text begins with it.
pub fn strip_prefix(s: &str, prefix: &str) -> (rest: Option<String>)
    ensures
        optional(rest) == behind(s@, prefix@),
{
    if !starts_with(s, prefix) {
        return None;
    }
    let len: usize = s.unicode_len();
    let from: usize = prefix.unicode_len();
    assert(s@.subrange(from as int, len as int) =~= s@.skip(from as int));
    Some(s.substring_char(from, len).to_owned())
}

/// Where a character first stands in text, from a position on; the length of the text
/// where it does not.
pub open spec fn first_at(s: Seq<char>, c: char, from: int) -> int
    decreases s.len() - from,
{
    if from >= s.len() || s[from] == c {
        from
    } else {
        first_at(s, c, from + 1)
    }
}

/// The two pieces around the first of some character, where there is one.
pub open spec fn split_around(s: Seq<char>, c: char) -> Option<(Seq<char>, Seq<char>)> {
    let at = first_at(s, c, 0);
    if at < s.len() {
        Some((s.take(at), s.skip(at + 1)))
    } else {
        None
    }
}

/// The two pieces around the first of some character, where there is one.
pub fn split_once(s: &str, c: char) -> (pieces: Option<(String, String)>)
    ensures
        match pieces {
            Some((left, right)) => split_around(s@, c) == Some((left@, right@)),
            None => split_around(s@, c) is None,
        },
{
    let len: usize = s.unicode_len();
    let mut at: usize = 0;
    while at < len && s.get_char(at) != c
        invariant
            at <= len,
            len == s@.len(),
            first_at(s@, c, 0) == first_at(s@, c, at as int),
        ensures
            at <= len,
            first_at(s@, c, 0) == at,
        decreases len - at,
    {
        at = at + 1;
    }
    if at == len {
        return None;
    }
    assert(s@.subrange(0, at as int) =~= s@.take(at as int));
    assert(s@.subrange(at + 1, len as int) =~= s@.skip(at + 1));
    Some((s.substring_char(0, at).to_owned(), s.substring_char(at + 1, len).to_owned()))
}

/// Whether some text stands within another.
pub open spec fn within(s: Seq<char>, piece: Seq<char>) -> bool {
    exists|i: int| 0 <= i <= s.len() - piece.len() && #[trigger] piece_at(s, piece, i)
}

/// Whether some text stands within another at a position.
pub open spec fn piece_at(s: Seq<char>, piece: Seq<char>, at: int) -> bool {
    s.subrange(at, at + piece.len()) == piece
}

/// A piece between two others stands within all three.
pub proof fn lemma_within_between(before: Seq<char>, piece: Seq<char>, after: Seq<char>)
    ensures
        within(before + piece + after, piece),
{
    let all = before + piece + after;
    let at = before.len() as int;
    assert(all.subrange(at, at + piece.len()) =~= piece);
    assert(piece_at(all, piece, at));
}

/// What stands within a piece stands within all that the piece stands in.
pub proof fn lemma_within_chain(s: Seq<char>, piece: Seq<char>, part: Seq<char>)
    requires
        within(s, piece),
        within(piece, part),
    ensures
        within(s, part),
{
    let i = choose|i: int| 0 <= i <= s.len() - piece.len() && #[trigger] piece_at(s, piece, i);
    let j = choose|j: int| 0 <= j <= piece.len() - part.len() && #[trigger] piece_at(
        piece,
        part,
        j,
    );
    assert(s.subrange(i + j, i + j + part.len()) =~= s.subrange(i, i + piece.len()).subrange(
        j,
        j + part.len(),
    ));
    assert(piece_at(s, part, i + j));
}

/// Whether some text stands within another.
pub fn contains_text(s: &str, piece: &str) -> (held: bool)
    ensures
        held == within(s@, piece@),
{
    let len: usize = s.unicode_len();
    let width: usize = piece.unicode_len();
    if width > len {
        return false;
    }
    let mut i: usize = 0;
    while i <= len - width
        invariant
            i <= len - width + 1,
            width <= len,
            len == s@.len(),
            width == piece@.len(),
            forall|k: int| 0 <= k < i ==> !#[trigger] piece_at(s@, piece@, k),
        decreases len - width + 1 - i,
    {
        if same_text(s.substring_char(i, i + width), piece) {
            assert(piece_at(s@, piece@, i as int));
            return true;
        }
        if i == len - width {
            return false;
        }
        i = i + 1;
    }
    false
}

/// Trimming takes white space from both ends and nothing else: the text is some white
/// space, what is left, and some white space, and what is left neither begins nor ends
/// with any.
pub proof fn law_trimming_takes_white_space_from_the_ends(s: Seq<char>) -> (cut: (
    Seq<char>,
    Seq<char>,
))
    ensures
        s == cut.0 + trim(s) + cut.1,
        blank(cut.0),
        blank(cut.1),
        trim(s).len() > 0 ==> !white_space(trim(s)[0]) && !white_space(trim(s).last()),
    decreases s.len(),
{
    if s.len() == 0 {
        assert(s + trim(s) + s =~= s);
        (s, s)
    } else if white_space(s.first()) {
        let (before, after) = law_trimming_takes_white_space_from_the_ends(s.drop_first());
        let longer = seq![s.first()] + before;
        assert(s =~= seq![s.first()] + s.drop_first());
        assert(s =~= longer + trim(s) + after);
        assert forall|i: int| 0 <= i < longer.len() implies white_space(#[trigger] longer[i]) by {
            if i > 0 {
                assert(longer[i] == before[i - 1]);
            }
        }
        (longer, after)
    } else if white_space(s.last()) {
        let (before, after) = law_trimming_takes_white_space_from_the_ends(s.drop_last());
        let longer = after.push(s.last());
        assert(s =~= s.drop_last().push(s.last()));
        assert(s =~= before + trim(s) + longer);
        (before, longer)
    } else {
        let none = Seq::<char>::empty();
        assert(s =~= none + trim(s) + none);
        (none, none)
    }
}

/// Signed numbers read back, too.
pub proof fn law_signed_numbers_read_back(n: int)
    ensures
        signed_value(signed_decimal(n)) == Some(n),
{
    reveal_strlit("-");
    if n < 0 {
        lemma_decimal_digits((-n) as nat);
        let s = signed_decimal(n);
        assert(s[0] == '-');
        assert(s.skip(1) =~= decimal((-n) as nat));
    } else {
        lemma_decimal_digits(n as nat);
    }
}

/// Texts are in order by the first character in which they differ, and a text comes before
/// every longer one that begins with it.
pub proof fn law_the_first_difference_decides(
    same: Seq<char>,
    left: char,
    right: char,
    after: Seq<char>,
    behind: Seq<char>,
)
    ensures
        left != right ==> (text_before(same + seq![left] + after, same + seq![right] + behind)
            <==> (left as int) < (right as int)),
        text_before(same, same + seq![right] + behind),
        !text_before(same + seq![left] + after, same),
    decreases same.len(),
{
    let a = same + seq![left] + after;
    let b = same + seq![right] + behind;
    if same.len() > 0 {
        let rest = same.drop_first();
        law_the_first_difference_decides(rest, left, right, after, behind);
        assert(a.drop_first() =~= rest + seq![left] + after);
        assert(b.drop_first() =~= rest + seq![right] + behind);
        assert(a.first() == same.first() && b.first() == same.first());
    } else {
        assert(a.first() == left && b.first() == right);
    }
}

/// Something stands behind a prefix exactly where the text is the prefix and that.
pub proof fn law_behind_a_prefix_stands_the_rest(
    s: Seq<char>,
    prefix: Seq<char>,
    rest: Seq<char>,
)
    ensures
        behind(s, prefix) == Some(rest) <==> s == prefix + rest,
{
    assert((prefix + rest).take(prefix.len() as int) =~= prefix);
    assert((prefix + rest).skip(prefix.len() as int) =~= rest);
    if behind(s, prefix) == Some(rest) {
        assert(s =~= s.take(prefix.len() as int) + s.skip(prefix.len() as int));
    }
}

proof fn lemma_first_at(s: Seq<char>, c: char, from: int)
    requires
        0 <= from <= s.len(),
    ensures
        from <= first_at(s, c, from) <= s.len(),
        first_at(s, c, from) < s.len() ==> s[first_at(s, c, from)] == c,
        forall|i: int| from <= i < first_at(s, c, from) ==> #[trigger] s[i] != c,
    decreases s.len() - from,
{
    if from < s.len() && s[from] != c {
        lemma_first_at(s, c, from + 1);
    }
}

/// Text is split at the first of some character: the pieces and that character between
/// them are the text, and the first piece does not hold it. Text without it is not split.
pub proof fn law_text_is_split_at_the_first(s: Seq<char>, c: char)
    ensures
        split_around(s, c) is Some <==> s.contains(c),
        split_around(s, c) matches Some((left, right)) ==> s == left + seq![c] + right
            && !left.contains(c),
{
    lemma_first_at(s, c, 0);
    let at = first_at(s, c, 0);
    if at < s.len() {
        assert(s =~= s.take(at) + seq![c] + s.skip(at + 1));
        assert(s[at] == c);
        if s.take(at).contains(c) {
            let i = choose|i: int| 0 <= i < at && s.take(at)[i] == c;
            assert(s[i] == c);
        }
    } else if s.contains(c) {
        let i = choose|i: int| 0 <= i < s.len() && s[i] == c;
        assert(s[i] != c);
    }
}

/// A number in hexadecimal has the width that was asked for, and two numbers that fit in
/// it are written alike only where they are the same.
pub proof fn law_hexadecimal_tells_numbers_apart(a: nat, b: nat, width: nat)
    ensures
        hexadecimal(a, width).len() == width,
        width > 0 ==> hexadecimal(a, width).last() == if a % 16 < 10 {
            (48 + a % 16) as char
        } else {
            (87 + a % 16) as char
        },
        a < vstd::arithmetic::power::pow(16, width) && b < vstd::arithmetic::power::pow(16, width)
            && hexadecimal(a, width) == hexadecimal(b, width) ==> a == b,
    decreases width,
{
    reveal(vstd::arithmetic::power::pow);
    if width > 0 {
        let shorter = (width - 1) as nat;
        law_hexadecimal_tells_numbers_apart(a / 16, b / 16, shorter);
        let (x, y) = (hexadecimal(a, width), hexadecimal(b, width));
        assert(x.drop_last() =~= hexadecimal(a / 16, shorter));
        assert(y.drop_last() =~= hexadecimal(b / 16, shorter));
        if x == y {
            assert(x.last() == y.last());
            assert(a % 16 == b % 16) by {
                let (c, d) = (hex_digit((a % 16) as int), hex_digit((b % 16) as int));
                assert(c as int == d as int);
            }
        }
    }
}

} // verus!
