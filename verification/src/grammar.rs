use vstd::prelude::*;

verus! {

// ---------------------------------------------------------------------------
// Character classes
// ---------------------------------------------------------------------------

pub open spec fn is_dec_digit(c: char) -> bool {
    48 <= c as u32 <= 57
}

pub open spec fn is_hex_digit(c: char) -> bool {
    ||| is_dec_digit(c)
    ||| 97 <= c as u32 <= 102  // 'a' ..= 'f'
    ||| 65 <= c as u32 <= 70  // 'A' ..= 'F'
}

/// The digits a literal body may use, by numeric base (2, 8, 10 or 16).
pub open spec fn is_digit_of(c: char, base: u32) -> bool {
    if base == 16 {
        is_hex_digit(c)
    } else if base == 8 {
        48 <= c as u32 <= 55
    } else if base == 2 {
        48 <= c as u32 <= 49
    } else {
        is_dec_digit(c)
    }
}

/// A character that may appear inside a digit run: a digit of the base or a
/// readability underscore.
pub open spec fn is_run_char(c: char, base: u32) -> bool {
    is_digit_of(c, base) || c == '_'
}

/// The numeric value of a hexadecimal digit.
pub open spec fn hex_val(c: char) -> int {
    if is_dec_digit(c) {
        c as u32 - 48
    } else if 97 <= c as u32 <= 102 {
        c as u32 - 87
    } else {
        c as u32 - 55
    }
}

// ---------------------------------------------------------------------------
// Digit runs
// ---------------------------------------------------------------------------

/// The first index at or after `i` that does not continue a digit run.
pub open spec fn run_end(s: Seq<char>, base: u32, i: int) -> int
    decreases s.len() - i,
{
    if i < 0 || i >= s.len() {
        i
    } else if is_run_char(s[i], base) {
        run_end(s, base, i + 1)
    } else {
        i
    }
}

/// Whether some actual digit (not an underscore) occurs in `[lo, hi)`.
pub open spec fn has_digit(s: Seq<char>, base: u32, lo: int, hi: int) -> bool {
    exists|k: int| lo <= k < hi && #[trigger] is_digit_of(s[k], base)
}

// ---------------------------------------------------------------------------
// Integer tokens
// ---------------------------------------------------------------------------

/// The base announced by a `0x` / `0o` / `0b` prefix; decimal otherwise.
pub open spec fn int_base(s: Seq<char>) -> u32 {
    if s.len() >= 2 && s[0] == '0' && s[1] == 'x' {
        16
    } else if s.len() >= 2 && s[0] == '0' && s[1] == 'o' {
        8
    } else if s.len() >= 2 && s[0] == '0' && s[1] == 'b' {
        2
    } else {
        10
    }
}

pub open spec fn int_start(s: Seq<char>) -> int {
    if int_base(s) == 10 {
        0
    } else {
        2
    }
}

/// An empty suffix or one of the named integer widths behind `i` or `u`.
pub open spec fn is_int_suffix(s: Seq<char>) -> bool {
    ||| s.len() == 0
    ||| ((s[0] == 'i' || s[0] == 'u') && is_int_width(s.skip(1)))
}

pub open spec fn is_int_width(s: Seq<char>) -> bool {
    ||| s == seq!['8']
    ||| s == seq!['1', '6']
    ||| s == seq!['3', '2']
    ||| s == seq!['6', '4']
    ||| s == seq!['1', '2', '8']
    ||| s == seq!['s', 'i', 'z', 'e']
}

/// An integer literal token: optional base prefix, a digit run holding at
/// least one digit (a decimal run must open with a digit, not an
/// underscore), and an optional width suffix.
pub open spec fn is_int_token(s: Seq<char>) -> bool {
    let base = int_base(s);
    let start = int_start(s);
    let j = run_end(s, base, start);
    &&& s.len() >= 1
    &&& (base == 10 ==> is_dec_digit(s[0]))
    &&& has_digit(s, base, start, j)
    &&& is_int_suffix(s.skip(j))
}

// ---------------------------------------------------------------------------
// Float tokens
// ---------------------------------------------------------------------------

/// An empty suffix or one of the two named float widths.
pub open spec fn is_float_suffix(s: Seq<char>) -> bool {
    ||| s.len() == 0
    ||| s == seq!['f', '3', '2']
    ||| s == seq!['f', '6', '4']
}

/// The tail of a float token from position `i` on: an optional exponent
/// (`e`/`E`, optional sign, a run with at least one digit) followed by a
/// suffix. Without a fractional part before it, a bare suffix position must
/// still carry an exponent or a non-empty suffix, else the token would be an
/// integer.
pub open spec fn float_tail(s: Seq<char>, i: int, had_frac: bool) -> bool {
    if i < s.len() && (s[i] == 'e' || s[i] == 'E') {
        let k = if i + 1 < s.len() && (s[i + 1] == '+' || s[i + 1] == '-') {
            i + 2
        } else {
            i + 1
        };
        let j = run_end(s, 10, k);
        &&& k <= s.len()
        &&& has_digit(s, 10, k, j)
        &&& is_float_suffix(s.skip(j))
    } else if had_frac {
        is_float_suffix(s.skip(i))
    } else {
        i < s.len() && is_float_suffix(s.skip(i))
    }
}

/// A float literal token: a decimal digit run, then an optional `.` with an
/// optional fractional run, then an optional exponent and suffix. At least
/// one of the dot, the exponent or the suffix must be present; a trailing
/// dot must end the token; a fractional run must open with a digit, not an
/// underscore.
pub open spec fn is_float_token(s: Seq<char>) -> bool {
    let j1 = run_end(s, 10, 0);
    &&& s.len() >= 1
    &&& is_dec_digit(s[0])
    &&& if j1 == s.len() {
        false
    } else if s[j1] == '.' {
        let j2 = run_end(s, 10, j1 + 1);
        if j2 == j1 + 1 {
            j1 + 1 == s.len()
        } else {
            is_dec_digit(s[j1 + 1]) && float_tail(s, j2, true)
        }
    } else {
        float_tail(s, j1, false)
    }
}

// ---------------------------------------------------------------------------
// Token suffixes, and the token an override produces
// ---------------------------------------------------------------------------

/// The trailing suffix of an integer token: whatever follows its digit run.
pub open spec fn int_suffix_of(s: Seq<char>) -> Seq<char> {
    s.skip(run_end(s, int_base(s), int_start(s)))
}

/// Where a float token's suffix begins: after the integer run, the optional
/// fraction and the optional exponent.
pub open spec fn float_suffix_start(s: Seq<char>) -> int {
    let j1 = run_end(s, 10, 0);
    let j2 = if j1 < s.len() && s[j1] == '.' {
        run_end(s, 10, j1 + 1)
    } else {
        j1
    };
    if j2 < s.len() && (s[j2] == 'e' || s[j2] == 'E') {
        let k = if j2 + 1 < s.len() && (s[j2 + 1] == '+' || s[j2 + 1] == '-') {
            j2 + 2
        } else {
            j2 + 1
        };
        run_end(s, 10, k)
    } else {
        j2
    }
}

/// The trailing suffix of a float token.
pub open spec fn float_suffix_of(s: Seq<char>) -> Seq<char> {
    s.skip(float_suffix_start(s))
}

/// The integer token an override produces: the raw value as written when it
/// carries a suffix of its own, else the raw value with the original
/// token's suffix carried over, so that the declared numeric type survives
/// a plain decimal override.
pub open spec fn int_token_result(orig: Seq<char>, raw: Seq<char>) -> Seq<char> {
    if int_suffix_of(raw).len() > 0 {
        raw
    } else {
        raw + int_suffix_of(orig)
    }
}

/// The float token an override produces, carrying the original token's
/// suffix over when the raw value has none.
pub open spec fn float_token_result(orig: Seq<char>, raw: Seq<char>) -> Seq<char> {
    if float_suffix_of(raw).len() > 0 {
        raw
    } else {
        raw + float_suffix_of(orig)
    }
}

// ---------------------------------------------------------------------------
// Boolean tokens
// ---------------------------------------------------------------------------

pub open spec fn is_true_token(s: Seq<char>) -> bool {
    s == seq!['t', 'r', 'u', 'e']
}

pub open spec fn is_false_token(s: Seq<char>) -> bool {
    s == seq!['f', 'a', 'l', 's', 'e']
}

// ---------------------------------------------------------------------------
// Quoted text and quoted bytes
// ---------------------------------------------------------------------------

/// The character denoted by a single-character escape, if the character may
/// stand behind a backslash.
pub open spec fn simple_escape(c: char) -> Option<char> {
    if c == 'n' {
        Some('\n')
    } else if c == 'r' {
        Some('\r')
    } else if c == 't' {
        Some('\t')
    } else if c == '\\' {
        Some('\\')
    } else if c == '\'' {
        Some('\'')
    } else if c == '"' {
        Some('"')
    } else if c == '0' {
        Some('\0')
    } else {
        None
    }
}

/// The characters a raw override value denotes when read as the body of a
/// quoted literal with quote character `quote`: an unescaped quote is
/// rejected, a backslash must open a recognized escape, and a `\xNN` escape
/// must stay within seven bits. `None` marks a malformed body.
///
/// The escape set is deliberately closed: the single-character escapes and
/// `\xNN`, nothing else. In particular `\u{..}` is not part of the override
/// grammar; a value that needs a character beyond seven bits writes it
/// directly (unescaped non-ASCII characters pass through), and anything
/// else is rejected rather than guessed at.
pub open spec fn text_units(s: Seq<char>, quote: char) -> Option<Seq<char>>
    decreases s.len(),
{
    if s.len() == 0 {
        Some(Seq::empty())
    } else if s[0] == quote {
        None
    } else if s[0] == '\\' {
        if s.len() >= 2 && simple_escape(s[1]) is Some {
            match text_units(s.skip(2), quote) {
                Some(rest) => Some(seq![simple_escape(s[1]).unwrap()] + rest),
                None => None,
            }
        } else if s.len() >= 4 && s[1] == 'x' && is_hex_digit(s[2]) && is_hex_digit(s[3])
            && hex_val(s[2]) * 16 + hex_val(s[3]) <= 0x7f {
            match text_units(s.skip(4), quote) {
                Some(rest) => Some(
                    seq![(((hex_val(s[2]) * 16 + hex_val(s[3])) as u8) as char)] + rest,
                ),
                None => None,
            }
        } else {
            None
        }
    } else {
        match text_units(s.skip(1), quote) {
            Some(rest) => Some(seq![s[0]] + rest),
            None => None,
        }
    }
}

/// The numeric value of a single-character escape in a byte context.
pub open spec fn simple_escape_byte(c: char) -> Option<u8> {
    if c == 'n' {
        Some(0x0a)
    } else if c == 'r' {
        Some(0x0d)
    } else if c == 't' {
        Some(0x09)
    } else if c == '\\' {
        Some(0x5c)
    } else if c == '\'' {
        Some(0x27)
    } else if c == '"' {
        Some(0x22)
    } else if c == '0' {
        Some(0x00)
    } else {
        None
    }
}

/// The bytes a raw override value denotes when read as the body of a byte
/// or byte-string literal with quote character `quote`: plain characters
/// must be seven-bit, `\xNN` may reach `0xff`.
pub open spec fn byte_units(s: Seq<char>, quote: char) -> Option<Seq<u8>>
    decreases s.len(),
{
    if s.len() == 0 {
        Some(Seq::empty())
    } else if s[0] == quote {
        None
    } else if s[0] == '\\' {
        if s.len() >= 2 && simple_escape_byte(s[1]) is Some {
            match byte_units(s.skip(2), quote) {
                Some(rest) => Some(seq![simple_escape_byte(s[1]).unwrap()] + rest),
                None => None,
            }
        } else if s.len() >= 4 && s[1] == 'x' && is_hex_digit(s[2]) && is_hex_digit(s[3]) {
            match byte_units(s.skip(4), quote) {
                Some(rest) => Some(seq![((hex_val(s[2]) * 16 + hex_val(s[3])) as u8)] + rest),
                None => None,
            }
        } else {
            None
        }
    } else {
        if s[0] as u32 <= 0x7f {
            match byte_units(s.skip(1), quote) {
                Some(rest) => Some(seq![(s[0] as u8)] + rest),
                None => None,
            }
        } else {
            None
        }
    }
}


// ---------------------------------------------------------------------------
// Executable recognizers
// ---------------------------------------------------------------------------

pub fn dec_digit(c: char) -> (r: bool)
    ensures
        r == is_dec_digit(c),
{
    let u = c as u32;
    48 <= u && u <= 57
}

pub fn hex_digit(c: char) -> (r: bool)
    ensures
        r == is_hex_digit(c),
{
    let u = c as u32;
    (48 <= u && u <= 57) || (97 <= u && u <= 102) || (65 <= u && u <= 70)
}

pub fn digit_of(c: char, base: u32) -> (r: bool)
    ensures
        r == is_digit_of(c, base),
{
    let u = c as u32;
    if base == 16 {
        hex_digit(c)
    } else if base == 8 {
        48 <= u && u <= 55
    } else if base == 2 {
        48 <= u && u <= 49
    } else {
        48 <= u && u <= 57
    }
}

pub fn run_char(c: char, base: u32) -> (r: bool)
    ensures
        r == is_run_char(c, base),
{
    digit_of(c, base) || c == '_'
}

/// The numeric value of a hexadecimal digit, when there is one.
pub fn hex_digit_val(c: char) -> (r: Option<u32>)
    ensures
        r is Some <==> is_hex_digit(c),
        r matches Some(v) ==> v == hex_val(c),
{
    let u = c as u32;
    if 48 <= u && u <= 57 {
        Some(u - 48)
    } else if 97 <= u && u <= 102 {
        Some(u - 87)
    } else if 65 <= u && u <= 70 {
        Some(u - 55)
    } else {
        None
    }
}

/// Walks a digit run from `i` to its end.
pub fn run_end_exec(s: &str, base: u32, i: usize) -> (r: usize)
    requires
        i <= s@.len(),
    ensures
        r == run_end(s@, base, i as int),
        i <= r <= s@.len(),
{
    let n = s.unicode_len();
    let mut j: usize = i;
    while j < n
        invariant
            i <= j <= n,
            n == s@.len(),
            run_end(s@, base, i as int) == run_end(s@, base, j as int),
        decreases n - j,
    {
        let c = s.get_char(j);
        if !run_char(c, base) {
            return j;
        }
        j += 1;
    }
    j
}

/// Looks for an actual digit inside `[lo, hi)` of a digit run.
pub fn find_digit(s: &str, base: u32, lo: usize, hi: usize) -> (r: bool)
    requires
        lo <= hi <= s@.len(),
    ensures
        r == has_digit(s@, base, lo as int, hi as int),
{
    let mut k: usize = lo;
    while k < hi
        invariant
            lo <= k <= hi <= s@.len(),
            !has_digit(s@, base, lo as int, k as int),
        decreases hi - k,
    {
        let c = s.get_char(k);
        if digit_of(c, base) {
            assert(has_digit(s@, base, lo as int, hi as int)) by {
                assert(is_digit_of(s@[k as int], base));
            }
            return true;
        }
        k += 1;
    }
    false
}

/// Recognizes an integer width suffix starting at `from`.
pub fn check_int_suffix(s: &str, from: usize) -> (r: bool)
    requires
        from <= s@.len(),
    ensures
        r == is_int_suffix(s@.skip(from as int)),
{
    let ghost suf = s@.skip(from as int);
    let n = s.unicode_len();
    if from == n {
        return true;
    }
    let c0 = s.get_char(from);
    assert(suf[0] == s@[from as int]);
    if !(c0 == 'i' || c0 == 'u') {
        return false;
    }
    let ghost w = suf.skip(1);
    assert(forall|q: int| 0 <= q < w.len() ==> w[q] == s@[from as int + 1 + q]);
    proof {
        assert(seq!['8'].len() == 1 && seq!['8'][0] == '8');
        assert(seq!['1', '6'].len() == 2 && seq!['1', '6'][0] == '1' && seq!['1', '6'][1] == '6');
        assert(seq!['3', '2'].len() == 2 && seq!['3', '2'][0] == '3' && seq!['3', '2'][1] == '2');
        assert(seq!['6', '4'].len() == 2 && seq!['6', '4'][0] == '6' && seq!['6', '4'][1] == '4');
        assert(seq!['1', '2', '8'].len() == 3 && seq!['1', '2', '8'][0] == '1' && seq![
            '1',
            '2',
            '8',
        ][1] == '2' && seq!['1', '2', '8'][2] == '8');
        assert(seq!['s', 'i', 'z', 'e'].len() == 4 && seq!['s', 'i', 'z', 'e'][0] == 's' && seq![
            's',
            'i',
            'z',
            'e',
        ][1] == 'i' && seq!['s', 'i', 'z', 'e'][2] == 'z' && seq!['s', 'i', 'z', 'e'][3] == 'e');
    }
    let m = n - from;
    if m == 2 {
        let c1 = s.get_char(from + 1);
        if c1 == '8' {
            assert(w =~= seq!['8']);
            true
        } else {
            false
        }
    } else if m == 3 {
        let c1 = s.get_char(from + 1);
        let c2 = s.get_char(from + 2);
        if (c1 == '1' && c2 == '6') || (c1 == '3' && c2 == '2') || (c1 == '6' && c2 == '4') {
            assert(w =~= seq![c1, c2]);
            true
        } else {
            false
        }
    } else if m == 4 {
        let c1 = s.get_char(from + 1);
        let c2 = s.get_char(from + 2);
        let c3 = s.get_char(from + 3);
        if c1 == '1' && c2 == '2' && c3 == '8' {
            assert(w =~= seq!['1', '2', '8']);
            true
        } else {
            false
        }
    } else if m == 5 {
        let c1 = s.get_char(from + 1);
        let c2 = s.get_char(from + 2);
        let c3 = s.get_char(from + 3);
        let c4 = s.get_char(from + 4);
        if c1 == 's' && c2 == 'i' && c3 == 'z' && c4 == 'e' {
            assert(w =~= seq!['s', 'i', 'z', 'e']);
            true
        } else {
            false
        }
    } else {
        false
    }
}

/// Recognizes a float width suffix starting at `from`.
pub fn check_float_suffix(s: &str, from: usize) -> (r: bool)
    requires
        from <= s@.len(),
    ensures
        r == is_float_suffix(s@.skip(from as int)),
{
    let ghost suf = s@.skip(from as int);
    let n = s.unicode_len();
    if from == n {
        return true;
    }
    proof {
        assert(seq!['f', '3', '2'].len() == 3 && seq!['f', '3', '2'][0] == 'f' && seq![
            'f',
            '3',
            '2',
        ][1] == '3' && seq!['f', '3', '2'][2] == '2');
        assert(seq!['f', '6', '4'].len() == 3 && seq!['f', '6', '4'][0] == 'f' && seq![
            'f',
            '6',
            '4',
        ][1] == '6' && seq!['f', '6', '4'][2] == '4');
    }
    if n - from != 3 {
        return false;
    }
    let c0 = s.get_char(from);
    let c1 = s.get_char(from + 1);
    let c2 = s.get_char(from + 2);
    assert(forall|q: int| 0 <= q < suf.len() ==> suf[q] == s@[from as int + q]);
    if c0 == 'f' && ((c1 == '3' && c2 == '2') || (c1 == '6' && c2 == '4')) {
        assert(suf =~= seq![c0, c1, c2]);
        true
    } else {
        false
    }
}

/// Reads the base prefix of an integer token: the base it announces and
/// where its digit run starts.
pub fn int_prefix(s: &str) -> (r: (u32, usize))
    ensures
        r.0 == int_base(s@),
        r.1 as int == int_start(s@),
        r.1 <= s@.len(),
{
    let n = s.unicode_len();
    if n >= 2 {
        let c0 = s.get_char(0);
        if c0 == '0' {
            let c1 = s.get_char(1);
            if c1 == 'x' {
                return (16, 2);
            }
            if c1 == 'o' {
                return (8, 2);
            }
            if c1 == 'b' {
                return (2, 2);
            }
        }
    }
    (10, 0)
}

/// Decides whether a raw override value is a well-formed integer literal
/// token.
pub fn validate_int(s: &str) -> (r: bool)
    ensures
        r == is_int_token(s@),
{
    let n = s.unicode_len();
    if n == 0 {
        return false;
    }
    let (base, start) = int_prefix(s);
    if base == 10 && !dec_digit(s.get_char(0)) {
        return false;
    }
    let j = run_end_exec(s, base, start);
    if !find_digit(s, base, start, j) {
        return false;
    }
    check_int_suffix(s, j)
}

/// Recognizes the exponent-and-suffix tail of a float token from `i` on.
pub fn float_tail_exec(s: &str, i: usize, had_frac: bool) -> (r: bool)
    requires
        i <= s@.len(),
    ensures
        r == float_tail(s@, i as int, had_frac),
{
    let n = s.unicode_len();
    if i < n {
        let c = s.get_char(i);
        if c == 'e' || c == 'E' {
            let mut k: usize = i + 1;
            if i + 1 < n {
                let c1 = s.get_char(i + 1);
                if c1 == '+' || c1 == '-' {
                    k = i + 2;
                }
            }
            let j = run_end_exec(s, 10, k);
            if !find_digit(s, 10, k, j) {
                return false;
            }
            return check_float_suffix(s, j);
        }
    }
    if had_frac {
        check_float_suffix(s, i)
    } else if i < n {
        check_float_suffix(s, i)
    } else {
        false
    }
}

/// Decides whether a raw override value is a well-formed float literal
/// token.
pub fn validate_float(s: &str) -> (r: bool)
    ensures
        r == is_float_token(s@),
{
    let n = s.unicode_len();
    if n == 0 {
        return false;
    }
    if !dec_digit(s.get_char(0)) {
        return false;
    }
    let j1 = run_end_exec(s, 10, 0);
    if j1 == n {
        return false;
    }
    let c = s.get_char(j1);
    if c == '.' {
        let j2 = run_end_exec(s, 10, j1 + 1);
        if j2 == j1 + 1 {
            j1 + 1 == n
        } else {
            if !dec_digit(s.get_char(j1 + 1)) {
                return false;
            }
            float_tail_exec(s, j2, true)
        }
    } else {
        float_tail_exec(s, j1, false)
    }
}

/// Reads a raw override value as exactly `true` or `false`.
pub fn parse_bool(s: &str) -> (r: Option<bool>)
    ensures
        is_true_token(s@) ==> r == Some(true),
        is_false_token(s@) ==> r == Some(false),
        (r is None) <==> !is_true_token(s@) && !is_false_token(s@),
{
    let n = s.unicode_len();
    if n == 4 {
        let w0 = s.get_char(0);
        let w1 = s.get_char(1);
        let w2 = s.get_char(2);
        let w3 = s.get_char(3);
        if w0 == 't' && w1 == 'r' && w2 == 'u' && w3 == 'e' {
            assert(s@ =~= seq!['t', 'r', 'u', 'e']);
            return Some(true);
        }
    }
    if n == 5 {
        let w0 = s.get_char(0);
        let w1 = s.get_char(1);
        let w2 = s.get_char(2);
        let w3 = s.get_char(3);
        let w4 = s.get_char(4);
        if w0 == 'f' && w1 == 'a' && w2 == 'l' && w3 == 's' && w4 == 'e' {
            assert(s@ =~= seq!['f', 'a', 'l', 's', 'e']);
            return Some(false);
        }
    }
    None
}


/// Where a float token's suffix begins, executably.
pub fn float_suffix_start_exec(s: &str) -> (r: usize)
    ensures
        r as int == float_suffix_start(s@),
        r <= s@.len(),
{
    let n = s.unicode_len();
    let j1 = run_end_exec(s, 10, 0);
    let mut j2: usize = j1;
    if j1 < n {
        if s.get_char(j1) == '.' {
            j2 = run_end_exec(s, 10, j1 + 1);
        }
    }
    if j2 < n {
        let c = s.get_char(j2);
        if c == 'e' || c == 'E' {
            let mut k: usize = j2 + 1;
            if j2 + 1 < n {
                let c1 = s.get_char(j2 + 1);
                if c1 == '+' || c1 == '-' {
                    k = j2 + 2;
                }
            }
            return run_end_exec(s, 10, k);
        }
    }
    j2
}

/// Builds the integer token an override produces: the raw value, with the
/// original token's suffix carried over when the raw value has none.
pub fn int_with_suffix(orig: &str, raw: &str) -> (r: String)
    ensures
        r@ == int_token_result(orig@, raw@),
{
    let n = raw.unicode_len();
    let (base, start) = int_prefix(raw);
    let j = run_end_exec(raw, base, start);
    if j < n {
        proof {
            assert(int_suffix_of(raw@).len() > 0);
        }
        return raw.to_owned();
    }
    let on = orig.unicode_len();
    let (obase, ostart) = int_prefix(orig);
    let oj = run_end_exec(orig, obase, ostart);
    let osuf = orig.substring_char(oj, on);
    let mut out = raw.to_owned();
    out.append(osuf);
    proof {
        assert(int_suffix_of(raw@).len() == 0);
        assert(osuf@ =~= int_suffix_of(orig@));
    }
    out
}

/// Builds the float token an override produces, carrying the original
/// token's suffix over when the raw value has none.
pub fn float_with_suffix(orig: &str, raw: &str) -> (r: String)
    ensures
        r@ == float_token_result(orig@, raw@),
{
    let n = raw.unicode_len();
    let j = float_suffix_start_exec(raw);
    if j < n {
        proof {
            assert(float_suffix_of(raw@).len() > 0);
        }
        return raw.to_owned();
    }
    let on = orig.unicode_len();
    let oj = float_suffix_start_exec(orig);
    let osuf = orig.substring_char(oj, on);
    let mut out = raw.to_owned();
    out.append(osuf);
    proof {
        assert(float_suffix_of(raw@).len() == 0);
        assert(osuf@ =~= float_suffix_of(orig@));
    }
    out
}

/// The character a single-character escape denotes, if any.
pub fn esc_char(c: char) -> (r: Option<char>)
    ensures
        r == simple_escape(c),
{
    match c {
        'n' => Some('\n'),
        'r' => Some('\r'),
        't' => Some('\t'),
        '\\' => Some('\\'),
        '\'' => Some('\''),
        '"' => Some('"'),
        '0' => Some('\0'),
        _ => None,
    }
}

/// The byte a single-character escape denotes, if any.
pub fn esc_byte(c: char) -> (r: Option<u8>)
    ensures
        r == simple_escape_byte(c),
{
    match c {
        'n' => Some(0x0a),
        'r' => Some(0x0d),
        't' => Some(0x09),
        '\\' => Some(0x5c),
        '\'' => Some(0x27),
        '"' => Some(0x22),
        '0' => Some(0x00),
        _ => None,
    }
}

#[verifier::external_body]
fn push_char(s: &mut String, c: char)
    ensures
        final(s)@ == old(s)@.push(c),
{
    s.push(c)
}

/// Decodes a raw override value as the body of a quoted text literal,
/// resolving escapes.
pub fn parse_text(s: &str, quote: char) -> (r: Option<String>)
    ensures
        (r is Some) <==> (text_units(s@, quote) is Some),
        r matches Some(v) ==> Some(v@) == text_units(s@, quote),
{
    let n = s.unicode_len();
    let mut out = String::new();
    let mut i: usize = 0;
    proof {
        assert(s@.skip(0) =~= s@);
        if text_units(s@, quote) is Some {
            assert(out@ + text_units(s@, quote).unwrap() =~= text_units(s@, quote).unwrap());
        }
    }
    while i < n
        invariant
            0 <= i <= n,
            n == s@.len(),
            (match text_units(s@.skip(i as int), quote) {
                Some(rest) => text_units(s@, quote) == Some(out@ + rest),
                None => text_units(s@, quote) is None,
            }),
        decreases n - i,
    {
        let ghost tail = s@.skip(i as int);
        let c = s.get_char(i);
        assert(tail[0] == s@[i as int]);
        if c == quote {
            return None;
        }
        if c == '\\' {
            if i + 1 >= n {
                return None;
            }
            let c2 = s.get_char(i + 1);
            assert(tail[1] == s@[i as int + 1]);
            match esc_char(c2) {
                Some(u) => {
                    proof {
                        assert(tail.skip(2) =~= s@.skip(i as int + 2));
                        if text_units(s@.skip(i as int + 2), quote) is Some {
                            let r2 = text_units(s@.skip(i as int + 2), quote).unwrap();
                            assert(out@ + (seq![u] + r2) =~= out@.push(u) + r2);
                        }
                    }
                    push_char(&mut out, u);
                    i += 2;
                },
                None => {
                    if c2 != 'x' {
                        return None;
                    }
                    if n - i < 4 {
                        return None;
                    }
                    let h1 = s.get_char(i + 2);
                    let h2 = s.get_char(i + 3);
                    assert(tail[2] == s@[i as int + 2] && tail[3] == s@[i as int + 3]);
                    let v1 = match hex_digit_val(h1) {
                        Some(v) => v,
                        None => { return None; },
                    };
                    let v2 = match hex_digit_val(h2) {
                        Some(v) => v,
                        None => { return None; },
                    };
                    let v = v1 * 16 + v2;
                    if v > 0x7f {
                        return None;
                    }
                    let u = (v as u8) as char;
                    proof {
                        assert(tail.skip(4) =~= s@.skip(i as int + 4));
                        if text_units(s@.skip(i as int + 4), quote) is Some {
                            let r2 = text_units(s@.skip(i as int + 4), quote).unwrap();
                            assert(out@ + (seq![u] + r2) =~= out@.push(u) + r2);
                        }
                    }
                    push_char(&mut out, u);
                    i += 4;
                },
            }
        } else {
            proof {
                assert(tail.skip(1) =~= s@.skip(i as int + 1));
                if text_units(s@.skip(i as int + 1), quote) is Some {
                    let r2 = text_units(s@.skip(i as int + 1), quote).unwrap();
                    assert(out@ + (seq![c] + r2) =~= out@.push(c) + r2);
                }
            }
            push_char(&mut out, c);
            i += 1;
        }
    }
    proof {
        assert(s@.skip(n as int) =~= Seq::<char>::empty());
        assert(out@ + Seq::<char>::empty() =~= out@);
    }
    Some(out)
}

/// Decodes a raw override value as the body of a byte or byte-string
/// literal, resolving escapes.
pub fn parse_bytes(s: &str, quote: char) -> (r: Option<Vec<u8>>)
    ensures
        (r is Some) <==> (byte_units(s@, quote) is Some),
        r matches Some(v) ==> Some(v@) == byte_units(s@, quote),
{
    let n = s.unicode_len();
    let mut out: Vec<u8> = Vec::new();
    let mut i: usize = 0;
    proof {
        assert(s@.skip(0) =~= s@);
        if byte_units(s@, quote) is Some {
            assert(out@ + byte_units(s@, quote).unwrap() =~= byte_units(s@, quote).unwrap());
        }
    }
    while i < n
        invariant
            0 <= i <= n,
            n == s@.len(),
            (match byte_units(s@.skip(i as int), quote) {
                Some(rest) => byte_units(s@, quote) == Some(out@ + rest),
                None => byte_units(s@, quote) is None,
            }),
        decreases n - i,
    {
        let ghost tail = s@.skip(i as int);
        let c = s.get_char(i);
        assert(tail[0] == s@[i as int]);
        if c == quote {
            return None;
        }
        if c == '\\' {
            if i + 1 >= n {
                return None;
            }
            let c2 = s.get_char(i + 1);
            assert(tail[1] == s@[i as int + 1]);
            match esc_byte(c2) {
                Some(u) => {
                    proof {
                        assert(tail.skip(2) =~= s@.skip(i as int + 2));
                        if byte_units(s@.skip(i as int + 2), quote) is Some {
                            let r2 = byte_units(s@.skip(i as int + 2), quote).unwrap();
                            assert(out@ + (seq![u] + r2) =~= out@.push(u) + r2);
                        }
                    }
                    out.push(u);
                    i += 2;
                },
                None => {
                    if c2 != 'x' {
                        return None;
                    }
                    if n - i < 4 {
                        return None;
                    }
                    let h1 = s.get_char(i + 2);
                    let h2 = s.get_char(i + 3);
                    assert(tail[2] == s@[i as int + 2] && tail[3] == s@[i as int + 3]);
                    let v1 = match hex_digit_val(h1) {
                        Some(v) => v,
                        None => { return None; },
                    };
                    let v2 = match hex_digit_val(h2) {
                        Some(v) => v,
                        None => { return None; },
                    };
                    let u = (v1 * 16 + v2) as u8;
                    proof {
                        assert(tail.skip(4) =~= s@.skip(i as int + 4));
                        if byte_units(s@.skip(i as int + 4), quote) is Some {
                            let r2 = byte_units(s@.skip(i as int + 4), quote).unwrap();
                            assert(out@ + (seq![u] + r2) =~= out@.push(u) + r2);
                        }
                    }
                    out.push(u);
                    i += 4;
                },
            }
        } else {
            let uc = c as u32;
            if uc > 0x7f {
                return None;
            }
            let u = uc as u8;
            proof {
                assert(tail.skip(1) =~= s@.skip(i as int + 1));
                if byte_units(s@.skip(i as int + 1), quote) is Some {
                    let r2 = byte_units(s@.skip(i as int + 1), quote).unwrap();
                    assert(out@ + (seq![u] + r2) =~= out@.push(u) + r2);
                }
            }
            out.push(u);
            i += 1;
        }
    }
    proof {
        assert(s@.skip(n as int) =~= Seq::<char>::empty());
        assert(out@ + Seq::<u8>::empty() =~= out@);
    }
    Some(out)
}

} // verus!
