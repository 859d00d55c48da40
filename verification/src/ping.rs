//! The ping target: what the user typed, reduced to the host to ping.
//!
//! Input is trimmed; text with `://` is read as a URL and its host taken;
//! text shaped like a dotted quad must be a valid IPv4 address; anything else
//! is taken as a host name as it stands.
use vstd::prelude::*;

use crate::text::{
    all_digits, chars_of, decimal, digit_char, digit_value, digits_value, is_digit, is_white, is_white_exec, lemma_decimal,
    lemma_decimal_len, pow10, string_of,
};

verus! {

/// The pattern of text shaped like a dotted quad: four runs of one to three
/// (Unicode) digits separated by dots.
pub const IP_PATTERN: &'static str = r"^\d{1,3}[.]\d{1,3}[.]\d{1,3}[.]\d{1,3}$";

/// Why a ping target was refused.
#[derive(Debug, PartialEq, Eq, Structural)]
pub enum BotPingError {
    /// The text contains `://` but is not a URL.
    BadUrl,
    /// The text is shaped like an IPv4 address but is not one.
    NotAHost,
}

impl BotPingError {
    /// The error's message.
    pub fn message(&self) -> (s: String)
        ensures
            s@ == match self {
                BotPingError::BadUrl => "Malformed URL"@,
                BotPingError::NotAHost => "Not a valid host"@,
            },
    {
        match self {
            BotPingError::BadUrl => String::from_str("Malformed URL"),
            BotPingError::NotAHost => String::from_str("Not a valid host"),
        }
    }
}

/// Whether a regular expression (Rust `regex` syntax) matches somewhere in a
/// text: `None` when the pattern does not compile.
pub uninterp spec fn regex_match(pattern: Seq<char>, text: Seq<char>) -> Option<bool>;

/// The host of a URL as the WHATWG URL parser reads it: `None` when the text
/// is not a URL, `Some(None)` when the URL has no host.
pub uninterp spec fn url_host(text: Seq<char>) -> Option<Option<Seq<char>>>;

/// Compiles the pattern with `lazy_regex::Regex::new` (the `regex` crate)
/// and calls `is_match`. Claimed: the result is a function of the pattern
/// and the text.
#[verifier::external_body]
fn regex_is_match(pattern: &str, text: &str) -> (r: Option<bool>)
    ensures
        r == regex_match(pattern@, text@),
{
    match lazy_regex::Regex::new(pattern) {
        Ok(re) => Some(re.is_match(text)),
        Err(_) => None,
    }
}

/// Calls `url::Url::parse` and then `host_str`. Claimed: the result is a
/// function of the text.
#[verifier::external_body]
fn parse_url_host(text: &str) -> (r: Option<Option<String>>)
    ensures
        match r {
            None => url_host(text@) is None,
            Some(None) => url_host(text@) == Some(None::<Seq<char>>),
            Some(Some(h)) => url_host(text@) == Some(Some(h@)),
        },
{
    match url::Url::parse(text) {
        Ok(u) => match u.host_str() {
            Some(h) => Some(Some(h.to_string())),
            None => Some(None),
        },
        Err(_) => None,
    }
}

/// The text without leading and trailing white space (`str::trim`).
pub open spec fn trimmed(s: Seq<char>) -> Seq<char>
    decreases s.len(),
{
    if s.len() == 0 {
        s
    } else if is_white(s[0]) {
        trimmed(s.skip(1))
    } else if is_white(s.last()) {
        trimmed(s.drop_last())
    } else {
        s
    }
}

/// Whether `p` occurs in `s`.
pub open spec fn has_infix(s: Seq<char>, p: Seq<char>) -> bool {
    exists|i: int| 0 <= i && i + p.len() <= s.len() && #[trigger] s.subrange(i, i + p.len()) == p
}

/// One octet of a dotted quad: one to three ASCII digits, no leading zero,
/// at most 255.
pub open spec fn is_octet(s: Seq<char>) -> bool {
    &&& 1 <= s.len() <= 3
    &&& all_digits(s)
    &&& (s.len() == 1 || s[0] != '0')
    &&& digits_value(s) <= 255
}

/// Whether `s` is `n` octets separated by dots.
pub open spec fn is_dotted(s: Seq<char>, n: nat) -> bool
    decreases n,
{
    if n <= 1 {
        is_octet(s)
    } else {
        exists|i: int| 0 <= i < s.len() && s[i] == '.' && is_octet(#[trigger] s.take(i)) && is_dotted(s.skip(i + 1), (n - 1) as nat)
    }
}

/// An IPv4 address as `std::net::Ipv4Addr` parses it: four octets.
pub open spec fn is_ipv4_text(s: Seq<char>) -> bool {
    is_dotted(s, 4)
}

/// The host to ping for what the user typed.
pub open spec fn normalized_host(input: Seq<char>) -> Result<Seq<char>, BotPingError> {
    let host = trimmed(input);
    if has_infix(host, seq![':', '/', '/']) {
        match url_host(host) {
            None => Err(BotPingError::BadUrl),
            Some(Some(h)) => Ok(h),
            Some(None) => Ok("No target host found"@),
        }
    } else if regex_match(IP_PATTERN@, host) == Some(true) {
        if is_ipv4_text(host) { Ok(host) } else { Err(BotPingError::NotAHost) }
    } else {
        Ok(host)
    }
}

/// A string result seen through the view of its text.
pub open spec fn text_result(r: Result<String, BotPingError>) -> Result<Seq<char>, BotPingError> {
    match r {
        Ok(s) => Ok(s@),
        Err(e) => Err(e),
    }
}

/// `str::trim` on characters.
pub fn trim_chars(s: &[char]) -> (r: Vec<char>)
    ensures
        r@ == trimmed(s@),
    decreases s@.len(),
{
    if s.len() == 0 {
        return Vec::new();
    }
    if is_white_exec(s[0]) {
        let (_, rest) = s.split_at(1);
        assert(rest@ == s@.skip(1));
        return trim_chars(rest);
    }
    if is_white_exec(s[s.len() - 1]) {
        let (rest, _) = s.split_at(s.len() - 1);
        assert(rest@ == s@.drop_last());
        return trim_chars(rest);
    }
    let mut v: Vec<char> = Vec::new();
    let mut i: usize = 0;
    while i < s.len()
        invariant
            i <= s@.len(),
            v@ == s@.take(i as int),
        decreases s@.len() - i,
    {
        v.push(s[i]);
        i = i + 1;
        assert(v@ == s@.take(i as int));
    }
    assert(s@.take(s@.len() as int) == s@);
    v
}

/// Whether `p` occurs in `s` at position `i`.
fn matches_at(s: &[char], p: &[char], i: usize) -> (b: bool)
    requires
        i + p@.len() <= s@.len(),
    ensures
        b == (s@.subrange(i as int, i + p@.len()) == p@),
{
    let n = s.len();
    let mut j: usize = 0;
    while j < p.len()
        invariant
            n == s@.len(),
            i + p@.len() <= s@.len(),
            j <= p@.len(),
            s@.subrange(i as int, i + j) =~= p@.take(j as int),
        decreases p@.len() - j,
    {
        if s[i + j] != p[j] {
            assert(s@.subrange(i as int, i + p@.len())[j as int] == s@[i + j]);
            return false;
        }
        assert(s@.subrange(i as int, i + j + 1) =~= s@.subrange(i as int, i + j).push(s@[i + j]));
        assert(p@.take(j + 1) =~= p@.take(j as int).push(p@[j as int]));
        j = j + 1;
    }
    assert(p@.take(p@.len() as int) =~= p@);
    true
}

/// Whether `p` occurs in `s`.
fn contains_chars(s: &[char], p: &[char]) -> (b: bool)
    ensures
        b == has_infix(s@, p@),
{
    if p.len() > s.len() {
        return false;
    }
    if p.len() == 0 {
        assert(s@.subrange(0, 0 + p@.len() as int) =~= p@);
        return true;
    }
    let mut i: usize = 0;
    let n = s.len();
    let last = n - p.len();
    while i < n - p.len() + 1
        invariant
            n == s@.len(),
            1 <= p@.len() <= s@.len(),
            last == s@.len() - p@.len(),
            i <= last + 1,
            forall|k: int| 0 <= k < i ==> #[trigger] s@.subrange(k, k + p@.len()) != p@,
        decreases last + 1 - i,
    {
        if matches_at(s, p, i) {
            return true;
        }
        i = i + 1;
    }
    assert forall|k: int| 0 <= k && k + p@.len() <= s@.len() implies #[trigger] s@.subrange(k, k + p@.len()) != p@ by {
        assert(k < i);
    }
    false
}

/// Whether the characters form one octet.
fn octet_ok(s: &[char]) -> (b: bool)
    ensures
        b == is_octet(s@),
{
    if s.len() < 1 || s.len() > 3 {
        return false;
    }
    if s.len() > 1 && s[0] == '0' {
        return false;
    }
    let mut value: u32 = 0;
    let mut i: usize = 0;
    while i < s.len()
        invariant
            1 <= s@.len() <= 3,
            i <= s@.len(),
            all_digits(s@.take(i as int)),
            value == digits_value(s@.take(i as int)),
            value < 1000,
        decreases s@.len() - i,
    {
        let c = s[i];
        if !('0' <= c && c <= '9') {
            assert(!is_digit(s@[i as int]));
            return false;
        }
        proof {
            crate::text::lemma_digits_value_push(s@.take(i as int), c);
            assert(s@.take(i + 1) =~= s@.take(i as int).push(c));
            assert(digits_value(s@.take(i as int)) < 100) by {
                if i >= 1 {
                    crate::text::lemma_digits_value_prefix(s@.take(i as int), i as int);
                }
                lemma_short_digits(s@.take(i as int));
            }
        }
        value = value * 10 + (c as u32 - '0' as u32);
        assert(all_digits(s@.take(i + 1))) by {
            assert forall|k: int| 0 <= k < i + 1 implies #[trigger] is_digit(s@.take(i + 1)[k]) by {
                if k < i {
                    assert(is_digit(s@.take(i as int)[k]));
                }
            }
        }
        i = i + 1;
    }
    assert(s@.take(s@.len() as int) =~= s@);
    value <= 255
}

/// Digit strings of at most two digits are below 100.
proof fn lemma_short_digits(s: Seq<char>)
    requires
        s.len() <= 2,
        all_digits(s),
    ensures
        0 <= digits_value(s) < 100,
        s.len() <= 1 ==> digits_value(s) < 10,
    decreases s.len(),
{
    if s.len() > 0 {
        assert(all_digits(s.drop_last())) by {
            assert forall|k: int| 0 <= k < s.drop_last().len() implies #[trigger] is_digit(s.drop_last()[k]) by {
                assert(is_digit(s[k]));
            }
        }
        assert(is_digit(s[s.len() - 1]));
        lemma_short_digits(s.drop_last());
        if s.len() == 2 {
            assert(s.drop_last().len() == 1);
            assert(s.drop_last().drop_last().len() == 0);
        }
    }
}

/// Whether the characters are `n` octets separated by dots.
fn dotted_ok(s: &[char], n: usize) -> (b: bool)
    requires
        n >= 1,
    ensures
        b == is_dotted(s@, n as nat),
    decreases n,
{
    if n <= 1 {
        return octet_ok(s);
    }
    let mut i: usize = 0;
    while i < s.len() && s[i] != '.'
        invariant
            i <= s@.len(),
            forall|k: int| 0 <= k < i ==> s@[k] != '.',
        decreases s@.len() - i,
    {
        i = i + 1;
    }
    if i == s.len() {
        assert(!is_dotted(s@, n as nat)) by {
            if exists|k: int| 0 <= k < s@.len() && s@[k] == '.' && is_octet(#[trigger] s@.take(k)) && is_dotted(s@.skip(k + 1), (n - 1) as nat) {
                let k = choose|k: int| 0 <= k < s@.len() && s@[k] == '.' && is_octet(#[trigger] s@.take(k)) && is_dotted(s@.skip(k + 1), (n - 1) as nat);
                assert(s@[k] != '.');
            }
        }
        return false;
    }
    let (head, tail) = s.split_at(i);
    let (_, rest) = tail.split_at(1);
    assert(head@ == s@.take(i as int));
    assert(rest@ =~= s@.skip(i + 1));
    let b = octet_ok(head) && dotted_ok(rest, n - 1);
    proof {
        if b {
            assert(s@[i as int] == '.' && is_octet(s@.take(i as int)) && is_dotted(s@.skip(i + 1), (n - 1) as nat));
        } else {
            if exists|k: int| 0 <= k < s@.len() && s@[k] == '.' && is_octet(#[trigger] s@.take(k)) && is_dotted(s@.skip(k + 1), (n - 1) as nat) {
                let k = choose|k: int| 0 <= k < s@.len() && s@[k] == '.' && is_octet(#[trigger] s@.take(k)) && is_dotted(s@.skip(k + 1), (n - 1) as nat);
                if k > i {
                    assert(s@.take(k)[i as int] == '.');
                    assert(!is_digit(s@.take(k)[i as int]));
                } else if k < i {
                    assert(s@[k] != '.');
                }
            }
        }
    }
    b
}

/// Whether the text is an IPv4 address in dotted-quad form.
pub fn is_ipv4(s: &[char]) -> (b: bool)
    ensures
        b == is_ipv4_text(s@),
{
    dotted_ok(s, 4)
}

/// The host of a URL; a URL without host gives a placeholder text.
pub fn extract_host_from_url(user_input: &str) -> (r: Result<String, BotPingError>)
    ensures
        text_result(r) == match url_host(user_input@) {
            None => Err(BotPingError::BadUrl),
            Some(Some(h)) => Ok(h),
            Some(None) => Ok("No target host found"@),
        },
{
    match parse_url_host(user_input) {
        None => Err(BotPingError::BadUrl),
        Some(Some(h)) => Ok(h),
        Some(None) => Ok(String::from_str("No target host found")),
    }
}

/// The text itself when it is an IPv4 address.
pub fn extract_host_from_ip(user_input: &str) -> (r: Result<String, BotPingError>)
    ensures
        text_result(r) == if is_ipv4_text(user_input@) {
            Ok::<Seq<char>, BotPingError>(user_input@)
        } else {
            Err(BotPingError::NotAHost)
        },
{
    let cs = chars_of(user_input);
    if is_ipv4(cs.as_slice()) {
        Ok(String::from_str(user_input))
    } else {
        Err(BotPingError::NotAHost)
    }
}

/// Reduce what the user typed to the host to ping.
pub fn normalize_host(user_input: &str) -> (r: Result<String, BotPingError>)
    ensures
        text_result(r) == normalized_host(user_input@),
{
    let cs = chars_of(user_input);
    let trimmed_chars = trim_chars(cs.as_slice());
    let host = string_of(trimmed_chars.as_slice());
    let sep: [char; 3] = [':', '/', '/'];
    assert(sep@ == seq![':', '/', '/']);
    if contains_chars(trimmed_chars.as_slice(), &sep) {
        extract_host_from_url(host.as_str())
    } else if regex_is_match(IP_PATTERN, host.as_str()) == Some(true) {
        extract_host_from_ip(host.as_str())
    } else {
        Ok(host)
    }
}


// ---------------------------------------------------------------------------
// Dotted quads
// ---------------------------------------------------------------------------

/// Two texts joined by a dot.
pub open spec fn dot_joined(x: Seq<char>, y: Seq<char>) -> Seq<char> {
    x + seq!['.'] + y
}

/// The dotted quad `a.b.c.d`, each number written in decimal.
pub open spec fn dotted_quad(a: nat, b: nat, c: nat, d: nat) -> Seq<char> {
    dot_joined(decimal(a), dot_joined(decimal(b), dot_joined(decimal(c), decimal(d))))
}

/// The decimal notation of a number: one digit below 10, at most three
/// below 1000, and no leading zero.
proof fn lemma_decimal_shape(n: nat)
    ensures
        decimal(n).len() >= 1,
        all_digits(decimal(n)),
        digits_value(decimal(n)) == n,
        n < 10 ==> decimal(n).len() == 1,
        n >= 10 ==> decimal(n)[0] != '0' && decimal(n).len() >= 2,
        n < 1000 ==> decimal(n).len() <= 3,
    decreases n,
{
    lemma_decimal(n);
    if n < 1000 {
        reveal_with_fuel(pow10, 4);
        lemma_decimal_len(n, 3, 1000);
    }
    if n >= 10 {
        lemma_decimal_shape(n / 10);
        lemma_decimal(n / 10);
        assert(decimal(n)[0] == decimal(n / 10)[0]);
        if n / 10 < 10 {
            assert(digit_value(digit_char((n / 10) as int)) == n / 10);
        }
    }
}

/// A number up to 255 in decimal is an octet.
proof fn lemma_decimal_octet(n: nat)
    requires
        n <= 255,
    ensures
        is_octet(decimal(n)),
{
    lemma_decimal_shape(n);
}

/// An octet, a dot and `n - 1` dotted octets make `n` dotted octets.
proof fn lemma_dotted_cons(x: Seq<char>, rest: Seq<char>, n: nat)
    requires
        n >= 2,
        is_octet(x),
        is_dotted(rest, (n - 1) as nat),
    ensures
        is_dotted(dot_joined(x, rest), n),
{
    let s = dot_joined(x, rest);
    let i = x.len() as int;
    assert(s.take(i) =~= x);
    assert(s.skip(i + 1) =~= rest);
    assert(s[i] == '.');
    assert(is_octet(s.take(i)));
}

/// Digits and dots make no white space, colon or slash.
proof fn lemma_joined_chars(x: Seq<char>, y: Seq<char>)
    requires
        forall|k: int| 0 <= k < x.len() ==> is_digit(#[trigger] x[k]) || x[k] == '.',
        forall|k: int| 0 <= k < y.len() ==> is_digit(#[trigger] y[k]) || y[k] == '.',
    ensures
        forall|k: int| 0 <= k < dot_joined(x, y).len() ==> is_digit(#[trigger] dot_joined(x, y)[k]) || dot_joined(
            x,
            y,
        )[k] == '.',
{
    let s = dot_joined(x, y);
    assert forall|k: int| 0 <= k < s.len() implies is_digit(#[trigger] s[k]) || s[k] == '.' by {
        if k < x.len() {
            assert(s[k] == x[k]);
        } else if k > x.len() {
            assert(s[k] == y[k - x.len() - 1]);
        }
    }
}

/// Every character of a dotted quad is a digit or a dot; it starts and ends
/// with a digit.
proof fn lemma_quad_chars(a: nat, b: nat, c: nat, d: nat)
    ensures
        forall|k: int| 0 <= k < dotted_quad(a, b, c, d).len() ==> is_digit(#[trigger] dotted_quad(a, b, c, d)[k])
            || dotted_quad(a, b, c, d)[k] == '.',
        dotted_quad(a, b, c, d).len() > 0,
        is_digit(dotted_quad(a, b, c, d)[0]),
        is_digit(dotted_quad(a, b, c, d).last()),
{
    lemma_decimal_shape(a);
    lemma_decimal_shape(b);
    lemma_decimal_shape(c);
    lemma_decimal_shape(d);
    assert forall|k: int| 0 <= k < decimal(a).len() implies is_digit(#[trigger] decimal(a)[k]) || decimal(a)[k] == '.' by {}
    assert forall|k: int| 0 <= k < decimal(b).len() implies is_digit(#[trigger] decimal(b)[k]) || decimal(b)[k] == '.' by {}
    assert forall|k: int| 0 <= k < decimal(c).len() implies is_digit(#[trigger] decimal(c)[k]) || decimal(c)[k] == '.' by {}
    assert forall|k: int| 0 <= k < decimal(d).len() implies is_digit(#[trigger] decimal(d)[k]) || decimal(d)[k] == '.' by {}
    lemma_joined_chars(decimal(c), decimal(d));
    lemma_joined_chars(decimal(b), dot_joined(decimal(c), decimal(d)));
    lemma_joined_chars(decimal(a), dot_joined(decimal(b), dot_joined(decimal(c), decimal(d))));
    let q = dotted_quad(a, b, c, d);
    assert(q[0] == decimal(a)[0]);
    assert(q.last() == decimal(d).last());
}

/// Every dotted quad of numbers from 0 to 255, written without leading
/// zeros, is an IPv4 address, and as a ping target it stands for itself.
pub proof fn law_dotted_quads_are_hosts(a: nat, b: nat, c: nat, d: nat)
    requires
        a <= 255,
        b <= 255,
        c <= 255,
        d <= 255,
    ensures
        is_ipv4_text(dotted_quad(a, b, c, d)),
        normalized_host(dotted_quad(a, b, c, d)) == Ok::<Seq<char>, BotPingError>(dotted_quad(a, b, c, d)),
{
    lemma_decimal_octet(a);
    lemma_decimal_octet(b);
    lemma_decimal_octet(c);
    lemma_decimal_octet(d);
    lemma_dotted_cons(decimal(c), decimal(d), 2);
    lemma_dotted_cons(decimal(b), dot_joined(decimal(c), decimal(d)), 3);
    lemma_dotted_cons(decimal(a), dot_joined(decimal(b), dot_joined(decimal(c), decimal(d))), 4);
    let q = dotted_quad(a, b, c, d);
    lemma_quad_chars(a, b, c, d);
    assert(trimmed(q) == q);
    assert(!has_infix(q, seq![':', '/', '/'])) by {
        if has_infix(q, seq![':', '/', '/']) {
            let i = choose|i: int| 0 <= i && i + 3 <= q.len() && #[trigger] q.subrange(i, i + 3) == seq![':', '/', '/'];
            assert(q.subrange(i, i + 3)[0] == q[i]);
            assert(is_digit(q[i]) || q[i] == '.');
        }
    }
}

/// A dotted quad whose first number is above 255 is not an IPv4 address;
/// when it has the dotted-quad shape, it is refused as a ping target.
pub proof fn law_octet_over_255_refused(n: nat, b: nat, c: nat, d: nat)
    requires
        256 <= n <= 999,
    ensures
        !is_ipv4_text(dotted_quad(n, b, c, d)),
        regex_match(IP_PATTERN@, dotted_quad(n, b, c, d)) == Some(true) ==> normalized_host(dotted_quad(n, b, c, d))
            == Err::<Seq<char>, BotPingError>(BotPingError::NotAHost),
{
    let q = dotted_quad(n, b, c, d);
    let dn = decimal(n);
    let l = dn.len() as int;
    lemma_decimal_shape(n);
    lemma_quad_chars(n, b, c, d);
    if is_ipv4_text(q) {
        let i = choose|i: int| 0 <= i < q.len() && q[i] == '.' && is_octet(#[trigger] q.take(i)) && is_dotted(q.skip(i + 1), 3);
        if i < l {
            assert(q[i] == dn[i]);
            assert(is_digit(dn[i]));
        } else if i > l {
            assert(q.take(i)[l] == q[l]);
            assert(q[l] == '.');
            assert(is_digit(q.take(i)[l]));
        } else {
            assert(q.take(i) =~= dn);
        }
    }
    assert(trimmed(q) == q);
    assert(!has_infix(q, seq![':', '/', '/'])) by {
        if has_infix(q, seq![':', '/', '/']) {
            let i = choose|i: int| 0 <= i && i + 3 <= q.len() && #[trigger] q.subrange(i, i + 3) == seq![':', '/', '/'];
            assert(q.subrange(i, i + 3)[0] == q[i]);
            assert(is_digit(q[i]) || q[i] == '.');
        }
    }
}

} // verus!
