//! The text protocol of the hashing backend: a request is UTF-8 text whose
//! second line names the requester and whose fourth line is the body to hash;
//! the response is a status line, the requester's line, an empty line and the
//! decimal FNV-1a hash of the body.

use vstd::prelude::*;
use vstd::string::*;
use vstd::utf8::*;
use crate::hashing::{fnv1a, hash_incoming};

verus! {

broadcast use vstd::string::group_string_axioms;

/// Index of the first line feed in `s`, or `s.len()` when there is none.
pub open spec fn line_end(s: Seq<char>) -> int
    decreases s.len(),
{
    if s.len() == 0 {
        0
    } else if s[0] == '\n' {
        0
    } else {
        1 + line_end(s.drop_first())
    }
}

/// A line without the carriage return that ended it, if it had one.
pub open spec fn strip_cr(line: Seq<char>) -> Seq<char> {
    if line.len() > 0 && line.last() == '\r' {
        line.drop_last()
    } else {
        line
    }
}

/// The first line of `s`, as `str::lines` yields it: the text before the
/// first line feed without a carriage return just before that feed; a last
/// line that no line feed ends is yielded whole.
pub open spec fn first_line(s: Seq<char>) -> Seq<char> {
    if line_end(s) < s.len() {
        strip_cr(s.take(line_end(s)))
    } else {
        s
    }
}

/// What follows the first line of `s` and the line feed that ends it.
pub open spec fn after_first_line(s: Seq<char>) -> Seq<char> {
    if line_end(s) < s.len() {
        s.skip(line_end(s) + 1)
    } else {
        Seq::empty()
    }
}

/// The line at position `k` (counting from zero) of `s`.
pub open spec fn line_at(s: Seq<char>, k: nat) -> Seq<char>
    decreases k,
{
    if k == 0 {
        first_line(s)
    } else {
        line_at(after_first_line(s), (k - 1) as nat)
    }
}

/// `s` has at least `n` lines: `str::lines` yields a line as long as text
/// remains.
pub open spec fn has_lines(s: Seq<char>, n: nat) -> bool
    decreases n,
{
    n == 0 || (s.len() > 0 && has_lines(after_first_line(s), (n - 1) as nat))
}

/// A request the backend can answer: valid UTF-8 with at least four lines.
pub open spec fn is_complete_request(bytes: Seq<u8>) -> bool {
    valid_utf8(bytes) && has_lines(decode_utf8(bytes), 4)
}

/// The requester line of a request (its second line).
pub open spec fn request_host(bytes: Seq<u8>) -> Seq<char> {
    line_at(decode_utf8(bytes), 1)
}

/// The body line of a request (its fourth line).
pub open spec fn request_body(bytes: Seq<u8>) -> Seq<char> {
    line_at(decode_utf8(bytes), 3)
}

proof fn lemma_line_end_at(s: Seq<char>, i: int)
    requires
        0 <= i <= s.len(),
        forall|j: int| 0 <= j < i ==> s[j] != '\n',
        i == s.len() || s[i] == '\n',
    ensures
        line_end(s) == i,
    decreases i,
{
    if i > 0 {
        lemma_line_end_at(s.drop_first(), i - 1);
    }
}

proof fn lemma_line_end_bounds(s: Seq<char>)
    ensures
        0 <= line_end(s) <= s.len(),
        line_end(s) < s.len() ==> s[line_end(s)] == '\n',
        forall|j: int| 0 <= j < line_end(s) ==> s[j] != '\n',
    decreases s.len(),
{
    if s.len() > 0 && s[0] != '\n' {
        lemma_line_end_bounds(s.drop_first());
        assert forall|j: int| 0 <= j < line_end(s) implies s[j] != '\n' by {
            if j > 0 {
                assert(s[j] == s.drop_first()[j - 1]);
            }
        }
    }
}

/// Decodes `bytes` with `std::str::from_utf8`, which succeeds exactly when
/// the bytes are valid UTF-8 and then gives a `str` made of those bytes.
#[verifier::external_body]
fn str_from_utf8<'a>(bytes: &'a [u8]) -> (text: Option<&'a str>)
    ensures
        text is Some <==> valid_utf8(bytes@),
        text matches Some(t) ==> t.spec_bytes() == bytes@,
{
    std::str::from_utf8(bytes).ok()
}

/// Splits off the first line of a non-empty text, as one step of
/// `str::lines` does.
pub fn next_line<'a>(text: &'a str) -> (split: (&'a str, &'a str))
    requires
        text@.len() > 0,
    ensures
        split.0@ == first_line(text@),
        split.1@ == after_first_line(text@),
{
    let len = text.unicode_len();
    let mut chars = text.chars();
    let mut i: usize = 0;
    let mut found = false;
    while i < len
        invariant_except_break
            !found,
            vstd::std_specs::iter::IteratorSpec::remaining(&chars) == text@.skip(i as int),
        invariant
            len == text@.len(),
            i <= len,
            forall|j: int| 0 <= j < i ==> text@[j] != '\n',
        ensures
            i <= len,
            found ==> i < len && text@[i as int] == '\n',
            !found ==> i == len,
            forall|j: int| 0 <= j < i ==> text@[j] != '\n',
        decreases len - i,
    {
        let next = chars.next();
        assert(text@.skip(i as int)[0] == text@[i as int]);
        match next {
            Some(c) => {
                if c == '\n' {
                    found = true;
                    break;
                }
                assert(text@.skip(i as int).drop_first() =~= text@.skip(i + 1));
                i = i + 1;
            },
            None => {
                assert(false);
            },
        }
    }
    proof {
        lemma_line_end_at(text@, i as int);
    }
    if found {
        let mut stop = i;
        if i > 0 && text.get_char(i - 1) == '\r' {
            stop = i - 1;
        }
        let line = text.substring_char(0, stop);
        let rest = text.substring_char(i + 1, len);
        proof {
            assert(text@.take(i as int) =~= text@.subrange(0, i as int));
            if i > 0 && text@[i - 1] == '\r' {
                assert(text@.take(i as int).drop_last() =~= text@.subrange(0, stop as int));
            }
            assert(text@.skip(i + 1) =~= text@.subrange(i + 1, len as int));
        }
        (line, rest)
    } else {
        let rest = text.substring_char(len, len);
        proof {
            assert(rest@ =~= Seq::<char>::empty());
        }
        (text, rest)
    }
}

/// Splits a request into its requester line and its body line.
pub fn parse_request(buf: &[u8]) -> (parts: (&str, &str))
    requires
        is_complete_request(buf@),
    ensures
        parts.0@ == request_host(buf@),
        parts.1@ == request_body(buf@),
{
    let req = str_from_utf8(buf).unwrap();
    proof {
        encode_utf8_decode_utf8(req@);
        assert(decode_utf8(buf@) == req@);
        reveal_with_fuel(has_lines, 5);
        reveal_with_fuel(line_at, 4);
    }
    let (_request_line, rest) = next_line(req);
    let (host, rest) = next_line(rest);
    let (_blank, rest) = next_line(rest);
    let (body, _) = next_line(rest);
    (host, body)
}


/// Tells whether the backend can answer `buf`: valid UTF-8 with at least
/// four lines.
pub fn request_is_complete(buf: &[u8]) -> (complete: bool)
    ensures
        complete == is_complete_request(buf@),
{
    match str_from_utf8(buf) {
        None => false,
        Some(req) => {
            proof {
                encode_utf8_decode_utf8(req@);
                assert(decode_utf8(buf@) == req@);
            }
            let mut rest = req;
            let mut count: usize = 0;
            while count < 4
                invariant
                    count <= 4,
                    valid_utf8(buf@),
                    decode_utf8(buf@) == req@,
                    has_lines(req@, 4) == has_lines(rest@, (4 - count) as nat),
                decreases 4 - count,
            {
                if rest.is_empty() {
                    return false;
                }
                let (_line, tail) = next_line(rest);
                rest = tail;
                count = count + 1;
            }
            true
        },
    }
}

/// The decimal digit `d` (below ten) as a character.
pub open spec fn digit_char(d: nat) -> char {
    (d + 48) as char
}

/// The decimal notation of `n`, without leading zeros, as `u64`'s `Display`
/// writes it.
pub open spec fn decimal_digits(n: nat) -> Seq<char>
    decreases n,
{
    if n < 10 {
        seq![digit_char(n)]
    } else {
        decimal_digits(n / 10).push(digit_char(n % 10))
    }
}

/// The number that a string of decimal digits denotes.
pub open spec fn decimal_value(digits: Seq<char>) -> nat
    decreases digits.len(),
{
    if digits.len() == 0 {
        0
    } else {
        decimal_value(digits.drop_last()) * 10 + ((digits.last() as int - 48) as nat)
    }
}

fn digit_str(d: u64) -> (s: &'static str)
    requires
        d < 10,
    ensures
        s@ == seq![digit_char(d as nat)],
{
    proof {
        reveal_strlit("0");
        reveal_strlit("1");
        reveal_strlit("2");
        reveal_strlit("3");
        reveal_strlit("4");
        reveal_strlit("5");
        reveal_strlit("6");
        reveal_strlit("7");
        reveal_strlit("8");
        reveal_strlit("9");
    }
    let s = if d == 0 {
        "0"
    } else if d == 1 {
        "1"
    } else if d == 2 {
        "2"
    } else if d == 3 {
        "3"
    } else if d == 4 {
        "4"
    } else if d == 5 {
        "5"
    } else if d == 6 {
        "6"
    } else if d == 7 {
        "7"
    } else if d == 8 {
        "8"
    } else {
        "9"
    };
    assert(s@ =~= seq![digit_char(d as nat)]);
    s
}

/// Appends the decimal notation of `n` to `out`.
pub fn push_decimal(out: &mut String, n: u64)
    ensures
        final(out)@ == old(out)@ + decimal_digits(n as nat),
    decreases n,
{
    if n >= 10 {
        push_decimal(out, n / 10);
    }
    out.append(digit_str(n % 10));
    proof {
        if n >= 10 {
            assert(old(out)@ + decimal_digits(n as nat) =~= old(out)@ + decimal_digits((n / 10) as nat)
                + seq![digit_char((n % 10) as nat)]);
        } else {
            assert(decimal_digits(n as nat) =~= seq![digit_char((n % 10) as nat)]);
        }
    }
}

/// The response of the backend to the requester line `from` for a body whose
/// hash is `hash`.
pub open spec fn response_text(from: Seq<char>, hash: u64) -> Seq<char> {
    "HTTP/1.1 200 OK\r\n"@ + from + "\r\n\r\n"@ + decimal_digits(hash as nat)
}

/// Builds the response `HTTP/1.1 200 OK\r\n{from}\r\n\r\n{hash}`.
pub fn generate_response(from: &str, hash: u64) -> (response: String)
    ensures
        response@ == response_text(from@, hash),
{
    let mut response = String::from_str("HTTP/1.1 200 OK\r\n");
    response.append(from);
    response.append("\r\n\r\n");
    push_decimal(&mut response, hash);
    response
}

/// The response the backend writes for a complete request: its requester
/// line and the FNV-1a hash of the UTF-8 bytes of its body line.
pub open spec fn response_for(buf: Seq<u8>) -> Seq<char> {
    response_text(request_host(buf), fnv1a(encode_utf8(request_body(buf))))
}

/// Answers a complete request.
pub fn respond_to_request(buf: &[u8]) -> (response: String)
    requires
        is_complete_request(buf@),
    ensures
        response@ == response_for(buf@),
{
    let (from, body) = parse_request(buf);
    let hash = hash_incoming(body.as_bytes());
    generate_response(from, hash)
}


proof fn lemma_split_line(prefix: Seq<char>, rest: Seq<char>)
    requires
        !prefix.contains('\n'),
    ensures
        line_end(prefix + seq!['\n'] + rest) == prefix.len(),
        first_line(prefix + seq!['\n'] + rest) == strip_cr(prefix),
        after_first_line(prefix + seq!['\n'] + rest) == rest,
{
    let s = prefix + seq!['\n'] + rest;
    assert forall|j: int| 0 <= j < prefix.len() implies s[j] != '\n' by {
        assert(s[j] == prefix[j]);
        if prefix[j] == '\n' {
            assert(prefix.contains('\n'));
        }
    }
    lemma_line_end_at(s, prefix.len() as int);
    assert(s.take(prefix.len() as int) =~= prefix);
    assert(s.skip(prefix.len() + 1int) =~= rest);
}

proof fn lemma_last_line(s: Seq<char>)
    requires
        !s.contains('\n'),
    ensures
        line_end(s) == s.len(),
        first_line(s) == s,
        after_first_line(s) == Seq::<char>::empty(),
{
    assert forall|j: int| 0 <= j < s.len() implies s[j] != '\n' by {
        if s[j] == '\n' {
            assert(s.contains('\n'));
        }
    }
    lemma_line_end_at(s, s.len() as int);
}

/// Decimal notation uses only the digits `0` to `9`, and reading it back
/// gives the number it was written from.
pub proof fn lemma_decimal_round_trip(n: nat)
    ensures
        decimal_digits(n).len() > 0,
        forall|i: int| 0 <= i < decimal_digits(n).len() ==> '0' <= #[trigger] decimal_digits(n)[i] <= '9',
        decimal_value(decimal_digits(n)) == n,
    decreases n,
{
    let last = digit_char(n % 10);
    assert(last as int == n % 10 + 48);
    if n >= 10 {
        lemma_decimal_round_trip(n / 10);
        let d = decimal_digits(n);
        assert(d.drop_last() =~= decimal_digits(n / 10));
        assert(d.last() == last);
        assert(n == (n / 10) * 10 + n % 10);
        assert(decimal_value(d) == decimal_value(d.drop_last()) * 10 + ((d.last() as int - 48) as nat));
        assert(decimal_value(d.drop_last()) == n / 10);
        assert forall|i: int| 0 <= i < d.len() implies '0' <= #[trigger] d[i] <= '9' by {
            if i < d.len() - 1 {
                assert(d[i] == decimal_digits(n / 10)[i]);
            }
        }
    } else {
        let d = decimal_digits(n);
        assert(d.drop_last() =~= Seq::<char>::empty());
        assert(decimal_value(d) == decimal_value(d.drop_last()) * 10 + ((d.last() as int - 48) as nat));
        assert(decimal_value(d.drop_last()) == 0);
        assert(d.last() == last);
    }
}

/// No line that `str::lines` yields contains a line feed: the requester and
/// body lines of a request never do.
pub proof fn lemma_lines_have_no_line_feed(s: Seq<char>, k: nat)
    ensures
        !line_at(s, k).contains('\n'),
    decreases k,
{
    if k == 0 {
        lemma_line_end_bounds(s);
        let line = first_line(s);
        if line.contains('\n') {
            let j = choose|j: int| 0 <= j < line.len() && line[j] == '\n';
            if line_end(s) < s.len() {
                let t = s.take(line_end(s));
                assert(line[j] == t[j]);
                assert(s[j] == '\n');
            } else {
                assert(s[j] == '\n');
            }
        }
    } else {
        lemma_lines_have_no_line_feed(after_first_line(s), (k - 1) as nat);
    }
}

/// A response of the backend is itself a complete request in the backend's
/// format: its second line gives back the requester line and its fourth line
/// the decimal hash, whenever the requester line holds no line feed (which
/// no line taken from a request does).
pub proof fn lemma_response_parses_back(from: Seq<char>, hash: u64)
    requires
        !from.contains('\n'),
    ensures
        is_complete_request(encode_utf8(response_text(from, hash))),
        request_host(encode_utf8(response_text(from, hash))) == from,
        request_body(encode_utf8(response_text(from, hash))) == decimal_digits(hash as nat),
{
    let text = response_text(from, hash);
    let digits = decimal_digits(hash as nat);
    reveal_strlit("HTTP/1.1 200 OK\r\n");
    reveal_strlit("\r\n\r\n");
    let status: Seq<char> = seq!['H', 'T', 'T', 'P', '/', '1', '.', '1', ' ', '2', '0', '0', ' ', 'O', 'K'];
    assert("HTTP/1.1 200 OK\r\n"@ =~= status + seq!['\r'] + seq!['\n']);
    assert("\r\n\r\n"@ =~= seq!['\r'] + seq!['\n'] + seq!['\r'] + seq!['\n']);
    lemma_decimal_round_trip(hash as nat);
    assert(!digits.contains('\n')) by {
        if digits.contains('\n') {
            let j = choose|j: int| 0 <= j < digits.len() && digits[j] == '\n';
            assert('0' <= digits[j] <= '9');
        }
    }
    let status_cr = status + seq!['\r'];
    assert(!status_cr.contains('\n')) by {
        if status_cr.contains('\n') {
            let j = choose|j: int| 0 <= j < status_cr.len() && status_cr[j] == '\n';
        }
    }
    let r0 = from + "\r\n\r\n"@ + digits;
    assert(text =~= status_cr + seq!['\n'] + r0);
    lemma_split_line(status_cr, r0);
    assert(strip_cr(status_cr) =~= status);
    let from_cr = from + seq!['\r'];
    assert(!from_cr.contains('\n')) by {
        if from_cr.contains('\n') {
            let j = choose|j: int| 0 <= j < from_cr.len() && from_cr[j] == '\n';
            assert(j < from.len() ==> from[j] == from_cr[j]);
            if j < from.len() {
                assert(from.contains('\n'));
            }
        }
    }
    let r1 = seq!['\r'] + seq!['\n'] + digits;
    assert(r0 =~= from_cr + seq!['\n'] + r1);
    lemma_split_line(from_cr, r1);
    assert(strip_cr(from_cr) =~= from);
    let cr: Seq<char> = seq!['\r'];
    assert(!cr.contains('\n')) by {
        if cr.contains('\n') {
            let j = choose|j: int| 0 <= j < cr.len() && cr[j] == '\n';
        }
    }
    assert(r1 =~= cr + seq!['\n'] + digits);
    lemma_split_line(cr, digits);
    lemma_last_line(digits);
    encode_utf8_valid_utf8(text);
    encode_utf8_decode_utf8(text);
    assert(decode_utf8(encode_utf8(text)) == text);
    reveal_with_fuel(has_lines, 5);
    reveal_with_fuel(line_at, 4);
    assert(after_first_line(text) == r0);
    assert(after_first_line(r0) == r1);
    assert(after_first_line(r1) == digits);
    assert(has_lines(text, 4));
    assert(line_at(text, 1) == first_line(r0));
    assert(line_at(text, 3) == first_line(digits));
}


/// What the backend answers to a request can be read back in the request
/// format: a complete request whose requester line is the one of the
/// original request and whose body line is the decimal hash of its body.
pub proof fn lemma_response_to_request_parses_back(buf: Seq<u8>)
    requires
        is_complete_request(buf),
    ensures
        is_complete_request(encode_utf8(response_for(buf))),
        request_host(encode_utf8(response_for(buf))) == request_host(buf),
        request_body(encode_utf8(response_for(buf))) == decimal_digits(
            fnv1a(encode_utf8(request_body(buf))) as nat,
        ),
{
    lemma_lines_have_no_line_feed(decode_utf8(buf), 1);
    lemma_response_parses_back(request_host(buf), fnv1a(encode_utf8(request_body(buf))));
}


proof fn lemma_line_end_append(s: Seq<char>, t: Seq<char>)
    requires
        line_end(s) < s.len(),
    ensures
        line_end(s + t) == line_end(s),
        after_first_line(s + t) == after_first_line(s) + t,
        first_line(s + t) == first_line(s),
{
    lemma_line_end_bounds(s);
    let e = line_end(s);
    let st = s + t;
    assert forall|j: int| 0 <= j < e implies st[j] != '\n' by {
        assert(st[j] == s[j]);
    }
    assert(st[e] == s[e]);
    lemma_line_end_at(st, e);
    assert(st.skip(e + 1) =~= s.skip(e + 1) + t);
    assert(st.take(e) =~= s.take(e));
}

proof fn lemma_has_lines_append(s: Seq<char>, t: Seq<char>, n: nat)
    requires
        has_lines(s, n),
    ensures
        has_lines(s + t, n),
        forall|k: nat| k + 1 < n ==> #[trigger] line_at(s + t, k) == line_at(s, k),
    decreases n,
{
    if n >= 2 {
        assert(has_lines(after_first_line(s), (n - 1) as nat));
        assert(after_first_line(s).len() > 0);
        assert(line_end(s) < s.len());
        lemma_line_end_append(s, t);
        lemma_has_lines_append(after_first_line(s), t, (n - 1) as nat);
        assert forall|k: nat| k + 1 < n implies #[trigger] line_at(s + t, k) == line_at(s, k) by {
            if k > 0 {
                assert(line_at(s + t, k) == line_at(after_first_line(s) + t, (k - 1) as nat));
                assert(line_at(after_first_line(s) + t, (k - 1) as nat) == line_at(
                    after_first_line(s),
                    (k - 1) as nat,
                ));
            }
        }
    } else if n == 1 {
        assert((s + t).len() > 0);
        assert(has_lines(after_first_line(s + t), 0));
    }
}

/// Text after the fourth line never makes a request incomplete: appending
/// anything to a complete request gives a complete request with the same
/// requester line.
pub proof fn lemma_complete_request_grows(text: Seq<char>, more: Seq<char>)
    requires
        is_complete_request(encode_utf8(text)),
    ensures
        is_complete_request(encode_utf8(text + more)),
        request_host(encode_utf8(text + more)) == request_host(encode_utf8(text)),
{
    encode_utf8_decode_utf8(text);
    encode_utf8_decode_utf8(text + more);
    encode_utf8_valid_utf8(text + more);
    lemma_has_lines_append(text, more, 4);
    assert(line_at(text + more, 1) == line_at(text, 1));
}

/// Four lines, each ended by a line feed, form a complete request whatever
/// follows them; its requester line is the second and its body the fourth,
/// each without a carriage return that ends it.
pub proof fn lemma_four_lines_make_a_request(
    l0: Seq<char>,
    l1: Seq<char>,
    l2: Seq<char>,
    l3: Seq<char>,
    rest: Seq<char>,
)
    requires
        !l0.contains('\n'),
        !l1.contains('\n'),
        !l2.contains('\n'),
        !l3.contains('\n'),
    ensures
        ({
            let text = l0 + seq!['\n'] + l1 + seq!['\n'] + l2 + seq!['\n'] + l3 + seq!['\n'] + rest;
            &&& is_complete_request(encode_utf8(text))
            &&& request_host(encode_utf8(text)) == strip_cr(l1)
            &&& request_body(encode_utf8(text)) == strip_cr(l3)
        }),
{
    let r3 = l3 + seq!['\n'] + rest;
    let r2 = l2 + seq!['\n'] + r3;
    let r1 = l1 + seq!['\n'] + r2;
    let text = l0 + seq!['\n'] + l1 + seq!['\n'] + l2 + seq!['\n'] + l3 + seq!['\n'] + rest;
    assert(text =~= l0 + seq!['\n'] + r1);
    lemma_split_line(l0, r1);
    lemma_split_line(l1, r2);
    lemma_split_line(l2, r3);
    lemma_split_line(l3, rest);
    assert(r1.len() > 0 && r2.len() > 0 && r3.len() > 0);
    encode_utf8_valid_utf8(text);
    encode_utf8_decode_utf8(text);
    reveal_with_fuel(has_lines, 5);
    reveal_with_fuel(line_at, 4);
    assert(has_lines(text, 4));
    assert(line_at(text, 1) == first_line(r1));
    assert(line_at(text, 3) == first_line(r3));
}

} // verus!
