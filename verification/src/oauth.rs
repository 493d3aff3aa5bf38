//! Google OAuth helpers: the consent URL, percent-encoding, and reading the
//! authorization code out of the browser's redirect request.

use vstd::prelude::*;
use vstd::utf8::*;
use crate::text::{
    chars_eq, chars_of, find_char, index_of_char, is_ws, lemma_lead_count, other_than, push_str,
    slice_chars, split_chars, split_from, split_on, split_words, string_of, views, words,
    words_from,
};

verus! {

broadcast use vstd::string::group_string_axioms;

/// Bytes that `percent_encode` leaves as they are.
pub open spec fn unreserved(b: u8) -> bool {
    ||| 65 <= b <= 90
    ||| 97 <= b <= 122
    ||| 48 <= b <= 57
    ||| b == 45
    ||| b == 95
    ||| b == 46
    ||| b == 126
}

/// Upper-case hexadecimal digit for `n < 16`.
pub open spec fn hex_digit(n: int) -> char {
    if n < 10 {
        (48 + n) as char
    } else {
        (55 + n) as char
    }
}

/// Encoding of one byte: itself, or `%` and two upper-case hex digits.
pub open spec fn enc_byte(b: u8) -> Seq<char> {
    if unreserved(b) {
        seq![b as char]
    } else {
        seq!['%', hex_digit((b / 16) as int), hex_digit((b % 16) as int)]
    }
}

/// Percent-encoding of a byte sequence.
pub open spec fn pct_encode(bs: Seq<u8>) -> Seq<char>
    decreases bs.len(),
{
    if bs.len() == 0 {
        seq![]
    } else {
        enc_byte(bs[0]) + pct_encode(bs.drop_first())
    }
}

/// Percent-encoding of the UTF-8 bytes of `s`.
pub open spec fn enc_str(s: Seq<char>) -> Seq<char> {
    pct_encode(encode_utf8(s))
}

/// Value of a hexadecimal digit byte, either case.
pub open spec fn hex_value(b: u8) -> Option<u8> {
    if 48 <= b <= 57 {
        Some((b - 48) as u8)
    } else if 97 <= b <= 102 {
        Some((b - 87) as u8)
    } else if 65 <= b <= 70 {
        Some((b - 55) as u8)
    } else {
        None
    }
}

/// Percent-decoding of a byte sequence; every byte that is not part of a
/// valid `%XX` escape stands for the character with the same code.
pub open spec fn pct_decode(bs: Seq<u8>) -> Seq<char>
    decreases bs.len(),
{
    if bs.len() == 0 {
        seq![]
    } else if bs[0] == 37 && 2 < bs.len() && hex_value(bs[1]) is Some && hex_value(
        bs[2],
    ) is Some {
        seq![(hex_value(bs[1])->0 * 16 + hex_value(bs[2])->0) as char] + pct_decode(bs.skip(3))
    } else {
        seq![bs[0] as char] + pct_decode(bs.skip(1))
    }
}

/// Value of an ASCII hexadecimal digit.
pub fn hex_val(b: u8) -> (r: Option<u8>)
    ensures
        r == hex_value(b),
        r matches Some(v) ==> v < 16,
{
    if 48 <= b && b <= 57 {
        Some(b - 48)
    } else if 97 <= b && b <= 102 {
        Some(b - 87)
    } else if 65 <= b && b <= 70 {
        Some(b - 55)
    } else {
        None
    }
}

proof fn lemma_pct_encode_push(bs: Seq<u8>, b: u8)
    ensures
        pct_encode(bs.push(b)) == pct_encode(bs) + enc_byte(b),
    decreases bs.len(),
{
    if bs.len() == 0 {
        assert(bs.push(b).drop_first() =~= Seq::<u8>::empty());
        assert(pct_encode(bs.push(b).drop_first()) == Seq::<char>::empty());
        assert(pct_encode(bs) == Seq::<char>::empty());
        assert(pct_encode(bs.push(b)) =~= pct_encode(bs) + enc_byte(b));
    } else {
        assert(bs.push(b).drop_first() =~= bs.drop_first().push(b));
        lemma_pct_encode_push(bs.drop_first(), b);
        assert(pct_encode(bs.push(b)) =~= pct_encode(bs) + enc_byte(b));
    }
}

fn hex_char(n: u8) -> (c: char)
    requires
        n < 16,
    ensures
        c == hex_digit(n as int),
{
    if n < 10 {
        ((48 + n) as u8) as char
    } else {
        ((55 + n) as u8) as char
    }
}

/// Appends the percent-encoding of `s` to `out`.
pub fn encode_into(out: &mut Vec<char>, s: &str)
    ensures
        final(out)@ == old(out)@ + enc_str(s@),
{
    let bs = s.as_bytes();
    let ghost start = out@;
    let mut i: usize = 0;
    while i < bs.len()
        invariant
            i <= bs@.len(),
            bs@ == encode_utf8(s@),
            out@ == start + pct_encode(bs@.take(i as int)),
        decreases bs.len() - i,
    {
        let b = bs[i];
        if (65 <= b && b <= 90) || (97 <= b && b <= 122) || (48 <= b && b <= 57) || b == 45 || b
            == 95 || b == 46 || b == 126 {
            out.push(b as char);
        } else {
            out.push('%');
            out.push(hex_char(b / 16));
            out.push(hex_char(b % 16));
        }
        proof {
            assert(bs@.take(i + 1) =~= bs@.take(i as int).push(b));
            lemma_pct_encode_push(bs@.take(i as int), b);
        }
        i = i + 1;
    }
    assert(bs@.take(i as int) =~= bs@);
}

/// Percent-encodes the UTF-8 bytes of `s`, keeping `A-Z a-z 0-9 - _ . ~`.
pub fn percent_encode(s: &str) -> (r: String)
    ensures
        r@ == enc_str(s@),
{
    let mut out: Vec<char> = Vec::new();
    encode_into(&mut out, s);
    string_of(&out)
}

/// Decodes `%XX` escapes in the bytes of `s`; other bytes become the
/// character with the same code.
pub fn percent_decode(s: &str) -> (r: String)
    ensures
        r@ == pct_decode(encode_utf8(s@)),
{
    let bs = s.as_bytes();
    let mut out: Vec<char> = Vec::new();
    let mut i: usize = 0;
    assert(bs@.skip(0) =~= bs@);
    assert(out@ + pct_decode(bs@) =~= pct_decode(bs@));
    while i < bs.len()
        invariant
            i <= bs@.len(),
            out@ + pct_decode(bs@.skip(i as int)) == pct_decode(bs@),
        decreases bs.len() - i,
    {
        let ghost rest = bs@.skip(i as int);
        if bs[i] == 37 && bs.len() - i > 2 {
            let h = hex_val(bs[i + 1]);
            let l = hex_val(bs[i + 2]);
            if let (Some(h), Some(l)) = (h, l) {
                out.push((h * 16 + l) as char);
                assert(rest.skip(3) =~= bs@.skip(i + 3));
                assert(out@ + pct_decode(bs@.skip(i + 3)) =~= pct_decode(bs@));
                i = i + 3;
                continue ;
            }
        }
        out.push(bs[i] as char);
        assert(rest.skip(1) =~= bs@.skip(i + 1));
        assert(out@ + pct_decode(bs@.skip(i + 1)) =~= pct_decode(bs@));
        i = i + 1;
    }
    assert(out@ + pct_decode(bs@.skip(i as int)) =~= out@);
    string_of(&out)
}

proof fn lemma_decode_enc_byte(b: u8, rest: Seq<u8>)
    ensures
        pct_decode(enc_byte(b).map_values(|c: char| c as u8) + rest) == seq![b as char]
            + pct_decode(rest),
{
    let e = enc_byte(b).map_values(|c: char| c as u8);
    let all = e + rest;
    if unreserved(b) {
        assert(all[0] == b);
        assert(all.skip(1) =~= rest);
    } else {
        let hi = b / 16;
        let lo = b % 16;
        assert(all[0] == 37);
        assert(all[1] == hex_digit(hi as int) as u8);
        assert(all[2] == hex_digit(lo as int) as u8);
        assert(hex_value(all[1]) == Some(hi as u8));
        assert(hex_value(all[2]) == Some(lo as u8));
        assert(all.skip(3) =~= rest);
    }
}

proof fn lemma_ascii_bytes_concat(a: Seq<char>, b: Seq<char>)
    ensures
        (a + b).map_values(|c: char| c as u8) == a.map_values(|c: char| c as u8) + b.map_values(
            |c: char| c as u8,
        ),
{
    assert((a + b).map_values(|c: char| c as u8) =~= a.map_values(|c: char| c as u8)
        + b.map_values(|c: char| c as u8));
}

proof fn lemma_decode_encode_bytes(bs: Seq<u8>)
    ensures
        pct_decode(pct_encode(bs).map_values(|c: char| c as u8)) == bs.map_values(
            |b: u8| b as char,
        ),
    decreases bs.len(),
{
    if bs.len() == 0 {
        assert(pct_encode(bs).map_values(|c: char| c as u8) =~= Seq::<u8>::empty());
        assert(bs.map_values(|b: u8| b as char) =~= Seq::<char>::empty());
    } else {
        lemma_ascii_bytes_concat(enc_byte(bs[0]), pct_encode(bs.drop_first()));
        lemma_decode_enc_byte(bs[0], pct_encode(bs.drop_first()).map_values(|c: char| c as u8));
        lemma_decode_encode_bytes(bs.drop_first());
        assert(bs.map_values(|b: u8| b as char) =~= seq![bs[0] as char] + bs.drop_first().map_values(
            |b: u8| b as char,
        ));
    }
}

proof fn lemma_enc_is_ascii(bs: Seq<u8>)
    ensures
        is_ascii_chars(pct_encode(bs)),
    decreases bs.len(),
{
    if bs.len() > 0 {
        lemma_enc_is_ascii(bs.drop_first());
        let e = enc_byte(bs[0]);
        assert(is_ascii_chars(e));
        let all = e + pct_encode(bs.drop_first());
        assert forall|i| 0 <= i < all.len() implies '\0' <= #[trigger] all[i] <= '\u{7f}' by {
            if i < e.len() {
                assert(all[i] == e[i]);
            } else {
                assert(all[i] == pct_encode(bs.drop_first())[i - e.len()]);
            }
        }
    }
}

/// Decoding what `percent_encode` produced gives back an ASCII string:
/// `percent_decode(percent_encode(s)) == s` whenever every character of `s`
/// is ASCII.
pub proof fn law_percent_roundtrip(s: Seq<char>)
    requires
        is_ascii_chars(s),
    ensures
        pct_decode(encode_utf8(enc_str(s))) == s,
{
    broadcast use is_ascii_chars_encode_utf8;

    let bs = encode_utf8(s);
    lemma_enc_is_ascii(bs);
    let e = pct_encode(bs);
    assert(encode_utf8(e) =~= e.map_values(|c: char| c as u8));
    lemma_decode_encode_bytes(bs);
    assert(bs.map_values(|b: u8| b as char) =~= s);
}

/// The Google consent URL for a desktop client, with the S256 challenge
/// of the sign-in's code verifier.
pub open spec fn auth_url(client_id: Seq<char>, redirect_uri: Seq<char>, challenge: Seq<char>) -> Seq<
    char,
> {
    "https://accounts.google.com/o/oauth2/v2/auth?"@ + "client_id="@ + enc_str(client_id)
        + "&redirect_uri="@ + enc_str(redirect_uri) + "&response_type="@ + enc_str("code"@)
        + "&scope="@ + enc_str("https://www.googleapis.com/auth/calendar.readonly"@)
        + "&access_type="@ + enc_str("offline"@) + "&prompt="@ + enc_str("consent"@)
        + "&code_challenge="@ + enc_str(challenge) + "&code_challenge_method="@ + enc_str("S256"@)
}

/// Builds the browser URL that asks for read-only calendar access with an
/// offline refresh token, carrying the PKCE challenge `code_challenge`.
pub fn build_auth_url(client_id: &str, redirect_uri: &str, code_challenge: &str) -> (r: String)
    ensures
        r@ == auth_url(client_id@, redirect_uri@, code_challenge@),
{
    let mut out: Vec<char> = Vec::new();
    push_str(&mut out, "https://accounts.google.com/o/oauth2/v2/auth?");
    push_str(&mut out, "client_id=");
    encode_into(&mut out, client_id);
    push_str(&mut out, "&redirect_uri=");
    encode_into(&mut out, redirect_uri);
    push_str(&mut out, "&response_type=");
    encode_into(&mut out, "code");
    push_str(&mut out, "&scope=");
    encode_into(&mut out, "https://www.googleapis.com/auth/calendar.readonly");
    push_str(&mut out, "&access_type=");
    encode_into(&mut out, "offline");
    push_str(&mut out, "&prompt=");
    encode_into(&mut out, "consent");
    push_str(&mut out, "&code_challenge=");
    encode_into(&mut out, code_challenge);
    push_str(&mut out, "&code_challenge_method=");
    encode_into(&mut out, "S256");
    string_of(&out)
}

/// The value of a `code=...` query pair, if this pair is one.
pub open spec fn code_value(pair: Seq<char>) -> Option<Seq<char>> {
    let k = index_of_char(pair, '=');
    if k < pair.len() && pair.take(k as int) == "code"@ {
        Some(pair.skip(k as int + 1))
    } else {
        None
    }
}

/// The decoded value of the first `code=...` pair.
pub open spec fn first_code(pairs: Seq<Seq<char>>) -> Option<Seq<char>>
    decreases pairs.len(),
{
    if pairs.len() == 0 {
        None
    } else {
        match code_value(pairs[0]) {
            Some(v) => Some(pct_decode(encode_utf8(v))),
            None => first_code(pairs.drop_first()),
        }
    }
}

/// The authorization code in an HTTP request line such as
/// `GET /?code=XXXX&scope=... HTTP/1.1`.
pub open spec fn code_in_request(line: Seq<char>) -> Option<Seq<char>> {
    let ws = words(line);
    if ws.len() < 2 {
        None
    } else {
        let parts = split_on(ws[1], '?');
        if parts.len() < 2 {
            None
        } else {
            first_code(split_on(parts[1], '&'))
        }
    }
}

/// Reads the authorization code from the first line of the browser's
/// redirect request.
pub fn extract_code(request_line: &str) -> (r: Option<String>)
    ensures
        r matches Some(s) ==> code_in_request(request_line@) == Some(s@),
        r is None ==> code_in_request(request_line@) is None,
{
    let line = chars_of(request_line);
    let ws = split_words(&line);
    if ws.len() < 2 {
        return None;
    }
    let parts = split_chars(&ws[1], '?');
    if parts.len() < 2 {
        return None;
    }
    let pairs = split_chars(&parts[1], '&');
    let code = chars_of("code");
    let ghost all = views(pairs@);
    proof {
        assert(views(ws@)[1] == ws@[1]@);
        assert(views(parts@)[1] == parts@[1]@);
        assert(all.skip(0) =~= all);
        let wsv = words(request_line@);
        assert(wsv == views(ws@));
        assert(wsv.len() >= 2);
        assert(wsv[1] == ws@[1]@);
        let pv = split_on(wsv[1], '?');
        assert(pv == views(parts@));
        assert(pv[1] == parts@[1]@);
        assert(split_on(pv[1], '&') == all);
        assert(code_in_request(request_line@) == first_code(all));
    }
    let mut k: usize = 0;
    while k < pairs.len()
        invariant
            k <= pairs@.len(),
            all == views(pairs@),
            code@ == "code"@,
            first_code(all) == first_code(all.skip(k as int)),
            code_in_request(request_line@) == first_code(all),
        decreases pairs.len() - k,
    {
        let pair = &pairs[k];
        assert(all[k as int] == pair@);
        let idx = find_char(pair, '=');
        if idx < pair.len() {
            let key = slice_chars(pair, 0, idx);
            assert(key@ =~= pair@.take(idx as int));
            if chars_eq(&key, &code) {
                let value = slice_chars(pair, idx + 1, pair.len());
                assert(value@ =~= pair@.skip(idx + 1));
                let vs = string_of(&value);
                let vstr = vs.as_str();
                let decoded = percent_decode(vstr);
                proof {
                    let rest = all.skip(k as int);
                    assert(rest[0] == pair@);
                    assert(code_value(pair@) == Some(value@));
                    assert(rest.len() > 0);
                    assert(first_code(rest) == Some(pct_decode(encode_utf8(value@))));
                    assert(vstr@ == value@);
                }
                return Some(decoded);
            }
        }
        assert(all.skip(k as int).drop_first() =~= all.skip(k + 1));
        k = k + 1;
    }
    None
}


/// A character that percent-encoded text can hold.
pub open spec fn url_safe(c: char) -> bool {
    ||| 'A' <= c <= 'Z'
    ||| 'a' <= c <= 'z'
    ||| '0' <= c <= '9'
    ||| c == '-' || c == '_' || c == '.' || c == '~' || c == '%'
}

proof fn lemma_pct_encode_safe(bs: Seq<u8>)
    ensures
        forall|i: int| 0 <= i < pct_encode(bs).len() ==> url_safe(#[trigger] pct_encode(bs)[i]),
    decreases bs.len(),
{
    if bs.len() > 0 {
        lemma_pct_encode_safe(bs.drop_first());
        let a = enc_byte(bs[0]);
        let b = pct_encode(bs.drop_first());
        let r = pct_encode(bs);
        assert(r == a + b);
        assert forall|i: int| 0 <= i < r.len() implies url_safe(#[trigger] r[i]) by {
            if i < a.len() {
                assert(r[i] == a[i]);
                if !unreserved(bs[0]) {
                    assert(bs[0] / 16 < 16 && bs[0] % 16 < 16);
                }
            } else {
                assert(r[i] == b[i - a.len()]);
            }
        }
    }
}

proof fn lemma_words_through(a: Seq<char>, b: Seq<char>, cur: Seq<char>)
    requires
        forall|i: int| 0 <= i < a.len() ==> !is_ws(#[trigger] a[i]),
    ensures
        words_from(a + b, cur) == words_from(b, cur + a),
    decreases a.len(),
{
    if a.len() == 0 {
        assert(a + b =~= b);
        assert(cur + a =~= cur);
    } else {
        let t = a.drop_first();
        assert forall|i: int| 0 <= i < t.len() implies !is_ws(#[trigger] t[i]) by {
            assert(t[i] == a[i + 1]);
        }
        lemma_words_through(t, b, cur.push(a[0]));
        assert((a + b).drop_first() =~= t + b);
        assert(cur.push(a[0]) + t =~= cur + a);
        assert((a + b)[0] == a[0]);
    }
}

proof fn lemma_split_through(a: Seq<char>, b: Seq<char>, sep: char, cur: Seq<char>)
    requires
        forall|i: int| 0 <= i < a.len() ==> #[trigger] a[i] != sep,
    ensures
        split_from(a + b, sep, cur) == split_from(b, sep, cur + a),
    decreases a.len(),
{
    if a.len() == 0 {
        assert(a + b =~= b);
        assert(cur + a =~= cur);
    } else {
        let t = a.drop_first();
        assert forall|i: int| 0 <= i < t.len() implies #[trigger] t[i] != sep by {
            assert(t[i] == a[i + 1]);
        }
        lemma_split_through(t, b, sep, cur.push(a[0]));
        assert((a + b).drop_first() =~= t + b);
        assert(cur.push(a[0]) + t =~= cur + a);
        assert((a + b)[0] == a[0]);
    }
}

/// The first line of the browser's redirect request for the code `code`.
pub open spec fn callback_line(code: Seq<char>) -> Seq<char> {
    "GET /?code="@ + enc_str(code) + " HTTP/1.1"@
}

/// The code that Google hands back reads back unchanged: the request line
/// of the redirect to `/?code=` and the percent-encoded code yields that
/// code, for every ASCII code.
pub proof fn law_code_roundtrip(code: Seq<char>)
    requires
        is_ascii_chars(code),
    ensures
        code_in_request(callback_line(code)) == Some(code),
{
    reveal_strlit("GET /?code=");
    reveal_strlit(" HTTP/1.1");
    let e = enc_str(code);
    lemma_pct_encode_safe(encode_utf8(code));
    assert(forall|i: int| 0 <= i < e.len() ==> url_safe(#[trigger] e[i]));
    let g: Seq<char> = seq!['G', 'E', 'T'];
    let h: Seq<char> = seq!['H', 'T', 'T', 'P', '/', '1', '.', '1'];
    let key: Seq<char> = seq!['c', 'o', 'd', 'e', '='];
    let q = key + e;
    let w1 = seq!['/', '?'] + q;
    let line = callback_line(code);
    assert(line =~= g + (seq![' '] + (w1 + (seq![' '] + h))));
    assert forall|i: int| 0 <= i < q.len() implies !is_ws(#[trigger] q[i]) && q[i] != '?' && q[i]
        != '&' by {
        if i >= 5 {
            assert(q[i] == e[i - 5]);
        }
    }
    assert forall|i: int| 0 <= i < w1.len() implies !is_ws(#[trigger] w1[i]) by {
        if i >= 2 {
            assert(w1[i] == q[i - 2]);
        }
    }
    // The words of the line.
    lemma_words_through(g, seq![' '] + (w1 + (seq![' '] + h)), seq![]);
    let r1 = seq![' '] + (w1 + (seq![' '] + h));
    assert(Seq::<char>::empty() + g =~= g);
    assert(r1.drop_first() =~= w1 + (seq![' '] + h));
    assert(words_from(r1, g) == seq![g] + words_from(w1 + (seq![' '] + h), seq![]));
    lemma_words_through(w1, seq![' '] + h, seq![]);
    assert(Seq::<char>::empty() + w1 =~= w1);
    let r2 = seq![' '] + h;
    assert(r2.drop_first() =~= h);
    assert(words_from(r2, w1) == seq![w1] + words_from(h, seq![]));
    let ws = words(line);
    assert(ws == seq![g] + (seq![w1] + words_from(h, seq![])));
    assert(ws.len() >= 2 && ws[1] == w1);
    // The query after `?`.
    lemma_split_through(seq!['/'], seq!['?'] + q, '?', seq![]);
    assert(w1 =~= seq!['/'] + (seq!['?'] + q));
    assert(Seq::<char>::empty() + seq!['/'] =~= seq!['/']);
    let r3 = seq!['?'] + q;
    assert(r3.drop_first() =~= q);
    assert(split_from(r3, '?', seq!['/']) == seq![seq!['/']] + split_from(q, '?', seq![]));
    lemma_split_through(q, seq![], '?', seq![]);
    assert(q + Seq::<char>::empty() =~= q);
    assert(Seq::<char>::empty() + q =~= q);
    assert(split_from(q, '?', seq![]) == seq![q]);
    let parts = split_on(w1, '?');
    assert(parts == seq![seq!['/']] + seq![q]);
    assert(parts.len() >= 2 && parts[1] == q);
    // The pairs after `&`.
    lemma_split_through(q, seq![], '&', seq![]);
    let pairs = split_on(q, '&');
    assert(pairs == seq![q]);
    // The code pair.
    assert forall|j: int| 0 <= j < 4 implies (other_than('='))(#[trigger] q[j]) by {
        assert(q[j] == key[j]);
    }
    assert(q[4] == '=');
    lemma_lead_count(q, other_than('='), 4);
    assert(q.take(4) =~= "code"@) by {
        reveal_strlit("code");
    }
    assert(q.skip(5) =~= e);
    assert(code_value(q) == Some(e));
    assert(pairs.drop_first() =~= Seq::<Seq<char>>::empty());
    assert(first_code(pairs) == Some(pct_decode(encode_utf8(e))));
    law_percent_roundtrip(code);
}


/// The code pair `code=<value>` is read as `Some(value)`.
proof fn lemma_code_pair(e: Seq<char>)
    ensures
        code_value(seq!['c', 'o', 'd', 'e', '='] + e) == Some(e),
{
    let key: Seq<char> = seq!['c', 'o', 'd', 'e', '='];
    let q = key + e;
    assert forall|j: int| 0 <= j < 4 implies (other_than('='))(#[trigger] q[j]) by {
        assert(q[j] == key[j]);
    }
    assert(q[4] == '=');
    lemma_lead_count(q, other_than('='), 4);
    assert(q.take(4) =~= "code"@) by {
        reveal_strlit("code");
    }
    assert(q.skip(5) =~= e);
}

/// `first_code` reads the first pair keyed `code`.
proof fn lemma_first_code_at(pairs: Seq<Seq<char>>, k: int, e: Seq<char>)
    requires
        0 <= k < pairs.len(),
        code_value(pairs[k]) == Some(e),
        forall|j: int| 0 <= j < k ==> code_value(#[trigger] pairs[j]) is None,
    ensures
        first_code(pairs) == Some(pct_decode(encode_utf8(e))),
    decreases k,
{
    if k > 0 {
        let t = pairs.drop_first();
        assert forall|j: int| 0 <= j < k - 1 implies code_value(#[trigger] t[j]) is None by {
            assert(t[j] == pairs[j + 1]);
        }
        assert(code_value(pairs[0]) is None);
        lemma_first_code_at(t, k - 1, e);
    }
}

/// The code reads back from any redirect query: when the query `q` (no
/// blanks, no `?`) has as its first pair keyed exactly `code` the pair
/// `code=` and the percent-encoded code, the request line for `/?q` yields
/// that code, for every ASCII code.
pub proof fn law_code_from_query(q: Seq<char>, code: Seq<char>, k: int)
    requires
        forall|i: int| 0 <= i < q.len() ==> !is_ws(#[trigger] q[i]) && q[i] != '?',
        is_ascii_chars(code),
        0 <= k < split_on(q, '&').len(),
        split_on(q, '&')[k] == "code="@ + enc_str(code),
        forall|j: int| 0 <= j < k ==> code_value(#[trigger] split_on(q, '&')[j]) is None,
    ensures
        code_in_request("GET /?"@ + q + " HTTP/1.1"@) == Some(code),
{
    reveal_strlit("GET /?");
    reveal_strlit(" HTTP/1.1");
    reveal_strlit("code=");
    let e = enc_str(code);
    let g: Seq<char> = seq!['G', 'E', 'T'];
    let h: Seq<char> = seq!['H', 'T', 'T', 'P', '/', '1', '.', '1'];
    let w1 = seq!['/', '?'] + q;
    let line = "GET /?"@ + q + " HTTP/1.1"@;
    assert(line =~= g + (seq![' '] + (w1 + (seq![' '] + h))));
    assert forall|i: int| 0 <= i < w1.len() implies !is_ws(#[trigger] w1[i]) by {
        if i >= 2 {
            assert(w1[i] == q[i - 2]);
        }
    }
    lemma_words_through(g, seq![' '] + (w1 + (seq![' '] + h)), seq![]);
    let r1 = seq![' '] + (w1 + (seq![' '] + h));
    assert(Seq::<char>::empty() + g =~= g);
    assert(r1.drop_first() =~= w1 + (seq![' '] + h));
    assert(words_from(r1, g) == seq![g] + words_from(w1 + (seq![' '] + h), seq![]));
    lemma_words_through(w1, seq![' '] + h, seq![]);
    assert(Seq::<char>::empty() + w1 =~= w1);
    let r2 = seq![' '] + h;
    assert(r2.drop_first() =~= h);
    assert(words_from(r2, w1) == seq![w1] + words_from(h, seq![]));
    let ws = words(line);
    assert(ws == seq![g] + (seq![w1] + words_from(h, seq![])));
    assert(ws.len() >= 2 && ws[1] == w1);
    lemma_split_through(seq!['/'], seq!['?'] + q, '?', seq![]);
    assert(w1 =~= seq!['/'] + (seq!['?'] + q));
    assert(Seq::<char>::empty() + seq!['/'] =~= seq!['/']);
    let r3 = seq!['?'] + q;
    assert(r3.drop_first() =~= q);
    assert(split_from(r3, '?', seq!['/']) == seq![seq!['/']] + split_from(q, '?', seq![]));
    lemma_split_through(q, seq![], '?', seq![]);
    assert(q + Seq::<char>::empty() =~= q);
    assert(Seq::<char>::empty() + q =~= q);
    assert(split_from(q, '?', seq![]) == seq![q]);
    let parts = split_on(w1, '?');
    assert(parts == seq![seq!['/']] + seq![q]);
    assert(parts.len() >= 2 && parts[1] == q);
    let pairs = split_on(q, '&');
    assert("code="@ + e =~= seq!['c', 'o', 'd', 'e', '='] + e);
    lemma_code_pair(e);
    lemma_first_code_at(pairs, k, e);
    law_percent_roundtrip(code);
}

} // verus!
