//! The wire format of the envelope, as mathematics: the canonical
//! rendering of each variant, a deterministic scanner over character
//! sequences, and the proof that scanning inverts rendering.

use vstd::prelude::*;
use crate::protocol::{ChatMsgV, EnvelopeV, Timestamp, WebSocketMessageType};
use crate::text::{digit_char, digit_val, is_digit, hex_char, hex_val, is_hex};

verus! {

// ---------------------------------------------------------------------
// Rendering
// ---------------------------------------------------------------------

/// How one character appears inside a quoted string: quotes and
/// backslashes carry a backslash escape, control characters a
/// hexadecimal escape, every other character is as is.
pub open spec fn esc_char(c: char) -> Seq<char> {
    if c == '"' || c == '\\' {
        seq!['\\', c]
    } else if (c as u32) < 32 {
        seq![
            '\\',
            'u',
            '0',
            '0',
            hex_char((c as u32) as int / 16),
            hex_char((c as u32) as int % 16),
        ]
    } else {
        seq![c]
    }
}

/// The character a single-letter escape stands for.
pub open spec fn unesc(e: char) -> char {
    if e == 'n' { '\n' }
    else if e == 't' { '\t' }
    else if e == 'r' { '\r' }
    else if e == 'b' { '\u{8}' }
    else { '\u{c}' }
}

/// The body of a quoted string.
pub open spec fn escape(s: Seq<char>) -> Seq<char>
    decreases s.len(),
{
    if s.len() == 0 {
        Seq::empty()
    } else {
        esc_char(s[0]) + escape(s.drop_first())
    }
}

/// A quoted string.
pub open spec fn jstr(s: Seq<char>) -> Seq<char> {
    seq!['"'] + escape(s) + seq!['"']
}

/// Comma-separated quoted strings.
pub open spec fn jitems(us: Seq<Seq<char>>) -> Seq<char>
    decreases us.len(),
{
    if us.len() == 0 {
        Seq::empty()
    } else if us.len() == 1 {
        jstr(us[0])
    } else {
        jstr(us[0]) + seq![','] + jitems(us.drop_first())
    }
}

/// A bracketed list of quoted strings.
pub open spec fn jlist(us: Seq<Seq<char>>) -> Seq<char> {
    seq!['['] + jitems(us) + seq![']']
}

/// The fixed-width rendering of a timestamp.
pub open spec fn ts_chars(t: Timestamp) -> Seq<char> {
    seq![
        digit_char(t.year as int / 1000),
        digit_char((t.year as int / 100) % 10),
        digit_char((t.year as int / 10) % 10),
        digit_char(t.year as int % 10),
        '-',
        digit_char(t.month as int / 10),
        digit_char(t.month as int % 10),
        '-',
        digit_char(t.day as int / 10),
        digit_char(t.day as int % 10),
        'T',
        digit_char(t.hour as int / 10),
        digit_char(t.hour as int % 10),
        ':',
        digit_char(t.minute as int / 10),
        digit_char(t.minute as int % 10),
        ':',
        digit_char(t.second as int / 10),
        digit_char(t.second as int % 10),
    ]
}

pub open spec fn tag_chars(t: WebSocketMessageType) -> Seq<char> {
    match t {
        WebSocketMessageType::NewMessage => "NewMessage"@,
        WebSocketMessageType::UserList => "UserList"@,
        WebSocketMessageType::UsernameChange => "UsernameChange"@,
        WebSocketMessageType::System => "System"@,
    }
}

/// The rendering of a chat payload object.
pub open spec fn ser_chat(m: ChatMsgV) -> Seq<char> {
    "{\"message\":"@ + jstr(m.message) + ",\"author\":"@ + jstr(m.author)
        + ",\"created_at\":\""@ + ts_chars(m.created_at) + "\"}"@
}

pub open spec fn ser_opt_chat(m: Option<ChatMsgV>) -> Seq<char> {
    match m {
        Option::None => "null"@,
        Option::Some(c) => ser_chat(c),
    }
}

pub open spec fn ser_opt_users(us: Option<Seq<Seq<char>>>) -> Seq<char> {
    match us {
        Option::None => "null"@,
        Option::Some(u) => jlist(u),
    }
}

pub open spec fn ser_opt_name(n: Option<Seq<char>>) -> Seq<char> {
    match n {
        Option::None => "null"@,
        Option::Some(s) => jstr(s),
    }
}

/// The canonical rendering of a whole envelope.
pub open spec fn ser_env(e: EnvelopeV) -> Seq<char> {
    "{\"message_type\":\""@ + tag_chars(e.message_type) + "\",\"message\":"@
        + ser_opt_chat(e.message) + ",\"users\":"@ + ser_opt_users(e.users)
        + ",\"username\":"@ + ser_opt_name(e.username) + "}"@
}

// ---------------------------------------------------------------------
// Scanning
// ---------------------------------------------------------------------

/// Consumes an expected literal, or fails.
pub open spec fn scan_lit(s: Seq<char>, i: int, lit: Seq<char>) -> Option<int> {
    if 0 <= i && i + lit.len() <= s.len() && s.subrange(i, i + lit.len()) == lit {
        Some((i + lit.len()) as int)
    } else {
        None
    }
}

/// Consumes a string body up to and including its closing quote. The
/// accepted escapes are the backslash-prefixed quote, backslash and
/// slash, the letter escapes for the common control characters, and a
/// four-digit hexadecimal escape for code points below 0x100 (the form
/// standard encoders use for control characters).
pub open spec fn scan_strbody(s: Seq<char>, i: int) -> Option<(Seq<char>, int)>
    decreases s.len() - i,
{
    if i < 0 || i >= s.len() {
        None
    } else if s[i] == '"' {
        Some((Seq::empty(), i + 1))
    } else if s[i] == '\\' {
        if i + 1 < s.len() && (s[i + 1] == '"' || s[i + 1] == '\\' || s[i + 1] == '/') {
            match scan_strbody(s, i + 2) {
                None => None,
                Some((t, j)) => Some((seq![s[i + 1]] + t, j)),
            }
        } else if i + 1 < s.len() && (s[i + 1] == 'n' || s[i + 1] == 't' || s[i + 1] == 'r'
            || s[i + 1] == 'b' || s[i + 1] == 'f') {
            match scan_strbody(s, i + 2) {
                None => None,
                Some((t, j)) => Some((seq![unesc(s[i + 1])] + t, j)),
            }
        } else if i + 1 < s.len() && s[i + 1] == 'u' {
            if i + 6 <= s.len() && s[i + 2] == '0' && s[i + 3] == '0' && is_hex(s[i + 4])
                && is_hex(s[i + 5]) {
                match scan_strbody(s, i + 6) {
                    None => None,
                    Some((t, j)) => Some((
                        seq![((16 * hex_val(s[i + 4]) + hex_val(s[i + 5])) as u8) as char] + t,
                        j,
                    )),
                }
            } else {
                None
            }
        } else {
            None
        }
    } else {
        match scan_strbody(s, i + 1) {
            None => None,
            Some((t, j)) => Some((seq![s[i]] + t, j)),
        }
    }
}

/// Consumes a quoted string.
pub open spec fn scan_jstr(s: Seq<char>, i: int) -> Option<(Seq<char>, int)> {
    if 0 <= i && i < s.len() && s[i] == '"' {
        scan_strbody(s, i + 1)
    } else {
        None
    }
}

pub proof fn lemma_scan_strbody_bounds(s: Seq<char>, i: int)
    ensures
        match scan_strbody(s, i) {
            Some((t, j)) => i < j <= s.len(),
            None => true,
        },
    decreases s.len() - i,
{
    if 0 <= i && i < s.len() {
        if s[i] == '"' {
        } else if s[i] == '\\' {
            if i + 1 < s.len() {
                lemma_scan_strbody_bounds(s, i + 2);
                if i + 6 <= s.len() {
                    lemma_scan_strbody_bounds(s, i + 6);
                }
            }
        } else {
            lemma_scan_strbody_bounds(s, i + 1);
        }
    }
}

/// Consumes one or more quoted strings separated by commas, up to and
/// including the closing bracket.
pub open spec fn scan_items(s: Seq<char>, i: int) -> Option<(Seq<Seq<char>>, int)>
    decreases s.len() - i,
    when 0 <= i <= s.len()
    via scan_items_dec
{
    match scan_jstr(s, i) {
        None => None,
        Some((u, j)) => {
            if j < s.len() && s[j] == ',' {
                match scan_items(s, j + 1) {
                    None => None,
                    Some((us, k)) => Some((seq![u] + us, k)),
                }
            } else if j < s.len() && s[j] == ']' {
                Some((seq![u], j + 1))
            } else {
                None
            }
        },
    }
}

#[via_fn]
proof fn scan_items_dec(s: Seq<char>, i: int) {
    lemma_scan_strbody_bounds(s, i + 1);
}

/// Consumes a bracketed list of quoted strings.
pub open spec fn scan_list(s: Seq<char>, i: int) -> Option<(Seq<Seq<char>>, int)> {
    if 0 <= i && i < s.len() && s[i] == '[' {
        if i + 1 < s.len() && s[i + 1] == ']' {
            Some((Seq::empty(), i + 2))
        } else {
            scan_items(s, i + 1)
        }
    } else {
        None
    }
}

/// The end of the run of decimal digits starting at `i`.
pub open spec fn digits_end(s: Seq<char>, i: int) -> int
    decreases s.len() - i,
{
    if 0 <= i && i < s.len() && is_digit(s[i]) {
        digits_end(s, i + 1)
    } else {
        i
    }
}

pub proof fn lemma_digits_end_bounds(s: Seq<char>, i: int)
    requires
        0 <= i <= s.len(),
    ensures
        i <= digits_end(s, i) <= s.len(),
    decreases s.len() - i,
{
    if i < s.len() && is_digit(s[i]) {
        lemma_digits_end_bounds(s, i + 1);
    }
}

/// Consumes a fixed-width timestamp, with an optional fractional-second
/// suffix whose digits are discarded (the model keeps whole seconds).
pub open spec fn scan_ts(s: Seq<char>, i: int) -> Option<(Timestamp, int)> {
    if 0 <= i && i + 19 <= s.len()
        && is_digit(s[i]) && is_digit(s[i + 1]) && is_digit(s[i + 2]) && is_digit(s[i + 3])
        && s[i + 4] == '-' && is_digit(s[i + 5]) && is_digit(s[i + 6]) && s[i + 7] == '-'
        && is_digit(s[i + 8]) && is_digit(s[i + 9]) && s[i + 10] == 'T'
        && is_digit(s[i + 11]) && is_digit(s[i + 12]) && s[i + 13] == ':'
        && is_digit(s[i + 14]) && is_digit(s[i + 15]) && s[i + 16] == ':'
        && is_digit(s[i + 17]) && is_digit(s[i + 18])
    {
        let t = Timestamp {
                year: (1000 * digit_val(s[i]) + 100 * digit_val(s[i + 1])
                    + 10 * digit_val(s[i + 2]) + digit_val(s[i + 3])) as u32,
                month: (10 * digit_val(s[i + 5]) + digit_val(s[i + 6])) as u32,
                day: (10 * digit_val(s[i + 8]) + digit_val(s[i + 9])) as u32,
                hour: (10 * digit_val(s[i + 11]) + digit_val(s[i + 12])) as u32,
                minute: (10 * digit_val(s[i + 14]) + digit_val(s[i + 15])) as u32,
                second: (10 * digit_val(s[i + 17]) + digit_val(s[i + 18])) as u32,
            };
        if i + 19 < s.len() && s[i + 19] == '.' {
            if i + 20 < s.len() && is_digit(s[i + 20]) {
                Some((t, digits_end(s, i + 20)))
            } else {
                None
            }
        } else {
            Some((t, i + 19))
        }
    } else {
        None
    }
}

/// Consumes one of the four type tags; no tag is a prefix of another.
pub open spec fn scan_tag(s: Seq<char>, i: int) -> Option<(WebSocketMessageType, int)> {
    if scan_lit(s, i, "NewMessage"@) is Some {
        Some((WebSocketMessageType::NewMessage, i + "NewMessage"@.len()))
    } else if scan_lit(s, i, "UserList"@) is Some {
        Some((WebSocketMessageType::UserList, i + "UserList"@.len()))
    } else if scan_lit(s, i, "UsernameChange"@) is Some {
        Some((WebSocketMessageType::UsernameChange, i + "UsernameChange"@.len()))
    } else if scan_lit(s, i, "System"@) is Some {
        Some((WebSocketMessageType::System, i + "System"@.len()))
    } else {
        None
    }
}

/// Consumes a chat payload object.
pub open spec fn scan_chat(s: Seq<char>, i: int) -> Option<(ChatMsgV, int)> {
    match scan_lit(s, i, "{\"message\":"@) {
        None => None,
        Some(j1) => match scan_jstr(s, j1) {
            None => None,
            Some((msg, j2)) => match scan_lit(s, j2, ",\"author\":"@) {
                None => None,
                Some(j3) => match scan_jstr(s, j3) {
                    None => None,
                    Some((auth, j4)) => match scan_lit(s, j4, ",\"created_at\":\""@) {
                        None => None,
                        Some(j5) => match scan_ts(s, j5) {
                            None => None,
                            Some((ts, j6)) => match scan_lit(s, j6, "\"}"@) {
                                None => None,
                                Some(j7) => Some((
                                    ChatMsgV { message: msg, author: auth, created_at: ts },
                                    j7,
                                )),
                            },
                        },
                    },
                },
            },
        },
    }
}

pub open spec fn scan_opt_chat(s: Seq<char>, i: int) -> Option<(Option<ChatMsgV>, int)> {
    if 0 <= i && i < s.len() && s[i] == 'n' {
        match scan_lit(s, i, "null"@) {
            None => None,
            Some(j) => Some((Option::<ChatMsgV>::None, j)),
        }
    } else {
        match scan_chat(s, i) {
            None => None,
            Some((m, j)) => Some((Some(m), j)),
        }
    }
}

pub open spec fn scan_opt_list(s: Seq<char>, i: int) -> Option<(Option<Seq<Seq<char>>>, int)> {
    if 0 <= i && i < s.len() && s[i] == 'n' {
        match scan_lit(s, i, "null"@) {
            None => None,
            Some(j) => Some((Option::<Seq<Seq<char>>>::None, j)),
        }
    } else {
        match scan_list(s, i) {
            None => None,
            Some((us, j)) => Some((Some(us), j)),
        }
    }
}

pub open spec fn scan_opt_name(s: Seq<char>, i: int) -> Option<(Option<Seq<char>>, int)> {
    if 0 <= i && i < s.len() && s[i] == 'n' {
        match scan_lit(s, i, "null"@) {
            None => None,
            Some(j) => Some((Option::<Seq<char>>::None, j)),
        }
    } else {
        match scan_jstr(s, i) {
            None => None,
            Some((u, j)) => Some((Some(u), j)),
        }
    }
}

/// Scans a whole envelope; succeeds only when the entire input is one
/// canonical, well-formed envelope.
pub open spec fn scan_env(s: Seq<char>) -> Option<EnvelopeV> {
    match scan_lit(s, 0, "{\"message_type\":\""@) {
        None => None,
        Some(i1) => match scan_tag(s, i1) {
            None => None,
            Some((tag, i2)) => match scan_lit(s, i2, "\",\"message\":"@) {
                None => None,
                Some(i3) => match scan_opt_chat(s, i3) {
                    None => None,
                    Some((msg, i4)) => match scan_lit(s, i4, ",\"users\":"@) {
                        None => None,
                        Some(i5) => match scan_opt_list(s, i5) {
                            None => None,
                            Some((us, i6)) => match scan_lit(s, i6, ",\"username\":"@) {
                                None => None,
                                Some(i7) => match scan_opt_name(s, i7) {
                                    None => None,
                                    Some((un, i8)) => match scan_lit(s, i8, "}"@) {
                                        None => None,
                                        Some(i9) => {
                                            let e = EnvelopeV {
                                                message_type: tag,
                                                message: msg,
                                                users: us,
                                                username: un,
                                            };
                                            if i9 == s.len() && e.wf() {
                                                Some(e)
                                            } else {
                                                None
                                            }
                                        },
                                    },
                                },
                            },
                        },
                    },
                },
            },
        },
    }
}

// ---------------------------------------------------------------------
// Scanning inverts rendering
// ---------------------------------------------------------------------

/// A subrange known to equal a concatenation splits into the two parts.
pub proof fn lemma_sub_split(s: Seq<char>, i: int, a: Seq<char>, b: Seq<char>)
    requires
        0 <= i,
        i + a.len() + b.len() <= s.len(),
        s.subrange(i, i + a.len() + b.len()) == a + b,
    ensures
        s.subrange(i, i + a.len()) == a,
        s.subrange(i + a.len(), i + a.len() + b.len()) == b,
{
    let w = s.subrange(i, i + a.len() + b.len());
    assert forall|j: int| 0 <= j < a.len() implies s.subrange(i, i + a.len())[j] == a[j] by {
        assert(w[j] == s[i + j]);
    }
    assert(s.subrange(i, i + a.len()) =~= a);
    assert forall|j: int| 0 <= j < b.len() implies s.subrange(
        i + a.len(),
        i + a.len() + b.len(),
    )[j] == b[j] by {
        assert(w[a.len() + j] == s[i + a.len() + j]);
    }
    assert(s.subrange(i + a.len(), i + a.len() + b.len()) =~= b);
}

/// Adjacent subranges concatenate to the spanning subrange.
pub proof fn lemma_sub_glue(s: Seq<char>, p: int, q: int, r: int)
    requires
        0 <= p <= q <= r <= s.len(),
    ensures
        s.subrange(p, r) == s.subrange(p, q) + s.subrange(q, r),
{
    let lhs = s.subrange(p, r);
    let rhs = s.subrange(p, q) + s.subrange(q, r);
    assert forall|j: int| 0 <= j < r - p implies lhs[j] == rhs[j] by {
        if j < q - p {
            assert(s.subrange(p, q)[j] == s[p + j]);
        } else {
            assert(s.subrange(q, r)[j - (q - p)] == s[p + j]);
        }
    }
    assert(lhs =~= rhs);
}

proof fn lemma_hex_rt(d: int)
    requires
        0 <= d < 16,
    ensures
        is_hex(hex_char(d)),
        hex_val(hex_char(d)) == d,
{
}

#[verifier::rlimit(60)]
pub proof fn lemma_scan_escaped(s: Seq<char>, i: int, t: Seq<char>)
    requires
        0 <= i,
        i + escape(t).len() + 1 <= s.len(),
        s.subrange(i, i + escape(t).len() + 1) == escape(t) + seq!['"'],
    ensures
        scan_strbody(s, i) == Some((t, i + escape(t).len() + 1)),
    decreases t.len(),
{
    let w = s.subrange(i, i + escape(t).len() + 1);
    lemma_sub_split(s, i, escape(t), seq!['"']);
    if t.len() == 0 {
        assert(escape(t) =~= Seq::<char>::empty());
        assert(s.subrange(i, i + 1)[0] == s[i]);
        assert(s[i] == '"');
    } else {
        let c = t[0];
        let t1 = t.drop_first();
        assert(escape(t) == esc_char(c) + escape(t1));
        lemma_sub_split(s, i, esc_char(c), escape(t1));
        let q = i + esc_char(c).len();
        let e = i + escape(t).len();
        // glue the tail of the body onto the closing quote
        lemma_sub_glue(s, q, e, e + 1);
        assert(s.subrange(q, e + 1) == escape(t1) + seq!['"']);
        if c == '"' || c == '\\' {
            assert(s.subrange(i, i + 2)[0] == s[i]);
            assert(s.subrange(i, i + 2)[1] == s[i + 1]);
            assert(s[i] == '\\');
            assert(s[i + 1] == c);
            lemma_scan_escaped(s, i + 2, t1);
            assert(seq![s[i + 1]] + t1 =~= t);
        } else if (c as u32) < 32 {
            let cu = (c as u32) as int;
            let hi = cu / 16;
            let lo = cu % 16;
            assert(0 <= hi < 2 && 0 <= lo < 16);
            lemma_hex_rt(hi);
            lemma_hex_rt(lo);
            assert(s.subrange(i, i + 6)[0] == s[i]);
            assert(s.subrange(i, i + 6)[1] == s[i + 1]);
            assert(s.subrange(i, i + 6)[2] == s[i + 2]);
            assert(s.subrange(i, i + 6)[3] == s[i + 3]);
            assert(s.subrange(i, i + 6)[4] == s[i + 4]);
            assert(s.subrange(i, i + 6)[5] == s[i + 5]);
            assert(s[i] == '\\');
            assert(s[i + 1] == 'u');
            assert(s[i + 2] == '0');
            assert(s[i + 3] == '0');
            assert(s[i + 4] == hex_char(hi));
            assert(s[i + 5] == hex_char(lo));
            assert(16 * hi + lo == cu);
            vstd::utf8::char_u32_cast(c, c as u32);
            assert(((16 * hex_val(s[i + 4]) + hex_val(s[i + 5])) as u8) as char == c);
            lemma_scan_escaped(s, i + 6, t1);
            assert(seq![c] + t1 =~= t);
        } else {
            assert(s.subrange(i, i + 1)[0] == s[i]);
            assert(s[i] == c);
            lemma_scan_escaped(s, i + 1, t1);
            assert(seq![s[i]] + t1 =~= t);
        }
    }
}

pub proof fn lemma_scan_jstr(s: Seq<char>, i: int, t: Seq<char>)
    requires
        0 <= i,
        i + jstr(t).len() <= s.len(),
        s.subrange(i, i + jstr(t).len()) == jstr(t),
    ensures
        scan_jstr(s, i) == Some((t, i + jstr(t).len())),
{
    assert(jstr(t) == (seq!['"'] + escape(t)) + seq!['"']);
    assert(seq!['"'] + escape(t) + seq!['"'] =~= seq!['"'] + (escape(t) + seq!['"']));
    lemma_sub_split(s, i, seq!['"'], escape(t) + seq!['"']);
    assert(s.subrange(i, i + 1)[0] == s[i]);
    assert(s[i] == '"');
    lemma_scan_escaped(s, i + 1, t);
}

pub proof fn lemma_scan_items(s: Seq<char>, i: int, us: Seq<Seq<char>>)
    requires
        us.len() >= 1,
        0 <= i,
        i + jitems(us).len() + 1 <= s.len(),
        s.subrange(i, i + jitems(us).len() + 1) == jitems(us) + seq![']'],
    ensures
        scan_items(s, i) == Some((us, i + jitems(us).len() + 1)),
    decreases us.len(),
{
    let u0 = us[0];
    lemma_sub_split(s, i, jitems(us), seq![']']);
    if us.len() == 1 {
        assert(jitems(us) == jstr(u0));
        lemma_scan_jstr(s, i, u0);
        let j = i + jstr(u0).len();
        assert(s.subrange(j, j + 1)[0] == s[j]);
        assert(s[j] == ']');
        assert(seq![u0] =~= us);
    } else {
        let rest = us.drop_first();
        assert(jitems(us) == (jstr(u0) + seq![',']) + jitems(rest));
        lemma_sub_split(s, i, jstr(u0) + seq![','], jitems(rest));
        lemma_sub_split(s, i, jstr(u0), seq![',']);
        lemma_scan_jstr(s, i, u0);
        let j = i + jstr(u0).len();
        assert(s.subrange(j, j + 1)[0] == s[j]);
        assert(s[j] == ',');
        let e = i + jitems(us).len();
        lemma_sub_glue(s, j + 1, e, e + 1);
        assert(s.subrange(e, e + 1) == seq![']']);
        assert(s.subrange(j + 1, e + 1) == jitems(rest) + seq![']']);
        lemma_scan_items(s, j + 1, rest);
        assert(seq![u0] + rest =~= us);
    }
}

pub proof fn lemma_scan_list(s: Seq<char>, i: int, us: Seq<Seq<char>>)
    requires
        0 <= i,
        i + jlist(us).len() <= s.len(),
        s.subrange(i, i + jlist(us).len()) == jlist(us),
    ensures
        scan_list(s, i) == Some((us, i + jlist(us).len())),
{
    assert(jlist(us) == (seq!['['] + jitems(us)) + seq![']']);
    assert(seq!['['] + jitems(us) + seq![']'] =~= seq!['['] + (jitems(us) + seq![']']));
    lemma_sub_split(s, i, seq!['['], jitems(us) + seq![']']);
    assert(s.subrange(i, i + 1)[0] == s[i]);
    assert(s[i] == '[');
    if us.len() == 0 {
        assert(jitems(us) =~= Seq::<char>::empty());
        assert(s.subrange(i + 1, i + 2)[0] == s[i + 1]);
        assert(s[i + 1] == ']');
        assert(us =~= Seq::<Seq<char>>::empty());
    } else {
        assert(jitems(us)[0] == jstr(us[0])[0]);
        assert(jitems(us)[0] == '"');
        assert(s.subrange(i + 1, i + 1 + jitems(us).len() + 1)[0] == s[i + 1]);
        assert(s[i + 1] == '"');
        lemma_scan_items(s, i + 1, us);
    }
}

proof fn lemma_two_digits(n: int)
    requires
        0 <= n <= 99,
    ensures
        10 * (n / 10) + n % 10 == n,
        0 <= n / 10 <= 9,
        0 <= n % 10 <= 9,
{
    vstd::arithmetic::div_mod::lemma_fundamental_div_mod(n, 10);
    vstd::arithmetic::div_mod::lemma_mod_bound(n, 10);
}

proof fn lemma_four_digits(n: int)
    requires
        0 <= n <= 9999,
    ensures
        1000 * (n / 1000) + 100 * ((n / 100) % 10) + 10 * ((n / 10) % 10) + n % 10 == n,
        0 <= n / 1000 <= 9,
        0 <= (n / 100) % 10 <= 9,
        0 <= (n / 10) % 10 <= 9,
        0 <= n % 10 <= 9,
{
    vstd::arithmetic::div_mod::lemma_fundamental_div_mod(n, 10);
    vstd::arithmetic::div_mod::lemma_mod_bound(n, 10);
    let n1 = n / 10;
    vstd::arithmetic::div_mod::lemma_fundamental_div_mod(n1, 10);
    vstd::arithmetic::div_mod::lemma_mod_bound(n1, 10);
    let n2 = n1 / 10;
    vstd::arithmetic::div_mod::lemma_fundamental_div_mod(n2, 10);
    vstd::arithmetic::div_mod::lemma_mod_bound(n2, 10);
    vstd::arithmetic::div_mod::lemma_div_denominator(n, 10, 10);
    assert(n / 100 == n2);
    vstd::arithmetic::div_mod::lemma_div_denominator(n, 100, 10);
    assert(n / 1000 == n2 / 10);
    vstd::arithmetic::div_mod::lemma_fundamental_div_mod(n2 / 10, 10);
}

proof fn lemma_digit_rt(d: int)
    requires
        0 <= d <= 9,
    ensures
        is_digit(digit_char(d)),
        digit_val(digit_char(d)) == d,
{
}

#[verifier::rlimit(60)]
pub proof fn lemma_scan_ts(s: Seq<char>, i: int, t: Timestamp)
    requires
        t.wf(),
        0 <= i,
        i + 19 <= s.len(),
        s.subrange(i, i + 19) == ts_chars(t),
        i + 19 == s.len() || s[i + 19] != '.',
    ensures
        scan_ts(s, i) == Some((t, i + 19)),
{
    let w = s.subrange(i, i + 19);
    assert forall|k: int| 0 <= k < 19 implies s[i + k] == ts_chars(t)[k] by {
        assert(w[k] == s[i + k]);
    }
    assert(w[0] == s[i]);
    assert(s[i] == ts_chars(t)[0]);
    let y = t.year as int;
    lemma_four_digits(y);
    lemma_two_digits(t.month as int);
    lemma_two_digits(t.day as int);
    lemma_two_digits(t.hour as int);
    lemma_two_digits(t.minute as int);
    lemma_two_digits(t.second as int);
    lemma_digit_rt(y / 1000);
    lemma_digit_rt((y / 100) % 10);
    lemma_digit_rt((y / 10) % 10);
    lemma_digit_rt(y % 10);
    lemma_digit_rt(t.month as int / 10);
    lemma_digit_rt(t.month as int % 10);
    lemma_digit_rt(t.day as int / 10);
    lemma_digit_rt(t.day as int % 10);
    lemma_digit_rt(t.hour as int / 10);
    lemma_digit_rt(t.hour as int % 10);
    lemma_digit_rt(t.minute as int / 10);
    lemma_digit_rt(t.minute as int % 10);
    lemma_digit_rt(t.second as int / 10);
    lemma_digit_rt(t.second as int % 10);
}

pub proof fn lemma_scan_tag(s: Seq<char>, i: int, tg: WebSocketMessageType)
    requires
        0 <= i,
        i + tag_chars(tg).len() <= s.len(),
        s.subrange(i, i + tag_chars(tg).len()) == tag_chars(tg),
    ensures
        scan_tag(s, i) == Some((tg, i + tag_chars(tg).len())),
{
    reveal_strlit("NewMessage");
    reveal_strlit("UserList");
    reveal_strlit("UsernameChange");
    reveal_strlit("System");
    let w = s.subrange(i, i + tag_chars(tg).len());
    assert forall|k: int| 0 <= k < tag_chars(tg).len() implies s[i + k] == tag_chars(tg)[k] by {
        assert(w[k] == s[i + k]);
    }
    assert(w[0] == s[i]);
    assert(w[0] == tag_chars(tg)[0]);
    match tg {
        WebSocketMessageType::NewMessage => {
        },
        WebSocketMessageType::UserList => {
            assert(s[i] == 'U');
            if i + 10 <= s.len() && s.subrange(i, i + 10) == "NewMessage"@ {
                assert(s.subrange(i, i + 10)[0] == s[i]);
                assert(false);
            }
        },
        WebSocketMessageType::UsernameChange => {
            assert(s[i] == 'U');
            assert("UsernameChange"@[4] == 'n');
            assert(s[i + 4] == tag_chars(tg)[4]);
            assert(s[i + 4] == 'n');
            if i + 10 <= s.len() && s.subrange(i, i + 10) == "NewMessage"@ {
                assert(s.subrange(i, i + 10)[0] == s[i]);
                assert(false);
            }
            if i + 8 <= s.len() && s.subrange(i, i + 8) == "UserList"@ {
                assert(s.subrange(i, i + 8)[4] == s[i + 4]);
                assert(false);
            }
        },
        WebSocketMessageType::System => {
            assert(s[i] == 'S');
            if i + 10 <= s.len() && s.subrange(i, i + 10) == "NewMessage"@ {
                assert(s.subrange(i, i + 10)[0] == s[i]);
                assert(false);
            }
            if i + 8 <= s.len() && s.subrange(i, i + 8) == "UserList"@ {
                assert(s.subrange(i, i + 8)[0] == s[i]);
                assert(false);
            }
            if i + 14 <= s.len() && s.subrange(i, i + 14) == "UsernameChange"@ {
                assert(s.subrange(i, i + 14)[0] == s[i]);
                assert(false);
            }
        },
    }
}

pub proof fn lemma_scan_chat(s: Seq<char>, i: int, m: ChatMsgV)
    requires
        m.created_at.wf(),
        0 <= i,
        i + ser_chat(m).len() <= s.len(),
        s.subrange(i, i + ser_chat(m).len()) == ser_chat(m),
    ensures
        scan_chat(s, i) == Some((m, i + ser_chat(m).len())),
{
    reveal_strlit("{\"message\":");
    reveal_strlit(",\"author\":");
    reveal_strlit(",\"created_at\":\"");
    reveal_strlit("\"}");
    let l1 = "{\"message\":"@;
    let l2 = ",\"author\":"@;
    let l3 = ",\"created_at\":\""@;
    let l4 = "\"}"@;
    let jm = jstr(m.message);
    let ja = jstr(m.author);
    let ts = ts_chars(m.created_at);
    lemma_sub_split(s, i, l1 + jm + l2 + ja + l3 + ts, l4);
    lemma_sub_split(s, i, l1 + jm + l2 + ja + l3, ts);
    lemma_sub_split(s, i, l1 + jm + l2 + ja, l3);
    lemma_sub_split(s, i, l1 + jm + l2, ja);
    lemma_sub_split(s, i, l1 + jm, l2);
    lemma_sub_split(s, i, l1, jm);
    let j1 = i + l1.len();
    let j2 = j1 + jm.len();
    let j3 = j2 + l2.len();
    let j4 = j3 + ja.len();
    let j5 = j4 + l3.len();
    let j6 = j5 + ts.len();
    let j7 = j6 + l4.len();
    assert(ts.len() == 19);
    assert(scan_lit(s, i, l1) == Some(j1));
    lemma_scan_jstr(s, j1, m.message);
    assert(scan_lit(s, j2, l2) == Some(j3));
    lemma_scan_jstr(s, j3, m.author);
    assert(scan_lit(s, j4, l3) == Some(j5));
    assert(s.subrange(j6, j7)[0] == s[j6]);
    assert(s[j6] == '"');
    lemma_scan_ts(s, j5, m.created_at);
    assert(scan_lit(s, j6, l4) == Some(j7));
}

/// Scanning the canonical rendering of a well-formed envelope yields
/// exactly that envelope: the codec round-trips.
#[verifier::rlimit(100)]
pub proof fn lemma_round_trip(e: EnvelopeV)
    requires
        e.wf(),
    ensures
        scan_env(ser_env(e)) == Some(e),
{
    reveal_strlit("{\"message_type\":\"");
    reveal_strlit("\",\"message\":");
    reveal_strlit(",\"users\":");
    reveal_strlit(",\"username\":");
    reveal_strlit("}");
    reveal_strlit("null");
    reveal_strlit("NewMessage");
    reveal_strlit("UserList");
    reveal_strlit("UsernameChange");
    reveal_strlit("System");
    reveal_strlit("{\"message\":");
    let s = ser_env(e);
    let l0 = "{\"message_type\":\""@;
    let lb = "\",\"message\":"@;
    let lc = ",\"users\":"@;
    let ld = ",\"username\":"@;
    let le = "}"@;
    let tg = tag_chars(e.message_type);
    let pm = ser_opt_chat(e.message);
    let pu = ser_opt_users(e.users);
    let pn = ser_opt_name(e.username);
    let i1 = l0.len() as int;
    let i2 = i1 + tg.len();
    let i3 = i2 + lb.len();
    let i4 = i3 + pm.len();
    let i5 = i4 + lc.len();
    let i6 = i5 + pu.len();
    let i7 = i6 + ld.len();
    let i8 = i7 + pn.len();
    let i9 = i8 + le.len();
    assert(s.len() == i9);
    assert(s.subrange(0, i9) =~= s);
    lemma_sub_split(s, 0, l0 + tg + lb + pm + lc + pu + ld + pn, le);
    lemma_sub_split(s, 0, l0 + tg + lb + pm + lc + pu + ld, pn);
    lemma_sub_split(s, 0, l0 + tg + lb + pm + lc + pu, ld);
    lemma_sub_split(s, 0, l0 + tg + lb + pm + lc, pu);
    lemma_sub_split(s, 0, l0 + tg + lb + pm, lc);
    lemma_sub_split(s, 0, l0 + tg + lb, pm);
    lemma_sub_split(s, 0, l0 + tg, lb);
    lemma_sub_split(s, 0, l0, tg);
    assert(scan_lit(s, 0, l0) == Some(i1));
    lemma_scan_tag(s, i1, e.message_type);
    assert(scan_lit(s, i2, lb) == Some(i3));
    match e.message {
        Option::None => {
            assert(pm == "null"@);
            assert(s.subrange(i3, i4)[0] == s[i3]);
            assert(s[i3] == 'n');
            assert(scan_lit(s, i3, "null"@) == Some(i4));
            assert(scan_opt_chat(s, i3) == Some((Option::<ChatMsgV>::None, i4)));
        },
        Option::Some(m) => {
            assert(pm == ser_chat(m));
            assert(s.subrange(i3, i4)[0] == s[i3]);
            assert(ser_chat(m)[0] == "{\"message\":"@[0]);
            assert(s[i3] == '{');
            lemma_scan_chat(s, i3, m);
            assert(scan_opt_chat(s, i3) == Some((Some(m), i4)));
        },
    }
    assert(scan_lit(s, i4, lc) == Some(i5));
    match e.users {
        Option::None => {
            assert(pu == "null"@);
            assert(s.subrange(i5, i6)[0] == s[i5]);
            assert(s[i5] == 'n');
            assert(scan_lit(s, i5, "null"@) == Some(i6));
            assert(scan_opt_list(s, i5) == Some((Option::<Seq<Seq<char>>>::None, i6)));
        },
        Option::Some(us) => {
            assert(pu == jlist(us));
            assert(s.subrange(i5, i6)[0] == s[i5]);
            assert(jlist(us)[0] == '[');
            assert(s[i5] == '[');
            lemma_scan_list(s, i5, us);
            assert(scan_opt_list(s, i5) == Some((Some(us), i6)));
        },
    }
    assert(scan_lit(s, i6, ld) == Some(i7));
    match e.username {
        Option::None => {
            assert(pn == "null"@);
            assert(s.subrange(i7, i8)[0] == s[i7]);
            assert(s[i7] == 'n');
            assert(scan_lit(s, i7, "null"@) == Some(i8));
            assert(scan_opt_name(s, i7) == Some((Option::<Seq<char>>::None, i8)));
        },
        Option::Some(un) => {
            assert(pn == jstr(un));
            assert(s.subrange(i7, i8)[0] == s[i7]);
            assert(jstr(un)[0] == '"');
            assert(s[i7] == '"');
            lemma_scan_jstr(s, i7, un);
            assert(scan_opt_name(s, i7) == Some((Some(un), i8)));
        },
    }
    assert(scan_lit(s, i8, le) == Some(i9));
}

/// The canonical rendering is injective on well-formed envelopes.
pub proof fn lemma_ser_injective(a: EnvelopeV, b: EnvelopeV)
    requires
        a.wf(),
        b.wf(),
        ser_env(a) == ser_env(b),
    ensures
        a == b,
{
    lemma_round_trip(a);
    lemma_round_trip(b);
}

} // verus!
