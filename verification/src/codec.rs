//! Executable codec for the wire envelope, verified against the
//! mathematical rendering and scanner of the wire format.

use vstd::prelude::*;
use crate::protocol::{ChatMessage, ChatMsgV, Timestamp, WebSocketMessage, WebSocketMessageType, views_of};
use crate::text::{chars_of, digit_of, digit_val, is_digit, string_of, hex_of, hex_value, hex_val, is_hex};
use crate::wire::{esc_char, escape, unesc, jstr, jitems, jlist, ts_chars, tag_chars, ser_chat,
    ser_env, scan_lit, scan_strbody, scan_jstr, scan_items, scan_list, scan_ts, scan_tag,
    scan_chat, scan_opt_chat, scan_opt_list, scan_opt_name, scan_env, digits_end,
    lemma_scan_strbody_bounds};

verus! {

// ---------------------------------------------------------------------
// Rendering
// ---------------------------------------------------------------------

fn push_lit(out: &mut Vec<char>, lit: &str)
    ensures
        final(out)@ == old(out)@ + lit@,
{
    proof {
        assert(out@ =~= old(out)@ + lit@.subrange(0, 0));
    }
    let n = lit.unicode_len();
    let mut k: usize = 0;
    while k < n
        invariant
            k <= n,
            n == lit@.len(),
            out@ == old(out)@ + lit@.subrange(0, k as int),
        decreases n - k,
    {
        out.push(lit.get_char(k));
        k = k + 1;
        proof {
            assert(out@ =~= old(out)@ + lit@.subrange(0, k as int));
        }
    }
    proof {
        assert(lit@.subrange(0, lit@.len() as int) =~= lit@);
    }
}

proof fn lemma_escape_snoc(t: Seq<char>, c: char)
    ensures
        escape(t.push(c)) == escape(t) + esc_char(c),
    decreases t.len(),
{
    if t.len() == 0 {
        assert(t.push(c)[0] == c);
        assert(t.push(c).drop_first() =~= t);
        assert(escape(t.push(c)) == esc_char(c) + escape(t));
        assert(escape(t.push(c)) =~= escape(t) + esc_char(c));
    } else {
        assert(t.push(c)[0] == t[0]);
        assert(t.push(c).drop_first() =~= t.drop_first().push(c));
        lemma_escape_snoc(t.drop_first(), c);
        assert(escape(t.push(c)) =~= escape(t) + esc_char(c));
    }
}

fn push_jstr(out: &mut Vec<char>, s: &str)
    ensures
        final(out)@ == old(out)@ + jstr(s@),
{
    out.push('"');
    let n = s.unicode_len();
    let mut k: usize = 0;
    proof {
        assert(escape(s@.subrange(0, 0)) =~= Seq::<char>::empty());
        assert(out@ =~= old(out)@ + seq!['"'] + escape(s@.subrange(0, 0)));
    }
    while k < n
        invariant
            k <= n,
            n == s@.len(),
            out@ == old(out)@ + seq!['"'] + escape(s@.subrange(0, k as int)),
        decreases n - k,
    {
        let c = s.get_char(k);
        if c == '"' || c == '\\' {
            out.push('\\');
            out.push(c);
        } else if (c as u32) < 32 {
            let cu = c as u32;
            out.push('\\');
            out.push('u');
            out.push('0');
            out.push('0');
            out.push(hex_of(cu / 16));
            out.push(hex_of(cu % 16));
        } else {
            out.push(c);
        }
        proof {
            lemma_escape_snoc(s@.subrange(0, k as int), c);
            assert(s@.subrange(0, k as int).push(c) =~= s@.subrange(0, k as int + 1));
            assert(out@ =~= old(out)@ + seq!['"'] + escape(s@.subrange(0, k as int + 1)));
        }
        k = k + 1;
    }
    out.push('"');
    proof {
        assert(s@.subrange(0, s@.len() as int) =~= s@);
        assert(out@ =~= old(out)@ + jstr(s@));
    }
}

#[verifier::rlimit(100)]
fn push_ts(out: &mut Vec<char>, t: &Timestamp)
    requires
        t.wf(),
    ensures
        final(out)@ == old(out)@ + ts_chars(*t),
{
    let y = t.year;
    proof {
        assert(y / 1000 < 10 && (y / 100) % 10 < 10 && (y / 10) % 10 < 10 && y % 10 < 10);
        assert(t.month / 10 < 10 && t.month % 10 < 10);
        assert(t.day / 10 < 10 && t.day % 10 < 10);
        assert(t.hour / 10 < 10 && t.hour % 10 < 10);
        assert(t.minute / 10 < 10 && t.minute % 10 < 10);
        assert(t.second / 10 < 10 && t.second % 10 < 10);
    }
    out.push(digit_of(y / 1000));
    out.push(digit_of((y / 100) % 10));
    out.push(digit_of((y / 10) % 10));
    out.push(digit_of(y % 10));
    out.push('-');
    proof {
        assert(out@ =~= old(out)@ + ts_chars(*t).subrange(0, 5));
    }
    out.push(digit_of(t.month / 10));
    out.push(digit_of(t.month % 10));
    out.push('-');
    out.push(digit_of(t.day / 10));
    out.push(digit_of(t.day % 10));
    out.push('T');
    proof {
        assert(out@ =~= old(out)@ + ts_chars(*t).subrange(0, 11));
    }
    out.push(digit_of(t.hour / 10));
    out.push(digit_of(t.hour % 10));
    out.push(':');
    out.push(digit_of(t.minute / 10));
    out.push(digit_of(t.minute % 10));
    out.push(':');
    proof {
        assert(out@ =~= old(out)@ + ts_chars(*t).subrange(0, 17));
    }
    out.push(digit_of(t.second / 10));
    out.push(digit_of(t.second % 10));
    proof {
        assert(out@ =~= old(out)@ + ts_chars(*t));
    }
}

proof fn lemma_jitems_snoc(us: Seq<Seq<char>>, u: Seq<char>)
    ensures
        jitems(us.push(u)) == if us.len() == 0 {
            jstr(u)
        } else {
            jitems(us) + seq![','] + jstr(u)
        },
    decreases us.len(),
{
    if us.len() == 0 {
        assert(us.push(u)[0] == u);
        assert(jitems(us.push(u)) == jstr(u));
    } else {
        assert(us.push(u)[0] == us[0]);
        assert(us.push(u).drop_first() =~= us.drop_first().push(u));
        lemma_jitems_snoc(us.drop_first(), u);
        assert(jitems(us.push(u)) =~= jitems(us) + seq![','] + jstr(u));
    }
}

fn push_list(out: &mut Vec<char>, us: &Vec<String>)
    ensures
        final(out)@ == old(out)@ + jlist(views_of(us@)),
{
    out.push('[');
    proof {
        assert(views_of(us@.subrange(0, 0)) =~= Seq::<Seq<char>>::empty());
        assert(out@ =~= old(out)@ + seq!['['] + jitems(views_of(us@.subrange(0, 0))));
    }
    let mut k: usize = 0;
    while k < us.len()
        invariant
            k <= us@.len(),
            out@ == old(out)@ + seq!['['] + jitems(views_of(us@.subrange(0, k as int))),
        decreases us@.len() - k,
    {
        if k > 0 {
            out.push(',');
        }
        push_jstr(out, us[k].as_str());
        proof {
            let pre = views_of(us@.subrange(0, k as int));
            lemma_jitems_snoc(pre, us@[k as int]@);
            assert(pre.len() == k as int);
            assert(views_of(us@.subrange(0, k as int + 1)) =~= pre.push(us@[k as int]@));
            assert(out@ =~= old(out)@ + seq!['['] + jitems(
                views_of(us@.subrange(0, k as int + 1)),
            ));
        }
        k = k + 1;
    }
    out.push(']');
    proof {
        assert(us@.subrange(0, us@.len() as int) =~= us@);
        assert(out@ =~= old(out)@ + jlist(views_of(us@)));
    }
}

fn push_tag(out: &mut Vec<char>, t: WebSocketMessageType)
    ensures
        final(out)@ == old(out)@ + tag_chars(t),
{
    match t {
        WebSocketMessageType::NewMessage => push_lit(out, "NewMessage"),
        WebSocketMessageType::UserList => push_lit(out, "UserList"),
        WebSocketMessageType::UsernameChange => push_lit(out, "UsernameChange"),
        WebSocketMessageType::System => push_lit(out, "System"),
    }
}

fn push_chat(out: &mut Vec<char>, m: &ChatMessage)
    requires
        m@.created_at.wf(),
    ensures
        final(out)@ == old(out)@ + ser_chat(m@),
{
    push_lit(out, "{\"message\":");
    push_jstr(out, m.message.as_str());
    push_lit(out, ",\"author\":");
    push_jstr(out, m.author.as_str());
    push_lit(out, ",\"created_at\":\"");
    push_ts(out, &m.created_at);
    push_lit(out, "\"}");
    proof {
        assert(out@ =~= old(out)@ + ser_chat(m@));
    }
}

fn to_chars(e: &WebSocketMessage) -> (r: Vec<char>)
    requires
        e@.wf(),
    ensures
        r@ == ser_env(e@),
{
    let mut out: Vec<char> = Vec::new();
    push_lit(&mut out, "{\"message_type\":\"");
    push_tag(&mut out, e.message_type);
    push_lit(&mut out, "\",\"message\":");
    match &e.message {
        Some(m) => push_chat(&mut out, m),
        None => push_lit(&mut out, "null"),
    }
    push_lit(&mut out, ",\"users\":");
    match &e.users {
        Some(us) => push_list(&mut out, us),
        None => push_lit(&mut out, "null"),
    }
    push_lit(&mut out, ",\"username\":");
    match &e.username {
        Some(n) => push_jstr(&mut out, n.as_str()),
        None => push_lit(&mut out, "null"),
    }
    push_lit(&mut out, "}");
    proof {
        assert(out@ =~= ser_env(e@));
    }
    out
}

impl WebSocketMessage {
    /// Renders the envelope in its canonical wire form.
    pub fn to_string(&self) -> (r: String)
        requires
            self@.wf(),
        ensures
            r@ == ser_env(self@),
    {
        string_of(&to_chars(self))
    }
}


// ---------------------------------------------------------------------
// Parsing
// ---------------------------------------------------------------------

fn p_lit(s: &Vec<char>, i: usize, lit: &str) -> (r: Option<usize>)
    requires
        i <= s@.len(),
    ensures
        match r {
            Some(j) => scan_lit(s@, i as int, lit@) == Some(j as int) && i <= j <= s@.len(),
            None => (scan_lit(s@, i as int, lit@) is None),
        },
{
    let n = lit.unicode_len();
    if n > s.len() - i {
        return None;
    }
    proof {
        assert(i + n <= s@.len());
    }
    let mut k: usize = 0;
    while k < n
        invariant
            i + n <= s@.len(),
            i + n <= usize::MAX,
            k <= n,
            n == lit@.len(),
            forall|q: int| 0 <= q < k ==> s@[i + q] == lit@[q],
        decreases n - k,
    {
        if s[i + k] != lit.get_char(k) {
            proof {
                if s@.subrange(i as int, i + n) == lit@ {
                    assert(s@.subrange(i as int, i + n)[k as int] == s@[i + k]);
                    assert(false);
                }
            }
            return None;
        }
        k = k + 1;
    }
    proof {
        assert forall|q: int| 0 <= q < n implies s@.subrange(i as int, i + n)[q] == lit@[q] by {
            assert(s@.subrange(i as int, i + n)[q] == s@[i + q]);
        }
        assert(s@.subrange(i as int, i + n) =~= lit@);
    }
    Some(i + n)
}

fn p_strbody(s: &Vec<char>, i: usize) -> (r: Option<(Vec<char>, usize)>)
    requires
        i <= s@.len(),
    ensures
        match r {
            Some(t) => scan_strbody(s@, i as int) == Some((t.0@, t.1 as int)) && i < t.1 <= s@.len(),
            None => (scan_strbody(s@, i as int) is None),
        },
{
    let mut p: usize = i;
    let mut acc: Vec<char> = Vec::new();
    proof {
        match scan_strbody(s@, i as int) {
            Option::None => {
            },
            Option::Some((t, j)) => {
                assert(acc@ + t =~= t);
            },
        }
    }
    loop
        invariant
            i <= p <= s@.len(),
            match scan_strbody(s@, p as int) {
                Option::None => (scan_strbody(s@, i as int) is None),
                Option::Some((t, j)) => scan_strbody(s@, i as int) == Some((acc@ + t, j)),
            },
        decreases s@.len() - p,
    {
        proof {
            lemma_scan_strbody_bounds(s@, p as int);
        }
        if p >= s.len() {
            return None;
        }
        let c = s[p];
        if c == '"' {
            proof {
                assert(acc@ + Seq::<char>::empty() =~= acc@);
            }
            return Some((acc, p + 1));
        } else if c == '\\' {
            if p + 1 < s.len() && (s[p + 1] == '"' || s[p + 1] == '\\' || s[p + 1] == '/') {
                let c2 = s[p + 1];
                proof {
                    match scan_strbody(s@, p as int + 2) {
                        Option::None => {
                        },
                        Option::Some((t2, j2)) => {
                            assert(scan_strbody(s@, p as int) == Some((
                                seq![s@[p as int + 1]] + t2,
                                j2,
                            )));
                            assert(acc@.push(c2) + t2 =~= acc@ + (seq![c2] + t2));
                        },
                    }
                }
                acc.push(c2);
                p = p + 2;
            } else if p + 1 < s.len() && (s[p + 1] == 'n' || s[p + 1] == 't' || s[p + 1] == 'r'
                || s[p + 1] == 'b' || s[p + 1] == 'f') {
                let e = s[p + 1];
                let c2 = if e == 'n' { '\n' }
                else if e == 't' { '\t' }
                else if e == 'r' { '\r' }
                else if e == 'b' { '\u{8}' }
                else { '\u{c}' };
                proof {
                    assert(c2 == unesc(s@[p as int + 1]));
                    match scan_strbody(s@, p as int + 2) {
                        Option::None => {
                        },
                        Option::Some((t2, j2)) => {
                            assert(scan_strbody(s@, p as int) == Some((
                                seq![unesc(s@[p as int + 1])] + t2,
                                j2,
                            )));
                            assert(acc@.push(c2) + t2 =~= acc@ + (seq![c2] + t2));
                        },
                    }
                }
                acc.push(c2);
                p = p + 2;
            } else if p + 1 < s.len() && s[p + 1] == 'u' {
                if s.len() - p >= 6 && s[p + 2] == '0' && s[p + 3] == '0' {
                    match (hex_value(s[p + 4]), hex_value(s[p + 5])) {
                        (Some(h), Some(l)) => {
                            let v: u32 = 16 * h + l;
                            let c2 = (v as u8) as char;
                            proof {
                                match scan_strbody(s@, p as int + 6) {
                                    Option::None => {
                                    },
                                    Option::Some((t2, j2)) => {
                                        assert(scan_strbody(s@, p as int) == Some((
                                            seq![((16 * hex_val(s@[p as int + 4]) + hex_val(
                                                s@[p as int + 5],
                                            )) as u8) as char] + t2,
                                            j2,
                                        )));
                                        assert(acc@.push(c2) + t2 =~= acc@ + (seq![c2] + t2));
                                    },
                                }
                            }
                            acc.push(c2);
                            p = p + 6;
                        },
                        _ => {
                            return None;
                        },
                    }
                } else {
                    return None;
                }
            } else {
                return None;
            }
        } else {
            proof {
                match scan_strbody(s@, p as int + 1) {
                    Option::None => {
                    },
                    Option::Some((t2, j2)) => {
                        assert(scan_strbody(s@, p as int) == Some((
                            seq![s@[p as int]] + t2,
                            j2,
                        )));
                        assert(acc@.push(c) + t2 =~= acc@ + (seq![c] + t2));
                    },
                }
            }
            acc.push(c);
            p = p + 1;
        }
    }
}

fn p_jstr(s: &Vec<char>, i: usize) -> (r: Option<(String, usize)>)
    requires
        i <= s@.len(),
    ensures
        match r {
            Some(t) => scan_jstr(s@, i as int) == Some((t.0@, t.1 as int)) && i < t.1 <= s@.len(),
            None => (scan_jstr(s@, i as int) is None),
        },
{
    if i < s.len() && s[i] == '"' {
        match p_strbody(s, i + 1) {
            Some((v, j)) => Some((string_of(&v), j)),
            None => None,
        }
    } else {
        None
    }
}

fn p_digit(c: char) -> (r: Option<u32>)
    ensures
        match r {
            Some(v) => is_digit(c) && v as int == digit_val(c) && v < 10,
            None => !is_digit(c),
        },
{
    if c == '0' { Some(0) }
    else if c == '1' { Some(1) }
    else if c == '2' { Some(2) }
    else if c == '3' { Some(3) }
    else if c == '4' { Some(4) }
    else if c == '5' { Some(5) }
    else if c == '6' { Some(6) }
    else if c == '7' { Some(7) }
    else if c == '8' { Some(8) }
    else if c == '9' { Some(9) }
    else { None }
}

fn p_digits_end(s: &Vec<char>, start: usize) -> (r: usize)
    requires
        start <= s@.len(),
    ensures
        r as int == digits_end(s@, start as int),
        start <= r <= s@.len(),
{
    let mut p: usize = start;
    let mut go = true;
    while go
        invariant
            start <= p <= s@.len(),
            go ==> digits_end(s@, start as int) == digits_end(s@, p as int),
            !go ==> digits_end(s@, start as int) == p as int,
        decreases s@.len() - p, (if go { 1int } else { 0int }),
    {
        if p >= s.len() {
            go = false;
        } else {
            match p_digit(s[p]) {
                Some(_) => {
                    p = p + 1;
                },
                None => {
                    go = false;
                },
            }
        }
    }
    p
}

#[verifier::rlimit(60)]
fn p_ts(s: &Vec<char>, i: usize) -> (r: Option<(Timestamp, usize)>)
    requires
        i <= s@.len(),
    ensures
        match r {
            Some(t) => scan_ts(s@, i as int) == Some((t.0, t.1 as int)) && i < t.1 <= s@.len(),
            None => (scan_ts(s@, i as int) is None),
        },
{
    if s.len() - i < 19 {
        return None;
    }
    let d0 = match p_digit(s[i]) { Some(v) => v, None => { return None; } };
    let d1 = match p_digit(s[i + 1]) { Some(v) => v, None => { return None; } };
    let d2 = match p_digit(s[i + 2]) { Some(v) => v, None => { return None; } };
    let d3 = match p_digit(s[i + 3]) { Some(v) => v, None => { return None; } };
    if s[i + 4] != '-' { return None; }
    let mo0 = match p_digit(s[i + 5]) { Some(v) => v, None => { return None; } };
    let mo1 = match p_digit(s[i + 6]) { Some(v) => v, None => { return None; } };
    if s[i + 7] != '-' { return None; }
    let dy0 = match p_digit(s[i + 8]) { Some(v) => v, None => { return None; } };
    let dy1 = match p_digit(s[i + 9]) { Some(v) => v, None => { return None; } };
    if s[i + 10] != 'T' { return None; }
    let h0 = match p_digit(s[i + 11]) { Some(v) => v, None => { return None; } };
    let h1 = match p_digit(s[i + 12]) { Some(v) => v, None => { return None; } };
    if s[i + 13] != ':' { return None; }
    let mi0 = match p_digit(s[i + 14]) { Some(v) => v, None => { return None; } };
    let mi1 = match p_digit(s[i + 15]) { Some(v) => v, None => { return None; } };
    if s[i + 16] != ':' { return None; }
    let s0 = match p_digit(s[i + 17]) { Some(v) => v, None => { return None; } };
    let s1 = match p_digit(s[i + 18]) { Some(v) => v, None => { return None; } };
    let t = Timestamp {
        year: 1000 * d0 + 100 * d1 + 10 * d2 + d3,
        month: 10 * mo0 + mo1,
        day: 10 * dy0 + dy1,
        hour: 10 * h0 + h1,
        minute: 10 * mi0 + mi1,
        second: 10 * s0 + s1,
    };
    let j = i + 19;
    if j < s.len() && s[j] == '.' {
        if j + 1 < s.len() {
            match p_digit(s[j + 1]) {
                Some(_) => {
                    let e = p_digits_end(s, j + 1);
                    Some((t, e))
                },
                None => None,
            }
        } else {
            None
        }
    } else {
        Some((t, j))
    }
}

fn p_tag(s: &Vec<char>, i: usize) -> (r: Option<(WebSocketMessageType, usize)>)
    requires
        i <= s@.len(),
    ensures
        match r {
            Some(t) => scan_tag(s@, i as int) == Some((t.0, t.1 as int)) && i <= t.1 <= s@.len(),
            None => (scan_tag(s@, i as int) is None),
        },
{
    if let Some(j) = p_lit(s, i, "NewMessage") {
        Some((WebSocketMessageType::NewMessage, j))
    } else if let Some(j) = p_lit(s, i, "UserList") {
        Some((WebSocketMessageType::UserList, j))
    } else if let Some(j) = p_lit(s, i, "UsernameChange") {
        Some((WebSocketMessageType::UsernameChange, j))
    } else if let Some(j) = p_lit(s, i, "System") {
        Some((WebSocketMessageType::System, j))
    } else {
        None
    }
}

fn p_items(s: &Vec<char>, i: usize) -> (r: Option<(Vec<String>, usize)>)
    requires
        i <= s@.len(),
    ensures
        match r {
            Some(t) => scan_items(s@, i as int) == Some((views_of(t.0@), t.1 as int))
                && i < t.1 <= s@.len(),
            None => (scan_items(s@, i as int) is None),
        },
{
    let mut p: usize = i;
    let mut acc: Vec<String> = Vec::new();
    proof {
        match scan_items(s@, i as int) {
            Option::None => {
            },
            Option::Some((us, k)) => {
                assert(views_of(acc@) + us =~= us);
            },
        }
    }
    loop
        invariant
            i <= p <= s@.len(),
            match scan_items(s@, p as int) {
                Option::None => (scan_items(s@, i as int) is None),
                Option::Some((us, k)) => scan_items(s@, i as int) == Some((
                    views_of(acc@) + us,
                    k,
                )),
            },
        decreases s@.len() - p,
    {
        match p_jstr(s, p) {
            None => {
                return None;
            },
            Some((u, j)) => {
                if j < s.len() && s[j] == ',' {
                    proof {
                        match scan_items(s@, j as int + 1) {
                            Option::None => {
                            },
                            Option::Some((us2, k2)) => {
                                assert(scan_items(s@, p as int) == Some((
                                    seq![u@] + us2,
                                    k2,
                                )));
                                assert(views_of(acc@.push(u)) =~= views_of(acc@).push(u@));
                                assert(views_of(acc@.push(u)) + us2 =~= views_of(acc@) + (
                                seq![u@] + us2));
                            },
                        }
                    }
                    acc.push(u);
                    p = j + 1;
                } else if j < s.len() && s[j] == ']' {
                    proof {
                        assert(scan_items(s@, p as int) == Some((seq![u@], j + 1)));
                        assert(views_of(acc@.push(u)) =~= views_of(acc@).push(u@));
                        assert(views_of(acc@.push(u)) =~= views_of(acc@) + seq![u@]);
                    }
                    acc.push(u);
                    return Some((acc, j + 1));
                } else {
                    return None;
                }
            },
        }
    }
}

fn p_list(s: &Vec<char>, i: usize) -> (r: Option<(Vec<String>, usize)>)
    requires
        i <= s@.len(),
    ensures
        match r {
            Some(t) => scan_list(s@, i as int) == Some((views_of(t.0@), t.1 as int))
                && i < t.1 <= s@.len(),
            None => (scan_list(s@, i as int) is None),
        },
{
    if i < s.len() && s[i] == '[' {
        if i + 1 < s.len() && s[i + 1] == ']' {
            let empty: Vec<String> = Vec::new();
            proof {
                assert(views_of(empty@) =~= Seq::<Seq<char>>::empty());
            }
            Some((empty, i + 2))
        } else {
            p_items(s, i + 1)
        }
    } else {
        None
    }
}

fn p_chat(s: &Vec<char>, i: usize) -> (r: Option<(ChatMessage, usize)>)
    requires
        i <= s@.len(),
    ensures
        match r {
            Some(t) => scan_chat(s@, i as int) == Some((t.0@, t.1 as int)) && i <= t.1
                <= s@.len(),
            None => (scan_chat(s@, i as int) is None),
        },
{
    let j1 = match p_lit(s, i, "{\"message\":") { Some(j) => j, None => { return None; } };
    let (msg, j2) = match p_jstr(s, j1) { Some(t) => t, None => { return None; } };
    let j3 = match p_lit(s, j2, ",\"author\":") { Some(j) => j, None => { return None; } };
    let (auth, j4) = match p_jstr(s, j3) { Some(t) => t, None => { return None; } };
    let j5 = match p_lit(s, j4, ",\"created_at\":\"") { Some(j) => j, None => { return None; } };
    let (ts, j6) = match p_ts(s, j5) { Some(t) => t, None => { return None; } };
    let j7 = match p_lit(s, j6, "\"}") { Some(j) => j, None => { return None; } };
    Some((ChatMessage { message: msg, author: auth, created_at: ts }, j7))
}

fn p_opt_chat(s: &Vec<char>, i: usize) -> (r: Option<(Option<ChatMessage>, usize)>)
    requires
        i <= s@.len(),
    ensures
        match r {
            Some(t) => (match t.0 {
                Some(m) => scan_opt_chat(s@, i as int) == Some((Some(m@), t.1 as int)),
                None => scan_opt_chat(s@, i as int) == Some((
                    Option::<ChatMsgV>::None,
                    t.1 as int,
                )),
            }) && i <= t.1 <= s@.len(),
            None => (scan_opt_chat(s@, i as int) is None),
        },
{
    if i < s.len() && s[i] == 'n' {
        match p_lit(s, i, "null") {
            Some(j) => Some((None, j)),
            None => None,
        }
    } else {
        match p_chat(s, i) {
            Some((m, j)) => Some((Some(m), j)),
            None => None,
        }
    }
}

fn p_opt_list(s: &Vec<char>, i: usize) -> (r: Option<(Option<Vec<String>>, usize)>)
    requires
        i <= s@.len(),
    ensures
        match r {
            Some(t) => (match t.0 {
                Some(ref us) => scan_opt_list(s@, i as int) == Some((
                    Some(views_of(us@)),
                    t.1 as int,
                )),
                None => scan_opt_list(s@, i as int) == Some((
                    Option::<Seq<Seq<char>>>::None,
                    t.1 as int,
                )),
            }) && i <= t.1 <= s@.len(),
            None => (scan_opt_list(s@, i as int) is None),
        },
{
    if i < s.len() && s[i] == 'n' {
        match p_lit(s, i, "null") {
            Some(j) => Some((None, j)),
            None => None,
        }
    } else {
        match p_list(s, i) {
            Some((us, j)) => Some((Some(us), j)),
            None => None,
        }
    }
}

fn p_opt_name(s: &Vec<char>, i: usize) -> (r: Option<(Option<String>, usize)>)
    requires
        i <= s@.len(),
    ensures
        match r {
            Some(t) => (match t.0 {
                Some(ref u) => scan_opt_name(s@, i as int) == Some((Some(u@), t.1 as int)),
                None => scan_opt_name(s@, i as int) == Some((
                    Option::<Seq<char>>::None,
                    t.1 as int,
                )),
            }) && i <= t.1 <= s@.len(),
            None => (scan_opt_name(s@, i as int) is None),
        },
{
    if i < s.len() && s[i] == 'n' {
        match p_lit(s, i, "null") {
            Some(j) => Some((None, j)),
            None => None,
        }
    } else {
        match p_jstr(s, i) {
            Some((u, j)) => Some((Some(u), j)),
            None => None,
        }
    }
}

/// Whether a timestamp lies in its printable ranges.
pub fn ts_ok(t: &Timestamp) -> (b: bool)
    ensures
        b == t.wf(),
{
    t.year <= 9999 && 1 <= t.month && t.month <= 12 && 1 <= t.day && t.day <= 31
        && t.hour <= 23 && t.minute <= 59 && t.second <= 59
}

/// Whether exactly the payload matching the tag is populated.
pub fn wf_check(e: &WebSocketMessage) -> (b: bool)
    ensures
        b == e@.wf(),
{
    match e.message_type {
        WebSocketMessageType::NewMessage | WebSocketMessageType::System => {
            match (&e.message, &e.users, &e.username) {
                (Some(m), None, None) => ts_ok(&m.created_at),
                _ => false,
            }
        },
        WebSocketMessageType::UserList => {
            match (&e.message, &e.users, &e.username) {
                (None, Some(_), None) => true,
                _ => false,
            }
        },
        WebSocketMessageType::UsernameChange => {
            match (&e.message, &e.users, &e.username) {
                (None, None, Some(_)) => true,
                _ => false,
            }
        },
    }
}

/// Parses one text frame as a canonical envelope; anything else is
/// reported as unparseable.
pub fn parse_envelope(raw: &str) -> (r: Option<WebSocketMessage>)
    ensures
        match r {
            Some(v) => scan_env(raw@) == Some(v@) && v@.wf(),
            None => (scan_env(raw@) is None),
        },
{
    let s = chars_of(raw);
    let i1 = match p_lit(&s, 0, "{\"message_type\":\"") { Some(j) => j, None => { return None; } };
    let (tag, i2) = match p_tag(&s, i1) { Some(t) => t, None => { return None; } };
    let i3 = match p_lit(&s, i2, "\",\"message\":") { Some(j) => j, None => { return None; } };
    let (msg, i4) = match p_opt_chat(&s, i3) { Some(t) => t, None => { return None; } };
    let i5 = match p_lit(&s, i4, ",\"users\":") { Some(j) => j, None => { return None; } };
    let (users, i6) = match p_opt_list(&s, i5) { Some(t) => t, None => { return None; } };
    let i7 = match p_lit(&s, i6, ",\"username\":") { Some(j) => j, None => { return None; } };
    let (uname, i8) = match p_opt_name(&s, i7) { Some(t) => t, None => { return None; } };
    let i9 = match p_lit(&s, i8, "}") { Some(j) => j, None => { return None; } };
    let e = WebSocketMessage { message_type: tag, message: msg, users, username: uname };
    if i9 != s.len() {
        return None;
    }
    if !wf_check(&e) {
        return None;
    }
    Some(e)
}

} // verus!
