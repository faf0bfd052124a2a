//! Turning the lines a model connector prints into stream events.
//!
//! Each stdout line goes through four rules, the first that matches wins:
//! a tagged JSON event record; a JSON object whose `usage` member reports
//! `prompt_tokens` / `completion_tokens`; a loose scan for token counts in a
//! line that mentions "tokens"; otherwise the line itself as content, unless
//! it is blank or echoes a command (starts with `/`).

use vstd::prelude::*;
use crate::connector_types::{ConnectorMessage, EventView};
use crate::text::text_is;

verus! {

/// The text of member `key` of the JSON object written in `line`, when
/// `line` parses as JSON and that member is a string.
pub uninterp spec fn json_text_member(line: Seq<char>, key: Seq<char>) -> Option<Seq<char>>;

/// The value of member `key` of the JSON object written in `line`, when
/// `line` parses as JSON and that member is an integer in `u64`.
pub uninterp spec fn json_u64_member(line: Seq<char>, key: Seq<char>) -> Option<u64>;

/// The value of member `inner` of member `outer` of the JSON object written
/// in `line`, when that is an integer in `u64`.
pub uninterp spec fn json_nested_u64(line: Seq<char>, outer: Seq<char>, inner: Seq<char>) -> Option<u64>;

/// Relies on serde_json::from_str into serde_json::Value, Value::get and
/// Value::as_str: reads a string member of a JSON object.
#[verifier::external_body]
fn json_str_at(line: &str, key: &str) -> (r: Option<String>)
    ensures
        match r {
            Some(s) => json_text_member(line@, key@) == Some(s@),
            None => json_text_member(line@, key@) is None,
        },
{
    let v: serde_json::Value = match serde_json::from_str(line) {
        Ok(v) => v,
        Err(_) => return None,
    };
    match v.get(key).and_then(serde_json::Value::as_str) {
        Some(s) => Some(s.to_string()),
        None => None,
    }
}

/// Relies on serde_json::from_str into serde_json::Value, Value::get and
/// Value::as_u64: reads an unsigned integer member of a JSON object.
#[verifier::external_body]
fn json_u64_at(line: &str, key: &str) -> (r: Option<u64>)
    ensures
        r == json_u64_member(line@, key@),
{
    let v: serde_json::Value = match serde_json::from_str(line) {
        Ok(v) => v,
        Err(_) => return None,
    };
    v.get(key).and_then(serde_json::Value::as_u64)
}

/// Relies on serde_json::from_str into serde_json::Value, Value::get and
/// Value::as_u64: reads an unsigned integer member of a member object.
#[verifier::external_body]
fn json_nested_u64_at(line: &str, outer: &str, inner: &str) -> (r: Option<u64>)
    ensures
        r == json_nested_u64(line@, outer@, inner@),
{
    let v: serde_json::Value = match serde_json::from_str(line) {
        Ok(v) => v,
        Err(_) => return None,
    };
    match v.get(outer) {
        Some(o) => o.get(inner).and_then(serde_json::Value::as_u64),
        None => None,
    }
}

/// The event a tagged JSON record in `line` describes: member `type` names
/// the variant (`content`, `tool_call`, `error`, `usage`, `done`) and the
/// other members give its fields.
pub open spec fn json_event(line: Seq<char>) -> Option<EventView> {
    match json_text_member(line, "type"@) {
        Some(t) => if t == "content"@ {
            match json_text_member(line, "content"@) {
                Some(c) => Some(EventView::Content(c)),
                None => None,
            }
        } else if t == "tool_call"@ {
            match (json_text_member(line, "name"@), json_text_member(line, "args"@)) {
                (Some(n), Some(a)) => Some(EventView::ToolCall(n, a)),
                _ => None,
            }
        } else if t == "error"@ {
            match json_text_member(line, "message"@) {
                Some(m) => Some(EventView::Error(m)),
                None => None,
            }
        } else if t == "usage"@ {
            match (json_u64_member(line, "input_tokens"@), json_u64_member(line, "output_tokens"@)) {
                (Some(i), Some(o)) => Some(EventView::Usage(i, o)),
                _ => None,
            }
        } else if t == "done"@ {
            Some(EventView::Done)
        } else {
            None
        },
        None => None,
    }
}

/// Usage reported by a `usage` object in `line`: `prompt_tokens` and
/// `completion_tokens` (a missing one counts as zero), when one of them is
/// present and one is non-zero.
pub open spec fn usage_object(line: Seq<char>) -> Option<EventView> {
    let p = json_nested_u64(line, "usage"@, "prompt_tokens"@);
    let c = json_nested_u64(line, "usage"@, "completion_tokens"@);
    let pv: u64 = match p { Some(x) => x, None => 0 };
    let cv: u64 = match c { Some(x) => x, None => 0 };
    if (p is Some || c is Some) && (pv > 0 || cv > 0) {
        Some(EventView::Usage(pv, cv))
    } else {
        None
    }
}

/// `c` separates words in a loose usage scan.
pub open spec fn is_sep(c: char) -> bool {
    c == ',' || c == ' ' || c == ':'
}

/// The words of `s`, continuing the word `cur` already begun.
pub open spec fn words_from(s: Seq<char>, cur: Seq<char>) -> Seq<Seq<char>>
    decreases s.len(),
{
    if s.len() == 0 {
        if cur.len() > 0 {
            seq![cur]
        } else {
            Seq::empty()
        }
    } else if is_sep(s[0]) {
        (if cur.len() > 0 {
            seq![cur]
        } else {
            Seq::<Seq<char>>::empty()
        }) + words_from(s.drop_first(), Seq::empty())
    } else {
        words_from(s.drop_first(), cur.push(s[0]))
    }
}

/// The non-empty runs of `s` between separators.
pub open spec fn words(s: Seq<char>) -> Seq<Seq<char>> {
    words_from(s, Seq::empty())
}

/// `p` occurs in `s`.
pub open spec fn has_infix(s: Seq<char>, p: Seq<char>) -> bool {
    exists|i: int| 0 <= i && i + p.len() <= s.len() && #[trigger] s.subrange(i, i + p.len()) == p
}

/// `c` is a decimal digit.
pub open spec fn is_digit(c: char) -> bool {
    '0' <= c && c <= '9'
}

/// Value of the decimal digits `s`.
pub open spec fn digits_value(s: Seq<char>) -> nat
    decreases s.len(),
{
    if s.len() == 0 {
        0
    } else {
        digits_value(s.drop_last()) * 10 + (s.last() as nat - '0' as nat) as nat
    }
}

/// The number `w` writes: one or more decimal digits, within `u64`.
pub open spec fn number(w: Seq<char>) -> Option<u64> {
    if w.len() > 0 && (forall|i: int| 0 <= i < w.len() ==> is_digit(#[trigger] w[i]))
        && digits_value(w) <= u64::MAX {
        Some(digits_value(w) as u64)
    } else {
        None
    }
}

/// A word that announces an input count.
pub open spec fn is_input_word(w: Seq<char>) -> bool {
    has_infix(w, "input"@) || has_infix(w, "prompt"@)
}

/// A word that announces an output count.
pub open spec fn is_output_word(w: Seq<char>) -> bool {
    has_infix(w, "output"@) || has_infix(w, "completion"@)
}

/// The counts a loose scan of the words `ws` finds, starting from `(i, o)`:
/// a word that announces a count takes the number that the next word
/// writes, if it writes one.
pub open spec fn scan_counts(ws: Seq<Seq<char>>, i: u64, o: u64) -> (u64, u64)
    decreases ws.len(),
{
    if ws.len() == 0 {
        (i, o)
    } else {
        let next = if ws.len() > 1 {
            number(ws[1])
        } else {
            None
        };
        let (i2, o2) = if is_input_word(ws[0]) {
            (
                match next {
                    Some(n) => n,
                    None => i,
                },
                o,
            )
        } else if is_output_word(ws[0]) {
            (
                i,
                match next {
                    Some(n) => n,
                    None => o,
                },
            )
        } else {
            (i, o)
        };
        scan_counts(ws.drop_first(), i2, o2)
    }
}

/// Usage found by a loose scan of `line`, when a count is non-zero.
pub open spec fn loose_usage(line: Seq<char>) -> Option<EventView> {
    let (i, o) = scan_counts(words(line), 0, 0);
    if i > 0 || o > 0 {
        Some(EventView::Usage(i, o))
    } else {
        None
    }
}

/// `c` is white space, as `char::is_whitespace` defines it.
pub open spec fn is_space(c: char) -> bool {
    ('\u{9}' <= c && c <= '\u{d}') || c == ' ' || c == '\u{85}' || c == '\u{a0}' || c == '\u{1680}'
        || ('\u{2000}' <= c && c <= '\u{200a}') || c == '\u{2028}' || c == '\u{2029}' || c
        == '\u{202f}' || c == '\u{205f}' || c == '\u{3000}'
}

/// `line` has a character that is not white space.
pub open spec fn has_text(line: Seq<char>) -> bool {
    exists|i: int| 0 <= i < line.len() && !is_space(#[trigger] line[i])
}

/// The event a stdout line yields, if any; see the module documentation.
pub open spec fn line_event(line: Seq<char>) -> Option<EventView> {
    if json_event(line) is Some {
        json_event(line)
    } else if usage_object(line) is Some {
        usage_object(line)
    } else if has_infix(line, "tokens"@) && loose_usage(line) is Some {
        loose_usage(line)
    } else if has_text(line) && line[0] != '/' {
        Some(EventView::Content(line))
    } else {
        None
    }
}

} // verus!

verus! {

/// The event an optional message stands for.
pub open spec fn event_of(m: Option<ConnectorMessage>) -> Option<EventView> {
    match m {
        Some(x) => Some(x@),
        None => None,
    }
}

/// The characters of `s`.
pub fn chars_of(s: &str) -> (r: Vec<char>)
    ensures
        r@ == s@,
{
    let n = s.unicode_len();
    let mut r: Vec<char> = Vec::new();
    let mut i: usize = 0;
    while i < n
        invariant
            n == s@.len(),
            i <= n,
            r@ == s@.subrange(0, i as int),
        decreases n - i,
    {
        r.push(s.get_char(i));
        i = i + 1;
        assert(r@ =~= s@.subrange(0, i as int));
    }
    assert(s@.subrange(0, n as int) =~= s@);
    r
}

/// Whether `p` occurs in `s`.
pub fn contains_chars(s: &Vec<char>, p: &Vec<char>) -> (r: bool)
    ensures
        r == has_infix(s@, p@),
{
    if p.len() > s.len() {
        proof {
            assert forall|i: int| 0 <= i && i + p@.len() <= s@.len() implies #[trigger] s@.subrange(
                i,
                i + p@.len(),
            ) != p@ by {}
        }
        return false;
    }
    if p.len() == 0 {
        proof {
            assert(s@.subrange(0, 0 + p@.len() as int) =~= p@);
        }
        return true;
    }
    let n = s.len();
    let last = s.len() - p.len();
    let mut i: usize = 0;
    while i <= last
        invariant
            n == s@.len(),
            p@.len() >= 1,
            last == s@.len() - p@.len(),
            i <= last + 1,
            forall|k: int| 0 <= k < i ==> #[trigger] s@.subrange(k, k + p@.len()) != p@,
        decreases last + 1 - i,
    {
        let mut j: usize = 0;
        let mut same = true;
        while j < p.len()
            invariant
                n == s@.len(),
                i <= last,
                last == s@.len() - p@.len(),
                j <= p@.len(),
                same == forall|t: int| 0 <= t < j ==> s@[i + t] == p@[t],
            decreases p@.len() - j,
        {
            if s[i + j] != p[j] {
                same = false;
            }
            j = j + 1;
        }
        if same {
            proof {
                assert(s@.subrange(i as int, i + p@.len()) =~= p@);
            }
            return true;
        }
        proof {
            let t = choose|t: int| 0 <= t < p@.len() && s@[i + t] != p@[t];
            assert(s@.subrange(i as int, i + p@.len())[t] != p@[t]);
        }
        i = i + 1;
    }
    false
}

/// The words of `s`; see `words`.
pub fn split_words(s: &Vec<char>) -> (r: Vec<Vec<char>>)
    ensures
        r@.map_values(|w: Vec<char>| w@) == words(s@),
{
    let mut out: Vec<Vec<char>> = Vec::new();
    let mut cur: Vec<char> = Vec::new();
    let mut i: usize = 0;
    proof {
        assert(s@.subrange(0, s@.len() as int) =~= s@);
        assert(cur@ =~= Seq::<char>::empty());
        assert(out@.map_values(|w: Vec<char>| w@) + words(s@) =~= words(s@));
    }
    while i < s.len()
        invariant
            i <= s@.len(),
            out@.map_values(|w: Vec<char>| w@) + words_from(s@.subrange(i as int, s@.len() as int), cur@)
                == words(s@),
        decreases s@.len() - i,
    {
        let ghost rest = s@.subrange(i as int, s@.len() as int);
        let ghost before = out@.map_values(|w: Vec<char>| w@);
        proof {
            assert(rest.drop_first() =~= s@.subrange(i + 1, s@.len() as int));
            assert(rest[0] == s@[i as int]);
        }
        let c = s[i];
        if c == ',' || c == ' ' || c == ':' {
            if cur.len() > 0 {
                let ghost w = cur@;
                out.push(cur);
                proof {
                    assert(out@.map_values(|w: Vec<char>| w@) =~= before.push(w));
                    assert(before + (seq![w] + words_from(rest.drop_first(), Seq::empty())) =~= before.push(w)
                        + words_from(rest.drop_first(), Seq::empty()));
                }
            } else {
                proof {
                    assert(Seq::<Seq<char>>::empty() + words_from(rest.drop_first(), Seq::empty())
                        =~= words_from(rest.drop_first(), Seq::empty()));
                }
            }
            cur = Vec::new();
            proof {
                assert(cur@ =~= Seq::<char>::empty());
            }
        } else {
            cur.push(c);
        }
        i = i + 1;
    }
    proof {
        let before = out@.map_values(|w: Vec<char>| w@);
        assert(s@.subrange(i as int, s@.len() as int) =~= Seq::<char>::empty());
    }
    if cur.len() > 0 {
        let ghost before = out@.map_values(|w: Vec<char>| w@);
        let ghost w = cur@;
        out.push(cur);
        proof {
            assert(out@.map_values(|w: Vec<char>| w@) =~= before.push(w));
            assert(before + seq![w] =~= before.push(w));
        }
    } else {
        proof {
            let before = out@.map_values(|w: Vec<char>| w@);
            assert(before + Seq::<Seq<char>>::empty() =~= before);
        }
    }
    out
}

/// The value of a longer run of characters is at least that of its prefix.
pub proof fn lemma_digits_value_prefix(s: Seq<char>, k: int)
    requires
        0 <= k <= s.len(),
    ensures
        digits_value(s.subrange(0, k)) <= digits_value(s),
    decreases s.len(),
{
    if k < s.len() {
        lemma_digits_value_prefix(s.drop_last(), k);
        assert(s.drop_last().subrange(0, k) =~= s.subrange(0, k));
    } else {
        assert(s.subrange(0, k) =~= s);
    }
}

/// The number `w` writes; see `number`.
pub fn parse_number(w: &Vec<char>) -> (r: Option<u64>)
    ensures
        r == number(w@),
{
    if w.len() == 0 {
        return None;
    }
    let mut v: u64 = 0;
    let mut i: usize = 0;
    while i < w.len()
        invariant
            i <= w@.len(),
            forall|t: int| 0 <= t < i ==> is_digit(#[trigger] w@[t]),
            v as nat == digits_value(w@.subrange(0, i as int)),
        decreases w@.len() - i,
    {
        let c = w[i];
        proof {
            assert(w@.subrange(0, i + 1).drop_last() =~= w@.subrange(0, i as int));
        }
        if !('0' <= c && c <= '9') {
            proof {
                assert(!is_digit(w@[i as int]));
            }
            return None;
        }
        let d = (c as u32 - '0' as u32) as u64;
        if v > (u64::MAX - d) / 10 {
            proof {
                lemma_digits_value_prefix(w@, i + 1);
            }
            return None;
        }
        v = v * 10 + d;
        i = i + 1;
    }
    proof {
        assert(w@.subrange(0, i as int) =~= w@);
    }
    Some(v)
}

/// Whether the word announces an input count.
fn input_word(w: &Vec<char>) -> (r: bool)
    ensures
        r == is_input_word(w@),
{
    proof {
        reveal_strlit("input");
        reveal_strlit("prompt");
    }
    contains_chars(w, &chars_of("input")) || contains_chars(w, &chars_of("prompt"))
}

/// Whether the word announces an output count.
fn output_word(w: &Vec<char>) -> (r: bool)
    ensures
        r == is_output_word(w@),
{
    contains_chars(w, &chars_of("output")) || contains_chars(w, &chars_of("completion"))
}

/// Usage found by a loose scan of `line`; see `loose_usage`.
pub fn scan_usage(line: &str) -> (r: Option<ConnectorMessage>)
    ensures
        event_of(r) == loose_usage(line@),
{
    let chars = chars_of(line);
    let ws = split_words(&chars);
    let ghost wv = ws@.map_values(|w: Vec<char>| w@);
    let mut input: u64 = 0;
    let mut output: u64 = 0;
    let mut k: usize = 0;
    proof {
        assert(wv.subrange(0, wv.len() as int) =~= wv);
    }
    while k < ws.len()
        invariant
            k <= ws@.len(),
            wv == ws@.map_values(|w: Vec<char>| w@),
            scan_counts(wv.subrange(k as int, wv.len() as int), input, output) == scan_counts(wv, 0, 0),
        decreases ws@.len() - k,
    {
        let ghost rest = wv.subrange(k as int, wv.len() as int);
        proof {
            assert(rest.drop_first() =~= wv.subrange(k + 1, wv.len() as int));
            assert(rest[0] == ws@[k as int]@);
            if rest.len() > 1 {
                assert(rest[1] == ws@[k + 1]@);
            }
        }
        let next = if k + 1 < ws.len() {
            parse_number(&ws[k + 1])
        } else {
            None
        };
        if input_word(&ws[k]) {
            if let Some(n) = next {
                input = n;
            }
        } else if output_word(&ws[k]) {
            if let Some(n) = next {
                output = n;
            }
        }
        k = k + 1;
    }
    if input > 0 || output > 0 {
        Some(ConnectorMessage::Usage { input_tokens: input, output_tokens: output })
    } else {
        None
    }
}

} // verus!

verus! {

/// The event a tagged JSON record in `line` describes; see `json_event`.
pub fn parse_json_event(line: &str) -> (r: Option<ConnectorMessage>)
    ensures
        event_of(r) == json_event(line@),
{
    let tag = match json_str_at(line, "type") {
        Some(t) => t,
        None => {
            return None;
        },
    };
    if text_is(&tag, "content") {
        match json_str_at(line, "content") {
            Some(c) => Some(ConnectorMessage::Content { content: c }),
            None => None,
        }
    } else if text_is(&tag, "tool_call") {
        match (json_str_at(line, "name"), json_str_at(line, "args")) {
            (Some(n), Some(a)) => Some(ConnectorMessage::ToolCall { name: n, args: a }),
            _ => None,
        }
    } else if text_is(&tag, "error") {
        match json_str_at(line, "message") {
            Some(m) => Some(ConnectorMessage::Error { message: m }),
            None => None,
        }
    } else if text_is(&tag, "usage") {
        match (json_u64_at(line, "input_tokens"), json_u64_at(line, "output_tokens")) {
            (Some(i), Some(o)) => Some(ConnectorMessage::Usage { input_tokens: i, output_tokens: o }),
            _ => None,
        }
    } else if text_is(&tag, "done") {
        Some(ConnectorMessage::Done)
    } else {
        None
    }
}

/// Usage reported by a `usage` object in `line`; see `usage_object`.
pub fn parse_usage_object(line: &str) -> (r: Option<ConnectorMessage>)
    ensures
        event_of(r) == usage_object(line@),
{
    let p = json_nested_u64_at(line, "usage", "prompt_tokens");
    let c = json_nested_u64_at(line, "usage", "completion_tokens");
    let pv: u64 = match p {
        Some(x) => x,
        None => 0,
    };
    let cv: u64 = match c {
        Some(x) => x,
        None => 0,
    };
    if (p.is_some() || c.is_some()) && (pv > 0 || cv > 0) {
        Some(ConnectorMessage::Usage { input_tokens: pv, output_tokens: cv })
    } else {
        None
    }
}

/// Whether `c` is white space; see `is_space`.
fn space_char(c: char) -> (r: bool)
    ensures
        r == is_space(c),
{
    ('\u{9}' <= c && c <= '\u{d}') || c == ' ' || c == '\u{85}' || c == '\u{a0}' || c == '\u{1680}'
        || ('\u{2000}' <= c && c <= '\u{200a}') || c == '\u{2028}' || c == '\u{2029}' || c
        == '\u{202f}' || c == '\u{205f}' || c == '\u{3000}'
}

/// The event one stdout line yields, if any; see `line_event`.
pub fn parse_output_line(line: &str) -> (r: Option<ConnectorMessage>)
    ensures
        event_of(r) == line_event(line@),
{
    let structured = parse_json_event(line);
    if structured.is_some() {
        return structured;
    }
    let usage = parse_usage_object(line);
    if usage.is_some() {
        return usage;
    }
    let chars = chars_of(line);
    proof {
        reveal_strlit("tokens");
    }
    if contains_chars(&chars, &chars_of("tokens")) {
        let loose = scan_usage(line);
        if loose.is_some() {
            return loose;
        }
    }
    let mut i: usize = 0;
    let mut text = false;
    while i < chars.len()
        invariant
            i <= chars@.len(),
            text == exists|t: int| 0 <= t < i && !is_space(#[trigger] chars@[t]),
        decreases chars@.len() - i,
    {
        if !space_char(chars[i]) {
            text = true;
        }
        i = i + 1;
    }
    if text && chars[0] != '/' {
        Some(ConnectorMessage::Content { content: String::from_str(line) })
    } else {
        None
    }
}

/// The events of a finished run's stdout: each line's event, in order, then
/// `Done`.
pub fn parse_output(lines: &Vec<String>) -> (r: Vec<ConnectorMessage>)
    ensures
        r@.len() >= 1,
        r@.last()@ == EventView::Done,
        r@.drop_last().map_values(|m: ConnectorMessage| m@) == lines@.map_values(
            |l: String| l@,
        ).filter_map(|l: Seq<char>| line_event(l)),
{
    let mut r: Vec<ConnectorMessage> = Vec::new();
    let mut i: usize = 0;
    while i < lines.len()
        invariant
            i <= lines@.len(),
            r@.map_values(|m: ConnectorMessage| m@) == lines@.subrange(0, i as int).map_values(
                |l: String| l@,
            ).filter_map(|l: Seq<char>| line_event(l)),
        decreases lines@.len() - i,
    {
        let ghost before = r@;
        let e = parse_output_line(lines[i].as_str());
        proof {
            let ls = lines@.subrange(0, i + 1).map_values(|l: String| l@);
            assert(ls.drop_last() =~= lines@.subrange(0, i as int).map_values(|l: String| l@));
            assert(ls.last() == lines@[i as int]@);
            reveal(Seq::filter_map);
        }
        match e {
            Some(m) => {
                r.push(m);
                proof {
                    assert(r@.map_values(|m: ConnectorMessage| m@) =~= before.map_values(
                        |m: ConnectorMessage| m@,
                    ).push(m@));
                }
            },
            None => {},
        }
        i = i + 1;
    }
    proof {
        assert(lines@.subrange(0, i as int) =~= lines@);
    }
    let ghost body = r@;
    r.push(ConnectorMessage::Done);
    proof {
        assert(r@.drop_last() =~= body);
    }
    r
}

} // verus!
