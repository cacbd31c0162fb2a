//! History records: the JSON line written for each generated command and the
//! human-readable form the history listing prints.

use vstd::prelude::*;
use vstd::string::*;
use crate::chars::{chars_of, s_get, string_of_chars};
use crate::json::{append_json_str, append_str, escape_char, escape_spec, hex_digit, json_string_spec};

verus! {

/// One recorded exchange: when it happened, what was asked, what came back.
pub struct HistoryEntry {
    pub timestamp: String,
    pub prompt: String,
    pub command: String,
}

/// The JSON line persisted for an entry, without the trailing newline.
pub open spec fn history_line_spec(ts: Seq<char>, p: Seq<char>, c: Seq<char>) -> Seq<char> {
    "{\"timestamp\":"@ + json_string_spec(ts) + ",\"prompt\":"@ + json_string_spec(p)
        + ",\"command\":"@ + json_string_spec(c) + "}"@
}

/// The JSON line for `e`, one object with the three fields in order.
pub fn history_line(e: &HistoryEntry) -> (r: String)
    ensures
        r@ == history_line_spec(e.timestamp@, e.prompt@, e.command@),
{
    let mut out: Vec<char> = Vec::new();
    append_str(&mut out, "{\"timestamp\":");
    append_json_str(&mut out, e.timestamp.as_str());
    append_str(&mut out, ",\"prompt\":");
    append_json_str(&mut out, e.prompt.as_str());
    append_str(&mut out, ",\"command\":");
    append_json_str(&mut out, e.command.as_str());
    append_str(&mut out, "}");
    let r = string_of_chars(&out);
    proof {
        assert(r@ =~= history_line_spec(e.timestamp@, e.prompt@, e.command@));
    }
    r
}

/// How the history listing shows one entry.
pub open spec fn formatted_entry_spec(ts: Seq<char>, p: Seq<char>, c: Seq<char>) -> Seq<char> {
    ts + " -> "@ + p + "\n  "@ + c
}

/// The listing line for `e`: timestamp, arrow, prompt, then the command
/// indented on its own line.
pub fn format_history_entry(e: &HistoryEntry) -> (r: String)
    ensures
        r@ == formatted_entry_spec(e.timestamp@, e.prompt@, e.command@),
{
    let mut s = e.timestamp.clone();
    s.append(" -> ");
    s.append(e.prompt.as_str());
    s.append("\n  ");
    s.append(e.command.as_str());
    proof {
        assert(s@ =~= formatted_entry_spec(e.timestamp@, e.prompt@, e.command@));
    }
    s
}

/// The shape every rendered timestamp has, whatever the clock read: at
/// least the nineteen characters of a date and a time, all of them
/// printable ASCII, none a double quote or a backslash.
pub open spec fn is_timestamp_text(s: Seq<char>) -> bool {
    s.len() >= 19 && (forall|i: int|
        0 <= i < s.len() ==> 32 <= s[i] as int && (s[i] as int) < 127 && s[i] != '"' && s[i]
            != '\\')
}

/// Relies on chrono: the wall clock read through `SystemTime`, turned into
/// a `DateTime<Utc>` by `DateTime::from_timestamp` and rendered by
/// `DateTime::to_rfc3339`; a clock before the epoch or outside chrono's
/// range falls back to the epoch itself, so no reading panics. Whatever
/// came back, `to_rfc3339` writes a date, `T`, a time and a numeric offset
/// out of digits and ASCII separators, which is all the shape clause says.
#[verifier::external_body]
fn now_rfc3339() -> (r: String)
    ensures
        is_timestamp_text(r@),
{
    let stamp = std::time::SystemTime::now()
        .duration_since(std::time::UNIX_EPOCH)
        .ok()
        .and_then(|d| chrono::DateTime::<chrono::Utc>::from_timestamp(d.as_secs() as i64, d.subsec_nanos()))
        .unwrap_or(chrono::DateTime::<chrono::Utc>::UNIX_EPOCH);
    stamp.to_rfc3339()
}

/// An entry for the exchange that just finished, stamped with the current
/// wall-clock time: the prompt and the command verbatim, the timestamp a
/// date-and-time text whatever the clock read.
pub fn make_history_entry(prompt: String, command: String) -> (e: HistoryEntry)
    ensures
        e.prompt@ == prompt@,
        e.command@ == command@,
        is_timestamp_text(e.timestamp@),
{
    HistoryEntry { timestamp: now_rfc3339(), prompt, command }
}

/// Escape letters that stand for one character after a backslash.
pub open spec fn is_short_escape(c: char) -> bool {
    c == '"' || c == '\\' || c == 'b' || c == 't' || c == 'n' || c == 'f' || c == 'r'
}

/// The character a short escape letter stands for.
pub open spec fn short_unescape(c: char) -> char {
    if c == '"' {
        '"'
    } else if c == '\\' {
        '\\'
    } else if c == 'b' {
        '\u{8}'
    } else if c == 't' {
        '\t'
    } else if c == 'n' {
        '\n'
    } else if c == 'f' {
        '\u{c}'
    } else {
        '\r'
    }
}

/// Value of a lower-case hexadecimal digit, `-1` for any other character.
pub open spec fn hex_val(c: char) -> int {
    if c == '0' {
        0
    } else if c == '1' {
        1
    } else if c == '2' {
        2
    } else if c == '3' {
        3
    } else if c == '4' {
        4
    } else if c == '5' {
        5
    } else if c == '6' {
        6
    } else if c == '7' {
        7
    } else if c == '8' {
        8
    } else if c == '9' {
        9
    } else if c == 'a' {
        10
    } else if c == 'b' {
        11
    } else if c == 'c' {
        12
    } else if c == 'd' {
        13
    } else if c == 'e' {
        14
    } else if c == 'f' {
        15
    } else {
        -1
    }
}

/// Control codes that the writer spells `\u00` and two hex digits: the
/// controls without a one-letter short form.
pub open spec fn is_strict_u_code(n: int) -> bool {
    0 <= n && n < 32 && n != 8 && n != 9 && n != 10 && n != 12 && n != 13
}

/// A character that may stand raw inside a JSON string the writer produced.
pub open spec fn is_plain(c: char) -> bool {
    c != '"' && c != '\\' && !crate::json::is_control(c)
}

/// Reads a JSON string body up to and including its closing quote, exactly
/// as the writer of this crate spells it: the unescaped content and the
/// text after the closing quote, or `None` where the text is not of that
/// shape.
pub open spec fn take_string(s: Seq<char>) -> Option<(Seq<char>, Seq<char>)>
    decreases s.len(),
{
    if s.len() == 0 {
        None
    } else if s[0] == '"' {
        Some((Seq::<char>::empty(), s.drop_first()))
    } else if s[0] == '\\' {
        if s.len() >= 2 && is_short_escape(s[1]) {
            match take_string(s.skip(2)) {
                None => None,
                Some(cr) => Some((seq![short_unescape(s[1])] + cr.0, cr.1)),
            }
        } else if s.len() >= 6 && s[1] == 'u' && s[2] == '0' && s[3] == '0' && hex_val(s[4]) >= 0
            && hex_val(s[5]) >= 0 && is_strict_u_code(hex_val(s[4]) * 16 + hex_val(s[5])) {
            match take_string(s.skip(6)) {
                None => None,
                Some(cr) => Some(
                    (seq![(((hex_val(s[4]) * 16 + hex_val(s[5])) as u32) as char)] + cr.0, cr.1),
                ),
            }
        } else {
            None
        }
    } else if is_plain(s[0]) {
        match take_string(s.drop_first()) {
            None => None,
            Some(cr) => Some((seq![s[0]] + cr.0, cr.1)),
        }
    } else {
        None
    }
}

/// The rest of `s` after the literal prefix `pre`, or `None` where `s` does
/// not start with it.
pub open spec fn after_lit(s: Seq<char>, pre: Seq<char>) -> Option<Seq<char>> {
    if pre.len() <= s.len() && s.take(pre.len() as int) == pre {
        Some(s.skip(pre.len() as int))
    } else {
        None
    }
}

/// Reads one history line back: the three fields of the entry it is the
/// canonical serialisation of, or `None` for any other text. This is
/// narrower than a general JSON reader: a record spelled another way —
/// fields reordered, extra whitespace or members, `\uXXXX` where a short
/// escape exists — is not recognised, only the one spelling this crate
/// writes.
pub open spec fn parse_line_spec(line: Seq<char>) -> Option<(Seq<char>, Seq<char>, Seq<char>)> {
    match after_lit(line, "{\"timestamp\":"@ + seq!['"']) {
        None => None,
        Some(s1) => match take_string(s1) {
            None => None,
            Some(tsr) => match after_lit(tsr.1, ",\"prompt\":"@ + seq!['"']) {
                None => None,
                Some(s2) => match take_string(s2) {
                    None => None,
                    Some(pr) => match after_lit(pr.1, ",\"command\":"@ + seq!['"']) {
                        None => None,
                        Some(s3) => match take_string(s3) {
                            None => None,
                            Some(cr) => if cr.1 == "}"@ {
                                Some((tsr.0, pr.0, cr.0))
                            } else {
                                None
                            },
                        },
                    },
                },
            },
        },
    }
}

fn char_is_control_exec(c: char) -> (r: bool)
    ensures
        r == crate::json::is_control(c),
{
    let u: u32 = c as u32;
    u < 32
}

fn short_unescape_exec(c: char) -> (r: char)
    ensures
        r == short_unescape(c),
{
    if c == '"' {
        '"'
    } else if c == '\\' {
        '\\'
    } else if c == 'b' {
        '\u{8}'
    } else if c == 't' {
        '\t'
    } else if c == 'n' {
        '\n'
    } else if c == 'f' {
        '\u{c}'
    } else {
        '\r'
    }
}

fn hex_val_exec(c: char) -> (r: (bool, u32))
    ensures
        r.0 == (hex_val(c) >= 0),
        r.0 ==> r.1 as int == hex_val(c) && r.1 < 16,
{
    if c == '0' {
        (true, 0)
    } else if c == '1' {
        (true, 1)
    } else if c == '2' {
        (true, 2)
    } else if c == '3' {
        (true, 3)
    } else if c == '4' {
        (true, 4)
    } else if c == '5' {
        (true, 5)
    } else if c == '6' {
        (true, 6)
    } else if c == '7' {
        (true, 7)
    } else if c == '8' {
        (true, 8)
    } else if c == '9' {
        (true, 9)
    } else if c == 'a' {
        (true, 10)
    } else if c == 'b' {
        (true, 11)
    } else if c == 'c' {
        (true, 12)
    } else if c == 'd' {
        (true, 13)
    } else if c == 'e' {
        (true, 14)
    } else if c == 'f' {
        (true, 15)
    } else {
        (false, 0)
    }
}

fn char_from_low(code: u32) -> (c: char)
    requires
        code < 32,
    ensures
        c == (code as char),
{
    let b: u8 = code as u8;
    b as char
}

/// Reads one escaped JSON string starting at `i`, which must stand right
/// after the opening quote; yields the content and the index right after
/// the closing quote.
fn take_string_at(v: &Vec<char>, i: usize) -> (r: Option<(Vec<char>, usize)>)
    requires
        i <= v@.len(),
    ensures
        (match r {
            None => take_string(v@.skip(i as int)) is None,
            Some(cj) => i < cj.1 <= v@.len() && take_string(v@.skip(i as int)) == Some(
                (cj.0@, v@.skip(cj.1 as int)),
            ),
        }),
    decreases v@.len() - i,
{
    let n = v.len();
    let ghost s = v@.skip(i as int);
    if i >= n {
        return None;
    }
    assert(s[0] == v@[i as int]);
    let c0 = v[i];
    if c0 == '"' {
        assert(s.drop_first() =~= v@.skip(i + 1 as int));
        let content: Vec<char> = Vec::new();
        return Some((content, i + 1));
    }
    if c0 == '\\' {
        if i + 1 < n {
            let c1 = v[i + 1];
            assert(s[1] == c1);
            if c1 == '"' || c1 == '\\' || c1 == 'b' || c1 == 't' || c1 == 'n' || c1 == 'f'
                || c1 == 'r' {
                let ch = short_unescape_exec(c1);
                assert(s.skip(2) =~= v@.skip(i + 2 as int));
                match take_string_at(v, i + 2) {
                    None => None,
                    Some((c, j)) => {
                        let mut c = c;
                        c.insert(0, ch);
                        assert(c@ =~= seq![short_unescape(s[1])] + c@.drop_first());
                        Some((c, j))
                    },
                }
            } else if c1 == 'u' {
                if n - i > 5 {
                    let z2 = v[i + 2];
                    let z3 = v[i + 3];
                    assert(s[2] == z2 && s[3] == z3 && s[4] == v@[i + 4] && s[5] == v@[i + 5]);
                    let (h_ok, h) = hex_val_exec(v[i + 4]);
                    let (l_ok, l) = hex_val_exec(v[i + 5]);
                    if z2 == '0' && z3 == '0' && h_ok && l_ok {
                        let code = h * 16 + l;
                        if code < 32 && code != 8 && code != 9 && code != 10 && code != 12
                            && code != 13 {
                            let ch = char_from_low(code);
                            assert(s.skip(6) =~= v@.skip(i + 6 as int));
                            match take_string_at(v, i + 6) {
                                None => None,
                                Some((c, j)) => {
                                    let mut c = c;
                                    c.insert(0, ch);
                                    assert(c@ =~= seq![
                                        (((hex_val(s[4]) * 16 + hex_val(s[5])) as u32) as char),
                                    ] + c@.drop_first());
                                    Some((c, j))
                                },
                            }
                        } else {
                            None
                        }
                    } else {
                        None
                    }
                } else {
                    None
                }
            } else {
                None
            }
        } else {
            None
        }
    } else {
        if char_is_control_exec(c0) {
            assert(!is_plain(s[0]));
            return None;
        }
        assert(is_plain(s[0]));
        assert(s.drop_first() =~= v@.skip(i + 1 as int));
        match take_string_at(v, i + 1) {
            None => None,
            Some((c, j)) => {
                let mut c = c;
                c.insert(0, c0);
                assert(c@ =~= seq![s[0]] + c@.drop_first());
                Some((c, j))
            },
        }
    }
}

/// Matches the literal `lit` followed by one double quote, starting at `i`;
/// yields the index after the quote.
fn expect_quoted(v: &Vec<char>, i: usize, lit: &str) -> (r: Option<usize>)
    requires
        i <= v@.len(),
    ensures
        (match r {
            Some(j) => i <= j <= v@.len() && after_lit(v@.skip(i as int), lit@ + seq!['"'])
                == Some(v@.skip(j as int)),
            None => after_lit(v@.skip(i as int), lit@ + seq!['"']) is None,
        }),
{
    let ghost s = v@.skip(i as int);
    let ghost pre = lit@ + seq!['"'];
    let n = v.len();
    let m = lit.unicode_len();
    assert(pre.len() == m + 1);
    assert(s.len() == n - i);
    if n - i <= m {
        assert(pre.len() > s.len());
        return None;
    }
    let mut k: usize = 0;
    while k < m
        invariant
            i + m < n == v@.len(),
            m == lit@.len(),
            k <= m,
            s == v@.skip(i as int),
            pre == lit@ + seq!['"'],
            forall|y: int| 0 <= y < k ==> v@[i + y] == lit@[y],
        decreases m - k,
    {
        if v[i + k] != s_get(lit, k) {
            assert(pre.len() == m + 1 && s.len() == n - i);
            assert(s[k as int] == v@[i + k]);
            assert(s.take(pre.len() as int)[k as int] == v@[i + k]);
            assert(pre[k as int] == lit@[k as int]);
            assert(s.take(pre.len() as int) != pre);
            return None;
        }
        k = k + 1;
    }
    if v[i + m] != '"' {
        assert(pre.len() == m + 1 && s.len() == n - i);
        assert(s[m as int] == v@[i + m]);
        assert(s.take(pre.len() as int)[m as int] == v@[i + m]);
        assert(pre[m as int] == '"');
        assert(s.take(pre.len() as int) != pre);
        return None;
    }
    assert(s.take(pre.len() as int) =~= pre) by {
        assert(forall|y: int| 0 <= y < m ==> s[y] == v@[i + y]);
        assert(s[m as int] == v@[i + m]);
    }
    assert(s.skip(pre.len() as int) =~= v@.skip((i + m + 1) as int));
    Some(i + m + 1)
}

/// Reads one line of the history log back into an entry. It accepts exactly
/// the lines `history_line` writes and yields the entry they serialise;
/// any other text yields `None`. A record hand-written in another JSON
/// spelling (reordered fields, extra whitespace or members, `\uXXXX` where
/// a short escape exists) is among the rejected texts.
pub fn parse_history_line(line: &str) -> (r: Option<HistoryEntry>)
    ensures
        (match r {
            Some(e) => parse_line_spec(line@) == Some((e.timestamp@, e.prompt@, e.command@)),
            None => parse_line_spec(line@) is None,
        }),
{
    let v = chars_of(line);
    assert(v@.skip(0) =~= v@);
    let j1 = match expect_quoted(&v, 0, "{\"timestamp\":") {
        None => {
            return None;
        },
        Some(j) => j,
    };
    let (ts, j2) = match take_string_at(&v, j1) {
        None => {
            return None;
        },
        Some(cj) => cj,
    };
    let j3 = match expect_quoted(&v, j2, ",\"prompt\":") {
        None => {
            return None;
        },
        Some(j) => j,
    };
    let (p, j4) = match take_string_at(&v, j3) {
        None => {
            return None;
        },
        Some(cj) => cj,
    };
    let j5 = match expect_quoted(&v, j4, ",\"command\":") {
        None => {
            return None;
        },
        Some(j) => j,
    };
    let (c, j6) = match take_string_at(&v, j5) {
        None => {
            return None;
        },
        Some(cj) => cj,
    };
    proof {
        reveal_strlit("}");
    }
    if j6 < v.len() && j6 + 1 == v.len() && v[j6] == '}' {
        assert(v@.skip(j6 as int) =~= "}"@);
        let e = HistoryEntry {
            timestamp: string_of_chars(&ts),
            prompt: string_of_chars(&p),
            command: string_of_chars(&c),
        };
        return Some(e);
    }
    assert(v@.skip(j6 as int) != "}"@) by {
        let rest = v@.skip(j6 as int);
        if rest == "}"@ {
            assert(rest.len() == 1);
            assert(rest[0] == '}');
            assert(v@[j6 as int] == '}');
        }
    }
    None
}

/// The code point of a character is a Unicode scalar value.
proof fn lemma_char_cast_facts(c: char)
    ensures
        0 <= c as int,
        c as u32 == c as int,
{
}

/// A control code read back through `u32` yields the character it encodes.
proof fn lemma_char_from_code(c: char)
    requires
        (c as int) < 32,
    ensures
        ((c as int) as u32) as char == c,
{
    vstd::utf8::char_u32_cast(c, c as u32);
}

/// Index of the first line feed in `s`, or `-1` where there is none.
pub open spec fn find_nl(s: Seq<char>) -> int
    decreases s.len(),
{
    if s.len() == 0 {
        -1
    } else if s[0] == '\n' {
        0
    } else if find_nl(s.drop_first()) < 0 {
        -1
    } else {
        find_nl(s.drop_first()) + 1
    }
}

/// A line as the listing reads it: one carriage return before the line feed
/// is dropped.
pub open spec fn strip_cr(l: Seq<char>) -> Seq<char> {
    if l.len() > 0 && l[l.len() - 1] == '\r' {
        l.drop_last()
    } else {
        l
    }
}

/// The lines of a text, split at line feeds, as the listing walks them.
pub open spec fn lines_spec(s: Seq<char>) -> Seq<Seq<char>>
    decreases s.len(),
{
    if s.len() == 0 {
        Seq::<Seq<char>>::empty()
    } else if 0 <= find_nl(s) && find_nl(s) < s.len() {
        seq![strip_cr(s.take(find_nl(s)))] + lines_spec(s.skip(find_nl(s) + 1))
    } else {
        seq![s]
    }
}

/// What the listing prints for a sequence of lines: every line that reads
/// back as an entry, formatted, each on its own line; other lines are
/// passed over.
pub open spec fn render_lines_spec(ls: Seq<Seq<char>>) -> Seq<char>
    decreases ls.len(),
{
    if ls.len() == 0 {
        Seq::<char>::empty()
    } else {
        (match parse_line_spec(ls[0]) {
            Some(t) => formatted_entry_spec(t.0, t.1, t.2) + seq!['\n'],
            None => Seq::<char>::empty(),
        }) + render_lines_spec(ls.drop_first())
    }
}

/// The complete history listing for the text of the log file.
pub open spec fn render_history_spec(content: Seq<char>) -> Seq<char> {
    render_lines_spec(lines_spec(content))
}

/// Where the first line feed is: before it there is none, and at it there
/// is one.
proof fn lemma_find_nl_at(s: Seq<char>, k: int)
    requires
        0 <= k <= s.len(),
        forall|y: int| 0 <= y < k ==> s[y] != '\n',
        k < s.len() ==> s[k] == '\n',
    ensures
        k < s.len() ==> find_nl(s) == k,
        k == s.len() ==> find_nl(s) == -1,
    decreases k,
{
    if k == 0 {
    } else {
        assert(s[0] != '\n');
        let t = s.drop_first();
        assert(forall|y: int| 0 <= y < k - 1 ==> t[y] == s[y + 1] && t[y] != '\n');
        assert(k - 1 < t.len() ==> t[k - 1] == s[k]);
        lemma_find_nl_at(t, k - 1);
    }
}

/// The history listing for the text of a log file: each line that holds a
/// record in the crate's own spelling is shown as the listing formats it,
/// in the order the lines stand in the file; any other line — including a
/// record in a different JSON spelling — is passed over.
pub fn render_history(content: &str) -> (r: String)
    ensures
        r@ == render_history_spec(content@),
{
    let v = chars_of(content);
    let n = v.len();
    let mut out: Vec<char> = Vec::new();
    let mut i: usize = 0;
    assert(v@.skip(0) =~= v@);
    assert(out@ + render_lines_spec(lines_spec(v@)) =~= render_lines_spec(lines_spec(v@)));
    while i < n
        invariant
            n == v@.len(),
            i <= n,
            render_history_spec(v@) == out@ + render_lines_spec(lines_spec(v@.skip(i as int))),
        decreases n - i,
    {
        let ghost s = v@.skip(i as int);
        let mut j: usize = i;
        while j < n
            invariant
                i <= j <= n == v@.len(),
                forall|y: int| i <= y < j ==> v@[y] != '\n',
            ensures
                i <= j <= n,
                forall|y: int| i <= y < j ==> v@[y] != '\n',
                j < n ==> v@[j as int] == '\n',
            decreases n - j,
        {
            if v[j] == '\n' {
                break;
            }
            j = j + 1;
        }
        proof {
            assert(forall|y: int| 0 <= y < j - i ==> s[y] == v@[i + y] && s[y] != '\n');
            assert(j < n ==> s[j - i] == v@[j as int]);
            lemma_find_nl_at(s, j - i);
        }
        let end: usize = if j < n && j > i {
            if v[j - 1] == '\r' {
                j - 1
            } else {
                j
            }
        } else {
            j
        };
        let ghost line = if j < n {
            strip_cr(s.take(j - i))
        } else {
            s
        };
        proof {
            assert(s.take(j - i) =~= v@.subrange(i as int, j as int));
            if j < n {
                if j > i && v@[j - 1] == '\r' {
                    assert(s.take(j - i).drop_last() =~= v@.subrange(i as int, end as int));
                    assert(line =~= v@.subrange(i as int, end as int));
                } else {
                    assert(line =~= v@.subrange(i as int, end as int));
                }
            } else {
                assert(line =~= v@.subrange(i as int, end as int));
            }
        }
        let seg = crate::chars::string_of_range(&v, i, end);
        let ghost handled = (match parse_line_spec(line) {
            Some(t) => formatted_entry_spec(t.0, t.1, t.2) + seq!['\n'],
            None => Seq::<char>::empty(),
        });
        let ghost pre_out = out@;
        match parse_history_line(seg.as_str()) {
            Some(e) => {
                let f = format_history_entry(&e);
                append_str(&mut out, f.as_str());
                out.push('\n');
                assert(out@ =~= pre_out + handled);
            },
            None => {
                assert(out@ =~= pre_out + handled);
            },
        }
        proof {
            if j < n {
                assert(lines_spec(s) == seq![line] + lines_spec(s.skip(j - i + 1)));
                assert((seq![line] + lines_spec(s.skip(j - i + 1)))[0] == line);
                assert((seq![line] + lines_spec(s.skip(j - i + 1))).drop_first() =~= lines_spec(
                    s.skip(j - i + 1),
                ));
                assert(render_lines_spec(lines_spec(s)) == handled + render_lines_spec(
                    lines_spec(s.skip(j - i + 1)),
                ));
                assert(s.skip(j - i + 1) =~= v@.skip(j + 1 as int));
            } else {
                assert(s.len() > 0);
                assert(find_nl(s) == -1);
                assert(lines_spec(s) == seq![s]);
                assert((seq![s])[0] == s);
                assert(line == s);
                assert((seq![s]).drop_first() =~= Seq::<Seq<char>>::empty());
                assert(render_lines_spec(Seq::<Seq<char>>::empty()) == Seq::<char>::empty());
                assert(render_lines_spec(seq![s]) == handled + Seq::<char>::empty());
                assert(handled + Seq::<char>::empty() =~= handled);
                assert(render_lines_spec(lines_spec(s)) =~= handled);
                assert(v@.skip(n as int) =~= Seq::<char>::empty());
            }
        }
        i = if j < n {
            j + 1
        } else {
            n
        };
    }
    assert(v@.skip(n as int) =~= Seq::<char>::empty());
    let r = crate::chars::string_of_chars(&out);
    r
}

/// A hex digit written by the escaper reads back as its value.
proof fn lemma_hex_roundtrip(x: int)
    requires
        0 <= x < 16,
    ensures
        hex_val(hex_digit(x)) == x,
{
}

/// Characters with the same code point are the same character.
proof fn lemma_char_code_inj(a: char, b: char)
    requires
        a as int == b as int,
    ensures
        a == b,
{
    vstd::utf8::char_u32_cast(a, a as u32);
    vstd::utf8::char_u32_cast(b, b as u32);
    assert(a as u32 == b as u32);
}

/// Reading a string token undoes escaping: the escaped content, a closing
/// quote, and any rest read back as exactly that content and rest.
proof fn lemma_take_escape(content: Seq<char>, rest: Seq<char>)
    ensures
        take_string(escape_spec(content) + seq!['"'] + rest) == Some((content, rest)),
    decreases content.len(),
{
    let s = escape_spec(content) + seq!['"'] + rest;
    if content.len() == 0 {
        assert(escape_spec(content) =~= Seq::<char>::empty());
        assert(s =~= seq!['"'] + rest);
        assert(s[0] == '"');
        assert(s.drop_first() =~= rest);
        assert(content =~= Seq::<char>::empty());
    } else {
        let c = content[0];
        let tail = content.drop_first();
        let t = escape_spec(tail) + seq!['"'] + rest;
        lemma_take_escape(tail, rest);
        assert(escape_spec(content) == escape_char(c) + escape_spec(tail));
        assert(s =~= escape_char(c) + t);
        assert(seq![c] + tail =~= content);
        if c == '"' || c == '\\' || c == '\u{8}' || c == '\t' || c == '\n' || c == '\u{c}'
            || c == '\r' {
            assert(s[0] == '\\');
            assert(is_short_escape(s[1]));
            assert(short_unescape(s[1]) == c);
            assert(s.skip(2) =~= t);
            assert(take_string(s) == Some((seq![c] + tail, rest)));
        } else if crate::json::is_control(c) {
            lemma_char_cast_facts(c);
            assert((c as int) < 32);
            assert(0 <= c as int);
            let hi = c as int / 16;
            let lo = c as int % 16;
            lemma_hex_roundtrip(hi);
            lemma_hex_roundtrip(lo);
            assert(escape_char(c) == seq!['\\', 'u', '0', '0', hex_digit(hi), hex_digit(lo)]);
            assert(s[0] == '\\' && s[1] == 'u' && s[2] == '0' && s[3] == '0');
            assert(s[4] == hex_digit(hi) && s[5] == hex_digit(lo));
            assert(hex_val(s[4]) == hi && hex_val(s[5]) == lo);
            assert(hi * 16 + lo == c as int);
            assert(!is_short_escape(s[1]));
            if c as int == 8 {
                lemma_char_code_inj(c, '\u{8}');
                assert(false);
            }
            if c as int == 9 {
                lemma_char_code_inj(c, '\t');
                assert(false);
            }
            if c as int == 10 {
                lemma_char_code_inj(c, '\n');
                assert(false);
            }
            if c as int == 12 {
                lemma_char_code_inj(c, '\u{c}');
                assert(false);
            }
            if c as int == 13 {
                lemma_char_code_inj(c, '\r');
                assert(false);
            }
            assert(is_strict_u_code(hex_val(s[4]) * 16 + hex_val(s[5])));
            lemma_char_from_code(c);
            assert((((hex_val(s[4]) * 16 + hex_val(s[5])) as u32) as char) == c);
            assert(s.skip(6) =~= t);
            assert(take_string(s) == Some((seq![c] + tail, rest)));
        } else {
            assert(escape_char(c) =~= seq![c]);
            assert(s[0] == c);
            assert(s.drop_first() =~= t);
            assert(is_plain(s[0]));
            assert(take_string(s) == Some((seq![c] + tail, rest)));
        }
    }
}

/// A low code point, read as a character, keeps its value.
proof fn lemma_u32_char_roundtrip(u: u32)
    requires
        u < 32,
    ensures
        (u as char) as u32 == u,
        (u as char) as int == u as int,
{
}

/// A hex digit character is the digit of its own value.
proof fn lemma_hex_inverse(c: char)
    requires
        hex_val(c) >= 0,
    ensures
        hex_digit(hex_val(c)) == c,
{
}

/// Splitting a text at a literal it starts with recovers the text.
proof fn lemma_after_lit_sound(s: Seq<char>, pre: Seq<char>, r: Seq<char>)
    requires
        after_lit(s, pre) == Some(r),
    ensures
        s == pre + r,
{
    assert(s =~= s.take(pre.len() as int) + s.skip(pre.len() as int));
}

/// A string token reads back only from its canonical escaped form: whatever
/// parses as a string was the escape of its content, followed by the
/// closing quote and the rest.
proof fn lemma_take_sound(s: Seq<char>, content: Seq<char>, rest: Seq<char>)
    requires
        take_string(s) == Some((content, rest)),
    ensures
        s == escape_spec(content) + seq!['"'] + rest,
    decreases s.len(),
{
    if s[0] == '"' {
        assert(content =~= Seq::<char>::empty());
        assert(escape_spec(content) =~= Seq::<char>::empty());
        assert(s =~= seq!['"'] + s.drop_first());
        assert(s =~= escape_spec(content) + seq!['"'] + rest);
    } else if s[0] == '\\' {
        if s.len() >= 2 && is_short_escape(s[1]) {
            let cr = take_string(s.skip(2))->0;
            assert(content == seq![short_unescape(s[1])] + cr.0);
            assert(rest == cr.1);
            lemma_take_sound(s.skip(2), cr.0, cr.1);
            assert(escape_char(short_unescape(s[1])) =~= seq!['\\', s[1]]);
            assert(content[0] == short_unescape(s[1]));
            assert(content.drop_first() =~= cr.0);
            assert(escape_spec(content) == escape_char(content[0]) + escape_spec(
                content.drop_first(),
            ));
            assert(s =~= seq![s[0], s[1]] + s.skip(2));
            assert(s =~= escape_spec(content) + seq!['"'] + rest);
        } else {
            let h = hex_val(s[4]);
            let l = hex_val(s[5]);
            let code = h * 16 + l;
            let ch = ((code as u32) as char);
            let cr = take_string(s.skip(6))->0;
            assert(content == seq![ch] + cr.0);
            assert(rest == cr.1);
            lemma_take_sound(s.skip(6), cr.0, cr.1);
            lemma_u32_char_roundtrip(code as u32);
            assert(ch as int == code);
            lemma_hex_inverse(s[4]);
            lemma_hex_inverse(s[5]);
            assert(code / 16 == h && code % 16 == l);
            assert(crate::json::is_control(ch));
            assert(ch != '"' && ch != '\\');
            if ch == '\u{8}' {
                assert(code == 8);
                assert(false);
            }
            if ch == '\t' {
                assert(code == 9);
                assert(false);
            }
            if ch == '\n' {
                assert(code == 10);
                assert(false);
            }
            if ch == '\u{c}' {
                assert(code == 12);
                assert(false);
            }
            if ch == '\r' {
                assert(code == 13);
                assert(false);
            }
            assert(escape_char(ch) =~= seq!['\\', 'u', '0', '0', s[4], s[5]]);
            assert(content[0] == ch);
            assert(content.drop_first() =~= cr.0);
            assert(escape_spec(content) == escape_char(content[0]) + escape_spec(
                content.drop_first(),
            ));
            assert(s =~= seq![s[0], s[1], s[2], s[3], s[4], s[5]] + s.skip(6));
            assert(s =~= escape_spec(content) + seq!['"'] + rest);
        }
    } else {
        let cr = take_string(s.drop_first())->0;
        assert(content == seq![s[0]] + cr.0);
        assert(rest == cr.1);
        lemma_take_sound(s.drop_first(), cr.0, cr.1);
        assert(is_plain(s[0]));
        assert(escape_char(s[0]) =~= seq![s[0]]);
        assert(content[0] == s[0]);
        assert(content.drop_first() =~= cr.0);
        assert(escape_spec(content) == escape_char(content[0]) + escape_spec(
            content.drop_first(),
        ));
        assert(s =~= seq![s[0]] + s.drop_first());
        assert(s =~= escape_spec(content) + seq!['"'] + rest);
    }
}

/// A line parses only as the entry it canonically serialises: whatever the
/// reader accepts is exactly what the writer would have written for that
/// entry, so distinct entries never share a line.
pub proof fn lemma_parse_line_sound(line: Seq<char>, t: (Seq<char>, Seq<char>, Seq<char>))
    requires
        parse_line_spec(line) == Some(t),
    ensures
        line == history_line_spec(t.0, t.1, t.2),
{
    let pre1 = "{\"timestamp\":"@ + seq!['"'];
    let pre2 = ",\"prompt\":"@ + seq!['"'];
    let pre3 = ",\"command\":"@ + seq!['"'];
    let s1 = after_lit(line, pre1)->0;
    lemma_after_lit_sound(line, pre1, s1);
    let tsr = take_string(s1)->0;
    lemma_take_sound(s1, tsr.0, tsr.1);
    let s2 = after_lit(tsr.1, pre2)->0;
    lemma_after_lit_sound(tsr.1, pre2, s2);
    let pr = take_string(s2)->0;
    lemma_take_sound(s2, pr.0, pr.1);
    let s3 = after_lit(pr.1, pre3)->0;
    lemma_after_lit_sound(pr.1, pre3, s3);
    let cr = take_string(s3)->0;
    lemma_take_sound(s3, cr.0, cr.1);
    assert(cr.1 == "}"@);
    assert(t == (tsr.0, pr.0, cr.0));
    assert(line =~= history_line_spec(t.0, t.1, t.2));
}

/// A text that starts with a literal continues after it.
proof fn lemma_after_lit_concat(pre: Seq<char>, rest: Seq<char>)
    ensures
        after_lit(pre + rest, pre) == Some(rest),
{
    assert((pre + rest).take(pre.len() as int) =~= pre);
    assert((pre + rest).skip(pre.len() as int) =~= rest);
}

/// Round trip of the history log: the line written for an entry reads back
/// as exactly that entry's fields, so replaying a log reproduces every
/// prompt and command as they were appended.
pub proof fn lemma_history_round_trip(ts: Seq<char>, p: Seq<char>, c: Seq<char>)
    ensures
        parse_line_spec(history_line_spec(ts, p, c)) == Some((ts, p, c)),
{
    let line = history_line_spec(ts, p, c);
    let pre1 = "{\"timestamp\":"@ + seq!['"'];
    let pre2 = ",\"prompt\":"@ + seq!['"'];
    let pre3 = ",\"command\":"@ + seq!['"'];
    let rest3 = "}"@;
    let s3 = escape_spec(c) + seq!['"'] + rest3;
    let r2 = pre3 + s3;
    let s2 = escape_spec(p) + seq!['"'] + r2;
    let r1 = pre2 + s2;
    let s1 = escape_spec(ts) + seq!['"'] + r1;
    assert(line =~= pre1 + s1);
    lemma_after_lit_concat(pre1, s1);
    lemma_take_escape(ts, r1);
    lemma_after_lit_concat(pre2, s2);
    lemma_take_escape(p, r2);
    lemma_after_lit_concat(pre3, s3);
    lemma_take_escape(c, rest3);
}

/// The escaper never writes a raw line feed.
proof fn lemma_escape_no_nl(s: Seq<char>)
    ensures
        forall|y: int| 0 <= y < escape_spec(s).len() ==> escape_spec(s)[y] != '\n',
    decreases s.len(),
{
    if s.len() == 0 {
    } else {
        let c = s[0];
        lemma_escape_no_nl(s.drop_first());
        assert(forall|y: int|
            0 <= y < escape_char(c).len() ==> escape_char(c)[y] != '\n') by {
            assert(forall|x: int| hex_digit(x) != '\n');
        }
        assert(escape_spec(s) == escape_char(c) + escape_spec(s.drop_first()));
    }
}

/// A history line never holds a raw line feed, so one line of the log holds
/// exactly one record.
proof fn lemma_history_line_no_nl(ts: Seq<char>, p: Seq<char>, c: Seq<char>)
    ensures
        forall|y: int|
            0 <= y < history_line_spec(ts, p, c).len() ==> history_line_spec(ts, p, c)[y]
                != '\n',
{
    reveal_strlit("{\"timestamp\":");
    reveal_strlit(",\"prompt\":");
    reveal_strlit(",\"command\":");
    reveal_strlit("}");
    lemma_escape_no_nl(ts);
    lemma_escape_no_nl(p);
    lemma_escape_no_nl(c);
    let line = history_line_spec(ts, p, c);
    assert forall|y: int| 0 <= y < line.len() implies line[y] != '\n' by {
        assert(forall|z: int|
            0 <= z < "{\"timestamp\":"@.len() ==> "{\"timestamp\":"@[z] != '\n');
        assert(forall|z: int| 0 <= z < ",\"prompt\":"@.len() ==> ",\"prompt\":"@[z] != '\n');
        assert(forall|z: int|
            0 <= z < ",\"command\":"@.len() ==> ",\"command\":"@[z] != '\n');
        assert("}"@[0] == '}');
        assert(forall|z: int|
            0 <= z < json_string_spec(ts).len() ==> json_string_spec(ts)[z] != '\n');
        assert(forall|z: int|
            0 <= z < json_string_spec(p).len() ==> json_string_spec(p)[z] != '\n');
        assert(forall|z: int|
            0 <= z < json_string_spec(c).len() ==> json_string_spec(c)[z] != '\n');
    }
}

/// The text of a log file holding these entries, one line each, oldest
/// first.
pub open spec fn history_file_spec(entries: Seq<(Seq<char>, Seq<char>, Seq<char>)>) -> Seq<char>
    decreases entries.len(),
{
    if entries.len() == 0 {
        Seq::<char>::empty()
    } else {
        history_line_spec(entries[0].0, entries[0].1, entries[0].2) + seq!['\n']
            + history_file_spec(entries.drop_first())
    }
}

/// The listing owed for these entries: each formatted on its own line, in
/// the same order.
pub open spec fn history_listing_spec(entries: Seq<(Seq<char>, Seq<char>, Seq<char>)>) -> Seq<
    char,
>
    decreases entries.len(),
{
    if entries.len() == 0 {
        Seq::<char>::empty()
    } else {
        formatted_entry_spec(entries[0].0, entries[0].1, entries[0].2) + seq!['\n']
            + history_listing_spec(entries.drop_first())
    }
}

/// Round trip of the whole log: rendering a file that holds any sequence of
/// entries reproduces every entry's fields, in append order.
pub proof fn lemma_history_listing_round_trip(entries: Seq<(Seq<char>, Seq<char>, Seq<char>)>)
    ensures
        render_history_spec(history_file_spec(entries)) == history_listing_spec(entries),
    decreases entries.len(),
{
    if entries.len() == 0 {
        assert(lines_spec(Seq::<char>::empty()) == Seq::<Seq<char>>::empty());
    } else {
        let t = entries[0];
        let line = history_line_spec(t.0, t.1, t.2);
        let rest = history_file_spec(entries.drop_first());
        let file = line + seq!['\n'] + rest;
        assert(file.len() == line.len() + 1 + rest.len());
        lemma_history_line_no_nl(t.0, t.1, t.2);
        assert(forall|y: int| 0 <= y < line.len() ==> file[y] == line[y]);
        assert(file[line.len() as int] == '\n');
        lemma_find_nl_at(file, line.len() as int);
        assert(find_nl(file) == line.len());
        assert(file.take(line.len() as int) =~= line);
        reveal_strlit("}");
        assert(line.len() > 0 && line[line.len() - 1] == '}');
        assert(strip_cr(line) == line);
        assert(file.skip((line.len() + 1) as int) =~= rest);
        assert(lines_spec(file) == seq![line] + lines_spec(rest));
        assert((seq![line] + lines_spec(rest))[0] == line);
        assert((seq![line] + lines_spec(rest)).drop_first() =~= lines_spec(rest));
        lemma_history_round_trip(t.0, t.1, t.2);
        assert(parse_line_spec(line) == Some((t.0, t.1, t.2)));
        lemma_history_listing_round_trip(entries.drop_first());
        assert(render_lines_spec(lines_spec(file)) == (formatted_entry_spec(t.0, t.1, t.2)
            + seq!['\n']) + render_lines_spec(lines_spec(rest)));
        assert(render_history_spec(file) =~= history_listing_spec(entries));
    }
}

} // verus!
