use vstd::prelude::*;

verus! {

// ---------------------------------------------------------------------------
// Decoding of the two request bodies the service accepts:
//   {"task": <string>}                                   for creation
//   {"todo": {"task": <string>, "completed": <bool>}}    for an update
// (the two inner fields may also come in the other order). A body that does
// not match is rejected. Inside strings the escapes \" \\ \/ \b \f \n \r \t
// are understood, and \uXXXX for a scalar value outside the surrogate range
// (surrogate pairs are not joined); unescaped control characters are refused.
// ---------------------------------------------------------------------------

/// JSON whitespace.
pub open spec fn is_ws(c: char) -> bool {
    c == ' ' || c == '\n' || c == '\t' || c == '\r'
}

/// The first position at or after `i` that does not hold whitespace.
pub open spec fn skip_ws(s: Seq<char>, i: int) -> int
    decreases s.len() - i,
{
    if 0 <= i < s.len() && is_ws(s[i]) {
        skip_ws(s, i + 1)
    } else {
        i
    }
}

/// The characters of `pat` stand in `s` at position `i`.
pub open spec fn has_at(s: Seq<char>, i: int, pat: Seq<char>) -> bool {
    0 <= i && i + pat.len() <= s.len() && s.subrange(i, i + pat.len()) == pat
}

/// The character a short escape stands for, if the escape is understood.
pub open spec fn unescape(c: char) -> Option<char> {
    if c == '"' {
        Some('"')
    } else if c == '\\' {
        Some('\\')
    } else if c == '/' {
        Some('/')
    } else if c == 'b' {
        Some('\u{8}')
    } else if c == 'f' {
        Some('\u{c}')
    } else if c == 'n' {
        Some('\n')
    } else if c == 'r' {
        Some('\r')
    } else if c == 't' {
        Some('\t')
    } else {
        None
    }
}

/// The value of a hexadecimal digit, in either case, or -1 for any other
/// character.
pub open spec fn hex_val(c: char) -> int {
    if c == '0' {
        0
    } else if c == '1' {
        1
    } else if c == '2' {
        2
    } else if c == '3' {
        3
    } else if c == '4' {
        4
    } else if c == '5' {
        5
    } else if c == '6' {
        6
    } else if c == '7' {
        7
    } else if c == '8' {
        8
    } else if c == '9' {
        9
    } else if c == 'a' || c == 'A' {
        10
    } else if c == 'b' || c == 'B' {
        11
    } else if c == 'c' || c == 'C' {
        12
    } else if c == 'd' || c == 'D' {
        13
    } else if c == 'e' || c == 'E' {
        14
    } else if c == 'f' || c == 'F' {
        15
    } else {
        -1
    }
}

/// The character with the given scalar value.
pub open spec fn char_of(n: u32) -> char {
    choose|c: char| (#[trigger] (c as u32)) == n
}

/// Two characters with the same scalar value are the same character.
proof fn lemma_char_cast_injective(c1: char, c2: char)
    requires
        c1 as u32 == c2 as u32,
    ensures
        c1 == c2,
{
}

/// Relies on char::from_u32: a value that is neither a surrogate nor above
/// char::MAX converts to the character with that scalar value; any other
/// value gives nothing.
pub assume_specification[ char::from_u32 ](n: u32) -> (r: Option<char>)
    ensures
        match r {
            Some(c) => c as u32 == n,
            None => n > 0x10FFFF || (0xD800 <= n && n < 0xE000),
        },
;

/// The content of a JSON string whose opening quote stands just before
/// position `i`: the decoded characters and the position after the closing
/// quote, or nothing if the text up to the closing quote is not a valid
/// string body.
pub open spec fn parse_string_body(s: Seq<char>, i: int) -> Option<(Seq<char>, int)>
    decreases s.len() - i,
{
    if !(0 <= i < s.len()) {
        None
    } else if s[i] == '"' {
        Some((Seq::empty(), i + 1))
    } else if s[i] == '\\' {
        if i + 1 < s.len() {
            if s[i + 1] == 'u' {
                if i + 5 < s.len() && hex_val(s[i + 2]) >= 0 && hex_val(s[i + 3]) >= 0 && hex_val(
                    s[i + 4],
                ) >= 0 && hex_val(s[i + 5]) >= 0 {
                    let code = 4096 * hex_val(s[i + 2]) + 256 * hex_val(s[i + 3]) + 16 * hex_val(
                        s[i + 4],
                    ) + hex_val(s[i + 5]);
                    if 0xD800 <= code < 0xE000 {
                        None
                    } else {
                        match parse_string_body(s, i + 6) {
                            Some(p) => Some((seq![char_of(code as u32)] + p.0, p.1)),
                            None => None,
                        }
                    }
                } else {
                    None
                }
            } else {
                match unescape(s[i + 1]) {
                    Some(d) => match parse_string_body(s, i + 2) {
                        Some(p) => Some((seq![d] + p.0, p.1)),
                        None => None,
                    },
                    None => None,
                }
            }
        } else {
            None
        }
    } else if (s[i] as u32) < 0x20 {
        None
    } else {
        match parse_string_body(s, i + 1) {
            Some(p) => Some((seq![s[i]] + p.0, p.1)),
            None => None,
        }
    }
}

/// A JSON boolean standing at position `i`: its value and the position after
/// it.
pub open spec fn parse_bool(s: Seq<char>, i: int) -> Option<(bool, int)> {
    if has_at(s, i, seq!['t', 'r', 'u', 'e']) {
        Some((true, i + 4))
    } else if has_at(s, i, seq!['f', 'a', 'l', 's', 'e']) {
        Some((false, i + 5))
    } else {
        None
    }
}

pub open spec fn key_task() -> Seq<char> {
    seq!['"', 't', 'a', 's', 'k', '"']
}

pub open spec fn key_completed() -> Seq<char> {
    seq!['"', 'c', 'o', 'm', 'p', 'l', 'e', 't', 'e', 'd', '"']
}

pub open spec fn key_todo() -> Seq<char> {
    seq!['"', 't', 'o', 'd', 'o', '"']
}

/// The `"task": <string>` member standing at position `i`: the decoded task
/// and the position after the string.
pub open spec fn parse_task_member(s: Seq<char>, i: int) -> Option<(Seq<char>, int)> {
    if has_at(s, i, key_task()) {
        let i2 = skip_ws(s, i + 6);
        if i2 < s.len() && s[i2] == ':' {
            let i3 = skip_ws(s, i2 + 1);
            if i3 < s.len() && s[i3] == '"' {
                parse_string_body(s, i3 + 1)
            } else {
                None
            }
        } else {
            None
        }
    } else {
        None
    }
}

/// The `"completed": <bool>` member standing at position `i`: the flag and
/// the position after it.
pub open spec fn parse_completed_member(s: Seq<char>, i: int) -> Option<(bool, int)> {
    if has_at(s, i, key_completed()) {
        let i2 = skip_ws(s, i + 11);
        if i2 < s.len() && s[i2] == ':' {
            let i3 = skip_ws(s, i2 + 1);
            parse_bool(s, i3)
        } else {
            None
        }
    } else {
        None
    }
}

/// The two members of an update, in either order, starting at position `i`:
/// the task, the flag, and the position after the second member.
pub open spec fn parse_update_fields(s: Seq<char>, i: int) -> Option<(Seq<char>, bool, int)> {
    if has_at(s, i, key_task()) {
        match parse_task_member(s, i) {
            Some(p) => {
                let i2 = skip_ws(s, p.1);
                if i2 < s.len() && s[i2] == ',' {
                    match parse_completed_member(s, skip_ws(s, i2 + 1)) {
                        Some(q) => Some((p.0, q.0, q.1)),
                        None => None,
                    }
                } else {
                    None
                }
            },
            None => None,
        }
    } else if has_at(s, i, key_completed()) {
        match parse_completed_member(s, i) {
            Some(q) => {
                let i2 = skip_ws(s, q.1);
                if i2 < s.len() && s[i2] == ',' {
                    match parse_task_member(s, skip_ws(s, i2 + 1)) {
                        Some(p) => Some((p.0, q.0, p.1)),
                        None => None,
                    }
                } else {
                    None
                }
            },
            None => None,
        }
    } else {
        None
    }
}

/// A whole creation body: whitespace, an object with the single member
/// `"task": <string>`, whitespace, and nothing else. The decoded task, or
/// nothing if the body does not match.
pub open spec fn parse_new_todo(s: Seq<char>) -> Option<Seq<char>> {
    let i0 = skip_ws(s, 0);
    if i0 < s.len() && s[i0] == '{' {
        match parse_task_member(s, skip_ws(s, i0 + 1)) {
            Some(p) => {
                let i1 = skip_ws(s, p.1);
                if i1 < s.len() && s[i1] == '}' && skip_ws(s, i1 + 1) == s.len() {
                    Some(p.0)
                } else {
                    None
                }
            },
            None => None,
        }
    } else {
        None
    }
}

/// A whole update body: whitespace, an object with the single member
/// `"todo":` whose value is an object carrying `"task"` and `"completed"`,
/// whitespace, and nothing else. The decoded task and flag, or nothing if
/// the body does not match.
pub open spec fn parse_update_request(s: Seq<char>) -> Option<(Seq<char>, bool)> {
    let i0 = skip_ws(s, 0);
    if i0 < s.len() && s[i0] == '{' {
        let i1 = skip_ws(s, i0 + 1);
        if has_at(s, i1, key_todo()) {
            let i2 = skip_ws(s, i1 + 6);
            if i2 < s.len() && s[i2] == ':' {
                let i3 = skip_ws(s, i2 + 1);
                if i3 < s.len() && s[i3] == '{' {
                    match parse_update_fields(s, skip_ws(s, i3 + 1)) {
                        Some(f) => {
                            let i4 = skip_ws(s, f.2);
                            if i4 < s.len() && s[i4] == '}' {
                                let i5 = skip_ws(s, i4 + 1);
                                if i5 < s.len() && s[i5] == '}' && skip_ws(s, i5 + 1) == s.len() {
                                    Some((f.0, f.1))
                                } else {
                                    None
                                }
                            } else {
                                None
                            }
                        },
                        None => None,
                    }
                } else {
                    None
                }
            } else {
                None
            }
        } else {
            None
        }
    } else {
        None
    }
}

// ---------------------------------------------------------------------------
// The executable decoder
// ---------------------------------------------------------------------------

fn skip_ws_exec(s: &Vec<char>, i: usize) -> (j: usize)
    requires
        i <= s@.len(),
    ensures
        j == skip_ws(s@, i as int),
        i <= j <= s@.len(),
{
    let mut j = i;
    while j < s.len() && (s[j] == ' ' || s[j] == '\n' || s[j] == '\t' || s[j] == '\r')
        invariant
            i <= j <= s@.len(),
            skip_ws(s@, i as int) == skip_ws(s@, j as int),
        decreases s@.len() - j,
    {
        j += 1;
    }
    j
}

fn match_at(s: &Vec<char>, i: usize, pat: &Vec<char>) -> (r: bool)
    requires
        i <= s@.len(),
    ensures
        r == has_at(s@, i as int, pat@),
{
    if s.len() - i < pat.len() {
        return false;
    }
    proof {
        assert(s@.len() == s.len());
    }
    let mut k: usize = 0;
    while k < pat.len()
        invariant
            i + pat@.len() <= s@.len(),
            s@.len() <= usize::MAX,
            k <= pat@.len(),
            forall|m: int| 0 <= m < k ==> s@[i + m] == pat@[m],
        decreases pat@.len() - k,
    {
        if s[i + k] != pat[k] {
            proof {
                assert(s@.subrange(i as int, i + pat@.len())[k as int] == s@[i + k]);
            }
            return false;
        }
        k += 1;
    }
    proof {
        assert(s@.subrange(i as int, i + pat@.len()) =~= pat@);
    }
    true
}

fn key_task_exec() -> (r: Vec<char>)
    ensures
        r@ == key_task(),
{
    let mut v: Vec<char> = Vec::new();
    v.push('"');
    v.push('t');
    v.push('a');
    v.push('s');
    v.push('k');
    v.push('"');
    proof {
        assert(v@ =~= key_task());
    }
    v
}

fn key_completed_exec() -> (r: Vec<char>)
    ensures
        r@ == key_completed(),
{
    let mut v: Vec<char> = Vec::new();
    v.push('"');
    v.push('c');
    v.push('o');
    v.push('m');
    v.push('p');
    v.push('l');
    v.push('e');
    v.push('t');
    v.push('e');
    v.push('d');
    v.push('"');
    proof {
        assert(v@ =~= key_completed());
    }
    v
}

fn key_todo_exec() -> (r: Vec<char>)
    ensures
        r@ == key_todo(),
{
    let mut v: Vec<char> = Vec::new();
    v.push('"');
    v.push('t');
    v.push('o');
    v.push('d');
    v.push('o');
    v.push('"');
    proof {
        assert(v@ =~= key_todo());
    }
    v
}

fn hex_val_exec(c: char) -> (r: Option<u32>)
    ensures
        match r {
            Some(v) => hex_val(c) == v as int && v < 16,
            None => hex_val(c) == -1,
        },
{
    if c == '0' {
        Some(0)
    } else if c == '1' {
        Some(1)
    } else if c == '2' {
        Some(2)
    } else if c == '3' {
        Some(3)
    } else if c == '4' {
        Some(4)
    } else if c == '5' {
        Some(5)
    } else if c == '6' {
        Some(6)
    } else if c == '7' {
        Some(7)
    } else if c == '8' {
        Some(8)
    } else if c == '9' {
        Some(9)
    } else if c == 'a' || c == 'A' {
        Some(10)
    } else if c == 'b' || c == 'B' {
        Some(11)
    } else if c == 'c' || c == 'C' {
        Some(12)
    } else if c == 'd' || c == 'D' {
        Some(13)
    } else if c == 'e' || c == 'E' {
        Some(14)
    } else if c == 'f' || c == 'F' {
        Some(15)
    } else {
        None
    }
}

fn unescape_exec(c: char) -> (r: Option<char>)
    ensures
        r == unescape(c),
{
    if c == '"' {
        Some('"')
    } else if c == '\\' {
        Some('\\')
    } else if c == '/' {
        Some('/')
    } else if c == 'b' {
        Some('\u{8}')
    } else if c == 'f' {
        Some('\u{c}')
    } else if c == 'n' {
        Some('\n')
    } else if c == 'r' {
        Some('\r')
    } else if c == 't' {
        Some('\t')
    } else {
        None
    }
}

fn parse_string_body_exec(s: &Vec<char>, i: usize) -> (r: Option<(Vec<char>, usize)>)
    requires
        i <= s@.len(),
    ensures
        match r {
            Some(p) => parse_string_body(s@, i as int) == Some((p.0@, p.1 as int)) && i < p.1
                <= s@.len(),
            None => parse_string_body(s@, i as int) is None,
        },
    decreases s@.len() - i,
{
    if i >= s.len() {
        return None;
    }
    let c = s[i];
    if c == '"' {
        let v: Vec<char> = Vec::new();
        proof {
            assert(v@ =~= Seq::<char>::empty());
        }
        return Some((v, i + 1));
    }
    if c == '\\' {
        if i + 1 >= s.len() {
            return None;
        }
        let e = s[i + 1];
        if e == 'u' {
            if s.len() - (i + 2) < 4 {
                return None;
            }
            let h0 = match hex_val_exec(s[i + 2]) {
                Some(v) => v,
                None => {
                    return None;
                },
            };
            let h1 = match hex_val_exec(s[i + 3]) {
                Some(v) => v,
                None => {
                    return None;
                },
            };
            let h2 = match hex_val_exec(s[i + 4]) {
                Some(v) => v,
                None => {
                    return None;
                },
            };
            let h3 = match hex_val_exec(s[i + 5]) {
                Some(v) => v,
                None => {
                    return None;
                },
            };
            let code: u32 = 4096 * h0 + 256 * h1 + 16 * h2 + h3;
            if 0xD800 <= code && code < 0xE000 {
                return None;
            }
            match char::from_u32(code) {
                Some(ch) => {
                    match parse_string_body_exec(s, i + 6) {
                        None => None,
                        Some((mut v, j)) => {
                            let ghost rest = v@;
                            v.insert(0, ch);
                            proof {
                                assert(exists|c2: char| (#[trigger] (c2 as u32)) == code) by {
                                    assert(ch as u32 == code);
                                }
                                assert(char_of(code) as u32 == code);
                                lemma_char_cast_injective(char_of(code), ch);
                                assert(char_of(code) == ch);
                                assert(v@ =~= seq![char_of(code)] + rest);
                            }
                            Some((v, j))
                        },
                    }
                },
                None => None,
            }
        } else {
            match unescape_exec(e) {
                None => None,
                Some(d) => {
                    match parse_string_body_exec(s, i + 2) {
                        None => None,
                        Some((mut v, j)) => {
                            let ghost rest = v@;
                            v.insert(0, d);
                            proof {
                                assert(v@ =~= seq![d] + rest);
                            }
                            Some((v, j))
                        },
                    }
                },
            }
        }
    } else if (c as u32) < 0x20 {
        None
    } else {
        match parse_string_body_exec(s, i + 1) {
            None => None,
            Some((mut v, j)) => {
                let ghost rest = v@;
                v.insert(0, c);
                proof {
                    assert(v@ =~= seq![c] + rest);
                }
                Some((v, j))
            },
        }
    }
}

fn parse_bool_exec(s: &Vec<char>, i: usize) -> (r: Option<(bool, usize)>)
    requires
        i <= s@.len(),
    ensures
        match r {
            Some(p) => parse_bool(s@, i as int) == Some((p.0, p.1 as int)) && i < p.1 <= s@.len(),
            None => parse_bool(s@, i as int) is None,
        },
{
    let mut t: Vec<char> = Vec::new();
    t.push('t');
    t.push('r');
    t.push('u');
    t.push('e');
    proof {
        assert(t@ =~= seq!['t', 'r', 'u', 'e']);
    }
    if match_at(s, i, &t) {
        proof {
            assert(s@.len() == s.len());
        }
        return Some((true, i + 4));
    }
    let mut f: Vec<char> = Vec::new();
    f.push('f');
    f.push('a');
    f.push('l');
    f.push('s');
    f.push('e');
    proof {
        assert(f@ =~= seq!['f', 'a', 'l', 's', 'e']);
    }
    if match_at(s, i, &f) {
        proof {
            assert(s@.len() == s.len());
        }
        return Some((false, i + 5));
    }
    None
}

fn parse_task_member_exec(s: &Vec<char>, i: usize) -> (r: Option<(Vec<char>, usize)>)
    requires
        i <= s@.len(),
    ensures
        match r {
            Some(p) => parse_task_member(s@, i as int) == Some((p.0@, p.1 as int)) && p.1
                <= s@.len(),
            None => parse_task_member(s@, i as int) is None,
        },
{
    let key = key_task_exec();
    if !match_at(s, i, &key) {
        return None;
    }
    proof {
        assert(s@.len() == s.len());
    }
    let i2 = skip_ws_exec(s, i + 6);
    if !(i2 < s.len() && s[i2] == ':') {
        return None;
    }
    let i3 = skip_ws_exec(s, i2 + 1);
    if !(i3 < s.len() && s[i3] == '"') {
        return None;
    }
    match parse_string_body_exec(s, i3 + 1) {
        Some(p) => Some(p),
        None => None,
    }
}

fn parse_completed_member_exec(s: &Vec<char>, i: usize) -> (r: Option<(bool, usize)>)
    requires
        i <= s@.len(),
    ensures
        match r {
            Some(p) => parse_completed_member(s@, i as int) == Some((p.0, p.1 as int)) && p.1
                <= s@.len(),
            None => parse_completed_member(s@, i as int) is None,
        },
{
    let key = key_completed_exec();
    if !match_at(s, i, &key) {
        return None;
    }
    proof {
        assert(s@.len() == s.len());
    }
    let i2 = skip_ws_exec(s, i + 11);
    if !(i2 < s.len() && s[i2] == ':') {
        return None;
    }
    let i3 = skip_ws_exec(s, i2 + 1);
    parse_bool_exec(s, i3)
}

fn parse_update_fields_exec(s: &Vec<char>, i: usize) -> (r: Option<(Vec<char>, bool, usize)>)
    requires
        i <= s@.len(),
    ensures
        match r {
            Some(p) => parse_update_fields(s@, i as int) == Some((p.0@, p.1, p.2 as int)) && p.2
                <= s@.len(),
            None => parse_update_fields(s@, i as int) is None,
        },
{
    let task_key = key_task_exec();
    let completed_key = key_completed_exec();
    if match_at(s, i, &task_key) {
        match parse_task_member_exec(s, i) {
            Some((task, j)) => {
                let i2 = skip_ws_exec(s, j);
                if !(i2 < s.len() && s[i2] == ',') {
                    return None;
                }
                let i3 = skip_ws_exec(s, i2 + 1);
                match parse_completed_member_exec(s, i3) {
                    Some((completed, k)) => Some((task, completed, k)),
                    None => None,
                }
            },
            None => None,
        }
    } else if match_at(s, i, &completed_key) {
        match parse_completed_member_exec(s, i) {
            Some((completed, j)) => {
                let i2 = skip_ws_exec(s, j);
                if !(i2 < s.len() && s[i2] == ',') {
                    return None;
                }
                let i3 = skip_ws_exec(s, i2 + 1);
                match parse_task_member_exec(s, i3) {
                    Some((task, k)) => Some((task, completed, k)),
                    None => None,
                }
            },
            None => None,
        }
    } else {
        None
    }
}

/// Decodes a creation body; the decoded task, or nothing if the body does
/// not match the accepted shape.
pub fn parse_new_todo_exec(s: &Vec<char>) -> (r: Option<Vec<char>>)
    ensures
        match r {
            Some(t) => parse_new_todo(s@) == Some(t@),
            None => parse_new_todo(s@) is None,
        },
{
    let i0 = skip_ws_exec(s, 0);
    if !(i0 < s.len() && s[i0] == '{') {
        return None;
    }
    let i1 = skip_ws_exec(s, i0 + 1);
    match parse_task_member_exec(s, i1) {
        Some((task, j)) => {
            let i2 = skip_ws_exec(s, j);
            if !(i2 < s.len() && s[i2] == '}') {
                return None;
            }
            let i3 = skip_ws_exec(s, i2 + 1);
            if i3 != s.len() {
                return None;
            }
            Some(task)
        },
        None => None,
    }
}

/// Decodes an update body; the decoded task and flag, or nothing if the body
/// does not match the accepted shape.
pub fn parse_update_request_exec(s: &Vec<char>) -> (r: Option<(Vec<char>, bool)>)
    ensures
        match r {
            Some(p) => parse_update_request(s@) == Some((p.0@, p.1)),
            None => parse_update_request(s@) is None,
        },
{
    let i0 = skip_ws_exec(s, 0);
    if !(i0 < s.len() && s[i0] == '{') {
        return None;
    }
    let i1 = skip_ws_exec(s, i0 + 1);
    let todo_key = key_todo_exec();
    if !match_at(s, i1, &todo_key) {
        return None;
    }
    let i2 = skip_ws_exec(s, i1 + 6);
    if !(i2 < s.len() && s[i2] == ':') {
        return None;
    }
    let i3 = skip_ws_exec(s, i2 + 1);
    if !(i3 < s.len() && s[i3] == '{') {
        return None;
    }
    let i4 = skip_ws_exec(s, i3 + 1);
    match parse_update_fields_exec(s, i4) {
        Some((task, completed, j)) => {
            let i5 = skip_ws_exec(s, j);
            if !(i5 < s.len() && s[i5] == '}') {
                return None;
            }
            let i6 = skip_ws_exec(s, i5 + 1);
            if !(i6 < s.len() && s[i6] == '}') {
                return None;
            }
            let i7 = skip_ws_exec(s, i6 + 1);
            if i7 != s.len() {
                return None;
            }
            Some((task, completed))
        },
        None => None,
    }
}

} // verus!
