//! Script hooks: the events scripts can react to, the actions scripts can
//! request, and the hook call that an event runs.

use vstd::prelude::*;

use crate::text::push_char;

verus! {

/// Event hooks that scripts can define.
#[derive(Clone, Debug, PartialEq, Eq)]
pub enum ScriptEvent {
    /// Fired when the app starts.
    OnStart,
    /// Fired when the app is quitting.
    OnQuit,
    /// Fired on key press with the key name.
    OnKey(String),
}

/// Actions that scripts can trigger.
#[derive(Clone, Debug)]
pub enum ScriptAction {
    /// Add a calendar event.
    AddEvent { title: String, date: String },
    /// Navigate to a specific date.
    NavigateDate(String),
}

pub open spec fn hook_name_spec(event: ScriptEvent) -> Seq<char> {
    match event {
        ScriptEvent::OnStart => "on_start"@,
        ScriptEvent::OnQuit => "on_quit"@,
        ScriptEvent::OnKey(_) => "on_key"@,
    }
}

/// The script function an event calls.
pub fn hook_name(event: &ScriptEvent) -> (r: &'static str)
    ensures
        r@ == hook_name_spec(*event),
{
    match event {
        ScriptEvent::OnStart => "on_start",
        ScriptEvent::OnQuit => "on_quit",
        ScriptEvent::OnKey(_) => "on_key",
    }
}

/// Hexadecimal digit of `n` (0..16), in lowercase.
pub open spec fn hex_digit(n: int) -> char {
    if n < 10 {
        ((48 + n) as u32) as char
    } else {
        ((87 + n) as u32) as char
    }
}

/// How `c` is written inside a double-quoted script string: backslash,
/// quote, newline, carriage return and tab by their escapes, other control
/// characters as `\xHH`, anything else as itself.
pub open spec fn escape_char(c: char) -> Seq<char> {
    if c == '\\' {
        seq!['\\', '\\']
    } else if c == '"' {
        seq!['\\', '"']
    } else if c == '\n' {
        seq!['\\', 'n']
    } else if c == '\r' {
        seq!['\\', 'r']
    } else if c == '\t' {
        seq!['\\', 't']
    } else if (c as u32) < 32 {
        seq!['\\', 'x', hex_digit((c as u32) as int / 16), hex_digit((c as u32) as int % 16)]
    } else {
        seq![c]
    }
}

/// `s` with every character escaped for a double-quoted script string.
pub open spec fn escaped(s: Seq<char>) -> Seq<char>
    decreases s.len(),
{
    if s.len() == 0 {
        seq![]
    } else {
        escaped(s.drop_last()) + escape_char(s.last())
    }
}

/// Value of a hexadecimal digit, if `c` is one.
pub open spec fn hex_value(c: char) -> Option<int> {
    let v = c as u32;
    if 48 <= v <= 57 {
        Some(v - 48)
    } else if 97 <= v <= 102 {
        Some(v - 87)
    } else if 65 <= v <= 70 {
        Some(v - 55)
    } else {
        None
    }
}

/// The character a one-letter escape `\\e` stands for, if `e` names one.
pub open spec fn simple_escape(e: char) -> Option<char> {
    if e == '\\' {
        Some('\\')
    } else if e == '"' {
        Some('"')
    } else if e == 'n' {
        Some('\n')
    } else if e == 'r' {
        Some('\r')
    } else if e == 't' {
        Some('\t')
    } else {
        None
    }
}

/// `c` in front of the value of the rest of a string body, if that has one.
pub open spec fn prepend(c: char, rest: Option<Seq<char>>) -> Option<Seq<char>> {
    match rest {
        Some(v) => Some(seq![c] + v),
        None => None,
    }
}

/// The text a double-quoted script string whose body is `t` holds: the
/// characters of `t` with their escapes decoded. `None` where `t` cannot be
/// the whole body of one string: a bare quote would end it early, a line
/// break cannot stand in it, or an escape is incomplete or unknown.
pub open spec fn string_body_value(t: Seq<char>) -> Option<Seq<char>>
    decreases t.len(),
{
    if t.len() == 0 {
        Some(seq![])
    } else if t[0] == '"' || t[0] == '\n' || t[0] == '\r' {
        None
    } else if t[0] != '\\' {
        prepend(t[0], string_body_value(t.drop_first()))
    } else if t.len() < 2 {
        None
    } else if simple_escape(t[1]) is Some {
        prepend(simple_escape(t[1])->0, string_body_value(t.skip(2)))
    } else if t[1] == 'x' && t.len() >= 4 && hex_value(t[2]) is Some && hex_value(t[3]) is Some {
        prepend(
            ((hex_value(t[2])->0 * 16 + hex_value(t[3])->0) as u32) as char,
            string_body_value(t.skip(4)),
        )
    } else {
        None
    }
}

/// Escaping two texts one after the other escapes their concatenation.
proof fn lemma_escaped_concat(a: Seq<char>, b: Seq<char>)
    ensures
        escaped(a + b) == escaped(a) + escaped(b),
    decreases b.len(),
{
    if b.len() > 0 {
        lemma_escaped_concat(a, b.drop_last());
        assert((a + b).drop_last() =~= a + b.drop_last());
        assert(escaped(a) + escaped(b) =~= (escaped(a) + escaped(b.drop_last())) + escape_char(
            b.last(),
        ));
    } else {
        assert(a + b =~= a);
        assert(escaped(a) + escaped(b) =~= escaped(a));
    }
}

/// An escaped key is the whole body of one string literal, and that string
/// holds exactly the key: whatever a key name contains, it reaches the hook
/// only as its string argument.
pub proof fn lemma_escaped_string_value(s: Seq<char>)
    ensures
        string_body_value(escaped(s)) == Some(s),
    decreases s.len(),
{
    if s.len() == 0 {
        assert(escaped(s) =~= Seq::<char>::empty());
    } else {
        let c = s[0];
        let rest = s.drop_first();
        lemma_escaped_string_value(rest);
        assert(s =~= seq![c] + rest);
        lemma_escaped_concat(seq![c], rest);
        assert(escaped(seq![c]) =~= escape_char(c)) by {
            assert(seq![c].drop_last() =~= Seq::<char>::empty());
            assert(escaped(Seq::<char>::empty()) =~= Seq::<char>::empty());
        }
        let e = escape_char(c);
        let t = e + escaped(rest);
        assert(escaped(s) == t);
        if c == '\\' || c == '"' || c == '\n' || c == '\r' || c == '\t' {
            assert(t.skip(2) =~= escaped(rest));
        } else if (c as u32) >= 32 {
            assert(t.drop_first() =~= escaped(rest));
        } else {
            assert(t.skip(4) =~= escaped(rest));
            let code = c as u32;
            let hi = code / 16;
            let lo = code % 16;
            assert(hi < 2 && lo < 16 && hi * 16 + lo == code) by (nonlinear_arith)
                requires
                    code < 32,
                    hi == code / 16,
                    lo == code % 16,
            ;
            assert((((48 + hi) as u32) as char) as u32 == 48 + hi);
            assert((((48 + lo) as u32) as char) as u32 == 48 + lo);
            assert((((87 + lo) as u32) as char) as u32 == 87 + lo);
            assert(hex_value(hex_digit(hi as int)) == Some(hi as int));
            assert(hex_value(hex_digit(lo as int)) == Some(lo as int));
            vstd::utf8::char_u32_cast(c, code);
            assert(((hi * 16 + lo) as u32) as char == c);
        }
        assert(seq![c] + rest =~= s);
    }
}

/// The script that runs an event's hook, if the user defined it: with the
/// key name as its argument for a key press, written as an escaped string
/// literal, with none otherwise.
pub open spec fn hook_script_spec(event: ScriptEvent) -> Seq<char> {
    let name = hook_name_spec(event);
    match event {
        ScriptEvent::OnKey(key) => "if is_def_fn(\""@ + name + "\", 1) { "@ + name + "(\""@
            + escaped(key@) + "\"); }"@,
        _ => "if is_def_fn(\""@ + name + "\", 0) { "@ + name + "(); }"@,
    }
}

/// The digit `hex_digit(n)` as an executable character.
fn hex_char(n: u32) -> (r: char)
    requires
        n < 16,
    ensures
        r == hex_digit(n as int),
{
    if n < 10 {
        ((48 + n) as u8) as char
    } else {
        ((87 + n) as u8) as char
    }
}

/// Appends `c`, escaped for a double-quoted script string, to `out`.
fn push_escaped(out: &mut String, c: char)
    ensures
        final(out)@ == old(out)@ + escape_char(c),
{
    let code = c as u32;
    if c == '\\' {
        push_char(out, '\\');
        push_char(out, '\\');
    } else if c == '"' {
        push_char(out, '\\');
        push_char(out, '"');
    } else if c == '\n' {
        push_char(out, '\\');
        push_char(out, 'n');
    } else if c == '\r' {
        push_char(out, '\\');
        push_char(out, 'r');
    } else if c == '\t' {
        push_char(out, '\\');
        push_char(out, 't');
    } else if code < 32 {
        push_char(out, '\\');
        push_char(out, 'x');
        push_char(out, hex_char(code / 16));
        push_char(out, hex_char(code % 16));
    } else {
        push_char(out, c);
    }
    assert(final(out)@ == old(out)@ + escape_char(c));
}

/// Appends `key`, escaped for a double-quoted script string, to `out`.
fn append_escaped(out: &mut String, key: &str)
    ensures
        final(out)@ == old(out)@ + escaped(key@),
{
    let n = key.unicode_len();
    let mut i: usize = 0;
    while i < n
        invariant
            n == key@.len(),
            i <= n,
            out@ == old(out)@ + escaped(key@.subrange(0, i as int)),
        decreases n - i,
    {
        let c = key.get_char(i);
        push_escaped(out, c);
        assert(key@.subrange(0, i + 1).drop_last() == key@.subrange(0, i as int));
        i += 1;
    }
    assert(key@.subrange(0, n as int) == key@);
}

/// The script that runs an event's hook.
pub fn hook_script(event: &ScriptEvent) -> (r: String)
    ensures
        r@ == hook_script_spec(*event),
{
    let name = hook_name(event);
    let mut s = String::from_str("if is_def_fn(\"");
    s.append(name);
    match event {
        ScriptEvent::OnKey(key) => {
            s.append("\", 1) { ");
            s.append(name);
            s.append("(\"");
            append_escaped(&mut s, key.as_str());
            s.append("\"); }");
        },
        _ => {
            s.append("\", 0) { ");
            s.append(name);
            s.append("(); }");
        },
    }
    s
}

} // verus!
