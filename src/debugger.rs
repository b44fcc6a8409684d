//! Commands of the breakpoint debugger, read from whitespace-separated words.
use vstd::prelude::*;

verus! {

/// The value of `c` as a digit in base `radix` (10 or 16).
pub open spec fn digit(c: char, radix: nat) -> Option<nat> {
    if '0' <= c <= '9' {
        Some((c as nat - '0' as nat) as nat)
    } else if radix == 16 && 'a' <= c <= 'f' {
        Some((c as nat - 'a' as nat + 10) as nat)
    } else if radix == 16 && 'A' <= c <= 'F' {
        Some((c as nat - 'A' as nat + 10) as nat)
    } else {
        None
    }
}

/// Whether every character of `s` is a digit in base `radix`.
pub open spec fn all_digits(s: Seq<char>, radix: nat) -> bool {
    forall|i: int| 0 <= i < s.len() ==> #[trigger] digit(s[i], radix) is Some
}

/// The number the digits `s` spell in base `radix`.
pub open spec fn digits_value(s: Seq<char>, radix: nat) -> nat
    decreases s.len(),
{
    if s.len() == 0 {
        0
    } else {
        digits_value(s.drop_last(), radix) * radix + digit(s.last(), radix).unwrap_or(0)
    }
}

/// An unsigned 16-bit number in base `radix`: an optional `+`, then one or
/// more digits, with a value below 65536.
pub open spec fn parse_u16(s: Seq<char>, radix: nat) -> Option<u16> {
    let body = if s.len() > 0 && s[0] == '+' {
        s.drop_first()
    } else {
        s
    };
    if body.len() > 0 && all_digits(body, radix) && digits_value(body, radix) <= 0xFFFF {
        Some(digits_value(body, radix) as u16)
    } else {
        None
    }
}

/// A debugger address: `$` and hexadecimal digits, or decimal digits.
pub open spec fn address(s: Seq<char>) -> Option<u16> {
    if s.len() > 0 && s[0] == '$' {
        parse_u16(s.drop_first(), 16)
    } else {
        parse_u16(s, 10)
    }
}

fn digit_of(c: char, radix: u32) -> (r: Option<u32>)
    requires
        radix == 10 || radix == 16,
    ensures
        r is Some <==> digit(c, radix as nat) is Some,
        r is Some ==> r.unwrap() as nat == digit(c, radix as nat).unwrap() && r.unwrap() < 16,
{
    if '0' <= c && c <= '9' {
        Some(c as u32 - '0' as u32)
    } else if radix == 16 && 'a' <= c && c <= 'f' {
        Some(c as u32 - 'a' as u32 + 10)
    } else if radix == 16 && 'A' <= c && c <= 'F' {
        Some(c as u32 - 'A' as u32 + 10)
    } else {
        None
    }
}

/// Parses the characters of `s` from `start` on as a number in base `radix`.
fn parse_from(s: &str, start: usize, radix: u32) -> (r: Option<u16>)
    requires
        radix == 10 || radix == 16,
        start <= s@.len(),
    ensures
        r == parse_u16(s@.subrange(start as int, s@.len() as int), radix as nat),
{
    let n = s.unicode_len();
    let ghost t = s@.subrange(start as int, n as int);
    let mut i = start;
    if i < n && s.get_char(i) == '+' {
        i = i + 1;
    }
    let ghost body = s@.subrange(i as int, n as int);
    proof {
        if t.len() > 0 && t[0] == '+' {
            assert(body =~= t.drop_first());
        } else {
            assert(body =~= t);
        }
    }
    if i == n {
        return None;
    }
    let first = i;
    let mut value: u32 = 0;
    let mut over = false;
    while i < n
        invariant
            first <= i <= n,
            n == s@.len(),
            radix == 10 || radix == 16,
            body == s@.subrange(first as int, n as int),
            body.len() > 0,
            t == s@.subrange(start as int, n as int),
            t.len() > 0 && t[0] == '+' ==> body == t.drop_first(),
            !(t.len() > 0 && t[0] == '+') ==> body == t,
            all_digits(s@.subrange(first as int, i as int), radix as nat),
            !over ==> value as nat == digits_value(s@.subrange(first as int, i as int), radix as nat),
            !over ==> value <= 0xFFFF,
            over ==> digits_value(s@.subrange(first as int, i as int), radix as nat) > 0xFFFF,
        decreases n - i,
    {
        let c = s.get_char(i);
        let d = match digit_of(c, radix) {
            Some(d) => d,
            None => {
                proof {
                    let k = i - first;
                    assert(body[k] == c);
                    assert(digit(body[k], radix as nat) is None);
                    assert(!all_digits(body, radix as nat));
                }
                return None;
            },
        };
        let ghost prev = s@.subrange(first as int, i as int);
        let ghost next = s@.subrange(first as int, i + 1);
        proof {
            assert(next.drop_last() =~= prev);
            assert(next.last() == c);
            let dv = digits_value(prev, radix as nat);
            let r = radix as nat;
            assert(dv * r + d >= dv) by (nonlinear_arith)
                requires
                    r >= 1,
            ;
        }
        if !over {
            if value * radix + d > 0xFFFF {
                over = true;
            } else {
                value = value * radix + d;
            }
        }
        i = i + 1;
    }
    proof {
        assert(s@.subrange(first as int, n as int) =~= body);
    }
    if over {
        None
    } else {
        Some(value as u16)
    }
}

/// Parses a debugger address: `$` and hexadecimal digits, or decimal digits.
pub fn parse_addr(s: &str) -> (r: Option<u16>)
    ensures
        r == address(s@),
{
    let n = s.unicode_len();
    if n > 0 && s.get_char(0) == '$' {
        let r = parse_from(s, 1, 16);
        assert(s@.subrange(1, n as int) =~= s@.drop_first());
        r
    } else {
        let r = parse_from(s, 0, 10);
        assert(s@.subrange(0, n as int) =~= s@);
        r
    }
}

/// A line typed at the debugger prompt.
#[derive(Clone, Copy, Debug, PartialEq, Eq, Structural)]
pub enum DebugCommand {
    /// `b <addr>`: stop before executing at the address.
    Break(u16),
    /// `c`: leave the debugger and run on.
    Continue,
    /// `d`: forget every breakpoint.
    Clear,
    /// `r`: show the registers.
    Registers,
    /// `q`: end the program.
    Quit,
    /// `x <addr>`: show 32 bytes from the address.
    Examine(u16),
    /// `x sp`: show 32 bytes from the stack pointer.
    ExamineStack,
    /// An empty line: execute one instruction, then prompt again.
    Step,
    /// Anything else, or a command whose argument is missing or malformed.
    Ignored,
}

/// Whether `s` is the one character `c`.
pub open spec fn is_word(s: Seq<char>, c: char) -> bool {
    s.len() == 1 && s[0] == c
}

/// What the first two words of a prompt line, if any, ask for.
pub open spec fn command(cmd: Option<Seq<char>>, arg: Option<Seq<char>>) -> DebugCommand {
    match cmd {
        None => DebugCommand::Step,
        Some(w) => if is_word(w, 'b') {
            match arg {
                Some(a) if address(a) is Some => DebugCommand::Break(address(a).unwrap()),
                _ => DebugCommand::Ignored,
            }
        } else if is_word(w, 'c') {
            DebugCommand::Continue
        } else if is_word(w, 'd') {
            DebugCommand::Clear
        } else if is_word(w, 'r') {
            DebugCommand::Registers
        } else if is_word(w, 'q') {
            DebugCommand::Quit
        } else if is_word(w, 'x') {
            match arg {
                Some(a) if a == seq!['s', 'p'] => DebugCommand::ExamineStack,
                Some(a) if address(a) is Some => DebugCommand::Examine(address(a).unwrap()),
                _ => DebugCommand::Ignored,
            }
        } else {
            DebugCommand::Ignored
        },
    }
}

fn is_char(s: &str, c: char) -> (r: bool)
    ensures
        r == is_word(s@, c),
{
    s.unicode_len() == 1 && s.get_char(0) == c
}

/// Reads a command from the first word of a prompt line and the word after it.
pub fn parse_command(cmd: Option<&str>, arg: Option<&str>) -> (r: DebugCommand)
    ensures
        r == command(
            match cmd {
                Some(w) => Some(w@),
                None => None,
            },
            match arg {
                Some(a) => Some(a@),
                None => None,
            },
        ),
{
    let w = match cmd {
        None => return DebugCommand::Step,
        Some(w) => w,
    };
    if is_char(w, 'b') {
        match arg {
            Some(a) => match parse_addr(a) {
                Some(addr) => DebugCommand::Break(addr),
                None => DebugCommand::Ignored,
            },
            None => DebugCommand::Ignored,
        }
    } else if is_char(w, 'c') {
        DebugCommand::Continue
    } else if is_char(w, 'd') {
        DebugCommand::Clear
    } else if is_char(w, 'r') {
        DebugCommand::Registers
    } else if is_char(w, 'q') {
        DebugCommand::Quit
    } else if is_char(w, 'x') {
        match arg {
            Some(a) => {
                if a.unicode_len() == 2 && a.get_char(0) == 's' && a.get_char(1) == 'p' {
                    assert(a@ =~= seq!['s', 'p']);
                    DebugCommand::ExamineStack
                } else {
                    assert(a@ != seq!['s', 'p']) by {
                        if a@ == seq!['s', 'p'] {
                            assert(a@.len() == 2 && a@[0] == 's' && a@[1] == 'p');
                        }
                    }
                    match parse_addr(a) {
                        Some(addr) => DebugCommand::Examine(addr),
                        None => DebugCommand::Ignored,
                    }
                }
            },
            None => DebugCommand::Ignored,
        }
    } else {
        DebugCommand::Ignored
    }
}

} // verus!
