//! Command synthesis: the exact text payloads injected into the foreground
//! application for the three command kinds — navigation-reply, permission
//! grant, and custom-prefixed.

use vstd::prelude::*;
use vstd::string::*;

use crate::errors::EngineError;
use crate::text::{trim_range, trim_spec};

verus! {

/// The three fixed command prefixes a navigation-reply can use.
#[derive(Clone, Copy, PartialEq, Eq, Structural, Debug)]
pub enum CommandMode {
    BangNp,
    SlashNp,
    SlashNpp,
}

impl Default for CommandMode {
    /// The default command mode.
    fn default() -> (r: Self)
        ensures
            r == CommandMode::BangNp,
    {
        CommandMode::BangNp
    }
}

/// The literal prefix of each command mode.
pub open spec fn mode_prefix_spec(mode: CommandMode) -> Seq<char> {
    match mode {
        CommandMode::BangNp => "!np"@,
        CommandMode::SlashNp => "/np"@,
        CommandMode::SlashNpp => "/npp"@,
    }
}

impl CommandMode {
    /// The prefix literal this mode stands for.
    pub fn prefix(&self) -> (r: &'static str)
        ensures
            r@ == mode_prefix_spec(*self),
    {
        match self {
            CommandMode::BangNp => "!np",
            CommandMode::SlashNp => "/np",
            CommandMode::SlashNpp => "/npp",
        }
    }
}

/// One leading `'@'` removed, if present; mapcodes are always injected with
/// exactly one `'@'` prefix, whether or not the caller already typed it.
pub open spec fn strip_at(s: Seq<char>) -> Seq<char> {
    if s.len() > 0 && s[0] == '@' {
        s.drop_first()
    } else {
        s
    }
}

/// The trimmed mapcode, used for both validation and synthesis.
pub open spec fn cleaned(s: Seq<char>) -> Seq<char> {
    trim_spec(s)
}

/// The synthesized navigation-reply payload.
pub open spec fn np_command_spec(mode: CommandMode, mapcode: Seq<char>) -> Seq<char> {
    mode_prefix_spec(mode) + " @"@ + strip_at(cleaned(mapcode))
}

/// The decimal digit characters.
pub open spec fn digit_char(d: int) -> char
    recommends
        0 <= d <= 9,
{
    if d == 0 {
        '0'
    } else if d == 1 {
        '1'
    } else if d == 2 {
        '2'
    } else if d == 3 {
        '3'
    } else if d == 4 {
        '4'
    } else if d == 5 {
        '5'
    } else if d == 6 {
        '6'
    } else if d == 7 {
        '7'
    } else if d == 8 {
        '8'
    } else {
        '9'
    }
}

/// Decimal rendering of a category number, which is at most three digits.
pub open spec fn dec_str(n: int) -> Seq<char>
    recommends
        0 <= n <= 999,
{
    if n < 10 {
        seq![digit_char(n)]
    } else if n < 100 {
        seq![digit_char(n / 10), digit_char(n % 10)]
    } else {
        seq![digit_char(n / 100), digit_char((n / 10) % 10), digit_char(n % 10)]
    }
}

/// The synthesized permission-grant payload.
pub open spec fn perm_command_spec(category: int, mapcode: Seq<char>) -> Seq<char> {
    "/p "@ + dec_str(category) + " @"@ + strip_at(cleaned(mapcode))
}

/// The synthesized custom-prefixed payload: `prefix @mapcode`, with the
/// trimmed suffix appended after one space when it is non-empty.
pub open spec fn custom_command_spec(
    prefix: Seq<char>,
    mapcode: Seq<char>,
    suffix: Seq<char>,
) -> Seq<char> {
    let head = cleaned(prefix) + " @"@ + strip_at(cleaned(mapcode));
    if cleaned(suffix).len() > 0 {
        head + " "@ + cleaned(suffix)
    } else {
        head
    }
}

fn digit_str(d: u32) -> (r: &'static str)
    requires
        d <= 9,
    ensures
        r@ == seq![digit_char(d as int)],
{
    proof {
        reveal_strlit("0");
        reveal_strlit("1");
        reveal_strlit("2");
        reveal_strlit("3");
        reveal_strlit("4");
        reveal_strlit("5");
        reveal_strlit("6");
        reveal_strlit("7");
        reveal_strlit("8");
        reveal_strlit("9");
    }
    if d == 0 {
        "0"
    } else if d == 1 {
        "1"
    } else if d == 2 {
        "2"
    } else if d == 3 {
        "3"
    } else if d == 4 {
        "4"
    } else if d == 5 {
        "5"
    } else if d == 6 {
        "6"
    } else if d == 7 {
        "7"
    } else if d == 8 {
        "8"
    } else {
        "9"
    }
}

/// Appends the trimmed mapcode with exactly one `'@'` in front; fails with
/// `EmptyInput` when the mapcode is empty after trimming.
fn append_at_mapcode(out: &mut String, mapcode: &str) -> (r: Result<(), EngineError>)
    ensures
        match r {
            Ok(()) => cleaned(mapcode@).len() > 0 && final(out)@ == old(out)@ + " @"@ + strip_at(
                cleaned(mapcode@),
            ),
            Err(e) => e is EmptyInput && cleaned(mapcode@).len() == 0 && final(out)@ == old(
                out,
            )@,
        },
{
    let n = mapcode.unicode_len();
    let (a, b) = trim_range(mapcode, 0, n);
    proof {
        assert(mapcode@.subrange(0, n as int) =~= mapcode@);
    }
    if a == b {
        return Err(EngineError::EmptyInput);
    }
    let start = if mapcode.get_char(a) == '@' {
        a + 1
    } else {
        a
    };
    proof {
        let t = cleaned(mapcode@);
        assert(t[0] == mapcode@[a as int]);
        if mapcode@[a as int] == '@' {
            assert(t.drop_first() =~= mapcode@.subrange(a + 1 as int, b as int));
        }
    }
    out.append(" @");
    out.append(mapcode.substring_char(start, b));
    Ok(())
}

/// Builds the navigation-reply command `"{prefix} @{mapcode}"`.
pub fn build_np_command(mode: CommandMode, mapcode: &str) -> (r: Result<String, EngineError>)
    ensures
        match r {
            Ok(cmd) => cleaned(mapcode@).len() > 0 && cmd@ == np_command_spec(mode, mapcode@),
            Err(e) => e is EmptyInput && cleaned(mapcode@).len() == 0,
        },
{
    let mut out = mode.prefix().to_owned();
    match append_at_mapcode(&mut out, mapcode) {
        Ok(()) => {
            proof {
                assert(out@ =~= np_command_spec(mode, mapcode@));
            }
            Ok(out)
        },
        Err(e) => Err(e),
    }
}

/// Builds the permission-grant command `"/p {category} @{mapcode}"`.
/// The mapcode must be non-empty after trimming and the category number must
/// lie in `[0, 999]`; the mapcode is checked first.
pub fn build_perm_command(category_number: i32, mapcode: &str) -> (r: Result<String, EngineError>)
    ensures
        match r {
            Ok(cmd) => cleaned(mapcode@).len() > 0 && 0 <= category_number <= 999 && cmd@
                == perm_command_spec(category_number as int, mapcode@),
            Err(e) => {
                &&& (e is EmptyInput <==> cleaned(mapcode@).len() == 0)
                &&& (e is InvalidRange ==> cleaned(mapcode@).len() > 0)
                &&& (e is EmptyInput || e is InvalidRange)
                &&& !(cleaned(mapcode@).len() > 0 && 0 <= category_number <= 999)
            },
        },
{
    let n = mapcode.unicode_len();
    let (a, b) = trim_range(mapcode, 0, n);
    proof {
        assert(mapcode@.subrange(0, n as int) =~= mapcode@);
    }
    if a == b {
        return Err(EngineError::EmptyInput);
    }
    if category_number < 0 || category_number > 999 {
        return Err(EngineError::InvalidRange);
    }
    let c = category_number as u32;
    let mut out = "/p ".to_owned();
    if c >= 100 {
        out.append(digit_str(c / 100));
        out.append(digit_str((c / 10) % 10));
        out.append(digit_str(c % 10));
    } else if c >= 10 {
        out.append(digit_str(c / 10));
        out.append(digit_str(c % 10));
    } else {
        out.append(digit_str(c));
    }
    proof {
        assert(out@ =~= "/p "@ + dec_str(category_number as int));
    }
    match append_at_mapcode(&mut out, mapcode) {
        Ok(()) => {
            proof {
                assert(out@ =~= perm_command_spec(category_number as int, mapcode@));
            }
            Ok(out)
        },
        Err(e) => Err(e),
    }
}

/// Builds the custom-prefixed command `"{prefix} @{mapcode}"`, with the
/// suffix appended when one is supplied.  The mapcode is validated first,
/// then the prefix; both must be non-empty after trimming.
pub fn build_custom_command(prefix: &str, mapcode: &str, suffix: Option<&str>) -> (r: Result<
    String,
    EngineError,
>)
    ensures
        ({
            let sv = match suffix {
                Some(x) => x@,
                None => Seq::<char>::empty(),
            };
            match r {
                Ok(cmd) => cleaned(mapcode@).len() > 0 && cleaned(prefix@).len() > 0 && cmd@
                    == custom_command_spec(prefix@, mapcode@, sv),
                Err(e) => e is EmptyInput && (cleaned(mapcode@).len() == 0 || cleaned(
                    prefix@,
                ).len() == 0),
            }
        }),
{
    proof {
        assert(trim_spec(Seq::<char>::empty()).len() == 0);
    }
    let mn = mapcode.unicode_len();
    let (ma, mb) = trim_range(mapcode, 0, mn);
    proof {
        assert(mapcode@.subrange(0, mn as int) =~= mapcode@);
    }
    if ma == mb {
        return Err(EngineError::EmptyInput);
    }
    let pn = prefix.unicode_len();
    let (pa, pb) = trim_range(prefix, 0, pn);
    proof {
        assert(prefix@.subrange(0, pn as int) =~= prefix@);
    }
    if pa == pb {
        return Err(EngineError::EmptyInput);
    }
    let mut out = prefix.substring_char(pa, pb).to_owned();
    match append_at_mapcode(&mut out, mapcode) {
        Ok(()) => {},
        Err(_) => {
            proof {
                assert(false);
            }
        },
    }
    let ghost sv = match suffix {
        Some(x) => x@,
        None => Seq::<char>::empty(),
    };
    match suffix {
        Some(sx) => {
            let sn = sx.unicode_len();
            let (sa, sb) = trim_range(sx, 0, sn);
            proof {
                assert(sx@.subrange(0, sn as int) =~= sx@);
            }
            if sa < sb {
                out.append(" ");
                out.append(sx.substring_char(sa, sb));
            }
        },
        None => {},
    }
    proof {
        assert(out@ =~= custom_command_spec(prefix@, mapcode@, sv));
    }
    Ok(out)
}

} // verus!
