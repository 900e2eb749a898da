//! The command dispatcher: a finished line is normalized (surrounding
//! whitespace trimmed, letters folded to lower case) and routed by exact
//! match to one of a fixed set of handlers. An all-whitespace line is a
//! no-op, not an error; anything unrecognized routes to the unknown-command
//! handler. Case folding is over the basic Latin letters, which covers every
//! command name.

use vstd::prelude::*;
use vstd::string::StrSliceExecFns;

verus! {

/// True of the characters that count as surrounding whitespace when a line
/// is trimmed: the Unicode whitespace set.
pub open spec fn is_space(c: char) -> bool {
    let u = c as u32;
    (9 <= u && u <= 13) || u == 32 || u == 0x85 || u == 0xA0 || u == 0x1680 || (0x2000 <= u
        && u <= 0x200A) || u == 0x2028 || u == 0x2029 || u == 0x202F || u == 0x205F || u == 0x3000
}

/// Runtime check for `is_space`.
pub fn is_space_char(c: char) -> (b: bool)
    ensures
        b == is_space(c),
{
    let u = c as u32;
    (9 <= u && u <= 13) || u == 32 || u == 0x85 || u == 0xA0 || u == 0x1680 || (0x2000 <= u
        && u <= 0x200A) || u == 0x2028 || u == 0x2029 || u == 0x202F || u == 0x205F || u == 0x3000
}

/// One character folded to lower case: `'A'..='Z'` shift down into
/// `'a'..='z'`; every other character is unchanged.
pub open spec fn lower_char(c: char) -> char {
    if 'A' <= c && c <= 'Z' {
        ((c as u32) + 32) as char
    } else {
        c
    }
}

/// Runtime fold of one character to lower case.
pub fn lower_char_exec(c: char) -> (r: char)
    ensures
        r == lower_char(c),
{
    match c {
        'A' => 'a',
        'B' => 'b',
        'C' => 'c',
        'D' => 'd',
        'E' => 'e',
        'F' => 'f',
        'G' => 'g',
        'H' => 'h',
        'I' => 'i',
        'J' => 'j',
        'K' => 'k',
        'L' => 'l',
        'M' => 'm',
        'N' => 'n',
        'O' => 'o',
        'P' => 'p',
        'Q' => 'q',
        'R' => 'r',
        'S' => 's',
        'T' => 't',
        'U' => 'u',
        'V' => 'v',
        'W' => 'w',
        'X' => 'x',
        'Y' => 'y',
        'Z' => 'z',
        _ => c,
    }
}

/// A whole line folded to lower case, character by character.
pub open spec fn lower(s: Seq<char>) -> Seq<char> {
    s.map_values(|c: char| lower_char(c))
}

/// The line with leading whitespace removed.
pub open spec fn trim_start(s: Seq<char>) -> Seq<char>
    decreases s.len(),
{
    if s.len() > 0 && is_space(s.first()) {
        trim_start(s.drop_first())
    } else {
        s
    }
}

/// The line with trailing whitespace removed.
pub open spec fn trim_end(s: Seq<char>) -> Seq<char>
    decreases s.len(),
{
    if s.len() > 0 && is_space(s.last()) {
        trim_end(s.drop_last())
    } else {
        s
    }
}

/// The line with surrounding whitespace removed.
pub open spec fn trim(s: Seq<char>) -> Seq<char> {
    trim_end(trim_start(s))
}

/// The normal form a line is matched in: trimmed, then folded to lower case.
pub open spec fn normalize(s: Seq<char>) -> Seq<char> {
    lower(trim(s))
}

/// The line with surrounding whitespace removed, as a borrowed slice of the
/// original: the characters between the first and last non-whitespace
/// character, original case kept. This is the text the unknown-command
/// message quotes.
pub fn trimmed<'a>(line: &'a str) -> (t: &'a str)
    ensures
        t@ == trim(line@),
{
    let n = line.unicode_len();
    proof {
        assert(line@.subrange(0, n as int) =~= line@);
    }
    let mut i: usize = 0;
    while i < n && is_space_char(line.get_char(i))
        invariant
            0 <= i <= n,
            n == line@.len(),
            trim_start(line@) == trim_start(line@.subrange(i as int, n as int)),
        decreases n - i,
    {
        proof {
            assert(line@.subrange(i as int, n as int).drop_first() =~= line@.subrange(
                i + 1,
                n as int,
            ));
        }
        i += 1;
    }
    proof {
        if i < n {
            assert(trim_start(line@.subrange(i as int, n as int)) == line@.subrange(
                i as int,
                n as int,
            ));
        } else {
            assert(line@.subrange(i as int, n as int) =~= Seq::<char>::empty());
        }
        assert(trim_start(line@) == line@.subrange(i as int, n as int));
    }
    let mut j: usize = n;
    while j > i && is_space_char(line.get_char(j - 1))
        invariant
            i <= j <= n,
            n == line@.len(),
            trim_start(line@) == line@.subrange(i as int, n as int),
            trim_end(line@.subrange(i as int, n as int)) == trim_end(
                line@.subrange(i as int, j as int),
            ),
        decreases j,
    {
        proof {
            assert(line@.subrange(i as int, j as int).drop_last() =~= line@.subrange(
                i as int,
                j - 1,
            ));
        }
        j -= 1;
    }
    proof {
        if j > i {
            assert(trim_end(line@.subrange(i as int, j as int)) == line@.subrange(
                i as int,
                j as int,
            ));
        } else {
            assert(line@.subrange(i as int, j as int) =~= Seq::<char>::empty());
        }
        assert(trim(line@) == line@.subrange(i as int, j as int));
    }
    line.substring_char(i, j)
}

/// True when `t`, folded to lower case, reads exactly as `name`.
pub fn eq_lower(t: &str, name: &str) -> (b: bool)
    ensures
        b == (lower(t@) == name@),
{
    let n = t.unicode_len();
    if n != name.unicode_len() {
        return false;
    }
    let mut i: usize = 0;
    while i < n
        invariant
            0 <= i <= n,
            n == t@.len(),
            n == name@.len(),
            forall|k: int| 0 <= k < i ==> lower_char(t@[k]) == name@[k],
        decreases n - i,
    {
        let c = lower_char_exec(t.get_char(i));
        let d = name.get_char(i);
        if c != d {
            proof {
                assert(lower(t@)[i as int] == lower_char(t@[i as int]));
            }
            return false;
        }
        i += 1;
    }
    proof {
        assert(lower(t@) =~= name@);
    }
    true
}

/// The fixed set of handlers a line can route to. `Exit` covers the two
/// synonymous input strings; `Empty` is the no-op branch for an
/// all-whitespace line; `Unknown` is everything else.
#[derive(Clone, Copy, Debug, PartialEq, Eq, Structural)]
pub enum Command {
    Help,
    Restart,
    Mandelbrot,
    Calculator,
    TimeDate,
    Clear,
    Exit,
    Empty,
    Unknown,
}

/// Which handler a raw line selects: its normal form is matched exactly
/// against the command table.
pub open spec fn dispatch_spec(s: Seq<char>) -> Command {
    let n = normalize(s);
    if n.len() == 0 {
        Command::Empty
    } else if n == "help"@ {
        Command::Help
    } else if n == "restart"@ {
        Command::Restart
    } else if n == "mandelbrot"@ {
        Command::Mandelbrot
    } else if n == "calculator"@ {
        Command::Calculator
    } else if n == "timedatectl"@ {
        Command::TimeDate
    } else if n == "clear"@ {
        Command::Clear
    } else if n == "exit"@ || n == "quit"@ {
        Command::Exit
    } else {
        Command::Unknown
    }
}

proof fn lemma_trim_start_no_leading(s: Seq<char>)
    ensures
        trim_start(s).len() > 0 ==> !is_space(trim_start(s).first()),
    decreases s.len(),
{
    if s.len() > 0 && is_space(s.first()) {
        lemma_trim_start_no_leading(s.drop_first());
    }
}

proof fn lemma_trim_end_no_trailing(s: Seq<char>)
    ensures
        trim_end(s).len() > 0 ==> !is_space(trim_end(s).last()),
    decreases s.len(),
{
    if s.len() > 0 && is_space(s.last()) {
        lemma_trim_end_no_trailing(s.drop_last());
    }
}

proof fn lemma_trim_end_is_prefix(s: Seq<char>)
    ensures
        trim_end(s).len() <= s.len(),
        forall|i: int| 0 <= i < trim_end(s).len() ==> trim_end(s)[i] == s[i],
    decreases s.len(),
{
    if s.len() > 0 && is_space(s.last()) {
        lemma_trim_end_is_prefix(s.drop_last());
        assert forall|i: int| 0 <= i < trim_end(s).len() implies trim_end(s)[i] == s[i] by {
            assert(trim_end(s)[i] == s.drop_last()[i]);
        }
    }
}

proof fn lemma_lower_char_fixed(c: char)
    ensures
        lower_char(lower_char(c)) == lower_char(c),
        is_space(lower_char(c)) == is_space(c),
{
}

proof fn lemma_trim_start_lower(s: Seq<char>)
    ensures
        trim_start(lower(s)) == lower(trim_start(s)),
    decreases s.len(),
{
    if s.len() > 0 {
        assert(lower(s).first() == lower_char(s.first()));
        lemma_lower_char_fixed(s.first());
        if is_space(s.first()) {
            assert(lower(s).drop_first() =~= lower(s.drop_first()));
            lemma_trim_start_lower(s.drop_first());
        }
    } else {
        assert(lower(s).len() == 0);
    }
}

proof fn lemma_trim_end_lower(s: Seq<char>)
    ensures
        trim_end(lower(s)) == lower(trim_end(s)),
    decreases s.len(),
{
    if s.len() > 0 {
        assert(lower(s).last() == lower_char(s.last()));
        lemma_lower_char_fixed(s.last());
        if is_space(s.last()) {
            assert(lower(s).drop_last() =~= lower(s.drop_last()));
            lemma_trim_end_lower(s.drop_last());
        }
    } else {
        assert(lower(s).len() == 0);
    }
}

/// Trimming and case folding commute: folding first and trimming after
/// gives the same line as trimming first and folding after.
pub proof fn lemma_trim_lower_commute(s: Seq<char>)
    ensures
        trim(lower(s)) == lower(trim(s)),
{
    lemma_trim_start_lower(s);
    lemma_trim_end_lower(trim_start(s));
}

/// Trimming an already trimmed line changes nothing.
pub proof fn lemma_trim_idempotent(s: Seq<char>)
    ensures
        trim(trim(s)) == trim(s),
{
    let a = trim_start(s);
    let b = trim_end(a);
    lemma_trim_start_no_leading(s);
    lemma_trim_end_is_prefix(a);
    lemma_trim_end_no_trailing(a);
    if b.len() > 0 {
        assert(b.first() == a.first());
        assert(trim_start(b) == b);
    }
    lemma_trim_end_no_trailing(a);
    assert(trim_end(b) == b);
}

/// Folding an already folded line changes nothing.
pub proof fn lemma_lower_idempotent(s: Seq<char>)
    ensures
        lower(lower(s)) == lower(s),
{
    assert forall|i: int| 0 <= i < s.len() implies lower(lower(s))[i] == lower(s)[i] by {
        lemma_lower_char_fixed(s[i]);
    }
    assert(lower(lower(s)) =~= lower(s));
}

/// Normalization is idempotent: normalizing a normalized line changes
/// nothing.
pub proof fn lemma_normalize_idempotent(s: Seq<char>)
    ensures
        normalize(normalize(s)) == normalize(s),
{
    lemma_trim_lower_commute(trim(s));
    lemma_trim_idempotent(s);
    lemma_lower_idempotent(trim(s));
}

/// A line with no surrounding whitespace and no upper-case letters is its
/// own normal form.
pub proof fn lemma_normalize_plain(s: Seq<char>)
    requires
        s.len() > 0 ==> !is_space(s.first()),
        s.len() > 0 ==> !is_space(s.last()),
        forall|i: int| 0 <= i < s.len() ==> lower_char(s[i]) == s[i],
    ensures
        normalize(s) == s,
{
    assert(trim_start(s) == s);
    assert(trim_end(s) == s);
    assert(lower(s) =~= s);
}

/// Case/whitespace insensitivity: a raw line and its normal form select the
/// same handler.
pub proof fn lemma_dispatch_normalize(s: Seq<char>)
    ensures
        dispatch_spec(normalize(s)) == dispatch_spec(s),
{
    lemma_normalize_idempotent(s);
}

/// Route one raw line to its handler.
pub fn dispatch(line: &str) -> (c: Command)
    ensures
        c == dispatch_spec(line@),
{
    let t = trimmed(line);
    if t.is_empty() {
        Command::Empty
    } else if eq_lower(t, "help") {
        Command::Help
    } else if eq_lower(t, "restart") {
        Command::Restart
    } else if eq_lower(t, "mandelbrot") {
        Command::Mandelbrot
    } else if eq_lower(t, "calculator") {
        Command::Calculator
    } else if eq_lower(t, "timedatectl") {
        Command::TimeDate
    } else if eq_lower(t, "clear") {
        Command::Clear
    } else if eq_lower(t, "exit") || eq_lower(t, "quit") {
        Command::Exit
    } else {
        Command::Unknown
    }
}

} // verus!
