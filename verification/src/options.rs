//! The command line, read into the settings of a run.
//!
//! The first two arguments after the program's name are the subnet and the
//! port. Options follow them: `-t` or `--threads` with the concurrency limit,
//! `-T` or `--timeout` with the timeout in milliseconds, and `-n` or
//! `--nobanner`.

use vstd::prelude::*;
use vstd::std_specs::iter::IteratorSpec;
use vstd::string::*;
use crate::coordinator::{ScanConfig, DEFAULT_CONCURRENCY, DEFAULT_TIMEOUT_MS};
use crate::error::ScanError;

verus! {

/// The index of the first argument that can be an option.
pub const FIRST_OPTION: usize = 3;

/// The value of a decimal digit.
pub open spec fn digit_value(c: char) -> Option<nat> {
    if '0' <= c <= '9' {
        Some((c as nat - '0' as nat) as nat)
    } else {
        None
    }
}

/// The number that a run of decimal digits denotes; the empty run denotes
/// zero, and a run with anything but digits in it denotes nothing.
pub open spec fn digits_value(digits: Seq<char>) -> Option<nat>
    decreases digits.len(),
{
    if digits.len() == 0 {
        Some(0)
    } else {
        match (digits_value(digits.drop_last()), digit_value(digits.last())) {
            (Some(front), Some(last)) => Some(10 * front + last),
            _ => None,
        }
    }
}

/// `text` without the `+` that may precede a number.
pub open spec fn unsigned_part(text: Seq<char>) -> Seq<char> {
    if text.len() > 0 && text[0] == '+' {
        text.drop_first()
    } else {
        text
    }
}

/// The number that `text` denotes: one or more decimal digits, which a single
/// `+` may precede. Nothing else is a number: no sign alone, no space, no
/// underscore.
pub open spec fn decimal(text: Seq<char>) -> Option<nat> {
    let digits = unsigned_part(text);
    if digits.len() == 0 {
        None
    } else {
        digits_value(digits)
    }
}

/// The number that `text` denotes, if it fits 64 bits.
pub open spec fn decimal_u64(text: Seq<char>) -> Option<u64> {
    match decimal(text) {
        Some(value) => if value <= u64::MAX {
            Some(value as u64)
        } else {
            None
        },
        None => None,
    }
}

/// Digits appended to a run never make it denote less, and never mend it.
proof fn lemma_digits_grow(digits: Seq<char>, k: int)
    requires
        0 <= k <= digits.len(),
    ensures
        digits_value(digits.take(k)) is None ==> digits_value(digits) is None,
        digits_value(digits) is Some ==> digits_value(digits.take(k))->0 <= digits_value(
            digits,
        )->0,
    decreases digits.len() - k,
{
    if k < digits.len() {
        assert(digits.drop_last().take(k) =~= digits.take(k));
        lemma_digits_grow(digits.drop_last(), k);
    } else {
        assert(digits.take(k) =~= digits);
    }
}

/// Reads an unsigned decimal number of at most 64 bits.
pub fn parse_decimal(text: &str) -> (r: Option<u64>)
    ensures
        r == decimal_u64(text@),
{
    let total: usize = text.unicode_len();
    let mut seen: usize = 0;
    let mut plus: bool = false;
    let mut value: u64 = 0;
    let mut chars = text.chars();
    let ghost digits: Seq<char> = unsigned_part(text@);
    loop
        invariant
            seen <= total,
            total == text@.len(),
            chars.remaining() == text@.skip(seen as int),
            digits == unsigned_part(text@),
            plus == (seen > 0 && text@[0] == '+'),
            digits_value(digits.take(seen - if plus { 1int } else { 0int })) == Some(value as nat),
        ensures
            seen == total,
        decreases total - seen,
    {
        match chars.next() {
            Some(c) => {
                assert(text@[seen as int] == c);
                if seen == 0 && c == '+' {
                    plus = true;
                } else {
                    proof {
                        let upto: int = seen + 1 - if plus { 1int } else { 0int };
                        assert(digits.take(upto).drop_last() =~= digits.take(upto - 1));
                        assert(digits.take(upto).last() == c);
                        lemma_digits_grow(digits, upto);
                    }
                    if c < '0' || c > '9' {
                        return None;
                    }
                    let digit: u64 = (c as u32 - '0' as u32) as u64;
                    let scaled: u64 = match value.checked_mul(10) {
                        Some(scaled) => scaled,
                        None => {
                            return None;
                        },
                    };
                    value = match scaled.checked_add(digit) {
                        Some(sum) => sum,
                        None => {
                            return None;
                        },
                    };
                }
                seen = seen + 1;
            },
            None => {
                break ;
            },
        }
    }
    assert(digits.take(digits.len() as int) =~= digits);
    if seen == 0 || (plus && seen == 1) {
        None
    } else {
        Some(value)
    }
}

/// The options that the command line knows.
#[derive(Clone, Copy, Debug, PartialEq, Eq, Structural)]
pub enum Flag {
    /// `-t` or `--threads`: the concurrency limit follows.
    Threads,
    /// `-T` or `--timeout`: the timeout in milliseconds follows.
    Timeout,
    /// `-n` or `--nobanner`: no banner is read.
    NoBanner,
}

impl Flag {
    /// Whether `arg` is one of the two spellings of the option.
    pub open spec fn spelled(self, arg: Seq<char>) -> bool {
        match self {
            Flag::Threads => arg == "-t"@ || arg == "--threads"@,
            Flag::Timeout => arg == "-T"@ || arg == "--timeout"@,
            Flag::NoBanner => arg == "-n"@ || arg == "--nobanner"@,
        }
    }

    /// Whether `arg` is one of the two spellings of the option.
    pub fn is_spelled(self, arg: &str) -> (b: bool)
        ensures
            b == self.spelled(arg@),
    {
        match self {
            Flag::Threads => same_text(arg, "-t") || same_text(arg, "--threads"),
            Flag::Timeout => same_text(arg, "-T") || same_text(arg, "--timeout"),
            Flag::NoBanner => same_text(arg, "-n") || same_text(arg, "--nobanner"),
        }
    }
}

/// Whether two texts are the same.
fn same_text(a: &str, b: &str) -> (same: bool)
    ensures
        same == (a@ == b@),
{
    let left: String = a.to_owned();
    let right: String = b.to_owned();
    left == right
}

/// The arguments as plain text.
pub open spec fn texts(args: Seq<String>) -> Seq<Seq<char>> {
    Seq::new(args.len(), |i: int| args[i]@)
}

/// The index of the first argument at or after `from` that spells `flag`, or
/// the number of arguments where none does.
pub open spec fn find_flag(args: Seq<Seq<char>>, flag: Flag, from: int) -> int
    decreases args.len() - from,
{
    if from >= args.len() {
        args.len() as int
    } else if flag.spelled(args[from]) {
        from
    } else {
        find_flag(args, flag, from + 1)
    }
}

/// What the command line says of a numeric option.
#[derive(Clone, Copy, Debug, PartialEq, Eq, Structural)]
pub enum NumberOption {
    /// The option does not occur.
    Absent,
    /// The option occurs, and no number follows it.
    Invalid,
    /// The option occurs with this number.
    Given(u64),
}

/// What `args` say of the numeric option `flag`: its first occurrence among
/// the options counts, and the argument after it is its value.
pub open spec fn number_option(args: Seq<Seq<char>>, flag: Flag) -> NumberOption {
    let at = find_flag(args, flag, FIRST_OPTION as int);
    if at >= args.len() {
        NumberOption::Absent
    } else if at + 1 >= args.len() {
        NumberOption::Invalid
    } else {
        match decimal_u64(args[at + 1]) {
            Some(value) => NumberOption::Given(value),
            None => NumberOption::Invalid,
        }
    }
}

/// What a command line asks for.
#[derive(Clone, Debug, PartialEq, Eq)]
pub enum Invocation {
    /// Too few arguments to scan anything: the usage text is wanted.
    Usage,
    /// A scan of `subnet` under `config`.
    Scan { subnet: String, config: ScanConfig },
}

/// The mathematical content of an `Invocation`.
pub enum InvocationView {
    Usage,
    Scan { subnet: Seq<char>, config: ScanConfig },
}

impl View for Invocation {
    type V = InvocationView;

    open spec fn view(&self) -> InvocationView {
        match self {
            Invocation::Usage => InvocationView::Usage,
            Invocation::Scan { subnet, config } => InvocationView::Scan {
                subnet: subnet@,
                config: *config,
            },
        }
    }
}

/// The port that `text` names, if it names one.
pub open spec fn port_of(text: Seq<char>) -> Option<u16> {
    match decimal_u64(text) {
        Some(value) => if value <= u16::MAX {
            Some(value as u16)
        } else {
            None
        },
        None => None,
    }
}

/// The concurrency limit that `args` ask for, if what they say of it is valid.
pub open spec fn concurrency_of(args: Seq<Seq<char>>) -> Option<usize> {
    match number_option(args, Flag::Threads) {
        NumberOption::Absent => Some(DEFAULT_CONCURRENCY),
        NumberOption::Invalid => None,
        NumberOption::Given(value) => if value <= usize::MAX {
            Some(value as usize)
        } else {
            None
        },
    }
}

/// The timeout that `args` ask for, if what they say of it is valid.
pub open spec fn timeout_of(args: Seq<Seq<char>>) -> Option<u64> {
    match number_option(args, Flag::Timeout) {
        NumberOption::Absent => Some(DEFAULT_TIMEOUT_MS),
        NumberOption::Invalid => None,
        NumberOption::Given(value) => Some(value),
    }
}

/// What `args` ask for. With fewer than three arguments nothing is scanned.
/// Otherwise the second argument is the subnet, taken as it stands, and the
/// third is the port; an option that is absent has its default, and a port or
/// an option's value that is no number in its range is an error.
pub open spec fn invocation_of(args: Seq<Seq<char>>) -> Result<InvocationView, ScanError> {
    if args.len() < FIRST_OPTION {
        Ok(InvocationView::Usage)
    } else {
        match (port_of(args[2]), concurrency_of(args), timeout_of(args)) {
            (Some(port), Some(concurrency), Some(timeout_ms)) => Ok(
                InvocationView::Scan {
                    subnet: args[1],
                    config: ScanConfig {
                        port,
                        concurrency,
                        timeout_ms,
                        banner_enabled: find_flag(args, Flag::NoBanner, FIRST_OPTION as int)
                            >= args.len(),
                    },
                },
            ),
            _ => Err(ScanError::InvalidArgument),
        }
    }
}

/// Finds the first option that spells `flag`.
fn locate(args: &Vec<String>, flag: Flag) -> (at: usize)
    ensures
        at == find_flag(texts(args@), flag, FIRST_OPTION as int),
        at <= args@.len() || args@.len() < FIRST_OPTION,
{
    let mut at: usize = FIRST_OPTION;
    while at < args.len()
        invariant
            FIRST_OPTION <= at,
            find_flag(texts(args@), flag, FIRST_OPTION as int) == find_flag(
                texts(args@),
                flag,
                at as int,
            ),
        decreases args.len() - at,
    {
        if flag.is_spelled(args[at].as_str()) {
            return at;
        }
        at = at + 1;
    }
    args.len()
}

/// Reads what `args` say of the numeric option `flag`.
pub fn read_number_option(args: &Vec<String>, flag: Flag) -> (r: NumberOption)
    ensures
        r == number_option(texts(args@), flag),
{
    let at: usize = locate(args, flag);
    if at >= args.len() {
        NumberOption::Absent
    } else if at + 1 >= args.len() {
        NumberOption::Invalid
    } else {
        match parse_decimal(args[at + 1].as_str()) {
            Some(value) => NumberOption::Given(value),
            None => NumberOption::Invalid,
        }
    }
}

/// Reads the command line. `args` begins with the program's name.
pub fn parse_args(args: &Vec<String>) -> (r: Result<Invocation, ScanError>)
    ensures
        match r {
            Ok(invocation) => invocation_of(texts(args@)) == Ok::<InvocationView, ScanError>(
                invocation@,
            ),
            Err(e) => invocation_of(texts(args@)) == Err::<InvocationView, ScanError>(e),
        },
{
    if args.len() < FIRST_OPTION {
        return Ok(Invocation::Usage);
    }
    let port: u16 = match parse_decimal(args[2].as_str()) {
        Some(value) => {
            if value > 0xffff {
                return Err(ScanError::InvalidArgument);
            }
            value as u16
        },
        None => {
            return Err(ScanError::InvalidArgument);
        },
    };
    let concurrency: usize = match read_number_option(args, Flag::Threads) {
        NumberOption::Absent => DEFAULT_CONCURRENCY,
        NumberOption::Invalid => {
            return Err(ScanError::InvalidArgument);
        },
        NumberOption::Given(value) => {
            if value > usize::MAX as u64 {
                return Err(ScanError::InvalidArgument);
            }
            value as usize
        },
    };
    let timeout_ms: u64 = match read_number_option(args, Flag::Timeout) {
        NumberOption::Absent => DEFAULT_TIMEOUT_MS,
        NumberOption::Invalid => {
            return Err(ScanError::InvalidArgument);
        },
        NumberOption::Given(value) => value,
    };
    let banner_enabled: bool = locate(args, Flag::NoBanner) >= args.len();
    let subnet: String = args[1].clone();
    Ok(
        Invocation::Scan {
            subnet,
            config: ScanConfig { port, concurrency, timeout_ms, banner_enabled },
        },
    )
}

} // verus!
