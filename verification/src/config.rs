//! The configuration of a run, read once from the command line.

use vstd::prelude::*;
use vstd::string::StrSliceExecFns;

verus! {

/// `c` is one of the ten decimal digits.
pub open spec fn is_digit(c: char) -> bool {
    '0' <= c <= '9'
}

/// The number that the digit `c` stands for.
pub open spec fn digit_value(c: char) -> nat {
    (c as int - '0' as int) as nat
}

/// The number that a sequence of decimal digits stands for.
pub open spec fn number(digits: Seq<char>) -> nat
    decreases digits.len(),
{
    if digits.len() == 0 {
        0
    } else {
        number(digits.drop_last()) * 10 + digit_value(digits.last())
    }
}

/// The text without the plus sign that may stand in front of a number.
pub open spec fn unsigned(text: Seq<char>) -> Seq<char> {
    if text.len() > 0 && text[0] == '+' {
        text.subrange(1, text.len() as int)
    } else {
        text
    }
}

/// The text is a decimal number: one digit or more, with or without a plus
/// sign in front.
pub open spec fn is_number(text: Seq<char>) -> bool {
    &&& unsigned(text).len() > 0
    &&& forall|k: int| 0 <= k < unsigned(text).len() ==> is_digit(#[trigger] unsigned(text)[k])
}

/// What the text is read as when numbers up to `max` are accepted: its value
/// if it is a decimal number of at most `max`, and nothing otherwise.
pub open spec fn parsed(text: Seq<char>, max: nat) -> Option<nat> {
    if is_number(text) && number(unsigned(text)) <= max {
        Some(number(unsigned(text)))
    } else {
        None
    }
}

/// A longer sequence of digits does not stand for a smaller number than its
/// beginning does.
pub proof fn lemma_number_grows(digits: Seq<char>, k: int)
    requires
        0 <= k <= digits.len(),
    ensures
        number(digits.subrange(0, k)) <= number(digits),
    decreases digits.len() - k,
{
    if k == digits.len() {
        assert(digits.subrange(0, k) == digits);
    } else {
        lemma_number_grows(digits, k + 1);
        assert(digits.subrange(0, k + 1).drop_last() == digits.subrange(0, k));
    }
}

/// Reads a decimal number that fits into 64 bits.
pub fn parse_u64(text: &str) -> (value: Option<u64>)
    ensures
        match value {
            Some(v) => parsed(text@, u64::MAX as nat) == Some(v as nat),
            None => parsed(text@, u64::MAX as nat) is None,
        },
{
    let len = text.unicode_len();
    if len == 0 {
        return None;
    }
    let start: usize = if text.get_char(0) == '+' {
        1
    } else {
        0
    };
    if start == len {
        return None;
    }
    let ghost digits = unsigned(text@);
    assert(digits == text@.subrange(start as int, len as int));
    let mut value: u64 = 0;
    let mut k: usize = start;
    while k < len
        invariant
            start <= k <= len,
            len == text@.len(),
            digits == text@.subrange(start as int, len as int),
            digits == unsigned(text@),
            forall|j: int| 0 <= j < k - start ==> is_digit(#[trigger] digits[j]),
            value == number(digits.subrange(0, k - start)),
        decreases len - k,
    {
        let c = text.get_char(k);
        assert(c == digits[k - start]);
        if c < '0' || c > '9' {
            return None;
        }
        let d: u64 = (c as u32 - '0' as u32) as u64;
        proof {
            assert(digits.subrange(0, k + 1 - start).drop_last() == digits.subrange(
                0,
                k - start,
            ));
            assert(number(digits.subrange(0, k + 1 - start)) == value * 10 + d);
            lemma_number_grows(digits, k + 1 - start);
        }
        if value > (u64::MAX - d) / 10 {
            return None;
        }
        value = value * 10 + d;
        k += 1;
    }
    assert(digits.subrange(0, k - start) == digits);
    Some(value)
}

/// Reads a decimal number that fits into a `usize`.
pub fn parse_usize(text: &str) -> (value: Option<usize>)
    ensures
        match value {
            Some(v) => parsed(text@, usize::MAX as nat) == Some(v as nat),
            None => parsed(text@, usize::MAX as nat) is None,
        },
{
    match parse_u64(text) {
        Some(v) => if v <= usize::MAX as u64 {
            Some(v as usize)
        } else {
            None
        },
        None => None,
    }
}

/// Why the command line gave no configuration.
#[derive(Clone, Copy, Debug, PartialEq, Eq)]
pub enum ConfigError {
    /// Fewer than four arguments behind the program's name.
    NotEnoughArguments,
    /// The number of users is no number, or zero.
    Users,
    /// The batch size is no number, or zero.
    BatchSize,
    /// The number of iterations is no number, or zero.
    Iterations,
    /// The timeout is no number, or zero.
    Timeout,
}

impl ConfigError {
    /// The error in words.
    pub fn message(&self) -> (text: &'static str)
        ensures
            text@ == match self {
                ConfigError::NotEnoughArguments => "not enough arguments"@,
                ConfigError::Users => "invalid number of users"@,
                ConfigError::BatchSize => "invalid batch size"@,
                ConfigError::Iterations => "invalid number of iterations"@,
                ConfigError::Timeout => "invalid timeout"@,
            },
    {
        match self {
            ConfigError::NotEnoughArguments => "not enough arguments",
            ConfigError::Users => "invalid number of users",
            ConfigError::BatchSize => "invalid batch size",
            ConfigError::Iterations => "invalid number of iterations",
            ConfigError::Timeout => "invalid timeout",
        }
    }
}

/// What a run is made with.
#[derive(Clone, Debug, PartialEq, Eq)]
pub struct Config {
    /// Address of the service.
    pub addr: String,
    /// Number of virtual users.
    pub users: usize,
    /// Number of records in each request.
    pub b: usize,
    /// Number of iterations of each user.
    pub n: usize,
    /// Timeout in milliseconds.
    pub timeout: u64,
}

/// A [`Config`] value as seen by contracts.
pub struct ConfigView {
    pub addr: Seq<char>,
    pub users: nat,
    pub b: nat,
    pub n: nat,
    pub timeout: nat,
}

impl View for Config {
    type V = ConfigView;

    open spec fn view(&self) -> ConfigView {
        ConfigView {
            addr: self.addr@,
            users: self.users as nat,
            b: self.b as nat,
            n: self.n as nat,
            timeout: self.timeout as nat,
        }
    }
}

impl ConfigView {
    /// There is at least one user, one record in a request and one iteration,
    /// and the timeout is not zero.
    pub open spec fn valid(self) -> bool {
        self.users >= 1 && self.b >= 1 && self.n >= 1 && self.timeout > 0
    }
}

/// A count read from `text`: a decimal number from 1 up to `max`.
pub open spec fn count_in(text: Seq<char>, max: nat) -> Option<nat> {
    match parsed(text, max) {
        Some(v) => if v >= 1 {
            Some(v)
        } else {
            None
        },
        None => None,
    }
}

/// The number of users named by the arguments: the second argument where
/// there are five or more behind the program's name, and one otherwise.
pub open spec fn users_in(args: Seq<String>) -> Option<nat> {
    if args.len() >= 6 {
        count_in(args[2]@, usize::MAX as nat)
    } else {
        Some(1)
    }
}

/// Position of the batch size among the arguments.
pub open spec fn batch_at(args: Seq<String>) -> int {
    if args.len() >= 6 {
        3
    } else {
        2
    }
}

/// The configuration that the arguments give. The first argument is the
/// program's name; behind it come the address, the number of users, the
/// batch size, the number of iterations and the timeout in milliseconds. The
/// number of users may be left out. Arguments behind these are not read.
pub open spec fn configured(args: Seq<String>) -> Result<ConfigView, ConfigError> {
    if args.len() < 5 {
        Err(ConfigError::NotEnoughArguments)
    } else if users_in(args) is None {
        Err(ConfigError::Users)
    } else if count_in(args[batch_at(args)]@, usize::MAX as nat) is None {
        Err(ConfigError::BatchSize)
    } else if count_in(args[batch_at(args) + 1]@, usize::MAX as nat) is None {
        Err(ConfigError::Iterations)
    } else if count_in(args[batch_at(args) + 2]@, u64::MAX as nat) is None {
        Err(ConfigError::Timeout)
    } else {
        Ok(
            ConfigView {
                addr: args[1]@,
                users: users_in(args)->0,
                b: count_in(args[batch_at(args)]@, usize::MAX as nat)->0,
                n: count_in(args[batch_at(args) + 1]@, usize::MAX as nat)->0,
                timeout: count_in(args[batch_at(args) + 2]@, u64::MAX as nat)->0,
            },
        )
    }
}

/// Reads a count from 1 up to the largest `usize`.
fn read_count(text: &str) -> (value: Option<usize>)
    ensures
        match value {
            Some(v) => count_in(text@, usize::MAX as nat) == Some(v as nat),
            None => count_in(text@, usize::MAX as nat) is None,
        },
{
    match parse_usize(text) {
        Some(v) => if v >= 1 {
            Some(v)
        } else {
            None
        },
        None => None,
    }
}

impl Config {
    /// Reads the configuration from the arguments of the command line. Every
    /// configuration that it returns is valid.
    pub fn new(args: &[String]) -> (out: Result<Config, ConfigError>)
        ensures
            match out {
                Ok(config) => configured(args@) == Ok::<ConfigView, ConfigError>(config@)
                    && config@.valid(),
                Err(error) => configured(args@) == Err::<ConfigView, ConfigError>(error),
            },
    {
        if args.len() < 5 {
            return Err(ConfigError::NotEnoughArguments);
        }
        let with_users = args.len() >= 6;
        let at: usize = if with_users {
            3
        } else {
            2
        };
        let users: usize = if with_users {
            match read_count(args[2].as_str()) {
                Some(v) => v,
                None => {
                    return Err(ConfigError::Users);
                },
            }
        } else {
            1
        };
        let b: usize = match read_count(args[at].as_str()) {
            Some(v) => v,
            None => {
                return Err(ConfigError::BatchSize);
            },
        };
        let n: usize = match read_count(args[at + 1].as_str()) {
            Some(v) => v,
            None => {
                return Err(ConfigError::Iterations);
            },
        };
        let timeout: u64 = match parse_u64(args[at + 2].as_str()) {
            Some(v) => if v >= 1 {
                v
            } else {
                return Err(ConfigError::Timeout);
            },
            None => {
                return Err(ConfigError::Timeout);
            },
        };
        Ok(Config { addr: args[1].clone(), users, b, n, timeout })
    }
}

} // verus!
