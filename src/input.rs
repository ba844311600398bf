//! Commands typed at a validator's terminal.
use vstd::prelude::*;

verus! {

/// A terminal command: a request about accounts, or a request to the
/// terminal itself. Accounts are given by number.
#[derive(Clone, Copy, Debug, PartialEq, Eq, Structural)]
pub enum Input {
    /// Add an amount of money to an account.
    Add { account: u32, amount: u32 },
    /// Remove an amount of money from an account.
    Remove { account: u32, amount: u32 },
    /// Transfer an amount between two accounts.
    Transfer { sender: u32, recipient: u32, amount: u32 },
    /// History of an account according to another.
    HistoryFor { account: u32, according_to: u32 },
    /// List the commands.
    Help,
    /// Clear the terminal.
    Clear,
    /// Quit.
    Quit,
    /// Balance of an account according to another.
    BalanceFor { account: u32, according_to: u32 },
    /// All balances according to an account.
    Balances { according_to: u32 },
}

/// `s` with its leading and trailing white space removed.
pub uninterp spec fn trimmed(s: Seq<char>) -> Seq<char>;

/// `s` in lower case.
pub uninterp spec fn lowercase_of(s: Seq<char>) -> Seq<char>;

/// Relies on `str::trim`: the result depends on the characters alone.
#[verifier::external_body]
fn trim(s: &str) -> (r: &str)
    ensures
        r@ == trimmed(s@),
{
    s.trim()
}

/// Relies on `str::to_lowercase`: the result depends on the characters alone.
#[verifier::external_body]
fn lowercase(s: &str) -> (r: String)
    ensures
        r@ == lowercase_of(s@),
{
    s.to_lowercase()
}

/// Whether every character of `s` is a decimal digit.
pub open spec fn all_digits(s: Seq<char>) -> bool {
    forall|i: int| 0 <= i < s.len() ==> '0' <= #[trigger] s[i] <= '9'
}

/// Value of the decimal digits `s`.
pub open spec fn digits_value(s: Seq<char>) -> int
    decreases s.len(),
{
    if s.len() == 0 {
        0
    } else {
        digits_value(s.drop_last()) * 10 + (s.last() as int - '0' as int)
    }
}

/// The 32-bit value that `s` writes in decimal, after an optional `+`:
/// `None` when `s` holds anything else, no digit, or a value too large.
pub open spec fn decimal_value(s: Seq<char>) -> Option<u32> {
    let d = if s.len() > 0 && s[0] == '+' {
        s.drop_first()
    } else {
        s
    };
    if d.len() > 0 && all_digits(d) && digits_value(d) <= u32::MAX {
        Some(digits_value(d) as u32)
    } else {
        None
    }
}

proof fn lemma_digits_grow(s: Seq<char>, k: int)
    requires
        0 <= k <= s.len(),
        all_digits(s),
    ensures
        digits_value(s.subrange(0, k)) <= digits_value(s),
        digits_value(s) >= 0,
    decreases s.len(),
{
    if s.len() > 0 {
        assert(all_digits(s.drop_last()));
        if k == s.len() {
            assert(s.subrange(0, k) =~= s);
            lemma_digits_grow(s.drop_last(), 0);
        } else {
            assert(s.subrange(0, k) =~= s.drop_last().subrange(0, k));
            lemma_digits_grow(s.drop_last(), k);
        }
        assert('0' <= s.last() <= '9');
    }
}

/// The value that `s` writes in decimal, as `u32`'s `FromStr` reads it: an
/// optional `+`, then decimal digits whose value fits.
pub fn parse_u32(s: &str) -> (r: Option<u32>)
    ensures
        r == decimal_value(s@),
{
    if !s.is_ascii() {
        proof {
            let k = choose|k: int| 0 <= k < s@.len() && !('\0' <= #[trigger] s@[k] <= '\u{7f}');
            if s@.len() > 0 && s@[0] == '+' {
                assert(s@.drop_first()[k - 1] == s@[k]);
            } else {
                assert(s@[k] == s@[k]);
            }
        }
        return None;
    }
    let bytes = s.as_bytes();
    proof {
        vstd::string::is_ascii_spec_bytes(s);
        assert(bytes@.len() == s@.len());
    }
    let n = bytes.len();
    let mut start: usize = 0;
    if n > 0 && bytes[0] == 43u8 {
        start = 1;
    }
    let ghost d = if s@.len() > 0 && s@[0] == '+' { s@.drop_first() } else { s@ };
    proof {
        if n > 0 {
            assert(bytes@[0] == s@[0] as u8);
        }
        assert(d =~= s@.subrange(start as int, s@.len() as int));
    }
    if start == n {
        assert(d.len() == 0);
        return None;
    }
    let mut v: u64 = 0;
    let mut i: usize = start;
    while i < n
        invariant
            start <= i <= n,
            n == s@.len(),
            bytes@ == Seq::new(s@.len(), |j: int| s@[j] as u8),
            d == s@.subrange(start as int, n as int),
            d == (if s@.len() > 0 && s@[0] == '+' {
                s@.drop_first()
            } else {
                s@
            }),
            d.len() > 0,
            forall|j: int| 0 <= j < s@.len() ==> '\0' <= #[trigger] s@[j] <= '\u{7f}',
            all_digits(d.subrange(0, i - start)),
            v == digits_value(d.subrange(0, i - start)),
            v <= u32::MAX,
        decreases n - i,
    {
        let b = bytes[i];
        let ghost c = s@[i as int];
        assert(b == c as u8);
        assert(d[i - start] == c);
        if b < 48u8 || b > 57u8 {
            assert(!('0' <= c <= '9'));
            assert(!all_digits(d));
            return None;
        }
        assert('0' <= c <= '9');
        assert(d.subrange(0, i + 1 - start).drop_last() =~= d.subrange(0, i - start));
        v = v * 10 + (b - 48u8) as u64;
        assert(c as int - '0' as int == (b - 48u8) as int);
        assert(v == digits_value(d.subrange(0, i + 1 - start)));
        i = i + 1;
        if v > u32::MAX as u64 {
            proof {
                if all_digits(d) {
                    lemma_digits_grow(d, i - start);
                    assert(digits_value(d) > u32::MAX);
                }
            }
            return None;
        }
        assert(all_digits(d.subrange(0, i - start)));
    }
    assert(d.subrange(0, n - start) =~= d);
    Some(v as u32)
}

/// Model of a list of words.
pub open spec fn words_view(v: Seq<&str>) -> Seq<Seq<char>> {
    Seq::new(v.len(), |i: int| v[i]@)
}

/// Whether every word of `words` but the first is a number.
pub open spec fn numeric_args(words: Seq<Seq<char>>) -> bool {
    forall|k: int| 1 <= k < words.len() ==> (#[trigger] decimal_value(trimmed(words[k]))) is Some
}

/// The numbers written by the words of `words` but the first.
pub open spec fn args_of(words: Seq<Seq<char>>) -> Seq<u32> {
    Seq::new((words.len() - 1) as nat, |k: int| decimal_value(trimmed(words[k + 1]))->0)
}

/// The command named `cmd` with the numbers `args`, or the message that
/// says why there is none.
pub open spec fn command(cmd: Seq<char>, args: Seq<u32>) -> Result<Input, Seq<char>> {
    let wrong = "Wrong amount of arguments! (Type \"help\" to see how to use command)"@;
    if cmd == "add"@ {
        if args.len() != 2 { Err(wrong) } else { Ok(Input::Add { account: args[0], amount: args[1] }) }
    } else if cmd == "remove"@ {
        if args.len() != 2 { Err(wrong) } else { Ok(Input::Remove { account: args[0], amount: args[1] }) }
    } else if cmd == "transfer"@ {
        if args.len() != 3 {
            Err(wrong)
        } else {
            Ok(Input::Transfer { sender: args[0], recipient: args[1], amount: args[2] })
        }
    } else if cmd == "historyfor"@ {
        if args.len() != 2 { Err(wrong) } else { Ok(Input::HistoryFor { account: args[0], according_to: args[1] }) }
    } else if cmd == "help"@ {
        if args.len() != 0 { Err(wrong) } else { Ok(Input::Help) }
    } else if cmd == "clear"@ {
        if args.len() != 0 { Err(wrong) } else { Ok(Input::Clear) }
    } else if cmd == "quit"@ {
        if args.len() != 0 { Err(wrong) } else { Ok(Input::Quit) }
    } else if cmd == "balancefor"@ {
        if args.len() != 2 { Err(wrong) } else { Ok(Input::BalanceFor { account: args[0], according_to: args[1] }) }
    } else if cmd == "balances"@ {
        if args.len() != 1 { Err(wrong) } else { Ok(Input::Balances { according_to: args[0] }) }
    } else {
        Err("The typed command could not be recognised! (Type \"help\" to get a list of possible commands)"@)
    }
}

/// The command that the words `words` type, or the message that says why
/// there is none. The first word names the command, whatever its case; the
/// others are its arguments, numbers that may be surrounded by white space.
pub open spec fn input_of(words: Seq<Seq<char>>) -> Result<Input, Seq<char>> {
    if words.len() == 0 {
        Err("No command entered! Type \"help\" to get a list of possible commands"@)
    } else if !numeric_args(words) {
        Err("Arguments should be non negative numbers! (Type \"help\" to see how to use command)"@)
    } else {
        command(lowercase_of(words[0]), args_of(words))
    }
}

fn wrong_amount() -> (r: String)
    ensures
        r@ == "Wrong amount of arguments! (Type \"help\" to see how to use command)"@,
{
    "Wrong amount of arguments! (Type \"help\" to see how to use command)".to_owned()
}

impl Input {
    /// The command typed as the words `value`, or a message that says why
    /// there is none.
    pub fn from(value: &Vec<&str>) -> (r: Result<Input, String>)
        ensures
            match r {
                Ok(i) => input_of(words_view(value@)) == Ok::<Input, Seq<char>>(i),
                Err(e) => input_of(words_view(value@)) == Err::<Input, Seq<char>>(e@),
            },
    {
        let ghost words = words_view(value@);
        if value.len() == 0 {
            return Err("No command entered! Type \"help\" to get a list of possible commands".to_owned());
        }
        let mut args: Vec<u32> = Vec::new();
        let mut k: usize = 1;
        while k < value.len()
            invariant
                1 <= k <= value.len(),
                words == words_view(value@),
                forall|j: int| 1 <= j < k ==> (#[trigger] decimal_value(trimmed(words[j]))) is Some,
                args@ == Seq::new((k - 1) as nat, |j: int| decimal_value(trimmed(words[j + 1]))->0),
            decreases value.len() - k,
        {
            match parse_u32(trim(value[k])) {
                Some(num) => {
                    args.push(num);
                },
                None => {
                    assert(decimal_value(trimmed(words[k as int])) is None);
                    return Err(
                        "Arguments should be non negative numbers! (Type \"help\" to see how to use command)".to_owned(),
                    );
                },
            }
            k = k + 1;
            assert(args@ =~= Seq::new((k - 1) as nat, |j: int| decimal_value(trimmed(words[j + 1]))->0));
        }
        assert(args@ =~= args_of(words));
        let cmd = lowercase(value[0]);
        Input::from_command(cmd.as_str(), &args)
    }

    /// The command named `cmd`, already in lower case, with the numbers
    /// `args`, or a message that says why there is none.
    pub fn from_command(cmd: &str, args: &Vec<u32>) -> (r: Result<Input, String>)
        ensures
            match r {
                Ok(i) => command(cmd@, args@) == Ok::<Input, Seq<char>>(i),
                Err(e) => command(cmd@, args@) == Err::<Input, Seq<char>>(e@),
            },
    {
        let cmd = cmd.to_owned();
        if cmd == "add".to_owned() {
            if args.len() != 2 { Err(wrong_amount()) } else { Ok(Input::Add { account: args[0], amount: args[1] }) }
        } else if cmd == "remove".to_owned() {
            if args.len() != 2 { Err(wrong_amount()) } else { Ok(Input::Remove { account: args[0], amount: args[1] }) }
        } else if cmd == "transfer".to_owned() {
            if args.len() != 3 {
                Err(wrong_amount())
            } else {
                Ok(Input::Transfer { sender: args[0], recipient: args[1], amount: args[2] })
            }
        } else if cmd == "historyfor".to_owned() {
            if args.len() != 2 {
                Err(wrong_amount())
            } else {
                Ok(Input::HistoryFor { account: args[0], according_to: args[1] })
            }
        } else if cmd == "help".to_owned() {
            if args.len() != 0 { Err(wrong_amount()) } else { Ok(Input::Help) }
        } else if cmd == "clear".to_owned() {
            if args.len() != 0 { Err(wrong_amount()) } else { Ok(Input::Clear) }
        } else if cmd == "quit".to_owned() {
            if args.len() != 0 { Err(wrong_amount()) } else { Ok(Input::Quit) }
        } else if cmd == "balancefor".to_owned() {
            if args.len() != 2 {
                Err(wrong_amount())
            } else {
                Ok(Input::BalanceFor { account: args[0], according_to: args[1] })
            }
        } else if cmd == "balances".to_owned() {
            if args.len() != 1 { Err(wrong_amount()) } else { Ok(Input::Balances { according_to: args[0] }) }
        } else {
            Err(
                "The typed command could not be recognised! (Type \"help\" to get a list of possible commands)".to_owned(),
            )
        }
    }
}

} // verus!
