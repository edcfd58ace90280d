//! The final balance snapshot of one account, with every balance rendered
//! as an exact decimal with four fractional digits.

use vstd::prelude::*;

use crate::account::Account;

verus! {

/// The decimal digit character for `d`.
pub open spec fn spec_digit(d: int) -> char
    recommends
        0 <= d < 10,
{
    if d == 0 {
        '0'
    } else if d == 1 {
        '1'
    } else if d == 2 {
        '2'
    } else if d == 3 {
        '3'
    } else if d == 4 {
        '4'
    } else if d == 5 {
        '5'
    } else if d == 6 {
        '6'
    } else if d == 7 {
        '7'
    } else if d == 8 {
        '8'
    } else {
        '9'
    }
}

/// The decimal digits of `n`, most significant first, without leading
/// zeros (a single zero digit for zero).
pub open spec fn spec_digits(n: nat) -> Seq<char>
    decreases n,
{
    if n < 10 {
        seq![spec_digit(n as int)]
    } else {
        spec_digits(n / 10) + seq![spec_digit((n % 10) as int)]
    }
}

/// Exactly four fractional digits for a count of ten-thousandths
/// `0 <= f < 10000`, with leading zeros.
pub open spec fn spec_frac4(f: int) -> Seq<char>
    recommends
        0 <= f < 10000,
{
    seq![
        spec_digit(f / 1000),
        spec_digit((f / 100) % 10),
        spec_digit((f / 10) % 10),
        spec_digit(f % 10),
    ]
}

/// A count of ten-thousandths rendered as a signed decimal with exactly
/// four fractional digits: the shape every balance takes in the final
/// output.
pub open spec fn spec_format_units(u: int) -> Seq<char> {
    let a = if u < 0 {
        -u
    } else {
        u
    };
    let sign: Seq<char> = if u < 0 {
        seq!['-']
    } else {
        Seq::empty()
    };
    sign + spec_digits((a / 10000) as nat) + seq!['.'] + spec_frac4(a % 10000)
}

/// The one-character string for a decimal digit.
fn digit_str(d: u128) -> (s: &'static str)
    requires
        d < 10,
    ensures
        s@ == seq![spec_digit(d as int)],
{
    match d {
        0 => {
            proof {
                reveal_strlit("0");
                assert("0"@ =~= seq![spec_digit(0)]);
            }
            "0"
        },
        1 => {
            proof {
                reveal_strlit("1");
                assert("1"@ =~= seq![spec_digit(1)]);
            }
            "1"
        },
        2 => {
            proof {
                reveal_strlit("2");
                assert("2"@ =~= seq![spec_digit(2)]);
            }
            "2"
        },
        3 => {
            proof {
                reveal_strlit("3");
                assert("3"@ =~= seq![spec_digit(3)]);
            }
            "3"
        },
        4 => {
            proof {
                reveal_strlit("4");
                assert("4"@ =~= seq![spec_digit(4)]);
            }
            "4"
        },
        5 => {
            proof {
                reveal_strlit("5");
                assert("5"@ =~= seq![spec_digit(5)]);
            }
            "5"
        },
        6 => {
            proof {
                reveal_strlit("6");
                assert("6"@ =~= seq![spec_digit(6)]);
            }
            "6"
        },
        7 => {
            proof {
                reveal_strlit("7");
                assert("7"@ =~= seq![spec_digit(7)]);
            }
            "7"
        },
        8 => {
            proof {
                reveal_strlit("8");
                assert("8"@ =~= seq![spec_digit(8)]);
            }
            "8"
        },
        _ => {
            proof {
                reveal_strlit("9");
                assert("9"@ =~= seq![spec_digit(9)]);
            }
            "9"
        },
    }
}

/// Appends the decimal digits of `n`, most significant first.
fn push_digits(s: &mut String, n: u128)
    ensures
        final(s)@ == old(s)@ + spec_digits(n as nat),
    decreases n,
{
    if n >= 10 {
        push_digits(s, n / 10);
    }
    s.append(digit_str(n % 10));
    proof {
        assert(final(s)@ =~= old(s)@ + spec_digits(n as nat));
    }
}

/// Renders a count of ten-thousandths as a signed decimal with exactly
/// four fractional digits.
pub fn format_units(units: i128) -> (s: String)
    ensures
        s@ == spec_format_units(units as int),
{
    let a: u128 = if units < 0 {
        ((-(units + 1)) as u128) + 1
    } else {
        units as u128
    };
    proof {
        assert(a as int == if units < 0 {
            -(units as int)
        } else {
            units as int
        });
    }
    let mut s = String::new();
    if units < 0 {
        proof {
            reveal_strlit("-");
            assert("-"@ =~= seq!['-']);
        }
        s.append("-");
    }
    push_digits(&mut s, a / 10000);
    proof {
        reveal_strlit(".");
        assert("."@ =~= seq!['.']);
    }
    s.append(".");
    let frac = a % 10000;
    s.append(digit_str(frac / 1000));
    s.append(digit_str((frac / 100) % 10));
    s.append(digit_str((frac / 10) % 10));
    s.append(digit_str(frac % 10));
    proof {
        assert(s@ =~= spec_format_units(units as int));
    }
    s
}

/// One line of the final output: the client, its balances rendered with
/// four fractional digits, and the lock flag. The total is computed at
/// emission time — available plus held — never stored.
#[derive(Debug)]
pub struct AccountOutput {
    pub client: u16,
    pub available: String,
    pub held: String,
    pub total: String,
    pub locked: bool,
}

impl AccountOutput {
    /// Renders an account's final snapshot.
    pub fn from(account: Account) -> (out: AccountOutput)
        requires
            i128::MIN <= account.available + account.held <= i128::MAX,
        ensures
            out.client == account.client,
            out.locked == account.locked,
            out.available@ == spec_format_units(account.available as int),
            out.held@ == spec_format_units(account.held as int),
            out.total@ == spec_format_units(account.available + account.held),
    {
        let total = account.total();
        AccountOutput {
            client: account.client,
            available: format_units(account.available),
            held: format_units(account.held),
            total: format_units(total),
            locked: account.locked,
        }
    }
}

} // verus!
