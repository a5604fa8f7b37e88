//! Text derivations: decimal numbers, lower-casing, and the normal forms of
//! user names used for lookups and searches.
use vstd::prelude::*;

verus! {

pub open spec fn digit_char(d: nat) -> char {
    if d == 0 {
        '0'
    } else if d == 1 {
        '1'
    } else if d == 2 {
        '2'
    } else if d == 3 {
        '3'
    } else if d == 4 {
        '4'
    } else if d == 5 {
        '5'
    } else if d == 6 {
        '6'
    } else if d == 7 {
        '7'
    } else if d == 8 {
        '8'
    } else {
        '9'
    }
}

/// The decimal digits of `n`, most significant first, with no leading zero.
pub open spec fn decimal_digits(n: nat) -> Seq<char>
    decreases n,
{
    if n < 10 {
        seq![digit_char(n)]
    } else {
        decimal_digits(n / 10).push(digit_char(n % 10))
    }
}

/// `n` written in decimal, with a leading `-` when negative.
pub open spec fn decimal(n: int) -> Seq<char> {
    if n < 0 {
        seq!['-'] + decimal_digits((-n) as nat)
    } else {
        decimal_digits(n as nat)
    }
}

fn digit_str(d: u64) -> (r: &'static str)
    requires
        d < 10,
    ensures
        r@ == seq![digit_char(d as nat)],
{
    proof {
        reveal_strlit("0");
        reveal_strlit("1");
        reveal_strlit("2");
        reveal_strlit("3");
        reveal_strlit("4");
        reveal_strlit("5");
        reveal_strlit("6");
        reveal_strlit("7");
        reveal_strlit("8");
        reveal_strlit("9");
    }
    if d == 0 {
        "0"
    } else if d == 1 {
        "1"
    } else if d == 2 {
        "2"
    } else if d == 3 {
        "3"
    } else if d == 4 {
        "4"
    } else if d == 5 {
        "5"
    } else if d == 6 {
        "6"
    } else if d == 7 {
        "7"
    } else if d == 8 {
        "8"
    } else {
        "9"
    }
}

/// Writes `n` in decimal.
pub fn decimal_string(n: i64) -> (r: String)
    ensures
        r@ == decimal(n as int),
{
    let magnitude: u64 = if n < 0 {
        (-(n as i128)) as u64
    } else {
        n as u64
    };
    let ghost whole = magnitude as nat;
    let mut m: u64 = magnitude;
    let mut acc = String::new();
    while m >= 10
        invariant
            decimal_digits(whole) == decimal_digits(m as nat) + acc@,
        decreases m,
    {
        let d = m % 10;
        proof {
            assert(decimal_digits(m as nat) == decimal_digits((m / 10) as nat).push(
                digit_char(d as nat),
            ));
            assert(decimal_digits((m / 10) as nat).push(digit_char(d as nat)) + acc@
                == decimal_digits((m / 10) as nat) + (seq![digit_char(d as nat)] + acc@));
        }
        acc = String::from_str(digit_str(d)).concat(acc.as_str());
        m = m / 10;
    }
    let digits = String::from_str(digit_str(m)).concat(acc.as_str());
    if n < 0 {
        proof {
            assert(seq!['-'] == "-"@) by {
                reveal_strlit("-");
            }
        }
        String::from_str("-").concat(digits.as_str())
    } else {
        digits
    }
}

/// What `str::to_lowercase` makes of a text.
pub uninterp spec fn lower_of(s: Seq<char>) -> Seq<char>;

/// Relies on `str::to_lowercase`: the Unicode lower case of each character;
/// the result depends on the characters alone.
#[verifier::external_body]
pub(crate) fn to_lowercase(s: &str) -> (r: String)
    ensures
        r@ == lower_of(s@),
{
    s.to_lowercase()
}

/// Spaces become underscores.
pub open spec fn underscored(s: Seq<char>) -> Seq<char>
    decreases s.len(),
{
    if s.len() == 0 {
        s
    } else if s.last() == ' ' {
        underscored(s.drop_last()).push('_')
    } else {
        underscored(s.drop_last()).push(s.last())
    }
}

/// Spaces become underscores and characters outside ASCII are dropped.
pub open spec fn ascii_underscored(s: Seq<char>) -> Seq<char>
    decreases s.len(),
{
    if s.len() == 0 {
        s
    } else if s.last() == ' ' {
        ascii_underscored(s.drop_last()).push('_')
    } else if (s.last() as u32) < 128 {
        ascii_underscored(s.drop_last()).push(s.last())
    } else {
        ascii_underscored(s.drop_last())
    }
}

/// Rewrites a text character by character: spaces become underscores, and
/// when `ascii_only` holds, characters outside ASCII are dropped.
fn rewrite(s: &str, ascii_only: bool) -> (r: String)
    ensures
        ascii_only ==> r@ == ascii_underscored(s@),
        !ascii_only ==> r@ == underscored(s@),
{
    let n = s.unicode_len();
    let mut out = String::new();
    let mut i: usize = 0;
    while i < n
        invariant
            n == s@.len(),
            i <= n,
            ascii_only ==> out@ == ascii_underscored(s@.subrange(0, i as int)),
            !ascii_only ==> out@ == underscored(s@.subrange(0, i as int)),
        decreases n - i,
    {
        let c = s.get_char(i);
        proof {
            let next = s@.subrange(0, i + 1);
            assert(next.drop_last() == s@.subrange(0, i as int));
            assert(next.last() == c);
        }
        let ghost before = out@;
        if c == ' ' {
            out.append("_");
            proof {
                reveal_strlit("_");
                assert("_"@ =~= seq!['_']);
                assert(out@ == before.push('_'));
            }
        } else if !ascii_only || (c as u32) < 128 {
            let piece = s.substring_char(i, i + 1);
            out.append(piece);
            proof {
                assert(piece@ == seq![c]);
                assert(out@ == before.push(c));
            }
        }
        i = i + 1;
    }
    proof {
        assert(s@.subrange(0, n as int) == s@);
    }
    out
}

/// The form under which user names are stored for lookups: lower case, with
/// underscores for spaces.
pub fn username_safe(username: &str) -> (r: String)
    ensures
        r@ == underscored(lower_of(username@)),
{
    let lower = to_lowercase(username);
    rewrite(lower.as_str(), false)
}

/// The `LIKE` pattern for a user search: the query in lower case, spaces as
/// underscores, characters outside ASCII dropped, between `%` signs.
pub fn search_pattern(query: &str) -> (r: String)
    ensures
        r@ == seq!['%'] + ascii_underscored(lower_of(query@)) + seq!['%'],
{
    let lower = to_lowercase(query);
    let body = rewrite(lower.as_str(), true);
    proof {
        reveal_strlit("%");
    }
    String::from_str("%").concat(body.as_str()).concat("%")
}

} // verus!
