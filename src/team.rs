use vstd::prelude::*;
use vstd::string::StringExecFns;

verus! {

pub open spec fn digit_char(d: nat) -> char {
    if d == 0 {
        '0'
    } else if d == 1 {
        '1'
    } else if d == 2 {
        '2'
    } else if d == 3 {
        '3'
    } else if d == 4 {
        '4'
    } else if d == 5 {
        '5'
    } else if d == 6 {
        '6'
    } else if d == 7 {
        '7'
    } else if d == 8 {
        '8'
    } else {
        '9'
    }
}

/// Decimal digits of `n`, most significant first, without leading zeros.
pub open spec fn decimal(n: nat) -> Seq<char>
    decreases n,
{
    if n < 10 {
        seq![digit_char(n)]
    } else {
        decimal(n / 10) + seq![digit_char(n % 10)]
    }
}

/// The controller's address for `team`: `10.TE.AM.2`, where the decimal
/// digits of the team number are split as `0 | T`, `0 | TT`, `D | DD` or
/// `DD | DD`.
pub open spec fn team_ip(team: nat) -> Seq<char> {
    let s = decimal(team);
    let (hi, lo) = if s.len() <= 2 {
        (seq!['0'], s)
    } else if s.len() == 3 {
        (s.subrange(0, 1), s.subrange(1, 3))
    } else {
        (s.subrange(0, 2), s.subrange(2, 4))
    };
    seq!['1', '0', '.'] + hi + seq!['.'] + lo + seq!['.', '2']
}

fn push_digit(s: &mut String, d: u32)
    requires
        d < 10,
    ensures
        final(s)@ == old(s)@ + seq![digit_char(d as nat)],
{
    match d {
        0 => {
            proof { reveal_strlit("0"); }
            s.append("0");
        },
        1 => {
            proof { reveal_strlit("1"); }
            s.append("1");
        },
        2 => {
            proof { reveal_strlit("2"); }
            s.append("2");
        },
        3 => {
            proof { reveal_strlit("3"); }
            s.append("3");
        },
        4 => {
            proof { reveal_strlit("4"); }
            s.append("4");
        },
        5 => {
            proof { reveal_strlit("5"); }
            s.append("5");
        },
        6 => {
            proof { reveal_strlit("6"); }
            s.append("6");
        },
        7 => {
            proof { reveal_strlit("7"); }
            s.append("7");
        },
        8 => {
            proof { reveal_strlit("8"); }
            s.append("8");
        },
        _ => {
            proof { reveal_strlit("9"); }
            s.append("9");
        },
    }
}

/// The controller's address for a team number of at most four digits;
/// `None` for a larger one.
pub fn ip_from_team_number(team: u32) -> (r: Option<String>)
    ensures
        team >= 10000 <==> r is None,
        r matches Some(s) ==> s@ == team_ip(team as nat),
{
    if team >= 10000 {
        return None;
    }
    let ghost t = team as nat;
    proof {
        reveal_strlit("10.");
        reveal_strlit("10.0.");
        reveal_strlit(".");
        reveal_strlit(".2");
    }
    let mut s = String::new();
    if team < 100 {
        s.append("10.0.");
        if team >= 10 {
            push_digit(&mut s, team / 10);
            assert(decimal(t) == decimal(t / 10) + seq![digit_char(t % 10)]);
            assert(decimal(t / 10) == seq![digit_char(t / 10)]);
            assert(decimal(t) =~= seq![digit_char(t / 10), digit_char(t % 10)]);
        } else {
            assert(decimal(t) =~= seq![digit_char(t)]);
        }
        push_digit(&mut s, team % 10);
        s.append(".2");
        assert(s@ =~= team_ip(t));
    } else if team < 1000 {
        assert(decimal(t) =~= seq![digit_char(t / 100), digit_char((t / 10) % 10), digit_char(t % 10)])
            by {
            assert(t / 10 / 10 == t / 100);
            assert(decimal(t) == decimal(t / 10) + seq![digit_char(t % 10)]);
            assert(decimal(t / 10) == decimal(t / 100) + seq![digit_char((t / 10) % 10)]);
            assert(decimal(t / 100) == seq![digit_char(t / 100)]);
        };
        s.append("10.");
        push_digit(&mut s, team / 100);
        s.append(".");
        push_digit(&mut s, (team / 10) % 10);
        push_digit(&mut s, team % 10);
        s.append(".2");
        assert(s@ =~= team_ip(t));
    } else {
        assert(decimal(t) =~= seq![
            digit_char(t / 1000),
            digit_char((t / 100) % 10),
            digit_char((t / 10) % 10),
            digit_char(t % 10),
        ]) by {
            assert(t / 10 / 10 == t / 100);
            assert(t / 100 / 10 == t / 1000);
            assert(decimal(t) == decimal(t / 10) + seq![digit_char(t % 10)]);
            assert(decimal(t / 10) == decimal(t / 100) + seq![digit_char((t / 10) % 10)]);
            assert(decimal(t / 100) == decimal(t / 1000) + seq![digit_char((t / 100) % 10)]);
            assert(decimal(t / 1000) == seq![digit_char(t / 1000)]);
        };
        s.append("10.");
        push_digit(&mut s, team / 1000);
        push_digit(&mut s, (team / 100) % 10);
        s.append(".");
        push_digit(&mut s, (team / 10) % 10);
        push_digit(&mut s, team % 10);
        s.append(".2");
        assert(s@ =~= team_ip(t));
    }
    Some(s)
}

} // verus!
