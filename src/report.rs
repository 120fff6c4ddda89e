use vstd::prelude::*;

use crate::counter::CountResult;
use crate::CountMode;

verus! {

/// The character of a decimal digit.
pub open spec fn digit_char(d: nat) -> char
    recommends
        d < 10,
{
    seq!['0', '1', '2', '3', '4', '5', '6', '7', '8', '9'][d as int]
}

/// The decimal digits of `n`, most significant first, without leading zeros.
pub open spec fn decimal(n: nat) -> Seq<char>
    decreases n,
{
    if n < 10 {
        seq![digit_char(n)]
    } else {
        decimal(n / 10).push(digit_char(n % 10))
    }
}

/// The numbers that a mode reports, in the order they are printed.
pub open spec fn fields(mode: CountMode, r: CountResult) -> Seq<nat> {
    match mode {
        CountMode::Bytes => seq![r.bytes as nat],
        CountMode::Lines => seq![r.lines as nat],
        CountMode::Words => seq![r.words as nat],
        CountMode::All => seq![r.lines as nat, r.words as nat, r.bytes as nat],
    }
}

/// Each number of `ns` preceded by one space.
pub open spec fn spaced(ns: Seq<nat>) -> Seq<char>
    decreases ns.len(),
{
    if ns.len() == 0 {
        Seq::empty()
    } else {
        spaced(ns.drop_last()) + seq![' '] + decimal(ns.last())
    }
}

/// The summary line: one extra leading space, each reported number preceded
/// by a space, then a space and the path where the input has one.
pub open spec fn summary(mode: CountMode, r: CountResult, path: Option<Seq<char>>) -> Seq<char> {
    seq![' '] + spaced(fields(mode, r)) + match path {
        Some(p) => seq![' '] + p,
        None => Seq::empty(),
    }
}

fn digit_str(d: u64) -> (r: &'static str)
    requires
        d < 10,
    ensures
        r@ == seq![digit_char(d as nat)],
{
    proof {
        reveal_strlit("0");
        reveal_strlit("1");
        reveal_strlit("2");
        reveal_strlit("3");
        reveal_strlit("4");
        reveal_strlit("5");
        reveal_strlit("6");
        reveal_strlit("7");
        reveal_strlit("8");
        reveal_strlit("9");
    }
    let r = if d == 0 {
        "0"
    } else if d == 1 {
        "1"
    } else if d == 2 {
        "2"
    } else if d == 3 {
        "3"
    } else if d == 4 {
        "4"
    } else if d == 5 {
        "5"
    } else if d == 6 {
        "6"
    } else if d == 7 {
        "7"
    } else if d == 8 {
        "8"
    } else {
        "9"
    };
    assert(r@ =~= seq![digit_char(d as nat)]);
    r
}

/// Appends the decimal digits of `n`.
fn push_decimal(out: &mut String, n: u64)
    ensures
        final(out)@ == old(out)@ + decimal(n as nat),
    decreases n,
{
    if n >= 10 {
        push_decimal(out, n / 10);
    }
    out.append(digit_str(n % 10));
    assert(final(out)@ =~= old(out)@ + decimal(n as nat));
}

/// Renders the summary line of a count, without the trailing newline.
pub fn render(mode: CountMode, r: CountResult, path: Option<&str>) -> (s: String)
    ensures
        s@ == summary(
            mode,
            r,
            match path {
                Some(p) => Some(p@),
                None => None,
            },
        ),
{
    proof {
        reveal_strlit(" ");
    }
    let mut s = String::from_str(" ");
    assert(s@ =~= seq![' ']);
    match mode {
        CountMode::Bytes => {
            s.append(" ");
            push_decimal(&mut s, r.bytes);
            assert(fields(mode, r).drop_last() =~= Seq::<nat>::empty());
            assert(spaced(Seq::<nat>::empty()) =~= Seq::<char>::empty());
            assert(s@ =~= seq![' '] + spaced(fields(mode, r)));
        },
        CountMode::Lines => {
            s.append(" ");
            push_decimal(&mut s, r.lines);
            assert(fields(mode, r).drop_last() =~= Seq::<nat>::empty());
            assert(spaced(Seq::<nat>::empty()) =~= Seq::<char>::empty());
            assert(s@ =~= seq![' '] + spaced(fields(mode, r)));
        },
        CountMode::Words => {
            s.append(" ");
            push_decimal(&mut s, r.words);
            assert(fields(mode, r).drop_last() =~= Seq::<nat>::empty());
            assert(spaced(Seq::<nat>::empty()) =~= Seq::<char>::empty());
            assert(s@ =~= seq![' '] + spaced(fields(mode, r)));
        },
        CountMode::All => {
            s.append(" ");
            push_decimal(&mut s, r.lines);
            s.append(" ");
            push_decimal(&mut s, r.words);
            s.append(" ");
            push_decimal(&mut s, r.bytes);
            proof {
                let f = fields(mode, r);
                assert(f.drop_last().drop_last().drop_last() =~= Seq::<nat>::empty());
                assert(f.drop_last().drop_last() =~= seq![r.lines as nat]);
                assert(f.drop_last() =~= seq![r.lines as nat, r.words as nat]);
                assert(spaced(Seq::<nat>::empty()) =~= Seq::<char>::empty());
                let one = spaced(f.drop_last().drop_last());
                let two = spaced(f.drop_last());
                assert(one =~= seq![' '] + decimal(r.lines as nat));
                assert(two =~= one + seq![' '] + decimal(r.words as nat));
                assert(spaced(f) =~= two + seq![' '] + decimal(r.bytes as nat));
            }
            assert(s@ =~= seq![' '] + spaced(fields(mode, r)));
        },
    }
    assert(s@ =~= seq![' '] + spaced(fields(mode, r)));
    match path {
        Some(p) => {
            s.append(" ");
            s.append(p);
        },
        None => {},
    }
    s
}

} // verus!
