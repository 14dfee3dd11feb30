//! Text building blocks: decimal rendering, brace escaping, right-aligned
//! padding, and a model of positional `{}` formatting.
//!
//! The failure message produced by the classifier is a template in the style
//! of the runtime formatter: `{}` marks a hole filled by the next dynamic
//! argument, and literal braces are written doubled (`{{`, `}}`).

use vstd::prelude::*;

verus! {

/// Appends one character to a string.
/// Relies on String::push: appends exactly the given character.
#[verifier::external_body]
pub fn push_char(s: &mut String, c: char)
    ensures
        final(s)@ == old(s)@.push(c),
{
    s.push(c);
}

/// The decimal digit character for a value below ten.
pub open spec fn dec_digit(d: nat) -> char {
    if d == 0 {
        '0'
    } else if d == 1 {
        '1'
    } else if d == 2 {
        '2'
    } else if d == 3 {
        '3'
    } else if d == 4 {
        '4'
    } else if d == 5 {
        '5'
    } else if d == 6 {
        '6'
    } else if d == 7 {
        '7'
    } else if d == 8 {
        '8'
    } else {
        '9'
    }
}

/// The decimal rendering of a number, without sign or padding.
pub open spec fn dec_str(n: nat) -> Seq<char>
    decreases n,
{
    if n < 10 {
        seq![dec_digit(n)]
    } else {
        dec_str(n / 10).push(dec_digit(n % 10))
    }
}

/// The number a decimal digit character stands for.
pub open spec fn digit_val(c: char) -> nat {
    if c == '0' {
        0
    } else if c == '1' {
        1
    } else if c == '2' {
        2
    } else if c == '3' {
        3
    } else if c == '4' {
        4
    } else if c == '5' {
        5
    } else if c == '6' {
        6
    } else if c == '7' {
        7
    } else if c == '8' {
        8
    } else {
        9
    }
}

/// The number a digit sequence stands for.
pub open spec fn dec_val(s: Seq<char>) -> nat
    decreases s.len(),
{
    if s.len() == 0 {
        0
    } else {
        dec_val(s.drop_last()) * 10 + digit_val(s.last())
    }
}

/// Reading back the decimal rendering of a number gives the number: the
/// rendering loses nothing.
pub proof fn lemma_dec_str_val(n: nat)
    ensures
        dec_val(dec_str(n)) == n,
        dec_str(n).len() >= 1,
    decreases n,
{
    if n < 10 {
        assert(dec_str(n).drop_last() =~= Seq::<char>::empty());
        assert(dec_val(dec_str(n)) == dec_val(Seq::<char>::empty()) * 10 + digit_val(
            dec_digit(n),
        ));
        assert(digit_val(dec_digit(n)) == n);
    } else {
        lemma_dec_str_val(n / 10);
        assert(dec_str(n).drop_last() =~= dec_str(n / 10));
        assert(dec_str(n).last() == dec_digit(n % 10));
        assert(digit_val(dec_digit(n % 10)) == n % 10);
        assert((n / 10) * 10 + n % 10 == n) by (nonlinear_arith);
    }
}

/// Different numbers have different decimal renderings.
pub proof fn lemma_dec_str_injective(a: nat, b: nat)
    requires
        a != b,
    ensures
        dec_str(a) != dec_str(b),
{
    lemma_dec_str_val(a);
    lemma_dec_str_val(b);
}

/// A longer number never has a shorter rendering.
pub proof fn lemma_dec_str_len_monotone(a: nat, b: nat)
    requires
        a <= b,
    ensures
        dec_str(a).len() <= dec_str(b).len(),
    decreases b,
{
    if b >= 10 {
        if a < 10 {
            lemma_dec_str_len_monotone(0, b / 10);
        } else {
            lemma_dec_str_len_monotone(a / 10, b / 10);
        }
    }
}

/// Renders a number in decimal.
pub fn u64_to_string(n: u64) -> (s: String)
    ensures
        s@ == dec_str(n as nat),
    decreases n,
{
    let d: char = match n % 10 {
        0 => '0',
        1 => '1',
        2 => '2',
        3 => '3',
        4 => '4',
        5 => '5',
        6 => '6',
        7 => '7',
        8 => '8',
        _ => '9',
    };
    proof {
        assert(d == dec_digit((n % 10) as nat));
    }
    if n < 10 {
        let mut s = String::new();
        push_char(&mut s, d);
        proof {
            assert(s@ =~= seq![dec_digit(n as nat)]);
        }
        s
    } else {
        let mut s = u64_to_string(n / 10);
        push_char(&mut s, d);
        s
    }
}

/// A run of spaces.
pub open spec fn spaces(n: nat) -> Seq<char>
    decreases n,
{
    if n == 0 {
        Seq::empty()
    } else {
        spaces((n - 1) as nat).push(' ')
    }
}

/// A run of spaces has one character per space.
pub proof fn lemma_spaces_len(n: nat)
    ensures
        spaces(n).len() == n,
    decreases n,
{
    if n > 0 {
        lemma_spaces_len((n - 1) as nat);
    }
}

/// `s` right-aligned in a field of width `w`: spaces first, then `s`.
/// A string longer than the field is kept whole.
pub open spec fn pad_left(s: Seq<char>, w: nat) -> Seq<char> {
    if s.len() >= w {
        s
    } else {
        spaces((w - s.len()) as nat) + s
    }
}

/// Appends `n` spaces to a string.
pub fn append_spaces(s: &mut String, n: usize)
    ensures
        final(s)@ == old(s)@ + spaces(n as nat),
{
    let mut i: usize = 0;
    while i < n
        invariant
            i <= n,
            s@ == old(s)@ + spaces(i as nat),
        decreases n - i,
    {
        push_char(s, ' ');
        i = i + 1;
    }
    proof {
        assert(s@ =~= old(s)@ + spaces(n as nat));
    }
}

/// How one character appears inside a message template: braces are doubled,
/// everything else stands for itself.
pub open spec fn esc_char(c: char) -> Seq<char> {
    if c == '{' {
        seq!['{', '{']
    } else if c == '}' {
        seq!['}', '}']
    } else {
        seq![c]
    }
}

/// A text quoted into a message template: every brace doubled.
pub open spec fn escape_braces(s: Seq<char>) -> Seq<char>
    decreases s.len(),
{
    if s.len() == 0 {
        Seq::empty()
    } else {
        esc_char(s[0]) + escape_braces(s.skip(1))
    }
}

/// Escaping one more character at the end extends the escaped text at the end.
pub proof fn lemma_escape_push(s: Seq<char>, c: char)
    ensures
        escape_braces(s.push(c)) == escape_braces(s) + esc_char(c),
    decreases s.len(),
{
    if s.len() == 0 {
        assert(s.push(c)[0] == c);
        assert(s.push(c).skip(1) =~= Seq::<char>::empty());
        assert(escape_braces(Seq::<char>::empty()) == Seq::<char>::empty());
        assert(escape_braces(s.push(c)) == esc_char(c) + Seq::<char>::empty());
        assert(escape_braces(s) == Seq::<char>::empty());
        assert(esc_char(c) + Seq::<char>::empty() =~= Seq::<char>::empty() + esc_char(c));
    } else {
        assert(s.push(c).skip(1) =~= s.skip(1).push(c));
        lemma_escape_push(s.skip(1), c);
        assert(s.push(c)[0] == s[0]);
        assert(escape_braces(s.push(c)) == esc_char(s[0]) + escape_braces(s.skip(1).push(c)));
        assert(escape_braces(s.skip(1).push(c)) == escape_braces(s.skip(1)) + esc_char(c));
        assert(esc_char(s[0]) + (escape_braces(s.skip(1)) + esc_char(c)) =~= (esc_char(s[0])
            + escape_braces(s.skip(1))) + esc_char(c));
        assert(escape_braces(s) == esc_char(s[0]) + escape_braces(s.skip(1)));
    }
}

/// Number of `{}` holes in a message template, or `None` if the template is
/// malformed (a stray single brace).
pub open spec fn tmpl_holes(t: Seq<char>) -> Option<nat>
    decreases t.len(),
{
    if t.len() == 0 {
        Some(0)
    } else if t[0] == '{' {
        if t.len() >= 2 && t[1] == '}' {
            match tmpl_holes(t.skip(2)) {
                Some(n) => Some((n + 1) as nat),
                None => None,
            }
        } else if t.len() >= 2 && t[1] == '{' {
            tmpl_holes(t.skip(2))
        } else {
            None
        }
    } else if t[0] == '}' {
        if t.len() >= 2 && t[1] == '}' {
            tmpl_holes(t.skip(2))
        } else {
            None
        }
    } else {
        tmpl_holes(t.skip(1))
    }
}

/// Filling a message template with positional arguments, as the runtime
/// formatter would: each `{}` takes the next argument, doubled braces become
/// single, and the argument count must match the hole count exactly.
pub open spec fn fmt_spec(t: Seq<char>, args: Seq<Seq<char>>) -> Option<Seq<char>>
    decreases t.len(),
{
    if t.len() == 0 {
        if args.len() == 0 {
            Some(Seq::empty())
        } else {
            None
        }
    } else if t[0] == '{' {
        if t.len() >= 2 && t[1] == '}' {
            if args.len() > 0 {
                match fmt_spec(t.skip(2), args.skip(1)) {
                    Some(r) => Some(args[0] + r),
                    None => None,
                }
            } else {
                None
            }
        } else if t.len() >= 2 && t[1] == '{' {
            match fmt_spec(t.skip(2), args) {
                Some(r) => Some(seq!['{'] + r),
                None => None,
            }
        } else {
            None
        }
    } else if t[0] == '}' {
        if t.len() >= 2 && t[1] == '}' {
            match fmt_spec(t.skip(2), args) {
                Some(r) => Some(seq!['}'] + r),
                None => None,
            }
        } else {
            None
        }
    } else {
        match fmt_spec(t.skip(1), args) {
            Some(r) => Some(seq![t[0]] + r),
            None => None,
        }
    }
}

/// Hole counting distributes over concatenation, as long as the first part is
/// well-formed on its own.
pub proof fn lemma_holes_concat(a: Seq<char>, b: Seq<char>)
    requires
        tmpl_holes(a) is Some,
    ensures
        tmpl_holes(a + b) == (match tmpl_holes(b) {
            Some(n) => Some((tmpl_holes(a)->Some_0 + n) as nat),
            None => None::<nat>,
        }),
    decreases a.len(),
{
    if a.len() == 0 {
        assert(a + b =~= b);
    } else {
        let t = a + b;
        assert(t[0] == a[0]);
        if a[0] == '{' || a[0] == '}' {
            assert(a.len() >= 2);
            assert(t[1] == a[1]);
            assert(t.skip(2) =~= a.skip(2) + b);
            lemma_holes_concat(a.skip(2), b);
        } else {
            assert(t.skip(1) =~= a.skip(1) + b);
            lemma_holes_concat(a.skip(1), b);
        }
    }
}

/// An escaped text is a well-formed template piece with no holes.
pub proof fn lemma_holes_escape(s: Seq<char>)
    ensures
        tmpl_holes(escape_braces(s)) == Some(0nat),
    decreases s.len(),
{
    if s.len() == 0 {
    } else {
        lemma_holes_escape(s.skip(1));
        let e = escape_braces(s);
        assert(e == esc_char(s[0]) + escape_braces(s.skip(1)));
        if s[0] == '{' || s[0] == '}' {
            assert(e[0] == s[0] && e[1] == s[0]);
            assert(e.skip(2) =~= escape_braces(s.skip(1)));
        } else {
            assert(e[0] == s[0]);
            assert(e.skip(1) =~= escape_braces(s.skip(1)));
        }
    }
}

/// A template whose hole count matches the argument count can always be
/// filled.
pub proof fn lemma_fmt_total(t: Seq<char>, args: Seq<Seq<char>>)
    requires
        tmpl_holes(t) == Some(args.len() as nat),
    ensures
        fmt_spec(t, args) is Some,
    decreases t.len(),
{
    if t.len() == 0 {
    } else if t[0] == '{' {
        if t.len() >= 2 && t[1] == '}' {
            lemma_fmt_total(t.skip(2), args.skip(1));
        } else {
            lemma_fmt_total(t.skip(2), args);
        }
    } else if t[0] == '}' {
        lemma_fmt_total(t.skip(2), args);
    } else {
        lemma_fmt_total(t.skip(1), args);
    }
}

/// Fills a message template with positional arguments; `None` when the
/// template is malformed or the argument count does not match.
pub fn format_with_args(t: &str, args: &Vec<String>) -> (r: Option<String>)
    ensures
        (match fmt_spec(t@, args.deep_view()) {
            Some(s) => r matches Some(o) && o@ == s,
            None => r is None,
        }),
{
    let dv = Ghost(args.deep_view());
    let n = t.unicode_len();
    let mut out = String::new();
    let mut i: usize = 0;
    let mut j: usize = 0;
    proof {
        assert(t@.skip(0) =~= t@);
        assert(dv@.skip(0) =~= dv@);
        match fmt_spec(t@, dv@) {
            Some(rest) => {
                assert(out@ + rest =~= rest);
            },
            None => {},
        }
    }
    while i < n
        invariant
            i <= n,
            j <= args.len(),
            n == t@.len(),
            dv@ == args.deep_view(),
            dv@.len() == args.len(),
            (match fmt_spec(t@.skip(i as int), dv@.skip(j as int)) {
                Some(rest) => fmt_spec(t@, dv@) == Some(out@ + rest),
                None => fmt_spec(t@, dv@) is None,
            }),
        decreases n - i,
    {
        let ghost ti = t@.skip(i as int);
        let ghost aj = dv@.skip(j as int);
        let c = t.get_char(i);
        proof {
            assert(ti[0] == t@[i as int]);
        }
        if c == '{' {
            if i + 1 >= n {
                proof {
                    assert(ti.len() < 2);
                }
                return None;
            }
            let c2 = t.get_char(i + 1);
            proof {
                assert(ti[1] == t@[i + 1]);
            }
            if c2 == '}' {
                if j >= args.len() {
                    proof {
                        assert(aj.len() == 0);
                    }
                    return None;
                }
                let ghost out0 = out@;
                let arg = &args[j];
                out.append(arg.as_str());
                proof {
                    assert(arg@ == dv@[j as int]);
                    assert(aj[0] == dv@[j as int]);
                    assert(ti.skip(2) =~= t@.skip(i + 2));
                    assert(aj.skip(1) =~= dv@.skip(j + 1));
                    assert forall|rest: Seq<char>|
                        fmt_spec(t@.skip(i + 2), dv@.skip(j + 1)) == Some(rest) implies fmt_spec(
                        t@,
                        dv@,
                    ) == Some(out@ + rest) by {
                        assert(fmt_spec(ti, aj) == Some(aj[0] + rest));
                        assert((out@ + rest) =~= out0 + (aj[0] + rest));
                    }
                }
                i = i + 2;
                j = j + 1;
                proof {
                    if fmt_spec(t@.skip(i as int), dv@.skip(j as int)) is None {
                        assert(fmt_spec(ti, aj) is None);
                    }
                }
            } else if c2 == '{' {
                let ghost out0 = out@;
                push_char(&mut out, '{');
                proof {
                    assert(ti.skip(2) =~= t@.skip(i + 2));
                    assert forall|rest: Seq<char>|
                        fmt_spec(t@.skip(i + 2), aj) == Some(rest) implies fmt_spec(t@, dv@)
                        == Some(out@ + rest) by {
                        assert(fmt_spec(ti, aj) == Some(seq!['{'] + rest));
                        assert(out@ + rest =~= out0 + (seq!['{'] + rest));
                    }
                }
                i = i + 2;
                proof {
                    if fmt_spec(t@.skip(i as int), aj) is None {
                        assert(fmt_spec(ti, aj) is None);
                    }
                }
            } else {
                return None;
            }
        } else if c == '}' {
            if i + 1 >= n {
                proof {
                    assert(ti.len() < 2);
                }
                return None;
            }
            let c2 = t.get_char(i + 1);
            proof {
                assert(ti[1] == t@[i + 1]);
            }
            if c2 == '}' {
                let ghost out0 = out@;
                push_char(&mut out, '}');
                proof {
                    assert(ti.skip(2) =~= t@.skip(i + 2));
                    assert forall|rest: Seq<char>|
                        fmt_spec(t@.skip(i + 2), aj) == Some(rest) implies fmt_spec(t@, dv@)
                        == Some(out@ + rest) by {
                        assert(fmt_spec(ti, aj) == Some(seq!['}'] + rest));
                        assert(out@ + rest =~= out0 + (seq!['}'] + rest));
                    }
                }
                i = i + 2;
                proof {
                    if fmt_spec(t@.skip(i as int), aj) is None {
                        assert(fmt_spec(ti, aj) is None);
                    }
                }
            } else {
                return None;
            }
        } else {
            let ghost out0 = out@;
            push_char(&mut out, c);
            proof {
                assert(ti.skip(1) =~= t@.skip(i + 1));
                assert forall|rest: Seq<char>| fmt_spec(t@.skip(i + 1), aj) == Some(rest) implies
                    fmt_spec(t@, dv@) == Some(out@ + rest) by {
                    assert(fmt_spec(ti, aj) == Some(seq![ti[0]] + rest));
                    assert(out@ + rest =~= out0 + (seq![ti[0]] + rest));
                }
            }
            i = i + 1;
            proof {
                if fmt_spec(t@.skip(i as int), aj) is None {
                    assert(fmt_spec(ti, aj) is None);
                }
            }
        }
    }
    proof {
        assert(t@.skip(i as int) =~= Seq::<char>::empty());
    }
    if j == args.len() {
        proof {
            assert(dv@.skip(j as int) =~= Seq::<Seq<char>>::empty());
            assert(fmt_spec(t@.skip(i as int), dv@.skip(j as int)) == Some(Seq::<char>::empty()));
            assert(out@ + Seq::<char>::empty() =~= out@);
        }
        Some(out)
    } else {
        proof {
            assert(dv@.skip(j as int).len() > 0);
        }
        None
    }
}

/// Escapes the braces of a text for quoting into a message template.
pub fn escape_text(s: &str) -> (r: String)
    ensures
        r@ == escape_braces(s@),
{
    let n = s.unicode_len();
    let mut out = String::new();
    let mut i: usize = 0;
    while i < n
        invariant
            i <= n,
            n == s@.len(),
            out@ == escape_braces(s@.subrange(0, i as int)),
        decreases n - i,
    {
        let c = s.get_char(i);
        if c == '{' {
            push_char(&mut out, '{');
            push_char(&mut out, '{');
        } else if c == '}' {
            push_char(&mut out, '}');
            push_char(&mut out, '}');
        } else {
            push_char(&mut out, c);
        }
        proof {
            let pre = s@.subrange(0, i as int);
            assert(s@.subrange(0, i + 1) =~= pre.push(s@[i as int]));
            lemma_escape_push(pre, s@[i as int]);
            assert(out@ =~= escape_braces(pre) + esc_char(s@[i as int]));
        }
        i = i + 1;
    }
    proof {
        assert(s@.subrange(0, n as int) =~= s@);
    }
    out
}

} // verus!
