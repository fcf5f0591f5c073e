//! A verified wire codec for check results.
//!
//! The wire format is a flat character stream: numbers are fixed-width
//! decimal (20 digits, enough for any machine word), strings are
//! length-prefixed, options carry a one-character tag, and lists a
//! count prefix. Encoding and decoding are exact inverses: a result
//! encoded and decoded back is field-for-field equal.

use vstd::prelude::*;
use vstd::string::*;
use vstd::arithmetic::div_mod::lemma_fundamental_div_mod;
use crate::diagnostics::{
    CompilationError, CompilationResult, ErrorLevel, ErrorView, ResultView, error_views,
    opt_str_view,
};

verus! {

/// Width of every encoded number, in digits.
pub open spec fn num_width() -> nat {
    20
}

pub open spec fn pow10(w: nat) -> nat
    decreases w,
{
    if w == 0 {
        1
    } else {
        10 * pow10((w - 1) as nat)
    }
}

pub open spec fn digit_char(d: nat) -> char {
    if d == 0 {
        '0'
    } else if d == 1 {
        '1'
    } else if d == 2 {
        '2'
    } else if d == 3 {
        '3'
    } else if d == 4 {
        '4'
    } else if d == 5 {
        '5'
    } else if d == 6 {
        '6'
    } else if d == 7 {
        '7'
    } else if d == 8 {
        '8'
    } else {
        '9'
    }
}

pub open spec fn char_digit(c: char) -> nat {
    if c == '0' {
        0
    } else if c == '1' {
        1
    } else if c == '2' {
        2
    } else if c == '3' {
        3
    } else if c == '4' {
        4
    } else if c == '5' {
        5
    } else if c == '6' {
        6
    } else if c == '7' {
        7
    } else if c == '8' {
        8
    } else {
        9
    }
}

pub open spec fn is_digit(c: char) -> bool {
    c == '0' || c == '1' || c == '2' || c == '3' || c == '4' || c == '5' || c == '6' || c == '7'
        || c == '8' || c == '9'
}

pub open spec fn all_digits(s: Seq<char>) -> bool {
    forall|i: int| 0 <= i < s.len() ==> is_digit(s[i])
}

/// `n` in fixed-width decimal, most significant digit first.
pub open spec fn spec_enc_nat(n: nat, w: nat) -> Seq<char>
    decreases w,
{
    if w == 0 {
        Seq::empty()
    } else {
        spec_enc_nat(n / 10, (w - 1) as nat) + seq![digit_char(n % 10)]
    }
}

/// The value of a digit string, most significant digit first.
pub open spec fn spec_dec_digits(s: Seq<char>) -> nat
    decreases s.len(),
{
    if s.len() == 0 {
        0
    } else {
        spec_dec_digits(s.drop_last()) * 10 + char_digit(s.last())
    }
}

pub proof fn lemma_enc_nat_props(n: nat, w: nat)
    ensures
        spec_enc_nat(n, w).len() == w,
        all_digits(spec_enc_nat(n, w)),
    decreases w,
{
    if w > 0 {
        lemma_enc_nat_props(n / 10, (w - 1) as nat);
        let head = spec_enc_nat(n / 10, (w - 1) as nat);
        let e = spec_enc_nat(n, w);
        assert(is_digit(digit_char(n % 10)));
        assert forall|i: int| 0 <= i < e.len() implies is_digit(e[i]) by {
            if i < head.len() {
                assert(e[i] == head[i]);
            } else {
                assert(e[i] == digit_char(n % 10));
            }
        }
    }
}

/// Decoding inverts encoding for every value that fits the width.
pub proof fn lemma_nat_round(n: nat, w: nat)
    requires
        n < pow10(w),
    ensures
        spec_dec_digits(spec_enc_nat(n, w)) == n,
    decreases w,
{
    if w == 0 {
        assert(pow10(0) == 1);
    } else {
        lemma_fundamental_div_mod(n as int, 10);
        assert(n / 10 < pow10((w - 1) as nat)) by {
            if n / 10 >= pow10((w - 1) as nat) {
                assert(n as int == 10 * (n as int / 10) + (n as int % 10));
                assert(10 * (n as int / 10) >= 10 * pow10((w - 1) as nat)) by (nonlinear_arith)
                    requires
                        n as int / 10 >= pow10((w - 1) as nat),
                ;
            }
        }
        lemma_nat_round(n / 10, (w - 1) as nat);
        lemma_enc_nat_props(n / 10, (w - 1) as nat);
        let head = spec_enc_nat(n / 10, (w - 1) as nat);
        let e = spec_enc_nat(n, w);
        assert(e.drop_last() =~= head);
        assert(e.last() == digit_char(n % 10));
        assert(char_digit(digit_char(n % 10)) == n % 10);
    }
}

/// Every digit string's value fits its width.
pub proof fn lemma_dec_bound(s: Seq<char>)
    requires
        all_digits(s),
    ensures
        spec_dec_digits(s) < pow10(s.len()),
    decreases s.len(),
{
    if s.len() > 0 {
        assert(all_digits(s.drop_last())) by {
            assert forall|i: int| 0 <= i < s.len() - 1 implies is_digit(s.drop_last()[i]) by {
                assert(s.drop_last()[i] == s[i]);
            }
        }
        lemma_dec_bound(s.drop_last());
        assert(char_digit(s.last()) <= 9);
    }
}

fn digit_char_of(d: usize) -> (c: char)
    requires
        d < 10,
    ensures
        c == digit_char(d as nat),
{
    if d == 0 {
        '0'
    } else if d == 1 {
        '1'
    } else if d == 2 {
        '2'
    } else if d == 3 {
        '3'
    } else if d == 4 {
        '4'
    } else if d == 5 {
        '5'
    } else if d == 6 {
        '6'
    } else if d == 7 {
        '7'
    } else if d == 8 {
        '8'
    } else {
        '9'
    }
}

fn digit_val_of(c: char) -> (r: Option<usize>)
    ensures
        match r {
            Option::Some(d) => is_digit(c) && d == char_digit(c),
            Option::None => !is_digit(c),
        },
{
    if c == '0' {
        Some(0)
    } else if c == '1' {
        Some(1)
    } else if c == '2' {
        Some(2)
    } else if c == '3' {
        Some(3)
    } else if c == '4' {
        Some(4)
    } else if c == '5' {
        Some(5)
    } else if c == '6' {
        Some(6)
    } else if c == '7' {
        Some(7)
    } else if c == '8' {
        Some(8)
    } else if c == '9' {
        Some(9)
    } else {
        None
    }
}

/// Appends the fixed-width encoding of `n`.
fn push_nat(out: &mut Vec<char>, n: usize, w: usize)
    ensures
        final(out)@ == old(out)@ + spec_enc_nat(n as nat, w as nat),
    decreases w,
{
    if w == 0 {
        proof {
            assert(out@ =~= old(out)@ + spec_enc_nat(n as nat, 0));
        }
        return ;
    }
    push_nat(out, n / 10, w - 1);
    let d: usize = n % 10;
    let c = digit_char_of(d);
    out.push(c);
    proof {
        assert(out@ =~= old(out)@ + spec_enc_nat(n as nat, w as nat));
    }
}

/// What reading one fixed-width number at `pos` yields: the value and the
/// position after it, or nothing when the characters there are not all
/// digits, do not fit, or encode a value over the machine-word range.
pub open spec fn spec_read_nat(s: Seq<char>, pos: nat) -> Option<(nat, nat)> {
    if pos + num_width() <= s.len() && all_digits(
        s.subrange(pos as int, pos as int + num_width()),
    ) && spec_dec_digits(s.subrange(pos as int, pos as int + num_width())) <= usize::MAX as nat {
        Option::Some(
            (spec_dec_digits(s.subrange(pos as int, pos as int + num_width())), pos + num_width()),
        )
    } else {
        Option::None
    }
}

proof fn lemma_pow10_20()
    ensures
        pow10(20) == 0x56BC75E2D63100000,
        (usize::MAX as nat) < pow10(20),
{
    reveal_with_fuel(pow10, 21);
}

/// Reads one fixed-width number.
fn read_nat(s: &Vec<char>, pos: usize) -> (r: Option<(usize, usize)>)
    ensures
        match spec_read_nat(s@, pos as nat) {
            Option::Some((v, p)) => r matches Option::Some(rv) && rv.0 == v && rv.1 == p,
            Option::None => r is None,
        },
{
    let slen = s.len();
    if slen < 20 || pos > slen - 20 {
        return None;
    }
    let ghost sub = s@.subrange(pos as int, pos as int + 20);
    let mut acc: u128 = 0;
    let mut i: usize = 0;
    proof {
        assert(sub.take(0) =~= Seq::<char>::empty());
        lemma_pow10_20();
    }
    while i < 20
        invariant
            i <= 20,
            pos + 20 <= s@.len(),
            s@.len() == slen,
            sub == s@.subrange(pos as int, pos as int + 20),
            all_digits(sub.take(i as int)),
            acc == spec_dec_digits(sub.take(i as int)),
            acc < 0x56BC75E2D63100000,
            pow10(20) == 0x56BC75E2D63100000,
        decreases 20 - i,
    {
        let c = s[pos + i];
        proof {
            assert(sub[i as int] == s@[pos + i]);
        }
        match digit_val_of(c) {
            Option::None => {
                proof {
                    assert(!all_digits(sub));
                }
                return None;
            },
            Option::Some(d) => {
                proof {
                    assert(sub.take(i + 1).drop_last() =~= sub.take(i as int));
                    assert(sub.take(i + 1).last() == sub[i as int]);
                    assert(all_digits(sub.take(i + 1))) by {
                        assert forall|k: int| 0 <= k < i + 1 implies #[trigger] is_digit(
                            sub.take(i + 1)[k],
                        ) by {
                            if k < i {
                                assert(sub.take(i + 1)[k] == sub.take(i as int)[k]);
                            }
                        }
                    }
                    lemma_dec_bound(sub.take(i + 1));
                    assert(pow10(sub.take(i + 1).len() as nat) <= pow10(20)) by {
                        lemma_pow10_monotone(sub.take(i + 1).len() as nat, 20);
                    }
                }
                acc = acc * 10 + (d as u128);
            },
        }
        i = i + 1;
    }
    proof {
        assert(sub.take(20) =~= sub);
        lemma_pow10_20();
    }
    if acc > (usize::MAX as u128) {
        return None;
    }
    Some((acc as usize, pos + 20))
}

pub proof fn lemma_pow10_monotone(a: nat, b: nat)
    requires
        a <= b,
    ensures
        pow10(a) <= pow10(b),
    decreases b,
{
    if a < b && b > 0 {
        lemma_pow10_monotone(a, (b - 1) as nat);
        assert(pow10(b) == 10 * pow10((b - 1) as nat));
    }
}

/// Reading at a position where an encoding sits yields exactly the encoded
/// value and stops exactly after it.
pub proof fn lemma_read_nat_at(n: nat, s: Seq<char>, pos: nat)
    requires
        n <= usize::MAX as nat,
        pos + num_width() <= s.len(),
        s.subrange(pos as int, pos as int + num_width()) == spec_enc_nat(n, num_width()),
    ensures
        spec_read_nat(s, pos) == Option::Some((n, pos + num_width())),
{
    lemma_pow10_20();
    lemma_enc_nat_props(n, num_width());
    lemma_nat_round(n, num_width());
}

/// A stretch of the stream equal to a concatenation splits into its parts.
pub proof fn lemma_split_concat(s: Seq<char>, pos: int, a: Seq<char>, b: Seq<char>)
    requires
        0 <= pos,
        pos + a.len() + b.len() <= s.len(),
        s.subrange(pos, pos + a.len() + b.len()) == a + b,
    ensures
        s.subrange(pos, pos + a.len()) == a,
        s.subrange(pos + a.len(), pos + a.len() + b.len()) == b,
{
    let whole = s.subrange(pos, pos + a.len() + b.len());
    assert(s.subrange(pos, pos + a.len()) =~= a) by {
        assert forall|k: int| 0 <= k < a.len() implies s.subrange(pos, pos + a.len())[k] == a[k] by {
            assert(whole[k] == s[pos + k]);
            assert((a + b)[k] == a[k]);
        }
    }
    assert(s.subrange(pos + a.len(), pos + a.len() + b.len()) =~= b) by {
        assert forall|k: int|
            0 <= k < b.len() implies s.subrange(pos + a.len(), pos + a.len() + b.len())[k]
            == b[k] by {
            assert(whole[a.len() + k] == s[pos + a.len() + k]);
            assert((a + b)[a.len() + k] == b[k]);
        }
    }
}

/// The tag character of each severity on the wire.
pub open spec fn level_char(l: ErrorLevel) -> char {
    match l {
        ErrorLevel::Error => 'E',
        ErrorLevel::Warning => 'W',
        ErrorLevel::Note => 'T',
        ErrorLevel::Help => 'H',
    }
}

/// A length-prefixed string.
pub open spec fn spec_enc_str(s: Seq<char>) -> Seq<char> {
    spec_enc_nat(s.len(), num_width()) + s
}

/// A tagged optional string: `'N'` for absent, `'S'` plus the string.
pub open spec fn spec_enc_opt_str(o: Option<Seq<char>>) -> Seq<char> {
    match o {
        Option::None => seq!['N'],
        Option::Some(v) => seq!['S'] + spec_enc_str(v),
    }
}

/// A tagged optional number.
pub open spec fn spec_enc_opt_num(o: Option<usize>) -> Seq<char> {
    match o {
        Option::None => seq!['N'],
        Option::Some(n) => seq!['S'] + spec_enc_nat(n as nat, num_width()),
    }
}

/// One encoded diagnostic: severity tag, message, code, line, column, file,
/// suggestion, in that order.
pub open spec fn spec_enc_err(e: ErrorView) -> Seq<char> {
    seq![level_char(e.level)] + spec_enc_str(e.message) + spec_enc_opt_str(e.code)
        + spec_enc_opt_num(e.line) + spec_enc_opt_num(e.column) + spec_enc_opt_str(e.file)
        + spec_enc_opt_str(e.suggestion)
}

/// The encoded diagnostics of a list, in order.
pub open spec fn spec_enc_err_items(es: Seq<ErrorView>) -> Seq<char>
    decreases es.len(),
{
    if es.len() == 0 {
        Seq::empty()
    } else {
        spec_enc_err(es.first()) + spec_enc_err_items(es.drop_first())
    }
}

/// A count-prefixed list of diagnostics.
pub open spec fn spec_enc_err_list(es: Seq<ErrorView>) -> Seq<char> {
    spec_enc_nat(es.len(), num_width()) + spec_enc_err_items(es)
}

/// A whole encoded result: success flag, errors, warnings, stdout, stderr.
pub open spec fn spec_enc_result(r: ResultView) -> Seq<char> {
    seq![if r.success { 'T' } else { 'F' }] + spec_enc_err_list(r.errors) + spec_enc_err_list(
        r.warnings,
    ) + spec_enc_str(r.stdout) + spec_enc_str(r.stderr)
}

pub proof fn lemma_enc_items_push(es: Seq<ErrorView>, x: ErrorView)
    ensures
        spec_enc_err_items(es.push(x)) == spec_enc_err_items(es) + spec_enc_err(x),
    decreases es.len(),
{
    if es.len() == 0 {
        assert(es.push(x).first() == x);
        assert(es.push(x).drop_first() =~= Seq::<ErrorView>::empty());
        assert(spec_enc_err_items(es.push(x)) == spec_enc_err(x) + spec_enc_err_items(
            es.push(x).drop_first(),
        ));
        assert(spec_enc_err_items(es.push(x).drop_first()) == Seq::<char>::empty());
        assert(spec_enc_err_items(es) == Seq::<char>::empty());
        assert(spec_enc_err_items(es.push(x)) =~= spec_enc_err_items(es) + spec_enc_err(x));
    } else {
        assert(es.push(x).first() == es.first());
        assert(es.push(x).drop_first() =~= es.drop_first().push(x));
        lemma_enc_items_push(es.drop_first(), x);
        assert(spec_enc_err_items(es.push(x)) == spec_enc_err(es.first()) + spec_enc_err_items(
            es.drop_first().push(x),
        ));
        assert(spec_enc_err_items(es.push(x)) == spec_enc_err(es.first()) + (spec_enc_err_items(
            es.drop_first(),
        ) + spec_enc_err(x)));
        assert(spec_enc_err_items(es.push(x)) =~= spec_enc_err_items(es) + spec_enc_err(x));
    }
}

/// What reading a length-prefixed string at `pos` yields.
pub open spec fn spec_read_str(s: Seq<char>, pos: nat) -> Option<(Seq<char>, nat)> {
    match spec_read_nat(s, pos) {
        Option::Some((n, p)) => if p + n <= s.len() {
            Option::Some((s.subrange(p as int, (p + n) as int), p + n))
        } else {
            Option::None
        },
        Option::None => Option::None,
    }
}

/// What reading a tagged optional string at `pos` yields.
pub open spec fn spec_read_opt_str(s: Seq<char>, pos: nat) -> Option<(Option<Seq<char>>, nat)> {
    if pos < s.len() {
        if s[pos as int] == 'N' {
            Option::Some((Option::None, pos + 1))
        } else if s[pos as int] == 'S' {
            match spec_read_str(s, pos + 1) {
                Option::Some((v, p)) => Option::Some((Option::Some(v), p)),
                Option::None => Option::None,
            }
        } else {
            Option::None
        }
    } else {
        Option::None
    }
}

/// What reading a tagged optional number at `pos` yields.
pub open spec fn spec_read_opt_num(s: Seq<char>, pos: nat) -> Option<(Option<usize>, nat)> {
    if pos < s.len() {
        if s[pos as int] == 'N' {
            Option::Some((Option::None, pos + 1))
        } else if s[pos as int] == 'S' {
            match spec_read_nat(s, pos + 1) {
                Option::Some((v, p)) => Option::Some((Option::Some(v as usize), p)),
                Option::None => Option::None,
            }
        } else {
            Option::None
        }
    } else {
        Option::None
    }
}

/// What reading a severity tag at `pos` yields.
pub open spec fn spec_read_level(s: Seq<char>, pos: nat) -> Option<(ErrorLevel, nat)> {
    if pos < s.len() {
        if s[pos as int] == 'E' {
            Option::Some((ErrorLevel::Error, pos + 1))
        } else if s[pos as int] == 'W' {
            Option::Some((ErrorLevel::Warning, pos + 1))
        } else if s[pos as int] == 'T' {
            Option::Some((ErrorLevel::Note, pos + 1))
        } else if s[pos as int] == 'H' {
            Option::Some((ErrorLevel::Help, pos + 1))
        } else {
            Option::None
        }
    } else {
        Option::None
    }
}

/// What reading one encoded diagnostic at `pos` yields.
pub open spec fn spec_read_err(s: Seq<char>, pos: nat) -> Option<(ErrorView, nat)> {
    match spec_read_level(s, pos) {
        Option::None => Option::None,
        Option::Some((lv, p1)) => match spec_read_str(s, p1) {
            Option::None => Option::None,
            Option::Some((msg, p2)) => match spec_read_opt_str(s, p2) {
                Option::None => Option::None,
                Option::Some((code, p3)) => match spec_read_opt_num(s, p3) {
                    Option::None => Option::None,
                    Option::Some((line, p4)) => match spec_read_opt_num(s, p4) {
                        Option::None => Option::None,
                        Option::Some((column, p5)) => match spec_read_opt_str(s, p5) {
                            Option::None => Option::None,
                            Option::Some((file, p6)) => match spec_read_opt_str(s, p6) {
                                Option::None => Option::None,
                                Option::Some((suggestion, p7)) => Option::Some(
                                    (
                                        ErrorView {
                                            level: lv,
                                            message: msg,
                                            code,
                                            line,
                                            column,
                                            file,
                                            suggestion,
                                        },
                                        p7,
                                    ),
                                ),
                            },
                        },
                    },
                },
            },
        },
    }
}

/// What reading `n` encoded diagnostics at `pos` yields.
pub open spec fn spec_read_err_items(s: Seq<char>, pos: nat, n: nat) -> Option<
    (Seq<ErrorView>, nat),
>
    decreases n,
{
    if n == 0 {
        Option::Some((Seq::empty(), pos))
    } else {
        match spec_read_err(s, pos) {
            Option::None => Option::None,
            Option::Some((e, p)) => match spec_read_err_items(s, p, (n - 1) as nat) {
                Option::None => Option::None,
                Option::Some((es, p2)) => Option::Some((seq![e] + es, p2)),
            },
        }
    }
}

/// What reading a count-prefixed diagnostic list at `pos` yields.
pub open spec fn spec_read_err_list(s: Seq<char>, pos: nat) -> Option<(Seq<ErrorView>, nat)> {
    match spec_read_nat(s, pos) {
        Option::None => Option::None,
        Option::Some((n, p)) => spec_read_err_items(s, p, n),
    }
}

/// What reading a whole encoded result at `pos` yields.
pub open spec fn spec_read_result_at(s: Seq<char>, pos: nat) -> Option<(ResultView, nat)> {
    if pos < s.len() && (s[pos as int] == 'T' || s[pos as int] == 'F') {
        let success = s[pos as int] == 'T';
        match spec_read_err_list(s, pos + 1) {
            Option::None => Option::None,
            Option::Some((errors, p1)) => match spec_read_err_list(s, p1) {
                Option::None => Option::None,
                Option::Some((warnings, p2)) => match spec_read_str(s, p2) {
                    Option::None => Option::None,
                    Option::Some((stdout, p3)) => match spec_read_str(s, p3) {
                        Option::None => Option::None,
                        Option::Some((stderr, p4)) => Option::Some(
                            (ResultView { success, errors, warnings, stdout, stderr }, p4),
                        ),
                    },
                },
            },
        }
    } else {
        Option::None
    }
}

/// The decoded value of a whole wire message, which must be consumed
/// exactly.
pub open spec fn spec_dec_result(s: Seq<char>) -> Option<ResultView> {
    match spec_read_result_at(s, 0) {
        Option::Some((rv, p)) => if p == s.len() {
            Option::Some(rv)
        } else {
            Option::None
        },
        Option::None => Option::None,
    }
}

/// A diagnostic view whose strings a machine can hold.
pub open spec fn err_view_wf(e: ErrorView) -> bool {
    &&& e.message.len() <= usize::MAX
    &&& (e.code matches Option::Some(v) ==> v.len() <= usize::MAX)
    &&& (e.file matches Option::Some(v) ==> v.len() <= usize::MAX)
    &&& (e.suggestion matches Option::Some(v) ==> v.len() <= usize::MAX)
}

/// A result view whose strings and lists a machine can hold.
pub open spec fn result_view_wf(r: ResultView) -> bool {
    &&& r.errors.len() <= usize::MAX
    &&& r.warnings.len() <= usize::MAX
    &&& r.stdout.len() <= usize::MAX
    &&& r.stderr.len() <= usize::MAX
    &&& forall|i: int| 0 <= i < r.errors.len() ==> err_view_wf(#[trigger] r.errors[i])
    &&& forall|i: int| 0 <= i < r.warnings.len() ==> err_view_wf(#[trigger] r.warnings[i])
}

pub proof fn lemma_read_str_at(v: Seq<char>, s: Seq<char>, pos: nat)
    requires
        v.len() <= usize::MAX,
        pos + spec_enc_str(v).len() <= s.len(),
        s.subrange(pos as int, pos as int + spec_enc_str(v).len()) == spec_enc_str(v),
    ensures
        spec_read_str(s, pos) == Option::Some((v, pos + spec_enc_str(v).len())),
{
    lemma_enc_nat_props(v.len(), num_width());
    lemma_split_concat(s, pos as int, spec_enc_nat(v.len(), num_width()), v);
    lemma_read_nat_at(v.len(), s, pos);
}

pub proof fn lemma_read_opt_str_at(o: Option<Seq<char>>, s: Seq<char>, pos: nat)
    requires
        o matches Option::Some(v) ==> v.len() <= usize::MAX,
        pos + spec_enc_opt_str(o).len() <= s.len(),
        s.subrange(pos as int, pos as int + spec_enc_opt_str(o).len()) == spec_enc_opt_str(o),
    ensures
        spec_read_opt_str(s, pos) == Option::Some((o, pos + spec_enc_opt_str(o).len())),
{
    match o {
        Option::None => {
            assert(s[pos as int] == spec_enc_opt_str(o)[0]);
        },
        Option::Some(v) => {
            lemma_split_concat(s, pos as int, seq!['S'], spec_enc_str(v));
            assert(s[pos as int] == s.subrange(pos as int, pos as int + 1)[0]);
            lemma_read_str_at(v, s, pos + 1);
        },
    }
}

pub proof fn lemma_read_opt_num_at(o: Option<usize>, s: Seq<char>, pos: nat)
    requires
        pos + spec_enc_opt_num(o).len() <= s.len(),
        s.subrange(pos as int, pos as int + spec_enc_opt_num(o).len()) == spec_enc_opt_num(o),
    ensures
        spec_read_opt_num(s, pos) == Option::Some((o, pos + spec_enc_opt_num(o).len())),
{
    match o {
        Option::None => {
            assert(s[pos as int] == spec_enc_opt_num(o)[0]);
        },
        Option::Some(n) => {
            lemma_enc_nat_props(n as nat, num_width());
            lemma_split_concat(s, pos as int, seq!['S'], spec_enc_nat(n as nat, num_width()));
            assert(s[pos as int] == s.subrange(pos as int, pos as int + 1)[0]);
            lemma_read_nat_at(n as nat, s, pos + 1);
        },
    }
}

#[verifier::rlimit(100)]
pub proof fn lemma_read_err_at(e: ErrorView, s: Seq<char>, pos: nat)
    requires
        err_view_wf(e),
        pos + spec_enc_err(e).len() <= s.len(),
        s.subrange(pos as int, pos as int + spec_enc_err(e).len()) == spec_enc_err(e),
    ensures
        spec_read_err(s, pos) == Option::Some((e, pos + spec_enc_err(e).len())),
{
    let c0 = seq![level_char(e.level)];
    let e1 = spec_enc_str(e.message);
    let e2 = spec_enc_opt_str(e.code);
    let e3 = spec_enc_opt_num(e.line);
    let e4 = spec_enc_opt_num(e.column);
    let e5 = spec_enc_opt_str(e.file);
    let e6 = spec_enc_opt_str(e.suggestion);
    let p = pos as int;
    lemma_split_concat(s, p, c0 + e1 + e2 + e3 + e4 + e5, e6);
    lemma_split_concat(s, p, c0 + e1 + e2 + e3 + e4, e5);
    lemma_split_concat(s, p, c0 + e1 + e2 + e3, e4);
    lemma_split_concat(s, p, c0 + e1 + e2, e3);
    lemma_split_concat(s, p, c0 + e1, e2);
    lemma_split_concat(s, p, c0, e1);
    assert(s[p] == s.subrange(p, p + 1)[0]);
    assert(spec_read_level(s, pos) == Option::Some((e.level, pos + 1)));
    lemma_read_str_at(e.message, s, pos + 1);
    lemma_read_opt_str_at(e.code, s, pos + 1 + e1.len());
    lemma_read_opt_num_at(e.line, s, pos + 1 + e1.len() + e2.len());
    lemma_read_opt_num_at(e.column, s, pos + 1 + e1.len() + e2.len() + e3.len());
    lemma_read_opt_str_at(e.file, s, pos + 1 + e1.len() + e2.len() + e3.len() + e4.len());
    lemma_read_opt_str_at(
        e.suggestion,
        s,
        pos + 1 + e1.len() + e2.len() + e3.len() + e4.len() + e5.len(),
    );
}

pub proof fn lemma_read_err_items_at(es: Seq<ErrorView>, s: Seq<char>, pos: nat)
    requires
        forall|i: int| 0 <= i < es.len() ==> err_view_wf(#[trigger] es[i]),
        pos + spec_enc_err_items(es).len() <= s.len(),
        s.subrange(pos as int, pos as int + spec_enc_err_items(es).len()) == spec_enc_err_items(
            es,
        ),
    ensures
        spec_read_err_items(s, pos, es.len()) == Option::Some(
            (es, pos + spec_enc_err_items(es).len()),
        ),
    decreases es.len(),
{
    if es.len() == 0 {
        assert(spec_read_err_items(s, pos, 0) == Option::Some((Seq::<ErrorView>::empty(), pos)));
        assert(es =~= Seq::<ErrorView>::empty());
    } else {
        let head = spec_enc_err(es.first());
        let tail = spec_enc_err_items(es.drop_first());
        lemma_split_concat(s, pos as int, head, tail);
        lemma_read_err_at(es.first(), s, pos);
        assert(forall|i: int|
            0 <= i < es.drop_first().len() ==> err_view_wf(#[trigger] es.drop_first()[i]));
        lemma_read_err_items_at(es.drop_first(), s, pos + head.len());
        assert(seq![es.first()] + es.drop_first() =~= es);
    }
}

pub proof fn lemma_read_err_list_at(es: Seq<ErrorView>, s: Seq<char>, pos: nat)
    requires
        es.len() <= usize::MAX,
        forall|i: int| 0 <= i < es.len() ==> err_view_wf(#[trigger] es[i]),
        pos + spec_enc_err_list(es).len() <= s.len(),
        s.subrange(pos as int, pos as int + spec_enc_err_list(es).len()) == spec_enc_err_list(es),
    ensures
        spec_read_err_list(s, pos) == Option::Some((es, pos + spec_enc_err_list(es).len())),
{
    lemma_enc_nat_props(es.len(), num_width());
    lemma_split_concat(s, pos as int, spec_enc_nat(es.len(), num_width()), spec_enc_err_items(es));
    lemma_read_nat_at(es.len(), s, pos);
    lemma_read_err_items_at(es, s, pos + num_width());
}

/// The round trip: every well-formed result view decodes from its own
/// encoding, field for field.
#[verifier::rlimit(100)]
pub proof fn lemma_result_round_trip(rv: ResultView)
    requires
        result_view_wf(rv),
    ensures
        spec_dec_result(spec_enc_result(rv)) == Option::Some(rv),
{
    let s = spec_enc_result(rv);
    let c0 = seq![if rv.success { 'T' } else { 'F' }];
    let e1 = spec_enc_err_list(rv.errors);
    let e2 = spec_enc_err_list(rv.warnings);
    let e3 = spec_enc_str(rv.stdout);
    let e4 = spec_enc_str(rv.stderr);
    assert(s.subrange(0, s.len() as int) =~= s);
    lemma_split_concat(s, 0, c0 + e1 + e2 + e3, e4);
    lemma_split_concat(s, 0, c0 + e1 + e2, e3);
    lemma_split_concat(s, 0, c0 + e1, e2);
    lemma_split_concat(s, 0, c0, e1);
    assert(s[0] == s.subrange(0, 1)[0]);
    lemma_read_err_list_at(rv.errors, s, 1);
    lemma_read_err_list_at(rv.warnings, s, 1 + e1.len());
    lemma_read_str_at(rv.stdout, s, 1 + e1.len() + e2.len());
    lemma_read_str_at(rv.stderr, s, 1 + e1.len() + e2.len() + e3.len());
}

/// Relies on `String`'s `FromIterator` for `char`: collecting characters
/// yields the string of exactly those characters.
#[verifier::external_body]
fn chars_to_string(v: &Vec<char>) -> (s: String)
    ensures
        s@ == v@,
{
    v.iter().collect()
}

fn level_char_of(l: &ErrorLevel) -> (c: char)
    ensures
        c == level_char(*l),
{
    match l {
        ErrorLevel::Error => 'E',
        ErrorLevel::Warning => 'W',
        ErrorLevel::Note => 'T',
        ErrorLevel::Help => 'H',
    }
}

fn push_string(out: &mut Vec<char>, s: &String)
    ensures
        final(out)@ == old(out)@ + spec_enc_str(s@),
{
    let st = s.as_str();
    let n = st.unicode_len();
    push_nat(out, n, 20);
    let ghost base = out@;
    let mut i: usize = 0;
    proof {
        assert(st@.take(0) =~= Seq::<char>::empty());
        assert(out@ =~= base + st@.take(0));
    }
    while i < n
        invariant
            i <= n,
            n == st@.len(),
            out@ == base + st@.take(i as int),
        decreases n - i,
    {
        out.push(st.get_char(i));
        proof {
            assert(st@.take(i + 1) =~= st@.take(i as int).push(st@[i as int]));
        }
        i = i + 1;
    }
    proof {
        assert(st@.take(n as int) =~= s@);
        assert(out@ =~= old(out)@ + spec_enc_str(s@));
    }
}

fn push_opt_string(out: &mut Vec<char>, o: &Option<String>)
    ensures
        final(out)@ == old(out)@ + spec_enc_opt_str(opt_str_view(*o)),
{
    match o {
        Option::None => {
            out.push('N');
            proof {
                assert(out@ =~= old(out)@ + spec_enc_opt_str(opt_str_view(*o)));
            }
        },
        Option::Some(v) => {
            out.push('S');
            push_string(out, v);
            proof {
                assert(out@ =~= old(out)@ + spec_enc_opt_str(opt_str_view(*o)));
            }
        },
    }
}

fn push_opt_nat(out: &mut Vec<char>, o: &Option<usize>)
    ensures
        final(out)@ == old(out)@ + spec_enc_opt_num(*o),
{
    match o {
        Option::None => {
            out.push('N');
            proof {
                assert(out@ =~= old(out)@ + spec_enc_opt_num(*o));
            }
        },
        Option::Some(n) => {
            out.push('S');
            push_nat(out, *n, 20);
            proof {
                assert(out@ =~= old(out)@ + spec_enc_opt_num(*o));
            }
        },
    }
}

fn push_err(out: &mut Vec<char>, e: &CompilationError)
    ensures
        final(out)@ == old(out)@ + spec_enc_err(e@),
{
    let c = level_char_of(&e.level);
    out.push(c);
    push_string(out, &e.message);
    push_opt_string(out, &e.code);
    push_opt_nat(out, &e.line);
    push_opt_nat(out, &e.column);
    push_opt_string(out, &e.file);
    push_opt_string(out, &e.suggestion);
    proof {
        assert(out@ =~= old(out)@ + spec_enc_err(e@));
    }
}

fn push_err_list(out: &mut Vec<char>, es: &Vec<CompilationError>)
    ensures
        final(out)@ == old(out)@ + spec_enc_err_list(error_views(es@)),
{
    push_nat(out, es.len(), 20);
    let ghost base = out@;
    let ghost evs = error_views(es@);
    let mut i: usize = 0;
    proof {
        assert(evs.take(0) =~= Seq::<ErrorView>::empty());
        assert(out@ =~= base + spec_enc_err_items(evs.take(0)));
    }
    while i < es.len()
        invariant
            i <= es@.len(),
            evs == error_views(es@),
            evs.len() == es@.len(),
            out@ == base + spec_enc_err_items(evs.take(i as int)),
        decreases es@.len() - i,
    {
        push_err(out, &es[i]);
        proof {
            assert(evs[i as int] == es@[i as int]@);
            assert(evs.take(i + 1) =~= evs.take(i as int).push(evs[i as int]));
            lemma_enc_items_push(evs.take(i as int), evs[i as int]);
            assert(out@ =~= base + spec_enc_err_items(evs.take(i + 1)));
        }
        i = i + 1;
    }
    proof {
        assert(evs.take(es@.len() as int) =~= evs);
        assert(out@ =~= old(out)@ + spec_enc_err_list(evs));
    }
}

/// Encodes a result to the wire format.
pub fn encode_result(r: &CompilationResult) -> (out: Vec<char>)
    ensures
        out@ == spec_enc_result(r@),
{
    let mut out: Vec<char> = Vec::new();
    if r.success {
        out.push('T');
    } else {
        out.push('F');
    }
    push_err_list(&mut out, &r.errors);
    push_err_list(&mut out, &r.warnings);
    push_string(&mut out, &r.stdout);
    push_string(&mut out, &r.stderr);
    proof {
        assert(out@ =~= spec_enc_result(r@));
    }
    out
}

fn read_string(s: &Vec<char>, pos: usize) -> (r: Option<(String, usize)>)
    ensures
        match spec_read_str(s@, pos as nat) {
            Option::Some(vp) => r matches Option::Some(rv) && rv.0@ == vp.0 && rv.1 == vp.1,
            Option::None => r is None,
        },
{
    match read_nat(s, pos) {
        Option::None => None,
        Option::Some((n, p)) => {
            let slen = s.len();
            if n > slen - p {
                return None;
            }
            let mut v: Vec<char> = Vec::new();
            let mut i: usize = 0;
            proof {
                assert(v@ =~= s@.subrange(p as int, p as int));
            }
            while i < n
                invariant
                    i <= n,
                    p + n <= s@.len(),
                    s@.len() == slen,
                    v@ == s@.subrange(p as int, p + i),
                decreases n - i,
            {
                v.push(s[p + i]);
                proof {
                    assert(s@.subrange(p as int, p + i + 1) =~= s@.subrange(
                        p as int,
                        p + i,
                    ).push(s@[p + i]));
                }
                i = i + 1;
            }
            let st = chars_to_string(&v);
            Some((st, p + n))
        },
    }
}

fn read_opt_string(s: &Vec<char>, pos: usize) -> (r: Option<(Option<String>, usize)>)
    ensures
        match spec_read_opt_str(s@, pos as nat) {
            Option::Some(vp) => r matches Option::Some(rv) && opt_str_view(rv.0) == vp.0 && rv.1
                == vp.1,
            Option::None => r is None,
        },
{
    if pos >= s.len() {
        return None;
    }
    let c = s[pos];
    if c == 'N' {
        Some((None, pos + 1))
    } else if c == 'S' {
        match read_string(s, pos + 1) {
            Option::None => None,
            Option::Some((v, p)) => Some((Some(v), p)),
        }
    } else {
        None
    }
}

fn read_opt_nat(s: &Vec<char>, pos: usize) -> (r: Option<(Option<usize>, usize)>)
    ensures
        match spec_read_opt_num(s@, pos as nat) {
            Option::Some(vp) => r matches Option::Some(rv) && rv.0 == vp.0 && rv.1 == vp.1,
            Option::None => r is None,
        },
{
    if pos >= s.len() {
        return None;
    }
    let c = s[pos];
    if c == 'N' {
        Some((None, pos + 1))
    } else if c == 'S' {
        match read_nat(s, pos + 1) {
            Option::None => None,
            Option::Some((v, p)) => Some((Some(v), p)),
        }
    } else {
        None
    }
}

fn read_level(s: &Vec<char>, pos: usize) -> (r: Option<(ErrorLevel, usize)>)
    ensures
        match spec_read_level(s@, pos as nat) {
            Option::Some(vp) => r matches Option::Some(rv) && rv.0 == vp.0 && rv.1 == vp.1,
            Option::None => r is None,
        },
{
    if pos >= s.len() {
        return None;
    }
    let c = s[pos];
    if c == 'E' {
        Some((ErrorLevel::Error, pos + 1))
    } else if c == 'W' {
        Some((ErrorLevel::Warning, pos + 1))
    } else if c == 'T' {
        Some((ErrorLevel::Note, pos + 1))
    } else if c == 'H' {
        Some((ErrorLevel::Help, pos + 1))
    } else {
        None
    }
}

fn read_err(s: &Vec<char>, pos: usize) -> (r: Option<(CompilationError, usize)>)
    ensures
        match spec_read_err(s@, pos as nat) {
            Option::Some(vp) => r matches Option::Some(rv) && rv.0@ == vp.0 && rv.1 == vp.1,
            Option::None => r is None,
        },
{
    let (level, p1) = match read_level(s, pos) {
        Option::None => {
            return None;
        },
        Option::Some(x) => x,
    };
    let (message, p2) = match read_string(s, p1) {
        Option::None => {
            return None;
        },
        Option::Some(x) => x,
    };
    let (code, p3) = match read_opt_string(s, p2) {
        Option::None => {
            return None;
        },
        Option::Some(x) => x,
    };
    let (line, p4) = match read_opt_nat(s, p3) {
        Option::None => {
            return None;
        },
        Option::Some(x) => x,
    };
    let (column, p5) = match read_opt_nat(s, p4) {
        Option::None => {
            return None;
        },
        Option::Some(x) => x,
    };
    let (file, p6) = match read_opt_string(s, p5) {
        Option::None => {
            return None;
        },
        Option::Some(x) => x,
    };
    let (suggestion, p7) = match read_opt_string(s, p6) {
        Option::None => {
            return None;
        },
        Option::Some(x) => x,
    };
    Some((CompilationError { level, message, code, line, column, file, suggestion }, p7))
}

fn read_err_items(s: &Vec<char>, pos: usize, n: usize) -> (r: Option<(Vec<CompilationError>, usize)>)
    ensures
        match spec_read_err_items(s@, pos as nat, n as nat) {
            Option::Some(vp) => r matches Option::Some(rv) && error_views(rv.0@) == vp.0 && rv.1
                == vp.1,
            Option::None => r is None,
        },
{
    let mut acc: Vec<CompilationError> = Vec::new();
    let mut cur: usize = pos;
    let mut i: usize = 0;
    proof {
        assert(error_views(acc@) =~= Seq::<ErrorView>::empty());
    }
    while i < n
        invariant
            i <= n,
            match spec_read_err_items(s@, cur as nat, (n - i) as nat) {
                Option::Some(vp) => spec_read_err_items(s@, pos as nat, n as nat)
                    == Option::Some((error_views(acc@) + vp.0, vp.1)),
                Option::None => spec_read_err_items(s@, pos as nat, n as nat) is None,
            },
        decreases n - i,
    {
        let ghost prev_acc = acc@;
        match read_err(s, cur) {
            Option::None => {
                return None;
            },
            Option::Some((e, p)) => {
                acc.push(e);
                proof {
                    assert(error_views(acc@) =~= error_views(prev_acc).push(e@));
                    match spec_read_err_items(s@, p as nat, (n - i - 1) as nat) {
                        Option::Some(vp) => {
                            assert(spec_read_err_items(s@, cur as nat, (n - i) as nat)
                                == Option::Some((seq![e@] + vp.0, vp.1)));
                            assert(error_views(prev_acc) + (seq![e@] + vp.0) =~= error_views(
                                prev_acc,
                            ).push(e@) + vp.0);
                        },
                        Option::None => {
                        },
                    }
                }
                cur = p;
            },
        }
        i = i + 1;
    }
    proof {
        assert(spec_read_err_items(s@, cur as nat, 0) == Option::Some(
            (Seq::<ErrorView>::empty(), cur as nat),
        ));
        assert(error_views(acc@) + Seq::<ErrorView>::empty() =~= error_views(acc@));
    }
    Some((acc, cur))
}

fn read_err_list(s: &Vec<char>, pos: usize) -> (r: Option<(Vec<CompilationError>, usize)>)
    ensures
        match spec_read_err_list(s@, pos as nat) {
            Option::Some(vp) => r matches Option::Some(rv) && error_views(rv.0@) == vp.0 && rv.1
                == vp.1,
            Option::None => r is None,
        },
{
    match read_nat(s, pos) {
        Option::None => None,
        Option::Some((n, p)) => read_err_items(s, p, n),
    }
}

/// Decodes a whole wire message back into a result; `None` for any stream
/// that is not exactly one encoded result.
pub fn decode_result(s: &Vec<char>) -> (r: Option<CompilationResult>)
    ensures
        match spec_dec_result(s@) {
            Option::Some(rv) => r matches Option::Some(res) && res@ == rv,
            Option::None => r is None,
        },
{
    if s.len() == 0 {
        return None;
    }
    let c = s[0];
    if c != 'T' && c != 'F' {
        return None;
    }
    let success = c == 'T';
    let (errors, p1) = match read_err_list(s, 1) {
        Option::None => {
            return None;
        },
        Option::Some(x) => x,
    };
    let (warnings, p2) = match read_err_list(s, p1) {
        Option::None => {
            return None;
        },
        Option::Some(x) => x,
    };
    let (stdout, p3) = match read_string(s, p2) {
        Option::None => {
            return None;
        },
        Option::Some(x) => x,
    };
    let (stderr, p4) = match read_string(s, p3) {
        Option::None => {
            return None;
        },
        Option::Some(x) => x,
    };
    if p4 != s.len() {
        return None;
    }
    Some(CompilationResult { success, errors, warnings, stdout, stderr })
}

} // verus!
