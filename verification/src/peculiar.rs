use std::borrow::Cow;
use vstd::prelude::*;

verus! {

/// The decimal digit for `d`, where `d < 10`.
pub open spec fn digit_char(d: nat) -> char {
    if d == 0 { '0' } else if d == 1 { '1' } else if d == 2 { '2' } else if d == 3 { '3' }
    else if d == 4 { '4' } else if d == 5 { '5' } else if d == 6 { '6' } else if d == 7 { '7' }
    else if d == 8 { '8' } else { '9' }
}

/// The decimal digits of `n`, most significant first, without leading zeros.
pub open spec fn decimal_digits(n: nat) -> Seq<char>
    decreases n,
{
    if n < 10 {
        seq![digit_char(n)]
    } else {
        decimal_digits(n / 10).push(digit_char(n % 10))
    }
}

/// The number that the digit character `c` stands for.
pub open spec fn digit_value(c: char) -> int {
    c as int - '0' as int
}

/// The number that the decimal digits `s` stand for, most significant first:
/// `d_k * 10^k + ... + d_1 * 10 + d_0`.
pub open spec fn digits_value(s: Seq<char>) -> int
    decreases s.len(),
{
    if s.len() == 0 {
        0
    } else {
        digits_value(s.drop_last()) * 10 + digit_value(s.last())
    }
}

/// Ten to the power `k`.
pub open spec fn pow10(k: nat) -> nat
    decreases k,
{
    if k == 0 {
        1
    } else {
        10 * pow10((k - 1) as nat)
    }
}

proof fn lemma_digit_char_value(d: nat)
    requires
        d < 10,
    ensures
        digit_value(digit_char(d)) == d,
        '0' <= digit_char(d) <= '9',
{
}

/// The decimal digits of `n` read back as `n`: each is a digit from `0` to `9`, together they
/// stand for `n`, the first is not `0` unless `n` is zero, and there are exactly as many as `n`
/// needs: `10^(len - 1) <= n < 10^len` (for `n > 0`).
pub proof fn lemma_decimal_digits_read_back(n: nat)
    ensures
        decimal_digits(n).len() >= 1,
        forall|i: int|
            0 <= i < decimal_digits(n).len() ==> '0' <= #[trigger] decimal_digits(n)[i] <= '9',
        digits_value(decimal_digits(n)) == n,
        n > 0 ==> decimal_digits(n)[0] != '0',
        n < pow10(decimal_digits(n).len()),
        n > 0 ==> pow10((decimal_digits(n).len() - 1) as nat) <= n,
    decreases n,
{
    let d = decimal_digits(n);
    if n < 10 {
        lemma_digit_char_value(n);
        assert(d.drop_last() =~= Seq::<char>::empty());
        assert(digits_value(d.drop_last()) == 0);
        assert(d.last() == digit_char(n));
        assert(digits_value(d) == n);
        assert(pow10(1) == 10) by {
            assert(pow10(0) == 1);
        }
        assert(pow10(0) == 1);
        if n > 0 {
            assert(d[0] == digit_char(n));
            assert(digit_value(d[0]) == n);
        }
    } else {
        let q = n / 10;
        let r = n % 10;
        lemma_decimal_digits_read_back(q);
        lemma_digit_char_value(r);
        let dq = decimal_digits(q);
        assert(d == dq.push(digit_char(r)));
        assert(d.drop_last() =~= dq);
        assert(d.last() == digit_char(r));
        assert(digits_value(d) == digits_value(dq) * 10 + r);
        assert(q * 10 + r == n);
        assert forall|i: int| 0 <= i < d.len() implies '0' <= #[trigger] d[i] <= '9' by {
            if i < dq.len() {
                assert(d[i] == dq[i]);
            }
        }
        assert(q > 0);
        assert(d[0] == dq[0]);
        let l = dq.len();
        assert(pow10(l + 1) == 10 * pow10(l));
        assert(pow10(l) == 10 * pow10((l - 1) as nat));
        assert(q < pow10(l));
        assert(pow10((l - 1) as nat) <= q);
        assert(n < pow10(d.len())) by (nonlinear_arith)
            requires
                q < pow10(l),
                n == q * 10 + r,
                r < 10,
                pow10(d.len()) == 10 * pow10(l),
        ;
        assert(pow10((d.len() - 1) as nat) <= n) by (nonlinear_arith)
            requires
                pow10((d.len() - 1) as nat) == 10 * pow10((l - 1) as nat),
                pow10((l - 1) as nat) <= q,
                n == q * 10 + r,
                r >= 0,
        ;
    }
}

/// The decimal text of an integer reads back as that integer: a leading `-` exactly for a
/// negative one, followed by the digits of its magnitude.
pub proof fn lemma_decimal_text_read_back(n: int)
    ensures
        n < 0 ==> decimal_text(n).len() >= 2 && decimal_text(n)[0] == '-' && digits_value(
            decimal_text(n).drop_first(),
        ) == -n,
        n >= 0 ==> digits_value(decimal_text(n)) == n && decimal_text(n)[0] != '-',
{
    if n < 0 {
        lemma_decimal_digits_read_back((-n) as nat);
        assert(decimal_text(n).drop_first() =~= decimal_digits((-n) as nat));
    } else {
        lemma_decimal_digits_read_back(n as nat);
        assert('0' <= decimal_text(n)[0] <= '9');
    }
}

/// The decimal text of `n`, with a leading `-` where it is negative.
pub open spec fn decimal_text(n: int) -> Seq<char> {
    if n < 0 {
        seq!['-'] + decimal_digits((-n) as nat)
    } else {
        decimal_digits(n as nat)
    }
}

/// The text of one decimal digit.
fn digit_text(d: u8) -> (s: &'static str)
    requires
        d < 10,
    ensures
        s@ == seq![digit_char(d as nat)],
{
    match d {
        0 => {
            proof {
                reveal_strlit("0");
            }
            "0"
        },
        1 => {
            proof {
                reveal_strlit("1");
            }
            "1"
        },
        2 => {
            proof {
                reveal_strlit("2");
            }
            "2"
        },
        3 => {
            proof {
                reveal_strlit("3");
            }
            "3"
        },
        4 => {
            proof {
                reveal_strlit("4");
            }
            "4"
        },
        5 => {
            proof {
                reveal_strlit("5");
            }
            "5"
        },
        6 => {
            proof {
                reveal_strlit("6");
            }
            "6"
        },
        7 => {
            proof {
                reveal_strlit("7");
            }
            "7"
        },
        8 => {
            proof {
                reveal_strlit("8");
            }
            "8"
        },
        _ => {
            proof {
                reveal_strlit("9");
            }
            "9"
        },
    }
}

/// Appends the decimal digits of `n` to `out`, most significant first.
pub(crate) fn append_digits(out: &mut String, n: u128)
    ensures
        final(out)@ == old(out)@ + decimal_digits(n as nat),
    decreases n,
{
    if n >= 10 {
        append_digits(out, n / 10);
    }
    let ghost before = out@;
    out.append(digit_text((n % 10) as u8));
    proof {
        if n >= 10 {
            assert(decimal_digits(n as nat) == decimal_digits((n / 10) as nat).push(
                digit_char((n % 10) as nat),
            ));
            assert(out@ =~= old(out)@ + decimal_digits(n as nat));
        } else {
            assert(out@ =~= old(out)@ + decimal_digits(n as nat));
        }
    }
}

/// The decimal text of `n`, with a leading `-` where it is negative.
fn i64_to_string(n: i64) -> (s: String)
    ensures
        s@ == decimal_text(n as int),
{
    let mut out = String::new();
    if n < 0 {
        proof {
            reveal_strlit("-");
        }
        out.append("-");
        let magnitude: u128 = (-(n as i128)) as u128;
        append_digits(&mut out, magnitude);
        assert(out@ =~= decimal_text(n as int));
    } else {
        append_digits(&mut out, n as u128);
        assert(out@ =~= decimal_text(n as int));
    }
    out
}

/// A value that is either a text or a number.
#[derive(Debug, PartialEq)]
pub enum Value {
    String(String),
    Number(i64),
}

/// The text of a value: the text itself, or the decimal notation of the number.
pub open spec fn value_text(v: Value) -> Seq<char> {
    match v {
        Value::String(s) => s@,
        Value::Number(n) => decimal_text(n as int),
    }
}

impl Value {
    /// The text, where the value is one.
    pub fn as_str(&self) -> (r: Option<&str>)
        ensures
            match self {
                Value::String(s) => r is Some && r.unwrap()@ == s@,
                Value::Number(_) => r is None,
            },
    {
        match self {
            Value::String(s) => Some(s.as_str()),
            _ => None,
        }
    }

    /// The text of the value, owned.
    pub fn to_string(&self) -> (r: String)
        ensures
            r@ == value_text(*self),
    {
        match self {
            Value::String(s) => s.clone(),
            Value::Number(n) => i64_to_string(*n),
        }
    }

    /// The text of the value: borrowed where it is a text, owned where it is a number.
    pub fn to_str(&self) -> (r: Cow<'_, str>)
        ensures
            r@ == value_text(*self),
            r is Borrowed <==> self is String,
    {
        match self {
            Value::String(s) => Cow::Borrowed(s.as_str()),
            Value::Number(n) => Cow::Owned(i64_to_string(*n)),
        }
    }
}

/// Reading a value as a given type.
pub trait TryConvertValue<'a>: Sized {
    type Output;

    /// `r` is what converting `value` gives.
    spec fn converts(value: &'a Value, r: Option<Self::Output>) -> bool;

    /// `value` can be read as this type.
    spec fn convertible(value: &'a Value) -> bool;

    /// Reads `value` as this type, or `None` where it is not one.
    fn try_convert_value(value: &'a Value) -> (r: Option<Self::Output>)
        ensures
            Self::converts(value, r),
            r is Some <==> Self::convertible(value),
    ;
}

/// Reads `value` as a `T`.
pub fn convert<'a, T: TryConvertValue<'a>>(value: &'a Value) -> (r: Option<T::Output>)
    ensures
        T::converts(value, r),
        r is Some <==> T::convertible(value),
{
    T::try_convert_value(value)
}

impl<'a> TryConvertValue<'a> for i64 {
    type Output = i64;

    open spec fn converts(value: &'a Value, r: Option<i64>) -> bool {
        match *value {
            Value::Number(n) => r == Some(n),
            Value::String(_) => r is None,
        }
    }

    open spec fn convertible(value: &'a Value) -> bool {
        value is Number
    }

    fn try_convert_value(value: &'a Value) -> Option<i64> {
        match value {
            Value::Number(n) => Some(*n),
            _ => None,
        }
    }
}

impl<'a> TryConvertValue<'a> for String {
    type Output = String;

    open spec fn converts(value: &'a Value, r: Option<String>) -> bool {
        r is Some && r.unwrap()@ == value_text(*value)
    }

    open spec fn convertible(value: &'a Value) -> bool {
        true
    }

    fn try_convert_value(value: &'a Value) -> Option<String> {
        match value {
            Value::String(s) => Some(s.clone()),
            Value::Number(n) => Some(i64_to_string(*n)),
        }
    }
}

impl<'a> TryConvertValue<'a> for &str {
    type Output = &'a str;

    open spec fn converts(value: &'a Value, r: Option<&'a str>) -> bool {
        match *value {
            Value::String(s) => r is Some && r.unwrap()@ == s@,
            Value::Number(_) => r is None,
        }
    }

    open spec fn convertible(value: &'a Value) -> bool {
        value is String
    }

    fn try_convert_value(value: &'a Value) -> Option<&'a str> {
        match value {
            Value::String(s) => Some(s.as_str()),
            _ => None,
        }
    }
}

/// A function of one argument that gives a value.
pub trait CallbackTrait<Arg> {
    /// `self` accepts `arg`.
    spec fn accepts(&self, arg: Arg) -> bool;

    /// `r` is a result of `self` on `arg`.
    spec fn gives(&self, arg: Arg, r: Value) -> bool;

    /// Calls the function on `arg`.
    fn invoke(&self, arg: Arg) -> (r: Value)
        requires
            self.accepts(arg),
        ensures
            self.gives(arg, r),
    ;
}

impl<Func, Arg> CallbackTrait<Arg> for Func where
    Func: Fn(Arg) -> Value + Send + Sync + 'static,
    Arg: for<'a> TryConvertValue<'a>,
 {
    open spec fn accepts(&self, arg: Arg) -> bool {
        self.requires((arg,))
    }

    open spec fn gives(&self, arg: Arg, r: Value) -> bool {
        self.ensures((arg,), r)
    }

    fn invoke(&self, arg: Arg) -> Value {
        (self)(arg)
    }
}

/// A callback on values: converts its argument to what the wrapped function takes, then calls it.
pub struct ArgCallback<F, Arg> {
    f: F,
    arg: std::marker::PhantomData<Arg>,
}

impl<F, Arg> ArgCallback<F, Arg> where
    Arg: for<'a> TryConvertValue<'a>,
    F: CallbackTrait<Arg> + for<'a> CallbackTrait<<Arg as TryConvertValue<'a>>::Output>,
 {
    /// Wraps `f`.
    pub fn new(f: F) -> (c: Self)
        ensures
            c.callback() == f,
    {
        ArgCallback { f, arg: std::marker::PhantomData }
    }

    /// The wrapped function.
    pub closed spec fn callback(&self) -> F {
        self.f
    }

    /// Converts `arg` and calls the wrapped function on the result.
    pub fn invoke<'b>(&self, arg: &'b Value) -> (r: Value) where
        F: for<'a> Fn(<Arg as TryConvertValue<'a>>::Output) -> Value,

        requires
            <Arg as TryConvertValue<'b>>::convertible(arg),
            forall|x: <Arg as TryConvertValue<'b>>::Output|
                <Arg as TryConvertValue<'b>>::converts(arg, Some(x)) ==> #[trigger] self.callback().requires(
                    (x,),
                ),
        ensures
            exists|x: <Arg as TryConvertValue<'b>>::Output|
                <Arg as TryConvertValue<'b>>::converts(arg, Some(x)) && #[trigger] self.callback().ensures(
                    (x,),
                    r,
                ),
    {
        let converted = <Arg as TryConvertValue<'b>>::try_convert_value(arg);
        match converted {
            Some(x) => {
                assert(<Arg as TryConvertValue<'b>>::converts(arg, Some(x)));
                assert(self.callback().requires((x,)));
                let r = (self.f)(x);
                assert(self.callback().ensures((x,), r));
                r
            },
            None => Value::Number(0),
        }
    }
}

} // verus!
