//! Identifiers of documents, and the rendering of the numbers that the
//! engine generates for them.

use vstd::prelude::*;
use vstd::std_specs::cmp::PartialEqSpecImpl;
use vstd::std_specs::convert::FromSpecImpl;
use vstd::string::StringExecFns;

verus! {

/// The identifier of a document inside its collection: an opaque string,
/// either supplied by the caller or rendered from a number that the engine
/// generated.
#[derive(Debug)]
pub struct Id(String);

impl View for Id {
    type V = Seq<char>;

    closed spec fn view(&self) -> Seq<char> {
        self.0@
    }
}

/// The character that stands for one decimal digit.
pub open spec fn digit(d: nat) -> char {
    if d == 0 {
        '0'
    } else if d == 1 {
        '1'
    } else if d == 2 {
        '2'
    } else if d == 3 {
        '3'
    } else if d == 4 {
        '4'
    } else if d == 5 {
        '5'
    } else if d == 6 {
        '6'
    } else if d == 7 {
        '7'
    } else if d == 8 {
        '8'
    } else {
        '9'
    }
}

/// The decimal rendering of a number: most significant digit first, no sign,
/// no padding, and the single digit `0` for zero.
pub open spec fn decimal(n: nat) -> Seq<char>
    decreases n,
{
    if n < 10 {
        seq![digit(n)]
    } else {
        decimal(n / 10).push(digit(n % 10))
    }
}

fn digit_str(d: u8) -> (r: &'static str)
    requires
        d < 10,
    ensures
        r@ == seq![digit(d as nat)],
{
    proof {
        reveal_strlit("0");
        reveal_strlit("1");
        reveal_strlit("2");
        reveal_strlit("3");
        reveal_strlit("4");
        reveal_strlit("5");
        reveal_strlit("6");
        reveal_strlit("7");
        reveal_strlit("8");
        reveal_strlit("9");
    }
    let r = if d == 0 {
        "0"
    } else if d == 1 {
        "1"
    } else if d == 2 {
        "2"
    } else if d == 3 {
        "3"
    } else if d == 4 {
        "4"
    } else if d == 5 {
        "5"
    } else if d == 6 {
        "6"
    } else if d == 7 {
        "7"
    } else if d == 8 {
        "8"
    } else {
        "9"
    };
    assert(r@ =~= seq![digit(d as nat)]);
    r
}

/// Renders a number in decimal.
fn render(n: u64) -> (r: String)
    ensures
        r@ == decimal(n as nat),
    decreases n,
{
    if n < 10 {
        let mut text = String::new();
        text.append(digit_str(n as u8));
        assert(text@ =~= decimal(n as nat));
        text
    } else {
        let mut text = render(n / 10);
        text.append(digit_str((n % 10) as u8));
        assert(text@ =~= decimal(n as nat));
        text
    }
}

impl Clone for Id {
    fn clone(&self) -> (r: Self)
        ensures
            r == *self,
    {
        Id(self.0.clone())
    }
}

impl PartialEq for Id {
    fn eq(&self, other: &Self) -> (r: bool) {
        self.0 == other.0
    }
}

impl PartialEqSpecImpl for Id {
    open spec fn obeys_eq_spec() -> bool {
        true
    }

    open spec fn eq_spec(&self, other: &Self) -> bool {
        self@ == other@
    }
}

impl std::ops::Deref for Id {
    type Target = String;

    fn deref(&self) -> (r: &String)
        ensures
            r@ == self@,
    {
        &self.0
    }
}

impl Id {
    /// The identifier made of a number that the engine generated: the
    /// number's decimal rendering.
    pub fn of_number(number: u64) -> (r: Self)
        ensures
            r@ == decimal(number as nat),
    {
        Id(render(number))
    }

    /// The text of the identifier, as a string of its own.
    pub fn to_string(&self) -> (r: String)
        ensures
            r@ == self@,
    {
        self.0.clone()
    }
}

impl From<u64> for Id {
    fn from(id: u64) -> (r: Self)
        ensures
            r@ == decimal(id as nat),
    {
        Id::of_number(id)
    }
}

/// Two strings of one text need not be one value to the verifier, so the
/// conversions that make a new string are stated over the view, in the
/// `ensures` of `from`, and not as an equation with `from_spec`.
impl FromSpecImpl<u64> for Id {
    open spec fn obeys_from_spec() -> bool {
        false
    }

    open spec fn from_spec(id: u64) -> Self {
        arbitrary()
    }
}

impl From<String> for Id {
    fn from(s: String) -> (r: Self)
        ensures
            r@ == s@,
    {
        Id(s)
    }
}

impl FromSpecImpl<String> for Id {
    open spec fn obeys_from_spec() -> bool {
        true
    }

    closed spec fn from_spec(s: String) -> Self {
        Id(s)
    }
}

impl<'a> From<&'a str> for Id {
    fn from(s: &'a str) -> (r: Self)
        ensures
            r@ == s@,
    {
        Id(s.to_owned())
    }
}

impl<'a> FromSpecImpl<&'a str> for Id {
    open spec fn obeys_from_spec() -> bool {
        false
    }

    open spec fn from_spec(s: &'a str) -> Self {
        arbitrary()
    }
}

impl From<Id> for String {
    fn from(id: Id) -> (r: Self)
        ensures
            r@ == id@,
    {
        id.0
    }
}

impl FromSpecImpl<Id> for String {
    open spec fn obeys_from_spec() -> bool {
        true
    }

    closed spec fn from_spec(id: Id) -> Self {
        id.0
    }
}

/// Every rendering holds at least one digit, and a number of two or more
/// digits at least two.
proof fn lemma_decimal_len(n: nat)
    ensures
        decimal(n).len() >= 1,
        n >= 10 ==> decimal(n).len() >= 2,
    decreases n,
{
    if n >= 10 {
        lemma_decimal_len(n / 10);
    }
}

/// Two numbers with the same decimal rendering are the same number: the
/// identifiers that `Id::from` makes of distinct generated numbers are
/// distinct.
pub proof fn lemma_decimal_injective(a: nat, b: nat)
    requires
        decimal(a) == decimal(b),
    ensures
        a == b,
    decreases a,
{
    lemma_decimal_len(a);
    lemma_decimal_len(b);
    if a >= 10 && b >= 10 {
        let (x, y) = (decimal(a / 10), decimal(b / 10));
        assert(x == x.push(digit(a % 10)).drop_last());
        assert(y == y.push(digit(b % 10)).drop_last());
        assert(digit(a % 10) == x.push(digit(a % 10)).last());
        assert(digit(b % 10) == y.push(digit(b % 10)).last());
        lemma_decimal_injective(a / 10, b / 10);
        assert(a % 10 == b % 10);
        assert(a == 10 * (a / 10) + a % 10);
        assert(b == 10 * (b / 10) + b % 10);
    } else if a < 10 && b < 10 {
        assert(decimal(a)[0] == digit(a));
        assert(decimal(b)[0] == digit(b));
    } else {
        assert(decimal(a).len() == decimal(b).len());
    }
}

} // verus!
