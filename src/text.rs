use vstd::prelude::*;

verus! {

/// The two texts one after the other.
pub fn concat(a: &str, b: &str) -> (r: String)
    ensures
        r@ == a@ + b@,
{
    let mut r: String = <String as vstd::string::StringExecFns>::from_str(a);
    vstd::string::StringExecFns::append(&mut r, b);
    r
}

/// The ten decimal digits.
pub open spec fn digit_chars() -> Seq<char> {
    seq!['0', '1', '2', '3', '4', '5', '6', '7', '8', '9']
}

/// `v` in decimal, without leading zeros.
pub open spec fn decimal_text(v: nat) -> Seq<char>
    decreases v,
{
    if v < 10 {
        seq![digit_chars()[v as int]]
    } else {
        decimal_text(v / 10).push(digit_chars()[(v % 10) as int])
    }
}

/// The last `width` decimal digits of `v`, zero-padded.
pub open spec fn padded_text(v: nat, width: nat) -> Seq<char>
    decreases width,
{
    if width == 0 {
        seq![]
    } else {
        padded_text(v / 10, (width - 1) as nat).push(digit_chars()[(v % 10) as int])
    }
}

/// The text of one decimal digit.
pub fn digit(v: u32) -> (r: &'static str)
    requires
        v < 10,
    ensures
        r@ == seq![digit_chars()[v as int]],
{
    proof {
        reveal_strlit("0");
        reveal_strlit("1");
        reveal_strlit("2");
        reveal_strlit("3");
        reveal_strlit("4");
        reveal_strlit("5");
        reveal_strlit("6");
        reveal_strlit("7");
        reveal_strlit("8");
        reveal_strlit("9");
    }
    let r = match v {
        0 => "0",
        1 => "1",
        2 => "2",
        3 => "3",
        4 => "4",
        5 => "5",
        6 => "6",
        7 => "7",
        8 => "8",
        _ => "9",
    };
    assert(r@ =~= seq![digit_chars()[v as int]]);
    r
}

/// `v` in decimal, zero-padded to `width` digits.
pub fn padded(v: u32, width: u32) -> (r: String)
    requires
        width <= 10,
    ensures
        r@ == padded_text(v as nat, width as nat),
    decreases width,
{
    if width == 0 {
        let r = concat("", "");
        proof {
            reveal_strlit("");
        }
        assert(r@ =~= padded_text(v as nat, 0));
        r
    } else {
        let head = padded(v / 10, width - 1);
        let r = concat(head.as_str(), digit(v % 10));
        assert(r@ =~= padded_text(v as nat, width as nat));
        r
    }
}

/// `v` in decimal, without leading zeros.
pub fn decimal(v: u32) -> (r: String)
    ensures
        r@ == decimal_text(v as nat),
    decreases v,
{
    if v < 10 {
        let r = concat("", digit(v));
        proof {
            reveal_strlit("");
        }
        assert(r@ =~= decimal_text(v as nat));
        r
    } else {
        let head = decimal(v / 10);
        let r = concat(head.as_str(), digit(v % 10));
        assert(r@ =~= decimal_text(v as nat));
        r
    }
}

/// Tells whether two texts are the same.
pub fn same_text(a: &str, b: &str) -> (r: bool)
    ensures
        r == (a@ == b@),
{
    let n = a.unicode_len();
    if n != b.unicode_len() {
        return false;
    }
    let mut i: usize = 0;
    while i < n
        invariant
            n == a@.len() && n == b@.len(),
            i <= n,
            forall|j: int| 0 <= j < i ==> a@[j] == b@[j],
        decreases n - i,
    {
        if a.get_char(i) != b.get_char(i) {
            return false;
        }
        i = i + 1;
    }
    assert(a@ =~= b@);
    true
}

} // verus!
