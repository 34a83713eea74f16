use vstd::prelude::*;
use vstd::string::StringExecFns;

verus! {

/// The role a key was minted for; it gives the key's text its prefix.
#[derive(Clone, Copy, Debug, PartialEq, Eq, Hash, Structural)]
pub enum KeyKind {
    Item,
    Space,
    Size,
}

/// An identifier, unique among those one layout has minted.
#[derive(Clone, Copy, Debug, PartialEq, Eq, Hash, Structural)]
pub struct Key {
    pub kind: KeyKind,
    pub index: u32,
}

pub open spec fn prefix_of(kind: KeyKind) -> Seq<char> {
    match kind {
        KeyKind::Item => "item_"@,
        KeyKind::Space => "space_"@,
        KeyKind::Size => "size_"@,
    }
}

/// The character of a decimal digit.
pub open spec fn digit_char(d: nat) -> char {
    if d == 0 { '0' } else if d == 1 { '1' } else if d == 2 { '2' } else if d == 3 { '3' }
    else if d == 4 { '4' } else if d == 5 { '5' } else if d == 6 { '6' } else if d == 7 { '7' }
    else if d == 8 { '8' } else { '9' }
}

/// The decimal digits of `n`, most significant first, without leading zeros.
pub open spec fn decimal(n: nat) -> Seq<char>
    decreases n,
{
    if n < 10 {
        seq![digit_char(n)]
    } else {
        decimal(n / 10) + seq![digit_char(n % 10)]
    }
}

fn digit_str(d: u32) -> (r: &'static str)
    requires
        d < 10,
    ensures
        r@ == seq![digit_char(d as nat)],
{
    proof {
        reveal_strlit("0");
        reveal_strlit("1");
        reveal_strlit("2");
        reveal_strlit("3");
        reveal_strlit("4");
        reveal_strlit("5");
        reveal_strlit("6");
        reveal_strlit("7");
        reveal_strlit("8");
        reveal_strlit("9");
    }
    match d {
        0 => "0",
        1 => "1",
        2 => "2",
        3 => "3",
        4 => "4",
        5 => "5",
        6 => "6",
        7 => "7",
        8 => "8",
        _ => "9",
    }
}

/// Appends the decimal digits of `n` to `s`.
fn push_decimal(s: &mut String, n: u32)
    ensures
        final(s)@ == old(s)@ + decimal(n as nat),
    decreases n,
{
    if n >= 10 {
        push_decimal(s, n / 10);
    }
    s.append(digit_str(n % 10));
}

impl Key {
    /// The key's text: its prefix followed by its index, as `item_7`.
    pub fn name(&self) -> (r: String)
        ensures
            r@ == prefix_of(self.kind) + decimal(self.index as nat),
    {
        let prefix = match self.kind {
            KeyKind::Item => "item_",
            KeyKind::Space => "space_",
            KeyKind::Size => "size_",
        };
        proof {
            reveal_strlit("item_");
            reveal_strlit("space_");
            reveal_strlit("size_");
        }
        let mut text = String::from_str(prefix);
        push_decimal(&mut text, self.index);
        text
    }
}

} // verus!
