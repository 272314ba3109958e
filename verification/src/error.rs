//! Why a byte sequence was not decoded.
use vstd::prelude::*;
use vstd::string::StringExecFns;

verus! {

/// What the text grammar wanted at the place where it gave up.
#[derive(Clone, Copy, Debug, PartialEq, Eq, Structural)]
pub enum Expected {
    Solid,
    /// The word that opens a facet. No failure reports it: where no facet
    /// begins, the facets are over and `endsolid` is expected.
    Facet,
    Normal,
    Outer,
    Loop,
    Vertex,
    EndLoop,
    EndFacet,
    EndSolid,
    /// One blank at least: a space, a tab, a line feed or a carriage return.
    Blank,
    /// A decimal number, with or without an exponent.
    Number,
}

/// A failure of the text dialect.
#[derive(Clone, Copy, Debug, PartialEq, Eq, Structural)]
pub enum TextError {
    /// The bytes are not UTF-8.
    NotUtf8,
    /// At byte `offset` the grammar wanted `expected` and found something
    /// else, or the end of the text.
    Syntax { offset: usize, expected: Expected },
    /// The grammar was met, but a corner of facet number `triangle`, counted
    /// from 0, lies at infinity or at a NaN.
    NonFinite { triangle: usize },
}

/// A failure of the binary dialect.
#[derive(Clone, Copy, Debug, PartialEq, Eq, Structural)]
pub enum BinaryError {
    /// There are `length` bytes, fewer than the header of 84.
    TooSmall { length: usize },
    /// The header declares `declared` triangles, and `length` bytes are
    /// fewer than header and records take.
    Truncated { declared: u32, length: usize },
    /// The sizes are right, but a corner of triangle number `triangle`,
    /// counted from 0, lies at infinity or at a NaN.
    NonFinite { triangle: usize },
}

/// Why no mesh was decoded.
#[derive(Clone, Copy, Debug, PartialEq, Eq, Structural)]
pub enum DecodeError {
    /// The bytes do not start like a text file and are no binary one.
    Binary(BinaryError),
    /// The bytes start like a text file and are neither a text file nor a
    /// binary one.
    Unrecognized { text: TextError, binary: BinaryError },
}

/// The decimal digit of a number below ten.
pub open spec fn digit(d: int) -> char {
    if d == 0 {
        '0'
    } else if d == 1 {
        '1'
    } else if d == 2 {
        '2'
    } else if d == 3 {
        '3'
    } else if d == 4 {
        '4'
    } else if d == 5 {
        '5'
    } else if d == 6 {
        '6'
    } else if d == 7 {
        '7'
    } else if d == 8 {
        '8'
    } else {
        '9'
    }
}

/// A number in decimal digits, without leading zeros.
pub open spec fn decimal(n: nat) -> Seq<char>
    decreases n,
{
    if n < 10 {
        seq![digit(n as int)]
    } else {
        decimal(n / 10).push(digit((n % 10) as int))
    }
}

fn digit_text(d: u64) -> (r: &'static str)
    requires
        d < 10,
    ensures
        r@ == seq![digit(d as int)],
{
    proof {
        reveal_strlit("0");
        reveal_strlit("1");
        reveal_strlit("2");
        reveal_strlit("3");
        reveal_strlit("4");
        reveal_strlit("5");
        reveal_strlit("6");
        reveal_strlit("7");
        reveal_strlit("8");
        reveal_strlit("9");
    }
    let r = match d {
        0 => "0",
        1 => "1",
        2 => "2",
        3 => "3",
        4 => "4",
        5 => "5",
        6 => "6",
        7 => "7",
        8 => "8",
        _ => "9",
    };
    assert(r@ =~= seq![digit(d as int)]);
    r
}

fn append_decimal(out: &mut String, n: u64)
    ensures
        final(out)@ == old(out)@ + decimal(n as nat),
    decreases n,
{
    if n >= 10 {
        append_decimal(out, n / 10);
    }
    out.append(digit_text(n % 10));
    assert(out@ =~= old(out)@ + decimal(n as nat));
}

impl Expected {
    /// The word for what was expected.
    pub open spec fn name(self) -> Seq<char> {
        match self {
            Expected::Solid => "`solid`"@,
            Expected::Facet => "`facet`"@,
            Expected::Normal => "`normal`"@,
            Expected::Outer => "`outer`"@,
            Expected::Loop => "`loop`"@,
            Expected::Vertex => "`vertex`"@,
            Expected::EndLoop => "`endloop`"@,
            Expected::EndFacet => "`endfacet`"@,
            Expected::EndSolid => "`endsolid`"@,
            Expected::Blank => "a blank"@,
            Expected::Number => "a number"@,
        }
    }

    fn word(self) -> (r: &'static str)
        ensures
            r@ == self.name(),
    {
        match self {
            Expected::Solid => "`solid`",
            Expected::Facet => "`facet`",
            Expected::Normal => "`normal`",
            Expected::Outer => "`outer`",
            Expected::Loop => "`loop`",
            Expected::Vertex => "`vertex`",
            Expected::EndLoop => "`endloop`",
            Expected::EndFacet => "`endfacet`",
            Expected::EndSolid => "`endsolid`",
            Expected::Blank => "a blank",
            Expected::Number => "a number",
        }
    }
}

impl TextError {
    /// The cause in words.
    pub open spec fn text(self) -> Seq<char> {
        match self {
            TextError::NotUtf8 => "the text is not UTF-8"@,
            TextError::Syntax { offset, expected } => "expected "@ + expected.name() + " at byte "@
                + decimal(offset as nat),
            TextError::NonFinite { triangle } => "a corner of facet "@ + decimal(triangle as nat)
                + " is not finite"@,
        }
    }

    /// The cause in words.
    pub fn message(&self) -> (r: String)
        ensures
            r@ == self.text(),
    {
        match *self {
            TextError::NotUtf8 => String::from_str("the text is not UTF-8"),
            TextError::Syntax { offset, expected } => {
                let mut r = String::from_str("expected ");
                r.append(expected.word());
                r.append(" at byte ");
                append_decimal(&mut r, offset as u64);
                r
            },
            TextError::NonFinite { triangle } => {
                let mut r = String::from_str("a corner of facet ");
                append_decimal(&mut r, triangle as u64);
                r.append(" is not finite");
                r
            },
        }
    }
}

impl BinaryError {
    /// The cause in words.
    pub open spec fn text(self) -> Seq<char> {
        match self {
            BinaryError::TooSmall { length } => "file too small: "@ + decimal(length as nat)
                + " bytes, and the header alone takes 84"@,
            BinaryError::Truncated { declared, length } => "unexpected end of file: "@ + decimal(
                declared as nat,
            ) + " triangles declared, which take "@ + decimal((84 + 50 * declared) as nat)
                + " bytes, and "@ + decimal(length as nat) + " bytes found"@,
            BinaryError::NonFinite { triangle } => "a corner of triangle "@ + decimal(
                triangle as nat,
            ) + " is not finite"@,
        }
    }

    /// The cause in words.
    pub fn message(&self) -> (r: String)
        ensures
            r@ == self.text(),
    {
        match *self {
            BinaryError::TooSmall { length } => {
                let mut r = String::from_str("file too small: ");
                append_decimal(&mut r, length as u64);
                r.append(" bytes, and the header alone takes 84");
                r
            },
            BinaryError::Truncated { declared, length } => {
                let mut r = String::from_str("unexpected end of file: ");
                append_decimal(&mut r, declared as u64);
                r.append(" triangles declared, which take ");
                append_decimal(&mut r, 84 + 50 * (declared as u64));
                r.append(" bytes, and ");
                append_decimal(&mut r, length as u64);
                r.append(" bytes found");
                r
            },
            BinaryError::NonFinite { triangle } => {
                let mut r = String::from_str("a corner of triangle ");
                append_decimal(&mut r, triangle as u64);
                r.append(" is not finite");
                r
            },
        }
    }
}

impl DecodeError {
    /// The cause in words.
    pub open spec fn text(self) -> Seq<char> {
        match self {
            DecodeError::Binary(binary) => binary.text(),
            DecodeError::Unrecognized { text, binary } => "neither text STL ("@ + text.text()
                + ") nor binary STL ("@ + binary.text() + ")"@,
        }
    }

    /// The cause in words.
    pub fn message(&self) -> (r: String)
        ensures
            r@ == self.text(),
    {
        match *self {
            DecodeError::Binary(binary) => binary.message(),
            DecodeError::Unrecognized { text, binary } => {
                let mut r = String::from_str("neither text STL (");
                r.append(text.message().as_str());
                r.append(") nor binary STL (");
                r.append(binary.message().as_str());
                r.append(")");
                r
            },
        }
    }
}

} // verus!
